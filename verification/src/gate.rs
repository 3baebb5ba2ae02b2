//! Who may talk to the router, and which headers leave it.

use crate::digest::{constant_time_equal, same_secret, without_zero};
use crate::http::{
    byte_chars, error_reply, error_response, first_value, header_name, header_name_ok,
    header_value, header_value_ok, header_views, lookup, visible, HeaderText, HeaderView, Headers,
    Reply, ReplyView, BAD_REQUEST, FORBIDDEN, SERVICE_UNAVAILABLE, UNAUTHORIZED,
    UNSUPPORTED_MEDIA_TYPE,
};
use crate::registry::{AuthView, ProviderConfig};
use crate::router_error::{RouterError, RouterErrorView};
use crate::search::{kept_where, kept_where_holds};
use crate::text::{
    blank, chars_of, first_index, is_blank, lowered, opt_view, part_of, pieces, split, starts_with,
    str_eq, to_lower, trim, trimmed, views,
};
use crate::urls::{
    is_loopback_authority, is_loopback_host, loopback_authority, loopback_host, parse_url,
    parse_view, url_parsed, UrlParts, UrlView,
};
use vstd::prelude::*;
use vstd::string::*;
use vstd::utf8::{
    encode_utf8, encode_utf8_decode_utf8, is_ascii_chars, is_ascii_chars_encode_utf8,
};

verus! {

/// The header that carries the router's capability token.
pub const CAPABILITY_HEADER: &'static str = "x-codex-omnibridge-token";

/// The view of an optional reply.
pub open spec fn opt_reply(r: Option<Reply>) -> Option<ReplyView> {
    match r {
        Some(r) => Some(r@),
        None => None,
    }
}

/// The reply to a request that does not come from this machine.
pub open spec fn bad_origin(status: u16) -> Option<ReplyView> {
    Some(error_reply(status, RouterErrorView::InvalidRequestOrigin.message()))
}

/// The reply that refuses the origin of a request, given how its origin was read.
pub open spec fn origin_url_refusal(parsed: Result<UrlView, Seq<char>>) -> Option<ReplyView> {
    match parsed {
        Err(_) => bad_origin(BAD_REQUEST),
        Ok(u) => if (u.scheme == "http"@ || u.scheme == "https"@ || u.scheme == "tauri"@)
            && u.host is Some && loopback_host(u.host->0) {
            None
        } else {
            bad_origin(FORBIDDEN)
        },
    }
}

/// The reply that refuses the host and origin of a request, if they are refused.
pub open spec fn origin_refusal(headers: Seq<(Seq<char>, Seq<u8>)>) -> Option<ReplyView> {
    match lookup(headers, "host"@) {
        HeaderView::Text(host) => if !loopback_authority(host) {
            bad_origin(BAD_REQUEST)
        } else {
            match lookup(headers, "origin"@) {
                HeaderView::Absent => None,
                HeaderView::Opaque => bad_origin(BAD_REQUEST),
                HeaderView::Text(origin) => origin_url_refusal(url_parsed(origin)),
            }
        },
        _ => bad_origin(BAD_REQUEST),
    }
}

fn refuse_origin(status: u16) -> (r: Option<Reply>)
    ensures
        opt_reply(r) == bad_origin(status),
{
    Some(error_response(status, &RouterError::InvalidRequestOrigin.message()))
}

/// Refuses an origin by how it was read as a URL.
pub fn validate_origin_url(parsed: Result<UrlParts, String>) -> (r: Option<Reply>)
    ensures
        opt_reply(r) == origin_url_refusal(parse_view(parsed)),
{
    match parsed {
        Err(_) => refuse_origin(BAD_REQUEST),
        Ok(u) => {
            let allowed_scheme = str_eq(&u.scheme, "http") || str_eq(&u.scheme, "https") || str_eq(
                &u.scheme,
                "tauri",
            );
            let allowed_host = match &u.host {
                Some(host) => is_loopback_host(host),
                None => false,
            };
            if allowed_scheme && allowed_host {
                None
            } else {
                refuse_origin(FORBIDDEN)
            }
        },
    }
}

/// Refuses a request whose host or origin is not this machine.
pub fn validate_request_origin(headers: &Headers) -> (r: Option<Reply>)
    ensures
        opt_reply(r) == origin_refusal(headers@),
{
    match headers.get("host") {
        HeaderText::Text(host) => {
            if !is_loopback_authority(&host) {
                return refuse_origin(BAD_REQUEST);
            }
            match headers.get("origin") {
                HeaderText::Absent => None,
                HeaderText::Opaque => refuse_origin(BAD_REQUEST),
                HeaderText::Text(origin) => validate_origin_url(parse_url(&origin)),
            }
        },
        _ => refuse_origin(BAD_REQUEST),
    }
}

/// The reply that refuses the capability token of a request, if it is refused. A
/// router without a token refuses every request.
pub open spec fn token_refusal(
    token: Option<Seq<char>>,
    headers: Seq<(Seq<char>, Seq<u8>)>,
) -> Option<ReplyView> {
    match token {
        None => Some(
            error_reply(
                SERVICE_UNAVAILABLE,
                RouterErrorView::MissingCapabilityToken.message(),
            ),
        ),
        Some(expected) => {
            let unauthorized = Some(
                error_reply(UNAUTHORIZED, RouterErrorView::Unauthorized.message()),
            );
            match lookup(headers, CAPABILITY_HEADER@) {
                HeaderView::Text(given) => if same_secret(
                    encode_utf8(given),
                    encode_utf8(expected),
                ) {
                    None
                } else {
                    unauthorized
                },
                _ => unauthorized,
            }
        },
    }
}

/// The reply that refuses a request, if it is refused.
pub open spec fn refusal(
    token: Option<Seq<char>>,
    headers: Seq<(Seq<char>, Seq<u8>)>,
) -> Option<ReplyView> {
    match origin_refusal(headers) {
        Some(r) => Some(r),
        None => token_refusal(token, headers),
    }
}

/// Refuses a request that is not from this machine or lacks the capability token.
pub fn authorize(token: &Option<String>, headers: &Headers) -> (r: Option<Reply>)
    ensures
        opt_reply(r) == refusal(opt_view(*token), headers@),
{
    let refused = validate_request_origin(headers);
    if refused.is_some() {
        return refused;
    }
    let expected = match token {
        Some(expected) => expected,
        None => return Some(
            error_response(SERVICE_UNAVAILABLE, &RouterError::MissingCapabilityToken.message()),
        ),
    };
    match headers.get(CAPABILITY_HEADER) {
        HeaderText::Text(given) => {
            if constant_time_equal(given.as_str().as_bytes(), expected.as_str().as_bytes()) {
                return None;
            }
        },
        _ => {},
    }
    Some(error_response(UNAUTHORIZED, &RouterError::Unauthorized.message()))
}

/// A request without the capability header is never let through, nor is any request to
/// a router without a token.
pub proof fn no_token_no_entry(token: Option<Seq<char>>, headers: Seq<(Seq<char>, Seq<u8>)>)
    requires
        token is None || lookup(headers, CAPABILITY_HEADER@) is Absent,
    ensures
        refusal(token, headers) is Some,
{
}

/// A request from this machine that carries the token is let through.
pub proof fn the_token_opens(token: Seq<char>, headers: Seq<(Seq<char>, Seq<u8>)>)
    requires
        origin_refusal(headers) is None,
        lookup(headers, CAPABILITY_HEADER@) == HeaderView::Text(token),
    ensures
        refusal(Some(token), headers) is None,
{
    crate::digest::same_secret_accepts_equals(encode_utf8(token));
}

/// The text of a header holds no zero byte.
proof fn header_texts_hold_no_zero(headers: Seq<(Seq<char>, Seq<u8>)>, name: Seq<char>)
    requires
        lookup(headers, name) is Text,
    ensures
        without_zero(encode_utf8(lookup(headers, name)->Text_0)),
{
    let value = first_value(headers, name)->0;
    let text = byte_chars(value);
    assert forall|i: int| 0 <= i < text.len() implies '\u{9}' <= #[trigger] text[i] <= '\u{7f}' by {
        assert(visible(value[i]));
        assert(text[i] == value[i] as char);
    }
    assert(is_ascii_chars(text));
    is_ascii_chars_encode_utf8(text);
    assert forall|i: int| 0 <= i < encode_utf8(text).len() implies #[trigger] encode_utf8(text)[i]
        != 0 by {
        assert(text[i] as u8 == encode_utf8(text)[i]);
    }
}

/// A request that carries another token is refused, where the token holds no zero byte.
pub proof fn another_token_is_refused(
    token: Seq<char>,
    given: Seq<char>,
    headers: Seq<(Seq<char>, Seq<u8>)>,
)
    requires
        lookup(headers, CAPABILITY_HEADER@) == HeaderView::Text(given),
        given != token,
        without_zero(encode_utf8(token)),
    ensures
        refusal(Some(token), headers) is Some,
{
    header_texts_hold_no_zero(headers, CAPABILITY_HEADER@);
    encode_utf8_decode_utf8(given);
    encode_utf8_decode_utf8(token);
    crate::digest::same_secret_is_equality(encode_utf8(given), encode_utf8(token));
}

/// The media type of a content type: what stands before its parameters.
pub open spec fn media_type(value: Seq<char>) -> Seq<char> {
    lowered(trimmed(pieces(value, ';')[0]))
}

/// Whether a request says that its body is JSON.
pub open spec fn says_json(headers: Seq<(Seq<char>, Seq<u8>)>) -> bool {
    match lookup(headers, "content-type"@) {
        HeaderView::Text(value) => media_type(value) == "application/json"@,
        _ => false,
    }
}

/// The reply to a request of a content type that is not accepted.
pub open spec fn bad_content_type() -> ReplyView {
    error_reply(UNSUPPORTED_MEDIA_TYPE, RouterErrorView::UnsupportedContentType.message())
}

/// Refuses a request that does not say that its body is JSON.
pub fn require_json_content_type(headers: &Headers) -> (r: Option<Reply>)
    ensures
        opt_reply(r) == (if says_json(headers@) {
            None
        } else {
            Some(bad_content_type())
        }),
{
    match headers.get("content-type") {
        HeaderText::Text(value) => {
            let parts = split(&value, ';');
            proof {
                pieces_not_empty(value@, ';');
                assert(views(parts@)[0] == parts@[0]@);
            }
            if str_eq(&to_lower(&trim(&parts[0])), "application/json") {
                return None;
            }
        },
        _ => {},
    }
    Some(error_response(UNSUPPORTED_MEDIA_TYPE, &RouterError::UnsupportedContentType.message()))
}

proof fn pieces_not_empty(s: Seq<char>, c: char)
    ensures
        pieces(s, c).len() >= 1,
    decreases s.len(),
{
    let i = first_index(s, c);
    if 0 <= i < s.len() {
        pieces_not_empty(s.skip(i + 1), c);
    }
}

/// Whether an authorization is a bearer with something to bear.
pub open spec fn bearer(value: Seq<char>) -> bool {
    &&& value.len() >= 7
    &&& lowered(value.take(7)) == "bearer "@
    &&& !blank(value.skip(7))
}

/// Whether a request carries an authorization for the official backend.
pub open spec fn officially_authorized(headers: Seq<(Seq<char>, Seq<u8>)>) -> bool {
    match lookup(headers, "authorization"@) {
        HeaderView::Text(value) => bearer(value),
        _ => false,
    }
}

/// The reply to an official request without an authorization.
pub open spec fn missing_authorization() -> ReplyView {
    error_reply(UNAUTHORIZED, RouterErrorView::MissingOfficialAuthorization.message())
}

/// Refuses an official request without a bearer authorization.
pub fn validate_official_authorization(headers: &Headers) -> (r: Result<(), Reply>)
    ensures
        r is Ok <==> officially_authorized(headers@),
        r is Err ==> r->Err_0@ == missing_authorization(),
{
    match headers.get("authorization") {
        HeaderText::Text(value) => {
            let chars = chars_of(&value);
            if chars.len() >= 7 {
                let prefix = part_of(&chars, 0, 7);
                let rest = part_of(&chars, 7, chars.len());
                assert(prefix@ =~= value@.take(7));
                assert(rest@ =~= value@.skip(7));
                if str_eq(&to_lower(&prefix), "bearer ") && !is_blank(&rest) {
                    return Ok(());
                }
            }
        },
        _ => {},
    }
    Err(error_response(UNAUTHORIZED, &RouterError::MissingOfficialAuthorization.message()))
}

/// Headers of a Codex client that the official backend gets: all of them but the
/// capability token.
pub open spec fn codex_header() -> spec_fn((Seq<char>, Seq<u8>)) -> bool {
    |h: (Seq<char>, Seq<u8>)| "x-codex-"@.is_prefix_of(h.0) && h.0 != CAPABILITY_HEADER@
}

/// The first header of a name, as a list.
pub open spec fn only(headers: Seq<(Seq<char>, Seq<u8>)>, name: Seq<char>) -> Seq<
    (Seq<char>, Seq<u8>),
> {
    match first_value(headers, name) {
        Some(value) => seq![(name, value)],
        None => Seq::empty(),
    }
}

/// The headers that the official backend gets of a request.
pub open spec fn official_headers(headers: Seq<(Seq<char>, Seq<u8>)>) -> Seq<
    (Seq<char>, Seq<u8>),
> {
    only(headers, "authorization"@) + only(headers, "chatgpt-account-id"@) + kept_where(
        headers,
        codex_header(),
    )
}

/// Copies bytes.
pub fn copy_bytes(bytes: &Vec<u8>) -> (r: Vec<u8>)
    ensures
        r@ == bytes@,
{
    let r = bytes.clone();
    assert(r@ =~= bytes@);
    r
}

/// Adds the first header of a name to a list, where there is one.
pub fn pass_header(out: &mut Vec<(String, Vec<u8>)>, headers: &Headers, name: &str)
    ensures
        header_views(final(out)@) == header_views(old(out)@) + only(headers@, name@),
{
    let ghost before = header_views(out@);
    if let Some(value) = headers.first(name) {
        out.push((name.to_owned(), copy_bytes(value)));
    }
    assert(header_views(out@) =~= before + only(headers@, name@));
}

/// The headers that the official backend gets of a request.
pub fn apply_official_headers(headers: &Headers) -> (r: Vec<(String, Vec<u8>)>)
    ensures
        header_views(r@) == official_headers(headers@),
{
    let mut out: Vec<(String, Vec<u8>)> = Vec::new();
    assert(header_views(out@) =~= Seq::empty());
    pass_header(&mut out, headers, "authorization");
    pass_header(&mut out, headers, "chatgpt-account-id");
    let ghost first = header_views(out@);
    let mut i: usize = 0;
    assert(first =~= only(headers@, "authorization"@) + only(headers@, "chatgpt-account-id"@));
    assert(header_views(out@) =~= first + kept_where(headers@.take(0), codex_header()));
    while i < headers.entries.len()
        invariant
            i <= headers.entries@.len(),
            header_views(out@) == first + kept_where(headers@.take(i as int), codex_header()),
        decreases headers.entries@.len() - i,
    {
        let entry = &headers.entries[i];
        assert(headers@.take(i + 1).drop_last() =~= headers@.take(i as int));
        assert(headers@.take(i + 1).last() == (entry.0@, entry.1@));
        let ghost before = header_views(out@);
        if starts_with(&entry.0, "x-codex-") && !str_eq(&entry.0, CAPABILITY_HEADER) {
            out.push((entry.0.clone(), copy_bytes(&entry.1)));
            assert(header_views(out@) =~= before.push((entry.0@, entry.1@)));
        }
        assert(header_views(out@) =~= first + kept_where(headers@.take(i + 1), codex_header()));
        i = i + 1;
    }
    assert(headers@.take(i as int) =~= headers@);
    out
}

/// The capability token never leaves for the official backend, and nothing leaves but
/// the authorization, the account id and other Codex headers of the request.
pub proof fn official_headers_are_allowlisted(headers: Seq<(Seq<char>, Seq<u8>)>)
    ensures
        forall|i: int|
            0 <= i < official_headers(headers).len() ==> {
                let h = #[trigger] official_headers(headers)[i];
                &&& h.0 != CAPABILITY_HEADER@
                &&& (h.0 == "authorization"@ || h.0 == "chatgpt-account-id"@
                    || "x-codex-"@.is_prefix_of(h.0))
            },
{
    reveal_strlit("x-codex-omnibridge-token");
    reveal_strlit("authorization");
    reveal_strlit("chatgpt-account-id");
    assert("x-codex-omnibridge-token"@.len() == 24 && "authorization"@.len() == 13
        && "chatgpt-account-id"@.len() == 18);
    kept_where_holds(headers, codex_header());
    let a = only(headers, "authorization"@);
    let b = only(headers, "chatgpt-account-id"@);
    let c = kept_where(headers, codex_header());
    assert forall|i: int| 0 <= i < official_headers(headers).len() implies {
        let h = #[trigger] official_headers(headers)[i];
        &&& h.0 != CAPABILITY_HEADER@
        &&& (h.0 == "authorization"@ || h.0 == "chatgpt-account-id"@ || "x-codex-"@.is_prefix_of(
            h.0,
        ))
    } by {
        if i >= a.len() + b.len() {
            assert(official_headers(headers)[i] == c[i - a.len() - b.len()]);
            assert(codex_header()(c[i - a.len() - b.len()]));
        } else if i >= a.len() {
            assert(official_headers(headers)[i] == b[i - a.len()]);
        } else {
            assert(official_headers(headers)[i] == a[i]);
        }
    }
}

/// The fixed headers of a provider, or the first of them that is no header.
pub open spec fn fixed_headers(pairs: Seq<(Seq<char>, Seq<char>)>) -> Result<
    Seq<(Seq<char>, Seq<u8>)>,
    RouterErrorView,
>
    decreases pairs.len(),
{
    if pairs.len() == 0 {
        Ok(Seq::empty())
    } else {
        match fixed_headers(pairs.drop_last()) {
            Err(e) => Err(e),
            Ok(done) => {
                let (name, value) = pairs.last();
                if !header_name_ok(name) {
                    Err(RouterErrorView::InvalidHeader(name))
                } else if !header_value_ok(value) {
                    Err(RouterErrorView::InvalidHeader(lowered(name)))
                } else {
                    Ok(done.push((lowered(name), encode_utf8(value))))
                }
            },
        }
    }
}

/// The headers of a provider with its credential added.
pub open spec fn with_credential(
    headers: Seq<(Seq<char>, Seq<u8>)>,
    strategy: AuthView,
    secret: Seq<char>,
) -> Result<Seq<(Seq<char>, Seq<u8>)>, RouterErrorView> {
    match strategy.header(secret) {
        None => Ok(headers),
        Some((name, value)) => if header_name_ok(name) {
            Ok(headers.push((lowered(name), encode_utf8(value))))
        } else {
            Err(RouterErrorView::InvalidHeader(name))
        },
    }
}

/// The view of a list of headers or an error.
pub open spec fn headers_view(r: Result<Vec<(String, Vec<u8>)>, RouterError>) -> Result<
    Seq<(Seq<char>, Seq<u8>)>,
    RouterErrorView,
> {
    match r {
        Ok(h) => Ok(header_views(h@)),
        Err(e) => Err(e@),
    }
}

proof fn fixed_headers_stop(pairs: Seq<(Seq<char>, Seq<char>)>, n: int)
    requires
        0 <= n <= pairs.len(),
        fixed_headers(pairs.take(n)) is Err,
    ensures
        fixed_headers(pairs) == fixed_headers(pairs.take(n)),
    decreases pairs.len() - n,
{
    if n < pairs.len() {
        assert(pairs.take(n + 1).drop_last() =~= pairs.take(n));
        fixed_headers_stop(pairs, n + 1);
    } else {
        assert(pairs.take(n) =~= pairs);
    }
}

/// The fixed headers of a provider.
pub fn custom_static_headers(provider: &ProviderConfig) -> (r: Result<
    Vec<(String, Vec<u8>)>,
    RouterError,
>)
    ensures
        headers_view(r) == fixed_headers(provider@.static_headers),
{
    let ghost all = provider@.static_headers;
    let mut out: Vec<(String, Vec<u8>)> = Vec::new();
    let mut i: usize = 0;
    assert(header_views(out@) =~= Seq::empty());
    while i < provider.static_headers.len()
        invariant
            i <= provider.static_headers@.len(),
            all == provider@.static_headers,
            fixed_headers(all.take(i as int)) == Ok::<Seq<(Seq<char>, Seq<u8>)>, RouterErrorView>(
                header_views(out@),
            ),
        decreases provider.static_headers@.len() - i,
    {
        let pair = &provider.static_headers[i];
        assert(all.take(i + 1).drop_last() =~= all.take(i as int));
        assert(all.take(i + 1).last() == (pair.0@, pair.1@));
        let ghost before = header_views(out@);
        let name = match header_name(&pair.0) {
            Some(name) => name,
            None => {
                proof {
                    fixed_headers_stop(all, i + 1);
                }
                return Err(RouterError::InvalidHeader(pair.0.clone()));
            },
        };
        let value = match header_value(&pair.1) {
            Some(value) => value,
            None => {
                proof {
                    fixed_headers_stop(all, i + 1);
                }
                return Err(RouterError::InvalidHeader(name));
            },
        };
        out.push((name, value));
        assert(header_views(out@) =~= before.push((lowered(pair.0@), encode_utf8(pair.1@))));
        i = i + 1;
    }
    assert(all.take(i as int) =~= all);
    Ok(out)
}

/// Adds a provider's credential to its headers.
pub fn add_credential(
    headers: Vec<(String, Vec<u8>)>,
    provider: &ProviderConfig,
    secret: &str,
) -> (r: Result<Vec<(String, Vec<u8>)>, RouterError>)
    ensures
        headers_view(r) == with_credential(
            header_views(headers@),
            provider@.auth_strategy,
            secret@,
        ),
{
    let mut headers = headers;
    match provider.auth_strategy.credential_header(secret) {
        None => Ok(headers),
        Some((name, value)) => match header_name(&name) {
            None => Err(RouterError::InvalidHeader(name)),
            Some(lower) => {
                let ghost before = header_views(headers@);
                headers.push((lower, value.as_str().as_bytes_vec()));
                assert(header_views(headers@) =~= before.push((lowered(name@), encode_utf8(value@))));
                Ok(headers)
            },
        },
    }
}

/// The requests that are let in: those whose `Host` names this machine, whose origin, if it
/// has one, is a page of this machine, and which carry the capability token. What is
/// refused for its host or a malformed origin gets status 400, for a foreign origin 403,
/// without a token in the router 503, and for a missing or another token 401.
pub proof fn refusals_say_why(token: Option<Seq<char>>, headers: Seq<(Seq<char>, Seq<u8>)>)
    ensures
        ({
            let host = lookup(headers, "host"@);
            let origin = lookup(headers, "origin"@);
            let given = lookup(headers, "x-codex-omnibridge-token"@);
            let local = host is Text && loopback_authority(host->Text_0);
            let page = origin is Absent || (origin is Text && url_parsed(origin->Text_0) is Ok && ({
                let u = url_parsed(origin->Text_0)->Ok_0;
                &&& u.host is Some && loopback_host(u.host->0)
                &&& u.scheme == "http"@ || u.scheme == "https"@ || u.scheme == "tauri"@
            }));
            match refusal(token, headers) {
                None => local && page && token is Some && given is Text && same_secret(
                    encode_utf8(given->Text_0),
                    encode_utf8(token->0),
                ),
                Some(r) => {
                    &&& !local ==> r.status == 400
                    &&& local && !page ==> r.status == (if origin is Text && url_parsed(
                        origin->Text_0,
                    ) is Ok {
                        403u16
                    } else {
                        400
                    })
                    &&& local && page && token is None ==> r.status == 503
                    &&& local && page && token is Some ==> r.status == 401 && !(given is Text
                        && same_secret(encode_utf8(given->Text_0), encode_utf8(token->0)))
                },
            }
        }),
{
}

/// An official request is authorized by a bearer token, in whatever case the scheme is
/// written, that is not blank.
pub proof fn bearers_authorize(scheme: Seq<char>, token: Seq<char>)
    requires
        lowered(scheme) == "bearer"@,
    ensures
        bearer(scheme + seq![' '] + token) <==> !blank(token),
{
    reveal_strlit("bearer ");
    reveal_strlit("bearer");
    let value = scheme + seq![' '] + token;
    assert(scheme.len() == lowered(scheme).len());
    assert(value.take(7) =~= scheme + seq![' ']);
    assert(lowered(value.take(7)) =~= lowered(scheme) + seq![' ']);
    assert("bearer "@ =~= "bearer"@ + seq![' ']);
    assert(value.skip(7) =~= token);
}

/// What does not begin with the bearer scheme authorizes nobody.
pub proof fn other_schemes_do_not_authorize(value: Seq<char>)
    requires
        bearer(value),
    ensures
        value.len() > 7,
        lowered(value.take(6)) == "bearer"@,
        value[6] == ' ',
        !blank(value.skip(7)),
{
    reveal_strlit("bearer ");
    reveal_strlit("bearer");
    let low = lowered(value.take(7));
    assert(lowered(value.take(6)) =~= low.take(6));
    assert("bearer "@.take(6) =~= "bearer"@);
    assert(low[6] == ' ');
    assert(low[6] == crate::text::lower_char(value[6]));
    if value.len() == 7 {
        assert(value.skip(7) =~= Seq::<char>::empty());
        crate::text::trimming_takes_white_ends(value.skip(7));
    }
}

/// The official backend gets the client's authorization and account id, where they are
/// there, and every `x-codex-` header but the capability token.
pub proof fn the_official_backend_gets_the_session(
    headers: Seq<(Seq<char>, Seq<u8>)>,
    i: int,
)
    requires
        0 <= i < headers.len(),
    ensures
        first_value(official_headers(headers), "authorization"@) == first_value(
            headers,
            "authorization"@,
        ),
        first_value(official_headers(headers), "chatgpt-account-id"@) == first_value(
            headers,
            "chatgpt-account-id"@,
        ),
        "x-codex-"@.is_prefix_of(headers[i].0) && headers[i].0 != "x-codex-omnibridge-token"@
            ==> official_headers(headers).contains(headers[i]),
{
    let a = only(headers, "authorization"@);
    let b = only(headers, "chatgpt-account-id"@);
    let c = kept_where(headers, codex_header());
    let all = official_headers(headers);
    kept_where_holds(headers, codex_header());
    reveal_strlit("authorization");
    reveal_strlit("chatgpt-account-id");
    reveal_strlit("x-codex-");
    assert("authorization"@.len() == 13);
    assert("chatgpt-account-id"@.len() == 18);
    assert("x-codex-"@.len() == 8);
    assert("authorization"@[0] == 'a' && "chatgpt-account-id"@[0] == 'c' && "x-codex-"@[0] == 'x');
    assert forall|j: int| 0 <= j < c.len() implies (#[trigger] c[j]).0 != "authorization"@ && c[j].0
        != "chatgpt-account-id"@ by {
        assert(codex_header()(c[j]));
        assert(c[j].0[0] == 'x');
    }
    let names = if a.len() > 0 {
        0int
    } else {
        all.len() as int
    };
    assert forall|j: int| 0 <= j < all.len() && j >= a.len() implies (#[trigger] all[j]).0
        != "authorization"@ by {
        if j < a.len() + b.len() {
            assert(all[j] == b[j - a.len()]);
        } else {
            assert(all[j] == c[j - a.len() - b.len()]);
        }
    }
    if a.len() > 0 {
        assert(all[0] == a[0]);
    }
    crate::http::the_first_header_counts(all, "authorization"@, names);
    let second = if b.len() > 0 {
        a.len() as int
    } else {
        all.len() as int
    };
    if b.len() > 0 {
        assert(all[second] == b[0]);
    }
    assert forall|j: int| 0 <= j < second implies (#[trigger] all[j]).0 != "chatgpt-account-id"@ by {
        if j < a.len() {
            assert(all[j] == a[j]);
        } else {
            assert(all[j] == c[j - a.len() - b.len()]);
        }
    }
    crate::http::the_first_header_counts(all, "chatgpt-account-id"@, second);
    if codex_header()(headers[i]) {
        assert(headers.contains(headers[i]));
        assert(c.contains(headers[i]));
        let k = choose|k: int| 0 <= k < c.len() && c[k] == headers[i];
        assert(all[a.len() + b.len() + k] == headers[i]);
    }
}

/// The fixed headers of a provider are sent one by one and in their order, each under its
/// name in small letters and with its value; one that is no header refuses them all.
pub proof fn fixed_headers_are_sent(pairs: Seq<(Seq<char>, Seq<char>)>)
    ensures
        match fixed_headers(pairs) {
            Ok(sent) => {
                &&& sent.len() == pairs.len()
                &&& forall|i: int|
                    0 <= i < pairs.len() ==> {
                        &&& (#[trigger] sent[i]).0 == lowered(pairs[i].0)
                        &&& sent[i].1 == encode_utf8(pairs[i].1)
                        &&& header_name_ok(pairs[i].0) && header_value_ok(pairs[i].1)
                    }
            },
            Err(e) => {
                &&& e is InvalidHeader
                &&& exists|i: int|
                    0 <= i < pairs.len() && !(header_name_ok((#[trigger] pairs[i]).0)
                        && header_value_ok(pairs[i].1))
            },
        },
    decreases pairs.len(),
{
    if pairs.len() > 0 {
        let less = pairs.drop_last();
        fixed_headers_are_sent(less);
        match fixed_headers(less) {
            Err(e) => {
                let i = choose|i: int|
                    0 <= i < less.len() && !(header_name_ok((#[trigger] less[i]).0)
                        && header_value_ok(less[i].1));
                assert(pairs[i] == less[i]);
            },
            Ok(done) => {
                let n = pairs.len() - 1;
                assert(pairs[n] == pairs.last());
                if fixed_headers(pairs) is Ok {
                    let sent = fixed_headers(pairs)->Ok_0;
                    assert forall|i: int| 0 <= i < pairs.len() implies {
                        &&& (#[trigger] sent[i]).0 == lowered(pairs[i].0)
                        &&& sent[i].1 == encode_utf8(pairs[i].1)
                        &&& header_name_ok(pairs[i].0) && header_value_ok(pairs[i].1)
                    } by {
                        if i < n {
                            assert(sent[i] == done[i]);
                            assert(less[i] == pairs[i]);
                        }
                    }
                }
            },
        }
    }
}

/// A credential is sent as the provider's strategy says: as a bearer token, as an API key,
/// under a header of the provider's choice, or not at all; the other headers stay.
pub proof fn credentials_are_sent_by_strategy(
    headers: Seq<(Seq<char>, Seq<u8>)>,
    strategy: AuthView,
    secret: Seq<char>,
)
    ensures
        ({
            let out = with_credential(headers, strategy, secret);
            &&& strategy is Absent ==> out == Ok::<_, RouterErrorView>(headers)
            &&& strategy is Bearer ==> out == Ok::<_, RouterErrorView>(
                headers.push(("authorization"@, encode_utf8("Bearer "@ + secret))),
            )
            &&& strategy is ApiKey ==> out == Ok::<_, RouterErrorView>(
                headers.push(("x-api-key"@, encode_utf8(secret))),
            )
            &&& strategy is Header ==> (if header_name_ok(strategy->Header_0) {
                out == Ok::<_, RouterErrorView>(
                    headers.push((lowered(strategy->Header_0), encode_utf8(secret))),
                )
            } else {
                out is Err
            })
        }),
{
    reveal_strlit("authorization");
    reveal_strlit("x-api-key");
    assert(lowered("authorization"@) =~= "authorization"@);
    assert(lowered("x-api-key"@) =~= "x-api-key"@);
}

/// A body is taken for JSON by the media type alone: parameters after a semicolon, capitals
/// and white space do not matter.
pub proof fn json_is_told_by_the_media_type(media: Seq<char>, parameters: Seq<char>)
    requires
        !media.contains(';'),
    ensures
        media_type(media + seq![';'] + parameters) == media_type(media),
        media_type(media) == lowered(trimmed(media)),
{
    let value = media + seq![';'] + parameters;
    crate::text::first_index_is(value, ';');
    crate::text::first_index_is(media, ';');
    let cut = crate::text::first_index(value, ';');
    assert(value[media.len() as int] == ';');
    assert forall|j: int| 0 <= j < media.len() implies value[j] != ';' by {
        assert(value[j] == media[j]);
        assert(media.contains(media[j]));
    }
    assert(cut == media.len());
    assert(value.take(cut) =~= media);
    assert(pieces(value, ';')[0] == media);
    if crate::text::first_index(media, ';') < media.len() {
        assert(media.contains(media[crate::text::first_index(media, ';')]));
    }
    assert(pieces(media, ';')[0] == media);
}

/// A body is JSON where the first content type can be read and its media type says so.
pub proof fn json_is_told_by_the_content_type(headers: Seq<(Seq<char>, Seq<u8>)>)
    ensures
        says_json(headers) <==> lookup(headers, "content-type"@) is Text && media_type(
            lookup(headers, "content-type"@)->Text_0,
        ) == "application/json"@,
        officially_authorized(headers) <==> lookup(headers, "authorization"@) is Text && bearer(
            lookup(headers, "authorization"@)->Text_0,
        ),
{
}

} // verus!
