//! URLs: their parts, loopback hosts and the joining of a base URL with a path.

use crate::router_error::{RouterError, RouterErrorView};
use crate::text::{
    cat, chars_of, decimal, decimal_of, lowered, opt_view, part_of, pieces, split, str_eq, to_lower,
    views,
};
use vstd::prelude::*;
use vstd::string::*;

verus! {

/// The parts of a URL, each as it stands in the URL's normal form.
#[derive(Debug)]
pub struct UrlParts {
    pub text: String,
    pub scheme: String,
    pub username: String,
    pub password: Option<String>,
    pub host: Option<String>,
    pub path: String,
    pub query: Option<String>,
    pub fragment: Option<String>,
}

/// The model of a URL's parts.
pub ghost struct UrlView {
    pub text: Seq<char>,
    pub scheme: Seq<char>,
    pub username: Seq<char>,
    pub password: Option<Seq<char>>,
    pub host: Option<Seq<char>>,
    pub path: Seq<char>,
    pub query: Option<Seq<char>>,
    pub fragment: Option<Seq<char>>,
}

impl View for UrlParts {
    type V = UrlView;

    open spec fn view(&self) -> UrlView {
        UrlView {
            text: self.text@,
            scheme: self.scheme@,
            username: self.username@,
            password: opt_view(self.password),
            host: opt_view(self.host),
            path: self.path@,
            query: opt_view(self.query),
            fragment: opt_view(self.fragment),
        }
    }
}

/// What parsing a text as a URL gives: the URL's parts, or the reason why the text
/// is no URL.
pub uninterp spec fn url_parsed(text: Seq<char>) -> Result<UrlView, Seq<char>>;

/// The URL `url` with its path replaced.
pub uninterp spec fn url_with_path(url: Seq<char>, path: Seq<char>) -> Seq<char>;

/// What resolving a relative reference against a URL gives: the new URL, or the
/// reason why there is none.
pub uninterp spec fn url_joined(url: Seq<char>, reference: Seq<char>) -> Result<
    Seq<char>,
    Seq<char>,
>;

/// The view of a parse.
pub open spec fn parse_view(r: Result<UrlParts, String>) -> Result<UrlView, Seq<char>> {
    match r {
        Ok(parts) => Ok(parts@),
        Err(e) => Err(e@),
    }
}

/// `url::Url::parse` splits an absolute URL into its parts; the accessors of
/// `url::Url` hand them out in normal form.
#[verifier::external_body]
pub(crate) fn parse_url(text: &str) -> (r: Result<UrlParts, String>)
    ensures
        parse_view(r) == url_parsed(text@),
{
    match url::Url::parse(text) {
        Ok(url) => Ok(UrlParts {
            text: url.as_str().to_owned(),
            scheme: url.scheme().to_owned(),
            username: url.username().to_owned(),
            password: url.password().map(str::to_owned),
            host: url.host_str().map(str::to_owned),
            path: url.path().to_owned(),
            query: url.query().map(str::to_owned),
            fragment: url.fragment().map(str::to_owned),
        }),
        Err(error) => Err(error.to_string()),
    }
}

/// The longest URL, in bytes, whose path is replaced: the URL stays below 4 GiB.
pub const MAX_URL_BYTES: usize = 4_294_967_000;

/// `url::Url::set_path` replaces the path of a parsed URL. It holds URLs below 4 GiB
/// only, which the bound leaves room for: the new path is the old one with at most
/// its closing slash added.
#[verifier::external_body]
pub(crate) fn set_path(url: &str, path: &str) -> (r: String)
    requires
        url_parsed(url@) is Ok,
        vstd::utf8::encode_utf8(url_parsed(url@)->Ok_0.text).len() <= MAX_URL_BYTES,
        path@ == directory(url_parsed(url@)->Ok_0.path),
    ensures
        r@ == url_with_path(url@, path@),
{
    match url::Url::parse(url) {
        Ok(mut parsed) => {
            parsed.set_path(path);
            parsed.to_string()
        },
        Err(error) => error.to_string(),
    }
}

/// `url::Url::join` resolves a reference against a URL.
#[verifier::external_body]
pub(crate) fn join(url: &str, reference: &str) -> (r: Result<String, String>)
    ensures
        url_joined(url@, reference@) == (match r {
            Ok(u) => Ok(u@),
            Err(e) => Err(e@),
        }),
{
    match url::Url::parse(url).and_then(|url| url.join(reference)) {
        Ok(joined) => Ok(joined.to_string()),
        Err(error) => Err(error.to_string()),
    }
}

/// The text without the occurrences of `c` at its end.
pub open spec fn trim_end_char(s: Seq<char>, c: char) -> Seq<char>
    decreases s.len(),
{
    if s.len() > 0 && s.last() == c {
        trim_end_char(s.drop_last(), c)
    } else {
        s
    }
}

/// The text without the occurrences of `c` at its start.
pub open spec fn trim_start_char(s: Seq<char>, c: char) -> Seq<char>
    decreases s.len(),
{
    if s.len() > 0 && s[0] == c {
        trim_start_char(s.drop_first(), c)
    } else {
        s
    }
}

/// A path closed with exactly one slash.
pub open spec fn directory(path: Seq<char>) -> Seq<char> {
    trim_end_char(path, '/') + "/"@
}

/// The text without the occurrences of `c` at its end.
pub fn without_end(s: &str, c: char) -> (r: String)
    ensures
        r@ == trim_end_char(s@, c),
{
    let chars = chars_of(s);
    let mut to: usize = chars.len();
    assert(s@.take(to as int) =~= s@);
    while to > 0 && chars[to - 1] == c
        invariant
            to <= chars@.len(),
            chars@ == s@,
            trim_end_char(s@, c) == trim_end_char(s@.take(to as int), c),
        decreases to,
    {
        assert(s@.take(to as int).drop_last() =~= s@.take(to - 1));
        to = to - 1;
    }
    let r = part_of(&chars, 0, to);
    assert(r@ =~= s@.take(to as int));
    r
}

/// The text without the occurrences of `c` at its start.
pub fn without_start(s: &str, c: char) -> (r: String)
    ensures
        r@ == trim_start_char(s@, c),
{
    let chars = chars_of(s);
    let mut from: usize = 0;
    assert(s@.skip(0) =~= s@);
    while from < chars.len() && chars[from] == c
        invariant
            from <= chars@.len(),
            chars@ == s@,
            trim_start_char(s@, c) == trim_start_char(s@.skip(from as int), c),
        decreases chars@.len() - from,
    {
        assert(s@.skip(from as int).drop_first() =~= s@.skip(from + 1));
        from = from + 1;
    }
    let r = part_of(&chars, from, chars.len());
    assert(r@ =~= s@.skip(from as int));
    r
}

/// A path closed with exactly one slash.
pub fn directory_path(path: &str) -> (r: String)
    ensures
        r@ == directory(path@),
{
    cat(&without_end(path, '/'), "/")
}

/// Whether a text is the numeral of one byte.
pub open spec fn octet(s: Seq<char>) -> bool {
    exists|n: nat| n <= 255 && s == #[trigger] decimal(n)
}

/// Whether a text is a dotted IPv4 address of the loopback network.
pub open spec fn loopback_v4(s: Seq<char>) -> bool {
    let p = pieces(s, '.');
    &&& p.len() == 4
    &&& p[0] == decimal(127)
    &&& octet(p[1])
    &&& octet(p[2])
    &&& octet(p[3])
}

/// Whether the host of a URL is this machine: `localhost`, in any case, or a dotted
/// address of the loopback network. An IPv6 host stands in brackets in a URL and is
/// never taken for one.
pub open spec fn loopback_host(host: Seq<char>) -> bool {
    lowered(host) == "localhost"@ || loopback_v4(host)
}

fn is_octet(s: &str) -> (r: bool)
    ensures
        r == octet(s@),
{
    let mut n: u64 = 0;
    while n <= 255
        invariant
            n <= 256,
            forall|m: nat| m < n ==> s@ != #[trigger] decimal(m),
        decreases 256 - n,
    {
        if str_eq(s, &decimal_of(n)) {
            assert(s@ == decimal(n as nat));
            return true;
        }
        n = n + 1;
    }
    false
}

fn is_loopback_v4(host: &str) -> (r: bool)
    ensures
        r == loopback_v4(host@),
{
    let p = split(host, '.');
    assert(forall|i: int| 0 <= i < p@.len() ==> views(p@)[i] == (#[trigger] p@[i])@);
    p.len() == 4 && str_eq(&p[0], &decimal_of(127)) && is_octet(&p[1]) && is_octet(&p[2])
        && is_octet(&p[3])
}

/// Whether the host of a URL is this machine.
pub(crate) fn is_loopback_host(host: &str) -> (r: bool)
    ensures
        r == loopback_host(host@),
{
    str_eq(&to_lower(host), "localhost") || is_loopback_v4(host)
}

/// Whether a `Host` value names this machine and nothing besides: no user, password,
/// path, query or fragment.
pub open spec fn loopback_authority(value: Seq<char>) -> bool {
    match url_parsed("http://"@ + value) {
        Ok(u) => loopback_authority_url(u),
        Err(_) => false,
    }
}

/// Whether a URL has a loopback host and, a port aside, nothing besides.
pub open spec fn loopback_authority_url(u: UrlView) -> bool {
    &&& u.username.len() == 0
    &&& u.password is None
    &&& u.query is None
    &&& u.fragment is None
    &&& (u.path.len() == 0 || u.path == "/"@)
    &&& u.host is Some
    &&& loopback_host(u.host->0)
}

/// Whether a parsed `Host` value names this machine and nothing besides.
pub fn is_loopback_authority_url(u: &UrlParts) -> (r: bool)
    ensures
        r == loopback_authority_url(u@),
{
    let valid_path = u.path.as_str().is_empty() || str_eq(&u.path, "/");
    u.username.as_str().is_empty() && u.password.is_none() && u.query.is_none()
        && u.fragment.is_none() && valid_path && (match &u.host {
        Some(host) => is_loopback_host(host),
        None => false,
    })
}

/// Whether a `Host` value names this machine and nothing besides.
pub fn is_loopback_authority(value: &str) -> (r: bool)
    ensures
        r == loopback_authority(value@),
{
    match parse_url(&cat("http://", value)) {
        Ok(u) => is_loopback_authority_url(&u),
        Err(_) => false,
    }
}

/// Why a URL is no loopback endpoint of the router, if it is none.
pub open spec fn loopback_url_error(parsed: Result<UrlView, Seq<char>>) -> Option<RouterErrorView> {
    match parsed {
        Err(e) => Some(RouterErrorView::EndpointFile(e)),
        Ok(u) => if u.scheme != "http"@ || (u.path.len() != 0 && u.path != "/"@) {
            Some(RouterErrorView::EndpointFile("endpoint must be an http loopback URL"@))
        } else {
            match u.host {
                None => Some(RouterErrorView::EndpointFile("endpoint is missing a host"@)),
                Some(host) => if host == "localhost"@ || loopback_v4(host) {
                    None
                } else {
                    Some(RouterErrorView::EndpointFile("endpoint host must be loopback"@))
                },
            }
        },
    }
}

/// Whether a parsed URL is a loopback endpoint of the router.
pub fn validate_loopback_parts(parsed: Result<UrlParts, String>) -> (r: Result<(), RouterError>)
    ensures
        (match r {
            Ok(_) => None,
            Err(e) => Some(e@),
        }) == loopback_url_error(parse_view(parsed)),
{
    match parsed {
        Err(e) => Err(RouterError::EndpointFile(e)),
        Ok(u) => {
            if !str_eq(&u.scheme, "http") || (!u.path.as_str().is_empty() && !str_eq(&u.path, "/")) {
                return Err(
                    RouterError::EndpointFile("endpoint must be an http loopback URL".to_owned()),
                );
            }
            match &u.host {
                None => Err(RouterError::EndpointFile("endpoint is missing a host".to_owned())),
                Some(host) => if str_eq(host, "localhost") || is_loopback_v4(host) {
                    Ok(())
                } else {
                    Err(RouterError::EndpointFile("endpoint host must be loopback".to_owned()))
                },
            }
        },
    }
}

/// Whether a text is the URL of a loopback endpoint of the router.
pub fn validate_loopback_url(value: &str) -> (r: Result<(), RouterError>)
    ensures
        (match r {
            Ok(_) => None,
            Err(e) => Some(e@),
        }) == loopback_url_error(url_parsed(value@)),
{
    validate_loopback_parts(parse_url(value))
}

/// Whether a URL is within the length that a path can be replaced in.
pub open spec fn replaceable(u: UrlView) -> bool {
    vstd::utf8::encode_utf8(u.text).len() <= MAX_URL_BYTES
}

/// The URL of `path` below a base URL, whatever slashes the two meet with.
pub open spec fn joined(base: Seq<char>, path: Seq<char>) -> Result<Seq<char>, RouterErrorView> {
    match url_parsed(base) {
        Err(e) => Err(RouterErrorView::InvalidBaseUrl(base, e)),
        Ok(u) => if !replaceable(u) {
            Err(RouterErrorView::InvalidBaseUrl(base, "URLs more than 4 GB are not supported"@))
        } else {
            let below = url_with_path(base, directory(u.path));
            match url_joined(below, trim_start_char(path, '/')) {
                Ok(url) => Ok(url),
                Err(e) => Err(RouterErrorView::InvalidBaseUrl(below, e)),
            }
        },
    }
}

/// The URL of `path` below a base URL.
pub fn join_url(base: &str, path: &str) -> (r: Result<String, RouterError>)
    ensures
        joined(base@, path@) == (match r {
            Ok(url) => Ok(url@),
            Err(e) => Err(e@),
        }),
{
    match parse_url(base) {
        Err(e) => Err(RouterError::InvalidBaseUrl(base.to_owned(), e)),
        Ok(u) => {
            if u.text.as_str().as_bytes().len() > MAX_URL_BYTES {
                return Err(
                    RouterError::InvalidBaseUrl(
                        base.to_owned(),
                        "URLs more than 4 GB are not supported".to_owned(),
                    ),
                );
            }
            let below = set_path(base, &directory_path(&u.path));
            match join(&below, &without_start(path, '/')) {
                Ok(url) => Ok(url),
                Err(e) => Err(RouterError::InvalidBaseUrl(below, e)),
            }
        },
    }
}

/// Whether the slashes at the end of a base and at the start of a path are there or not
/// makes no difference to where the two lead.
pub proof fn slashes_do_not_matter(base: Seq<char>, path: Seq<char>)
    ensures
        joined(base, "/"@ + path) == joined(base, path),
        directory(base.push('/')) == directory(base),
        directory(base).len() > 0 && directory(base).last() == '/',
        base.len() > 0 && base.last() != '/' ==> directory(base) == base.push('/'),
        path.len() > 0 && path[0] != '/' && url_parsed(base) is Ok && replaceable(
            url_parsed(base)->Ok_0,
        ) ==> (match url_joined(
            url_with_path(base, directory(url_parsed(base)->Ok_0.path)),
            path,
        ) {
            Ok(url) => joined(base, path) == Ok::<Seq<char>, RouterErrorView>(url),
            Err(_) => joined(base, path) is Err,
        }),
        url_parsed(base) is Err ==> joined(base, path) is Err,
{
    reveal_strlit("/");
    assert(("/"@ + path)[0] == '/');
    assert(("/"@ + path).drop_first() =~= path);
    assert(base.push('/').drop_last() =~= base);
    if base.len() > 0 && base.last() != '/' {
        assert(base + "/"@ =~= base.push('/'));
    }
}

/// Only a host is taken for this machine that is `localhost`, in whatever case, or an
/// address that begins with 127.
pub proof fn loopback_hosts_are_local(host: Seq<char>)
    ensures
        loopback_host(host) ==> lowered(host) == "localhost"@ || (host.len() > 4 && host[0] == '1'
            && host[1] == '2' && host[2] == '7' && host[3] == '.'),
        lowered(host) == "localhost"@ ==> loopback_host(host),
{
    if loopback_v4(host) {
        let p = pieces(host, '.');
        reveal_with_fuel(decimal, 4);
        assert(decimal(127).len() == 3);
        let cut = crate::text::first_index(host, '.');
        assert(0 <= cut < host.len());
        assert(p[0] == host.take(cut));
        assert(host.take(cut).len() == cut);
        assert(decimal(127)[0] == '1' && decimal(127)[1] == '2' && decimal(127)[2] == '7');
        assert(host[0] == p[0][0] && host[1] == p[0][1] && host[2] == p[0][2]);
        crate::text::first_index_is(host, '.');
        let rest = host.skip(cut + 1);
        assert(p[1] == pieces(rest, '.')[0]);
        if host.len() == 4 {
            assert(rest.len() == 0);
            assert(pieces(rest, '.').len() == 1);
            assert(p.len() == 2);
        }
    }
}

/// A value for the `Host` header names this machine only where the host of the URL that it
/// makes up does, and it holds nothing but a host and a port.
pub proof fn authorities_hold_a_host_alone(u: UrlView)
    requires
        loopback_authority_url(u),
    ensures
        u.host is Some && loopback_host(u.host->0),
        u.username == Seq::<char>::empty(),
        u.password is None && u.query is None && u.fragment is None,
        u.path == Seq::<char>::empty() || u.path == "/"@,
{
    assert(u.username =~= Seq::<char>::empty());
    if u.path.len() == 0 {
        assert(u.path =~= Seq::<char>::empty());
    }
}

/// A published endpoint is accepted where it is a plain `http` URL without a path, on this
/// machine, and nowhere else.
pub proof fn endpoints_are_local_http(u: UrlView)
    ensures
        loopback_url_error(Ok(u)) is None <==> {
            &&& u.scheme == "http"@
            &&& u.path.len() == 0 || u.path == "/"@
            &&& u.host is Some
            &&& u.host->0 == "localhost"@ || loopback_v4(u.host->0)
        },
{
}

/// A value for the `Host` header is read as the authority of an `http` URL.
pub proof fn hosts_are_read_as_authorities(value: Seq<char>)
    ensures
        loopback_authority(value) ==> url_parsed("http://"@ + value) is Ok && url_parsed(
            "http://"@ + value,
        )->Ok_0.host is Some && loopback_host(url_parsed("http://"@ + value)->Ok_0.host->0),
        url_parsed("http://"@ + value) is Ok && loopback_authority_url(
            url_parsed("http://"@ + value)->Ok_0,
        ) ==> loopback_authority(value),
{
}

/// The parts of an address are the numbers up to 255, written without zeros before them.
pub proof fn octets_are_small_numbers(n: nat)
    ensures
        octet(decimal(n)) <==> n <= 255,
{
    crate::text::written_numbers_read_back(n, 255);
    if octet(decimal(n)) {
        let m = choose|m: nat| m <= 255 && decimal(n) == #[trigger] decimal(m);
        crate::text::written_numbers_read_back(m, 255);
    }
}

} // verus!
