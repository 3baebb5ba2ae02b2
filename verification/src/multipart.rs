//! Forms that are forwarded byte for byte: image edits.

use crate::compression::MAX_REQUEST_BODY_BYTES;
use crate::forward::{body_too_large, common_headers};
use crate::gate::{
    apply_official_headers, bad_content_type, copy_bytes, missing_authorization, official_headers,
    officially_authorized, pass_header, refusal, authorize, validate_official_authorization,
};
use crate::http::{
    all_visible, byte_chars, error_reply, error_response, first_value, header_views, lookup,
    value_text, HeaderText, Headers, Reply, ReplyView, BAD_GATEWAY, NOT_FOUND, PAYLOAD_TOO_LARGE,
    UNSUPPORTED_MEDIA_TYPE,
};
use crate::ledger::keyed;
use crate::registry::{pair_views, LogicalModelRoute, ProviderRegistry, RegistryView, RouteView};
use crate::router_error::{RouterError, RouterErrorView};
use crate::routes::{endpoint_path, OmniEndpoint, RouteClass};
use crate::search::{any_where, index_where, index_where_is};
use crate::text::{blank, is_blank, lowered, opt_view, starts_with, str_eq, to_lower};
use crate::urls::{join_url, joined};
use vstd::prelude::*;
use vstd::string::*;

verus! {

/// The name and value pairs of a query, decoded.
pub uninterp spec fn query_decoded(query: Seq<u8>) -> Seq<(Seq<char>, Seq<char>)>;

/// `url::form_urlencoded::parse` splits a query into its pairs and decodes them, in
/// their order.
#[verifier::external_body]
fn query_pairs(query: &[u8]) -> (r: Vec<(String, String)>)
    ensures
        pair_views(r@) == query_decoded(query@),
{
    url::form_urlencoded::parse(query).into_owned().collect()
}

/// The model that a query's pairs name: the first one of that name, where it is not
/// blank.
pub open spec fn model_of_pairs(pairs: Seq<(Seq<char>, Seq<char>)>) -> Option<Seq<char>> {
    if any_where(pairs, keyed("model"@)) {
        let value = pairs[index_where(pairs, keyed("model"@))].1;
        if blank(value) {
            None
        } else {
            Some(value)
        }
    } else {
        None
    }
}

/// The model that a query's pairs name.
pub fn model_of_query(pairs: &Vec<(String, String)>) -> (r: Option<String>)
    ensures
        opt_view(r) == model_of_pairs(pair_views(pairs@)),
{
    let mut i: usize = 0;
    while i < pairs.len()
        invariant
            i <= pairs@.len(),
            forall|j: int| 0 <= j < i ==> !keyed("model"@)(#[trigger] pair_views(pairs@)[j]),
        decreases pairs@.len() - i,
    {
        if str_eq(&pairs[i].0, "model") {
            proof {
                assert(keyed("model"@)(pair_views(pairs@)[i as int]));
                index_where_is(pair_views(pairs@), keyed("model"@), i as int);
            }
            return if is_blank(&pairs[i].1) {
                None
            } else {
                Some(pairs[i].1.clone())
            };
        }
        i = i + 1;
    }
    proof {
        index_where_is(pair_views(pairs@), keyed("model"@), i as int);
    }
    None
}

/// The model that a query names.
pub open spec fn queried_model(query: Option<Seq<char>>) -> Option<Seq<char>> {
    match query {
        Some(q) => model_of_pairs(query_decoded(vstd::utf8::encode_utf8(q))),
        None => None,
    }
}

/// The model that a query names.
pub fn requested_model(query: &Option<String>) -> (r: Option<String>)
    ensures
        opt_view(r) == queried_model(opt_view(*query)),
{
    match query {
        Some(q) => model_of_query(&query_pairs(q.as_str().as_bytes())),
        None => None,
    }
}

/// The content type of a form; a form's own where the request names none.
pub open spec fn form_type(headers: Seq<(Seq<char>, Seq<u8>)>) -> Seq<u8> {
    match first_value(headers, "content-type"@) {
        Some(value) => value,
        None => "multipart/form-data".spec_bytes(),
    }
}

/// Whether a content type is that of a form.
pub open spec fn is_form(content_type: Seq<u8>) -> bool {
    all_visible(content_type) && "multipart/form-data"@.is_prefix_of(
        lowered(byte_chars(content_type)),
    )
}

/// Where a form goes: its base URL and whether that is the official backend. Without a
/// model it goes to the official backend.
pub open spec fn form_route(
    registry: RegistryView,
    official_base: Seq<char>,
    model: Option<Seq<char>>,
) -> Result<(Seq<char>, RouteClass), ReplyView> {
    match model {
        None => Ok((official_base, RouteClass::Official)),
        Some(id) => match registry.route(id) {
            Err(e) => Err(error_reply(NOT_FOUND, e.message())),
            Ok(RouteView::Official(_)) => Ok((official_base, RouteClass::Official)),
            Ok(RouteView::Custom { provider_id, .. }) => match registry.provider(provider_id) {
                Some(p) => if p.enabled {
                    Ok((p.base_url, RouteClass::Custom))
                } else {
                    Err(
                        error_reply(
                            NOT_FOUND,
                            RouterErrorView::UnknownProvider(provider_id).message(),
                        ),
                    )
                },
                None => Err(
                    error_reply(NOT_FOUND, RouterErrorView::UnknownProvider(provider_id).message()),
                ),
            },
        },
    }
}

/// A form as it goes upstream: where to, and under which headers. Its body goes as it
/// was received.
pub struct FormPlan {
    pub url: String,
    pub headers: Vec<(String, Vec<u8>)>,
}

/// The model of a form as it goes upstream.
pub ghost struct FormPlanView {
    pub url: Seq<char>,
    pub headers: Seq<(Seq<char>, Seq<u8>)>,
}

impl View for FormPlan {
    type V = FormPlanView;

    open spec fn view(&self) -> FormPlanView {
        FormPlanView { url: self.url@, headers: header_views(self.headers@) }
    }
}

/// How a form of a known route goes upstream, or the reply that refuses it.
pub open spec fn form_sent(
    base: Seq<char>,
    class: RouteClass,
    headers: Seq<(Seq<char>, Seq<u8>)>,
) -> Result<FormPlanView, ReplyView> {
    if class == RouteClass::Official && !officially_authorized(headers) {
        Err(missing_authorization())
    } else {
        match joined(base, endpoint_path(OmniEndpoint::ImagesEdits)) {
            Err(e) => Err(error_reply(BAD_GATEWAY, e.message())),
            Ok(url) => Ok(
                FormPlanView {
                    url,
                    headers: if class == RouteClass::Official {
                        common_headers(headers, form_type(headers)) + official_headers(headers)
                    } else {
                        common_headers(headers, form_type(headers))
                    },
                },
            ),
        }
    }
}

/// How a form goes upstream, or the reply that refuses it; `too_large` says that its
/// body was over the limit.
pub open spec fn form_plan(
    registry: RegistryView,
    token: Option<Seq<char>>,
    official_base: Seq<char>,
    headers: Seq<(Seq<char>, Seq<u8>)>,
    query: Option<Seq<char>>,
    too_large: bool,
) -> Result<FormPlanView, ReplyView> {
    match refusal(token, headers) {
        Some(r) => Err(r),
        None => if !is_form(form_type(headers)) {
            Err(bad_content_type())
        } else if too_large {
            Err(body_too_large())
        } else {
            match form_route(registry, official_base, queried_model(query)) {
                Err(r) => Err(r),
                Ok((base, class)) => form_sent(base, class, headers),
            }
        },
    }
}

/// Where a form goes.
pub fn route_form(registry: &ProviderRegistry, official_base: &str, model: &Option<String>) -> (r:
    Result<(String, RouteClass), Reply>)
    ensures
        form_route(registry@, official_base@, opt_view(*model)) == (match r {
            Ok((base, class)) => Ok((base@, class)),
            Err(e) => Err(e@),
        }),
{
    let id = match model {
        Some(id) => id,
        None => return Ok((official_base.to_owned(), RouteClass::Official)),
    };
    match registry.resolve_logical_model_route(id) {
        Err(e) => Err(error_response(NOT_FOUND, &e.message())),
        Ok(LogicalModelRoute::Official { model_id: _ }) => Ok(
            (official_base.to_owned(), RouteClass::Official),
        ),
        Ok(
            LogicalModelRoute::Custom {
                logical_model_id: _,
                provider_id,
                upstream_model_id: _,
                protocol: _,
            },
        ) => {
            if let Some(p) = registry.provider(&provider_id) {
                if p.enabled {
                    return Ok((p.base_url.clone(), RouteClass::Custom));
                }
            }
            Err(error_response(NOT_FOUND, &RouterError::UnknownProvider(provider_id).message()))
        },
    }
}

/// How a form of a known route goes upstream.
pub fn send_form(base: &str, class: RouteClass, headers: &Headers) -> (r: Result<FormPlan, Reply>)
    ensures
        form_sent(base@, class, headers@) == (match r {
            Ok(plan) => Ok(plan@),
            Err(e) => Err(e@),
        }),
{
    if class == RouteClass::Official {
        match validate_official_authorization(headers) {
            Ok(_) => {},
            Err(reply) => return Err(reply),
        }
    }
    let url = match join_url(base, OmniEndpoint::ImagesEdits.path()) {
        Ok(url) => url,
        Err(e) => return Err(error_response(BAD_GATEWAY, &e.message())),
    };
    let content_type = match headers.first("content-type") {
        Some(value) => copy_bytes(value),
        None => "multipart/form-data".as_bytes_vec(),
    };
    let mut out: Vec<(String, Vec<u8>)> = Vec::new();
    out.push(("content-type".to_owned(), content_type));
    assert(header_views(out@) =~= seq![("content-type"@, content_type@)]);
    pass_header(&mut out, headers, "accept");
    if class == RouteClass::Official {
        let ghost before = header_views(out@);
        let mut more = apply_official_headers(headers);
        let ghost added = header_views(more@);
        out.append(&mut more);
        assert(header_views(out@) =~= before + added);
    }
    Ok(FormPlan { url, headers: out })
}

/// Refuses a request that does not say that its body is a form.
pub fn require_form_content_type(headers: &Headers) -> (r: Option<Reply>)
    ensures
        (match r {
            Some(reply) => Some(reply@),
            None => None,
        }) == (if is_form(form_type(headers@)) {
            None
        } else {
            Some(bad_content_type())
        }),
{
    let content_type = match headers.first("content-type") {
        Some(value) => copy_bytes(value),
        None => "multipart/form-data".as_bytes_vec(),
    };
    let form = match value_text(&content_type) {
        HeaderText::Text(text) => starts_with(&to_lower(&text), "multipart/form-data"),
        _ => false,
    };
    if form {
        None
    } else {
        Some(error_response(UNSUPPORTED_MEDIA_TYPE, &RouterError::UnsupportedContentType.message()))
    }
}

/// How a form goes upstream, or the reply that refuses it.
pub fn forward_multipart_request(
    registry: &ProviderRegistry,
    token: &Option<String>,
    official_base: &str,
    headers: &Headers,
    query: &Option<String>,
    too_large: bool,
) -> (r: Result<FormPlan, Reply>)
    ensures
        form_plan(
            registry@,
            opt_view(*token),
            official_base@,
            headers@,
            opt_view(*query),
            too_large,
        ) == (match r {
            Ok(plan) => Ok(plan@),
            Err(e) => Err(e@),
        }),
{
    if let Some(reply) = authorize(token, headers) {
        return Err(reply);
    }
    if let Some(reply) = require_form_content_type(headers) {
        return Err(reply);
    }
    if too_large {
        return Err(
            error_response(
                PAYLOAD_TOO_LARGE,
                &RouterError::RequestBodyTooLarge(MAX_REQUEST_BODY_BYTES).message(),
            ),
        );
    }
    match route_form(registry, official_base, &requested_model(query)) {
        Err(reply) => Err(reply),
        Ok((base, class)) => send_form(&base, class, headers),
    }
}

/// A form reaches its upstream under the content type, and with it the boundary, that
/// the client gave.
pub proof fn forms_keep_their_content_type(
    base: Seq<char>,
    class: RouteClass,
    headers: Seq<(Seq<char>, Seq<u8>)>,
)
    requires
        form_sent(base, class, headers) is Ok,
        first_value(headers, "content-type"@) is Some,
    ensures
        form_sent(base, class, headers)->Ok_0.headers[0] == (
            "content-type"@,
            first_value(headers, "content-type"@)->0,
        ),
{
}

/// A form that goes to a custom provider carries no header of the request but its
/// content type and `Accept`: neither the official authorization, nor the account id,
/// nor the capability token.
pub proof fn custom_forms_carry_no_client_headers(
    base: Seq<char>,
    headers: Seq<(Seq<char>, Seq<u8>)>,
)
    requires
        form_sent(base, RouteClass::Custom, headers) is Ok,
    ensures
        ({
            let sent = form_sent(base, RouteClass::Custom, headers)->Ok_0.headers;
            forall|i: int|
                0 <= i < sent.len() ==> (#[trigger] sent[i]).0 == "content-type"@ || sent[i].0
                    == "accept"@
        }),
{
}

/// The model that a form is for is the first that the query names; a blank one counts as
/// none.
pub proof fn forms_name_their_model(pairs: Seq<(Seq<char>, Seq<char>)>)
    ensures
        match model_of_pairs(pairs) {
            Some(model) => !blank(model) && exists|i: int|
                {
                    &&& 0 <= i < pairs.len()
                    &&& #[trigger] pairs[i] == ("model"@, model)
                    &&& forall|j: int| 0 <= j < i ==> (#[trigger] pairs[j]).0 != "model"@
                },
            None => forall|i: int|
                0 <= i < pairs.len() && (#[trigger] pairs[i]).0 == "model"@ && (forall|j: int|
                    0 <= j < i ==> (#[trigger] pairs[j]).0 != "model"@) ==> blank(pairs[i].1),
        },
{
    crate::search::index_where_bounds(pairs, keyed("model"@));
    let k = index_where(pairs, keyed("model"@));
    if k < pairs.len() {
        assert(keyed("model"@)(pairs[k]));
    }
    assert forall|j: int| 0 <= j < k implies (#[trigger] pairs[j]).0 != "model"@ by {
        assert(!keyed("model"@)(pairs[j]));
    }
}

/// A form goes to the provider of the model that it names, where that is on, else to the
/// official backend; a model that nobody offers is not found.
pub proof fn forms_go_to_their_model(
    registry: RegistryView,
    official_base: Seq<char>,
    model: Option<Seq<char>>,
)
    ensures
        ({
            let out = form_route(registry, official_base, model);
            &&& model is None || registry.official_model_ids.contains(model->0) ==> out == Ok::<
                (Seq<char>, RouteClass),
                ReplyView,
            >((official_base, RouteClass::Official))
            &&& model is Some && registry.route(model->0) is Err ==> out is Err && out->Err_0.status
                == 404
            &&& model is Some && registry.route(model->0) is Ok && registry.route(model->0)->Ok_0
                is Custom ==> match out {
                Ok((base, class)) => {
                    let p = registry.provider(registry.route(model->0)->Ok_0->provider_id);
                    &&& class == RouteClass::Custom
                    &&& p is Some && p->0.enabled && base == p->0.base_url
                },
                Err(r) => r.status == 404,
            }
        }),
{
}

/// A form is sent to the path of image edits below the base of its route, under the client's
/// content type and `Accept`; the official backend gets the client's session besides, and no
/// form of a client that is not logged in.
pub proof fn forms_are_sent_to_image_edits(
    base: Seq<char>,
    class: RouteClass,
    headers: Seq<(Seq<char>, Seq<u8>)>,
)
    ensures
        match form_sent(base, class, headers) {
            Ok(plan) => {
                &&& joined(base, "images/edits"@) == Ok::<Seq<char>, RouterErrorView>(plan.url)
                &&& class == RouteClass::Official ==> lookup(headers, "authorization"@) is Text
                    && crate::gate::bearer(lookup(headers, "authorization"@)->Text_0)
                &&& plan.headers[0].0 == "content-type"@
                &&& first_value(headers, "accept"@) is Some ==> plan.headers[1] == (
                    "accept"@,
                    first_value(headers, "accept"@)->0,
                )
                &&& class == RouteClass::Official ==> plan.headers == common_headers(
                    headers,
                    form_type(headers),
                ) + official_headers(headers)
                &&& class == RouteClass::Custom ==> plan.headers.len() <= 2
            },
            Err(r) => {
                ||| r.status == 401 && class == RouteClass::Official
                ||| r.status == 502 && joined(base, "images/edits"@) is Err
            },
        },
{
}

/// A form is let in like any other request, and refused with 415 where it does not say that
/// it is one, then with 413 where it is too large.
pub proof fn forms_are_let_in(
    registry: RegistryView,
    token: Option<Seq<char>>,
    official_base: Seq<char>,
    headers: Seq<(Seq<char>, Seq<u8>)>,
    query: Option<Seq<char>>,
    too_large: bool,
)
    ensures
        ({
            let out = form_plan(registry, token, official_base, headers, query, too_large);
            let given = first_value(headers, "content-type"@);
            let form = given is None || (all_visible(given->0) && "multipart/form-data"@.is_prefix_of(
                lowered(byte_chars(given->0)),
            ));
            &&& refusal(token, headers) is Some ==> out == Err::<FormPlanView, ReplyView>(
                refusal(token, headers)->0,
            )
            &&& refusal(token, headers) is None && given is Some && !form ==> out is Err
                && out->Err_0.status == 415
            &&& refusal(token, headers) is None && given is Some && form && too_large ==> out is Err
                && out->Err_0.status == 413
            &&& out is Ok ==> !too_large
        }),
{
}

} // verus!
