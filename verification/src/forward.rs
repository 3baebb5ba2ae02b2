//! Forwarding: from a received request to what is sent upstream, and from the
//! upstream's answer to what the client gets.

use crate::bridge::{
    bind_chat_request, bind_chat_response, chat_bound, chat_sse_model, context_error,
    requested_model, response_bound, BridgeContext, BridgeContextView, BridgeError, BridgeErrorView,
    CodexChatReasoningConfig,
};
use crate::compression::{
    content_encoding, decode_request_body, decoded_body, MAX_REQUEST_BODY_BYTES,
};
use crate::gate::{
    add_credential, apply_official_headers, authorize, bad_content_type, copy_bytes,
    custom_static_headers, fixed_headers, missing_authorization, official_headers,
    officially_authorized, only, pass_header, refusal, require_json_content_type, says_json,
    validate_official_authorization, with_credential,
};
use crate::history::{
    finish_history, history_restored, history_step, hydrate_history_boundary, HistoryStep,
};
use crate::http::{
    all_visible, byte_chars, error_reply, error_response, first_value, header_views, lookup,
    value_text, HeaderText, Headers, Reply, ReplyView, BAD_GATEWAY, BAD_REQUEST, NOT_FOUND,
    NOT_IMPLEMENTED, PAYLOAD_TOO_LARGE, UNSUPPORTED_MEDIA_TYPE,
};
use crate::json::{Json, JsonView};
use crate::json_text::{json_parsed, parse_json, read_view};
use crate::ledger::{BoundedRouteMap, CredentialCache};
use crate::registry::{
    ModelView, ProviderConfig, ProviderProtocol, ProviderRegistry, ProviderView, RegistryView,
};
use crate::router_error::{RouterError, RouterErrorView};
use crate::routes::{
    account_fingerprint, account_of, bridge_context, bridge_error_response, bridge_reply,
    build_reasoning_config, context_for, endpoint_path, endpoint_refusal, key_of, reasoning_of,
    refuse_endpoint, route_key, select_route, selected, OmniEndpoint, ReasoningView, RouteClass,
    SelectedRoute, SelectedView,
};
use crate::text::{
    blank, cat3, cat5, contains, decimal, decimal_of, has_part, lowered, opt_view, to_lower,
};
use crate::urls::{join_url, joined};
use vstd::prelude::*;
use vstd::string::*;

verus! {

/// The reply to a body that is over the limit.
pub open spec fn body_too_large() -> ReplyView {
    error_reply(
        PAYLOAD_TOO_LARGE,
        RouterErrorView::RequestBodyTooLarge(MAX_REQUEST_BODY_BYTES).message(),
    )
}

/// The reply to a body that cannot be decoded.
pub open spec fn undecodable(e: RouterErrorView) -> ReplyView {
    match e {
        RouterErrorView::UnsupportedContentEncoding(_) => error_reply(
            UNSUPPORTED_MEDIA_TYPE,
            e.message(),
        ),
        _ => error_reply(BAD_REQUEST, e.message()),
    }
}

/// The reply to a request that names no model.
pub open spec fn missing_model(status: u16) -> ReplyView {
    error_reply(status, RouterErrorView::MissingModel.message())
}

/// The request that was received and the model that it names, or the reply that
/// refuses it. The body is nothing where it was over the limit.
pub open spec fn received(
    token: Option<Seq<char>>,
    headers: Seq<(Seq<char>, Seq<u8>)>,
    body: Option<Seq<u8>>,
) -> Result<(JsonView, Seq<char>), ReplyView> {
    match refusal(token, headers) {
        Some(r) => Err(r),
        None => if !says_json(headers) {
            Err(bad_content_type())
        } else {
            match body {
                None => Err(body_too_large()),
                Some(bytes) => match decoded_body(content_encoding(headers), bytes) {
                    Err(e) => Err(undecodable(e)),
                    Ok(decoded) => understood(json_parsed(decoded)),
                },
            }
        },
    }
}

/// The request and the model that it names, given how its body was read.
pub open spec fn understood(parsed: Result<JsonView, Seq<char>>) -> Result<
    (JsonView, Seq<char>),
    ReplyView,
> {
    match parsed {
        Err(e) => Err(error_reply(BAD_REQUEST, e)),
        Ok(request) => match request.text_field("model"@) {
            Some(model) => Ok((request, model)),
            None => Err(missing_model(BAD_REQUEST)),
        },
    }
}

/// The view of a received request.
pub open spec fn received_view(r: Result<(Json, String), Reply>) -> Result<
    (JsonView, Seq<char>),
    ReplyView,
> {
    match r {
        Ok((request, model)) => Ok((request@, model@)),
        Err(e) => Err(e@),
    }
}

/// The request and the model that it names, given how its body was read.
pub fn understand(parsed: Result<Json, String>) -> (r: Result<(Json, String), Reply>)
    ensures
        received_view(r) == understood(read_view(parsed)),
{
    match parsed {
        Err(e) => Err(error_response(BAD_REQUEST, &e)),
        Ok(request) => {
            let model = match request.text_field("model") {
                Some(model) => model.to_owned(),
                None => return Err(
                    error_response(BAD_REQUEST, &RouterError::MissingModel.message()),
                ),
            };
            Ok((request, model))
        },
    }
}

fn undecodable_reply(e: RouterError) -> (r: Reply)
    ensures
        r@ == undecodable(e@),
{
    match &e {
        RouterError::UnsupportedContentEncoding(_) => error_response(
            UNSUPPORTED_MEDIA_TYPE,
            &e.message(),
        ),
        _ => error_response(BAD_REQUEST, &e.message()),
    }
}

/// Takes a request in: who sent it, what it says it is, and its body.
pub fn receive(token: &Option<String>, headers: &Headers, body: &Option<Vec<u8>>) -> (r: Result<
    (Json, String),
    Reply,
>)
    ensures
        received_view(r) == received(
            opt_view(*token),
            headers@,
            match *body {
                Some(b) => Some(b@),
                None => None,
            },
        ),
{
    if let Some(reply) = authorize(token, headers) {
        return Err(reply);
    }
    if let Some(reply) = require_json_content_type(headers) {
        return Err(reply);
    }
    let bytes = match body {
        Some(bytes) => bytes,
        None => return Err(
            error_response(
                PAYLOAD_TOO_LARGE,
                &RouterError::RequestBodyTooLarge(MAX_REQUEST_BODY_BYTES).message(),
            ),
        ),
    };
    match decode_request_body(headers, bytes) {
        Err(e) => Err(undecodable_reply(e)),
        Ok(decoded) => understand(parse_json(&decoded)),
    }
}

/// A request whose route is known.
pub struct OpenedRequest {
    pub selected: SelectedRoute,
    pub account: Option<String>,
    pub key: String,
    pub step: HistoryStep,
}

/// The model of a request whose route is known.
pub ghost struct OpenedView {
    pub selected: SelectedView,
    pub account: Option<Seq<char>>,
    pub key: Seq<char>,
    pub step: HistoryStep,
}

impl View for OpenedRequest {
    type V = OpenedView;

    open spec fn view(&self) -> OpenedView {
        OpenedView {
            selected: self.selected@,
            account: opt_view(self.account),
            key: self.key@,
            step: self.step,
        }
    }
}

/// The route of a request and what happens to its history, or the reply that refuses
/// it.
pub open spec fn opened(
    registry: RegistryView,
    routes: Seq<(Seq<char>, Seq<char>)>,
    endpoint: OmniEndpoint,
    headers: Seq<(Seq<char>, Seq<u8>)>,
    request: JsonView,
    model: Seq<char>,
) -> Result<OpenedView, ReplyView> {
    match selected(registry, registry.route(model)) {
        Err(r) => Err(r),
        Ok(s) => match endpoint_refusal(endpoint, s) {
            Some(r) => Err(r),
            None => {
                let account = account_of(headers);
                let key = key_of(s.route, s.provider, account);
                if endpoint == OmniEndpoint::Responses {
                    match history_step(routes, request, key, s.provider) {
                        Err(e) => Err(bridge_reply(e)),
                        Ok(step) => Ok(OpenedView { selected: s, account, key, step }),
                    }
                } else {
                    Ok(OpenedView { selected: s, account, key, step: HistoryStep::Unchanged })
                }
            },
        },
    }
}

/// Finds the route of a request and decides what happens to its history.
pub fn open_request(
    registry: &ProviderRegistry,
    routes: &BoundedRouteMap,
    endpoint: OmniEndpoint,
    headers: &Headers,
    request: &Json,
    model: &str,
) -> (r: Result<OpenedRequest, Reply>)
    ensures
        opened(registry@, routes@, endpoint, headers@, request@, model@) == (match r {
            Ok(o) => Ok(o@),
            Err(e) => Err(e@),
        }),
{
    let selected = match select_route(registry, registry.resolve_logical_model_route(model)) {
        Ok(selected) => selected,
        Err(reply) => return Err(reply),
    };
    if let Some(reply) = refuse_endpoint(endpoint, &selected) {
        return Err(reply);
    }
    let account = account_fingerprint(headers);
    let key = route_key(&selected.route, &selected.provider, &account);
    let step = if endpoint == OmniEndpoint::Responses {
        match hydrate_history_boundary(routes, request, &key, &selected.provider) {
            Ok(step) => step,
            Err(e) => return Err(bridge_error_response(e)),
        }
    } else {
        HistoryStep::Unchanged
    };
    Ok(OpenedRequest { selected, account, key, step })
}

/// A request as it goes upstream.
pub struct UpstreamRequest {
    pub request: Json,
    pub path: String,
    pub convert_chat_response: bool,
}

/// A Responses request that is converted to a Chat request before it goes upstream.
pub struct ChatConversion {
    pub request: Json,
    pub context: BridgeContext,
    pub reasoning: Option<CodexChatReasoningConfig>,
}

/// What is to be done with a request before it goes upstream.
pub enum UpstreamStep {
    Ready(UpstreamRequest),
    Convert(ChatConversion),
}

/// The model of a request as it goes upstream.
pub ghost struct UpstreamRequestView {
    pub request: JsonView,
    pub path: Seq<char>,
    pub convert_chat_response: bool,
}

/// The model of what is to be done with a request before it goes upstream.
pub ghost enum UpstreamStepView {
    Ready(UpstreamRequestView),
    Convert {
        request: JsonView,
        context: BridgeContextView,
        reasoning: Option<ReasoningView>,
    },
}

impl View for UpstreamRequest {
    type V = UpstreamRequestView;

    open spec fn view(&self) -> UpstreamRequestView {
        UpstreamRequestView {
            request: self.request@,
            path: self.path@,
            convert_chat_response: self.convert_chat_response,
        }
    }
}

impl View for UpstreamStep {
    type V = UpstreamStepView;

    open spec fn view(&self) -> UpstreamStepView {
        match *self {
            UpstreamStep::Ready(u) => UpstreamStepView::Ready(u@),
            UpstreamStep::Convert(c) => UpstreamStepView::Convert {
                request: c.request@,
                context: c.context@,
                reasoning: match c.reasoning {
                    Some(r) => Some(r@),
                    None => None,
                },
            },
        }
    }
}

/// What a Chat client of a Responses provider is told.
pub open spec fn chat_client_refusal() -> ReplyView {
    error_reply(
        NOT_IMPLEMENTED,
        RouterErrorView::UnsupportedEndpoint(
            "a Chat Completions client cannot use a provider that speaks the Responses API; call /v1/responses instead, or give the provider a chat-completions endpoint"@,
        ).message(),
    )
}

/// A request that needs no conversion, at a path.
pub open spec fn ready(request: JsonView, path: Seq<char>) -> UpstreamStepView {
    UpstreamStepView::Ready(
        UpstreamRequestView { request, path, convert_chat_response: false },
    )
}

/// What is to be done with a request before it goes upstream, or the reply that
/// refuses it. An official request goes as it is, where it is authorized; a custom one
/// goes under the upstream model's id; a Responses request for a Chat provider is
/// converted.
pub open spec fn upstream_step(
    endpoint: OmniEndpoint,
    s: SelectedView,
    account: Option<Seq<char>>,
    headers: Seq<(Seq<char>, Seq<u8>)>,
    request: JsonView,
) -> Result<UpstreamStepView, ReplyView> {
    if s.route.route_class == RouteClass::Official {
        if officially_authorized(headers) {
            Ok(ready(request, endpoint_path(endpoint)))
        } else {
            Err(missing_authorization())
        }
    } else {
        match s.provider {
            None => Err(missing_model(BAD_REQUEST)),
            Some(p) => if endpoint == OmniEndpoint::ChatCompletions && p.protocol
                == ProviderProtocol::Responses {
                Err(chat_client_refusal())
            } else {
                match s.model {
                    None => Err(missing_model(NOT_FOUND)),
                    Some(m) => if endpoint == OmniEndpoint::Responses && p.protocol
                        == ProviderProtocol::ChatCompletions {
                        let context = context_for(s.route, m.upstream_model_id, account);
                        match chat_bound(request, context) {
                            Err(e) => Err(bridge_reply(e)),
                            Ok(bound) => Ok(
                                UpstreamStepView::Convert {
                                    request: bound,
                                    context,
                                    reasoning: reasoning_of(s.provider, m),
                                },
                            ),
                        }
                    } else {
                        Ok(
                            ready(
                                request.with("model"@, JsonView::Str(m.upstream_model_id)),
                                endpoint_path(endpoint),
                            ),
                        )
                    },
                }
            },
        }
    }
}

/// What is to be done with a request before it goes upstream.
pub fn prepare_upstream(
    endpoint: OmniEndpoint,
    s: &SelectedRoute,
    account: &Option<String>,
    headers: &Headers,
    request: Json,
) -> (r: Result<UpstreamStep, Reply>)
    ensures
        upstream_step(endpoint, s@, opt_view(*account), headers@, request@) == (match r {
            Ok(step) => Ok(step@),
            Err(e) => Err(e@),
        }),
{
    if s.route.route_class == RouteClass::Official {
        return match validate_official_authorization(headers) {
            Ok(_) => Ok(
                UpstreamStep::Ready(
                    UpstreamRequest {
                        request,
                        path: endpoint.path().to_owned(),
                        convert_chat_response: false,
                    },
                ),
            ),
            Err(reply) => Err(reply),
        };
    }
    let p = match &s.provider {
        Some(p) => p,
        None => return Err(error_response(BAD_REQUEST, &RouterError::MissingModel.message())),
    };
    if endpoint == OmniEndpoint::ChatCompletions && p.protocol == ProviderProtocol::Responses {
        return Err(
            error_response(
                NOT_IMPLEMENTED,
                &RouterError::UnsupportedEndpoint(
                    "a Chat Completions client cannot use a provider that speaks the Responses API; call /v1/responses instead, or give the provider a chat-completions endpoint".to_owned(),
                ).message(),
            ),
        );
    }
    let m = match &s.model {
        Some(m) => m,
        None => return Err(error_response(NOT_FOUND, &RouterError::MissingModel.message())),
    };
    if endpoint == OmniEndpoint::Responses && p.protocol == ProviderProtocol::ChatCompletions {
        let context = bridge_context(&s.route, &m.upstream_model_id, account);
        let reasoning = build_reasoning_config(&s.provider, m);
        return match bind_chat_request(request, &context) {
            Ok(bound) => Ok(
                UpstreamStep::Convert(ChatConversion { request: bound, context, reasoning }),
            ),
            Err(e) => Err(bridge_error_response(e)),
        };
    }
    Ok(
        UpstreamStep::Ready(
            UpstreamRequest {
                request: request.with("model", Json::string(&m.upstream_model_id)),
                path: endpoint.path().to_owned(),
                convert_chat_response: false,
            },
        ),
    )
}

/// A converted request as it goes upstream.
pub open spec fn converted_request(request: JsonView) -> UpstreamRequestView {
    UpstreamRequestView {
        request,
        path: endpoint_path(OmniEndpoint::ChatCompletions),
        convert_chat_response: true,
    }
}

/// The request that goes upstream once its conversion to Chat is done.
pub fn finish_conversion(converted: Result<Json, String>) -> (r: Result<UpstreamRequest, Reply>)
    ensures
        match r {
            Ok(u) => converted is Ok && u@ == converted_request(converted->Ok_0@),
            Err(e) => converted is Err && e@ == bridge_reply(
                BridgeErrorView::ContextBoundary(converted->Err_0@),
            ),
        },
{
    match converted {
        Ok(request) => Ok(
            UpstreamRequest {
                request,
                path: OmniEndpoint::ChatCompletions.path().to_owned(),
                convert_chat_response: true,
            },
        ),
        Err(e) => Err(bridge_error_response(BridgeError::ContextBoundary(e))),
    }
}

/// What becomes of an opened request once its history is settled. Where earlier turns
/// were restored, `enriched` is the request with `restored` items put in.
pub open spec fn settled(
    endpoint: OmniEndpoint,
    o: OpenedView,
    headers: Seq<(Seq<char>, Seq<u8>)>,
    request: JsonView,
    enriched: JsonView,
    restored: usize,
) -> Result<UpstreamStepView, ReplyView> {
    match o.step {
        HistoryStep::Unchanged => upstream_step(endpoint, o.selected, o.account, headers, request),
        HistoryStep::Restore { continues, has_tool_output } => match history_restored(
            continues,
            has_tool_output,
            enriched,
            restored,
        ) {
            Err(e) => Err(bridge_reply(e)),
            Ok(request) => upstream_step(endpoint, o.selected, o.account, headers, request),
        },
    }
}

/// Settles the history of an opened request and prepares it for its upstream.
pub fn settle_request(
    endpoint: OmniEndpoint,
    o: &OpenedRequest,
    headers: &Headers,
    request: &Json,
    enriched: &Json,
    restored: usize,
) -> (r: Result<UpstreamStep, Reply>)
    ensures
        settled(endpoint, o@, headers@, request@, enriched@, restored) == (match r {
            Ok(step) => Ok(step@),
            Err(e) => Err(e@),
        }),
{
    match o.step {
        HistoryStep::Unchanged => prepare_upstream(
            endpoint,
            &o.selected,
            &o.account,
            headers,
            request.copy(),
        ),
        HistoryStep::Restore { continues, has_tool_output } => match finish_history(
            continues,
            has_tool_output,
            enriched,
            restored,
        ) {
            Err(e) => Err(bridge_error_response(e)),
            Ok(request) => prepare_upstream(endpoint, &o.selected, &o.account, headers, request),
        },
    }
}

/// The URL that a request goes to, or the reply where there is none.
pub open spec fn target_of(
    official_base: Seq<char>,
    provider: Option<ProviderView>,
    path: Seq<char>,
) -> Result<Seq<char>, ReplyView> {
    let base = match provider {
        Some(p) => p.base_url,
        None => official_base,
    };
    match joined(base, path) {
        Ok(url) => Ok(url),
        Err(e) => Err(error_reply(BAD_GATEWAY, e.message())),
    }
}

/// The URL that a request goes to.
pub fn upstream_target(official_base: &str, provider: &Option<ProviderConfig>, path: &str) -> (r:
    Result<String, Reply>)
    ensures
        target_of(
            official_base@,
            match *provider {
                Some(p) => Some(p@),
                None => None,
            },
            path@,
        ) == (match r {
            Ok(url) => Ok(url@),
            Err(e) => Err(e@),
        }),
{
    let base = match provider {
        Some(p) => p.base_url.as_str(),
        None => official_base,
    };
    match join_url(base, path) {
        Ok(url) => Ok(url),
        Err(e) => Err(error_response(BAD_GATEWAY, &e.message())),
    }
}

/// The headers that every upstream gets: the content type, and what the client
/// accepts.
pub open spec fn common_headers(headers: Seq<(Seq<char>, Seq<u8>)>, content_type: Seq<u8>) -> Seq<
    (Seq<char>, Seq<u8>),
> {
    seq![("content-type"@, content_type)] + only(headers, "accept"@)
}

/// What is to be done about the headers of a request.
pub enum HeaderStep {
    /// They are complete.
    Complete(Vec<(String, Vec<u8>)>),
    /// The credential of the given reference is still to be added.
    NeedsCredential { reference: String, headers: Vec<(String, Vec<u8>)> },
}

/// The model of what is to be done about the headers of a request.
pub ghost enum HeaderStepView {
    Complete(Seq<(Seq<char>, Seq<u8>)>),
    NeedsCredential { reference: Seq<char>, headers: Seq<(Seq<char>, Seq<u8>)> },
}

impl View for HeaderStep {
    type V = HeaderStepView;

    open spec fn view(&self) -> HeaderStepView {
        match *self {
            HeaderStep::Complete(h) => HeaderStepView::Complete(header_views(h@)),
            HeaderStep::NeedsCredential { reference, headers } => HeaderStepView::NeedsCredential {
                reference: reference@,
                headers: header_views(headers@),
            },
        }
    }
}

/// The headers with which a request goes to a route. A custom provider gets its own
/// fixed headers and its credential; of the request's headers it gets `Accept` alone.
pub open spec fn header_step(
    route_class: RouteClass,
    provider: Option<ProviderView>,
    headers: Seq<(Seq<char>, Seq<u8>)>,
) -> Result<HeaderStepView, ReplyView> {
    let common = common_headers(headers, "application/json".spec_bytes());
    if route_class == RouteClass::Official {
        Ok(HeaderStepView::Complete(common + official_headers(headers)))
    } else {
        match provider {
            None => Ok(HeaderStepView::Complete(common)),
            Some(p) => match fixed_headers(p.static_headers) {
                Err(e) => Err(error_reply(BAD_GATEWAY, e.message())),
                Ok(fixed) => if p.auth_strategy is Absent {
                    Ok(HeaderStepView::Complete(common + fixed))
                } else {
                    Ok(
                        HeaderStepView::NeedsCredential {
                            reference: p.credential_reference,
                            headers: common + fixed,
                        },
                    )
                },
            },
        }
    }
}

/// Appends headers.
fn extend(out: &mut Vec<(String, Vec<u8>)>, more: Vec<(String, Vec<u8>)>)
    ensures
        header_views(final(out)@) == header_views(old(out)@) + header_views(more@),
{
    let ghost before = header_views(out@);
    let mut more = more;
    let ghost added = header_views(more@);
    out.append(&mut more);
    assert(header_views(out@) =~= before + added);
}

fn start_headers(headers: &Headers, content_type: Vec<u8>) -> (r: Vec<(String, Vec<u8>)>)
    ensures
        header_views(r@) == common_headers(headers@, content_type@),
{
    let mut out: Vec<(String, Vec<u8>)> = Vec::new();
    out.push(("content-type".to_owned(), content_type));
    assert(header_views(out@) =~= seq![("content-type"@, content_type@)]);
    pass_header(&mut out, headers, "accept");
    out
}

/// The headers with which a request goes to a route.
pub fn upstream_headers(
    route_class: RouteClass,
    provider: &Option<ProviderConfig>,
    headers: &Headers,
) -> (r: Result<HeaderStep, Reply>)
    ensures
        header_step(
            route_class,
            match *provider {
                Some(p) => Some(p@),
                None => None,
            },
            headers@,
        ) == (match r {
            Ok(step) => Ok(step@),
            Err(e) => Err(e@),
        }),
{
    let mut out = start_headers(headers, "application/json".as_bytes_vec());
    if route_class == RouteClass::Official {
        extend(&mut out, apply_official_headers(headers));
        return Ok(HeaderStep::Complete(out));
    }
    let p = match provider {
        Some(p) => p,
        None => return Ok(HeaderStep::Complete(out)),
    };
    match custom_static_headers(p) {
        Err(e) => Err(error_response(BAD_GATEWAY, &e.message())),
        Ok(fixed) => {
            extend(&mut out, fixed);
            if p.auth_strategy.is_absent() {
                Ok(HeaderStep::Complete(out))
            } else {
                Ok(
                    HeaderStep::NeedsCredential {
                        reference: p.credential_reference.clone(),
                        headers: out,
                    },
                )
            }
        },
    }
}

/// The headers of a request to a custom provider once its credential was read, or the
/// reply where it could not be.
pub open spec fn credentialed(
    provider: ProviderView,
    headers: Seq<(Seq<char>, Seq<u8>)>,
    credential: Result<Seq<char>, Seq<char>>,
) -> Result<Seq<(Seq<char>, Seq<u8>)>, ReplyView> {
    match credential {
        Err(e) => Err(error_reply(BAD_GATEWAY, RouterErrorView::Credential(e).message())),
        Ok(secret) => match with_credential(headers, provider.auth_strategy, secret) {
            Err(e) => Err(error_reply(BAD_GATEWAY, e.message())),
            Ok(headers) => Ok(headers),
        },
    }
}

/// Adds the credential to the headers of a request to a custom provider.
pub fn finish_headers(
    provider: &ProviderConfig,
    headers: Vec<(String, Vec<u8>)>,
    credential: Result<String, String>,
) -> (r: Result<Vec<(String, Vec<u8>)>, Reply>)
    ensures
        credentialed(
            provider@,
            header_views(headers@),
            match credential {
                Ok(s) => Ok(s@),
                Err(e) => Err(e@),
            },
        ) == (match r {
            Ok(h) => Ok(header_views(h@)),
            Err(e) => Err(e@),
        }),
{
    match credential {
        Err(e) => Err(error_response(BAD_GATEWAY, &RouterError::Credential(e).message())),
        Ok(secret) => match add_credential(headers, provider, &secret) {
            Err(e) => Err(error_response(BAD_GATEWAY, &e.message())),
            Ok(headers) => Ok(headers),
        },
    }
}

/// Keeps a credential that was read in the current generation, and hands it on.
pub fn resolve_credential(
    cache: &mut CredentialCache,
    generation: u64,
    reference: &str,
    read: Result<String, String>,
) -> (r: Result<String, RouterError>)
    ensures
        match read {
            Ok(secret) => {
                &&& r is Ok
                &&& r->Ok_0@ == secret@
                &&& final(cache)@ == old(cache)@.with(generation, reference@, secret@)
            },
            Err(e) => {
                &&& r is Err
                &&& r->Err_0@ == RouterErrorView::Credential(e@)
                &&& final(cache)@ == old(cache)@
            },
        },
{
    match read {
        Ok(secret) => {
            cache.insert(generation, reference, secret.clone());
            Ok(secret)
        },
        Err(e) => Err(RouterError::Credential(e)),
    }
}

/// No header of the request but `Accept` reaches a custom provider: neither the
/// official authorization, nor the account id, nor the capability token.
pub proof fn custom_providers_see_no_client_headers(
    provider: ProviderView,
    headers: Seq<(Seq<char>, Seq<u8>)>,
    other: Seq<(Seq<char>, Seq<u8>)>,
)
    requires
        first_value(headers, "accept"@) == first_value(other, "accept"@),
    ensures
        header_step(RouteClass::Custom, Some(provider), headers) == header_step(
            RouteClass::Custom,
            Some(provider),
            other,
        ),
{
}

/// An official request is sent on as it was received.
pub proof fn official_requests_are_not_rewritten(
    endpoint: OmniEndpoint,
    s: SelectedView,
    account: Option<Seq<char>>,
    headers: Seq<(Seq<char>, Seq<u8>)>,
    request: JsonView,
)
    requires
        s.route.route_class == RouteClass::Official,
        upstream_step(endpoint, s, account, headers, request) is Ok,
    ensures
        upstream_step(endpoint, s, account, headers, request)->Ok_0 == ready(
            request,
            endpoint_path(endpoint),
        ),
{
}

/// A custom request always goes upstream under the upstream model's id, and but for
/// its model it is not changed on the way to a provider of the same protocol.
pub proof fn custom_requests_name_the_upstream_model(
    endpoint: OmniEndpoint,
    s: SelectedView,
    account: Option<Seq<char>>,
    headers: Seq<(Seq<char>, Seq<u8>)>,
    request: JsonView,
    model: ModelView,
)
    requires
        s.route.route_class == RouteClass::Custom,
        s.model == Some(model),
        request is Object,
        upstream_step(endpoint, s, account, headers, request) is Ok,
    ensures
        match upstream_step(endpoint, s, account, headers, request)->Ok_0 {
            UpstreamStepView::Ready(u) => {
                &&& u.request.text_field("model"@) == Some(model.upstream_model_id)
                &&& u.request == request.with("model"@, JsonView::Str(model.upstream_model_id))
            },
            UpstreamStepView::Convert { request: bound, context, reasoning } => {
                &&& bound.text_field("model"@) == Some(model.upstream_model_id)
                &&& context.upstream_model == model.upstream_model_id
            },
        },
{
}

/// A Chat client never gets a Responses provider: the combination is refused.
pub proof fn chat_clients_cannot_use_responses_providers(
    s: SelectedView,
    account: Option<Seq<char>>,
    headers: Seq<(Seq<char>, Seq<u8>)>,
    request: JsonView,
)
    requires
        s.route.route_class == RouteClass::Custom,
        s.provider is Some,
        s.provider->0.protocol == ProviderProtocol::Responses,
    ensures
        upstream_step(OmniEndpoint::ChatCompletions, s, account, headers, request) == Err::<
            UpstreamStepView,
            ReplyView,
        >(chat_client_refusal()),
{
}

/// The largest upstream answer that is taken in whole.
pub const MAX_UPSTREAM_RESPONSE_BYTES: usize = 67_108_864;

/// What is done with an upstream's answer.
#[derive(Debug, Clone, Copy, PartialEq, Eq, Structural)]
pub enum ResponseAction {
    /// A failure is handed on as it is.
    Relay,
    /// A Chat stream is converted to a Responses stream, and recorded.
    ConvertStream,
    /// A Responses stream is handed on and recorded.
    RecordStream,
    /// A stream is handed on.
    PassStream,
    /// The answer is read as JSON.
    Read,
}

/// Whether a content type names a media type.
pub open spec fn names_media(content_type: Option<Seq<u8>>, media: Seq<char>) -> bool {
    match content_type {
        Some(value) => all_visible(value) && has_part(lowered(byte_chars(value)), media),
        None => false,
    }
}

/// Whether an answer is a stream: an event stream is one, JSON is none, and without
/// either the request decides.
pub open spec fn streaming(content_type: Option<Seq<u8>>, requested: bool) -> bool {
    if names_media(content_type, "text/event-stream"@) {
        true
    } else if names_media(content_type, "application/json"@) {
        false
    } else {
        requested
    }
}

/// Whether a status reports success.
pub open spec fn success(status: u16) -> bool {
    200 <= status < 300
}

/// What is done with an upstream's answer.
pub open spec fn response_action(
    endpoint: OmniEndpoint,
    convert: bool,
    requested: bool,
    status: u16,
    content_type: Option<Seq<u8>>,
) -> ResponseAction {
    if !success(status) {
        ResponseAction::Relay
    } else if !streaming(content_type, requested) {
        ResponseAction::Read
    } else if convert {
        ResponseAction::ConvertStream
    } else if endpoint == OmniEndpoint::Responses {
        ResponseAction::RecordStream
    } else {
        ResponseAction::PassStream
    }
}

fn media_named(content_type: &Option<Vec<u8>>, media: &str) -> (r: bool)
    ensures
        r == names_media(
            match *content_type {
                Some(v) => Some(v@),
                None => None,
            },
            media@,
        ),
{
    match content_type {
        Some(value) => match value_text(value) {
            HeaderText::Text(text) => contains(&to_lower(&text), media),
            _ => false,
        },
        None => false,
    }
}

/// Whether a request asks for a stream.
pub fn requests_stream(request: &Json) -> (r: bool)
    ensures
        r == (request@.field("stream"@) == Some(JsonView::Bool(true))),
{
    match request.field("stream") {
        Some(v) => match v.as_truth() {
            Some(b) => b,
            None => false,
        },
        None => false,
    }
}

/// What is done with an upstream's answer.
pub fn choose_response_action(
    endpoint: OmniEndpoint,
    convert: bool,
    requested: bool,
    status: u16,
    content_type: &Option<Vec<u8>>,
) -> (r: ResponseAction)
    ensures
        r == response_action(
            endpoint,
            convert,
            requested,
            status,
            match *content_type {
                Some(v) => Some(v@),
                None => None,
            },
        ),
{
    if !(200 <= status && status < 300) {
        return ResponseAction::Relay;
    }
    let streams = if media_named(content_type, "text/event-stream") {
        true
    } else if media_named(content_type, "application/json") {
        false
    } else {
        requested
    };
    if !streams {
        ResponseAction::Read
    } else if convert {
        ResponseAction::ConvertStream
    } else if endpoint == OmniEndpoint::Responses {
        ResponseAction::RecordStream
    } else {
        ResponseAction::PassStream
    }
}

/// A provider that ignores the wish for a stream and answers with JSON is read as JSON.
pub proof fn json_answers_are_never_streams(
    endpoint: OmniEndpoint,
    convert: bool,
    requested: bool,
    status: u16,
    content_type: Seq<u8>,
)
    requires
        success(status),
        names_media(Some(content_type), "application/json"@),
        !names_media(Some(content_type), "text/event-stream"@),
    ensures
        response_action(endpoint, convert, requested, status, Some(content_type))
            == ResponseAction::Read,
{
}

/// The content type of a stream that is handed on.
pub fn stream_content_type(content_type: Option<Vec<u8>>) -> (r: Vec<u8>)
    ensures
        r@ == (match content_type {
            Some(v) => v@,
            None => "text/event-stream".spec_bytes(),
        }),
{
    match content_type {
        Some(v) => v,
        None => "text/event-stream".as_bytes_vec(),
    }
}

/// Refuses an answer whose announced length is over the limit.
pub fn check_announced_length(length: Option<u64>) -> (r: Result<(), RouterError>)
    ensures
        match r {
            Ok(_) => length is None || length->0 <= MAX_UPSTREAM_RESPONSE_BYTES,
            Err(e) => {
                &&& length is Some
                &&& length->0 > MAX_UPSTREAM_RESPONSE_BYTES
                &&& e@ == RouterErrorView::Upstream(
                    "upstream response of "@ + decimal(length->0 as nat) + " bytes exceeds the "@
                        + decimal(MAX_UPSTREAM_RESPONSE_BYTES as nat) + " byte limit"@,
                )
            },
        },
{
    match length {
        Some(length) => if length > MAX_UPSTREAM_RESPONSE_BYTES as u64 {
            Err(
                RouterError::Upstream(
                    cat5(
                        "upstream response of ",
                        &decimal_of(length),
                        " bytes exceeds the ",
                        &decimal_of(MAX_UPSTREAM_RESPONSE_BYTES as u64),
                        " byte limit",
                    ),
                ),
            )
        } else {
            Ok(())
        },
        None => Ok(()),
    }
}

/// Takes in one more piece of an answer, unless the whole would be over the limit.
pub fn collect_chunk(collected: &mut Vec<u8>, chunk: &Vec<u8>) -> (r: Result<(), RouterError>)
    requires
        old(collected)@.len() <= MAX_UPSTREAM_RESPONSE_BYTES,
    ensures
        final(collected)@.len() <= MAX_UPSTREAM_RESPONSE_BYTES,
        match r {
            Ok(_) => final(collected)@ == old(collected)@ + chunk@,
            Err(e) => {
                &&& old(collected)@.len() + chunk@.len() > MAX_UPSTREAM_RESPONSE_BYTES
                &&& final(collected)@ == old(collected)@
                &&& e@ == RouterErrorView::Upstream(
                    "upstream response exceeds the "@ + decimal(MAX_UPSTREAM_RESPONSE_BYTES as nat)
                        + " byte limit"@,
                )
            },
        },
{
    if chunk.len() > MAX_UPSTREAM_RESPONSE_BYTES - collected.len() {
        return Err(
            RouterError::Upstream(
                cat3(
                    "upstream response exceeds the ",
                    &decimal_of(MAX_UPSTREAM_RESPONSE_BYTES as u64),
                    " byte limit",
                ),
            ),
        );
    }
    let mut copy = copy_bytes(chunk);
    collected.append(&mut copy);
    Ok(())
}

/// The JSON of an answer that was taken in whole, or the reply where it is none.
pub fn read_collected(collected: &Vec<u8>) -> (r: Result<Json, Reply>)
    ensures
        match json_parsed(collected@) {
            Ok(v) => r is Ok && r->Ok_0@ == v,
            Err(e) => r is Err && r->Err_0@ == error_reply(
                BAD_GATEWAY,
                RouterErrorView::InvalidJson(e).message(),
            ),
        },
{
    match parse_json(collected) {
        Ok(v) => Ok(v),
        Err(e) => Err(error_response(BAD_GATEWAY, &RouterError::InvalidJson(e).message())),
    }
}

/// The Chat answer that the conversion to a Responses answer starts from, or the reply
/// where there is none.
pub open spec fn chat_answer(
    s: SelectedView,
    account: Option<Seq<char>>,
    request: JsonView,
    answer: JsonView,
) -> Result<JsonView, ReplyView> {
    match s.model {
        None => Err(missing_model(BAD_GATEWAY)),
        Some(m) => match response_bound(
            answer,
            context_for(s.route, m.upstream_model_id, account),
            request,
        ) {
            Ok(bound) => Ok(bound),
            Err(e) => Err(bridge_reply(e)),
        },
    }
}

/// The Chat answer that the conversion to a Responses answer starts from.
pub fn bind_answer(
    s: &SelectedRoute,
    account: &Option<String>,
    request: &Json,
    answer: Json,
) -> (r: Result<Json, Reply>)
    ensures
        chat_answer(s@, opt_view(*account), request@, answer@) == (match r {
            Ok(v) => Ok(v@),
            Err(e) => Err(e@),
        }),
{
    let m = match &s.model {
        Some(m) => m,
        None => return Err(error_response(BAD_GATEWAY, &RouterError::MissingModel.message())),
    };
    let context = bridge_context(&s.route, &m.upstream_model_id, account);
    match bind_chat_response(answer, &context, request) {
        Ok(bound) => Ok(bound),
        Err(e) => Err(bridge_error_response(e)),
    }
}

/// The answer that the client gets once its conversion from Chat is done.
pub fn finish_answer(converted: Result<Json, String>) -> (r: Result<Json, Reply>)
    ensures
        match r {
            Ok(v) => converted is Ok && v@ == converted->Ok_0@,
            Err(e) => converted is Err && e@ == bridge_reply(
                BridgeErrorView::InvalidResponse(converted->Err_0@),
            ),
        },
{
    match converted {
        Ok(v) => Ok(v),
        Err(e) => Err(bridge_error_response(BridgeError::InvalidResponse(e))),
    }
}

/// The model under which the events of a converted stream are reported, or the reply
/// where the stream cannot be converted.
pub fn stream_model(s: &SelectedRoute, account: &Option<String>, request: &Json) -> (r: Result<
    Option<String>,
    Reply,
>)
    ensures
        match s@.model {
            None => r is Err && r->Err_0@ == missing_model(BAD_GATEWAY),
            Some(m) => match context_error(
                context_for(s@.route, m.upstream_model_id, opt_view(*account)),
                "official responses cannot be decoded as Chat"@,
            ) {
                Some(e) => r is Err && r->Err_0@ == bridge_reply(e),
                None => r is Ok && opt_view(r->Ok_0) == requested_model(request@),
            },
        },
{
    let m = match &s.model {
        Some(m) => m,
        None => return Err(error_response(BAD_GATEWAY, &RouterError::MissingModel.message())),
    };
    let context = bridge_context(&s.route, &m.upstream_model_id, account);
    match chat_sse_model(&context, request) {
        Ok(model) => Ok(model),
        Err(e) => Err(bridge_error_response(e)),
    }
}

/// Whether the answers of an endpoint can be continued and are recorded: those of
/// searches and images are not.
pub open spec fn recorded_endpoint(endpoint: OmniEndpoint) -> bool {
    !(endpoint == OmniEndpoint::Search || endpoint == OmniEndpoint::ImagesGenerations || endpoint
        == OmniEndpoint::ImagesEdits)
}

/// Whether the answers of an endpoint are recorded.
pub fn records_history(endpoint: OmniEndpoint) -> (r: bool)
    ensures
        r == recorded_endpoint(endpoint),
{
    !(endpoint == OmniEndpoint::Search || endpoint == OmniEndpoint::ImagesGenerations || endpoint
        == OmniEndpoint::ImagesEdits)
}

/// A request that needs no conversion goes to the path of the endpoint at which it was
/// received, on a custom route as on the official one. A conversion is needed for a
/// Responses request to a custom provider that speaks Chat, and for nothing else; it goes
/// to the Chat path.
pub proof fn requests_go_to_their_path(
    endpoint: OmniEndpoint,
    s: SelectedView,
    account: Option<Seq<char>>,
    headers: Seq<(Seq<char>, Seq<u8>)>,
    request: JsonView,
)
    requires
        upstream_step(endpoint, s, account, headers, request) is Ok,
    ensures
        match upstream_step(endpoint, s, account, headers, request)->Ok_0 {
            UpstreamStepView::Ready(u) => {
                &&& !u.convert_chat_response
                &&& endpoint == OmniEndpoint::Responses ==> u.path == "responses"@
                &&& endpoint == OmniEndpoint::ChatCompletions ==> u.path == "chat/completions"@
                &&& endpoint == OmniEndpoint::Compact ==> u.path == "responses/compact"@
                &&& endpoint == OmniEndpoint::Search ==> u.path == "alpha/search"@
                &&& endpoint == OmniEndpoint::ImagesGenerations ==> u.path == "images/generations"@
                &&& endpoint == OmniEndpoint::ImagesEdits ==> u.path == "images/edits"@
                &&& s.route.route_class == RouteClass::Official || endpoint
                    != OmniEndpoint::Responses || s.provider->0.protocol
                    == ProviderProtocol::Responses
            },
            UpstreamStepView::Convert { request: bound, context, reasoning } => {
                &&& endpoint == OmniEndpoint::Responses
                &&& s.route.route_class == RouteClass::Custom
                &&& s.provider is Some && s.provider->0.protocol == ProviderProtocol::ChatCompletions
                &&& context.domain == crate::bridge::RouteDomain::Custom
                &&& context.generation == s.route.generation
                &&& context.account_fingerprint == account
            },
        },
{
    crate::routes::endpoints_have_their_paths(endpoint);
}

/// What the client wrote goes upstream: on the official route the whole request, on a custom
/// route everything but the model, which becomes the upstream's.
pub proof fn requests_keep_what_the_client_wrote(
    endpoint: OmniEndpoint,
    s: SelectedView,
    account: Option<Seq<char>>,
    headers: Seq<(Seq<char>, Seq<u8>)>,
    request: JsonView,
    key: Seq<char>,
)
    requires
        upstream_step(endpoint, s, account, headers, request) is Ok,
    ensures
        ({
            let sent = match upstream_step(endpoint, s, account, headers, request)->Ok_0 {
                UpstreamStepView::Ready(u) => u.request,
                UpstreamStepView::Convert { request, context, reasoning } => request,
            };
            &&& s.route.route_class == RouteClass::Official ==> sent == request
            &&& key != "model"@ ==> sent.field(key) == request.field(key)
            &&& s.route.route_class == RouteClass::Custom && request is Object ==> s.model is Some
                && sent.field("model"@) == Some(JsonView::Str(s.model->0.upstream_model_id))
        }),
{
}

/// An official request goes on exactly where the client is logged in, and is refused with
/// 401 otherwise. A custom request goes on wherever the route has a provider and a model,
/// but for a Chat request to a provider that speaks Responses, which is refused with 501,
/// and a conversion that the bridge refuses.
pub proof fn requests_go_on_unless_refused(
    endpoint: OmniEndpoint,
    s: SelectedView,
    account: Option<Seq<char>>,
    headers: Seq<(Seq<char>, Seq<u8>)>,
    request: JsonView,
)
    ensures
        ({
            let step = upstream_step(endpoint, s, account, headers, request);
            let custom = s.route.route_class == RouteClass::Custom && s.provider is Some;
            &&& s.route.route_class == RouteClass::Official ==> (step is Ok <==> lookup(
                headers,
                "authorization"@,
            ) is Text && crate::gate::bearer(lookup(headers, "authorization"@)->Text_0))
            &&& s.route.route_class == RouteClass::Official && step is Err ==> step->Err_0.status
                == 401
            &&& custom && endpoint == OmniEndpoint::ChatCompletions && s.provider->0.protocol
                == ProviderProtocol::Responses ==> step is Err && step->Err_0.status == 501
            &&& custom && s.model is Some && endpoint == OmniEndpoint::ChatCompletions
                && s.provider->0.protocol == ProviderProtocol::ChatCompletions ==> step is Ok
            &&& custom && s.model is Some && endpoint != OmniEndpoint::ChatCompletions && !(endpoint
                == OmniEndpoint::Responses && s.provider->0.protocol
                == ProviderProtocol::ChatCompletions) ==> step is Ok
            &&& custom && s.model is Some && endpoint == OmniEndpoint::Responses
                && s.provider->0.protocol == ProviderProtocol::ChatCompletions ==> (step is Ok
                <==> request is Object && !blank(s.model->0.upstream_model_id) && !blank(
                context_for(s.route, s.model->0.upstream_model_id, account).route_id,
            ))
        }),
{
}

/// What reaches the upstream of a settled request is what the client sent, or the restored
/// request, but for the model and, where turns were restored, for the input and the five
/// identifiers of the route.
pub proof fn settled_requests_keep_what_was_said(
    endpoint: OmniEndpoint,
    o: OpenedView,
    headers: Seq<(Seq<char>, Seq<u8>)>,
    request: JsonView,
    enriched: JsonView,
    restored: usize,
    key: Seq<char>,
)
    requires
        settled(endpoint, o, headers, request, enriched, restored) is Ok,
        key != "model"@,
    ensures
        ({
            let sent = match settled(
                endpoint,
                o,
                headers,
                request,
                enriched,
                restored,
            )->Ok_0 {
                UpstreamStepView::Ready(u) => u.request,
                UpstreamStepView::Convert { request, context, reasoning } => request,
            };
            &&& o.step is Unchanged ==> sent.field(key) == request.field(key)
            &&& o.step is Restore && key != "input"@ && key != "previous_response_id"@ && key
                != "conversation"@ && key != "encrypted_content"@ && key != "prompt_cache_key"@ && key
                != "safety_identifier"@ ==> sent.field(key) == enriched.field(key)
            &&& o.step is Restore && (key == "previous_response_id"@ || key == "conversation"@ || key
                == "encrypted_content"@ || key == "prompt_cache_key"@ || key
                == "safety_identifier"@) ==> sent.field(key) is None
        }),
{
    if let HistoryStep::Restore { continues, has_tool_output } = o.step {
        let portable_form = crate::bridge::portable(enriched)->Ok_0;
        crate::bridge::portable_requests_hold_no_private_ids(enriched);
        if key != "previous_response_id"@ && key != "conversation"@ && key != "encrypted_content"@
            && key != "prompt_cache_key"@ && key != "safety_identifier"@ {
            crate::bridge::portable_requests_keep_the_rest(enriched, key);
        }
        requests_keep_what_the_client_wrote(
            endpoint,
            o.selected,
            o.account,
            headers,
            portable_form,
            key,
        );
    } else {
        requests_keep_what_the_client_wrote(
            endpoint,
            o.selected,
            o.account,
            headers,
            request,
            key,
        );
    }
}

/// A request goes below the base URL of its provider, or below the official one where it has
/// none; the other base does not matter.
pub proof fn targets_are_below_their_base(
    official_base: Seq<char>,
    other: Seq<char>,
    provider: ProviderView,
    path: Seq<char>,
)
    ensures
        target_of(official_base, Some(provider), path) == target_of(other, Some(provider), path),
        match joined(provider.base_url, path) {
            Ok(url) => target_of(official_base, Some(provider), path) == Ok::<Seq<char>, ReplyView>(
                url,
            ),
            Err(_) => target_of(official_base, Some(provider), path) is Err && target_of(
                official_base,
                Some(provider),
                path,
            )->Err_0.status == 502,
        },
        match joined(official_base, path) {
            Ok(url) => target_of(official_base, None, path) == Ok::<Seq<char>, ReplyView>(url),
            Err(_) => target_of(official_base, None, path) is Err,
        },
{
}

/// Every request goes out as JSON and with the client's `Accept` header, if it has one. An
/// official one carries the client's session besides; a custom one the provider's fixed
/// headers, and it waits for the provider's credential unless it needs none.
pub proof fn headers_go_by_the_route(
    provider: ProviderView,
    fixed: Seq<(Seq<char>, Seq<u8>)>,
    headers: Seq<(Seq<char>, Seq<u8>)>,
)
    requires
        fixed_headers(provider.static_headers) == Ok::<_, RouterErrorView>(fixed),
    ensures
        ({
            let official = header_step(RouteClass::Official, None, headers);
            let custom = header_step(RouteClass::Custom, Some(provider), headers);
            let first = ("content-type"@, "application/json".spec_bytes());
            let sent = match custom->Ok_0 {
                HeaderStepView::Complete(h) => h,
                HeaderStepView::NeedsCredential { reference, headers } => headers,
            };
            let accept = match first_value(headers, "accept"@) {
                Some(value) => seq![("accept"@, value)],
                None => Seq::empty(),
            };
            &&& official == Ok::<_, ReplyView>(
                HeaderStepView::Complete(
                    seq![first] + accept + official_headers(headers),
                ),
            )
            &&& custom is Ok
            &&& sent == seq![first] + accept + fixed
            &&& provider.auth_strategy is Absent <==> custom->Ok_0 is Complete
            &&& custom->Ok_0 is NeedsCredential ==> custom->Ok_0->reference
                == provider.credential_reference
        }),
{
}

/// A credential that cannot be read, or that makes no header, is answered with 502 and
/// nothing is sent.
pub proof fn missing_credentials_stop_the_request(
    provider: ProviderView,
    headers: Seq<(Seq<char>, Seq<u8>)>,
    reason: Seq<char>,
)
    ensures
        credentialed(provider, headers, Err(reason)) is Err,
        credentialed(provider, headers, Err(reason))->Err_0.status == 502,
{
}

/// What is taken in of a request: its decoded body as JSON, with the model that it names.
/// Before that it is refused for who sent it, then with 415 where it does not say that it
/// is JSON or is encoded in an unknown way, with 413 where it is too large, and with 400
/// where it cannot be decoded or read or names no model.
pub proof fn received_requests_are_the_body(
    token: Option<Seq<char>>,
    headers: Seq<(Seq<char>, Seq<u8>)>,
    body: Option<Seq<u8>>,
)
    ensures
        match received(token, headers, body) {
            Ok((request, model)) => {
                &&& refusal(token, headers) is None
                &&& says_json(headers)
                &&& body is Some
                &&& decoded_body(content_encoding(headers), body->0) is Ok
                &&& json_parsed(decoded_body(content_encoding(headers), body->0)->Ok_0) == Ok::<
                    JsonView,
                    Seq<char>,
                >(request)
                &&& request.field("model"@) == Some(JsonView::Str(model))
            },
            Err(r) => {
                let decoded = decoded_body(content_encoding(headers), body->0);
                if refusal(token, headers) is Some {
                    refusal(token, headers) == Some(r)
                } else if !says_json(headers) {
                    r.status == 415
                } else if body is None {
                    r.status == 413
                } else if decoded is Err {
                    r.status == (if decoded->Err_0 is UnsupportedContentEncoding {
                        415u16
                    } else {
                        400
                    })
                } else {
                    &&& r.status == 400
                    &&& json_parsed(decoded->Ok_0) is Err || json_parsed(
                        decoded->Ok_0,
                    )->Ok_0.text_field("model"@) is None
                }
            },
        },
{
}

/// The answer of an upstream is handed on as it is where it failed. A good one is read
/// whole, unless it is a stream: the answer says so by its media type, and where it says
/// neither stream nor JSON, the request decides. A stream is converted where the request
/// was, and recorded where it is a Responses stream.
pub proof fn answers_are_handled_by_what_they_are(
    endpoint: OmniEndpoint,
    convert: bool,
    requested: bool,
    status: u16,
    content_type: Option<Seq<u8>>,
)
    ensures
        ({
            let action = response_action(endpoint, convert, requested, status, content_type);
            let says = |media: Seq<char>|
                content_type is Some && all_visible(content_type->0) && has_part(
                    lowered(byte_chars(content_type->0)),
                    media,
                );
            let stream = says("text/event-stream"@) || (!says("application/json"@) && requested);
            &&& action == ResponseAction::Relay <==> status < 200 || status > 299
            &&& 200 <= status <= 299 && !stream ==> action == ResponseAction::Read
            &&& 200 <= status <= 299 && stream && convert ==> action == ResponseAction::ConvertStream
            &&& 200 <= status <= 299 && stream && !convert && endpoint == OmniEndpoint::Responses
                ==> action == ResponseAction::RecordStream
            &&& 200 <= status <= 299 && stream && !convert && endpoint != OmniEndpoint::Responses
                ==> action == ResponseAction::PassStream
        }),
{
}

/// The answers of three endpoints can be continued and are recorded; those of searches and
/// images are not.
pub proof fn continued_endpoints_are_recorded(endpoint: OmniEndpoint)
    ensures
        recorded_endpoint(endpoint) <==> endpoint == OmniEndpoint::Responses || endpoint
            == OmniEndpoint::ChatCompletions || endpoint == OmniEndpoint::Compact,
{
}

/// A Chat answer goes back with everything in it but the model, which is the one that the
/// client asked for.
pub proof fn answers_keep_what_the_upstream_said(
    s: SelectedView,
    account: Option<Seq<char>>,
    request: JsonView,
    answer: JsonView,
    key: Seq<char>,
)
    ensures
        ({
            let out = chat_answer(s, account, request, answer);
            &&& out is Ok && key != "model"@ ==> out->Ok_0.field(key) == answer.field(key)
            &&& out is Ok && request.text_field("model"@) is Some && request.text_field(
                "model"@,
            )->0.len() > 0 ==> out->Ok_0.text_field("model"@) == request.text_field("model"@)
            &&& s.route.route_class == RouteClass::Custom && s.model is Some && answer is Object
                && !blank(s.model->0.upstream_model_id) && !blank(
                context_for(s.route, s.model->0.upstream_model_id, account).route_id,
            ) ==> out is Ok
            &&& out is Err ==> out->Err_0.status == 502 || out->Err_0.status == 400
        }),
{
    if let Some(m) = s.model {
        crate::bridge::bound_answers_change_the_model_alone(
            answer,
            context_for(s.route, m.upstream_model_id, account),
            request,
            key,
        );
    }
}

/// A request is opened on the route of the model that it names, under the account that its
/// headers name. Only Responses requests have a history; every other request is left alone.
pub proof fn requests_open_on_their_route(
    registry: RegistryView,
    routes: Seq<(Seq<char>, Seq<char>)>,
    endpoint: OmniEndpoint,
    headers: Seq<(Seq<char>, Seq<u8>)>,
    request: JsonView,
    model: Seq<char>,
)
    requires
        opened(registry, routes, endpoint, headers, request, model) is Ok,
    ensures
        ({
            let o = opened(registry, routes, endpoint, headers, request, model)->Ok_0;
            let account = first_value(headers, "chatgpt-account-id"@);
            &&& registry.route(model) is Ok
            &&& o.selected.route.logical_model_id == model
            &&& o.selected.route.generation == registry.generation
            &&& o.selected.route.route_class == RouteClass::Official
                <==> registry.official_model_ids.contains(model)
            &&& o.account is Some <==> account is Some && all_visible(account->0)
            &&& o.account is Some ==> o.account->0 == crate::digest::fingerprint_of(
                byte_chars(account->0),
            )
            &&& o.key == key_of(o.selected.route, o.selected.provider, o.account)
            &&& endpoint != OmniEndpoint::Responses ==> o.step is Unchanged
            &&& endpoint == OmniEndpoint::Responses ==> history_step(
                routes,
                request,
                o.key,
                o.selected.provider,
            ) == Ok::<HistoryStep, BridgeErrorView>(o.step)
        }),
{
    crate::registry::official_ids_come_first(registry, model);
    crate::routes::routes_follow_the_registry(registry, registry.route(model));
    if registry.route(model)->Ok_0 is Custom {
        crate::registry::custom_routes_are_enabled(registry, model);
    }
}

/// A converted request goes to the Chat path as the conversion gave it, and its answer is
/// converted back.
pub proof fn converted_requests_are_converted_back(request: JsonView)
    ensures
        converted_request(request).path == "chat/completions"@,
        converted_request(request).request == request,
        converted_request(request).convert_chat_response,
{
    crate::routes::endpoints_have_their_paths(OmniEndpoint::ChatCompletions);
}

} // verus!
