//! The whole way of a request through the router, stage by stage. Between the stages the
//! history store, the converter, the credential store and the upstream do their work.

use crate::bridge::record_portable_response;
use crate::bridge::recorded;
use crate::forward::{
    common_headers, credentialed, finish_headers, header_step, open_request, opened, ready, receive,
    received, recorded_endpoint, records_history, resolve_credential, settled, target_of,
    upstream_headers, upstream_target, HeaderStep, HeaderStepView, OpenedRequest, OpenedView,
    UpstreamStepView,
};
use crate::gate::{
    authorize, bad_content_type, fixed_headers, refusal, require_json_content_type, says_json,
    CAPABILITY_HEADER,
};
use crate::history::{history_step, previous_id, remember_response_route, unknown_turn, HistoryStep};
use crate::http::{
    error_reply, error_response, first_value, header_views, Headers, Reply, ReplyView, BAD_GATEWAY,
};
use crate::json::{Json, JsonView};
use crate::ledger::{assoc, remembered, CacheView};
use crate::multipart::{
    form_plan, form_type, forward_multipart_request, is_form, require_form_content_type, FormPlan,
    FormPlanView,
};
use crate::registry::{ProviderConfig, ProviderProtocol, ProviderView, RegistryView};
use crate::routes::{
    account_of, bridge_reply, selected, OmniEndpoint, RouteClass, SelectedRoute, SelectedView,
};
use crate::service::RouterState;
use crate::router_error::{RouterError, RouterErrorView};
use crate::text::{lowered, opt_view};
use crate::urls::joined;
use vstd::prelude::*;
use vstd::string::*;
use vstd::utf8::encode_utf8;

verus! {

/// A request that was taken in and whose route is known.
pub struct BegunRequest {
    pub request: Json,
    pub opened: OpenedRequest,
}

/// The first stage for a request whose body is JSON: who sent it, what it says, where it
/// goes and what happens to its history; or the reply that refuses it.
pub open spec fn begun(
    token: Option<Seq<char>>,
    registry: RegistryView,
    routes: Seq<(Seq<char>, Seq<char>)>,
    endpoint: OmniEndpoint,
    headers: Seq<(Seq<char>, Seq<u8>)>,
    body: Option<Seq<u8>>,
) -> Result<(JsonView, OpenedView), ReplyView> {
    match received(token, headers, body) {
        Err(r) => Err(r),
        Ok((request, model)) => match opened(
            registry,
            routes,
            endpoint,
            headers,
            request,
            model,
        ) {
            Err(r) => Err(r),
            Ok(o) => Ok((request, o)),
        },
    }
}

/// In which form the body of a request comes.
#[derive(Debug, Clone, Copy, PartialEq, Eq, Structural)]
pub enum BodyForm {
    /// A form, which goes upstream byte for byte.
    Multipart,
    /// A JSON document, which says which model is asked.
    Json,
}

/// In which form the body of a request comes, or the reply that refuses it before its
/// body is read. Edits of images come as forms, all else as JSON.
pub open spec fn admitted(
    token: Option<Seq<char>>,
    endpoint: OmniEndpoint,
    headers: Seq<(Seq<char>, Seq<u8>)>,
) -> Result<BodyForm, ReplyView> {
    match refusal(token, headers) {
        Some(r) => Err(r),
        None => if endpoint == OmniEndpoint::ImagesEdits {
            if is_form(form_type(headers)) {
                Ok(BodyForm::Multipart)
            } else {
                Err(bad_content_type())
            }
        } else if says_json(headers) {
            Ok(BodyForm::Json)
        } else {
            Err(bad_content_type())
        },
    }
}

/// Decides, before the body of a request is read, whether it is let in and in which form
/// its body comes.
pub fn admit_request(token: &Option<String>, endpoint: OmniEndpoint, headers: &Headers) -> (r: Result<
    BodyForm,
    Reply,
>)
    ensures
        admitted(opt_view(*token), endpoint, headers@) == (match r {
            Ok(form) => Ok(form),
            Err(e) => Err(e@),
        }),
{
    if let Some(reply) = authorize(token, headers) {
        return Err(reply);
    }
    if endpoint == OmniEndpoint::ImagesEdits {
        return match require_form_content_type(headers) {
            Some(reply) => Err(reply),
            None => Ok(BodyForm::Multipart),
        };
    }
    match require_json_content_type(headers) {
        Some(reply) => Err(reply),
        None => Ok(BodyForm::Json),
    }
}

/// The first stage for a request whose body is JSON.
fn begin_json(
    state: &RouterState,
    endpoint: OmniEndpoint,
    headers: &Headers,
    body: &Option<Vec<u8>>,
) -> (r: Result<BegunRequest, Reply>)
    ensures
        begun(
            opt_view(state.capability_token),
            state.registry@,
            state.history_routes@,
            endpoint,
            headers@,
            body_bytes(*body),
        ) == (match r {
            Ok(b) => Ok((b.request@, b.opened@)),
            Err(e) => Err(e@),
        }),
{
    let (request, model) = match receive(&state.capability_token, headers, body) {
        Ok(received) => received,
        Err(reply) => return Err(reply),
    };
    match open_request(
        &state.registry,
        &state.history_routes,
        endpoint,
        headers,
        &request,
        &model,
    ) {
        Ok(opened) => Ok(BegunRequest { request, opened }),
        Err(reply) => Err(reply),
    }
}

/// The bytes of a body, nothing where it was over the limit.
pub open spec fn body_bytes(body: Option<Vec<u8>>) -> Option<Seq<u8>> {
    match body {
        Some(b) => Some(b@),
        None => None,
    }
}

/// What the first stage of forwarding gives.
pub enum Forwarded {
    /// A form, with how it goes upstream.
    Form(FormPlan),
    /// A request whose route is known.
    Json(BegunRequest),
}

/// The model of what the first stage of forwarding gives.
pub ghost enum ForwardedView {
    Form(FormPlanView),
    Json(JsonView, OpenedView),
}

/// What the first stage of forwarding gives, or the reply that refuses the request: an
/// edit of an image is a form, all else is JSON.
pub open spec fn forwarded(
    token: Option<Seq<char>>,
    registry: RegistryView,
    routes: Seq<(Seq<char>, Seq<char>)>,
    official_base: Seq<char>,
    endpoint: OmniEndpoint,
    headers: Seq<(Seq<char>, Seq<u8>)>,
    query: Option<Seq<char>>,
    body: Option<Seq<u8>>,
) -> Result<ForwardedView, ReplyView> {
    if endpoint == OmniEndpoint::ImagesEdits {
        match form_plan(registry, token, official_base, headers, query, body is None) {
            Ok(plan) => Ok(ForwardedView::Form(plan)),
            Err(r) => Err(r),
        }
    } else {
        match begun(token, registry, routes, endpoint, headers, body) {
            Ok((request, o)) => Ok(ForwardedView::Json(request, o)),
            Err(r) => Err(r),
        }
    }
}

/// The first stage of forwarding a request. The body is nothing where it was over the
/// limit.
pub fn forward_request_v2(
    state: &RouterState,
    endpoint: OmniEndpoint,
    headers: &Headers,
    query: &Option<String>,
    body: &Option<Vec<u8>>,
) -> (r: Result<Forwarded, Reply>)
    ensures
        forwarded(
            opt_view(state.capability_token),
            state.registry@,
            state.history_routes@,
            state.official_base_url@,
            endpoint,
            headers@,
            opt_view(*query),
            body_bytes(*body),
        ) == (match r {
            Ok(Forwarded::Form(plan)) => Ok(ForwardedView::Form(plan@)),
            Ok(Forwarded::Json(b)) => Ok(ForwardedView::Json(b.request@, b.opened@)),
            Err(e) => Err(e@),
        }),
{
    if endpoint == OmniEndpoint::ImagesEdits {
        return match forward_multipart_request(
            &state.registry,
            &state.capability_token,
            &state.official_base_url,
            headers,
            query,
            body.is_none(),
        ) {
            Ok(plan) => Ok(Forwarded::Form(plan)),
            Err(reply) => Err(reply),
        };
    }
    match begin_json(state, endpoint, headers, body) {
        Ok(begun) => Ok(Forwarded::Json(begun)),
        Err(reply) => Err(reply),
    }
}

/// What is refused before its body is read is refused with the same reply whatever the
/// body is; and a form is what comes of a request that is let in as one.
pub proof fn early_refusals_stand(
    token: Option<Seq<char>>,
    registry: RegistryView,
    routes: Seq<(Seq<char>, Seq<char>)>,
    official_base: Seq<char>,
    endpoint: OmniEndpoint,
    headers: Seq<(Seq<char>, Seq<u8>)>,
    query: Option<Seq<char>>,
    body: Option<Seq<u8>>,
)
    ensures
        ({
            let whole = forwarded(
                token,
                registry,
                routes,
                official_base,
                endpoint,
                headers,
                query,
                body,
            );
            match admitted(token, endpoint, headers) {
                Err(r) => whole == Err::<ForwardedView, ReplyView>(r),
                Ok(form) => whole is Ok ==> (form == BodyForm::Multipart <==> whole->Ok_0 is Form),
            }
        }),
{
}

/// A request as it is sent: where to, and under which headers.
pub struct SendPlan {
    pub url: String,
    pub headers: Vec<(String, Vec<u8>)>,
}

/// What is to be done before a request is sent.
pub enum SendStep {
    /// Nothing: it is sent.
    Send(SendPlan),
    /// The provider's credential is read.
    ReadCredential { reference: String, plan: SendPlan },
}

/// The model of a request as it is sent.
pub ghost struct SendView {
    pub url: Seq<char>,
    pub headers: Seq<(Seq<char>, Seq<u8>)>,
}

/// The model of what is to be done before a request is sent.
pub ghost enum SendStepView {
    Send(SendView),
    ReadCredential { reference: Seq<char>, plan: SendView },
}

impl View for SendPlan {
    type V = SendView;

    open spec fn view(&self) -> SendView {
        SendView { url: self.url@, headers: header_views(self.headers@) }
    }
}

impl View for SendStep {
    type V = SendStepView;

    open spec fn view(&self) -> SendStepView {
        match *self {
            SendStep::Send(p) => SendStepView::Send(p@),
            SendStep::ReadCredential { reference, plan } => SendStepView::ReadCredential {
                reference: reference@,
                plan: plan@,
            },
        }
    }
}

/// The stage before sending, and the credentials that are kept after it. A credential
/// that is kept from the current generation is not read again.
pub open spec fn send_step(
    official_base: Seq<char>,
    cache: CacheView,
    s: SelectedView,
    path: Seq<char>,
    headers: Seq<(Seq<char>, Seq<u8>)>,
) -> (Result<SendStepView, ReplyView>, CacheView) {
    match target_of(official_base, s.provider, path) {
        Err(r) => (Err(r), cache),
        Ok(url) => match header_step(s.route.route_class, s.provider, headers) {
            Err(r) => (Err(r), cache),
            Ok(HeaderStepView::Complete(h)) => (
                Ok(SendStepView::Send(SendView { url, headers: h })),
                cache,
            ),
            Ok(HeaderStepView::NeedsCredential { reference, headers: h }) => (
                match cache.lookup(s.route.generation, reference) {
                    None => Ok(
                        SendStepView::ReadCredential {
                            reference,
                            plan: SendView { url, headers: h },
                        },
                    ),
                    Some(secret) => match credentialed(s.provider->0, h, Ok(secret)) {
                        Ok(h) => Ok(SendStepView::Send(SendView { url, headers: h })),
                        Err(r) => Err(r),
                    },
                },
                cache.at(s.route.generation),
            ),
        },
    }
}

/// Decides where a prepared request is sent and under which headers.
pub fn plan_send(
    state: &mut RouterState,
    s: &SelectedRoute,
    path: &str,
    headers: &Headers,
) -> (r: Result<SendStep, Reply>)
    ensures
        send_step(
            old(state).official_base_url@,
            old(state).credential_cache@,
            s@,
            path@,
            headers@,
        ) == (
            match r {
                Ok(step) => Ok(step@),
                Err(e) => Err(e@),
            },
            final(state).credential_cache@,
        ),
        *final(state) == (RouterState {
            credential_cache: final(state).credential_cache,
            ..*old(state)
        }),
{
    let url = match upstream_target(&state.official_base_url, &s.provider, path) {
        Ok(url) => url,
        Err(reply) => return Err(reply),
    };
    match upstream_headers(s.route.route_class, &s.provider, headers) {
        Err(reply) => Err(reply),
        Ok(HeaderStep::Complete(headers)) => Ok(SendStep::Send(SendPlan { url, headers })),
        Ok(HeaderStep::NeedsCredential { reference, headers }) => {
            match state.credential_cache.get(s.route.generation, &reference) {
                None => Ok(
                    SendStep::ReadCredential { reference, plan: SendPlan { url, headers } },
                ),
                Some(secret) => match &s.provider {
                    Some(provider) => match finish_headers(provider, headers, Ok(secret)) {
                        Ok(headers) => Ok(SendStep::Send(SendPlan { url, headers })),
                        Err(reply) => Err(reply),
                    },
                    None => Ok(SendStep::Send(SendPlan { url, headers })),
                },
            }
        },
    }
}

/// Goes on once the provider's credential was read, or could not be. One that was read
/// is kept for the generation.
pub fn plan_send_with_credential(
    state: &mut RouterState,
    provider: &ProviderConfig,
    generation: u64,
    reference: &str,
    plan: SendPlan,
    read: Result<String, String>,
) -> (r: Result<SendPlan, Reply>)
    ensures
        final(state).credential_cache@ == (match read {
            Ok(secret) => old(state).credential_cache@.with(generation, reference@, secret@),
            Err(_) => old(state).credential_cache@,
        }),
        *final(state) == (RouterState {
            credential_cache: final(state).credential_cache,
            ..*old(state)
        }),
        match credentialed(
            provider@,
            header_views(plan.headers@),
            match read {
                Ok(s) => Ok(s@),
                Err(e) => Err(e@),
            },
        ) {
            Ok(h) => r is Ok && r->Ok_0@ == (SendView { url: plan.url@, headers: h }),
            Err(e) => r is Err && r->Err_0@ == e,
        },
{
    let secret = match resolve_credential(&mut state.credential_cache, generation, reference, read) {
        Ok(secret) => secret,
        Err(e) => return Err(error_response(BAD_GATEWAY, &e.message())),
    };
    let SendPlan { url, headers } = plan;
    match finish_headers(provider, headers, Ok(secret)) {
        Ok(headers) => Ok(SendPlan { url, headers }),
        Err(reply) => Err(reply),
    }
}

/// What the client is answered where the upstream could not be reached.
pub fn send_failed(error: String) -> (r: Reply)
    ensures
        r@ == error_reply(BAD_GATEWAY, RouterErrorView::Upstream(error@).message()),
{
    error_response(BAD_GATEWAY, &RouterError::Upstream(error).message())
}

/// What the history keeps of an answer.
pub open spec fn kept_answer(endpoint: OmniEndpoint, output: JsonView) -> Option<JsonView> {
    if recorded_endpoint(endpoint) {
        Some(recorded(output))
    } else {
        None
    }
}

/// The routes that are remembered once an answer was given on the route of the given identity.
pub open spec fn routes_after(
    endpoint: OmniEndpoint,
    routes: Seq<(Seq<char>, Seq<char>)>,
    output: JsonView,
    key: Seq<char>,
) -> Seq<(Seq<char>, Seq<char>)> {
    match (recorded_endpoint(endpoint), output.text_field("id"@)) {
        (true, Some(id)) => remembered(routes, id, key),
        _ => routes,
    }
}

/// The last stage: the reply to the client, and what the history keeps of it. The route
/// that issued the response is remembered; answers that cannot be continued leave
/// nothing behind.
pub fn finish_response(
    state: &mut RouterState,
    endpoint: OmniEndpoint,
    key: &str,
    status: u16,
    output: Json,
) -> (r: (Reply, Option<Json>))
    ensures
        r.0@ == (ReplyView { status, body: output@ }),
        crate::json::opt_json(r.1) == kept_answer(endpoint, output@),
        final(state).history_routes@ == routes_after(
            endpoint,
            old(state).history_routes@,
            output@,
            key@,
        ),
        *final(state) == (RouterState {
            history_routes: final(state).history_routes,
            ..*old(state)
        }),
{
    if !records_history(endpoint) {
        return (Reply { status, body: output }, None);
    }
    let portable = record_portable_response(&output);
    remember_response_route(&mut state.history_routes, &output, key);
    (Reply { status, body: output }, Some(portable))
}

/// Nothing goes on that was not let in.
pub proof fn only_authorized_requests_go_on(
    token: Option<Seq<char>>,
    registry: RegistryView,
    routes: Seq<(Seq<char>, Seq<char>)>,
    official_base: Seq<char>,
    endpoint: OmniEndpoint,
    headers: Seq<(Seq<char>, Seq<u8>)>,
    query: Option<Seq<char>>,
    body: Option<Seq<u8>>,
)
    requires
        forwarded(token, registry, routes, official_base, endpoint, headers, query, body) is Ok,
    ensures
        refusal(token, headers) is None,
        token is Some,
        body is Some,
{
}

/// A request that names a model which nobody offers is answered with an error that
/// names it, whatever else it holds.
pub proof fn unknown_models_are_not_found(
    token: Option<Seq<char>>,
    registry: RegistryView,
    routes: Seq<(Seq<char>, Seq<char>)>,
    official_base: Seq<char>,
    endpoint: OmniEndpoint,
    headers: Seq<(Seq<char>, Seq<u8>)>,
    query: Option<Seq<char>>,
    body: Option<Seq<u8>>,
)
    requires
        endpoint != OmniEndpoint::ImagesEdits,
        received(token, headers, body) is Ok,
        registry.route(received(token, headers, body)->Ok_0.1) is Err,
    ensures
        forwarded(token, registry, routes, official_base, endpoint, headers, query, body) == Err::<
            ForwardedView,
            ReplyView,
        >(
            error_reply(
                crate::http::NOT_FOUND,
                registry.route(received(token, headers, body)->Ok_0.1)->Err_0.message(),
            ),
        ),
{
}

/// A custom provider is never sent a request that continues a turn which this router
/// does not know.
pub proof fn unknown_turns_never_reach_a_provider(
    token: Option<Seq<char>>,
    registry: RegistryView,
    routes: Seq<(Seq<char>, Seq<char>)>,
    official_base: Seq<char>,
    headers: Seq<(Seq<char>, Seq<u8>)>,
    query: Option<Seq<char>>,
    body: Option<Seq<u8>>,
)
    requires
        received(token, headers, body) is Ok,
        ({
            let (request, model) = received(token, headers, body)->Ok_0;
            &&& selected(registry, registry.route(model)) is Ok
            &&& selected(registry, registry.route(model))->Ok_0.provider is Some
            &&& previous_id(request) is Some
            &&& assoc(routes, previous_id(request)->0) is None
        }),
    ensures
        forwarded(
            token,
            registry,
            routes,
            official_base,
            OmniEndpoint::Responses,
            headers,
            query,
            body,
        ) == Err::<ForwardedView, ReplyView>(bridge_reply(unknown_turn())),
{
}

/// A turn that follows at once on one and the same route goes on as it is, wherever the
/// provider speaks the Responses protocol: what a response leaves behind is found by the
/// request that continues it.
pub proof fn turns_continue_on_their_route(
    routes: Seq<(Seq<char>, Seq<char>)>,
    id: Seq<char>,
    key: Seq<char>,
    request: JsonView,
    provider: ProviderView,
)
    requires
        crate::ledger::distinct_keys(routes),
        routes.len() <= crate::ledger::MAX_TRACKED_RESPONSE_ROUTES,
        previous_id(request) == Some(id),
        provider.protocol == crate::registry::ProviderProtocol::Responses,
    ensures
        history_step(remembered(routes, id, key), request, key, Some(provider)) == Ok::<
            HistoryStep,
            crate::bridge::BridgeErrorView,
        >(HistoryStep::Unchanged),
{
    crate::ledger::remembered_is_found(routes, id, key);
}

/// Within one generation a provider's credential is read once: after it was read, the
/// next request of the route is sent without reading it.
pub proof fn credentials_are_read_once_per_generation(
    official_base: Seq<char>,
    cache: CacheView,
    s: SelectedView,
    path: Seq<char>,
    headers: Seq<(Seq<char>, Seq<u8>)>,
    secret: Seq<char>,
)
    requires
        crate::ledger::distinct_keys(cache.entries),
        s.provider is Some,
    ensures
        ({
            let kept = cache.with(
                s.route.generation,
                s.provider->0.credential_reference,
                secret,
            );
            let step = send_step(official_base, kept, s, path, headers).0;
            !(step is Ok && step->Ok_0 is ReadCredential)
        }),
{
    crate::ledger::cached_credentials_are_found(
        cache,
        s.route.generation,
        s.provider->0.credential_reference,
        secret,
        s.provider->0.credential_reference,
    );
}

/// Whether two requests have the same headers but for those that say who the client is:
/// the authorization and the account id.
pub open spec fn same_but_for_identity(
    a: Seq<(Seq<char>, Seq<u8>)>,
    b: Seq<(Seq<char>, Seq<u8>)>,
) -> bool {
    forall|name: Seq<char>|
        name != "authorization"@ && name != "chatgpt-account-id"@ ==> #[trigger] first_value(a, name)
            == first_value(b, name)
}

proof fn identity_is_no_part_of_the_rest(
    a: Seq<(Seq<char>, Seq<u8>)>,
    b: Seq<(Seq<char>, Seq<u8>)>,
)
    requires
        same_but_for_identity(a, b),
    ensures
        first_value(a, "host"@) == first_value(b, "host"@),
        first_value(a, "origin"@) == first_value(b, "origin"@),
        first_value(a, "accept"@) == first_value(b, "accept"@),
        first_value(a, "content-type"@) == first_value(b, "content-type"@),
        first_value(a, "content-encoding"@) == first_value(b, "content-encoding"@),
        first_value(a, CAPABILITY_HEADER@) == first_value(b, CAPABILITY_HEADER@),
{
    reveal_strlit("authorization");
    reveal_strlit("chatgpt-account-id");
    reveal_strlit("host");
    reveal_strlit("origin");
    reveal_strlit("accept");
    reveal_strlit("content-type");
    reveal_strlit("content-encoding");
    reveal_strlit("x-codex-omnibridge-token");
    assert("authorization"@.len() == 13);
    assert("chatgpt-account-id"@.len() == 18);
    assert("host"@.len() == 4);
    assert("origin"@.len() == 6);
    assert("accept"@.len() == 6);
    assert("content-type"@.len() == 12);
    assert("content-encoding"@.len() == 16);
    assert(CAPABILITY_HEADER@.len() == 24);
}

/// Two clients that send the same request to a custom provider of the Responses protocol
/// get the same request sent, however they are authorized and whichever account they
/// name: the same route, the same body, the same URL, the same headers and the same
/// credential. Where no earlier turn is restored, the body is the client's with the
/// upstream model's id.
pub proof fn custom_requests_do_not_tell_clients_apart(
    token: Option<Seq<char>>,
    registry: RegistryView,
    routes: Seq<(Seq<char>, Seq<char>)>,
    a: Seq<(Seq<char>, Seq<u8>)>,
    b: Seq<(Seq<char>, Seq<u8>)>,
    body: Option<Seq<u8>>,
    enriched: JsonView,
    restored: usize,
    official_base: Seq<char>,
    cache: CacheView,
)
    requires
        same_but_for_identity(a, b),
        begun(token, registry, routes, OmniEndpoint::Responses, a, body) is Ok,
        ({
            let s = begun(
                token,
                registry,
                routes,
                OmniEndpoint::Responses,
                a,
                body,
            )->Ok_0.1.selected;
            &&& s.route.route_class == RouteClass::Custom
            &&& s.provider is Some
            &&& s.provider->0.protocol == ProviderProtocol::Responses
        }),
    ensures
        ({
            let first = begun(token, registry, routes, OmniEndpoint::Responses, a, body)->Ok_0;
            let second = begun(token, registry, routes, OmniEndpoint::Responses, b, body);
            let request = first.0;
            let s = first.1.selected;
            let prepared = settled(
                OmniEndpoint::Responses,
                first.1,
                a,
                request,
                enriched,
                restored,
            );
            &&& second is Ok
            &&& second->Ok_0.0 == request
            &&& second->Ok_0.1 == (OpenedView { account: account_of(b), ..first.1 })
            &&& settled(
                OmniEndpoint::Responses,
                second->Ok_0.1,
                b,
                request,
                enriched,
                restored,
            ) == prepared
            &&& send_step(official_base, cache, s, "responses"@, b) == send_step(
                official_base,
                cache,
                s,
                "responses"@,
                a,
            )
            &&& first.1.step == HistoryStep::Unchanged ==> s.model is Some && prepared == Ok::<
                UpstreamStepView,
                ReplyView,
            >(
                ready(
                    request.with("model"@, JsonView::Str(s.model->0.upstream_model_id)),
                    "responses"@,
                ),
            )
        }),
{
    identity_is_no_part_of_the_rest(a, b);
}

/// The headers under which a custom provider gets a request with a Bearer credential.
pub open spec fn bearer_headers(
    headers: Seq<(Seq<char>, Seq<u8>)>,
    fixed: Seq<(Seq<char>, Seq<u8>)>,
    secret: Seq<char>,
) -> Seq<(Seq<char>, Seq<u8>)> {
    (common_headers(headers, "application/json".spec_bytes()) + fixed).push(
        ("authorization"@, encode_utf8("Bearer "@ + secret)),
    )
}

/// A custom provider with Bearer authorization gets its own credential, at a URL below
/// its own base, whether the credential is kept or read. But for the provider's fixed
/// headers the request carries neither an account id nor the capability token.
pub proof fn custom_requests_carry_the_providers_credential(
    official_base: Seq<char>,
    cache: CacheView,
    s: SelectedView,
    provider: ProviderView,
    fixed: Seq<(Seq<char>, Seq<u8>)>,
    path: Seq<char>,
    headers: Seq<(Seq<char>, Seq<u8>)>,
    url: Seq<char>,
    secret: Seq<char>,
)
    requires
        s.route.route_class == RouteClass::Custom,
        s.provider == Some(provider),
        provider.auth_strategy is Bearer,
        fixed_headers(provider.static_headers) == Ok::<_, RouterErrorView>(fixed),
        joined(provider.base_url, path) == Ok::<_, RouterErrorView>(url),
    ensures
        match cache.lookup(s.route.generation, provider.credential_reference) {
            Some(kept) => send_step(official_base, cache, s, path, headers).0 == Ok::<_, ReplyView>(
                SendStepView::Send(
                    SendView { url, headers: bearer_headers(headers, fixed, kept) },
                ),
            ),
            None => {
                let step = send_step(official_base, cache, s, path, headers).0->Ok_0;
                &&& send_step(official_base, cache, s, path, headers).0 is Ok
                &&& step is ReadCredential
                &&& step->reference == provider.credential_reference
                &&& step->plan.url == url
                &&& credentialed(provider, step->plan.headers, Ok(secret)) == Ok::<_, ReplyView>(
                    bearer_headers(headers, fixed, secret),
                )
            },
        },
        forall|i: int|
            0 <= i < bearer_headers(headers, fixed, secret).len() ==> {
                let h = #[trigger] bearer_headers(headers, fixed, secret)[i];
                h.0 == "chatgpt-account-id"@ || h.0 == CAPABILITY_HEADER@ ==> fixed.contains(h)
            },
{
    reveal_strlit("authorization");
    reveal_strlit("chatgpt-account-id");
    reveal_strlit("x-codex-omnibridge-token");
    reveal_strlit("accept");
    reveal_strlit("content-type");
    assert("chatgpt-account-id"@.len() == 18);
    assert(CAPABILITY_HEADER@.len() == 24);
    assert("authorization"@.len() == 13);
    assert("accept"@.len() == 6);
    assert("content-type"@.len() == 12);
    assert(lowered("authorization"@) =~= "authorization"@);
    let common = common_headers(headers, "application/json".spec_bytes());
    assert forall|i: int| 0 <= i < bearer_headers(headers, fixed, secret).len() implies ({
        let h = #[trigger] bearer_headers(headers, fixed, secret)[i];
        h.0 == "chatgpt-account-id"@ || h.0 == CAPABILITY_HEADER@ ==> fixed.contains(h)
    }) by {
        let h = bearer_headers(headers, fixed, secret)[i];
        if i < common.len() {
            assert(h == common[i]);
        } else if i < common.len() + fixed.len() {
            assert(h == fixed[i - common.len()]);
        }
    }
}

/// An answer that can be continued is remembered under its id with the route that gave it, so
/// that the next turn finds it; searches and images leave nothing behind, and neither does an
/// answer without an id.
pub proof fn answers_are_remembered_by_their_route(
    endpoint: OmniEndpoint,
    routes: Seq<(Seq<char>, Seq<char>)>,
    output: JsonView,
    key: Seq<char>,
)
    requires
        crate::ledger::distinct_keys(routes),
        routes.len() <= crate::ledger::MAX_TRACKED_RESPONSE_ROUTES,
    ensures
        ({
            let continued = endpoint == OmniEndpoint::Responses || endpoint
                == OmniEndpoint::ChatCompletions || endpoint == OmniEndpoint::Compact;
            let after = routes_after(endpoint, routes, output, key);
            &&& continued && output.text_field("id"@) is Some ==> assoc(
                after,
                output.text_field("id"@)->0,
            ) == Some(key)
            &&& !continued || output.text_field("id"@) is None ==> after == routes
            &&& continued ==> kept_answer(endpoint, output) == Some(recorded(output))
            &&& !continued ==> kept_answer(endpoint, output) is None
        }),
{
    crate::forward::continued_endpoints_are_recorded(endpoint);
    if output.text_field("id"@) is Some {
        crate::ledger::remembered_is_found(routes, output.text_field("id"@)->0, key);
    }
}

/// Whether a credential is kept or has to be read makes no difference to what is sent: the same
/// URL, and the same headers with the credential as the provider's strategy says.
pub proof fn kept_credentials_are_sent_like_read_ones(
    official_base: Seq<char>,
    cache: CacheView,
    empty: CacheView,
    s: SelectedView,
    provider: ProviderView,
    path: Seq<char>,
    headers: Seq<(Seq<char>, Seq<u8>)>,
    secret: Seq<char>,
)
    requires
        s.provider == Some(provider),
        cache.lookup(s.route.generation, provider.credential_reference) == Some(secret),
        empty.lookup(s.route.generation, provider.credential_reference) is None,
        send_step(official_base, empty, s, path, headers).0 is Ok,
        send_step(official_base, empty, s, path, headers).0->Ok_0 is ReadCredential,
    ensures
        ({
            let read = send_step(official_base, empty, s, path, headers).0->Ok_0;
            let kept = send_step(official_base, cache, s, path, headers).0;
            match credentialed(provider, read->plan.headers, Ok(secret)) {
                Ok(h) => kept == Ok::<SendStepView, ReplyView>(
                    SendStepView::Send(SendView { url: read->plan.url, headers: h }),
                ),
                Err(r) => kept == Err::<SendStepView, ReplyView>(r),
            }
        }),
{
}

/// A request is sent to the target of its route with the headers of its route, and waits only
/// for a credential that its provider needs.
pub proof fn requests_are_sent_to_their_target(
    official_base: Seq<char>,
    cache: CacheView,
    s: SelectedView,
    path: Seq<char>,
    headers: Seq<(Seq<char>, Seq<u8>)>,
)
    ensures
        ({
            let step = send_step(official_base, cache, s, path, headers).0;
            let target = target_of(official_base, s.provider, path);
            let under = header_step(s.route.route_class, s.provider, headers);
            &&& target is Err ==> step == Err::<SendStepView, ReplyView>(target->Err_0)
            &&& target is Ok && under is Err ==> step == Err::<SendStepView, ReplyView>(
                under->Err_0,
            )
            &&& target is Ok && under is Ok && under->Ok_0 is Complete ==> step == Ok::<
                SendStepView,
                ReplyView,
            >(
                SendStepView::Send(
                    SendView { url: target->Ok_0, headers: under->Ok_0->Complete_0 },
                ),
            )
            &&& step is Ok && step->Ok_0 is ReadCredential ==> under->Ok_0 is NeedsCredential
                && step->Ok_0->reference == under->Ok_0->reference && step->Ok_0->plan.url
                == target->Ok_0
        }),
{
}

/// What the first stage decides of a request that is let in: edits of images go as forms, and
/// everything else goes on as the JSON that it is.
pub proof fn first_stages_go_by_the_endpoint(
    token: Option<Seq<char>>,
    registry: RegistryView,
    routes: Seq<(Seq<char>, Seq<char>)>,
    official_base: Seq<char>,
    endpoint: OmniEndpoint,
    headers: Seq<(Seq<char>, Seq<u8>)>,
    query: Option<Seq<char>>,
    body: Option<Seq<u8>>,
)
    ensures
        ({
            let out = forwarded(
                token,
                registry,
                routes,
                official_base,
                endpoint,
                headers,
                query,
                body,
            );
            &&& endpoint == OmniEndpoint::ImagesEdits ==> match out {
                Ok(ForwardedView::Form(plan)) => form_plan(
                    registry,
                    token,
                    official_base,
                    headers,
                    query,
                    body is None,
                ) == Ok::<FormPlanView, ReplyView>(plan),
                Ok(_) => false,
                Err(r) => form_plan(
                    registry,
                    token,
                    official_base,
                    headers,
                    query,
                    body is None,
                ) == Err::<FormPlanView, ReplyView>(r),
            }
            &&& endpoint != OmniEndpoint::ImagesEdits ==> match out {
                Ok(ForwardedView::Json(request, o)) => {
                    let (received_request, model) = received(token, headers, body)->Ok_0;
                    &&& received(token, headers, body) is Ok
                    &&& request == received_request
                    &&& opened(registry, routes, endpoint, headers, request, model) == Ok::<
                        OpenedView,
                        ReplyView,
                    >(o)
                },
                Ok(_) => false,
                Err(r) => received(token, headers, body) is Err || opened(
                    registry,
                    routes,
                    endpoint,
                    headers,
                    received(token, headers, body)->Ok_0.0,
                    received(token, headers, body)->Ok_0.1,
                ) is Err,
            }
        }),
{
}

} // verus!
