//! The route of a request: endpoint, provider, model and identity.

use crate::bridge::{
    BridgeContext, BridgeContextView, BridgeError, BridgeErrorView, CodexChatReasoningConfig,
    RouteDomain,
};
use crate::digest::{fingerprint, fingerprint_of};
use crate::http::{
    error_reply, error_response, lookup_text, Headers, Reply, ReplyView, BAD_GATEWAY, BAD_REQUEST,
    NOT_FOUND, NOT_IMPLEMENTED,
};
use crate::registry::{
    copy_strings, enabled_model_index, enabled_with_logical_id, CoreError, CoreErrorView,
    CustomModel, LogicalModelRoute, ModelView, ProviderConfig, ProviderProtocol, ProviderRegistry,
    ProviderView, RegistryView, RouteView,
};
use crate::router_error::{RouterError, RouterErrorView};
use crate::search::{any_where, index_where};
use crate::text::{
    cat, cat3, cat5, contains, decimal, decimal_of, has_part, lowered, opt_view, to_lower, views,
};
use vstd::prelude::*;
use vstd::string::*;

verus! {

/// The endpoints that the router forwards.
#[derive(Debug, Clone, Copy, PartialEq, Eq, Structural)]
pub enum OmniEndpoint {
    Responses,
    ChatCompletions,
    Compact,
    Search,
    ImagesGenerations,
    ImagesEdits,
}

/// The path of an endpoint below a base URL.
pub open spec fn endpoint_path(endpoint: OmniEndpoint) -> Seq<char> {
    match endpoint {
        OmniEndpoint::Responses => "responses"@,
        OmniEndpoint::ChatCompletions => "chat/completions"@,
        OmniEndpoint::Compact => "responses/compact"@,
        OmniEndpoint::Search => "alpha/search"@,
        OmniEndpoint::ImagesGenerations => "images/generations"@,
        OmniEndpoint::ImagesEdits => "images/edits"@,
    }
}

impl OmniEndpoint {
    /// The path of the endpoint below a base URL.
    pub fn path(self) -> (r: &'static str)
        ensures
            r@ == endpoint_path(self),
    {
        match self {
            OmniEndpoint::Responses => "responses",
            OmniEndpoint::ChatCompletions => "chat/completions",
            OmniEndpoint::Compact => "responses/compact",
            OmniEndpoint::Search => "alpha/search",
            OmniEndpoint::ImagesGenerations => "images/generations",
            OmniEndpoint::ImagesEdits => "images/edits",
        }
    }

    /// The name of the endpoint in a log.
    pub fn label(self) -> (r: &'static str)
        ensures
            r@ == (if self == OmniEndpoint::ChatCompletions {
                "chat_completions"@
            } else {
                endpoint_path(self)
            }),
    {
        match self {
            OmniEndpoint::Responses => "responses",
            OmniEndpoint::ChatCompletions => "chat_completions",
            OmniEndpoint::Compact => "responses/compact",
            OmniEndpoint::Search => "alpha/search",
            OmniEndpoint::ImagesGenerations => "images/generations",
            OmniEndpoint::ImagesEdits => "images/edits",
        }
    }
}

/// Whether a route leads to the official backend or to a custom provider.
#[derive(Debug, Clone, Copy, PartialEq, Eq, Structural)]
pub enum RouteClass {
    Official,
    Custom,
}

/// The route of a request.
#[derive(Debug)]
pub struct RouteDescription {
    pub logical_model_id: String,
    pub route_class: RouteClass,
    pub provider_id: Option<String>,
    pub upstream_model_id: Option<String>,
    pub protocol: Option<ProviderProtocol>,
    pub generation: u64,
}

/// The model of a route.
pub ghost struct RouteDescriptionView {
    pub logical_model_id: Seq<char>,
    pub route_class: RouteClass,
    pub provider_id: Option<Seq<char>>,
    pub upstream_model_id: Option<Seq<char>>,
    pub protocol: Option<ProviderProtocol>,
    pub generation: u64,
}

impl View for RouteDescription {
    type V = RouteDescriptionView;

    open spec fn view(&self) -> RouteDescriptionView {
        RouteDescriptionView {
            logical_model_id: self.logical_model_id@,
            route_class: self.route_class,
            provider_id: opt_view(self.provider_id),
            upstream_model_id: opt_view(self.upstream_model_id),
            protocol: self.protocol,
            generation: self.generation,
        }
    }
}

/// A route with the provider and the model that it leads to; the official route has
/// neither.
pub struct SelectedRoute {
    pub route: RouteDescription,
    pub provider: Option<ProviderConfig>,
    pub model: Option<CustomModel>,
}

/// The model of a selected route.
pub ghost struct SelectedView {
    pub route: RouteDescriptionView,
    pub provider: Option<ProviderView>,
    pub model: Option<ModelView>,
}

impl View for SelectedRoute {
    type V = SelectedView;

    open spec fn view(&self) -> SelectedView {
        SelectedView {
            route: self.route@,
            provider: match self.provider {
                Some(p) => Some(p@),
                None => None,
            },
            model: match self.model {
                Some(m) => Some(m@),
                None => None,
            },
        }
    }
}

/// The provider and model that a resolved route leads to, or the reply where they are
/// gone.
pub open spec fn selected(
    registry: RegistryView,
    resolved: Result<RouteView, CoreErrorView>,
) -> Result<SelectedView, ReplyView> {
    match resolved {
        Err(e) => Err(error_reply(NOT_FOUND, e.message())),
        Ok(RouteView::Official(model_id)) => Ok(
            SelectedView {
                route: RouteDescriptionView {
                    logical_model_id: model_id,
                    route_class: RouteClass::Official,
                    provider_id: None,
                    upstream_model_id: None,
                    protocol: None,
                    generation: registry.generation,
                },
                provider: None,
                model: None,
            },
        ),
        Ok(
            RouteView::Custom { logical_model_id, provider_id, upstream_model_id, protocol },
        ) => match registry.provider(provider_id) {
            Some(p) => if !p.enabled {
                Err(error_reply(NOT_FOUND, RouterErrorView::UnknownProvider(provider_id).message()))
            } else if !any_where(p.models, enabled_with_logical_id(logical_model_id)) {
                Err(error_reply(NOT_FOUND, RouterErrorView::UnknownModel(logical_model_id).message()))
            } else {
                Ok(
                    SelectedView {
                        route: RouteDescriptionView {
                            logical_model_id,
                            route_class: RouteClass::Custom,
                            provider_id: Some(provider_id),
                            upstream_model_id: Some(upstream_model_id),
                            protocol: Some(protocol),
                            generation: registry.generation,
                        },
                        provider: Some(p),
                        model: Some(
                            p.models[index_where(
                                p.models,
                                enabled_with_logical_id(logical_model_id),
                            )],
                        ),
                    },
                )
            },
            None => Err(
                error_reply(NOT_FOUND, RouterErrorView::UnknownProvider(provider_id).message()),
            ),
        },
    }
}

/// The view of a resolution.
pub open spec fn resolved_view(r: Result<LogicalModelRoute, CoreError>) -> Result<
    RouteView,
    CoreErrorView,
> {
    match r {
        Ok(route) => Ok(route@),
        Err(e) => Err(e@),
    }
}

/// The provider and model that a resolved route leads to.
pub fn select_route(
    registry: &ProviderRegistry,
    resolved: Result<LogicalModelRoute, CoreError>,
) -> (r: Result<SelectedRoute, Reply>)
    ensures
        selected(registry@, resolved_view(resolved)) == (match r {
            Ok(s) => Ok(s@),
            Err(e) => Err(e@),
        }),
{
    match resolved {
        Err(e) => Err(error_response(NOT_FOUND, &e.message())),
        Ok(LogicalModelRoute::Official { model_id }) => Ok(
            SelectedRoute {
                route: RouteDescription {
                    logical_model_id: model_id,
                    route_class: RouteClass::Official,
                    provider_id: None,
                    upstream_model_id: None,
                    protocol: None,
                    generation: registry.generation,
                },
                provider: None,
                model: None,
            },
        ),
        Ok(
            LogicalModelRoute::Custom { logical_model_id, provider_id, upstream_model_id, protocol },
        ) => {
            let provider = match registry.provider(&provider_id) {
                Some(provider) => provider,
                None => return Err(
                    error_response(NOT_FOUND, &RouterError::UnknownProvider(provider_id).message()),
                ),
            };
            if !provider.enabled {
                return Err(
                    error_response(NOT_FOUND, &RouterError::UnknownProvider(provider_id).message()),
                );
            }
            let at = enabled_model_index(&provider.models, &logical_model_id);
            if at >= provider.models.len() {
                return Err(
                    error_response(NOT_FOUND, &RouterError::UnknownModel(logical_model_id).message()),
                );
            }
            assert(provider@.models[at as int] == provider.models@[at as int]@);
            Ok(
                SelectedRoute {
                    model: Some(provider.models[at].copy()),
                    provider: Some(provider.copy()),
                    route: RouteDescription {
                        logical_model_id,
                        route_class: RouteClass::Custom,
                        provider_id: Some(provider_id),
                        upstream_model_id: Some(upstream_model_id),
                        protocol: Some(protocol),
                        generation: registry.generation,
                    },
                },
            )
        },
    }
}

/// The reply where an endpoint is not to be had on a route.
pub open spec fn endpoint_refusal(endpoint: OmniEndpoint, s: SelectedView) -> Option<ReplyView> {
    if endpoint == OmniEndpoint::Compact && s.provider is Some && s.provider->0.protocol
        == ProviderProtocol::ChatCompletions {
        Some(
            error_reply(
                NOT_IMPLEMENTED,
                RouterErrorView::UnsupportedEndpoint(
                    "responses/compact for Chat-only provider"@,
                ).message(),
            ),
        )
    } else if endpoint == OmniEndpoint::ChatCompletions && s.route.route_class
        == RouteClass::Official {
        Some(
            error_reply(
                BAD_REQUEST,
                RouterErrorView::UnsupportedEndpoint(
                    "official Chat Completions entrypoint"@,
                ).message(),
            ),
        )
    } else {
        None
    }
}

/// Refuses an endpoint that is not to be had on a route.
pub fn refuse_endpoint(endpoint: OmniEndpoint, s: &SelectedRoute) -> (r: Option<Reply>)
    ensures
        crate::gate::opt_reply(r) == endpoint_refusal(endpoint, s@),
{
    let chat_only = match &s.provider {
        Some(provider) => provider.protocol == ProviderProtocol::ChatCompletions,
        None => false,
    };
    if endpoint == OmniEndpoint::Compact && chat_only {
        return Some(
            error_response(
                NOT_IMPLEMENTED,
                &RouterError::UnsupportedEndpoint(
                    "responses/compact for Chat-only provider".to_owned(),
                ).message(),
            ),
        );
    }
    if endpoint == OmniEndpoint::ChatCompletions && s.route.route_class == RouteClass::Official {
        return Some(
            error_response(
                BAD_REQUEST,
                &RouterError::UnsupportedEndpoint(
                    "official Chat Completions entrypoint".to_owned(),
                ).message(),
            ),
        );
    }
    None
}

/// The fingerprint of the account that a request names.
pub open spec fn account_of(headers: Seq<(Seq<char>, Seq<u8>)>) -> Option<Seq<char>> {
    match lookup_text(headers, "chatgpt-account-id"@) {
        Some(id) => Some(fingerprint_of(id)),
        None => None,
    }
}

/// The fingerprint of the account that a request names.
pub fn account_fingerprint(headers: &Headers) -> (r: Option<String>)
    ensures
        opt_view(r) == account_of(headers@),
{
    match headers.text("chatgpt-account-id") {
        Some(id) => Some(fingerprint(&id)),
        None => None,
    }
}

/// How an optional protocol is written in a route key.
pub open spec fn protocol_text(protocol: Option<ProviderProtocol>) -> Seq<char> {
    match protocol {
        Some(ProviderProtocol::Responses) => "Some(Responses)"@,
        Some(ProviderProtocol::ChatCompletions) => "Some(ChatCompletions)"@,
        None => "None"@,
    }
}

/// The identity of a route: the provider's endpoint, the upstream model and the
/// protocol, or the account on the official backend. The registry generation is no
/// part of it.
pub open spec fn key_of(
    route: RouteDescriptionView,
    provider: Option<ProviderView>,
    account: Option<Seq<char>>,
) -> Seq<char> {
    match provider {
        Some(p) => "custom:"@ + p.id + ":"@ + p.base_url + ":"@ + (match route.upstream_model_id {
            Some(m) => m,
            None => Seq::empty(),
        }) + ":"@ + protocol_text(route.protocol),
        None => "official:"@ + (match account {
            Some(a) => a,
            None => "unknown"@,
        }),
    }
}

/// The identity of a route.
pub fn route_key(
    route: &RouteDescription,
    provider: &Option<ProviderConfig>,
    account: &Option<String>,
) -> (r: String)
    ensures
        r@ == key_of(
            route@,
            match *provider {
                Some(p) => Some(p@),
                None => None,
            },
            opt_view(*account),
        ),
{
    match provider {
        Some(p) => {
            let model = match &route.upstream_model_id {
                Some(m) => m.clone(),
                None => String::new(),
            };
            let protocol = match route.protocol {
                Some(ProviderProtocol::Responses) => "Some(Responses)",
                Some(ProviderProtocol::ChatCompletions) => "Some(ChatCompletions)",
                None => "None",
            };
            cat(&cat3(&cat5("custom:", &p.id, ":", &p.base_url, ":"), &model, ":"), protocol)
        },
        None => match account {
            Some(a) => cat("official:", a),
            None => cat("official:", "unknown"),
        },
    }
}

/// A registry change that leaves a route's provider endpoint, model and protocol alone
/// does not change its identity. That of a custom route does not depend on the account.
pub proof fn generations_do_not_move_routes(
    route: RouteDescriptionView,
    later: RouteDescriptionView,
    provider: Option<ProviderView>,
    edited: Option<ProviderView>,
    account: Option<Seq<char>>,
    other: Option<Seq<char>>,
)
    requires
        provider is Some <==> edited is Some,
        provider is Some ==> provider->0.id == edited->0.id && provider->0.base_url
            == edited->0.base_url,
        route.upstream_model_id == later.upstream_model_id,
        route.protocol == later.protocol,
        provider is Some || account == other,
    ensures
        key_of(route, provider, account) == key_of(later, edited, other),
{
}

/// The model of a reasoning configuration.
pub ghost struct ReasoningView {
    pub supports_thinking: Option<bool>,
    pub supports_effort: Option<bool>,
    pub thinking_param: Option<Seq<char>>,
    pub effort_param: Option<Seq<char>>,
    pub effort_value_mode: Option<Seq<char>>,
    pub output_format: Option<Seq<char>>,
    pub effort_levels: Option<Seq<Seq<char>>>,
}

impl View for CodexChatReasoningConfig {
    type V = ReasoningView;

    open spec fn view(&self) -> ReasoningView {
        ReasoningView {
            supports_thinking: self.supports_thinking,
            supports_effort: self.supports_effort,
            thinking_param: opt_view(self.thinking_param),
            effort_param: opt_view(self.effort_param),
            effort_value_mode: opt_view(self.effort_value_mode),
            output_format: opt_view(self.output_format),
            effort_levels: match self.effort_levels {
                Some(v) => Some(views(v@)),
                None => None,
            },
        }
    }
}

/// The effort levels that a model lists, where it lists any.
pub open spec fn listed_levels(model: ModelView) -> Option<Seq<Seq<char>>> {
    if model.reasoning_levels.len() == 0 {
        None
    } else {
        Some(model.reasoning_levels)
    }
}

/// How a model of a Chat provider expects reasoning to be asked for: by the habits of
/// OpenRouter or DeepSeek where the URL or the model names them, else by the model's
/// capability.
pub open spec fn reasoning_of(provider: Option<ProviderView>, model: ModelView) -> Option<
    ReasoningView,
> {
    let url = match provider {
        Some(p) => lowered(p.base_url),
        None => Seq::empty(),
    };
    if has_part(url, "openrouter"@) {
        Some(
            ReasoningView {
                supports_thinking: Some(false),
                supports_effort: Some(true),
                thinking_param: Some("none"@),
                effort_param: Some("reasoning.effort"@),
                effort_value_mode: Some("openrouter"@),
                output_format: Some("auto"@),
                effort_levels: listed_levels(model),
            },
        )
    } else if has_part(url, "deepseek"@) || has_part(
        lowered(model.upstream_model_id),
        "deepseek"@,
    ) {
        Some(
            ReasoningView {
                supports_thinking: Some(true),
                supports_effort: Some(true),
                thinking_param: Some("thinking"@),
                effort_param: Some("reasoning_effort"@),
                effort_value_mode: Some("deepseek"@),
                output_format: Some("reasoning_content"@),
                effort_levels: listed_levels(model),
            },
        )
    } else if model.capabilities.reasoning {
        Some(
            ReasoningView {
                supports_thinking: Some(true),
                supports_effort: Some(true),
                thinking_param: Some("thinking"@),
                effort_param: Some("reasoning_effort"@),
                effort_value_mode: None,
                output_format: Some("auto"@),
                effort_levels: listed_levels(model),
            },
        )
    } else {
        None
    }
}

/// How a model of a Chat provider expects reasoning to be asked for.
pub fn build_reasoning_config(provider: &Option<ProviderConfig>, model: &CustomModel) -> (r: Option<
    CodexChatReasoningConfig,
>)
    ensures
        reasoning_of(
            match *provider {
                Some(p) => Some(p@),
                None => None,
            },
            model@,
        ) == (match r {
            Some(c) => Some(c@),
            None => None,
        }),
{
    let url = match provider {
        Some(p) => to_lower(&p.base_url),
        None => String::new(),
    };
    let upstream = to_lower(&model.upstream_model_id);
    assert(model@.reasoning_levels.len() == model.reasoning_levels@.len());
    let effort_levels = if model.reasoning_levels.len() == 0 {
        None
    } else {
        Some(copy_strings(&model.reasoning_levels))
    };
    if contains(&url, "openrouter") {
        Some(
            CodexChatReasoningConfig {
                supports_thinking: Some(false),
                supports_effort: Some(true),
                thinking_param: Some("none".to_owned()),
                effort_param: Some("reasoning.effort".to_owned()),
                effort_value_mode: Some("openrouter".to_owned()),
                output_format: Some("auto".to_owned()),
                effort_levels,
            },
        )
    } else if contains(&url, "deepseek") || contains(&upstream, "deepseek") {
        Some(
            CodexChatReasoningConfig {
                supports_thinking: Some(true),
                supports_effort: Some(true),
                thinking_param: Some("thinking".to_owned()),
                effort_param: Some("reasoning_effort".to_owned()),
                effort_value_mode: Some("deepseek".to_owned()),
                output_format: Some("reasoning_content".to_owned()),
                effort_levels,
            },
        )
    } else if model.capabilities.reasoning {
        Some(
            CodexChatReasoningConfig {
                supports_thinking: Some(true),
                supports_effort: Some(true),
                thinking_param: Some("thinking".to_owned()),
                effort_param: Some("reasoning_effort".to_owned()),
                effort_value_mode: None,
                output_format: Some("auto".to_owned()),
                effort_levels,
            },
        )
    } else {
        None
    }
}

/// The context of a conversion on a route.
pub open spec fn context_for(
    route: RouteDescriptionView,
    upstream: Seq<char>,
    account: Option<Seq<char>>,
) -> BridgeContextView {
    BridgeContextView {
        route_id: route.logical_model_id + ":"@ + decimal(route.generation as nat),
        generation: route.generation,
        domain: if route.route_class == RouteClass::Official {
            RouteDomain::Official
        } else {
            RouteDomain::Custom
        },
        account_fingerprint: account,
        upstream_model: upstream,
    }
}

/// The context of a conversion on a route.
pub fn bridge_context(route: &RouteDescription, upstream_model: &str, account: &Option<String>) -> (r:
    BridgeContext)
    ensures
        r@ == context_for(route@, upstream_model@, opt_view(*account)),
{
    BridgeContext {
        route_id: cat3(&route.logical_model_id, ":", &decimal_of(route.generation)),
        generation: route.generation,
        domain: if route.route_class == RouteClass::Official {
            RouteDomain::Official
        } else {
            RouteDomain::Custom
        },
        account_fingerprint: account.clone(),
        upstream_model: upstream_model.to_owned(),
    }
}

/// The status under which an error of the bridge is reported: the upstream's fault is
/// a bad gateway, the request's a bad request.
pub open spec fn bridge_status(e: BridgeErrorView) -> u16 {
    match e {
        BridgeErrorView::ContextBoundary(_) => BAD_REQUEST,
        BridgeErrorView::NotObject => BAD_REQUEST,
        BridgeErrorView::Unsupported(_) => BAD_REQUEST,
        _ => BAD_GATEWAY,
    }
}

/// The reply that reports an error of the bridge.
pub open spec fn bridge_reply(e: BridgeErrorView) -> ReplyView {
    error_reply(bridge_status(e), e.message())
}

/// The reply that reports an error of the bridge.
pub fn bridge_error_response(error: BridgeError) -> (r: Reply)
    ensures
        r@ == bridge_reply(error@),
{
    let status: u16 = match &error {
        BridgeError::ContextBoundary(_) => BAD_REQUEST,
        BridgeError::NotObject => BAD_REQUEST,
        BridgeError::Unsupported(_) => BAD_REQUEST,
        _ => BAD_GATEWAY,
    };
    error_response(status, &error.message())
}

/// Each endpoint has the path of its own that the upstream knows it by.
pub proof fn endpoints_have_their_paths(endpoint: OmniEndpoint)
    ensures
        endpoint == OmniEndpoint::Responses <==> endpoint_path(endpoint) == "responses"@,
        endpoint == OmniEndpoint::ChatCompletions <==> endpoint_path(endpoint)
            == "chat/completions"@,
        endpoint == OmniEndpoint::Compact <==> endpoint_path(endpoint) == "responses/compact"@,
        endpoint == OmniEndpoint::Search <==> endpoint_path(endpoint) == "alpha/search"@,
        endpoint == OmniEndpoint::ImagesGenerations <==> endpoint_path(endpoint)
            == "images/generations"@,
        endpoint == OmniEndpoint::ImagesEdits <==> endpoint_path(endpoint) == "images/edits"@,
{
    reveal_strlit("responses");
    reveal_strlit("chat/completions");
    reveal_strlit("responses/compact");
    reveal_strlit("alpha/search");
    reveal_strlit("images/generations");
    reveal_strlit("images/edits");
    assert("responses"@.len() == 9);
    assert("chat/completions"@.len() == 16);
    assert("responses/compact"@.len() == 17);
    assert("alpha/search"@.len() == 12 && "alpha/search"@[0] == 'a');
    assert("images/generations"@.len() == 18);
    assert("images/edits"@.len() == 12 && "images/edits"@[0] == 'i');
}

/// The route of a request goes where the registry says: it names the model as the client
/// did, and a custom one comes with the provider of the given id, which is on, and with a
/// model of that provider of the given id, which is on. Without such a provider or model
/// there is no route, and the answer is 404.
pub proof fn routes_follow_the_registry(
    registry: RegistryView,
    resolved: Result<RouteView, CoreErrorView>,
)
    ensures
        match selected(registry, resolved) {
            Ok(s) => {
                &&& resolved is Ok
                &&& s.route.generation == registry.generation
                &&& match resolved->Ok_0 {
                    RouteView::Official(id) => {
                        &&& s.route.route_class == RouteClass::Official
                        &&& s.route.logical_model_id == id
                        &&& s.provider is None && s.model is None
                        &&& s.route.provider_id is None && s.route.upstream_model_id is None
                    },
                    RouteView::Custom {
                        logical_model_id,
                        provider_id,
                        upstream_model_id,
                        protocol,
                    } => {
                        &&& s.route.route_class == RouteClass::Custom
                        &&& s.route.logical_model_id == logical_model_id
                        &&& s.route.provider_id == Some(provider_id)
                        &&& s.route.upstream_model_id == Some(upstream_model_id)
                        &&& s.route.protocol == Some(protocol)
                        &&& s.provider == registry.provider(provider_id)
                        &&& s.provider is Some && s.provider->0.enabled && s.provider->0.id
                            == provider_id
                        &&& s.model is Some && s.model->0.enabled && s.model->0.logical_model_id
                            == logical_model_id
                        &&& s.provider->0.models.contains(s.model->0)
                    },
                }
            },
            Err(r) => r.status == 404,
        },
{
    if let Ok(RouteView::Custom { logical_model_id, provider_id, upstream_model_id, protocol }) =
        resolved {
        crate::registry::providers_are_found_by_id(registry, provider_id);
        if let Some(p) = registry.provider(provider_id) {
            crate::search::index_where_bounds(
                p.models,
                enabled_with_logical_id(logical_model_id),
            );
            let k = index_where(p.models, enabled_with_logical_id(logical_model_id));
            if k < p.models.len() {
                assert(enabled_with_logical_id(logical_model_id)(p.models[k]));
                assert(p.models.contains(p.models[k]));
            }
        }
    }
}

/// A route that the registry gives can be taken: no resolved model is lost between the two,
/// and the model that is asked upstream is the one that the registry names.
pub proof fn resolved_routes_can_be_taken(registry: RegistryView, id: Seq<char>)
    requires
        registry.route(id) is Ok,
        forall|i: int, j: int|
            0 <= i < j < registry.providers.len() ==> (#[trigger] registry.providers[i]).id != (
            #[trigger] registry.providers[j]).id,
    ensures
        ({
            let s = selected(registry, registry.route(id));
            &&& s is Ok
            &&& s->Ok_0.route.logical_model_id == id
            &&& registry.route(id)->Ok_0 is Custom ==> s->Ok_0.model is Some
                && s->Ok_0.model->0.upstream_model_id == registry.route(id)->Ok_0->upstream_model_id
                && s->Ok_0.provider is Some && s->Ok_0.provider->0.protocol
                == registry.route(id)->Ok_0->protocol
        }),
{
    if registry.route(id)->Ok_0 is Custom {
        let i = index_where(registry.providers, crate::registry::offering(id));
        crate::search::index_where_bounds(registry.providers, crate::registry::offering(id));
        let p = registry.providers[i];
        assert(crate::registry::offering(id)(p));
        assert forall|j: int| 0 <= j < i implies !crate::registry::with_id(p.id)(
            #[trigger] registry.providers[j],
        ) by {
            assert(registry.providers[j].id != registry.providers[i].id);
        }
        crate::search::index_where_is(registry.providers, crate::registry::with_id(p.id), i);
    }
}

/// Two endpoints are refused for what the route cannot do: compaction by a provider that
/// speaks only Chat, with 501, and Chat requests to the official backend, with 400. Every
/// other endpoint of every route is open.
pub proof fn endpoints_are_refused_by_route(endpoint: OmniEndpoint, s: SelectedView)
    ensures
        match endpoint_refusal(endpoint, s) {
            Some(r) => {
                ||| r.status == 501 && endpoint == OmniEndpoint::Compact && s.provider is Some
                    && s.provider->0.protocol == ProviderProtocol::ChatCompletions
                ||| r.status == 400 && endpoint == OmniEndpoint::ChatCompletions
                    && s.route.route_class == RouteClass::Official
            },
            None => {
                &&& endpoint == OmniEndpoint::Compact && s.provider is Some ==> s.provider->0.protocol
                    == ProviderProtocol::Responses
                &&& endpoint == OmniEndpoint::ChatCompletions ==> s.route.route_class
                    == RouteClass::Custom
            },
        },
{
}

/// The identity of a route tells apart what must not share a history: the official backend
/// and custom providers, two accounts, and two endpoints, models or protocols of a
/// provider.
pub proof fn identities_tell_routes_apart(
    route: RouteDescriptionView,
    other: RouteDescriptionView,
    p: ProviderView,
    q: ProviderView,
    account: Seq<char>,
    another: Seq<char>,
)
    requires
        route.upstream_model_id is Some,
        other.upstream_model_id is Some,
        p.id == q.id,
    ensures
        key_of(route, Some(p), None) != key_of(other, None, Some(account)),
        key_of(route, None, Some(account)) == key_of(other, None, Some(another)) <==> account
            == another,
        route.upstream_model_id == other.upstream_model_id && route.protocol == other.protocol ==> (
        key_of(route, Some(p), None) == key_of(other, Some(q), None) <==> p.base_url == q.base_url),
        p.base_url == q.base_url && route.protocol == other.protocol ==> (key_of(
            route,
            Some(p),
            None,
        ) == key_of(other, Some(q), None) <==> route.upstream_model_id == other.upstream_model_id),
        p.base_url == q.base_url && route.upstream_model_id == other.upstream_model_id ==> (key_of(
            route,
            Some(p),
            None,
        ) == key_of(other, Some(q), None) <==> route.protocol == other.protocol),
{
    let a = key_of(route, Some(p), None);
    let b = key_of(other, Some(q), None);
    reveal_strlit("custom:");
    reveal_strlit("official:");
    reveal_strlit("Some(Responses)");
    reveal_strlit("Some(ChatCompletions)");
    reveal_strlit("None");
    reveal_strlit(":");
    assert("custom:"@.len() == 7);
    assert("official:"@.len() == 9);
    assert("Some(Responses)"@.len() == 15);
    assert("Some(ChatCompletions)"@.len() == 21);
    assert("None"@.len() == 4);
    assert(":"@.len() == 1);
    assert("custom:"@[0] == 'c' && "official:"@[0] == 'o');
    assert(a[0] == 'c');
    assert(key_of(other, None, Some(account))[0] == 'o');
    let x = key_of(route, None, Some(account));
    let y = key_of(other, None, Some(another));
    assert(x.skip(9) =~= account);
    assert(y.skip(9) =~= another);
    let head = 7 + p.id.len() + 1;
    let t1 = protocol_text(route.protocol);
    let t2 = protocol_text(other.protocol);
    let m1 = route.upstream_model_id->0;
    let m2 = other.upstream_model_id->0;
    if a == b {
        if m1 == m2 && t1 == t2 {
            let n = (a.len() - head - 1 - m1.len() - 1 - t1.len()) as int;
            assert(n == p.base_url.len() && n == q.base_url.len());
            assert(a.subrange(head as int, head + n) =~= p.base_url);
            assert(b.subrange(head as int, head + n) =~= q.base_url);
        }
        if p.base_url == q.base_url && t1 == t2 {
            let from = (head + p.base_url.len() + 1) as int;
            let n = (a.len() - from - 1 - t1.len()) as int;
            assert(a.subrange(from, from + n) =~= m1);
            assert(b.subrange(from, from + n) =~= m2);
        }
        if p.base_url == q.base_url && m1 == m2 {
            let from = (head + p.base_url.len() + 1 + m1.len() + 1) as int;
            assert(a.skip(from) =~= t1);
            assert(b.skip(from) =~= t2);
        }
    }
}

/// A conversion is bound to the route that it is made for: its generation, the account, the
/// upstream model, and the domain of the route.
pub proof fn contexts_belong_to_their_route(
    route: RouteDescriptionView,
    upstream: Seq<char>,
    account: Option<Seq<char>>,
)
    ensures
        ({
            let c = context_for(route, upstream, account);
            &&& c.upstream_model == upstream
            &&& c.generation == route.generation
            &&& c.account_fingerprint == account
            &&& c.domain == RouteDomain::Custom <==> route.route_class == RouteClass::Custom
            &&& c.route_id.len() > route.logical_model_id.len()
            &&& c.route_id.take(route.logical_model_id.len() as int) == route.logical_model_id
        }),
{
    reveal_strlit(":");
    let c = context_for(route, upstream, account);
    assert(c.route_id.take(route.logical_model_id.len() as int) =~= route.logical_model_id);
}

/// What the bridge refuses of a request is answered with 400, what it cannot make of an
/// upstream's answer with 502.
pub proof fn bridge_failures_have_their_status(e: BridgeErrorView)
    ensures
        bridge_reply(e).status == 400 || bridge_reply(e).status == 502,
        bridge_reply(e).status == 400 <==> e is ContextBoundary || e is NotObject || e
            is Unsupported,
        bridge_reply(e) == error_reply(bridge_reply(e).status, e.message()),
{
}

/// How reasoning is asked for goes by the provider's URL first, then by the model: a model
/// of DeepSeek behind OpenRouter is asked as OpenRouter wants it. The levels are those of
/// the model; a model without reasoning at another provider is not asked.
pub proof fn reasoning_goes_by_the_provider(provider: Option<ProviderView>, model: ModelView)
    ensures
        ({
            let c = reasoning_of(provider, model);
            let url = match provider {
                Some(p) => lowered(p.base_url),
                None => Seq::empty(),
            };
            let router = has_part(url, "openrouter"@);
            let deepseek = !router && (has_part(url, "deepseek"@) || has_part(
                lowered(model.upstream_model_id),
                "deepseek"@,
            ));
            &&& c is None <==> !router && !deepseek && !model.capabilities.reasoning
            &&& c is Some ==> c->0.supports_effort == Some(true)
            &&& c is Some && model.reasoning_levels.len() > 0 ==> c->0.effort_levels == Some(
                model.reasoning_levels,
            )
            &&& c is Some && model.reasoning_levels.len() == 0 ==> c->0.effort_levels is None
            &&& c is Some && router ==> c->0.effort_value_mode == Some("openrouter"@)
                && c->0.effort_param == Some("reasoning.effort"@) && c->0.supports_thinking == Some(
                false,
            ) && c->0.thinking_param == Some("none"@) && c->0.output_format == Some("auto"@)
            &&& c is Some && deepseek ==> c->0.effort_value_mode == Some("deepseek"@)
                && c->0.effort_param == Some("reasoning_effort"@) && c->0.supports_thinking == Some(
                true,
            ) && c->0.thinking_param == Some("thinking"@) && c->0.output_format == Some(
                "reasoning_content"@,
            )
            &&& c is Some && !router && !deepseek ==> c->0.effort_value_mode is None
                && c->0.effort_param == Some("reasoning_effort"@) && c->0.supports_thinking == Some(
                true,
            ) && c->0.thinking_param == Some("thinking"@) && c->0.output_format == Some("auto"@)
        }),
{
}

/// Without an account the official backend has a route of its own, apart from those of all
/// accounts that are known by a fingerprint.
pub proof fn strangers_share_no_route(route: RouteDescriptionView, account: Seq<char>)
    requires
        account != "unknown"@,
    ensures
        key_of(route, None, None) != key_of(route, None, Some(account)),
        key_of(route, None, None) == key_of(route, None, Some("unknown"@)),
{
    let a = key_of(route, None, None);
    let b = key_of(route, None, Some(account));
    let n = "official:"@.len() as int;
    assert(a.skip(n) =~= "unknown"@);
    assert(b.skip(n) =~= account);
}

} // verus!
