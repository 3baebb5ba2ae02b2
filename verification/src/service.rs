//! The router as a service: where it listens, how it is found, and what it tells of
//! itself.

use crate::gate::{validate_request_origin, origin_refusal, CAPABILITY_HEADER};
use crate::http::{error_reply, error_response, Headers, Reply, ReplyView, BAD_GATEWAY, OK};
use crate::json::{empty_object, json_views, Json, JsonView, NumberView};
use crate::ledger::{assoc, BoundedRouteMap, CredentialCache};
use crate::registry::{
    CustomModel, ModelCapabilities, ModelView, ProviderConfig, ProviderRegistry, ProviderView,
    RegistryView,
};
use crate::router_error::{RouterError, RouterErrorView};
use crate::text::{blank, cat, is_blank, opt_view, views};
use crate::urls::{loopback_url_error, url_parsed, validate_loopback_url};
use crate::tokens::{new_uuid, uuid_text, uuids_are_not_blank};
use vstd::prelude::*;
use vstd::string::*;

verus! {

/// The build of the router that answers a readiness probe.
pub const ROUTER_BUILD_PROFILE: &'static str = "stock-omnibridge-v1";

/// The official backend.
pub const DEFAULT_OFFICIAL_BASE_URL: &'static str = "https://chatgpt.com/backend-api/codex";

/// The version of the endpoint document.
pub const ROUTER_ENDPOINT_SCHEMA_VERSION: u32 = 1;

/// An IP address by its value.
#[derive(Debug, Clone, Copy, PartialEq, Eq, Structural)]
pub enum IpAddress {
    V4(u32),
    V6(u128),
}

/// Whether an address is one of this machine's own: 127.0.0.0/8, or the IPv6 loopback.
pub open spec fn loopback_ip(ip: IpAddress) -> bool {
    match ip {
        IpAddress::V4(n) => n / 16777216 == 127,
        IpAddress::V6(n) => n == 1,
    }
}

impl IpAddress {
    /// Whether the address is one of this machine's own.
    pub fn is_loopback(self) -> (r: bool)
        ensures
            r == loopback_ip(self),
    {
        match self {
            IpAddress::V4(n) => n / 16777216 == 127,
            IpAddress::V6(n) => n == 1,
        }
    }
}

/// Where the router listens. The address is held by its value and as it is written.
#[derive(Debug)]
pub struct RouterConfig {
    pub bind_ip: IpAddress,
    pub bind_text: String,
    pub port: u16,
    pub endpoint_file: Option<String>,
}

impl Default for RouterConfig {
    fn default() -> (r: RouterConfig)
        ensures
            r.bind_ip == IpAddress::V4(2130706433),
            r.bind_text@ == "127.0.0.1"@,
            r.port == 0,
            r.endpoint_file is None,
    {
        RouterConfig {
            bind_ip: IpAddress::V4(2130706433),
            bind_text: "127.0.0.1".to_owned(),
            port: 0,
            endpoint_file: None,
        }
    }
}

impl RouterConfig {
    /// Refuses an address that other machines can reach.
    pub fn validate(&self) -> (r: Result<(), RouterError>)
        ensures
            r is Ok <==> loopback_ip(self.bind_ip),
            r is Err ==> r->Err_0@ == RouterErrorView::NonLoopbackBind(self.bind_text@),
    {
        if !self.bind_ip.is_loopback() {
            return Err(RouterError::NonLoopbackBind(self.bind_text.clone()));
        }
        Ok(())
    }
}

/// Why a router may not be served, if it may not: it would be reachable from outside,
/// or it has no capability token.
pub open spec fn serve_error(config: RouterConfig, token: Option<Seq<char>>) -> Option<
    RouterErrorView,
> {
    if !loopback_ip(config.bind_ip) {
        Some(RouterErrorView::NonLoopbackBind(config.bind_text@))
    } else if token is None {
        Some(RouterErrorView::MissingCapabilityToken)
    } else {
        None
    }
}

/// Checks that a router may be served.
pub fn check_serve(config: &RouterConfig, state: &RouterState) -> (r: Result<(), RouterError>)
    ensures
        serve_error(*config, opt_view(state.capability_token)) == (match r {
            Ok(_) => None,
            Err(e) => Some(e@),
        }),
{
    match config.validate() {
        Ok(_) => {},
        Err(e) => return Err(e),
    }
    if !state.is_capability_protected() {
        return Err(RouterError::MissingCapabilityToken);
    }
    Ok(())
}

/// Where a running router is found and how it is spoken to.
#[derive(Debug)]
pub struct RouterEndpoint {
    pub base_url: String,
    pub capability_token: String,
}

/// The document by which a running router is found.
#[derive(Debug)]
pub struct RouterEndpointFile {
    pub schema_version: u32,
    pub base_url: String,
    pub capability_token: String,
}

/// Why an endpoint document is refused, if it is.
pub open spec fn endpoint_error(version: u32, base_url: Seq<char>, token: Seq<char>) -> Option<
    RouterErrorView,
> {
    if version != ROUTER_ENDPOINT_SCHEMA_VERSION || blank(token) {
        Some(RouterErrorView::EndpointFile("unsupported or incomplete endpoint"@))
    } else {
        loopback_url_error(url_parsed(base_url))
    }
}

/// The endpoint that a document names.
pub fn accept_endpoint(file: RouterEndpointFile) -> (r: Result<RouterEndpoint, RouterError>)
    ensures
        match r {
            Ok(endpoint) => {
                &&& endpoint_error(file.schema_version, file.base_url@, file.capability_token@)
                    is None
                &&& endpoint.base_url == file.base_url
                &&& endpoint.capability_token == file.capability_token
            },
            Err(e) => endpoint_error(file.schema_version, file.base_url@, file.capability_token@)
                == Some(e@),
        },
{
    if file.schema_version != ROUTER_ENDPOINT_SCHEMA_VERSION || is_blank(&file.capability_token) {
        return Err(RouterError::EndpointFile("unsupported or incomplete endpoint".to_owned()));
    }
    match validate_loopback_url(&file.base_url) {
        Ok(_) => Ok(
            RouterEndpoint { base_url: file.base_url, capability_token: file.capability_token },
        ),
        Err(e) => Err(e),
    }
}

/// Why the file of an endpoint document is not trusted, if it is not: it is a link, or
/// other users can get at it. A system without permission bits gives no mode.
pub fn check_endpoint_file(path: &str, is_symlink: bool, mode: Option<u32>) -> (r: Result<
    (),
    RouterError,
>)
    ensures
        match r {
            Ok(_) => !is_symlink && (mode is None || mode->0 & 0o077 == 0),
            Err(e) => e@ == RouterErrorView::EndpointFile(
                if is_symlink {
                    "endpoint file `"@ + path@ + "` must not be a symlink"@
                } else {
                    "endpoint file `"@ + path@ + "` is accessible by other users"@
                },
            ) && (is_symlink || (mode is Some && mode->0 & 0o077 != 0)),
        },
{
    if is_symlink {
        return Err(
            RouterError::EndpointFile(
                crate::text::cat3("endpoint file `", path, "` must not be a symlink"),
            ),
        );
    }
    if let Some(mode) = mode {
        if mode & 0o077 != 0 {
            return Err(
                RouterError::EndpointFile(
                    crate::text::cat3("endpoint file `", path, "` is accessible by other users"),
                ),
            );
        }
    }
    Ok(())
}

/// The endpoint that a document names, where its file is trusted. The document comes as
/// it was read, or as the reason why it could not be.
pub fn load_router_endpoint(
    path: &str,
    is_symlink: bool,
    mode: Option<u32>,
    file: Result<RouterEndpointFile, String>,
) -> (r: Result<RouterEndpoint, RouterError>)
    ensures
        if is_symlink {
            r is Err && r->Err_0@ == RouterErrorView::EndpointFile(
                "endpoint file `"@ + path@ + "` must not be a symlink"@,
            )
        } else if mode is Some && mode->0 & 0o077 != 0 {
            r is Err && r->Err_0@ == RouterErrorView::EndpointFile(
                "endpoint file `"@ + path@ + "` is accessible by other users"@,
            )
        } else {
            match file {
                Err(e) => r is Err && r->Err_0@ == RouterErrorView::EndpointFile(e@),
                Ok(f) => match endpoint_error(f.schema_version, f.base_url@, f.capability_token@) {
                    Some(e) => r is Err && r->Err_0@ == e,
                    None => r is Ok && r->Ok_0.base_url == f.base_url && r->Ok_0.capability_token
                        == f.capability_token,
                },
            }
        },
{
    match check_endpoint_file(path, is_symlink, mode) {
        Ok(_) => {},
        Err(e) => return Err(e),
    }
    match file {
        Ok(file) => accept_endpoint(file),
        Err(e) => Err(RouterError::EndpointFile(e)),
    }
}

/// A capability token, drawn at random; which one is not said. It is never blank, so
/// that an endpoint document with it is accepted.
pub fn new_capability_token() -> (r: String)
    ensures
        uuid_text(r@),
        !blank(r@),
{
    let token = new_uuid();
    proof {
        uuids_are_not_blank(token@);
    }
    token
}

/// The document by which a router that listens at an address is found.
pub fn endpoint_document(addr: &str, token: &str) -> (r: RouterEndpointFile)
    ensures
        r.schema_version == ROUTER_ENDPOINT_SCHEMA_VERSION,
        r.base_url@ == "http://"@ + addr@,
        r.capability_token@ == token@,
{
    RouterEndpointFile {
        schema_version: ROUTER_ENDPOINT_SCHEMA_VERSION,
        base_url: cat("http://", addr),
        capability_token: token.to_owned(),
    }
}

/// What a router writes is accepted wherever its token is not blank and its address
/// makes a loopback URL.
pub proof fn written_endpoints_are_accepted(addr: Seq<char>, token: Seq<char>)
    requires
        !blank(token),
        loopback_url_error(url_parsed("http://"@ + addr)) is None,
    ensures
        endpoint_error(ROUTER_ENDPOINT_SCHEMA_VERSION, "http://"@ + addr, token) is None,
{
}

/// What a router holds while it runs.
pub struct RouterState {
    pub registry: ProviderRegistry,
    pub capability_token: Option<String>,
    pub official_base_url: String,
    pub history_routes: BoundedRouteMap,
    pub credential_cache: CredentialCache,
}

/// The models that enabled providers offer, each with its provider.
pub open spec fn offered_by(p: ProviderView, models: Seq<ModelView>) -> Seq<(ProviderView, ModelView)>
    decreases models.len(),
{
    if models.len() == 0 {
        Seq::empty()
    } else if p.enabled && models.last().enabled {
        offered_by(p, models.drop_last()).push((p, models.last()))
    } else {
        offered_by(p, models.drop_last())
    }
}

/// The models that enabled providers offer, in their order.
pub open spec fn offered(providers: Seq<ProviderView>) -> Seq<(ProviderView, ModelView)>
    decreases providers.len(),
{
    if providers.len() == 0 {
        Seq::empty()
    } else {
        offered(providers.drop_last()) + offered_by(providers.last(), providers.last().models)
    }
}

/// The places, provider by model, of the models that enabled providers offer.
pub fn enabled_custom_models(registry: &ProviderRegistry) -> (r: Vec<(usize, usize)>)
    ensures
        r@.len() == offered(registry@.providers).len(),
        forall|i: int|
            0 <= i < r@.len() ==> {
                let (p, m) = #[trigger] r@[i];
                &&& p < registry.providers@.len()
                &&& m < registry.providers@[p as int].models@.len()
                &&& offered(registry@.providers)[i] == (
                    registry.providers@[p as int]@,
                    registry.providers@[p as int].models@[m as int]@,
                )
            },
{
    let ghost all = registry@.providers;
    let mut out: Vec<(usize, usize)> = Vec::new();
    let mut p: usize = 0;
    while p < registry.providers.len()
        invariant
            p <= registry.providers@.len(),
            all == registry@.providers,
            out@.len() == offered(all.take(p as int)).len(),
            forall|i: int|
                0 <= i < out@.len() ==> {
                    let (x, y) = #[trigger] out@[i];
                    &&& x < registry.providers@.len()
                    &&& y < registry.providers@[x as int].models@.len()
                    &&& offered(all.take(p as int))[i] == (
                        registry.providers@[x as int]@,
                        registry.providers@[x as int].models@[y as int]@,
                    )
                },
        decreases registry.providers@.len() - p,
    {
        let provider = &registry.providers[p];
        assert(all.take(p + 1).drop_last() =~= all.take(p as int));
        assert(all.take(p + 1).last() == provider@);
        let ghost before = offered(all.take(p as int));
        let ghost models = provider@.models;
        let mut m: usize = 0;
        assert(before + offered_by(provider@, models.take(0)) =~= before);
        while m < provider.models.len()
            invariant
                p < registry.providers@.len(),
                m <= provider.models@.len(),
                all == registry@.providers,
                *provider == registry.providers@[p as int],
                models == provider@.models,
                out@.len() == (before + offered_by(provider@, models.take(m as int))).len(),
                forall|i: int|
                    0 <= i < out@.len() ==> {
                        let (x, y) = #[trigger] out@[i];
                        &&& x < registry.providers@.len()
                        &&& y < registry.providers@[x as int].models@.len()
                        &&& (before + offered_by(provider@, models.take(m as int)))[i] == (
                            registry.providers@[x as int]@,
                            registry.providers@[x as int].models@[y as int]@,
                        )
                    },
            decreases provider.models@.len() - m,
        {
            assert(models.take(m + 1).drop_last() =~= models.take(m as int));
            assert(models.take(m + 1).last() == provider.models@[m as int]@);
            if provider.enabled && provider.models[m].enabled {
                out.push((p, m));
            }
            m = m + 1;
        }
        assert(models.take(m as int) =~= models);
        p = p + 1;
    }
    assert(all.take(p as int) =~= all);
    out
}

impl RouterState {
    /// A router's state without a capability token: it refuses every request.
    pub fn new(registry: ProviderRegistry) -> (r: RouterState)
        ensures
            r.registry == registry,
            r.capability_token is None,
            r.official_base_url@ == DEFAULT_OFFICIAL_BASE_URL@,
            r.history_routes@.len() == 0,
            r.credential_cache@.generation is None,
    {
        RouterState {
            registry,
            capability_token: None,
            official_base_url: DEFAULT_OFFICIAL_BASE_URL.to_owned(),
            history_routes: BoundedRouteMap::new(),
            credential_cache: CredentialCache::new(),
        }
    }

    /// A router's state with its capability token.
    pub fn with_capability_token(registry: ProviderRegistry, capability_token: String) -> (r:
        RouterState)
        ensures
            r.registry == registry,
            r.capability_token == Some(capability_token),
            r.official_base_url@ == DEFAULT_OFFICIAL_BASE_URL@,
            r.history_routes@.len() == 0,
            r.credential_cache@.generation is None,
    {
        RouterState {
            registry,
            capability_token: Some(capability_token),
            official_base_url: DEFAULT_OFFICIAL_BASE_URL.to_owned(),
            history_routes: BoundedRouteMap::new(),
            credential_cache: CredentialCache::new(),
        }
    }

    /// The state with another official backend.
    pub fn with_official_base_url(self, base_url: String) -> (r: RouterState)
        ensures
            r == (RouterState { official_base_url: base_url, ..self }),
    {
        RouterState {
            registry: self.registry,
            capability_token: self.capability_token,
            official_base_url: base_url,
            history_routes: self.history_routes,
            credential_cache: self.credential_cache,
        }
    }

    /// Whether the router has a capability token.
    pub fn is_capability_protected(&self) -> (r: bool)
        ensures
            r == (self.capability_token is Some),
    {
        self.capability_token.is_some()
    }

    /// The route that issued a response.
    pub fn previous_route(&self, response_id: &str) -> (r: Option<String>)
        ensures
            opt_view(r) == assoc(self.history_routes@, response_id@),
    {
        match self.history_routes.get(response_id) {
            Some(route) => Some(route.clone()),
            None => None,
        }
    }

    /// Takes over a registry that was read again, and counts the models that it
    /// offers. Where the reading failed, the old registry stays.
    pub fn reload_registry(&mut self, loaded: Result<ProviderRegistry, String>) -> (r: Result<
        usize,
        RouterError,
    >)
        ensures
            match loaded {
                Ok(registry) => {
                    &&& r is Ok
                    &&& r->Ok_0 == offered(registry@.providers).len()
                    &&& *final(self) == (RouterState { registry, ..*old(self) })
                },
                Err(e) => {
                    &&& r is Err
                    &&& r->Err_0@ == RouterErrorView::Registry(e@)
                    &&& *final(self) == *old(self)
                },
            },
    {
        match loaded {
            Ok(registry) => {
                let offered = enabled_custom_models(&registry).len();
                self.registry = registry;
                Ok(offered)
            },
            Err(e) => Err(RouterError::Registry(e)),
        }
    }
}

/// The reply of a reload.
pub open spec fn reload_reply(outcome: Result<usize, RouterErrorView>) -> ReplyView {
    match outcome {
        Ok(n) => ReplyView {
            status: OK,
            body: empty_object().with("status"@, JsonView::Str("reloaded"@)).with(
                "enabled_custom_models"@,
                JsonView::Number(NumberView::Unsigned(n as u64)),
            ),
        },
        Err(e) => error_reply(BAD_GATEWAY, e.message()),
    }
}

/// The reply of a reload.
pub fn admin_reload(outcome: Result<usize, RouterError>) -> (r: Reply)
    ensures
        r@ == reload_reply(
            match outcome {
                Ok(n) => Ok(n),
                Err(e) => Err(e@),
            },
        ),
{
    match outcome {
        Ok(n) => Reply {
            status: OK,
            body: Json::object().with("status", Json::string("reloaded")).with(
                "enabled_custom_models",
                Json::unsigned(n as u64),
            ),
        },
        Err(e) => error_response(BAD_GATEWAY, &e.message()),
    }
}

/// What a router tells of its registry.
pub open spec fn admin_body(registry: RegistryView) -> JsonView {
    empty_object().with("status"@, JsonView::Str("ok"@)).with(
        "providers"@,
        JsonView::Number(NumberView::Unsigned(registry.providers.len() as u64)),
    ).with(
        "enabled_custom_models"@,
        JsonView::Number(NumberView::Unsigned(offered(registry.providers).len() as u64)),
    )
}

/// What a router tells of its registry.
pub fn admin_status(registry: &ProviderRegistry) -> (r: Reply)
    ensures
        r@ == (ReplyView {
            status: OK,
            body: admin_body(registry@),
        }),
{
    assert(registry@.providers.len() == registry.providers@.len());
    Reply {
        status: OK,
        body: Json::object().with("status", Json::string("ok")).with(
            "providers",
            Json::unsigned(registry.providers.len() as u64),
        ).with(
            "enabled_custom_models",
            Json::unsigned(enabled_custom_models(registry).len() as u64),
        ),
    }
}

/// The reply of a shutdown.
pub fn admin_shutdown() -> (r: Reply)
    ensures
        r@ == (ReplyView {
            status: OK,
            body: empty_object().with("status"@, JsonView::Str("shutting_down"@)),
        }),
{
    Reply { status: OK, body: Json::object().with("status", Json::string("shutting_down")) }
}

/// What a router tells of its health.
pub open spec fn health_reply(headers: Seq<(Seq<char>, Seq<u8>)>) -> ReplyView {
    match origin_refusal(headers) {
        Some(reply) => reply,
        None => ReplyView {
            status: OK,
            body: empty_object().with("status"@, JsonView::Str("ok"@)).with(
                "bind"@,
                JsonView::Str("127.0.0.1-only"@),
            ),
        },
    }
}

/// The reply of a health probe; it needs no token.
pub fn healthz(headers: &Headers) -> (r: Reply)
    ensures
        r@ == health_reply(headers@),
{
    match validate_request_origin(headers) {
        Some(reply) => reply,
        None => Reply {
            status: OK,
            body: Json::object().with("status", Json::string("ok")).with(
                "bind",
                Json::string("127.0.0.1-only"),
            ),
        },
    }
}

/// A text, or null.
pub open spec fn text_or_null(s: Option<Seq<char>>) -> JsonView {
    match s {
        Some(s) => JsonView::Str(s),
        None => JsonView::Null,
    }
}

/// A text, or null.
pub fn json_or_null(s: &Option<String>) -> (r: Json)
    ensures
        r@ == text_or_null(opt_view(*s)),
{
    match s {
        Some(s) => Json::string(s),
        None => Json::Null,
    }
}

/// What a router tells a readiness probe.
pub open spec fn readiness(
    registry: RegistryView,
    registry_sha256: Option<Seq<char>>,
    catalog_sha256: Option<Seq<char>>,
) -> JsonView {
    empty_object().with("status"@, JsonView::Str("ready"@)).with(
        "instance"@,
        JsonView::Str("omnibridge"@),
    ).with("build_profile"@, JsonView::Str(ROUTER_BUILD_PROFILE@)).with(
        "registry_generation"@,
        JsonView::Number(NumberView::Unsigned(registry.generation)),
    ).with("registry_sha256"@, text_or_null(registry_sha256)).with(
        "catalog_sha256"@,
        text_or_null(catalog_sha256),
    ).with(
        "official_models"@,
        JsonView::Number(NumberView::Unsigned(registry.official_model_ids.len() as u64)),
    ).with(
        "enabled_custom_models"@,
        JsonView::Number(NumberView::Unsigned(offered(registry.providers).len() as u64)),
    ).with("capability_header"@, JsonView::Str(CAPABILITY_HEADER@))
}

/// What a router tells a readiness probe.
pub fn readyz(
    registry: &ProviderRegistry,
    registry_sha256: &Option<String>,
    catalog_sha256: &Option<String>,
) -> (r: Reply)
    ensures
        r@ == (ReplyView {
            status: OK,
            body: readiness(registry@, opt_view(*registry_sha256), opt_view(*catalog_sha256)),
        }),
{
    assert(registry@.official_model_ids.len() == registry.official_model_ids@.len());
    Reply {
        status: OK,
        body: Json::object().with("status", Json::string("ready")).with(
            "instance",
            Json::string("omnibridge"),
        ).with("build_profile", Json::string(ROUTER_BUILD_PROFILE)).with(
            "registry_generation",
            Json::unsigned(registry.generation),
        ).with("registry_sha256", json_or_null(registry_sha256)).with(
            "catalog_sha256",
            json_or_null(catalog_sha256),
        ).with("official_models", Json::unsigned(registry.official_model_ids.len() as u64)).with(
            "enabled_custom_models",
            Json::unsigned(enabled_custom_models(registry).len() as u64),
        ).with("capability_header", Json::string(CAPABILITY_HEADER)),
    }
}

/// The capabilities of a model, as they are listed.
pub open spec fn capabilities_json(c: ModelCapabilities) -> JsonView {
    empty_object().with("images"@, JsonView::Bool(c.images)).with(
        "files"@,
        JsonView::Bool(c.files),
    ).with("tools"@, JsonView::Bool(c.tools)).with(
        "reasoning"@,
        JsonView::Bool(c.reasoning),
    ).with("streaming"@, JsonView::Bool(c.streaming))
}

/// How an official model is listed.
pub open spec fn official_entry(id: Seq<char>) -> JsonView {
    empty_object().with("id"@, JsonView::Str(id)).with("object"@, JsonView::Str("model"@)).with(
        "owned_by"@,
        JsonView::Str("openai"@),
    ).with("route_class"@, JsonView::Str("official"@))
}

/// How a model of a provider is listed.
pub open spec fn custom_entry(p: ProviderView, m: ModelView) -> JsonView {
    empty_object().with("id"@, JsonView::Str(m.logical_model_id)).with(
        "object"@,
        JsonView::Str("model"@),
    ).with("owned_by"@, JsonView::Str(p.name)).with(
        "display_name"@,
        JsonView::Str(m.display_name),
    ).with("capabilities"@, capabilities_json(m.capabilities)).with(
        "route_class"@,
        JsonView::Str("custom"@),
    )
}

/// The list of models: the official ones, then those of enabled providers.
pub open spec fn model_list(registry: RegistryView) -> JsonView {
    empty_object().with("object"@, JsonView::Str("list"@)).with(
        "data"@,
        JsonView::Array(
            registry.official_model_ids.map_values(|id: Seq<char>| official_entry(id)) + offered(
                registry.providers,
            ).map_values(|o: (ProviderView, ModelView)| custom_entry(o.0, o.1)),
        ),
    )
}

fn list_custom(p: &ProviderConfig, m: &CustomModel) -> (r: Json)
    ensures
        r@ == custom_entry(p@, m@),
{
    let c = m.capabilities;
    let capabilities = Json::object().with("images", Json::Bool(c.images)).with(
        "files",
        Json::Bool(c.files),
    ).with("tools", Json::Bool(c.tools)).with("reasoning", Json::Bool(c.reasoning)).with(
        "streaming",
        Json::Bool(c.streaming),
    );
    Json::object().with("id", Json::string(&m.logical_model_id)).with(
        "object",
        Json::string("model"),
    ).with("owned_by", Json::string(&p.name)).with(
        "display_name",
        Json::string(&m.display_name),
    ).with("capabilities", capabilities).with("route_class", Json::string("custom"))
}

/// The list of models.
pub fn models(registry: &ProviderRegistry) -> (r: Reply)
    ensures
        r@ == (ReplyView { status: OK, body: model_list(registry@) }),
{
    let mut data: Vec<Json> = Vec::new();
    let ghost ids = registry@.official_model_ids;
    let ghost official = ids.map_values(|id: Seq<char>| official_entry(id));
    let mut i: usize = 0;
    while i < registry.official_model_ids.len()
        invariant
            i <= registry.official_model_ids@.len(),
            ids == views(registry.official_model_ids@),
            official == ids.map_values(|id: Seq<char>| official_entry(id)),
            data@.len() == i,
            forall|j: int| 0 <= j < i ==> (#[trigger] data@[j])@ == official[j],
        decreases registry.official_model_ids@.len() - i,
    {
        data.push(
            Json::object().with("id", Json::string(&registry.official_model_ids[i])).with(
                "object",
                Json::string("model"),
            ).with("owned_by", Json::string("openai")).with(
                "route_class",
                Json::string("official"),
            ),
        );
        i = i + 1;
    }
    let places = enabled_custom_models(registry);
    let ghost custom = offered(registry@.providers).map_values(
        |o: (ProviderView, ModelView)| custom_entry(o.0, o.1),
    );
    let mut k: usize = 0;
    while k < places.len()
        invariant
            k <= places@.len(),
            places@.len() == custom.len(),
            custom == offered(registry@.providers).map_values(
                |o: (ProviderView, ModelView)| custom_entry(o.0, o.1),
            ),
            forall|i: int|
                0 <= i < places@.len() ==> {
                    let (p, m) = #[trigger] places@[i];
                    &&& p < registry.providers@.len()
                    &&& m < registry.providers@[p as int].models@.len()
                    &&& offered(registry@.providers)[i] == (
                        registry.providers@[p as int]@,
                        registry.providers@[p as int].models@[m as int]@,
                    )
                },
            data@.len() == official.len() + k,
            forall|j: int| 0 <= j < official.len() ==> (#[trigger] data@[j])@ == official[j],
            forall|j: int|
                official.len() <= j < data@.len() ==> (#[trigger] data@[j])@ == custom[j
                    - official.len()],
        decreases places@.len() - k,
    {
        let (p, m) = places[k];
        data.push(list_custom(&registry.providers[p], &registry.providers[p].models[m]));
        k = k + 1;
    }
    assert(json_views(data@) =~= official + custom);
    Reply {
        status: OK,
        body: Json::object().with("object", Json::string("list")).with("data", Json::array(data)),
    }
}

/// The addresses of this machine: 127.0.0.0 to 127.255.255.255, and the one of IPv6.
pub proof fn local_addresses_are_loopback(v4: u32, v6: u128)
    ensures
        loopback_ip(IpAddress::V4(v4)) <==> 0x7f00_0000 <= v4 <= 0x7fff_ffff,
        loopback_ip(IpAddress::V6(v6)) <==> v6 == 1,
{
    assert(v4 / 16777216 == 127 <==> 0x7f00_0000 <= v4 <= 0x7fff_ffff) by (nonlinear_arith);
}

/// The router serves on an address of this machine and with a capability token, or not at
/// all.
pub proof fn routers_serve_locally(config: RouterConfig, token: Option<Seq<char>>)
    ensures
        serve_error(config, token) is None <==> loopback_ip(config.bind_ip) && token is Some,
        !loopback_ip(config.bind_ip) ==> serve_error(config, token)->0 is NonLoopbackBind,
{
}

/// A published endpoint is accepted in the first version of its format, with a token that is
/// not blank, and on this machine.
pub proof fn endpoints_need_a_token(version: u32, base_url: Seq<char>, token: Seq<char>)
    ensures
        endpoint_error(version, base_url, token) is None <==> version == 1 && !blank(token)
            && loopback_url_error(url_parsed(base_url)) is None,
        endpoint_error(version, base_url, token) is Some && version == 1 && !blank(token)
            ==> endpoint_error(version, base_url, token) == loopback_url_error(url_parsed(base_url)),
{
}

proof fn offered_by_is(p: ProviderView, models: Seq<ModelView>, x: (ProviderView, ModelView))
    ensures
        offered_by(p, models).contains(x) <==> x.0 == p && p.enabled && x.1.enabled
            && models.contains(x.1),
    decreases models.len(),
{
    if models.len() > 0 {
        let less = models.drop_last();
        offered_by_is(p, less, x);
        let before = offered_by(p, less);
        let after = offered_by(p, models);
        assert(models.contains(x.1) <==> less.contains(x.1) || x.1 == models.last()) by {
            if models.contains(x.1) {
                let i = choose|i: int| 0 <= i < models.len() && models[i] == x.1;
                if i < less.len() {
                    assert(less[i] == x.1);
                }
            }
            if less.contains(x.1) {
                let i = choose|i: int| 0 <= i < less.len() && less[i] == x.1;
                assert(models[i] == x.1);
            }
            if x.1 == models.last() {
                assert(models[models.len() - 1] == x.1);
            }
        }
        if p.enabled && models.last().enabled {
            assert(after == before.push((p, models.last())));
            if after.contains(x) {
                let i = choose|i: int| 0 <= i < after.len() && after[i] == x;
                if i < before.len() {
                    assert(before[i] == x);
                }
            }
            if before.contains(x) {
                let i = choose|i: int| 0 <= i < before.len() && before[i] == x;
                assert(after[i] == x);
            }
            if x == (p, models.last()) {
                assert(after[before.len() as int] == x);
            }
        }
    }
}

/// The models that are offered are those that are on, of providers that are on, and no
/// others.
pub proof fn offered_models_are_on(providers: Seq<ProviderView>, p: ProviderView, m: ModelView)
    ensures
        offered(providers).contains((p, m)) <==> providers.contains(p) && p.enabled && m.enabled
            && p.models.contains(m),
    decreases providers.len(),
{
    let x = (p, m);
    if providers.len() > 0 {
        let less = providers.drop_last();
        offered_models_are_on(less, p, m);
        offered_by_is(providers.last(), providers.last().models, x);
        let a = offered(less);
        let b = offered_by(providers.last(), providers.last().models);
        let all = offered(providers);
        assert(all == a + b);
        assert(all.contains(x) <==> a.contains(x) || b.contains(x)) by {
            if all.contains(x) {
                let i = choose|i: int| 0 <= i < all.len() && all[i] == x;
                if i < a.len() {
                    assert(a[i] == x);
                } else {
                    assert(b[i - a.len()] == x);
                }
            }
            if a.contains(x) {
                let i = choose|i: int| 0 <= i < a.len() && a[i] == x;
                assert(all[i] == x);
            }
            if b.contains(x) {
                let i = choose|i: int| 0 <= i < b.len() && b[i] == x;
                assert(all[a.len() + i] == x);
            }
        }
        assert(providers.contains(p) <==> less.contains(p) || p == providers.last()) by {
            if providers.contains(p) {
                let i = choose|i: int| 0 <= i < providers.len() && providers[i] == p;
                if i < less.len() {
                    assert(less[i] == p);
                }
            }
            if less.contains(p) {
                let i = choose|i: int| 0 <= i < less.len() && less[i] == p;
                assert(providers[i] == p);
            }
            if p == providers.last() {
                assert(providers[providers.len() - 1] == p);
            }
        }
    }
}

/// The list of models that a client gets: the official ids first, each as such, then every
/// offered model under its logical id, with its name, its provider's name and what it can do.
pub proof fn clients_see_all_models(registry: RegistryView, i: int)
    ensures
        ({
            let list = model_list(registry).field("data"@)->0->Array_0;
            let official = registry.official_model_ids;
            let custom = offered(registry.providers);
            &&& model_list(registry).text_field("object"@) == Some("list"@)
            &&& model_list(registry).field("data"@) is Some && model_list(registry).field(
                "data"@,
            )->0 is Array
            &&& list.len() == official.len() + custom.len()
            &&& 0 <= i < official.len() ==> list[i].text_field("id"@) == Some(official[i])
                && list[i].text_field("route_class"@) == Some("official"@) && list[i].text_field(
                "owned_by"@,
            ) == Some("openai"@) && list[i].text_field("object"@) == Some("model"@)
            &&& 0 <= i < custom.len() ==> {
                let entry = list[official.len() + i];
                let (p, m) = custom[i];
                let can = entry.field("capabilities"@)->0;
                &&& entry.text_field("id"@) == Some(m.logical_model_id)
                &&& entry.text_field("object"@) == Some("model"@)
                &&& entry.text_field("owned_by"@) == Some(p.name)
                &&& entry.text_field("display_name"@) == Some(m.display_name)
                &&& entry.text_field("route_class"@) == Some("custom"@)
                &&& entry.field("capabilities"@) is Some
                &&& can.field("images"@) == Some(JsonView::Bool(m.capabilities.images))
                &&& can.field("files"@) == Some(JsonView::Bool(m.capabilities.files))
                &&& can.field("tools"@) == Some(JsonView::Bool(m.capabilities.tools))
                &&& can.field("reasoning"@) == Some(JsonView::Bool(m.capabilities.reasoning))
                &&& can.field("streaming"@) == Some(JsonView::Bool(m.capabilities.streaming))
            }
        }),
{
    reveal_strlit("object");
    reveal_strlit("data");
    reveal_strlit("id");
    reveal_strlit("owned_by");
    reveal_strlit("route_class");
    reveal_strlit("display_name");
    reveal_strlit("capabilities");
    reveal_strlit("images");
    reveal_strlit("files");
    reveal_strlit("tools");
    reveal_strlit("reasoning");
    reveal_strlit("streaming");
    assert("object"@.len() == 6 && "object"@[0] == 'o');
    assert("data"@.len() == 4);
    assert("id"@.len() == 2);
    assert("owned_by"@.len() == 8);
    assert("route_class"@.len() == 11);
    assert("display_name"@.len() == 12 && "display_name"@[0] == 'd');
    assert("capabilities"@.len() == 12 && "capabilities"@[0] == 'c');
    assert("images"@.len() == 6 && "images"@[0] == 'i');
    assert("files"@.len() == 5 && "files"@[0] == 'f');
    assert("tools"@.len() == 5 && "tools"@[0] == 't');
    assert("reasoning"@.len() == 9 && "reasoning"@[0] == 'r');
    assert("streaming"@.len() == 9 && "streaming"@[0] == 's');
    let a = registry.official_model_ids.map_values(|id: Seq<char>| official_entry(id));
    let b = offered(registry.providers).map_values(
        |o: (ProviderView, ModelView)| custom_entry(o.0, o.1),
    );
    let list = a + b;
    assert(model_list(registry).field("data"@) == Some(JsonView::Array(list)));
    if 0 <= i < a.len() {
        assert(list[i] == a[i]);
        assert(a[i] == official_entry(registry.official_model_ids[i]));
    }
    if 0 <= i < b.len() {
        assert(list[a.len() + i] == b[i]);
        let o = offered(registry.providers)[i];
        assert(b[i] == custom_entry(o.0, o.1));
    }
}

/// A router that is ready says so, of which generation its registry is, how many models it
/// offers, and under which header it expects its token.
pub proof fn ready_routers_say_what_they_serve(
    registry: RegistryView,
    registry_sha256: Option<Seq<char>>,
    catalog_sha256: Option<Seq<char>>,
)
    ensures
        ({
            let v = readiness(registry, registry_sha256, catalog_sha256);
            &&& v.text_field("status"@) == Some("ready"@)
            &&& v.text_field("instance"@) == Some("omnibridge"@)
            &&& v.field("registry_generation"@) == Some(
                JsonView::Number(NumberView::Unsigned(registry.generation)),
            )
            &&& v.text_field("registry_sha256"@) == registry_sha256
            &&& v.text_field("catalog_sha256"@) == catalog_sha256
            &&& v.field("official_models"@) == Some(
                JsonView::Number(
                    NumberView::Unsigned(registry.official_model_ids.len() as u64),
                ),
            )
            &&& v.field("enabled_custom_models"@) == Some(
                JsonView::Number(
                    NumberView::Unsigned(offered(registry.providers).len() as u64),
                ),
            )
            &&& v.text_field("capability_header"@) == Some("x-codex-omnibridge-token"@)
        }),
{
    reveal_strlit("status");
    reveal_strlit("instance");
    reveal_strlit("build_profile");
    reveal_strlit("registry_generation");
    reveal_strlit("registry_sha256");
    reveal_strlit("catalog_sha256");
    reveal_strlit("official_models");
    reveal_strlit("enabled_custom_models");
    reveal_strlit("capability_header");
    assert("status"@.len() == 6);
    assert("instance"@.len() == 8);
    assert("build_profile"@.len() == 13);
    assert("registry_generation"@.len() == 19);
    assert("registry_sha256"@.len() == 15 && "registry_sha256"@[0] == 'r');
    assert("catalog_sha256"@.len() == 14);
    assert("official_models"@.len() == 15 && "official_models"@[0] == 'o');
    assert("enabled_custom_models"@.len() == 21);
    assert("capability_header"@.len() == 17);
}

/// A reload is answered with the number of models that are offered now, or with 502.
pub proof fn reloads_are_answered(outcome: Result<usize, RouterErrorView>)
    ensures
        match outcome {
            Ok(n) => reload_reply(outcome).status == 200 && reload_reply(outcome).body.text_field(
                "status"@,
            ) == Some("reloaded"@) && reload_reply(outcome).body.field("enabled_custom_models"@)
                == Some(JsonView::Number(NumberView::Unsigned(n as u64))),
            Err(_) => reload_reply(outcome).status == 502,
        },
{
    reveal_strlit("status");
    reveal_strlit("enabled_custom_models");
    assert("status"@.len() == 6);
    assert("enabled_custom_models"@.len() == 21);
}

/// A router's status counts its providers and the models that it offers; its health is told
/// to this machine alone.
pub proof fn routers_report_their_state(
    registry: RegistryView,
    headers: Seq<(Seq<char>, Seq<u8>)>,
)
    ensures
        admin_body(registry).text_field("status"@) == Some("ok"@),
        admin_body(registry).field("providers"@) == Some(
            JsonView::Number(NumberView::Unsigned(registry.providers.len() as u64)),
        ),
        admin_body(registry).field("enabled_custom_models"@) == Some(
            JsonView::Number(NumberView::Unsigned(offered(registry.providers).len() as u64)),
        ),
        origin_refusal(headers) is Some ==> health_reply(headers) == origin_refusal(headers)->0,
        origin_refusal(headers) is None ==> health_reply(headers).status == 200 && health_reply(
            headers,
        ).body.text_field("status"@) == Some("ok"@),
{
    reveal_strlit("status");
    reveal_strlit("providers");
    reveal_strlit("enabled_custom_models");
    reveal_strlit("bind");
    assert("status"@.len() == 6);
    assert("providers"@.len() == 9);
    assert("enabled_custom_models"@.len() == 21);
    assert("bind"@.len() == 4);
}

} // verus!
