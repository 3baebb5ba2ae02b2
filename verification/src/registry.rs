//! The registry: providers, their models, the official model ids, the settings of the
//! panel, and the route of each model.

use crate::search::{
    any_where, found, found_after_push, found_after_remove, found_after_update, found_is_first,
    index_where, index_where_bounds, index_where_is,
};
use crate::text::{
    cat, cat3, first_index, first_index_is, lowered, opt_view, split_once, str_eq, to_lower, views,
};
use vstd::prelude::*;
use vstd::string::*;

verus! {

/// The protocol that a provider speaks.
#[derive(Debug, Clone, Copy, PartialEq, Eq, Structural)]
pub enum ProviderProtocol {
    Responses,
    ChatCompletions,
}

/// How a provider's credential is sent.
#[derive(Debug)]
pub enum AuthStrategy {
    Absent,
    Bearer,
    ApiKey,
    Header { name: String },
}

/// The model of how a credential is sent.
pub ghost enum AuthView {
    Absent,
    Bearer,
    ApiKey,
    Header(Seq<char>),
}

impl View for AuthStrategy {
    type V = AuthView;

    open spec fn view(&self) -> AuthView {
        match *self {
            AuthStrategy::Absent => AuthView::Absent,
            AuthStrategy::Bearer => AuthView::Bearer,
            AuthStrategy::ApiKey => AuthView::ApiKey,
            AuthStrategy::Header { name } => AuthView::Header(name@),
        }
    }
}

impl AuthView {
    /// The header that carries a credential.
    pub open spec fn header(self, key: Seq<char>) -> Option<(Seq<char>, Seq<char>)> {
        match self {
            AuthView::Absent => None,
            AuthView::Bearer => Some(("authorization"@, "Bearer "@ + key)),
            AuthView::ApiKey => Some(("x-api-key"@, key)),
            AuthView::Header(name) => Some((name, key)),
        }
    }
}

impl AuthStrategy {
    /// The header that carries a credential.
    pub fn credential_header(&self, key: &str) -> (r: Option<(String, String)>)
        ensures
            self@.header(key@) == (match r {
                Some((name, value)) => Some((name@, value@)),
                None => None,
            }),
    {
        match self {
            AuthStrategy::Absent => None,
            AuthStrategy::Bearer => Some(("authorization".to_owned(), cat("Bearer ", key))),
            AuthStrategy::ApiKey => Some(("x-api-key".to_owned(), key.to_owned())),
            AuthStrategy::Header { name } => Some((name.clone(), key.to_owned())),
        }
    }

    /// Whether no credential is sent.
    pub fn is_absent(&self) -> (r: bool)
        ensures
            r == (self@ is Absent),
    {
        matches!(self, AuthStrategy::Absent)
    }

    /// Another strategy with the same value.
    pub fn copy(&self) -> (r: AuthStrategy)
        ensures
            r@ == self@,
    {
        match self {
            AuthStrategy::Absent => AuthStrategy::Absent,
            AuthStrategy::Bearer => AuthStrategy::Bearer,
            AuthStrategy::ApiKey => AuthStrategy::ApiKey,
            AuthStrategy::Header { name } => AuthStrategy::Header { name: name.clone() },
        }
    }
}

/// What a model can take and give.
#[derive(Debug, Clone, Copy, PartialEq, Eq, Structural)]
pub struct ModelCapabilities {
    pub images: bool,
    pub files: bool,
    pub tools: bool,
    pub reasoning: bool,
    pub streaming: bool,
}

impl Default for ModelCapabilities {
    fn default() -> (r: ModelCapabilities)
        ensures
            r == (ModelCapabilities {
                images: false,
                files: false,
                tools: true,
                reasoning: false,
                streaming: true,
            }),
    {
        ModelCapabilities {
            images: false,
            files: false,
            tools: true,
            reasoning: false,
            streaming: true,
        }
    }
}

/// A model of a provider.
#[derive(Debug)]
pub struct CustomModel {
    pub logical_model_id: String,
    pub upstream_model_id: String,
    pub display_name: String,
    pub capabilities: ModelCapabilities,
    pub enabled: bool,
    pub context_window: Option<u64>,
    pub reasoning_levels: Vec<String>,
}

/// The model of a provider's model.
pub ghost struct ModelView {
    pub logical_model_id: Seq<char>,
    pub upstream_model_id: Seq<char>,
    pub display_name: Seq<char>,
    pub capabilities: ModelCapabilities,
    pub enabled: bool,
    pub context_window: Option<u64>,
    pub reasoning_levels: Seq<Seq<char>>,
}

impl View for CustomModel {
    type V = ModelView;

    open spec fn view(&self) -> ModelView {
        ModelView {
            logical_model_id: self.logical_model_id@,
            upstream_model_id: self.upstream_model_id@,
            display_name: self.display_name@,
            capabilities: self.capabilities,
            enabled: self.enabled,
            context_window: self.context_window,
            reasoning_levels: views(self.reasoning_levels@),
        }
    }
}

/// A model as it is first listed: under `provider/model`, enabled, with the default
/// capabilities.
pub open spec fn new_model(provider: Seq<char>, upstream: Seq<char>, display: Seq<char>) -> ModelView {
    ModelView {
        logical_model_id: provider + "/"@ + upstream,
        upstream_model_id: upstream,
        display_name: display,
        capabilities: ModelCapabilities {
            images: false,
            files: false,
            tools: true,
            reasoning: false,
            streaming: true,
        },
        enabled: true,
        context_window: None,
        reasoning_levels: Seq::empty(),
    }
}

/// Copies a list of strings.
pub fn copy_strings(s: &Vec<String>) -> (r: Vec<String>)
    ensures
        r@ == s@,
{
    let mut out: Vec<String> = Vec::new();
    let mut i: usize = 0;
    while i < s.len()
        invariant
            i <= s@.len(),
            out@ == s@.take(i as int),
        decreases s@.len() - i,
    {
        out.push(s[i].clone());
        assert(s@.take(i as int).push(s@[i as int]) =~= s@.take(i + 1));
        i = i + 1;
    }
    assert(s@.take(i as int) =~= s@);
    out
}

impl CustomModel {
    /// A model as it is first listed.
    pub fn new(provider_id: &str, upstream_model_id: &str, display_name: &str) -> (r: CustomModel)
        ensures
            r@ == new_model(provider_id@, upstream_model_id@, display_name@),
    {
        let r = CustomModel {
            logical_model_id: cat3(provider_id, "/", upstream_model_id),
            upstream_model_id: upstream_model_id.to_owned(),
            display_name: display_name.to_owned(),
            capabilities: ModelCapabilities::default(),
            enabled: true,
            context_window: None,
            reasoning_levels: Vec::new(),
        };
        assert(views(r.reasoning_levels@) =~= Seq::empty());
        r
    }

    /// Another model with the same value.
    pub fn copy(&self) -> (r: CustomModel)
        ensures
            r@ == self@,
    {
        CustomModel {
            logical_model_id: self.logical_model_id.clone(),
            upstream_model_id: self.upstream_model_id.clone(),
            display_name: self.display_name.clone(),
            capabilities: self.capabilities,
            enabled: self.enabled,
            context_window: self.context_window,
            reasoning_levels: copy_strings(&self.reasoning_levels),
        }
    }
}

/// The views of a list of models.
pub open spec fn model_views(models: Seq<CustomModel>) -> Seq<ModelView> {
    models.map_values(|m: CustomModel| m@)
}

/// The views of listed headers.
pub open spec fn pair_views(pairs: Seq<(String, String)>) -> Seq<(Seq<char>, Seq<char>)> {
    pairs.map_values(|p: (String, String)| (p.0@, p.1@))
}

/// A provider: its endpoint, how it is spoken to, and its models.
#[derive(Debug)]
pub struct ProviderConfig {
    pub id: String,
    pub name: String,
    pub base_url: String,
    pub protocol: ProviderProtocol,
    pub auth_strategy: AuthStrategy,
    pub static_headers: Vec<(String, String)>,
    pub credential_reference: String,
    pub model_discovery: bool,
    pub enabled: bool,
    pub models: Vec<CustomModel>,
}

/// The model of a provider.
pub ghost struct ProviderView {
    pub id: Seq<char>,
    pub name: Seq<char>,
    pub base_url: Seq<char>,
    pub protocol: ProviderProtocol,
    pub auth_strategy: AuthView,
    pub static_headers: Seq<(Seq<char>, Seq<char>)>,
    pub credential_reference: Seq<char>,
    pub model_discovery: bool,
    pub enabled: bool,
    pub models: Seq<ModelView>,
}

impl View for ProviderConfig {
    type V = ProviderView;

    open spec fn view(&self) -> ProviderView {
        ProviderView {
            id: self.id@,
            name: self.name@,
            base_url: self.base_url@,
            protocol: self.protocol,
            auth_strategy: self.auth_strategy@,
            static_headers: pair_views(self.static_headers@),
            credential_reference: self.credential_reference@,
            model_discovery: self.model_discovery,
            enabled: self.enabled,
            models: model_views(self.models@),
        }
    }
}

/// A provider as it is first listed: its id is its name in lower case, it is enabled,
/// speaks the Responses protocol and takes its key as a bearer.
pub open spec fn new_provider(name: Seq<char>, base_url: Seq<char>) -> ProviderView {
    ProviderView {
        id: lowered(name),
        name,
        base_url,
        protocol: ProviderProtocol::Responses,
        auth_strategy: AuthView::Bearer,
        static_headers: Seq::empty(),
        credential_reference: "provider:"@ + lowered(name),
        model_discovery: true,
        enabled: true,
        models: Seq::empty(),
    }
}

/// Copies a list of models.
pub fn copy_models(models: &Vec<CustomModel>) -> (r: Vec<CustomModel>)
    ensures
        model_views(r@) == model_views(models@),
{
    let mut out: Vec<CustomModel> = Vec::new();
    let mut i: usize = 0;
    while i < models.len()
        invariant
            i <= models@.len(),
            out@.len() == i,
            forall|j: int| 0 <= j < i ==> (#[trigger] out@[j])@ == models@[j]@,
        decreases models@.len() - i,
    {
        out.push(models[i].copy());
        i = i + 1;
    }
    assert(model_views(out@) =~= model_views(models@));
    out
}

/// Copies a list of pairs.
pub fn copy_pairs(pairs: &Vec<(String, String)>) -> (r: Vec<(String, String)>)
    ensures
        r@ == pairs@,
{
    let mut out: Vec<(String, String)> = Vec::new();
    let mut i: usize = 0;
    while i < pairs.len()
        invariant
            i <= pairs@.len(),
            out@ == pairs@.take(i as int),
        decreases pairs@.len() - i,
    {
        out.push((pairs[i].0.clone(), pairs[i].1.clone()));
        assert(pairs@.take(i as int).push(pairs@[i as int]) =~= pairs@.take(i + 1));
        i = i + 1;
    }
    assert(pairs@.take(i as int) =~= pairs@);
    out
}

impl ProviderConfig {
    /// A provider as it is first listed.
    pub fn new(name: &str, base_url: &str) -> (r: ProviderConfig)
        ensures
            r@ == new_provider(name@, base_url@),
    {
        let id = to_lower(name);
        let r = ProviderConfig {
            credential_reference: cat("provider:", &id),
            id,
            name: name.to_owned(),
            base_url: base_url.to_owned(),
            protocol: ProviderProtocol::Responses,
            auth_strategy: AuthStrategy::Bearer,
            static_headers: Vec::new(),
            model_discovery: true,
            enabled: true,
            models: Vec::new(),
        };
        assert(pair_views(r.static_headers@) =~= Seq::empty());
        assert(model_views(r.models@) =~= Seq::empty());
        r
    }

    /// Another provider with the same value.
    pub fn copy(&self) -> (r: ProviderConfig)
        ensures
            r@ == self@,
    {
        ProviderConfig {
            id: self.id.clone(),
            name: self.name.clone(),
            base_url: self.base_url.clone(),
            protocol: self.protocol,
            auth_strategy: self.auth_strategy.copy(),
            static_headers: copy_pairs(&self.static_headers),
            credential_reference: self.credential_reference.clone(),
            model_discovery: self.model_discovery,
            enabled: self.enabled,
            models: copy_models(&self.models),
        }
    }
}

/// The view of an optional provider.
pub open spec fn opt_provider(p: Option<&ProviderConfig>) -> Option<ProviderView> {
    match p {
        Some(p) => Some(p@),
        None => None,
    }
}

/// The views of a list of providers.
pub open spec fn provider_views(providers: Seq<ProviderConfig>) -> Seq<ProviderView> {
    providers.map_values(|p: ProviderConfig| p@)
}

/// The settings of the web panel.
#[derive(Debug)]
pub struct WebSecurity {
    pub web_enabled: bool,
    pub allow_remote: bool,
    pub password_hash: Option<String>,
    pub port: u16,
}

/// The model of the panel's settings.
pub ghost struct SecurityView {
    pub web_enabled: bool,
    pub allow_remote: bool,
    pub password_hash: Option<Seq<char>>,
    pub port: u16,
}

impl View for WebSecurity {
    type V = SecurityView;

    open spec fn view(&self) -> SecurityView {
        SecurityView {
            web_enabled: self.web_enabled,
            allow_remote: self.allow_remote,
            password_hash: opt_view(self.password_hash),
            port: self.port,
        }
    }
}

/// The registry.
#[derive(Debug)]
pub struct ProviderRegistry {
    pub generation: u64,
    pub official_model_ids: Vec<String>,
    pub providers: Vec<ProviderConfig>,
    pub web_security: WebSecurity,
}

/// The model of the registry.
pub ghost struct RegistryView {
    pub generation: u64,
    pub official_model_ids: Seq<Seq<char>>,
    pub providers: Seq<ProviderView>,
    pub web_security: SecurityView,
}

impl View for ProviderRegistry {
    type V = RegistryView;

    open spec fn view(&self) -> RegistryView {
        RegistryView {
            generation: self.generation,
            official_model_ids: views(self.official_model_ids@),
            providers: provider_views(self.providers@),
            web_security: self.web_security@,
        }
    }
}

/// Why the registry refuses an operation.
#[derive(Debug)]
pub enum CoreError {
    ProviderNotFound(String),
    ProviderExists(String),
    ModelNotFound(String),
    ModelExists(String),
    InvalidModelId(String),
    InvalidBaseUrl(String),
    Io(String),
}

/// The model of a refusal.
pub ghost enum CoreErrorView {
    ProviderNotFound(Seq<char>),
    ProviderExists(Seq<char>),
    ModelNotFound(Seq<char>),
    ModelExists(Seq<char>),
    InvalidModelId(Seq<char>),
    InvalidBaseUrl(Seq<char>),
    Io(Seq<char>),
}

impl View for CoreError {
    type V = CoreErrorView;

    open spec fn view(&self) -> CoreErrorView {
        match *self {
            CoreError::ProviderNotFound(s) => CoreErrorView::ProviderNotFound(s@),
            CoreError::ProviderExists(s) => CoreErrorView::ProviderExists(s@),
            CoreError::ModelNotFound(s) => CoreErrorView::ModelNotFound(s@),
            CoreError::ModelExists(s) => CoreErrorView::ModelExists(s@),
            CoreError::InvalidModelId(s) => CoreErrorView::InvalidModelId(s@),
            CoreError::InvalidBaseUrl(s) => CoreErrorView::InvalidBaseUrl(s@),
            CoreError::Io(s) => CoreErrorView::Io(s@),
        }
    }
}

impl CoreErrorView {
    /// The message that reports the refusal.
    pub open spec fn message(self) -> Seq<char> {
        match self {
            CoreErrorView::ProviderNotFound(s) => "provider `"@ + s + "` was not found"@,
            CoreErrorView::ProviderExists(s) => "provider `"@ + s + "` already exists"@,
            CoreErrorView::ModelNotFound(s) => "model `"@ + s + "` was not found"@,
            CoreErrorView::ModelExists(s) => "model `"@ + s + "` already exists"@,
            CoreErrorView::InvalidModelId(s) => "model id `"@ + s + "` is invalid"@,
            CoreErrorView::InvalidBaseUrl(s) => "base URL is invalid: "@ + s,
            CoreErrorView::Io(s) => "I/O error: "@ + s,
        }
    }
}

impl CoreError {
    /// The message that reports the refusal.
    pub fn message(&self) -> (r: String)
        ensures
            r@ == self@.message(),
    {
        match self {
            CoreError::ProviderNotFound(s) => cat3("provider `", s, "` was not found"),
            CoreError::ProviderExists(s) => cat3("provider `", s, "` already exists"),
            CoreError::ModelNotFound(s) => cat3("model `", s, "` was not found"),
            CoreError::ModelExists(s) => cat3("model `", s, "` already exists"),
            CoreError::InvalidModelId(s) => cat3("model id `", s, "` is invalid"),
            CoreError::InvalidBaseUrl(s) => cat("base URL is invalid: ", s),
            CoreError::Io(s) => cat("I/O error: ", s),
        }
    }
}

/// Providers of an id.
pub open spec fn with_id(id: Seq<char>) -> spec_fn(ProviderView) -> bool {
    |p: ProviderView| p.id == id
}

/// Models of a logical id.
pub open spec fn with_logical_id(id: Seq<char>) -> spec_fn(ModelView) -> bool {
    |m: ModelView| m.logical_model_id == id
}

/// Enabled models of a logical id.
pub open spec fn enabled_with_logical_id(id: Seq<char>) -> spec_fn(ModelView) -> bool {
    |m: ModelView| m.enabled && m.logical_model_id == id
}

/// Models of an upstream id.
pub open spec fn with_upstream_id(id: Seq<char>) -> spec_fn(ModelView) -> bool {
    |m: ModelView| m.upstream_model_id == id
}

/// Enabled providers with an enabled model of a logical id.
pub open spec fn offering(id: Seq<char>) -> spec_fn(ProviderView) -> bool {
    |p: ProviderView| p.enabled && any_where(p.models, enabled_with_logical_id(id))
}

/// Where a logical model id leads.
#[derive(Debug)]
pub enum LogicalModelRoute {
    Official { model_id: String },
    Custom {
        logical_model_id: String,
        provider_id: String,
        upstream_model_id: String,
        protocol: ProviderProtocol,
    },
}

/// The model of where a logical model id leads.
pub ghost enum RouteView {
    Official(Seq<char>),
    Custom {
        logical_model_id: Seq<char>,
        provider_id: Seq<char>,
        upstream_model_id: Seq<char>,
        protocol: ProviderProtocol,
    },
}

impl View for LogicalModelRoute {
    type V = RouteView;

    open spec fn view(&self) -> RouteView {
        match *self {
            LogicalModelRoute::Official { model_id } => RouteView::Official(model_id@),
            LogicalModelRoute::Custom {
                logical_model_id,
                provider_id,
                upstream_model_id,
                protocol,
            } => RouteView::Custom {
                logical_model_id: logical_model_id@,
                provider_id: provider_id@,
                upstream_model_id: upstream_model_id@,
                protocol,
            },
        }
    }
}

impl RegistryView {
    /// The provider of an id.
    pub open spec fn provider(self, id: Seq<char>) -> Option<ProviderView> {
        if any_where(self.providers, with_id(id)) {
            Some(self.providers[index_where(self.providers, with_id(id))])
        } else {
            None
        }
    }

    /// Where a logical model id leads: to the official backend where it is an official
    /// id, else to the first enabled provider that offers it; an unknown id is an
    /// error.
    pub open spec fn route(self, id: Seq<char>) -> Result<RouteView, CoreErrorView> {
        if self.official_model_ids.contains(id) {
            Ok(RouteView::Official(id))
        } else if any_where(self.providers, offering(id)) {
            let p = self.providers[index_where(self.providers, offering(id))];
            let m = p.models[index_where(p.models, enabled_with_logical_id(id))];
            Ok(
                RouteView::Custom {
                    logical_model_id: id,
                    provider_id: p.id,
                    upstream_model_id: m.upstream_model_id,
                    protocol: p.protocol,
                },
            )
        } else {
            Err(CoreErrorView::ModelNotFound(id))
        }
    }

    /// The registry in its next generation.
    pub open spec fn bumped(self) -> RegistryView {
        RegistryView { generation: next_generation(self.generation), ..self }
    }

    /// The registry with one provider replaced.
    pub open spec fn with_provider(self, i: int, p: ProviderView) -> RegistryView {
        RegistryView { providers: self.providers.update(i, p), ..self }
    }
}

/// The generation after another; it starts again at zero after the last.
pub open spec fn next_generation(g: u64) -> u64 {
    if g == u64::MAX {
        0
    } else {
        (g + 1) as u64
    }
}

/// The index of the first model for which the logical id fits, or the length.
pub fn model_index(models: &Vec<CustomModel>, id: &str) -> (r: usize)
    ensures
        r == index_where(model_views(models@), with_logical_id(id@)),
        r <= models@.len(),
{
    let mut i: usize = 0;
    while i < models.len()
        invariant
            i <= models@.len(),
            forall|j: int|
                0 <= j < i ==> !with_logical_id(id@)(#[trigger] model_views(models@)[j]),
        decreases models@.len() - i,
    {
        if str_eq(&models[i].logical_model_id, id) {
            proof {
                assert(with_logical_id(id@)(model_views(models@)[i as int]));
                index_where_is(model_views(models@), with_logical_id(id@), i as int);
            }
            return i;
        }
        i = i + 1;
    }
    proof {
        index_where_is(model_views(models@), with_logical_id(id@), i as int);
    }
    i
}

/// The index of the first enabled model of a logical id, or the length.
pub fn enabled_model_index(models: &Vec<CustomModel>, id: &str) -> (r: usize)
    ensures
        r == index_where(model_views(models@), enabled_with_logical_id(id@)),
        r <= models@.len(),
{
    let mut i: usize = 0;
    while i < models.len()
        invariant
            i <= models@.len(),
            forall|j: int|
                0 <= j < i ==> !enabled_with_logical_id(id@)(#[trigger] model_views(models@)[j]),
        decreases models@.len() - i,
    {
        if models[i].enabled && str_eq(&models[i].logical_model_id, id) {
            proof {
                assert(enabled_with_logical_id(id@)(model_views(models@)[i as int]));
                index_where_is(model_views(models@), enabled_with_logical_id(id@), i as int);
            }
            return i;
        }
        i = i + 1;
    }
    proof {
        index_where_is(model_views(models@), enabled_with_logical_id(id@), i as int);
    }
    i
}

/// Whether a model of an upstream id is listed.
pub fn lists_upstream(models: &Vec<CustomModel>, id: &str) -> (r: bool)
    ensures
        r == any_where(model_views(models@), with_upstream_id(id@)),
{
    let mut i: usize = 0;
    while i < models.len()
        invariant
            i <= models@.len(),
            forall|j: int|
                0 <= j < i ==> !with_upstream_id(id@)(#[trigger] model_views(models@)[j]),
        decreases models@.len() - i,
    {
        if str_eq(&models[i].upstream_model_id, id) {
            proof {
                assert(with_upstream_id(id@)(model_views(models@)[i as int]));
                index_where_is(model_views(models@), with_upstream_id(id@), i as int);
            }
            return true;
        }
        i = i + 1;
    }
    proof {
        index_where_is(model_views(models@), with_upstream_id(id@), i as int);
    }
    false
}

/// Whether a list of strings holds one.
pub fn holds(list: &Vec<String>, s: &str) -> (r: bool)
    ensures
        r == views(list@).contains(s@),
{
    let mut i: usize = 0;
    while i < list.len()
        invariant
            i <= list@.len(),
            forall|j: int| 0 <= j < i ==> #[trigger] views(list@)[j] != s@,
        decreases list@.len() - i,
    {
        if str_eq(&list[i], s) {
            assert(views(list@)[i as int] == s@);
            return true;
        }
        i = i + 1;
    }
    false
}

impl ProviderRegistry {
    /// A registry with nothing in it, in its first generation.
    pub fn empty(port: u16) -> (r: ProviderRegistry)
        ensures
            r@ == (RegistryView {
                generation: 1,
                official_model_ids: Seq::empty(),
                providers: Seq::empty(),
                web_security: SecurityView {
                    web_enabled: false,
                    allow_remote: false,
                    password_hash: None,
                    port,
                },
            }),
    {
        let r = ProviderRegistry {
            generation: 1,
            official_model_ids: Vec::new(),
            providers: Vec::new(),
            web_security: WebSecurity {
                web_enabled: false,
                allow_remote: false,
                password_hash: None,
                port,
            },
        };
        assert(views(r.official_model_ids@) =~= Seq::empty());
        assert(provider_views(r.providers@) =~= Seq::empty());
        r
    }

    /// The index of the provider of an id, or the number of providers.
    pub fn provider_index(&self, id: &str) -> (r: usize)
        ensures
            r == index_where(self@.providers, with_id(id@)),
            r <= self.providers@.len(),
    {
        let mut i: usize = 0;
        while i < self.providers.len()
            invariant
                i <= self.providers@.len(),
                forall|j: int| 0 <= j < i ==> !with_id(id@)(#[trigger] self@.providers[j]),
            decreases self.providers@.len() - i,
        {
            if str_eq(&self.providers[i].id, id) {
                proof {
                    assert(with_id(id@)(self@.providers[i as int]));
                    index_where_is(self@.providers, with_id(id@), i as int);
                }
                return i;
            }
            i = i + 1;
        }
        proof {
            index_where_is(self@.providers, with_id(id@), i as int);
        }
        i
    }

    /// The provider of an id.
    pub fn provider(&self, id: &str) -> (r: Option<&ProviderConfig>)
        ensures
            opt_provider(r) == self@.provider(id@),
    {
        let i = self.provider_index(id);
        if i < self.providers.len() {
            Some(&self.providers[i])
        } else {
            None
        }
    }

    /// Where a logical model id leads.
    pub fn resolve_logical_model_route(&self, id: &str) -> (r: Result<LogicalModelRoute, CoreError>)
        ensures
            self@.route(id@) == (match r {
                Ok(route) => Ok(route@),
                Err(e) => Err(e@),
            }),
    {
        if holds(&self.official_model_ids, id) {
            return Ok(LogicalModelRoute::Official { model_id: id.to_owned() });
        }
        let mut i: usize = 0;
        while i < self.providers.len()
            invariant
                i <= self.providers@.len(),
                !self@.official_model_ids.contains(id@),
                forall|j: int| 0 <= j < i ==> !offering(id@)(#[trigger] self@.providers[j]),
            decreases self.providers@.len() - i,
        {
            let p = &self.providers[i];
            let m = enabled_model_index(&p.models, id);
            assert(self@.providers[i as int] == p@);
            assert(p@.models == model_views(p.models@));
            if p.enabled && m < p.models.len() {
                proof {
                    assert(any_where(p@.models, enabled_with_logical_id(id@)));
                    assert(offering(id@)(self@.providers[i as int]));
                    index_where_is(self@.providers, offering(id@), i as int);
                }
                assert(p@.models[m as int] == p.models@[m as int]@);
                return Ok(
                    LogicalModelRoute::Custom {
                        logical_model_id: id.to_owned(),
                        provider_id: p.id.clone(),
                        upstream_model_id: p.models[m].upstream_model_id.clone(),
                        protocol: p.protocol,
                    },
                );
            }
            assert(!offering(id@)(self@.providers[i as int]));
            i = i + 1;
        }
        proof {
            index_where_is(self@.providers, offering(id@), i as int);
        }
        Err(CoreError::ModelNotFound(id.to_owned()))
    }
}

/// A model that is neither an official id nor offered by an enabled provider leads
/// nowhere: it is an error and never a silent route.
pub proof fn unknown_models_are_errors(r: RegistryView, id: Seq<char>)
    requires
        !r.official_model_ids.contains(id),
        forall|i: int, j: int|
            0 <= i < r.providers.len() && 0 <= j < r.providers[i].models.len()
                && r.providers[i].enabled && r.providers[i].models[j].enabled
                ==> (#[trigger] r.providers[i].models[j]).logical_model_id != id,
    ensures
        r.route(id) == Err::<RouteView, CoreErrorView>(CoreErrorView::ModelNotFound(id)),
{
    let i = index_where(r.providers, offering(id));
    index_where_bounds(r.providers, offering(id));
    if i < r.providers.len() {
        let p = r.providers[i];
        assert(offering(id)(p));
        index_where_bounds(p.models, enabled_with_logical_id(id));
        let j = index_where(p.models, enabled_with_logical_id(id));
        assert(r.providers[i].models[j].logical_model_id == id);
    }
}

/// A custom route leads to an enabled provider and an enabled model of the requested
/// id, and speaks the provider's protocol.
pub proof fn custom_routes_are_enabled(r: RegistryView, id: Seq<char>)
    requires
        r.route(id) is Ok,
        r.route(id)->Ok_0 is Custom,
    ensures
        r.route(id)->Ok_0->logical_model_id == id,
        exists|i: int, j: int|
            {
                &&& 0 <= i < r.providers.len()
                &&& 0 <= j < r.providers[i].models.len()
                &&& r.providers[i].enabled
                &&& r.providers[i].models[j].enabled
                &&& (#[trigger] r.providers[i].models[j]).logical_model_id == id
                &&& r.providers[i].models[j].upstream_model_id
                    == r.route(id)->Ok_0->upstream_model_id
                &&& r.providers[i].id == r.route(id)->Ok_0->provider_id
                &&& r.providers[i].protocol == r.route(id)->Ok_0->protocol
            },
{
    let i = index_where(r.providers, offering(id));
    index_where_bounds(r.providers, offering(id));
    let p = r.providers[i];
    assert(offering(id)(p));
    index_where_bounds(p.models, enabled_with_logical_id(id));
    let j = index_where(p.models, enabled_with_logical_id(id));
    assert(r.providers[i].models[j].logical_model_id == id);
}

/// Where a model is listed: the index of its provider and its index there. The part of
/// its id before the first slash names the provider.
pub open spec fn place_of(r: RegistryView, id: Seq<char>) -> Result<(int, int), CoreErrorView> {
    let cut = first_index(id, '/');
    if cut >= id.len() {
        Err(CoreErrorView::InvalidModelId(id))
    } else if !any_where(r.providers, with_id(id.take(cut))) {
        Err(CoreErrorView::ProviderNotFound(id.take(cut)))
    } else {
        let p = index_where(r.providers, with_id(id.take(cut)));
        if any_where(r.providers[p].models, with_logical_id(id)) {
            Ok((p, index_where(r.providers[p].models, with_logical_id(id))))
        } else {
            Err(CoreErrorView::ModelNotFound(id))
        }
    }
}

impl ProviderView {
    /// The provider with one model replaced.
    pub open spec fn with_model(self, i: int, m: ModelView) -> ProviderView {
        ProviderView { models: self.models.update(i, m), ..self }
    }
}

/// An edit of a model: what is to be changed.
#[derive(Debug)]
pub struct ModelEdit {
    pub display_name: Option<String>,
    pub context_window: Option<Option<u64>>,
}

impl ModelView {
    /// The model after an edit.
    pub open spec fn edited(
        self,
        display_name: Option<Seq<char>>,
        context_window: Option<Option<u64>>,
    ) -> ModelView {
        ModelView {
            display_name: match display_name {
                Some(name) => name,
                None => self.display_name,
            },
            context_window: match context_window {
                Some(w) => w,
                None => self.context_window,
            },
            ..self
        }
    }
}

impl RegistryView {
    /// The registry with a provider added.
    pub open spec fn with_new_provider(self, p: ProviderView) -> Result<RegistryView, CoreErrorView> {
        if any_where(self.providers, with_id(p.id)) {
            Err(CoreErrorView::ProviderExists(p.id))
        } else {
            Ok(RegistryView { providers: self.providers.push(p), ..self }.bumped())
        }
    }

    /// The registry without a provider.
    pub open spec fn without_provider(self, id: Seq<char>) -> Result<RegistryView, CoreErrorView> {
        if any_where(self.providers, with_id(id)) {
            Ok(
                RegistryView {
                    providers: self.providers.remove(index_where(self.providers, with_id(id))),
                    ..self
                }.bumped(),
            )
        } else {
            Err(CoreErrorView::ProviderNotFound(id))
        }
    }

    /// The registry with a model added to the provider that its id names.
    pub open spec fn with_new_model(self, m: ModelView) -> Result<RegistryView, CoreErrorView> {
        match place_of(self, m.logical_model_id) {
            Ok(_) => Err(CoreErrorView::ModelExists(m.logical_model_id)),
            Err(CoreErrorView::ModelNotFound(_)) => {
                let p = index_where(
                    self.providers,
                    with_id(m.logical_model_id.take(first_index(m.logical_model_id, '/'))),
                );
                let provider = self.providers[p];
                Ok(
                    self.with_provider(
                        p,
                        ProviderView { models: provider.models.push(m), ..provider },
                    ).bumped(),
                )
            },
            Err(e) => Err(e),
        }
    }

    /// The registry with one model replaced.
    pub open spec fn with_model_at(self, place: (int, int), m: ModelView) -> RegistryView {
        self.with_provider(place.0, self.providers[place.0].with_model(place.1, m))
    }

    /// The registry without a model.
    pub open spec fn without_model(self, id: Seq<char>) -> Result<RegistryView, CoreErrorView> {
        match place_of(self, id) {
            Err(e) => Err(e),
            Ok((p, m)) => {
                let provider = self.providers[p];
                Ok(
                    self.with_provider(
                        p,
                        ProviderView { models: provider.models.remove(m), ..provider },
                    ).bumped(),
                )
            },
        }
    }

    /// The registry with a model switched on or off.
    pub open spec fn with_model_switched(self, id: Seq<char>, enabled: bool) -> Result<
        RegistryView,
        CoreErrorView,
    > {
        match place_of(self, id) {
            Err(e) => Err(e),
            Ok((p, m)) => Ok(
                self.with_model_at(
                    (p, m),
                    ModelView { enabled, ..self.providers[p].models[m] },
                ).bumped(),
            ),
        }
    }

    /// The registry after an edit of a model.
    pub open spec fn with_model_edited(
        self,
        id: Seq<char>,
        display_name: Option<Seq<char>>,
        context_window: Option<Option<u64>>,
    ) -> Result<RegistryView, CoreErrorView> {
        match place_of(self, id) {
            Err(e) => Err(e),
            Ok((p, m)) => Ok(
                self.with_model_at(
                    (p, m),
                    self.providers[p].models[m].edited(display_name, context_window),
                ).bumped(),
            ),
        }
    }
}

impl ProviderRegistry {
    /// Moves the registry to its next generation.
    pub fn bump_generation(&mut self)
        ensures
            final(self)@ == old(self)@.bumped(),
    {
        self.generation = if self.generation == u64::MAX {
            0
        } else {
            self.generation + 1
        };
    }

    /// Replaces one provider.
    pub(crate) fn put_provider(&mut self, i: usize, p: ProviderConfig)
        requires
            i < old(self).providers@.len(),
        ensures
            final(self)@ == old(self)@.with_provider(i as int, p@),
    {
        let ghost before = self@.providers;
        self.providers.set(i, p);
        assert(self@.providers =~= before.update(i as int, p@));
    }

    /// Where a model is listed.
    pub fn find_model(&self, id: &str) -> (r: Result<(usize, usize), CoreError>)
        ensures
            place_of(self@, id@) == (match r {
                Ok((p, m)) => Ok((p as int, m as int)),
                Err(e) => Err(e@),
            }),
            r is Ok ==> r->Ok_0.0 < self.providers@.len() && r->Ok_0.1
                < self.providers@[r->Ok_0.0 as int].models@.len(),
    {
        let provider = match split_once(id, '/') {
            Some((provider, _)) => provider,
            None => return Err(CoreError::InvalidModelId(id.to_owned())),
        };
        let p = self.provider_index(&provider);
        if p >= self.providers.len() {
            return Err(CoreError::ProviderNotFound(provider));
        }
        assert(self@.providers[p as int] == self.providers@[p as int]@);
        let m = model_index(&self.providers[p].models, id);
        if m >= self.providers[p].models.len() {
            return Err(CoreError::ModelNotFound(id.to_owned()));
        }
        Ok((p, m))
    }

    /// Adds a provider.
    pub fn add_provider(&mut self, provider: ProviderConfig) -> (r: Result<(), CoreError>)
        ensures
            match old(self)@.with_new_provider(provider@) {
                Ok(after) => r is Ok && final(self)@ == after,
                Err(e) => r is Err && r->Err_0@ == e && *final(self) == *old(self),
            },
    {
        let i = self.provider_index(&provider.id);
        if i < self.providers.len() {
            return Err(CoreError::ProviderExists(provider.id));
        }
        let ghost before = self@.providers;
        self.providers.push(provider);
        assert(self@.providers =~= before.push(provider@));
        self.bump_generation();
        Ok(())
    }

    /// Removes a provider and hands it out.
    pub fn remove_provider(&mut self, id: &str) -> (r: Result<ProviderConfig, CoreError>)
        ensures
            match old(self)@.without_provider(id@) {
                Ok(after) => {
                    &&& r is Ok
                    &&& old(self)@.provider(id@) == Some(r->Ok_0@)
                    &&& final(self)@ == after
                },
                Err(e) => r is Err && r->Err_0@ == e && *final(self) == *old(self),
            },
    {
        let i = self.provider_index(id);
        if i >= self.providers.len() {
            return Err(CoreError::ProviderNotFound(id.to_owned()));
        }
        let ghost before = self@.providers;
        let gone = self.providers.remove(i);
        assert(self@.providers =~= before.remove(i as int));
        self.bump_generation();
        Ok(gone)
    }

    /// Adds a model to the provider that its id names.
    pub fn add_model(&mut self, model: CustomModel) -> (r: Result<(), CoreError>)
        ensures
            match old(self)@.with_new_model(model@) {
                Ok(after) => r is Ok && final(self)@ == after,
                Err(e) => r is Err && r->Err_0@ == e && *final(self) == *old(self),
            },
    {
        match self.find_model(&model.logical_model_id) {
            Ok(_) => Err(CoreError::ModelExists(model.logical_model_id)),
            Err(CoreError::ModelNotFound(_)) => {
                let provider = match split_once(&model.logical_model_id, '/') {
                    Some((provider, _)) => provider,
                    None => return Err(CoreError::InvalidModelId(model.logical_model_id)),
                };
                let p = self.provider_index(&provider);
                let mut changed = self.providers[p].copy();
                let ghost before = model_views(changed.models@);
                changed.models.push(model);
                assert(model_views(changed.models@) =~= before.push(model@));
                self.put_provider(p, changed);
                self.bump_generation();
                Ok(())
            },
            Err(e) => Err(e),
        }
    }

    /// Changes the name or the context window of a model.
    pub fn edit_model(&mut self, id: &str, edit: ModelEdit) -> (r: Result<(), CoreError>)
        ensures
            match old(self)@.with_model_edited(
                id@,
                opt_view(edit.display_name),
                edit.context_window,
            ) {
                Ok(after) => r is Ok && final(self)@ == after,
                Err(e) => r is Err && r->Err_0@ == e && *final(self) == *old(self),
            },
    {
        let (p, m) = match self.find_model(id) {
            Ok(place) => place,
            Err(e) => return Err(e),
        };
        let mut changed = self.providers[p].models[m].copy();
        if let Some(name) = edit.display_name {
            changed.display_name = name;
        }
        if let Some(window) = edit.context_window {
            changed.context_window = window;
        }
        self.put_model(p, m, changed);
        self.bump_generation();
        Ok(())
    }

    /// Replaces one model.
    pub(crate) fn put_model(&mut self, p: usize, m: usize, model: CustomModel)
        requires
            p < old(self).providers@.len(),
            m < old(self).providers@[p as int].models@.len(),
        ensures
            final(self)@ == old(self)@.with_model_at((p as int, m as int), model@),
    {
        assert(self@.providers[p as int] == self.providers@[p as int]@);
        let mut provider = self.providers[p].copy();
        let ghost before = model_views(provider.models@);
        assert(before.len() == provider.models@.len());
        assert(self@.providers[p as int].models == before);
        assert(model_views(self.providers@[p as int].models@).len()
            == self.providers@[p as int].models@.len());
        provider.models.set(m, model);
        assert(model_views(provider.models@) =~= before.update(m as int, model@));
        self.put_provider(p, provider);
    }

    /// Removes a model.
    pub fn remove_model(&mut self, id: &str) -> (r: Result<(), CoreError>)
        ensures
            match old(self)@.without_model(id@) {
                Ok(after) => r is Ok && final(self)@ == after,
                Err(e) => r is Err && r->Err_0@ == e && *final(self) == *old(self),
            },
    {
        let (p, m) = match self.find_model(id) {
            Ok(place) => place,
            Err(e) => return Err(e),
        };
        assert(self@.providers[p as int] == self.providers@[p as int]@);
        let mut provider = self.providers[p].copy();
        let ghost before = model_views(provider.models@);
        assert(model_views(self.providers@[p as int].models@).len()
            == self.providers@[p as int].models@.len());
        assert(before.len() == provider.models@.len());
        let _gone = provider.models.remove(m);
        assert(model_views(provider.models@) =~= before.remove(m as int));
        self.put_provider(p, provider);
        self.bump_generation();
        Ok(())
    }

    /// Another registry with the same value.
    pub fn copy(&self) -> (r: ProviderRegistry)
        ensures
            r@ == self@,
    {
        let mut providers: Vec<ProviderConfig> = Vec::new();
        let mut i: usize = 0;
        while i < self.providers.len()
            invariant
                i <= self.providers@.len(),
                providers@.len() == i,
                forall|j: int| 0 <= j < i ==> (#[trigger] providers@[j])@ == self.providers@[j]@,
            decreases self.providers@.len() - i,
        {
            providers.push(self.providers[i].copy());
            i = i + 1;
        }
        assert(provider_views(providers@) =~= provider_views(self.providers@));
        ProviderRegistry {
            generation: self.generation,
            official_model_ids: copy_strings(&self.official_model_ids),
            providers,
            web_security: WebSecurity {
                web_enabled: self.web_security.web_enabled,
                allow_remote: self.web_security.allow_remote,
                password_hash: self.web_security.password_hash.clone(),
                port: self.web_security.port,
            },
        }
    }

    /// Replaces the official model ids.
    pub fn set_official_model_ids(&mut self, ids: Vec<String>)
        ensures
            final(self)@ == (RegistryView { official_model_ids: views(ids@), ..old(self)@ }).bumped(),
    {
        self.official_model_ids = ids;
        self.bump_generation();
    }
}

/// A generation is never the one before it.
pub proof fn generations_move(g: u64)
    ensures
        next_generation(g) != g,
        g < u64::MAX ==> next_generation(g) == g + 1,
{
}

/// The model that a logical id names: the part before the first slash names the provider,
/// and the whole id the model among those of that provider.
pub open spec fn model_of(r: RegistryView, id: Seq<char>) -> Option<ModelView> {
    if !id.contains('/') {
        None
    } else {
        match r.provider(id.take(first_index(id, '/'))) {
            Some(p) => found(p.models, with_logical_id(id)),
            None => None,
        }
    }
}

/// Where a model stands and which model an id names go together; an id that names none is
/// reported as without a slash, of an unknown provider, or not found.
pub proof fn places_hold_their_models(r: RegistryView, id: Seq<char>)
    ensures
        match place_of(r, id) {
            Ok((p, m)) => {
                &&& 0 <= p < r.providers.len()
                &&& 0 <= m < r.providers[p].models.len()
                &&& model_of(r, id) == Some(r.providers[p].models[m])
                &&& r.providers[p].models[m].logical_model_id == id
                &&& r.provider(r.providers[p].id) == Some(r.providers[p])
                &&& r.providers[p].id.len() < id.len()
                &&& id[r.providers[p].id.len() as int] == '/'
                &&& r.providers[p].id == id.take(r.providers[p].id.len() as int)
            },
            Err(e) => {
                &&& model_of(r, id) is None
                &&& if !id.contains('/') {
                    e == CoreErrorView::InvalidModelId(id)
                } else if r.provider(id.take(first_index(id, '/'))) is None {
                    e == CoreErrorView::ProviderNotFound(id.take(first_index(id, '/')))
                } else {
                    e == CoreErrorView::ModelNotFound(id)
                }
            },
        },
{
    first_index_is(id, '/');
    let cut = first_index(id, '/');
    if cut < id.len() {
        assert(id.contains('/'));
        index_where_bounds(r.providers, with_id(id.take(cut)));
        let p = index_where(r.providers, with_id(id.take(cut)));
        if p < r.providers.len() {
            assert(with_id(id.take(cut))(r.providers[p]));
            index_where_bounds(r.providers[p].models, with_logical_id(id));
        }
    }
}

/// A provider is found under its id alone.
pub proof fn providers_are_found_by_id(r: RegistryView, id: Seq<char>)
    ensures
        match r.provider(id) {
            Some(p) => p.id == id && r.providers.contains(p),
            None => forall|i: int| 0 <= i < r.providers.len() ==> (#[trigger] r.providers[i]).id != id,
        },
{
    found_is_first(r.providers, with_id(id));
    index_where_bounds(r.providers, with_id(id));
    if r.provider(id) is None {
        assert forall|i: int| 0 <= i < r.providers.len() implies (#[trigger] r.providers[i]).id
            != id by {
            assert(!with_id(id)(r.providers[i]));
        }
    }
}

/// A provider that was added is found under its id and no other provider is touched; it is
/// refused where its id is taken.
pub proof fn added_providers_are_found(r: RegistryView, p: ProviderView, id: Seq<char>)
    ensures
        match r.with_new_provider(p) {
            Ok(after) => {
                &&& r.provider(p.id) is None
                &&& after.provider(p.id) == Some(p)
                &&& id != p.id ==> after.provider(id) == r.provider(id)
                &&& after.official_model_ids == r.official_model_ids
                &&& after.web_security == r.web_security
            },
            Err(e) => r.provider(p.id) is Some && e == CoreErrorView::ProviderExists(p.id),
        },
{
    found_after_push(r.providers, p, with_id(p.id));
    found_after_push(r.providers, p, with_id(id));
}

/// A provider that was removed is found no more, unless another has its id, and no other
/// provider is touched.
pub proof fn removed_providers_are_gone(r: RegistryView, id: Seq<char>, other: Seq<char>)
    ensures
        match r.without_provider(id) {
            Ok(after) => {
                &&& r.provider(id) is Some
                &&& after.providers.len() == r.providers.len() - 1
                &&& other != id ==> after.provider(other) == r.provider(other)
                &&& (forall|i: int, j: int|
                    0 <= i < j < r.providers.len() ==> (#[trigger] r.providers[i]).id != (
                    #[trigger] r.providers[j]).id) ==> after.provider(id) is None
                &&& after.official_model_ids == r.official_model_ids
                &&& after.web_security == r.web_security
            },
            Err(e) => r.provider(id) is None && e == CoreErrorView::ProviderNotFound(id),
        },
{
    index_where_bounds(r.providers, with_id(id));
    let k = index_where(r.providers, with_id(id));
    if k < r.providers.len() {
        if other != id {
            found_after_remove(r.providers, k, with_id(other));
        }
        let t = r.providers.remove(k);
        found_is_first(t, with_id(id));
        if (forall|i: int, j: int|
            0 <= i < j < r.providers.len() ==> (#[trigger] r.providers[i]).id != (
            #[trigger] r.providers[j]).id) && found(t, with_id(id)) is Some {
            index_where_bounds(t, with_id(id));
            let i = index_where(t, with_id(id));
            assert(with_id(id)(t[i]));
            if i < k {
                assert(t[i] == r.providers[i]);
            } else {
                assert(t[i] == r.providers[i + 1]);
            }
        }
    }
}

proof fn changed_provider_is_found(r: RegistryView, p: int, now: ProviderView, id: Seq<char>)
    requires
        0 <= p < r.providers.len(),
        now.id == r.providers[p].id,
    ensures
        r.with_provider(p, now).bumped().provider(id) == (if index_where(r.providers, with_id(id))
            == p {
            Some(now)
        } else {
            r.provider(id)
        }),
{
    found_after_update(r.providers, p, now, with_id(id));
}

/// A model that was added is found under its id, and every other id names what it named; it
/// is refused where its id is taken, has no slash, or names an unknown provider.
pub proof fn added_models_are_found(r: RegistryView, m: ModelView, id: Seq<char>)
    ensures
        match r.with_new_model(m) {
            Ok(after) => {
                &&& model_of(r, m.logical_model_id) is None
                &&& model_of(after, m.logical_model_id) == Some(m)
                &&& id != m.logical_model_id ==> model_of(after, id) == model_of(r, id)
                &&& after.official_model_ids == r.official_model_ids
                &&& after.web_security == r.web_security
            },
            Err(e) => {
                &&& model_of(r, m.logical_model_id) is Some ==> e == CoreErrorView::ModelExists(
                    m.logical_model_id,
                )
                &&& model_of(r, m.logical_model_id) is None ==> !m.logical_model_id.contains('/')
                    || r.provider(
                    m.logical_model_id.take(first_index(m.logical_model_id, '/')),
                ) is None
            },
        },
{
    let own = m.logical_model_id;
    places_hold_their_models(r, own);
    first_index_is(own, '/');
    first_index_is(id, '/');
    if r.with_new_model(m) is Ok {
        let prefix = own.take(first_index(own, '/'));
        let p = index_where(r.providers, with_id(prefix));
        index_where_bounds(r.providers, with_id(prefix));
        let was = r.providers[p];
        assert(with_id(prefix)(was));
        let now = ProviderView { models: was.models.push(m), ..was };
        changed_provider_is_found(r, p, now, prefix);
        changed_provider_is_found(r, p, now, id.take(first_index(id, '/')));
        index_where_bounds(r.providers, with_id(id.take(first_index(id, '/'))));
        found_after_push(was.models, m, with_logical_id(own));
        found_after_push(was.models, m, with_logical_id(id));
    }
}

/// A model that was removed is found no more, unless the provider lists another of its id,
/// and every other id names what it named.
pub proof fn removed_models_are_gone(r: RegistryView, id: Seq<char>, other: Seq<char>)
    ensures
        match r.without_model(id) {
            Ok(after) => {
                &&& model_of(r, id) is Some
                &&& other != id ==> model_of(after, other) == model_of(r, other)
                &&& ({
                    let p = r.provider(id.take(first_index(id, '/')))->0;
                    forall|i: int, j: int|
                        0 <= i < j < p.models.len() ==> (#[trigger] p.models[i]).logical_model_id != (
                        #[trigger] p.models[j]).logical_model_id
                }) ==> model_of(after, id) is None
                &&& after.official_model_ids == r.official_model_ids
                &&& after.web_security == r.web_security
            },
            Err(_) => model_of(r, id) is None,
        },
{
    places_hold_their_models(r, id);
    first_index_is(id, '/');
    first_index_is(other, '/');
    if r.without_model(id) is Ok {
        let (p, m) = place_of(r, id)->Ok_0;
        let prefix = id.take(first_index(id, '/'));
        index_where_bounds(r.providers, with_id(prefix));
        let was = r.providers[p];
        assert(with_id(prefix)(was));
        let now = ProviderView { models: was.models.remove(m), ..was };
        changed_provider_is_found(r, p, now, prefix);
        changed_provider_is_found(r, p, now, other.take(first_index(other, '/')));
        index_where_bounds(r.providers, with_id(other.take(first_index(other, '/'))));
        if other != id {
            found_after_remove(was.models, m, with_logical_id(other));
        }
        let t = was.models.remove(m);
        found_is_first(t, with_logical_id(id));
        if found(t, with_logical_id(id)) is Some {
            index_where_bounds(t, with_logical_id(id));
            let i = index_where(t, with_logical_id(id));
            assert(with_logical_id(id)(t[i]));
            if i < m {
                assert(t[i] == was.models[i]);
            } else {
                assert(t[i] == was.models[i + 1]);
            }
        }
    }
}

proof fn changed_model_is_found(r: RegistryView, id: Seq<char>, now: ModelView, other: Seq<char>)
    requires
        place_of(r, id) is Ok,
        now.logical_model_id == id,
    ensures
        ({
            let after = r.with_model_at(place_of(r, id)->Ok_0, now).bumped();
            &&& model_of(after, id) == Some(now)
            &&& other != id ==> model_of(after, other) == model_of(r, other)
            &&& after.official_model_ids == r.official_model_ids
            &&& after.web_security == r.web_security
        }),
{
    places_hold_their_models(r, id);
    first_index_is(id, '/');
    first_index_is(other, '/');
    let (p, m) = place_of(r, id)->Ok_0;
    let prefix = id.take(first_index(id, '/'));
    index_where_bounds(r.providers, with_id(prefix));
    let was = r.providers[p];
    assert(with_id(prefix)(was));
    let changed = was.with_model(m, now);
    changed_provider_is_found(r, p, changed, prefix);
    changed_provider_is_found(r, p, changed, other.take(first_index(other, '/')));
    index_where_bounds(r.providers, with_id(other.take(first_index(other, '/'))));
    found_after_update(was.models, m, now, with_logical_id(id));
    if other != id {
        found_after_update(was.models, m, now, with_logical_id(other));
        index_where_bounds(was.models, with_logical_id(other));
    }
}

/// An edit of a model changes its name and its context window where they are given, and
/// nothing else of it; every other id names what it named.
pub proof fn edited_models_keep_the_rest(
    r: RegistryView,
    id: Seq<char>,
    display_name: Option<Seq<char>>,
    context_window: Option<Option<u64>>,
    other: Seq<char>,
)
    ensures
        match r.with_model_edited(id, display_name, context_window) {
            Ok(after) => {
                let was = model_of(r, id)->0;
                let now = model_of(after, id)->0;
                &&& model_of(r, id) is Some
                &&& model_of(after, id) is Some
                &&& display_name is Some ==> now.display_name == display_name->0
                &&& display_name is None ==> now.display_name == was.display_name
                &&& context_window is Some ==> now.context_window == context_window->0
                &&& context_window is None ==> now.context_window == was.context_window
                &&& now.logical_model_id == id
                &&& now.upstream_model_id == was.upstream_model_id
                &&& now.capabilities == was.capabilities
                &&& now.enabled == was.enabled
                &&& now.reasoning_levels == was.reasoning_levels
                &&& other != id ==> model_of(after, other) == model_of(r, other)
            },
            Err(_) => model_of(r, id) is None,
        },
{
    places_hold_their_models(r, id);
    if place_of(r, id) is Ok {
        let (p, m) = place_of(r, id)->Ok_0;
        changed_model_is_found(
            r,
            id,
            r.providers[p].models[m].edited(display_name, context_window),
            other,
        );
    }
}

/// Switching a model on or off changes that alone; every other id names what it named.
pub proof fn switched_models_keep_the_rest(
    r: RegistryView,
    id: Seq<char>,
    enabled: bool,
    other: Seq<char>,
)
    ensures
        match r.with_model_switched(id, enabled) {
            Ok(after) => {
                let was = model_of(r, id)->0;
                let now = model_of(after, id)->0;
                &&& model_of(r, id) is Some
                &&& model_of(after, id) is Some
                &&& now.enabled == enabled
                &&& now.logical_model_id == id
                &&& now.upstream_model_id == was.upstream_model_id
                &&& now.display_name == was.display_name
                &&& now.context_window == was.context_window
                &&& now.capabilities == was.capabilities
                &&& now.reasoning_levels == was.reasoning_levels
                &&& other != id ==> model_of(after, other) == model_of(r, other)
                &&& after.generation != r.generation
            },
            Err(_) => model_of(r, id) is None,
        },
{
    places_hold_their_models(r, id);
    if place_of(r, id) is Ok {
        let (p, m) = place_of(r, id)->Ok_0;
        let changed = ModelView { enabled, ..r.providers[p].models[m] };
        changed_model_is_found(r, id, changed, other);
    }
}

/// An official id leads to the official backend, whatever the providers offer.
pub proof fn official_ids_come_first(r: RegistryView, id: Seq<char>)
    ensures
        r.official_model_ids.contains(id) <==> r.route(id) is Ok && r.route(id)->Ok_0 is Official,
        r.official_model_ids.contains(id) ==> r.route(id)->Ok_0->Official_0 == id,
{
}

/// A model that is on, of a provider that is on, is reached under its id and no other: the
/// route leads to the first such provider and to its first such model.
pub proof fn offered_models_are_reached(r: RegistryView, id: Seq<char>, i: int, j: int)
    requires
        !r.official_model_ids.contains(id),
        0 <= i < r.providers.len(),
        0 <= j < r.providers[i].models.len(),
        r.providers[i].enabled,
        r.providers[i].models[j].enabled,
        r.providers[i].models[j].logical_model_id == id,
        forall|a: int, b: int|
            0 <= a < i && 0 <= b < r.providers[a].models.len() && r.providers[a].enabled
                && r.providers[a].models[b].enabled ==> (
            #[trigger] r.providers[a].models[b]).logical_model_id != id,
        forall|b: int|
            0 <= b < j && r.providers[i].models[b].enabled ==> (
            #[trigger] r.providers[i].models[b]).logical_model_id != id,
    ensures
        r.route(id) == Ok::<RouteView, CoreErrorView>(
            RouteView::Custom {
                logical_model_id: id,
                provider_id: r.providers[i].id,
                upstream_model_id: r.providers[i].models[j].upstream_model_id,
                protocol: r.providers[i].protocol,
            },
        ),
{
    assert forall|b: int| 0 <= b < j implies !enabled_with_logical_id(id)(
        #[trigger] r.providers[i].models[b],
    ) by {}
    index_where_is(r.providers[i].models, enabled_with_logical_id(id), j);
    assert(offering(id)(r.providers[i]));
    assert forall|a: int| 0 <= a < i implies !offering(id)(#[trigger] r.providers[a]) by {
        index_where_bounds(r.providers[a].models, enabled_with_logical_id(id));
        if r.providers[a].enabled && any_where(r.providers[a].models, enabled_with_logical_id(id)) {
            let b = index_where(r.providers[a].models, enabled_with_logical_id(id));
            assert(enabled_with_logical_id(id)(r.providers[a].models[b]));
            assert(r.providers[a].models[b].logical_model_id == id);
        }
    }
    index_where_is(r.providers, offering(id), i);
}

/// A new model is on, and its logical id is its upstream id below its provider's. A new
/// provider is on, has no models, and keeps its credential under a reference of its own.
pub proof fn new_entries_are_usable(
    provider: Seq<char>,
    upstream: Seq<char>,
    display: Seq<char>,
    url: Seq<char>,
)
    ensures
        ({
            let m = new_model(provider, upstream, display);
            &&& m.enabled
            &&& m.logical_model_id == provider + seq!['/'] + upstream
            &&& m.upstream_model_id == upstream
            &&& m.display_name == display
            &&& m.capabilities.tools && m.capabilities.streaming
            &&& !m.capabilities.images && !m.capabilities.files && !m.capabilities.reasoning
            &&& m.context_window is None
        }),
        ({
            let p = new_provider(provider, url);
            &&& p.enabled
            &&& p.name == provider
            &&& p.base_url == url
            &&& p.models.len() == 0
            &&& p.static_headers.len() == 0
            &&& p.credential_reference.len() == p.id.len() + 9
            &&& p.credential_reference.skip(9) == p.id
            &&& p.auth_strategy is Bearer
            &&& p.protocol == ProviderProtocol::Responses
        }),
{
    reveal_strlit("/");
    reveal_strlit("provider:");
    assert("/"@ =~= seq!['/']);
    let p = new_provider(provider, url);
    assert(p.credential_reference.skip(9) =~= p.id);
}

} // verus!
