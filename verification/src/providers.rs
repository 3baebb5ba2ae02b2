//! Managing providers and their models.

use crate::json::Json;
use crate::registry::{
    copy_strings, model_views, new_model, new_provider, place_of, with_id, AuthStrategy, AuthView,
    CoreError, CoreErrorView, CustomModel, ModelCapabilities, ModelEdit, ModelView, ProviderConfig,
    ProviderProtocol, ProviderRegistry, ProviderView, RegistryView,
};
use crate::search::{any_where, index_where, index_where_bounds, index_where_is};
use crate::text::{cat, cat3, decimal, decimal_of, opt_view, views};
use vstd::prelude::*;
use vstd::string::*;

verus! {

/// The largest model list that is accepted from a provider.
pub const MAX_DISCOVERY_RESPONSE_BYTES: usize = 8_388_608;

/// Why the credential store fails; each reason with its report.
#[derive(Debug)]
pub enum CredentialError {
    NotFound(String),
    Backend(String),
}

/// The model of a failure of the credential store.
pub ghost enum CredentialErrorView {
    NotFound(Seq<char>),
    Backend(Seq<char>),
}

impl View for CredentialError {
    type V = CredentialErrorView;

    open spec fn view(&self) -> CredentialErrorView {
        match *self {
            CredentialError::NotFound(s) => CredentialErrorView::NotFound(s@),
            CredentialError::Backend(s) => CredentialErrorView::Backend(s@),
        }
    }
}

/// Why an operation on providers fails.
#[derive(Debug)]
pub enum ProviderManagerError {
    Core(CoreError),
    Credential(CredentialError),
    Response(String),
    Http { status: u16, message: String },
    Json(String),
    MissingModelList,
    EmptyModelList,
    ModelNotDiscovered(String),
}

/// The model of a failed operation.
pub ghost enum ManagerErrorView {
    Core(CoreErrorView),
    Credential(CredentialErrorView),
    Response(Seq<char>),
    Http(u16, Seq<char>),
    Json(Seq<char>),
    MissingModelList,
    EmptyModelList,
    ModelNotDiscovered(Seq<char>),
}

impl View for ProviderManagerError {
    type V = ManagerErrorView;

    open spec fn view(&self) -> ManagerErrorView {
        match *self {
            ProviderManagerError::Core(e) => ManagerErrorView::Core(e@),
            ProviderManagerError::Credential(e) => ManagerErrorView::Credential(e@),
            ProviderManagerError::Response(s) => ManagerErrorView::Response(s@),
            ProviderManagerError::Http { status, message } => ManagerErrorView::Http(
                status,
                message@,
            ),
            ProviderManagerError::Json(s) => ManagerErrorView::Json(s@),
            ProviderManagerError::MissingModelList => ManagerErrorView::MissingModelList,
            ProviderManagerError::EmptyModelList => ManagerErrorView::EmptyModelList,
            ProviderManagerError::ModelNotDiscovered(s) => ManagerErrorView::ModelNotDiscovered(s@),
        }
    }
}

impl ManagerErrorView {
    /// The message that reports the failure.
    pub open spec fn message(self) -> Seq<char> {
        match self {
            ManagerErrorView::Core(e) => "provider registry error: "@ + e.message(),
            ManagerErrorView::Credential(CredentialErrorView::NotFound(s)) =>
                "credential store error: "@ + s,
            ManagerErrorView::Credential(CredentialErrorView::Backend(s)) =>
                "credential store error: "@ + s,
            ManagerErrorView::Response(s) => "provider response error: "@ + s,
            ManagerErrorView::Http(status, message) => "provider returned HTTP "@ + decimal(
                status as nat,
            ) + ": "@ + message,
            ManagerErrorView::Json(s) => "provider response is not valid JSON: "@ + s,
            ManagerErrorView::MissingModelList => "provider response has no data/models array"@,
            ManagerErrorView::EmptyModelList =>
                "provider response contained no usable model ids"@,
            ManagerErrorView::ModelNotDiscovered(s) => "model `"@ + s
                + "` was not returned by provider"@,
        }
    }
}

impl ProviderManagerError {
    /// The message that reports the failure.
    pub fn message(&self) -> (r: String)
        ensures
            r@ == self@.message(),
    {
        match self {
            ProviderManagerError::Core(e) => cat("provider registry error: ", &e.message()),
            ProviderManagerError::Credential(CredentialError::NotFound(s)) => cat(
                "credential store error: ",
                s,
            ),
            ProviderManagerError::Credential(CredentialError::Backend(s)) => cat(
                "credential store error: ",
                s,
            ),
            ProviderManagerError::Response(s) => cat("provider response error: ", s),
            ProviderManagerError::Http { status, message } => cat(
                &cat3("provider returned HTTP ", &decimal_of(*status as u64), ": "),
                message,
            ),
            ProviderManagerError::Json(s) => cat("provider response is not valid JSON: ", s),
            ProviderManagerError::MissingModelList =>
                "provider response has no data/models array".to_owned(),
            ProviderManagerError::EmptyModelList =>
                "provider response contained no usable model ids".to_owned(),
            ProviderManagerError::ModelNotDiscovered(s) => cat3(
                "model `",
                s,
                "` was not returned by provider",
            ),
        }
    }
}

/// A model that a provider says it has.
#[derive(Debug)]
pub struct DiscoveredModel {
    pub upstream_model_id: String,
    pub display_name: Option<String>,
}

/// The model of a model that a provider says it has.
pub ghost struct DiscoveredView {
    pub upstream_model_id: Seq<char>,
    pub display_name: Option<Seq<char>>,
}

impl View for DiscoveredModel {
    type V = DiscoveredView;

    open spec fn view(&self) -> DiscoveredView {
        DiscoveredView {
            upstream_model_id: self.upstream_model_id@,
            display_name: opt_view(self.display_name),
        }
    }
}

/// The views of a list of discovered models.
pub open spec fn discovered_views(s: Seq<DiscoveredModel>) -> Seq<DiscoveredView> {
    s.map_values(|d: DiscoveredModel| d@)
}

/// What is shown of a model.
#[derive(Debug)]
pub struct ModelSummary {
    pub logical_model_id: String,
    pub upstream_model_id: String,
    pub display_name: String,
    pub capabilities: ModelCapabilities,
    pub enabled: bool,
    pub context_window: Option<u64>,
    pub reasoning_levels: Vec<String>,
}

impl View for ModelSummary {
    type V = ModelView;

    open spec fn view(&self) -> ModelView {
        ModelView {
            logical_model_id: self.logical_model_id@,
            upstream_model_id: self.upstream_model_id@,
            display_name: self.display_name@,
            capabilities: self.capabilities,
            enabled: self.enabled,
            context_window: self.context_window,
            reasoning_levels: views(self.reasoning_levels@),
        }
    }
}

/// The views of a list of summaries.
pub open spec fn summary_views(s: Seq<ModelSummary>) -> Seq<ModelView> {
    s.map_values(|m: ModelSummary| m@)
}

/// What is shown of a provider: neither its fixed headers nor where its credential is
/// kept.
#[derive(Debug)]
pub struct ProviderSummary {
    pub id: String,
    pub name: String,
    pub base_url: String,
    pub protocol: ProviderProtocol,
    pub auth_strategy: AuthStrategy,
    pub enabled: bool,
    pub models: Vec<ModelSummary>,
}

/// Whether a summary shows a provider.
pub open spec fn shows(s: ProviderSummary, p: ProviderView) -> bool {
    &&& s.id@ == p.id
    &&& s.name@ == p.name
    &&& s.base_url@ == p.base_url
    &&& s.protocol == p.protocol
    &&& s.auth_strategy@ == p.auth_strategy
    &&& s.enabled == p.enabled
    &&& summary_views(s.models@) == p.models
}

/// What is shown of a model.
pub fn model_summary(model: &CustomModel) -> (r: ModelSummary)
    ensures
        r@ == model@,
{
    ModelSummary {
        logical_model_id: model.logical_model_id.clone(),
        upstream_model_id: model.upstream_model_id.clone(),
        display_name: model.display_name.clone(),
        capabilities: model.capabilities,
        enabled: model.enabled,
        context_window: model.context_window,
        reasoning_levels: copy_strings(&model.reasoning_levels),
    }
}

/// What is shown of models.
pub fn model_summaries(models: &Vec<CustomModel>) -> (r: Vec<ModelSummary>)
    ensures
        summary_views(r@) == model_views(models@),
{
    let mut out: Vec<ModelSummary> = Vec::new();
    let mut i: usize = 0;
    while i < models.len()
        invariant
            i <= models@.len(),
            out@.len() == i,
            forall|j: int| 0 <= j < i ==> (#[trigger] out@[j])@ == models@[j]@,
        decreases models@.len() - i,
    {
        out.push(model_summary(&models[i]));
        i = i + 1;
    }
    assert(summary_views(out@) =~= model_views(models@));
    out
}

/// What is shown of a provider.
pub fn provider_summary(provider: &ProviderConfig) -> (r: ProviderSummary)
    ensures
        shows(r, provider@),
{
    ProviderSummary {
        id: provider.id.clone(),
        name: provider.name.clone(),
        base_url: provider.base_url.clone(),
        protocol: provider.protocol,
        auth_strategy: provider.auth_strategy.copy(),
        enabled: provider.enabled,
        models: model_summaries(&provider.models),
    }
}

/// What is shown of all providers.
pub fn list_providers(registry: &ProviderRegistry) -> (r: Vec<ProviderSummary>)
    ensures
        r@.len() == registry@.providers.len(),
        forall|i: int| 0 <= i < r@.len() ==> shows(#[trigger] r@[i], registry@.providers[i]),
{
    let mut out: Vec<ProviderSummary> = Vec::new();
    let mut i: usize = 0;
    assert(registry@.providers.len() == registry.providers@.len());
    while i < registry.providers.len()
        invariant
            i <= registry.providers@.len(),
            registry@.providers.len() == registry.providers@.len(),
            out@.len() == i,
            forall|j: int| 0 <= j < i ==> shows(#[trigger] out@[j], registry@.providers[j]),
        decreases registry.providers@.len() - i,
    {
        assert(registry@.providers[i as int] == registry.providers@[i as int]@);
        out.push(provider_summary(&registry.providers[i]));
        i = i + 1;
    }
    out
}

/// The provider that an addition lists.
pub open spec fn added_provider(
    name: Seq<char>,
    base_url: Seq<char>,
    protocol: ProviderProtocol,
    auth: AuthView,
) -> ProviderView {
    ProviderView { protocol, auth_strategy: auth, ..new_provider(name, base_url) }
}

/// Lists a new provider. The base URL comes as its normal form, or as the reason why
/// it has none.
pub fn add_provider_with_auth(
    registry: &mut ProviderRegistry,
    name: &str,
    base_url: Result<String, CoreError>,
    protocol: ProviderProtocol,
    auth_strategy: AuthStrategy,
) -> (r: Result<ProviderSummary, ProviderManagerError>)
    ensures
        match base_url {
            Err(e) => {
                &&& r is Err
                &&& r->Err_0@ == ManagerErrorView::Core(e@)
                &&& *final(registry) == *old(registry)
            },
            Ok(url) => {
                let p = added_provider(name@, url@, protocol, auth_strategy@);
                match old(registry)@.with_new_provider(p) {
                    Ok(after) => r is Ok && shows(r->Ok_0, p) && final(registry)@ == after,
                    Err(e) => r is Err && r->Err_0@ == ManagerErrorView::Core(e) && *final(registry)
                        == *old(registry),
                }
            },
        },
{
    let url = match base_url {
        Ok(url) => url,
        Err(e) => return Err(ProviderManagerError::Core(e)),
    };
    let mut provider = ProviderConfig::new(name, &url);
    provider.protocol = protocol;
    provider.auth_strategy = auth_strategy;
    assert(provider@ == added_provider(name@, url@, protocol, auth_strategy@));
    let summary = provider_summary(&provider);
    match registry.add_provider(provider) {
        Ok(_) => Ok(summary),
        Err(e) => Err(ProviderManagerError::Core(e)),
    }
}

/// Lists a new provider that takes its key as a bearer.
pub fn add_provider(
    registry: &mut ProviderRegistry,
    name: &str,
    base_url: Result<String, CoreError>,
    protocol: ProviderProtocol,
) -> (r: Result<ProviderSummary, ProviderManagerError>)
    ensures
        match base_url {
            Err(e) => {
                &&& r is Err
                &&& r->Err_0@ == ManagerErrorView::Core(e@)
                &&& *final(registry) == *old(registry)
            },
            Ok(url) => {
                let p = added_provider(name@, url@, protocol, AuthView::Bearer);
                match old(registry)@.with_new_provider(p) {
                    Ok(after) => r is Ok && shows(r->Ok_0, p) && final(registry)@ == after,
                    Err(e) => r is Err && r->Err_0@ == ManagerErrorView::Core(e) && *final(registry)
                        == *old(registry),
                }
            },
        },
{
    add_provider_with_auth(registry, name, base_url, protocol, AuthStrategy::Bearer)
}

/// What is to be changed of a provider. A base URL comes as its normal form, or as the
/// reason why it has none.
pub struct ProviderEdit {
    pub name: Option<String>,
    pub base_url: Option<Result<String, CoreError>>,
    pub protocol: Option<ProviderProtocol>,
    pub enabled: Option<bool>,
    pub auth_strategy: Option<AuthStrategy>,
}

/// A provider after an edit whose base URL, if any, has a normal form.
pub open spec fn edited_provider(p: ProviderView, edit: ProviderEdit) -> ProviderView {
    ProviderView {
        name: match edit.name {
            Some(name) => name@,
            None => p.name,
        },
        base_url: match edit.base_url {
            Some(Ok(url)) => url@,
            _ => p.base_url,
        },
        protocol: match edit.protocol {
            Some(protocol) => protocol,
            None => p.protocol,
        },
        enabled: match edit.enabled {
            Some(enabled) => enabled,
            None => p.enabled,
        },
        auth_strategy: match edit.auth_strategy {
            Some(auth) => auth@,
            None => p.auth_strategy,
        },
        ..p
    }
}

/// The registry after an edit of a provider: it is always a new generation.
pub open spec fn with_provider_edited(r: RegistryView, id: Seq<char>, edit: ProviderEdit) -> Result<
    RegistryView,
    CoreErrorView,
> {
    if !any_where(r.providers, with_id(id)) {
        Err(CoreErrorView::ProviderNotFound(id))
    } else {
        match edit.base_url {
            Some(Err(e)) => Err(e@),
            _ => {
                let i = index_where(r.providers, with_id(id));
                Ok(r.with_provider(i, edited_provider(r.providers[i], edit)).bumped())
            },
        }
    }
}

/// Changes a provider.
pub fn edit_provider_with_auth(registry: &mut ProviderRegistry, id: &str, edit: ProviderEdit) -> (r:
    Result<ProviderSummary, ProviderManagerError>)
    ensures
        match with_provider_edited(old(registry)@, id@, edit) {
            Ok(after) => {
                &&& r is Ok
                &&& final(registry)@ == after
                &&& shows(
                    r->Ok_0,
                    edited_provider(old(registry)@.provider(id@)->0, edit),
                )
            },
            Err(e) => r is Err && r->Err_0@ == ManagerErrorView::Core(e) && *final(registry)
                == *old(registry),
        },
{
    let i = registry.provider_index(id);
    if i >= registry.providers.len() {
        return Err(ProviderManagerError::Core(CoreError::ProviderNotFound(id.to_owned())));
    }
    let mut p = registry.providers[i].copy();
    assert(p@ == registry@.providers[i as int]);
    if let Some(name) = edit.name {
        p.name = name;
    }
    if let Some(url) = edit.base_url {
        match url {
            Ok(url) => {
                p.base_url = url;
            },
            Err(e) => return Err(ProviderManagerError::Core(e)),
        }
    }
    if let Some(protocol) = edit.protocol {
        p.protocol = protocol;
    }
    if let Some(enabled) = edit.enabled {
        p.enabled = enabled;
    }
    if let Some(auth) = edit.auth_strategy {
        p.auth_strategy = auth;
    }
    let summary = provider_summary(&p);
    registry.put_provider(i, p);
    registry.bump_generation();
    Ok(summary)
}

/// Changes a provider, but not how its credential is sent.
pub fn edit_provider(
    registry: &mut ProviderRegistry,
    id: &str,
    name: Option<String>,
    base_url: Option<Result<String, CoreError>>,
    protocol: Option<ProviderProtocol>,
    enabled: Option<bool>,
) -> (r: Result<ProviderSummary, ProviderManagerError>)
    ensures
        ({
            let edit = ProviderEdit { name, base_url, protocol, enabled, auth_strategy: None };
            match with_provider_edited(old(registry)@, id@, edit) {
                Ok(after) => {
                    &&& r is Ok
                    &&& final(registry)@ == after
                    &&& shows(
                        r->Ok_0,
                        edited_provider(old(registry)@.provider(id@)->0, edit),
                    )
                },
                Err(e) => r is Err && r->Err_0@ == ManagerErrorView::Core(e) && *final(registry)
                    == *old(registry),
            }
        }),
{
    edit_provider_with_auth(
        registry,
        id,
        ProviderEdit { name, base_url, protocol, enabled, auth_strategy: None },
    )
}

/// A model as it is added.
pub open spec fn added_model(
    provider_id: Seq<char>,
    upstream: Seq<char>,
    display: Seq<char>,
    context_window: Option<u64>,
    capabilities: ModelCapabilities,
) -> ModelView {
    ModelView { context_window, capabilities, ..new_model(provider_id, upstream, display) }
}

/// Adds a model to a provider.
pub fn add_model(
    registry: &mut ProviderRegistry,
    provider_id: &str,
    upstream_model_id: &str,
    display_name: &str,
    context_window: Option<u64>,
    capabilities: ModelCapabilities,
) -> (r: Result<ModelSummary, ProviderManagerError>)
    ensures
        ({
            let m = added_model(
                provider_id@,
                upstream_model_id@,
                display_name@,
                context_window,
                capabilities,
            );
            match old(registry)@.with_new_model(m) {
                Ok(after) => r is Ok && r->Ok_0@ == m && final(registry)@ == after,
                Err(e) => r is Err && r->Err_0@ == ManagerErrorView::Core(e) && *final(registry)
                    == *old(registry),
            }
        }),
{
    let mut model = CustomModel::new(provider_id, upstream_model_id, display_name);
    model.context_window = context_window;
    model.capabilities = capabilities;
    let summary = model_summary(&model);
    match registry.add_model(model) {
        Ok(_) => Ok(summary),
        Err(e) => Err(ProviderManagerError::Core(e)),
    }
}

/// Changes the name or the context window of a model.
pub fn edit_model(registry: &mut ProviderRegistry, logical_model_id: &str, edit: ModelEdit) -> (r:
    Result<ModelSummary, ProviderManagerError>)
    ensures
        match old(registry)@.with_model_edited(
            logical_model_id@,
            opt_view(edit.display_name),
            edit.context_window,
        ) {
            Ok(after) => {
                let (p, m) = place_of(old(registry)@, logical_model_id@)->Ok_0;
                &&& r is Ok
                &&& r->Ok_0@ == old(registry)@.providers[p].models[m].edited(
                    opt_view(edit.display_name),
                    edit.context_window,
                )
                &&& final(registry)@ == after
            },
            Err(e) => r is Err && r->Err_0@ == ManagerErrorView::Core(e) && *final(registry)
                == *old(registry),
        },
{
    let (p, m) = match registry.find_model(logical_model_id) {
        Ok(place) => place,
        Err(e) => return Err(ProviderManagerError::Core(e)),
    };
    let mut changed = registry.providers[p].models[m].copy();
    assert(changed@ == registry@.providers[p as int].models[m as int]);
    if let Some(name) = edit.display_name {
        changed.display_name = name;
    }
    if let Some(window) = edit.context_window {
        changed.context_window = window;
    }
    let summary = model_summary(&changed);
    registry.put_model(p, m, changed);
    registry.bump_generation();
    Ok(summary)
}

/// Enables or disables a model.
pub fn set_model_enabled(registry: &mut ProviderRegistry, logical_model_id: &str, enabled: bool) -> (r:
    Result<ModelSummary, ProviderManagerError>)
    ensures
        match old(registry)@.with_model_switched(logical_model_id@, enabled) {
            Ok(after) => {
                let (p, m) = place_of(old(registry)@, logical_model_id@)->Ok_0;
                let changed = ModelView { enabled, ..old(registry)@.providers[p].models[m] };
                &&& r is Ok
                &&& r->Ok_0@ == changed
                &&& final(registry)@ == after
            },
            Err(e) => r is Err && r->Err_0@ == ManagerErrorView::Core(e) && *final(registry)
                == *old(registry),
        },
{
    let (p, m) = match registry.find_model(logical_model_id) {
        Ok(place) => place,
        Err(e) => return Err(ProviderManagerError::Core(e)),
    };
    let mut changed = registry.providers[p].models[m].copy();
    assert(changed@ == registry@.providers[p as int].models[m as int]);
    changed.enabled = enabled;
    let summary = model_summary(&changed);
    registry.put_model(p, m, changed);
    registry.bump_generation();
    Ok(summary)
}

/// Removes a model.
pub fn remove_model(registry: &mut ProviderRegistry, logical_model_id: &str) -> (r: Result<
    (),
    ProviderManagerError,
>)
    ensures
        match old(registry)@.without_model(logical_model_id@) {
            Ok(after) => r is Ok && final(registry)@ == after,
            Err(e) => r is Err && r->Err_0@ == ManagerErrorView::Core(e) && *final(registry)
                == *old(registry),
        },
{
    match registry.remove_model(logical_model_id) {
        Ok(_) => Ok(()),
        Err(e) => Err(ProviderManagerError::Core(e)),
    }
}

/// Whether a generation is a new one after another, and, short of the last, a later one.
pub open spec fn newer(g: u64, than: u64) -> bool {
    &&& g != than
    &&& than < u64::MAX ==> g > than
}

/// Every change of what is routed makes a new generation, and short of the last a later
/// one, so that a running router lets go of the credentials that it keeps.
pub proof fn every_change_is_a_new_generation(
    r: RegistryView,
    p: ProviderView,
    id: Seq<char>,
    edit: ProviderEdit,
    m: ModelView,
    display_name: Option<Seq<char>>,
    context_window: Option<Option<u64>>,
    place: (int, int),
)
    ensures
        r.with_new_provider(p) is Ok ==> newer(r.with_new_provider(p)->Ok_0.generation, r.generation),
        r.without_provider(id) is Ok ==> newer(
            r.without_provider(id)->Ok_0.generation,
            r.generation,
        ),
        with_provider_edited(r, id, edit) is Ok ==> newer(
            with_provider_edited(r, id, edit)->Ok_0.generation,
            r.generation,
        ),
        r.with_new_model(m) is Ok ==> newer(r.with_new_model(m)->Ok_0.generation, r.generation),
        r.with_model_edited(id, display_name, context_window) is Ok ==> newer(
            r.with_model_edited(id, display_name, context_window)->Ok_0.generation,
            r.generation,
        ),
        r.without_model(id) is Ok ==> newer(r.without_model(id)->Ok_0.generation, r.generation),
        newer(r.with_model_at(place, m).bumped().generation, r.generation),
{
}

/// An edit of a provider changes what it gives and nothing else: the fields that are not
/// given, the provider's id, credential reference and models, and the other providers
/// stay. Even an edit that gives nothing is a new generation. It fails on a provider that
/// is not there, and on a base URL without a normal form.
pub proof fn edits_change_only_what_they_give(r: RegistryView, id: Seq<char>, edit: ProviderEdit)
    ensures
        match with_provider_edited(r, id, edit) {
            Err(e) => if r.provider(id) is None {
                e == CoreErrorView::ProviderNotFound(id)
            } else {
                edit.base_url is Some && edit.base_url->0 is Err && e == edit.base_url->0->Err_0@
            },
            Ok(after) => {
                let at = index_where(r.providers, with_id(id));
                let was = r.providers[at];
                let now = after.providers[at];
                &&& r.provider(id) == Some(was)
                &&& after.provider(id) == Some(now)
                &&& newer(after.generation, r.generation)
                &&& after == (RegistryView {
                    providers: after.providers,
                    generation: after.generation,
                    ..r
                })
                &&& after.providers.len() == r.providers.len()
                &&& forall|i: int|
                    0 <= i < r.providers.len() && i != at ==> #[trigger] after.providers[i]
                        == r.providers[i]
                &&& now.id == was.id
                &&& now.credential_reference == was.credential_reference
                &&& now.models == was.models
                &&& now.static_headers == was.static_headers
                &&& now.model_discovery == was.model_discovery
                &&& now.name == (match edit.name {
                    Some(name) => name@,
                    None => was.name,
                })
                &&& match edit.base_url {
                    Some(url) => url is Ok && now.base_url == url->Ok_0@,
                    None => now.base_url == was.base_url,
                }
                &&& now.protocol == (match edit.protocol {
                    Some(protocol) => protocol,
                    None => was.protocol,
                })
                &&& now.enabled == (match edit.enabled {
                    Some(enabled) => enabled,
                    None => was.enabled,
                })
                &&& now.auth_strategy == (match edit.auth_strategy {
                    Some(auth) => auth@,
                    None => was.auth_strategy,
                })
            },
        },
{
    if any_where(r.providers, with_id(id)) {
        let at = index_where(r.providers, with_id(id));
        index_where_bounds(r.providers, with_id(id));
        if with_provider_edited(r, id, edit) is Ok {
            let after = with_provider_edited(r, id, edit)->Ok_0;
            assert(with_id(id)(after.providers[at]));
            assert forall|i: int| 0 <= i < at implies !with_id(id)(#[trigger] after.providers[i]) by {
                assert(after.providers[i] == r.providers[i]);
            }
            index_where_is(after.providers, with_id(id), at);
        }
    }
}

/// A summary shows of a provider what the user has set, and all its models in their order.
pub proof fn summaries_show_the_provider(s: ProviderSummary, p: ProviderView, i: int)
    requires
        shows(s, p),
    ensures
        s.id@ == p.id && s.name@ == p.name && s.base_url@ == p.base_url,
        s.protocol == p.protocol && s.auth_strategy@ == p.auth_strategy && s.enabled == p.enabled,
        s.models@.len() == p.models.len(),
        0 <= i < p.models.len() ==> s.models@[i]@ == p.models[i],
{
    assert(summary_views(s.models@).len() == s.models@.len());
    if 0 <= i < p.models.len() {
        assert(summary_views(s.models@)[i] == s.models@[i]@);
    }
}

/// A provider that is added has the name, the base URL, the protocol and the authorization
/// that were asked for, and is on.
pub proof fn added_providers_are_as_asked(
    name: Seq<char>,
    base_url: Seq<char>,
    protocol: ProviderProtocol,
    auth: AuthView,
)
    ensures
        ({
            let p = added_provider(name, base_url, protocol, auth);
            &&& p.name == name
            &&& p.base_url == base_url
            &&& p.protocol == protocol
            &&& p.auth_strategy == auth
            &&& p.enabled
            &&& p.models.len() == 0
            &&& p.id == new_provider(name, base_url).id
            &&& p.credential_reference == new_provider(name, base_url).credential_reference
        }),
{
}

/// A model that is added has the ids, the name, the context window and the capabilities that
/// were asked for, and is on.
pub proof fn added_models_are_as_asked(
    provider_id: Seq<char>,
    upstream: Seq<char>,
    display: Seq<char>,
    context_window: Option<u64>,
    capabilities: ModelCapabilities,
)
    ensures
        ({
            let m = added_model(provider_id, upstream, display, context_window, capabilities);
            &&& m.logical_model_id == provider_id + seq!['/'] + upstream
            &&& m.upstream_model_id == upstream
            &&& m.display_name == display
            &&& m.context_window == context_window
            &&& m.capabilities == capabilities
            &&& m.enabled
            &&& m.reasoning_levels.len() == 0
        }),
{
    crate::registry::new_entries_are_usable(provider_id, upstream, display, display);
}

} // verus!
