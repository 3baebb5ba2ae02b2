//! The models that a provider says it has, and taking them over.

use crate::json::{json_views, Json, JsonView};
use crate::json_text::{json_parsed, parse_json, read_view};
use crate::providers::{
    discovered_views, model_summaries, summary_views, DiscoveredModel, DiscoveredView,
    ManagerErrorView, ModelSummary, ProviderManagerError, MAX_DISCOVERY_RESPONSE_BYTES,
};
use crate::registry::{
    lists_upstream, model_of, new_model, with_id, with_upstream_id, CoreError, CoreErrorView,
    CustomModel, ModelView, ProviderConfig, ProviderRegistry, ProviderView, RegistryView,
};
use crate::search::{any_where, found, index_where, index_where_bounds, index_where_is};
use crate::text::{
    blank, cat, cat3, cat5, decimal, decimal_of, first_index, str_eq, trim, trimmed, views,
};
use crate::urls::{trim_end_char, without_end};
use vstd::prelude::*;
use vstd::string::*;

verus! {

/// Where a provider lists its models.
pub open spec fn models_at(base: Seq<char>) -> Seq<char> {
    trim_end_char(base, '/') + "/models"@
}

/// The URL at which a provider lists its models.
pub fn models_url(provider: &ProviderConfig) -> (r: String)
    ensures
        r@ == models_at(provider@.base_url),
{
    cat(&without_end(&provider.base_url, '/'), "/models")
}

/// The text under the first of four keys that holds one.
pub open spec fn id_text(item: JsonView) -> Option<Seq<char>> {
    if item.text_field("id"@) is Some {
        item.text_field("id"@)
    } else if item.text_field("slug"@) is Some {
        item.text_field("slug"@)
    } else if item.text_field("model"@) is Some {
        item.text_field("model"@)
    } else {
        item.text_field("name"@)
    }
}

/// The name under which a listed model is shown.
pub open spec fn display_text(item: JsonView) -> Option<Seq<char>> {
    if item.text_field("display_name"@) is Some {
        item.text_field("display_name"@)
    } else {
        item.text_field("name"@)
    }
}

/// The model that an entry of a model list names, where it names one.
pub open spec fn listed_model(item: JsonView) -> Option<DiscoveredView> {
    match item {
        JsonView::Str(s) => if trimmed(s).len() > 0 {
            Some(DiscoveredView { upstream_model_id: trimmed(s), display_name: None })
        } else {
            None
        },
        JsonView::Object(_) => match id_text(item) {
            Some(id) => if trimmed(id).len() > 0 {
                Some(
                    DiscoveredView {
                        upstream_model_id: trimmed(id),
                        display_name: display_text(item),
                    },
                )
            } else {
                None
            },
            None => None,
        },
        _ => None,
    }
}

/// The models that the entries of a model list name, in their order.
pub open spec fn listed_models(items: Seq<JsonView>) -> Seq<DiscoveredView>
    decreases items.len(),
{
    if items.len() == 0 {
        Seq::empty()
    } else {
        match listed_model(items.last()) {
            Some(d) => listed_models(items.drop_last()).push(d),
            None => listed_models(items.drop_last()),
        }
    }
}

/// The list in a provider's answer: the answer itself, or what it has under `data` or
/// `models`.
pub open spec fn model_entries(value: JsonView) -> Option<Seq<JsonView>> {
    match value {
        JsonView::Array(items) => Some(items),
        _ => match value.field("data"@) {
            Some(JsonView::Array(items)) => Some(items),
            _ => match value.field("models"@) {
                Some(JsonView::Array(items)) => Some(items),
                _ => None,
            },
        },
    }
}

/// The models that a provider's answer lists.
pub open spec fn discovered_in(value: JsonView) -> Result<Seq<DiscoveredView>, ManagerErrorView> {
    match model_entries(value) {
        None => Err(ManagerErrorView::MissingModelList),
        Some(items) => if listed_models(items).len() == 0 && items.len() > 0 {
            Err(ManagerErrorView::EmptyModelList)
        } else {
            Ok(listed_models(items))
        },
    }
}

/// The view of discovered models or an error.
pub open spec fn discovery_view(r: Result<Vec<DiscoveredModel>, ProviderManagerError>) -> Result<
    Seq<DiscoveredView>,
    ManagerErrorView,
> {
    match r {
        Ok(models) => Ok(discovered_views(models@)),
        Err(e) => Err(e@),
    }
}

fn first_id<'a>(item: &'a Json) -> (r: Option<&'a str>)
    ensures
        id_text(item@) == (match r {
            Some(s) => Some(s@),
            None => None,
        }),
{
    if let Some(s) = item.text_field("id") {
        return Some(s);
    }
    if let Some(s) = item.text_field("slug") {
        return Some(s);
    }
    if let Some(s) = item.text_field("model") {
        return Some(s);
    }
    item.text_field("name")
}

/// The model that an entry of a model list names.
fn read_entry(item: &Json) -> (r: Option<DiscoveredModel>)
    ensures
        listed_model(item@) == (match r {
            Some(d) => Some(d@),
            None => None,
        }),
{
    match item {
        Json::Str(s) => {
            let id = trim(s);
            if id.as_str().is_empty() {
                None
            } else {
                Some(DiscoveredModel { upstream_model_id: id, display_name: None })
            }
        },
        Json::Object(_) => match first_id(item) {
            None => None,
            Some(id) => {
                let id = trim(id);
                if id.as_str().is_empty() {
                    return None;
                }
                let display = match item.text_field("display_name") {
                    Some(s) => Some(s.to_owned()),
                    None => match item.text_field("name") {
                        Some(s) => Some(s.to_owned()),
                        None => None,
                    },
                };
                Some(DiscoveredModel { upstream_model_id: id, display_name: display })
            },
        },
        _ => None,
    }
}

fn entries_of<'a>(value: &'a Json) -> (r: Option<&'a Vec<Json>>)
    ensures
        model_entries(value@) == (match r {
            Some(items) => Some(json_views(items@)),
            None => None,
        }),
{
    if let Some(items) = value.items() {
        return Some(items);
    }
    if let Some(data) = value.field("data") {
        if let Some(items) = data.items() {
            return Some(items);
        }
    }
    if let Some(models) = value.field("models") {
        return models.items();
    }
    None
}

/// The models that a provider's answer lists.
pub fn parse_discovered_models(value: &Json) -> (r: Result<
    Vec<DiscoveredModel>,
    ProviderManagerError,
>)
    ensures
        discovery_view(r) == discovered_in(value@),
{
    let items = match entries_of(value) {
        Some(items) => items,
        None => return Err(ProviderManagerError::MissingModelList),
    };
    let ghost all = json_views(items@);
    let mut models: Vec<DiscoveredModel> = Vec::new();
    let mut i: usize = 0;
    assert(discovered_views(models@) =~= Seq::empty());
    while i < items.len()
        invariant
            i <= items@.len(),
            all == json_views(items@),
            discovered_views(models@) == listed_models(all.take(i as int)),
        decreases items@.len() - i,
    {
        assert(all.take(i + 1).drop_last() =~= all.take(i as int));
        assert(all.take(i + 1).last() == items@[i as int]@);
        let ghost before = discovered_views(models@);
        if let Some(d) = read_entry(&items[i]) {
            models.push(d);
            assert(discovered_views(models@) =~= before.push(d@));
        }
        i = i + 1;
    }
    assert(all.take(i as int) =~= all);
    assert(discovered_views(models@).len() == models@.len());
    if models.len() == 0 && items.len() > 0 {
        return Err(ProviderManagerError::EmptyModelList);
    }
    Ok(models)
}

/// What is reported of a model list that is too large.
pub open spec fn list_too_large(status: u16, length: nat) -> ManagerErrorView {
    ManagerErrorView::Http(
        status,
        "provider returned "@ + decimal(length) + " bytes, which exceeds the "@ + decimal(
            MAX_DISCOVERY_RESPONSE_BYTES as nat,
        ) + " byte limit for a model list"@,
    )
}

fn too_large(status: u16, length: u64) -> (r: ProviderManagerError)
    ensures
        r@ == list_too_large(status, length as nat),
{
    ProviderManagerError::Http {
        status,
        message: cat5(
            "provider returned ",
            &decimal_of(length),
            " bytes, which exceeds the ",
            &decimal_of(MAX_DISCOVERY_RESPONSE_BYTES as u64),
            " byte limit for a model list",
        ),
    }
}

/// Refuses a model list whose announced length is over the limit.
pub fn check_list_length(status: u16, length: Option<u64>) -> (r: Result<(), ProviderManagerError>)
    ensures
        match r {
            Ok(_) => length is None || length->0 <= MAX_DISCOVERY_RESPONSE_BYTES,
            Err(e) => length is Some && length->0 > MAX_DISCOVERY_RESPONSE_BYTES && e@
                == list_too_large(status, length->0 as nat),
        },
{
    match length {
        Some(length) => if length > MAX_DISCOVERY_RESPONSE_BYTES as u64 {
            Err(too_large(status, length))
        } else {
            Ok(())
        },
        None => Ok(()),
    }
}

/// The models in a provider's answer, given how its body was read.
pub open spec fn answered_models(status: u16, parsed: Result<JsonView, Seq<char>>) -> Result<
    Seq<DiscoveredView>,
    ManagerErrorView,
> {
    match parsed {
        Err(e) => Err(ManagerErrorView::Json(e)),
        Ok(value) => if !(200 <= status < 300) {
            Err(
                ManagerErrorView::Http(
                    status,
                    match value.text_field("error"@) {
                        Some(message) => message,
                        None => "request failed"@,
                    },
                ),
            )
        } else {
            discovered_in(value)
        },
    }
}

/// The models in a provider's answer, given how its body was read.
pub fn read_answer(status: u16, parsed: Result<Json, String>) -> (r: Result<
    Vec<DiscoveredModel>,
    ProviderManagerError,
>)
    ensures
        discovery_view(r) == answered_models(status, read_view(parsed)),
{
    match parsed {
        Err(e) => Err(ProviderManagerError::Json(e)),
        Ok(value) => {
            if !(200 <= status && status < 300) {
                let message = match value.text_field("error") {
                    Some(message) => message.to_owned(),
                    None => "request failed".to_owned(),
                };
                return Err(ProviderManagerError::Http { status, message });
            }
            parse_discovered_models(&value)
        },
    }
}

/// The models in a provider's answer.
pub fn discover_models(status: u16, body: &str) -> (r: Result<
    Vec<DiscoveredModel>,
    ProviderManagerError,
>)
    ensures
        discovery_view(r) == (if body.spec_bytes().len() > MAX_DISCOVERY_RESPONSE_BYTES {
            Err(list_too_large(status, body.spec_bytes().len()))
        } else {
            answered_models(status, json_parsed(body.spec_bytes()))
        }),
{
    let bytes = body.as_bytes();
    if bytes.len() > MAX_DISCOVERY_RESPONSE_BYTES {
        return Err(too_large(status, bytes.len() as u64));
    }
    read_answer(status, parse_json(bytes))
}

/// Discovered models of an upstream id.
pub open spec fn discovered_as(id: Seq<char>) -> spec_fn(DiscoveredView) -> bool {
    |d: DiscoveredView| d.upstream_model_id == id
}

/// The name under which a discovered model is taken over.
pub open spec fn import_name(provider_name: Seq<char>, d: DiscoveredView) -> Seq<char> {
    provider_name + " / "@ + (match d.display_name {
        Some(name) => name,
        None => d.upstream_model_id,
    })
}

/// The registry with one selected model taken over; one that the provider has already
/// is left as it is.
pub open spec fn with_one_imported(
    r: RegistryView,
    id: Seq<char>,
    provider_name: Seq<char>,
    discovered: Seq<DiscoveredView>,
    selected: Seq<char>,
) -> Result<RegistryView, ManagerErrorView> {
    if !any_where(discovered, discovered_as(selected)) {
        Err(ManagerErrorView::ModelNotDiscovered(selected))
    } else {
        let d = discovered[index_where(discovered, discovered_as(selected))];
        if r.provider(id) is Some && any_where(
            r.provider(id)->0.models,
            with_upstream_id(d.upstream_model_id),
        ) {
            Ok(r)
        } else {
            match r.with_new_model(
                new_model(id, d.upstream_model_id, import_name(provider_name, d)),
            ) {
                Ok(after) => Ok(after),
                Err(e) => Err(ManagerErrorView::Core(e)),
            }
        }
    }
}

/// The registry with the selected models taken over, one after the other; the first
/// that cannot be taken over decides the error.
pub open spec fn with_imported(
    r: RegistryView,
    id: Seq<char>,
    provider_name: Seq<char>,
    discovered: Seq<DiscoveredView>,
    selected: Seq<Seq<char>>,
) -> Result<RegistryView, ManagerErrorView>
    decreases selected.len(),
{
    if selected.len() == 0 {
        Ok(r)
    } else {
        match with_imported(r, id, provider_name, discovered, selected.drop_last()) {
            Err(e) => Err(e),
            Ok(done) => with_one_imported(done, id, provider_name, discovered, selected.last()),
        }
    }
}

/// The registry with the selected models of a provider taken over.
pub open spec fn imported(
    r: RegistryView,
    id: Seq<char>,
    discovered: Seq<DiscoveredView>,
    selected: Seq<Seq<char>>,
) -> Result<RegistryView, ManagerErrorView> {
    match r.provider(id) {
        None => Err(ManagerErrorView::Core(CoreErrorView::ProviderNotFound(id))),
        Some(p) => with_imported(r, id, p.name, discovered, selected),
    }
}

proof fn import_stops(
    r: RegistryView,
    id: Seq<char>,
    name: Seq<char>,
    discovered: Seq<DiscoveredView>,
    selected: Seq<Seq<char>>,
    n: int,
)
    requires
        0 <= n <= selected.len(),
        with_imported(r, id, name, discovered, selected.take(n)) is Err,
    ensures
        with_imported(r, id, name, discovered, selected) == with_imported(
            r,
            id,
            name,
            discovered,
            selected.take(n),
        ),
    decreases selected.len() - n,
{
    if n < selected.len() {
        assert(selected.take(n + 1).drop_last() =~= selected.take(n));
        import_stops(r, id, name, discovered, selected, n + 1);
    } else {
        assert(selected.take(n) =~= selected);
    }
}

/// Replacing a provider by one of the same id keeps every id.
proof fn same_ids_found(r: RegistryView, i: int, p: ProviderView, id: Seq<char>)
    requires
        0 <= i < r.providers.len(),
        p.id == r.providers[i].id,
    ensures
        r.with_provider(i, p).bumped().provider(id) is Some <==> r.provider(id) is Some,
{
    let after = r.with_provider(i, p).bumped();
    index_where_bounds(r.providers, with_id(id));
    let at = index_where(r.providers, with_id(id));
    assert forall|j: int| 0 <= j < r.providers.len() implies with_id(id)(r.providers[j])
        == with_id(id)(#[trigger] after.providers[j]) by {}
    assert forall|j: int| 0 <= j < at implies !with_id(id)(#[trigger] after.providers[j]) by {
        assert(!with_id(id)(r.providers[j]));
    }
    index_where_is(after.providers, with_id(id), at);
}

/// Taking models over loses no provider.
proof fn import_keeps_providers(
    r: RegistryView,
    id: Seq<char>,
    name: Seq<char>,
    discovered: Seq<DiscoveredView>,
    selected: Seq<char>,
)
    requires
        r.provider(id) is Some,
        with_one_imported(r, id, name, discovered, selected) is Ok,
    ensures
        with_one_imported(r, id, name, discovered, selected)->Ok_0.provider(id) is Some,
{
    let d = discovered[index_where(discovered, discovered_as(selected))];
    let m = new_model(id, d.upstream_model_id, import_name(name, d));
    let key = m.logical_model_id.take(first_index(m.logical_model_id, '/'));
    index_where_bounds(r.providers, with_id(key));
    let p = index_where(r.providers, with_id(key));
    if 0 <= p < r.providers.len() {
        let provider = r.providers[p];
        same_ids_found(r, p, ProviderView { models: provider.models.push(m), ..provider }, id);
    }
}

fn find_discovered(discovered: &Vec<DiscoveredModel>, id: &str) -> (r: usize)
    ensures
        r == index_where(discovered_views(discovered@), discovered_as(id@)),
        r <= discovered@.len(),
{
    let mut i: usize = 0;
    while i < discovered.len()
        invariant
            i <= discovered@.len(),
            forall|j: int|
                0 <= j < i ==> !discovered_as(id@)(#[trigger] discovered_views(discovered@)[j]),
        decreases discovered@.len() - i,
    {
        if str_eq(&discovered[i].upstream_model_id, id) {
            proof {
                assert(discovered_as(id@)(discovered_views(discovered@)[i as int]));
                index_where_is(discovered_views(discovered@), discovered_as(id@), i as int);
            }
            return i;
        }
        i = i + 1;
    }
    proof {
        index_where_is(discovered_views(discovered@), discovered_as(id@), i as int);
    }
    i
}

/// Takes one selected model over.
fn import_one(
    registry: &mut ProviderRegistry,
    id: &str,
    provider_name: &str,
    discovered: &Vec<DiscoveredModel>,
    selected: &str,
) -> (r: Result<(), ProviderManagerError>)
    ensures
        match with_one_imported(
            old(registry)@,
            id@,
            provider_name@,
            discovered_views(discovered@),
            selected@,
        ) {
            Ok(after) => r is Ok && final(registry)@ == after,
            Err(e) => r is Err && r->Err_0@ == e,
        },
{
    let at = find_discovered(discovered, selected);
    assert(discovered_views(discovered@).len() == discovered@.len());
    if at >= discovered.len() {
        return Err(ProviderManagerError::ModelNotDiscovered(selected.to_owned()));
    }
    let d = &discovered[at];
    assert(discovered_views(discovered@)[at as int] == d@);
    if let Some(p) = registry.provider(id) {
        if lists_upstream(&p.models, &d.upstream_model_id) {
            return Ok(());
        }
    }
    let display = match &d.display_name {
        Some(name) => name.clone(),
        None => d.upstream_model_id.clone(),
    };
    let model = CustomModel::new(
        id,
        &d.upstream_model_id,
        &cat3(provider_name, " / ", &display),
    );
    match registry.add_model(model) {
        Ok(_) => Ok(()),
        Err(e) => Err(ProviderManagerError::Core(e)),
    }
}

/// Takes the selected models of a provider over, all of them or none.
pub fn import_models(
    registry: &mut ProviderRegistry,
    id: &str,
    discovered: &Vec<DiscoveredModel>,
    selected_ids: &Vec<String>,
) -> (r: Result<Vec<ModelSummary>, ProviderManagerError>)
    ensures
        match imported(
            old(registry)@,
            id@,
            discovered_views(discovered@),
            views(selected_ids@),
        ) {
            Ok(after) => {
                &&& r is Ok
                &&& final(registry)@ == after
                &&& after.provider(id@) is Some
                &&& summary_views(r->Ok_0@) == after.provider(id@)->0.models
            },
            Err(e) => r is Err && r->Err_0@ == e && *final(registry) == *old(registry),
        },
{
    let name = match registry.provider(id) {
        Some(p) => p.name.clone(),
        None => return Err(
            ProviderManagerError::Core(CoreError::ProviderNotFound(id.to_owned())),
        ),
    };
    let ghost all = views(selected_ids@);
    let ghost start = registry@;
    let ghost found = discovered_views(discovered@);
    let mut changed = registry.copy();
    let mut i: usize = 0;
    while i < selected_ids.len()
        invariant
            i <= selected_ids@.len(),
            all == views(selected_ids@),
            found == discovered_views(discovered@),
            start == registry@,
            *registry == *old(registry),
            start.provider(id@) is Some,
            start.provider(id@)->0.name == name@,
            with_imported(start, id@, name@, found, all.take(i as int)) == Ok::<
                RegistryView,
                ManagerErrorView,
            >(changed@),
            changed@.provider(id@) is Some,
        decreases selected_ids@.len() - i,
    {
        assert(all.take(i + 1).drop_last() =~= all.take(i as int));
        assert(all.take(i + 1).last() == selected_ids@[i as int]@);
        let ghost before = changed@;
        match import_one(&mut changed, id, &name, discovered, &selected_ids[i]) {
            Ok(_) => {
                proof {
                    import_keeps_providers(before, id@, name@, found, selected_ids@[i as int]@);
                }
            },
            Err(e) => {
                proof {
                    import_stops(start, id@, name@, found, all, i + 1);
                }
                return Err(e);
            },
        }
        i = i + 1;
    }
    assert(all.take(i as int) =~= all);
    let summaries = match changed.provider(id) {
        Some(p) => model_summaries(&p.models),
        None => Vec::new(),
    };
    *registry = changed;
    Ok(summaries)
}

/// A model in a provider's list: a text is its id, and an object names it under `id`, else
/// under `slug`, `model` or `name`; blanks round the id do not count, and an entry without
/// one is passed over. The name that is shown is the one given for that.
pub proof fn entries_name_their_model(item: JsonView)
    ensures
        ({
            let id = if item is Str {
                Some(item->Str_0)
            } else if item.text_field("id"@) is Some {
                item.text_field("id"@)
            } else if item.text_field("slug"@) is Some {
                item.text_field("slug"@)
            } else if item.text_field("model"@) is Some {
                item.text_field("model"@)
            } else {
                item.text_field("name"@)
            };
            match listed_model(item) {
                Some(d) => {
                    &&& id is Some && !blank(id->0)
                    &&& d.upstream_model_id == trimmed(id->0)
                    &&& item is Str ==> d.display_name is None
                    &&& item is Object ==> d.display_name == (if item.text_field("display_name"@)
                        is Some {
                        item.text_field("display_name"@)
                    } else {
                        item.text_field("name"@)
                    })
                },
                None => id is None || blank(id->0),
            }
        }),
{
}

/// The models of a list are those of its entries, one by one and in their order.
pub proof fn lists_are_read_entry_by_entry(items: Seq<JsonView>, item: JsonView)
    ensures
        listed_models(Seq::<JsonView>::empty()) == Seq::<DiscoveredView>::empty(),
        listed_models(items.push(item)) == (match listed_model(item) {
            Some(d) => listed_models(items).push(d),
            None => listed_models(items),
        }),
{
    assert(items.push(item).drop_last() =~= items);
}

/// Where the list stands in an answer: the answer itself, else its `data`, else its `models`.
/// Without a list, and with one in which no entry names a model, nothing is discovered; an
/// empty list is no failure.
pub proof fn answers_hold_a_list(value: JsonView)
    ensures
        ({
            let data = value.field("data"@);
            let models = value.field("models"@);
            let out = discovered_in(value);
            let list = if value is Array {
                Some(value->Array_0)
            } else if data is Some && data->0 is Array {
                Some(data->0->Array_0)
            } else if models is Some && models->0 is Array {
                Some(models->0->Array_0)
            } else {
                None
            };
            &&& list is None ==> out == Err::<Seq<DiscoveredView>, ManagerErrorView>(
                ManagerErrorView::MissingModelList,
            )
            &&& list is Some && out is Ok ==> out->Ok_0 == listed_models(list->0)
            &&& list is Some && out is Err ==> out->Err_0 is EmptyModelList && list->0.len() > 0
                && listed_models(list->0).len() == 0
            &&& list is Some && (list->0.len() == 0 || listed_models(list->0).len() > 0) ==> out is Ok
        }),
{
}

/// A failed answer is reported with its status and the provider's own words, if it has some;
/// only a good one is read for models.
pub proof fn failed_answers_are_reported(status: u16, value: JsonView)
    ensures
        200 <= status <= 299 ==> answered_models(status, Ok(value)) == discovered_in(value),
        status < 200 || status > 299 ==> answered_models(status, Ok(value)) == Err::<
            Seq<DiscoveredView>,
            ManagerErrorView,
        >(
            ManagerErrorView::Http(
                status,
                if value.text_field("error"@) is Some {
                    value.text_field("error"@)->0
                } else {
                    "request failed"@
                },
            ),
        ),
{
}

/// A discovered model is imported under its own id below the provider, named after the
/// provider and the model. One that the provider lists already is left alone, and one that
/// was not discovered is refused.
pub proof fn imports_add_discovered_models(
    r: RegistryView,
    id: Seq<char>,
    provider_name: Seq<char>,
    discovered: Seq<DiscoveredView>,
    selected: Seq<char>,
)
    ensures
        ({
            let out = with_one_imported(r, id, provider_name, discovered, selected);
            let d = found(discovered, discovered_as(selected));
            let listed = r.provider(id) is Some && any_where(
                r.provider(id)->0.models,
                with_upstream_id(selected),
            );
            let logical = id + seq!['/'] + selected;
            &&& d is None ==> out is Err && out->Err_0 == ManagerErrorView::ModelNotDiscovered(
                selected,
            )
            &&& d is Some ==> d->0.upstream_model_id == selected
            &&& d is Some && listed ==> out == Ok::<RegistryView, ManagerErrorView>(r)
            &&& d is Some && !listed && out is Ok ==> {
                let m = model_of(out->Ok_0, logical);
                &&& m is Some
                &&& m->0.upstream_model_id == selected
                &&& m->0.logical_model_id == logical
                &&& m->0.enabled
                &&& m->0.display_name == provider_name + " / "@ + (if d->0.display_name is Some {
                    d->0.display_name->0
                } else {
                    selected
                })
            }
            &&& d is Some && !listed && out is Err ==> out->Err_0 is Core
        }),
{
    index_where_bounds(discovered, discovered_as(selected));
    let k = index_where(discovered, discovered_as(selected));
    if k < discovered.len() {
        let d = discovered[k];
        assert(discovered_as(selected)(d));
        let m = new_model(id, d.upstream_model_id, import_name(provider_name, d));
        crate::registry::new_entries_are_usable(id, d.upstream_model_id, m.display_name, id);
        crate::registry::added_models_are_found(r, m, m.logical_model_id);
    }
}

/// An import goes through the selection in its order, each on what the one before has left,
/// and stops at the first that fails.
pub proof fn imports_go_through_the_selection(
    r: RegistryView,
    id: Seq<char>,
    provider_name: Seq<char>,
    discovered: Seq<DiscoveredView>,
    selected: Seq<Seq<char>>,
    next: Seq<char>,
)
    ensures
        with_imported(r, id, provider_name, discovered, Seq::empty()) == Ok::<
            RegistryView,
            ManagerErrorView,
        >(r),
        with_imported(r, id, provider_name, discovered, selected.push(next)) == (match with_imported(
            r,
            id,
            provider_name,
            discovered,
            selected,
        ) {
            Ok(done) => with_one_imported(done, id, provider_name, discovered, next),
            Err(e) => Err(e),
        }),
        r.provider(id) is None ==> imported(r, id, discovered, selected) is Err,
        r.provider(id) is Some ==> imported(r, id, discovered, selected) == with_imported(
            r,
            id,
            r.provider(id)->0.name,
            discovered,
            selected,
        ),
{
    assert(selected.push(next).drop_last() =~= selected);
}

/// A provider lists a model where one of its models has that upstream id.
pub proof fn listed_models_have_the_upstream_id(models: Seq<ModelView>, id: Seq<char>)
    ensures
        any_where(models, with_upstream_id(id)) <==> exists|i: int|
            0 <= i < models.len() && (#[trigger] models[i]).upstream_model_id == id,
{
    index_where_bounds(models, with_upstream_id(id));
    let k = index_where(models, with_upstream_id(id));
    if k < models.len() {
        assert(with_upstream_id(id)(models[k]));
    }
    if exists|i: int| 0 <= i < models.len() && (#[trigger] models[i]).upstream_model_id == id {
        let i = choose|i: int| 0 <= i < models.len() && (#[trigger] models[i]).upstream_model_id == id;
        assert(with_upstream_id(id)(models[i]));
    }
}

/// A provider lists its models right below its base URL, whether that ends in a slash or not.
pub proof fn models_are_listed_below_the_base(base: Seq<char>)
    ensures
        models_at(base.push('/')) == models_at(base),
        base.len() == 0 || base.last() != '/' ==> models_at(base) == base + "/models"@,
{
    assert(base.push('/').drop_last() =~= base);
}

} // verus!
