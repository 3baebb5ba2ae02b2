//! Continued conversations: when earlier turns are restored from the router's own
//! ledger, and what may cross from one route to another.

use crate::bridge::{
    bridge_view, is_typed, portable, portable_request, typed, BridgeError, BridgeErrorView,
};
use crate::json::{json_views, Json, JsonView};
use crate::ledger::{assoc, BoundedRouteMap};
use crate::registry::{ProviderConfig, ProviderProtocol, ProviderView};
use crate::search::{any_where, index_where_is};
use crate::text::{opt_view, str_eq};
use vstd::prelude::*;
use vstd::string::*;

verus! {

/// The response that a request continues.
pub open spec fn previous_id(request: JsonView) -> Option<Seq<char>> {
    match request.text_field("previous_response_id"@) {
        Some(id) => if id.len() > 0 {
            Some(id)
        } else {
            None
        },
        None => None,
    }
}

/// Items that hold the output of a tool.
pub open spec fn tool_output() -> spec_fn(JsonView) -> bool {
    |item: JsonView|
        typed(item, "function_call_output"@) || typed(item, "custom_tool_call_output"@) || typed(
            item,
            "tool_search_output"@,
        )
}

/// Whether a request's input holds the output of a tool.
pub open spec fn has_tool_output(request: JsonView) -> bool {
    match request.field("input"@) {
        Some(JsonView::Array(items)) => any_where(items, tool_output()),
        _ => false,
    }
}

/// What the client is told where the turn that it continues is not known.
pub open spec fn unknown_turn() -> BridgeErrorView {
    BridgeErrorView::ContextBoundary(
        "this request continues a previous turn (`previous_response_id`), but that turn is not in this router's history ledger, so the earlier context cannot be reconstructed. This happens after a router restart, or when the id came from a different route. Start a new thread to continue."@,
    )
}

fn unknown_turn_error() -> (r: BridgeError)
    ensures
        r@ == unknown_turn(),
{
    BridgeError::ContextBoundary(
        "this request continues a previous turn (`previous_response_id`), but that turn is not in this router's history ledger, so the earlier context cannot be reconstructed. This happens after a router restart, or when the id came from a different route. Start a new thread to continue.".to_owned(),
    )
}

/// What happens to the history of a request before it is sent on.
pub enum HistoryStep {
    /// The request goes on as it is.
    Unchanged,
    /// Earlier turns are restored, and what is private to their route is taken out.
    Restore { continues: bool, has_tool_output: bool },
}

/// What happens to the history of a request: a turn that the router does not know is
/// refused on a custom route; turns are restored for a Chat provider and where the
/// route has changed.
pub open spec fn history_step(
    routes: Seq<(Seq<char>, Seq<char>)>,
    request: JsonView,
    key: Seq<char>,
    provider: Option<ProviderView>,
) -> Result<HistoryStep, BridgeErrorView> {
    let previous = previous_id(request);
    let issued_by = match previous {
        Some(id) => assoc(routes, id),
        None => None,
    };
    let chat = provider is Some && provider->0.protocol == ProviderProtocol::ChatCompletions;
    if previous is Some && issued_by is None && provider is Some {
        Err(unknown_turn())
    } else if chat || (issued_by is Some && issued_by->0 != key) {
        Ok(
            HistoryStep::Restore {
                continues: previous is Some,
                has_tool_output: has_tool_output(request),
            },
        )
    } else {
        Ok(HistoryStep::Unchanged)
    }
}

/// What a request becomes once `restored` items of earlier turns were put into it.
pub open spec fn history_restored(
    continues: bool,
    has_tool_output: bool,
    enriched: JsonView,
    restored: usize,
) -> Result<JsonView, BridgeErrorView> {
    if continues && restored == 0 && has_tool_output {
        Err(unknown_turn())
    } else {
        portable(enriched)
    }
}

/// The response that a request continues.
pub fn continued_response(request: &Json) -> (r: Option<String>)
    ensures
        opt_view(r) == previous_id(request@),
{
    match request.text_field("previous_response_id") {
        Some(id) => if id.is_empty() {
            None
        } else {
            Some(id.to_owned())
        },
        None => None,
    }
}

/// Whether a request's input holds the output of a tool.
pub fn holds_tool_output(request: &Json) -> (r: bool)
    ensures
        r == has_tool_output(request@),
{
    let items = match request.field("input") {
        Some(input) => match input.items() {
            Some(items) => items,
            None => return false,
        },
        None => return false,
    };
    let ghost all = json_views(items@);
    let mut i: usize = 0;
    while i < items.len()
        invariant
            i <= items@.len(),
            all == json_views(items@),
            request@.field("input"@) == Some(JsonView::Array(all)),
            forall|j: int| 0 <= j < i ==> !tool_output()(#[trigger] all[j]),
        decreases items@.len() - i,
    {
        let item = &items[i];
        assert(all[i as int] == item@);
        if is_typed(item, "function_call_output") || is_typed(item, "custom_tool_call_output")
            || is_typed(item, "tool_search_output") {
            proof {
                assert(tool_output()(all[i as int]));
                index_where_is(all, tool_output(), i as int);
            }
            return true;
        }
        i = i + 1;
    }
    proof {
        index_where_is(all, tool_output(), i as int);
    }
    false
}

/// What happens to the history of a request before it is sent on.
pub fn hydrate_history_boundary(
    routes: &BoundedRouteMap,
    request: &Json,
    route_key: &str,
    provider: &Option<ProviderConfig>,
) -> (r: Result<HistoryStep, BridgeError>)
    ensures
        history_step(
            routes@,
            request@,
            route_key@,
            match *provider {
                Some(p) => Some(p@),
                None => None,
            },
        ) == (match r {
            Ok(step) => Ok(step),
            Err(e) => Err(e@),
        }),
{
    let previous = continued_response(request);
    let issued_by = match &previous {
        Some(id) => routes.get(id),
        None => None,
    };
    if previous.is_some() && issued_by.is_none() && provider.is_some() {
        return Err(unknown_turn_error());
    }
    let chat = match provider {
        Some(p) => p.protocol == ProviderProtocol::ChatCompletions,
        None => false,
    };
    let crosses = match issued_by {
        Some(issued_by) => !str_eq(issued_by, route_key),
        None => false,
    };
    if chat || crosses {
        Ok(
            HistoryStep::Restore {
                continues: previous.is_some(),
                has_tool_output: holds_tool_output(request),
            },
        )
    } else {
        Ok(HistoryStep::Unchanged)
    }
}

/// What a request becomes once `restored` items of earlier turns were put into it.
pub fn finish_history(
    continues: bool,
    has_tool_output: bool,
    enriched: &Json,
    restored: usize,
) -> (r: Result<Json, BridgeError>)
    ensures
        bridge_view(r) == history_restored(continues, has_tool_output, enriched@, restored),
{
    if continues && restored == 0 && has_tool_output {
        return Err(unknown_turn_error());
    }
    portable_request(enriched)
}

/// Remembers which route issued a response that has an id.
pub fn remember_response_route(routes: &mut BoundedRouteMap, response: &Json, route_key: &str)
    ensures
        final(routes)@ == (match response@.text_field("id"@) {
            Some(id) => crate::ledger::remembered(old(routes)@, id, route_key@),
            None => old(routes)@,
        }),
{
    if let Some(id) = response.text_field("id") {
        routes.insert(id.to_owned(), route_key.to_owned());
    }
}

/// The official backend knows its own responses: a turn that this router has not seen
/// goes through to it unchanged.
pub proof fn official_turns_pass_through(
    routes: Seq<(Seq<char>, Seq<char>)>,
    request: JsonView,
    key: Seq<char>,
)
    requires
        previous_id(request) is Some,
        assoc(routes, previous_id(request)->0) is None,
    ensures
        history_step(routes, request, key, None) == Ok::<HistoryStep, BridgeErrorView>(
            HistoryStep::Unchanged,
        ),
{
}

/// A custom provider never gets a turn that this router has not seen.
pub proof fn unknown_turns_fail_closed(
    routes: Seq<(Seq<char>, Seq<char>)>,
    request: JsonView,
    key: Seq<char>,
    provider: ProviderView,
)
    requires
        previous_id(request) is Some,
        assoc(routes, previous_id(request)->0) is None,
    ensures
        history_step(routes, request, key, Some(provider)) == Err::<HistoryStep, BridgeErrorView>(
            unknown_turn(),
        ),
{
}

/// A turn that another route issued never goes on unchanged.
pub proof fn crossing_turns_are_restored(
    routes: Seq<(Seq<char>, Seq<char>)>,
    request: JsonView,
    key: Seq<char>,
    provider: Option<ProviderView>,
)
    requires
        previous_id(request) is Some,
        assoc(routes, previous_id(request)->0) is Some,
        assoc(routes, previous_id(request)->0)->0 != key,
    ensures
        history_step(routes, request, key, provider) == Ok::<HistoryStep, BridgeErrorView>(
            HistoryStep::Restore {
                continues: true,
                has_tool_output: has_tool_output(request),
            },
        ),
{
}

/// Which turn a request continues: the one that it names under `previous_response_id`,
/// where that is a text that is not empty.
pub proof fn turns_are_named_by_the_request(request: JsonView)
    ensures
        match previous_id(request) {
            Some(id) => id.len() > 0 && request.field("previous_response_id"@) == Some(
                JsonView::Str(id),
            ),
            None => !(request.field("previous_response_id"@) is Some && request.field(
                "previous_response_id"@,
            )->0 is Str && request.field("previous_response_id"@)->0->Str_0.len() > 0),
        },
{
}

/// A request holds the output of a tool where one of its input items is of one of the three
/// types of such outputs.
pub proof fn tool_outputs_go_by_type(request: JsonView)
    ensures
        has_tool_output(request) <==> request.field("input"@) is Some && request.field("input"@)->0
            is Array && exists|i: int|
            {
                &&& 0 <= i < request.field("input"@)->0->Array_0.len()
                &&& ({
                    let kind = (#[trigger] request.field("input"@)->0->Array_0[i]).text_field(
                        "type"@,
                    );
                    kind == Some("function_call_output"@) || kind == Some(
                        "custom_tool_call_output"@,
                    ) || kind == Some("tool_search_output"@)
                })
            },
{
    if let Some(JsonView::Array(items)) = request.field("input"@) {
        crate::search::index_where_bounds(items, tool_output());
        let k = crate::search::index_where(items, tool_output());
        if k < items.len() {
            assert(tool_output()(items[k]));
        }
        if exists|i: int|
            0 <= i < items.len() && ({
                let kind = (#[trigger] items[i]).text_field("type"@);
                kind == Some("function_call_output"@) || kind == Some("custom_tool_call_output"@)
                    || kind == Some("tool_search_output"@)
            }) {
            let i = choose|i: int|
                0 <= i < items.len() && ({
                    let kind = (#[trigger] items[i]).text_field("type"@);
                    kind == Some("function_call_output"@) || kind == Some("custom_tool_call_output"@)
                        || kind == Some("tool_search_output"@)
                });
            assert(tool_output()(items[i]));
        }
    }
}

/// A request that begins a thread, or goes on where the turn before was, is left alone on
/// every route but a Chat provider's, which has no memory: there every turn is restored.
pub proof fn turns_are_restored_where_needed(
    routes: Seq<(Seq<char>, Seq<char>)>,
    request: JsonView,
    key: Seq<char>,
    provider: Option<ProviderView>,
)
    ensures
        ({
            let step = history_step(routes, request, key, provider);
            let previous = previous_id(request);
            let chat = provider is Some && provider->0.protocol == ProviderProtocol::ChatCompletions;
            &&& previous is None && !chat ==> step == Ok::<HistoryStep, BridgeErrorView>(
                HistoryStep::Unchanged,
            )
            &&& previous is None && chat ==> step == Ok::<HistoryStep, BridgeErrorView>(
                HistoryStep::Restore {
                    continues: false,
                    has_tool_output: has_tool_output(request),
                },
            )
            &&& previous is Some && assoc(routes, previous->0) == Some(key) && !chat ==> step == Ok::<
                HistoryStep,
                BridgeErrorView,
            >(HistoryStep::Unchanged)
            &&& previous is Some && assoc(routes, previous->0) is Some && chat ==> step == Ok::<
                HistoryStep,
                BridgeErrorView,
            >(HistoryStep::Restore { continues: true, has_tool_output: has_tool_output(request) })
        }),
{
}

/// What was restored goes on as the portable form of the enriched request. Only a request
/// that hands in a tool's output for a turn of which nothing could be restored is refused.
pub proof fn restored_turns_are_portable(
    continues: bool,
    has_output: bool,
    enriched: JsonView,
    restored: usize,
)
    ensures
        !continues || !has_output || restored > 0 ==> history_restored(
            continues,
            has_output,
            enriched,
            restored,
        ) == portable(enriched),
        continues && has_output && restored == 0 ==> history_restored(
            continues,
            has_output,
            enriched,
            restored,
        ) is Err,
{
}

} // verus!
