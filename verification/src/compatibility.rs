//! Requests for custom models.
//!
//! Official requests never come here. The transformations keep visible messages,
//! portable tool calls and their outputs, summaries and text parts. Context that
//! cannot be represented safely is refused with an explicit boundary error rather
//! than silently dropped.

use crate::bridge::{has_summary, is_typed, summarised, typed};
use crate::json::{empty_object, json_views, Json, JsonView};
use crate::registry::{CustomModel, ModelCapabilities, ModelView};
use crate::search::kept_where;
use crate::text::{cat, str_eq, views};
use vstd::prelude::*;
use vstd::string::*;

verus! {

/// Why a request cannot be made for a custom model.
#[derive(Debug)]
pub enum CompatibilityError {
    NotObject,
    ContextBoundary(String),
    StreamingProtocolConversion,
}

/// The model of an error.
pub ghost enum CompatibilityErrorView {
    NotObject,
    ContextBoundary(Seq<char>),
    StreamingProtocolConversion,
}

impl View for CompatibilityError {
    type V = CompatibilityErrorView;

    open spec fn view(&self) -> CompatibilityErrorView {
        match *self {
            CompatibilityError::NotObject => CompatibilityErrorView::NotObject,
            CompatibilityError::ContextBoundary(s) => CompatibilityErrorView::ContextBoundary(s@),
            CompatibilityError::StreamingProtocolConversion =>
                CompatibilityErrorView::StreamingProtocolConversion,
        }
    }
}

impl CompatibilityErrorView {
    /// The message that reports the error.
    pub open spec fn message(self) -> Seq<char> {
        match self {
            CompatibilityErrorView::NotObject => "request must be a JSON object"@,
            CompatibilityErrorView::ContextBoundary(s) => "context boundary: "@ + s,
            CompatibilityErrorView::StreamingProtocolConversion =>
                "streaming protocol conversion is not supported between Responses and Chat Completions"@,
        }
    }
}

impl CompatibilityError {
    /// The message that reports the error.
    pub fn message(&self) -> (r: String)
        ensures
            r@ == self@.message(),
    {
        match self {
            CompatibilityError::NotObject => "request must be a JSON object".to_owned(),
            CompatibilityError::ContextBoundary(s) => cat("context boundary: ", s),
            CompatibilityError::StreamingProtocolConversion =>
                "streaming protocol conversion is not supported between Responses and Chat Completions".to_owned(),
        }
    }
}

/// What a preparation changed.
#[derive(Debug)]
pub struct CompatibilityReport {
    pub removed_fields: Vec<String>,
    pub dropped_items: usize,
    pub converted_items: usize,
}

/// The view of a prepared request.
pub open spec fn prepared_view(r: Result<Json, CompatibilityError>) -> Result<
    JsonView,
    CompatibilityErrorView,
> {
    match r {
        Ok(v) => Ok(v@),
        Err(e) => Err(e@),
    }
}

/// Why a content part cannot go to a model of the given capabilities, if it cannot.
pub open spec fn part_error(part: JsonView, caps: ModelCapabilities) -> Option<
    CompatibilityErrorView,
> {
    if (typed(part, "input_image"@) || typed(part, "image_url"@)) && !caps.images {
        Some(
            CompatibilityErrorView::ContextBoundary(
                "image input is not supported by the selected custom model"@,
            ),
        )
    } else if (typed(part, "input_file"@) || typed(part, "file"@)) && !caps.files {
        Some(
            CompatibilityErrorView::ContextBoundary(
                "file input is not supported by the selected custom model"@,
            ),
        )
    } else {
        None
    }
}

/// The first reason why one of the parts cannot go to a model, if there is one.
pub open spec fn parts_error(parts: Seq<JsonView>, caps: ModelCapabilities) -> Option<
    CompatibilityErrorView,
>
    decreases parts.len(),
{
    if parts.len() == 0 {
        None
    } else if part_error(parts[0], caps) is Some {
        part_error(parts[0], caps)
    } else {
        parts_error(parts.drop_first(), caps)
    }
}

/// Why the content of a message cannot go to a model, if it cannot.
pub open spec fn content_error(item: JsonView, caps: ModelCapabilities) -> Option<
    CompatibilityErrorView,
> {
    match item.field("content"@) {
        Some(JsonView::Array(parts)) => parts_error(parts, caps),
        _ => None,
    }
}

/// Whether an item is the call of a tool that an upstream hosts.
pub open spec fn hosted_item(item: JsonView) -> bool {
    typed(item, "web_search_call"@) || typed(item, "computer_call"@) || typed(
        item,
        "file_search_call"@,
    ) || typed(item, "hosted_tool_call"@)
}

/// The reasoning item without what only its own route can read.
pub open spec fn open_reasoning(item: JsonView) -> JsonView {
    item.without("encrypted_content"@).without("id"@)
}

/// What an input item becomes for a model, or why it cannot go there.
pub open spec fn input_item(item: JsonView, caps: ModelCapabilities) -> Result<
    JsonView,
    CompatibilityErrorView,
> {
    if typed(item, "reasoning"@) {
        if summarised(open_reasoning(item)) {
            Ok(open_reasoning(item))
        } else {
            Err(
                CompatibilityErrorView::ContextBoundary(
                    "opaque reasoning has no portable summary"@,
                ),
            )
        }
    } else if hosted_item(item) {
        Err(
            CompatibilityErrorView::ContextBoundary(
                "hosted tool history is not supported by the selected custom model"@,
            ),
        )
    } else if typed(item, "message"@) {
        match content_error(item, caps) {
            Some(e) => Err(e),
            None => Ok(item),
        }
    } else {
        Ok(item)
    }
}

/// What the input items become for a model; the first item that cannot go there
/// decides the error.
pub open spec fn input_items(items: Seq<JsonView>, caps: ModelCapabilities) -> Result<
    Seq<JsonView>,
    CompatibilityErrorView,
>
    decreases items.len(),
{
    if items.len() == 0 {
        Ok(Seq::empty())
    } else {
        match input_items(items.drop_last(), caps) {
            Err(e) => Err(e),
            Ok(done) => match input_item(items.last(), caps) {
                Ok(item) => Ok(done.push(item)),
                Err(e) => Err(e),
            },
        }
    }
}

/// How many items were made readable for another route.
pub open spec fn converted_count(items: Seq<JsonView>) -> nat
    decreases items.len(),
{
    if items.len() == 0 {
        0
    } else {
        converted_count(items.drop_last()) + (if typed(items.last(), "reasoning"@) {
            1nat
        } else {
            0nat
        })
    }
}

/// Tools that are no part of an upstream: functions and custom tools.
pub open spec fn portable_tool() -> spec_fn(JsonView) -> bool {
    |tool: JsonView| typed(tool, "function"@) || typed(tool, "custom"@)
}

/// The portable ones among listed tools; nothing where the value is no list.
pub open spec fn portable_tools(tools: JsonView) -> Seq<JsonView> {
    match tools {
        JsonView::Array(items) => kept_where(items, portable_tool()),
        _ => Seq::empty(),
    }
}

/// The request under the upstream model's id and without the identifiers that belong
/// to the client's own route.
pub open spec fn bound_request(request: JsonView, upstream: Seq<char>) -> JsonView {
    request.with("model"@, JsonView::Str(upstream)).without("previous_response_id"@).without(
        "conversation"@,
    ).without("prompt_cache_key"@).without("safety_identifier"@)
}

/// The request with its tools reduced to those that a model can use.
pub open spec fn with_usable_tools(request: JsonView, caps: ModelCapabilities) -> JsonView {
    match request.field("tools"@) {
        Some(JsonView::Array(items)) => request.with(
            "tools"@,
            JsonView::Array(
                if caps.tools {
                    kept_where(items, portable_tool())
                } else {
                    Seq::empty()
                },
            ),
        ),
        _ => request,
    }
}

/// The request without what a model of the given capabilities cannot do.
pub open spec fn fitted(request: JsonView, caps: ModelCapabilities) -> JsonView {
    let tooled = with_usable_tools(request, caps);
    let reasoned = if caps.reasoning {
        tooled
    } else {
        tooled.without("reasoning"@)
    };
    if caps.streaming {
        reasoned
    } else {
        reasoned.with("stream"@, JsonView::Bool(false))
    }
}

/// What a Responses request becomes for a custom model.
pub open spec fn responses_prepared(request: JsonView, model: ModelView) -> Result<
    JsonView,
    CompatibilityErrorView,
> {
    let caps = model.capabilities;
    if !(request is Object) {
        Err(CompatibilityErrorView::NotObject)
    } else {
        let bound = bound_request(request, model.upstream_model_id);
        match bound.field("input"@) {
            Some(JsonView::Array(items)) => match input_items(items, caps) {
                Ok(kept) => Ok(fitted(bound.with("input"@, JsonView::Array(kept)), caps)),
                Err(e) => Err(e),
            },
            _ => Ok(fitted(bound, caps)),
        }
    }
}

/// What is left of a request whose input was refused: it is bound to the upstream
/// model and its input is gone.
pub open spec fn refused_request(request: JsonView, model: ModelView) -> JsonView {
    if request is Object {
        bound_request(request, model.upstream_model_id).with(
            "input"@,
            JsonView::Array(Seq::empty()),
        )
    } else {
        request
    }
}

proof fn input_items_stop(items: Seq<JsonView>, caps: ModelCapabilities, n: int)
    requires
        0 <= n <= items.len(),
        input_items(items.take(n), caps) is Err,
    ensures
        input_items(items, caps) == input_items(items.take(n), caps),
    decreases items.len() - n,
{
    if n < items.len() {
        assert(items.take(n + 1).drop_last() =~= items.take(n));
        input_items_stop(items, caps, n + 1);
    } else {
        assert(items.take(n) =~= items);
    }
}

/// Why a content part cannot go to a model, if it cannot.
fn refuse_part(part: &Json, caps: ModelCapabilities) -> (r: Option<CompatibilityError>)
    ensures
        part_error(part@, caps) == (match r {
            Some(e) => Some(e@),
            None => None,
        }),
{
    if (is_typed(part, "input_image") || is_typed(part, "image_url")) && !caps.images {
        Some(
            CompatibilityError::ContextBoundary(
                "image input is not supported by the selected custom model".to_owned(),
            ),
        )
    } else if (is_typed(part, "input_file") || is_typed(part, "file")) && !caps.files {
        Some(
            CompatibilityError::ContextBoundary(
                "file input is not supported by the selected custom model".to_owned(),
            ),
        )
    } else {
        None
    }
}

/// Why the content of a message cannot go to a model, if it cannot.
pub fn normalize_message_content(item: &Json, caps: ModelCapabilities) -> (r: Option<
    CompatibilityError,
>)
    ensures
        content_error(item@, caps) == (match r {
            Some(e) => Some(e@),
            None => None,
        }),
{
    let parts = match item.field("content") {
        Some(content) => match content.items() {
            Some(parts) => parts,
            None => return None,
        },
        None => return None,
    };
    let ghost all = json_views(parts@);
    let mut i: usize = 0;
    assert(all.skip(0) =~= all);
    while i < parts.len()
        invariant
            i <= parts@.len(),
            all == json_views(parts@),
            content_error(item@, caps) == parts_error(all.skip(i as int), caps),
        decreases parts@.len() - i,
    {
        let e = refuse_part(&parts[i], caps);
        assert(all.skip(i as int)[0] == parts@[i as int]@);
        if e.is_some() {
            return e;
        }
        assert(all.skip(i as int).drop_first() =~= all.skip(i + 1));
        i = i + 1;
    }
    None
}

/// What an input item becomes for a model.
fn make_input_item(item: &Json, caps: ModelCapabilities) -> (r: Result<Json, CompatibilityError>)
    ensures
        prepared_view(r) == input_item(item@, caps),
{
    if is_typed(item, "reasoning") {
        let item = item.copy().without("encrypted_content").without("id");
        if has_summary(&item) {
            Ok(item)
        } else {
            Err(
                CompatibilityError::ContextBoundary(
                    "opaque reasoning has no portable summary".to_owned(),
                ),
            )
        }
    } else if is_typed(item, "web_search_call") || is_typed(item, "computer_call") || is_typed(
        item,
        "file_search_call",
    ) || is_typed(item, "hosted_tool_call") {
        Err(
            CompatibilityError::ContextBoundary(
                "hosted tool history is not supported by the selected custom model".to_owned(),
            ),
        )
    } else if is_typed(item, "message") {
        match normalize_message_content(item, caps) {
            Some(e) => Err(e),
            None => Ok(item.copy()),
        }
    } else {
        Ok(item.copy())
    }
}

/// What the input items become for a model; the report counts the items that were
/// made readable.
pub fn normalize_input(
    items: &Vec<Json>,
    caps: ModelCapabilities,
    report: &mut CompatibilityReport,
) -> (r: Result<Vec<Json>, CompatibilityError>)
    requires
        old(report).converted_items + items.len() <= usize::MAX,
    ensures
        input_items(json_views(items@), caps) == (match r {
            Ok(kept) => Ok(json_views(kept@)),
            Err(e) => Err(e@),
        }),
        final(report).removed_fields == old(report).removed_fields,
        final(report).dropped_items == old(report).dropped_items,
        r is Ok ==> final(report).converted_items == old(report).converted_items + converted_count(
            json_views(items@),
        ),
        r is Err ==> *final(report) == *old(report),
{
    let ghost all = json_views(items@);
    let mut kept: Vec<Json> = Vec::new();
    let mut converted: usize = 0;
    let mut i: usize = 0;
    assert(json_views(kept@) =~= Seq::empty());
    while i < items.len()
        invariant
            i <= items@.len(),
            all == json_views(items@),
            converted <= i,
            converted == converted_count(all.take(i as int)),
            *report == *old(report),
            input_items(all.take(i as int), caps) == Ok::<Seq<JsonView>, CompatibilityErrorView>(
                json_views(kept@),
            ),
        decreases items@.len() - i,
    {
        assert(all.take(i + 1).drop_last() =~= all.take(i as int));
        assert(all.take(i + 1).last() == items@[i as int]@);
        match make_input_item(&items[i], caps) {
            Ok(item) => {
                let ghost before = json_views(kept@);
                kept.push(item);
                assert(json_views(kept@) =~= before.push(item@));
                if is_typed(&items[i], "reasoning") {
                    converted = converted + 1;
                }
            },
            Err(e) => {
                proof {
                    input_items_stop(all, caps, i + 1);
                }
                return Err(e);
            },
        }
        i = i + 1;
    }
    assert(all.take(i as int) =~= all);
    report.converted_items = report.converted_items + converted;
    Ok(kept)
}

/// The portable ones among listed tools; nothing where the value is no list.
pub fn normalize_tools_value(tools: &Json) -> (r: Vec<Json>)
    ensures
        json_views(r@) == portable_tools(tools@),
{
    let mut kept: Vec<Json> = Vec::new();
    assert(json_views(kept@) =~= Seq::empty());
    let items = match tools.items() {
        Some(items) => items,
        None => return kept,
    };
    let ghost all = json_views(items@);
    let mut i: usize = 0;
    while i < items.len()
        invariant
            i <= items@.len(),
            all == json_views(items@),
            json_views(kept@) == kept_where(all.take(i as int), portable_tool()),
        decreases items@.len() - i,
    {
        let tool = &items[i];
        assert(all.take(i + 1).drop_last() =~= all.take(i as int));
        assert(all.take(i + 1).last() == tool@);
        let ghost before = json_views(kept@);
        if is_typed(tool, "function") || is_typed(tool, "custom") {
            kept.push(tool.copy());
            assert(json_views(kept@) =~= before.push(tool@));
        }
        i = i + 1;
    }
    assert(all.take(i as int) =~= all);
    kept
}

/// The request with its tools reduced to those that a model can use.
pub fn normalize_tools(request: Json, caps: ModelCapabilities) -> (r: Json)
    ensures
        r@ == with_usable_tools(request@, caps),
{
    let kept = match request.field("tools") {
        Some(tools) => if tools.is_array() {
            if caps.tools {
                normalize_tools_value(tools)
            } else {
                Vec::new()
            }
        } else {
            return request;
        },
        None => return request,
    };
    assert(!caps.tools ==> json_views(kept@) =~= Seq::empty());
    request.with("tools", Json::array(kept))
}

/// The names that are taken out of a request, where they are in it.
pub open spec fn removed_from(request: JsonView, fields: Seq<Seq<char>>) -> Seq<Seq<char>>
    decreases fields.len(),
{
    if fields.len() == 0 {
        Seq::empty()
    } else if request.field(fields.last()) is Some {
        removed_from(request, fields.drop_last()).push(fields.last())
    } else {
        removed_from(request, fields.drop_last())
    }
}

/// Takes one field out and reports it where it was there.
fn strip(request: Json, field: &str, report: &mut CompatibilityReport) -> (r: Json)
    ensures
        r@ == request@.without(field@),
        final(report).dropped_items == old(report).dropped_items,
        final(report).converted_items == old(report).converted_items,
        views(final(report).removed_fields@) == (if request@.field(field@) is Some {
            views(old(report).removed_fields@).push(field@)
        } else {
            views(old(report).removed_fields@)
        }),
{
    if request.field(field).is_some() {
        let ghost before = views(report.removed_fields@);
        report.removed_fields.push(field.to_owned());
        assert(views(report.removed_fields@) =~= before.push(field@));
    }
    request.without(field)
}

/// The fields that a Responses request for a custom model never keeps.
pub open spec fn private_fields() -> Seq<Seq<char>> {
    seq![
        "previous_response_id"@,
        "conversation"@,
        "prompt_cache_key"@,
        "safety_identifier"@,
    ]
}

/// The report of a preparation.
pub open spec fn reported(request: JsonView, model: ModelView) -> (Seq<Seq<char>>, nat) {
    let bound = bound_request(request, model.upstream_model_id);
    (
        removed_from(
            request,
            if model.capabilities.reasoning {
                private_fields()
            } else {
                private_fields().push("reasoning"@)
            },
        ),
        match bound.field("input"@) {
            Some(JsonView::Array(items)) => converted_count(items),
            _ => 0,
        },
    )
}

/// Makes a Responses request fit for a custom model, and reports what was changed.
pub fn prepare_with_report(request: &mut Json, model: &CustomModel) -> (r: Result<
    (Json, CompatibilityReport),
    CompatibilityError,
>)
    ensures
        responses_prepared(old(request)@, model@) == (match r {
            Ok((v, _)) => Ok(v@),
            Err(e) => Err(e@),
        }),
        match r {
            Ok((v, report)) => {
                &&& final(request)@ == v@
                &&& report.dropped_items == 0
                &&& (views(report.removed_fields@), report.converted_items as nat) == reported(
                    old(request)@,
                    model@,
                )
            },
            Err(_) => final(request)@ == refused_request(old(request)@, model@),
        },
{
    if !request.is_object() {
        return Err(CompatibilityError::NotObject);
    }
    let caps = model.capabilities;
    let mut report = CompatibilityReport {
        removed_fields: Vec::new(),
        dropped_items: 0,
        converted_items: 0,
    };
    proof {
        lemma_names_differ();
        assert(views(report.removed_fields@) =~= Seq::empty());
        reveal_with_fuel(removed_from, 6);
        let f = private_fields();
        assert(f.drop_last().drop_last().drop_last().drop_last() =~= Seq::empty());
        assert(f.push("reasoning"@).drop_last() =~= f);
    }
    let bound = request.copy().with("model", Json::string(&model.upstream_model_id));
    let bound = strip(bound, "previous_response_id", &mut report);
    let bound = strip(bound, "conversation", &mut report);
    let bound = strip(bound, "prompt_cache_key", &mut report);
    let bound = strip(bound, "safety_identifier", &mut report);
    assert(bound@ == bound_request(old(request)@, model@.upstream_model_id));
    assert(views(report.removed_fields@) =~= removed_from(old(request)@, private_fields()));
    let kept = match bound.field("input") {
        Some(input) => match input.items() {
            Some(items) => match normalize_input(items, caps, &mut report) {
                Ok(kept) => Some(kept),
                Err(e) => {
                    let empty: Vec<Json> = Vec::new();
                    assert(json_views(empty@) =~= Seq::empty());
                    *request = bound.copy().with("input", Json::array(empty));
                    return Err(e);
                },
            },
            None => None,
        },
        None => None,
    };
    let shaped = match kept {
        Some(kept) => bound.with("input", Json::array(kept)),
        None => bound,
    };
    let tooled = normalize_tools(shaped, caps);
    assert(tooled@.field("reasoning"@) == old(request)@.field("reasoning"@));
    let reasoned = if caps.reasoning {
        tooled
    } else {
        strip(tooled, "reasoning", &mut report)
    };
    let done = if caps.streaming {
        reasoned
    } else {
        reasoned.with("stream", Json::Bool(false))
    };
    *request = done.copy();
    Ok((done, report))
}

/// The names of fields that these transformations read and write are distinct.
proof fn lemma_names_differ()
    ensures
        "model"@ != "previous_response_id"@,
        "model"@ != "conversation"@,
        "model"@ != "prompt_cache_key"@,
        "model"@ != "safety_identifier"@,
        "model"@ != "input"@,
        "model"@ != "tools"@,
        "model"@ != "reasoning"@,
        "model"@ != "stream"@,
        "model"@ != "reasoning_effort"@,
        "model"@ != "tool_choice"@,
        "model"@ != "instructions"@,
        "reasoning"@ != "previous_response_id"@,
        "reasoning"@ != "conversation"@,
        "reasoning"@ != "prompt_cache_key"@,
        "reasoning"@ != "safety_identifier"@,
        "reasoning"@ != "input"@,
        "reasoning"@ != "tools"@,
        "reasoning"@ != "stream"@,
        "previous_response_id"@ != "conversation"@,
        "previous_response_id"@ != "prompt_cache_key"@,
        "previous_response_id"@ != "safety_identifier"@,
        "previous_response_id"@ != "input"@,
        "previous_response_id"@ != "tools"@,
        "previous_response_id"@ != "stream"@,
        "conversation"@ != "prompt_cache_key"@,
        "conversation"@ != "safety_identifier"@,
        "conversation"@ != "input"@,
        "conversation"@ != "tools"@,
        "conversation"@ != "stream"@,
        "prompt_cache_key"@ != "safety_identifier"@,
        "prompt_cache_key"@ != "input"@,
        "prompt_cache_key"@ != "tools"@,
        "prompt_cache_key"@ != "stream"@,
        "safety_identifier"@ != "input"@,
        "safety_identifier"@ != "tools"@,
        "safety_identifier"@ != "stream"@,
        "input"@ != "tools"@,
        "input"@ != "stream"@,
        "tools"@ != "stream"@,
        "tools"@ != "reasoning_effort"@,
        "tools"@ != "tool_choice"@,
{
    reveal_strlit("model");
    reveal_strlit("previous_response_id");
    reveal_strlit("conversation");
    reveal_strlit("prompt_cache_key");
    reveal_strlit("safety_identifier");
    reveal_strlit("input");
    reveal_strlit("tools");
    reveal_strlit("reasoning");
    reveal_strlit("stream");
    reveal_strlit("reasoning_effort");
    reveal_strlit("tool_choice");
    reveal_strlit("instructions");
    assert("model"@.len() == 5 && "model"@[0] == 'm');
    assert("previous_response_id"@.len() == 20 && "previous_response_id"@[0] == 'p');
    assert("conversation"@.len() == 12 && "conversation"@[0] == 'c');
    assert("prompt_cache_key"@.len() == 16 && "prompt_cache_key"@[0] == 'p');
    assert("safety_identifier"@.len() == 17 && "safety_identifier"@[0] == 's');
    assert("input"@.len() == 5 && "input"@[0] == 'i');
    assert("tools"@.len() == 5 && "tools"@[0] == 't');
    assert("reasoning"@.len() == 9 && "reasoning"@[0] == 'r');
    assert("stream"@.len() == 6 && "stream"@[0] == 's');
    assert("reasoning_effort"@.len() == 16 && "reasoning_effort"@[0] == 'r');
    assert("tool_choice"@.len() == 11 && "tool_choice"@[0] == 't');
    assert("instructions"@.len() == 12 && "instructions"@[0] == 'i');
}

/// Makes a Responses request fit for a custom model. The request itself ends up as
/// the result, or bound and without its input where that was refused.
pub fn prepare_responses_request(request: &mut Json, model: &CustomModel) -> (r: Result<
    Json,
    CompatibilityError,
>)
    ensures
        prepared_view(r) == responses_prepared(old(request)@, model@),
        final(request)@ == (match r {
            Ok(v) => v@,
            Err(_) => refused_request(old(request)@, model@),
        }),
{
    match prepare_with_report(request, model) {
        Ok((v, _)) => Ok(v),
        Err(e) => Err(e),
    }
}

/// What a Chat request becomes for a custom model that speaks Chat itself.
pub open spec fn chat_prepared(request: JsonView, model: ModelView) -> Result<
    JsonView,
    CompatibilityErrorView,
> {
    let caps = model.capabilities;
    if !(request is Object) {
        Err(CompatibilityErrorView::NotObject)
    } else {
        let bound = request.with("model"@, JsonView::Str(model.upstream_model_id)).without(
            "previous_response_id"@,
        ).without("conversation"@).without("instructions"@).without("input"@);
        let tooled = match bound.field("tools"@) {
            Some(JsonView::Array(items)) => bound.with(
                "tools"@,
                JsonView::Array(kept_where(items, portable_tool())),
            ),
            Some(_) => bound,
            None => if caps.tools {
                bound
            } else {
                bound.without("tool_choice"@)
            },
        };
        if bound.field("tools"@) is Some && !caps.tools {
            Err(CompatibilityErrorView::ContextBoundary("custom model does not support tools"@))
        } else if caps.reasoning {
            Ok(tooled)
        } else {
            Ok(tooled.without("reasoning_effort"@))
        }
    }
}

/// Makes a Chat request fit for a custom model that speaks Chat itself.
pub fn prepare_chat_request(request: &Json, model: &CustomModel) -> (r: Result<
    Json,
    CompatibilityError,
>)
    ensures
        prepared_view(r) == chat_prepared(request@, model@),
{
    if !request.is_object() {
        return Err(CompatibilityError::NotObject);
    }
    let caps = model.capabilities;
    let bound = request.copy().with("model", Json::string(&model.upstream_model_id)).without(
        "previous_response_id",
    ).without("conversation").without("instructions").without("input");
    let kept = match bound.field("tools") {
        Some(tools) => {
            if !caps.tools {
                return Err(
                    CompatibilityError::ContextBoundary(
                        "custom model does not support tools".to_owned(),
                    ),
                );
            }
            if tools.is_array() {
                Some(normalize_tools_value(tools))
            } else {
                None
            }
        },
        None => None,
    };
    let listed = bound.field("tools").is_some();
    let tooled = match kept {
        Some(kept) => bound.with("tools", Json::array(kept)),
        None => if !listed && !caps.tools {
            bound.without("tool_choice")
        } else {
            bound
        },
    };
    if caps.reasoning {
        Ok(tooled)
    } else {
        Ok(tooled.without("reasoning_effort"))
    }
}

/// The role that a message names, `user` where it names none.
pub open spec fn role_of(message: JsonView) -> Seq<char> {
    match message.text_field("role"@) {
        Some(role) => role,
        None => "user"@,
    }
}

/// The content of a message, empty text where it has none.
pub open spec fn content_of(message: JsonView) -> JsonView {
    match message.field("content"@) {
        Some(content) => content,
        None => JsonView::Str(Seq::empty()),
    }
}

/// The Chat message of a role and a content.
pub open spec fn chat_message(role: Seq<char>, content: JsonView) -> JsonView {
    empty_object().with("role"@, JsonView::Str(role)).with("content"@, content)
}

/// The Responses item of a Chat message.
pub open spec fn message_item(message: JsonView) -> JsonView {
    empty_object().with("type"@, JsonView::Str("message"@)).with(
        "role"@,
        JsonView::Str(role_of(message)),
    ).with("content"@, content_of(message))
}

/// The result with those of the given fields that a request has.
pub open spec fn with_fields_of(
    result: JsonView,
    request: JsonView,
    fields: Seq<Seq<char>>,
) -> JsonView
    decreases fields.len(),
{
    if fields.len() == 0 {
        result
    } else {
        let before = with_fields_of(result, request, fields.drop_last());
        match request.field(fields.last()) {
            Some(value) => before.with(fields.last(), value),
            None => before,
        }
    }
}

/// The fields of a Chat request that a Responses request has too.
pub open spec fn shared_fields() -> Seq<Seq<char>> {
    seq!["stream"@, "temperature"@, "max_tokens"@, "tools"@]
}

/// Whether every message is an object.
pub open spec fn all_objects(messages: Seq<JsonView>) -> bool {
    forall|i: int| 0 <= i < messages.len() ==> (#[trigger] messages[i]) is Object
}

/// The Responses request of a Chat request, before it is made fit for a model.
pub open spec fn responses_of_chat(request: JsonView, upstream: Seq<char>) -> JsonView {
    let bound = empty_object().with("model"@, JsonView::Str(upstream));
    let shaped = match request.field("messages"@) {
        Some(JsonView::Array(messages)) => bound.with(
            "input"@,
            JsonView::Array(messages.map_values(|m: JsonView| message_item(m))),
        ),
        _ => bound,
    };
    with_fields_of(shaped, request, shared_fields())
}

/// What a Chat request becomes for a custom model that speaks Responses. A streaming
/// request cannot be converted, whatever it holds, nor can a message that is no object.
pub open spec fn chat_as_responses(request: JsonView, model: ModelView) -> Result<
    JsonView,
    CompatibilityErrorView,
> {
    if !(request is Object) {
        Err(CompatibilityErrorView::NotObject)
    } else if request.field("stream"@) == Some(JsonView::Bool(true)) {
        Err(CompatibilityErrorView::StreamingProtocolConversion)
    } else if request.field("messages"@) is Some && request.field("messages"@)->0 is Array
        && !all_objects(request.field("messages"@)->0->Array_0) {
        Err(
            CompatibilityErrorView::ContextBoundary(
                "a chat message that is no object cannot be represented"@,
            ),
        )
    } else {
        responses_prepared(responses_of_chat(request, model.upstream_model_id), model)
    }
}

/// The role that a message names.
fn message_role(message: &Json) -> (r: String)
    ensures
        r@ == role_of(message@),
{
    match message.text_field("role") {
        Some(role) => role.to_owned(),
        None => "user".to_owned(),
    }
}

/// The content of a message.
fn message_content(message: &Json) -> (r: Json)
    ensures
        r@ == content_of(message@),
{
    match message.field("content") {
        Some(content) => content.copy(),
        None => Json::Str(String::new()),
    }
}

/// Copies one field where it is there.
fn keep_field(result: Json, request: &Json, field: &str) -> (r: Json)
    ensures
        r@ == (match request@.field(field@) {
            Some(value) => result@.with(field@, value),
            None => result@,
        }),
{
    match request.field(field) {
        Some(value) => result.with(field, value.copy()),
        None => result,
    }
}

/// The Responses items of Chat messages; nothing where one of them is no object.
fn message_items(messages: &Vec<Json>) -> (r: Option<Vec<Json>>)
    ensures
        r is Some <==> all_objects(json_views(messages@)),
        r is Some ==> json_views(r->0@) == json_views(messages@).map_values(
            |m: JsonView| message_item(m),
        ),
{
    let ghost all = json_views(messages@);
    let mut out: Vec<Json> = Vec::new();
    let mut i: usize = 0;
    while i < messages.len()
        invariant
            i <= messages@.len(),
            all == json_views(messages@),
            out@.len() == i,
            forall|j: int| 0 <= j < i ==> (#[trigger] all[j]) is Object,
            forall|j: int| 0 <= j < i ==> (#[trigger] out@[j])@ == message_item(all[j]),
        decreases messages@.len() - i,
    {
        let message = &messages[i];
        assert(all[i as int] == message@);
        if !message.is_object() {
            return None;
        }
        out.push(
            Json::object().with("type", Json::string("message")).with(
                "role",
                Json::Str(message_role(message)),
            ).with("content", message_content(message)),
        );
        i = i + 1;
    }
    assert(json_views(out@) =~= all.map_values(|m: JsonView| message_item(m)));
    Some(out)
}

/// Turns a Chat request into a Responses request for a custom model.
pub fn chat_to_responses_request(request: &Json, model: &CustomModel) -> (r: Result<
    Json,
    CompatibilityError,
>)
    ensures
        prepared_view(r) == chat_as_responses(request@, model@),
{
    if !request.is_object() {
        return Err(CompatibilityError::NotObject);
    }
    let streams = match request.field("stream") {
        Some(stream) => match stream.as_truth() {
            Some(b) => b,
            None => false,
        },
        None => false,
    };
    if streams {
        return Err(CompatibilityError::StreamingProtocolConversion);
    }
    let bound = Json::object().with("model", Json::string(&model.upstream_model_id));
    let input = match request.field("messages") {
        Some(messages) => match messages.items() {
            Some(messages) => match message_items(messages) {
                Some(input) => Some(input),
                None => return Err(
                    CompatibilityError::ContextBoundary(
                        "a chat message that is no object cannot be represented".to_owned(),
                    ),
                ),
            },
            None => None,
        },
        None => None,
    };
    let shaped = match input {
        Some(input) => bound.with("input", Json::array(input)),
        None => bound,
    };
    let result = keep_field(shaped, request, "stream");
    let result = keep_field(result, request, "temperature");
    let result = keep_field(result, request, "max_tokens");
    let result = keep_field(result, request, "tools");
    proof {
        let f = shared_fields();
        reveal_with_fuel(with_fields_of, 5);
        assert(f.drop_last() =~= seq!["stream"@, "temperature"@, "max_tokens"@]);
        assert(f.drop_last().drop_last() =~= seq!["stream"@, "temperature"@]);
        assert(f.drop_last().drop_last().drop_last() =~= seq!["stream"@]);
        assert(f.drop_last().drop_last().drop_last().drop_last() =~= Seq::empty());
    }
    let mut result = result;
    prepare_responses_request(&mut result, model)
}

/// Whether an input item is a message: its type says so, or it has none.
pub open spec fn is_message(item: JsonView) -> bool {
    &&& item is Object
    &&& (item.text_field("type"@) is None || item.text_field("type"@) == Some(Seq::<char>::empty())
        || typed(item, "message"@))
}

/// The Chat messages of the input of a Responses request; nothing where the input
/// holds anything but messages.
pub open spec fn input_messages(input: Option<JsonView>) -> Option<Seq<JsonView>> {
    match input {
        Some(JsonView::Str(text)) => Some(seq![chat_message("user"@, JsonView::Str(text))]),
        Some(JsonView::Array(items)) => if forall|i: int|
            0 <= i < items.len() ==> is_message(#[trigger] items[i]) {
            Some(items.map_values(|m: JsonView| chat_message(role_of(m), content_of(m))))
        } else {
            None
        },
        _ => Some(Seq::empty()),
    }
}

/// The message of the instructions of a Responses request.
pub open spec fn system_messages(request: JsonView) -> Seq<JsonView> {
    match request.text_field("instructions"@) {
        Some(text) => seq![chat_message("system"@, JsonView::Str(text))],
        None => Seq::empty(),
    }
}

/// What a Responses request becomes for a custom model that speaks Chat. History that
/// is no message cannot be converted.
pub open spec fn responses_as_chat(request: JsonView, model: ModelView) -> Result<
    JsonView,
    CompatibilityErrorView,
> {
    if !(request is Object) {
        Err(CompatibilityErrorView::NotObject)
    } else {
        match input_messages(request.field("input"@)) {
            None => Err(
                CompatibilityErrorView::ContextBoundary(
                    "non-message history cannot be represented as Chat messages"@,
                ),
            ),
            Some(messages) => {
                let base = empty_object().with(
                    "model"@,
                    JsonView::Str(model.upstream_model_id),
                ).with("messages"@, JsonView::Array(system_messages(request) + messages));
                let streamed = match request.field("stream"@) {
                    Some(stream) => base.with("stream"@, stream),
                    None => base,
                };
                match request.field("tools"@) {
                    Some(tools) => Ok(
                        streamed.with("tools"@, JsonView::Array(portable_tools(tools))),
                    ),
                    None => Ok(streamed),
                }
            },
        }
    }
}

/// Whether an input item is a message.
fn item_is_message(item: &Json) -> (r: bool)
    ensures
        r == is_message(item@),
{
    if !item.is_object() {
        return false;
    }
    match item.text_field("type") {
        None => true,
        Some(kind) => {
            assert(kind@.len() == 0 ==> kind@ =~= Seq::empty());
            kind.is_empty() || str_eq(kind, "message")
        },
    }
}

/// Turns a Responses request into a Chat request for a custom model.
pub fn responses_to_chat_request(request: &Json, model: &CustomModel) -> (r: Result<
    Json,
    CompatibilityError,
>)
    ensures
        prepared_view(r) == responses_as_chat(request@, model@),
{
    if !request.is_object() {
        return Err(CompatibilityError::NotObject);
    }
    let mut messages: Vec<Json> = Vec::new();
    if let Some(instructions) = request.text_field("instructions") {
        messages.push(
            Json::object().with("role", Json::string("system")).with(
                "content",
                Json::string(instructions),
            ),
        );
    }
    let ghost system = json_views(messages@);
    assert(system =~= system_messages(request@));
    if let Some(input) = request.field("input") {
        match input {
            Json::Str(text) => {
                messages.push(
                    Json::object().with("role", Json::string("user")).with(
                        "content",
                        Json::string(text),
                    ),
                );
            },
            Json::Array(items) => {
                proof {
                    crate::json::array_view(*input);
                }
                let ghost all = json_views(items@);
                let mut i: usize = 0;
                assert(json_views(messages@) =~= system + all.take(0).map_values(
                    |m: JsonView| chat_message(role_of(m), content_of(m)),
                ));
                while i < items.len()
                    invariant
                        i <= items@.len(),
                        all == json_views(items@),
                        request@.field("input"@) == Some(JsonView::Array(all)),
                        request@ is Object,
                        forall|j: int| 0 <= j < i ==> is_message(#[trigger] all[j]),
                        json_views(messages@) == system + all.take(i as int).map_values(
                            |m: JsonView| chat_message(role_of(m), content_of(m)),
                        ),
                    decreases items@.len() - i,
                {
                    let item = &items[i];
                    assert(all[i as int] == item@);
                    if !item_is_message(item) {
                        return Err(
                            CompatibilityError::ContextBoundary(
                                "non-message history cannot be represented as Chat messages".to_owned(),
                            ),
                        );
                    }
                    let message = Json::object().with("role", Json::Str(message_role(item))).with(
                        "content",
                        message_content(item),
                    );
                    let ghost before = json_views(messages@);
                    messages.push(message);
                    assert(json_views(messages@) =~= before.push(message@));
                    assert(all.take(i + 1) =~= all.take(i as int).push(item@));
                    assert(json_views(messages@) =~= system + all.take(i + 1).map_values(
                        |m: JsonView| chat_message(role_of(m), content_of(m)),
                    ));
                    i = i + 1;
                }
                assert(all.take(i as int) =~= all);
            },
            _ => {},
        }
    }
    proof {
        let expected = input_messages(request@.field("input"@));
        assert(json_views(messages@) =~= system + expected->0);
    }
    let base = Json::object().with("model", Json::string(&model.upstream_model_id)).with(
        "messages",
        Json::array(messages),
    );
    let streamed = keep_field(base, request, "stream");
    match request.field("tools") {
        Some(tools) => Ok(streamed.with("tools", Json::array(normalize_tools_value(tools)))),
        None => Ok(streamed),
    }
}

/// What an item looks like after preparation: reasoning without encrypted content or
/// id and with a summary, and no call of a hosted tool.
pub open spec fn readable(item: JsonView) -> bool {
    &&& !hosted_item(item)
    &&& typed(item, "reasoning"@) ==> {
        &&& item.field("encrypted_content"@) is None
        &&& item.field("id"@) is None
        &&& summarised(item)
    }
}

proof fn input_items_readable(items: Seq<JsonView>, caps: ModelCapabilities)
    requires
        input_items(items, caps) is Ok,
    ensures
        input_items(items, caps)->Ok_0.len() == items.len(),
        forall|i: int|
            0 <= i < items.len() ==> {
                &&& readable(#[trigger] input_items(items, caps)->Ok_0[i])
                &&& input_item(items[i], caps) == Ok::<JsonView, CompatibilityErrorView>(
                    input_items(items, caps)->Ok_0[i],
                )
            },
    decreases items.len(),
{
    if items.len() > 0 {
        let less = items.drop_last();
        input_items_readable(less, caps);
        let done = input_items(less, caps)->Ok_0;
        let kept = input_items(items, caps)->Ok_0;
        assert forall|i: int| 0 <= i < items.len() implies {
            &&& readable(#[trigger] kept[i])
            &&& input_item(items[i], caps) == Ok::<JsonView, CompatibilityErrorView>(kept[i])
        } by {
            if i < items.len() - 1 {
                assert(kept[i] == done[i]);
                assert(less[i] == items[i]);
            } else {
                lemma_item_names_differ();
                assert(input_item(items.last(), caps) == Ok::<JsonView, CompatibilityErrorView>(
                    kept[i],
                ));
            }
        }
    }
}

proof fn lemma_item_names_differ()
    ensures
        "type"@ != "encrypted_content"@,
        "type"@ != "id"@,
        "id"@ != "encrypted_content"@,
        "reasoning"@ != "web_search_call"@,
        "reasoning"@ != "computer_call"@,
        "reasoning"@ != "file_search_call"@,
        "reasoning"@ != "hosted_tool_call"@,
{
    reveal_strlit("type");
    reveal_strlit("encrypted_content");
    reveal_strlit("id");
    reveal_strlit("reasoning");
    reveal_strlit("web_search_call");
    reveal_strlit("computer_call");
    reveal_strlit("file_search_call");
    reveal_strlit("hosted_tool_call");
    assert("type"@.len() == 4 && "encrypted_content"@.len() == 17 && "id"@.len() == 2);
    assert("reasoning"@.len() == 9 && "web_search_call"@.len() == 15 && "computer_call"@.len()
        == 13);
    assert("file_search_call"@.len() == 16 && "hosted_tool_call"@.len() == 16);
}

/// A prepared request carries the upstream model's id, none of the identifiers that
/// belong to the client's own route, and no item that its new route cannot read; every
/// input item is still there, in its place.
pub proof fn prepared_requests_are_portable(request: JsonView, model: ModelView)
    requires
        responses_prepared(request, model) is Ok,
    ensures
        ({
            let out = responses_prepared(request, model)->Ok_0;
            &&& out.text_field("model"@) == Some(model.upstream_model_id)
            &&& out.field("previous_response_id"@) is None
            &&& out.field("conversation"@) is None
            &&& out.field("prompt_cache_key"@) is None
            &&& out.field("safety_identifier"@) is None
            &&& !model.capabilities.reasoning ==> out.field("reasoning"@) is None
            &&& !model.capabilities.streaming ==> out.field("stream"@) == Some(
                JsonView::Bool(false),
            )
            &&& (request.field("input"@) is Some && request.field("input"@)->0 is Array ==> {
                let items = request.field("input"@)->0->Array_0;
                &&& out.field("input"@) is Some
                &&& out.field("input"@)->0 is Array
                &&& out.field("input"@)->0->Array_0.len() == items.len()
                &&& forall|i: int|
                    0 <= i < items.len() ==> readable(
                        #[trigger] out.field("input"@)->0->Array_0[i],
                    )
            })
        }),
{
    lemma_names_differ();
    let bound = bound_request(request, model.upstream_model_id);
    assert(bound.field("input"@) == request.field("input"@));
    if let Some(JsonView::Array(items)) = bound.field("input"@) {
        input_items_readable(items, model.capabilities);
        assert(responses_prepared(request, model)->Ok_0.field("input"@) == Some(
            JsonView::Array(input_items(items, model.capabilities)->Ok_0),
        ));
    }
}

/// An error message of these transformations is one of a few fixed texts: it never
/// holds anything of the request.
pub proof fn errors_hold_nothing_of_the_request(
    request: JsonView,
    model: ModelView,
)
    requires
        responses_prepared(request, model) is Err,
        responses_prepared(request, model)->Err_0 is ContextBoundary,
    ensures
        ({
            let text = responses_prepared(request, model)->Err_0->ContextBoundary_0;
            ||| text == "opaque reasoning has no portable summary"@
            ||| text == "hosted tool history is not supported by the selected custom model"@
            ||| text == "image input is not supported by the selected custom model"@
            ||| text == "file input is not supported by the selected custom model"@
        }),
{
    let bound = bound_request(request, model.upstream_model_id);
    if let Some(JsonView::Array(items)) = bound.field("input"@) {
        fixed_errors(items, model.capabilities);
    }
}

/// Whether a text is one of the reasons for which an input item is refused.
spec fn fixed_text(text: Seq<char>) -> bool {
    ||| text == "opaque reasoning has no portable summary"@
    ||| text == "hosted tool history is not supported by the selected custom model"@
    ||| text == "image input is not supported by the selected custom model"@
    ||| text == "file input is not supported by the selected custom model"@
}

proof fn fixed_part_errors(parts: Seq<JsonView>, caps: ModelCapabilities)
    ensures
        parts_error(parts, caps) is Some ==> parts_error(parts, caps)->0 is ContextBoundary
            && fixed_text(parts_error(parts, caps)->0->ContextBoundary_0),
    decreases parts.len(),
{
    if parts.len() > 0 {
        fixed_part_errors(parts.drop_first(), caps);
    }
}

proof fn fixed_errors(items: Seq<JsonView>, caps: ModelCapabilities)
    ensures
        input_items(items, caps) is Err ==> input_items(items, caps)->Err_0 is ContextBoundary
            && fixed_text(input_items(items, caps)->Err_0->ContextBoundary_0),
    decreases items.len(),
{
    if items.len() > 0 {
        fixed_errors(items.drop_last(), caps);
        match items.last().field("content"@) {
            Some(JsonView::Array(parts)) => {
                fixed_part_errors(parts, caps);
            },
            _ => {},
        }
    }
}

/// What becomes of one input item for a custom model, by the type that it names. Reasoning
/// loses its id and its encrypted content and nothing else, and needs a summary; calls of
/// hosted tools are refused; a message is refused where it holds an image or a file that the
/// model cannot take; every other item stays as it is.
pub proof fn items_are_prepared_by_their_type(
    item: JsonView,
    caps: ModelCapabilities,
    key: Seq<char>,
)
    ensures
        ({
            let kind = item.text_field("type"@);
            let out = input_item(item, caps);
            let hosted = kind == Some("web_search_call"@) || kind == Some("computer_call"@) || kind
                == Some("file_search_call"@) || kind == Some("hosted_tool_call"@);
            &&& kind == Some("reasoning"@) ==> {
                &&& out is Ok <==> item.field("summary"@) is Some && item.field("summary"@)->0 is Array
                    && item.field("summary"@)->0->Array_0.len() > 0
                &&& out is Ok ==> out->Ok_0.field(key) == (if key == "id"@ || key
                    == "encrypted_content"@ {
                    None
                } else {
                    item.field(key)
                })
            }
            &&& hosted ==> out is Err
            &&& kind == Some("message"@) ==> {
                &&& out is Ok ==> out->Ok_0 == item
                &&& out is Err <==> content_error(item, caps) is Some
            }
            &&& kind != Some("reasoning"@) && !hosted && kind != Some("message"@) ==> out == Ok::<
                JsonView,
                CompatibilityErrorView,
            >(item)
            &&& out is Err ==> out->Err_0 is ContextBoundary
        }),
{
    reveal_strlit("reasoning");
    reveal_strlit("web_search_call");
    reveal_strlit("computer_call");
    reveal_strlit("file_search_call");
    reveal_strlit("hosted_tool_call");
    reveal_strlit("message");
    reveal_strlit("summary");
    reveal_strlit("id");
    reveal_strlit("encrypted_content");
    reveal_strlit("type");
    assert("reasoning"@.len() == 9);
    assert("web_search_call"@.len() == 15);
    assert("computer_call"@.len() == 13);
    assert("file_search_call"@.len() == 16 && "file_search_call"@[0] == 'f');
    assert("hosted_tool_call"@.len() == 16 && "hosted_tool_call"@[0] == 'h');
    assert("message"@.len() == 7 && "message"@[0] == 'm');
    assert("summary"@.len() == 7 && "summary"@[0] == 's');
    assert("id"@.len() == 2);
    assert("encrypted_content"@.len() == 17);
    assert("type"@.len() == 4);
    if item.text_field("type"@) == Some("reasoning"@) {
        assert(open_reasoning(item).field("summary"@) == item.field("summary"@));
    }
    content_errors_go_by_part(item, caps);
}

/// A message is refused exactly where one of the parts of its content is an image for a model
/// without images or a file for a model without files.
pub proof fn content_errors_go_by_part(item: JsonView, caps: ModelCapabilities)
    ensures
        content_error(item, caps) is Some <==> item.field("content"@) is Some && item.field(
            "content"@,
        )->0 is Array && exists|i: int|
            {
                &&& 0 <= i < item.field("content"@)->0->Array_0.len()
                &&& ({
                    let kind = (#[trigger] item.field("content"@)->0->Array_0[i]).text_field(
                        "type"@,
                    );
                    ||| !caps.images && (kind == Some("input_image"@) || kind == Some("image_url"@))
                    ||| !caps.files && (kind == Some("input_file"@) || kind == Some("file"@))
                })
            },
        content_error(item, caps) is Some ==> content_error(item, caps)->0 is ContextBoundary,
{
    if let Some(JsonView::Array(parts)) = item.field("content"@) {
        parts_are_looked_at_one_by_one(parts, caps);
    }
}

proof fn parts_are_looked_at_one_by_one(parts: Seq<JsonView>, caps: ModelCapabilities)
    ensures
        parts_error(parts, caps) is Some <==> exists|i: int|
            {
                &&& 0 <= i < parts.len()
                &&& ({
                    let kind = (#[trigger] parts[i]).text_field("type"@);
                    ||| !caps.images && (kind == Some("input_image"@) || kind == Some("image_url"@))
                    ||| !caps.files && (kind == Some("input_file"@) || kind == Some("file"@))
                })
            },
        parts_error(parts, caps) is Some ==> parts_error(parts, caps)->0 is ContextBoundary,
    decreases parts.len(),
{
    if parts.len() > 0 {
        let rest = parts.drop_first();
        parts_are_looked_at_one_by_one(rest, caps);
        assert forall|i: int| 0 < i < parts.len() implies #[trigger] parts[i] == rest[i - 1] by {}
        if part_error(parts[0], caps) is Some {
            assert(({
                let kind = parts[0].text_field("type"@);
                ||| !caps.images && (kind == Some("input_image"@) || kind == Some("image_url"@))
                ||| !caps.files && (kind == Some("input_file"@) || kind == Some("file"@))
            }));
        } else if parts_error(rest, caps) is Some {
            let j = choose|j: int|
                {
                    &&& 0 <= j < rest.len()
                    &&& ({
                        let kind = (#[trigger] rest[j]).text_field("type"@);
                        ||| !caps.images && (kind == Some("input_image"@) || kind == Some(
                            "image_url"@,
                        ))
                        ||| !caps.files && (kind == Some("input_file"@) || kind == Some("file"@))
                    })
                };
            assert(parts[j + 1] == rest[j]);
        }
    }
}

proof fn input_items_one_by_one(items: Seq<JsonView>, caps: ModelCapabilities)
    ensures
        match input_items(items, caps) {
            Ok(out) => {
                &&& out.len() == items.len()
                &&& forall|i: int|
                    0 <= i < items.len() ==> #[trigger] input_item(items[i], caps) == Ok::<
                        JsonView,
                        CompatibilityErrorView,
                    >(out[i])
            },
            Err(e) => exists|i: int|
                {
                    &&& 0 <= i < items.len()
                    &&& #[trigger] input_item(items[i], caps) == Err::<
                        JsonView,
                        CompatibilityErrorView,
                    >(e)
                },
        },
    decreases items.len(),
{
    if items.len() > 0 {
        let less = items.drop_last();
        input_items_one_by_one(less, caps);
        let n = items.len() - 1;
        match input_items(less, caps) {
            Ok(done) => {
                if input_item(items[n], caps) is Ok {
                    let out = input_items(items, caps)->Ok_0;
                    assert forall|i: int| 0 <= i < items.len() implies #[trigger] input_item(
                        items[i],
                        caps,
                    ) == Ok::<JsonView, CompatibilityErrorView>(out[i]) by {
                        if i < n {
                            assert(input_item(less[i], caps) == Ok::<
                                JsonView,
                                CompatibilityErrorView,
                            >(done[i]));
                        }
                    }
                }
            },
            Err(e) => {
                let i = choose|i: int|
                    {
                        &&& 0 <= i < less.len()
                        &&& #[trigger] input_item(less[i], caps) == Err::<
                            JsonView,
                            CompatibilityErrorView,
                        >(e)
                    };
                assert(input_item(items[i], caps) == Err::<JsonView, CompatibilityErrorView>(e));
            },
        }
    }
}

/// The tools that a custom model is offered are the functions and the custom tools of the
/// request, in their order, where the model can use tools, and none otherwise.
pub proof fn tools_go_by_type(items: Seq<JsonView>, tool: JsonView)
    ensures
        ({
            let kind = tool.text_field("type"@);
            kept_where(items.push(tool), portable_tool()) == (if kind == Some("function"@) || kind
                == Some("custom"@) {
                kept_where(items, portable_tool()).push(tool)
            } else {
                kept_where(items, portable_tool())
            })
        }),
        kept_where(Seq::<JsonView>::empty(), portable_tool()) == Seq::<JsonView>::empty(),
        portable_tools(JsonView::Array(items)) == kept_where(items, portable_tool()),
{
    crate::search::kept_one_by_one(items, tool, portable_tool());
}

/// A request that is prepared for a custom model keeps everything but the identifiers of its
/// route and what the model cannot do: the input goes item by item, the tools are those that
/// the model can use, reasoning and streaming stay where the model has them.
pub proof fn prepared_requests_keep_the_rest(request: JsonView, model: ModelView, key: Seq<char>)
    ensures
        match responses_prepared(request, model) {
            Ok(out) => {
                let caps = model.capabilities;
                let input = request.field("input"@);
                let tools = request.field("tools"@);
                &&& request is Object
                &&& (key != "model"@ && key != "previous_response_id"@ && key != "conversation"@
                    && key != "prompt_cache_key"@ && key != "safety_identifier"@ && key != "input"@
                    && key != "tools"@ && key != "reasoning"@ && key != "stream"@) ==> out.field(key)
                    == request.field(key)
                &&& caps.reasoning ==> out.field("reasoning"@) == request.field("reasoning"@)
                &&& caps.streaming ==> out.field("stream"@) == request.field("stream"@)
                &&& !(tools is Some && tools->0 is Array) ==> out.field("tools"@) == tools
                &&& tools is Some && tools->0 is Array ==> out.field("tools"@) == Some(
                    JsonView::Array(
                        if caps.tools {
                            kept_where(tools->0->Array_0, portable_tool())
                        } else {
                            Seq::empty()
                        },
                    ),
                )
                &&& !(input is Some && input->0 is Array) ==> out.field("input"@) == input
                &&& input is Some && input->0 is Array ==> {
                    let given = input->0->Array_0;
                    let sent = out.field("input"@)->0->Array_0;
                    &&& out.field("input"@) is Some && out.field("input"@)->0 is Array
                    &&& sent.len() == given.len()
                    &&& forall|i: int|
                        0 <= i < given.len() ==> #[trigger] input_item(given[i], caps) == Ok::<
                            JsonView,
                            CompatibilityErrorView,
                        >(sent[i])
                }
            },
            Err(e) => if request is Object {
                let given = request.field("input"@)->0->Array_0;
                &&& request.field("input"@) is Some && request.field("input"@)->0 is Array
                &&& exists|i: int|
                    {
                        &&& 0 <= i < given.len()
                        &&& #[trigger] input_item(given[i], model.capabilities) == Err::<
                            JsonView,
                            CompatibilityErrorView,
                        >(e)
                    }
            } else {
                e is NotObject
            },
        },
{
    reveal_strlit("model");
    reveal_strlit("previous_response_id");
    reveal_strlit("conversation");
    reveal_strlit("prompt_cache_key");
    reveal_strlit("safety_identifier");
    reveal_strlit("input");
    reveal_strlit("tools");
    reveal_strlit("reasoning");
    reveal_strlit("stream");
    assert("model"@.len() == 5 && "model"@[0] == 'm');
    assert("previous_response_id"@.len() == 20);
    assert("conversation"@.len() == 12);
    assert("prompt_cache_key"@.len() == 16);
    assert("safety_identifier"@.len() == 17);
    assert("input"@.len() == 5 && "input"@[0] == 'i');
    assert("tools"@.len() == 5 && "tools"@[0] == 't');
    assert("reasoning"@.len() == 9);
    assert("stream"@.len() == 6);
    if request is Object {
        let bound = bound_request(request, model.upstream_model_id);
        assert(bound.field("input"@) == request.field("input"@));
        assert(bound.field("tools"@) == request.field("tools"@));
        if let Some(JsonView::Array(items)) = request.field("input"@) {
            input_items_one_by_one(items, model.capabilities);
        }
    }
}

/// A Chat request for a custom model keeps everything but what belongs to the Responses
/// protocol: its tools are the functions and the custom tools, and a model without reasoning
/// is asked for no effort. A model without tools takes no request that names some.
pub proof fn chat_requests_keep_the_rest(request: JsonView, model: ModelView, key: Seq<char>)
    ensures
        ({
            let out = chat_prepared(request, model);
            let caps = model.capabilities;
            let tools = request.field("tools"@);
            &&& out is Ok <==> request is Object && (caps.tools || tools is None)
            &&& out is Ok ==> {
                let v = out->Ok_0;
                &&& v.text_field("model"@) == Some(model.upstream_model_id)
                &&& v.field("previous_response_id"@) is None && v.field("conversation"@) is None
                &&& v.field("instructions"@) is None && v.field("input"@) is None
                &&& (key != "model"@ && key != "previous_response_id"@ && key != "conversation"@ && key
                    != "instructions"@ && key != "input"@ && key != "tools"@ && key
                    != "tool_choice"@ && key != "reasoning_effort"@) ==> v.field(key)
                    == request.field(key)
                &&& v.field("reasoning_effort"@) == (if caps.reasoning {
                    request.field("reasoning_effort"@)
                } else {
                    None
                })
                &&& v.field("tool_choice"@) == (if caps.tools {
                    request.field("tool_choice"@)
                } else {
                    None
                })
                &&& tools is Some && tools->0 is Array ==> v.field("tools"@) == Some(
                    JsonView::Array(kept_where(tools->0->Array_0, portable_tool())),
                )
                &&& !(tools is Some && tools->0 is Array) ==> v.field("tools"@) == tools
            }
        }),
{
    reveal_strlit("model");
    reveal_strlit("previous_response_id");
    reveal_strlit("conversation");
    reveal_strlit("instructions");
    reveal_strlit("input");
    reveal_strlit("tools");
    reveal_strlit("tool_choice");
    reveal_strlit("reasoning_effort");
    assert("model"@.len() == 5 && "model"@[0] == 'm');
    assert("previous_response_id"@.len() == 20);
    assert("conversation"@.len() == 12 && "conversation"@[0] == 'c');
    assert("instructions"@.len() == 12 && "instructions"@[0] == 'i');
    assert("input"@.len() == 5 && "input"@[0] == 'i');
    assert("tools"@.len() == 5 && "tools"@[0] == 't');
    assert("tool_choice"@.len() == 11);
    assert("reasoning_effort"@.len() == 16);
    if request is Object {
        let bound = request.with("model"@, JsonView::Str(model.upstream_model_id)).without(
            "previous_response_id"@,
        ).without("conversation"@).without("instructions"@).without("input"@);
        assert(bound.field("tools"@) == request.field("tools"@));
    }
}

/// A Chat request as a Responses request: every message is there in its place, with its role
/// and its content, and the fields that both protocols know are copied; nothing else is.
pub proof fn chat_messages_become_items(request: JsonView, upstream: Seq<char>, key: Seq<char>)
    ensures
        ({
            let out = responses_of_chat(request, upstream);
            let messages = request.field("messages"@);
            &&& out is Object
            &&& out.text_field("model"@) == Some(upstream)
            &&& (key == "stream"@ || key == "temperature"@ || key == "max_tokens"@ || key
                == "tools"@) ==> out.field(key) == request.field(key)
            &&& (key != "stream"@ && key != "temperature"@ && key != "max_tokens"@ && key != "tools"@
                && key != "model"@ && key != "input"@) ==> out.field(key) is None
            &&& !(messages is Some && messages->0 is Array) ==> out.field("input"@) is None
            &&& messages is Some && messages->0 is Array ==> {
                let given = messages->0->Array_0;
                let items = out.field("input"@)->0->Array_0;
                &&& out.field("input"@) is Some && out.field("input"@)->0 is Array
                &&& items.len() == given.len()
                &&& forall|i: int|
                    0 <= i < given.len() ==> {
                        let item = #[trigger] items[i];
                        &&& item.text_field("type"@) == Some("message"@)
                        &&& given[i].text_field("role"@) is Some ==> item.text_field("role"@)
                            == given[i].text_field("role"@)
                        &&& given[i].text_field("role"@) is None ==> item.text_field("role"@) == Some(
                            "user"@,
                        )
                        &&& given[i].field("content"@) is Some ==> item.field("content"@)
                            == given[i].field("content"@)
                        &&& given[i].field("content"@) is None ==> item.field("content"@) == Some(
                            JsonView::Str(Seq::empty()),
                        )
                    }
            }
        }),
{
    reveal_strlit("model");
    reveal_strlit("input");
    reveal_strlit("stream");
    reveal_strlit("temperature");
    reveal_strlit("max_tokens");
    reveal_strlit("tools");
    reveal_strlit("messages");
    reveal_strlit("type");
    reveal_strlit("role");
    reveal_strlit("content");
    assert("model"@.len() == 5 && "model"@[0] == 'm');
    assert("input"@.len() == 5 && "input"@[0] == 'i');
    assert("stream"@.len() == 6);
    assert("temperature"@.len() == 11);
    assert("max_tokens"@.len() == 10);
    assert("tools"@.len() == 5 && "tools"@[0] == 't');
    assert("messages"@.len() == 8);
    assert("type"@.len() == 4 && "type"@[0] == 't');
    assert("role"@.len() == 4 && "role"@[0] == 'r');
    assert("content"@.len() == 7);
    let f = shared_fields();
    reveal_with_fuel(with_fields_of, 5);
    assert(f.drop_last() =~= seq!["stream"@, "temperature"@, "max_tokens"@]);
    assert(f.drop_last().drop_last() =~= seq!["stream"@, "temperature"@]);
    assert(f.drop_last().drop_last().drop_last() =~= seq!["stream"@]);
    assert(f.drop_last().drop_last().drop_last().drop_last() =~= Seq::<Seq<char>>::empty());
    assert(f.last() == "tools"@);
    assert(f.drop_last().last() == "max_tokens"@);
    assert(f.drop_last().drop_last().last() == "temperature"@);
    assert(f.drop_last().drop_last().drop_last().last() == "stream"@);
    if let Some(JsonView::Array(given)) = request.field("messages"@) {
        let items = given.map_values(|m: JsonView| message_item(m));
        let out = responses_of_chat(request, upstream);
        assert(out.field("input"@) == Some(JsonView::Array(items)));
        assert forall|i: int| 0 <= i < given.len() implies #[trigger] items[i] == message_item(
            given[i],
        ) by {}
    }
}

/// A Responses request as a Chat request: the instructions as a system message, then the
/// input, a text as one message of the user and a list message by message with role and
/// content; the stream flag, and the functions and custom tools. Nothing else is sent, and
/// an input that is not made of messages is refused.
pub proof fn input_becomes_chat_messages(request: JsonView, model: ModelView, key: Seq<char>)
    ensures
        ({
            let out = responses_as_chat(request, model);
            let input = request.field("input"@);
            let told = request.text_field("instructions"@) is Some;
            let sent = out->Ok_0.field("messages"@)->0->Array_0;
            let first = if told {
                1int
            } else {
                0
            };
            let listed = input is Some && input->0 is Array;
            &&& out is Ok <==> request is Object && (listed ==> forall|i: int|
                0 <= i < input->0->Array_0.len() ==> is_message(#[trigger] input->0->Array_0[i]))
            &&& out is Ok ==> {
                &&& out->Ok_0.text_field("model"@) == Some(model.upstream_model_id)
                &&& out->Ok_0.field("messages"@) is Some && out->Ok_0.field("messages"@)->0 is Array
                &&& out->Ok_0.field("stream"@) == request.field("stream"@)
                &&& request.field("tools"@) is None ==> out->Ok_0.field("tools"@) is None
                &&& request.field("tools"@) is Some ==> out->Ok_0.field("tools"@) == Some(
                    JsonView::Array(portable_tools(request.field("tools"@)->0)),
                )
                &&& (key != "model"@ && key != "messages"@ && key != "stream"@ && key != "tools"@)
                    ==> out->Ok_0.field(key) is None
                &&& told ==> sent.len() > 0 && sent[0].text_field("role"@) == Some("system"@)
                    && sent[0].text_field("content"@) == request.text_field("instructions"@)
                &&& input is Some && input->0 is Str ==> sent.len() == first + 1
                    && sent[first].text_field("role"@) == Some("user"@) && sent[first].text_field(
                    "content"@,
                ) == Some(input->0->Str_0)
                &&& listed ==> sent.len() == first + input->0->Array_0.len() && forall|i: int|
                    0 <= i < input->0->Array_0.len() ==> {
                        let m = #[trigger] input->0->Array_0[i];
                        &&& sent[first + i].text_field("role"@) == Some(
                            if m.text_field("role"@) is Some {
                                m.text_field("role"@)->0
                            } else {
                                "user"@
                            },
                        )
                        &&& sent[first + i].field("content"@) == Some(
                            if m.field("content"@) is Some {
                                m.field("content"@)->0
                            } else {
                                JsonView::Str(Seq::empty())
                            },
                        )
                    }
                &&& !listed && !(input is Some && input->0 is Str) ==> sent.len() == first
            }
        }),
{
    reveal_strlit("model");
    reveal_strlit("messages");
    reveal_strlit("stream");
    reveal_strlit("tools");
    reveal_strlit("role");
    reveal_strlit("content");
    assert("model"@.len() == 5 && "model"@[0] == 'm');
    assert("messages"@.len() == 8);
    assert("stream"@.len() == 6);
    assert("tools"@.len() == 5 && "tools"@[0] == 't');
    assert("role"@.len() == 4);
    assert("content"@.len() == 7);
    if request is Object && input_messages(request.field("input"@)) is Some {
        let messages = input_messages(request.field("input"@))->0;
        let all = system_messages(request) + messages;
        let out = responses_as_chat(request, model)->Ok_0;
        assert(out.field("messages"@) == Some(JsonView::Array(all)));
        if let Some(JsonView::Array(items)) = request.field("input"@) {
            let first = system_messages(request).len() as int;
            assert forall|i: int| 0 <= i < items.len() implies all[first + i] == chat_message(
                role_of(#[trigger] items[i]),
                content_of(items[i]),
            ) by {
                assert(all[first + i] == messages[i]);
            }
        }
        if let Some(JsonView::Str(text)) = request.field("input"@) {
            let first = system_messages(request).len() as int;
            assert(all[first] == messages[0]);
        }
        if request.text_field("instructions"@) is Some {
            assert(all[0] == system_messages(request)[0]);
        }
    }
}

/// An input item is a message where it is an object whose type says so, is empty, or is not
/// given as a text.
pub proof fn messages_are_told_by_type(item: JsonView)
    ensures
        is_message(item) <==> item is Object && (item.text_field("type"@) is None
            || item.text_field("type"@)->0.len() == 0 || item.text_field("type"@) == Some(
            "message"@,
        )),
{
    if item.text_field("type"@) is Some && item.text_field("type"@)->0.len() == 0 {
        assert(item.text_field("type"@)->0 =~= Seq::<char>::empty());
    }
}

/// A Chat request is converted where it is an object, does not stream and has no message that
/// is no object; it then goes on as the Responses request that it becomes.
pub proof fn chat_requests_are_converted(request: JsonView, model: ModelView)
    ensures
        ({
            let messages = request.field("messages"@);
            let odd = messages is Some && messages->0 is Array && exists|i: int|
                0 <= i < messages->0->Array_0.len() && !((#[trigger] messages->0->Array_0[i]) is Object);
            let out = chat_as_responses(request, model);
            &&& !(request is Object) ==> out is Err && out->Err_0 is NotObject
            &&& request is Object && request.field("stream"@) == Some(JsonView::Bool(true)) ==> out
                is Err && out->Err_0 is StreamingProtocolConversion
            &&& request is Object && request.field("stream"@) != Some(JsonView::Bool(true)) && odd
                ==> out is Err && out->Err_0 is ContextBoundary
            &&& request is Object && request.field("stream"@) != Some(JsonView::Bool(true)) && !odd
                ==> out == responses_prepared(
                responses_of_chat(request, model.upstream_model_id),
                model,
            )
        }),
{
}

/// A report names each field that was taken out of the request, and none that was not there;
/// it counts the reasoning items.
pub proof fn reports_name_what_was_removed(request: JsonView, fields: Seq<Seq<char>>, f: Seq<char>)
    ensures
        removed_from(request, fields).contains(f) <==> fields.contains(f) && request.field(f) is Some,
    decreases fields.len(),
{
    if fields.len() > 0 {
        let less = fields.drop_last();
        reports_name_what_was_removed(request, less, f);
        let before = removed_from(request, less);
        let after = removed_from(request, fields);
        assert(fields.contains(f) <==> less.contains(f) || f == fields.last()) by {
            if fields.contains(f) {
                let i = choose|i: int| 0 <= i < fields.len() && fields[i] == f;
                if i < less.len() {
                    assert(less[i] == f);
                }
            }
            if less.contains(f) {
                let i = choose|i: int| 0 <= i < less.len() && less[i] == f;
                assert(fields[i] == f);
            }
            if f == fields.last() {
                assert(fields[fields.len() - 1] == f);
            }
        }
        if request.field(fields.last()) is Some {
            assert(after == before.push(fields.last()));
            if after.contains(f) {
                let i = choose|i: int| 0 <= i < after.len() && after[i] == f;
                if i < before.len() {
                    assert(before[i] == f);
                }
            }
            if before.contains(f) {
                let i = choose|i: int| 0 <= i < before.len() && before[i] == f;
                assert(after[i] == f);
            }
            if f == fields.last() {
                assert(after[before.len() as int] == f);
            }
        }
    }
}

/// What a report names: each of the four identifiers of the route that was in the request, and
/// the reasoning of a request for a model without reasoning; it counts the reasoning items.
pub proof fn reports_tell_what_was_done(request: JsonView, model: ModelView, f: Seq<char>)
    requires
        request is Object,
    ensures
        ({
            let (removed, converted) = reported(request, model);
            let private = f == "previous_response_id"@ || f == "conversation"@ || f
                == "prompt_cache_key"@ || f == "safety_identifier"@;
            &&& removed.contains(f) <==> request.field(f) is Some && (private || (f == "reasoning"@
                && !model.capabilities.reasoning))
            &&& request.field("input"@) is Some && request.field("input"@)->0 is Array ==> converted
                == converted_count(request.field("input"@)->0->Array_0)
            &&& !(request.field("input"@) is Some && request.field("input"@)->0 is Array)
                ==> converted == 0
        }),
{
    reveal_strlit("model");
    reveal_strlit("previous_response_id");
    reveal_strlit("conversation");
    reveal_strlit("prompt_cache_key");
    reveal_strlit("safety_identifier");
    reveal_strlit("input");
    reveal_strlit("reasoning");
    assert("model"@.len() == 5 && "model"@[0] == 'm');
    assert("previous_response_id"@.len() == 20);
    assert("conversation"@.len() == 12);
    assert("prompt_cache_key"@.len() == 16);
    assert("safety_identifier"@.len() == 17);
    assert("input"@.len() == 5 && "input"@[0] == 'i');
    assert("reasoning"@.len() == 9);
    let bound = bound_request(request, model.upstream_model_id);
    assert(bound.field("input"@) == request.field("input"@));
    let p = private_fields();
    let fields = if model.capabilities.reasoning {
        p
    } else {
        p.push("reasoning"@)
    };
    reports_name_what_was_removed(request, fields, f);
    assert(p[0] == "previous_response_id"@ && p[1] == "conversation"@ && p[2] == "prompt_cache_key"@
        && p[3] == "safety_identifier"@);
    assert(fields[0] == p[0] && fields[1] == p[1] && fields[2] == p[2] && fields[3] == p[3]);
    if !model.capabilities.reasoning {
        assert(fields[4] == "reasoning"@);
    }
}

/// Reasoning items are counted one by one.
pub proof fn reasoning_items_are_counted(items: Seq<JsonView>, item: JsonView)
    ensures
        converted_count(Seq::<JsonView>::empty()) == 0,
        converted_count(items.push(item)) == converted_count(items) + (if item.text_field("type"@)
            == Some("reasoning"@) {
            1int
        } else {
            0
        }),
{
    assert(items.push(item).drop_last() =~= items);
}

} // verus!
