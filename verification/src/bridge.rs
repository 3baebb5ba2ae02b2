//! The bridge between the Responses and the Chat Completions protocol: what may
//! cross from one route to another, and how each conversion is bound to its route.

use crate::json::{empty_object, json_views, Json, JsonView};
use crate::text::{blank, cat, is_blank, lowered, opt_view, starts_with, str_eq, to_lower};
use vstd::prelude::*;
use vstd::string::*;

verus! {

/// How a Chat provider expects reasoning to be asked for.
#[derive(Debug)]
pub struct CodexChatReasoningConfig {
    pub supports_thinking: Option<bool>,
    pub supports_effort: Option<bool>,
    pub thinking_param: Option<String>,
    pub effort_param: Option<String>,
    pub effort_value_mode: Option<String>,
    pub output_format: Option<String>,
    pub effort_levels: Option<Vec<String>>,
}

/// Why the bridge refuses or fails a conversion.
#[derive(Debug)]
pub enum BridgeError {
    NotObject,
    ContextBoundary(String),
    InvalidResponse(String),
    InvalidSse(String),
    MissingChoice,
    Unsupported(String),
    TransformError(String),
}

/// The model of an error.
pub ghost enum BridgeErrorView {
    NotObject,
    ContextBoundary(Seq<char>),
    InvalidResponse(Seq<char>),
    InvalidSse(Seq<char>),
    MissingChoice,
    Unsupported(Seq<char>),
    TransformError(Seq<char>),
}

impl View for BridgeError {
    type V = BridgeErrorView;

    open spec fn view(&self) -> BridgeErrorView {
        match *self {
            BridgeError::NotObject => BridgeErrorView::NotObject,
            BridgeError::ContextBoundary(s) => BridgeErrorView::ContextBoundary(s@),
            BridgeError::InvalidResponse(s) => BridgeErrorView::InvalidResponse(s@),
            BridgeError::InvalidSse(s) => BridgeErrorView::InvalidSse(s@),
            BridgeError::MissingChoice => BridgeErrorView::MissingChoice,
            BridgeError::Unsupported(s) => BridgeErrorView::Unsupported(s@),
            BridgeError::TransformError(s) => BridgeErrorView::TransformError(s@),
        }
    }
}

impl BridgeErrorView {
    /// The message that reports the error.
    pub open spec fn message(self) -> Seq<char> {
        match self {
            BridgeErrorView::NotObject => "request must be a JSON object"@,
            BridgeErrorView::ContextBoundary(s) => "context boundary: "@ + s,
            BridgeErrorView::InvalidResponse(s) => "invalid upstream response: "@ + s,
            BridgeErrorView::InvalidSse(s) => "invalid SSE stream: "@ + s,
            BridgeErrorView::MissingChoice => "missing Chat Completions choice"@,
            BridgeErrorView::Unsupported(s) => "unsupported protocol bridge operation: "@ + s,
            BridgeErrorView::TransformError(s) => "protocol transformation failed: "@ + s,
        }
    }
}

impl BridgeError {
    /// The message that reports the error.
    pub fn message(&self) -> (r: String)
        ensures
            r@ == self@.message(),
    {
        match self {
            BridgeError::NotObject => "request must be a JSON object".to_owned(),
            BridgeError::ContextBoundary(s) => cat("context boundary: ", s),
            BridgeError::InvalidResponse(s) => cat("invalid upstream response: ", s),
            BridgeError::InvalidSse(s) => cat("invalid SSE stream: ", s),
            BridgeError::MissingChoice => "missing Chat Completions choice".to_owned(),
            BridgeError::Unsupported(s) => cat("unsupported protocol bridge operation: ", s),
            BridgeError::TransformError(s) => cat("protocol transformation failed: ", s),
        }
    }
}

/// The view of a converted value.
pub open spec fn bridge_view(r: Result<Json, BridgeError>) -> Result<JsonView, BridgeErrorView> {
    match r {
        Ok(v) => Ok(v@),
        Err(e) => Err(e@),
    }
}

/// Whose security domain a route belongs to.
#[derive(Debug, Clone, Copy, PartialEq, Eq, Structural)]
pub enum RouteDomain {
    Official,
    Custom,
}

/// The route that a conversion is made for.
#[derive(Debug)]
pub struct BridgeContext {
    pub route_id: String,
    pub generation: u64,
    pub domain: RouteDomain,
    pub account_fingerprint: Option<String>,
    pub upstream_model: String,
}

/// The model of a context.
pub ghost struct BridgeContextView {
    pub route_id: Seq<char>,
    pub generation: u64,
    pub domain: RouteDomain,
    pub account_fingerprint: Option<Seq<char>>,
    pub upstream_model: Seq<char>,
}

impl View for BridgeContext {
    type V = BridgeContextView;

    open spec fn view(&self) -> BridgeContextView {
        BridgeContextView {
            route_id: self.route_id@,
            generation: self.generation,
            domain: self.domain,
            account_fingerprint: opt_view(self.account_fingerprint),
            upstream_model: self.upstream_model@,
        }
    }
}

/// Whether a context names its route and its upstream model.
pub open spec fn context_ok(context: BridgeContextView) -> bool {
    !blank(context.route_id) && !blank(context.upstream_model)
}

/// Why a conversion cannot be made for a context, if it cannot: the context is
/// incomplete, or it belongs to the official domain.
pub open spec fn context_error(context: BridgeContextView, official: Seq<char>) -> Option<
    BridgeErrorView,
> {
    if !context_ok(context) {
        Some(BridgeErrorView::ContextBoundary("route id and upstream model are required"@))
    } else if context.domain != RouteDomain::Custom {
        Some(BridgeErrorView::ContextBoundary(official))
    } else {
        None
    }
}

impl BridgeContext {
    /// Checks that the context names its route and its upstream model.
    pub fn validate(&self) -> (r: Result<(), BridgeError>)
        ensures
            r is Ok <==> context_ok(self@),
            r is Err ==> r->Err_0@ == BridgeErrorView::ContextBoundary(
                "route id and upstream model are required"@,
            ),
    {
        if is_blank(&self.route_id) || is_blank(&self.upstream_model) {
            return Err(
                BridgeError::ContextBoundary("route id and upstream model are required".to_owned()),
            );
        }
        Ok(())
    }

    fn admissible(&self, official: &str) -> (r: Result<(), BridgeError>)
        ensures
            context_error(self@, official@) == (match r {
                Ok(_) => None,
                Err(e) => Some(e@),
            }),
    {
        match self.validate() {
            Ok(_) => {},
            Err(e) => return Err(e),
        }
        if self.domain != RouteDomain::Custom {
            return Err(BridgeError::ContextBoundary(official.to_owned()));
        }
        Ok(())
    }
}

/// The request that a Chat conversion for a context starts from: the client's, with
/// the upstream model in place of the logical one.
pub open spec fn chat_bound(request: JsonView, context: BridgeContextView) -> Result<
    JsonView,
    BridgeErrorView,
> {
    match context_error(context, "official requests cannot enter the Chat adapter"@) {
        Some(e) => Err(e),
        None => if request is Object {
            Ok(request.with("model"@, JsonView::Str(context.upstream_model)))
        } else {
            Err(BridgeErrorView::NotObject)
        },
    }
}

/// Binds a Responses request to the upstream model of its route, for conversion to a
/// Chat request.
pub fn bind_chat_request(request: Json, context: &BridgeContext) -> (r: Result<Json, BridgeError>)
    ensures
        bridge_view(r) == chat_bound(request@, context@),
{
    match context.admissible("official requests cannot enter the Chat adapter") {
        Ok(_) => {},
        Err(e) => return Err(e),
    }
    if !request.is_object() {
        return Err(BridgeError::NotObject);
    }
    Ok(request.with("model", Json::string(&context.upstream_model)))
}

/// What a Responses request for a Chat upstream becomes, given what the conversion of
/// the bound request gave.
pub fn responses_to_chat(
    request: Json,
    context: &BridgeContext,
    converted: Result<Json, String>,
) -> (r: Result<Json, BridgeError>)
    ensures
        bridge_view(r) == (match chat_bound(request@, context@) {
            Err(e) => Err(e),
            Ok(_) => match converted {
                Ok(v) => Ok(v@),
                Err(e) => Err(BridgeErrorView::ContextBoundary(e@)),
            },
        }),
{
    match bind_chat_request(request, context) {
        Err(e) => Err(e),
        Ok(_) => match converted {
            Ok(v) => Ok(v),
            Err(e) => Err(BridgeError::ContextBoundary(e)),
        },
    }
}

/// The model that a client request names, where it names one.
pub open spec fn requested_model(request: JsonView) -> Option<Seq<char>> {
    match request.text_field("model"@) {
        Some(model) => if model.len() > 0 {
            Some(model)
        } else {
            None
        },
        None => None,
    }
}

/// The model that a client request names, where it names one.
pub fn request_model(request: &Json) -> (r: Option<String>)
    ensures
        opt_view(r) == requested_model(request@),
{
    match request.text_field("model") {
        Some(model) => if !model.is_empty() {
            Some(model.to_owned())
        } else {
            None
        },
        None => None,
    }
}

/// The Chat response that a conversion to a Responses response starts from: the
/// upstream's, under the model that the client asked for.
pub open spec fn response_bound(
    response: JsonView,
    context: BridgeContextView,
    request: JsonView,
) -> Result<JsonView, BridgeErrorView> {
    match context_error(context, "official responses cannot be decoded as Chat"@) {
        Some(e) => Err(e),
        None => if response is Object {
            Ok(
                response.with(
                    "model"@,
                    JsonView::Str(
                        match requested_model(request) {
                            Some(model) => model,
                            None => context.upstream_model,
                        },
                    ),
                ),
            )
        } else {
            Err(BridgeErrorView::InvalidResponse("Chat response must be an object"@))
        },
    }
}

/// Puts the model that the client asked for in place of the upstream's private name.
pub fn bind_chat_response(response: Json, context: &BridgeContext, request: &Json) -> (r: Result<
    Json,
    BridgeError,
>)
    ensures
        bridge_view(r) == response_bound(response@, context@, request@),
{
    match context.admissible("official responses cannot be decoded as Chat") {
        Ok(_) => {},
        Err(e) => return Err(e),
    }
    if !response.is_object() {
        return Err(BridgeError::InvalidResponse("Chat response must be an object".to_owned()));
    }
    let model = match request_model(request) {
        Some(model) => model,
        None => context.upstream_model.clone(),
    };
    Ok(response.with("model", Json::Str(model)))
}

/// What a Chat response becomes, given what the conversion of the bound response gave.
pub fn chat_to_responses_with_request(
    response: Json,
    context: &BridgeContext,
    request: &Json,
    converted: Result<Json, String>,
) -> (r: Result<Json, BridgeError>)
    ensures
        bridge_view(r) == (match response_bound(response@, context@, request@) {
            Err(e) => Err(e),
            Ok(_) => match converted {
                Ok(v) => Ok(v@),
                Err(e) => Err(BridgeErrorView::InvalidResponse(e@)),
            },
        }),
{
    match bind_chat_response(response, context, request) {
        Err(e) => Err(e),
        Ok(_) => match converted {
            Ok(v) => Ok(v),
            Err(e) => Err(BridgeError::InvalidResponse(e)),
        },
    }
}

/// What a Chat response becomes where no client request is at hand.
pub fn chat_to_responses(
    response: Json,
    context: &BridgeContext,
    converted: Result<Json, String>,
) -> (r: Result<Json, BridgeError>)
    ensures
        bridge_view(r) == (match response_bound(response@, context@, JsonView::Null) {
            Err(e) => Err(e),
            Ok(_) => match converted {
                Ok(v) => Ok(v@),
                Err(e) => Err(BridgeErrorView::InvalidResponse(e@)),
            },
        }),
{
    chat_to_responses_with_request(response, context, &Json::Null, converted)
}

/// Whether a Chat stream may be decoded for a context, and the model under which its
/// events are reported.
pub fn chat_sse_model(context: &BridgeContext, request: &Json) -> (r: Result<
    Option<String>,
    BridgeError,
>)
    ensures
        match r {
            Ok(model) => {
                &&& context_error(context@, "official responses cannot be decoded as Chat"@) is None
                &&& opt_view(model) == requested_model(request@)
            },
            Err(e) => context_error(context@, "official responses cannot be decoded as Chat"@)
                == Some(e@),
        },
{
    match context.admissible("official responses cannot be decoded as Chat") {
        Ok(_) => Ok(request_model(request)),
        Err(e) => Err(e),
    }
}

/// Whether an item is of the given type.
pub open spec fn typed(item: JsonView, kind: Seq<char>) -> bool {
    item.text_field("type"@) == Some(kind)
}

/// Whether an item is of the given type.
pub fn is_typed(item: &Json, kind: &str) -> (r: bool)
    ensures
        r == typed(item@, kind@),
{
    match item.text_field("type") {
        Some(t) => str_eq(t, kind),
        None => false,
    }
}

/// Whether an item is a call of a tool that the upstream hosts.
pub open spec fn hosted_call(item: JsonView) -> bool {
    typed(item, "web_search_call"@) || typed(item, "computer_call"@) || typed(
        item,
        "file_search_call"@,
    )
}

/// Whether an item is a call of a tool that the upstream hosts.
pub fn is_hosted_call(item: &Json) -> (r: bool)
    ensures
        r == hosted_call(item@),
{
    is_typed(item, "web_search_call") || is_typed(item, "computer_call") || is_typed(
        item,
        "file_search_call",
    )
}

/// Whether an item has a summary with something in it.
pub open spec fn summarised(item: JsonView) -> bool {
    match item.field("summary"@) {
        Some(JsonView::Array(s)) => s.len() > 0,
        _ => false,
    }
}

/// Whether an item has a summary with something in it.
pub fn has_summary(item: &Json) -> (r: bool)
    ensures
        r == summarised(item@),
{
    match item.field("summary") {
        Some(v) => match v.items() {
            Some(s) => {
                assert(json_views(s@).len() == s@.len());
                s.len() > 0
            },
            None => false,
        },
        None => false,
    }
}

/// The item without what only its own route may see.
pub open spec fn without_reasoning_ids(item: JsonView) -> JsonView {
    item.without("id"@).without("encrypted_content"@)
}

/// The item without what only its own route may see.
pub open spec fn without_call_ids(item: JsonView) -> JsonView {
    item.without("id"@).without("status"@)
}

/// What an input item becomes on another route, or why it cannot go there.
pub open spec fn portable_item(item: JsonView) -> Result<JsonView, BridgeErrorView> {
    if typed(item, "reasoning"@) {
        if summarised(without_reasoning_ids(item)) {
            Ok(without_reasoning_ids(item))
        } else {
            Err(BridgeErrorView::ContextBoundary("opaque reasoning has no portable summary"@))
        }
    } else if typed(item, "function_call"@) || typed(item, "custom_tool_call"@) {
        Ok(without_call_ids(item))
    } else if hosted_call(item) {
        Err(BridgeErrorView::ContextBoundary("hosted tool result cannot cross route domains"@))
    } else {
        Ok(item)
    }
}

/// What the input items become on another route; the first item that cannot go there
/// decides the error.
pub open spec fn portable_all(items: Seq<JsonView>) -> Result<Seq<JsonView>, BridgeErrorView>
    decreases items.len(),
{
    if items.len() == 0 {
        Ok(Seq::empty())
    } else {
        match portable_all(items.drop_last()) {
            Err(e) => Err(e),
            Ok(done) => match portable_item(items.last()) {
                Ok(item) => Ok(done.push(item)),
                Err(e) => Err(e),
            },
        }
    }
}

/// The request without the identifiers that belong to its route.
pub open spec fn without_route_ids(request: JsonView) -> JsonView {
    request.without("previous_response_id"@).without("conversation"@).without(
        "encrypted_content"@,
    ).without("prompt_cache_key"@).without("safety_identifier"@)
}

/// What a request becomes on another route, or why it cannot go there.
pub open spec fn portable(request: JsonView) -> Result<JsonView, BridgeErrorView> {
    if !(request is Object) {
        Err(BridgeErrorView::NotObject)
    } else {
        match without_route_ids(request).field("input"@) {
            Some(JsonView::Array(items)) => match portable_all(items) {
                Ok(kept) => Ok(without_route_ids(request).with("input"@, JsonView::Array(kept))),
                Err(e) => Err(e),
            },
            _ => Ok(without_route_ids(request)),
        }
    }
}

/// What an input item becomes on another route.
fn make_portable_item(item: &Json) -> (r: Result<Json, BridgeError>)
    ensures
        bridge_view(r) == portable_item(item@),
{
    if is_typed(item, "reasoning") {
        let item = item.copy().without("id").without("encrypted_content");
        if has_summary(&item) {
            Ok(item)
        } else {
            Err(BridgeError::ContextBoundary("opaque reasoning has no portable summary".to_owned()))
        }
    } else if is_typed(item, "function_call") || is_typed(item, "custom_tool_call") {
        Ok(item.copy().without("id").without("status"))
    } else if is_hosted_call(item) {
        Err(
            BridgeError::ContextBoundary(
                "hosted tool result cannot cross route domains".to_owned(),
            ),
        )
    } else {
        Ok(item.copy())
    }
}

proof fn portable_all_stops(items: Seq<JsonView>, n: int)
    requires
        0 <= n <= items.len(),
        portable_all(items.take(n)) is Err,
    ensures
        portable_all(items) == portable_all(items.take(n)),
    decreases items.len() - n,
{
    if n < items.len() {
        assert(items.take(n + 1).drop_last() =~= items.take(n));
        portable_all_stops(items, n + 1);
    } else {
        assert(items.take(n) =~= items);
    }
}

/// What the input items become on another route.
pub fn portable_items(items: &Vec<Json>) -> (r: Result<Vec<Json>, BridgeError>)
    ensures
        portable_all(json_views(items@)) == (match r {
            Ok(kept) => Ok(json_views(kept@)),
            Err(e) => Err(e@),
        }),
{
    let ghost all = json_views(items@);
    let mut kept: Vec<Json> = Vec::new();
    let mut i: usize = 0;
    assert(json_views(kept@) =~= Seq::empty());
    while i < items.len()
        invariant
            i <= items@.len(),
            all == json_views(items@),
            portable_all(all.take(i as int)) == Ok::<Seq<JsonView>, BridgeErrorView>(
                json_views(kept@),
            ),
        decreases items@.len() - i,
    {
        assert(all.take(i + 1).drop_last() =~= all.take(i as int));
        assert(all.take(i + 1).last() == items@[i as int]@);
        match make_portable_item(&items[i]) {
            Ok(item) => {
                let ghost before = json_views(kept@);
                kept.push(item);
                assert(json_views(kept@) =~= before.push(item@));
            },
            Err(e) => {
                proof {
                    portable_all_stops(all, i + 1);
                }
                return Err(e);
            },
        }
        i = i + 1;
    }
    assert(all.take(i as int) =~= all);
    Ok(kept)
}

/// Takes all route-private identifiers out of a request before it crosses to another
/// route, or says why the request cannot cross.
pub fn portable_request(request: &Json) -> (r: Result<Json, BridgeError>)
    ensures
        bridge_view(r) == portable(request@),
{
    if !request.is_object() {
        return Err(BridgeError::NotObject);
    }
    let stripped = request.copy().without("previous_response_id").without("conversation").without(
        "encrypted_content",
    ).without("prompt_cache_key").without("safety_identifier");
    let kept = match stripped.field("input") {
        Some(input) => match input.items() {
            Some(items) => match portable_items(items) {
                Ok(kept) => Some(kept),
                Err(e) => return Err(e),
            },
            None => None,
        },
        None => None,
    };
    match kept {
        Some(kept) => Ok(stripped.with("input", Json::array(kept))),
        None => Ok(stripped),
    }
}

/// What the history keeps of an output item: nothing of a hosted call, and no private
/// identifier of reasoning or a call.
pub open spec fn kept_output(item: JsonView) -> Option<JsonView> {
    if hosted_call(item) {
        None
    } else if typed(item, "reasoning"@) {
        Some(without_reasoning_ids(item))
    } else if typed(item, "function_call"@) || typed(item, "custom_tool_call"@) || typed(
        item,
        "tool_search_call"@,
    ) {
        Some(without_call_ids(item))
    } else {
        Some(item)
    }
}

/// What the history keeps of the output items, in their order.
pub open spec fn kept_outputs(items: Seq<JsonView>) -> Seq<JsonView>
    decreases items.len(),
{
    if items.len() == 0 {
        Seq::empty()
    } else {
        match kept_output(items.last()) {
            Some(item) => kept_outputs(items.drop_last()).push(item),
            None => kept_outputs(items.drop_last()),
        }
    }
}

/// What the history keeps of a response.
pub open spec fn recorded(response: JsonView) -> JsonView {
    match response.field("output"@) {
        Some(JsonView::Array(items)) => response.with(
            "output"@,
            JsonView::Array(kept_outputs(items)),
        ),
        _ => response,
    }
}

/// The part of a response that the history may keep.
pub fn record_portable_response(response: &Json) -> (r: Json)
    ensures
        r@ == recorded(response@),
{
    let items = match response.field("output") {
        Some(output) => match output.items() {
            Some(items) => items,
            None => return response.copy(),
        },
        None => return response.copy(),
    };
    let ghost all = json_views(items@);
    let mut kept: Vec<Json> = Vec::new();
    let mut i: usize = 0;
    assert(json_views(kept@) =~= Seq::empty());
    while i < items.len()
        invariant
            i <= items@.len(),
            all == json_views(items@),
            json_views(kept@) == kept_outputs(all.take(i as int)),
        decreases items@.len() - i,
    {
        let item = &items[i];
        assert(all.take(i + 1).drop_last() =~= all.take(i as int));
        assert(all.take(i + 1).last() == item@);
        let ghost before = json_views(kept@);
        if is_hosted_call(item) {
        } else if is_typed(item, "reasoning") {
            kept.push(item.copy().without("id").without("encrypted_content"));
            assert(json_views(kept@) =~= before.push(without_reasoning_ids(item@)));
        } else if is_typed(item, "function_call") || is_typed(item, "custom_tool_call") || is_typed(
            item,
            "tool_search_call",
        ) {
            kept.push(item.copy().without("id").without("status"));
            assert(json_views(kept@) =~= before.push(without_call_ids(item@)));
        } else {
            kept.push(item.copy());
            assert(json_views(kept@) =~= before.push(item@));
        }
        i = i + 1;
    }
    assert(all.take(i as int) =~= all);
    response.copy().with("output", Json::array(kept))
}

/// A Responses error object; it holds its two arguments and nothing of an upstream
/// body.
pub fn error_response(kind: &str, message: &str) -> (r: Json)
    ensures
        r@ == empty_object().with(
            "error"@,
            empty_object().with("type"@, JsonView::Str(kind@)).with(
                "message"@,
                JsonView::Str(message@),
            ),
        ),
{
    Json::object().with(
        "error",
        Json::object().with("type", Json::string(kind)).with("message", Json::string(message)),
    )
}

/// Whether a character is an ASCII digit.
pub open spec fn ascii_digit(c: char) -> bool {
    '0' <= c <= '9'
}

/// Whether a model belongs to the `o` series: `o` and a digit.
pub open spec fn o_series(model: Seq<char>) -> bool {
    model.len() > 1 && model[0] == 'o' && ascii_digit(model[1])
}

/// Whether a model takes a reasoning effort.
pub open spec fn takes_effort(model: Seq<char>) -> bool {
    let name = lowered(model);
    ||| o_series(name)
    ||| "gpt-"@.is_prefix_of(name) && name.len() > 4 && '5' <= name[4] <= '9'
    ||| "grok-4.5"@.is_prefix_of(name)
    ||| "grok-build-"@.is_prefix_of(name)
}

/// Whether a model belongs to the `o` series.
pub fn is_openai_o_series(model: &str) -> (r: bool)
    ensures
        r == o_series(model@),
{
    if model.unicode_len() <= 1 {
        return false;
    }
    let second = model.get_char(1);
    model.get_char(0) == 'o' && '0' <= second && second <= '9'
}

/// Whether a model takes a reasoning effort.
pub fn supports_reasoning_effort(model: &str) -> (r: bool)
    ensures
        r == takes_effort(model@),
{
    let name = to_lower(model);
    let name = name.as_str();
    is_openai_o_series(name) || (starts_with(name, "gpt-") && name.unicode_len() > 4 && '5'
        <= name.get_char(4) && name.get_char(4) <= '9') || starts_with(name, "grok-4.5")
        || starts_with(name, "grok-build-")
}

/// A streaming request that asks for usage as well; any other request as it is.
pub open spec fn with_stream_usage(value: JsonView) -> JsonView {
    if value.field("stream"@) == Some(JsonView::Bool(true)) {
        match value.field("stream_options"@) {
            None => value.with(
                "stream_options"@,
                empty_object().with("include_usage"@, JsonView::Bool(true)),
            ),
            Some(options) => value.with(
                "stream_options"@,
                options.with("include_usage"@, JsonView::Bool(true)),
            ),
        }
    } else {
        value
    }
}

/// Makes a streaming request ask for usage as well.
pub fn inject_openai_stream_include_usage(value: &mut Json)
    ensures
        final(value)@ == with_stream_usage(old(value)@),
{
    let streams = match value.field("stream") {
        Some(v) => match v.as_truth() {
            Some(b) => b,
            None => false,
        },
        None => false,
    };
    if !streams {
        return;
    }
    let options = match value.field("stream_options") {
        None => Json::object(),
        Some(options) => options.copy(),
    };
    let updated = value.copy().with(
        "stream_options",
        options.with("include_usage", Json::Bool(true)),
    );
    *value = updated;
}

/// Whether an item may be seen on another route: no call of a hosted tool, no opaque
/// reasoning, and no identifier of the route that made it.
pub open spec fn crosses_safely(item: JsonView) -> bool {
    &&& !hosted_call(item)
    &&& typed(item, "reasoning"@) ==> item.field("id"@) is None && item.field(
        "encrypted_content"@,
    ) is None && summarised(item)
    &&& typed(item, "function_call"@) || typed(item, "custom_tool_call"@) ==> item.field("id"@)
        is None && item.field("status"@) is None
}

proof fn lemma_portable_names_differ()
    ensures
        "type"@ != "id"@,
        "type"@ != "status"@,
        "type"@ != "encrypted_content"@,
        "id"@ != "status"@,
        "id"@ != "encrypted_content"@,
        "input"@ != "previous_response_id"@,
        "input"@ != "conversation"@,
        "input"@ != "encrypted_content"@,
        "input"@ != "prompt_cache_key"@,
        "input"@ != "safety_identifier"@,
        "model"@ != "input"@,
        "reasoning"@ != "function_call"@,
        "reasoning"@ != "custom_tool_call"@,
        "reasoning"@ != "web_search_call"@,
        "reasoning"@ != "computer_call"@,
        "reasoning"@ != "file_search_call"@,
        "function_call"@ != "web_search_call"@,
        "function_call"@ != "computer_call"@,
        "function_call"@ != "file_search_call"@,
        "custom_tool_call"@ != "web_search_call"@,
        "custom_tool_call"@ != "computer_call"@,
        "custom_tool_call"@ != "file_search_call"@,
{
    reveal_strlit("type");
    reveal_strlit("id");
    reveal_strlit("status");
    reveal_strlit("encrypted_content");
    reveal_strlit("input");
    reveal_strlit("previous_response_id");
    reveal_strlit("conversation");
    reveal_strlit("prompt_cache_key");
    reveal_strlit("safety_identifier");
    reveal_strlit("model");
    reveal_strlit("reasoning");
    reveal_strlit("function_call");
    reveal_strlit("custom_tool_call");
    reveal_strlit("web_search_call");
    reveal_strlit("computer_call");
    reveal_strlit("file_search_call");
    assert("type"@.len() == 4 && "type"@[0] == 't');
    assert("id"@.len() == 2 && "id"@[0] == 'i');
    assert("status"@.len() == 6 && "status"@[0] == 's');
    assert("encrypted_content"@.len() == 17 && "encrypted_content"@[0] == 'e');
    assert("input"@.len() == 5 && "input"@[0] == 'i');
    assert("previous_response_id"@.len() == 20 && "previous_response_id"@[0] == 'p');
    assert("conversation"@.len() == 12 && "conversation"@[0] == 'c');
    assert("prompt_cache_key"@.len() == 16 && "prompt_cache_key"@[0] == 'p');
    assert("safety_identifier"@.len() == 17 && "safety_identifier"@[0] == 's');
    assert("model"@.len() == 5 && "model"@[0] == 'm');
    assert("reasoning"@.len() == 9 && "reasoning"@[0] == 'r');
    assert("function_call"@.len() == 13 && "function_call"@[0] == 'f');
    assert("custom_tool_call"@.len() == 16 && "custom_tool_call"@[0] == 'c');
    assert("web_search_call"@.len() == 15 && "web_search_call"@[0] == 'w');
    assert("computer_call"@.len() == 13 && "computer_call"@[0] == 'c');
    assert("file_search_call"@.len() == 16 && "file_search_call"@[0] == 'f');
}

proof fn portable_all_safe(items: Seq<JsonView>)
    requires
        portable_all(items) is Ok,
    ensures
        portable_all(items)->Ok_0.len() == items.len(),
        forall|i: int|
            0 <= i < items.len() ==> crosses_safely(#[trigger] portable_all(items)->Ok_0[i]),
    decreases items.len(),
{
    if items.len() > 0 {
        portable_all_safe(items.drop_last());
        lemma_portable_names_differ();
        let done = portable_all(items.drop_last())->Ok_0;
        let kept = portable_all(items)->Ok_0;
        assert forall|i: int| 0 <= i < items.len() implies crosses_safely(#[trigger] kept[i]) by {
            if i < items.len() - 1 {
                assert(kept[i] == done[i]);
            } else {
                assert(Ok::<JsonView, BridgeErrorView>(kept[i]) == portable_item(items.last()));
            }
        }
    }
}

/// A request that crosses to another route carries none of the identifiers of the
/// route it came from, and every input item is there, fit to be seen.
pub proof fn portable_requests_hold_no_private_ids(request: JsonView)
    requires
        portable(request) is Ok,
    ensures
        ({
            let out = portable(request)->Ok_0;
            &&& out.field("previous_response_id"@) is None
            &&& out.field("conversation"@) is None
            &&& out.field("encrypted_content"@) is None
            &&& out.field("prompt_cache_key"@) is None
            &&& out.field("safety_identifier"@) is None
            &&& (request.field("input"@) is Some && request.field("input"@)->0 is Array ==> {
                &&& out.field("input"@) is Some
                &&& out.field("input"@)->0 is Array
                &&& out.field("input"@)->0->Array_0.len() == request.field("input"@)->0->Array_0.len()
                &&& forall|i: int|
                    0 <= i < out.field("input"@)->0->Array_0.len() ==> crosses_safely(
                        #[trigger] out.field("input"@)->0->Array_0[i],
                    )
            })
        }),
{
    lemma_portable_names_differ();
    assert(without_route_ids(request).field("input"@) == request.field("input"@));
    if let Some(JsonView::Array(items)) = request.field("input"@) {
        portable_all_safe(items);
    }
}

/// What the history keeps of a response holds no call of a hosted tool, no encrypted
/// reasoning and no private id of reasoning.
pub proof fn recorded_outputs_are_scrubbed(items: Seq<JsonView>)
    ensures
        forall|i: int|
            0 <= i < kept_outputs(items).len() ==> {
                let item = #[trigger] kept_outputs(items)[i];
                &&& !hosted_call(item)
                &&& typed(item, "reasoning"@) ==> item.field("id"@) is None && item.field(
                    "encrypted_content"@,
                ) is None
            },
    decreases items.len(),
{
    if items.len() > 0 {
        recorded_outputs_are_scrubbed(items.drop_last());
        lemma_portable_names_differ();
        let less = kept_outputs(items.drop_last());
        let kept = kept_outputs(items);
        assert forall|i: int| 0 <= i < kept.len() implies {
            let item = #[trigger] kept[i];
            &&& !hosted_call(item)
            &&& typed(item, "reasoning"@) ==> item.field("id"@) is None && item.field(
                "encrypted_content"@,
            ) is None
        } by {
            if i < less.len() {
                assert(kept[i] == less[i]);
            } else {
                assert(Some(kept[i]) == kept_output(items.last()));
            }
        }
    }
}

/// The client sees the model that it asked for, never the provider's private name.
pub proof fn the_requested_model_is_echoed(
    response: JsonView,
    context: BridgeContextView,
    request: JsonView,
)
    requires
        response_bound(response, context, request) is Ok,
        requested_model(request) is Some,
    ensures
        response_bound(response, context, request)->Ok_0.text_field("model"@) == requested_model(
            request,
        ),
{
}

/// What becomes of one input item on another route, by the type that it names. Reasoning
/// loses its id and its encrypted content and nothing else, and cannot cross without a
/// summary; a call of a function or a custom tool loses its id and its status and nothing
/// else; a call of a hosted tool cannot cross; every other item crosses as it is.
pub proof fn items_cross_by_their_type(item: JsonView, key: Seq<char>)
    ensures
        ({
            let kind = item.text_field("type"@);
            let out = portable_item(item);
            &&& kind == Some("reasoning"@) ==> {
                &&& out is Ok <==> item.field("summary"@) is Some && item.field("summary"@)->0 is Array
                    && item.field("summary"@)->0->Array_0.len() > 0
                &&& out is Ok && key != "id"@ && key != "encrypted_content"@ ==> out->Ok_0.field(key)
                    == item.field(key)
                &&& out is Ok && (key == "id"@ || key == "encrypted_content"@) ==> out->Ok_0.field(key)
                    is None
                &&& out is Err ==> out->Err_0 == BridgeErrorView::ContextBoundary(
                    "opaque reasoning has no portable summary"@,
                )
            }
            &&& kind == Some("function_call"@) || kind == Some("custom_tool_call"@) ==> {
                &&& out is Ok
                &&& out->Ok_0.field(key) == (if key == "id"@ || key == "status"@ {
                    None
                } else {
                    item.field(key)
                })
            }
            &&& kind == Some("web_search_call"@) || kind == Some("computer_call"@) || kind == Some(
                "file_search_call"@,
            ) ==> out == Err::<JsonView, BridgeErrorView>(
                BridgeErrorView::ContextBoundary("hosted tool result cannot cross route domains"@),
            )
            &&& kind != Some("reasoning"@) && kind != Some("function_call"@) && kind != Some(
                "custom_tool_call"@,
            ) && kind != Some("web_search_call"@) && kind != Some("computer_call"@) && kind != Some(
                "file_search_call"@,
            ) ==> out == Ok::<JsonView, BridgeErrorView>(item)
        }),
{
    lemma_portable_names_differ();
    reveal_strlit("summary");
    reveal_strlit("encrypted_content");
    reveal_strlit("id");
    assert("summary"@.len() == 7);
    assert("encrypted_content"@.len() == 17);
    assert("id"@.len() == 2);
    if item.text_field("type"@) == Some("reasoning"@) {
        assert(without_reasoning_ids(item).field("summary"@) == item.field("summary"@));
    }
}

proof fn portable_all_one_by_one(items: Seq<JsonView>)
    ensures
        match portable_all(items) {
            Ok(out) => {
                &&& out.len() == items.len()
                &&& forall|i: int|
                    0 <= i < items.len() ==> #[trigger] portable_item(items[i]) == Ok::<
                        JsonView,
                        BridgeErrorView,
                    >(out[i])
            },
            Err(e) => exists|i: int|
                {
                    &&& 0 <= i < items.len()
                    &&& #[trigger] portable_item(items[i]) == Err::<JsonView, BridgeErrorView>(e)
                    &&& forall|j: int| 0 <= j < i ==> #[trigger] portable_item(items[j]) is Ok
                },
        },
    decreases items.len(),
{
    if items.len() > 0 {
        let less = items.drop_last();
        portable_all_one_by_one(less);
        let n = items.len() - 1;
        assert forall|j: int| 0 <= j < n implies #[trigger] portable_item(items[j])
            == portable_item(less[j]) by {}
        match portable_all(less) {
            Ok(done) => {
                assert forall|j: int| 0 <= j < n implies #[trigger] portable_item(items[j]) is Ok by {
                    assert(portable_item(less[j]) is Ok);
                }
                match portable_item(items[n]) {
                    Ok(item) => {
                        let out = portable_all(items)->Ok_0;
                        assert forall|i: int| 0 <= i < items.len() implies #[trigger] portable_item(
                            items[i],
                        ) == Ok::<JsonView, BridgeErrorView>(out[i]) by {
                            if i < n {
                                assert(portable_item(less[i]) == Ok::<JsonView, BridgeErrorView>(
                                    done[i],
                                ));
                            }
                        }
                    },
                    Err(e) => {},
                }
            },
            Err(e) => {
                let i = choose|i: int|
                    {
                        &&& 0 <= i < less.len()
                        &&& #[trigger] portable_item(less[i]) == Err::<JsonView, BridgeErrorView>(e)
                        &&& forall|j: int| 0 <= j < i ==> #[trigger] portable_item(less[j]) is Ok
                    };
                assert(portable_item(items[i]) == Err::<JsonView, BridgeErrorView>(e));
                assert forall|j: int| 0 <= j < i implies #[trigger] portable_item(items[j]) is Ok by {
                    assert(portable_item(less[j]) is Ok);
                }
            },
        }
    }
}

/// A request crosses with everything in it but the five identifiers of its route: what
/// stands under any other key stays, an input that is no list stays, and of a listed input
/// every item crosses by itself, in its place. It cannot cross where it is no object or
/// where one of its input items cannot, and the first such item says why.
pub proof fn portable_requests_keep_the_rest(request: JsonView, key: Seq<char>)
    requires
        key != "previous_response_id"@,
        key != "conversation"@,
        key != "encrypted_content"@,
        key != "prompt_cache_key"@,
        key != "safety_identifier"@,
    ensures
        match portable(request) {
            Ok(out) => {
                &&& request is Object && out is Object
                &&& key != "input"@ ==> out.field(key) == request.field(key)
                &&& !(request.field("input"@) is Some && request.field("input"@)->0 is Array)
                    ==> out.field("input"@) == request.field("input"@)
                &&& request.field("input"@) is Some && request.field("input"@)->0 is Array ==> {
                    let given = request.field("input"@)->0->Array_0;
                    let sent = out.field("input"@)->0->Array_0;
                    &&& out.field("input"@) is Some && out.field("input"@)->0 is Array
                    &&& sent.len() == given.len()
                    &&& forall|i: int|
                        0 <= i < given.len() ==> #[trigger] portable_item(given[i]) == Ok::<
                            JsonView,
                            BridgeErrorView,
                        >(sent[i])
                }
            },
            Err(e) => {
                let given = request.field("input"@)->0->Array_0;
                if request is Object {
                    &&& request.field("input"@) is Some && request.field("input"@)->0 is Array
                    &&& exists|i: int|
                        {
                            &&& 0 <= i < given.len()
                            &&& #[trigger] portable_item(given[i]) == Err::<JsonView, BridgeErrorView>(
                                e,
                            )
                            &&& forall|j: int| 0 <= j < i ==> #[trigger] portable_item(given[j]) is Ok
                        }
                } else {
                    e is NotObject
                }
            },
        },
{
    lemma_portable_names_differ();
    assert(without_route_ids(request).field("input"@) == request.field("input"@));
    if let Some(JsonView::Array(items)) = request.field("input"@) {
        portable_all_one_by_one(items);
    }
}

/// A request that is bound for a Chat conversion differs from the client's in its model
/// alone, which is the upstream's. It is bound where the context names its route and its
/// upstream model and is no official one, and the request is an object.
pub proof fn bound_requests_change_the_model_alone(
    request: JsonView,
    context: BridgeContextView,
    key: Seq<char>,
)
    ensures
        ({
            let out = chat_bound(request, context);
            &&& out is Ok <==> request is Object && context.domain == RouteDomain::Custom && !blank(
                context.route_id,
            ) && !blank(context.upstream_model)
            &&& out is Ok ==> out->Ok_0 is Object && out->Ok_0.field("model"@) == Some(
                JsonView::Str(context.upstream_model),
            )
            &&& out is Ok && key != "model"@ ==> out->Ok_0.field(key) == request.field(key)
            &&& out is Err ==> out->Err_0 is NotObject || out->Err_0 is ContextBoundary
            &&& out is Err && out->Err_0 is NotObject ==> !(request is Object)
        }),
{
}

/// A Chat answer that is bound for conversion differs from the upstream's in its model
/// alone: that is the model which the client named, or the upstream's where it named none
/// or an empty one.
pub proof fn bound_answers_change_the_model_alone(
    response: JsonView,
    context: BridgeContextView,
    request: JsonView,
    key: Seq<char>,
)
    ensures
        ({
            let out = response_bound(response, context, request);
            let named = request.text_field("model"@);
            &&& out is Ok <==> response is Object && context.domain == RouteDomain::Custom && !blank(
                context.route_id,
            ) && !blank(context.upstream_model)
            &&& out is Ok && key != "model"@ ==> out->Ok_0.field(key) == response.field(key)
            &&& out is Ok && named is Some && named->0.len() > 0 ==> out->Ok_0.text_field("model"@)
                == named
            &&& out is Ok && (named is None || named->0.len() == 0) ==> out->Ok_0.text_field(
                "model"@,
            ) == Some(context.upstream_model)
        }),
{
}

/// What the history keeps of one output item, by the type that it names: nothing of a call
/// of a hosted tool; reasoning without its id and its encrypted content; a call without
/// its id and its status; every other item as it is.
pub proof fn outputs_are_kept_by_their_type(item: JsonView, key: Seq<char>)
    ensures
        ({
            let kind = item.text_field("type"@);
            let kept = kept_outputs(seq![item]);
            let hosted = kind == Some("web_search_call"@) || kind == Some("computer_call"@) || kind
                == Some("file_search_call"@);
            let call = kind == Some("function_call"@) || kind == Some("custom_tool_call"@) || kind
                == Some("tool_search_call"@);
            &&& kept.len() == (if hosted {
                0int
            } else {
                1
            })
            &&& kind == Some("reasoning"@) ==> kept[0].field(key) == (if key == "id"@ || key
                == "encrypted_content"@ {
                None
            } else {
                item.field(key)
            })
            &&& call ==> kept[0].field(key) == (if key == "id"@ || key == "status"@ {
                None
            } else {
                item.field(key)
            })
            &&& !hosted && !call && kind != Some("reasoning"@) ==> kept[0] == item
        }),
{
    lemma_portable_names_differ();
    reveal_strlit("tool_search_call");
    reveal_strlit("function_call");
    reveal_strlit("custom_tool_call");
    reveal_strlit("web_search_call");
    reveal_strlit("computer_call");
    reveal_strlit("file_search_call");
    reveal_strlit("reasoning");
    assert("tool_search_call"@.len() == 16 && "tool_search_call"@[0] == 't');
    assert("file_search_call"@.len() == 16 && "file_search_call"@[0] == 'f');
    assert("web_search_call"@.len() == 15);
    assert("computer_call"@.len() == 13);
    assert("reasoning"@.len() == 9);
    assert(seq![item].drop_last() =~= Seq::<JsonView>::empty());
    assert(seq![item].last() == item);
    reveal_with_fuel(kept_outputs, 2);
}

/// The history keeps output items one by one and in their order.
pub proof fn outputs_are_kept_in_order(items: Seq<JsonView>, more: Seq<JsonView>)
    ensures
        kept_outputs(items + more) == kept_outputs(items) + kept_outputs(more),
        kept_outputs(Seq::<JsonView>::empty()) == Seq::<JsonView>::empty(),
    decreases more.len(),
{
    if more.len() == 0 {
        assert(items + more =~= items);
        assert(kept_outputs(items) + kept_outputs(more) =~= kept_outputs(items));
    } else {
        outputs_are_kept_in_order(items, more.drop_last());
        assert((items + more).drop_last() =~= items + more.drop_last());
        assert(kept_outputs(items + more) =~= kept_outputs(items) + kept_outputs(more));
    }
}

/// What the history keeps of a response is the response with its list of outputs reduced,
/// and the response itself where it has no such list.
pub proof fn recorded_responses_keep_the_rest(response: JsonView, key: Seq<char>)
    ensures
        key != "output"@ ==> recorded(response).field(key) == response.field(key),
        match response.field("output"@) {
            Some(JsonView::Array(items)) => recorded(response).field("output"@) == Some(
                JsonView::Array(kept_outputs(items)),
            ),
            _ => recorded(response) == response,
        },
{
}

/// A request that streams asks for usage and keeps its other options and fields; one that
/// does not is left alone.
pub proof fn streams_ask_for_usage(value: JsonView, key: Seq<char>)
    ensures
        ({
            let out = with_stream_usage(value);
            let options = value.field("stream_options"@);
            &&& value.field("stream"@) != Some(JsonView::Bool(true)) ==> out == value
            &&& key != "stream_options"@ ==> out.field(key) == value.field(key)
            &&& value.field("stream"@) == Some(JsonView::Bool(true)) ==> {
                &&& out.field("stream_options"@) is Some
                &&& options is None || options->0 is Object ==> out.field("stream_options"@)->0.field(
                    "include_usage"@,
                ) == Some(JsonView::Bool(true))
                &&& key != "include_usage"@ ==> out.field("stream_options"@)->0.field(key) == (
                match options {
                    Some(o) => o.field(key),
                    None => None,
                })
            }
        }),
{
}

/// A model takes a reasoning effort by how its name begins, whatever follows: `gpt-` and a
/// digit from five on, `o` and a digit, `grok-4.5`, and `grok-build-`; capitals do not
/// matter.
pub proof fn efforts_go_by_the_beginning(c: char, rest: Seq<char>)
    ensures
        takes_effort("gpt-"@ + seq![c] + rest) <==> '5' <= c <= '9',
        takes_effort(seq!['o', c] + rest) <==> '0' <= c <= '9',
        takes_effort("grok-4.5"@ + rest),
        takes_effort("grok-build-"@ + rest),
        takes_effort(lowered(rest)) == takes_effort(rest),
{
    reveal_strlit("gpt-");
    reveal_strlit("grok-4.5");
    reveal_strlit("grok-build-");
    let a = lowered("gpt-"@ + seq![c] + rest);
    assert(a[0] == 'g' && a[1] == 'p' && a[2] == 't' && a[3] == '-');
    assert(a[4] == crate::text::lower_char(c));
    assert("grok-4.5"@[1] == 'r');
    assert("grok-build-"@[1] == 'r');
    assert(a.subrange(0, 4) =~= "gpt-"@);
    let b = lowered(seq!['o', c] + rest);
    assert(b[0] == 'o' && b[1] == crate::text::lower_char(c));
    assert("gpt-"@[0] == 'g' && "grok-4.5"@[0] == 'g' && "grok-build-"@[0] == 'g');
    let d = lowered("grok-4.5"@ + rest);
    assert(d.subrange(0, 8) =~= "grok-4.5"@);
    let e = lowered("grok-build-"@ + rest);
    assert(e.subrange(0, 11) =~= "grok-build-"@);
    assert(lowered(lowered(rest)) =~= lowered(rest));
}

} // verus!
