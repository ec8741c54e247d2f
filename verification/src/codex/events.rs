//! The events that the coding agent reports.

use vstd::prelude::*;
use vstd::string::*;

use crate::json;
use crate::json::{Json, JsonView, Number, NumberView};
use crate::text;

verus! {

/// An event of the coding agent.
#[derive(Debug, PartialEq)]
pub enum CodexEvent {
    TurnCompleted { turn_id: String },
    TurnFailed { turn_id: String, error: String },
    TurnCancelled { turn_id: String },
    TokenUsage { input_tokens: u64, output_tokens: u64, total_tokens: u64 },
    RateLimit { payload: Json },
    ApprovalRequest { id: Json, payload: Json },
    ToolCall { id: Json, name: String, params: Json },
    UserInputRequired,
    Unknown(Json),
}

/// The model of an event.
pub enum EventView {
    TurnCompleted { turn_id: Seq<char> },
    TurnFailed { turn_id: Seq<char>, error: Seq<char> },
    TurnCancelled { turn_id: Seq<char> },
    TokenUsage { input_tokens: u64, output_tokens: u64, total_tokens: u64 },
    RateLimit { payload: JsonView },
    ApprovalRequest { id: JsonView, payload: JsonView },
    ToolCall { id: JsonView, name: Seq<char>, params: JsonView },
    UserInputRequired,
    Unknown(JsonView),
}

impl View for CodexEvent {
    type V = EventView;

    open spec fn view(&self) -> EventView {
        match self {
            CodexEvent::TurnCompleted { turn_id } => EventView::TurnCompleted { turn_id: turn_id@ },
            CodexEvent::TurnFailed { turn_id, error } => EventView::TurnFailed {
                turn_id: turn_id@,
                error: error@,
            },
            CodexEvent::TurnCancelled { turn_id } => EventView::TurnCancelled { turn_id: turn_id@ },
            CodexEvent::TokenUsage { input_tokens, output_tokens, total_tokens } =>
                EventView::TokenUsage {
                input_tokens: *input_tokens,
                output_tokens: *output_tokens,
                total_tokens: *total_tokens,
            },
            CodexEvent::RateLimit { payload } => EventView::RateLimit { payload: payload@ },
            CodexEvent::ApprovalRequest { id, payload } => EventView::ApprovalRequest {
                id: id@,
                payload: payload@,
            },
            CodexEvent::ToolCall { id, name, params } => EventView::ToolCall {
                id: id@,
                name: name@,
                params: params@,
            },
            CodexEvent::UserInputRequired => EventView::UserInputRequired,
            CodexEvent::Unknown(msg) => EventView::Unknown(msg@),
        }
    }
}

/// A member of an object, or null.
pub open spec fn member_or_null(value: JsonView, key: Seq<char>) -> JsonView {
    match json::member(value, key) {
        Some(v) => v,
        None => JsonView::Null,
    }
}

/// A member of a member, where it is text.
pub open spec fn nested_text(value: JsonView, outer: Seq<char>, inner: Seq<char>) -> Option<
    Seq<char>,
> {
    match json::member(value, outer) {
        Some(v) => json::text_member(v, inner),
        None => None,
    }
}

/// The first of two optional texts.
pub open spec fn either(a: Option<Seq<char>>, b: Option<Seq<char>>) -> Option<Seq<char>> {
    if a is Some {
        a
    } else {
        b
    }
}

/// A text, or another where there is none.
pub open spec fn text_or(a: Option<Seq<char>>, default: Seq<char>) -> Seq<char> {
    match a {
        Some(s) => s,
        None => default,
    }
}

/// The turn that a message speaks of.
pub open spec fn turn_id_of(msg: JsonView) -> Seq<char> {
    let params = member_or_null(msg, "params"@);
    text_or(
        either(
            json::text_member(params, "turnId"@),
            either(
                json::text_member(params, "turn_id"@),
                either(
                    nested_text(params, "turn"@, "id"@),
                    either(
                        json::text_member(msg, "turnId"@),
                        json::text_member(msg, "turn_id"@),
                    ),
                ),
            ),
        ),
        Seq::empty(),
    )
}

/// A text that is not empty.
pub open spec fn not_empty(a: Option<Seq<char>>) -> Option<Seq<char>> {
    match a {
        Some(s) => if s.len() > 0 {
            Some(s)
        } else {
            None
        },
        None => None,
    }
}

/// Why a turn failed.
pub open spec fn failure_of(msg: JsonView) -> Seq<char> {
    let params = member_or_null(msg, "params"@);
    text_or(
        either(
            not_empty(json::text_member(params, "error"@)),
            either(
                not_empty(nested_text(params, "error"@, "message"@)),
                not_empty(json::text_member(params, "message"@)),
            ),
        ),
        "turn_failed"@,
    )
}

/// The tool that a message calls.
pub open spec fn tool_name_of(msg: JsonView) -> Seq<char> {
    let params = member_or_null(msg, "params"@);
    text_or(
        either(
            json::text_member(params, "name"@),
            either(
                json::text_member(params, "toolName"@),
                either(
                    json::text_member(params, "tool_name"@),
                    nested_text(params, "tool"@, "name"@),
                ),
            ),
        ),
        Seq::empty(),
    )
}

/// The arguments that a message calls a tool with.
pub open spec fn tool_params_of(msg: JsonView) -> JsonView {
    let params = member_or_null(msg, "params"@);
    match json::member(params, "params"@) {
        Some(v) => v,
        None => match json::member(params, "arguments"@) {
            Some(v) => v,
            None => match json::member(params, "input"@) {
                Some(v) => v,
                None => params,
            },
        },
    }
}

/// The count that a value stands for: a whole number, or its decimal text.
pub open spec fn count_of(value: JsonView) -> Option<u64> {
    match value {
        JsonView::Number(NumberView::Unsigned(n)) => Some(n),
        JsonView::Text(s) => match text::unsigned_value(s) {
            Some(n) => if n <= u64::MAX {
                Some(n as u64)
            } else {
                None
            },
            None => None,
        },
        _ => None,
    }
}

/// A member that is a count.
pub open spec fn count_member(value: Option<JsonView>, key: Seq<char>) -> Option<u64> {
    match value {
        Some(v) => match json::member(v, key) {
            Some(m) => count_of(m),
            None => None,
        },
        None => None,
    }
}

/// The first of two optional counts.
pub open spec fn either_count(a: Option<u64>, b: Option<u64>) -> Option<u64> {
    if a is Some {
        a
    } else {
        b
    }
}

/// A count that may go by two names, at the top of a payload or in its `tokenUsage` or
/// `total_token_usage`.
pub open spec fn find_count(payload: JsonView, snake: Seq<char>, camel: Seq<char>) -> Option<u64> {
    let top = Some(payload);
    let usage = json::member(payload, "tokenUsage"@);
    let total = json::member(payload, "total_token_usage"@);
    either_count(
        count_member(top, snake),
        either_count(
            count_member(top, camel),
            either_count(
                count_member(usage, snake),
                either_count(
                    count_member(usage, camel),
                    either_count(count_member(total, snake), count_member(total, camel)),
                ),
            ),
        ),
    )
}

/// The token counts of a payload: input, output and total, where it has all three.
pub open spec fn token_usage_of(payload: JsonView) -> Option<(u64, u64, u64)> {
    match (
        find_count(payload, "input_tokens"@, "inputTokens"@),
        find_count(payload, "output_tokens"@, "outputTokens"@),
        find_count(payload, "total_tokens"@, "totalTokens"@),
    ) {
        (Some(input), Some(output), Some(total)) => Some((input, output, total)),
        _ => None,
    }
}

/// The event that a message reports.
pub open spec fn event_of(msg: JsonView) -> EventView {
    match json::text_member(msg, "method"@) {
        None => EventView::Unknown(msg),
        Some(method) => if method == "turn/completed"@ {
            EventView::TurnCompleted { turn_id: turn_id_of(msg) }
        } else if method == "turn/failed"@ {
            EventView::TurnFailed { turn_id: turn_id_of(msg), error: failure_of(msg) }
        } else if method == "turn/cancelled"@ {
            EventView::TurnCancelled { turn_id: turn_id_of(msg) }
        } else if method == "thread/tokenUsage/updated"@ {
            match token_usage_of(member_or_null(msg, "params"@)) {
                Some((input_tokens, output_tokens, total_tokens)) => EventView::TokenUsage {
                    input_tokens,
                    output_tokens,
                    total_tokens,
                },
                None => EventView::Unknown(msg),
            }
        } else if method == "codex/rateLimit"@ {
            EventView::RateLimit { payload: member_or_null(msg, "params"@) }
        } else if method == "approval/required"@ {
            EventView::ApprovalRequest {
                id: member_or_null(msg, "id"@),
                payload: member_or_null(msg, "params"@),
            }
        } else if method == "tool/call"@ || method == "item/tool/call"@ {
            EventView::ToolCall {
                id: member_or_null(msg, "id"@),
                name: tool_name_of(msg),
                params: tool_params_of(msg),
            }
        } else if method == "user/inputRequired"@ {
            EventView::UserInputRequired
        } else {
            EventView::Unknown(msg)
        },
    }
}

fn get_or_null(value: &Json, key: &str) -> (r: Json)
    ensures
        r@ == member_or_null(value@, key@),
{
    match value.get(key) {
        Some(v) => v.clone(),
        None => Json::Null,
    }
}

/// The text of a member.
pub(crate) fn get_text<'a>(value: &'a Json, key: &str) -> (r: Option<&'a str>)
    ensures
        match r {
            Some(s) => json::text_member(value@, key@) == Some(s@),
            None => json::text_member(value@, key@) is None,
        },
{
    match value.get(key) {
        Some(v) => v.as_str(),
        None => None,
    }
}

fn get_nested_text<'a>(value: &'a Json, outer: &str, inner: &str) -> (r: Option<&'a str>)
    ensures
        match r {
            Some(s) => nested_text(value@, outer@, inner@) == Some(s@),
            None => nested_text(value@, outer@, inner@) is None,
        },
{
    match value.get(outer) {
        Some(v) => get_text(v, inner),
        None => None,
    }
}

fn extract_turn_id(msg: &Json) -> (r: String)
    ensures
        r@ == turn_id_of(msg@),
{
    let params = get_or_null(msg, "params");
    if let Some(s) = get_text(&params, "turnId") {
        return s.to_owned();
    }
    if let Some(s) = get_text(&params, "turn_id") {
        return s.to_owned();
    }
    if let Some(s) = get_nested_text(&params, "turn", "id") {
        return s.to_owned();
    }
    if let Some(s) = get_text(msg, "turnId") {
        return s.to_owned();
    }
    match get_text(msg, "turn_id") {
        Some(s) => s.to_owned(),
        None => String::new(),
    }
}

fn extract_error(msg: &Json) -> (r: String)
    ensures
        r@ == failure_of(msg@),
{
    let params = get_or_null(msg, "params");
    if let Some(s) = get_text(&params, "error") {
        if !s.is_empty() {
            return s.to_owned();
        }
    }
    if let Some(s) = get_nested_text(&params, "error", "message") {
        if !s.is_empty() {
            return s.to_owned();
        }
    }
    if let Some(s) = get_text(&params, "message") {
        if !s.is_empty() {
            return s.to_owned();
        }
    }
    "turn_failed".to_owned()
}

fn extract_tool_name(msg: &Json) -> (r: String)
    ensures
        r@ == tool_name_of(msg@),
{
    let params = get_or_null(msg, "params");
    if let Some(s) = get_text(&params, "name") {
        return s.to_owned();
    }
    if let Some(s) = get_text(&params, "toolName") {
        return s.to_owned();
    }
    if let Some(s) = get_text(&params, "tool_name") {
        return s.to_owned();
    }
    match get_nested_text(&params, "tool", "name") {
        Some(s) => s.to_owned(),
        None => String::new(),
    }
}

fn extract_tool_params(msg: &Json) -> (r: Json)
    ensures
        r@ == tool_params_of(msg@),
{
    let params = get_or_null(msg, "params");
    if let Some(v) = params.get("params") {
        return v.clone();
    }
    if let Some(v) = params.get("arguments") {
        return v.clone();
    }
    if let Some(v) = params.get("input") {
        return v.clone();
    }
    params
}

fn to_u64(value: &Json) -> (r: Option<u64>)
    ensures
        r == count_of(value@),
{
    match value {
        Json::Number(Number::Unsigned(n)) => Some(*n),
        Json::Text(s) => text::parse_u64(s.as_str()),
        _ => None,
    }
}

fn get_count(value: Option<&Json>, key: &str) -> (r: Option<u64>)
    ensures
        r == count_member(
            match value {
                Some(v) => Some(v@),
                None => None,
            },
            key@,
        ),
{
    match value {
        Some(v) => match v.get(key) {
            Some(m) => to_u64(m),
            None => None,
        },
        None => None,
    }
}

fn find_u64(payload: &Json, snake: &str, camel: &str) -> (r: Option<u64>)
    ensures
        r == find_count(payload@, snake@, camel@),
{
    let usage = payload.get("tokenUsage");
    let total = payload.get("total_token_usage");
    if let Some(n) = get_count(Some(payload), snake) {
        return Some(n);
    }
    if let Some(n) = get_count(Some(payload), camel) {
        return Some(n);
    }
    if let Some(n) = get_count(usage, snake) {
        return Some(n);
    }
    if let Some(n) = get_count(usage, camel) {
        return Some(n);
    }
    if let Some(n) = get_count(total, snake) {
        return Some(n);
    }
    get_count(total, camel)
}

fn extract_token_usage(payload: &Json) -> (r: Option<(u64, u64, u64)>)
    ensures
        r == token_usage_of(payload@),
{
    let input = find_u64(payload, "input_tokens", "inputTokens");
    let output = find_u64(payload, "output_tokens", "outputTokens");
    let total = find_u64(payload, "total_tokens", "totalTokens");
    match (input, output, total) {
        (Some(input), Some(output), Some(total)) => Some((input, output, total)),
        _ => None,
    }
}

/// The event that a message reports.
pub fn parse_event(msg: &Json) -> (r: CodexEvent)
    ensures
        r@ == event_of(msg@),
{
    let method = match get_text(msg, "method") {
        Some(method) => method,
        None => {
            return CodexEvent::Unknown(msg.clone());
        },
    };
    if text::same(method, "turn/completed") {
        return CodexEvent::TurnCompleted { turn_id: extract_turn_id(msg) };
    }
    if text::same(method, "turn/failed") {
        return CodexEvent::TurnFailed {
            turn_id: extract_turn_id(msg),
            error: extract_error(msg),
        };
    }
    if text::same(method, "turn/cancelled") {
        return CodexEvent::TurnCancelled { turn_id: extract_turn_id(msg) };
    }
    if text::same(method, "thread/tokenUsage/updated") {
        return match extract_token_usage(&get_or_null(msg, "params")) {
            Some((input_tokens, output_tokens, total_tokens)) => CodexEvent::TokenUsage {
                input_tokens,
                output_tokens,
                total_tokens,
            },
            None => CodexEvent::Unknown(msg.clone()),
        };
    }
    if text::same(method, "codex/rateLimit") {
        return CodexEvent::RateLimit { payload: get_or_null(msg, "params") };
    }
    if text::same(method, "approval/required") {
        return CodexEvent::ApprovalRequest {
            id: get_or_null(msg, "id"),
            payload: get_or_null(msg, "params"),
        };
    }
    if text::same(method, "tool/call") || text::same(method, "item/tool/call") {
        return CodexEvent::ToolCall {
            id: get_or_null(msg, "id"),
            name: extract_tool_name(msg),
            params: extract_tool_params(msg),
        };
    }
    if text::same(method, "user/inputRequired") {
        return CodexEvent::UserInputRequired;
    }
    CodexEvent::Unknown(msg.clone())
}

proof fn lemma_methods_differ()
    ensures
        "turn/completed"@ != "turn/failed"@,
        "turn/completed"@ != "turn/cancelled"@,
        "turn/completed"@ != "thread/tokenUsage/updated"@,
        "turn/completed"@ != "codex/rateLimit"@,
        "turn/completed"@ != "approval/required"@,
        "turn/completed"@ != "tool/call"@,
        "turn/completed"@ != "item/tool/call"@,
        "turn/completed"@ != "user/inputRequired"@,
        "turn/failed"@ != "turn/cancelled"@,
        "turn/failed"@ != "thread/tokenUsage/updated"@,
        "turn/failed"@ != "codex/rateLimit"@,
        "turn/failed"@ != "approval/required"@,
        "turn/failed"@ != "tool/call"@,
        "turn/failed"@ != "item/tool/call"@,
        "turn/failed"@ != "user/inputRequired"@,
        "turn/cancelled"@ != "thread/tokenUsage/updated"@,
        "turn/cancelled"@ != "codex/rateLimit"@,
        "turn/cancelled"@ != "approval/required"@,
        "turn/cancelled"@ != "tool/call"@,
        "turn/cancelled"@ != "item/tool/call"@,
        "turn/cancelled"@ != "user/inputRequired"@,
        "thread/tokenUsage/updated"@ != "codex/rateLimit"@,
        "thread/tokenUsage/updated"@ != "approval/required"@,
        "thread/tokenUsage/updated"@ != "tool/call"@,
        "thread/tokenUsage/updated"@ != "item/tool/call"@,
        "thread/tokenUsage/updated"@ != "user/inputRequired"@,
        "codex/rateLimit"@ != "approval/required"@,
        "codex/rateLimit"@ != "tool/call"@,
        "codex/rateLimit"@ != "item/tool/call"@,
        "codex/rateLimit"@ != "user/inputRequired"@,
        "approval/required"@ != "tool/call"@,
        "approval/required"@ != "item/tool/call"@,
        "approval/required"@ != "user/inputRequired"@,
        "tool/call"@ != "item/tool/call"@,
        "tool/call"@ != "user/inputRequired"@,
        "item/tool/call"@ != "user/inputRequired"@,
{
    reveal_strlit("turn/completed");
    reveal_strlit("turn/failed");
    reveal_strlit("turn/cancelled");
    reveal_strlit("thread/tokenUsage/updated");
    reveal_strlit("codex/rateLimit");
    reveal_strlit("approval/required");
    reveal_strlit("tool/call");
    reveal_strlit("item/tool/call");
    reveal_strlit("user/inputRequired");
    assert("turn/completed"@.len() == 14);
    assert("turn/failed"@.len() == 11);
    assert("turn/cancelled"@.len() == 14);
    assert("thread/tokenUsage/updated"@.len() == 25);
    assert("codex/rateLimit"@.len() == 15);
    assert("approval/required"@.len() == 17);
    assert("tool/call"@.len() == 9);
    assert("item/tool/call"@.len() == 14);
    assert("user/inputRequired"@.len() == 18);
    assert("item/tool/call"@[0] == 'i');
    assert("turn/cancelled"@[0] == 't');
    assert("turn/cancelled"@[6] == 'a');
    assert("turn/completed"@[0] == 't');
    assert("turn/completed"@[6] == 'o');
}

/// The turn that a message speaks of is the one named in its parameters, by `turnId`, else by
/// `turn_id`, else by the id of `turn`; else the one named beside them, by `turnId`, else by
/// `turn_id`; and else it names none.
pub proof fn lemma_turn_is_named(msg: JsonView, params: JsonView)
    requires
        json::member(msg, "params"@) == Some(params),
    ensures
        json::member(params, "turnId"@) matches Some(JsonView::Text(id)) ==> turn_id_of(msg) == id,
        json::member(params, "turnId"@) !is Some ==> (json::member(params, "turn_id"@) matches Some(
            JsonView::Text(id),
        ) ==> turn_id_of(msg) == id),
        json::member(params, "turnId"@) !is Some && json::member(params, "turn_id"@) !is Some ==> (
        json::member(params, "turn"@) matches Some(turn) ==> (json::member(turn, "id"@) matches Some(
            JsonView::Text(id),
        ) ==> turn_id_of(msg) == id)),
        json::member(params, "turnId"@) !is Some && json::member(params, "turn_id"@) !is Some
            && json::member(params, "turn"@) !is Some ==> (json::member(
            msg,
            "turnId"@,
        ) matches Some(JsonView::Text(id)) ==> turn_id_of(msg) == id),
        json::member(params, "turnId"@) !is Some && json::member(params, "turn_id"@) !is Some
            && json::member(params, "turn"@) !is Some && json::member(msg, "turnId"@) !is Some ==> (
        json::member(msg, "turn_id"@) matches Some(JsonView::Text(id)) ==> turn_id_of(msg) == id),
        json::member(params, "turnId"@) !is Some && json::member(params, "turn_id"@) !is Some
            && json::member(params, "turn"@) !is Some && json::member(msg, "turnId"@) !is Some
            && json::member(msg, "turn_id"@) !is Some ==> turn_id_of(msg).len() == 0,
{
}

/// A message about the end of a turn is told by its method, and carries the turn that it speaks of;
/// one about a failure carries the reason that its parameters give: the text `error`, else the
/// message of `error`, else the text `message`, where it is not empty, and else `turn_failed`.
pub proof fn lemma_end_of_turn_is_read(
    msg: JsonView,
    params: JsonView,
    parts: JsonView,
    reason: Seq<char>,
)
    requires
        json::member(msg, "params"@) == Some(params),
    ensures
        json::member(msg, "method"@) == Some(JsonView::Text("turn/completed"@)) ==> event_of(msg) == (
        EventView::TurnCompleted { turn_id: turn_id_of(msg) }),
        json::member(msg, "method"@) == Some(JsonView::Text("turn/cancelled"@)) ==> event_of(msg) == (
        EventView::TurnCancelled { turn_id: turn_id_of(msg) }),
        json::member(msg, "method"@) == Some(JsonView::Text("turn/failed"@)) ==> {
            &&& event_of(msg) matches EventView::TurnFailed { turn_id, error }
            &&& turn_id == turn_id_of(msg)
            &&& json::member(params, "error"@) == Some(JsonView::Text(reason)) && reason.len() > 0
                ==> error == reason
            &&& json::member(params, "error"@) == Some(parts) && parts is Object && json::member(
                parts,
                "message"@,
            ) == Some(JsonView::Text(reason)) && reason.len() > 0 ==> error == reason
            &&& json::member(params, "error"@) !is Some && json::member(params, "message"@) == Some(
                JsonView::Text(reason),
            ) && reason.len() > 0 ==> error == reason
            &&& json::member(params, "error"@) !is Some && json::member(params, "message"@) !is Some
                ==> error == "turn_failed"@
        },
{
    lemma_methods_differ();
}

/// A report of tokens carries the three counts that its parameters hold, under either spelling, at
/// the top or in `tokenUsage` or in `total_token_usage`.
pub proof fn lemma_token_report_is_read(
    msg: JsonView,
    params: JsonView,
    input: u64,
    output: u64,
    total: u64,
)
    requires
        json::member(msg, "method"@) == Some(JsonView::Text("thread/tokenUsage/updated"@)),
        json::member(msg, "params"@) == Some(params),
        counts_stand_in(params, params, input, output, total) || (json::member(
            params,
            "tokenUsage"@,
        ) matches Some(usage) && has_no_counts(params) && counts_stand_in(
            params,
            usage,
            input,
            output,
            total,
        )) || (json::member(params, "total_token_usage"@) matches Some(usage) && has_no_counts(params)
            && json::member(params, "tokenUsage"@) !is Some && counts_stand_in(
            params,
            usage,
            input,
            output,
            total,
        )),
    ensures
        event_of(msg) == (EventView::TokenUsage {
            input_tokens: input,
            output_tokens: output,
            total_tokens: total,
        }),
{
    lemma_methods_differ();
}

/// A value holds three counts as whole numbers, all in the one spelling or all in the other.
pub open spec fn counts_stand_in(
    params: JsonView,
    value: JsonView,
    input: u64,
    output: u64,
    total: u64,
) -> bool {
    ||| json::member(value, "input_tokens"@) == Some(whole(input)) && json::member(
        value,
        "output_tokens"@,
    ) == Some(whole(output)) && json::member(value, "total_tokens"@) == Some(whole(total))
    ||| json::member(value, "inputTokens"@) == Some(whole(input)) && json::member(
        value,
        "outputTokens"@,
    ) == Some(whole(output)) && json::member(value, "totalTokens"@) == Some(whole(total))
        && json::member(value, "input_tokens"@) !is Some && json::member(value, "output_tokens"@)
        !is Some && json::member(value, "total_tokens"@) !is Some
}

/// A value holds no counts.
pub open spec fn has_no_counts(value: JsonView) -> bool {
    json::member(value, "input_tokens"@) !is Some && json::member(value, "output_tokens"@) !is Some
        && json::member(value, "total_tokens"@) !is Some && json::member(value, "inputTokens"@)
        !is Some && json::member(value, "outputTokens"@) !is Some && json::member(
        value,
        "totalTokens"@,
    ) !is Some
}

/// A whole number as a JSON value.
pub open spec fn whole(n: u64) -> JsonView {
    JsonView::Number(NumberView::Unsigned(n))
}

/// A report of rate limits carries its parameters, and a request for approval its id and its
/// parameters.
pub proof fn lemma_payloads_are_kept(msg: JsonView, params: JsonView, id: JsonView)
    requires
        json::member(msg, "params"@) == Some(params),
        json::member(msg, "id"@) == Some(id),
    ensures
        json::member(msg, "method"@) == Some(JsonView::Text("codex/rateLimit"@)) ==> event_of(msg) == (
        EventView::RateLimit { payload: params }),
        json::member(msg, "method"@) == Some(JsonView::Text("approval/required"@)) ==> event_of(msg)
            == (EventView::ApprovalRequest { id, payload: params }),
{
    lemma_methods_differ();
}

/// A tool call carries its id, the name of the tool, by `name`, `toolName`, `tool_name` or the name
/// of `tool`, and what the tool is called with, by `params`, `arguments` or `input`, and else all of
/// its parameters.
pub proof fn lemma_tool_call_is_read(
    msg: JsonView,
    params: JsonView,
    id: JsonView,
    tool: Seq<char>,
    part: JsonView,
    found: JsonView,
)
    requires
        json::member(msg, "method"@) == Some(JsonView::Text("tool/call"@)) || json::member(
            msg,
            "method"@,
        ) == Some(JsonView::Text("item/tool/call"@)),
        json::member(msg, "params"@) == Some(params),
        json::member(msg, "id"@) == Some(id),
    ensures
        event_of(msg) matches EventView::ToolCall { id: call, name, params: arguments } && {
            let named = json::member(params, "name"@) is Some;
            let camel = json::member(params, "toolName"@) is Some;
            let snake = json::member(params, "tool_name"@) is Some;
            &&& call == id
            &&& json::member(params, "name"@) == Some(JsonView::Text(tool)) ==> name == tool
            &&& !named && json::member(params, "toolName"@) == Some(JsonView::Text(tool)) ==> name
                == tool
            &&& !named && !camel && json::member(params, "tool_name"@) == Some(JsonView::Text(tool))
                ==> name == tool
            &&& !named && !camel && !snake && json::member(params, "tool"@) == Some(part)
                && json::member(part, "name"@) == Some(JsonView::Text(tool)) ==> name == tool
            &&& json::member(params, "params"@) == Some(found) ==> arguments == found
            &&& json::member(params, "params"@) !is Some && json::member(params, "arguments"@)
                == Some(found) ==> arguments == found
            &&& json::member(params, "params"@) !is Some && json::member(params, "arguments"@)
                !is Some && json::member(params, "input"@) == Some(found) ==> arguments == found
            &&& json::member(params, "params"@) !is Some && json::member(params, "arguments"@)
                !is Some && json::member(params, "input"@) !is Some ==> arguments == params
        },
{
    lemma_methods_differ();
}

/// A request for user input is told by its method alone, and a message without a method, or with
/// one that is not known, says nothing.
pub proof fn lemma_other_messages(msg: JsonView)
    ensures
        json::member(msg, "method"@) == Some(JsonView::Text("user/inputRequired"@)) ==> event_of(msg)
            == EventView::UserInputRequired,
        json::member(msg, "method"@) !is Some ==> event_of(msg) == EventView::Unknown(msg),
        json::member(msg, "method"@) matches Some(JsonView::Text(method)) ==> method
            != "turn/completed"@ && method != "turn/failed"@ && method != "turn/cancelled"@ && method
            != "thread/tokenUsage/updated"@ && method != "codex/rateLimit"@ && method
            != "approval/required"@ && method != "tool/call"@ && method != "item/tool/call"@ && method
            != "user/inputRequired"@ ==> event_of(msg) == EventView::Unknown(msg),
{
    lemma_methods_differ();
}

/// A count is a whole number as it stands, or the number that a text of digits stands for.
pub proof fn lemma_counts_are_read(n: u64, digits: Seq<char>)
    ensures
        count_of(JsonView::Number(NumberView::Unsigned(n))) == Some(n),
        text::unsigned_value(digits) == Some(n as nat) ==> count_of(JsonView::Text(digits)) == Some(n),
        text::unsigned_value(digits) is None ==> count_of(JsonView::Text(digits)) is None,
{
}

/// The model of an event is of the same kind and has the same data.
pub proof fn lemma_event_is_modelled(event: CodexEvent)
    ensures
        event is TurnCompleted ==> event@ is TurnCompleted && event@->TurnCompleted_turn_id
            == event->TurnCompleted_turn_id@,
        event is TurnFailed ==> event@ is TurnFailed && event@->TurnFailed_turn_id
            == event->TurnFailed_turn_id@ && event@->TurnFailed_error == event->TurnFailed_error@,
        event is TurnCancelled ==> event@ is TurnCancelled && event@->TurnCancelled_turn_id
            == event->TurnCancelled_turn_id@,
        event is TokenUsage ==> event@ is TokenUsage && event@->TokenUsage_input_tokens
            == event->TokenUsage_input_tokens && event@->TokenUsage_output_tokens
            == event->TokenUsage_output_tokens && event@->TokenUsage_total_tokens
            == event->TokenUsage_total_tokens,
        event is RateLimit ==> event@ is RateLimit && event@->RateLimit_payload
            == event->RateLimit_payload@,
        event is ApprovalRequest ==> event@ is ApprovalRequest && event@->ApprovalRequest_id
            == event->ApprovalRequest_id@ && event@->ApprovalRequest_payload
            == event->ApprovalRequest_payload@,
        event is ToolCall ==> event@ is ToolCall && event@->ToolCall_id == event->ToolCall_id@
            && event@->ToolCall_name == event->ToolCall_name@ && event@->ToolCall_params
            == event->ToolCall_params@,
        event is UserInputRequired ==> event@ is UserInputRequired,
        event is Unknown ==> event@ == EventView::Unknown(event->Unknown_0@),
{
}

} // verus!
