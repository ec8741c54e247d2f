//! The requests to the coding agent and the course of a turn.

use vstd::prelude::*;
use vstd::string::*;

use crate::codex::events;
use crate::codex::events::{CodexEvent, EventView};
use crate::domain::{OutcomeView, RunOutcome};
use crate::error;
use crate::error::{ErrorView, SymphonyError};
use crate::json;
use crate::json::{Json, JsonView, Number, NumberView};
use crate::ssh;
use crate::text;

verus! {

pub const DEFAULT_READ_TIMEOUT_MS: u64 = 5_000;

pub const DEFAULT_TURN_TIMEOUT_MS: u64 = 3_600_000;

/// The tokens that a thread has used so far.
#[derive(Debug, Clone, Copy, PartialEq, Eq)]
pub struct SessionTokens {
    pub input_tokens: u64,
    pub output_tokens: u64,
    pub total_tokens: u64,
    pub last_reported_total: u64,
}

impl Default for SessionTokens {
    fn default() -> (r: Self)
        ensures
            r == (SessionTokens {
                input_tokens: 0,
                output_tokens: 0,
                total_tokens: 0,
                last_reported_total: 0,
            }),
    {
        SessionTokens { input_tokens: 0, output_tokens: 0, total_tokens: 0, last_reported_total: 0 }
    }
}

/// The tokens after a report of a thread's totals: the latest report counts.
pub open spec fn reported(input: u64, output: u64, total: u64) -> SessionTokens {
    SessionTokens {
        input_tokens: input,
        output_tokens: output,
        total_tokens: total,
        last_reported_total: total,
    }
}

impl SessionTokens {
    /// Takes over the totals that a thread reports.
    pub fn update_from_thread_totals(
        &mut self,
        input_tokens: u64,
        output_tokens: u64,
        total_tokens: u64,
    )
        ensures
            *final(self) == reported(input_tokens, output_tokens, total_tokens),
    {
        self.input_tokens = input_tokens;
        self.output_tokens = output_tokens;
        self.total_tokens = total_tokens;
        self.last_reported_total = total_tokens;
    }
}

/// How a turn ended and what it used.
#[derive(Debug)]
pub struct TurnResult {
    pub outcome: RunOutcome,
    pub tokens: SessionTokens,
    pub rate_limit: Option<Json>,
}

/// What an event asks for.
#[derive(Debug)]
pub enum TurnAction {
    Continue,
    Complete(RunOutcome),
    AutoApprove(Json),
    ExecuteToolCall { id: Json, name: String, params: Json },
}

/// The model of what an event asks for.
pub enum ActionView {
    Continue,
    Complete(OutcomeView),
    AutoApprove(JsonView),
    ExecuteToolCall { id: JsonView, name: Seq<char>, params: JsonView },
}

impl View for TurnAction {
    type V = ActionView;

    open spec fn view(&self) -> ActionView {
        match self {
            TurnAction::Continue => ActionView::Continue,
            TurnAction::Complete(outcome) => ActionView::Complete(outcome@),
            TurnAction::AutoApprove(id) => ActionView::AutoApprove(id@),
            TurnAction::ExecuteToolCall { id, name, params } => ActionView::ExecuteToolCall {
                id: id@,
                name: name@,
                params: params@,
            },
        }
    }
}

/// A policy lists what it rejects.
pub open spec fn rejects(policy: JsonView) -> bool {
    json::member(policy, "reject"@) is Some
}

/// The kind of approval that a request asks for: its `kind`, or without one its `type`.
pub open spec fn request_kind(payload: JsonView) -> Seq<char> {
    let kind = match json::member(payload, "kind"@) {
        Some(v) => Some(v),
        None => json::member(payload, "type"@),
    };
    match kind {
        Some(JsonView::Text(s)) => s,
        _ => "unknown"@,
    }
}

/// A rejecting policy lets a request through: it lists the request's kind with `true`, or the kind
/// is one of the known ones.
pub open spec fn passes_reject_policy(policy: JsonView, kind: Seq<char>) -> bool {
    match json::member(policy, "reject"@) {
        Some(list) => json::member(list, kind) == Some(JsonView::Bool(true)) || kind
            == "command_execution"@ || kind == "file_changes"@ || kind == "sandbox_approval"@
            || kind == "rules"@ || kind == "mcp_elicitations"@,
        None => false,
    }
}

/// A report about a turn is about the current one: the ids are the same, or one of them is missing.
pub open spec fn about_current_turn(current: Option<Seq<char>>, turn_id: Seq<char>) -> bool {
    match current {
        Some(id) => turn_id.len() == 0 || id == turn_id,
        None => true,
    }
}

/// What the end of a turn asks for.
pub open spec fn turn_over(
    current: Option<Seq<char>>,
    turn_id: Seq<char>,
    outcome: OutcomeView,
) -> ActionView {
    if about_current_turn(current, turn_id) {
        ActionView::Complete(outcome)
    } else {
        ActionView::Continue
    }
}

/// What an approval request asks for: approval, or under a rejecting policy that does not let it
/// through an error.
pub open spec fn approval_answer(id: JsonView, payload: JsonView, policy: JsonView) -> Result<
    ActionView,
    ErrorView,
> {
    if rejects(policy) && !passes_reject_policy(policy, request_kind(payload)) {
        Err(ErrorView::Codex("approval_required: "@ + request_kind(payload)))
    } else {
        Ok(ActionView::AutoApprove(id))
    }
}

/// What an event asks for.
pub open spec fn answer(
    event: EventView,
    current: Option<Seq<char>>,
    policy: JsonView,
) -> Result<ActionView, ErrorView> {
    match event {
        EventView::TurnCompleted { turn_id } => Ok(
            turn_over(current, turn_id, OutcomeView::Success),
        ),
        EventView::TurnFailed { turn_id, error } => Ok(
            turn_over(current, turn_id, OutcomeView::Failure(error)),
        ),
        EventView::TurnCancelled { turn_id } => Ok(
            turn_over(current, turn_id, OutcomeView::Failure("turn_cancelled"@)),
        ),
        EventView::ApprovalRequest { id, payload } => approval_answer(id, payload, policy),
        EventView::ToolCall { id, name, params } => Ok(
            ActionView::ExecuteToolCall { id, name, params },
        ),
        EventView::UserInputRequired => Err(ErrorView::Codex("turn_input_required"@)),
        _ => Ok(ActionView::Continue),
    }
}

/// The tokens after an event.
pub open spec fn tokens_after(event: EventView, tokens: SessionTokens) -> SessionTokens {
    match event {
        EventView::TokenUsage { input_tokens, output_tokens, total_tokens } => reported(
            input_tokens,
            output_tokens,
            total_tokens,
        ),
        _ => tokens,
    }
}

/// The rate limits after an event.
pub open spec fn rate_limit_after(event: EventView, rate_limit: Option<JsonView>) -> Option<
    JsonView,
> {
    match event {
        EventView::RateLimit { payload } => Some(payload),
        _ => rate_limit,
    }
}

fn is_reject_policy(policy: &Json) -> (r: bool)
    ensures
        r == rejects(policy@),
{
    policy.get("reject").is_some()
}

fn extract_approval_request_type(payload: &Json) -> (r: String)
    ensures
        r@ == request_kind(payload@),
{
    let kind = match payload.get("kind") {
        Some(v) => Some(v),
        None => payload.get("type"),
    };
    match kind {
        Some(v) => match v.as_str() {
            Some(s) => s.to_owned(),
            None => "unknown".to_owned(),
        },
        None => "unknown".to_owned(),
    }
}

fn should_auto_approve_for_reject_policy(policy: &Json, request_type: &str) -> (r: bool)
    ensures
        r == passes_reject_policy(policy@, request_type@),
{
    match policy.get("reject") {
        Some(list) => {
            if let Some(Json::Bool(allowed)) = list.get(request_type) {
                if *allowed {
                    return true;
                }
            }
            text::same(request_type, "command_execution") || text::same(
                request_type,
                "file_changes",
            ) || text::same(request_type, "sandbox_approval") || text::same(request_type, "rules")
                || text::same(request_type, "mcp_elicitations")
        },
        None => false,
    }
}

/// Tells whether a report about a turn is about the current one.
pub fn is_current_turn(current_turn_id: Option<&str>, turn_id: &str) -> (r: bool)
    ensures
        r == about_current_turn(text::opt_str(current_turn_id), turn_id@),
{
    match current_turn_id {
        Some(current) => turn_id.is_empty() || text::same(current, turn_id),
        None => true,
    }
}

fn end_turn(current_turn_id: Option<&str>, turn_id: &str, outcome: RunOutcome) -> (r: TurnAction)
    ensures
        r@ == turn_over(text::opt_str(current_turn_id), turn_id@, outcome@),
{
    if is_current_turn(current_turn_id, turn_id) {
        TurnAction::Complete(outcome)
    } else {
        TurnAction::Continue
    }
}

fn evaluate_approval_request(id: Json, payload: &Json, approval_policy: &Json) -> (r: Result<
    TurnAction,
    SymphonyError,
>)
    ensures
        error::result_is(r, approval_answer(id@, payload@, approval_policy@)),
{
    if is_reject_policy(approval_policy) {
        let request_type = extract_approval_request_type(payload);
        if should_auto_approve_for_reject_policy(approval_policy, request_type.as_str()) {
            return Ok(TurnAction::AutoApprove(id));
        }
        return Err(
            SymphonyError::Codex(text::joined("approval_required: ", request_type.as_str())),
        );
    }
    Ok(TurnAction::AutoApprove(id))
}

/// Takes an event into account and tells what it asks for. Only a token report changes the tokens,
/// and only a rate limit report changes the rate limits.
pub fn evaluate_event(
    event: CodexEvent,
    current_turn_id: Option<&str>,
    approval_policy: &Json,
    tokens: &mut SessionTokens,
    rate_limit: &mut Option<Json>,
) -> (r: Result<TurnAction, SymphonyError>)
    ensures
        error::result_is(r, answer(event@, text::opt_str(current_turn_id), approval_policy@)),
        *final(tokens) == tokens_after(event@, *old(tokens)),
        json::opt_json(*final(rate_limit)) == rate_limit_after(
            event@,
            json::opt_json(*old(rate_limit)),
        ),
{
    match event {
        CodexEvent::TurnCompleted { turn_id } => Ok(
            end_turn(current_turn_id, turn_id.as_str(), RunOutcome::Success),
        ),
        CodexEvent::TurnFailed { turn_id, error } => Ok(
            end_turn(current_turn_id, turn_id.as_str(), RunOutcome::Failure(error)),
        ),
        CodexEvent::TurnCancelled { turn_id } => Ok(
            end_turn(
                current_turn_id,
                turn_id.as_str(),
                RunOutcome::Failure("turn_cancelled".to_owned()),
            ),
        ),
        CodexEvent::TokenUsage { input_tokens, output_tokens, total_tokens } => {
            tokens.update_from_thread_totals(input_tokens, output_tokens, total_tokens);
            Ok(TurnAction::Continue)
        },
        CodexEvent::RateLimit { payload } => {
            *rate_limit = Some(payload);
            Ok(TurnAction::Continue)
        },
        CodexEvent::ApprovalRequest { id, payload } => evaluate_approval_request(
            id,
            &payload,
            approval_policy,
        ),
        CodexEvent::ToolCall { id, name, params } => Ok(
            TurnAction::ExecuteToolCall { id, name, params },
        ),
        CodexEvent::UserInputRequired => Err(SymphonyError::Codex("turn_input_required".to_owned())),
        CodexEvent::Unknown(_) => Ok(TurnAction::Continue),
    }
}

/// The policy under which command execution and file changes are approved.
pub open spec fn default_policy() -> JsonView {
    JsonView::Object(
        seq![
            (
                "autoApprove"@,
                JsonView::Array(
                    seq![JsonView::Text("command_execution"@), JsonView::Text("file_changes"@)],
                ),
            ),
        ],
    )
}

/// The policy under which command execution and file changes are approved.
pub fn default_approval_policy() -> (r: Json)
    ensures
        r@ == default_policy(),
{
    let names = vec!["command_execution", "file_changes"];
    let actions = json::array_of_texts(&names);
    proof {
        assert(actions@->Array_0 =~= seq![
            JsonView::Text("command_execution"@),
            JsonView::Text("file_changes"@),
        ]);
    }
    json::object(json::and_member(json::no_members(), "autoApprove", actions))
}

/// A sandbox name without surrounding white space; `workspace-write` where it is blank.
pub open spec fn sandbox_name(sandbox: Seq<char>) -> Seq<char> {
    if text::blank(sandbox) {
        "workspace-write"@
    } else {
        text::trimmed(sandbox)
    }
}

/// A sandbox name without surrounding white space; `workspace-write` where it is blank.
pub fn normalize_sandbox(sandbox: &str) -> (r: String)
    ensures
        r@ == sandbox_name(sandbox@),
{
    let trimmed = text::trim(sandbox);
    proof {
        text::lemma_trimmed_empty(sandbox@);
    }
    if trimmed.is_empty() {
        "workspace-write".to_owned()
    } else {
        trimmed.to_owned()
    }
}

/// A timeout, or the default where it is zero.
pub fn normalize_timeout(value: u64, default: u64) -> (r: u64)
    ensures
        r == (if value == 0 {
            default
        } else {
            value
        }),
{
    if value == 0 {
        default
    } else {
        value
    }
}

/// Who answered an `initialize` request: its user agent, else its session id, else the whole answer
/// as text.
pub open spec fn initialize_info(result: JsonView) -> Seq<char> {
    match json::text_member(result, "userAgent"@) {
        Some(s) => s,
        None => match json::text_member(result, "sessionId"@) {
            Some(s) => s,
            None => json::json_text(result),
        },
    }
}

/// Who answered an `initialize` request.
pub fn extract_initialize_info(result: &Json) -> (r: String)
    ensures
        r@ == initialize_info(result@),
{
    if let Some(user_agent) = events::get_text(result, "userAgent") {
        return user_agent.to_owned();
    }
    if let Some(session_id) = events::get_text(result, "sessionId") {
        return session_id.to_owned();
    }
    json::to_text(result)
}

/// The id inside a named part of an answer.
pub open spec fn nested_id(value: JsonView, outer: Seq<char>) -> Result<Seq<char>, ErrorView> {
    match events::nested_text(value, outer, "id"@) {
        Some(id) => Ok(id),
        None => Err(ErrorView::Codex("missing_id_at_path: "@ + outer + ".id"@)),
    }
}

/// The id inside a named part of an answer.
pub fn extract_nested_id(value: &Json, outer: &str) -> (r: Result<String, SymphonyError>)
    ensures
        error::result_is(r, nested_id(value@, outer@)),
{
    if let Some(part) = value.get(outer) {
        if let Some(id) = events::get_text(part, "id") {
            return Ok(id.to_owned());
        }
    }
    let mut message = "missing_id_at_path: ".to_owned();
    message.append(outer);
    message.append(".id");
    Err(SymphonyError::Codex(message))
}

/// The answer that approves a request.
pub open spec fn approval_response(id: JsonView) -> JsonView {
    JsonView::Object(
        Seq::empty()
            .push(("jsonrpc"@, JsonView::Text("2.0"@)))
            .push(("id"@, id))
            .push(("result"@, JsonView::Object(seq![("approved"@, JsonView::Bool(true))]))),
    )
}

/// The answer that approves a request.
pub fn build_approval_response(id: &Json) -> (r: Json)
    ensures
        r@ == approval_response(id@),
{
    let result = json::object(
        json::and_member(json::no_members(), "approved", Json::Bool(true)),
    );
    let members = json::and_member(json::no_members(), "jsonrpc", json::text_value("2.0"));
    let members = json::and_member(members, "id", id.clone());
    json::object(json::and_member(members, "result", result))
}

/// The answer to a tool call.
pub open spec fn tool_call_response(id: JsonView, result: JsonView) -> JsonView {
    JsonView::Object(Seq::empty().push(("id"@, id)).push(("result"@, result)))
}

/// The answer to a tool call.
pub fn build_tool_call_response(id: &Json, result: Json) -> (r: Json)
    ensures
        r@ == tool_call_response(id@, result@),
{
    let members = json::and_member(json::no_members(), "id", id.clone());
    json::object(json::and_member(members, "result", result))
}

/// The answer that rejects a tool call.
pub fn build_tool_rejection_response(id: &Json) -> (r: Json)
    ensures
        r@ == JsonView::Object(
            Seq::empty().push(("jsonrpc"@, JsonView::Text("2.0"@))).push(("id"@, id@)).push((
                    "result"@,
                    JsonView::Object(
                        Seq::empty()
                            .push(("success"@, JsonView::Bool(false)))
                            .push(("error"@, JsonView::Text("unsupported tool call"@))),
                    ),
                )),
        ),
{
    let result = json::and_member(json::no_members(), "success", Json::Bool(false));
    let result = json::and_member(result, "error", json::text_value("unsupported tool call"));
    let members = json::and_member(json::no_members(), "jsonrpc", json::text_value("2.0"));
    let members = json::and_member(members, "id", id.clone());
    json::object(json::and_member(members, "result", json::object(result)))
}

/// What a tool hands back: whether it worked, and its output.
pub open spec fn tool_response(success: bool, output: Seq<char>) -> JsonView {
    JsonView::Object(
        Seq::empty()
            .push(("success"@, JsonView::Bool(success)))
            .push(("output"@, JsonView::Text(output)))
            .push((
                "contentItems"@,
                JsonView::Array(
                    seq![
                        JsonView::Object(
                            Seq::empty()
                                .push(("type"@, JsonView::Text("inputText"@)))
                                .push(("text"@, JsonView::Text(output))),
                        ),
                    ],
                ),
            )),
    )
}

/// What a tool hands back: whether it worked, and its output.
pub fn dynamic_tool_response(success: bool, output: &str) -> (r: Json)
    ensures
        r@ == tool_response(success, output@),
{
    let item = json::and_member(json::no_members(), "type", json::text_value("inputText"));
    let item = json::and_member(item, "text", json::text_value(output));
    let members = json::and_member(json::no_members(), "success", Json::Bool(success));
    let members = json::and_member(members, "output", json::text_value(output));
    json::object(
        json::and_member(members, "contentItems", json::array_of_one(json::object(item))),
    )
}

/// Why a tool is not run.
pub open spec fn unsupported_tool(name: Seq<char>) -> JsonView {
    JsonView::Object(
        seq![
            (
                "error"@,
                JsonView::Object(
                    Seq::empty().push((
                            "message"@,
                            JsonView::Text(
                                "Unsupported dynamic tool: "@ + error::debug_text(name) + "."@,
                            ),
                        )).push((
                            "supportedTools"@,
                            JsonView::Array(seq![JsonView::Text("linear_graphql"@)]),
                        )),
                ),
            ),
        ],
    )
}

/// What the call of an unknown tool hands back.
pub fn build_unsupported_tool_result(tool_name: &str) -> (r: Json)
    ensures
        r@ == tool_response(false, json::json_pretty_text(unsupported_tool(tool_name@))),
{
    let mut message = "Unsupported dynamic tool: ".to_owned();
    message.append(error::format_debug_text(tool_name).as_str());
    message.append(".");
    let details = json::and_member(json::no_members(), "message", Json::Text(message));
    let details = json::and_member(
        details,
        "supportedTools",
        json::array_of_one(json::text_value("linear_graphql")),
    );
    let payload = json::object(
        json::and_member(json::no_members(), "error", json::object(details)),
    );
    dynamic_tool_response(false, json::to_pretty_text(&payload).as_str())
}

/// A message to the coding agent as it is written: one line of JSON.
pub fn message_line(payload: &Json) -> (r: String)
    ensures
        r@ == json::json_text(payload@) + "\n"@,
{
    text::joined(json::to_text(payload).as_str(), "\n")
}

/// The command that starts the agent in a directory of a remote host.
pub fn remote_launch_command(command: &str, workspace: &str) -> (r: String)
    ensures
        r@ == "cd "@ + ssh::escaped(workspace@) + " && exec "@ + command@,
{
    let mut out: String = "cd ".to_owned();
    out.append(ssh::shell_escape(workspace).as_str());
    out.append(" && exec ");
    out.append(command);
    out
}

/// Where the work with the agent's process can fail.
#[derive(Debug, Clone, Copy, PartialEq, Eq)]
pub enum ServerFault {
    Launch,
    Write,
    Flush,
    Kill,
    Wait,
    TryWait,
}

/// The name of a fault.
pub open spec fn fault_name(fault: ServerFault) -> Seq<char> {
    match fault {
        ServerFault::Launch => "launch_failed: "@,
        ServerFault::Write => "stdin_write_failed: "@,
        ServerFault::Flush => "stdin_flush_failed: "@,
        ServerFault::Kill => "shutdown_failed: "@,
        ServerFault::Wait => "wait_failed: "@,
        ServerFault::TryWait => "try_wait_failed: "@,
    }
}

/// The error of a fault of the agent's process.
pub fn server_error(fault: ServerFault, reason: &str) -> (r: SymphonyError)
    ensures
        r@ == ErrorView::Codex(fault_name(fault) + reason@),
{
    let name = match fault {
        ServerFault::Launch => "launch_failed: ",
        ServerFault::Write => "stdin_write_failed: ",
        ServerFault::Flush => "stdin_flush_failed: ",
        ServerFault::Kill => "shutdown_failed: ",
        ServerFault::Wait => "wait_failed: ",
        ServerFault::TryWait => "try_wait_failed: ",
    };
    SymphonyError::Codex(text::joined(name, reason))
}

/// The error where the agent could not be started on a remote host.
pub fn remote_launch_error(host: &str, reason: &SymphonyError) -> (r: SymphonyError)
    ensures
        r@ == ErrorView::Codex(
            "remote_launch_failed on "@ + host@ + ": "@ + error::error_text(reason@),
        ),
{
    let mut out: String = "remote_launch_failed on ".to_owned();
    out.append(host);
    out.append(": ");
    out.append(reason.message().as_str());
    SymphonyError::Codex(out)
}

/// What one read from the agent's output gave.
#[derive(Debug)]
pub enum ReadOutcome {
    Line(String),
    Closed,
    Failed(String),
    TimedOut,
}

/// The message that a read gave: none for a blank line, and an error where nothing more comes or
/// the line is no JSON.
pub open spec fn message_read(outcome: ReadOutcome) -> Result<Option<JsonView>, ErrorView> {
    match outcome {
        ReadOutcome::Line(line) => if text::blank(line@) {
            Ok(None)
        } else {
            match json::json_parsed(text::trim_end_spec(line@)) {
                Ok(value) => Ok(Some(value)),
                Err(error) => Err(ErrorView::Codex("invalid_json_message: "@ + error)),
            }
        },
        ReadOutcome::Closed => Err(ErrorView::Codex("app_server_stdout_closed"@)),
        ReadOutcome::Failed(error) => Err(ErrorView::Codex("read_failed: "@ + error@)),
        ReadOutcome::TimedOut => Err(ErrorView::Codex("response_timeout"@)),
    }
}

/// The message that a line holds once it has been read as JSON.
pub fn parsed_message(parsed: Result<Json, String>) -> (r: Result<Option<Json>, SymphonyError>)
    ensures
        match parsed {
            Ok(value) => r matches Ok(Some(v)) && v@ == value@,
            Err(error) => r matches Err(e) && e@ == ErrorView::Codex(
                "invalid_json_message: "@ + error@,
            ),
        },
{
    match parsed {
        Ok(value) => Ok(Some(value)),
        Err(error) => Err(
            SymphonyError::Codex(text::joined("invalid_json_message: ", error.as_str())),
        ),
    }
}

/// The message that a read gave.
pub fn interpret_read(outcome: &ReadOutcome) -> (r: Result<Option<Json>, SymphonyError>)
    ensures
        match (r, message_read(*outcome)) {
            (Ok(value), Ok(model)) => json::opt_json(value) == model,
            (Err(error), Err(model)) => error@ == model,
            _ => false,
        },
{
    match outcome {
        ReadOutcome::Line(line) => {
            if text::is_blank(line.as_str()) {
                return Ok(None);
            }
            parsed_message(json::parse(text::trim_end(line.as_str())))
        },
        ReadOutcome::Closed => Err(SymphonyError::Codex("app_server_stdout_closed".to_owned())),
        ReadOutcome::Failed(error) => Err(
            SymphonyError::Codex(text::joined("read_failed: ", error.as_str())),
        ),
        ReadOutcome::TimedOut => Err(SymphonyError::Codex("response_timeout".to_owned())),
    }
}

/// What a message answers to a request: nothing where it answers something else.
pub open spec fn response_to(message: JsonView, request_id: u64) -> Option<
    Result<JsonView, ErrorView>,
> {
    if json::member(message, "id"@) == Some(JsonView::Number(NumberView::Unsigned(request_id))) {
        match json::member(message, "result"@) {
            Some(result) => Some(Ok(result)),
            None => match json::member(message, "error"@) {
                Some(error) => Some(
                    Err(ErrorView::Codex("request_failed: "@ + json::json_text(error))),
                ),
                None => Some(Err(ErrorView::Codex("missing_response_result"@))),
            },
        }
    } else {
        None
    }
}

/// What a message answers to a request: nothing where it answers something else.
pub fn match_response(message: &Json, request_id: u64) -> (r: Option<Result<Json, SymphonyError>>)
    ensures
        match (r, response_to(message@, request_id)) {
            (Some(result), Some(expected)) => error::result_is(result, expected),
            (None, None) => true,
            _ => false,
        },
{
    let answers = match message.get("id") {
        Some(Json::Number(Number::Unsigned(id))) => *id == request_id,
        _ => false,
    };
    if !answers {
        return None;
    }
    if let Some(result) = message.get("result") {
        return Some(Ok(result.clone()));
    }
    if let Some(error) = message.get("error") {
        return Some(
            Err(
                SymphonyError::Codex(
                    text::joined("request_failed: ", json::to_text(error).as_str()),
                ),
            ),
        );
    }
    Some(Err(SymphonyError::Codex("missing_response_result".to_owned())))
}

/// The time that is left of a turn, in nanoseconds; none once it is over.
pub fn turn_time_left(turn_timeout_ms: u64, elapsed_nanos: u128) -> (r: Option<u128>)
    ensures
        r == (if elapsed_nanos <= turn_timeout_ms * 1_000_000 {
            Some((turn_timeout_ms * 1_000_000 - elapsed_nanos) as u128)
        } else {
            None
        }),
{
    let limit: u128 = turn_timeout_ms as u128 * 1_000_000;
    if elapsed_nanos <= limit {
        Some(limit - elapsed_nanos)
    } else {
        None
    }
}

/// One side of a conversation with the coding agent: the requests that are made and what is
/// current.
#[derive(Debug)]
pub struct AppServer {
    read_timeout_ms: u64,
    turn_timeout_ms: u64,
    next_request_id: u64,
    approval_policy: Json,
    sandbox: String,
    current_thread_id: Option<String>,
    current_turn_id: Option<String>,
}

/// The model of a conversation.
#[verifier::ext_equal]
pub struct ServerView {
    pub read_timeout_ms: u64,
    pub turn_timeout_ms: u64,
    pub next_request_id: u64,
    pub approval_policy: JsonView,
    pub sandbox: Seq<char>,
    pub current_thread_id: Option<Seq<char>>,
    pub current_turn_id: Option<Seq<char>>,
}

impl View for AppServer {
    type V = ServerView;

    closed spec fn view(&self) -> ServerView {
        ServerView {
            read_timeout_ms: self.read_timeout_ms,
            turn_timeout_ms: self.turn_timeout_ms,
            next_request_id: self.next_request_id,
            approval_policy: self.approval_policy@,
            sandbox: self.sandbox@,
            current_thread_id: text::opt_text(self.current_thread_id),
            current_turn_id: text::opt_text(self.current_turn_id),
        }
    }
}

/// What has been learnt during a turn.
#[derive(Debug)]
pub struct TurnProgress {
    pub tokens: SessionTokens,
    pub rate_limit: Option<Json>,
}

impl TurnProgress {
    /// A turn of which nothing has been heard.
    pub fn new() -> (r: Self)
        ensures
            r.tokens == reported(0, 0, 0),
            r.rate_limit is None,
    {
        TurnProgress { tokens: SessionTokens::default(), rate_limit: None }
    }

    /// The result of the turn, which has ended with an outcome.
    pub fn finish(self, outcome: RunOutcome) -> (r: TurnResult)
        ensures
            r.outcome == outcome,
            r.tokens == self.tokens,
            r.rate_limit == self.rate_limit,
    {
        TurnResult { outcome, tokens: self.tokens, rate_limit: self.rate_limit }
    }
}

/// What to do after a message of a turn.
#[derive(Debug)]
pub enum TurnStep {
    Continue,
    Send(Json),
    CallTool { id: Json, name: String, params: Json },
    Done(RunOutcome),
}

/// The model of what to do after a message of a turn.
pub enum StepView {
    Continue,
    Send(JsonView),
    CallTool { id: JsonView, name: Seq<char>, params: JsonView },
    Done(OutcomeView),
}

impl View for TurnStep {
    type V = StepView;

    open spec fn view(&self) -> StepView {
        match self {
            TurnStep::Continue => StepView::Continue,
            TurnStep::Send(message) => StepView::Send(message@),
            TurnStep::CallTool { id, name, params } => StepView::CallTool {
                id: id@,
                name: name@,
                params: params@,
            },
            TurnStep::Done(outcome) => StepView::Done(outcome@),
        }
    }
}

/// What to do after a message of a turn.
pub open spec fn step_after(
    message: JsonView,
    current: Option<Seq<char>>,
    policy: JsonView,
) -> Result<StepView, ErrorView> {
    match answer(events::event_of(message), current, policy) {
        Ok(ActionView::Continue) => Ok(StepView::Continue),
        Ok(ActionView::AutoApprove(id)) => Ok(StepView::Send(approval_response(id))),
        Ok(ActionView::ExecuteToolCall { id, name, params }) => Ok(
            StepView::CallTool { id, name, params },
        ),
        Ok(ActionView::Complete(outcome)) => Ok(StepView::Done(outcome)),
        Err(error) => Err(error),
    }
}

/// A request to the coding agent.
pub open spec fn request(id: u64, method: Seq<char>, params: JsonView) -> JsonView {
    JsonView::Object(
        Seq::empty()
            .push(("jsonrpc"@, JsonView::Text("2.0"@)))
            .push(("id"@, JsonView::Number(NumberView::Unsigned(id))))
            .push(("method"@, JsonView::Text(method)))
            .push(("params"@, params)),
    )
}

fn build_request(id: u64, method: &str, params: Json) -> (r: Json)
    ensures
        r@ == request(id, method@, params@),
{
    let members = json::and_member(json::no_members(), "jsonrpc", json::text_value("2.0"));
    let members = json::and_member(members, "id", json::count_value(id));
    let members = json::and_member(members, "method", json::text_value(method));
    json::object(json::and_member(members, "params", params))
}

/// The parameters of an `initialize` request.
pub open spec fn initialize_params() -> JsonView {
    JsonView::Object(
        Seq::empty().push((
                "clientInfo"@,
                JsonView::Object(
                    Seq::empty()
                        .push(("name"@, JsonView::Text("symphony"@)))
                        .push(("version"@, JsonView::Text("0.1.0"@))),
                ),
            )).push(("capabilities"@, JsonView::Object(seq![]))),
    )
}

/// The parameters of a `thread/start` request.
pub open spec fn thread_params(policy: JsonView, sandbox: Seq<char>, cwd: Seq<char>) -> JsonView {
    JsonView::Object(
        Seq::empty()
            .push(("approvalPolicy"@, policy))
            .push(("sandbox"@, JsonView::Text(sandbox)))
            .push(("cwd"@, JsonView::Text(cwd))),
    )
}

/// The parameters of a `turn/start` request.
pub open spec fn turn_params(
    thread_id: Seq<char>,
    prompt: Seq<char>,
    cwd: Seq<char>,
    policy: JsonView,
    sandbox_policy: JsonView,
) -> JsonView {
    JsonView::Object(
        Seq::empty()
            .push(("threadId"@, JsonView::Text(thread_id)))
            .push(("input"@, JsonView::Text(prompt)))
            .push(("cwd"@, JsonView::Text(cwd)))
            .push(("title"@, JsonView::Text("symphony-turn"@)))
            .push(("approvalPolicy"@, policy))
            .push(("sandboxPolicy"@, sandbox_policy)),
    )
}

/// The message that ends the handshake.
pub fn initialized_notification() -> (r: Json)
    ensures
        r@ == JsonView::Object(
            Seq::empty()
                .push(("jsonrpc"@, JsonView::Text("2.0"@)))
                .push(("method"@, JsonView::Text("initialized"@)))
                .push(("params"@, JsonView::Object(seq![]))),
        ),
{
    let members = json::and_member(json::no_members(), "jsonrpc", json::text_value("2.0"));
    let members = json::and_member(members, "method", json::text_value("initialized"));
    json::object(json::and_member(members, "params", json::object(json::no_members())))
}

impl AppServer {
    /// A conversation that has not begun. A timeout of zero stands for the default.
    pub fn new(read_timeout_ms: u64, turn_timeout_ms: u64) -> (r: Self)
        ensures
            r@ == (ServerView {
                read_timeout_ms: if read_timeout_ms == 0 {
                    DEFAULT_READ_TIMEOUT_MS
                } else {
                    read_timeout_ms
                },
                turn_timeout_ms: if turn_timeout_ms == 0 {
                    DEFAULT_TURN_TIMEOUT_MS
                } else {
                    turn_timeout_ms
                },
                next_request_id: 1,
                approval_policy: default_policy(),
                sandbox: "workspace-write"@,
                current_thread_id: None,
                current_turn_id: None,
            }),
    {
        AppServer {
            read_timeout_ms: normalize_timeout(read_timeout_ms, DEFAULT_READ_TIMEOUT_MS),
            turn_timeout_ms: normalize_timeout(turn_timeout_ms, DEFAULT_TURN_TIMEOUT_MS),
            next_request_id: 1,
            approval_policy: default_approval_policy(),
            sandbox: "workspace-write".to_owned(),
            current_thread_id: None,
            current_turn_id: None,
        }
    }

    /// How long a read may take.
    pub fn read_timeout_ms(&self) -> (r: u64)
        ensures
            r == self@.read_timeout_ms,
    {
        self.read_timeout_ms
    }

    /// How long a turn may take.
    pub fn turn_timeout_ms(&self) -> (r: u64)
        ensures
            r == self@.turn_timeout_ms,
    {
        self.turn_timeout_ms
    }

    /// Tells whether there is an id for one more request.
    pub fn can_request(&self) -> (r: bool)
        ensures
            r == (self@.next_request_id < u64::MAX),
    {
        self.next_request_id < u64::MAX
    }

    /// The id of the next request.
    pub fn next_request_id(&mut self) -> (r: u64)
        requires
            old(self)@.next_request_id < u64::MAX,
        ensures
            r == old(self)@.next_request_id,
            final(self)@ == (ServerView {
                next_request_id: (old(self)@.next_request_id + 1) as u64,
                ..old(self)@
            }),
    {
        let request_id: u64 = self.next_request_id;
        self.next_request_id = self.next_request_id + 1;
        request_id
    }

    /// The request that begins the handshake, with its id.
    pub fn initialize(&mut self) -> (r: (u64, Json))
        requires
            old(self)@.next_request_id < u64::MAX,
        ensures
            r.0 == old(self)@.next_request_id,
            r.1@ == request(r.0, "initialize"@, initialize_params()),
            final(self)@ == (ServerView {
                next_request_id: (old(self)@.next_request_id + 1) as u64,
                ..old(self)@
            }),
    {
        let request_id: u64 = self.next_request_id();
        let client = json::and_member(json::no_members(), "name", json::text_value("symphony"));
        let client = json::and_member(client, "version", json::text_value("0.1.0"));
        let params = json::and_member(json::no_members(), "clientInfo", json::object(client));
        let params = json::and_member(params, "capabilities", json::object(json::no_members()));
        (request_id, build_request(request_id, "initialize", json::object(params)))
    }

    /// The request that starts a thread, with its id. The policy and the sandbox hold for the turns
    /// that follow.
    pub fn start_thread(&mut self, cwd: &str, approval_policy: &Json, sandbox: &str) -> (r: (
        u64,
        Json,
    ))
        requires
            old(self)@.next_request_id < u64::MAX,
        ensures
            r.0 == old(self)@.next_request_id,
            r.1@ == request(
                r.0,
                "thread/start"@,
                thread_params(approval_policy@, sandbox_name(sandbox@), cwd@),
            ),
            json::member(r.1@, "method"@) == Some(JsonView::Text("thread/start"@)),
            json::member(r.1@, "params"@) is Some,
            json::member(json::member(r.1@, "params"@)->0, "approvalPolicy"@) == Some(
                approval_policy@,
            ),
            json::member(json::member(r.1@, "params"@)->0, "sandbox"@) == Some(
                JsonView::Text(sandbox_name(sandbox@)),
            ),
            json::member(json::member(r.1@, "params"@)->0, "cwd"@) == Some(JsonView::Text(cwd@)),
            final(self)@ == (ServerView {
                next_request_id: (old(self)@.next_request_id + 1) as u64,
                approval_policy: approval_policy@,
                sandbox: sandbox_name(sandbox@),
                ..old(self)@
            }),
    {
        let request_id: u64 = self.next_request_id();
        self.approval_policy = approval_policy.clone();
        self.sandbox = normalize_sandbox(sandbox);
        let params = json::and_member(
            json::no_members(),
            "approvalPolicy",
            self.approval_policy.clone(),
        );
        let params = json::and_member(params, "sandbox", json::text_value(self.sandbox.as_str()));
        let params = json::and_member(params, "cwd", json::text_value(cwd));
        proof {
            lemma_thread_request_carries_settings(
                request_id,
                approval_policy@,
                sandbox_name(sandbox@),
                cwd@,
            );
        }
        (request_id, build_request(request_id, "thread/start", json::object(params)))
    }

    /// Takes the answer to a `thread/start` request: the thread's id.
    pub fn thread_started(&mut self, response: &Json) -> (r: Result<String, SymphonyError>)
        ensures
            error::result_is(r, nested_id(response@, "thread"@)),
            final(self)@ == (ServerView {
                current_thread_id: match nested_id(response@, "thread"@) {
                    Ok(id) => Some(id),
                    Err(_) => old(self)@.current_thread_id,
                },
                ..old(self)@
            }),
    {
        match extract_nested_id(response, "thread") {
            Ok(id) => {
                self.current_thread_id = Some(id.clone());
                Ok(id)
            },
            Err(error) => Err(error),
        }
    }

    /// The request that starts a turn, with its id.
    pub fn start_turn(
        &mut self,
        thread_id: &str,
        prompt: &str,
        cwd: &str,
        sandbox_policy: &Json,
    ) -> (r: (u64, Json))
        requires
            old(self)@.next_request_id < u64::MAX,
        ensures
            r.0 == old(self)@.next_request_id,
            r.1@ == request(
                r.0,
                "turn/start"@,
                turn_params(
                    thread_id@,
                    prompt@,
                    cwd@,
                    old(self)@.approval_policy,
                    sandbox_policy@,
                ),
            ),
            json::member(r.1@, "method"@) == Some(JsonView::Text("turn/start"@)),
            json::member(r.1@, "params"@) is Some,
            json::member(json::member(r.1@, "params"@)->0, "threadId"@) == Some(
                JsonView::Text(thread_id@),
            ),
            json::member(json::member(r.1@, "params"@)->0, "input"@) == Some(
                JsonView::Text(prompt@),
            ),
            json::member(json::member(r.1@, "params"@)->0, "cwd"@) == Some(JsonView::Text(cwd@)),
            json::member(json::member(r.1@, "params"@)->0, "approvalPolicy"@) == Some(
                old(self)@.approval_policy,
            ),
            json::member(json::member(r.1@, "params"@)->0, "sandboxPolicy"@) == Some(
                sandbox_policy@,
            ),
            final(self)@ == (ServerView {
                next_request_id: (old(self)@.next_request_id + 1) as u64,
                ..old(self)@
            }),
    {
        let request_id: u64 = self.next_request_id();
        let params = json::and_member(json::no_members(), "threadId", json::text_value(thread_id));
        let params = json::and_member(params, "input", json::text_value(prompt));
        let params = json::and_member(params, "cwd", json::text_value(cwd));
        let params = json::and_member(params, "title", json::text_value("symphony-turn"));
        let params = json::and_member(params, "approvalPolicy", self.approval_policy.clone());
        let params = json::and_member(params, "sandboxPolicy", sandbox_policy.clone());
        proof {
            lemma_turn_request_carries_prompt(
                request_id,
                thread_id@,
                prompt@,
                cwd@,
                self@.approval_policy,
                sandbox_policy@,
            );
        }
        (request_id, build_request(request_id, "turn/start", json::object(params)))
    }

    /// Takes the answer to a `turn/start` request: the turn's id.
    pub fn turn_started(&mut self, response: &Json) -> (r: Result<String, SymphonyError>)
        ensures
            error::result_is(r, nested_id(response@, "turn"@)),
            final(self)@ == (ServerView {
                current_turn_id: match nested_id(response@, "turn"@) {
                    Ok(id) => Some(id),
                    Err(_) => old(self)@.current_turn_id,
                },
                ..old(self)@
            }),
    {
        match extract_nested_id(response, "turn") {
            Ok(id) => {
                self.current_turn_id = Some(id.clone());
                Ok(id)
            },
            Err(error) => Err(error),
        }
    }

    /// Takes a message of the current turn into account and tells what to do. When the turn is
    /// done, no turn is current any more.
    pub fn process_message(&mut self, turn: &mut TurnProgress, message: &Json) -> (r: Result<
        TurnStep,
        SymphonyError,
    >)
        ensures
            error::result_is(
                r,
                step_after(message@, old(self)@.current_turn_id, old(self)@.approval_policy),
            ),
            final(turn).tokens == tokens_after(events::event_of(message@), old(turn).tokens),
            json::opt_json(final(turn).rate_limit) == rate_limit_after(
                events::event_of(message@),
                json::opt_json(old(turn).rate_limit),
            ),
            final(self)@ == (ServerView {
                current_turn_id: if r matches Ok(TurnStep::Done(_)) {
                    None
                } else {
                    old(self)@.current_turn_id
                },
                ..old(self)@
            }),
    {
        let event = events::parse_event(message);
        let current = match &self.current_turn_id {
            Some(id) => Some(id.as_str()),
            None => None,
        };
        match evaluate_event(
            event,
            current,
            &self.approval_policy,
            &mut turn.tokens,
            &mut turn.rate_limit,
        ) {
            Ok(TurnAction::Continue) => Ok(TurnStep::Continue),
            Ok(TurnAction::AutoApprove(id)) => Ok(TurnStep::Send(build_approval_response(&id))),
            Ok(TurnAction::ExecuteToolCall { id, name, params }) => Ok(
                TurnStep::CallTool { id, name, params },
            ),
            Ok(TurnAction::Complete(outcome)) => {
                self.current_turn_id = None;
                Ok(TurnStep::Done(outcome))
            },
            Err(error) => Err(error),
        }
    }

    /// Ends the current turn because its time is over.
    pub fn turn_timed_out(&mut self, turn: TurnProgress) -> (r: TurnResult)
        ensures
            r.outcome@ == OutcomeView::Timeout,
            r.tokens == turn.tokens,
            r.rate_limit == turn.rate_limit,
            final(self)@ == (ServerView { current_turn_id: None, ..old(self)@ }),
    {
        self.current_turn_id = None;
        turn.finish(RunOutcome::Timeout)
    }
}

/// The tokens after some messages of a turn.
pub open spec fn tokens_through(messages: Seq<JsonView>, tokens: SessionTokens) -> SessionTokens
    decreases messages.len(),
{
    if messages.len() == 0 {
        tokens
    } else {
        tokens_after(
            events::event_of(messages.last()),
            tokens_through(messages.drop_last(), tokens),
        )
    }
}

/// The rate limits after some messages of a turn.
pub open spec fn rate_limit_through(
    messages: Seq<JsonView>,
    rate_limit: Option<JsonView>,
) -> Option<JsonView>
    decreases messages.len(),
{
    if messages.len() == 0 {
        rate_limit
    } else {
        rate_limit_after(
            events::event_of(messages.last()),
            rate_limit_through(messages.drop_last(), rate_limit),
        )
    }
}

/// Of a whole turn the last token report counts, and where there is none the tokens are as they
/// were before it.
pub proof fn lemma_last_token_report_counts(
    messages: Seq<JsonView>,
    tokens: SessionTokens,
    last: int,
)
    requires
        -1 <= last < messages.len(),
        last >= 0 ==> events::event_of(messages[last]) is TokenUsage,
        forall|k: int|
            last < k < messages.len() ==> events::event_of(#[trigger] messages[k]) !is TokenUsage,
    ensures
        tokens_through(messages, tokens) == (if last < 0 {
            tokens
        } else {
            tokens_after(events::event_of(messages[last]), tokens)
        }),
    decreases messages.len(),
{
    if messages.len() > 0 && last < messages.len() - 1 {
        let earlier = messages.drop_last();
        assert forall|k: int| last < k < earlier.len() implies events::event_of(
            #[trigger] earlier[k],
        ) !is TokenUsage by {
            assert(earlier[k] == messages[k]);
        }
        assert(events::event_of(messages[messages.len() - 1]) !is TokenUsage);
        lemma_last_token_report_counts(earlier, tokens, last);
    }
}

/// Of a whole turn the last report of rate limits counts, and where there is none the rate limits
/// are as they were before it.
pub proof fn lemma_last_rate_limit_counts(
    messages: Seq<JsonView>,
    rate_limit: Option<JsonView>,
    last: int,
)
    requires
        -1 <= last < messages.len(),
        last >= 0 ==> events::event_of(messages[last]) is RateLimit,
        forall|k: int|
            last < k < messages.len() ==> events::event_of(#[trigger] messages[k]) !is RateLimit,
    ensures
        rate_limit_through(messages, rate_limit) == (if last < 0 {
            rate_limit
        } else {
            rate_limit_after(events::event_of(messages[last]), rate_limit)
        }),
    decreases messages.len(),
{
    if messages.len() > 0 && last < messages.len() - 1 {
        let earlier = messages.drop_last();
        assert forall|k: int| last < k < earlier.len() implies events::event_of(
            #[trigger] earlier[k],
        ) !is RateLimit by {
            assert(earlier[k] == messages[k]);
        }
        assert(events::event_of(messages[messages.len() - 1]) !is RateLimit);
        lemma_last_rate_limit_counts(earlier, rate_limit, last);
    }
}

/// Tells whether a tool call can be run: only `linear_graphql` is known, and only where it is set
/// up.
pub fn tool_is_supported(has_tool: bool, name: &str) -> (r: bool)
    ensures
        r == (has_tool && name@ == "linear_graphql"@),
{
    has_tool && text::same(name, "linear_graphql")
}

/// Command execution and file changes are approved under every policy.
pub proof fn lemma_known_requests_are_approved(id: JsonView, payload: JsonView, policy: JsonView)
    requires
        request_kind(payload) == "command_execution"@ || request_kind(payload) == "file_changes"@,
    ensures
        approval_answer(id, payload, policy) == Ok::<ActionView, ErrorView>(
            ActionView::AutoApprove(id),
        ),
{
}

/// Without a rejecting policy every request is approved.
pub proof fn lemma_approved_without_reject_policy(
    id: JsonView,
    payload: JsonView,
    policy: JsonView,
)
    requires
        !rejects(policy),
    ensures
        approval_answer(id, payload, policy) == Ok::<ActionView, ErrorView>(
            ActionView::AutoApprove(id),
        ),
{
}

/// A request for user input ends a turn with an error, whatever the policy.
pub proof fn lemma_user_input_is_an_error(
    message: JsonView,
    current: Option<Seq<char>>,
    policy: JsonView,
)
    requires
        json::text_member(message, "method"@) == Some("user/inputRequired"@),
    ensures
        step_after(message, current, policy) == Err::<StepView, ErrorView>(
            ErrorView::Codex("turn_input_required"@),
        ),
{
    reveal_strlit("user/inputRequired");
    reveal_strlit("turn/completed");
    reveal_strlit("turn/failed");
    reveal_strlit("turn/cancelled");
    reveal_strlit("thread/tokenUsage/updated");
    reveal_strlit("codex/rateLimit");
    reveal_strlit("approval/required");
    reveal_strlit("tool/call");
    reveal_strlit("item/tool/call");
    assert("user/inputRequired"@[0] == 'u');
    assert("turn/completed"@[0] == 't');
    assert("turn/failed"@[0] == 't');
    assert("turn/cancelled"@[0] == 't');
    assert("thread/tokenUsage/updated"@[0] == 't');
    assert("codex/rateLimit"@[0] == 'c');
    assert("approval/required"@[0] == 'a');
    assert("tool/call"@[0] == 't');
    assert("item/tool/call"@[0] == 'i');
}

/// A request names its protocol, its id, its method and its parameters.
pub proof fn lemma_request_is_complete(id: u64, method: Seq<char>, params: JsonView)
    ensures
        json::member(request(id, method, params), "jsonrpc"@) == Some(JsonView::Text("2.0"@)),
        json::member(request(id, method, params), "id"@) == Some(
            JsonView::Number(NumberView::Unsigned(id)),
        ),
        json::member(request(id, method, params), "method"@) == Some(JsonView::Text(method)),
        json::member(request(id, method, params), "params"@) == Some(params),
{
    broadcast use {json::lemma_member_push, json::lemma_no_member};

    reveal_strlit("jsonrpc");
    reveal_strlit("id");
    reveal_strlit("method");
    reveal_strlit("params");
    assert("jsonrpc"@.len() == 7);
    assert("id"@.len() == 2);
    assert("method"@.len() == 6);
    assert("params"@.len() == 6);
    assert("method"@[0] == 'm');
    assert("params"@[0] == 'p');
}

/// The request for a turn carries the thread, the prompt, the directory and both policies, each
/// under its own name.
pub proof fn lemma_turn_request_carries_prompt(
    id: u64,
    thread_id: Seq<char>,
    prompt: Seq<char>,
    cwd: Seq<char>,
    policy: JsonView,
    sandbox_policy: JsonView,
)
    ensures
        ({
            let message = request(
                id,
                "turn/start"@,
                turn_params(thread_id, prompt, cwd, policy, sandbox_policy),
            );
            &&& json::member(message, "method"@) == Some(JsonView::Text("turn/start"@))
            &&& json::member(message, "params"@) matches Some(params)
            &&& json::member(params, "threadId"@) == Some(JsonView::Text(thread_id))
            &&& json::member(params, "input"@) == Some(JsonView::Text(prompt))
            &&& json::member(params, "cwd"@) == Some(JsonView::Text(cwd))
            &&& json::member(params, "title"@) == Some(JsonView::Text("symphony-turn"@))
            &&& json::member(params, "approvalPolicy"@) == Some(policy)
            &&& json::member(params, "sandboxPolicy"@) == Some(sandbox_policy)
        }),
{
    broadcast use {json::lemma_member_push, json::lemma_no_member};

    lemma_request_is_complete(
        id,
        "turn/start"@,
        turn_params(thread_id, prompt, cwd, policy, sandbox_policy),
    );
    reveal_strlit("threadId");
    reveal_strlit("input");
    reveal_strlit("cwd");
    reveal_strlit("title");
    reveal_strlit("approvalPolicy");
    reveal_strlit("sandboxPolicy");
    assert("threadId"@.len() == 8);
    assert("input"@.len() == 5);
    assert("cwd"@.len() == 3);
    assert("title"@.len() == 5);
    assert("approvalPolicy"@.len() == 14);
    assert("sandboxPolicy"@.len() == 13);
    assert("input"@[0] == 'i');
    assert("title"@[0] == 't');
}

/// The request for a thread carries the policy, the sandbox and the directory, each under its own
/// name.
pub proof fn lemma_thread_request_carries_settings(
    id: u64,
    policy: JsonView,
    sandbox: Seq<char>,
    cwd: Seq<char>,
)
    ensures
        ({
            let message = request(id, "thread/start"@, thread_params(policy, sandbox, cwd));
            &&& json::member(message, "method"@) == Some(JsonView::Text("thread/start"@))
            &&& json::member(message, "params"@) matches Some(params)
            &&& json::member(params, "approvalPolicy"@) == Some(policy)
            &&& json::member(params, "sandbox"@) == Some(JsonView::Text(sandbox))
            &&& json::member(params, "cwd"@) == Some(JsonView::Text(cwd))
        }),
{
    broadcast use {json::lemma_member_push, json::lemma_no_member};

    lemma_request_is_complete(id, "thread/start"@, thread_params(policy, sandbox, cwd));
    reveal_strlit("approvalPolicy");
    reveal_strlit("sandbox");
    reveal_strlit("cwd");
    assert("approvalPolicy"@.len() == 14);
    assert("sandbox"@.len() == 7);
    assert("cwd"@.len() == 3);
}

/// The handshake names the client and its version.
pub proof fn lemma_handshake_names_client()
    ensures
        json::member(initialize_params(), "clientInfo"@) matches Some(client) && json::member(
            client,
            "name"@,
        ) == Some(JsonView::Text("symphony"@)) && json::member(client, "version"@) == Some(
            JsonView::Text("0.1.0"@),
        ),
        json::member(initialize_params(), "capabilities"@) == Some(JsonView::Object(Seq::empty())),
{
    broadcast use {json::lemma_member_push, json::lemma_no_member};

    reveal_strlit("clientInfo");
    reveal_strlit("capabilities");
    reveal_strlit("name");
    reveal_strlit("version");
    assert("clientInfo"@.len() == 10);
    assert("capabilities"@.len() == 12);
    assert("name"@.len() == 4);
    assert("version"@.len() == 7);
    assert(json::member(initialize_params(), "capabilities"@)->0->Object_0 =~= Seq::<
        (Seq<char>, JsonView),
    >::empty());
}

/// The answer that approves a request bears the request's id and says that it is approved.
pub proof fn lemma_approval_answers_its_request(id: JsonView)
    ensures
        json::member(approval_response(id), "id"@) == Some(id),
        json::member(approval_response(id), "result"@) matches Some(result) && json::member(
            result,
            "approved"@,
        ) == Some(JsonView::Bool(true)),
{
    broadcast use {json::lemma_member_push, json::lemma_no_member};

    reveal_strlit("jsonrpc");
    reveal_strlit("id");
    reveal_strlit("result");
    assert("jsonrpc"@.len() == 7);
    assert("id"@.len() == 2);
    assert("result"@.len() == 6);
    let one = seq![("approved"@, JsonView::Bool(true))];
    assert(one =~= Seq::empty().push(("approved"@, JsonView::Bool(true))));
}

/// The answer to a tool call bears the call's id and the tool's result, and what a tool hands back
/// says whether it worked and holds its output, twice.
pub proof fn lemma_tool_answer_holds_output(
    id: JsonView,
    result: JsonView,
    success: bool,
    output: Seq<char>,
)
    ensures
        json::member(tool_call_response(id, result), "id"@) == Some(id),
        json::member(tool_call_response(id, result), "result"@) == Some(result),
        json::member(tool_response(success, output), "success"@) == Some(JsonView::Bool(success)),
        json::member(tool_response(success, output), "output"@) == Some(JsonView::Text(output)),
        json::member(tool_response(success, output), "contentItems"@) matches Some(
            JsonView::Array(items),
        ) && items.len() == 1 && json::member(items[0], "type"@) == Some(
            JsonView::Text("inputText"@),
        ) && json::member(items[0], "text"@) == Some(JsonView::Text(output)),
{
    broadcast use {json::lemma_member_push, json::lemma_no_member};

    reveal_strlit("id");
    reveal_strlit("result");
    reveal_strlit("success");
    reveal_strlit("output");
    reveal_strlit("contentItems");
    reveal_strlit("type");
    reveal_strlit("text");
    assert("id"@.len() == 2);
    assert("result"@.len() == 6);
    assert("success"@.len() == 7);
    assert("output"@.len() == 6);
    assert("contentItems"@.len() == 12);
    assert("type"@.len() == 4);
    assert("text"@.len() == 4);
    assert("output"@[0] == 'o');
    assert("result"@[0] == 'r');
    assert("text"@[1] == 'e');
    assert("type"@[1] == 'y');
}

/// A message answers a request only where it bears the request's id: with its result where it has
/// one, else with its error, else with the error that it has neither.
pub proof fn lemma_response_goes_by_id(
    message: JsonView,
    request_id: u64,
    id: u64,
    result: JsonView,
)
    ensures
        json::member(message, "id"@) == Some(JsonView::Number(NumberView::Unsigned(id))) && id
            != request_id ==> response_to(message, request_id) is None,
        json::member(message, "id"@) is None ==> response_to(message, request_id) is None,
        json::member(message, "id"@) == Some(JsonView::Number(NumberView::Unsigned(request_id))) ==> {
            &&& response_to(message, request_id) matches Some(answer)
            &&& json::member(message, "result"@) == Some(result) ==> answer == Ok::<
                JsonView,
                ErrorView,
            >(result)
            &&& json::member(message, "result"@) is None ==> answer is Err
            &&& json::member(message, "result"@) is None && json::member(message, "error"@) is None
                ==> answer == Err::<JsonView, ErrorView>(
                ErrorView::Codex("missing_response_result"@),
            )
        },
{
}

/// A turn ends with the first report of its own end: a completed turn with success, a failed one with
/// the reason, a cancelled one with a failure. A report about another turn changes nothing, and one
/// that names no turn is about the current one.
pub proof fn lemma_turn_ends_with_its_report(
    current: Seq<char>,
    turn_id: Seq<char>,
    reason: Seq<char>,
    policy: JsonView,
)
    ensures
        ({
            let completed = answer(EventView::TurnCompleted { turn_id }, Some(current), policy);
            let failed = answer(
                EventView::TurnFailed { turn_id, error: reason },
                Some(current),
                policy,
            );
            let cancelled = answer(EventView::TurnCancelled { turn_id }, Some(current), policy);
            &&& turn_id == current || turn_id.len() == 0 ==> completed == Ok::<
                ActionView,
                ErrorView,
            >(ActionView::Complete(OutcomeView::Success))
            &&& turn_id == current || turn_id.len() == 0 ==> failed == Ok::<ActionView, ErrorView>(
                ActionView::Complete(OutcomeView::Failure(reason)),
            )
            &&& turn_id == current || turn_id.len() == 0 ==> cancelled == Ok::<
                ActionView,
                ErrorView,
            >(ActionView::Complete(OutcomeView::Failure("turn_cancelled"@)))
            &&& turn_id != current && turn_id.len() > 0 ==> completed == Ok::<ActionView, ErrorView>(
                ActionView::Continue,
            ) && failed == completed && cancelled == completed
        }),
        answer(EventView::TurnCompleted { turn_id }, None, policy) == Ok::<ActionView, ErrorView>(
            ActionView::Complete(OutcomeView::Success),
        ),
{
}

/// An approval request of a kind that a rejecting policy neither lists with `true` nor knows is an
/// error that names the kind; listed with `true` it is approved.
pub proof fn lemma_rejecting_policy_rejects(
    id: JsonView,
    payload: JsonView,
    policy: JsonView,
    list: JsonView,
    kind: Seq<char>,
)
    requires
        json::member(policy, "reject"@) == Some(list),
        json::member(payload, "kind"@) == Some(JsonView::Text(kind)) || (json::member(
            payload,
            "kind"@,
        ) is None && json::member(payload, "type"@) == Some(JsonView::Text(kind))),
    ensures
        json::member(list, kind) == Some(JsonView::Bool(true)) ==> answer(
            EventView::ApprovalRequest { id, payload },
            None,
            policy,
        ) == Ok::<ActionView, ErrorView>(ActionView::AutoApprove(id)),
        json::member(list, kind) != Some(JsonView::Bool(true)) && kind != "command_execution"@
            && kind != "file_changes"@ && kind != "sandbox_approval"@ && kind != "rules"@ && kind
            != "mcp_elicitations"@ ==> answer(
            EventView::ApprovalRequest { id, payload },
            None,
            policy,
        ) == Err::<ActionView, ErrorView>(ErrorView::Codex("approval_required: "@ + kind)),
{
}

/// The kinds that are known are approved under a rejecting policy too.
pub proof fn lemma_known_kinds_pass(policy: JsonView, list: JsonView)
    requires
        json::member(policy, "reject"@) == Some(list),
    ensures
        passes_reject_policy(policy, "command_execution"@),
        passes_reject_policy(policy, "file_changes"@),
        passes_reject_policy(policy, "sandbox_approval"@),
        passes_reject_policy(policy, "rules"@),
        passes_reject_policy(policy, "mcp_elicitations"@),
{
}

/// What an event asks for is what is done: an approval is sent, a tool is called with what the event
/// holds, an outcome ends the turn, and an error is passed on.
pub proof fn lemma_step_follows_event(
    message: JsonView,
    current: Option<Seq<char>>,
    policy: JsonView,
    id: JsonView,
    name: Seq<char>,
    params: JsonView,
)
    ensures
        events::event_of(message) == (EventView::ToolCall { id, name, params }) ==> step_after(
            message,
            current,
            policy,
        ) == Ok::<StepView, ErrorView>(StepView::CallTool { id, name, params }),
        events::event_of(message) == (EventView::ApprovalRequest { id, payload: params })
            && json::member(policy, "reject"@) is None ==> (step_after(message, current, policy)
            matches Ok(StepView::Send(reply)) && json::member(reply, "id"@) == Some(id)),
        events::event_of(message) == (EventView::TurnCompleted { turn_id: name }) && current == Some(
            name,
        ) ==> step_after(message, current, policy) == Ok::<StepView, ErrorView>(
            StepView::Done(OutcomeView::Success),
        ),
        events::event_of(message) is RateLimit || events::event_of(message) is TokenUsage
            || events::event_of(message) is Unknown ==> step_after(message, current, policy) == Ok::<
            StepView,
            ErrorView,
        >(StepView::Continue),
        events::event_of(message) is UserInputRequired ==> step_after(message, current, policy)
            is Err,
{
    lemma_approval_answers_its_request(id);
}

/// A report of tokens replaces the tokens, and a report of rate limits the rate limits; any other
/// event leaves both as they are.
pub proof fn lemma_reports_replace(
    event: EventView,
    tokens: SessionTokens,
    limits: Option<JsonView>,
    input: u64,
    output: u64,
    total: u64,
    payload: JsonView,
)
    ensures
        event == (EventView::TokenUsage {
            input_tokens: input,
            output_tokens: output,
            total_tokens: total,
        }) ==> tokens_after(event, tokens).input_tokens == input && tokens_after(
            event,
            tokens,
        ).output_tokens == output && tokens_after(event, tokens).total_tokens == total
            && tokens_after(event, tokens).last_reported_total == total,
        event !is TokenUsage ==> tokens_after(event, tokens) == tokens,
        event == (EventView::RateLimit { payload }) ==> rate_limit_after(event, limits) == Some(
            payload,
        ),
        event !is RateLimit ==> rate_limit_after(event, limits) == limits,
{
}

/// A line that is not blank gives the message that it holds, a blank one none, and the end of the
/// output, a failed read and a read that takes too long are errors.
pub proof fn lemma_reads_are_told_apart(line: String, reason: String, value: JsonView)
    ensures
        text::trimmed(line@).len() == 0 ==> message_read(ReadOutcome::Line(line)) == Ok::<
            Option<JsonView>,
            ErrorView,
        >(None),
        text::trimmed(line@).len() > 0 && json::json_parsed(text::trim_end_spec(line@)) == Ok::<
            JsonView,
            Seq<char>,
        >(value) ==> message_read(ReadOutcome::Line(line)) == Ok::<Option<JsonView>, ErrorView>(
            Some(value),
        ),
        text::trimmed(line@).len() > 0 && json::json_parsed(text::trim_end_spec(line@)) is Err
            ==> message_read(ReadOutcome::Line(line)) is Err,
        message_read(ReadOutcome::Closed) is Err,
        message_read(ReadOutcome::Failed(reason)) == Err::<Option<JsonView>, ErrorView>(
            ErrorView::Codex("read_failed: "@ + reason@),
        ),
        message_read(ReadOutcome::TimedOut) == Err::<Option<JsonView>, ErrorView>(
            ErrorView::Codex("response_timeout"@),
        ),
{
    text::lemma_trimmed_empty(line@);
}

/// The id inside a part of an answer is the text under `id` in it, and where there is none that is an
/// error.
pub proof fn lemma_nested_id_is_found(
    value: JsonView,
    outer: Seq<char>,
    part: JsonView,
    id: Seq<char>,
)
    ensures
        json::member(value, outer) == Some(part) && json::member(part, "id"@) == Some(
            JsonView::Text(id),
        ) ==> nested_id(value, outer) == Ok::<Seq<char>, ErrorView>(id),
        json::member(value, outer) is None ==> nested_id(value, outer) is Err,
        json::member(value, outer) == Some(part) && json::member(part, "id"@) is None ==> nested_id(
            value,
            outer,
        ) is Err,
{
}

/// The sandbox is the one that is named, without white space around it, and `workspace-write` where
/// none is named.
pub proof fn lemma_sandbox_is_named(sandbox: Seq<char>)
    ensures
        text::trimmed(sandbox).len() > 0 ==> sandbox_name(sandbox) == text::trimmed(sandbox),
        text::trimmed(sandbox).len() == 0 ==> sandbox_name(sandbox) == "workspace-write"@,
{
    text::lemma_trimmed_empty(sandbox);
}

/// By default commands and changes of files are approved, and nothing else is.
pub proof fn lemma_default_policy_approves()
    ensures
        json::member(default_policy(), "autoApprove"@) == Some(
            JsonView::Array(
                seq![JsonView::Text("command_execution"@), JsonView::Text("file_changes"@)],
            ),
        ),
        !rejects(default_policy()),
{
    broadcast use {json::lemma_member_push, json::lemma_no_member};

    let actions = JsonView::Array(
        seq![JsonView::Text("command_execution"@), JsonView::Text("file_changes"@)],
    );
    assert(seq![("autoApprove"@, actions)] =~= Seq::empty().push(("autoApprove"@, actions)));
    reveal_strlit("autoApprove");
    reveal_strlit("reject");
    assert("autoApprove"@.len() == 11);
    assert("reject"@.len() == 6);
}

/// Who answered is told by the user agent where there is one, else by the session id, and else by the
/// whole answer.
pub proof fn lemma_answerer_is_named(result: JsonView, name: Seq<char>)
    ensures
        json::member(result, "userAgent"@) == Some(JsonView::Text(name)) ==> initialize_info(result)
            == name,
        json::member(result, "userAgent"@) is None && json::member(result, "sessionId"@) == Some(
            JsonView::Text(name),
        ) ==> initialize_info(result) == name,
        json::member(result, "userAgent"@) is None && json::member(result, "sessionId"@) is None
            ==> initialize_info(result) == json::json_text(result),
{
}

/// What is said of an unknown tool names it, and the tool that there is.
pub proof fn lemma_unknown_tool_is_named(name: Seq<char>, details: JsonView)
    ensures
        json::member(unsupported_tool(name), "error"@) is Some,
        json::member(unsupported_tool(name), "error"@) == Some(details) ==> json::member(
            details,
            "message"@,
        ) == Some(JsonView::Text("Unsupported dynamic tool: "@ + error::debug_text(name) + "."@))
            && json::member(details, "supportedTools"@) == Some(
            JsonView::Array(seq![JsonView::Text("linear_graphql"@)]),
        ),
{
    broadcast use {json::lemma_member_push, json::lemma_no_member};

    assert(seq![("error"@, details)] =~= Seq::empty().push(("error"@, details)));
    let inner = JsonView::Object(
        Seq::empty().push(
            (
                "message"@,
                JsonView::Text("Unsupported dynamic tool: "@ + error::debug_text(name) + "."@),
            ),
        ).push(("supportedTools"@, JsonView::Array(seq![JsonView::Text("linear_graphql"@)]))),
    );
    assert(seq![("error"@, inner)] =~= Seq::empty().push(("error"@, inner)));
    reveal_strlit("error");
    reveal_strlit("message");
    reveal_strlit("supportedTools");
    assert("error"@.len() == 5);
    assert("message"@.len() == 7);
    assert("supportedTools"@.len() == 14);
}

/// Each fault of the agent's process has its own name.
pub proof fn lemma_faults_are_named()
    ensures
        fault_name(ServerFault::Launch) == "launch_failed: "@,
        fault_name(ServerFault::Write) == "stdin_write_failed: "@,
        fault_name(ServerFault::Flush) == "stdin_flush_failed: "@,
        fault_name(ServerFault::Kill) == "shutdown_failed: "@,
        fault_name(ServerFault::Wait) == "wait_failed: "@,
        fault_name(ServerFault::TryWait) == "try_wait_failed: "@,
{
}

/// The model of what an event asks for is of the same kind and has the same data.
pub proof fn lemma_action_is_modelled(
    action: TurnAction,
    step: TurnStep,
    outcome: RunOutcome,
    id: Json,
    name: String,
    params: Json,
)
    ensures
        TurnAction::Continue@ is Continue,
        TurnAction::Complete(outcome)@ == ActionView::Complete(outcome@),
        TurnAction::AutoApprove(id)@ == ActionView::AutoApprove(id@),
        action == (TurnAction::ExecuteToolCall { id, name, params }) ==> action@ == (
        ActionView::ExecuteToolCall { id: id@, name: name@, params: params@ }),
        TurnStep::Continue@ is Continue,
        TurnStep::Send(id)@ == StepView::Send(id@),
        TurnStep::Done(outcome)@ == StepView::Done(outcome@),
        step == (TurnStep::CallTool { id, name, params }) ==> step@ == (StepView::CallTool {
            id: id@,
            name: name@,
            params: params@,
        }),
{
}

} // verus!
