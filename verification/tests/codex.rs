use symphony::codex::app_server::{
    build_approval_response, build_tool_call_response, build_tool_rejection_response,
    build_unsupported_tool_result, evaluate_event, extract_initialize_info, extract_nested_id,
    interpret_read, is_current_turn, match_response, message_line, normalize_sandbox,
    normalize_timeout, parsed_message, remote_launch_command, remote_launch_error, server_error,
    tool_is_supported, turn_time_left, AppServer, ReadOutcome, ServerFault, SessionTokens,
    TurnAction, TurnProgress, TurnStep,
};
use symphony::codex::events::{parse_event, CodexEvent};
use symphony::codex::tools::{
    failure_response, graphql_response, handle_outcome, normalize_arguments, tool_error_payload,
    validate_query,
};
use symphony::domain::RunOutcome;
use symphony::error::SymphonyError;
use symphony::json::{Json, Number};
use symphony::linear::client::{reply_payload, request_body, HttpReply};

fn from_value(value: &serde_json::Value) -> Json {
    match value {
        serde_json::Value::Null => Json::Null,
        serde_json::Value::Bool(b) => Json::Bool(*b),
        serde_json::Value::Number(n) => match (n.as_u64(), n.as_i64()) {
            (Some(n), _) => Json::Number(Number::Unsigned(n)),
            (None, Some(n)) => Json::Number(Number::Negative(n)),
            (None, None) => Json::Number(Number::Float(n.to_string())),
        },
        serde_json::Value::String(s) => Json::Text(s.clone()),
        serde_json::Value::Array(items) => Json::Array(items.iter().map(from_value).collect()),
        serde_json::Value::Object(members) => Json::Object(
            members.iter().map(|(key, value)| (key.clone(), from_value(value))).collect(),
        ),
    }
}

fn to_value(value: &Json) -> serde_json::Value {
    match value {
        Json::Null => serde_json::Value::Null,
        Json::Bool(b) => serde_json::Value::Bool(*b),
        Json::Number(Number::Unsigned(n)) => (*n).into(),
        Json::Number(Number::Negative(n)) => (*n).into(),
        Json::Number(Number::Float(text)) => serde_json::from_str(text).unwrap(),
        Json::Text(s) => serde_json::Value::String(s.clone()),
        Json::Array(items) => serde_json::Value::Array(items.iter().map(to_value).collect()),
        Json::Object(members) => serde_json::Value::Object(
            members.iter().map(|(key, value)| (key.clone(), to_value(value))).collect(),
        ),
    }
}

fn value(text: &str) -> serde_json::Value {
    serde_json::from_str(text).unwrap()
}

fn json(text: &str) -> Json {
    from_value(&value(text))
}

const DEFAULT_POLICY: &str = r#"{"autoApprove": ["command_execution", "file_changes"]}"#;

fn evaluate(
    event: CodexEvent,
    current: Option<&str>,
    policy: &str,
) -> Result<TurnAction, SymphonyError> {
    let mut tokens = SessionTokens::default();
    let mut rate_limit = None;
    evaluate_event(event, current, &json(policy), &mut tokens, &mut rate_limit)
}

fn request(id: &str, payload: &str) -> CodexEvent {
    CodexEvent::ApprovalRequest { id: json(id), payload: json(payload) }
}

fn completed(turn_id: &str) -> CodexEvent {
    CodexEvent::TurnCompleted { turn_id: turn_id.into() }
}

#[test]
fn approval_response_matches_protocol_shape() {
    let payload = build_approval_response(&json("7"));

    assert_eq!(
        to_value(&payload),
        value(r#"{"jsonrpc": "2.0", "id": 7, "result": {"approved": true}}"#)
    );
}

#[test]
fn tool_rejection_matches_protocol_shape() {
    let payload = build_tool_rejection_response(&json("9"));

    assert_eq!(
        to_value(&payload),
        value(
            r#"{
                "jsonrpc": "2.0",
                "id": 9,
                "result": {"success": false, "error": "unsupported tool call"}
            }"#
        )
    );
}

#[test]
fn tool_call_response_wraps_result() {
    let result = r#"{"success": true, "output": "ok"}"#;
    let payload = to_value(&build_tool_call_response(&json("12"), json(result)));

    assert_eq!(payload["id"], value("12"));
    assert_eq!(payload["result"], value(result));
}

#[test]
fn unsupported_tool_result_contains_error() {
    let result = to_value(&build_unsupported_tool_result("unknown_tool"));

    assert_eq!(result["success"], value("false"));
    assert!(result["output"].as_str().unwrap().contains("Unsupported"));
}

#[test]
fn token_tracking_uses_latest_thread_totals() {
    let policy = json(DEFAULT_POLICY);
    let mut tokens = SessionTokens::default();
    let mut rate_limit = None;

    evaluate_event(
        CodexEvent::TokenUsage { input_tokens: 10, output_tokens: 5, total_tokens: 15 },
        Some("turn-1"),
        &policy,
        &mut tokens,
        &mut rate_limit,
    )
    .unwrap();
    evaluate_event(
        CodexEvent::TokenUsage { input_tokens: 14, output_tokens: 9, total_tokens: 23 },
        Some("turn-1"),
        &policy,
        &mut tokens,
        &mut rate_limit,
    )
    .unwrap();

    assert_eq!(
        tokens,
        SessionTokens {
            input_tokens: 14,
            output_tokens: 9,
            total_tokens: 23,
            last_reported_total: 23,
        }
    );
}

#[test]
fn user_input_required_returns_specific_error() {
    let result = evaluate(CodexEvent::UserInputRequired, Some("turn-1"), DEFAULT_POLICY);

    assert!(matches!(
        result,
        Err(SymphonyError::Codex(message)) if message == "turn_input_required"
    ));
}

#[test]
fn matching_terminal_event_completes_turn() {
    let action = evaluate(completed("turn-1"), Some("turn-1"), DEFAULT_POLICY).unwrap();

    assert!(matches!(action, TurnAction::Complete(RunOutcome::Success)));
}

#[test]
fn tool_call_event_produces_execute_action() {
    let action = evaluate(
        CodexEvent::ToolCall {
            id: json("15"),
            name: "linear_graphql".into(),
            params: json(r#"{"query": "query { viewer { id } }"}"#),
        },
        Some("turn-1"),
        DEFAULT_POLICY,
    )
    .unwrap();

    assert!(matches!(
        action,
        TurnAction::ExecuteToolCall { name, .. } if name == "linear_graphql"
    ));
}

#[test]
fn reject_policy_auto_approves_known_types() {
    let action = evaluate(
        request("20", r#"{"kind": "sandbox_approval"}"#),
        Some("turn-1"),
        r#"{"reject": {"sandbox_approval": true, "rules": true}}"#,
    )
    .unwrap();

    assert!(matches!(action, TurnAction::AutoApprove(_)));
}

#[test]
fn reject_policy_rejects_unknown_approval_type() {
    let result = evaluate(
        request("21", r#"{"kind": "some_unknown_type"}"#),
        Some("turn-1"),
        r#"{"reject": {"sandbox_approval": true}}"#,
    );

    assert!(matches!(
        result,
        Err(SymphonyError::Codex(msg)) if msg.contains("approval_required")
    ));
}

#[test]
fn auto_policy_approves_all() {
    let action = evaluate(
        request("22", r#"{"kind": "anything"}"#),
        Some("turn-1"),
        r#"{"autoApprove": ["command_execution"]}"#,
    )
    .unwrap();

    assert!(matches!(action, TurnAction::AutoApprove(_)));
}

#[test]
fn turn_failed_produces_failure_outcome() {
    let action = evaluate(
        CodexEvent::TurnFailed { turn_id: "turn-1".into(), error: "catastrophe".into() },
        Some("turn-1"),
        DEFAULT_POLICY,
    )
    .unwrap();

    assert!(
        matches!(action, TurnAction::Complete(RunOutcome::Failure(msg)) if msg == "catastrophe")
    );
}

#[test]
fn turn_cancelled_produces_failure_outcome() {
    let action = evaluate(
        CodexEvent::TurnCancelled { turn_id: "turn-1".into() },
        Some("turn-1"),
        DEFAULT_POLICY,
    )
    .unwrap();

    assert!(matches!(
        action,
        TurnAction::Complete(RunOutcome::Failure(msg)) if msg == "turn_cancelled"
    ));
}

#[test]
fn mismatched_turn_id_continues() {
    let action = evaluate(completed("turn-OTHER"), Some("turn-1"), DEFAULT_POLICY).unwrap();

    assert!(matches!(action, TurnAction::Continue));
}

#[test]
fn empty_turn_id_matches_any_current() {
    let action = evaluate(completed(""), Some("turn-1"), DEFAULT_POLICY).unwrap();

    assert!(matches!(action, TurnAction::Complete(RunOutcome::Success)));
}

#[test]
fn no_current_turn_id_completes_on_any_event() {
    let action = evaluate(completed("turn-X"), None, DEFAULT_POLICY).unwrap();

    assert!(matches!(action, TurnAction::Complete(RunOutcome::Success)));
}

#[test]
fn rate_limit_event_stores_payload() {
    let policy = json(DEFAULT_POLICY);
    let mut tokens = SessionTokens::default();
    let mut rate_limit = None;
    let action = evaluate_event(
        CodexEvent::RateLimit { payload: json(r#"{"remaining": 10}"#) },
        Some("turn-1"),
        &policy,
        &mut tokens,
        &mut rate_limit,
    )
    .unwrap();

    assert!(matches!(action, TurnAction::Continue));
    assert_eq!(rate_limit, Some(json(r#"{"remaining": 10}"#)));
}

#[test]
fn unknown_event_continues() {
    let action = evaluate(
        CodexEvent::Unknown(json(r#"{"method": "something"}"#)),
        Some("turn-1"),
        DEFAULT_POLICY,
    )
    .unwrap();

    assert!(matches!(action, TurnAction::Continue));
}

#[test]
fn tool_call_with_unknown_tool_produces_execute_action() {
    let action = evaluate(
        CodexEvent::ToolCall { id: json("30"), name: "unknown_tool".into(), params: json("{}") },
        Some("turn-1"),
        DEFAULT_POLICY,
    )
    .unwrap();

    assert!(matches!(
        action,
        TurnAction::ExecuteToolCall { name, .. } if name == "unknown_tool"
    ));
}

#[test]
fn reject_policy_auto_approves_default_known_actions() {
    for action_type in
        ["command_execution", "file_changes", "sandbox_approval", "rules", "mcp_elicitations"]
    {
        let payload = format!("{{\"kind\": \"{action_type}\"}}");
        let action =
            evaluate(request("40", &payload), Some("turn-1"), r#"{"reject": {}}"#).unwrap();

        assert!(
            matches!(action, TurnAction::AutoApprove(_)),
            "expected auto-approve for {action_type}"
        );
    }
}

#[test]
fn reject_policy_approves_explicitly_listed_type() {
    let action = evaluate(
        request("41", r#"{"kind": "custom_action"}"#),
        Some("turn-1"),
        r#"{"reject": {"custom_action": true}}"#,
    )
    .unwrap();

    assert!(matches!(action, TurnAction::AutoApprove(_)));
}

#[test]
fn no_policy_approves_all_requests() {
    let action =
        evaluate(request("42", r#"{"kind": "anything_goes"}"#), Some("turn-1"), "{}").unwrap();

    assert!(matches!(action, TurnAction::AutoApprove(_)));
}

#[test]
fn unsupported_tool_result_mentions_supported_tools() {
    let result = to_value(&build_unsupported_tool_result("magic_tool"));
    let output = result["output"].as_str().unwrap();

    assert!(output.contains("linear_graphql"));
    assert!(output.contains("magic_tool"));
}

#[test]
fn session_tokens_update_from_thread_totals_tracks_delta() {
    let mut tokens = SessionTokens::default();
    tokens.update_from_thread_totals(10, 5, 15);

    assert_eq!(tokens.input_tokens, 10);
    assert_eq!(tokens.output_tokens, 5);
    assert_eq!(tokens.total_tokens, 15);
    assert_eq!(tokens.last_reported_total, 15);

    tokens.update_from_thread_totals(20, 10, 30);

    assert_eq!(tokens.input_tokens, 20);
    assert_eq!(tokens.output_tokens, 10);
    assert_eq!(tokens.total_tokens, 30);
    assert_eq!(tokens.last_reported_total, 30);
}

#[test]
fn approval_request_with_type_field_extracts_correctly() {
    let action = evaluate(
        request("50", r#"{"type": "sandbox_approval"}"#),
        Some("turn-1"),
        r#"{"reject": {"sandbox_approval": true}}"#,
    )
    .unwrap();

    assert!(matches!(action, TurnAction::AutoApprove(_)));
}

#[test]
fn parses_turn_completed_event() {
    let event = parse_event(&json(
        r#"{"jsonrpc": "2.0", "method": "turn/completed", "params": {"turnId": "turn-1"}}"#,
    ));

    assert_eq!(event, CodexEvent::TurnCompleted { turn_id: "turn-1".into() });
}

#[test]
fn parses_turn_failed_event() {
    let event = parse_event(&json(
        r#"{
            "jsonrpc": "2.0",
            "method": "turn/failed",
            "params": {"turn": {"id": "turn-2"}, "error": {"message": "boom"}}
        }"#,
    ));

    assert_eq!(
        event,
        CodexEvent::TurnFailed { turn_id: "turn-2".into(), error: "boom".into() }
    );
}

#[test]
fn parses_turn_cancelled_event() {
    let event = parse_event(&json(
        r#"{"jsonrpc": "2.0", "method": "turn/cancelled", "params": {"turn_id": "turn-3"}}"#,
    ));

    assert_eq!(event, CodexEvent::TurnCancelled { turn_id: "turn-3".into() });
}

#[test]
fn parses_token_usage_event() {
    let event = parse_event(&json(
        r#"{
            "jsonrpc": "2.0",
            "method": "thread/tokenUsage/updated",
            "params": {
                "total_token_usage": {"input_tokens": 10, "output_tokens": 5, "total_tokens": 15}
            }
        }"#,
    ));

    assert_eq!(
        event,
        CodexEvent::TokenUsage { input_tokens: 10, output_tokens: 5, total_tokens: 15 }
    );
}

#[test]
fn parses_rate_limit_event() {
    let event = parse_event(&json(
        r#"{"jsonrpc": "2.0", "method": "codex/rateLimit", "params": {"remaining": 42}}"#,
    ));

    assert_eq!(event, CodexEvent::RateLimit { payload: json(r#"{"remaining": 42}"#) });
}

#[test]
fn parses_approval_request_event() {
    let event = parse_event(&json(
        r#"{
            "jsonrpc": "2.0",
            "id": 11,
            "method": "approval/required",
            "params": {"kind": "command_execution"}
        }"#,
    ));

    assert_eq!(
        event,
        CodexEvent::ApprovalRequest {
            id: json("11"),
            payload: json(r#"{"kind": "command_execution"}"#),
        }
    );
}

#[test]
fn parses_tool_call_event() {
    let event = parse_event(&json(
        r#"{
            "jsonrpc": "2.0",
            "id": 12,
            "method": "tool/call",
            "params": {
                "name": "linear_graphql",
                "params": {"query": "query Test { viewer { id } }"}
            }
        }"#,
    ));

    assert_eq!(
        event,
        CodexEvent::ToolCall {
            id: json("12"),
            name: "linear_graphql".into(),
            params: json(r#"{"query": "query Test { viewer { id } }"}"#),
        }
    );
}

#[test]
fn parses_user_input_required_event() {
    let event = parse_event(&json(r#"{"jsonrpc": "2.0", "method": "user/inputRequired"}"#));

    assert_eq!(event, CodexEvent::UserInputRequired);
}

#[test]
fn unknown_event_preserves_payload() {
    let payload = r#"{"jsonrpc": "2.0", "method": "other/event", "params": {"value": 1}}"#;
    let event = parse_event(&json(payload));

    assert_eq!(event, CodexEvent::Unknown(json(payload)));
}

fn decode_output(response: &serde_json::Value) -> serde_json::Value {
    value(response["output"].as_str().unwrap())
}

fn refused(arguments: &str) -> serde_json::Value {
    let error = normalize_arguments(&json(arguments)).unwrap_err();
    to_value(&failure_response(&tool_error_payload(&error)))
}

#[test]
fn rejects_empty_query() {
    let response = refused("\"\"");

    assert_eq!(response["success"], value("false"));
    assert_eq!(
        decode_output(&response),
        value(
            r#"{"error": {"message": "`linear_graphql` requires a non-empty `query` string."}}"#
        )
    );
}

#[test]
fn rejects_non_object_variables() {
    let response =
        refused(r#"{"query": "query Viewer { viewer { id } }", "variables": "invalid"}"#);

    assert_eq!(response["success"], value("false"));
    assert_eq!(
        decode_output(&response),
        value(
            r#"{
                "error": {
                    "message": "`linear_graphql.variables` must be a JSON object when provided."
                }
            }"#
        )
    );
}

#[test]
fn rejects_multiple_operations() {
    let response = refused(
        r#"{
            "query": "query Viewer { viewer { id } } mutation Update { updateIssue { success } }"
        }"#,
    );

    assert_eq!(response["success"], value("false"));
    assert_eq!(
        decode_output(&response),
        value(
            r#"{
                "error": {
                    "message": "`linear_graphql` accepts exactly one GraphQL operation per request."
                }
            }"#
        )
    );
}

#[test]
fn executes_object_input_against_linear() {
    let (query, variables) = normalize_arguments(&json(
        r#"{"query": "query Viewer { viewer { id } }", "variables": {"includeTeams": false}}"#,
    ))
    .unwrap();
    assert_eq!(
        to_value(&request_body(&query, variables)),
        value(
            r#"{"query": "query Viewer { viewer { id } }", "variables": {"includeTeams": false}}"#
        )
    );

    let payload = r#"{"data": {"viewer": {"id": "usr_123"}}}"#;
    let answer = reply_payload(HttpReply::Payload(Ok(json(payload)))).unwrap();
    let response = to_value(&graphql_response(&answer));

    assert_eq!(response["success"], value("true"));
    assert_eq!(decode_output(&response), value(payload));
    assert_eq!(response["contentItems"][0]["type"], value("\"inputText\""));
    assert_eq!(response["contentItems"][0]["text"], response["output"]);
}

#[test]
fn executes_raw_query_string_with_empty_variables() {
    let (query, variables) =
        normalize_arguments(&json("\"  query Viewer { viewer { id } }  \"")).unwrap();
    assert_eq!(
        to_value(&request_body(&query, variables)),
        value(r#"{"query": "query Viewer { viewer { id } }", "variables": {}}"#)
    );

    let payload = r#"{"data": {"viewer": {"id": "usr_456"}}}"#;
    let response = to_value(&graphql_response(&json(payload)));

    assert_eq!(response["success"], value("true"));
    assert_eq!(decode_output(&response), value(payload));
}

#[test]
fn marks_graphql_error_payloads_as_failures() {
    assert!(normalize_arguments(&json(r#"{"query": "mutation BadMutation { nope }"}"#)).is_ok());
    let payload = r#"{"data": null, "errors": [{"message": "Unknown field `nope`"}]}"#;
    let response = to_value(&graphql_response(&json(payload)));

    assert_eq!(response["success"], value("false"));
    assert_eq!(decode_output(&response), value(payload));
}

#[test]
fn maps_transport_failures_to_error_envelopes() {
    let outcome = reply_payload(HttpReply::Failed("connection refused".into()));
    let response = to_value(&handle_outcome(&outcome));
    let output = decode_output(&response);

    assert_eq!(response["success"], value("false"));
    assert_eq!(
        output["error"]["message"],
        value("\"Linear GraphQL request failed before receiving a successful response.\"")
    );
    assert_eq!(output["error"]["reason"], value("\"connection refused\""));
}

#[test]
fn maps_status_failures_to_error_envelopes() {
    let outcome = reply_payload(HttpReply::Answered { status: 503, body: "busy".into() });
    let response = to_value(&handle_outcome(&outcome));
    let output = decode_output(&response);

    assert_eq!(
        output["error"]["message"],
        value("\"Linear GraphQL request failed with HTTP 503.\"")
    );
    assert_eq!(output["error"]["status"], value("503"));
}

#[test]
fn pretty_output_is_indented() {
    let response = to_value(&graphql_response(&json(r#"{"data": 1}"#)));

    assert_eq!(response["output"].as_str().unwrap(), "{\n  \"data\": 1\n}");
}

#[test]
fn query_checks_name_their_fault() {
    assert!(validate_query("{ viewer { id } }").is_ok());
    assert!(matches!(
        validate_query("  "),
        Err(SymphonyError::Codex(message)) if message == "linear_graphql_empty_query"
    ));
    assert!(matches!(
        normalize_arguments(&json("[]")),
        Err(SymphonyError::Codex(message)) if message == "linear_graphql_invalid_arguments"
    ));
}

#[test]
fn reads_are_told_apart() {
    assert!(matches!(interpret_read(&ReadOutcome::Line("  ".into())), Ok(None)));
    assert_eq!(
        interpret_read(&ReadOutcome::Line("{\"id\": 1}".into())).unwrap(),
        Some(json(r#"{"id": 1}"#))
    );
    assert!(interpret_read(&ReadOutcome::Line("not json".into())).is_err());
    assert!(interpret_read(&ReadOutcome::Closed).is_err());
    assert!(interpret_read(&ReadOutcome::TimedOut).is_err());
    assert!(matches!(
        parsed_message(Err("bad".into())),
        Err(SymphonyError::Codex(message)) if message == "invalid_json_message: bad"
    ));
}

#[test]
fn answers_are_matched_by_id() {
    let answer = match_response(&json(r#"{"id": 3, "result": {"ok": true}}"#), 3);
    assert_eq!(answer.unwrap().unwrap(), json(r#"{"ok": true}"#));
    assert!(match_response(&json(r#"{"id": 4, "result": {}}"#), 3).is_none());
    assert!(match_response(&json(r#"{"id": 3, "error": {"code": 1}}"#), 3).unwrap().is_err());
}

#[test]
fn small_parts_have_their_defaults() {
    assert_eq!(normalize_sandbox("  "), "workspace-write");
    assert_eq!(normalize_sandbox(" none "), "none");
    assert_eq!(normalize_timeout(0, 5), 5);
    assert_eq!(normalize_timeout(7, 5), 7);
    assert!(is_current_turn(None, "x"));
    assert!(is_current_turn(Some("x"), ""));
    assert!(!is_current_turn(Some("x"), "y"));
    assert_eq!(extract_initialize_info(&json(r#"{"userAgent": "codex/1"}"#)), "codex/1");
    assert_eq!(
        extract_nested_id(&json(r#"{"thread": {"id": "t"}}"#), "thread").unwrap(),
        "t"
    );
    assert!(extract_nested_id(&json("{}"), "thread").is_err());
    assert!(tool_is_supported(true, "linear_graphql"));
    assert!(!tool_is_supported(false, "linear_graphql"));
    assert!(!tool_is_supported(true, "other"));
    assert_eq!(turn_time_left(2, 500_000), Some(1_500_000));
    assert_eq!(turn_time_left(2, 2_000_001), None);
}

#[test]
fn a_session_runs_through_its_requests() {
    let mut server = AppServer::new(0, 0);
    let (id, message) = server.initialize();
    assert_eq!(id, 1);
    assert_eq!(to_value(&message)["method"], value("\"initialize\""));

    let (id, message) = server.start_thread("/tmp/ws", &json(DEFAULT_POLICY), " ");
    assert_eq!(id, 2);
    assert_eq!(to_value(&message)["params"]["cwd"], value("\"/tmp/ws\""));
    let thread = server.thread_started(&json(r#"{"thread": {"id": "thread-1"}}"#)).unwrap();
    assert_eq!(thread, "thread-1");

    let (id, message) =
        server.start_turn("thread-1", "do it", "/tmp/ws", &json("\"workspace-write\""));
    assert_eq!(id, 3);
    assert_eq!(to_value(&message)["params"]["threadId"], value("\"thread-1\""));
    server.turn_started(&json(r#"{"turn": {"id": "turn-1"}}"#)).unwrap();

    let mut turn = TurnProgress { tokens: SessionTokens::default(), rate_limit: None };
    let step = server
        .process_message(
            &mut turn,
            &json(r#"{"id": 11, "method": "approval/required", "params": {"kind": "rules"}}"#),
        )
        .unwrap();
    assert!(matches!(
        step,
        TurnStep::Send(answer) if to_value(&answer)["result"]["approved"] == value("true")
    ));
    let step = server
        .process_message(
            &mut turn,
            &json(r#"{"method": "turn/completed", "params": {"turnId": "turn-1"}}"#),
        )
        .unwrap();
    assert!(matches!(step, TurnStep::Done(RunOutcome::Success)));
}

#[test]
fn messages_are_written_as_one_line() {
    let payload = Json::Object(vec![
        ("text".into(), Json::Text("a\n\"b\"".into())),
        ("id".into(), Json::Number(Number::Unsigned(7))),
    ]);
    let line = message_line(&payload);

    assert_eq!(line.matches('\n').count(), 1);
    assert!(line.ends_with("}\n"));
    assert!(line.contains("\"text\":\"a\\n\\\"b\\\"\""));
    let read = interpret_read(&ReadOutcome::Line(line)).unwrap().unwrap();
    assert_eq!(read.get("text"), payload.get("text"));
    assert_eq!(read.get("id"), payload.get("id"));
}

#[test]
fn agents_are_started_in_their_remote_workspace() {
    assert_eq!(
        remote_launch_command("codex app-server", "/tmp/it's"),
        "cd '/tmp/it'\"'\"'s' && exec codex app-server"
    );
    assert_eq!(
        remote_launch_error("host1", &SymphonyError::Ssh("gone".into())).message(),
        "codex error: remote_launch_failed on host1: ssh error: gone"
    );
}

#[test]
fn faults_of_the_process_are_told_apart() {
    let faults = [
        (ServerFault::Launch, "launch_failed"),
        (ServerFault::Write, "stdin_write_failed"),
        (ServerFault::Flush, "stdin_flush_failed"),
        (ServerFault::Kill, "shutdown_failed"),
        (ServerFault::Wait, "wait_failed"),
        (ServerFault::TryWait, "try_wait_failed"),
    ];
    for (fault, name) in faults {
        assert_eq!(
            server_error(fault, "broken pipe").message(),
            format!("codex error: {name}: broken pipe")
        );
    }
    assert!(AppServer::new(0, 0).can_request());
}

#[test]
fn the_last_reports_of_a_turn_count() {
    let mut server = AppServer::new(0, 0);
    server.turn_started(&json(r#"{"turn": {"id": "turn-1"}}"#)).unwrap();
    let mut turn = TurnProgress::new();
    assert_eq!(turn.tokens.total_tokens, 0);
    assert!(turn.rate_limit.is_none());

    for message in [
        r#"{"method": "thread/tokenUsage/updated", "params": {"inputTokens": 1, "outputTokens": 2, "totalTokens": 3}}"#,
        r#"{"method": "codex/rateLimit", "params": {"remaining": 9}}"#,
        r#"{"method": "thread/tokenUsage/updated", "params": {"inputTokens": 4, "outputTokens": 5, "totalTokens": 9}}"#,
        r#"{"method": "codex/rateLimit", "params": {"remaining": 8}}"#,
        r#"{"method": "turn/completed", "params": {"turnId": "another"}}"#,
    ] {
        let step = server.process_message(&mut turn, &json(message)).unwrap();
        assert!(matches!(step, TurnStep::Continue));
    }
    let done = json(r#"{"method": "turn/completed", "params": {"turnId": "turn-1"}}"#);
    let TurnStep::Done(outcome) = server.process_message(&mut turn, &done).unwrap() else {
        panic!("the turn goes on");
    };
    let result = turn.finish(outcome);

    assert!(matches!(result.outcome, RunOutcome::Success));
    assert_eq!(result.tokens.input_tokens, 4);
    assert_eq!(result.tokens.output_tokens, 5);
    assert_eq!(result.tokens.total_tokens, 9);
    assert_eq!(to_value(&result.rate_limit.unwrap()), value(r#"{"remaining": 8}"#));
}
