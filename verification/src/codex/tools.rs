//! The GraphQL tool that the coding agent may call.

use vstd::prelude::*;
use vstd::string::*;

use crate::codex::app_server;
use crate::error;
use crate::error::{ErrorView, SymphonyError};
use crate::json;
use crate::json::{Json, JsonView, NumberView};
use crate::text;

verus! {

/// How many operations a query names.
pub open spec fn operations(query: Seq<char>) -> nat {
    text::matches_from(query, 0, "query "@) + text::matches_from(query, 0, "mutation "@)
        + text::matches_from(query, 0, "subscription "@)
}

/// The query to run: a text that is not blank and names one operation at most.
pub open spec fn checked_query(query: Seq<char>) -> Result<Seq<char>, ErrorView> {
    let trimmed = text::trimmed(query);
    if trimmed.len() == 0 {
        Err(ErrorView::Codex("linear_graphql_empty_query"@))
    } else if operations(trimmed) > 1 {
        Err(ErrorView::Codex("linear_graphql_multiple_operations"@))
    } else {
        Ok(trimmed)
    }
}

/// The query and the variables to run: a query alone, or an object with `query` and optional
/// `variables`.
pub open spec fn checked_arguments(arguments: JsonView) -> Result<
    (Seq<char>, JsonView),
    ErrorView,
> {
    match arguments {
        JsonView::Text(query) => match checked_query(query) {
            Ok(query) => Ok((query, JsonView::Object(seq![]))),
            Err(error) => Err(error),
        },
        JsonView::Object(_) => match json::member(arguments, "query"@) {
            Some(JsonView::Text(query)) => match checked_query(query) {
                Ok(query) => match json::member(arguments, "variables"@) {
                    Some(variables) => if variables is Object {
                        Ok((query, variables))
                    } else {
                        Err(ErrorView::Codex("linear_graphql_invalid_variables"@))
                    },
                    None => Ok((query, JsonView::Object(seq![]))),
                },
                Err(error) => Err(error),
            },
            _ => Err(ErrorView::Codex("linear_graphql_empty_query"@)),
        },
        _ => Err(ErrorView::Codex("linear_graphql_invalid_arguments"@)),
    }
}

/// Checks a query that has been trimmed: it is not blank and names one operation at most.
pub fn validate_query(query: &str) -> (r: Result<(), SymphonyError>)
    ensures
        match checked_query(query@) {
            Ok(_) => r is Ok,
            Err(error) => r matches Err(e) && e@ == error,
        },
{
    let normalized = text::trim(query);
    if normalized.is_empty() {
        return Err(SymphonyError::Codex("linear_graphql_empty_query".to_owned()));
    }
    proof {
        reveal_strlit("query ");
        reveal_strlit("mutation ");
        reveal_strlit("subscription ");
    }
    let queries: usize = text::count_matches(normalized, "query ");
    let mutations: usize = text::count_matches(normalized, "mutation ");
    let subscriptions: usize = text::count_matches(normalized, "subscription ");
    if queries > 1 || mutations > 1 || subscriptions > 1 || queries + mutations + subscriptions
        > 1 {
        return Err(SymphonyError::Codex("linear_graphql_multiple_operations".to_owned()));
    }
    Ok(())
}

/// The query to run.
pub fn normalize_query(query: &str) -> (r: Result<String, SymphonyError>)
    ensures
        error::result_is(r, checked_query(query@)),
{
    let normalized = text::trim(query);
    proof {
        text::lemma_trimmed_idempotent(query@);
    }
    match validate_query(normalized) {
        Ok(()) => Ok(normalized.to_owned()),
        Err(error) => Err(error),
    }
}

/// The query and the variables to run.
pub fn normalize_arguments(arguments: &Json) -> (r: Result<(String, Json), SymphonyError>)
    ensures
        match (r, checked_arguments(arguments@)) {
            (Ok((query, variables)), Ok(expected)) => query@ == expected.0 && variables@
                == expected.1,
            (Err(error), Err(expected)) => error@ == expected,
            _ => false,
        },
{
    match arguments {
        Json::Text(query) => match normalize_query(query.as_str()) {
            Ok(query) => Ok((query, json::object(json::no_members()))),
            Err(error) => Err(error),
        },
        Json::Object(_) => {
            let query = match arguments.get("query") {
                Some(Json::Text(query)) => match normalize_query(query.as_str()) {
                    Ok(query) => query,
                    Err(error) => {
                        return Err(error);
                    },
                },
                _ => {
                    return Err(SymphonyError::Codex("linear_graphql_empty_query".to_owned()));
                },
            };
            match arguments.get("variables") {
                Some(variables) => match variables {
                    Json::Object(_) => Ok((query, variables.clone())),
                    _ => Err(SymphonyError::Codex("linear_graphql_invalid_variables".to_owned())),
                },
                None => Ok((query, json::object(json::no_members()))),
            }
        },
        _ => Err(SymphonyError::Codex("linear_graphql_invalid_arguments".to_owned())),
    }
}

/// An answer without errors: it has no list of errors, or an empty one.
pub open spec fn without_errors(payload: JsonView) -> bool {
    match json::member(payload, "errors"@) {
        Some(JsonView::Array(errors)) => errors.len() == 0,
        _ => true,
    }
}

/// What the tool hands back for an answer.
pub fn graphql_response(payload: &Json) -> (r: Json)
    ensures
        r@ == app_server::tool_response(
            without_errors(payload@),
            json::json_pretty_text(payload@),
        ),
{
    let success = match payload.get("errors") {
        Some(errors) => match errors {
            Json::Array(items) => {
                proof {
                    json::lemma_json_view(*errors);
                }
                items.len() == 0
            },
            _ => true,
        },
        None => true,
    };
    app_server::dynamic_tool_response(success, json::to_pretty_text(payload).as_str())
}

/// What the tool hands back for a failure.
pub fn failure_response(payload: &Json) -> (r: Json)
    ensures
        r@ == app_server::tool_response(false, json::json_pretty_text(payload@)),
{
    app_server::dynamic_tool_response(false, json::to_pretty_text(payload).as_str())
}

/// An error with a message.
pub open spec fn error_object(message: Seq<char>) -> JsonView {
    JsonView::Object(
        seq![("error"@, JsonView::Object(seq![("message"@, JsonView::Text(message))]))],
    )
}

/// An error with a message and one more member.
pub open spec fn error_object_with(message: Seq<char>, key: Seq<char>, value: JsonView) -> JsonView {
    JsonView::Object(
        seq![
            (
                "error"@,
                JsonView::Object(
                    Seq::empty().push(("message"@, JsonView::Text(message))).push((key, value)),
                ),
            ),
        ],
    )
}

/// What the agent is told about arguments that are not accepted.
pub open spec fn validation_message(reason: Seq<char>) -> Seq<char> {
    if reason == "linear_graphql_empty_query"@ {
        "`linear_graphql` requires a non-empty `query` string."@
    } else if reason == "linear_graphql_invalid_arguments"@ {
        "`linear_graphql` expects either a GraphQL query string or an object with `query` and optional `variables`."@
    } else if reason == "linear_graphql_invalid_variables"@ {
        "`linear_graphql.variables` must be a JSON object when provided."@
    } else if reason == "linear_graphql_multiple_operations"@ {
        "`linear_graphql` accepts exactly one GraphQL operation per request."@
    } else {
        "Linear GraphQL tool execution failed."@
    }
}

/// What the agent is told about an error.
pub open spec fn error_payload(error: ErrorView) -> JsonView {
    match error {
        ErrorView::Codex(reason) => error_object(validation_message(reason)),
        ErrorView::LinearApiStatus { status, body: _ } => error_object_with(
            "Linear GraphQL request failed with HTTP "@ + text::decimal(status as nat) + "."@,
            "status"@,
            JsonView::Number(NumberView::Unsigned(status as u64)),
        ),
        ErrorView::LinearApiRequest(reason) => error_object_with(
            "Linear GraphQL request failed before receiving a successful response."@,
            "reason"@,
            JsonView::Text(reason),
        ),
        _ => if error == ErrorView::ConfigValidation("tracker.api_key is required"@) {
            error_object(
                "Symphony is missing Linear auth. Set `linear.api_key` in `WORKFLOW.md` or export `LINEAR_API_KEY`."@,
            )
        } else {
            error_object_with(
                "Linear GraphQL tool execution failed."@,
                "reason"@,
                JsonView::Text(error::error_text(error)),
            )
        },
    }
}

fn build_error(message: &str) -> (r: Json)
    ensures
        r@ == error_object(message@),
{
    let details = json::and_member(json::no_members(), "message", json::text_value(message));
    json::object(json::and_member(json::no_members(), "error", json::object(details)))
}

fn build_error_with(message: &str, key: &str, value: Json) -> (r: Json)
    ensures
        r@ == error_object_with(message@, key@, value@),
{
    let details = json::and_member(json::no_members(), "message", json::text_value(message));
    let details = json::and_member(details, key, value);
    json::object(json::and_member(json::no_members(), "error", json::object(details)))
}

fn tool_validation_error_payload(reason: &str) -> (r: Json)
    ensures
        r@ == error_object(validation_message(reason@)),
{
    let message = if text::same(reason, "linear_graphql_empty_query") {
        "`linear_graphql` requires a non-empty `query` string."
    } else if text::same(reason, "linear_graphql_invalid_arguments") {
        "`linear_graphql` expects either a GraphQL query string or an object with `query` and optional `variables`."
    } else if text::same(reason, "linear_graphql_invalid_variables") {
        "`linear_graphql.variables` must be a JSON object when provided."
    } else if text::same(reason, "linear_graphql_multiple_operations") {
        "`linear_graphql` accepts exactly one GraphQL operation per request."
    } else {
        "Linear GraphQL tool execution failed."
    };
    build_error(message)
}

/// What the agent is told about an error.
pub fn tool_error_payload(failure: &SymphonyError) -> (r: Json)
    ensures
        r@ == error_payload(failure@),
{
    match failure {
        SymphonyError::Codex(reason) => {
            return tool_validation_error_payload(reason.as_str());
        },
        SymphonyError::LinearApiStatus { status, body: _ } => {
            let mut message = "Linear GraphQL request failed with HTTP ".to_owned();
            message.append(text::u64_text(*status as u64).as_str());
            message.append(".");
            return build_error_with(
                message.as_str(),
                "status",
                json::count_value(*status as u64),
            );
        },
        SymphonyError::LinearApiRequest(reason) => {
            return build_error_with(
                "Linear GraphQL request failed before receiving a successful response.",
                "reason",
                json::text_value(reason.as_str()),
            );
        },
        SymphonyError::ConfigValidation(message) => {
            if text::same(message.as_str(), "tracker.api_key is required") {
                return build_error(
                    "Symphony is missing Linear auth. Set `linear.api_key` in `WORKFLOW.md` or export `LINEAR_API_KEY`.",
                );
            }
        },
        _ => {},
    }
    build_error_with(
        "Linear GraphQL tool execution failed.",
        "reason",
        json::text_value(failure.message().as_str()),
    )
}

/// What the tool hands back once the query has run: the answer, or what went wrong.
pub fn handle_outcome(outcome: &Result<Json, SymphonyError>) -> (r: Json)
    ensures
        r@ == match *outcome {
            Ok(payload) => app_server::tool_response(
                without_errors(payload@),
                json::json_pretty_text(payload@),
            ),
            Err(error) => app_server::tool_response(
                false,
                json::json_pretty_text(error_payload(error@)),
            ),
        },
{
    match outcome {
        Ok(payload) => graphql_response(payload),
        Err(error) => failure_response(&tool_error_payload(error)),
    }
}

/// A query that is accepted is neither blank nor framed by white space.
pub proof fn lemma_accepted_query_is_trimmed(query: Seq<char>)
    ensures
        checked_query(query) matches Ok(accepted) ==> accepted.len() > 0 && text::trimmed(accepted)
            == accepted && checked_query(accepted) == Ok::<Seq<char>, ErrorView>(accepted),
{
    text::lemma_trimmed_idempotent(query);
}

/// A query with more than white space that names one operation at most is run as it is, without the
/// white space around it; it may come alone, and then there are no variables.
pub proof fn lemma_single_query_is_run(query: Seq<char>)
    requires
        text::trimmed(query).len() > 0,
        text::matches_from(text::trimmed(query), 0, "query "@) + text::matches_from(
            text::trimmed(query),
            0,
            "mutation "@,
        ) + text::matches_from(text::trimmed(query), 0, "subscription "@) <= 1,
    ensures
        checked_query(query) == Ok::<Seq<char>, ErrorView>(text::trimmed(query)),
        checked_arguments(JsonView::Text(query)) == Ok::<(Seq<char>, JsonView), ErrorView>(
            (text::trimmed(query), JsonView::Object(seq![])),
        ),
{
}

/// A query that is blank, or that names more than one operation, is refused with the reason.
pub proof fn lemma_other_query_is_refused(query: Seq<char>)
    ensures
        text::trimmed(query).len() == 0 ==> checked_query(query) == Err::<Seq<char>, ErrorView>(
            ErrorView::Codex("linear_graphql_empty_query"@),
        ),
        text::trimmed(query).len() > 0 && text::matches_from(text::trimmed(query), 0, "query "@)
            + text::matches_from(text::trimmed(query), 0, "mutation "@) + text::matches_from(
            text::trimmed(query),
            0,
            "subscription "@,
        ) > 1 ==> checked_query(query) == Err::<Seq<char>, ErrorView>(
            ErrorView::Codex("linear_graphql_multiple_operations"@),
        ),
{
}

/// Arguments in an object are taken by their names: the query that is accepted with the variables that
/// stand beside it, or with none. Variables that are no object are refused.
pub proof fn lemma_named_arguments_are_taken(
    arguments: JsonView,
    query: Seq<char>,
    accepted: Seq<char>,
    variables: JsonView,
)
    requires
        arguments is Object,
        json::member(arguments, "query"@) == Some(JsonView::Text(query)),
        checked_query(query) == Ok::<Seq<char>, ErrorView>(accepted),
    ensures
        json::member(arguments, "variables"@) == Some(variables) && variables is Object
            ==> checked_arguments(arguments) == Ok::<(Seq<char>, JsonView), ErrorView>(
            (accepted, variables),
        ),
        json::member(arguments, "variables"@) is None ==> checked_arguments(arguments) == Ok::<
            (Seq<char>, JsonView),
            ErrorView,
        >((accepted, JsonView::Object(seq![]))),
        json::member(arguments, "variables"@) == Some(variables) && !(variables is Object)
            ==> checked_arguments(arguments) == Err::<(Seq<char>, JsonView), ErrorView>(
            ErrorView::Codex("linear_graphql_invalid_variables"@),
        ),
{
}

/// Arguments without an acceptable query are refused: an object for the fault of its query, and
/// anything that is neither a text nor an object for what it is.
pub proof fn lemma_other_arguments_are_refused(
    arguments: JsonView,
    query: Seq<char>,
    error: ErrorView,
)
    ensures
        arguments is Object && json::member(arguments, "query"@) is None ==> checked_arguments(
            arguments,
        ) == Err::<(Seq<char>, JsonView), ErrorView>(
            ErrorView::Codex("linear_graphql_empty_query"@),
        ),
        arguments is Object && json::member(arguments, "query"@) == Some(JsonView::Text(query))
            && checked_query(query) == Err::<Seq<char>, ErrorView>(error) ==> checked_arguments(
            arguments,
        ) == Err::<(Seq<char>, JsonView), ErrorView>(error),
        arguments == JsonView::Text(query) && checked_query(query) == Err::<Seq<char>, ErrorView>(
            error,
        ) ==> checked_arguments(arguments) == Err::<(Seq<char>, JsonView), ErrorView>(error),
        !(arguments is Object) && !(arguments is Text) ==> checked_arguments(arguments) == Err::<
            (Seq<char>, JsonView),
            ErrorView,
        >(ErrorView::Codex("linear_graphql_invalid_arguments"@)),
{
}

/// An answer succeeds unless it lists an error.
pub proof fn lemma_listed_errors_fail(payload: JsonView, errors: Seq<JsonView>)
    ensures
        json::member(payload, "errors"@) == Some(JsonView::Array(errors)) && errors.len() > 0
            ==> !without_errors(payload),
        json::member(payload, "errors"@) == Some(JsonView::Array(errors)) && errors.len() == 0
            ==> without_errors(payload),
        json::member(payload, "errors"@) is None ==> without_errors(payload),
{
}

/// What the agent is told says what was wrong: under `error` stands a `message`, with the status of a
/// refused request under `status`, and the reason of one that got no answer under `reason`.
pub proof fn lemma_error_is_explained(
    reason: Seq<char>,
    status: u16,
    body: Seq<char>,
    details: JsonView,
)
    ensures
        json::member(error_payload(ErrorView::Codex(reason)), "error"@) == Some(details)
            ==> json::member(details, "message"@) == Some(
            JsonView::Text(validation_message(reason)),
        ),
        json::member(error_payload(ErrorView::Codex(reason)), "error"@) is Some,
        json::member(error_payload(ErrorView::LinearApiStatus { status, body }), "error"@) == Some(
            details,
        ) ==> json::member(details, "status"@) == Some(
            JsonView::Number(NumberView::Unsigned(status as u64)),
        ) && json::member(details, "message"@) == Some(
            JsonView::Text(
                "Linear GraphQL request failed with HTTP "@ + text::decimal(status as nat) + "."@,
            ),
        ),
        json::member(error_payload(ErrorView::LinearApiStatus { status, body }), "error"@) is Some,
        json::member(error_payload(ErrorView::LinearApiRequest(reason)), "error"@) == Some(details)
            ==> json::member(details, "reason"@) == Some(JsonView::Text(reason)) && json::member(
            details,
            "message"@,
        ) == Some(
            JsonView::Text(
                "Linear GraphQL request failed before receiving a successful response."@,
            ),
        ),
        json::member(error_payload(ErrorView::LinearApiRequest(reason)), "error"@) is Some,
{
    broadcast use {json::lemma_member_push, json::lemma_no_member};

    assert(seq![("error"@, details)] =~= Seq::empty().push(("error"@, details)));
    reveal_strlit("error");
    reveal_strlit("message");
    reveal_strlit("status");
    reveal_strlit("reason");
    assert("error"@.len() == 5);
    assert("message"@.len() == 7);
    assert("status"@.len() == 6);
    assert("reason"@.len() == 6);
    assert("reason"@[0] == 'r');
    assert("status"@[0] == 's');
}

/// Each reason for which arguments are refused has its own explanation.
pub proof fn lemma_refusals_are_explained()
    ensures
        validation_message("linear_graphql_empty_query"@)
            == "`linear_graphql` requires a non-empty `query` string."@,
        validation_message("linear_graphql_invalid_arguments"@)
            == "`linear_graphql` expects either a GraphQL query string or an object with `query` and optional `variables`."@,
        validation_message("linear_graphql_invalid_variables"@)
            == "`linear_graphql.variables` must be a JSON object when provided."@,
        validation_message("linear_graphql_multiple_operations"@)
            == "`linear_graphql` accepts exactly one GraphQL operation per request."@,
{
    reveal_strlit("linear_graphql_empty_query");
    reveal_strlit("linear_graphql_invalid_arguments");
    reveal_strlit("linear_graphql_invalid_variables");
    reveal_strlit("linear_graphql_multiple_operations");
    assert("linear_graphql_empty_query"@.len() == 26);
    assert("linear_graphql_invalid_arguments"@.len() == 32);
    assert("linear_graphql_invalid_variables"@.len() == 32);
    assert("linear_graphql_multiple_operations"@.len() == 34);
    assert("linear_graphql_invalid_arguments"@[23] == 'a');
    assert("linear_graphql_invalid_variables"@[23] == 'v');
}

} // verus!
