//! The bodies of the answers, and which issue an answer is about.

use vstd::prelude::*;
use vstd::string::*;

use crate::domain::{RetryEntry, RetryView, TokenUsage};
use crate::json;
use crate::json::{Json, JsonView, NumberView};
use crate::orchestrator::state::{RunningSnapshot, StateSnapshot};
use crate::text;
use crate::time;

verus! {

/// What is known of an issue: the position of its session or of its retry in a snapshot.
#[derive(Debug, Clone, Copy, PartialEq, Eq)]
pub enum IssueStatus {
    Running(usize),
    Retrying(usize),
    NotFound,
}

/// A session is that of an issue, by identifier or id.
pub open spec fn runs(entry: RunningSnapshot, name: Seq<char>) -> bool {
    entry.issue_identifier@ == name || entry.issue_id@ == name
}

/// A retry is that of an issue, by identifier or id.
pub open spec fn waits(entry: RetryEntry, name: Seq<char>) -> bool {
    entry.issue_identifier@ == name || entry.issue_id@ == name
}

/// What is known of an issue: its first session, else its first retry.
pub open spec fn status_is(snapshot: StateSnapshot, name: Seq<char>, status: IssueStatus) -> bool {
    match status {
        IssueStatus::Running(i) => i < snapshot.running@.len() && runs(
            snapshot.running@[i as int],
            name,
        ) && forall|k: int| 0 <= k < i ==> !runs(#[trigger] snapshot.running@[k], name),
        IssueStatus::Retrying(i) => i < snapshot.retrying@.len() && waits(
            snapshot.retrying@[i as int],
            name,
        ) && (forall|k: int| 0 <= k < i ==> !waits(#[trigger] snapshot.retrying@[k], name)) && (
        forall|k: int|
            0 <= k < snapshot.running@.len() ==> !runs(#[trigger] snapshot.running@[k], name)),
        IssueStatus::NotFound => (forall|k: int|
            0 <= k < snapshot.running@.len() ==> !runs(#[trigger] snapshot.running@[k], name)) && (
        forall|k: int|
            0 <= k < snapshot.retrying@.len() ==> !waits(#[trigger] snapshot.retrying@[k], name)),
    }
}

/// Looks an issue up by identifier or id.
pub fn issue_status(snapshot: &StateSnapshot, name: &str) -> (r: IssueStatus)
    ensures
        status_is(*snapshot, name@, r),
{
    let mut i: usize = 0;
    while i < snapshot.running.len()
        invariant
            i <= snapshot.running@.len(),
            forall|k: int| 0 <= k < i ==> !runs(#[trigger] snapshot.running@[k], name@),
        decreases snapshot.running@.len() - i,
    {
        let entry = &snapshot.running[i];
        if text::same(entry.issue_identifier.as_str(), name) || text::same(
            entry.issue_id.as_str(),
            name,
        ) {
            return IssueStatus::Running(i);
        }
        i = i + 1;
    }
    let mut j: usize = 0;
    while j < snapshot.retrying.len()
        invariant
            j <= snapshot.retrying@.len(),
            forall|k: int|
                0 <= k < snapshot.running@.len() ==> !runs(#[trigger] snapshot.running@[k], name@),
            forall|k: int| 0 <= k < j ==> !waits(#[trigger] snapshot.retrying@[k], name@),
        decreases snapshot.retrying@.len() - j,
    {
        let entry = &snapshot.retrying[j];
        if text::same(entry.issue_identifier.as_str(), name) || text::same(
            entry.issue_id.as_str(),
            name,
        ) {
            return IssueStatus::Retrying(j);
        }
        j = j + 1;
    }
    IssueStatus::NotFound
}

/// A count as a JSON value.
pub open spec fn count_json(n: u64) -> JsonView {
    JsonView::Number(NumberView::Unsigned(n))
}

/// An optional text as a JSON value.
pub open spec fn opt_text_json(value: Option<Seq<char>>) -> JsonView {
    match value {
        Some(value) => JsonView::Text(value),
        None => JsonView::Null,
    }
}

fn opt_text_value(value: &Option<String>) -> (r: Json)
    ensures
        r@ == opt_text_json(text::opt_text(*value)),
{
    match value {
        Some(value) => json::text_value(value.as_str()),
        None => Json::Null,
    }
}

/// The counts of tokens as a JSON value.
pub open spec fn tokens_json(tokens: TokenUsage) -> JsonView {
    JsonView::Object(
        Seq::empty().push(("input_tokens"@, count_json(tokens.input_tokens))).push(
            ("output_tokens"@, count_json(tokens.output_tokens)),
        ).push(("total_tokens"@, count_json(tokens.total_tokens))),
    )
}

fn tokens_value(tokens: &TokenUsage) -> (r: Json)
    ensures
        r@ == tokens_json(*tokens),
{
    let members = json::and_member(
        json::no_members(),
        "input_tokens",
        json::count_value(tokens.input_tokens),
    );
    let members = json::and_member(
        members,
        "output_tokens",
        json::count_value(tokens.output_tokens),
    );
    json::object(
        json::and_member(members, "total_tokens", json::count_value(tokens.total_tokens)),
    )
}

/// A running session as a JSON value.
pub open spec fn running_json(entry: RunningSnapshot) -> JsonView {
    JsonView::Object(
        Seq::empty().push(("issue_id"@, JsonView::Text(entry.issue_id@))).push(
            ("issue_identifier"@, JsonView::Text(entry.issue_identifier@)),
        ).push(("state"@, JsonView::Text(entry.state@))).push(
            ("worker_host"@, opt_text_json(text::opt_text(entry.worker_host))),
        ).push(("session_id"@, JsonView::Text(entry.session_id@))).push(
            ("turn_count"@, count_json(entry.turn_count as u64)),
        ).push(("workspace_path"@, JsonView::Text(entry.workspace_path@))).push(
            ("started_at"@, JsonView::Text(time::rfc3339_z_text(entry.started_at@))),
        ).push(
            (
                "last_event_at"@,
                match entry.last_event_at {
                    Some(at) => JsonView::Text(time::rfc3339_z_text(at@)),
                    None => JsonView::Null,
                },
            ),
        ).push(("tokens"@, tokens_json(entry.tokens))),
    )
}

/// A running session as a JSON value.
pub fn running_row(entry: &RunningSnapshot) -> (r: Json)
    ensures
        r@ == running_json(*entry),
{
    let row = json::and_member(
        json::no_members(),
        "issue_id",
        json::text_value(entry.issue_id.as_str()),
    );
    let row = json::and_member(
        row,
        "issue_identifier",
        json::text_value(entry.issue_identifier.as_str()),
    );
    let row = json::and_member(row, "state", json::text_value(entry.state.as_str()));
    let row = json::and_member(row, "worker_host", opt_text_value(&entry.worker_host));
    let row = json::and_member(row, "session_id", json::text_value(entry.session_id.as_str()));
    let row = json::and_member(row, "turn_count", json::count_value(entry.turn_count as u64));
    let row = json::and_member(
        row,
        "workspace_path",
        json::text_value(entry.workspace_path.as_str()),
    );
    let row = json::and_member(
        row,
        "started_at",
        json::text_value(entry.started_at.to_rfc3339_z().as_str()),
    );
    let last_event_at = match &entry.last_event_at {
        Some(at) => json::text_value(at.to_rfc3339_z().as_str()),
        None => Json::Null,
    };
    let row = json::and_member(row, "last_event_at", last_event_at);
    json::object(json::and_member(row, "tokens", tokens_value(&entry.tokens)))
}

/// A waiting retry as a JSON value.
pub open spec fn retry_json(entry: RetryView) -> JsonView {
    JsonView::Object(
        Seq::empty().push(("issue_id"@, JsonView::Text(entry.issue_id))).push(
            ("issue_identifier"@, JsonView::Text(entry.issue_identifier)),
        ).push(("attempt"@, count_json(entry.attempt as u64))).push(
            ("scheduled_at"@, JsonView::Text(time::rfc3339_z_text(entry.scheduled_at))),
        ).push(("reason"@, opt_text_json(entry.reason))).push(
            ("worker_host"@, opt_text_json(entry.worker_host)),
        ),
    )
}

/// A waiting retry as a JSON value.
pub fn retry_row(entry: &RetryEntry) -> (r: Json)
    ensures
        r@ == retry_json(entry@),
{
    let row = json::and_member(
        json::no_members(),
        "issue_id",
        json::text_value(entry.issue_id.as_str()),
    );
    let row = json::and_member(
        row,
        "issue_identifier",
        json::text_value(entry.issue_identifier.as_str()),
    );
    let row = json::and_member(row, "attempt", json::count_value(entry.attempt as u64));
    let row = json::and_member(
        row,
        "scheduled_at",
        json::text_value(entry.scheduled_at.to_rfc3339_z().as_str()),
    );
    let row = json::and_member(row, "reason", opt_text_value(&entry.reason));
    json::object(json::and_member(row, "worker_host", opt_text_value(&entry.worker_host)))
}

/// Running sessions as a JSON array.
pub open spec fn running_rows_json(entries: Seq<RunningSnapshot>) -> JsonView {
    JsonView::Array(Seq::new(entries.len(), |i: int| running_json(entries[i])))
}

fn running_rows(entries: &Vec<RunningSnapshot>) -> (r: Json)
    ensures
        r@ == running_rows_json(entries@),
{
    let mut rows: Vec<Json> = Vec::new();
    let mut i: usize = 0;
    while i < entries.len()
        invariant
            i <= entries@.len(),
            rows@.len() == i,
            forall|k: int| 0 <= k < i ==> (#[trigger] rows@[k])@ == running_json(entries@[k]),
        decreases entries@.len() - i,
    {
        rows.push(running_row(&entries[i]));
        i = i + 1;
    }
    let r = json::array(rows);
    proof {
        assert(r@->Array_0 =~= running_rows_json(entries@)->Array_0);
    }
    r
}

/// Waiting retries as a JSON array.
pub open spec fn retry_rows_json(entries: Seq<RetryEntry>) -> JsonView {
    JsonView::Array(Seq::new(entries.len(), |i: int| retry_json(entries[i]@)))
}

fn retry_rows(entries: &Vec<RetryEntry>) -> (r: Json)
    ensures
        r@ == retry_rows_json(entries@),
{
    let mut rows: Vec<Json> = Vec::new();
    let mut i: usize = 0;
    while i < entries.len()
        invariant
            i <= entries@.len(),
            rows@.len() == i,
            forall|k: int| 0 <= k < i ==> (#[trigger] rows@[k])@ == retry_json(entries@[k]@),
        decreases entries@.len() - i,
    {
        rows.push(retry_row(&entries[i]));
        i = i + 1;
    }
    let r = json::array(rows);
    proof {
        assert(r@->Array_0 =~= retry_rows_json(entries@)->Array_0);
    }
    r
}

/// The body of an answer about an issue; its details are given as a value.
pub open spec fn detail_text(
    status: Seq<char>,
    issue_id: Seq<char>,
    issue_identifier: Seq<char>,
    details: JsonView,
) -> JsonView {
    JsonView::Object(
        Seq::empty().push(("status"@, JsonView::Text(status))).push(
            ("issue_id"@, JsonView::Text(issue_id)),
        ).push(("issue_identifier"@, JsonView::Text(issue_identifier))).push(("details"@, details)),
    )
}

/// The body of an answer about an issue; its details are given as a value.
pub fn detail_body(status: &str, issue_id: &str, issue_identifier: &str, details: Json) -> (r: Json)
    ensures
        r@ == detail_text(status@, issue_id@, issue_identifier@, details@),
{
    let members = json::and_member(json::no_members(), "status", json::text_value(status));
    let members = json::and_member(members, "issue_id", json::text_value(issue_id));
    let members = json::and_member(
        members,
        "issue_identifier",
        json::text_value(issue_identifier),
    );
    json::object(json::and_member(members, "details", details))
}

/// The body of the answer about the issue that a status speaks of, if it is known.
pub open spec fn status_json(snapshot: StateSnapshot, status: IssueStatus) -> Option<JsonView> {
    match status {
        IssueStatus::Running(i) => {
            let entry = snapshot.running@[i as int];
            Some(
                detail_text(
                    "running"@,
                    entry.issue_id@,
                    entry.issue_identifier@,
                    running_json(entry),
                ),
            )
        },
        IssueStatus::Retrying(i) => {
            let entry = snapshot.retrying@[i as int];
            Some(
                detail_text(
                    "retrying"@,
                    entry.issue_id@,
                    entry.issue_identifier@,
                    retry_json(entry@),
                ),
            )
        },
        IssueStatus::NotFound => None,
    }
}

/// The body of the answer about an issue, looked up by identifier or id; none where it is not known.
pub fn issue_body(snapshot: &StateSnapshot, name: &str) -> (r: Option<Json>)
    ensures
        exists|status: IssueStatus| #[trigger]
            status_is(*snapshot, name@, status) && json::opt_json(r) == status_json(
                *snapshot,
                status,
            ),
{
    let status = issue_status(snapshot, name);
    proof {
        assert(status_is(*snapshot, name@, status));
    }
    match status {
        IssueStatus::Running(i) => {
            let entry = &snapshot.running[i];
            Some(
                detail_body(
                    "running",
                    entry.issue_id.as_str(),
                    entry.issue_identifier.as_str(),
                    running_row(entry),
                ),
            )
        },
        IssueStatus::Retrying(i) => {
            let entry = &snapshot.retrying[i];
            Some(
                detail_body(
                    "retrying",
                    entry.issue_id.as_str(),
                    entry.issue_identifier.as_str(),
                    retry_row(entry),
                ),
            )
        },
        IssueStatus::NotFound => None,
    }
}

/// The body of the answer about the state. The time and the running time are given.
pub open spec fn state_json(
    snapshot: StateSnapshot,
    generated_at: Seq<char>,
    seconds_running: JsonView,
) -> JsonView {
    let counts = JsonView::Object(
        Seq::empty().push(("running"@, count_json(snapshot.running@.len() as u64))).push(
            ("retrying"@, count_json(snapshot.retrying@.len() as u64)),
        ),
    );
    let totals = JsonView::Object(
        Seq::empty().push(("input_tokens"@, count_json(snapshot.codex_totals.input_tokens))).push(
            ("output_tokens"@, count_json(snapshot.codex_totals.output_tokens)),
        ).push(("total_tokens"@, count_json(snapshot.codex_totals.total_tokens))).push(
            ("seconds_running"@, seconds_running),
        ),
    );
    JsonView::Object(
        Seq::empty().push(("generated_at"@, JsonView::Text(generated_at))).push(
            ("counts"@, counts),
        ).push(("running"@, running_rows_json(snapshot.running@))).push(
            ("retrying"@, retry_rows_json(snapshot.retrying@)),
        ).push(("codex_totals"@, totals)).push(
            (
                "rate_limits"@,
                match json::opt_json(snapshot.rate_limits) {
                    Some(limits) => limits,
                    None => JsonView::Null,
                },
            ),
        ),
    )
}

/// The body of the answer about the state. The time and the running time are given.
pub fn state_body(
    snapshot: &StateSnapshot,
    generated_at: &str,
    seconds_running: Json,
) -> (r: Json)
    ensures
        r@ == state_json(*snapshot, generated_at@, seconds_running@),
{
    let counts = json::and_member(
        json::no_members(),
        "running",
        json::count_value(snapshot.running.len() as u64),
    );
    let counts = json::and_member(
        counts,
        "retrying",
        json::count_value(snapshot.retrying.len() as u64),
    );
    let totals = json::and_member(
        json::no_members(),
        "input_tokens",
        json::count_value(snapshot.codex_totals.input_tokens),
    );
    let totals = json::and_member(
        totals,
        "output_tokens",
        json::count_value(snapshot.codex_totals.output_tokens),
    );
    let totals = json::and_member(
        totals,
        "total_tokens",
        json::count_value(snapshot.codex_totals.total_tokens),
    );
    let totals = json::and_member(totals, "seconds_running", seconds_running);
    let limits = match &snapshot.rate_limits {
        Some(limits) => limits.clone(),
        None => Json::Null,
    };
    let body = json::and_member(
        json::no_members(),
        "generated_at",
        json::text_value(generated_at),
    );
    let body = json::and_member(body, "counts", json::object(counts));
    let body = json::and_member(body, "running", running_rows(&snapshot.running));
    let body = json::and_member(body, "retrying", retry_rows(&snapshot.retrying));
    let body = json::and_member(body, "codex_totals", json::object(totals));
    json::object(json::and_member(body, "rate_limits", limits))
}

/// The body of an answer that reports an error.
pub fn error_body(code: &str, message: &str) -> (r: Json)
    ensures
        r@ == JsonView::Object(
            Seq::empty().push(
                (
                    "error"@,
                    JsonView::Object(
                        Seq::empty().push(("code"@, JsonView::Text(code@))).push(
                            ("message"@, JsonView::Text(message@)),
                        ),
                    ),
                ),
            ),
        ),
{
    let members = json::and_member(json::no_members(), "code", json::text_value(code));
    let inner = json::object(json::and_member(members, "message", json::text_value(message)));
    json::object(json::and_member(json::no_members(), "error", inner))
}

/// The body of the answer to a request to refresh.
pub fn refresh_body() -> (r: Json)
    ensures
        r@ == JsonView::Object(Seq::empty().push(("queued"@, JsonView::Bool(true)))),
{
    json::object(json::and_member(json::no_members(), "queued", Json::Bool(true)))
}

/// What is known of an issue is known once: no two different statuses hold of one name.
pub proof fn lemma_status_is_unique(
    snapshot: StateSnapshot,
    name: Seq<char>,
    one: IssueStatus,
    other: IssueStatus,
)
    requires
        status_is(snapshot, name, one),
        status_is(snapshot, name, other),
    ensures
        one == other,
{
}

/// An issue that runs is found among the running sessions.
pub proof fn lemma_known_issue_is_found(snapshot: StateSnapshot, i: int, status: IssueStatus)
    requires
        0 <= i < snapshot.running@.len(),
        status_is(snapshot, snapshot.running@[i].issue_identifier@, status),
    ensures
        status is Running,
{
}

/// A running session is told of by the names of its data.
pub proof fn lemma_session_is_told(entry: RunningSnapshot)
    ensures
        ({
            let row = running_json(entry);
            &&& json::member(row, "issue_id"@) == Some(JsonView::Text(entry.issue_id@))
            &&& json::member(row, "issue_identifier"@) == Some(
                JsonView::Text(entry.issue_identifier@),
            )
            &&& json::member(row, "state"@) == Some(JsonView::Text(entry.state@))
            &&& entry.worker_host is Some ==> json::member(row, "worker_host"@) == Some(
                JsonView::Text(entry.worker_host->0@),
            )
            &&& entry.worker_host is None ==> json::member(row, "worker_host"@) == Some(
                JsonView::Null,
            )
            &&& json::member(row, "session_id"@) == Some(JsonView::Text(entry.session_id@))
            &&& json::member(row, "turn_count"@) == Some(
                JsonView::Number(NumberView::Unsigned(entry.turn_count as u64)),
            )
            &&& json::member(row, "workspace_path"@) == Some(JsonView::Text(entry.workspace_path@))
            &&& json::member(row, "started_at"@) == Some(
                JsonView::Text(time::rfc3339_z_text(entry.started_at@)),
            )
            &&& entry.last_event_at is Some ==> json::member(row, "last_event_at"@) == Some(
                JsonView::Text(time::rfc3339_z_text(entry.last_event_at->0@)),
            )
            &&& entry.last_event_at is None ==> json::member(row, "last_event_at"@) == Some(
                JsonView::Null,
            )
            &&& json::member(row, "tokens"@) == Some(tokens_json(entry.tokens))
        }),
{
    broadcast use {json::lemma_member_push, json::lemma_no_member};

    reveal_strlit("issue_id");
    reveal_strlit("issue_identifier");
    reveal_strlit("state");
    reveal_strlit("worker_host");
    reveal_strlit("session_id");
    reveal_strlit("turn_count");
    reveal_strlit("workspace_path");
    reveal_strlit("started_at");
    reveal_strlit("last_event_at");
    reveal_strlit("tokens");
    assert("issue_id"@.len() == 8);
    assert("issue_identifier"@.len() == 16);
    assert("state"@.len() == 5);
    assert("worker_host"@.len() == 11);
    assert("session_id"@.len() == 10);
    assert("turn_count"@.len() == 10);
    assert("workspace_path"@.len() == 14);
    assert("started_at"@.len() == 10);
    assert("last_event_at"@.len() == 13);
    assert("tokens"@.len() == 6);
    assert("session_id"@[0] == 's');
    assert("session_id"@[1] == 'e');
    assert("started_at"@[0] == 's');
    assert("started_at"@[1] == 't');
    assert("turn_count"@[0] == 't');
}

/// Tokens are told of by the names of their counts.
pub proof fn lemma_tokens_are_told(tokens: TokenUsage)
    ensures
        json::member(tokens_json(tokens), "input_tokens"@) == Some(
            JsonView::Number(NumberView::Unsigned(tokens.input_tokens)),
        ),
        json::member(tokens_json(tokens), "output_tokens"@) == Some(
            JsonView::Number(NumberView::Unsigned(tokens.output_tokens)),
        ),
        json::member(tokens_json(tokens), "total_tokens"@) == Some(
            JsonView::Number(NumberView::Unsigned(tokens.total_tokens)),
        ),
{
    broadcast use {json::lemma_member_push, json::lemma_no_member};

    reveal_strlit("input_tokens");
    reveal_strlit("output_tokens");
    reveal_strlit("total_tokens");
    assert("input_tokens"@.len() == 12);
    assert("output_tokens"@.len() == 13);
    assert("total_tokens"@.len() == 12);
    assert("input_tokens"@[0] == 'i');
    assert("total_tokens"@[0] == 't');
}

/// A waiting retry is told of by the names of its data.
pub proof fn lemma_retry_is_told(entry: RetryView)
    ensures
        ({
            let row = retry_json(entry);
            &&& json::member(row, "issue_id"@) == Some(JsonView::Text(entry.issue_id))
            &&& json::member(row, "issue_identifier"@) == Some(
                JsonView::Text(entry.issue_identifier),
            )
            &&& json::member(row, "attempt"@) == Some(
                JsonView::Number(NumberView::Unsigned(entry.attempt as u64)),
            )
            &&& json::member(row, "scheduled_at"@) == Some(
                JsonView::Text(time::rfc3339_z_text(entry.scheduled_at)),
            )
            &&& entry.reason is Some ==> json::member(row, "reason"@) == Some(
                JsonView::Text(entry.reason->0),
            )
            &&& entry.reason is None ==> json::member(row, "reason"@) == Some(JsonView::Null)
            &&& entry.worker_host is Some ==> json::member(row, "worker_host"@) == Some(
                JsonView::Text(entry.worker_host->0),
            )
            &&& entry.worker_host is None ==> json::member(row, "worker_host"@) == Some(
                JsonView::Null,
            )
        }),
{
    broadcast use {json::lemma_member_push, json::lemma_no_member};

    reveal_strlit("issue_id");
    reveal_strlit("issue_identifier");
    reveal_strlit("attempt");
    reveal_strlit("scheduled_at");
    reveal_strlit("reason");
    reveal_strlit("worker_host");
    assert("issue_id"@.len() == 8);
    assert("issue_identifier"@.len() == 16);
    assert("attempt"@.len() == 7);
    assert("scheduled_at"@.len() == 12);
    assert("reason"@.len() == 6);
    assert("worker_host"@.len() == 11);
}

/// The answer about an issue says whether it runs or waits, names it, and holds its data.
pub proof fn lemma_issue_is_told(snapshot: StateSnapshot, i: usize, answer: JsonView)
    ensures
        status_json(snapshot, IssueStatus::NotFound) is None,
        status_json(snapshot, IssueStatus::Running(i)) is Some,
        status_json(snapshot, IssueStatus::Retrying(i)) is Some,
        status_json(snapshot, IssueStatus::Running(i)) == Some(answer) ==> {
            let entry = snapshot.running@[i as int];
            &&& json::member(answer, "status"@) == Some(JsonView::Text("running"@))
            &&& json::member(answer, "issue_id"@) == Some(JsonView::Text(entry.issue_id@))
            &&& json::member(answer, "issue_identifier"@) == Some(
                JsonView::Text(entry.issue_identifier@),
            )
            &&& json::member(answer, "details"@) == Some(running_json(entry))
        },
        status_json(snapshot, IssueStatus::Retrying(i)) == Some(answer) ==> {
            let entry = snapshot.retrying@[i as int];
            &&& json::member(answer, "status"@) == Some(JsonView::Text("retrying"@))
            &&& json::member(answer, "issue_id"@) == Some(JsonView::Text(entry.issue_id@))
            &&& json::member(answer, "issue_identifier"@) == Some(
                JsonView::Text(entry.issue_identifier@),
            )
            &&& json::member(answer, "details"@) == Some(retry_json(entry@))
        },
{
    broadcast use {json::lemma_member_push, json::lemma_no_member};

    reveal_strlit("status");
    reveal_strlit("issue_id");
    reveal_strlit("issue_identifier");
    reveal_strlit("details");
    assert("status"@.len() == 6);
    assert("issue_id"@.len() == 8);
    assert("issue_identifier"@.len() == 16);
    assert("details"@.len() == 7);
}

/// The answer about the state has every session and every retry, in order, with their numbers, and
/// the totals and limits that the snapshot has.
pub proof fn lemma_state_is_told(
    snapshot: StateSnapshot,
    generated_at: Seq<char>,
    seconds_running: JsonView,
    rows: Seq<JsonView>,
    part: JsonView,
    i: int,
)
    ensures
        ({
            let body = state_json(snapshot, generated_at, seconds_running);
            &&& json::member(body, "generated_at"@) == Some(JsonView::Text(generated_at))
            &&& json::member(body, "running"@) is Some && json::member(body, "running"@)->0 is Array
            &&& json::member(body, "running"@) == Some(JsonView::Array(rows)) ==> rows.len()
                == snapshot.running@.len() && (0 <= i < rows.len() ==> rows[i] == running_json(
                snapshot.running@[i],
            ))
            &&& json::member(body, "retrying"@) is Some && json::member(body, "retrying"@)->0
                is Array
            &&& json::member(body, "retrying"@) == Some(JsonView::Array(rows)) ==> rows.len()
                == snapshot.retrying@.len() && (0 <= i < rows.len() ==> rows[i] == retry_json(
                snapshot.retrying@[i]@,
            ))
            &&& json::member(body, "counts"@) is Some
            &&& json::member(body, "counts"@) == Some(part) ==> json::member(part, "running"@)
                == Some(
                JsonView::Number(NumberView::Unsigned(snapshot.running@.len() as u64)),
            ) && json::member(part, "retrying"@) == Some(
                JsonView::Number(NumberView::Unsigned(snapshot.retrying@.len() as u64)),
            )
            &&& json::member(body, "codex_totals"@) is Some
            &&& json::member(body, "codex_totals"@) == Some(part) ==> json::member(
                part,
                "input_tokens"@,
            ) == Some(
                JsonView::Number(NumberView::Unsigned(snapshot.codex_totals.input_tokens)),
            ) && json::member(part, "output_tokens"@) == Some(
                JsonView::Number(NumberView::Unsigned(snapshot.codex_totals.output_tokens)),
            ) && json::member(part, "total_tokens"@) == Some(
                JsonView::Number(NumberView::Unsigned(snapshot.codex_totals.total_tokens)),
            ) && json::member(part, "seconds_running"@) == Some(seconds_running)
            &&& snapshot.rate_limits is Some ==> json::member(body, "rate_limits"@) == Some(
                snapshot.rate_limits->0@,
            )
            &&& snapshot.rate_limits is None ==> json::member(body, "rate_limits"@) == Some(
                JsonView::Null,
            )
        }),
{
    broadcast use {json::lemma_member_push, json::lemma_no_member};

    reveal_strlit("generated_at");
    reveal_strlit("counts");
    reveal_strlit("running");
    reveal_strlit("retrying");
    reveal_strlit("codex_totals");
    reveal_strlit("rate_limits");
    reveal_strlit("input_tokens");
    reveal_strlit("output_tokens");
    reveal_strlit("total_tokens");
    reveal_strlit("seconds_running");
    assert("generated_at"@.len() == 12);
    assert("counts"@.len() == 6);
    assert("running"@.len() == 7);
    assert("retrying"@.len() == 8);
    assert("codex_totals"@.len() == 12);
    assert("rate_limits"@.len() == 11);
    assert("input_tokens"@.len() == 12);
    assert("output_tokens"@.len() == 13);
    assert("total_tokens"@.len() == 12);
    assert("seconds_running"@.len() == 15);
    assert("codex_totals"@[0] == 'c');
    assert("generated_at"@[0] == 'g');
    assert("input_tokens"@[0] == 'i');
    assert("total_tokens"@[0] == 't');
}

/// An issue is known by its identifier and by its id, as running before as waiting, and by no other
/// name.
pub proof fn lemma_issue_is_known_by_name(
    snapshot: StateSnapshot,
    name: Seq<char>,
    status: IssueStatus,
    k: int,
)
    requires
        status_is(snapshot, name, status),
    ensures
        0 <= k < snapshot.running@.len() && (snapshot.running@[k].issue_identifier@ == name
            || snapshot.running@[k].issue_id@ == name) ==> status is Running && status->Running_0
            <= k,
        0 <= k < snapshot.retrying@.len() && (snapshot.retrying@[k].issue_identifier@ == name
            || snapshot.retrying@[k].issue_id@ == name) ==> status is Running || (status is Retrying
            && status->Retrying_0 <= k),
        status is Running ==> status->Running_0 < snapshot.running@.len() && (
        snapshot.running@[status->Running_0 as int].issue_identifier@ == name
            || snapshot.running@[status->Running_0 as int].issue_id@ == name),
        status is Retrying ==> status->Retrying_0 < snapshot.retrying@.len() && (
        snapshot.retrying@[status->Retrying_0 as int].issue_identifier@ == name
            || snapshot.retrying@[status->Retrying_0 as int].issue_id@ == name),
{
}

} // verus!
