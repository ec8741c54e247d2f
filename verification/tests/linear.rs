use symphony::config::TrackerConfig;
use symphony::error::SymphonyError;
use symphony::json::{Json, Number};
use symphony::linear::adapter::{normalize_issue, normalize_issue_ref};
use symphony::linear::client::{
    candidates, comment_result, comment_variables, decode_graphql_response,
    filter_issues_by_assignee, issue_refs, pages_by_states, plan_by_states, plan_candidates,
    plan_refresh, project_slug, refresh_query, refresh_variables, refreshed_refs, reply_payload,
    request_body, resolve_assignee_filter, resolve_state_id, state_lookup_variables,
    state_update_variables, tool_client, update_result, viewer_id, AssigneeFilter, FetchPlan,
    HttpReply, IssuePages, LinearClient,
};
use symphony::linear::queries::{
    CANDIDATE_FETCH_QUERY, CREATE_COMMENT_MUTATION, FETCH_BY_STATES_QUERY, STATE_LOOKUP_QUERY,
    STATE_REFRESH_QUERY, UPDATE_STATE_MUTATION, VIEWER_QUERY,
};
use symphony::linear::types::{
    AssigneeNode, CommentCreateData, GraphQLError, GraphQLResponse, InverseRelationNode,
    InverseRelationsConnection, IssueUpdateData, IssuesConnection, IssuesData, LabelNode,
    LabelsConnection, LinearIssue, MutationResult, NodesData, PageInfo, RelatedIssue,
    StateLookupConnection, StateLookupData, StateLookupIssue, StateLookupNode, StateLookupTeam,
    StateNode, ViewerData, ViewerNode,
};
use symphony::tracker::{build_tracker, TrackerKind};

fn to_value(value: &Json) -> serde_json::Value {
    match value {
        Json::Null => serde_json::Value::Null,
        Json::Bool(b) => serde_json::Value::Bool(*b),
        Json::Number(Number::Unsigned(n)) => (*n).into(),
        Json::Number(Number::Negative(n)) => (*n).into(),
        Json::Number(Number::Float(text)) => serde_json::from_str(text).unwrap(),
        Json::Text(s) => serde_json::Value::String(s.clone()),
        Json::Array(items) => serde_json::Value::Array(items.iter().map(to_value).collect()),
        Json::Object(members) => serde_json::Value::Object(
            members.iter().map(|(key, value)| (key.clone(), to_value(value))).collect(),
        ),
    }
}

fn value(text: &str) -> serde_json::Value {
    serde_json::from_str(text).unwrap()
}

fn strings(items: &[&str]) -> Vec<String> {
    items.iter().map(|item| String::from(*item)).collect()
}

fn state(name: &str) -> Option<StateNode> {
    Some(StateNode { name: Some(name.into()) })
}

fn linear_issue(id: &str, identifier: &str, state_name: &str) -> LinearIssue {
    LinearIssue {
        id: id.into(),
        identifier: identifier.into(),
        title: None,
        description: None,
        priority: None,
        branch_name: None,
        url: None,
        created_at: None,
        updated_at: None,
        state: state(state_name),
        assignee: None,
        labels: None,
        inverse_relations: None,
    }
}

fn candidate(id: &str, identifier: &str, assignee: Option<&str>) -> LinearIssue {
    LinearIssue {
        title: Some(identifier.into()),
        assignee: assignee.map(|id| AssigneeNode { id: id.into() }),
        labels: Some(LabelsConnection { nodes: Vec::new() }),
        inverse_relations: Some(InverseRelationsConnection { nodes: Vec::new() }),
        ..linear_issue(id, identifier, "Todo")
    }
}

fn page(nodes: Vec<LinearIssue>, has_next_page: bool, end_cursor: Option<&str>) -> IssuesData {
    IssuesData {
        issues: IssuesConnection {
            nodes,
            page_info: PageInfo { has_next_page, end_cursor: end_cursor.map(String::from) },
        },
    }
}

fn label(name: &str) -> LabelNode {
    LabelNode { name: Some(name.into()) }
}

fn relation(kind: &str, id: &str, identifier: &str, state_name: &str) -> InverseRelationNode {
    InverseRelationNode {
        relation_type: Some(kind.into()),
        issue: Some(RelatedIssue {
            id: id.into(),
            identifier: identifier.into(),
            state: state(state_name),
        }),
    }
}

#[test]
fn normalize_issue_lowercases_labels_extracts_blockers_and_priority() {
    let linear = LinearIssue {
        title: Some("Build client".into()),
        description: Some("Ship it".into()),
        priority: Some(Json::Number(Number::Unsigned(2))),
        branch_name: Some("feature/sym-1".into()),
        url: Some("https://linear.app/symphony/issue/SYM-1".into()),
        created_at: Some("2026-03-14T00:00:00Z".into()),
        updated_at: Some("2026-03-14T01:00:00Z".into()),
        labels: Some(LabelsConnection {
            nodes: vec![label("Backend"), label(" Rust "), label("")],
        }),
        inverse_relations: Some(InverseRelationsConnection {
            nodes: vec![
                relation("blocks", "issue-0", "SYM-0", "In Progress"),
                relation("related", "issue-2", "SYM-2", "Done"),
            ],
        }),
        ..linear_issue("issue-1", "SYM-1", "Todo")
    };

    let normalized = normalize_issue(&linear);

    assert_eq!(normalized.labels, vec!["backend", "rust"]);
    assert_eq!(normalized.blocked_by.len(), 1);
    assert_eq!(normalized.blocked_by[0].identifier, "SYM-0");
    assert_eq!(normalized.priority, Some(2));
    assert_eq!(normalized.created_at.as_deref(), Some("2026-03-14T00:00:00Z"));
}

#[test]
fn normalize_issue_ignores_non_numeric_priority() {
    let linear = LinearIssue {
        priority: Some(Json::Text("high".into())),
        ..linear_issue("issue-1", "SYM-1", "Todo")
    };

    assert_eq!(normalize_issue(&linear).priority, None);
}

#[test]
fn normalize_issue_ignores_priorities_that_do_not_fit() {
    let with = |number: Number| LinearIssue {
        priority: Some(Json::Number(number)),
        ..linear_issue("issue-1", "SYM-1", "Todo")
    };

    assert_eq!(normalize_issue(&with(Number::Unsigned(2_147_483_648))).priority, None);
    assert_eq!(normalize_issue(&with(Number::Negative(-4))).priority, Some(-4));
    assert_eq!(normalize_issue(&with(Number::Float("1.5".into()))).priority, None);
}

#[test]
fn normalize_issue_lowers_labels_beyond_ascii_and_blockers_in_any_case() {
    let linear = LinearIssue {
        labels: Some(LabelsConnection { nodes: vec![label("ÄRGER")] }),
        inverse_relations: Some(InverseRelationsConnection {
            nodes: vec![relation(" BLOCKS ", "i", "SYM-9", "Todo")],
        }),
        ..linear_issue("issue-1", "SYM-1", "Todo")
    };
    let normalized = normalize_issue(&linear);

    assert_eq!(normalized.labels, vec!["ärger"]);
    assert_eq!(normalized.blocked_by[0].identifier, "SYM-9");
    assert_eq!(normalized.title, "");
}

#[test]
fn fetch_issues_by_states_short_circuits_on_empty_states() {
    let config = TrackerConfig::default();

    assert!(matches!(plan_by_states(&config, &[]), Ok(None)));
    assert!(pages_by_states("project", &[]).is_none());
}

#[test]
fn empty_questions_are_not_asked() {
    let config = TrackerConfig { active_states: Vec::new(), ..TrackerConfig::default() };

    assert!(matches!(plan_candidates(&config), Ok(FetchPlan::Nothing)));
    assert!(matches!(plan_refresh(&config, &[]), Ok(None)));
    assert!(refresh_query(&[]).is_none());
}

#[test]
fn questions_need_a_key_and_a_project() {
    let states = vec![String::from("Todo")];
    let mut config = TrackerConfig::default();
    assert_eq!(
        plan_by_states(&config, &states).unwrap_err().message(),
        "config validation error: tracker.api_key is required"
    );
    config.api_key = Some(" key ".into());
    assert_eq!(
        plan_by_states(&config, &states).unwrap_err().message(),
        "config validation error: tracker.project_slug is required"
    );
    let (client, variables) = plan_refresh(&config, &states).unwrap().unwrap();
    assert_eq!(client.api_key, "key");
    assert!(variables.get("ids").is_some());
    config.project_slug = Some("project".into());
    let (client, pages) = plan_by_states(&config, &states).unwrap().unwrap();
    assert_eq!(client.endpoint, "https://api.linear.app/graphql");
    assert_eq!(pages.project_slug, "project");
    assert_eq!(pages.states, states);
}

#[test]
fn maps_request_errors() {
    let error = reply_payload(HttpReply::Failed("connection refused".into())).unwrap_err();

    assert!(matches!(error, SymphonyError::LinearApiRequest(_)));
}

#[test]
fn maps_status_errors() {
    let error =
        reply_payload(HttpReply::Answered { status: 500, body: "upstream failure".into() })
            .unwrap_err();

    assert!(matches!(error, SymphonyError::LinearApiStatus { status: 500, .. }));
}

fn graphql_failure<T>(message: &str) -> Result<T, SymphonyError> {
    decode_graphql_response(Ok(GraphQLResponse {
        data: None,
        errors: Some(vec![GraphQLError { message: message.into() }]),
    }))
}

#[test]
fn maps_graphql_errors() {
    let error = graphql_failure::<IssuesData>("bad query").unwrap_err();

    assert!(matches!(
        error,
        SymphonyError::LinearGraphqlErrors { messages } if messages == vec!["bad query"]
    ));
}

#[test]
fn maps_unknown_payload_errors() {
    let error =
        decode_graphql_response::<IssuesData>(Err("missing field".into())).unwrap_err();

    assert!(matches!(error, SymphonyError::LinearUnknownPayload(_)));

    let error = decode_graphql_response::<IssuesData>(Ok(GraphQLResponse {
        data: None,
        errors: Some(Vec::new()),
    }))
    .unwrap_err();
    assert!(matches!(
        error,
        SymphonyError::LinearUnknownPayload(message) if message == "missing GraphQL data"
    ));
    let error = reply_payload(HttpReply::Payload(Err("no json".into()))).unwrap_err();
    assert!(matches!(error, SymphonyError::LinearUnknownPayload(_)));
}

#[test]
fn maps_missing_end_cursor_errors() {
    let mut pages = IssuePages::new("project", &strings(&["Todo"]));

    let error = pages.advance(page(Vec::new(), true, None)).unwrap_err();

    assert!(matches!(error, SymphonyError::LinearMissingEndCursor));
}

#[test]
fn paginates_issue_queries() {
    let mut pages = IssuePages::new("project", &strings(&["Todo"]));
    assert_eq!(
        to_value(&pages.variables()),
        value(r#"{"projectSlug": "project", "states": ["Todo"], "after": null}"#)
    );
    assert!(pages
        .advance(page(vec![linear_issue("1", "SYM-1", "Todo")], true, Some("cursor-1")))
        .unwrap());
    assert_eq!(
        to_value(&pages.variables()),
        value(r#"{"projectSlug": "project", "states": ["Todo"], "after": "cursor-1"}"#)
    );
    assert!(!pages
        .advance(page(vec![linear_issue("2", "SYM-2", "In Progress")], false, None))
        .unwrap());

    let issues = issue_refs(&pages.issues);

    assert_eq!(issues.len(), 2);
    assert_eq!(issues[0].identifier, "SYM-1");
    assert_eq!(issues[1].identifier, "SYM-2");
}

fn project(assignee: Option<&str>) -> TrackerConfig {
    TrackerConfig {
        project_slug: Some("project".into()),
        assignee: assignee.map(String::from),
        active_states: strings(&["Todo"]),
        ..TrackerConfig::default()
    }
}

#[test]
fn fetch_candidates_returns_all_issues_without_assignee_filter() {
    let plan = plan_candidates(&project(None)).unwrap();
    assert!(matches!(
        plan,
        FetchPlan::Fetch { project_slug, assignee: AssigneeFilter::Anybody }
            if project_slug == "project"
    ));

    let fetched = vec![candidate("1", "SYM-1", Some("user-1")), candidate("2", "SYM-2", None)];
    let issues = candidates(&fetched, &None);

    assert_eq!(issues.len(), 2);
    assert_eq!(issues[0].identifier, "SYM-1");
    assert_eq!(issues[1].identifier, "SYM-2");
}

#[test]
fn fetch_candidates_filters_by_explicit_assignee_id() {
    let filter = resolve_assignee_filter(&project(Some("user-1")));
    assert!(matches!(filter, AssigneeFilter::User(id) if id == "user-1"));

    let fetched = vec![
        candidate("1", "SYM-1", Some("user-1")),
        candidate("2", "SYM-2", Some("user-2")),
        candidate("3", "SYM-3", None),
    ];
    let issues = candidates(&fetched, &Some("user-1".into()));

    assert_eq!(issues.len(), 1);
    assert_eq!(issues[0].identifier, "SYM-1");
    assert_eq!(filter_issues_by_assignee(&fetched, &Some(" ".into())).len(), 3);
}

#[test]
fn fetch_candidates_resolves_me_to_viewer_id() {
    assert!(matches!(
        resolve_assignee_filter(&project(Some("me"))),
        AssigneeFilter::Viewer
    ));
    let id =
        viewer_id(ViewerData { viewer: Some(ViewerNode { id: "viewer-1".into() }) }).unwrap();

    let fetched = vec![
        candidate("1", "SYM-1", Some("viewer-1")),
        candidate("2", "SYM-2", Some("user-2")),
        candidate("3", "SYM-3", None),
    ];
    let issues = candidates(&fetched, &Some(id));

    assert_eq!(issues.len(), 1);
    assert_eq!(issues[0].identifier, "SYM-1");
}

#[test]
fn fetch_candidates_propagates_viewer_query_failures() {
    let error = reply_payload(HttpReply::Answered { status: 500, body: "viewer failed".into() })
        .unwrap_err();
    assert!(matches!(error, SymphonyError::LinearApiStatus { status: 500, .. }));

    assert!(matches!(
        viewer_id(ViewerData { viewer: None }),
        Err(SymphonyError::Tracker(message)) if message == "viewer_not_found"
    ));
    assert!(viewer_id(ViewerData { viewer: Some(ViewerNode { id: " ".into() }) }).is_err());
}

#[test]
fn create_comment_succeeds() {
    assert_eq!(
        to_value(&request_body(
            CREATE_COMMENT_MUTATION,
            comment_variables("issue-1", "hello")
        ))["variables"],
        value(r#"{"issueId": "issue-1", "body": "hello"}"#)
    );
    let data = CommentCreateData { comment_create: MutationResult { success: true } };

    assert!(comment_result(&data).is_ok());
}

#[test]
fn create_comment_propagates_api_errors() {
    let error = reply_payload(HttpReply::Answered { status: 502, body: "bad gateway".into() })
        .unwrap_err();

    assert!(matches!(error, SymphonyError::LinearApiStatus { status: 502, .. }));
}

#[test]
fn create_comment_propagates_graphql_errors() {
    let error = graphql_failure::<CommentCreateData>("comment failed").unwrap_err();

    assert!(matches!(error, SymphonyError::LinearGraphqlErrors { .. }));
}

#[test]
fn create_comment_rejects_unsuccessful_mutation() {
    let data = CommentCreateData { comment_create: MutationResult { success: false } };

    assert!(matches!(
        comment_result(&data),
        Err(SymphonyError::Tracker(ref message)) if message == "comment_create_failed"
    ));
}

fn lookup(ids: &[&str]) -> StateLookupData {
    StateLookupData {
        issue: Some(StateLookupIssue {
            team: Some(StateLookupTeam {
                states: StateLookupConnection {
                    nodes: ids.iter().map(|id| StateLookupNode { id: (*id).into() }).collect(),
                },
            }),
        }),
    }
}

#[test]
fn update_issue_state_succeeds() {
    assert_eq!(
        to_value(&state_lookup_variables("issue-1", "Done")),
        value(r#"{"issueId": "issue-1", "stateName": "Done"}"#)
    );
    let state_id = resolve_state_id(&lookup(&["state-1"])).unwrap();
    assert_eq!(
        to_value(&state_update_variables("issue-1", &state_id)),
        value(r#"{"issueId": "issue-1", "stateId": "state-1"}"#)
    );
    let data = IssueUpdateData { issue_update: MutationResult { success: true } };

    assert!(update_result(&data).is_ok());
}

#[test]
fn update_issue_state_errors_when_state_is_missing() {
    assert!(matches!(
        resolve_state_id(&lookup(&[])),
        Err(SymphonyError::Tracker(ref message)) if message == "state_not_found"
    ));
    assert!(resolve_state_id(&StateLookupData { issue: None }).is_err());
}

#[test]
fn update_issue_state_propagates_api_errors() {
    let error = reply_payload(HttpReply::Answered { status: 503, body: "unavailable".into() })
        .unwrap_err();

    assert!(matches!(error, SymphonyError::LinearApiStatus { status: 503, .. }));
}

#[test]
fn update_issue_state_rejects_unsuccessful_mutation() {
    let data = IssueUpdateData { issue_update: MutationResult { success: false } };

    assert!(matches!(
        update_result(&data),
        Err(SymphonyError::Tracker(ref message)) if message == "issue_update_failed"
    ));
}

#[test]
fn refreshed_issues_leave_out_what_cannot_be_seen() {
    let data = NodesData {
        nodes: vec![
            Some(linear_issue("1", "SYM-1", "Todo")),
            None,
            Some(linear_issue("2", "SYM-2", "Done")),
        ],
    };
    let found = refreshed_refs(&data);

    assert_eq!(found.len(), 2);
    assert_eq!(found[1].state, "Done");
    assert_eq!(
        to_value(&refresh_variables(&strings(&["1", "2"]))),
        value(r#"{"ids": ["1", "2"]}"#)
    );
    assert_eq!(normalize_issue_ref(&linear_issue("3", "SYM-3", "Todo")).identifier, "SYM-3");
}

#[test]
fn projects_must_be_named() {
    assert_eq!(project_slug(&project(None)).unwrap(), "project");
    assert!(matches!(
        plan_candidates(&TrackerConfig { project_slug: Some(" ".into()), ..project(None) }),
        Err(SymphonyError::ConfigValidation(message))
            if message == "tracker.project_slug is required"
    ));
}

#[test]
fn clients_come_from_their_configuration() {
    let config = TrackerConfig {
        kind: Some(" linear ".into()),
        api_key: Some(" key ".into()),
        ..TrackerConfig::default()
    };
    let client = LinearClient::from_config(&config).unwrap();
    assert_eq!(client.api_key, "key");
    assert_eq!(client.endpoint, "https://api.linear.app/graphql");
    assert!(matches!(build_tracker(&config), Ok(TrackerKind::Linear(_))));
    assert!(tool_client(&config).is_none());

    let config = TrackerConfig { kind: Some("linear".into()), ..config };
    assert_eq!(tool_client(&config).unwrap().api_key, " key ");

    let memory = TrackerConfig { kind: Some("memory".into()), ..TrackerConfig::default() };
    assert!(matches!(build_tracker(&memory), Ok(TrackerKind::Memory)));
    assert!(matches!(
        build_tracker(&TrackerConfig::default()),
        Err(SymphonyError::ConfigValidation(message)) if message == "tracker.kind is required"
    ));
    let other = TrackerConfig { kind: Some("jira".into()), ..TrackerConfig::default() };
    assert!(build_tracker(&other).is_err());
    let keyless = TrackerConfig { kind: Some("linear".into()), ..TrackerConfig::default() };
    assert!(matches!(
        build_tracker(&keyless),
        Err(SymphonyError::ConfigValidation(message)) if message == "tracker.api_key is required"
    ));
}

#[test]
fn queries_ask_for_what_is_read() {
    for part in ["projectSlug", "inverseRelations", "pageInfo", "first: 50"] {
        assert!(CANDIDATE_FETCH_QUERY.contains(part));
    }
    assert!(FETCH_BY_STATES_QUERY.contains("endCursor"));
    assert!(STATE_REFRESH_QUERY.contains("nodes(ids: $ids)"));
    assert!(VIEWER_QUERY.contains("viewer"));
    assert!(UPDATE_STATE_MUTATION.contains("issueUpdate"));
    assert!(STATE_LOOKUP_QUERY.contains("first: 1"));
}
