use symphony::config::TrackerConfig;
use symphony::domain::Issue;
use symphony::tracker::{CommentRecord, MemoryTracker, StateUpdateRecord};

fn issue(id: &str, identifier: &str, state: &str) -> Issue {
    Issue {
        id: id.into(),
        identifier: identifier.into(),
        title: format!("Issue {identifier}"),
        description: None,
        priority: None,
        state: state.into(),
        branch_name: None,
        url: None,
        labels: Vec::new(),
        blocked_by: Vec::new(),
        created_at: None,
        updated_at: None,
    }
}

fn three() -> MemoryTracker {
    MemoryTracker::new(vec![
        issue("issue-1", "SYM-1", "Todo"),
        issue("issue-2", "SYM-2", "In Progress"),
        issue("issue-3", "SYM-3", "Done"),
    ])
}

#[test]
fn fetch_candidates_returns_configured_issues() {
    let tracker = MemoryTracker::new(vec![
        issue("issue-1", "SYM-1", "Todo"),
        issue("issue-2", "SYM-2", "In Progress"),
    ]);

    let issues = tracker.fetch_candidates(&TrackerConfig::default()).unwrap();

    assert_eq!(issues.len(), 2);
    assert_eq!(issues[0].identifier, "SYM-1");
    assert_eq!(issues[1].identifier, "SYM-2");
}

#[test]
fn fetch_issues_by_states_filters_case_insensitively() {
    let issues = three()
        .fetch_issues_by_states("project", &[String::from("todo"), String::from("done")])
        .unwrap();

    assert_eq!(issues.len(), 2);
    assert_eq!(issues[0].identifier, "SYM-1");
    assert_eq!(issues[1].identifier, "SYM-3");
}

#[test]
fn refresh_issue_states_returns_only_matching_ids() {
    let issues = three()
        .refresh_issue_states(&[String::from("issue-2"), String::from("issue-3")])
        .unwrap();

    assert_eq!(issues.len(), 2);
    assert_eq!(issues[0].identifier, "SYM-2");
    assert_eq!(issues[1].identifier, "SYM-3");
}

#[test]
fn write_operations_are_recorded() {
    let mut tracker = MemoryTracker::new(vec![issue("issue-1", "SYM-1", "Todo")]);

    tracker.create_comment("issue-1", "hello").unwrap();
    tracker.update_issue_state("issue-1", "Done").unwrap();

    assert_eq!(
        tracker.comments().unwrap(),
        vec![CommentRecord { issue_id: String::from("issue-1"), body: String::from("hello") }]
    );
    assert_eq!(
        tracker.state_updates().unwrap(),
        vec![StateUpdateRecord {
            issue_id: String::from("issue-1"),
            state_name: String::from("Done"),
        }]
    );
    assert_eq!(tracker.issues().unwrap()[0].state, "Todo");
}

#[test]
fn no_states_are_no_issues() {
    assert!(three().fetch_issues_by_states("project", &[]).unwrap().is_empty());
    assert!(MemoryTracker::default().issues().unwrap().is_empty());
}
