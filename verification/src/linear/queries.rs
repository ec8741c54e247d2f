//! The GraphQL queries and mutations.

use vstd::prelude::*;

verus! {

/// The issues of a project in some states, with all that a dispatch needs to know.
pub const CANDIDATE_FETCH_QUERY: &'static str = r#"
query($projectSlug: String!, $states: [String!]!, $after: String) {
  issues(
    filter: {
      project: { slugId: { eq: $projectSlug } }
      state: { name: { in: $states } }
    }
    first: 50
    after: $after
    orderBy: createdAt
  ) {
    nodes {
      id
      identifier
      title
      description
      priority
      branchName
      url
      createdAt
      updatedAt
      state { name }
      assignee { id }
      labels { nodes { name } }
      inverseRelations(first: 50) {
        nodes {
          type
          issue {
            id
            identifier
            state { name }
          }
        }
      }
    }
    pageInfo {
      hasNextPage
      endCursor
    }
  }
}
"#;

/// The user that the API key belongs to.
pub const VIEWER_QUERY: &'static str = r#"
query SymphonyViewer {
  viewer {
    id
  }
}
"#;

/// The current states of some issues.
pub const STATE_REFRESH_QUERY: &'static str = r#"
query($ids: [ID!]!) {
  nodes(ids: $ids) {
    ... on Issue {
      id
      identifier
      state { name }
    }
  }
}
"#;

/// The issues of a project in some states, by their names and states only.
pub const FETCH_BY_STATES_QUERY: &'static str = r#"
query($projectSlug: String!, $states: [String!]!, $after: String) {
  issues(
    filter: {
      project: { slugId: { eq: $projectSlug } }
      state: { name: { in: $states } }
    }
    first: 50
    after: $after
  ) {
    nodes {
      id
      identifier
      state { name }
    }
    pageInfo {
      hasNextPage
      endCursor
    }
  }
}
"#;

/// Adds a comment to an issue.
pub const CREATE_COMMENT_MUTATION: &'static str = r#"
mutation SymphonyCreateComment($issueId: String!, $body: String!) {
  commentCreate(input: {issueId: $issueId, body: $body}) {
    success
  }
}
"#;

/// Moves an issue to a state.
pub const UPDATE_STATE_MUTATION: &'static str = r#"
mutation SymphonyUpdateIssueState($issueId: String!, $stateId: String!) {
  issueUpdate(id: $issueId, input: {stateId: $stateId}) {
    success
  }
}
"#;

/// The state of an issue's team that has a name.
pub const STATE_LOOKUP_QUERY: &'static str = r#"
query SymphonyResolveStateId($issueId: String!, $stateName: String!) {
  issue(id: $issueId) {
    team {
      states(filter: {name: {eq: $stateName}}, first: 1) {
        nodes {
          id
        }
      }
    }
  }
}
"#;

} // verus!
