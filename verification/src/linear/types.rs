//! The shape of Linear's answers.

use vstd::prelude::*;

use crate::json::Json;

verus! {

/// An answer to a GraphQL request.
#[derive(Debug)]
pub struct GraphQLResponse<T> {
    pub data: Option<T>,
    pub errors: Option<Vec<GraphQLError>>,
}

/// One error of an answer.
#[derive(Debug)]
pub struct GraphQLError {
    pub message: String,
}

/// The data of a page of issues.
#[derive(Debug)]
pub struct IssuesData {
    pub issues: IssuesConnection,
}

/// A page of issues.
#[derive(Debug)]
pub struct IssuesConnection {
    pub nodes: Vec<LinearIssue>,
    pub page_info: PageInfo,
}

/// Whether and where the next page starts.
#[derive(Debug)]
pub struct PageInfo {
    pub has_next_page: bool,
    pub end_cursor: Option<String>,
}

/// The data of some issues; one that cannot be seen is missing.
#[derive(Debug)]
pub struct NodesData {
    pub nodes: Vec<Option<LinearIssue>>,
}

/// An issue as Linear gives it.
#[derive(Debug)]
pub struct LinearIssue {
    pub id: String,
    pub identifier: String,
    pub title: Option<String>,
    pub description: Option<String>,
    pub priority: Option<Json>,
    pub branch_name: Option<String>,
    pub url: Option<String>,
    pub created_at: Option<String>,
    pub updated_at: Option<String>,
    pub state: Option<StateNode>,
    pub assignee: Option<AssigneeNode>,
    pub labels: Option<LabelsConnection>,
    pub inverse_relations: Option<InverseRelationsConnection>,
}

/// The state of an issue.
#[derive(Debug)]
pub struct StateNode {
    pub name: Option<String>,
}

/// The user that an issue is assigned to.
#[derive(Debug)]
pub struct AssigneeNode {
    pub id: String,
}

/// The labels of an issue.
#[derive(Debug)]
pub struct LabelsConnection {
    pub nodes: Vec<LabelNode>,
}

/// One label.
#[derive(Debug)]
pub struct LabelNode {
    pub name: Option<String>,
}

/// The relations of other issues to an issue.
#[derive(Debug)]
pub struct InverseRelationsConnection {
    pub nodes: Vec<InverseRelationNode>,
}

/// One relation of another issue to an issue.
#[derive(Debug)]
pub struct InverseRelationNode {
    pub relation_type: Option<String>,
    pub issue: Option<RelatedIssue>,
}

/// The other issue of a relation.
#[derive(Debug)]
pub struct RelatedIssue {
    pub id: String,
    pub identifier: String,
    pub state: Option<StateNode>,
}

/// The data of an answer to a new comment.
#[derive(Debug)]
pub struct CommentCreateData {
    pub comment_create: MutationResult,
}

/// The data of an answer to an update of an issue.
#[derive(Debug)]
pub struct IssueUpdateData {
    pub issue_update: MutationResult,
}

/// Whether a mutation has been done.
#[derive(Debug)]
pub struct MutationResult {
    pub success: bool,
}

/// The data of an answer to a state lookup.
#[derive(Debug)]
pub struct StateLookupData {
    pub issue: Option<StateLookupIssue>,
}

/// The issue of a state lookup.
#[derive(Debug)]
pub struct StateLookupIssue {
    pub team: Option<StateLookupTeam>,
}

/// The team of a state lookup.
#[derive(Debug)]
pub struct StateLookupTeam {
    pub states: StateLookupConnection,
}

/// The states that a lookup has found.
#[derive(Debug)]
pub struct StateLookupConnection {
    pub nodes: Vec<StateLookupNode>,
}

/// One state that a lookup has found.
#[derive(Debug)]
pub struct StateLookupNode {
    pub id: String,
}

/// The data of an answer about the user.
#[derive(Debug)]
pub struct ViewerData {
    pub viewer: Option<ViewerNode>,
}

/// The user that the API key belongs to.
#[derive(Debug)]
pub struct ViewerNode {
    pub id: String,
}

} // verus!
