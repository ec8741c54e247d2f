//! What is asked of Linear, and what is made of its answers.

use vstd::prelude::*;
use vstd::string::*;

use crate::config::TrackerConfig;
use crate::domain;
use crate::domain::{BlockerRef, BlockerView, Issue};
use crate::error;
use crate::error::{ErrorView, SymphonyError};
use crate::json;
use crate::json::{Json, JsonView};
use crate::linear::adapter;
use crate::linear::types::{
    CommentCreateData, GraphQLError, GraphQLResponse, IssueUpdateData, IssuesConnection, IssuesData,
    LinearIssue, NodesData, StateLookupData, ViewerData,
};
use crate::text;

verus! {

/// Where Linear answers, unless configured otherwise.
pub const DEFAULT_ENDPOINT: &'static str = "https://api.linear.app/graphql";

/// How long an answer may take, in seconds.
pub const REQUEST_TIMEOUT_SECS: u64 = 30;

/// Whom to ask, and with which key.
#[derive(Debug)]
pub struct LinearClient {
    pub api_key: String,
    pub endpoint: String,
}

/// A client has the key and the endpoint of a configuration.
pub open spec fn describes(config: TrackerConfig, client: LinearClient) -> bool {
    &&& text::filled(text::opt_text(config.api_key)) == Some(client.api_key@)
    &&& client.endpoint@ == match text::filled(text::opt_text(config.endpoint)) {
        Some(endpoint) => endpoint,
        None => DEFAULT_ENDPOINT@,
    }
}

impl LinearClient {
    /// A client of the usual endpoint.
    pub fn new(api_key: &str) -> (r: Self)
        ensures
            r.api_key@ == api_key@,
            r.endpoint@ == DEFAULT_ENDPOINT@,
    {
        LinearClient::with_endpoint(api_key, DEFAULT_ENDPOINT)
    }

    /// A client of an endpoint.
    pub fn with_endpoint(api_key: &str, endpoint: &str) -> (r: Self)
        ensures
            r.api_key@ == api_key@,
            r.endpoint@ == endpoint@,
    {
        LinearClient { api_key: api_key.to_owned(), endpoint: endpoint.to_owned() }
    }

    /// The client that a configuration describes; it needs a key.
    pub fn from_config(config: &TrackerConfig) -> (r: Result<Self, SymphonyError>)
        ensures
            match text::filled(text::opt_text(config.api_key)) {
                None => r matches Err(e) && e@ == ErrorView::ConfigValidation(
                    "tracker.api_key is required"@,
                ),
                Some(_) => r matches Ok(client) && describes(*config, client),
            },
    {
        let api_key = match text::filled_value(&config.api_key) {
            Some(key) => key,
            None => {
                return Err(
                    SymphonyError::ConfigValidation("tracker.api_key is required".to_owned()),
                );
            },
        };
        let endpoint = match text::filled_value(&config.endpoint) {
            Some(endpoint) => endpoint,
            None => DEFAULT_ENDPOINT,
        };
        Ok(LinearClient::with_endpoint(api_key, endpoint))
    }
}

/// The client that an agent's tool calls use: there is one where the tracker is Linear and a key is
/// set. What is configured is taken as it stands.
pub fn tool_client(config: &TrackerConfig) -> (r: Option<LinearClient>)
    ensures
        if text::opt_text(config.kind) == Some("linear"@) && config.api_key is Some {
            r matches Some(client) && client.api_key@ == config.api_key->0@ && client.endpoint@
                == match config.endpoint {
                Some(endpoint) => endpoint@,
                None => DEFAULT_ENDPOINT@,
            }
        } else {
            r is None
        },
{
    let is_linear = match &config.kind {
        Some(kind) => text::same(kind.as_str(), "linear"),
        None => false,
    };
    if !is_linear {
        return None;
    }
    match &config.api_key {
        Some(api_key) => match &config.endpoint {
            Some(endpoint) => Some(LinearClient::with_endpoint(api_key.as_str(), endpoint.as_str())),
            None => Some(LinearClient::new(api_key.as_str())),
        },
        None => None,
    }
}

/// The body of a GraphQL request.
pub fn request_body(query: &str, variables: Json) -> (r: Json)
    ensures
        r@ == JsonView::Object(
            Seq::empty().push(("query"@, JsonView::Text(query@))).push(("variables"@, variables@)),
        ),
{
    let members = json::and_member(json::no_members(), "query", json::text_value(query));
    json::object(json::and_member(members, "variables", variables))
}

/// What a request over HTTP came to.
#[derive(Debug)]
pub enum HttpReply {
    Failed(String),
    Answered { status: u16, body: String },
    Payload(Result<Json, String>),
}

/// The value that a request over HTTP gave: a request that failed, a status that is no success and
/// a body that is no JSON are errors.
pub fn reply_payload(reply: HttpReply) -> (r: Result<Json, SymphonyError>)
    ensures
        error::result_is(
            r,
            match reply {
                HttpReply::Failed(message) => Err(ErrorView::LinearApiRequest(message@)),
                HttpReply::Answered { status, body } => Err(
                    ErrorView::LinearApiStatus { status, body: body@ },
                ),
                HttpReply::Payload(Ok(value)) => Ok(value@),
                HttpReply::Payload(Err(message)) => Err(ErrorView::LinearUnknownPayload(message@)),
            },
        ),
{
    match reply {
        HttpReply::Failed(message) => Err(SymphonyError::LinearApiRequest(message)),
        HttpReply::Answered { status, body } => Err(
            SymphonyError::LinearApiStatus { status, body },
        ),
        HttpReply::Payload(Ok(value)) => Ok(value),
        HttpReply::Payload(Err(message)) => Err(SymphonyError::LinearUnknownPayload(message)),
    }
}

/// The messages of a list of errors.
pub open spec fn messages(errors: Seq<GraphQLError>) -> Seq<Seq<char>> {
    Seq::new(errors.len(), |i: int| errors[i].message@)
}

fn error_messages(errors: &Vec<GraphQLError>) -> (r: Vec<String>)
    ensures
        text::texts(r@) == messages(errors@),
{
    let mut out: Vec<String> = text::no_texts();
    let mut i: usize = 0;
    while i < errors.len()
        invariant
            i <= errors@.len(),
            text::texts(out@) == messages(errors@).take(i as int),
        decreases errors@.len() - i,
    {
        text::push_text(&mut out, errors[i].message.clone());
        proof {
            assert(messages(errors@).take(i + 1) =~= messages(errors@).take(i as int).push(
                errors@[i as int].message@,
            ));
        }
        i = i + 1;
    }
    proof {
        assert(messages(errors@).take(errors@.len() as int) =~= messages(errors@));
    }
    out
}

/// The data of an answer. An answer that cannot be read, one that reports errors and one without
/// data are errors; the reported errors come first.
pub fn decode_graphql_response<T>(response: Result<GraphQLResponse<T>, String>) -> (r: Result<
    T,
    SymphonyError,
>)
    ensures
        match response {
            Err(message) => r matches Err(e) && e@ == ErrorView::LinearUnknownPayload(message@),
            Ok(answer) => if answer.errors is Some && answer.errors->0@.len() > 0 {
                r matches Err(e) && e@ == (ErrorView::LinearGraphqlErrors {
                    messages: messages(answer.errors->0@),
                })
            } else {
                match answer.data {
                    Some(data) => r == Ok::<T, SymphonyError>(data),
                    None => r matches Err(e) && e@ == ErrorView::LinearUnknownPayload(
                        "missing GraphQL data"@,
                    ),
                }
            },
        },
{
    let answer = match response {
        Ok(answer) => answer,
        Err(message) => {
            return Err(SymphonyError::LinearUnknownPayload(message));
        },
    };
    if let Some(errors) = &answer.errors {
        if errors.len() > 0 {
            return Err(SymphonyError::LinearGraphqlErrors { messages: error_messages(errors) });
        }
    }
    match answer.data {
        Some(data) => Ok(data),
        None => Err(SymphonyError::LinearUnknownPayload("missing GraphQL data".to_owned())),
    }
}

/// The project whose issues are worked on.
pub fn project_slug(config: &TrackerConfig) -> (r: Result<&str, SymphonyError>)
    ensures
        match text::filled(text::opt_text(config.project_slug)) {
            Some(slug) => r matches Ok(value) && value@ == slug,
            None => r matches Err(e) && e@ == ErrorView::ConfigValidation(
                "tracker.project_slug is required"@,
            ),
        },
{
    match text::filled_value(&config.project_slug) {
        Some(slug) => Ok(slug),
        None => Err(
            SymphonyError::ConfigValidation("tracker.project_slug is required".to_owned()),
        ),
    }
}

/// Whose issues are worked on.
#[derive(Debug)]
pub enum AssigneeFilter {
    Anybody,
    Viewer,
    User(String),
}

/// The model of whose issues are worked on.
pub enum AssigneeView {
    Anybody,
    Viewer,
    User(Seq<char>),
}

impl View for AssigneeFilter {
    type V = AssigneeView;

    open spec fn view(&self) -> AssigneeView {
        match self {
            AssigneeFilter::Anybody => AssigneeView::Anybody,
            AssigneeFilter::Viewer => AssigneeView::Viewer,
            AssigneeFilter::User(id) => AssigneeView::User(id@),
        }
    }
}

/// Whose issues a configuration asks for; `me` is the user that the key belongs to.
pub open spec fn assignee_of(assignee: Option<Seq<char>>) -> AssigneeView {
    match text::filled(assignee) {
        None => AssigneeView::Anybody,
        Some(value) => if value == "me"@ {
            AssigneeView::Viewer
        } else {
            AssigneeView::User(value)
        },
    }
}

/// Whose issues a configuration asks for.
pub fn resolve_assignee_filter(config: &TrackerConfig) -> (r: AssigneeFilter)
    ensures
        r@ == assignee_of(text::opt_text(config.assignee)),
{
    match text::filled_value(&config.assignee) {
        None => AssigneeFilter::Anybody,
        Some(value) => if text::same(value, "me") {
            AssigneeFilter::Viewer
        } else {
            AssigneeFilter::User(value.to_owned())
        },
    }
}

/// What has to be asked for the candidates.
#[derive(Debug)]
pub enum FetchPlan {
    Nothing,
    Fetch { project_slug: String, assignee: AssigneeFilter },
}

/// What has to be asked for the candidates: nothing where no state is active; else the project's
/// issues, of the right people.
pub fn plan_candidates(config: &TrackerConfig) -> (r: Result<FetchPlan, SymphonyError>)
    ensures
        if config.active_states@.len() == 0 {
            r matches Ok(FetchPlan::Nothing)
        } else {
            match text::filled(text::opt_text(config.project_slug)) {
                None => r matches Err(e) && e@ == ErrorView::ConfigValidation(
                    "tracker.project_slug is required"@,
                ),
                Some(slug) => r matches Ok(FetchPlan::Fetch { project_slug, assignee })
                    && project_slug@ == slug && assignee@ == assignee_of(
                    text::opt_text(config.assignee),
                ),
            }
        },
{
    if config.active_states.len() == 0 {
        return Ok(FetchPlan::Nothing);
    }
    match project_slug(config) {
        Ok(slug) => Ok(
            FetchPlan::Fetch {
                project_slug: slug.to_owned(),
                assignee: resolve_assignee_filter(config),
            },
        ),
        Err(error) => Err(error),
    }
}

/// The user that the key belongs to, by an answer.
pub fn viewer_id(data: ViewerData) -> (r: Result<String, SymphonyError>)
    ensures
        match data.viewer {
            Some(viewer) => if text::blank(viewer.id@) {
                r matches Err(e) && e@ == ErrorView::Tracker("viewer_not_found"@)
            } else {
                r matches Ok(id) && id@ == viewer.id@
            },
            None => r matches Err(e) && e@ == ErrorView::Tracker("viewer_not_found"@),
        },
{
    match data.viewer {
        Some(viewer) => if text::is_blank(viewer.id.as_str()) {
            Err(SymphonyError::Tracker("viewer_not_found".to_owned()))
        } else {
            Ok(viewer.id)
        },
        None => Err(SymphonyError::Tracker("viewer_not_found".to_owned())),
    }
}

/// Texts as a JSON array.
pub open spec fn text_array(items: Seq<Seq<char>>) -> JsonView {
    JsonView::Array(Seq::new(items.len(), |i: int| JsonView::Text(items[i])))
}

fn array_of(items: &[String]) -> (r: Json)
    ensures
        r@ == text_array(text::texts(items@)),
{
    let mut refs: Vec<&str> = Vec::new();
    let mut i: usize = 0;
    while i < items.len()
        invariant
            i <= items@.len(),
            refs@.len() == i,
            forall|k: int| 0 <= k < i ==> (#[trigger] refs@[k])@ == items@[k]@,
        decreases items@.len() - i,
    {
        refs.push(items[i].as_str());
        i = i + 1;
    }
    let r = json::array_of_texts(&refs);
    proof {
        assert(r@->Array_0 =~= text_array(text::texts(items@))->Array_0);
    }
    r
}

/// Two members of an object, both texts.
pub open spec fn two_texts(
    first: Seq<char>,
    a: Seq<char>,
    second: Seq<char>,
    b: Seq<char>,
) -> JsonView {
    JsonView::Object(
        Seq::empty().push((first, JsonView::Text(a))).push((second, JsonView::Text(b))),
    )
}

fn two_texts_object(first: &str, a: &str, second: &str, b: &str) -> (r: Json)
    ensures
        r@ == two_texts(first@, a@, second@, b@),
{
    let members = json::and_member(json::no_members(), first, json::text_value(a));
    json::object(json::and_member(members, second, json::text_value(b)))
}

/// What goes with the query for the states of some issues.
pub open spec fn refresh_object(issue_ids: Seq<Seq<char>>) -> JsonView {
    JsonView::Object(Seq::empty().push(("ids"@, text_array(issue_ids))))
}

/// What goes with the query for the states of some issues.
pub fn refresh_variables(issue_ids: &[String]) -> (r: Json)
    ensures
        r@ == refresh_object(text::texts(issue_ids@)),
{
    json::object(json::and_member(json::no_members(), "ids", array_of(issue_ids)))
}

/// What goes with a new comment.
pub fn comment_variables(issue_id: &str, body: &str) -> (r: Json)
    ensures
        r@ == two_texts("issueId"@, issue_id@, "body"@, body@),
{
    two_texts_object("issueId", issue_id, "body", body)
}

/// What goes with the lookup of a state.
pub fn state_lookup_variables(issue_id: &str, state_name: &str) -> (r: Json)
    ensures
        r@ == two_texts("issueId"@, issue_id@, "stateName"@, state_name@),
{
    two_texts_object("issueId", issue_id, "stateName", state_name)
}

/// What goes with the move of an issue to a state.
pub fn state_update_variables(issue_id: &str, state_id: &str) -> (r: Json)
    ensures
        r@ == two_texts("issueId"@, issue_id@, "stateId"@, state_id@),
{
    two_texts_object("issueId", issue_id, "stateId", state_id)
}

/// Whether a comment has been added.
pub fn comment_result(data: &CommentCreateData) -> (r: Result<(), SymphonyError>)
    ensures
        if data.comment_create.success {
            r is Ok
        } else {
            r matches Err(e) && e@ == ErrorView::Tracker("comment_create_failed"@)
        },
{
    if data.comment_create.success {
        Ok(())
    } else {
        Err(SymphonyError::Tracker("comment_create_failed".to_owned()))
    }
}

/// Whether an issue has been moved.
pub fn update_result(data: &IssueUpdateData) -> (r: Result<(), SymphonyError>)
    ensures
        if data.issue_update.success {
            r is Ok
        } else {
            r matches Err(e) && e@ == ErrorView::Tracker("issue_update_failed"@)
        },
{
    if data.issue_update.success {
        Ok(())
    } else {
        Err(SymphonyError::Tracker("issue_update_failed".to_owned()))
    }
}

/// The first state that a lookup has found.
pub open spec fn found_state(data: StateLookupData) -> Option<Seq<char>> {
    match data.issue {
        Some(issue) => match issue.team {
            Some(team) => if team.states.nodes@.len() > 0 {
                Some(team.states.nodes@[0].id@)
            } else {
                None
            },
            None => None,
        },
        None => None,
    }
}

/// The state that a lookup has found.
pub fn resolve_state_id(data: &StateLookupData) -> (r: Result<String, SymphonyError>)
    ensures
        match found_state(*data) {
            Some(id) => r matches Ok(value) && value@ == id,
            None => r matches Err(e) && e@ == ErrorView::Tracker("state_not_found"@),
        },
{
    if let Some(issue) = &data.issue {
        if let Some(team) = &issue.team {
            if team.states.nodes.len() > 0 {
                return Ok(team.states.nodes[0].id.clone());
            }
        }
    }
    Err(SymphonyError::Tracker("state_not_found".to_owned()))
}

/// A fetch of issues, page by page.
#[derive(Debug)]
pub struct IssuePages {
    pub project_slug: String,
    pub states: Vec<String>,
    pub after: Option<String>,
    pub issues: Vec<LinearIssue>,
}

/// What has been read of a fetch: where the next page starts, and the issues so far.
#[verifier::ext_equal]
pub struct PagesView {
    pub after: Option<Seq<char>>,
    pub issues: Seq<LinearIssue>,
}

impl PagesView {
    /// Nothing has been read.
    pub open spec fn start() -> PagesView {
        PagesView { after: None, issues: Seq::empty() }
    }

    /// A page has been read: its issues come after those before.
    pub open spec fn read(self, page: IssuesConnection) -> PagesView {
        PagesView {
            after: if page.page_info.has_next_page && page.page_info.end_cursor is Some {
                text::opt_text(page.page_info.end_cursor)
            } else {
                self.after
            },
            issues: self.issues + page.nodes@,
        }
    }

    /// Some pages have been read, one after the other.
    pub open spec fn read_all(self, pages: Seq<IssuesConnection>) -> PagesView
        decreases pages.len(),
    {
        if pages.len() == 0 {
            self
        } else {
            self.read_all(pages.drop_last()).read(pages.last())
        }
    }
}

impl View for IssuePages {
    type V = PagesView;

    open spec fn view(&self) -> PagesView {
        PagesView { after: text::opt_text(self.after), issues: self.issues@ }
    }
}

/// What goes with the query for a page.
pub open spec fn page_variables(
    project_slug: Seq<char>,
    states: Seq<Seq<char>>,
    after: Option<Seq<char>>,
) -> JsonView {
    JsonView::Object(
        Seq::empty().push(("projectSlug"@, JsonView::Text(project_slug))).push(
            ("states"@, text_array(states)),
        ).push(
            (
                "after"@,
                match after {
                    Some(cursor) => JsonView::Text(cursor),
                    None => JsonView::Null,
                },
            ),
        ),
    )
}

impl IssuePages {
    /// A fetch of the issues of a project in some states.
    pub fn new(project_slug: &str, states: &[String]) -> (r: Self)
        ensures
            r.project_slug@ == project_slug@,
            text::texts(r.states@) == text::texts(states@),
            r@ == PagesView::start(),
    {
        IssuePages {
            project_slug: project_slug.to_owned(),
            states: text::clone_texts(states),
            after: None,
            issues: Vec::new(),
        }
    }

    /// What goes with the query for the next page.
    pub fn variables(&self) -> (r: Json)
        ensures
            r@ == page_variables(self.project_slug@, text::texts(self.states@), self@.after),
    {
        let after = match &self.after {
            Some(cursor) => json::text_value(cursor.as_str()),
            None => Json::Null,
        };
        let members = json::and_member(
            json::no_members(),
            "projectSlug",
            json::text_value(self.project_slug.as_str()),
        );
        let members = json::and_member(members, "states", array_of(&self.states));
        json::object(json::and_member(members, "after", after))
    }

    /// Takes a page in and tells whether there is another one. A page that announces another one has
    /// to say where it starts.
    pub fn advance(&mut self, data: IssuesData) -> (r: Result<bool, SymphonyError>)
        ensures
            final(self).project_slug == old(self).project_slug,
            final(self).states == old(self).states,
            final(self)@ == old(self)@.read(data.issues),
            if data.issues.page_info.has_next_page && data.issues.page_info.end_cursor is None {
                r matches Err(e) && e@ == ErrorView::LinearMissingEndCursor
            } else {
                r == Ok::<bool, SymphonyError>(data.issues.page_info.has_next_page)
            },
    {
        let IssuesData { issues: page } = data;
        let mut nodes = page.nodes;
        self.issues.append(&mut nodes);
        if !page.page_info.has_next_page {
            return Ok(false);
        }
        match page.page_info.end_cursor {
            Some(cursor) => {
                self.after = Some(cursor);
                Ok(true)
            },
            None => Err(SymphonyError::LinearMissingEndCursor),
        }
    }
}

/// The fetch of a project's issues in some states; none where no state is given, for then nothing has
/// to be asked.
pub fn pages_by_states(project_slug: &str, states: &[String]) -> (r: Option<IssuePages>)
    ensures
        if states@.len() == 0 {
            r is None
        } else {
            r matches Some(pages) && pages.project_slug@ == project_slug@ && text::texts(
                pages.states@,
            ) == text::texts(states@) && pages@ == PagesView::start()
        },
{
    if states.len() == 0 {
        None
    } else {
        Some(IssuePages::new(project_slug, states))
    }
}

/// What goes with the query for the states of some issues; none where no issue is given, for then
/// nothing has to be asked.
pub fn refresh_query(issue_ids: &[String]) -> (r: Option<Json>)
    ensures
        if issue_ids@.len() == 0 {
            r is None
        } else {
            r matches Some(variables) && variables@ == refresh_object(text::texts(issue_ids@))
        },
{
    if issue_ids.len() == 0 {
        None
    } else {
        Some(refresh_variables(issue_ids))
    }
}

/// What has to be asked for the issues in some states, by a configuration: nothing where no state is
/// given; else there has to be a key and a project.
pub fn plan_by_states(config: &TrackerConfig, states: &[String]) -> (r: Result<
    Option<(LinearClient, IssuePages)>,
    SymphonyError,
>)
    ensures
        if states@.len() == 0 {
            r matches Ok(None)
        } else if text::filled(text::opt_text(config.api_key)) is None {
            r matches Err(e) && e@ == ErrorView::ConfigValidation("tracker.api_key is required"@)
        } else {
            match text::filled(text::opt_text(config.project_slug)) {
                None => r matches Err(e) && e@ == ErrorView::ConfigValidation(
                    "tracker.project_slug is required"@,
                ),
                Some(slug) => r matches Ok(Some((client, pages))) && describes(*config, client)
                    && pages.project_slug@ == slug && text::texts(pages.states@) == text::texts(
                    states@,
                ) && pages@ == PagesView::start(),
            }
        },
{
    if states.len() == 0 {
        return Ok(None);
    }
    let client = match LinearClient::from_config(config) {
        Ok(client) => client,
        Err(error) => {
            return Err(error);
        },
    };
    match project_slug(config) {
        Ok(slug) => Ok(Some((client, IssuePages::new(slug, states)))),
        Err(error) => Err(error),
    }
}

/// What has to be asked for the states of some issues, by a configuration: nothing where no issue is
/// given; else there has to be a key.
pub fn plan_refresh(config: &TrackerConfig, issue_ids: &[String]) -> (r: Result<
    Option<(LinearClient, Json)>,
    SymphonyError,
>)
    ensures
        if issue_ids@.len() == 0 {
            r matches Ok(None)
        } else if text::filled(text::opt_text(config.api_key)) is None {
            r matches Err(e) && e@ == ErrorView::ConfigValidation("tracker.api_key is required"@)
        } else {
            r matches Ok(Some((client, variables))) && describes(*config, client) && variables@
                == refresh_object(text::texts(issue_ids@))
        },
{
    if issue_ids.len() == 0 {
        return Ok(None);
    }
    match LinearClient::from_config(config) {
        Ok(client) => Ok(Some((client, refresh_variables(issue_ids)))),
        Err(error) => Err(error),
    }
}

/// An issue is assigned to a user.
pub open spec fn assigned_to(issue: LinearIssue, user: Seq<char>) -> bool {
    match issue.assignee {
        Some(assignee) => text::trimmed(assignee.id@) == user,
        None => false,
    }
}

/// The issues that are assigned to a user; all where no user is given.
pub open spec fn of_assignee(issues: Seq<LinearIssue>, assignee_id: Option<Seq<char>>) -> Seq<
    LinearIssue,
> {
    match text::filled(assignee_id) {
        None => issues,
        Some(user) => issues.filter(|issue: LinearIssue| assigned_to(issue, user)),
    }
}

fn is_assigned_to(issue: &LinearIssue, user: &str) -> (r: bool)
    ensures
        r == assigned_to(*issue, user@),
{
    match &issue.assignee {
        Some(assignee) => text::same(text::trim(assignee.id.as_str()), user),
        None => false,
    }
}

/// The values behind references.
pub open spec fn unref(items: Seq<&LinearIssue>) -> Seq<LinearIssue> {
    Seq::new(items.len(), |i: int| *items[i])
}

/// The issues that are assigned to a user, in their order; all where no user is given.
pub fn filter_issues_by_assignee<'a>(
    issues: &'a [LinearIssue],
    assignee_id: &Option<String>,
) -> (r: Vec<&'a LinearIssue>)
    ensures
        unref(r@) == of_assignee(issues@, text::opt_text(*assignee_id)),
{
    let user = text::filled_value(assignee_id);
    let ghost p = |issue: LinearIssue|
        match user {
            Some(user) => assigned_to(issue, user@),
            None => true,
        };
    let mut out: Vec<&'a LinearIssue> = Vec::new();
    let mut i: usize = 0;
    proof {
        reveal(Seq::filter);
        assert(unref(out@) =~= issues@.take(0).filter(p));
    }
    while i < issues.len()
        invariant
            i <= issues@.len(),
            p == |issue: LinearIssue|
                match user {
                    Some(user) => assigned_to(issue, user@),
                    None => true,
                },
            unref(out@) == issues@.take(i as int).filter(p),
        decreases issues@.len() - i,
    {
        let issue = &issues[i];
        let wanted = match user {
            Some(user) => is_assigned_to(issue, user),
            None => true,
        };
        let ghost before = out@;
        proof {
            reveal(Seq::filter);
            assert(issues@.take(i + 1).drop_last() =~= issues@.take(i as int));
            assert(issues@.take(i + 1).last() == issues@[i as int]);
        }
        if wanted {
            out.push(issue);
            proof {
                assert(unref(out@) =~= unref(before).push(*issue));
            }
        }
        i = i + 1;
    }
    proof {
        assert(issues@.take(issues@.len() as int) =~= issues@);
        match user {
            Some(user) => {
                assert(p =~= |issue: LinearIssue| assigned_to(issue, user@));
            },
            None => {
                lemma_filter_all(issues@, p);
            },
        }
    }
    out
}

proof fn lemma_filter_all(issues: Seq<LinearIssue>, p: spec_fn(LinearIssue) -> bool)
    requires
        forall|issue: LinearIssue| #[trigger] p(issue),
    ensures
        issues.filter(p) == issues,
    decreases issues.len(),
{
    reveal(Seq::filter);
    if issues.len() > 0 {
        lemma_filter_all(issues.drop_last(), p);
        assert(issues.drop_last().push(issues.last()) =~= issues);
    }
}

/// The candidates among the issues of a fetch.
pub fn candidates(issues: &[LinearIssue], assignee_id: &Option<String>) -> (r: Vec<Issue>)
    ensures
        domain::issues(r@) == of_assignee(issues@, text::opt_text(*assignee_id)).map_values(
            |issue: LinearIssue| adapter::normalized(issue),
        ),
        forall|k: int|
            0 <= k < r@.len() ==> (#[trigger] r@[k])@.id == of_assignee(
                issues@,
                text::opt_text(*assignee_id),
            )[k].id@,
{
    let chosen = filter_issues_by_assignee(issues, assignee_id);
    let mut out: Vec<Issue> = Vec::new();
    let mut i: usize = 0;
    while i < chosen.len()
        invariant
            i <= chosen@.len(),
            out@.len() == i,
            forall|k: int|
                0 <= k < i ==> (#[trigger] out@[k])@ == adapter::normalized(*chosen@[k]),
        decreases chosen@.len() - i,
    {
        out.push(adapter::normalize_issue(chosen[i]));
        i = i + 1;
    }
    proof {
        assert forall|k: int| 0 <= k < out@.len() implies domain::issues(out@)[k] == unref(
            chosen@,
        ).map_values(|issue: LinearIssue| adapter::normalized(issue))[k] by {
            assert(unref(chosen@)[k] == *chosen@[k]);
        }
        assert(domain::issues(out@) =~= unref(chosen@).map_values(
            |issue: LinearIssue| adapter::normalized(issue),
        ));
    }
    out
}

/// The short forms of the issues of a fetch.
pub fn issue_refs(issues: &[LinearIssue]) -> (r: Vec<BlockerRef>)
    ensures
        domain::blockers(r@) == issues@.map_values(
            |issue: LinearIssue| adapter::normalized_ref(issue),
        ),
{
    let mut out: Vec<BlockerRef> = Vec::new();
    let mut i: usize = 0;
    while i < issues.len()
        invariant
            i <= issues@.len(),
            out@.len() == i,
            forall|k: int|
                0 <= k < i ==> (#[trigger] out@[k])@ == adapter::normalized_ref(issues@[k]),
        decreases issues@.len() - i,
    {
        out.push(adapter::normalize_issue_ref(&issues[i]));
        i = i + 1;
    }
    proof {
        assert(domain::blockers(out@) =~= issues@.map_values(
            |issue: LinearIssue| adapter::normalized_ref(issue),
        ));
    }
    out
}

/// The short forms of the issues that can be seen.
pub open spec fn visible_refs(nodes: Seq<Option<LinearIssue>>) -> Seq<BlockerView>
    decreases nodes.len(),
{
    if nodes.len() == 0 {
        Seq::empty()
    } else {
        match nodes.last() {
            Some(issue) => visible_refs(nodes.drop_last()).push(adapter::normalized_ref(issue)),
            None => visible_refs(nodes.drop_last()),
        }
    }
}

/// The short forms of the issues of an answer about states; those that cannot be seen are left out.
pub fn refreshed_refs(data: &NodesData) -> (r: Vec<BlockerRef>)
    ensures
        domain::blockers(r@) == visible_refs(data.nodes@),
{
    let nodes = &data.nodes;
    let mut out: Vec<BlockerRef> = Vec::new();
    let mut i: usize = 0;
    proof {
        assert(domain::blockers(out@) =~= Seq::<BlockerView>::empty());
    }
    while i < nodes.len()
        invariant
            i <= nodes@.len(),
            domain::blockers(out@) == visible_refs(nodes@.take(i as int)),
        decreases nodes@.len() - i,
    {
        let ghost before = out@;
        proof {
            assert(nodes@.take(i + 1).drop_last() =~= nodes@.take(i as int));
        }
        if let Some(issue) = &nodes[i] {
            let short = adapter::normalize_issue_ref(issue);
            let ghost model = short@;
            out.push(short);
            proof {
                assert(domain::blockers(out@) =~= domain::blockers(before).push(model));
            }
        }
        i = i + 1;
    }
    proof {
        assert(nodes@.take(nodes@.len() as int) =~= nodes@);
    }
    out
}

/// The issues of some pages, in the order of the pages.
pub open spec fn issues_of_pages(pages: Seq<IssuesConnection>) -> Seq<LinearIssue>
    decreases pages.len(),
{
    if pages.len() == 0 {
        Seq::empty()
    } else {
        issues_of_pages(pages.drop_last()) + pages.last().nodes@
    }
}

/// Reading pages loses no issue and keeps their order across the pages, and the query for the next
/// page starts where the last page says.
pub proof fn lemma_pages_keep_order(pages: Seq<IssuesConnection>)
    ensures
        PagesView::start().read_all(pages).issues == issues_of_pages(pages),
        pages.len() > 0 && pages.last().page_info.has_next_page
            && pages.last().page_info.end_cursor is Some ==> PagesView::start().read_all(pages).after
            == text::opt_text(pages.last().page_info.end_cursor),
    decreases pages.len(),
{
    if pages.len() > 0 {
        lemma_pages_keep_order(pages.drop_last());
    }
}

/// Who asks for one user's issues gets only issues of that user, and all of them.
pub proof fn lemma_assignee_filter(
    issues: Seq<LinearIssue>,
    assignee_id: Seq<char>,
    issue: LinearIssue,
)
    requires
        !text::blank(assignee_id),
    ensures
        of_assignee(issues, Some(assignee_id)).contains(issue) <==> issues.contains(issue)
            && assigned_to(issue, text::trimmed(assignee_id)),
{
    let p = |candidate: LinearIssue| assigned_to(candidate, text::trimmed(assignee_id));
    broadcast use Seq::lemma_filter_contains, Seq::lemma_filter_pred;

    let kept = issues.filter(p);
    if kept.contains(issue) {
        let i = choose|i: int| 0 <= i < kept.len() && kept[i] == issue;
        issues.lemma_filter_contains_rev(p, issue);
    }
    if issues.contains(issue) && p(issue) {
        let i = choose|i: int| 0 <= i < issues.len() && issues[i] == issue;
        issues.lemma_filter_contains(p, i);
    }
}

/// A candidate is an issue of the fetch that is assigned to the wanted user, and keeps what Linear says
/// of it; and every such issue is a candidate.
pub proof fn lemma_candidates_are_the_assigned(
    issues: Seq<LinearIssue>,
    assignee_id: Option<Seq<char>>,
    i: int,
)
    requires
        0 <= i < issues.len(),
    ensures
        ({
            let issue = issues[i];
            let nobody = assignee_id is None || text::trimmed(assignee_id->0).len() == 0;
            let wanted = issue.assignee is Some && assignee_id is Some && text::trimmed(
                issue.assignee->0.id@,
            ) == text::trimmed(assignee_id->0);
            of_assignee(issues, assignee_id).contains(issue) <==> nobody || wanted
        }),
{
    let issue = issues[i];
    if assignee_id is Some {
        let user = assignee_id->0;
        text::lemma_trimmed_empty(user);
        if !text::blank(user) {
            lemma_assignee_filter(issues, user, issue);
        }
    }
}

/// The query for a page asks for the project, the states and the place where the page starts, and from
/// the start where there is none.
pub proof fn lemma_page_query_is_complete(
    project_slug: Seq<char>,
    states: Seq<Seq<char>>,
    after: Option<Seq<char>>,
    k: int,
)
    ensures
        ({
            let query = page_variables(project_slug, states, after);
            &&& json::member(query, "projectSlug"@) == Some(JsonView::Text(project_slug))
            &&& json::member(query, "states"@) matches Some(JsonView::Array(listed))
            &&& listed.len() == states.len()
            &&& 0 <= k < states.len() ==> listed[k] == JsonView::Text(states[k])
            &&& after is Some ==> json::member(query, "after"@) == Some(JsonView::Text(after->0))
            &&& after is None ==> json::member(query, "after"@) == Some(JsonView::Null)
        }),
{
    broadcast use {json::lemma_member_push, json::lemma_no_member};

    reveal_strlit("projectSlug");
    reveal_strlit("states");
    reveal_strlit("after");
    assert("projectSlug"@.len() == 11);
    assert("states"@.len() == 6);
    assert("after"@.len() == 5);
}

/// The query for the states of issues asks for each of them, in their order.
pub proof fn lemma_refresh_query_is_complete(issue_ids: Seq<Seq<char>>, k: int)
    ensures
        json::member(refresh_object(issue_ids), "ids"@) matches Some(JsonView::Array(listed))
            && listed.len() == issue_ids.len() && (0 <= k < issue_ids.len() ==> listed[k]
            == JsonView::Text(issue_ids[k])),
{
    broadcast use {json::lemma_member_push, json::lemma_no_member};

}

/// Two texts of an object are found under their own names.
pub proof fn lemma_two_texts_are_found(
    first: Seq<char>,
    a: Seq<char>,
    second: Seq<char>,
    b: Seq<char>,
)
    requires
        first != second,
    ensures
        json::member(two_texts(first, a, second, b), first) == Some(JsonView::Text(a)),
        json::member(two_texts(first, a, second, b), second) == Some(JsonView::Text(b)),
{
    broadcast use {json::lemma_member_push, json::lemma_no_member};

}

/// A configuration asks for the issues of the user that it names, of the user behind the key where it
/// names `me`, and of all where it names nobody.
pub proof fn lemma_assignee_is_the_configured_one(name: Seq<char>)
    ensures
        assignee_of(None) == AssigneeView::Anybody,
        text::trimmed(name).len() == 0 ==> assignee_of(Some(name)) == AssigneeView::Anybody,
        text::trimmed(name) == "me"@ ==> assignee_of(Some(name)) == AssigneeView::Viewer,
        text::trimmed(name).len() > 0 && text::trimmed(name) != "me"@ ==> assignee_of(Some(name))
            == AssigneeView::User(text::trimmed(name)),
{
    text::lemma_trimmed_empty(name);
    reveal_strlit("me");
    assert("me"@.len() == 2);
}

/// A lookup of a state gives the first one that was found, and none where nothing was.
pub proof fn lemma_first_state_is_found(data: StateLookupData)
    ensures
        data.issue is Some && data.issue->0.team is Some
            && data.issue->0.team->0.states.nodes@.len() > 0 ==> found_state(data) == Some(
            data.issue->0.team->0.states.nodes@[0].id@,
        ),
        data.issue is None || data.issue->0.team is None
            || data.issue->0.team->0.states.nodes@.len() == 0 ==> found_state(data) is None,
{
}

/// Every issue that can be seen is reported, in its short form, and nothing else is.
pub proof fn lemma_visible_issues_are_reported(nodes: Seq<Option<LinearIssue>>, report: BlockerView)
    ensures
        visible_refs(nodes).contains(report) <==> exists|i: int|
            0 <= i < nodes.len() && (#[trigger] nodes[i]) is Some && report.id == nodes[i]->0.id@
                && report.identifier == nodes[i]->0.identifier@ && report.state
                == adapter::state_name(nodes[i]->0.state),
    decreases nodes.len(),
{
    if nodes.len() > 0 {
        let front = nodes.drop_last();
        let last = nodes.last();
        lemma_visible_issues_are_reported(front, report);
        let before = visible_refs(front);
        let after = visible_refs(nodes);
        assert(nodes[nodes.len() - 1] == last);
        if before.contains(report) {
            let k = choose|k: int| 0 <= k < before.len() && before[k] == report;
            assert(after[k] == report);
        }
        if after.contains(report) {
            let k = choose|k: int| 0 <= k < after.len() && after[k] == report;
            if k < before.len() {
                assert(before[k] == report);
                let i = choose|i: int| 0 <= i < front.len() && shows_as(#[trigger] front[i], report);
                assert(nodes[i] == front[i]);
            } else {
                assert(shows_as(nodes[nodes.len() - 1], report));
            }
        }
        if exists|i: int| 0 <= i < nodes.len() && shows_as(#[trigger] nodes[i], report) {
            let i = choose|i: int| 0 <= i < nodes.len() && shows_as(#[trigger] nodes[i], report);
            if i < front.len() {
                assert(front[i] == nodes[i]);
            } else {
                assert(after[after.len() - 1] == report);
            }
        }
    }
}

spec fn shows_as(node: Option<LinearIssue>, report: BlockerView) -> bool {
    node is Some && report.id == node->0.id@ && report.identifier == node->0.identifier@
        && report.state == adapter::state_name(node->0.state)
}

/// The messages of errors are theirs, in their order.
pub proof fn lemma_messages_are_kept(errors: Seq<GraphQLError>, k: int)
    requires
        0 <= k < errors.len(),
    ensures
        messages(errors).len() == errors.len(),
        messages(errors)[k] == errors[k].message@,
{
}

/// Of one page after another each issue is kept, after those before it.
pub proof fn lemma_page_is_appended(pages: PagesView, page: IssuesConnection, k: int)
    ensures
        pages.read(page).issues.len() == pages.issues.len() + page.nodes@.len(),
        0 <= k < pages.issues.len() ==> pages.read(page).issues[k] == pages.issues[k],
        0 <= k < page.nodes@.len() ==> pages.read(page).issues[pages.issues.len() + k]
            == page.nodes@[k],
        page.page_info.has_next_page && page.page_info.end_cursor is Some ==> pages.read(page).after
            == Some(page.page_info.end_cursor->0@),
{
}

/// A client has the key and the endpoint that are configured, without the white space around them; the
/// usual endpoint stands in where none is.
pub proof fn lemma_client_is_the_configured_one(config: TrackerConfig, client: LinearClient)
    requires
        describes(config, client),
    ensures
        config.api_key is Some,
        text::trimmed(config.api_key->0@).len() > 0,
        client.api_key@ == text::trimmed(config.api_key->0@),
        config.endpoint is Some && text::trimmed(config.endpoint->0@).len() > 0
            ==> client.endpoint@ == text::trimmed(config.endpoint->0@),
        config.endpoint is None || text::trimmed(config.endpoint->0@).len() == 0
            ==> client.endpoint@ == "https://api.linear.app/graphql"@,
{
    text::lemma_trimmed_empty(config.api_key->0@);
    text::lemma_trimmed_empty(config.endpoint->0@);
}

/// The model of whose issues are worked on is of the same kind, and that of a fetch has what the fetch
/// has.
pub proof fn lemma_fetch_is_modelled(filter: AssigneeFilter, pages: IssuePages)
    ensures
        filter is Anybody ==> filter@ is Anybody,
        filter is Viewer ==> filter@ is Viewer,
        filter is User ==> filter@ == AssigneeView::User(filter->User_0@),
        pages@.issues == pages.issues@,
        pages.after is Some ==> pages@.after == Some(pages.after->0@),
        pages.after is None ==> pages@.after is None,
{
}

/// The issues that can be seen come in the order in which they were asked for.
pub proof fn lemma_visible_issues_keep_order(nodes: Seq<Option<LinearIssue>>, issue: LinearIssue)
    ensures
        visible_refs(nodes.push(None)) == visible_refs(nodes),
        visible_refs(nodes.push(Some(issue))).drop_last() == visible_refs(nodes),
        visible_refs(nodes.push(Some(issue))).last().id == issue.id@,
        visible_refs(nodes.push(Some(issue))).last().identifier == issue.identifier@,
{
    assert(nodes.push(None).drop_last() =~= nodes);
    assert(nodes.push(Some(issue)).drop_last() =~= nodes);
    assert(visible_refs(nodes.push(Some(issue))).drop_last() =~= visible_refs(nodes));
}

} // verus!
