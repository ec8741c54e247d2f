//! The errors of the library.

use vstd::prelude::*;
use vstd::string::*;

use crate::text;

verus! {

/// What can go wrong.
#[derive(Debug)]
pub enum SymphonyError {
    MissingWorkflowFile { path: String },
    WorkflowParseError { message: String },
    WorkflowFrontMatterNotAMap,
    WorkflowLoad(String),
    WorkflowWatch(String),
    ConfigParse(String),
    ConfigValidation(String),
    Tracker(String),
    Workspace(String),
    Ssh(String),
    Prompt(String),
    PromptRender(String),
    Codex(String),
    Http(String),
    LinearApiRequest(String),
    LinearApiStatus { status: u16, body: String },
    LinearGraphqlErrors { messages: Vec<String> },
    LinearUnknownPayload(String),
    LinearMissingEndCursor,
    Internal(String),
}

/// The model of an error.
#[verifier::ext_equal]
pub enum ErrorView {
    MissingWorkflowFile { path: Seq<char> },
    WorkflowParseError { message: Seq<char> },
    WorkflowFrontMatterNotAMap,
    WorkflowLoad(Seq<char>),
    WorkflowWatch(Seq<char>),
    ConfigParse(Seq<char>),
    ConfigValidation(Seq<char>),
    Tracker(Seq<char>),
    Workspace(Seq<char>),
    Ssh(Seq<char>),
    Prompt(Seq<char>),
    PromptRender(Seq<char>),
    Codex(Seq<char>),
    Http(Seq<char>),
    LinearApiRequest(Seq<char>),
    LinearApiStatus { status: u16, body: Seq<char> },
    LinearGraphqlErrors { messages: Seq<Seq<char>> },
    LinearUnknownPayload(Seq<char>),
    LinearMissingEndCursor,
    Internal(Seq<char>),
}

impl View for SymphonyError {
    type V = ErrorView;

    open spec fn view(&self) -> ErrorView {
        match self {
            SymphonyError::MissingWorkflowFile { path } => ErrorView::MissingWorkflowFile {
                path: path@,
            },
            SymphonyError::WorkflowParseError { message } => ErrorView::WorkflowParseError {
                message: message@,
            },
            SymphonyError::WorkflowFrontMatterNotAMap => ErrorView::WorkflowFrontMatterNotAMap,
            SymphonyError::WorkflowLoad(m) => ErrorView::WorkflowLoad(m@),
            SymphonyError::WorkflowWatch(m) => ErrorView::WorkflowWatch(m@),
            SymphonyError::ConfigParse(m) => ErrorView::ConfigParse(m@),
            SymphonyError::ConfigValidation(m) => ErrorView::ConfigValidation(m@),
            SymphonyError::Tracker(m) => ErrorView::Tracker(m@),
            SymphonyError::Workspace(m) => ErrorView::Workspace(m@),
            SymphonyError::Ssh(m) => ErrorView::Ssh(m@),
            SymphonyError::Prompt(m) => ErrorView::Prompt(m@),
            SymphonyError::PromptRender(m) => ErrorView::PromptRender(m@),
            SymphonyError::Codex(m) => ErrorView::Codex(m@),
            SymphonyError::Http(m) => ErrorView::Http(m@),
            SymphonyError::LinearApiRequest(m) => ErrorView::LinearApiRequest(m@),
            SymphonyError::LinearApiStatus { status, body } => ErrorView::LinearApiStatus {
                status: *status,
                body: body@,
            },
            SymphonyError::LinearGraphqlErrors { messages } => ErrorView::LinearGraphqlErrors {
                messages: text::texts(messages@),
            },
            SymphonyError::LinearUnknownPayload(m) => ErrorView::LinearUnknownPayload(m@),
            SymphonyError::LinearMissingEndCursor => ErrorView::LinearMissingEndCursor,
            SymphonyError::Internal(m) => ErrorView::Internal(m@),
        }
    }
}

/// A result has the given model.
pub open spec fn result_is<T: View>(
    r: Result<T, SymphonyError>,
    expected: Result<T::V, ErrorView>,
) -> bool {
    match (r, expected) {
        (Ok(value), Ok(model)) => value@ == model,
        (Err(error), Err(model)) => error@ == model,
        _ => false,
    }
}

/// How std's `Debug` shows a list of strings: in brackets, each quoted and escaped.
pub uninterp spec fn debug_list(items: Seq<Seq<char>>) -> Seq<char>;

/// Shows a list of strings by std's `Debug` (`{:?}`). The contract names the text; it is a
/// function of the strings alone.
#[verifier::external_body]
fn format_debug_list(items: &Vec<String>) -> (r: String)
    ensures
        r@ == debug_list(text::texts(items@)),
{
    format!("{:?}", items)
}

/// How std's `Debug` shows a string: quoted and escaped.
pub uninterp spec fn debug_text(s: Seq<char>) -> Seq<char>;

/// Shows a string by std's `Debug` (`{:?}`). The contract names the text; it is a function of the
/// string alone.
#[verifier::external_body]
pub(crate) fn format_debug_text(s: &str) -> (r: String)
    ensures
        r@ == debug_text(s@),
{
    format!("{:?}", s)
}

/// The text of an error.
pub open spec fn error_text(e: ErrorView) -> Seq<char> {
    match e {
        ErrorView::MissingWorkflowFile { path } => "missing_workflow_file: "@ + path,
        ErrorView::WorkflowParseError { message } => "workflow_parse_error: "@ + message,
        ErrorView::WorkflowFrontMatterNotAMap => "workflow_front_matter_not_a_map"@,
        ErrorView::WorkflowLoad(m) => "workflow load error: "@ + m,
        ErrorView::WorkflowWatch(m) => "workflow watch error: "@ + m,
        ErrorView::ConfigParse(m) => "config parse error: "@ + m,
        ErrorView::ConfigValidation(m) => "config validation error: "@ + m,
        ErrorView::Tracker(m) => "tracker error: "@ + m,
        ErrorView::Workspace(m) => "workspace error: "@ + m,
        ErrorView::Ssh(m) => "ssh error: "@ + m,
        ErrorView::Prompt(m) => "prompt error: "@ + m,
        ErrorView::PromptRender(m) => "prompt render error: "@ + m,
        ErrorView::Codex(m) => "codex error: "@ + m,
        ErrorView::Http(m) => "http error: "@ + m,
        ErrorView::LinearApiRequest(m) => "linear_api_request: "@ + m,
        ErrorView::LinearApiStatus { status, body } => "linear_api_status: status="@
            + text::decimal(status as nat) + ", body="@ + body,
        ErrorView::LinearGraphqlErrors { messages } => "linear_graphql_errors: "@ + debug_list(
            messages,
        ),
        ErrorView::LinearUnknownPayload(m) => "linear_unknown_payload: "@ + m,
        ErrorView::LinearMissingEndCursor => "linear_missing_end_cursor"@,
        ErrorView::Internal(m) => m,
    }
}

impl SymphonyError {
    /// The text of the error.
    pub fn message(&self) -> (r: String)
        ensures
            r@ == error_text(self@),
    {
        match self {
            SymphonyError::MissingWorkflowFile { path } => text::joined(
                "missing_workflow_file: ",
                path.as_str(),
            ),
            SymphonyError::WorkflowParseError { message } => text::joined(
                "workflow_parse_error: ",
                message.as_str(),
            ),
            SymphonyError::WorkflowFrontMatterNotAMap => "workflow_front_matter_not_a_map".to_owned(),
            SymphonyError::WorkflowLoad(m) => text::joined("workflow load error: ", m.as_str()),
            SymphonyError::WorkflowWatch(m) => text::joined("workflow watch error: ", m.as_str()),
            SymphonyError::ConfigParse(m) => text::joined("config parse error: ", m.as_str()),
            SymphonyError::ConfigValidation(m) => text::joined(
                "config validation error: ",
                m.as_str(),
            ),
            SymphonyError::Tracker(m) => text::joined("tracker error: ", m.as_str()),
            SymphonyError::Workspace(m) => text::joined("workspace error: ", m.as_str()),
            SymphonyError::Ssh(m) => text::joined("ssh error: ", m.as_str()),
            SymphonyError::Prompt(m) => text::joined("prompt error: ", m.as_str()),
            SymphonyError::PromptRender(m) => text::joined("prompt render error: ", m.as_str()),
            SymphonyError::Codex(m) => text::joined("codex error: ", m.as_str()),
            SymphonyError::Http(m) => text::joined("http error: ", m.as_str()),
            SymphonyError::LinearApiRequest(m) => text::joined("linear_api_request: ", m.as_str()),
            SymphonyError::LinearApiStatus { status, body } => {
                let mut out = "linear_api_status: status=".to_owned();
                out.append(text::u64_text(*status as u64).as_str());
                out.append(", body=");
                out.append(body.as_str());
                out
            },
            SymphonyError::LinearGraphqlErrors { messages } => text::joined(
                "linear_graphql_errors: ",
                format_debug_list(messages).as_str(),
            ),
            SymphonyError::LinearUnknownPayload(m) => text::joined(
                "linear_unknown_payload: ",
                m.as_str(),
            ),
            SymphonyError::LinearMissingEndCursor => "linear_missing_end_cursor".to_owned(),
            SymphonyError::Internal(m) => m.clone(),
        }
    }
}

/// The model of an error is of the same kind and has the same data.
pub proof fn lemma_error_is_modelled(e: SymphonyError, i: int)
    ensures
        e is MissingWorkflowFile ==> e@ is MissingWorkflowFile && e@->path
            == e->MissingWorkflowFile_path@,
        e is WorkflowParseError ==> e@ is WorkflowParseError && e@->message
            == e->WorkflowParseError_message@,
        e is WorkflowFrontMatterNotAMap ==> e@ is WorkflowFrontMatterNotAMap,
        e is WorkflowLoad ==> e@ == ErrorView::WorkflowLoad(e->WorkflowLoad_0@),
        e is WorkflowWatch ==> e@ == ErrorView::WorkflowWatch(e->WorkflowWatch_0@),
        e is ConfigParse ==> e@ == ErrorView::ConfigParse(e->ConfigParse_0@),
        e is ConfigValidation ==> e@ == ErrorView::ConfigValidation(e->ConfigValidation_0@),
        e is Tracker ==> e@ == ErrorView::Tracker(e->Tracker_0@),
        e is Workspace ==> e@ == ErrorView::Workspace(e->Workspace_0@),
        e is Ssh ==> e@ == ErrorView::Ssh(e->Ssh_0@),
        e is Prompt ==> e@ == ErrorView::Prompt(e->Prompt_0@),
        e is PromptRender ==> e@ == ErrorView::PromptRender(e->PromptRender_0@),
        e is Codex ==> e@ == ErrorView::Codex(e->Codex_0@),
        e is Http ==> e@ == ErrorView::Http(e->Http_0@),
        e is LinearApiRequest ==> e@ == ErrorView::LinearApiRequest(e->LinearApiRequest_0@),
        e is LinearUnknownPayload ==> e@ == ErrorView::LinearUnknownPayload(e->LinearUnknownPayload_0@),
        e is Internal ==> e@ == ErrorView::Internal(e->Internal_0@),
        e is LinearApiStatus ==> e@ is LinearApiStatus && e@->status == e->LinearApiStatus_status
            && e@->body == e->LinearApiStatus_body@,
        e is LinearGraphqlErrors ==> e@ is LinearGraphqlErrors && e@->messages.len()
            == e->LinearGraphqlErrors_messages@.len() && (0 <= i < e@->messages.len()
            ==> e@->messages[i] == e->LinearGraphqlErrors_messages@[i]@),
        e is LinearMissingEndCursor ==> e@ is LinearMissingEndCursor,
{
}

/// The text of an error names its kind and ends with what was said of it.
pub proof fn lemma_error_says_what_happened(m: Seq<char>, status: u16)
    ensures
        error_text(ErrorView::WorkflowLoad(m)) == "workflow load error: "@ + m,
        error_text(ErrorView::WorkflowWatch(m)) == "workflow watch error: "@ + m,
        error_text(ErrorView::ConfigParse(m)) == "config parse error: "@ + m,
        error_text(ErrorView::ConfigValidation(m)) == "config validation error: "@ + m,
        error_text(ErrorView::Tracker(m)) == "tracker error: "@ + m,
        error_text(ErrorView::Workspace(m)) == "workspace error: "@ + m,
        error_text(ErrorView::Ssh(m)) == "ssh error: "@ + m,
        error_text(ErrorView::Prompt(m)) == "prompt error: "@ + m,
        error_text(ErrorView::PromptRender(m)) == "prompt render error: "@ + m,
        error_text(ErrorView::Codex(m)) == "codex error: "@ + m,
        error_text(ErrorView::Http(m)) == "http error: "@ + m,
        error_text(ErrorView::LinearApiRequest(m)) == "linear_api_request: "@ + m,
        error_text(ErrorView::LinearUnknownPayload(m)) == "linear_unknown_payload: "@ + m,
        error_text(ErrorView::Internal(m)) == m,
        error_text(ErrorView::MissingWorkflowFile { path: m }) == "missing_workflow_file: "@ + m,
        error_text(ErrorView::WorkflowParseError { message: m }) == "workflow_parse_error: "@ + m,
        error_text(ErrorView::WorkflowFrontMatterNotAMap) == "workflow_front_matter_not_a_map"@,
        error_text(ErrorView::LinearMissingEndCursor) == "linear_missing_end_cursor"@,
        error_text(ErrorView::LinearApiStatus { status, body: m }) == "linear_api_status: status="@
            + text::decimal(status as nat) + ", body="@ + m,
{
}

/// A result has a model of its own kind: a success that of its value, a failure that of its error.
pub proof fn lemma_result_keeps_its_kind<T: View>(
    r: Result<T, SymphonyError>,
    value: T::V,
    error: ErrorView,
)
    ensures
        result_is(r, Ok(value)) <==> r is Ok && r->Ok_0@ == value,
        result_is(r, Err(error)) <==> r is Err && r->Err_0@ == error,
{
}

} // verus!
