//! The prompts that the coding agent is given.

use liquid::model::Value;
use vstd::prelude::*;
use vstd::string::*;

use crate::domain;
use crate::domain::{BlockerRef, BlockerView, Issue, IssueView};
use crate::error;
use crate::error::{ErrorView, SymphonyError};
use crate::json;
use crate::json::{Json, JsonView, Number, NumberView};
use crate::template;
use crate::template::Verdict;
use crate::text;

verus! {

/// The prompt for an empty template.
pub const DEFAULT_PROMPT: &'static str = "You are working on an issue from Linear.";

/// Builds prompts from a template.
#[derive(Debug)]
pub struct PromptBuilder;

/// An optional text as a template value.
pub open spec fn text_or_null(value: Option<Seq<char>>) -> JsonView {
    match value {
        Some(s) => JsonView::Text(s),
        None => JsonView::Null,
    }
}

/// A whole number as a template value.
pub open spec fn number_view(n: int) -> JsonView {
    if n >= 0 {
        JsonView::Number(NumberView::Unsigned(n as u64))
    } else {
        JsonView::Number(NumberView::Negative(n as i64))
    }
}

/// A blocking issue as a template value.
pub open spec fn blocker_value(blocker: BlockerView) -> JsonView {
    JsonView::Object(
        Seq::empty().push(("id"@, JsonView::Text(blocker.id))).push(
            ("identifier"@, JsonView::Text(blocker.identifier)),
        ).push(("state"@, JsonView::Text(blocker.state))),
    )
}

/// An issue as a template value.
pub open spec fn issue_value(issue: IssueView) -> JsonView {
    JsonView::Object(
        Seq::empty().push(("id"@, JsonView::Text(issue.id))).push(
            ("identifier"@, JsonView::Text(issue.identifier)),
        ).push(("title"@, JsonView::Text(issue.title))).push(
            ("description"@, text_or_null(issue.description)),
        ).push(
            (
                "priority"@,
                match issue.priority {
                    Some(p) => number_view(p as int),
                    None => JsonView::Null,
                },
            ),
        ).push(("state"@, JsonView::Text(issue.state))).push(
            ("branch_name"@, text_or_null(issue.branch_name)),
        ).push(("url"@, text_or_null(issue.url))).push(
            (
                "labels"@,
                JsonView::Array(
                    Seq::new(issue.labels.len(), |i: int| JsonView::Text(issue.labels[i])),
                ),
            ),
        ).push(
            (
                "blocked_by"@,
                JsonView::Array(
                    Seq::new(issue.blocked_by.len(), |i: int| blocker_value(issue.blocked_by[i])),
                ),
            ),
        ).push(("created_at"@, text_or_null(issue.created_at))).push(
            ("updated_at"@, text_or_null(issue.updated_at)),
        ),
    )
}

/// What a template can name: `issue`, and `attempt` for a retry.
pub open spec fn template_context(issue: IssueView, attempt: Option<u32>) -> JsonView {
    JsonView::Object(
        Seq::empty().push(("issue"@, issue_value(issue))).push(
            (
                "attempt"@,
                match attempt {
                    Some(n) => number_view(n as int),
                    None => JsonView::Null,
                },
            ),
        ),
    )
}

fn optional_string_value(value: &Option<String>) -> (r: Json)
    ensures
        r@ == text_or_null(text::opt_text(*value)),
{
    match value {
        Some(s) => Json::Text(s.clone()),
        None => Json::Null,
    }
}

fn optional_i32_value(value: Option<i32>) -> (r: Json)
    ensures
        r@ == match value {
            Some(n) => number_view(n as int),
            None => JsonView::Null,
        },
{
    match value {
        Some(n) => if n >= 0 {
            Json::Number(Number::Unsigned(n as u64))
        } else {
            Json::Number(Number::Negative(n as i64))
        },
        None => Json::Null,
    }
}

fn optional_u32_value(value: Option<u32>) -> (r: Json)
    ensures
        r@ == match value {
            Some(n) => number_view(n as int),
            None => JsonView::Null,
        },
{
    match value {
        Some(n) => Json::Number(Number::Unsigned(n as u64)),
        None => Json::Null,
    }
}

fn labels_value(labels: &Vec<String>) -> (r: Json)
    ensures
        r@ == JsonView::Array(
            Seq::new(labels@.len(), |i: int| JsonView::Text(text::texts(labels@)[i])),
        ),
{
    let mut out: Vec<Json> = Vec::new();
    let mut i: usize = 0;
    while i < labels.len()
        invariant
            i <= labels@.len(),
            out@.len() == i,
            forall|k: int| 0 <= k < i ==> (#[trigger] out@[k])@ == JsonView::Text(labels@[k]@),
        decreases labels@.len() - i,
    {
        out.push(Json::Text(labels[i].clone()));
        i = i + 1;
    }
    let r = Json::Array(out);
    proof {
        json::lemma_json_view(r);
        assert(r@->Array_0 =~= Seq::new(
            labels@.len(),
            |i: int| JsonView::Text(text::texts(labels@)[i]),
        ));
    }
    r
}

fn blockers_value(issue: &Issue) -> (r: Json)
    ensures
        r@ == JsonView::Array(
            Seq::new(issue@.blocked_by.len(), |i: int| blocker_value(issue@.blocked_by[i])),
        ),
{
    let mut out: Vec<Json> = Vec::new();
    let mut i: usize = 0;
    while i < issue.blocked_by.len()
        invariant
            i <= issue.blocked_by@.len(),
            out@.len() == i,
            forall|k: int|
                0 <= k < i ==> (#[trigger] out@[k])@ == blocker_value(issue.blocked_by@[k]@),
        decreases issue.blocked_by@.len() - i,
    {
        let blocker: &BlockerRef = &issue.blocked_by[i];
        let members = json::and_member(
            json::no_members(),
            "id",
            json::text_value(blocker.id.as_str()),
        );
        let members = json::and_member(
            members,
            "identifier",
            json::text_value(blocker.identifier.as_str()),
        );
        let members = json::and_member(members, "state", json::text_value(blocker.state.as_str()));
        out.push(json::object(members));
        i = i + 1;
    }
    let r = Json::Array(out);
    proof {
        json::lemma_json_view(r);
        assert(r@->Array_0 =~= Seq::new(
            issue@.blocked_by.len(),
            |i: int| blocker_value(issue@.blocked_by[i]),
        ));
    }
    r
}

/// What a template can name.
pub fn build_context(issue: &Issue, attempt: Option<u32>) -> (r: Json)
    ensures
        r@ == template_context(issue@, attempt),
{
    let members = json::and_member(json::no_members(), "id", json::text_value(issue.id.as_str()));
    let members = json::and_member(
        members,
        "identifier",
        json::text_value(issue.identifier.as_str()),
    );
    let members = json::and_member(members, "title", json::text_value(issue.title.as_str()));
    let members = json::and_member(
        members,
        "description",
        optional_string_value(&issue.description),
    );
    let members = json::and_member(members, "priority", optional_i32_value(issue.priority));
    let members = json::and_member(members, "state", json::text_value(issue.state.as_str()));
    let members = json::and_member(
        members,
        "branch_name",
        optional_string_value(&issue.branch_name),
    );
    let members = json::and_member(members, "url", optional_string_value(&issue.url));
    let members = json::and_member(members, "labels", labels_value(&issue.labels));
    let members = json::and_member(members, "blocked_by", blockers_value(issue));
    let members = json::and_member(
        members,
        "created_at",
        optional_string_value(&issue.created_at),
    );
    let members = json::and_member(
        members,
        "updated_at",
        optional_string_value(&issue.updated_at),
    );
    let context = json::and_member(json::no_members(), "issue", json::object(members));
    let context = json::and_member(context, "attempt", optional_u32_value(attempt));
    json::object(context)
}

/// A value of the Liquid crate.
#[verifier::external_type_specification]
#[verifier::external_body]
pub struct ExLiquidValue(Value);

/// The same value as a `liquid::model::Value`, variant for variant. Nothing is claimed of the
/// result.
#[verifier::external_body]
fn to_liquid(j: &Json) -> (r: Value) {
    match j {
        Json::Null => Value::Nil,
        Json::Bool(b) => Value::scalar(*b),
        Json::Number(Number::Unsigned(n)) => Value::scalar(*n as i64),
        Json::Number(Number::Negative(n)) => Value::scalar(*n),
        Json::Number(Number::Float(t)) => Value::scalar(t.clone()),
        Json::Text(s) => Value::scalar(s.clone()),
        Json::Array(v) => Value::Array(v.iter().map(to_liquid).collect()),
        Json::Object(m) => Value::Object(m.iter().map(|(k, v)| (k.clone().into(), to_liquid(v))).collect()),
    }
}

/// Why a text is no template, as `liquid` says; nothing where it is one.
pub uninterp spec fn template_fault(template: Seq<char>) -> Option<Seq<char>>;

/// What `liquid` may give for a template in a context: the text, or why there is none. There may be
/// several outcomes, for a template can ask for the current date, and can show an object, whose
/// members come in no fixed order.
pub uninterp spec fn may_render(
    template: Seq<char>,
    context: JsonView,
    outcome: Result<Seq<char>, Seq<char>>,
) -> bool;

/// An issue of which no text is a large number, and no text and no list is so long that its length
/// is one.
pub open spec fn is_calm(issue: IssueView) -> bool {
    &&& template::is_calm_text(issue.id)
    &&& template::is_calm_text(issue.identifier)
    &&& template::is_calm_text(issue.title)
    &&& is_calm_opt(issue.description)
    &&& template::is_calm_text(issue.state)
    &&& is_calm_opt(issue.branch_name)
    &&& is_calm_opt(issue.url)
    &&& is_calm_opt(issue.created_at)
    &&& is_calm_opt(issue.updated_at)
    &&& issue.labels.len() <= template::MAX_LENGTH
    &&& forall|i: int|
        0 <= i < issue.labels.len() ==> template::is_calm_text(#[trigger] issue.labels[i])
    &&& issue.blocked_by.len() <= template::MAX_LENGTH
    &&& forall|i: int|
        0 <= i < issue.blocked_by.len() ==> is_calm_blocker(#[trigger] issue.blocked_by[i])
}

/// A text that is no large number, or none.
pub open spec fn is_calm_opt(text: Option<Seq<char>>) -> bool {
    match text {
        Some(text) => template::is_calm_text(text),
        None => true,
    }
}

/// The short form of an issue, with texts that are no large numbers.
pub open spec fn is_calm_blocker(blocker: BlockerView) -> bool {
    template::is_calm_text(blocker.id) && template::is_calm_text(blocker.identifier)
        && template::is_calm_text(blocker.state)
}

fn calm_opt(text: &Option<String>) -> (r: bool)
    ensures
        r == is_calm_opt(text::opt_text(*text)),
{
    match text {
        Some(text) => template::calm_text(text.as_str()),
        None => true,
    }
}

fn calm_labels(labels: &Vec<String>) -> (r: bool)
    ensures
        r == (labels@.len() <= template::MAX_LENGTH && forall|i: int|
            0 <= i < labels@.len() ==> template::is_calm_text((#[trigger] text::texts(labels@)[i]))),
{
    if labels.len() > template::MAX_LENGTH {
        return false;
    }
    let mut i: usize = 0;
    while i < labels.len()
        invariant
            i <= labels@.len(),
            forall|k: int|
                0 <= k < i ==> template::is_calm_text((#[trigger] text::texts(labels@)[k])),
        decreases labels@.len() - i,
    {
        if !template::calm_text(labels[i].as_str()) {
            proof {
                assert(!template::is_calm_text(text::texts(labels@)[i as int]));
            }
            return false;
        }
        i = i + 1;
    }
    true
}

fn calm_blockers(blockers: &Vec<BlockerRef>) -> (r: bool)
    ensures
        r == (blockers@.len() <= template::MAX_LENGTH && forall|i: int|
            0 <= i < blockers@.len() ==> is_calm_blocker(
                (#[trigger] domain::blockers(blockers@)[i]),
            )),
{
    if blockers.len() > template::MAX_LENGTH {
        return false;
    }
    let mut i: usize = 0;
    while i < blockers.len()
        invariant
            i <= blockers@.len(),
            forall|k: int|
                0 <= k < i ==> is_calm_blocker((#[trigger] domain::blockers(blockers@)[k])),
        decreases blockers@.len() - i,
    {
        let blocker = &blockers[i];
        if !(template::calm_text(blocker.id.as_str()) && template::calm_text(
            blocker.identifier.as_str(),
        ) && template::calm_text(blocker.state.as_str())) {
            proof {
                assert(!is_calm_blocker(domain::blockers(blockers@)[i as int]));
            }
            return false;
        }
        i = i + 1;
    }
    true
}

fn calm(issue: &Issue) -> (r: bool)
    ensures
        r == is_calm(issue@),
{
    template::calm_text(issue.id.as_str()) && template::calm_text(issue.identifier.as_str())
        && template::calm_text(issue.title.as_str()) && calm_opt(&issue.description)
        && template::calm_text(issue.state.as_str()) && calm_opt(&issue.branch_name) && calm_opt(
        &issue.url,
    ) && calm_opt(&issue.created_at) && calm_opt(&issue.updated_at) && calm_labels(&issue.labels)
        && calm_blockers(&issue.blocked_by)
}

/// The context is that of an issue for which the template can be rendered without harm.
pub open spec fn is_safe(template: Seq<char>, context: JsonView) -> bool {
    exists|issue: IssueView, attempt: Option<u32>|
        context == #[trigger] template_context(issue, attempt) && template::is_harmless(
            template,
            is_calm(issue),
        )
}

/// `liquid::ParserBuilder::with_stdlib`, `liquid::Parser::parse` and `liquid::Template::render`: the
/// text of a template in a context, or the text of the error. The contract names the outcomes that
/// there may be, by the template and the context; and it names why parsing fails, which is a function
/// of the template alone. It says that a template which is known to fail gives an error. Which of the
/// outcomes comes for another one is left unsaid. `liquid` panics on some templates; those are among
/// the ones that are not harmless.
#[verifier::external_body]
fn render_template(template: &str, context: &Json) -> (r: Result<String, String>)
    requires
        is_safe(template@, context@),
    ensures
        template::is_failing(template@) ==> r is Err,
        match r {
            Ok(text) => {
                &&& may_render(template@, context@, Ok(text@))
                &&& template_fault(template@) is None
            },
            Err(error) => {
                &&& may_render(template@, context@, Err(error@))
                &&& template_fault(template@) is None || template_fault(template@) == Some(error@)
            },
        },
{
    let globals = to_liquid(context).into_object().unwrap_or_default();
    let parser = liquid::ParserBuilder::with_stdlib().build();
    match parser.and_then(|p| p.parse(template)).and_then(|t| t.render(&globals)) {
        Ok(text) => Ok(text),
        Err(error) => Err(error.to_string()),
    }
}

/// The prompt once a template has been rendered: its text, or why it has none.
pub fn rendered_prompt(rendered: Result<String, String>) -> (r: Result<String, SymphonyError>)
    ensures
        match rendered {
            Ok(prompt) => r matches Ok(text) && text@ == prompt@,
            Err(message) => r matches Err(error) && error@ == ErrorView::PromptRender(message@),
        },
{
    match rendered {
        Ok(prompt) => Ok(prompt),
        Err(message) => Err(SymphonyError::PromptRender(message)),
    }
}

/// A result is what `liquid` may give for a template and an issue, an error where the template is
/// known to fail, and the reason where parsing the template fails.
pub open spec fn rendered_from(
    template: Seq<char>,
    issue: IssueView,
    attempt: Option<u32>,
    r: Result<String, SymphonyError>,
) -> bool {
    &&& match r {
        Ok(prompt) => may_render(template, template_context(issue, attempt), Ok(prompt@)),
        Err(error) => error@ is PromptRender && may_render(
            template,
            template_context(issue, attempt),
            Err(error@->PromptRender_0),
        ),
    }
    &&& template::is_failing(template) ==> r is Err
    &&& template_fault(template) matches Some(fault) ==> (r matches Err(error) && error@
        == ErrorView::PromptRender(fault))
}

/// The prompt for a turn after the first.
pub open spec fn continuation_prompt(identifier: Seq<char>, turn_number: u32) -> Seq<char> {
    "Continue working on issue "@ + identifier
        + ". Check the current state and make further progress. This is turn "@ + text::decimal(
        turn_number as nat,
    ) + "."@
}

/// A template that a prompt can be made from for an issue without harm.
pub open spec fn can_render(template: Seq<char>, issue: IssueView) -> bool {
    text::blank(template) || template::is_harmless(text::trimmed(template), is_calm(issue))
}

impl PromptBuilder {
    /// Tells whether the prompt for a turn can be built from a template without harm. Only the first
    /// turn asks for the template.
    pub fn can_build(&self, template: &str, issue: &Issue, turn_number: u32) -> (r: bool)
        ensures
            r == (turn_number != 1 || can_render(template@, issue@)),
    {
        if turn_number != 1 || text::is_blank(template) {
            return true;
        }
        match template::judge(text::trim(template), calm(issue)) {
            Verdict::Unsure => false,
            _ => true,
        }
    }

    /// The prompt of a template for an issue. A blank template stands for the default prompt. The
    /// template is one that can be rendered without harm.
    pub fn render(&self, template: &str, issue: &Issue, attempt: Option<u32>) -> (r: Result<
        String,
        SymphonyError,
    >)
        requires
            can_render(template@, issue@),
        ensures
            text::blank(template@) ==> (r matches Ok(prompt) && prompt@ == DEFAULT_PROMPT@),
            !text::blank(template@) ==> rendered_from(
                text::trimmed(template@),
                issue@,
                attempt,
                r,
            ),
    {
        let trimmed = text::trim(template);
        proof {
            text::lemma_trimmed_empty(template@);
        }
        if trimmed.is_empty() {
            return Ok(DEFAULT_PROMPT.to_owned());
        }
        let context = build_context(issue, attempt);
        proof {
            assert(is_safe(trimmed@, template_context(issue@, attempt)));
        }
        rendered_prompt(render_template(trimmed, &context))
    }

    /// The prompt for a turn: the template's for the first one, a reminder for the others. For the
    /// first one the template is one that can be rendered without harm.
    pub fn build_prompt(
        &self,
        template: &str,
        issue: &Issue,
        attempt: Option<u32>,
        turn_number: u32,
    ) -> (r: Result<String, SymphonyError>)
        requires
            turn_number == 1 ==> can_render(template@, issue@),
        ensures
            turn_number != 1 ==> (r matches Ok(prompt) && prompt@ == continuation_prompt(
                issue@.identifier,
                turn_number,
            )),
            turn_number == 1 && text::blank(template@) ==> (r matches Ok(prompt) && prompt@
                == DEFAULT_PROMPT@),
            turn_number == 1 && !text::blank(template@) ==> rendered_from(
                text::trimmed(template@),
                issue@,
                attempt,
                r,
            ),
    {
        if turn_number == 1 {
            return self.render(template, issue, attempt);
        }
        let mut prompt = "Continue working on issue ".to_owned();
        prompt.append(issue.identifier.as_str());
        prompt.append(". Check the current state and make further progress. This is turn ");
        prompt.append(text::u64_text(turn_number as u64).as_str());
        prompt.append(".");
        Ok(prompt)
    }
}

/// A template that prints a name which is neither the issue nor the attempt, outside of every tag,
/// gives no prompt but the error of the rendering.
pub proof fn lemma_unknown_variable_is_refused(
    before: Seq<char>,
    name: Seq<char>,
    rest: Seq<char>,
    issue: IssueView,
    attempt: Option<u32>,
    r: Result<String, SymphonyError>,
)
    requires
        forall|k: int| 0 <= k < before.len() ==> (#[trigger] before[k]) != '{',
        template::is_unknown_name(name),
        template::is_harmless(before + template::output_of(name) + rest, is_calm(issue)),
        rendered_from(before + template::output_of(name) + rest, issue, attempt, r),
    ensures
        r matches Err(error) && error@ is PromptRender,
{
    template::lemma_unknown_variable_fails(before, name, rest, is_calm(issue));
}

/// A template with an output that never ends, after text alone, gives no prompt but the error of
/// the rendering.
pub proof fn lemma_unended_output_is_refused(
    before: Seq<char>,
    rest: Seq<char>,
    issue: IssueView,
    attempt: Option<u32>,
    r: Result<String, SymphonyError>,
)
    requires
        forall|k: int| 0 <= k < before.len() ==> (#[trigger] before[k]) != '{',
        template::never_closes(rest, 0, false),
        rest.len() > 0 ==> rest[0] != '-',
        rendered_from(before + Seq::empty().push('{').push('{') + rest, issue, attempt, r),
    ensures
        r matches Err(error) && error@ is PromptRender,
{
    template::lemma_output_without_end_fails(before, rest);
}

/// A template reads the data of an issue under the names of its fields.
pub proof fn lemma_template_reads_issue(issue: IssueView)
    ensures
        ({
            let value = issue_value(issue);
            &&& json::member(value, "id"@) == Some(JsonView::Text(issue.id))
            &&& json::member(value, "identifier"@) == Some(JsonView::Text(issue.identifier))
            &&& json::member(value, "title"@) == Some(JsonView::Text(issue.title))
            &&& json::member(value, "state"@) == Some(JsonView::Text(issue.state))
            &&& issue.description is Some ==> json::member(value, "description"@) == Some(
                JsonView::Text(issue.description->0),
            )
            &&& issue.description is None ==> json::member(value, "description"@) == Some(
                JsonView::Null,
            )
            &&& issue.branch_name is Some ==> json::member(value, "branch_name"@) == Some(
                JsonView::Text(issue.branch_name->0),
            )
            &&& issue.branch_name is None ==> json::member(value, "branch_name"@) == Some(
                JsonView::Null,
            )
            &&& issue.url is Some ==> json::member(value, "url"@) == Some(
                JsonView::Text(issue.url->0),
            )
            &&& issue.url is None ==> json::member(value, "url"@) == Some(JsonView::Null)
            &&& issue.created_at is Some ==> json::member(value, "created_at"@) == Some(
                JsonView::Text(issue.created_at->0),
            )
            &&& issue.created_at is None ==> json::member(value, "created_at"@) == Some(
                JsonView::Null,
            )
            &&& issue.updated_at is Some ==> json::member(value, "updated_at"@) == Some(
                JsonView::Text(issue.updated_at->0),
            )
            &&& issue.updated_at is None ==> json::member(value, "updated_at"@) == Some(
                JsonView::Null,
            )
            &&& issue.priority is Some && issue.priority->0 >= 0 ==> json::member(value, "priority"@)
                == Some(JsonView::Number(NumberView::Unsigned(issue.priority->0 as u64)))
            &&& issue.priority is Some && issue.priority->0 < 0 ==> json::member(value, "priority"@)
                == Some(JsonView::Number(NumberView::Negative(issue.priority->0 as i64)))
            &&& issue.priority is None ==> json::member(value, "priority"@) == Some(JsonView::Null)
        }),
{
    broadcast use {json::lemma_member_push, json::lemma_no_member};

    reveal_strlit("id");
    reveal_strlit("identifier");
    reveal_strlit("title");
    reveal_strlit("description");
    reveal_strlit("priority");
    reveal_strlit("state");
    reveal_strlit("branch_name");
    reveal_strlit("url");
    reveal_strlit("labels");
    reveal_strlit("blocked_by");
    reveal_strlit("created_at");
    reveal_strlit("updated_at");
    assert("id"@.len() == 2);
    assert("identifier"@.len() == 10);
    assert("title"@.len() == 5);
    assert("description"@.len() == 11);
    assert("priority"@.len() == 8);
    assert("state"@.len() == 5);
    assert("branch_name"@.len() == 11);
    assert("url"@.len() == 3);
    assert("labels"@.len() == 6);
    assert("blocked_by"@.len() == 10);
    assert("created_at"@.len() == 10);
    assert("updated_at"@.len() == 10);
    assert("blocked_by"@[0] == 'b');
    assert("branch_name"@[0] == 'b');
    assert("created_at"@[0] == 'c');
    assert("description"@[0] == 'd');
    assert("identifier"@[0] == 'i');
    assert("state"@[0] == 's');
    assert("title"@[0] == 't');
    assert("updated_at"@[0] == 'u');
}

/// A template reads the labels of an issue in their order.
pub proof fn lemma_template_reads_labels(issue: IssueView, labels: Seq<JsonView>, i: int)
    ensures
        json::member(issue_value(issue), "labels"@) is Some,
        json::member(issue_value(issue), "labels"@)->0 is Array,
        json::member(issue_value(issue), "labels"@) == Some(JsonView::Array(labels))
            ==> labels.len() == issue.labels.len() && (0 <= i < labels.len() ==> labels[i]
            == JsonView::Text(issue.labels[i])),
{
    broadcast use {json::lemma_member_push, json::lemma_no_member};

    reveal_strlit("id");
    reveal_strlit("identifier");
    reveal_strlit("title");
    reveal_strlit("description");
    reveal_strlit("priority");
    reveal_strlit("state");
    reveal_strlit("branch_name");
    reveal_strlit("url");
    reveal_strlit("labels");
    reveal_strlit("blocked_by");
    reveal_strlit("created_at");
    reveal_strlit("updated_at");
    assert("id"@.len() == 2);
    assert("identifier"@.len() == 10);
    assert("title"@.len() == 5);
    assert("description"@.len() == 11);
    assert("priority"@.len() == 8);
    assert("state"@.len() == 5);
    assert("branch_name"@.len() == 11);
    assert("url"@.len() == 3);
    assert("labels"@.len() == 6);
    assert("blocked_by"@.len() == 10);
    assert("created_at"@.len() == 10);
    assert("updated_at"@.len() == 10);
    assert("blocked_by"@[0] == 'b');
    assert("branch_name"@[0] == 'b');
    assert("created_at"@[0] == 'c');
    assert("description"@[0] == 'd');
    assert("identifier"@[0] == 'i');
    assert("state"@[0] == 's');
    assert("title"@[0] == 't');
    assert("updated_at"@[0] == 'u');
}

/// A template reads the issues that block an issue in their order, each with its id, its identifier
/// and its state.
pub proof fn lemma_template_reads_blockers(issue: IssueView, blockers: Seq<JsonView>, i: int)
    ensures
        json::member(issue_value(issue), "blocked_by"@) is Some,
        json::member(issue_value(issue), "blocked_by"@)->0 is Array,
        json::member(issue_value(issue), "blocked_by"@) == Some(JsonView::Array(blockers))
            ==> blockers.len() == issue.blocked_by.len() && (0 <= i < blockers.len()
            ==> json::member(blockers[i], "id"@) == Some(JsonView::Text(issue.blocked_by[i].id))
            && json::member(blockers[i], "identifier"@) == Some(
            JsonView::Text(issue.blocked_by[i].identifier),
        ) && json::member(blockers[i], "state"@) == Some(
            JsonView::Text(issue.blocked_by[i].state),
        )),
{
    broadcast use {json::lemma_member_push, json::lemma_no_member};

    reveal_strlit("id");
    reveal_strlit("identifier");
    reveal_strlit("title");
    reveal_strlit("description");
    reveal_strlit("priority");
    reveal_strlit("state");
    reveal_strlit("branch_name");
    reveal_strlit("url");
    reveal_strlit("labels");
    reveal_strlit("blocked_by");
    reveal_strlit("created_at");
    reveal_strlit("updated_at");
    assert("id"@.len() == 2);
    assert("identifier"@.len() == 10);
    assert("title"@.len() == 5);
    assert("description"@.len() == 11);
    assert("priority"@.len() == 8);
    assert("state"@.len() == 5);
    assert("branch_name"@.len() == 11);
    assert("url"@.len() == 3);
    assert("labels"@.len() == 6);
    assert("blocked_by"@.len() == 10);
    assert("created_at"@.len() == 10);
    assert("updated_at"@.len() == 10);
    assert("blocked_by"@[0] == 'b');
    assert("branch_name"@[0] == 'b');
    assert("created_at"@[0] == 'c');
    assert("description"@[0] == 'd');
    assert("identifier"@[0] == 'i');
    assert("state"@[0] == 's');
    assert("title"@[0] == 't');
    assert("updated_at"@[0] == 'u');
}

/// A template reads the issue under `issue`, and under `attempt` the number of a retry.
pub proof fn lemma_template_reads_attempt(issue: IssueView, attempt: u32)
    ensures
        json::member(template_context(issue, None), "issue"@) == Some(issue_value(issue)),
        json::member(template_context(issue, Some(attempt)), "issue"@) == Some(issue_value(issue)),
        json::member(template_context(issue, Some(attempt)), "attempt"@) == Some(
            JsonView::Number(NumberView::Unsigned(attempt as u64)),
        ),
        json::member(template_context(issue, None), "attempt"@) == Some(JsonView::Null),
{
    broadcast use {json::lemma_member_push, json::lemma_no_member};

    reveal_strlit("issue");
    reveal_strlit("attempt");
    assert("issue"@.len() == 5);
    assert("attempt"@.len() == 7);
}

/// The prompt for a later turn names the issue and ends with the number of the turn.
pub proof fn lemma_reminder_names_issue_and_turn(identifier: Seq<char>, turn_number: u32)
    ensures
        ({
            let prompt = continuation_prompt(identifier, turn_number);
            let start = "Continue working on issue "@;
            let end = ". Check the current state and make further progress. This is turn "@
                + text::decimal(turn_number as nat) + "."@;
            &&& prompt.len() == start.len() + identifier.len() + end.len()
            &&& prompt.subrange(0, start.len() as int) == start
            &&& prompt.subrange(start.len() as int, (start.len() + identifier.len()) as int)
                == identifier
            &&& prompt.subrange((start.len() + identifier.len()) as int, prompt.len() as int) == end
        }),
{
    let prompt = continuation_prompt(identifier, turn_number);
    let start = "Continue working on issue "@;
    let end = ". Check the current state and make further progress. This is turn "@
        + text::decimal(turn_number as nat) + "."@;
    assert(prompt =~= start + identifier + end);
}

/// A blank template can always be rendered, and any other one exactly where its trimmed text does no
/// harm.
pub proof fn lemma_blank_template_is_harmless(template: Seq<char>, issue: IssueView)
    ensures
        text::trimmed(template).len() == 0 ==> can_render(template, issue),
        text::trimmed(template).len() > 0 ==> (can_render(template, issue)
            <==> template::is_harmless(text::trimmed(template), is_calm(issue))),
{
    text::lemma_trimmed_empty(template);
}

/// A prompt is what the template gives for the issue and the attempt, and a failure says why there is
/// none.
pub proof fn lemma_prompt_is_of_its_template(
    template: Seq<char>,
    issue: IssueView,
    attempt: Option<u32>,
    r: Result<String, SymphonyError>,
    message: Seq<char>,
)
    requires
        rendered_from(template, issue, attempt, r),
    ensures
        r is Ok ==> may_render(template, template_context(issue, attempt), Ok(r->Ok_0@)),
        r is Ok ==> template_fault(template) is None && !template::is_failing(template),
        r is Err && r->Err_0@ == ErrorView::PromptRender(message) ==> may_render(
            template,
            template_context(issue, attempt),
            Err(message),
        ),
        r is Err ==> r->Err_0@ is PromptRender,
        template_fault(template) == Some(message) ==> r is Err && r->Err_0@
            == ErrorView::PromptRender(message),
{
}

} // verus!
