//! Workflow files: YAML front matter between `---` lines, then the prompt template.

use vstd::prelude::*;

use crate::domain::WorkflowDefinition;
use crate::error;
use crate::error::{ErrorView, SymphonyError};
use crate::text;
use crate::yaml;
use crate::yaml::{Yaml, YamlView};

verus! {

/// The time within which further changes of a workflow file are ignored.
pub const DEBOUNCE_NANOS: u128 = 1_000_000_000;

/// A workflow that has changed.
#[derive(Debug)]
pub struct WorkflowReloadMsg {
    pub definition: WorkflowDefinition,
}

/// The configuration that says nothing.
pub open spec fn empty_config() -> YamlView {
    YamlView::Mapping(Seq::empty())
}

/// The position of the line that closes the front matter, from line `i` on; the number of lines
/// where none does.
pub open spec fn closing_line(lines: Seq<Seq<char>>, i: int) -> int
    decreases lines.len() - i,
{
    if i < 0 || i >= lines.len() {
        lines.len() as int
    } else if lines[i] == "---"@ {
        i
    } else {
        closing_line(lines, i + 1)
    }
}

/// All lines are blank.
pub open spec fn all_blank(lines: Seq<Seq<char>>) -> bool {
    forall|i: int| 0 <= i < lines.len() ==> text::blank(#[trigger] lines[i])
}

/// The configuration that front matter holds, once it has been read as YAML.
pub open spec fn config_read(parsed: Result<YamlView, Seq<char>>) -> Result<YamlView, ErrorView> {
    match parsed {
        Ok(value) => if value is Mapping {
            Ok(value)
        } else {
            Err(ErrorView::WorkflowFrontMatterNotAMap)
        },
        Err(message) => Err(ErrorView::WorkflowParseError { message }),
    }
}

/// The configuration that the lines of front matter hold.
pub open spec fn front_matter(lines: Seq<Seq<char>>) -> Result<YamlView, ErrorView> {
    if all_blank(lines) {
        Ok(empty_config())
    } else {
        config_read(yaml::yaml_parsed(text::join(lines, "\n"@)))
    }
}

/// The configuration and the prompt template of a workflow file. A file that does not begin with a
/// `---` line is all template.
pub open spec fn workflow_of(content: Seq<char>) -> Result<(YamlView, Seq<char>), ErrorView> {
    let lines = text::lines_of(content);
    if lines.len() == 0 || lines[0] != "---"@ {
        Ok((empty_config(), text::trimmed(content)))
    } else {
        let close = closing_line(lines, 1);
        if close >= lines.len() {
            Err(
                ErrorView::WorkflowParseError {
                    message: "missing closing front matter delimiter"@,
                },
            )
        } else {
            match front_matter(lines.subrange(1, close)) {
                Ok(config) => Ok(
                    (
                        config,
                        text::trimmed(
                            text::join(lines.subrange(close + 1, lines.len() as int), "\n"@),
                        ),
                    ),
                ),
                Err(error) => Err(error),
            }
        }
    }
}

fn empty_config_map() -> (r: Yaml)
    ensures
        r@ == empty_config(),
{
    let r = Yaml::Mapping(Vec::new());
    proof {
        assert(r@->Mapping_0 =~= Seq::<(YamlView, YamlView)>::empty());
    }
    r
}

/// The configuration that front matter holds, once it has been read as YAML: a mapping, and
/// nothing else.
pub fn config_from_front_matter(parsed: Result<Yaml, String>) -> (r: Result<Yaml, SymphonyError>)
    ensures
        error::result_is(
            r,
            config_read(
                match parsed {
                    Ok(value) => Ok(value@),
                    Err(message) => Err(message@),
                },
            ),
        ),
{
    match parsed {
        Ok(value) => match value {
            Yaml::Mapping(entries) => Ok(Yaml::Mapping(entries)),
            _ => Err(SymphonyError::WorkflowFrontMatterNotAMap),
        },
        Err(message) => Err(SymphonyError::WorkflowParseError { message }),
    }
}

fn lines_are_blank(lines: &Vec<String>, from: usize, to: usize) -> (r: bool)
    requires
        from <= to <= lines@.len(),
    ensures
        r == all_blank(text::texts(lines@).subrange(from as int, to as int)),
{
    let ghost part = text::texts(lines@).subrange(from as int, to as int);
    let mut i: usize = from;
    while i < to
        invariant
            from <= i <= to <= lines@.len(),
            part == text::texts(lines@).subrange(from as int, to as int),
            forall|k: int| 0 <= k < i - from ==> text::blank(#[trigger] part[k]),
        decreases to - i,
    {
        if !text::is_blank(lines[i].as_str()) {
            proof {
                assert(part[i - from] == lines@[i as int]@);
            }
            return false;
        }
        i = i + 1;
    }
    true
}

/// The configuration and the prompt template of a workflow file.
pub fn parse_workflow_content(content: &str) -> (r: Result<(Yaml, String), SymphonyError>)
    ensures
        match (r, workflow_of(content@)) {
            (Ok((config, template)), Ok(expected)) => config@ == expected.0 && template@
                == expected.1,
            (Err(error), Err(expected)) => error@ == expected,
            _ => false,
        },
{
    let lines = text::lines(content);
    let ghost all = text::texts(lines@);
    if lines.len() == 0 || !text::same(lines[0].as_str(), "---") {
        return Ok((empty_config_map(), text::trim(content).to_owned()));
    }
    let mut close: usize = 1;
    while close < lines.len() && !text::same(lines[close].as_str(), "---")
        invariant
            all == text::texts(lines@),
            1 <= close <= lines@.len(),
            closing_line(all, 1) == closing_line(all, close as int),
        ensures
            close < lines@.len() ==> all[close as int] == "---"@,
        decreases lines@.len() - close,
    {
        close = close + 1;
    }
    if close >= lines.len() {
        return Err(
            SymphonyError::WorkflowParseError {
                message: "missing closing front matter delimiter".to_owned(),
            },
        );
    }
    let config = if lines_are_blank(&lines, 1, close) {
        empty_config_map()
    } else {
        let source = text::join_range(&lines, 1, close, "\n");
        match config_from_front_matter(yaml::parse(source.as_str())) {
            Ok(config) => config,
            Err(error) => {
                return Err(error);
            },
        }
    };
    let body = text::join_range(&lines, close + 1, lines.len(), "\n");
    Ok((config, text::trim(body.as_str()).to_owned()))
}

/// The workflow of a file, given what reading the file gave.
pub fn load_workflow(path: &str, content: Option<&str>) -> (r: Result<
    WorkflowDefinition,
    SymphonyError,
>)
    ensures
        match content {
            Some(content) => match (r, workflow_of(content@)) {
                (Ok(definition), Ok(expected)) => definition.config@ == expected.0
                    && definition.prompt_template@ == expected.1,
                (Err(error), Err(expected)) => error@ == expected,
                _ => false,
            },
            None => r matches Err(error) && error@ == (ErrorView::MissingWorkflowFile {
                path: path@,
            }),
        },
{
    match content {
        Some(content) => match parse_workflow_content(content) {
            Ok((config, prompt_template)) => Ok(WorkflowDefinition { config, prompt_template }),
            Err(error) => Err(error),
        },
        None => Err(SymphonyError::MissingWorkflowFile { path: path.to_owned() }),
    }
}

/// The name and the directory of a workflow file that is watched, given those of its path.
pub fn watch_target<'a>(name: Option<&'a str>, directory: Option<&'a str>) -> (r: Result<
    (&'a str, &'a str),
    SymphonyError,
>)
    ensures
        match (name, directory) {
            (Some(name), Some(directory)) => r matches Ok(target) && target.0@ == name@
                && target.1@ == directory@,
            (None, _) => r matches Err(error) && error@ == ErrorView::WorkflowWatch(
                "workflow path must include a file name"@,
            ),
            (Some(_), None) => r matches Err(error) && error@ == ErrorView::WorkflowWatch(
                "workflow path must include a parent directory"@,
            ),
        },
{
    match (name, directory) {
        (Some(name), Some(directory)) => Ok((name, directory)),
        (None, _) => Err(
            SymphonyError::WorkflowWatch("workflow path must include a file name".to_owned()),
        ),
        (Some(_), None) => Err(
            SymphonyError::WorkflowWatch(
                "workflow path must include a parent directory".to_owned(),
            ),
        ),
    }
}

/// Tells whether a changed path is the watched file: it is the same path, or has the same file
/// name.
pub fn is_watched_path(
    changed: &str,
    changed_name: Option<&str>,
    watched: &str,
    watched_name: &str,
) -> (r: bool)
    ensures
        r == (changed@ == watched@ || text::opt_str(changed_name) == Some(watched_name@)),
{
    if text::same(changed, watched) {
        return true;
    }
    match changed_name {
        Some(name) => text::same(name, watched_name),
        None => false,
    }
}

/// Lets one change of a burst through.
#[derive(Debug)]
pub struct ReloadGate {
    pub last_nanos: Option<u128>,
}

impl ReloadGate {
    /// A gate that has let nothing through.
    pub fn new() -> (r: Self)
        ensures
            r.last_nanos is None,
    {
        ReloadGate { last_nanos: None }
    }

    /// Lets a change through where the last one was let through a second ago or earlier.
    pub fn let_through(&mut self, now_nanos: u128) -> (r: bool)
        ensures
            r == match old(self).last_nanos {
                Some(last) => now_nanos - last >= DEBOUNCE_NANOS,
                None => true,
            },
            final(self).last_nanos == (if r {
                Some(now_nanos)
            } else {
                old(self).last_nanos
            }),
    {
        if let Some(last) = self.last_nanos {
            if now_nanos < last || now_nanos - last < DEBOUNCE_NANOS {
                return false;
            }
        }
        self.last_nanos = Some(now_nanos);
        true
    }
}

/// A file without front matter is all prompt template, with the empty configuration.
pub proof fn lemma_plain_file_is_all_template(content: Seq<char>)
    requires
        text::lines_of(content).len() == 0 || text::lines_of(content)[0] != "---"@,
    ensures
        workflow_of(content) == Ok::<(YamlView, Seq<char>), ErrorView>(
            (empty_config(), text::trimmed(content)),
        ),
{
}

/// A prompt template neither begins nor ends with white space, and a configuration is a mapping.
pub proof fn lemma_workflow_is_clean(content: Seq<char>)
    ensures
        workflow_of(content) matches Ok(w) ==> w.0 is Mapping && text::trimmed(w.1) == w.1,
{
    let lines = text::lines_of(content);
    text::lemma_trimmed_idempotent(content);
    let close = closing_line(lines, 1);
    text::lemma_trimmed_idempotent(
        text::join(lines.subrange(close + 1, lines.len() as int), "\n"@),
    );
}

proof fn lemma_closing_line(lines: Seq<Seq<char>>, from: int, k: int)
    requires
        0 <= from <= k <= lines.len(),
        k < lines.len() ==> lines[k] == "---"@,
        forall|i: int| from <= i < k ==> (#[trigger] lines[i]) != "---"@,
    ensures
        closing_line(lines, from) == k,
    decreases k - from,
{
    if from < k {
        lemma_closing_line(lines, from + 1, k);
    }
}

/// A file that begins with a `---` line has its configuration in the lines up to the next such line,
/// and its prompt template in the lines behind that one.
pub proof fn lemma_front_matter_is_split_off(
    content: Seq<char>,
    front: Seq<Seq<char>>,
    body: Seq<Seq<char>>,
    config: YamlView,
    message: Seq<char>,
)
    requires
        text::lines_of(content) == seq!["---"@] + front + seq!["---"@] + body,
        forall|i: int| 0 <= i < front.len() ==> (#[trigger] front[i]) != "---"@,
        exists|i: int| 0 <= i < front.len() && text::trimmed(#[trigger] front[i]).len() > 0,
    ensures
        ({
            let parsed = yaml::yaml_parsed(text::join(front, "\n"@));
            let template = text::trimmed(text::join(body, "\n"@));
            &&& parsed == Ok::<YamlView, Seq<char>>(config) && config is Mapping ==> workflow_of(
                content,
            ) == Ok::<(YamlView, Seq<char>), ErrorView>((config, template))
            &&& parsed == Ok::<YamlView, Seq<char>>(config) && !(config is Mapping) ==> workflow_of(
                content,
            ) == Err::<(YamlView, Seq<char>), ErrorView>(ErrorView::WorkflowFrontMatterNotAMap)
            &&& parsed == Err::<YamlView, Seq<char>>(message) ==> workflow_of(content) == Err::<
                (YamlView, Seq<char>),
                ErrorView,
            >(ErrorView::WorkflowParseError { message })
        }),
{
    let lines = text::lines_of(content);
    let k = front.len() as int + 1;
    assert forall|i: int| 1 <= i < k implies (#[trigger] lines[i]) != "---"@ by {
        assert(lines[i] == front[i - 1]);
    }
    assert(lines[k] == "---"@);
    lemma_closing_line(lines, 1, k);
    assert(lines.subrange(1, k) =~= front);
    assert(lines.subrange(k + 1, lines.len() as int) =~= body);
    let i = choose|i: int| 0 <= i < front.len() && text::trimmed(#[trigger] front[i]).len() > 0;
    text::lemma_trimmed_empty(front[i]);
    assert(!text::blank(front[i]));
    assert(!all_blank(front));
}

/// Front matter of blank lines alone is the configuration that says nothing.
pub proof fn lemma_blank_front_matter(
    content: Seq<char>,
    front: Seq<Seq<char>>,
    body: Seq<Seq<char>>,
)
    requires
        text::lines_of(content) == seq!["---"@] + front + seq!["---"@] + body,
        forall|i: int| 0 <= i < front.len() ==> text::trimmed(#[trigger] front[i]).len() == 0,
        forall|i: int| 0 <= i < front.len() ==> (#[trigger] front[i]) != "---"@,
    ensures
        workflow_of(content) == Ok::<(YamlView, Seq<char>), ErrorView>(
            (YamlView::Mapping(Seq::empty()), text::trimmed(text::join(body, "\n"@))),
        ),
{
    let lines = text::lines_of(content);
    let k = front.len() as int + 1;
    assert forall|i: int| 1 <= i < k implies (#[trigger] lines[i]) != "---"@ by {
        assert(lines[i] == front[i - 1]);
    }
    assert(lines[k] == "---"@);
    lemma_closing_line(lines, 1, k);
    assert(lines.subrange(1, k) =~= front);
    assert(lines.subrange(k + 1, lines.len() as int) =~= body);
    assert forall|i: int| 0 <= i < front.len() implies text::blank(#[trigger] front[i]) by {
        text::lemma_trimmed_empty(front[i]);
    }
}

/// Front matter that is never closed is refused.
pub proof fn lemma_open_front_matter_is_refused(content: Seq<char>)
    requires
        text::lines_of(content).len() > 0,
        text::lines_of(content)[0] == "---"@,
        forall|i: int|
            1 <= i < text::lines_of(content).len() ==> (#[trigger] text::lines_of(content)[i])
                != "---"@,
    ensures
        workflow_of(content) == Err::<(YamlView, Seq<char>), ErrorView>(
            ErrorView::WorkflowParseError { message: "missing closing front matter delimiter"@ },
        ),
{
    let lines = text::lines_of(content);
    lemma_closing_line(lines, 1, lines.len() as int);
}

/// A file that does not begin with a `---` line configures nothing.
pub proof fn lemma_plain_file_configures_nothing(content: Seq<char>)
    requires
        text::lines_of(content).len() == 0 || text::lines_of(content)[0] != "---"@,
    ensures
        workflow_of(content) == Ok::<(YamlView, Seq<char>), ErrorView>(
            (YamlView::Mapping(Seq::empty()), text::trimmed(content)),
        ),
{
}

} // verus!
