//! Starting and stopping the program.

use vstd::prelude::*;
use vstd::string::*;

use crate::dashboard::render;
use crate::error::{ErrorView, SymphonyError};
use crate::text;

verus! {

/// Starts bright red.
pub const ANSI_BRIGHT_RED: &'static str = "\x1b[1;31m";

/// Ends colours.
pub const ANSI_RESET: &'static str = "\x1b[0m";

/// Where the workflow is read from, unless given.
pub const DEFAULT_WORKFLOW_PATH: &'static str = "./WORKFLOW.md";

/// Where the server listens, unless configured.
pub const DEFAULT_SERVER_HOST: &'static str = "127.0.0.1";

/// The program starts only when it has been acknowledged that the usual guardrails are missing.
pub fn check_acknowledgement(acknowledged: bool) -> (r: Result<(), SymphonyError>)
    ensures
        if acknowledged {
            r is Ok
        } else {
            r matches Err(e) && e@ == ErrorView::ConfigValidation(
                "missing required guardrails acknowledgement flag"@,
            )
        },
{
    if acknowledged {
        Ok(())
    } else {
        Err(
            SymphonyError::ConfigValidation(
                "missing required guardrails acknowledgement flag".to_owned(),
            ),
        )
    }
}

/// A root for the log that is given must not be blank.
pub fn validate_logs_root(logs_root: Option<&str>) -> (r: Result<Option<&str>, SymphonyError>)
    ensures
        if logs_root is Some && text::blank(logs_root->0@) {
            r matches Err(e) && e@ == ErrorView::ConfigValidation("--logs-root must not be empty"@)
        } else {
            r matches Ok(root) && text::opt_str(root) == text::opt_str(logs_root)
        },
{
    match logs_root {
        Some(root) => if text::is_blank(root) {
            Err(SymphonyError::ConfigValidation("--logs-root must not be empty".to_owned()))
        } else {
            Ok(Some(root))
        },
        None => Ok(None),
    }
}

/// The port of the server: the one of the command line, else the configured one.
pub fn server_port(given: Option<u16>, configured: Option<u16>) -> (r: Option<u16>)
    ensures
        r == (if given is Some {
            given
        } else {
            configured
        }),
{
    match given {
        Some(port) => Some(port),
        None => configured,
    }
}

/// The host of the server.
pub fn server_host(configured: &Option<String>) -> (r: String)
    ensures
        r@ == (match *configured {
            Some(host) => host@,
            None => DEFAULT_SERVER_HOST@,
        }),
{
    match configured {
        Some(host) => host.clone(),
        None => DEFAULT_SERVER_HOST.to_owned(),
    }
}

/// The length of the longest line.
pub open spec fn widest(lines: Seq<Seq<char>>) -> nat
    decreases lines.len(),
{
    if lines.len() == 0 {
        0
    } else if widest(lines.drop_last()) >= lines.last().len() {
        widest(lines.drop_last())
    } else {
        lines.last().len()
    }
}

/// A line in a frame of a width.
pub open spec fn boxed_line(line: Seq<char>, width: nat) -> Seq<char> {
    "│ "@ + line + render::repeated(' ', render::missing(width, line.len())) + " │"@
}

/// Lines in a red frame.
pub open spec fn boxed(lines: Seq<Seq<char>>) -> Seq<char> {
    let width = widest(lines);
    let rule = render::repeated('─', width + 2);
    ANSI_BRIGHT_RED@ + "┌"@ + rule + "┐\n"@ + text::join(
        Seq::new(lines.len(), |i: int| boxed_line(lines[i], width)),
        "\n"@,
    ) + "\n└"@ + rule + "┘"@ + ANSI_RESET@
}

fn widest_line(lines: &Vec<String>) -> (r: usize)
    ensures
        r == widest(text::texts(lines@)),
{
    let ghost all = text::texts(lines@);
    let mut width: usize = 0;
    let mut i: usize = 0;
    while i < lines.len()
        invariant
            i <= lines@.len(),
            all == text::texts(lines@),
            width == widest(all.take(i as int)),
        decreases lines@.len() - i,
    {
        let len: usize = text::to_chars(lines[i].as_str()).len();
        proof {
            assert(all.take(i + 1).drop_last() =~= all.take(i as int));
        }
        if len > width {
            width = len;
        }
        i = i + 1;
    }
    proof {
        assert(all.take(all.len() as int) =~= all);
    }
    width
}

fn boxed_row(line: &str, width: usize) -> (r: String)
    ensures
        r@ == boxed_line(line@, width as nat),
{
    let len: usize = text::to_chars(line).len();
    let padding: usize = if len >= width {
        0
    } else {
        width - len
    };
    let mut out: String = "│ ".to_owned();
    out.append(line);
    out.append(render::repeat(' ', padding).as_str());
    out.append(" │");
    out
}

fn boxed_text(lines: &Vec<String>) -> (r: String)
    requires
        widest(text::texts(lines@)) + 2 <= usize::MAX,
    ensures
        r@ == boxed(text::texts(lines@)),
{
    let ghost all = text::texts(lines@);
    let width: usize = widest_line(lines);
    let ghost rows = Seq::new(all.len(), |i: int| boxed_line(all[i], width as nat));
    let mut body: Vec<String> = text::no_texts();
    let mut i: usize = 0;
    proof {
        assert(rows.take(0) =~= Seq::<Seq<char>>::empty());
    }
    while i < lines.len()
        invariant
            i <= lines@.len(),
            all == text::texts(lines@),
            rows == Seq::new(all.len(), |k: int| boxed_line(all[k], width as nat)),
            text::texts(body@) == rows.take(i as int),
        decreases lines@.len() - i,
    {
        text::push_text(&mut body, boxed_row(lines[i].as_str(), width));
        proof {
            assert(rows.take(i + 1) =~= rows.take(i as int).push(rows[i as int]));
        }
        i = i + 1;
    }
    proof {
        assert(rows.take(rows.len() as int) =~= rows);
    }
    let rule: String = render::repeat('─', width + 2);
    let mut out: String = text::joined(ANSI_BRIGHT_RED, "┌");
    out.append(rule.as_str());
    out.append("┐\n");
    out.append(text::join_lines(&body).as_str());
    out.append("\n└");
    out.append(rule.as_str());
    out.append("┘");
    out.append(ANSI_RESET);
    out
}

/// The lines of the warning.
pub open spec fn banner_lines() -> Seq<Seq<char>> {
    Seq::empty().push("Symphony is an engineering preview."@).push(
        "Codex will run without the usual guardrails."@,
    ).push(
        "It may automatically run AI agents, modify code, and interact with external services."@,
    ).push("Symphony is not a supported product."@).push("To proceed, re-run with:"@).push(
        "  --i-understand-that-this-will-be-running-without-the-usual-guardrails"@,
    )
}

proof fn lemma_banner_width()
    ensures
        widest(banner_lines()) <= 1000,
{
    reveal_strlit("Symphony is an engineering preview.");
    reveal_strlit("Codex will run without the usual guardrails.");
    reveal_strlit(
        "It may automatically run AI agents, modify code, and interact with external services.",
    );
    reveal_strlit("Symphony is not a supported product.");
    reveal_strlit("To proceed, re-run with:");
    reveal_strlit("  --i-understand-that-this-will-be-running-without-the-usual-guardrails");
    let all = banner_lines();
    lemma_widest_is_a_line(all);
}

proof fn lemma_widest_is_a_line(lines: Seq<Seq<char>>)
    ensures
        lines.len() > 0 ==> exists|i: int|
            0 <= i < lines.len() && widest(lines) == (#[trigger] lines[i]).len(),
    decreases lines.len(),
{
    reveal_with_fuel(widest, 2);
    if lines.len() > 0 {
        lemma_widest_is_a_line(lines.drop_last());
        if widest(lines.drop_last()) < lines.last().len() || lines.len() == 1 {
            assert(lines[lines.len() - 1] == lines.last());
        } else {
            let i = choose|i: int|
                0 <= i < lines.drop_last().len() && widest(lines.drop_last())
                    == (#[trigger] lines.drop_last()[i]).len();
            assert(lines[i] == lines.drop_last()[i]);
        }
    }
}

/// The warning that the usual guardrails are missing.
pub fn acknowledgement_banner() -> (r: String)
    ensures
        r@ == boxed(banner_lines()),
{
    let lines = text::and_text(text::no_texts(), "Symphony is an engineering preview.");
    let lines = text::and_text(lines, "Codex will run without the usual guardrails.");
    let lines = text::and_text(
        lines,
        "It may automatically run AI agents, modify code, and interact with external services.",
    );
    let lines = text::and_text(lines, "Symphony is not a supported product.");
    let lines = text::and_text(lines, "To proceed, re-run with:");
    let lines = text::and_text(
        lines,
        "  --i-understand-that-this-will-be-running-without-the-usual-guardrails",
    );
    proof {
        lemma_banner_width();
    }
    boxed_text(&lines)
}

/// Why the program stops.
#[derive(Debug, Clone, Copy, PartialEq, Eq)]
pub enum StopCause {
    Signal,
    OrchestratorEnded,
    ServerEnded,
}

/// One step of stopping the program.
#[derive(Debug, Clone, Copy, PartialEq, Eq)]
pub enum StopStep {
    StopOrchestrator,
    StopServer,
    AwaitOrchestrator,
    AwaitServer,
}

/// The steps of stopping the program, in their order. What has ended by itself is neither stopped
/// nor waited for, and a server that is not there is not waited for.
pub open spec fn stop_steps(cause: StopCause, has_server: bool) -> Seq<StopStep> {
    match cause {
        StopCause::Signal => {
            let steps = Seq::empty().push(StopStep::StopOrchestrator).push(
                StopStep::StopServer,
            ).push(StopStep::AwaitOrchestrator);
            if has_server {
                steps.push(StopStep::AwaitServer)
            } else {
                steps
            }
        },
        StopCause::OrchestratorEnded => if has_server {
            Seq::empty().push(StopStep::StopServer).push(StopStep::AwaitServer)
        } else {
            Seq::empty()
        },
        StopCause::ServerEnded => Seq::empty().push(StopStep::StopOrchestrator).push(
            StopStep::AwaitOrchestrator,
        ),
    }
}

/// The steps of stopping the program.
pub fn plan_stop(cause: StopCause, has_server: bool) -> (r: Vec<StopStep>)
    ensures
        r@ == stop_steps(cause, has_server),
{
    let mut steps: Vec<StopStep> = Vec::new();
    match cause {
        StopCause::Signal => {
            steps.push(StopStep::StopOrchestrator);
            steps.push(StopStep::StopServer);
            steps.push(StopStep::AwaitOrchestrator);
            if has_server {
                steps.push(StopStep::AwaitServer);
            }
        },
        StopCause::OrchestratorEnded => {
            if has_server {
                steps.push(StopStep::StopServer);
                steps.push(StopStep::AwaitServer);
            }
        },
        StopCause::ServerEnded => {
            steps.push(StopStep::StopOrchestrator);
            steps.push(StopStep::AwaitOrchestrator);
        },
    }
    steps
}

/// The error of an orchestrator that ends without being asked to.
pub fn unexpected_orchestrator_exit(result: Result<(), String>) -> (r: SymphonyError)
    ensures
        r@ == ErrorView::Internal(
            match result {
                Ok(_) => "orchestrator exited before shutdown signal"@,
                Err(reason) => reason@,
            },
        ),
{
    match result {
        Ok(_) => SymphonyError::Internal("orchestrator exited before shutdown signal".to_owned()),
        Err(reason) => SymphonyError::Internal(reason),
    }
}

/// The error of a server that ends without being asked to: why its task failed, its own error, or
/// that it ended.
pub fn unexpected_http_server_exit(result: Result<Result<(), SymphonyError>, String>) -> (r:
    SymphonyError)
    ensures
        match result {
            Err(reason) => r@ == ErrorView::Internal(reason@),
            Ok(Err(error)) => r == error,
            Ok(Ok(_)) => r@ == ErrorView::Internal("http server exited before shutdown signal"@),
        },
{
    match result {
        Err(reason) => SymphonyError::Internal(reason),
        Ok(Err(error)) => error,
        Ok(Ok(_)) => SymphonyError::Internal(
            "http server exited before shutdown signal".to_owned(),
        ),
    }
}

/// The widest line is one of the lines, and none is wider.
pub proof fn lemma_widest_is_reached(lines: Seq<Seq<char>>, i: int)
    requires
        0 <= i < lines.len(),
    ensures
        lines[i].len() <= widest(lines),
        exists|k: int| 0 <= k < lines.len() && widest(lines) == (#[trigger] lines[k]).len(),
    decreases lines.len(),
{
    lemma_widest_is_a_line(lines);
    if i < lines.len() - 1 {
        assert(lines.drop_last()[i] == lines[i]);
        lemma_widest_is_reached(lines.drop_last(), i);
    }
}

/// A framed line holds the line, filled up with spaces to the width of the frame.
pub proof fn lemma_framed_line_is_filled_up(line: Seq<char>, width: nat, k: int)
    requires
        line.len() <= width,
    ensures
        boxed_line(line, width).len() == width + 4,
        boxed_line(line, width).subrange(2, 2 + line.len() as int) == line,
        2 + line.len() <= k < 2 + width ==> boxed_line(line, width)[k] == ' ',
{
    reveal_strlit("│ ");
    reveal_strlit(" │");
    assert("│ "@.len() == 2);
    assert(" │"@.len() == 2);
    render::lemma_repeated_is_even(' ', render::missing(width, line.len()), k - 2 - line.len());
    render::lemma_missing_fills_up(width, line.len());
    assert(boxed_line(line, width).subrange(2, 2 + line.len() as int) =~= line);
}

/// The warning names the flag with which the program goes on.
pub proof fn lemma_warning_names_the_flag()
    ensures
        banner_lines().len() == 6,
        banner_lines()[1] == "Codex will run without the usual guardrails."@,
        banner_lines()[5]
            == "  --i-understand-that-this-will-be-running-without-the-usual-guardrails"@,
{
}

/// On a signal all that runs is stopped before anything is waited for; what has ended by itself is
/// neither stopped nor waited for; and a server is waited for only where there is one.
pub proof fn lemma_all_is_stopped(cause: StopCause, has_server: bool)
    ensures
        ({
            let steps = stop_steps(cause, has_server);
            &&& steps.contains(StopStep::StopOrchestrator) <==> !(cause is OrchestratorEnded)
            &&& steps.contains(StopStep::AwaitOrchestrator) <==> !(cause is OrchestratorEnded)
            &&& steps.contains(StopStep::AwaitServer) <==> has_server && !(cause is ServerEnded)
            &&& steps.contains(StopStep::StopServer) <==> cause is Signal || (cause
                is OrchestratorEnded && has_server)
            &&& forall|i: int, j: int|
                0 <= i < j < steps.len() && (steps[i] is AwaitOrchestrator || steps[i]
                    is AwaitServer) ==> !(#[trigger] steps[j] is StopOrchestrator) && !(
                #[trigger] steps[i] is StopServer) && !(steps[j] is StopServer)
        }),
{
    let steps = stop_steps(cause, has_server);
    if cause is Signal {
        assert(steps[0] == StopStep::StopOrchestrator);
        assert(steps[1] == StopStep::StopServer);
        assert(steps[2] == StopStep::AwaitOrchestrator);
        if has_server {
            assert(steps[3] == StopStep::AwaitServer);
        }
    } else if cause is OrchestratorEnded {
        if has_server {
            assert(steps[0] == StopStep::StopServer);
            assert(steps[1] == StopStep::AwaitServer);
        }
    } else {
        assert(steps[0] == StopStep::StopOrchestrator);
        assert(steps[1] == StopStep::AwaitOrchestrator);
    }
}

} // verus!
