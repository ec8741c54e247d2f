//! Drawing the panel.

use vstd::prelude::*;
use vstd::string::*;

use crate::domain::{RetryEntry, RetryView};
use crate::json;
use crate::json::{Json, JsonView};
use crate::orchestrator::state::{RunningSnapshot, StateSnapshot};
use crate::text;
use crate::time;
use crate::time::Timestamp;

verus! {

/// How many characters a line of the panel holds.
pub const PANEL_WIDTH: usize = 112;

/// Ends colours.
pub const RESET: &'static str = "\x1b[0m";

/// Starts cyan.
pub const CYAN: &'static str = "\x1b[36m";

/// Starts green.
pub const GREEN: &'static str = "\x1b[32m";

/// Starts yellow.
pub const YELLOW: &'static str = "\x1b[33m";

/// Starts magenta.
pub const MAGENTA: &'static str = "\x1b[35m";

/// Starts bold type.
pub const BOLD: &'static str = "\x1b[1m";

/// A character some times over.
pub open spec fn repeated(c: char, n: nat) -> Seq<char> {
    Seq::new(n, |i: int| c)
}

pub(crate) fn repeat(c: char, n: usize) -> (r: String)
    ensures
        r@ == repeated(c, n as nat),
{
    let mut out: String = String::new();
    let mut i: usize = 0;
    while i < n
        invariant
            i <= n,
            out@ == repeated(c, i as nat),
        decreases n - i,
    {
        out.push(c);
        proof {
            assert(out@ =~= repeated(c, (i + 1) as nat));
        }
        i = i + 1;
    }
    out
}

/// What is missing to a width.
pub open spec fn missing(width: nat, len: nat) -> nat {
    if len >= width {
        0
    } else {
        (width - len) as nat
    }
}

/// A text with spaces behind it, up to a width.
pub open spec fn pad_right(s: Seq<char>, width: nat) -> Seq<char> {
    s + repeated(' ', missing(width, s.len()))
}

/// A text with spaces before it, up to a width.
pub open spec fn pad_left(s: Seq<char>, width: nat) -> Seq<char> {
    repeated(' ', missing(width, s.len())) + s
}

fn spaces_to(width: usize, s: &str) -> (r: String)
    ensures
        r@ == repeated(' ', missing(width as nat, s@.len())),
{
    let len: usize = text::to_chars(s).len();
    if len >= width {
        repeat(' ', 0)
    } else {
        repeat(' ', width - len)
    }
}

fn padded_right(s: &str, width: usize) -> (r: String)
    ensures
        r@ == pad_right(s@, width as nat),
{
    text::joined(s, spaces_to(width, s).as_str())
}

fn padded_left(s: &str, width: usize) -> (r: String)
    ensures
        r@ == pad_left(s@, width as nat),
{
    text::joined(spaces_to(width, s).as_str(), s)
}

/// A text cut to a width. Where there is room for it, three dots stand for what was cut.
pub open spec fn cut(s: Seq<char>, width: nat) -> Seq<char> {
    if s.len() <= width {
        s
    } else if width <= 3 {
        s.take(width as int)
    } else {
        s.take(width - 3) + "..."@
    }
}

/// Cuts a text to a width.
pub fn truncate(value: &str, width: usize) -> (r: String)
    ensures
        r@ == cut(value@, width as nat),
{
    let chars = text::to_chars(value);
    if chars.len() <= width {
        return value.to_owned();
    }
    if width <= 3 {
        let r = text::from_chars(&chars, 0, width);
        proof {
            assert(r@ =~= value@.take(width as int));
        }
        return r;
    }
    let mut r = text::from_chars(&chars, 0, width - 3);
    proof {
        assert(r@ =~= value@.take(width - 3));
    }
    r.append("...");
    r
}

/// A cut text is no longer than the width.
pub proof fn lemma_cut_fits(s: Seq<char>, width: nat)
    ensures
        cut(s, width).len() <= width,
        s.len() <= width ==> cut(s, width) == s,
{
    reveal_strlit("...");
}

/// The position behind the end of a colour sequence.
pub open spec fn after_sequence(s: Seq<char>, i: int) -> int
    decreases s.len() - i,
{
    if i < 0 || i >= s.len() {
        s.len() as int
    } else if s[i] == 'm' {
        i + 1
    } else {
        after_sequence(s, i + 1)
    }
}

/// A colour sequence starts here.
pub open spec fn sequence_at(s: Seq<char>, i: int) -> bool {
    s[i] == '\x1b' && i + 1 < s.len() && s[i + 1] == '['
}

/// How many characters are seen from a position on: all but those of colour sequences.
pub open spec fn visible_from(s: Seq<char>, i: int) -> nat
    decreases s.len() - i,
    when 0 <= i <= s.len()
    via visible_from_decreases
{
    if i == s.len() {
        0
    } else if sequence_at(s, i) {
        visible_from(s, after_sequence(s, i + 2))
    } else {
        1 + visible_from(s, i + 1)
    }
}

#[via_fn]
proof fn visible_from_decreases(s: Seq<char>, i: int) {
    if i < s.len() && sequence_at(s, i) {
        lemma_after_sequence(s, i + 2);
    }
}

proof fn lemma_after_sequence(s: Seq<char>, i: int)
    requires
        0 <= i <= s.len(),
    ensures
        i <= after_sequence(s, i) <= s.len(),
    decreases s.len() - i,
{
    if i < s.len() && s[i] != 'm' {
        lemma_after_sequence(s, i + 1);
    }
}

/// How many characters of a text are seen.
pub fn visible_width(value: &str) -> (r: usize)
    ensures
        r == visible_from(value@, 0),
        r <= value@.len(),
{
    let chars = text::to_chars(value);
    let n: usize = chars.len();
    let mut width: usize = 0;
    let mut i: usize = 0;
    while i < n
        invariant
            chars@ == value@,
            n == chars@.len(),
            i <= n,
            width <= i,
            width + visible_from(value@, i as int) == visible_from(value@, 0),
        decreases n - i,
    {
        if chars[i] == '\x1b' && i + 1 < n && chars[i + 1] == '[' {
            let ghost at = i as int;
            i = i + 2;
            while i < n && chars[i] != 'm'
                invariant
                    chars@ == value@,
                    n == chars@.len(),
                    i <= n,
                    at + 2 <= i,
                    after_sequence(value@, i as int) == after_sequence(value@, at + 2),
                decreases n - i,
            {
                i = i + 1;
            }
            if i < n {
                i = i + 1;
            }
            proof {
                assert(i == after_sequence(value@, at + 2));
            }
        } else {
            width = width + 1;
            i = i + 1;
        }
    }
    width
}

/// A line of the panel: the content in its frame, padded to the panel's width.
pub open spec fn framed(content: Seq<char>) -> Seq<char> {
    "│ "@ + content + repeated(' ', missing(PANEL_WIDTH as nat, visible_from(content, 0))) + " │"@
}

/// A line of the panel.
pub fn panel_line(content: &str) -> (r: String)
    ensures
        r@ == framed(content@),
{
    let width: usize = visible_width(content);
    let padding: usize = if width >= PANEL_WIDTH {
        0
    } else {
        PANEL_WIDTH - width
    };
    let mut out: String = "│ ".to_owned();
    out.append(content);
    out.append(repeat(' ', padding).as_str());
    out.append(" │");
    out
}

/// A rule across the panel.
pub open spec fn rule(left: char, right: char) -> Seq<char> {
    seq![left] + repeated('─', (PANEL_WIDTH + 2) as nat) + seq![right]
}

/// A rule across the panel.
pub fn border(left: char, right: char) -> (r: String)
    ensures
        r@ == rule(left, right),
{
    let mut out: String = String::new();
    out.push(left);
    out.append(repeat('─', PANEL_WIDTH + 2).as_str());
    proof {
        assert(out@ =~= seq![left] + repeated('─', (PANEL_WIDTH + 2) as nat));
    }
    out.push(right);
    proof {
        assert(out@ =~= rule(left, right));
    }
    out
}

/// A duration for display: seconds, minutes and seconds, or hours and minutes.
pub open spec fn duration_text(seconds: nat) -> Seq<char> {
    if seconds < 60 {
        text::decimal(seconds) + "s"@
    } else if seconds / 60 < 60 {
        text::decimal(seconds / 60) + "m "@ + text::decimal(seconds % 60) + "s"@
    } else {
        text::decimal(seconds / 60 / 60) + "h "@ + text::decimal(seconds / 60 % 60) + "m"@
    }
}

/// Milliseconds as seconds, rounded, with halves rounded up.
pub open spec fn rounded_seconds(millis: nat) -> nat {
    (millis + 500) / 1000
}

/// A duration in milliseconds for display.
pub fn format_duration(millis: u64) -> (r: String)
    ensures
        r@ == duration_text(rounded_seconds(millis as nat)),
{
    let seconds: u64 = millis / 1000 + (if millis % 1000 >= 500 {
        1
    } else {
        0
    });
    if seconds < 60 {
        return text::joined(text::u64_text(seconds).as_str(), "s");
    }
    let minutes: u64 = seconds / 60;
    let mut out: String;
    if minutes < 60 {
        out = text::joined(text::u64_text(minutes).as_str(), "m ");
        out.append(text::u64_text(seconds % 60).as_str());
        out.append("s");
    } else {
        out = text::joined(text::u64_text(minutes / 60).as_str(), "h ");
        out.append(text::u64_text(minutes % 60).as_str());
        out.append("m");
    }
    out
}

/// A limit of the rate limits for display, where it is there.
pub open spec fn limit_part(limits: JsonView, key: Seq<char>) -> Seq<Seq<char>> {
    match json::member(limits, key) {
        Some(value) => seq![key + "="@ + json::json_text(value)],
        None => Seq::empty(),
    }
}

/// The rate limits for display: the known limits where any is there, else all that there is.
pub open spec fn limits_text(limits: Option<JsonView>) -> Seq<char> {
    match limits {
        None => "n/a"@,
        Some(value) => {
            let parts = limit_part(value, "remaining"@) + limit_part(value, "limit"@) + limit_part(
                value,
                "reset_seconds"@,
            );
            if parts.len() == 0 {
                cut(json::json_text(value), 36)
            } else {
                cut(text::join(parts, ", "@), 36)
            }
        },
    }
}

fn push_limit(parts: &mut Vec<String>, limits: &Json, key: &str)
    ensures
        text::texts(final(parts)@) == text::texts(old(parts)@) + limit_part(limits@, key@),
{
    let ghost before = text::texts(parts@);
    if let Some(value) = limits.get(key) {
        let mut part: String = text::joined(key, "=");
        part.append(json::to_text(value).as_str());
        let ghost model = part@;
        text::push_text(parts, part);
        proof {
            assert(before.push(model) =~= before + seq![model]);
        }
    } else {
        proof {
            assert(before =~= before + Seq::<Seq<char>>::empty());
        }
    }
}

/// The rate limits for display.
pub fn render_rate_limits(value: &Option<Json>) -> (r: String)
    ensures
        r@ == limits_text(json::opt_json(*value)),
{
    match value {
        None => "n/a".to_owned(),
        Some(limits) => {
            let mut parts: Vec<String> = text::no_texts();
            push_limit(&mut parts, limits, "remaining");
            push_limit(&mut parts, limits, "limit");
            push_limit(&mut parts, limits, "reset_seconds");
            proof {
                let all = limit_part(limits@, "remaining"@) + limit_part(limits@, "limit"@)
                    + limit_part(limits@, "reset_seconds"@);
                assert(text::texts(parts@) =~= all);
                assert(all.subrange(0, all.len() as int) =~= all);
            }
            if parts.len() == 0 {
                truncate(json::to_text(limits).as_str(), 36)
            } else {
                truncate(text::join_range(&parts, 0, parts.len(), ", ").as_str(), 36)
            }
        },
    }
}

/// A label in a colour, and what goes with it.
pub open spec fn labelled(colour: Seq<char>, label: Seq<char>, value: Seq<char>) -> Seq<char> {
    colour + label + RESET@ + ": "@ + value
}

fn labelled_value(colour: &str, label: &str, value: &str) -> (r: String)
    ensures
        r@ == labelled(colour@, label@, value@),
{
    let mut out: String = text::joined(colour, label);
    out.append(RESET);
    out.append(": ");
    out.append(value);
    out
}

/// The line of totals. The throughput is given as text.
pub open spec fn header_text(
    snapshot: StateSnapshot,
    tps: Seq<char>,
    max_agents: u32,
) -> Seq<char> {
    labelled(
        GREEN@,
        "Agents"@,
        text::decimal(snapshot.counts.running as nat) + "/"@ + text::decimal(max_agents as nat),
    ) + "  "@ + labelled(GREEN@, "Throughput"@, tps + " tps"@) + "  "@ + labelled(
        GREEN@,
        "Runtime"@,
        duration_text(rounded_seconds(snapshot.codex_totals.millis_running as nat)),
    ) + "  "@ + labelled(
        GREEN@,
        "Tokens"@,
        "in "@ + text::decimal(snapshot.codex_totals.input_tokens as nat) + " | out "@
            + text::decimal(snapshot.codex_totals.output_tokens as nat) + " | total "@
            + text::decimal(snapshot.codex_totals.total_tokens as nat),
    ) + "  "@ + labelled(
        GREEN@,
        "Rate Limits"@,
        limits_text(json::opt_json(snapshot.rate_limits)),
    )
}

fn render_header(snapshot: &StateSnapshot, tps: &str, max_agents: u32) -> (r: String)
    ensures
        r@ == header_text(*snapshot, tps@, max_agents),
{
    let mut agents: String = text::u64_text(snapshot.counts.running as u64);
    agents.append("/");
    agents.append(text::u64_text(max_agents as u64).as_str());
    let throughput: String = text::joined(tps, " tps");
    let mut tokens: String = text::joined(
        "in ",
        text::u64_text(snapshot.codex_totals.input_tokens).as_str(),
    );
    tokens.append(" | out ");
    tokens.append(text::u64_text(snapshot.codex_totals.output_tokens).as_str());
    tokens.append(" | total ");
    tokens.append(text::u64_text(snapshot.codex_totals.total_tokens).as_str());
    let mut out: String = labelled_value(GREEN, "Agents", agents.as_str());
    out.append("  ");
    out.append(labelled_value(GREEN, "Throughput", throughput.as_str()).as_str());
    out.append("  ");
    out.append(
        labelled_value(
            GREEN,
            "Runtime",
            format_duration(snapshot.codex_totals.millis_running).as_str(),
        ).as_str(),
    );
    out.append("  ");
    out.append(labelled_value(GREEN, "Tokens", tokens.as_str()).as_str());
    out.append("  ");
    out.append(
        labelled_value(
            GREEN,
            "Rate Limits",
            render_rate_limits(&snapshot.rate_limits).as_str(),
        ).as_str(),
    );
    out
}

/// How long a session has run, in milliseconds; nothing where it starts later.
pub open spec fn age_millis(started_at: int, now: int) -> nat {
    if time::whole_millis(now - started_at) < 0 {
        0
    } else {
        time::whole_millis(now - started_at) as nat
    }
}

/// The row of a running session.
pub open spec fn running_row(entry: RunningSnapshot, now: int) -> Seq<char> {
    pad_right(cut(entry.issue_identifier@, 18), 18) + " "@ + pad_right(
        cut(entry.state@, 18),
        18,
    ) + " "@ + pad_left(text::decimal(entry.turn_count as nat), 5) + " "@ + pad_left(
        text::decimal(entry.tokens.total_tokens as nat),
        11,
    ) + " "@ + pad_left(
        duration_text(rounded_seconds(age_millis(entry.started_at@, now))),
        10,
    )
}

/// The row of a running session.
pub fn render_running_row(entry: &RunningSnapshot, now: Timestamp) -> (r: String)
    ensures
        r@ == running_row(*entry, now@),
{
    let millis: i64 = entry.started_at.millis_until(now);
    let age: u64 = if millis < 0 {
        0
    } else {
        millis as u64
    };
    let mut out: String = padded_right(truncate(entry.issue_identifier.as_str(), 18).as_str(), 18);
    out.append(" ");
    out.append(padded_right(truncate(entry.state.as_str(), 18).as_str(), 18).as_str());
    out.append(" ");
    out.append(padded_left(text::u64_text(entry.turn_count as u64).as_str(), 5).as_str());
    out.append(" ");
    out.append(padded_left(text::u64_text(entry.tokens.total_tokens).as_str(), 11).as_str());
    out.append(" ");
    out.append(padded_left(format_duration(age).as_str(), 10).as_str());
    out
}

/// The row of a waiting retry. When it is scheduled is given as text.
pub open spec fn retry_row(entry: RetryView, scheduled: Seq<char>) -> Seq<char> {
    pad_right(cut(entry.issue_identifier, 18), 18) + " "@ + pad_left(
        text::decimal(entry.attempt as nat),
        7,
    ) + "    "@ + pad_right(scheduled, 23) + " "@ + cut(
        match entry.reason {
            Some(reason) => reason,
            None => "n/a"@,
        },
        40,
    )
}

/// The row of a waiting retry.
pub fn render_retry_row(entry: &RetryEntry, scheduled: &str) -> (r: String)
    ensures
        r@ == retry_row(entry@, scheduled@),
{
    let reason = match &entry.reason {
        Some(reason) => reason.as_str(),
        None => "n/a",
    };
    let mut out: String = padded_right(truncate(entry.issue_identifier.as_str(), 18).as_str(), 18);
    out.append(" ");
    out.append(padded_left(text::u64_text(entry.attempt as u64).as_str(), 7).as_str());
    out.append("    ");
    out.append(padded_right(scheduled, 23).as_str());
    out.append(" ");
    out.append(truncate(reason, 40).as_str());
    out
}

/// The lines of the running sessions.
pub open spec fn running_lines(entries: Seq<RunningSnapshot>, now: int) -> Seq<Seq<char>> {
    if entries.len() == 0 {
        seq![framed("No active agents"@)]
    } else {
        Seq::new(entries.len(), |i: int| framed(running_row(entries[i], now)))
    }
}

/// The lines of the waiting retries.
pub open spec fn retry_lines(entries: Seq<RetryEntry>) -> Seq<Seq<char>> {
    if entries.len() == 0 {
        seq![framed("No entries"@)]
    } else {
        Seq::new(
            entries.len(),
            |i: int| framed(retry_row(entries[i]@, time::calendar_text(entries[i].scheduled_at@))),
        )
    }
}

/// The lines above the running sessions.
pub open spec fn top_lines(
    snapshot: StateSnapshot,
    tps: Seq<char>,
    sparkline: Seq<char>,
    max_agents: u32,
) -> Seq<Seq<char>> {
    let title = Seq::empty().push(rule('┌', '┐')).push(
        framed(BOLD@ + CYAN@ + "Symphony Status Dashboard"@ + RESET@),
    ).push(framed(header_text(snapshot, tps, max_agents)));
    let with_chart = if sparkline.len() == 0 {
        title
    } else {
        title.push(framed(labelled(MAGENTA@, "Throughput 10m"@, sparkline)))
    };
    with_chart.push(rule('├', '┤')).push(framed(CYAN@ + "Running Issues"@ + RESET@)).push(
        framed("Identifier         State              Turns      Tokens        Age"@),
    )
}

/// The lines between the running sessions and the waiting retries.
pub open spec fn middle_lines() -> Seq<Seq<char>> {
    Seq::empty().push(rule('├', '┤')).push(framed(YELLOW@ + "Backoff Queue"@ + RESET@)).push(
        framed("Identifier         Attempt    Scheduled               Reason"@),
    )
}

/// The panel. The throughput is given as text.
pub open spec fn panel(
    snapshot: StateSnapshot,
    tps: Seq<char>,
    sparkline: Seq<char>,
    max_agents: u32,
) -> Seq<char> {
    text::join(
        (top_lines(snapshot, tps, sparkline, max_agents) + running_lines(
            snapshot.running@,
            snapshot.generated_at@,
        ) + middle_lines() + retry_lines(snapshot.retrying@)).push(rule('└', '┘')),
        "\n"@,
    )
}

fn coloured(colour: &str, label: &str) -> (r: String)
    ensures
        r@ == colour@ + label@ + RESET@,
{
    let mut out: String = text::joined(colour, label);
    out.append(RESET);
    out
}

fn build_top_lines(snapshot: &StateSnapshot, tps: &str, sparkline: &str, max_agents: u32) -> (r: Vec<
    String,
>)
    ensures
        text::texts(r@) == top_lines(*snapshot, tps@, sparkline@, max_agents),
{
    let mut lines: Vec<String> = text::no_texts();
    text::push_text(&mut lines, border('┌', '┐'));
    let mut title: String = text::joined(BOLD, CYAN);
    title.append("Symphony Status Dashboard");
    title.append(RESET);
    text::push_text(&mut lines, panel_line(title.as_str()));
    text::push_text(
        &mut lines,
        panel_line(render_header(snapshot, tps, max_agents).as_str()),
    );
    if !sparkline.is_empty() {
        text::push_text(
            &mut lines,
            panel_line(labelled_value(MAGENTA, "Throughput 10m", sparkline).as_str()),
        );
    }
    text::push_text(&mut lines, border('├', '┤'));
    text::push_text(&mut lines, panel_line(coloured(CYAN, "Running Issues").as_str()));
    text::push_text(
        &mut lines,
        panel_line("Identifier         State              Turns      Tokens        Age"),
    );
    lines
}

fn push_running_lines(lines: &mut Vec<String>, entries: &Vec<RunningSnapshot>, now: Timestamp)
    ensures
        text::texts(final(lines)@) == text::texts(old(lines)@) + running_lines(entries@, now@),
{
    let ghost before = text::texts(lines@);
    if entries.len() == 0 {
        text::push_text(lines, panel_line("No active agents"));
        proof {
            assert(text::texts(lines@) =~= before + running_lines(entries@, now@));
        }
        return;
    }
    let ghost all = running_lines(entries@, now@);
    let mut i: usize = 0;
    proof {
        assert(before + all.take(0) =~= before);
    }
    while i < entries.len()
        invariant
            i <= entries@.len(),
            entries@.len() > 0,
            all == running_lines(entries@, now@),
            text::texts(lines@) == before + all.take(i as int),
        decreases entries@.len() - i,
    {
        text::push_text(lines, panel_line(render_running_row(&entries[i], now).as_str()));
        proof {
            assert(all.take(i + 1) =~= all.take(i as int).push(all[i as int]));
            assert(before + all.take(i + 1) =~= (before + all.take(i as int)).push(all[i as int]));
        }
        i = i + 1;
    }
    proof {
        assert(all.take(entries@.len() as int) =~= all);
    }
}

fn push_middle_lines(lines: &mut Vec<String>)
    ensures
        text::texts(final(lines)@) == text::texts(old(lines)@) + middle_lines(),
{
    let ghost before = text::texts(lines@);
    text::push_text(lines, border('├', '┤'));
    text::push_text(lines, panel_line(coloured(YELLOW, "Backoff Queue").as_str()));
    text::push_text(
        lines,
        panel_line("Identifier         Attempt    Scheduled               Reason"),
    );
    proof {
        assert(text::texts(lines@) =~= before + middle_lines());
    }
}

fn push_retry_lines(lines: &mut Vec<String>, entries: &Vec<RetryEntry>)
    ensures
        text::texts(final(lines)@) == text::texts(old(lines)@) + retry_lines(entries@),
{
    let ghost before = text::texts(lines@);
    if entries.len() == 0 {
        text::push_text(lines, panel_line("No entries"));
        proof {
            assert(text::texts(lines@) =~= before + retry_lines(entries@));
        }
        return;
    }
    let ghost all = retry_lines(entries@);
    let mut i: usize = 0;
    proof {
        assert(before + all.take(0) =~= before);
    }
    while i < entries.len()
        invariant
            i <= entries@.len(),
            entries@.len() > 0,
            all == retry_lines(entries@),
            text::texts(lines@) == before + all.take(i as int),
        decreases entries@.len() - i,
    {
        let scheduled: String = entries[i].scheduled_at.calendar_format();
        text::push_text(
            lines,
            panel_line(render_retry_row(&entries[i], scheduled.as_str()).as_str()),
        );
        proof {
            assert(all.take(i + 1) =~= all.take(i as int).push(all[i as int]));
            assert(before + all.take(i + 1) =~= (before + all.take(i as int)).push(all[i as int]));
        }
        i = i + 1;
    }
    proof {
        assert(all.take(entries@.len() as int) =~= all);
    }
}

/// The panel, with a chart of the throughput and the number of agents that may run.
pub fn render_panel_with_context(
    snapshot: &StateSnapshot,
    tps: &str,
    sparkline: &str,
    max_agents: u32,
) -> (r: String)
    ensures
        r@ == panel(*snapshot, tps@, sparkline@, max_agents),
{
    let mut lines: Vec<String> = build_top_lines(snapshot, tps, sparkline, max_agents);
    push_running_lines(&mut lines, &snapshot.running, snapshot.generated_at);
    push_middle_lines(&mut lines);
    push_retry_lines(&mut lines, &snapshot.retrying);
    text::push_text(&mut lines, border('└', '┘'));
    text::join_lines(&lines)
}

/// The panel, without a chart, for as many agents as run.
pub fn render_panel(snapshot: &StateSnapshot, tps: &str) -> (r: String)
    ensures
        r@ == panel(
            *snapshot,
            tps@,
            Seq::empty(),
            if snapshot.counts.running > u32::MAX {
                u32::MAX
            } else {
                snapshot.counts.running as u32
            },
        ),
{
    let max_agents: u32 = if snapshot.counts.running > 0xffff_ffff {
        u32::MAX
    } else {
        snapshot.counts.running as u32
    };
    proof {
        reveal_strlit("");
        assert(""@ =~= Seq::<char>::empty());
    }
    render_panel_with_context(snapshot, tps, "", max_agents)
}

proof fn lemma_plain_width(s: Seq<char>, i: int)
    requires
        0 <= i <= s.len(),
        forall|k: int| 0 <= k < s.len() ==> #[trigger] s[k] != '\x1b',
    ensures
        visible_from(s, i) == s.len() - i,
    decreases s.len() - i,
{
    if i < s.len() {
        lemma_plain_width(s, i + 1);
    }
}

/// Lines whose content has no colours and fits the panel are all equally long.
pub proof fn lemma_plain_lines_align(content: Seq<char>)
    requires
        forall|k: int| 0 <= k < content.len() ==> #[trigger] content[k] != '\x1b',
        content.len() <= PANEL_WIDTH,
    ensures
        framed(content).len() == rule('┌', '┐').len(),
{
    lemma_plain_width(content, 0);
    reveal_strlit("│ ");
    reveal_strlit(" │");
}

/// A colour sequence that has begun before a position ends in the text.
pub open spec fn sequence_ends(s: Seq<char>, i: int) -> bool
    decreases s.len() - i,
{
    0 <= i < s.len() && (s[i] == 'm' || sequence_ends(s, i + 1))
}

/// All colour sequences from a position on end in the text.
pub open spec fn finished_from(s: Seq<char>, i: int) -> bool
    decreases s.len() - i,
    when 0 <= i <= s.len()
    via finished_from_decreases
{
    if i == s.len() {
        true
    } else if sequence_at(s, i) {
        sequence_ends(s, i + 2) && finished_from(s, after_sequence(s, i + 2))
    } else {
        finished_from(s, i + 1)
    }
}

#[via_fn]
proof fn finished_from_decreases(s: Seq<char>, i: int) {
    if i < s.len() && sequence_at(s, i) {
        lemma_after_sequence(s, i + 2);
    }
}

proof fn lemma_sequence_in_suffix(a: Seq<char>, b: Seq<char>, k: int)
    requires
        0 <= k <= b.len(),
    ensures
        after_sequence(a + b, a.len() + k) == a.len() + after_sequence(b, k),
    decreases b.len() - k,
{
    if k < b.len() {
        assert((a + b)[a.len() + k] == b[k]);
        lemma_sequence_in_suffix(a, b, k + 1);
    }
}

proof fn lemma_visible_suffix(a: Seq<char>, b: Seq<char>, k: int)
    requires
        0 <= k <= b.len(),
    ensures
        visible_from(a + b, a.len() + k) == visible_from(b, k),
    decreases b.len() - k,
{
    if k < b.len() {
        assert((a + b)[a.len() + k] == b[k]);
        if k + 1 < b.len() {
            assert((a + b)[a.len() + k + 1] == b[k + 1]);
        }
        assert(sequence_at(a + b, a.len() + k) == sequence_at(b, k));
        if sequence_at(b, k) {
            lemma_sequence_in_suffix(a, b, k + 2);
            lemma_after_sequence(b, k + 2);
            lemma_visible_suffix(a, b, after_sequence(b, k + 2));
        } else {
            lemma_visible_suffix(a, b, k + 1);
        }
    }
}

proof fn lemma_sequence_in_prefix(a: Seq<char>, b: Seq<char>, i: int)
    requires
        sequence_ends(a, i),
    ensures
        after_sequence(a + b, i) == after_sequence(a, i),
        i < after_sequence(a, i) <= a.len(),
    decreases a.len() - i,
{
    assert((a + b)[i] == a[i]);
    if a[i] != 'm' {
        lemma_sequence_in_prefix(a, b, i + 1);
    }
}

proof fn lemma_visible_append(a: Seq<char>, b: Seq<char>, i: int)
    requires
        0 <= i <= a.len(),
        finished_from(a, i),
        b.len() > 0 ==> b[0] != '[',
    ensures
        visible_from(a + b, i) == visible_from(a, i) + visible_from(b, 0),
    decreases a.len() - i,
{
    if i == a.len() {
        lemma_visible_suffix(a, b, 0);
    } else {
        assert((a + b)[i] == a[i]);
        if i + 1 < a.len() {
            assert((a + b)[i + 1] == a[i + 1]);
        } else if b.len() > 0 {
            assert((a + b)[i + 1] == b[0]);
        }
        assert(sequence_at(a + b, i) == sequence_at(a, i));
        if sequence_at(a, i) {
            lemma_sequence_in_prefix(a, b, i + 2);
            lemma_visible_append(a, b, after_sequence(a, i + 2));
        } else {
            lemma_visible_append(a, b, i + 1);
        }
    }
}

/// All lines of the panel are equally wide to the eye, coloured or not: every line whose content
/// fits the panel and ends its colour sequences is as wide as a rule.
pub proof fn lemma_lines_align(content: Seq<char>)
    requires
        finished_from(content, 0),
        visible_from(content, 0) <= PANEL_WIDTH,
    ensures
        visible_from(framed(content), 0) == PANEL_WIDTH + 4,
        visible_from(rule('┌', '┐'), 0) == PANEL_WIDTH + 4,
{
    reveal_strlit("│ ");
    reveal_strlit(" │");
    let left = "│ "@;
    let rest = repeated(' ', missing(PANEL_WIDTH as nat, visible_from(content, 0))) + " │"@;
    assert(rest[0] == ' ');
    lemma_plain_width(rest, 0);
    lemma_visible_append(content, rest, 0);
    let inner = content + rest;
    assert(framed(content) =~= left + inner);
    lemma_visible_suffix(left, inner, 0);
    assert((left + inner)[0] == '│');
    assert((left + inner)[1] == ' ');
    reveal_with_fuel(visible_from, 3);
    lemma_plain_width(rule('┌', '┐'), 0);
}

/// A repeated character stands at every place.
pub proof fn lemma_repeated_is_even(c: char, n: nat, k: int)
    ensures
        repeated(c, n).len() == n,
        0 <= k < n ==> repeated(c, n)[k] == c,
{
}

/// What is missing fills a width up.
pub proof fn lemma_missing_fills_up(width: nat, len: nat)
    ensures
        len <= width ==> len + missing(width, len) == width,
        len >= width ==> missing(width, len) == 0,
{
}

/// A padded text has at least the width, keeps the text on its side, and has spaces on the other.
pub proof fn lemma_padding_keeps_text(s: Seq<char>, width: nat, k: int)
    ensures
        s.len() <= width ==> pad_right(s, width).len() == width && pad_left(s, width).len() == width,
        s.len() >= width ==> pad_right(s, width) == s && pad_left(s, width) == s,
        text::occurs_at(pad_right(s, width), 0, s),
        text::occurs_at(pad_left(s, width), pad_left(s, width).len() - s.len(), s),
        s.len() <= k < width ==> pad_right(s, width)[k] == ' ',
        0 <= k < width - s.len() ==> pad_left(s, width)[k] == ' ',
{
    let right = pad_right(s, width);
    let left = pad_left(s, width);
    assert(right.subrange(0, s.len() as int) =~= s);
    assert(left.subrange(left.len() - s.len(), left.len() as int) =~= s);
    if s.len() >= width {
        assert(right =~= s);
        assert(left =~= s);
    }
}

/// A text that is cut keeps its beginning; where there is room three dots stand for the rest.
pub proof fn lemma_cut_keeps_beginning(s: Seq<char>, width: nat)
    requires
        s.len() > width,
    ensures
        width <= 3 ==> cut(s, width) == s.subrange(0, width as int),
        width > 3 ==> cut(s, width) == s.subrange(0, width - 3) + "..."@,
        cut(s, width).len() == width,
{
    reveal_strlit("...");
    assert(s.take(width as int) =~= s.subrange(0, width as int));
    if width > 3 {
        assert(s.take(width - 3) =~= s.subrange(0, width - 3));
    }
}

/// A duration is shown in seconds below a minute, in minutes and seconds below an hour, and in hours
/// and minutes from then on.
pub proof fn lemma_duration_is_shown(hours: nat, minutes: nat, seconds: nat)
    requires
        minutes < 60,
        seconds < 60,
    ensures
        duration_text(seconds) == text::decimal(seconds) + "s"@,
        minutes > 0 ==> duration_text(minutes * 60 + seconds) == text::decimal(minutes) + "m "@
            + text::decimal(seconds) + "s"@,
        hours > 0 ==> duration_text(hours * 3600 + minutes * 60 + seconds) == text::decimal(hours)
            + "h "@ + text::decimal(minutes) + "m"@,
{
    let total = hours * 3600 + minutes * 60 + seconds;
    assert(total / 60 == hours * 60 + minutes);
    assert((hours * 60 + minutes) / 60 == hours);
    assert((hours * 60 + minutes) % 60 == minutes);
    assert((minutes * 60 + seconds) / 60 == minutes);
    assert((minutes * 60 + seconds) % 60 == seconds);
}

/// Seconds are rounded to the nearest, and halves up.
pub proof fn lemma_seconds_are_rounded(millis: nat)
    ensures
        1000 * rounded_seconds(millis) <= millis + 500 < 1000 * rounded_seconds(millis) + 1000,
{
}

/// The age of a session is counted in whole milliseconds, and is nothing before it starts.
pub proof fn lemma_age_is_counted(started_at: int, now: int)
    ensures
        now >= started_at ==> age_millis(started_at, now) * 1_000_000 <= now - started_at < (
        age_millis(started_at, now) + 1) * 1_000_000,
        now <= started_at ==> age_millis(started_at, now) == 0,
{
}

/// Rate limits show the limits that are known, each with its name, and all that there is where none
/// is known.
pub proof fn lemma_limits_are_shown(limits: JsonView, key: Seq<char>, value: JsonView)
    ensures
        limits_text(None) == "n/a"@,
        json::member(limits, key) == Some(value) ==> limit_part(limits, key) == seq![
            key + "="@ + json::json_text(value),
        ],
        json::member(limits, key) is None ==> limit_part(limits, key).len() == 0,
        json::member(limits, "remaining"@) is None && json::member(limits, "limit"@) is None
            && json::member(limits, "reset_seconds"@) is None ==> limits_text(Some(limits)) == cut(
            json::json_text(limits),
            36,
        ),
        json::member(limits, "remaining"@) is Some || json::member(limits, "limit"@) is Some
            || json::member(limits, "reset_seconds"@) is Some ==> limits_text(Some(limits)) == cut(
            text::join(
                limit_part(limits, "remaining"@) + limit_part(limits, "limit"@) + limit_part(
                    limits,
                    "reset_seconds"@,
                ),
                ", "@,
            ),
            36,
        ),
{
}

/// A label and its value stand in that order, the label in its colour.
pub proof fn lemma_label_goes_first(colour: Seq<char>, label: Seq<char>, value: Seq<char>)
    ensures
        text::occurs_at(labelled(colour, label, value), 0, colour + label),
        text::shows(labelled(colour, label, value), value),
        text::occurs_at(
            labelled(colour, label, value),
            labelled(colour, label, value).len() - value.len(),
            value,
        ),
{
    let whole = labelled(colour, label, value);
    assert(whole.subrange(0, (colour + label).len() as int) =~= colour + label);
    assert(whole.subrange(whole.len() - value.len(), whole.len() as int) =~= value);
    assert(text::occurs_at(whole, whole.len() - value.len(), value));
}

/// The line of totals shows the agents, the throughput, the running time, the tokens and the limits.
pub proof fn lemma_header_shows_totals(snapshot: StateSnapshot, tps: Seq<char>, max_agents: u32)
    ensures
        ({
            let all = header_text(snapshot, tps, max_agents);
            let totals = snapshot.codex_totals;
            let agents = text::decimal(snapshot.counts.running as nat) + "/"@ + text::decimal(
                max_agents as nat,
            );
            let tokens = "in "@ + text::decimal(totals.input_tokens as nat) + " | out "@ + text::decimal(
                totals.output_tokens as nat,
            ) + " | total "@ + text::decimal(totals.total_tokens as nat);
            let runtime = duration_text(rounded_seconds(totals.millis_running as nat));
            let limits = limits_text(json::opt_json(snapshot.rate_limits));
            &&& text::shows(all, labelled(GREEN@, "Agents"@, agents))
            &&& text::shows(all, labelled(GREEN@, "Throughput"@, tps + " tps"@))
            &&& text::shows(all, labelled(GREEN@, "Runtime"@, runtime))
            &&& text::shows(all, labelled(GREEN@, "Tokens"@, tokens))
            &&& text::shows(all, labelled(GREEN@, "Rate Limits"@, limits))
        }),
{
    let gap = "  "@;
    let totals = snapshot.codex_totals;
    let agents = text::decimal(snapshot.counts.running as nat) + "/"@ + text::decimal(
        max_agents as nat,
    );
    let tokens = "in "@ + text::decimal(totals.input_tokens as nat) + " | out "@ + text::decimal(
        totals.output_tokens as nat,
    ) + " | total "@ + text::decimal(totals.total_tokens as nat);
    let runtime = duration_text(rounded_seconds(totals.millis_running as nat));
    let limits = limits_text(json::opt_json(snapshot.rate_limits));
    let l0 = labelled(GREEN@, "Agents"@, agents);
    let l1 = labelled(GREEN@, "Throughput"@, tps + " tps"@);
    let l2 = labelled(GREEN@, "Runtime"@, runtime);
    let l3 = labelled(GREEN@, "Tokens"@, tokens);
    let l4 = labelled(GREEN@, "Rate Limits"@, limits);
    let h0 = l0;
    let h1 = h0 + gap + l1;
    let h2 = h1 + gap + l2;
    let h3 = h2 + gap + l3;
    let h4 = h3 + gap + l4;
    assert(Seq::<char>::empty() + l0 =~= l0);
    text::lemma_shows_end(Seq::empty(), l0);
    text::lemma_shows_end(h0 + gap, l1);
    text::lemma_shows_end(h1 + gap, l2);
    text::lemma_shows_end(h2 + gap, l3);
    text::lemma_shows_end(h3 + gap, l4);
    text::lemma_shows_more(h0, gap, l0);
    text::lemma_shows_more(h0 + gap, l1, l0);
    text::lemma_shows_more(h1, gap, l0);
    text::lemma_shows_more(h1 + gap, l2, l0);
    text::lemma_shows_more(h2, gap, l0);
    text::lemma_shows_more(h2 + gap, l3, l0);
    text::lemma_shows_more(h3, gap, l0);
    text::lemma_shows_more(h3 + gap, l4, l0);
    text::lemma_shows_more(h1, gap, l1);
    text::lemma_shows_more(h1 + gap, l2, l1);
    text::lemma_shows_more(h2, gap, l1);
    text::lemma_shows_more(h2 + gap, l3, l1);
    text::lemma_shows_more(h3, gap, l1);
    text::lemma_shows_more(h3 + gap, l4, l1);
    text::lemma_shows_more(h2, gap, l2);
    text::lemma_shows_more(h2 + gap, l3, l2);
    text::lemma_shows_more(h3, gap, l2);
    text::lemma_shows_more(h3 + gap, l4, l2);
    text::lemma_shows_more(h3, gap, l3);
    text::lemma_shows_more(h3 + gap, l4, l3);
    assert(h4 == header_text(snapshot, tps, max_agents));
}

/// The row of a session shows its identifier and its state in columns, then its turns, its tokens and
/// its age.
pub proof fn lemma_row_has_columns(entry: RunningSnapshot, now: int)
    ensures
        ({
            let row = running_row(entry, now);
            let age = pad_left(
                duration_text(rounded_seconds(age_millis(entry.started_at@, now))),
                10,
            );
            &&& text::occurs_at(row, 0, pad_right(cut(entry.issue_identifier@, 18), 18))
            &&& text::occurs_at(row, 19, pad_right(cut(entry.state@, 18), 18))
            &&& text::occurs_at(
                row,
                38,
                pad_left(text::decimal(entry.turn_count as nat), 5) + " "@ + pad_left(
                    text::decimal(entry.tokens.total_tokens as nat),
                    11,
                ),
            )
            &&& text::occurs_at(row, row.len() - age.len(), age)
        }),
{
    reveal_strlit(" ");
    let row = running_row(entry, now);
    let id = pad_right(cut(entry.issue_identifier@, 18), 18);
    let state = pad_right(cut(entry.state@, 18), 18);
    let figures = pad_left(text::decimal(entry.turn_count as nat), 5) + " "@ + pad_left(
        text::decimal(entry.tokens.total_tokens as nat),
        11,
    );
    let age = pad_left(duration_text(rounded_seconds(age_millis(entry.started_at@, now))), 10);
    lemma_cut_fits(entry.issue_identifier@, 18);
    lemma_cut_fits(entry.state@, 18);
    assert(row =~= id + " "@ + state + " "@ + figures + " "@ + age);
    assert(row.subrange(0, 18) =~= id);
    assert(row.subrange(19, 37) =~= state);
    assert(row.subrange(38, 38 + figures.len() as int) =~= figures);
    assert(row.subrange(row.len() - age.len(), row.len() as int) =~= age);
}

/// The row of a retry shows its identifier in a column, then its attempt, when it is scheduled and,
/// last, its reason.
pub proof fn lemma_retry_row_has_columns(entry: RetryView, scheduled: Seq<char>)
    ensures
        ({
            let row = retry_row(entry, scheduled);
            &&& text::occurs_at(row, 0, pad_right(cut(entry.issue_identifier, 18), 18))
            &&& text::occurs_at(
                row,
                19,
                pad_left(text::decimal(entry.attempt as nat), 7) + "    "@ + pad_right(
                    scheduled,
                    23,
                ),
            )
            &&& entry.reason is Some ==> text::occurs_at(
                row,
                row.len() - cut(entry.reason->0, 40).len(),
                cut(entry.reason->0, 40),
            )
            &&& entry.reason is None ==> text::occurs_at(row, row.len() - 3, "n/a"@)
        }),
{
    reveal_strlit(" ");
    reveal_strlit("n/a");
    let row = retry_row(entry, scheduled);
    let id = pad_right(cut(entry.issue_identifier, 18), 18);
    let figures = pad_left(text::decimal(entry.attempt as nat), 7) + "    "@ + pad_right(
        scheduled,
        23,
    );
    let reason = cut(
        match entry.reason {
            Some(reason) => reason,
            None => "n/a"@,
        },
        40,
    );
    lemma_cut_fits(entry.issue_identifier, 18);
    lemma_cut_fits("n/a"@, 40);
    assert(row =~= id + " "@ + figures + " "@ + reason);
    assert(row.subrange(0, 18) =~= id);
    assert(row.subrange(19, 19 + figures.len() as int) =~= figures);
    assert(row.subrange(row.len() - reason.len(), row.len() as int) =~= reason);
}

proof fn lemma_framed_shows(content: Seq<char>)
    ensures
        text::shows(framed(content), content),
{
    let left = "│ "@;
    let fill = repeated(' ', missing(PANEL_WIDTH as nat, visible_from(content, 0)));
    text::lemma_shows_end(left, content);
    text::lemma_shows_more(left + content, fill, content);
    text::lemma_shows_more(left + content + fill, " │"@, content);
}

/// The panel shows the totals, the row of each running session and the row of each waiting retry.
pub proof fn lemma_panel_shows_all(
    snapshot: StateSnapshot,
    tps: Seq<char>,
    sparkline: Seq<char>,
    max_agents: u32,
    i: int,
)
    ensures
        ({
            let all = panel(snapshot, tps, sparkline, max_agents);
            &&& text::shows(all, header_text(snapshot, tps, max_agents))
            &&& 0 <= i < snapshot.running@.len() ==> text::shows(
                all,
                running_row(snapshot.running@[i], snapshot.generated_at@),
            )
            &&& 0 <= i < snapshot.retrying@.len() ==> text::shows(
                all,
                retry_row(
                    snapshot.retrying@[i]@,
                    time::calendar_text(snapshot.retrying@[i].scheduled_at@),
                ),
            )
            &&& snapshot.running@.len() == 0 ==> text::shows(all, "No active agents"@)
            &&& snapshot.retrying@.len() == 0 ==> text::shows(all, "No entries"@)
            &&& sparkline.len() > 0 ==> text::shows(
                all,
                labelled(MAGENTA@, "Throughput 10m"@, sparkline),
            )
        }),
{
    let all = panel(snapshot, tps, sparkline, max_agents);
    let top = top_lines(snapshot, tps, sparkline, max_agents);
    let running = running_lines(snapshot.running@, snapshot.generated_at@);
    let middle = middle_lines();
    let retrying = retry_lines(snapshot.retrying@);
    let lines = (top + running + middle + retrying).push(rule('└', '┘'));
    let n = top.len() as int;
    let m = n + running.len() + middle.len();
    text::lemma_join_shows(lines, "\n"@, 2);
    assert(lines[2] == framed(header_text(snapshot, tps, max_agents)));
    lemma_framed_shows(header_text(snapshot, tps, max_agents));
    text::lemma_shows_within(all, lines[2], header_text(snapshot, tps, max_agents));
    if sparkline.len() > 0 {
        let chart = labelled(MAGENTA@, "Throughput 10m"@, sparkline);
        text::lemma_join_shows(lines, "\n"@, 3);
        assert(lines[3] == framed(chart));
        lemma_framed_shows(chart);
        text::lemma_shows_within(all, lines[3], chart);
    }
    if 0 <= i < snapshot.running@.len() {
        let row = running_row(snapshot.running@[i], snapshot.generated_at@);
        text::lemma_join_shows(lines, "\n"@, n + i);
        assert(lines[n + i] == running[i]);
        lemma_framed_shows(row);
        text::lemma_shows_within(all, lines[n + i], row);
    }
    if snapshot.running@.len() == 0 {
        text::lemma_join_shows(lines, "\n"@, n);
        assert(lines[n] == running[0]);
        lemma_framed_shows("No active agents"@);
        text::lemma_shows_within(all, lines[n], "No active agents"@);
    }
    if 0 <= i < snapshot.retrying@.len() {
        let row = retry_row(
            snapshot.retrying@[i]@,
            time::calendar_text(snapshot.retrying@[i].scheduled_at@),
        );
        text::lemma_join_shows(lines, "\n"@, m + i);
        assert(lines[m + i] == retrying[i]);
        lemma_framed_shows(row);
        text::lemma_shows_within(all, lines[m + i], row);
    }
    if snapshot.retrying@.len() == 0 {
        text::lemma_join_shows(lines, "\n"@, m);
        assert(lines[m] == retrying[0]);
        lemma_framed_shows("No entries"@);
        text::lemma_shows_within(all, lines[m], "No entries"@);
    }
}

} // verus!
