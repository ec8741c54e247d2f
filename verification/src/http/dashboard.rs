//! The status page.

use vstd::prelude::*;
use vstd::string::*;

use crate::domain::{RetryEntry, RetryView};
use crate::http::page::{
    PAGE_END, PAGE_HEAD, PAGE_INPUT, PAGE_OUTPUT, PAGE_RETRIES, PAGE_RETRYING, PAGE_RUNNING,
    PAGE_SCRIPT, PAGE_SECONDS, PAGE_SESSIONS, PAGE_STYLE, PAGE_TOTAL,
};
use crate::orchestrator::state::{RunningSnapshot, StateSnapshot};
use crate::text;
use crate::time;
use crate::time::Timestamp;

verus! {

/// How often the page reloads itself, in seconds.
pub const DASHBOARD_REFRESH_SECONDS: u64 = 5;

/// A character as it stands in HTML.
pub open spec fn escaped_char(c: char) -> Seq<char> {
    if c == '&' {
        "&amp;"@
    } else if c == '<' {
        "&lt;"@
    } else if c == '>' {
        "&gt;"@
    } else if c == '"' {
        "&quot;"@
    } else if c == '\'' {
        "&#39;"@
    } else {
        seq![c]
    }
}

/// A text as it stands in HTML.
pub open spec fn escaped(s: Seq<char>) -> Seq<char>
    decreases s.len(),
{
    if s.len() == 0 {
        Seq::empty()
    } else {
        escaped(s.drop_last()) + escaped_char(s.last())
    }
}

/// A text as it stands in HTML.
pub fn escape_html(value: &str) -> (r: String)
    ensures
        r@ == escaped(value@),
{
    let chars = text::to_chars(value);
    let mut out: String = String::new();
    let mut i: usize = 0;
    while i < chars.len()
        invariant
            chars@ == value@,
            i <= chars@.len(),
            out@ == escaped(value@.take(i as int)),
        decreases chars@.len() - i,
    {
        let c = chars[i];
        proof {
            assert(value@.take(i + 1).drop_last() =~= value@.take(i as int));
            assert(value@.take(i + 1).last() == c);
        }
        if c == '&' {
            out.append("&amp;");
        } else if c == '<' {
            out.append("&lt;");
        } else if c == '>' {
            out.append("&gt;");
        } else if c == '"' {
            out.append("&quot;");
        } else if c == '\'' {
            out.append("&#39;");
        } else {
            out.push(c);
            proof {
                assert(out@ =~= escaped(value@.take(i as int)) + seq![c]);
            }
        }
        i = i + 1;
    }
    proof {
        assert(value@.take(value@.len() as int) =~= value@);
    }
    out
}

/// The whole seconds since a point in time; none where it lies ahead.
pub open spec fn elapsed_seconds(started_at: int, now: int) -> nat {
    if now <= started_at {
        0
    } else {
        ((now - started_at) / 1_000_000_000) as nat
    }
}

/// A time span for display: minutes and seconds, or seconds alone.
pub open spec fn elapsed_text(seconds: nat) -> Seq<char> {
    if seconds / 60 > 0 {
        text::decimal(seconds / 60) + "m "@ + text::decimal(seconds % 60) + "s"@
    } else {
        text::decimal(seconds % 60) + "s"@
    }
}

/// The time since a point in time, for display.
pub fn format_elapsed(started_at: Timestamp, now: Timestamp) -> (r: String)
    ensures
        r@ == elapsed_text(elapsed_seconds(started_at@, now@)),
{
    let span: i128 = now.unix_nanos() - started_at.unix_nanos();
    let seconds: u64 = if span <= 0 {
        0
    } else {
        (span / 1_000_000_000) as u64
    };
    let minutes: u64 = seconds / 60;
    let rest: String = text::u64_text(seconds % 60);
    if minutes > 0 {
        let mut out: String = text::joined(text::u64_text(minutes).as_str(), "m ");
        out.append(rest.as_str());
        out.append("s");
        return out;
    }
    text::joined(rest.as_str(), "s")
}

/// A cell of a table.
pub open spec fn cell(content: Seq<char>) -> Seq<char> {
    "<td>"@ + content + "</td>"@
}

fn append_cell(out: &mut String, content: &str)
    ensures
        final(out)@ == old(out)@ + cell(content@),
{
    let ghost before = out@;
    out.append("<td>");
    out.append(content);
    out.append("</td>");
    proof {
        assert(out@ =~= before + cell(content@));
    }
}

/// The row of a running session.
pub open spec fn running_row(entry: RunningSnapshot, now: int) -> Seq<char> {
    "<tr>"@ + cell(escaped(entry.issue_identifier@)) + cell(escaped(entry.state@)) + cell(
        text::decimal(entry.turn_count as nat),
    ) + cell(escaped(elapsed_text(elapsed_seconds(entry.started_at@, now)))) + cell(
        escaped(entry.workspace_path@),
    ) + "</tr>"@
}

fn render_running_row(entry: &RunningSnapshot, now: Timestamp) -> (r: String)
    ensures
        r@ == running_row(*entry, now@),
{
    let mut out: String = "<tr>".to_owned();
    append_cell(&mut out, escape_html(entry.issue_identifier.as_str()).as_str());
    append_cell(&mut out, escape_html(entry.state.as_str()).as_str());
    append_cell(&mut out, text::u64_text(entry.turn_count as u64).as_str());
    append_cell(
        &mut out,
        escape_html(format_elapsed(entry.started_at, now).as_str()).as_str(),
    );
    append_cell(&mut out, escape_html(entry.workspace_path.as_str()).as_str());
    out.append("</tr>");
    out
}

/// The rows of some running sessions, one after the other.
pub open spec fn running_rows_of(entries: Seq<RunningSnapshot>, now: int) -> Seq<char>
    decreases entries.len(),
{
    if entries.len() == 0 {
        Seq::empty()
    } else {
        running_rows_of(entries.drop_last(), now) + running_row(entries.last(), now)
    }
}

/// The rows of the running sessions; a row that says so where there are none.
pub open spec fn running_rows(entries: Seq<RunningSnapshot>, now: int) -> Seq<char> {
    if entries.len() == 0 {
        "<tr><td colspan=\"5\" class=\"empty\">No running sessions</td></tr>"@
    } else {
        running_rows_of(entries, now)
    }
}

/// The rows of the running sessions.
pub fn render_running_rows(entries: &[RunningSnapshot], now: Timestamp) -> (r: String)
    ensures
        r@ == running_rows(entries@, now@),
{
    if entries.len() == 0 {
        return "<tr><td colspan=\"5\" class=\"empty\">No running sessions</td></tr>".to_owned();
    }
    let mut out: String = String::new();
    let mut i: usize = 0;
    while i < entries.len()
        invariant
            i <= entries@.len(),
            out@ == running_rows_of(entries@.take(i as int), now@),
        decreases entries@.len() - i,
    {
        proof {
            assert(entries@.take(i + 1).drop_last() =~= entries@.take(i as int));
        }
        out.append(render_running_row(&entries[i], now).as_str());
        i = i + 1;
    }
    proof {
        assert(entries@.take(entries@.len() as int) =~= entries@);
    }
    out
}

/// The row of a waiting retry. When it is scheduled is given as text.
pub open spec fn retry_row(entry: RetryView, scheduled: Seq<char>) -> Seq<char> {
    "<tr>"@ + cell(escaped(entry.issue_identifier)) + cell(text::decimal(entry.attempt as nat))
        + cell(escaped(scheduled)) + cell(
        escaped(
            match entry.reason {
                Some(reason) => reason,
                None => "-"@,
            },
        ),
    ) + "</tr>"@
}

/// The row of a waiting retry. When it is scheduled is given as text.
pub fn render_retry_row(entry: &RetryEntry, scheduled: &str) -> (r: String)
    ensures
        r@ == retry_row(entry@, scheduled@),
{
    let reason = match &entry.reason {
        Some(reason) => reason.as_str(),
        None => "-",
    };
    let mut out: String = "<tr>".to_owned();
    append_cell(&mut out, escape_html(entry.issue_identifier.as_str()).as_str());
    append_cell(&mut out, text::u64_text(entry.attempt as u64).as_str());
    append_cell(&mut out, escape_html(scheduled).as_str());
    append_cell(&mut out, escape_html(reason).as_str());
    out.append("</tr>");
    out
}

/// The rows of some waiting retries, one after the other.
pub open spec fn retry_rows_of(entries: Seq<RetryEntry>) -> Seq<char>
    decreases entries.len(),
{
    if entries.len() == 0 {
        Seq::empty()
    } else {
        retry_rows_of(entries.drop_last()) + retry_row(
            entries.last()@,
            time::rfc3339_text(entries.last().scheduled_at@),
        )
    }
}

/// The rows of the waiting retries; a row that says so where there are none.
pub open spec fn retry_rows(entries: Seq<RetryEntry>) -> Seq<char> {
    if entries.len() == 0 {
        "<tr><td colspan=\"4\" class=\"empty\">No retry entries</td></tr>"@
    } else {
        retry_rows_of(entries)
    }
}

/// The rows of the waiting retries.
pub fn render_retry_rows(entries: &[RetryEntry]) -> (r: String)
    ensures
        r@ == retry_rows(entries@),
{
    if entries.len() == 0 {
        return "<tr><td colspan=\"4\" class=\"empty\">No retry entries</td></tr>".to_owned();
    }
    let mut out: String = String::new();
    let mut i: usize = 0;
    while i < entries.len()
        invariant
            i <= entries@.len(),
            out@ == retry_rows_of(entries@.take(i as int)),
        decreases entries@.len() - i,
    {
        proof {
            assert(entries@.take(i + 1).drop_last() =~= entries@.take(i as int));
        }
        let scheduled: String = entries[i].scheduled_at.to_rfc3339();
        out.append(render_retry_row(&entries[i], scheduled.as_str()).as_str());
        i = i + 1;
    }
    proof {
        assert(entries@.take(entries@.len() as int) =~= entries@);
    }
    out
}

/// The page. The time of the snapshot, the running time and the rows are given as texts.
pub open spec fn page(
    snapshot: StateSnapshot,
    generated_at: Seq<char>,
    seconds_running: Seq<char>,
    running_rows: Seq<char>,
    retry_rows: Seq<char>,
) -> Seq<char> {
    PAGE_HEAD@ + text::decimal(DASHBOARD_REFRESH_SECONDS as nat) + PAGE_STYLE@ + escaped(
        generated_at,
    ) + PAGE_RUNNING@ + text::decimal(snapshot.running@.len()) + PAGE_RETRYING@ + text::decimal(
        snapshot.retrying@.len(),
    ) + PAGE_INPUT@ + text::decimal(snapshot.codex_totals.input_tokens as nat) + PAGE_OUTPUT@
        + text::decimal(snapshot.codex_totals.output_tokens as nat) + PAGE_TOTAL@ + text::decimal(
        snapshot.codex_totals.total_tokens as nat,
    ) + PAGE_SECONDS@ + seconds_running + PAGE_SESSIONS@ + running_rows + PAGE_RETRIES@
        + retry_rows + PAGE_SCRIPT@ + text::decimal(DASHBOARD_REFRESH_SECONDS as nat) + PAGE_END@
}

/// The page. The time of the snapshot, the running time and the rows are given as texts.
pub fn render_page(
    snapshot: &StateSnapshot,
    generated_at: &str,
    seconds_running: &str,
    running_rows: &str,
    retry_rows: &str,
) -> (r: String)
    ensures
        r@ == page(*snapshot, generated_at@, seconds_running@, running_rows@, retry_rows@),
{
    let mut out: String = PAGE_HEAD.to_owned();
    out.append(text::u64_text(DASHBOARD_REFRESH_SECONDS).as_str());
    out.append(PAGE_STYLE);
    out.append(escape_html(generated_at).as_str());
    out.append(PAGE_RUNNING);
    out.append(text::u64_text(snapshot.running.len() as u64).as_str());
    out.append(PAGE_RETRYING);
    out.append(text::u64_text(snapshot.retrying.len() as u64).as_str());
    out.append(PAGE_INPUT);
    out.append(text::u64_text(snapshot.codex_totals.input_tokens).as_str());
    out.append(PAGE_OUTPUT);
    out.append(text::u64_text(snapshot.codex_totals.output_tokens).as_str());
    out.append(PAGE_TOTAL);
    out.append(text::u64_text(snapshot.codex_totals.total_tokens).as_str());
    out.append(PAGE_SECONDS);
    out.append(seconds_running);
    out.append(PAGE_SESSIONS);
    out.append(running_rows);
    out.append(PAGE_RETRIES);
    out.append(retry_rows);
    out.append(PAGE_SCRIPT);
    out.append(text::u64_text(DASHBOARD_REFRESH_SECONDS).as_str());
    out.append(PAGE_END);
    out
}

/// The status page of a snapshot. The running time, in seconds, is given as text.
pub fn render_dashboard(snapshot: &StateSnapshot, seconds_running: &str, now: Timestamp) -> (r:
    String)
    ensures
        r@ == page(
            *snapshot,
            time::rfc3339_text(snapshot.generated_at@),
            seconds_running@,
            running_rows(snapshot.running@, now@),
            retry_rows(snapshot.retrying@),
        ),
{
    let generated_at: String = snapshot.generated_at.to_rfc3339();
    let running: String = render_running_rows(&snapshot.running, now);
    let retrying: String = render_retry_rows(&snapshot.retrying);
    render_page(
        snapshot,
        generated_at.as_str(),
        seconds_running,
        running.as_str(),
        retrying.as_str(),
    )
}

/// A character that can start or end a tag or a quoted attribute.
pub open spec fn is_markup(c: char) -> bool {
    c == '<' || c == '>' || c == '"' || c == '\''
}

proof fn lemma_escaped_char(c: char, i: int)
    requires
        0 <= i < escaped_char(c).len(),
    ensures
        !is_markup(escaped_char(c)[i]),
{
    reveal_strlit("&amp;");
    reveal_strlit("&lt;");
    reveal_strlit("&gt;");
    reveal_strlit("&quot;");
    reveal_strlit("&#39;");
}

/// An escaped text can neither open a tag nor end a quoted attribute.
pub proof fn lemma_escaped_is_inert(s: Seq<char>, i: int)
    requires
        0 <= i < escaped(s).len(),
    ensures
        !is_markup(escaped(s)[i]),
    decreases s.len(),
{
    let before = escaped(s.drop_last());
    if i < before.len() {
        lemma_escaped_is_inert(s.drop_last(), i);
    } else {
        lemma_escaped_char(s.last(), i - before.len());
    }
}

/// The character that an escaped text starts with, and how long its escape is.
pub open spec fn first_of(s: Seq<char>) -> (char, int) {
    if text::occurs_at(s, 0, "&amp;"@) {
        ('&', 5)
    } else if text::occurs_at(s, 0, "&lt;"@) {
        ('<', 4)
    } else if text::occurs_at(s, 0, "&gt;"@) {
        ('>', 4)
    } else if text::occurs_at(s, 0, "&quot;"@) {
        ('"', 6)
    } else if text::occurs_at(s, 0, "&#39;"@) {
        ('\'', 5)
    } else {
        (s[0], 1)
    }
}

/// What a reader of HTML sees of a text.
pub open spec fn unescaped(s: Seq<char>) -> Seq<char>
    decreases s.len(),
{
    if s.len() == 0 {
        Seq::empty()
    } else {
        let (c, n) = first_of(s);
        if n < 1 || n > s.len() {
            Seq::empty()
        } else {
            seq![c] + unescaped(s.subrange(n, s.len() as int))
        }
    }
}

proof fn lemma_first_of(c: char, rest: Seq<char>)
    ensures
        first_of(escaped_char(c) + rest) == (c, escaped_char(c).len() as int),
{
    reveal_strlit("&amp;");
    reveal_strlit("&lt;");
    reveal_strlit("&gt;");
    reveal_strlit("&quot;");
    reveal_strlit("&#39;");
    let s = escaped_char(c) + rest;
    let n = escaped_char(c).len() as int;
    assert(s.subrange(0, n) =~= escaped_char(c));
    assert(s[0] == escaped_char(c)[0]);
    if c == '&' || c == '<' || c == '>' || c == '"' || c == '\'' {
        assert(s[1] == escaped_char(c)[1]);
        assert("&amp;"@[1] == 'a');
        assert("&lt;"@[1] == 'l');
        assert("&gt;"@[1] == 'g');
        assert("&quot;"@[1] == 'q');
        assert("&#39;"@[1] == '#');
        lemma_occurs_fixes(s, "&amp;"@);
        lemma_occurs_fixes(s, "&lt;"@);
        lemma_occurs_fixes(s, "&gt;"@);
        lemma_occurs_fixes(s, "&quot;"@);
        lemma_occurs_fixes(s, "&#39;"@);
    } else {
        assert("&amp;"@[0] == '&');
        assert("&lt;"@[0] == '&');
        assert("&gt;"@[0] == '&');
        assert("&quot;"@[0] == '&');
        assert("&#39;"@[0] == '&');
        lemma_occurs_fixes(s, "&amp;"@);
        lemma_occurs_fixes(s, "&lt;"@);
        lemma_occurs_fixes(s, "&gt;"@);
        lemma_occurs_fixes(s, "&quot;"@);
        lemma_occurs_fixes(s, "&#39;"@);
    }
}

proof fn lemma_occurs_fixes(s: Seq<char>, pattern: Seq<char>)
    requires
        pattern.len() >= 2,
    ensures
        text::occurs_at(s, 0, pattern) ==> s.len() >= 2 && s[0] == pattern[0] && s[1] == pattern[1],
{
    if text::occurs_at(s, 0, pattern) {
        assert(s.subrange(0, pattern.len() as int)[0] == s[0]);
        assert(s.subrange(0, pattern.len() as int)[1] == s[1]);
    }
}

proof fn lemma_escaped_front(s: Seq<char>)
    requires
        s.len() > 0,
    ensures
        escaped(s) == escaped_char(s[0]) + escaped(s.subrange(1, s.len() as int)),
    decreases s.len(),
{
    let tail = s.subrange(1, s.len() as int);
    if s.len() == 1 {
        assert(s.drop_last() =~= Seq::<char>::empty());
        assert(tail =~= Seq::<char>::empty());
        assert(escaped(s) =~= escaped_char(s[0]) + escaped(tail));
    } else {
        lemma_escaped_front(s.drop_last());
        assert(s.drop_last().subrange(1, s.len() - 1) =~= tail.drop_last());
        assert(escaped(s) =~= escaped_char(s[0]) + (escaped(tail.drop_last()) + escaped_char(
            tail.last(),
        )));
    }
}

/// A reader of HTML sees of an escaped text the text itself.
pub proof fn lemma_escaping_is_undone(s: Seq<char>)
    ensures
        unescaped(escaped(s)) == s,
    decreases s.len(),
{
    if s.len() > 0 {
        let tail = s.subrange(1, s.len() as int);
        lemma_escaped_front(s);
        lemma_first_of(s[0], escaped(tail));
        lemma_escaping_is_undone(tail);
        let n = escaped_char(s[0]).len() as int;
        reveal_strlit("&amp;");
        reveal_strlit("&lt;");
        reveal_strlit("&gt;");
        reveal_strlit("&quot;");
        reveal_strlit("&#39;");
        assert(escaped(s).subrange(n, escaped(s).len() as int) =~= escaped(tail));
        assert(seq![s[0]] + tail =~= s);
    }
}

/// A time span is counted in whole seconds, and one that lies ahead as none.
pub proof fn lemma_seconds_are_whole(started_at: int, now: int)
    ensures
        now >= started_at ==> elapsed_seconds(started_at, now) * 1_000_000_000 <= now - started_at
            < (elapsed_seconds(started_at, now) + 1) * 1_000_000_000,
        now <= started_at ==> elapsed_seconds(started_at, now) == 0,
{
}

/// A time span of less than a minute is shown in seconds, and a longer one in minutes and the seconds
/// beyond them.
pub proof fn lemma_span_is_shown(minutes: nat, seconds: nat)
    requires
        seconds < 60,
    ensures
        elapsed_text(seconds) == text::decimal(seconds) + "s"@,
        minutes > 0 ==> elapsed_text(minutes * 60 + seconds) == text::decimal(minutes) + "m "@
            + text::decimal(seconds) + "s"@,
{
    assert((minutes * 60 + seconds) / 60 == minutes);
    assert((minutes * 60 + seconds) % 60 == seconds);
}

/// A text stands in a page right behind a heading.
pub open spec fn stands_behind(page: Seq<char>, heading: Seq<char>, value: Seq<char>) -> bool {
    exists|i: int| #[trigger] text::occurs_at(page, i, heading + value)
}

spec fn flat(parts: Seq<Seq<char>>) -> Seq<char>
    decreases parts.len(),
{
    if parts.len() == 0 {
        Seq::empty()
    } else {
        flat(parts.drop_last()) + parts.last()
    }
}

proof fn lemma_flat_push(parts: Seq<Seq<char>>, part: Seq<char>)
    ensures
        flat(parts.push(part)) == flat(parts) + part,
{
    assert(parts.push(part).drop_last() =~= parts);
}

proof fn lemma_flat_at(parts: Seq<Seq<char>>, k: int)
    requires
        0 <= k,
        k + 2 < parts.len(),
    ensures
        stands_behind(flat(parts), parts[k], parts[k + 1] + parts[k + 2]),
    decreases parts.len(),
{
    let most = parts.drop_last();
    let pattern = parts[k] + (parts[k + 1] + parts[k + 2]);
    if k + 3 < parts.len() {
        lemma_flat_at(most, k);
        let i = choose|i: int| #[trigger] text::occurs_at(flat(most), i, pattern);
        assert(flat(parts).subrange(i, i + pattern.len()) =~= flat(most).subrange(
            i,
            i + pattern.len(),
        ));
        assert(text::occurs_at(flat(parts), i, pattern));
    } else {
        reveal_with_fuel(flat, 4);
        let before = flat(most.drop_last().drop_last());
        let i = before.len() as int;
        assert(flat(parts) == ((before + parts[k]) + parts[k + 1]) + parts[k + 2]);
        assert(flat(parts).subrange(i, i + pattern.len()) =~= pattern);
        assert(text::occurs_at(flat(parts), i, pattern));
    }
}

/// Each figure of the page stands between its own heading and the next one.
pub proof fn lemma_page_shows_figures(
    snapshot: StateSnapshot,
    generated_at: Seq<char>,
    seconds_running: Seq<char>,
    running: Seq<char>,
    retrying: Seq<char>,
)
    ensures
        ({
            let all = page(snapshot, generated_at, seconds_running, running, retrying);
            &&& stands_behind(
                all,
                PAGE_HEAD@,
                text::decimal(DASHBOARD_REFRESH_SECONDS as nat) + PAGE_STYLE@,
            )
            &&& stands_behind(all, PAGE_STYLE@, escaped(generated_at) + PAGE_RUNNING@)
            &&& stands_behind(
                all,
                PAGE_RUNNING@,
                text::decimal(snapshot.running@.len()) + PAGE_RETRYING@,
            )
            &&& stands_behind(
                all,
                PAGE_RETRYING@,
                text::decimal(snapshot.retrying@.len()) + PAGE_INPUT@,
            )
            &&& stands_behind(
                all,
                PAGE_INPUT@,
                text::decimal(snapshot.codex_totals.input_tokens as nat) + PAGE_OUTPUT@,
            )
            &&& stands_behind(
                all,
                PAGE_OUTPUT@,
                text::decimal(snapshot.codex_totals.output_tokens as nat) + PAGE_TOTAL@,
            )
            &&& stands_behind(
                all,
                PAGE_TOTAL@,
                text::decimal(snapshot.codex_totals.total_tokens as nat) + PAGE_SECONDS@,
            )
            &&& stands_behind(all, PAGE_SECONDS@, seconds_running + PAGE_SESSIONS@)
            &&& stands_behind(all, PAGE_SESSIONS@, running + PAGE_RETRIES@)
            &&& stands_behind(all, PAGE_RETRIES@, retrying + PAGE_SCRIPT@)
            &&& stands_behind(
                all,
                PAGE_SCRIPT@,
                text::decimal(DASHBOARD_REFRESH_SECONDS as nat) + PAGE_END@,
            )
        }),
{
    let all = page(snapshot, generated_at, seconds_running, running, retrying);
    let p0 = Seq::<Seq<char>>::empty().push(PAGE_HEAD@);
    lemma_flat_push(Seq::empty(), PAGE_HEAD@);
    assert(flat(p0) =~= PAGE_HEAD@);
    let p1 = p0.push(text::decimal(DASHBOARD_REFRESH_SECONDS as nat));
    lemma_flat_push(p0, text::decimal(DASHBOARD_REFRESH_SECONDS as nat));
    let p2 = p1.push(PAGE_STYLE@);
    lemma_flat_push(p1, PAGE_STYLE@);
    let p3 = p2.push(escaped(generated_at));
    lemma_flat_push(p2, escaped(generated_at));
    let p4 = p3.push(PAGE_RUNNING@);
    lemma_flat_push(p3, PAGE_RUNNING@);
    let p5 = p4.push(text::decimal(snapshot.running@.len()));
    lemma_flat_push(p4, text::decimal(snapshot.running@.len()));
    let p6 = p5.push(PAGE_RETRYING@);
    lemma_flat_push(p5, PAGE_RETRYING@);
    let p7 = p6.push(text::decimal(snapshot.retrying@.len()));
    lemma_flat_push(p6, text::decimal(snapshot.retrying@.len()));
    let p8 = p7.push(PAGE_INPUT@);
    lemma_flat_push(p7, PAGE_INPUT@);
    let p9 = p8.push(text::decimal(snapshot.codex_totals.input_tokens as nat));
    lemma_flat_push(p8, text::decimal(snapshot.codex_totals.input_tokens as nat));
    let p10 = p9.push(PAGE_OUTPUT@);
    lemma_flat_push(p9, PAGE_OUTPUT@);
    let p11 = p10.push(text::decimal(snapshot.codex_totals.output_tokens as nat));
    lemma_flat_push(p10, text::decimal(snapshot.codex_totals.output_tokens as nat));
    let p12 = p11.push(PAGE_TOTAL@);
    lemma_flat_push(p11, PAGE_TOTAL@);
    let p13 = p12.push(text::decimal(snapshot.codex_totals.total_tokens as nat));
    lemma_flat_push(p12, text::decimal(snapshot.codex_totals.total_tokens as nat));
    let p14 = p13.push(PAGE_SECONDS@);
    lemma_flat_push(p13, PAGE_SECONDS@);
    let p15 = p14.push(seconds_running);
    lemma_flat_push(p14, seconds_running);
    let p16 = p15.push(PAGE_SESSIONS@);
    lemma_flat_push(p15, PAGE_SESSIONS@);
    let p17 = p16.push(running);
    lemma_flat_push(p16, running);
    let p18 = p17.push(PAGE_RETRIES@);
    lemma_flat_push(p17, PAGE_RETRIES@);
    let p19 = p18.push(retrying);
    lemma_flat_push(p18, retrying);
    let p20 = p19.push(PAGE_SCRIPT@);
    lemma_flat_push(p19, PAGE_SCRIPT@);
    let p21 = p20.push(text::decimal(DASHBOARD_REFRESH_SECONDS as nat));
    lemma_flat_push(p20, text::decimal(DASHBOARD_REFRESH_SECONDS as nat));
    let p22 = p21.push(PAGE_END@);
    lemma_flat_push(p21, PAGE_END@);
    assert(flat(p22) == all);
    lemma_flat_at(p22, 0);
    lemma_flat_at(p22, 2);
    lemma_flat_at(p22, 4);
    lemma_flat_at(p22, 6);
    lemma_flat_at(p22, 8);
    lemma_flat_at(p22, 10);
    lemma_flat_at(p22, 12);
    lemma_flat_at(p22, 14);
    lemma_flat_at(p22, 16);
    lemma_flat_at(p22, 18);
    lemma_flat_at(p22, 20);
}

/// The row of a session has its identifier, its state, its turns, its time and its workspace, each in
/// a cell and in that order.
pub proof fn lemma_row_has_cells(entry: RunningSnapshot, now: int)
    ensures
        running_row(entry, now) == "<tr>"@ + ("<td>"@ + escaped(entry.issue_identifier@) + "</td>"@)
            + ("<td>"@ + escaped(entry.state@) + "</td>"@) + ("<td>"@ + text::decimal(
            entry.turn_count as nat,
        ) + "</td>"@) + ("<td>"@ + escaped(elapsed_text(elapsed_seconds(entry.started_at@, now)))
            + "</td>"@) + ("<td>"@ + escaped(entry.workspace_path@) + "</td>"@) + "</tr>"@,
{
}

/// The row of a retry has its identifier, its attempt, its time and its reason, each in a cell and in
/// that order; a hyphen stands for no reason.
pub proof fn lemma_retry_row_has_cells(entry: RetryView, scheduled: Seq<char>)
    ensures
        entry.reason is Some ==> retry_row(entry, scheduled) == "<tr>"@ + ("<td>"@ + escaped(
            entry.issue_identifier,
        ) + "</td>"@) + ("<td>"@ + text::decimal(entry.attempt as nat) + "</td>"@) + ("<td>"@
            + escaped(scheduled) + "</td>"@) + ("<td>"@ + escaped(entry.reason->0) + "</td>"@)
            + "</tr>"@,
        entry.reason is None ==> retry_row(entry, scheduled) == "<tr>"@ + ("<td>"@ + escaped(
            entry.issue_identifier,
        ) + "</td>"@) + ("<td>"@ + text::decimal(entry.attempt as nat) + "</td>"@) + ("<td>"@
            + escaped(scheduled) + "</td>"@) + ("<td>"@ + escaped("-"@) + "</td>"@) + "</tr>"@,
{
}

/// The table has one row for each session, in order.
pub proof fn lemma_rows_follow_sessions(
    entries: Seq<RunningSnapshot>,
    entry: RunningSnapshot,
    now: int,
)
    ensures
        running_rows(seq![entry], now) == running_row(entry, now),
        entries.len() > 0 ==> running_rows(entries.push(entry), now) == running_rows(entries, now)
            + running_row(entry, now),
{
    assert(entries.push(entry).drop_last() =~= entries);
    assert(seq![entry].drop_last() =~= Seq::<RunningSnapshot>::empty());
    assert(running_rows_of(Seq::<RunningSnapshot>::empty(), now) =~= Seq::<char>::empty());
    assert(Seq::<char>::empty() + running_row(entry, now) =~= running_row(entry, now));
}

/// The table has one row for each retry, in order, with the time that it is scheduled for.
pub proof fn lemma_rows_follow_retries(entries: Seq<RetryEntry>, entry: RetryEntry)
    ensures
        retry_rows(seq![entry]) == retry_row(entry@, time::rfc3339_text(entry.scheduled_at@)),
        entries.len() > 0 ==> retry_rows(entries.push(entry)) == retry_rows(entries) + retry_row(
            entry@,
            time::rfc3339_text(entry.scheduled_at@),
        ),
{
    assert(entries.push(entry).drop_last() =~= entries);
    assert(seq![entry].drop_last() =~= Seq::<RetryEntry>::empty());
    assert(retry_rows_of(Seq::<RetryEntry>::empty()) =~= Seq::<char>::empty());
    let row = retry_row(entry@, time::rfc3339_text(entry.scheduled_at@));
    assert(Seq::<char>::empty() + row =~= row);
}

} // verus!
