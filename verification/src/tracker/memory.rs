//! A tracker that holds its issues in memory and records what is written to it.

use vstd::prelude::*;

use crate::config::TrackerConfig;
use crate::domain;
use crate::domain::{BlockerRef, BlockerView, Issue, IssueView};
use crate::error::SymphonyError;
use crate::text;

verus! {

/// A comment that has been written.
#[derive(Debug, PartialEq, Eq)]
pub struct CommentRecord {
    pub issue_id: String,
    pub body: String,
}

/// A move to a state that has been written.
#[derive(Debug, PartialEq, Eq)]
pub struct StateUpdateRecord {
    pub issue_id: String,
    pub state_name: String,
}

/// The model of a comment that has been written.
#[verifier::ext_equal]
pub struct CommentView {
    pub issue_id: Seq<char>,
    pub body: Seq<char>,
}

/// The model of a move to a state that has been written.
#[verifier::ext_equal]
pub struct StateUpdateView {
    pub issue_id: Seq<char>,
    pub state_name: Seq<char>,
}

impl View for CommentRecord {
    type V = CommentView;

    open spec fn view(&self) -> CommentView {
        CommentView { issue_id: self.issue_id@, body: self.body@ }
    }
}

impl View for StateUpdateRecord {
    type V = StateUpdateView;

    open spec fn view(&self) -> StateUpdateView {
        StateUpdateView { issue_id: self.issue_id@, state_name: self.state_name@ }
    }
}

impl Clone for CommentRecord {
    fn clone(&self) -> (r: Self)
        ensures
            r@ == self@,
    {
        CommentRecord { issue_id: self.issue_id.clone(), body: self.body.clone() }
    }
}

impl Clone for StateUpdateRecord {
    fn clone(&self) -> (r: Self)
        ensures
            r@ == self@,
    {
        StateUpdateRecord { issue_id: self.issue_id.clone(), state_name: self.state_name.clone() }
    }
}

/// The models of a list of comments.
pub open spec fn comment_views(items: Seq<CommentRecord>) -> Seq<CommentView> {
    Seq::new(items.len(), |i: int| items[i]@)
}

/// The models of a list of moves.
pub open spec fn update_views(items: Seq<StateUpdateRecord>) -> Seq<StateUpdateView> {
    Seq::new(items.len(), |i: int| items[i]@)
}

/// A tracker in memory.
#[derive(Debug)]
pub struct MemoryTracker {
    issues: Vec<Issue>,
    comments: Vec<CommentRecord>,
    state_updates: Vec<StateUpdateRecord>,
}

/// The model of a tracker in memory.
#[verifier::ext_equal]
pub struct MemoryView {
    pub issues: Seq<IssueView>,
    pub comments: Seq<CommentView>,
    pub state_updates: Seq<StateUpdateView>,
}

impl View for MemoryTracker {
    type V = MemoryView;

    closed spec fn view(&self) -> MemoryView {
        MemoryView {
            issues: domain::issues(self.issues@),
            comments: comment_views(self.comments@),
            state_updates: update_views(self.state_updates@),
        }
    }
}

/// The short form of an issue.
pub open spec fn short_form(issue: IssueView) -> BlockerView {
    BlockerView { id: issue.id, identifier: issue.identifier, state: issue.state }
}

/// The short forms of the issues with a property, in their order.
pub open spec fn short_forms(issues: Seq<IssueView>, p: spec_fn(IssueView) -> bool) -> Seq<
    BlockerView,
> {
    issues.filter(p).map_values(|issue: IssueView| short_form(issue))
}

fn listed(ids: &[String], id: &str) -> (r: bool)
    ensures
        r == text::texts(ids@).contains(id@),
{
    let mut i: usize = 0;
    while i < ids.len()
        invariant
            i <= ids@.len(),
            forall|k: int| 0 <= k < i ==> #[trigger] text::texts(ids@)[k] != id@,
        decreases ids@.len() - i,
    {
        if text::same(ids[i].as_str(), id) {
            proof {
                assert(text::texts(ids@)[i as int] == id@);
            }
            return true;
        }
        i = i + 1;
    }
    false
}

fn push_short_form(out: &mut Vec<BlockerRef>, issue: &Issue)
    ensures
        domain::blockers(final(out)@) == domain::blockers(old(out)@).push(short_form(issue@)),
{
    let short = BlockerRef {
        id: issue.id.clone(),
        identifier: issue.identifier.clone(),
        state: issue.state.clone(),
    };
    let ghost model = short@;
    out.push(short);
    proof {
        assert(domain::blockers(out@) =~= domain::blockers(old(out)@).push(model));
    }
}

proof fn lemma_next_short_form(issues: Seq<IssueView>, i: int, p: spec_fn(IssueView) -> bool)
    requires
        0 <= i < issues.len(),
    ensures
        short_forms(issues.take(i + 1), p) == (if p(issues[i]) {
            short_forms(issues.take(i), p).push(short_form(issues[i]))
        } else {
            short_forms(issues.take(i), p)
        }),
{
    reveal(Seq::filter);
    assert(issues.take(i + 1).drop_last() =~= issues.take(i));
    assert(issues.take(i + 1).last() == issues[i]);
    if p(issues[i]) {
        assert(short_forms(issues.take(i + 1), p) =~= short_forms(issues.take(i), p).push(
            short_form(issues[i]),
        ));
    }
}

impl Default for MemoryTracker {
    fn default() -> (r: Self)
        ensures
            r@ == (MemoryView {
                issues: Seq::empty(),
                comments: Seq::empty(),
                state_updates: Seq::empty(),
            }),
    {
        MemoryTracker::new(Vec::new())
    }
}

impl MemoryTracker {
    /// A tracker of some issues.
    pub fn new(issues: Vec<Issue>) -> (r: Self)
        ensures
            r@ == (MemoryView {
                issues: domain::issues(issues@),
                comments: Seq::empty(),
                state_updates: Seq::empty(),
            }),
    {
        let r = MemoryTracker { issues, comments: Vec::new(), state_updates: Vec::new() };
        proof {
            assert(r@.comments =~= Seq::empty());
            assert(r@.state_updates =~= Seq::empty());
        }
        r
    }

    /// The issues.
    pub fn issues(&self) -> (r: Result<Vec<Issue>, SymphonyError>)
        ensures
            r matches Ok(issues) && domain::issues(issues@) == self@.issues,
    {
        let mut out: Vec<Issue> = Vec::new();
        let mut i: usize = 0;
        while i < self.issues.len()
            invariant
                i <= self.issues@.len(),
                out@.len() == i,
                forall|k: int| 0 <= k < i ==> (#[trigger] out@[k])@ == self.issues@[k]@,
            decreases self.issues@.len() - i,
        {
            out.push(self.issues[i].clone());
            i = i + 1;
        }
        proof {
            assert(domain::issues(out@) =~= self@.issues);
        }
        Ok(out)
    }

    /// The comments that have been written.
    pub fn comments(&self) -> (r: Result<Vec<CommentRecord>, SymphonyError>)
        ensures
            r matches Ok(comments) && comment_views(comments@) == self@.comments,
    {
        let mut out: Vec<CommentRecord> = Vec::new();
        let mut i: usize = 0;
        while i < self.comments.len()
            invariant
                i <= self.comments@.len(),
                out@.len() == i,
                forall|k: int| 0 <= k < i ==> (#[trigger] out@[k])@ == self.comments@[k]@,
            decreases self.comments@.len() - i,
        {
            out.push(self.comments[i].clone());
            i = i + 1;
        }
        proof {
            assert(comment_views(out@) =~= self@.comments);
        }
        Ok(out)
    }

    /// The moves that have been written.
    pub fn state_updates(&self) -> (r: Result<Vec<StateUpdateRecord>, SymphonyError>)
        ensures
            r matches Ok(updates) && update_views(updates@) == self@.state_updates,
    {
        let mut out: Vec<StateUpdateRecord> = Vec::new();
        let mut i: usize = 0;
        while i < self.state_updates.len()
            invariant
                i <= self.state_updates@.len(),
                out@.len() == i,
                forall|k: int| 0 <= k < i ==> (#[trigger] out@[k])@ == self.state_updates@[k]@,
            decreases self.state_updates@.len() - i,
        {
            out.push(self.state_updates[i].clone());
            i = i + 1;
        }
        proof {
            assert(update_views(out@) =~= self@.state_updates);
        }
        Ok(out)
    }

    /// The candidates: all issues.
    pub fn fetch_candidates(&self, _config: &TrackerConfig) -> (r: Result<
        Vec<Issue>,
        SymphonyError,
    >)
        ensures
            r matches Ok(issues) && domain::issues(issues@) == self@.issues,
    {
        self.issues()
    }

    /// The current states of some issues.
    pub fn refresh_issue_states(&self, issue_ids: &[String]) -> (r: Result<
        Vec<BlockerRef>,
        SymphonyError,
    >)
        ensures
            r matches Ok(found) && domain::blockers(found@) == short_forms(
                self@.issues,
                |issue: IssueView| text::texts(issue_ids@).contains(issue.id),
            ),
    {
        let ghost p = |issue: IssueView| text::texts(issue_ids@).contains(issue.id);
        let mut out: Vec<BlockerRef> = Vec::new();
        let mut i: usize = 0;
        proof {
            reveal(Seq::filter);
            assert(domain::blockers(out@) =~= short_forms(self@.issues.take(0), p));
        }
        while i < self.issues.len()
            invariant
                i <= self.issues@.len(),
                p == |issue: IssueView| text::texts(issue_ids@).contains(issue.id),
                domain::blockers(out@) == short_forms(self@.issues.take(i as int), p),
            decreases self.issues@.len() - i,
        {
            proof {
                lemma_next_short_form(self@.issues, i as int, p);
                assert(self@.issues[i as int] == self.issues@[i as int]@);
            }
            if listed(issue_ids, self.issues[i].id.as_str()) {
                push_short_form(&mut out, &self.issues[i]);
            }
            i = i + 1;
        }
        proof {
            assert(self@.issues.take(self.issues@.len() as int) =~= self@.issues);
        }
        Ok(out)
    }

    /// The issues in some states, whatever the project.
    pub fn fetch_issues_by_states(&self, _project_slug: &str, states: &[String]) -> (r: Result<
        Vec<BlockerRef>,
        SymphonyError,
    >)
        ensures
            r matches Ok(found) && domain::blockers(found@) == short_forms(
                self@.issues,
                |issue: IssueView| text::state_listed(issue.state, text::texts(states@)),
            ),
    {
        let ghost p = |issue: IssueView| text::state_listed(issue.state, text::texts(states@));
        let mut out: Vec<BlockerRef> = Vec::new();
        let mut i: usize = 0;
        proof {
            reveal(Seq::filter);
            assert(domain::blockers(out@) =~= short_forms(self@.issues.take(0), p));
        }
        while i < self.issues.len()
            invariant
                i <= self.issues@.len(),
                p == |issue: IssueView| text::state_listed(issue.state, text::texts(states@)),
                domain::blockers(out@) == short_forms(self@.issues.take(i as int), p),
            decreases self.issues@.len() - i,
        {
            proof {
                lemma_next_short_form(self@.issues, i as int, p);
                assert(self@.issues[i as int] == self.issues@[i as int]@);
            }
            if text::state_matches(self.issues[i].state.as_str(), states) {
                push_short_form(&mut out, &self.issues[i]);
            }
            i = i + 1;
        }
        proof {
            assert(self@.issues.take(self.issues@.len() as int) =~= self@.issues);
        }
        Ok(out)
    }

    /// Records a comment; the issues stay as they are.
    pub fn create_comment(&mut self, issue_id: &str, body: &str) -> (r: Result<(), SymphonyError>)
        ensures
            r is Ok,
            final(self)@ == (MemoryView {
                comments: old(self)@.comments.push(
                    CommentView { issue_id: issue_id@, body: body@ },
                ),
                ..old(self)@
            }),
    {
        let record = CommentRecord { issue_id: issue_id.to_owned(), body: body.to_owned() };
        let ghost model = record@;
        self.comments.push(record);
        proof {
            assert(self@.comments =~= old(self)@.comments.push(model));
        }
        Ok(())
    }

    /// Records a move to a state; the issues stay as they are.
    pub fn update_issue_state(&mut self, issue_id: &str, state_name: &str) -> (r: Result<
        (),
        SymphonyError,
    >)
        ensures
            r is Ok,
            final(self)@ == (MemoryView {
                state_updates: old(self)@.state_updates.push(
                    StateUpdateView { issue_id: issue_id@, state_name: state_name@ },
                ),
                ..old(self)@
            }),
    {
        let record = StateUpdateRecord {
            issue_id: issue_id.to_owned(),
            state_name: state_name.to_owned(),
        };
        let ghost model = record@;
        self.state_updates.push(record);
        proof {
            assert(self@.state_updates =~= old(self)@.state_updates.push(model));
        }
        Ok(())
    }
}

/// The short form of an issue has its id, its identifier and its state.
pub proof fn lemma_short_form_keeps_fields(issue: IssueView)
    ensures
        short_form(issue).id == issue.id,
        short_form(issue).identifier == issue.identifier,
        short_form(issue).state == issue.state,
{
}

/// The short forms of the issues with a property are those of each issue that has it, and no others.
pub proof fn lemma_short_forms_are_exact(
    issues: Seq<IssueView>,
    p: spec_fn(IssueView) -> bool,
    i: int,
    k: int,
)
    ensures
        0 <= i < issues.len() && p(issues[i]) ==> exists|j: int|
            0 <= j < short_forms(issues, p).len() && (#[trigger] short_forms(issues, p)[j]).id
                == issues[i].id && short_forms(issues, p)[j].identifier == issues[i].identifier
                && short_forms(issues, p)[j].state == issues[i].state,
        0 <= k < short_forms(issues, p).len() ==> exists|j: int|
            0 <= j < issues.len() && p(#[trigger] issues[j]) && short_forms(issues, p)[k].id
                == issues[j].id && short_forms(issues, p)[k].identifier == issues[j].identifier
                && short_forms(issues, p)[k].state == issues[j].state,
{
    let kept = issues.filter(p);
    if 0 <= i < issues.len() && p(issues[i]) {
        issues.lemma_filter_contains(p, i);
        let j = choose|j: int| 0 <= j < kept.len() && kept[j] == issues[i];
        assert(short_forms(issues, p)[j].id == issues[i].id);
    }
    if 0 <= k < short_forms(issues, p).len() {
        issues.lemma_filter_pred(p, k);
        assert(kept.contains(kept[k]));
        issues.lemma_filter_contains_rev(p, kept[k]);
        let j = choose|j: int| 0 <= j < issues.len() && issues[j] == kept[k];
        assert(p(issues[j]));
    }
}

/// What was written is modelled as it was written, in order.
pub proof fn lemma_records_are_modelled(
    comments: Seq<CommentRecord>,
    updates: Seq<StateUpdateRecord>,
    i: int,
)
    ensures
        comment_views(comments).len() == comments.len(),
        0 <= i < comments.len() ==> comment_views(comments)[i].issue_id == comments[i].issue_id@
            && comment_views(comments)[i].body == comments[i].body@,
        update_views(updates).len() == updates.len(),
        0 <= i < updates.len() ==> update_views(updates)[i].issue_id == updates[i].issue_id@
            && update_views(updates)[i].state_name == updates[i].state_name@,
{
}

/// Short forms come in the order of the issues.
pub proof fn lemma_short_forms_keep_order(
    issues: Seq<IssueView>,
    issue: IssueView,
    p: spec_fn(IssueView) -> bool,
)
    ensures
        !p(issue) ==> short_forms(issues.push(issue), p) == short_forms(issues, p),
        p(issue) ==> short_forms(issues.push(issue), p) == short_forms(issues, p).push(
            BlockerView { id: issue.id, identifier: issue.identifier, state: issue.state },
        ),
{
    reveal(Seq::filter);
    assert(issues.push(issue).drop_last() =~= issues);
    assert(short_forms(issues.push(issue), p) =~= if p(issue) {
        short_forms(issues, p).push(short_form(issue))
    } else {
        short_forms(issues, p)
    });
}

} // verus!
