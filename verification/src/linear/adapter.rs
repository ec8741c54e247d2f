//! From Linear's issues to the library's.

use vstd::prelude::*;

use crate::domain;
use crate::domain::{BlockerRef, BlockerView, Issue, IssueView};
use crate::json;
use crate::json::{Json, JsonView, Number, NumberView};
use crate::linear::types::{InverseRelationNode, LabelNode, LinearIssue, StateNode};
use crate::text;

verus! {

/// The name of a state; empty where it has none.
pub open spec fn state_name(state: Option<StateNode>) -> Seq<char> {
    match state {
        Some(node) => match node.name {
            Some(name) => name@,
            None => Seq::empty(),
        },
        None => Seq::empty(),
    }
}

/// A whole number as a JSON value.
pub open spec fn whole_json(n: int) -> JsonView {
    if n >= 0 {
        JsonView::Number(NumberView::Unsigned(n as u64))
    } else {
        JsonView::Number(NumberView::Negative(n as i64))
    }
}

/// The priority that a value gives: a whole number that fits.
pub open spec fn priority_of(value: Option<JsonView>) -> Option<i32> {
    match value {
        Some(JsonView::Number(NumberView::Unsigned(n))) => if n <= i32::MAX {
            Some(n as i32)
        } else {
            None
        },
        Some(JsonView::Number(NumberView::Negative(n))) => if i32::MIN <= n <= i32::MAX {
            Some(n as i32)
        } else {
            None
        },
        _ => None,
    }
}

/// The labels that nodes name: trimmed, in lower case, and none that is blank.
pub open spec fn labels_of(nodes: Seq<LabelNode>) -> Seq<Seq<char>>
    decreases nodes.len(),
{
    if nodes.len() == 0 {
        Seq::empty()
    } else {
        let before = labels_of(nodes.drop_last());
        match text::filled(text::opt_text(nodes.last().name)) {
            Some(name) => before.push(text::lowered(name)),
            None => before,
        }
    }
}

/// The relation says that the other issue blocks this one.
pub open spec fn blocks(node: InverseRelationNode) -> bool {
    match node.relation_type {
        Some(name) => text::state_key(name@) == text::state_key("blocks"@),
        None => false,
    }
}

/// The issues that block an issue, by its relations.
pub open spec fn blockers_of(nodes: Seq<InverseRelationNode>) -> Seq<BlockerView>
    decreases nodes.len(),
{
    if nodes.len() == 0 {
        Seq::empty()
    } else {
        let before = blockers_of(nodes.drop_last());
        match nodes.last().issue {
            Some(issue) => if blocks(nodes.last()) {
                before.push(
                    BlockerView {
                        id: issue.id@,
                        identifier: issue.identifier@,
                        state: state_name(issue.state),
                    },
                )
            } else {
                before
            },
            None => before,
        }
    }
}

/// The issue that Linear's issue stands for.
pub open spec fn normalized(linear: LinearIssue) -> IssueView {
    IssueView {
        id: linear.id@,
        identifier: linear.identifier@,
        title: match linear.title {
            Some(title) => title@,
            None => Seq::empty(),
        },
        description: text::opt_text(linear.description),
        priority: priority_of(json::opt_json(linear.priority)),
        state: state_name(linear.state),
        branch_name: text::opt_text(linear.branch_name),
        url: text::opt_text(linear.url),
        labels: match linear.labels {
            Some(labels) => labels_of(labels.nodes@),
            None => Seq::empty(),
        },
        blocked_by: match linear.inverse_relations {
            Some(relations) => blockers_of(relations.nodes@),
            None => Seq::empty(),
        },
        created_at: text::opt_text(linear.created_at),
        updated_at: text::opt_text(linear.updated_at),
    }
}

/// The short form of Linear's issue.
pub open spec fn normalized_ref(linear: LinearIssue) -> BlockerView {
    BlockerView {
        id: linear.id@,
        identifier: linear.identifier@,
        state: state_name(linear.state),
    }
}

fn extract_state_name(state: &Option<StateNode>) -> (r: String)
    ensures
        r@ == state_name(*state),
{
    match state {
        Some(node) => match &node.name {
            Some(name) => name.clone(),
            None => String::new(),
        },
        None => String::new(),
    }
}

fn normalize_priority(priority: &Option<Json>) -> (r: Option<i32>)
    ensures
        r == priority_of(json::opt_json(*priority)),
{
    match priority {
        Some(Json::Number(Number::Unsigned(n))) => if *n <= 2_147_483_647 {
            Some(*n as i32)
        } else {
            None
        },
        Some(Json::Number(Number::Negative(n))) => if -2_147_483_648 <= *n && *n
            <= 2_147_483_647 {
            Some(*n as i32)
        } else {
            None
        },
        _ => None,
    }
}

fn normalize_labels(nodes: &Vec<LabelNode>) -> (r: Vec<String>)
    ensures
        text::texts(r@) == labels_of(nodes@),
{
    let mut out: Vec<String> = text::no_texts();
    let mut i: usize = 0;
    proof {
        assert(nodes@.take(0) =~= Seq::<LabelNode>::empty());
    }
    while i < nodes.len()
        invariant
            i <= nodes@.len(),
            text::texts(out@) == labels_of(nodes@.take(i as int)),
        decreases nodes@.len() - i,
    {
        proof {
            assert(nodes@.take(i + 1).drop_last() =~= nodes@.take(i as int));
        }
        if let Some(name) = text::filled_value(&nodes[i].name) {
            text::push_text(&mut out, text::to_lowercase(name));
        }
        i = i + 1;
    }
    proof {
        assert(nodes@.take(nodes@.len() as int) =~= nodes@);
    }
    out
}

fn is_blocking(node: &InverseRelationNode) -> (r: bool)
    ensures
        r == blocks(*node),
{
    match &node.relation_type {
        Some(name) => text::same(
            text::normalize_state(name.as_str()).as_str(),
            text::normalize_state("blocks").as_str(),
        ),
        None => false,
    }
}

fn normalize_blockers(nodes: &Vec<InverseRelationNode>) -> (r: Vec<BlockerRef>)
    ensures
        domain::blockers(r@) == blockers_of(nodes@),
{
    let mut out: Vec<BlockerRef> = Vec::new();
    let mut i: usize = 0;
    proof {
        assert(nodes@.take(0) =~= Seq::<InverseRelationNode>::empty());
        assert(domain::blockers(out@) =~= Seq::<BlockerView>::empty());
    }
    while i < nodes.len()
        invariant
            i <= nodes@.len(),
            domain::blockers(out@) == blockers_of(nodes@.take(i as int)),
        decreases nodes@.len() - i,
    {
        let node = &nodes[i];
        let ghost before = out@;
        proof {
            assert(nodes@.take(i + 1).drop_last() =~= nodes@.take(i as int));
        }
        if let Some(issue) = &node.issue {
            if is_blocking(node) {
                let blocker = BlockerRef {
                    id: issue.id.clone(),
                    identifier: issue.identifier.clone(),
                    state: extract_state_name(&issue.state),
                };
                let ghost model = blocker@;
                out.push(blocker);
                proof {
                    assert(domain::blockers(out@) =~= domain::blockers(before).push(model));
                }
            }
        }
        i = i + 1;
    }
    proof {
        assert(nodes@.take(nodes@.len() as int) =~= nodes@);
    }
    out
}

/// The issue that Linear's issue stands for.
pub fn normalize_issue(linear: &LinearIssue) -> (r: Issue)
    ensures
        r@ == normalized(*linear),
        r.id@ == linear.id@,
        r.identifier@ == linear.identifier@,
        linear.title is Some ==> r.title@ == linear.title->0@,
        linear.title is None ==> r.title@.len() == 0,
        text::opt_text(r.description) == text::opt_text(linear.description),
        text::opt_text(r.branch_name) == text::opt_text(linear.branch_name),
        text::opt_text(r.url) == text::opt_text(linear.url),
        text::opt_text(r.created_at) == text::opt_text(linear.created_at),
        text::opt_text(r.updated_at) == text::opt_text(linear.updated_at),
        linear.state is Some && linear.state->0.name is Some ==> r.state@ == linear.state->0.name->0@,
        linear.state is None || linear.state->0.name is None ==> r.state@.len() == 0,
        forall|n: i32|
            linear.priority is Some && (#[trigger] whole_json(n as int)) == linear.priority->0@
                ==> r.priority == Some(n),
        linear.priority is None ==> r.priority is None,
        linear.labels is None ==> text::texts(r.labels@).len() == 0,
        linear.inverse_relations is None ==> r.blocked_by@.len() == 0,
{
    let labels: Vec<String> = match &linear.labels {
        Some(labels) => normalize_labels(&labels.nodes),
        None => text::no_texts(),
    };
    let blocked_by: Vec<BlockerRef> = match &linear.inverse_relations {
        Some(relations) => normalize_blockers(&relations.nodes),
        None => Vec::new(),
    };
    Issue {
        id: linear.id.clone(),
        identifier: linear.identifier.clone(),
        title: match &linear.title {
            Some(title) => title.clone(),
            None => String::new(),
        },
        description: text::clone_opt(&linear.description),
        priority: normalize_priority(&linear.priority),
        state: extract_state_name(&linear.state),
        branch_name: text::clone_opt(&linear.branch_name),
        url: text::clone_opt(&linear.url),
        labels,
        blocked_by,
        created_at: text::clone_opt(&linear.created_at),
        updated_at: text::clone_opt(&linear.updated_at),
    }
}

/// The short form of Linear's issue.
pub fn normalize_issue_ref(linear: &LinearIssue) -> (r: BlockerRef)
    ensures
        r@ == normalized_ref(*linear),
{
    BlockerRef {
        id: linear.id.clone(),
        identifier: linear.identifier.clone(),
        state: extract_state_name(&linear.state),
    }
}

/// A normalised issue keeps what Linear says of it, field by field; a title or a state that is missing
/// is empty.
pub proof fn lemma_normalized_keeps_fields(linear: LinearIssue)
    ensures
        normalized(linear).id == linear.id@,
        normalized(linear).identifier == linear.identifier@,
        linear.title is Some ==> normalized(linear).title == linear.title->0@,
        linear.title is None ==> normalized(linear).title.len() == 0,
        linear.description is Some ==> normalized(linear).description == Some(
            linear.description->0@,
        ),
        linear.description is None ==> normalized(linear).description is None,
        linear.branch_name is Some ==> normalized(linear).branch_name == Some(
            linear.branch_name->0@,
        ),
        linear.branch_name is None ==> normalized(linear).branch_name is None,
        linear.url is Some ==> normalized(linear).url == Some(linear.url->0@),
        linear.url is None ==> normalized(linear).url is None,
        linear.created_at is Some ==> normalized(linear).created_at == Some(linear.created_at->0@),
        linear.created_at is None ==> normalized(linear).created_at is None,
        linear.updated_at is Some ==> normalized(linear).updated_at == Some(linear.updated_at->0@),
        linear.updated_at is None ==> normalized(linear).updated_at is None,
        linear.state is Some && linear.state->0.name is Some ==> normalized(linear).state
            == linear.state->0.name->0@,
        linear.state is None || linear.state->0.name is None ==> normalized(linear).state.len() == 0,
{
}

/// The short form of an issue has its id, its identifier and the name of its state.
pub proof fn lemma_short_form_keeps_fields(linear: LinearIssue)
    ensures
        normalized_ref(linear).id == linear.id@,
        normalized_ref(linear).identifier == linear.identifier@,
        linear.state is Some && linear.state->0.name is Some ==> normalized_ref(linear).state
            == linear.state->0.name->0@,
        linear.state is None || linear.state->0.name is None ==> normalized_ref(linear).state.len()
            == 0,
{
}

/// A priority is a whole number that fits, as it stands; any other value gives none.
pub proof fn lemma_priority_is_a_whole_number(n: int, value: JsonView)
    ensures
        i32::MIN <= n <= i32::MAX ==> priority_of(Some(whole_json(n))) == Some(n as i32),
        i32::MAX < n <= u64::MAX ==> priority_of(Some(whole_json(n))) is None,
        i64::MIN <= n < i32::MIN ==> priority_of(Some(whole_json(n))) is None,
        value !is Number ==> priority_of(Some(value)) is None,
        priority_of(None) is None,
{
}

/// Each label that is not blank is kept, trimmed and in lower case, and nothing else is a label.
pub proof fn lemma_labels_are_the_names(nodes: Seq<LabelNode>, label: Seq<char>)
    ensures
        labels_of(nodes).contains(label) <==> exists|i: int|
            0 <= i < nodes.len() && (#[trigger] nodes[i]).name is Some && text::trimmed(
                nodes[i].name->0@,
            ).len() > 0 && label == text::lowered(text::trimmed(nodes[i].name->0@)),
        labels_of(nodes).len() <= nodes.len(),
    decreases nodes.len(),
{
    if nodes.len() > 0 {
        let front = nodes.drop_last();
        let last = nodes.last();
        lemma_labels_are_the_names(front, label);
        let before = labels_of(front);
        let after = labels_of(nodes);
        assert(nodes[nodes.len() - 1] == last);
        if last.name is Some {
            text::lemma_trimmed_empty(last.name->0@);
        }
        if before.contains(label) {
            let k = choose|k: int| 0 <= k < before.len() && before[k] == label;
            assert(after[k] == label);
        }
        if after.contains(label) {
            let k = choose|k: int| 0 <= k < after.len() && after[k] == label;
            if k < before.len() {
                assert(before[k] == label);
                let i = choose|i: int|
                    0 <= i < front.len() && (#[trigger] front[i]).name is Some && text::trimmed(
                        front[i].name->0@,
                    ).len() > 0 && label == text::lowered(text::trimmed(front[i].name->0@));
                assert(nodes[i] == front[i]);
            }
        }
        if exists|i: int|
            0 <= i < nodes.len() && (#[trigger] nodes[i]).name is Some && text::trimmed(
                nodes[i].name->0@,
            ).len() > 0 && label == text::lowered(text::trimmed(nodes[i].name->0@)) {
            let i = choose|i: int|
                0 <= i < nodes.len() && (#[trigger] nodes[i]).name is Some && text::trimmed(
                    nodes[i].name->0@,
                ).len() > 0 && label == text::lowered(text::trimmed(nodes[i].name->0@));
            if i < front.len() {
                assert(front[i] == nodes[i]);
            } else {
                assert(after[after.len() - 1] == label);
            }
        }
    }
}

/// Each issue that a relation of the type `blocks` names blocks, with its id, its identifier and the
/// name of its state, whatever the case of the type; and nothing else does.
pub proof fn lemma_blockers_are_the_blocking(nodes: Seq<InverseRelationNode>, blocker: BlockerView)
    ensures
        blockers_of(nodes).contains(blocker) <==> exists|i: int|
            0 <= i < nodes.len() && (#[trigger] nodes[i]).relation_type is Some && text::lower(
                text::trimmed(nodes[i].relation_type->0@),
            ) == text::lower(text::trimmed("blocks"@)) && nodes[i].issue is Some && blocker.id
                == nodes[i].issue->0.id@ && blocker.identifier == nodes[i].issue->0.identifier@
                && blocker.state == state_name(nodes[i].issue->0.state),
    decreases nodes.len(),
{
    text::lemma_state_is_listed("blocks"@, Seq::empty());
    if nodes.len() > 0 {
        let front = nodes.drop_last();
        let last = nodes.last();
        lemma_blockers_are_the_blocking(front, blocker);
        let before = blockers_of(front);
        let after = blockers_of(nodes);
        assert(nodes[nodes.len() - 1] == last);
        if before.contains(blocker) {
            let k = choose|k: int| 0 <= k < before.len() && before[k] == blocker;
            assert(after[k] == blocker);
        }
        if after.contains(blocker) {
            let k = choose|k: int| 0 <= k < after.len() && after[k] == blocker;
            if k < before.len() {
                assert(before[k] == blocker);
                let i = choose|i: int| 0 <= i < front.len() && blocks_as(#[trigger] front[i], blocker);
                assert(nodes[i] == front[i]);
            } else {
                assert(blocks_as(nodes[nodes.len() - 1], blocker));
            }
        }
        if exists|i: int| 0 <= i < nodes.len() && blocks_as(#[trigger] nodes[i], blocker) {
            let i = choose|i: int| 0 <= i < nodes.len() && blocks_as(#[trigger] nodes[i], blocker);
            if i < front.len() {
                assert(front[i] == nodes[i]);
            } else {
                assert(after[after.len() - 1] == blocker);
            }
        }
    }
}

spec fn blocks_as(node: InverseRelationNode, blocker: BlockerView) -> bool {
    node.relation_type is Some && text::lower(text::trimmed(node.relation_type->0@)) == text::lower(
        text::trimmed("blocks"@),
    ) && node.issue is Some && blocker.id == node.issue->0.id@ && blocker.identifier
        == node.issue->0.identifier@ && blocker.state == state_name(node.issue->0.state)
}

/// The name of a state is the one that it has, and empty where it has none.
pub proof fn lemma_state_has_its_name(state: Option<StateNode>)
    ensures
        state is Some && state->0.name is Some ==> state_name(state) == state->0.name->0@,
        state is None || state->0.name is None ==> state_name(state).len() == 0,
{
}

/// Labels and blocking issues come in the order in which Linear names them.
pub proof fn lemma_order_is_kept(
    labels: Seq<LabelNode>,
    label: LabelNode,
    relations: Seq<InverseRelationNode>,
    relation: InverseRelationNode,
)
    ensures
        labels_of(labels.push(label)).len() >= labels_of(labels).len(),
        labels_of(labels.push(label)).take(labels_of(labels).len() as int) == labels_of(labels),
        blockers_of(relations.push(relation)).len() >= blockers_of(relations).len(),
        blockers_of(relations.push(relation)).take(blockers_of(relations).len() as int)
            == blockers_of(relations),
{
    assert(labels.push(label).drop_last() =~= labels);
    assert(relations.push(relation).drop_last() =~= relations);
    let a = labels_of(labels);
    let b = blockers_of(relations);
    assert(labels_of(labels.push(label)).take(a.len() as int) =~= a);
    assert(blockers_of(relations.push(relation)).take(b.len() as int) =~= b);
}

} // verus!
