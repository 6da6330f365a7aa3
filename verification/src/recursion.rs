//! Two-level recursion tree over batch proofs: the tree itself and the order
//! and decisions of its end-to-end check. The caller performs each batch-proof
//! proof verification the tree check asks for and reports its outcome back.
use vstd::prelude::*;
use crate::aggregate::{aggregate_root, fold_root, BatchProof};
use crate::text::{decimal, decimal_string, with_number};

verus! {

/// Child batch proofs and the parent proof over their roots.
#[derive(Debug)]
pub struct RecursionTree {
    pub child_roots: Vec<u32>,
    pub parent_root: u32,
    pub child_proofs: Vec<BatchProof>,
    pub parent_proof: BatchProof,
}

/// The next thing the tree check needs, or its verdict.
#[derive(Debug)]
pub enum TreeStep {
    /// Verify child proof `i` under its own root and leaf count.
    VerifyChild(usize),
    /// Verify the parent proof under the (checked) parent root and the child count.
    VerifyParent,
    /// The tree check is over.
    Finish(Result<(), String>),
}

/// Message for a parent root that is not the fold of the child roots.
pub open spec fn parent_root_message(parent_root: u32, child_roots: Seq<u32>) -> Seq<char> {
    "parent_root "@ + decimal(parent_root as nat) + " != fold(child roots) "@ + decimal(fold_root(child_roots) as nat)
}

/// The step after every child verified: the parent root check, then the parent proof.
pub open spec fn after_children(tree: &RecursionTree, s: TreeStep) -> bool {
    if tree.parent_root == fold_root(tree.child_roots@) {
        s is VerifyParent
    } else {
        s matches TreeStep::Finish(Err(e)) && e@ == parent_root_message(tree.parent_root, tree.child_roots@)
    }
}

fn parent_root_step(tree: &RecursionTree) -> (s: TreeStep)
    ensures
        after_children(tree, s),
{
    let recomputed = aggregate_root(tree.child_roots.as_slice());
    if recomputed != tree.parent_root {
        let mut e = with_number("parent_root ", tree.parent_root as u64);
        e.append(" != fold(child roots) ");
        let t = decimal_string(recomputed as u64);
        e.append(t.as_str());
        return TreeStep::Finish(Err(e));
    }
    TreeStep::VerifyParent
}

/// The first step of the tree check: the first child, or with no children the
/// parent root check.
pub open spec fn is_first_step(tree: &RecursionTree, s: TreeStep) -> bool {
    if tree.child_proofs@.len() > 0 {
        s matches TreeStep::VerifyChild(i) && i == 0
    } else {
        after_children(tree, s)
    }
}

/// `s` follows `step` completed with `outcome`: a failed child or parent ends
/// the tree check with that failure; children go in order; after the last
/// child comes the parent root check, then the parent proof.
pub open spec fn is_next_step(tree: &RecursionTree, step: TreeStep, outcome: Result<(), String>, s: TreeStep) -> bool {
    match step {
        TreeStep::VerifyChild(i) => match outcome {
            Err(e) => s matches TreeStep::Finish(Err(m)) && m@ == "child "@ + decimal(i as nat) + " failed: "@ + e@,
            Ok(_) => if i + 1 < tree.child_proofs@.len() {
                s matches TreeStep::VerifyChild(j) && j == i + 1
            } else {
                after_children(tree, s)
            },
        },
        TreeStep::VerifyParent => match outcome {
            Err(e) => s matches TreeStep::Finish(Err(m)) && m@ == "parent failed: "@ + e@,
            Ok(_) => s matches TreeStep::Finish(Ok(())),
        },
        TreeStep::Finish(_) => false,
    }
}

/// The first step of the tree check: the first child, or with no children the parent.
pub fn first_tree_step(tree: &RecursionTree) -> (s: TreeStep)
    ensures
        is_first_step(tree, s),
        s is VerifyParent ==> tree.parent_root == fold_root(tree.child_roots@),
        !(s matches TreeStep::Finish(Ok(_))),
{
    if tree.child_proofs.len() > 0 {
        TreeStep::VerifyChild(0)
    } else {
        parent_root_step(tree)
    }
}

/// The step after `step` completed with `outcome` (see `is_next_step`).
pub fn next_tree_step(tree: &RecursionTree, step: &TreeStep, outcome: Result<(), String>) -> (s: TreeStep)
    requires
        step !is Finish,
        step matches TreeStep::VerifyChild(i) ==> i < tree.child_proofs@.len(),
    ensures
        is_next_step(tree, *step, outcome, s),
        s is VerifyParent ==> tree.parent_root == fold_root(tree.child_roots@),
        s matches TreeStep::Finish(Ok(_)) ==> (*step is VerifyParent && outcome is Ok),
{
    match step {
        TreeStep::VerifyChild(i) => match outcome {
            Err(e) => {
                let mut m = with_number("child ", *i as u64);
                m.append(" failed: ");
                m.append(e.as_str());
                TreeStep::Finish(Err(m))
            },
            Ok(()) => {
                let n = tree.child_proofs.len();
                assert(*i < n);
                if *i < n - 1 {
                    TreeStep::VerifyChild(*i + 1)
                } else {
                    parent_root_step(tree)
                }
            },
        },
        TreeStep::VerifyParent => match outcome {
            Err(e) => {
                let mut m = String::from_str("parent failed: ");
                m.append(e.as_str());
                TreeStep::Finish(Err(m))
            },
            Ok(()) => TreeStep::Finish(Ok(())),
        },
        TreeStep::Finish(_) => TreeStep::Finish(Ok(())),
    }
}

/// The parent's statements: one trivial valid statement `(1, 0)` per child root.
pub fn parent_statements(child_count: usize) -> (st: Vec<(u64, u64)>)
    ensures
        st@.len() == child_count,
        forall|i: int| 0 <= i < child_count ==> #[trigger] st@[i] == (1u64, 0u64),
{
    let mut st: Vec<(u64, u64)> = Vec::new();
    let mut i: usize = 0;
    while i < child_count
        invariant
            i <= child_count,
            st@.len() == i,
            forall|k: int| 0 <= k < i ==> #[trigger] st@[k] == (1u64, 0u64),
        decreases child_count - i,
    {
        st.push((1, 0));
        i = i + 1;
    }
    st
}

/// `steps` is a run of the tree check with `outcomes[k]` the outcome of
/// `steps[k]`: it starts with the first step and every next step follows the
/// one before.
pub open spec fn is_run(tree: &RecursionTree, steps: Seq<TreeStep>, outcomes: Seq<Result<(), String>>) -> bool {
    &&& steps.len() >= 1
    &&& outcomes.len() == steps.len() - 1
    &&& is_first_step(tree, steps[0])
    &&& forall|k: int| 0 <= k < steps.len() - 1 ==> is_next_step(tree, #[trigger] steps[k], outcomes[k], steps[k + 1])
}

/// Tree-check soundness over a whole run: a run that accepts the tree had a
/// parent root equal to the fold of the child roots (a tampered child root can
/// never be accepted, whatever the proof verifications answer).
pub proof fn lemma_accepting_run_binds_parent_root(
    tree: &RecursionTree,
    steps: Seq<TreeStep>,
    outcomes: Seq<Result<(), String>>,
)
    requires
        is_run(tree, steps, outcomes),
        steps.last() matches TreeStep::Finish(Ok(_)),
    ensures
        tree.parent_root == fold_root(tree.child_roots@),
{
    let n = steps.len();
    if n == 1 {
        assert(is_first_step(tree, steps[0]));
    } else {
        let k = n - 2;
        assert(is_next_step(tree, steps[k], outcomes[k], steps[k + 1]));
        assert(steps[k] is VerifyParent);
        if k == 0 {
            assert(is_first_step(tree, steps[0]));
        } else {
            assert(is_next_step(tree, steps[k - 1], outcomes[k - 1], steps[k]));
        }
    }
}

/// Tree-check completeness over a whole run: when the parent root is the fold
/// of the child roots and every proof verification succeeds, the run that
/// verifies each child in order and then the parent accepts the tree.
pub proof fn lemma_honest_run_accepts(
    tree: &RecursionTree,
    steps: Seq<TreeStep>,
    outcomes: Seq<Result<(), String>>,
)
    requires
        tree.parent_root == fold_root(tree.child_roots@),
        is_run(tree, steps, outcomes),
        steps.len() == tree.child_proofs@.len() + 2,
        forall|k: int| 0 <= k < outcomes.len() ==> #[trigger] outcomes[k] is Ok,
    ensures
        forall|k: int| 0 <= k < tree.child_proofs@.len() ==> #[trigger] steps[k] == TreeStep::VerifyChild(k as usize),
        steps[tree.child_proofs@.len() as int] is VerifyParent,
        steps.last() matches TreeStep::Finish(Ok(_)),
{
    let n = tree.child_proofs@.len() as int;
    assert(tree.child_proofs@.len() == tree.child_proofs.len());
    assert forall|k: int| 0 <= k < n implies #[trigger] steps[k] == TreeStep::VerifyChild(k as usize) by {
        lemma_run_prefix_children(tree, steps, outcomes, k);
    }
    if n == 0 {
        assert(is_first_step(tree, steps[0]));
    } else {
        assert(steps[n - 1] == TreeStep::VerifyChild((n - 1) as usize));
        assert(outcomes[n - 1] is Ok);
        assert(is_next_step(tree, steps[n - 1], outcomes[n - 1], steps[n]));
        assert(after_children(tree, steps[n]));
    }
    assert(steps[n] is VerifyParent);
    assert(outcomes[n] is Ok);
    assert(is_next_step(tree, steps[n], outcomes[n], steps[n + 1]));
    assert(steps.last() == steps[n + 1]);
}

proof fn lemma_run_prefix_children(
    tree: &RecursionTree,
    steps: Seq<TreeStep>,
    outcomes: Seq<Result<(), String>>,
    k: int,
)
    requires
        is_run(tree, steps, outcomes),
        steps.len() == tree.child_proofs@.len() + 2,
        forall|j: int| 0 <= j < outcomes.len() ==> #[trigger] outcomes[j] is Ok,
        0 <= k < tree.child_proofs@.len(),
    ensures
        steps[k] == TreeStep::VerifyChild(k as usize),
    decreases k,
{
    assert(tree.child_proofs@.len() == tree.child_proofs.len());
    if k == 0 {
        assert(is_first_step(tree, steps[0]));
    } else {
        lemma_run_prefix_children(tree, steps, outcomes, k - 1);
        assert(outcomes[k - 1] is Ok);
        assert(is_next_step(tree, steps[k - 1], outcomes[k - 1], steps[k]));
        assert(steps[k] is VerifyChild);
        assert(steps[k]->VerifyChild_0 == k);
    }
}

} // verus!
