use zkp_postcard::aggregate::{aggregate_root, BatchProof};
use zkp_postcard::recursion::{first_tree_step, next_tree_step, parent_statements, RecursionTree, TreeStep};

fn batch(root: u32) -> BatchProof {
    BatchProof { proof_bytes: vec![1, 2, 3], root, leaf_count: 2, padded_height: 2 }
}

fn tree(tamper: bool) -> RecursionTree {
    let mut child_roots = vec![0x1111u32, 0x2222];
    let parent_root = aggregate_root(&child_roots);
    if tamper {
        child_roots[0] ^= 1;
    }
    RecursionTree { child_roots, parent_root, child_proofs: vec![batch(0x1111), batch(0x2222)], parent_proof: batch(parent_root) }
}

fn run(t: &RecursionTree, mut outcomes: Vec<Result<(), String>>) -> Result<(), String> {
    let mut step = first_tree_step(t);
    loop {
        if let TreeStep::Finish(r) = &step {
            return r.clone();
        }
        let outcome = outcomes.remove(0);
        step = next_tree_step(t, &step, outcome);
    }
}

#[test]
fn an_untampered_tree_with_valid_proofs_is_accepted() {
    let t = tree(false);
    assert!(matches!(first_tree_step(&t), TreeStep::VerifyChild(0)));
    assert_eq!(run(&t, vec![Ok(()), Ok(()), Ok(())]), Ok(()));
}

#[test]
fn a_tampered_child_root_breaks_the_tree() {
    let t = tree(true);
    let err = run(&t, vec![Ok(()), Ok(())]).unwrap_err();
    assert_eq!(err, format!("parent_root {} != fold(child roots) {}", t.parent_root, aggregate_root(&t.child_roots)));
}

#[test]
fn a_failing_proof_stops_the_check_with_its_reason() {
    let t = tree(false);
    assert_eq!(run(&t, vec![Ok(()), Err("bad".to_string())]).unwrap_err(), "child 1 failed: bad");
    assert_eq!(run(&t, vec![Err("x".to_string())]).unwrap_err(), "child 0 failed: x");
    assert_eq!(run(&t, vec![Ok(()), Ok(()), Err("y".to_string())]).unwrap_err(), "parent failed: y");
}

#[test]
fn parent_statements_are_trivially_valid() {
    assert_eq!(parent_statements(2), vec![(1, 0), (1, 0)]);
    assert!(parent_statements(0).is_empty());
}
