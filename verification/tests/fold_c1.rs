use zkp_postcard::fold_c1;
use zkp_postcard::fold_c1::{build_jobs, check_chain, h, pad, LinkedClaims, LinkedWitness};
use zkp_postcard::leaf::{commitment, hash, nullifier, poseidon2_16};

fn sample() -> LinkedWitness {
    LinkedWitness {
        new_outcome: 7,
        blinding: 0xDEAD_BEEF,
        secret: 12_345,
        scope: 1,
        prev_fold_root: 0x1111_1111,
        updated_components: 1_070,
        user_standards_hash: 0x4444_4444,
    }
}

#[test]
fn scope_separation_holds_end_to_end() {
    let mut a = sample();
    let mut b = sample();
    a.scope = 1;
    b.scope = 2;
    assert_ne!(fold_c1::derive(&a).new_nullifier, fold_c1::derive(&b).new_nullifier);
    assert_ne!(fold_c1::derive(&a).new_fold_root, fold_c1::derive(&b).new_fold_root);
}

#[test]
fn chain_rejects_a_substituted_value() {
    let w = sample();
    let s = fold_c1::derive(&w);
    assert!(check_chain(&s, s.new_outcome_commitment ^ 1, s.new_nullifier).is_err());
    assert!(check_chain(&s, s.new_outcome_commitment, s.new_nullifier ^ 1).is_err());
}

#[test]
fn c1_is_now_reported_as_enforced() {
    let c = LinkedClaims::current();
    assert!(c.commitment_nullifier_enforced_in_circuit, "C1 closed 2026-08-06");
    assert!(c.scope_separation_enforced_in_circuit);
    assert!(c.fold_root_hash_enforced_in_circuit);
    assert!(c.weighted_update_enforced);
    assert!(c.threshold_claim_enforced);
}

#[test]
fn derived_chain_accepts_its_own_outputs() {
    let w = sample();
    let s = fold_c1::derive(&w);
    assert!(check_chain(&s, s.new_outcome_commitment, s.new_nullifier).is_ok());
    assert_eq!(
        check_chain(&s, s.new_outcome_commitment ^ 1, s.new_nullifier).unwrap_err(),
        "commitment proof output does not match the value folded"
    );
    assert_eq!(
        check_chain(&s, s.new_outcome_commitment, s.new_nullifier ^ 1).unwrap_err(),
        "nullifier proof output does not match the value folded"
    );
}

#[test]
fn derived_values_are_the_leaf_primitives() {
    let w = sample();
    let s = fold_c1::derive(&w);
    let p = poseidon2_16();
    assert_eq!(s.new_outcome_commitment, hash(&p, &[w.new_outcome, w.blinding]));
    assert_eq!(s.new_nullifier, nullifier(&p, w.secret, w.scope));
    assert_eq!(
        s.new_fold_root,
        hash(&p, &[w.prev_fold_root, s.new_outcome_commitment, s.new_nullifier, w.updated_components, w.user_standards_hash])
    );
    assert_ne!(s.new_outcome_commitment, commitment(&p, w.new_outcome, w.blinding, 1));
    assert_eq!(s.scope, 1);
    assert_eq!(s.prev_fold_root, w.prev_fold_root);
}

#[test]
fn jobs_bind_their_public_values_and_link() {
    let w = sample();
    let (s, jobs) = build_jobs(&w);
    assert_eq!(s, fold_c1::derive(&w));

    assert!(jobs.commitment.public_inputs.is_empty());
    assert_eq!(jobs.commitment.input, pad(&[w.new_outcome, w.blinding]));
    assert_eq!(jobs.commitment.public_values, vec![s.new_outcome_commitment]);
    assert_eq!(h(jobs.commitment.input), s.new_outcome_commitment);

    assert_eq!(jobs.nullifier.public_inputs, vec![1]);
    assert_eq!(jobs.nullifier.public_values, vec![w.scope, s.new_nullifier]);
    assert_eq!(h(jobs.nullifier.input), s.new_nullifier);

    assert_eq!(jobs.fold.public_inputs, vec![0, 1, 2, 3, 4]);
    assert_eq!(
        jobs.fold.public_values,
        vec![s.prev_fold_root, s.new_outcome_commitment, s.new_nullifier, s.updated_components, s.user_standards_hash, s.new_fold_root]
    );
    assert_eq!(h(jobs.fold.input), s.new_fold_root);
}

#[test]
fn pad_keeps_at_most_sixteen_words() {
    let mut expect = [0u32; 16];
    expect[0] = 5;
    expect[1] = 6;
    assert_eq!(pad(&[5, 6]), expect);
    let long: Vec<u32> = (1..=20).collect();
    let padded = pad(&long);
    assert_eq!(padded.to_vec(), (1..=16).collect::<Vec<u32>>());
}
