//! Progressive fold: a reputation update proven as a delta over the previous
//! aggregate root. The fold root is Poseidon2 over the public statement; the
//! weighted update and threshold claim are checked natively by `verify_fold`.
use vstd::prelude::*;
use crate::leaf::{hash_spec, pad16, permute16, poseidon2_16, poseidon2_permutation};
use crate::text::{decimal, decimal_string, with_number};

verus! {

/// Public statement of one fold step.
#[derive(Debug, Clone, Copy, PartialEq, Eq, Structural)]
pub struct FoldStatement {
    pub prev_fold_root: u32,
    pub new_outcome_commitment: u32,
    pub new_nullifier: u32,
    pub updated_components: u32,
    pub user_standards_hash: u32,
    pub new_fold_root: u32,
    pub threshold: u32,
    /// The updated score the threshold claim is about.
    pub new_score: u32,
}

/// The private witness for one fold step.
#[derive(Debug, Clone, Copy, PartialEq, Eq, Structural)]
pub struct FoldWitness {
    /// Previous aggregated score component.
    pub prev_state: u32,
    /// The new outcome's contribution, pre-weight.
    pub new_outcome: u32,
    /// Weight applied to the new outcome.
    pub weight: u32,
}

/// Which of the four fold constraints the circuit enforces and which it only binds.
#[derive(Debug, Clone, Copy, PartialEq, Eq, Structural)]
pub struct FoldClaims {
    /// C1 commitment + nullifier correctness: bound into the root, not derived in-circuit.
    pub commitment_nullifier_enforced_in_circuit: bool,
    /// C2 weighted update: checked by `verify_fold`.
    pub weighted_update_enforced: bool,
    /// C3 fold-root hash: enforced by the Poseidon2 AIR.
    pub fold_root_hash_enforced_in_circuit: bool,
    /// C4 threshold claim: checked by `verify_fold`.
    pub threshold_claim_enforced: bool,
}

/// The claims of the bound-commitment fold.
pub open spec fn fold_claims() -> FoldClaims {
    FoldClaims {
        commitment_nullifier_enforced_in_circuit: false,
        weighted_update_enforced: true,
        fold_root_hash_enforced_in_circuit: true,
        threshold_claim_enforced: true,
    }
}

impl FoldClaims {
    /// The claims this fold actually makes.
    pub fn current() -> (c: Self)
        ensures
            c == fold_claims(),
    {
        FoldClaims {
            commitment_nullifier_enforced_in_circuit: false,
            weighted_update_enforced: true,
            fold_root_hash_enforced_in_circuit: true,
            threshold_claim_enforced: true,
        }
    }
}

/// `prev + new * weight` on `u32`, each operation saturating at `u32::MAX`.
pub open spec fn weighted_update_spec(prev_state: u32, new_outcome: u32, weight: u32) -> u32 {
    let prod: int = if new_outcome * weight > u32::MAX { u32::MAX as int } else { new_outcome * weight };
    if prev_state + prod > u32::MAX { u32::MAX } else { (prev_state + prod) as u32 }
}

/// The published weighted update rule (saturating, never wrapping).
pub fn weighted_update(prev_state: u32, new_outcome: u32, weight: u32) -> (r: u32)
    ensures
        r == weighted_update_spec(prev_state, new_outcome, weight),
{
    assert((new_outcome as u64) * (weight as u64) <= u64::MAX) by (nonlinear_arith)
        requires new_outcome <= u32::MAX, weight <= u32::MAX;
    let prod: u64 = (new_outcome as u64) * (weight as u64);
    let scaled: u32 = if prod > 0xFFFF_FFFFu64 { 0xFFFF_FFFFu32 } else { prod as u32 };
    prev_state.saturating_add(scaled)
}

/// The five hashed statement fields, in the fixed fold-input order.
pub open spec fn fold_fields(s: FoldStatement) -> Seq<u32> {
    seq![s.prev_fold_root, s.new_outcome_commitment, s.new_nullifier, s.updated_components, s.user_standards_hash]
}

/// The fold root the statement's inputs hash to.
pub open spec fn fold_root_of(s: FoldStatement) -> u32 {
    hash_spec(fold_fields(s))
}

/// The 16-wide Poseidon2 input of the fold hash: prev root, outcome commitment,
/// nullifier, updated components, standards hash, then zero padding.
pub fn fold_input(s: &FoldStatement) -> (a: [u32; 16])
    ensures
        a@ == pad16(fold_fields(*s)),
{
    let mut a = [0u32; 16];
    a[0] = s.prev_fold_root;
    a[1] = s.new_outcome_commitment;
    a[2] = s.new_nullifier;
    a[3] = s.updated_components;
    a[4] = s.user_standards_hash;
    assert(a@ =~= pad16(fold_fields(*s)));
    a
}

/// The fold root of a statement, computed natively.
pub fn compute_fold_root(s: &FoldStatement) -> (root: u32)
    ensures
        root == fold_root_of(*s),
{
    let p = poseidon2_16();
    let input = fold_input(s);
    let out = permute16(&p, input);
    out[0]
}

/// The statement `build_fold` assembles from its arguments.
pub open spec fn built_fold(
    prev_fold_root: u32,
    new_outcome_commitment: u32,
    new_nullifier: u32,
    user_standards_hash: u32,
    threshold: u32,
    w: FoldWitness,
) -> FoldStatement {
    let new_score = weighted_update_spec(w.prev_state, w.new_outcome, w.weight);
    let s = FoldStatement {
        prev_fold_root,
        new_outcome_commitment,
        new_nullifier,
        updated_components: new_score,
        user_standards_hash,
        new_fold_root: 0,
        threshold,
        new_score,
    };
    FoldStatement { new_fold_root: fold_root_of(s), ..s }
}

/// Assemble a complete, self-consistent fold step from a witness.
pub fn build_fold(
    prev_fold_root: u32,
    new_outcome_commitment: u32,
    new_nullifier: u32,
    user_standards_hash: u32,
    threshold: u32,
    w: FoldWitness,
) -> (s: FoldStatement)
    ensures
        s == built_fold(prev_fold_root, new_outcome_commitment, new_nullifier, user_standards_hash, threshold, w),
{
    let new_score = weighted_update(w.prev_state, w.new_outcome, w.weight);
    let mut s = FoldStatement {
        prev_fold_root,
        new_outcome_commitment,
        new_nullifier,
        updated_components: new_score,
        user_standards_hash,
        new_fold_root: 0,
        threshold,
        new_score,
    };
    s.new_fold_root = compute_fold_root(&s);
    s
}

/// Message for a declared root that is not the hash of the inputs.
pub open spec fn root_mismatch_message(declared: u32, recomputed: u32) -> Seq<char> {
    "fold root mismatch: declared "@ + decimal(declared as nat) + " but inputs hash to "@ + decimal(recomputed as nat)
}

/// Message for a root that commits to a different score than the claim.
pub open spec fn components_mismatch_message() -> Seq<char> {
    "updated_components does not match new_score — the root commits to a different value than the threshold claim"@
}

/// Message for a false threshold claim.
pub open spec fn threshold_false_message(score: u32, threshold: u32) -> Seq<char> {
    "threshold claim false: new_score "@ + decimal(score as nat) + " < threshold "@ + decimal(threshold as nat)
}

/// Message for a witness that does not reproduce the claimed score.
pub open spec fn update_mismatch_message(expected: u32, claimed: u32) -> Seq<char> {
    "weighted update mismatch: witness yields "@ + decimal(expected as nat) + " but statement claims "@ + decimal(claimed as nat)
}

/// The witness, when given, reproduces the statement's score.
pub open spec fn witness_consistent(s: FoldStatement, w: Option<FoldWitness>) -> bool {
    match w {
        Some(w) => weighted_update_spec(w.prev_state, w.new_outcome, w.weight) == s.new_score,
        None => true,
    }
}

/// A statement passes every native fold check.
pub open spec fn fold_valid(s: FoldStatement, w: Option<FoldWitness>) -> bool {
    &&& fold_root_of(s) == s.new_fold_root
    &&& s.updated_components == s.new_score
    &&& s.new_score >= s.threshold
    &&& witness_consistent(s, w)
}

/// The message of the first failing check, in check order.
pub open spec fn fold_error(s: FoldStatement, w: Option<FoldWitness>) -> Seq<char> {
    if fold_root_of(s) != s.new_fold_root {
        root_mismatch_message(s.new_fold_root, fold_root_of(s))
    } else if s.updated_components != s.new_score {
        components_mismatch_message()
    } else if s.new_score < s.threshold {
        threshold_false_message(s.new_score, s.threshold)
    } else {
        update_mismatch_message(
            weighted_update_spec(w->0.prev_state, w->0.new_outcome, w->0.weight),
            s.new_score,
        )
    }
}

fn two_number_message(a: &str, x: u32, b: &str, y: u32) -> (m: String)
    ensures
        m@ == a@ + decimal(x as nat) + b@ + decimal(y as nat),
{
    let mut m = with_number(a, x as u64);
    m.append(b);
    let t = decimal_string(y as u64);
    m.append(t.as_str());
    m
}

/// Native re-check of every claim in a fold statement: root (C3), root/score
/// binding, threshold (C4), and with a witness the weighted update (C2).
pub fn verify_fold(s: &FoldStatement, w: Option<&FoldWitness>) -> (r: Result<FoldClaims, String>)
    ensures
        r is Ok <==> fold_valid(*s, match w { Some(x) => Some(*x), None => None }),
        r matches Ok(c) ==> c == fold_claims(),
        r matches Err(e) ==> e@ == fold_error(*s, match w { Some(x) => Some(*x), None => None }),
        r is Ok ==> s.new_fold_root == hash_spec(
            seq![s.prev_fold_root, s.new_outcome_commitment, s.new_nullifier, s.updated_components, s.user_standards_hash],
        ),
        r is Ok ==> s.updated_components == s.new_score && s.new_score >= s.threshold,
{
    proof { lemma_fold_checks_hold_without_witness(*s, match w { Some(x) => Some(*x), None => None }); }
    let recomputed = compute_fold_root(s);
    if recomputed != s.new_fold_root {
        return Err(two_number_message("fold root mismatch: declared ", s.new_fold_root, " but inputs hash to ", recomputed));
    }
    if s.updated_components != s.new_score {
        return Err(String::from_str("updated_components does not match new_score — the root commits to a different value than the threshold claim"));
    }
    if s.new_score < s.threshold {
        return Err(two_number_message("threshold claim false: new_score ", s.new_score, " < threshold ", s.threshold));
    }
    if let Some(w) = w {
        let expected = weighted_update(w.prev_state, w.new_outcome, w.weight);
        if expected != s.new_score {
            return Err(two_number_message("weighted update mismatch: witness yields ", expected, " but statement claims ", s.new_score));
        }
    }
    Ok(FoldClaims::current())
}

/// Every accepted fold step, with or without a witness, declares the
/// Poseidon2 hash of its five bound inputs as its root, commits the root to
/// the score it claims and clears its threshold; a witness only adds the
/// weighted-update check, so whatever passes with a witness passes without.
pub proof fn lemma_fold_checks_hold_without_witness(s: FoldStatement, w: Option<FoldWitness>)
    ensures
        fold_valid(s, w) ==> s.new_fold_root == hash_spec(
            seq![s.prev_fold_root, s.new_outcome_commitment, s.new_nullifier, s.updated_components, s.user_standards_hash],
        ),
        fold_valid(s, w) ==> s.updated_components == s.new_score && s.new_score >= s.threshold,
        fold_valid(s, w) ==> fold_valid(s, None),
        w matches Some(x) ==> (fold_valid(s, w) <==> fold_valid(s, None)
            && weighted_update_spec(x.prev_state, x.new_outcome, x.weight) == s.new_score),
{
}

/// Fold completeness: a step assembled by `build_fold` passes `verify_fold`
/// with its own witness exactly when the updated score meets the threshold.
pub proof fn lemma_built_fold_verifies(
    prev_fold_root: u32,
    new_outcome_commitment: u32,
    new_nullifier: u32,
    user_standards_hash: u32,
    threshold: u32,
    w: FoldWitness,
)
    ensures
        fold_valid(
            built_fold(prev_fold_root, new_outcome_commitment, new_nullifier, user_standards_hash, threshold, w),
            Some(w),
        ) <==> weighted_update_spec(w.prev_state, w.new_outcome, w.weight) >= threshold,
{
    let s = built_fold(prev_fold_root, new_outcome_commitment, new_nullifier, user_standards_hash, threshold, w);
    assert(fold_fields(s) =~= fold_fields(FoldStatement { new_fold_root: 0, ..s }));
}

/// The weighted update never lowers the previous state; with a zero weight or
/// a zero outcome it is exactly the previous state, and otherwise it strictly
/// raises any state below `u32::MAX`.
pub proof fn lemma_weighted_update_monotone(prev_state: u32, new_outcome: u32, weight: u32)
    ensures
        weighted_update_spec(prev_state, new_outcome, weight) >= prev_state,
        (weight == 0 || new_outcome == 0) ==> weighted_update_spec(prev_state, new_outcome, weight) == prev_state,
        (weight != 0 && new_outcome != 0 && prev_state < u32::MAX) ==> weighted_update_spec(prev_state, new_outcome, weight) > prev_state,
{
    assert(new_outcome * weight >= 0) by (nonlinear_arith)
        requires new_outcome >= 0, weight >= 0;
    if weight == 0 || new_outcome == 0 {
        assert(new_outcome * weight == 0) by (nonlinear_arith)
            requires weight == 0 || new_outcome == 0;
    } else {
        assert(new_outcome * weight >= 1) by (nonlinear_arith)
            requires weight >= 1, new_outcome >= 1;
    }
}

/// Whether the weighted update actually constrains anything: with a zero
/// weight or a zero outcome it degenerates to `new_score == prev_state`.
pub fn update_is_binding(w: &FoldWitness) -> (b: bool)
    ensures
        b == (w.weight != 0 && w.new_outcome != 0),
        !b ==> weighted_update_spec(w.prev_state, w.new_outcome, w.weight) == w.prev_state,
{
    proof { lemma_weighted_update_monotone(w.prev_state, w.new_outcome, w.weight); }
    !(w.weight == 0 || w.new_outcome == 0)
}

} // verus!
