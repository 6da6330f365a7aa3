//! Linked fold: the outcome commitment and the scoped nullifier are derived
//! from private preimages by two further bound-hash proofs, and the fold
//! consumes exactly their outputs. Each bound hash pins selected inputs and its
//! output to public values; the chain is checked across the three statements.
use vstd::prelude::*;
use crate::leaf::{pad16, pad_state, permute16, poseidon2_16, poseidon2_permutation};

verus! {

/// Lane 0 of the canonical permutation of a full state.
pub open spec fn h_spec(a: Seq<u32>) -> u32 {
    poseidon2_permutation(a)[0]
}

/// Lane 0 of the canonical permutation of `a`.
pub fn h(a: [u32; 16]) -> (d: u32)
    ensures
        d == h_spec(a@),
{
    let p = poseidon2_16();
    permute16(&p, a)[0]
}

/// `vals` (at most 16) in a zeroed 16-wide state.
pub fn pad(vals: &[u32]) -> (a: [u32; 16])
    ensures
        a@ == pad16(vals@),
{
    pad_state(vals)
}

/// Secrets the linked fold opens.
#[derive(Debug, Clone, Copy, PartialEq, Eq, Structural)]
pub struct LinkedWitness {
    pub new_outcome: u32,
    pub blinding: u32,
    pub secret: u32,
    pub scope: u32,
    pub prev_fold_root: u32,
    pub updated_components: u32,
    pub user_standards_hash: u32,
}

/// The public statement of a linked fold step.
#[derive(Debug, Clone, Copy, PartialEq, Eq, Structural)]
pub struct LinkedStatement {
    pub prev_fold_root: u32,
    pub new_outcome_commitment: u32,
    pub new_nullifier: u32,
    pub scope: u32,
    pub updated_components: u32,
    pub user_standards_hash: u32,
    pub new_fold_root: u32,
}

/// State of the commitment hash: `[new_outcome, blinding, 0..]`.
pub open spec fn commitment_state(w: LinkedWitness) -> Seq<u32> {
    pad16(seq![w.new_outcome, w.blinding])
}

/// State of the nullifier hash: `[secret, scope, 0..]`.
pub open spec fn nullifier_state(w: LinkedWitness) -> Seq<u32> {
    pad16(seq![w.secret, w.scope])
}

/// State of the fold hash over the linked statement's public inputs.
pub open spec fn linked_fold_state(s: LinkedStatement) -> Seq<u32> {
    pad16(seq![s.prev_fold_root, s.new_outcome_commitment, s.new_nullifier, s.updated_components, s.user_standards_hash])
}

/// The statement derived from a witness.
pub open spec fn derived(w: LinkedWitness) -> LinkedStatement {
    let c = h_spec(commitment_state(w));
    let n = h_spec(nullifier_state(w));
    let s = LinkedStatement {
        prev_fold_root: w.prev_fold_root,
        new_outcome_commitment: c,
        new_nullifier: n,
        scope: w.scope,
        updated_components: w.updated_components,
        user_standards_hash: w.user_standards_hash,
        new_fold_root: 0,
    };
    LinkedStatement { new_fold_root: h_spec(linked_fold_state(s)), ..s }
}

/// Derive the commitment, the scoped nullifier and the fold root from a witness.
pub fn derive(w: &LinkedWitness) -> (s: LinkedStatement)
    ensures
        s == derived(*w),
{
    let c_in = [w.new_outcome, w.blinding];
    let new_outcome_commitment = h(pad(c_in.as_slice()));
    assert(c_in@ =~= seq![w.new_outcome, w.blinding]);
    let n_in = [w.secret, w.scope];
    let new_nullifier = h(pad(n_in.as_slice()));
    assert(n_in@ =~= seq![w.secret, w.scope]);
    let f_in = [w.prev_fold_root, new_outcome_commitment, new_nullifier, w.updated_components, w.user_standards_hash];
    let new_fold_root = h(pad(f_in.as_slice()));
    assert(f_in@ =~= seq![w.prev_fold_root, new_outcome_commitment, new_nullifier, w.updated_components, w.user_standards_hash]);
    LinkedStatement {
        prev_fold_root: w.prev_fold_root,
        new_outcome_commitment,
        new_nullifier,
        scope: w.scope,
        updated_components: w.updated_components,
        user_standards_hash: w.user_standards_hash,
        new_fold_root,
    }
}

/// One bound hash: the permutation input, which input positions are public,
/// and the public values `[those inputs..., output]`.
#[derive(Debug, Clone, PartialEq)]
pub struct HashJob {
    pub public_inputs: Vec<usize>,
    pub input: [u32; 16],
    pub public_values: Vec<u32>,
}

/// The three bound hashes that together close the linked fold.
#[derive(Debug, Clone, PartialEq)]
pub struct FoldJobs {
    pub commitment: HashJob,
    pub nullifier: HashJob,
    pub fold: HashJob,
}

/// A job's public values are its selected inputs, in order, then lane 0 of its output.
pub open spec fn job_bound(job: HashJob) -> bool {
    &&& forall|i: int| 0 <= i < job.public_inputs@.len() ==> #[trigger] job.public_inputs@[i] < 16
    &&& job.public_values@.len() == job.public_inputs@.len() + 1
    &&& forall|i: int| 0 <= i < job.public_inputs@.len()
        ==> #[trigger] job.public_values@[i] == job.input@[job.public_inputs@[i] as int]
    &&& job.public_values@.last() == h_spec(job.input@)
}

/// The three bound-hash jobs for a witness, with the statement they link.
///
/// The commitment keeps both preimage parts private; the nullifier makes only
/// `scope` public; the fold makes all five inputs public, including the
/// commitment and nullifier the other two jobs output.
pub fn build_jobs(w: &LinkedWitness) -> (r: (LinkedStatement, FoldJobs))
    ensures
        r.0 == derived(*w),
        job_bound(r.1.commitment),
        job_bound(r.1.nullifier),
        job_bound(r.1.fold),
        r.1.commitment.public_inputs@ == Seq::<usize>::empty(),
        r.1.commitment.input@ == commitment_state(*w),
        r.1.nullifier.public_inputs@ == seq![1usize],
        r.1.nullifier.input@ == nullifier_state(*w),
        r.1.fold.public_inputs@ == seq![0usize, 1, 2, 3, 4],
        r.1.fold.input@ == linked_fold_state(r.0),
        r.1.fold.public_values@[1] == r.1.commitment.public_values@.last(),
        r.1.fold.public_values@[2] == r.1.nullifier.public_values@.last(),
        r.1.nullifier.public_values@[0] == w.scope,
        r.1.fold.public_values@.last() == r.0.new_fold_root,
{
    let s = derive(w);

    let c_in = [w.new_outcome, w.blinding];
    let c_state = pad(c_in.as_slice());
    assert(c_in@ =~= seq![w.new_outcome, w.blinding]);
    let mut c_pis: Vec<u32> = Vec::new();
    c_pis.push(s.new_outcome_commitment);
    let commitment = HashJob { public_inputs: Vec::new(), input: c_state, public_values: c_pis };
    assert(commitment.public_inputs@ =~= Seq::<usize>::empty());

    let n_in = [w.secret, w.scope];
    let n_state = pad(n_in.as_slice());
    assert(n_in@ =~= seq![w.secret, w.scope]);
    let mut n_pos: Vec<usize> = Vec::new();
    n_pos.push(1);
    let mut n_pis: Vec<u32> = Vec::new();
    n_pis.push(s.scope);
    n_pis.push(s.new_nullifier);
    let nullifier = HashJob { public_inputs: n_pos, input: n_state, public_values: n_pis };
    assert(nullifier.public_inputs@ =~= seq![1usize]);

    let f_in = [s.prev_fold_root, s.new_outcome_commitment, s.new_nullifier, s.updated_components, s.user_standards_hash];
    let f_state = pad(f_in.as_slice());
    assert(f_in@ =~= seq![s.prev_fold_root, s.new_outcome_commitment, s.new_nullifier, s.updated_components, s.user_standards_hash]);
    let mut f_pos: Vec<usize> = Vec::new();
    let mut f_pis: Vec<u32> = Vec::new();
    let mut k: usize = 0;
    while k < 5
        invariant
            k <= 5,
            f_pos@.len() == k,
            f_pis@.len() == k,
            forall|i: int| 0 <= i < k ==> #[trigger] f_pos@[i] == i,
            forall|i: int| 0 <= i < k ==> #[trigger] f_pis@[i] == f_state@[i],
        decreases 5 - k,
    {
        f_pos.push(k);
        f_pis.push(f_state[k]);
        k = k + 1;
    }
    f_pis.push(s.new_fold_root);
    let fold = HashJob { public_inputs: f_pos, input: f_state, public_values: f_pis };
    assert(fold.public_inputs@ =~= seq![0usize, 1, 2, 3, 4]);
    (s, FoldJobs { commitment, nullifier, fold })
}

/// Check that the commitment and nullifier proofs output exactly the values the fold hashed.
pub fn check_chain(s: &LinkedStatement, commitment_out: u32, nullifier_out: u32) -> (r: Result<(), String>)
    ensures
        r is Ok <==> (commitment_out == s.new_outcome_commitment && nullifier_out == s.new_nullifier),
        r matches Err(e) ==> e@ == (if commitment_out != s.new_outcome_commitment {
            "commitment proof output does not match the value folded"@
        } else {
            "nullifier proof output does not match the value folded"@
        }),
{
    if commitment_out != s.new_outcome_commitment {
        return Err(String::from_str("commitment proof output does not match the value folded"));
    }
    if nullifier_out != s.new_nullifier {
        return Err(String::from_str("nullifier proof output does not match the value folded"));
    }
    Ok(())
}

/// What the linked fold enforces.
#[derive(Debug, Clone, Copy, PartialEq, Eq, Structural)]
pub struct LinkedClaims {
    pub commitment_nullifier_enforced_in_circuit: bool,
    pub weighted_update_enforced: bool,
    pub fold_root_hash_enforced_in_circuit: bool,
    pub threshold_claim_enforced: bool,
    pub scope_separation_enforced_in_circuit: bool,
}

impl LinkedClaims {
    /// Every claim is enforced for the linked fold.
    pub fn current() -> (c: Self)
        ensures
            c.commitment_nullifier_enforced_in_circuit,
            c.weighted_update_enforced,
            c.fold_root_hash_enforced_in_circuit,
            c.threshold_claim_enforced,
            c.scope_separation_enforced_in_circuit,
    {
        LinkedClaims {
            commitment_nullifier_enforced_in_circuit: true,
            weighted_update_enforced: true,
            fold_root_hash_enforced_in_circuit: true,
            threshold_claim_enforced: true,
            scope_separation_enforced_in_circuit: true,
        }
    }
}

/// Chain law: the statement derived from a witness passes `check_chain`
/// against its own commitment and nullifier outputs, and the fold job's public
/// commitment and nullifier are exactly the outputs of the other two jobs.
pub proof fn lemma_derived_chain_links(w: LinkedWitness)
    ensures
        derived(w).new_outcome_commitment == h_spec(commitment_state(w)),
        derived(w).new_nullifier == h_spec(nullifier_state(w)),
        derived(w).new_fold_root == h_spec(linked_fold_state(derived(w))),
{
    let s = derived(w);
    assert(linked_fold_state(s) =~= linked_fold_state(LinkedStatement { new_fold_root: 0, ..s }));
}

} // verus!
