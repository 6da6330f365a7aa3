//! Poseidon2/BabyBear leaf primitives: the canonical width-16 permutation,
//! the single-field digest built on it, and the commitment, Merkle and
//! scoped-nullifier helpers derived from that digest.
use vstd::prelude::*;

verus! {

/// State width of the canonical Poseidon2 permutation.
pub const WIDTH: usize = 16;

/// The canonical width-16 Poseidon2 permutation over BabyBear, as a map on
/// 16-element `u32` states (outputs in canonical form).
pub uninterp spec fn poseidon2_permutation(state: Seq<u32>) -> Seq<u32>;

/// Runs `p3_baby_bear::default_babybear_poseidon2_16()` on `x` (each word
/// converted with `BabyBear::new`, each output read back with
/// `as_canonical_u32`). The contract only names the result: it is the
/// canonical permutation of the input state.
#[verifier::external_body]
fn canonical_permute(x: [u32; 16]) -> (out: [u32; 16])
    ensures
        out@ == poseidon2_permutation(x@),
{
    let perm = p3_baby_bear::default_babybear_poseidon2_16();
    let mut state = p3_baby_bear::BabyBear::new_array(x);
    p3_symmetric::Permutation::permute_mut(&perm, &mut state);
    state.map(|e| p3_field::PrimeField32::as_canonical_u32(&e))
}

/// Handle on the canonical permutation (fixed, published round constants).
pub struct Poseidon2 {}

/// The canonical width-16 Poseidon2-BabyBear permutation.
pub fn poseidon2_16() -> (p: Poseidon2) {
    Poseidon2 {}
}

/// `s` truncated to `WIDTH` words and zero-padded to exactly `WIDTH` words.
pub open spec fn pad16(s: Seq<u32>) -> Seq<u32> {
    Seq::new(16, |i: int| if i < s.len() { s[i] } else { 0u32 })
}

/// Single-field digest: lane 0 of the permutation of the zero-padded inputs.
pub open spec fn hash_spec(inputs: Seq<u32>) -> u32 {
    poseidon2_permutation(pad16(inputs))[0]
}

/// Merkle 2-to-1 compression.
pub open spec fn compress_spec(left: u32, right: u32) -> u32 {
    hash_spec(seq![left, right])
}

/// Root reached from `leaf` along `siblings` / `bits`, in order:
/// bit 0 keeps the accumulator on the left, any other bit puts it right.
pub open spec fn merkle_root_spec(leaf: u32, siblings: Seq<u32>, bits: Seq<u8>) -> u32
    decreases siblings.len(),
{
    if siblings.len() == 0 {
        leaf
    } else {
        let acc = merkle_root_spec(leaf, siblings.drop_last(), bits.drop_last());
        if bits.last() == 0 {
            compress_spec(acc, siblings.last())
        } else {
            compress_spec(siblings.last(), acc)
        }
    }
}

/// Apply the permutation to a 16-wide state.
pub fn permute16(p: &Poseidon2, x: [u32; 16]) -> (out: [u32; 16])
    ensures
        out@ == poseidon2_permutation(x@),
{
    canonical_permute(x)
}

/// `inputs` (at most `WIDTH` of them) placed in a zeroed state.
pub(crate) fn pad_state(inputs: &[u32]) -> (a: [u32; 16])
    ensures
        a@ == pad16(inputs@),
{
    let mut a = [0u32; 16];
    let n: usize = if inputs.len() < 16 { inputs.len() } else { 16 };
    let mut i: usize = 0;
    while i < n
        invariant
            n <= 16,
            n <= inputs.len(),
            n == inputs.len() || n == 16,
            i <= n,
            forall|j: int| 0 <= j < i ==> a@[j] == inputs@[j],
            forall|j: int| i <= j < 16 ==> a@[j] == 0u32,
        decreases n - i,
    {
        a[i] = inputs[i];
        i = i + 1;
    }
    assert(a@ =~= pad16(inputs@));
    a
}

/// Single-field digest `permute([inputs.., 0-pad])[0]`; inputs past `WIDTH` are ignored.
pub fn hash(p: &Poseidon2, inputs: &[u32]) -> (d: u32)
    ensures
        d == hash_spec(inputs@),
{
    let a = pad_state(inputs);
    let out = permute16(p, a);
    out[0]
}

/// Identity commitment `hash(secret, nullifier, trapdoor)`.
pub fn commitment(p: &Poseidon2, secret: u32, nullifier: u32, trapdoor: u32) -> (c: u32)
    ensures
        c == hash_spec(seq![secret, nullifier, trapdoor]),
{
    let v = [secret, nullifier, trapdoor];
    let r = hash(p, v.as_slice());
    assert(v@ =~= seq![secret, nullifier, trapdoor]);
    r
}

/// Merkle 2-to-1 compression `hash(left, right)`.
pub fn merkle_compress(p: &Poseidon2, left: u32, right: u32) -> (c: u32)
    ensures
        c == compress_spec(left, right),
{
    let v = [left, right];
    let r = hash(p, v.as_slice());
    assert(v@ =~= seq![left, right]);
    r
}

/// Scoped nullifier `hash(secret, scope)`.
pub fn nullifier(p: &Poseidon2, secret: u32, scope: u32) -> (n: u32)
    ensures
        n == hash_spec(seq![secret, scope]),
{
    let v = [secret, scope];
    let r = hash(p, v.as_slice());
    assert(v@ =~= seq![secret, scope]);
    r
}

/// Recompute a Merkle root from a leaf and its path; `index_bits[i] == 0`
/// keeps the accumulator on the left at level `i`.
pub fn merkle_root(p: &Poseidon2, leaf: u32, siblings: &[u32], index_bits: &[u8]) -> (r: u32)
    requires
        siblings.len() == index_bits.len(),
    ensures
        r == merkle_root_spec(leaf, siblings@, index_bits@),
{
    let mut acc = leaf;
    let mut i: usize = 0;
    while i < siblings.len()
        invariant
            siblings.len() == index_bits.len(),
            i <= siblings.len(),
            acc == merkle_root_spec(leaf, siblings@.take(i as int), index_bits@.take(i as int)),
        decreases siblings.len() - i,
    {
        assert(siblings@.take(i + 1).drop_last() =~= siblings@.take(i as int));
        assert(index_bits@.take(i + 1).drop_last() =~= index_bits@.take(i as int));
        if index_bits[i] == 0 {
            acc = merkle_compress(p, acc, siblings[i]);
        } else {
            acc = merkle_compress(p, siblings[i], acc);
        }
        i = i + 1;
    }
    assert(siblings@.take(siblings.len() as int) =~= siblings@);
    assert(index_bits@.take(index_bits.len() as int) =~= index_bits@);
    acc
}

} // verus!
