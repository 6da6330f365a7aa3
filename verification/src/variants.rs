//! Earned / perceived / combined RepID statements: sums of attested weights
//! against a threshold, bound to a holder commitment `sha256(holder || nonce)`.
use vstd::prelude::*;
use vstd::string::StringSliceAdditionalSpecFns;
use vstd::utf8::encode_utf8;
use crate::digest::{sha256, sha256_digest};
use crate::text::{decimal, with_number};
use crate::circuit::{lemma_trace_height_ge, padded_height, pow2_at_least, trace_height, BABYBEAR_P};

verus! {

/// AIR of the earned-RepID running sum.
pub struct EarnedRepIdAir {
    pub threshold: u32,
}

/// AIR of the perceived-RepID running sum (same shape as the earned one).
pub struct PerceivedRepIdAir {
    pub threshold: u32,
}

/// Sum of a weight sequence.
pub open spec fn weight_sum(w: Seq<u32>) -> int
    decreases w.len(),
{
    if w.len() == 0 {
        0
    } else {
        weight_sum(w.drop_last()) + w.last()
    }
}

proof fn lemma_weight_sum_prefix_bounded(w: Seq<u32>, k: int)
    requires
        0 <= k <= w.len(),
    ensures
        0 <= weight_sum(w.take(k)) <= weight_sum(w),
    decreases w.len() - k,
{
    if k < w.len() {
        lemma_weight_sum_prefix_bounded(w, k + 1);
        assert(w.take(k + 1).drop_last() =~= w.take(k));
        assert(w.take(k + 1).last() == w[k]);
        assert(weight_sum(w.take(k + 1)) == weight_sum(w.take(k)) + w[k]);
        lemma_weight_sum_nonneg(w.take(k));
    } else {
        assert(w.take(k) =~= w);
        lemma_weight_sum_nonneg(w);
    }
}

proof fn lemma_weight_sum_nonneg(w: Seq<u32>)
    ensures
        weight_sum(w) >= 0,
    decreases w.len(),
{
    if w.len() > 0 {
        lemma_weight_sum_nonneg(w.drop_last());
    }
}

/// The holder commitment `sha256(holder_address || nonce)`.
pub open spec fn holder_commitment_spec(holder_address: Seq<u8>, nonce: Seq<u8>) -> Seq<u8> {
    sha256_digest(holder_address + nonce)
}

/// `sha256(holder_address || nonce)`.
pub fn holder_commitment(holder_address: &[u8; 20], nonce: &[u8; 32]) -> (c: [u8; 32])
    ensures
        c@ == holder_commitment_spec(holder_address@, nonce@),
{
    let mut data: Vec<u8> = Vec::new();
    let mut i: usize = 0;
    while i < 20
        invariant
            i <= 20,
            data@ == holder_address@.take(i as int),
        decreases 20 - i,
    {
        data.push(holder_address[i]);
        assert(holder_address@.take(i + 1) =~= holder_address@.take(i as int).push(holder_address@[i as int]));
        i = i + 1;
    }
    let mut j: usize = 0;
    while j < 32
        invariant
            j <= 32,
            data@ == holder_address@ + nonce@.take(j as int),
        decreases 32 - j,
    {
        data.push(nonce[j]);
        assert(holder_address@ + nonce@.take(j + 1) =~= (holder_address@ + nonce@.take(j as int)).push(nonce@[j as int]));
        j = j + 1;
    }
    assert(nonce@.take(32) =~= nonce@);
    assert(holder_address@.take(20) =~= holder_address@);
    sha256(data.as_slice())
}

fn same_digest(a: &[u8; 32], b: &[u8; 32]) -> (eq: bool)
    ensures
        eq == (a@ == b@),
{
    let mut i: usize = 0;
    while i < 32
        invariant
            i <= 32,
            forall|k: int| 0 <= k < i ==> a@[k] == b@[k],
        decreases 32 - i,
    {
        if a[i] != b[i] {
            return false;
        }
        i = i + 1;
    }
    assert(a@ =~= b@);
    true
}

fn sum_weights(weights: &[u32]) -> (s: u32)
    requires
        weight_sum(weights@) <= u32::MAX,
    ensures
        s == weight_sum(weights@),
{
    let mut s: u32 = 0;
    let mut i: usize = 0;
    while i < weights.len()
        invariant
            i <= weights@.len(),
            weight_sum(weights@) <= u32::MAX,
            s == weight_sum(weights@.take(i as int)),
        decreases weights@.len() - i,
    {
        assert(weights@.take(i + 1).drop_last() =~= weights@.take(i as int));
        proof { lemma_weight_sum_prefix_bounded(weights@, i + 1); }
        s = s + weights[i];
        i = i + 1;
    }
    assert(weights@.take(weights@.len() as int) =~= weights@);
    s
}

/// Why an earned/perceived statement is refused, if it is.
pub open spec fn earned_statement_error(
    weights: Seq<u32>,
    threshold: u32,
    holder_address: Seq<u8>,
    nonce: Seq<u8>,
    expected_commitment: Seq<u8>,
) -> Option<Seq<char>> {
    if weight_sum(weights) < threshold {
        Some("Sum < T"@)
    } else if holder_commitment_spec(holder_address, nonce) != expected_commitment {
        Some("commitment_mismatch"@)
    } else {
        None
    }
}

/// Check an earned (or perceived) statement: the weights must sum to at least
/// the threshold, and the holder commitment must match.
pub fn check_earned_statement(
    weights: &[u32],
    threshold: u32,
    holder_address: &[u8; 20],
    nonce: &[u8; 32],
    expected_commitment: &[u8; 32],
) -> (r: Result<(), String>)
    requires
        weight_sum(weights@) <= u32::MAX,
    ensures
        r is Ok <==> earned_statement_error(weights@, threshold, holder_address@, nonce@, expected_commitment@) is None,
        r matches Err(e) ==> e@ == earned_statement_error(weights@, threshold, holder_address@, nonce@, expected_commitment@)->0,
{
    let sum = sum_weights(weights);
    if sum < threshold {
        return Err(String::from_str("Sum < T"));
    }
    let c = holder_commitment(holder_address, nonce);
    if !same_digest(&c, expected_commitment) {
        return Err(String::from_str("commitment_mismatch"));
    }
    Ok(())
}

/// The weights padded with zeros to `trace_height(len)` rows.
pub open spec fn padded_weights(w: Seq<u32>) -> Seq<u32> {
    Seq::new(trace_height(w.len()), |i: int| if i < w.len() { w[i] } else { 0u32 })
}

/// The running-sum trace: row `i` is `(weight_i, weight_0 + ... + weight_i)` over the padded weights.
pub open spec fn running_sum_rows(w: Seq<u32>) -> Seq<(u32, u32)> {
    let p = padded_weights(w);
    Seq::new(p.len(), |i: int| (p[i], weight_sum(p.take(i + 1)) as u32))
}

proof fn lemma_padded_sum(w: Seq<u32>, k: int)
    requires
        0 <= k <= padded_weights(w).len(),
        w.len() <= padded_weights(w).len(),
    ensures
        weight_sum(padded_weights(w).take(k)) <= weight_sum(w),
    decreases k,
{
    let p = padded_weights(w);
    if k > 0 {
        lemma_padded_sum(w, k - 1);
        assert(p.take(k).drop_last() =~= p.take(k - 1));
        if k <= w.len() {
            assert(p.take(k) =~= w.take(k));
            lemma_weight_sum_prefix_bounded(w, k);
        } else {
            assert(p.take(k).last() == 0u32);
            assert(weight_sum(p.take(k)) == weight_sum(p.take(k - 1)));
        }
    } else {
        assert(p.take(0) =~= Seq::<u32>::empty());
        lemma_weight_sum_nonneg(w);
    }
}

/// The running-sum trace of the earned/perceived AIR.
pub fn earned_trace(weights: &[u32]) -> (rows: Vec<(u32, u32)>)
    requires
        weight_sum(weights@) <= u32::MAX,
        weights@.len() <= usize::MAX / 2,
    ensures
        rows@ == running_sum_rows(weights@),
{
    let h = padded_height(weights.len());
    proof { lemma_trace_height_ge(weights@.len() as nat, 2); }
    let ghost p = padded_weights(weights@);
    let mut rows: Vec<(u32, u32)> = Vec::new();
    let mut acc: u32 = 0;
    let mut i: usize = 0;
    while i < h
        invariant
            h == p.len(),
            p == padded_weights(weights@),
            weights@.len() <= h,
            weight_sum(weights@) <= u32::MAX,
            i <= h,
            acc == weight_sum(p.take(i as int)),
            rows@.len() == i,
            forall|k: int| 0 <= k < i ==> #[trigger] rows@[k] == running_sum_rows(weights@)[k],
        decreases h - i,
    {
        let w: u32 = if i < weights.len() { weights[i] } else { 0 };
        assert(w == p[i as int]);
        assert(p.take(i + 1).drop_last() =~= p.take(i as int));
        proof { lemma_padded_sum(weights@, i + 1); }
        acc = acc + w;
        rows.push((w, acc));
        i = i + 1;
    }
    assert(rows@ =~= running_sum_rows(weights@));
    rows
}

/// The mock payload of the combined statement.
pub open spec fn combined_mock(combined_threshold: u32) -> Seq<char> {
    "plonky3_stark_babybear_combined_"@ + decimal(combined_threshold as nat) + "_v0_2_mock"@
}

/// Combined statement (scoped to a later version): checks the holder
/// commitment and that both inner proofs are present, then returns the
/// labelled placeholder payload.
pub fn prove_combined_repid(
    earned_proof: Vec<u8>,
    perceived_proof: Vec<u8>,
    combined_threshold: u32,
    holder_address: [u8; 20],
    nonce: [u8; 32],
    expected_commitment: [u8; 32],
) -> (r: Result<Vec<u8>, String>)
    ensures
        r is Ok <==> (holder_commitment_spec(holder_address@, nonce@) == expected_commitment@
            && earned_proof@.len() > 0 && perceived_proof@.len() > 0),
        r matches Err(e) ==> e@ == (if holder_commitment_spec(holder_address@, nonce@) != expected_commitment@ {
            "commitment_mismatch"@
        } else {
            "Missing inner proofs"@
        }),
        r matches Ok(bytes) ==> bytes@ == encode_utf8(combined_mock(combined_threshold)),
{
    let c = holder_commitment(&holder_address, &nonce);
    if !same_digest(&c, &expected_commitment) {
        return Err(String::from_str("commitment_mismatch"));
    }
    if earned_proof.len() == 0 || perceived_proof.len() == 0 {
        return Err(String::from_str("Missing inner proofs"));
    }
    let mut text = with_number("plonky3_stark_babybear_combined_", combined_threshold as u64);
    text.append("_v0_2_mock");
    let bytes = text.as_str().as_bytes();
    let mut out: Vec<u8> = Vec::new();
    let mut i: usize = 0;
    while i < bytes.len()
        invariant
            i <= bytes@.len(),
            out@ == bytes@.take(i as int),
        decreases bytes@.len() - i,
    {
        out.push(bytes[i]);
        assert(bytes@.take(i + 1) =~= bytes@.take(i as int).push(bytes@[i as int]));
        i = i + 1;
    }
    assert(bytes@.take(bytes@.len() as int) =~= bytes@);
    Ok(out)
}

proof fn lemma_padded_total(w: Seq<u32>, k: int)
    requires
        w.len() <= k <= padded_weights(w).len(),
    ensures
        weight_sum(padded_weights(w).take(k)) == weight_sum(w),
    decreases k,
{
    let p = padded_weights(w);
    if k == w.len() {
        assert(p.take(k) =~= w);
    } else {
        lemma_padded_total(w, k - 1);
        assert(p.take(k).drop_last() =~= p.take(k - 1));
        assert(p.take(k).last() == 0u32);
    }
}

/// The constraints of the running-sum AIR over its rows `(weight, sum)`, in
/// field arithmetic: the first sum is the first weight, and every next sum is
/// the previous sum plus the next weight.
pub open spec fn running_sum_constraints(rows: Seq<(u32, u32)>) -> bool {
    &&& rows.len() >= 1
    &&& (rows[0].1 - rows[0].0) % (BABYBEAR_P as int) == 0
    &&& forall|i: int| 1 <= i < rows.len() ==> (#[trigger] rows[i].1 - rows[i - 1].1 - rows[i].0) % (BABYBEAR_P as int) == 0
}

/// Running-sum completeness: for weights whose total fits in `u32`, the padded
/// trace satisfies the AIR's constraints and its last row carries the total.
pub proof fn lemma_running_sum_trace_satisfies(w: Seq<u32>)
    requires
        weight_sum(w) <= u32::MAX,
    ensures
        running_sum_constraints(running_sum_rows(w)),
        running_sum_rows(w).last().1 == weight_sum(w),
{
    let p = padded_weights(w);
    let rows = running_sum_rows(w);
    lemma_trace_height_ge(w.len(), 2);
    assert(p.len() >= w.len() && p.len() >= 2);
    assert forall|i: int| 0 <= i < rows.len() implies #[trigger] rows[i].1 == weight_sum(p.take(i + 1)) by {
        lemma_padded_sum(w, i + 1);
        lemma_weight_sum_nonneg(p.take(i + 1));
    }
    assert(rows[0].1 == weight_sum(p.take(1)));
    assert(p.take(1).drop_last() =~= p.take(0));
    assert(p.take(0) =~= Seq::<u32>::empty());
    assert(weight_sum(p.take(0)) == 0);
    assert(p.take(1).last() == p[0]);
    assert(rows[0].1 == rows[0].0);
    assert forall|i: int| 1 <= i < rows.len() implies (#[trigger] rows[i].1 - rows[i - 1].1 - rows[i].0) % (BABYBEAR_P as int) == 0 by {
        assert(p.take(i + 1).drop_last() =~= p.take(i));
        assert(rows[i - 1].1 == weight_sum(p.take(i)));
        assert(rows[i].1 - rows[i - 1].1 - rows[i].0 == 0);
    }
    lemma_padded_total(w, p.len() as int);
    assert(p.take(p.len() as int) =~= p);
    assert(rows.last() == rows[rows.len() - 1]);
}

} // verus!
