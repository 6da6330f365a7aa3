//! POSTCARD tier: the agent-bound RepID range statement.
//!
//! The public statement is `{agent_id, threshold, repid_score}`; the range
//! check proves `repid_score > threshold` through the 16-bit gap
//! `repid_score - threshold - 1`. This module holds the statement encoding,
//! the trace, a native model of the AIR's constraints, and the Poseidon2
//! postcard leaf.
use vstd::prelude::*;
use vstd::string::StringSliceAdditionalSpecFns;
use crate::digest::{hex_decode, hex_val, is_hex_byte, sha256, sha256_digest};
use crate::leaf::{hash, hash_spec, poseidon2_16};
use crate::text::{decimal, decimal_string, hex8, hex8_string, with_number};
use vstd::arithmetic::power2::{pow2, lemma_pow2_unfold, lemma_pow2_pos, lemma2_to64};
use vstd::arithmetic::div_mod::lemma_fundamental_div_mod;
use vstd::arithmetic::mul::{lemma_mul_increases, lemma_mul_strict_inequality};

verus! {

/// The BabyBear prime `2^31 - 2^27 + 1`.
pub const BABYBEAR_P: u64 = 2013265921;

/// Public-value count of the statement: 16 agent bytes, threshold, repid_score.
pub const NUM_PUBLIC_VALUES: usize = 18;

/// Index of the threshold in the public values.
pub const PUB_THRESHOLD: usize = 16;

/// Index of the repid score in the public values.
pub const PUB_REPID: usize = 17;

/// The range-check AIR: one 32-column row holding the big-endian bits of the gap.
pub struct RepIdRangeCheckAir {
    /// The gap `repid_score - threshold - 1` that is range-checked.
    pub value: u32,
}

/// `id` with every `-` byte removed.
pub open spec fn strip_dashes(id: Seq<u8>) -> Seq<u8>
    decreases id.len(),
{
    if id.len() == 0 {
        id
    } else if id.last() == 45u8 {
        strip_dashes(id.drop_last())
    } else {
        strip_dashes(id.drop_last()).push(id.last())
    }
}

/// `s` is 32 hexadecimal digits.
pub open spec fn is_hex32(s: Seq<u8>) -> bool {
    s.len() == 32 && forall|i: int| 0 <= i < 32 ==> is_hex_byte(#[trigger] s[i])
}

/// The 16 bytes written by the 32 hex digits `s`.
pub open spec fn hex16(s: Seq<u8>) -> Seq<u8> {
    Seq::new(16, |i: int| (16 * hex_val(s[2 * i]) + hex_val(s[2 * i + 1])) as u8)
}

/// Canonical 16-byte agent binding of the UTF-8 bytes `id`: a UUID (hyphens
/// optional) maps to its raw bytes, anything else to `sha256(id)[..16]`.
pub open spec fn agent_id_bytes(id: Seq<u8>) -> Seq<u8> {
    let cleaned = strip_dashes(id);
    if is_hex32(cleaned) {
        hex16(cleaned)
    } else {
        sha256_digest(id).take(16)
    }
}

fn strip_dashes_exec(bytes: &[u8]) -> (cleaned: Vec<u8>)
    ensures
        cleaned@ == strip_dashes(bytes@),
{
    let mut cleaned: Vec<u8> = Vec::new();
    let mut i: usize = 0;
    while i < bytes.len()
        invariant
            i <= bytes.len(),
            cleaned@ == strip_dashes(bytes@.take(i as int)),
        decreases bytes.len() - i,
    {
        assert(bytes@.take(i + 1).drop_last() =~= bytes@.take(i as int));
        if bytes[i] != 45u8 {
            cleaned.push(bytes[i]);
        }
        i = i + 1;
    }
    assert(bytes@.take(bytes.len() as int) =~= bytes@);
    cleaned
}

fn is_hex32_exec(s: &[u8]) -> (b: bool)
    ensures
        b == is_hex32(s@),
{
    if s.len() != 32 {
        return false;
    }
    let mut i: usize = 0;
    while i < 32
        invariant
            s@.len() == 32,
            i <= 32,
            forall|j: int| 0 <= j < i ==> is_hex_byte(#[trigger] s@[j]),
        decreases 32 - i,
    {
        let c = s[i];
        if !((48u8 <= c && c <= 57u8) || (65u8 <= c && c <= 70u8) || (97u8 <= c && c <= 102u8)) {
            return false;
        }
        i = i + 1;
    }
    true
}

fn agent_id_to_16_bytes(agent_id: &str) -> (arr: [u8; 16])
    ensures
        arr@ == agent_id_bytes(agent_id.spec_bytes()),
{
    let bytes = agent_id.as_bytes();
    let cleaned = strip_dashes_exec(bytes);
    let mut arr = [0u8; 16];
    if is_hex32_exec(cleaned.as_slice()) {
        match hex_decode(cleaned.as_slice()) {
            Some(decoded) => {
                let mut i: usize = 0;
                while i < 16
                    invariant
                        cleaned@.len() == 32,
                        decoded@.len() == 16,
                        forall|k: int| 0 <= k < 16 ==> #[trigger] decoded@[k] == 16 * hex_val(cleaned@[2 * k]) + hex_val(cleaned@[2 * k + 1]),
                        i <= 16,
                        forall|k: int| 0 <= k < i ==> arr@[k] == hex16(cleaned@)[k],
                    decreases 16 - i,
                {
                    arr[i] = decoded[i];
                    i = i + 1;
                }
                assert(arr@ =~= hex16(cleaned@));
            },
            None => {
                assert(false);
            },
        }
    } else {
        let digest = sha256(bytes);
        let mut i: usize = 0;
        while i < 16
            invariant
                digest@.len() == 32,
                i <= 16,
                forall|k: int| 0 <= k < i ==> arr@[k] == digest@[k],
            decreases 16 - i,
        {
            arr[i] = digest[i];
            i = i + 1;
        }
        assert(arr@ =~= digest@.take(16));
    }
    arr
}

/// Canonical agent_id to 16-byte encoding (shared by the POSTCARD and LETTER tiers).
pub fn agent_id_to_16_bytes_pub(agent_id: &str) -> (arr: [u8; 16])
    ensures
        arr@ == agent_id_bytes(agent_id.spec_bytes()),
{
    agent_id_to_16_bytes(agent_id)
}

/// Poseidon2 inputs of the postcard leaf: the 16 agent bytes packed pairwise
/// into 8 16-bit words, then `threshold` and `repid_score`, each reduced mod 2^31.
pub open spec fn postcard_inputs(agent: Seq<u8>, threshold: u64, repid_score: u64) -> Seq<u32> {
    Seq::new(8, |i: int| (256 * agent[2 * i] + agent[2 * i + 1]) as u32)
        + seq![(threshold % 0x8000_0000) as u32, (repid_score % 0x8000_0000) as u32]
}

/// The postcard leaf field element for `{agent_id, threshold, repid_score}`.
pub open spec fn postcard_leaf(id: Seq<u8>, threshold: u64, repid_score: u64) -> u32 {
    hash_spec(postcard_inputs(agent_id_bytes(id), threshold, repid_score))
}

/// Aggregation-ready Poseidon2 leaf of the postcard statement, as a field element.
pub fn poseidon2_postcard_leaf_felt(agent_id: &str, threshold: u64, repid_score: u64) -> (leaf: u32)
    ensures
        leaf == postcard_leaf(agent_id.spec_bytes(), threshold, repid_score),
{
    let bytes = agent_id_to_16_bytes(agent_id);
    let mut inputs: Vec<u32> = Vec::new();
    let mut i: usize = 0;
    while i < 8
        invariant
            i <= 8,
            bytes@ == agent_id_bytes(agent_id.spec_bytes()),
            inputs@.len() == i,
            forall|k: int| 0 <= k < i ==> #[trigger] inputs@[k] == (256 * bytes@[2 * k] + bytes@[2 * k + 1]) as u32,
        decreases 8 - i,
    {
        let w: u32 = (bytes[2 * i] as u32) * 256 + (bytes[2 * i + 1] as u32);
        inputs.push(w);
        i = i + 1;
    }
    inputs.push((threshold % 0x8000_0000u64) as u32);
    inputs.push((repid_score % 0x8000_0000u64) as u32);
    assert(inputs@ =~= postcard_inputs(bytes@, threshold, repid_score));
    let p = poseidon2_16();
    hash(&p, inputs.as_slice())
}

/// The postcard leaf rendered as `0x` plus eight lower-case hex digits.
pub fn poseidon2_postcard_leaf(agent_id: &str, threshold: u64, repid_score: u64) -> (s: String)
    ensures
        s@ == hex8(postcard_leaf(agent_id.spec_bytes(), threshold, repid_score)),
{
    hex8_string(poseidon2_postcard_leaf_felt(agent_id, threshold, repid_score))
}

/// Big-endian value of a bit column.
pub open spec fn be_value(bits: Seq<u32>) -> int
    decreases bits.len(),
{
    if bits.len() == 0 {
        0
    } else {
        be_value(bits.drop_last()) * 2 + bits.last()
    }
}

/// The 32 big-endian bits of `v`.
pub open spec fn gap_bits(v: u32) -> Seq<u32> {
    Seq::new(32, |i: int| (v >> ((31 - i) as u32)) & 1u32)
}

/// The constraints `RepIdRangeCheckAir` imposes on its row `row` under the
/// public values `pis` (field arithmetic modulo `BABYBEAR_P`): the high 16 bits
/// are zero, the low 16 are boolean, and the low 16 bits read big-endian equal
/// `repid_score - threshold - 1`.
pub open spec fn range_check_constraints(row: Seq<u32>, pis: Seq<u32>) -> bool {
    &&& row.len() == 32
    &&& pis.len() == NUM_PUBLIC_VALUES
    &&& forall|i: int| 0 <= i < 16 ==> #[trigger] row[i] == 0
    &&& forall|i: int| 16 <= i < 32 ==> #[trigger] row[i] == 0 || row[i] == 1
    &&& (be_value(row.subrange(16, 32)) - (pis[PUB_REPID as int] - pis[PUB_THRESHOLD as int] - 1)) % (BABYBEAR_P as int) == 0
}

proof fn lemma_gap_bits_prefix(v: u32, k: int)
    requires
        0 <= k <= 32,
    ensures
        be_value(gap_bits(v).take(k)) == ((v as u64) >> ((32 - k) as u64)),
    decreases k,
{
    let w = v as u64;
    if k == 0 {
        assert(gap_bits(v).take(0) =~= Seq::<u32>::empty());
        assert(w >> 32u64 == 0u64) by (bit_vector)
            requires w < 0x1_0000_0000u64;
    } else {
        lemma_gap_bits_prefix(v, k - 1);
        assert(gap_bits(v).take(k).drop_last() =~= gap_bits(v).take(k - 1));
        let s = (32 - k) as u64;
        let t = (31 - (k - 1)) as u32;
        assert(gap_bits(v).take(k).last() == (v >> t) & 1u32);
        assert((w >> (s + 1)) * 2 + ((w >> s) & 1u64) == (w >> s)) by (bit_vector)
            requires s < 32u64;
        assert(((v >> (s as u32)) & 1u32) as u64 == (w >> s) & 1u64) by (bit_vector)
            requires s < 32u64, w == v as u64;
    }
}

proof fn lemma_gap_bits_low(v: u32, k: int)
    requires
        0 <= k <= 16,
        v < 65536,
    ensures
        be_value(gap_bits(v).subrange(16, 16 + k)) == (v >> ((16 - k) as u32)),
    decreases k,
{
    if k == 0 {
        assert(gap_bits(v).subrange(16, 16) =~= Seq::<u32>::empty());
        assert(v >> 16u32 == 0u32) by (bit_vector)
            requires v < 65536u32;
    } else {
        lemma_gap_bits_low(v, k - 1);
        assert(gap_bits(v).subrange(16, 16 + k).drop_last() =~= gap_bits(v).subrange(16, 16 + k - 1));
        let s = (16 - k) as u32;
        assert(gap_bits(v).subrange(16, 16 + k).last() == (v >> s) & 1u32);
        assert((v >> (s + 1)) * 2 + ((v >> s) & 1u32) == (v >> s)) by (bit_vector)
            requires s < 16u32;
    }
}

proof fn lemma_gap_bits_shape(v: u32)
    ensures
        be_value(gap_bits(v)) == v,
        forall|i: int| 0 <= i < 32 ==> #[trigger] gap_bits(v)[i] == 0 || gap_bits(v)[i] == 1,
        v < 65536 ==> forall|i: int| 0 <= i < 16 ==> #[trigger] gap_bits(v)[i] == 0,
        v < 65536 ==> be_value(gap_bits(v).subrange(16, 32)) == v,
{
    lemma_gap_bits_prefix(v, 32);
    assert(gap_bits(v).take(32) =~= gap_bits(v));
    let w = v as u64;
    assert(w >> 0u64 == w) by (bit_vector);
    assert forall|i: int| 0 <= i < 32 implies #[trigger] gap_bits(v)[i] == 0 || gap_bits(v)[i] == 1 by {
        let t = (31 - i) as u32;
        assert((v >> t) & 1u32 == 0u32 || (v >> t) & 1u32 == 1u32) by (bit_vector);
    }
    if v < 65536 {
        assert forall|i: int| 0 <= i < 16 implies #[trigger] gap_bits(v)[i] == 0 by {
            let t = (31 - i) as u32;
            assert((v >> t) & 1u32 == 0u32) by (bit_vector)
                requires v < 65536u32, 16u32 <= t < 32u32;
        }
        lemma_gap_bits_low(v, 16);
        assert(v >> 0u32 == v) by (bit_vector);
    }
}

proof fn lemma_be_value_bound(bits: Seq<u32>)
    requires
        forall|i: int| 0 <= i < bits.len() ==> #[trigger] bits[i] == 0 || bits[i] == 1,
    ensures
        0 <= be_value(bits) < pow2(bits.len()),
    decreases bits.len(),
{
    if bits.len() > 0 {
        let prefix = bits.drop_last();
        assert forall|i: int| 0 <= i < prefix.len() implies #[trigger] prefix[i] == 0 || prefix[i] == 1 by {
            assert(prefix[i] == bits[i]);
        }
        lemma_be_value_bound(prefix);
        assert(bits[bits.len() - 1] == 0 || bits[bits.len() - 1] == 1);
        lemma_pow2_unfold(bits.len());
    } else {
        lemma_pow2_pos(0);
    }
}

/// Range-check soundness: a row that satisfies the AIR constraints exists only
/// when `repid_score > threshold`, and its low bits are exactly the gap. This
/// holds for every threshold below `BABYBEAR_P - 2^16`; above it a wrapped
/// negative gap can land in the 16-bit window.
pub proof fn lemma_range_check_sound(row: Seq<u32>, pis: Seq<u32>)
    requires
        range_check_constraints(row, pis),
        pis[PUB_THRESHOLD as int] + 65536 < BABYBEAR_P,
        pis[PUB_REPID as int] < BABYBEAR_P,
    ensures
        pis[PUB_REPID as int] > pis[PUB_THRESHOLD as int],
        pis[PUB_REPID as int] - pis[PUB_THRESHOLD as int] - 1 == be_value(row.subrange(16, 32)),
{
    let low = row.subrange(16, 32);
    assert forall|i: int| 0 <= i < low.len() implies #[trigger] low[i] == 0 || low[i] == 1 by {
        assert(low[i] == row[16 + i]);
    }
    lemma_be_value_bound(low);
    lemma2_to64();
    let r = be_value(low);
    let d = pis[PUB_REPID as int] - pis[PUB_THRESHOLD as int] - 1;
    let p = BABYBEAR_P as int;
    assert(0 <= r < 65536);
    assert((r - d) % p == 0);
    assert(-p < r - d < p);
    lemma_fundamental_div_mod(r - d, p);
    let q = (r - d) / p;
    assert(r - d == p * q);
    if q > 0 {
        lemma_mul_increases(q, p);
        assert(false);
    } else if q < 0 {
        lemma_mul_strict_inequality(q, 0, p);
        assert(false);
    }
}

/// Range-check completeness: for `threshold < repid_score < BABYBEAR_P` with a
/// gap below 2^16, the trace built from the gap satisfies the AIR constraints
/// under the statement's public values.
pub proof fn lemma_range_check_complete(pis: Seq<u32>)
    requires
        pis.len() == NUM_PUBLIC_VALUES,
        pis[PUB_THRESHOLD as int] < pis[PUB_REPID as int],
        pis[PUB_REPID as int] - pis[PUB_THRESHOLD as int] - 1 < 65536,
    ensures
        range_check_constraints(
            gap_bits((pis[PUB_REPID as int] - pis[PUB_THRESHOLD as int] - 1) as u32),
            pis,
        ),
{
    let v = (pis[PUB_REPID as int] - pis[PUB_THRESHOLD as int] - 1) as u32;
    lemma_gap_bits_shape(v);
    assert(be_value(gap_bits(v).subrange(16, 32)) - (pis[PUB_REPID as int] - pis[PUB_THRESHOLD as int] - 1) == 0);
}

/// The 32 big-endian bits of the gap, one per trace column.
pub fn generate_trace(value: u32) -> (bits: Vec<u32>)
    ensures
        bits@ == gap_bits(value),
        be_value(bits@) == value,
{
    let mut bits: Vec<u32> = Vec::new();
    let mut i: usize = 0;
    while i < 32
        invariant
            i <= 32,
            bits@.len() == i,
            forall|k: int| 0 <= k < i ==> #[trigger] bits@[k] == gap_bits(value)[k],
        decreases 32 - i,
    {
        let shift: u32 = (31 - i) as u32;
        bits.push((value >> shift) & 1u32);
        i = i + 1;
    }
    assert(bits@ =~= gap_bits(value));
    proof { lemma_gap_bits_shape(value); }
    bits
}

/// Smallest power of two that is at least `max(n, h)`, searching upward from `h`.
pub open spec fn pow2_at_least(n: nat, h: nat) -> nat
    decreases (if h < n { n - h } else { 0 }),
    when h > 0
{
    if h >= n {
        h
    } else {
        pow2_at_least(n, 2 * h)
    }
}

/// Height of a padded running-sum / batch trace: the least power of two at
/// least `max(n, 2)`.
pub open spec fn trace_height(n: nat) -> nat {
    pow2_at_least(n, 2)
}

/// The padded trace height for `n` rows.
pub fn padded_height(n: usize) -> (h: usize)
    requires
        n <= usize::MAX / 2,
    ensures
        h == trace_height(n as nat),
        h >= n,
        h >= 2,
{
    let mut h: usize = 2;
    while h < n
        invariant
            n <= usize::MAX / 2,
            2 <= h <= 2 * n || h == 2,
            pow2_at_least(n as nat, h as nat) == trace_height(n as nat),
        decreases (if h < n { n - h } else { 0 }),
    {
        h = h * 2;
    }
    h
}

/// The padded height is a power-of-two search result no smaller than its start or its target.
pub proof fn lemma_trace_height_ge(n: nat, h: nat)
    requires
        h > 0,
    ensures
        pow2_at_least(n, h) >= n,
        pow2_at_least(n, h) >= h,
    decreases (if h < n { n - h } else { 0 }),
{
    if h < n {
        lemma_trace_height_ge(n, 2 * h);
    }
}

/// The statement's 18 public values: the 16 agent bytes, then threshold and repid_score.
pub open spec fn public_values(agent: Seq<u8>, threshold: u64, repid_score: u64) -> Seq<u32> {
    Seq::new(16, |i: int| agent[i] as u32) + seq![threshold as u32, repid_score as u32]
}

/// Message returned when a statement scalar does not fit below 2^31.
pub open spec fn out_of_range_message(threshold: u64, repid_score: u64) -> Seq<char> {
    "threshold/repid_score must be < 2^31 (got threshold="@ + decimal(threshold as nat)
        + ", repid_score="@ + decimal(repid_score as nat) + ")"@
}

/// Build the canonical public-values vector for `{agent_id, threshold, repid_score}`.
/// Both scalars must be below 2^31.
pub fn build_public_values(agent_id: &str, threshold: u64, repid_score: u64) -> (r: Result<Vec<u32>, String>)
    ensures
        (threshold < 0x8000_0000 && repid_score < 0x8000_0000) <==> r is Ok,
        r matches Ok(pv) ==> pv@ == public_values(agent_id_bytes(agent_id.spec_bytes()), threshold, repid_score),
        r matches Err(e) ==> e@ == out_of_range_message(threshold, repid_score),
{
    if threshold >= 0x8000_0000u64 || repid_score >= 0x8000_0000u64 {
        let mut e = with_number("threshold/repid_score must be < 2^31 (got threshold=", threshold);
        e.append(", repid_score=");
        let r = decimal_string(repid_score);
        e.append(r.as_str());
        e.append(")");
        return Err(e);
    }
    let bytes = agent_id_to_16_bytes(agent_id);
    let mut pv: Vec<u32> = Vec::new();
    let mut i: usize = 0;
    while i < 16
        invariant
            i <= 16,
            pv@.len() == i,
            forall|k: int| 0 <= k < i ==> #[trigger] pv@[k] == bytes@[k] as u32,
        decreases 16 - i,
    {
        pv.push(bytes[i] as u32);
        i = i + 1;
    }
    pv.push(threshold as u32);
    pv.push(repid_score as u32);
    assert(pv@ =~= public_values(bytes@, threshold, repid_score));
    Ok(pv)
}

} // verus!
