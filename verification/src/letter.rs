//! LETTER tier: a RepID range proof whose score is a private witness. The
//! public statement is `{agent_id, threshold, score_commitment}` with
//! `score_commitment = Poseidon2(repid_score mod 2^31, nonce mod 2^31)`.
use vstd::prelude::*;
use vstd::string::StringSliceAdditionalSpecFns;
use crate::circuit::{
    agent_id_bytes, agent_id_to_16_bytes_pub, gap_bits, lemma_range_check_complete, lemma_range_check_sound,
    range_check_constraints, BABYBEAR_P,
};
use crate::leaf::{hash, hash_spec, poseidon2_16};
use crate::text::{decimal, decimal_string, with_number};

verus! {

/// Public-value count of the LETTER statement (16 agent bytes, threshold, commitment).
pub const LETTER_NUM_PUBLIC_VALUES: usize = 18;

/// The LETTER range-check AIR (gap bits plus the private score column).
pub struct RepIdLetterAir;

/// A LETTER proof with its public statement.
#[derive(Debug, Clone)]
pub struct LetterProof {
    pub proof_bytes: Vec<u8>,
    pub agent_id: String,
    pub threshold: u64,
    pub score_commitment: u32,
}

/// `Poseidon2(repid_score mod 2^31, nonce mod 2^31)`.
pub open spec fn score_commitment_spec(repid_score: u64, nonce: u64) -> u32 {
    hash_spec(seq![(repid_score % 0x8000_0000) as u32, (nonce % 0x8000_0000) as u32])
}

/// Commitment to a hidden score under a secret nonce.
pub fn score_commitment(repid_score: u64, nonce: u64) -> (c: u32)
    ensures
        c == score_commitment_spec(repid_score, nonce),
{
    let p = poseidon2_16();
    let v = [(repid_score % 0x8000_0000u64) as u32, (nonce % 0x8000_0000u64) as u32];
    let c = hash(&p, v.as_slice());
    assert(v@ =~= seq![(repid_score % 0x8000_0000) as u32, (nonce % 0x8000_0000) as u32]);
    c
}

/// The commitment sees its arguments only modulo 2^31: nonces (or scores)
/// that agree modulo 2^31 commit identically.
pub proof fn lemma_commitment_reduces_mod_2_31(repid_score: u64, nonce: u64)
    ensures
        score_commitment_spec(repid_score, nonce) == score_commitment_spec(
            repid_score % 0x8000_0000,
            nonce % 0x8000_0000,
        ),
        nonce <= u64::MAX - 0x8000_0000 ==> score_commitment_spec(repid_score, nonce)
            == score_commitment_spec(repid_score, (nonce + 0x8000_0000) as u64),
        repid_score <= u64::MAX - 0x8000_0000 ==> score_commitment_spec(repid_score, nonce)
            == score_commitment_spec((repid_score + 0x8000_0000) as u64, nonce),
{
    vstd::arithmetic::div_mod::lemma_mod_twice(repid_score as int, 0x8000_0000);
    vstd::arithmetic::div_mod::lemma_mod_twice(nonce as int, 0x8000_0000);
    vstd::arithmetic::div_mod::lemma_mod_add_multiples_vanish(nonce as int, 0x8000_0000);
    vstd::arithmetic::div_mod::lemma_mod_add_multiples_vanish(repid_score as int, 0x8000_0000);
}

/// The LETTER public values: 16 agent bytes, threshold, score commitment.
pub open spec fn letter_values(agent: Seq<u8>, threshold: u64, commitment: u32) -> Seq<u32> {
    Seq::new(16, |i: int| agent[i] as u32) + seq![threshold as u32, commitment]
}

/// Public values of a LETTER statement; the threshold must be below 2^31.
pub fn letter_public_values(agent_id: &str, threshold: u64, commitment: u32) -> (r: Result<Vec<u32>, String>)
    ensures
        r is Ok <==> threshold < 0x8000_0000,
        r matches Ok(pv) ==> pv@ == letter_values(agent_id_bytes(agent_id.spec_bytes()), threshold, commitment),
        r matches Err(e) ==> e@ == "threshold out of field range"@,
{
    if threshold >= 0x8000_0000u64 {
        return Err(String::from_str("threshold out of field range"));
    }
    let bytes = agent_id_to_16_bytes_pub(agent_id);
    let mut pv: Vec<u32> = Vec::new();
    let mut i: usize = 0;
    while i < 16
        invariant
            i <= 16,
            pv@.len() == i,
            forall|k: int| 0 <= k < i ==> #[trigger] pv@[k] == bytes@[k] as u32,
        decreases 16 - i,
    {
        pv.push(bytes[i] as u32);
        i = i + 1;
    }
    pv.push(threshold as u32);
    pv.push(commitment);
    assert(pv@ =~= letter_values(bytes@, threshold, commitment));
    Ok(pv)
}

/// Why a LETTER statement cannot be proven, if it cannot.
pub open spec fn letter_statement_error(threshold: u64, repid_score: u64) -> Option<Seq<char>> {
    if repid_score <= threshold {
        Some("repid "@ + decimal(repid_score as nat) + " <= threshold "@ + decimal(threshold as nat)
            + " (no positive statement)"@)
    } else if repid_score >= 0x8000_0000 {
        Some("repid out of field range"@)
    } else if repid_score - threshold - 1 >= 0x1_0000 {
        Some("gap >= 2^16 (out of 16-bit range)"@)
    } else {
        None
    }
}

/// Check that `repid_score > threshold` is a provable LETTER statement.
pub fn check_letter_statement(threshold: u64, repid_score: u64) -> (r: Result<(), String>)
    ensures
        r is Ok <==> letter_statement_error(threshold, repid_score) is None,
        r matches Err(e) ==> e@ == letter_statement_error(threshold, repid_score)->0,
{
    if repid_score <= threshold {
        let mut e = with_number("repid ", repid_score);
        e.append(" <= threshold ");
        let t = decimal_string(threshold);
        e.append(t.as_str());
        e.append(" (no positive statement)");
        return Err(e);
    }
    if repid_score >= 0x8000_0000u64 {
        return Err(String::from_str("repid out of field range"));
    }
    if repid_score - threshold - 1 >= 0x1_0000u64 {
        return Err(String::from_str("gap >= 2^16 (out of 16-bit range)"));
    }
    Ok(())
}

/// The witness row of a LETTER trace: the 32 big-endian gap bits, then the private score.
pub fn letter_witness_row(repid_score: u64, threshold: u64) -> (row: Vec<u32>)
    requires
        letter_statement_error(threshold, repid_score) is None,
    ensures
        row@ == gap_bits((repid_score - threshold - 1) as u32).push(repid_score as u32),
{
    let gap = (repid_score - threshold - 1) as u32;
    let mut row = crate::circuit::generate_trace(gap);
    row.push(repid_score as u32);
    row
}

/// POSTCARD and LETTER bind an agent identically: for the same agent bytes the
/// first 16 public values of the two statements are equal, and the LETTER
/// statement carries the commitment where POSTCARD carries the score.
pub proof fn lemma_letter_shares_postcard_agent_binding(agent: Seq<u8>, threshold: u64, repid_score: u64, commitment: u32)
    ensures
        letter_values(agent, threshold, commitment).take(17)
            == crate::circuit::public_values(agent, threshold, repid_score).take(17),
        letter_values(agent, threshold, commitment)[17] == commitment,
        letter_values(agent, threshold, commitment).len() == LETTER_NUM_PUBLIC_VALUES,
{
    assert(letter_values(agent, threshold, commitment).take(17)
        =~= crate::circuit::public_values(agent, threshold, repid_score).take(17));
}

/// The range statement a LETTER row asserts, in the single-statement layout:
/// the public threshold at position 16 and the witnessed score (column 32) at 17.
pub open spec fn letter_row_statement(row: Seq<u32>, pis: Seq<u32>) -> Seq<u32> {
    Seq::new(18, |i: int| if i == 16 { pis[16] } else if i == 17 { row[32] } else { 0u32 })
}

/// The constraints `RepIdLetterAir` imposes on its witness row under the public
/// values: the POSTCARD range check with the score taken from the private column.
pub open spec fn letter_row_constraints(row: Seq<u32>, pis: Seq<u32>) -> bool {
    &&& row.len() == 33
    &&& pis.len() == LETTER_NUM_PUBLIC_VALUES
    &&& range_check_constraints(row.take(32), letter_row_statement(row, pis))
}

/// LETTER completeness: for a statement `check_letter_statement` accepts, the
/// witness row satisfies the constraints under the LETTER public values of any
/// agent and commitment.
pub proof fn lemma_letter_row_complete(agent: Seq<u8>, threshold: u64, repid_score: u64, commitment: u32)
    requires
        letter_statement_error(threshold, repid_score) is None,
    ensures
        letter_row_constraints(
            gap_bits((repid_score - threshold - 1) as u32).push(repid_score as u32),
            letter_values(agent, threshold, commitment),
        ),
{
    let row = gap_bits((repid_score - threshold - 1) as u32).push(repid_score as u32);
    let pis = letter_values(agent, threshold, commitment);
    let st = letter_row_statement(row, pis);
    assert(st[16] == threshold as u32);
    assert(st[17] == repid_score as u32);
    lemma_range_check_complete(st);
    assert(row.take(32) =~= gap_bits((st[17] - st[16] - 1) as u32));
}

/// LETTER soundness: a witness row that satisfies the constraints, with the
/// threshold below `BABYBEAR_P - 2^16` and the witnessed score below
/// `BABYBEAR_P`, holds a score above the threshold.
pub proof fn lemma_letter_row_sound(row: Seq<u32>, pis: Seq<u32>)
    requires
        letter_row_constraints(row, pis),
        pis[16] + 65536 < BABYBEAR_P,
        row[32] < BABYBEAR_P,
    ensures
        row[32] > pis[16],
{
    lemma_range_check_sound(row.take(32), letter_row_statement(row, pis));
}

} // verus!
