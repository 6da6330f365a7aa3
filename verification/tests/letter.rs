use zkp_postcard::circuit::{agent_id_to_16_bytes_pub, generate_trace};
use zkp_postcard::leaf::{hash, poseidon2_16};
use zkp_postcard::letter::{
    check_letter_statement, letter_public_values, letter_witness_row, score_commitment, LETTER_NUM_PUBLIC_VALUES,
};

const AGENT: &str = "394b6ee4-62e7-4c66-8445-29107b097b4c";
const REPID: u64 = 2280;
const THRESHOLD: u64 = 999;
const NONCE: u64 = 1_234_567_890;

#[test]
fn score_is_absent_from_public_values() {
    let commitment = score_commitment(REPID, NONCE);
    let pv = letter_public_values(AGENT, THRESHOLD, commitment).unwrap();
    let repid_felt = REPID as u32;
    assert!(!pv.contains(&repid_felt), "repid_score must NOT be a public value");
    assert_eq!(pv.len(), LETTER_NUM_PUBLIC_VALUES);
    assert_eq!(pv[17], commitment);
}

#[test]
fn hidden_score_unrecoverable_without_nonce() {
    let commitment = score_commitment(REPID, NONCE);
    let mut recovered = None;
    for guess in 0..=10_000u64 {
        if score_commitment(guess, 0) == commitment {
            recovered = Some(guess);
            break;
        }
    }
    assert!(recovered.is_none(), "score must be unrecoverable without the secret nonce");
    assert_eq!(score_commitment(REPID, NONCE), commitment);
}

#[test]
fn redteam_a_nonce_entropy_capped_at_31_bits() {
    assert_eq!(
        score_commitment(REPID, NONCE),
        score_commitment(REPID, NONCE + (1u64 << 31)),
        "BROKEN-AS-DESIGNED: nonce reduced mod 2^31 → distinct nonces collide (XC P2a). \
         Invert this assert when the commitment widens / binds in-AIR."
    );
    assert_eq!(score_commitment(REPID, NONCE), score_commitment(REPID, NONCE % (1u64 << 31)));
}

#[test]
fn redteam_b_commitment_forgeable_via_reduction() {
    let target = score_commitment(REPID, NONCE);
    let forge_nonce = NONCE + (1u64 << 31);
    assert_ne!(forge_nonce, NONCE);
    assert_eq!(score_commitment(REPID, forge_nonce), target, "forged different nonce → same commitment (XC P2b)");
    let forge_score = REPID + (1u64 << 31);
    assert_ne!(forge_score, REPID);
    assert_eq!(score_commitment(forge_score, NONCE), target, "forged different score-arg → same commitment (XC P2b)");
}

#[test]
fn commitment_is_the_hash_of_the_reduced_pair() {
    let p = poseidon2_16();
    assert_eq!(score_commitment(REPID, NONCE), hash(&p, &[2280, 1_234_567_890 % (1 << 31)]));
    assert_ne!(score_commitment(REPID, NONCE), score_commitment(REPID + 1, NONCE));
}

#[test]
fn letter_public_values_layout_and_range() {
    let pv = letter_public_values(AGENT, THRESHOLD, 77).unwrap();
    let b = agent_id_to_16_bytes_pub(AGENT);
    for i in 0..16 {
        assert_eq!(pv[i], b[i] as u32);
    }
    assert_eq!(pv[16], 999);
    assert_eq!(pv[17], 77);
    assert_eq!(letter_public_values(AGENT, 1u64 << 31, 77).unwrap_err(), "threshold out of field range");
}

#[test]
fn letter_statement_checks() {
    assert!(check_letter_statement(THRESHOLD, REPID).is_ok());
    assert_eq!(
        check_letter_statement(2280, 2280).unwrap_err(),
        "repid 2280 <= threshold 2280 (no positive statement)"
    );
    assert_eq!(check_letter_statement(0, 1u64 << 31).unwrap_err(), "repid out of field range");
    assert_eq!(check_letter_statement(0, 70_000).unwrap_err(), "gap >= 2^16 (out of 16-bit range)");
    assert!(check_letter_statement(0, 65_536).is_ok());
}

#[test]
fn letter_witness_row_is_gap_bits_then_score() {
    let row = letter_witness_row(REPID, THRESHOLD);
    let mut expected = generate_trace(1280);
    expected.push(2280);
    assert_eq!(row, expected);
}

#[test]
fn letter_and_postcard_bind_the_agent_identically() {
    let c = score_commitment(REPID, NONCE);
    let letter = letter_public_values(AGENT, THRESHOLD, c).unwrap();
    let postcard = zkp_postcard::circuit::build_public_values(AGENT, THRESHOLD, REPID).unwrap();
    assert_eq!(letter[..17], postcard[..17]);
    assert_eq!(letter[17], c);
    assert_eq!(postcard[17], REPID as u32);
}
