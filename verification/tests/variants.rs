use sha2::{Digest, Sha256};
use zkp_postcard::variants::{check_earned_statement, earned_trace, holder_commitment, prove_combined_repid};

fn hash_commitment(holder: &[u8; 20], nonce: &[u8; 32]) -> [u8; 32] {
    let mut hasher = Sha256::new();
    hasher.update(holder);
    hasher.update(nonce);
    let mut out = [0u8; 32];
    out.copy_from_slice(&hasher.finalize());
    out
}

#[test]
fn test_combined_happy_path() {
    let holder = [1u8; 20];
    let nonce = [2u8; 32];
    let c = hash_commitment(&holder, &nonce);
    let earned_proof = b"mock_earned".to_vec();
    let perceived_proof = b"mock_perceived".to_vec();
    let res = prove_combined_repid(earned_proof, perceived_proof, 5000, holder, nonce, c);
    assert!(res.is_ok());
}

#[test]
fn test_combined_missing_inner() {
    let holder = [1u8; 20];
    let nonce = [2u8; 32];
    let c = hash_commitment(&holder, &nonce);
    let earned_proof = vec![];
    let perceived_proof = b"mock_perceived".to_vec();
    let res = prove_combined_repid(earned_proof, perceived_proof, 5000, holder, nonce, c);
    assert!(res.is_err());
}

#[test]
fn test_combined_forged_commitment() {
    let holder = [1u8; 20];
    let nonce = [2u8; 32];
    let mut forged = hash_commitment(&holder, &nonce);
    forged[0] ^= 0xFF;
    let earned_proof = b"mock_earned".to_vec();
    let perceived_proof = b"mock_perceived".to_vec();
    let res = prove_combined_repid(earned_proof, perceived_proof, 5000, holder, nonce, forged);
    assert_eq!(res.err(), Some("commitment_mismatch".to_string()));
}

#[test]
fn combined_payload_and_messages() {
    let holder = [1u8; 20];
    let nonce = [2u8; 32];
    let c = hash_commitment(&holder, &nonce);
    let out = prove_combined_repid(b"e".to_vec(), b"p".to_vec(), 5000, holder, nonce, c).unwrap();
    assert_eq!(out, b"plonky3_stark_babybear_combined_5000_v0_2_mock".to_vec());
    assert_eq!(
        prove_combined_repid(b"e".to_vec(), vec![], 5000, holder, nonce, c).unwrap_err(),
        "Missing inner proofs"
    );
}

#[test]
fn holder_commitment_is_sha256_of_address_then_nonce() {
    let holder = [1u8; 20];
    let nonce = [2u8; 32];
    assert_eq!(holder_commitment(&holder, &nonce), hash_commitment(&holder, &nonce));
    assert_ne!(holder_commitment(&holder, &nonce), hash_commitment(&[2u8; 20], &nonce));
}

#[test]
fn earned_statement_happy_boundary_and_failure() {
    let holder = [1u8; 20];
    let nonce = [2u8; 32];
    let c = hash_commitment(&holder, &nonce);
    assert!(check_earned_statement(&[100, 200, 300, 400], 800, &holder, &nonce, &c).is_ok());
    assert!(check_earned_statement(&[500, 500], 1000, &holder, &nonce, &c).is_ok());
    assert_eq!(check_earned_statement(&[100, 200], 1000, &holder, &nonce, &c).unwrap_err(), "Sum < T");
    let mut forged = c;
    forged[31] ^= 1;
    assert_eq!(
        check_earned_statement(&[100, 200, 300, 400], 800, &holder, &nonce, &forged).unwrap_err(),
        "commitment_mismatch"
    );
}

#[test]
fn earned_trace_is_the_padded_running_sum() {
    let rows = earned_trace(&[100, 200, 300]);
    assert_eq!(rows, vec![(100, 100), (200, 300), (300, 600), (0, 600)]);
    assert_eq!(earned_trace(&[]), vec![(0, 0), (0, 0)]);
    assert_eq!(earned_trace(&[7]), vec![(7, 7), (0, 7)]);
}
