use sha2::{Digest, Sha256};
use zkp_postcard::service::{
    epoch_blocks_setting, epoch_from_block_hex, epoch_source, listen_port, proof_outcome, proof_statement,
    range_check_gap, resolve_threshold, sha256_commitment, RPC_EPOCH_BLOCKS,
};

#[test]
fn commitment_is_hex_sha256_of_the_statement_text() {
    let id = "394b6ee4-62e7-4c66-8445-29107b097b4c";
    let digest = Sha256::digest(format!("hyperdag_v1:{}:{}:{}", id, 2280, 999).as_bytes());
    let expected = format!("0x{}", digest.iter().map(|b| format!("{:02x}", b)).collect::<String>());
    assert_eq!(sha256_commitment(id, 2280, 999), expected);
    assert_eq!(sha256_commitment(id, 2280, 999).len(), 66);
    assert_ne!(sha256_commitment(id, 2280, 999), sha256_commitment(id, 2280, 1000));
}

#[test]
fn threshold_comes_from_the_request_or_the_tier() {
    assert_eq!(resolve_threshold(Some(1234), "nonsense"), Ok(1234));
    assert_eq!(resolve_threshold(None, "ESTABLISHED"), Ok(999));
    assert_eq!(resolve_threshold(None, "CUSTODIED_DBT"), Err("Obsolete tier nomenclature"));
    assert_eq!(resolve_threshold(None, "nonsense"), Err("Unknown tier"));
}

#[test]
fn only_a_score_above_the_threshold_is_proven() {
    assert_eq!(range_check_gap(2280, 999), Some(1280));
    assert_eq!(range_check_gap(1000, 999), Some(0));
    assert_eq!(range_check_gap(999, 999), None);
    assert_eq!(range_check_gap(10, 999), None);
    assert_eq!(range_check_gap(u64::MAX, 0), Some(u32::MAX - 1), "the gap is truncated to 32 bits");
}

#[test]
fn proof_outcomes_are_labelled() {
    let (t, b) = proof_outcome(None);
    assert_eq!((t, b), ("sha256_commitment_poc", b"not_above_threshold".to_vec()));
    let (t, b) = proof_outcome(Some(Ok(vec![1, 2, 3])));
    assert_eq!((t, b), ("plonky3_range_check", vec![1, 2, 3]));
    let (t, b) = proof_outcome(Some(Err("boom".to_string())));
    assert_eq!((t, b), ("sha256_commitment_poc", b"sha256_fallback_placeholder".to_vec()));
}

#[test]
fn statement_and_epoch_labels() {
    assert_eq!(proof_statement(999, 141_559), "RepID > 999 @ epoch 141559");
    assert_eq!(epoch_source(300), "base-sepolia:block/300");
}

#[test]
fn epoch_length_setting_falls_back_on_anything_unusable() {
    assert_eq!(epoch_blocks_setting(None), RPC_EPOCH_BLOCKS);
    assert_eq!(epoch_blocks_setting(Some("600")), 600);
    assert_eq!(epoch_blocks_setting(Some("+600")), 600);
    assert_eq!(epoch_blocks_setting(Some("0")), RPC_EPOCH_BLOCKS);
    assert_eq!(epoch_blocks_setting(Some("-5")), RPC_EPOCH_BLOCKS);
    assert_eq!(epoch_blocks_setting(Some("abc")), RPC_EPOCH_BLOCKS);
    assert_eq!(epoch_blocks_setting(Some("99999999999999999999")), RPC_EPOCH_BLOCKS);
}

#[test]
fn epoch_of_a_block_number_reply() {
    assert_eq!(epoch_from_block_hex("0x2880b2c", 300), Ok(0x2880b2c / 300));
    assert_eq!(epoch_from_block_hex("0x0x10", 4), Ok(4), "every leading 0x is removed");
    assert_eq!(epoch_from_block_hex("ff", 1), Ok(255));
    assert_eq!(epoch_from_block_hex("0x", 300).unwrap_err(), "epoch rpc: bad block hex: cannot parse integer from empty string");
    assert_eq!(epoch_from_block_hex("0xzz", 300).unwrap_err(), "epoch rpc: bad block hex: invalid digit found in string");
    assert_eq!(
        epoch_from_block_hex("0x1ffffffffffffffff", 300).unwrap_err(),
        "epoch rpc: bad block hex: number too large to fit in target type"
    );
    for s in ["0x2880b2c", "0xFFFFFFFFFFFFFFFF", "0x+1", "0x-1", "0x", "0xg", "0x10000000000000000", "x1", "0X1"] {
        let trimmed = s.trim_start_matches("0x");
        let expected = u64::from_str_radix(trimmed, 16)
            .map(|b| b / 7)
            .map_err(|e| format!("epoch rpc: bad block hex: {}", e));
        assert_eq!(epoch_from_block_hex(s, 7), expected, "reply {:?}", s);
    }
}

#[test]
fn listening_port_setting() {
    assert_eq!(listen_port(None, 8080), 8080);
    assert_eq!(listen_port(Some("9000"), 8080), 9000);
    assert_eq!(listen_port(Some("70000"), 8081), 8081);
    assert_eq!(listen_port(Some(""), 8081), 8081);
    assert_eq!(listen_port(Some("65535"), 8080), 65535);
}
