use sha2::{Digest, Sha256};
use zkp_postcard::circuit::{
    agent_id_to_16_bytes_pub, build_public_values, generate_trace, padded_height, poseidon2_postcard_leaf,
    poseidon2_postcard_leaf_felt, NUM_PUBLIC_VALUES, PUB_REPID, PUB_THRESHOLD,
};
use zkp_postcard::leaf::{hash, poseidon2_16};

const AGENT_A: &str = "394b6ee4-62e7-4c66-8445-29107b097b4c";
const AGENT_B: &str = "942860a6-e26f-4334-ae94-b7c1abed1e8c";
const GOLDEN_LEAF_A_999_2280: &str = "0x32ed1341";
const GOLDEN_LEAF_B_999_2280: &str = "0x669d7ab7";

#[test]
fn test_poseidon2_leaf_golden_kat() {
    assert_eq!(
        poseidon2_postcard_leaf(AGENT_A, 999, 2280),
        GOLDEN_LEAF_A_999_2280,
        "leaf encoding or Poseidon2 pin drifted — aggregation lineage would split"
    );
    assert_eq!(
        poseidon2_postcard_leaf(AGENT_B, 999, 2280),
        GOLDEN_LEAF_B_999_2280,
        "leaf encoding or Poseidon2 pin drifted — aggregation lineage would split"
    );
}

#[test]
fn test_poseidon2_leaf_deterministic_and_agent_bound() {
    let l1 = poseidon2_postcard_leaf(AGENT_A, 999, 2280);
    let l1b = poseidon2_postcard_leaf(AGENT_A, 999, 2280);
    let l2 = poseidon2_postcard_leaf(AGENT_B, 999, 2280);
    let l3 = poseidon2_postcard_leaf(AGENT_A, 999, 2281);
    let l4 = poseidon2_postcard_leaf(AGENT_A, 1000, 2280);
    assert_eq!(l1, l1b, "leaf must be deterministic");
    assert_ne!(l1, l2, "different agent_id must change the leaf");
    assert_ne!(l1, l3, "different repid_score must change the leaf");
    assert_ne!(l1, l4, "different threshold must change the leaf");
    assert!(l1.starts_with("0x") && l1.len() == 10, "leaf is a single BabyBear felt hex");
}

#[test]
fn uuid_agent_ids_map_to_their_raw_bytes() {
    let expected: [u8; 16] = [
        0x39, 0x4b, 0x6e, 0xe4, 0x62, 0xe7, 0x4c, 0x66, 0x84, 0x45, 0x29, 0x10, 0x7b, 0x09, 0x7b, 0x4c,
    ];
    assert_eq!(agent_id_to_16_bytes_pub(AGENT_A), expected);
    assert_eq!(agent_id_to_16_bytes_pub("394b6ee462e74c66844529107b097b4c"), expected, "hyphens are optional");
    assert_eq!(agent_id_to_16_bytes_pub("394B6EE4-62E7-4C66-8445-29107B097B4C"), expected, "either case");
}

#[test]
fn other_agent_ids_map_to_a_sha256_prefix() {
    for id in ["MEDIATOR", "", "394b6ee4-62e7-4c66-8445-29107b097b4", "zz4b6ee4-62e7-4c66-8445-29107b097b4c"] {
        let digest = Sha256::digest(id.as_bytes());
        let mut expected = [0u8; 16];
        expected.copy_from_slice(&digest[..16]);
        assert_eq!(agent_id_to_16_bytes_pub(id), expected, "agent id {:?}", id);
    }
}

#[test]
fn leaf_felt_packs_agent_bytes_then_scalars() {
    let b = agent_id_to_16_bytes_pub(AGENT_A);
    let mut inputs: Vec<u32> = (0..8).map(|i| (b[2 * i] as u32) * 256 + b[2 * i + 1] as u32).collect();
    inputs.push(999);
    inputs.push(2280);
    let p = poseidon2_16();
    let leaf = poseidon2_postcard_leaf_felt(AGENT_A, 999, 2280);
    assert_eq!(leaf, hash(&p, &inputs));
    assert_eq!(format!("0x{:08x}", leaf), poseidon2_postcard_leaf(AGENT_A, 999, 2280));
    assert_eq!(
        poseidon2_postcard_leaf_felt(AGENT_A, 999 + (1u64 << 31), 2280),
        leaf,
        "scalars are reduced modulo 2^31"
    );
}

#[test]
fn public_values_are_agent_bytes_threshold_repid() {
    let pv = build_public_values(AGENT_A, 999, 2280).unwrap();
    assert_eq!(pv.len(), NUM_PUBLIC_VALUES);
    let b = agent_id_to_16_bytes_pub(AGENT_A);
    for i in 0..16 {
        assert_eq!(pv[i], b[i] as u32);
    }
    assert_eq!(pv[PUB_THRESHOLD], 999);
    assert_eq!(pv[PUB_REPID], 2280);
}

#[test]
fn public_values_reject_scalars_out_of_field_range() {
    assert_eq!(
        build_public_values(AGENT_A, 1u64 << 31, 2280).unwrap_err(),
        "threshold/repid_score must be < 2^31 (got threshold=2147483648, repid_score=2280)"
    );
    assert!(build_public_values(AGENT_A, 0, 1u64 << 31).is_err());
    assert!(build_public_values(AGENT_A, (1u64 << 31) - 1, (1u64 << 31) - 1).is_ok());
}

#[test]
fn trace_is_the_big_endian_gap_bits() {
    let bits = generate_trace(1280);
    assert_eq!(bits.len(), 32);
    let value = bits.iter().fold(0u64, |acc, b| acc * 2 + *b as u64);
    assert_eq!(value, 1280);
    assert!(bits[..16].iter().all(|b| *b == 0));
    assert_eq!(generate_trace(u32::MAX), vec![1u32; 32]);
}

#[test]
fn padded_height_is_the_next_power_of_two_from_two() {
    assert_eq!(padded_height(0), 2);
    assert_eq!(padded_height(1), 2);
    assert_eq!(padded_height(2), 2);
    assert_eq!(padded_height(3), 4);
    assert_eq!(padded_height(34), 64);
    assert_eq!(padded_height(64), 64);
    assert_eq!(padded_height(65), 128);
}
