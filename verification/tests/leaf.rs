use zkp_postcard::leaf::{commitment, hash, merkle_compress, merkle_root, nullifier, permute16, poseidon2_16, WIDTH};

#[test]
fn scope_separation_inv2() {
    let p = poseidon2_16();
    let s = 1234567u32;
    let a = nullifier(&p, s, 1001);
    let b = nullifier(&p, s, 1002);
    let c = nullifier(&p, s, 7777);
    assert_ne!(a, b);
    assert_ne!(a, c);
    assert_ne!(b, c);
    assert_ne!(nullifier(&p, 1234567, 1001), nullifier(&p, 7654321, 1001));
}

#[test]
fn permutation_moves_the_state_and_stays_canonical() {
    let p = poseidon2_16();
    let zero = [0u32; WIDTH];
    let out = permute16(&p, zero);
    assert_ne!(out, zero, "the permutation is not the identity");
    assert!(out.iter().all(|x| *x < 2013265921), "outputs are canonical BabyBear elements");
    assert_eq!(permute16(&p, zero), out, "deterministic");
    let mut one = zero;
    one[15] = 1;
    assert_ne!(permute16(&p, one), out);
}

#[test]
fn hash_is_lane_zero_of_the_padded_permutation() {
    let p = poseidon2_16();
    let mut state = [0u32; WIDTH];
    state[0] = 11;
    state[1] = 22;
    state[2] = 33;
    assert_eq!(hash(&p, &[11, 22, 33]), permute16(&p, state)[0]);
    assert_eq!(hash(&p, &[]), permute16(&p, [0u32; WIDTH])[0]);
    let long: Vec<u32> = (1..=20).collect();
    assert_eq!(hash(&p, &long), hash(&p, &long[..16]), "inputs past the width are ignored");
    assert_eq!(hash(&p, &[11, 22, 33]), hash(&p, &[11, 22, 33, 0]), "zero padding");
}

#[test]
fn commitment_compress_and_nullifier_are_hashes() {
    let p = poseidon2_16();
    assert_eq!(commitment(&p, 1, 2, 3), hash(&p, &[1, 2, 3]));
    assert_eq!(merkle_compress(&p, 4, 5), hash(&p, &[4, 5]));
    assert_eq!(nullifier(&p, 6, 7), hash(&p, &[6, 7]));
    assert_ne!(merkle_compress(&p, 4, 5), merkle_compress(&p, 5, 4), "compression is ordered");
}

#[test]
fn merkle_root_follows_the_index_bits() {
    let p = poseidon2_16();
    let leaf = 9;
    assert_eq!(merkle_root(&p, leaf, &[], &[]), leaf);
    let l1 = merkle_compress(&p, leaf, 100);
    let l2 = merkle_compress(&p, 200, l1);
    let l3 = merkle_compress(&p, l2, 300);
    assert_eq!(merkle_root(&p, leaf, &[100, 200, 300], &[0, 1, 0]), l3);
    assert_eq!(merkle_root(&p, leaf, &[100, 200, 300], &[0, 7, 0]), l3, "any non-zero bit is right");
    assert_ne!(merkle_root(&p, leaf, &[100, 200, 300], &[1, 1, 0]), l3);
}
