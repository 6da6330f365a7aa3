# zkp_postcard

Statement layer of the RepID proof tiers over BabyBear / Poseidon2, written in
Verus: every function in `src/` carries a contract that Verus proves, except
four small wrappers around outside crates whose contracts are trusted, not
proved:

- `leaf::canonical_permute` – `p3_baby_bear::default_babybear_poseidon2_16`
  applied with `permute_mut`; its result is named `poseidon2_permutation`.
- `digest::sha256` – `sha2::Sha256::digest`; its result is named `sha256_digest`.
- `digest::hex_decode` – `hex::decode`.
- `digest::hex_encode` – `hex::encode`.

- `src/leaf.rs` – canonical width-16 Poseidon2 permutation (through
  `p3-baby-bear`), the single-field digest, commitments, Merkle path roots,
  scoped nullifiers.
- `src/circuit.rs` – agent binding, postcard leaf, public values and trace of
  the range-check STARK, with soundness/completeness lemmas for its constraints.
- `src/aggregate.rs` – Poseidon2 Merkle aggregation, membership paths, batch
  statement checks and batch trace.
- `src/fold.rs`, `src/fold_c1.rs` – progressive fold statements, their native
  checks and the linked (derived commitment / nullifier) fold.
- `src/envelope.rs`, `src/letter.rs`, `src/package.rs`, `src/epoch.rs` – the
  ENVELOPE, LETTER and PACKAGE tiers and epoch freshness.
- `src/variants.rs`, `src/corpus.rs`, `src/recursion.rs` – earned/combined
  statements, the proof corpus, the two-level recursion-tree check.
- `src/service.rs`, `src/tiers.rs`, `src/cli.rs`, `src/text.rs`,
  `src/digest.rs`, `src/task_queue.rs` – service decisions, tiers, argument
  parsing, number rendering/parsing, SHA-256 and hex.

`app/` holds what Verus does not take: the Plonky3 AIRs and prover calls, the
HTTP services, the `leaf` command line, and the floating-point router.
`tests/` exercises the library with the outside crates linked.
