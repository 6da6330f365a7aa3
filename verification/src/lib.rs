//! Reputation-proof statement layer over BabyBear / Poseidon2.
//!
//! The library holds the deterministic logic of the RepID proof tiers:
//! the Poseidon2 leaf primitives, progressive folds, Merkle aggregation,
//! sealed selective disclosure (envelopes), epochs, packages and the
//! statement checks that precede STARK proving.
#![allow(unused_imports)]

pub mod leaf;
pub mod text;
pub mod digest;
pub mod circuit;
pub mod aggregate;
pub mod fold;
pub mod fold_c1;
pub mod envelope;
pub mod epoch;
pub mod task_queue;
pub mod package;
pub mod letter;
pub mod variants;
pub mod corpus;
pub mod tiers;
pub mod service;
pub mod cli;
pub mod recursion;
