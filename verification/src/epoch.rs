//! Epochs: one chain-derived epoch integer, one freshness rule, and per-epoch
//! aggregation roots that fold only the leaves bound to that epoch.
use vstd::prelude::*;
use crate::aggregate::{aggregate_root, fold_root};

verus! {

/// About one day of Base Sepolia blocks.
pub const DEFAULT_EPOCH_BLOCKS: u64 = 43_200;

/// `floor(block_height / epoch_blocks)`, with `epoch_blocks == 0` meaning the default.
pub open spec fn epoch_of_spec(block_height: u64, epoch_blocks: u64) -> u64 {
    if epoch_blocks == 0 {
        block_height / DEFAULT_EPOCH_BLOCKS
    } else {
        block_height / epoch_blocks
    }
}

/// The authoritative epoch of a block height.
pub fn epoch_of(block_height: u64, epoch_blocks: u64) -> (e: u64)
    ensures
        e == epoch_of_spec(block_height, epoch_blocks),
{
    let eb = if epoch_blocks == 0 { DEFAULT_EPOCH_BLOCKS } else { epoch_blocks };
    block_height / eb
}

/// A proof minted at `proof_epoch` is fresh: not future-dated and at most
/// `window` epochs old.
pub fn epoch_fresh(proof_epoch: u64, current_epoch: u64, window: u64) -> (fresh: bool)
    ensures
        fresh <==> (proof_epoch <= current_epoch && current_epoch - proof_epoch <= window),
{
    if proof_epoch > current_epoch {
        return false;
    }
    current_epoch - proof_epoch <= window
}

/// The leaves of `entries` bound to `epoch`, in order.
pub open spec fn leaves_of_epoch(entries: Seq<(u64, u32)>, epoch: u64) -> Seq<u32>
    decreases entries.len(),
{
    if entries.len() == 0 {
        Seq::empty()
    } else {
        let prev = leaves_of_epoch(entries.drop_last(), epoch);
        if entries.last().0 == epoch {
            prev.push(entries.last().1)
        } else {
            prev
        }
    }
}

/// Root of epoch `target_epoch`: the aggregation root of exactly the leaves
/// whose proofs are bound to that epoch.
pub fn per_epoch_root(entries: &[(u64, u32)], target_epoch: u64) -> (root: u32)
    ensures
        root == fold_root(leaves_of_epoch(entries@, target_epoch)),
        root == fold_root(entries@.filter(|x: (u64, u32)| x.0 == target_epoch).map_values(|x: (u64, u32)| x.1)),
{
    proof { lemma_epoch_leaves_are_all_entries_of_the_epoch(entries@, target_epoch); }
    let mut selected: Vec<u32> = Vec::new();
    let mut i: usize = 0;
    while i < entries.len()
        invariant
            i <= entries@.len(),
            selected@ == leaves_of_epoch(entries@.take(i as int), target_epoch),
        decreases entries@.len() - i,
    {
        assert(entries@.take(i + 1).drop_last() =~= entries@.take(i as int));
        let (e, leaf) = entries[i];
        if e == target_epoch {
            selected.push(leaf);
        }
        i = i + 1;
    }
    assert(entries@.take(entries@.len() as int) =~= entries@);
    aggregate_root(selected.as_slice())
}

/// Epoch tie: every leaf folded into an epoch's root comes from an entry bound
/// to that epoch, so a proof bound elsewhere cannot enter it.
pub proof fn lemma_epoch_root_members_bound(entries: Seq<(u64, u32)>, epoch: u64, k: int)
    requires
        0 <= k < leaves_of_epoch(entries, epoch).len(),
    ensures
        exists|j: int| 0 <= j < entries.len() && #[trigger] entries[j] == (epoch, leaves_of_epoch(entries, epoch)[k]),
    decreases entries.len(),
{
    let prev = leaves_of_epoch(entries.drop_last(), epoch);
    if k < prev.len() {
        lemma_epoch_root_members_bound(entries.drop_last(), epoch, k);
        let j = choose|j: int| 0 <= j < entries.drop_last().len() && #[trigger] entries.drop_last()[j] == (epoch, prev[k]);
        assert(entries[j] == entries.drop_last()[j]);
    } else {
        assert(entries[entries.len() - 1] == (epoch, leaves_of_epoch(entries, epoch)[k]));
    }
}

/// Epoch selection is complete and ordered: the leaves folded into an epoch's
/// root are exactly the leaves of all entries bound to that epoch, in entry
/// order, one per such entry.
pub proof fn lemma_epoch_leaves_are_all_entries_of_the_epoch(entries: Seq<(u64, u32)>, epoch: u64)
    ensures
        leaves_of_epoch(entries, epoch)
            == entries.filter(|x: (u64, u32)| x.0 == epoch).map_values(|x: (u64, u32)| x.1),
        leaves_of_epoch(entries, epoch).len() == entries.filter(|x: (u64, u32)| x.0 == epoch).len(),
    decreases entries.len(),
{
    let pred = |x: (u64, u32)| x.0 == epoch;
    let f = |x: (u64, u32)| x.1;
    reveal(Seq::filter);
    if entries.len() > 0 {
        lemma_epoch_leaves_are_all_entries_of_the_epoch(entries.drop_last(), epoch);
        let sub = entries.drop_last().filter(pred);
        assert(entries.filter(pred) == (if pred(entries.last()) { sub.push(entries.last()) } else { sub }));
        if pred(entries.last()) {
            assert(sub.push(entries.last()).map_values(f) =~= sub.map_values(f).push(entries.last().1));
        }
    } else {
        assert(entries.filter(pred) =~= Seq::<(u64, u32)>::empty());
        assert(entries.filter(pred).map_values(f) =~= Seq::<u32>::empty());
    }
}

} // verus!
