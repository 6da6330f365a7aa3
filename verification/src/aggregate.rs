//! PACKAGE aggregation: a Poseidon2 binary Merkle fold of postcard leaves into
//! one root, membership paths against that root, and the statement layer of
//! the batch range-check STARK.
use vstd::prelude::*;
use crate::leaf::{compress_spec, merkle_compress, poseidon2_16, Poseidon2};
use crate::circuit::{
    gap_bits, generate_trace, lemma_range_check_complete, lemma_range_check_sound, lemma_trace_height_ge,
    padded_height, range_check_constraints, trace_height, be_value, BABYBEAR_P,
};
use crate::text::{decimal, decimal_string, with_number};

verus! {

/// One level up the tree: pairs are compressed left-to-right; a lone last
/// node is paired with itself.
pub open spec fn next_level(level: Seq<u32>) -> Seq<u32> {
    Seq::new(
        ((level.len() + 1) / 2) as nat,
        |j: int|
            compress_spec(
                level[2 * j],
                if 2 * j + 1 < level.len() { level[2 * j + 1] } else { level[2 * j] },
            ),
    )
}

/// Aggregation root of `level`: 0 for no leaves, the leaf itself for one,
/// otherwise the root of the next level.
pub open spec fn fold_root(level: Seq<u32>) -> u32
    decreases level.len(),
{
    if level.len() == 0 {
        0
    } else if level.len() == 1 {
        level[0]
    } else {
        fold_root(next_level(level))
    }
}

/// The sibling met at `idx` on `level`, with `true` when it sits on the right.
pub open spec fn sibling_at(level: Seq<u32>, idx: int) -> (u32, bool) {
    if idx % 2 == 0 {
        (if idx + 1 < level.len() { level[idx + 1] } else { level[idx] }, true)
    } else {
        (level[idx - 1], false)
    }
}

/// The membership path of position `idx` from `level` up to the root, leaf first.
pub open spec fn path_from(level: Seq<u32>, idx: int) -> Seq<(u32, bool)>
    decreases level.len(),
{
    if level.len() <= 1 {
        Seq::empty()
    } else {
        seq![sibling_at(level, idx)] + path_from(next_level(level), idx / 2)
    }
}

/// One step along a path: combine the accumulator with a sibling on its side.
pub open spec fn step(acc: u32, sib: (u32, bool)) -> u32 {
    if sib.1 {
        compress_spec(acc, sib.0)
    } else {
        compress_spec(sib.0, acc)
    }
}

/// The value reached from `acc` by walking `path` from its first entry.
pub open spec fn walk(acc: u32, path: Seq<(u32, bool)>) -> u32
    decreases path.len(),
{
    if path.len() == 0 {
        acc
    } else {
        walk(step(acc, path[0]), path.drop_first())
    }
}

/// Pairing of a level: nodes `2j` and `2j + 1` are compressed in order, and
/// on a level of odd length the lone last node is compressed with itself.
pub proof fn lemma_level_pairs_and_lone_node(level: Seq<u32>)
    requires
        level.len() >= 1,
    ensures
        next_level(level).len() == (level.len() + 1) / 2,
        forall|j: int| 0 <= j < level.len() / 2 ==> #[trigger] next_level(level)[j]
            == compress_spec(level[2 * j], level[2 * j + 1]),
        level.len() % 2 == 1 ==> next_level(level).last() == compress_spec(level.last(), level.last()),
{
}

/// A lone node is paired with itself at every level: for an odd number of at
/// least three leaves, repeating the last leaf leaves the root unchanged.
pub proof fn lemma_odd_root_repeats_last_leaf(leaves: Seq<u32>)
    requires
        leaves.len() >= 3,
        leaves.len() % 2 == 1,
    ensures
        fold_root(leaves) == fold_root(leaves.push(leaves.last())),
{
    let ext = leaves.push(leaves.last());
    assert(next_level(leaves) =~= next_level(ext));
}

/// A membership path for one leaf of an aggregation tree.
#[derive(Debug, Clone, PartialEq)]
pub struct MembershipProof {
    pub leaf: u32,
    pub index: usize,
    /// (sibling, sibling_is_right) per level, leaf to root.
    pub siblings: Vec<(u32, bool)>,
    pub root: u32,
}

/// A fresh vector holding `s`.
fn copy_u32s(s: &[u32]) -> (v: Vec<u32>)
    ensures
        v@ == s@,
{
    let mut v: Vec<u32> = Vec::new();
    let mut i: usize = 0;
    while i < s.len()
        invariant
            i <= s@.len(),
            v@ == s@.take(i as int),
        decreases s@.len() - i,
    {
        v.push(s[i]);
        assert(s@.take(i + 1) =~= s@.take(i as int).push(s@[i as int]));
        i = i + 1;
    }
    assert(s@.take(s@.len() as int) =~= s@);
    v
}

fn fold_level(p: &Poseidon2, level: &Vec<u32>) -> (next: Vec<u32>)
    requires
        level@.len() >= 1,
    ensures
        next@ == next_level(level@),
{
    let mut next: Vec<u32> = Vec::new();
    let n = level.len();
    let half: usize = n / 2 + n % 2;
    let mut j: usize = 0;
    while j < half
        invariant
            n == level@.len(),
            half == (n + 1) / 2,
            j <= half,
            next@.len() == j,
            forall|k: int| 0 <= k < next@.len() ==> #[trigger] next@[k] == next_level(level@)[k],
        decreases half - j,
    {
        let left = level[2 * j];
        let right = if 2 * j + 1 < n { level[2 * j + 1] } else { left };
        next.push(merkle_compress(p, left, right));
        j = j + 1;
    }
    assert(next@ =~= next_level(level@));
    next
}

/// Aggregation root over `leaves` (Poseidon2 2-to-1 compression, odd nodes
/// paired with themselves). No leaves give 0; one leaf gives that leaf.
pub fn aggregate_root(leaves: &[u32]) -> (root: u32)
    ensures
        root == fold_root(leaves@),
{
    if leaves.len() == 0 {
        return 0;
    }
    let p = poseidon2_16();
    let mut level: Vec<u32> = copy_u32s(leaves);
    while level.len() > 1
        invariant
            level@.len() >= 1,
            fold_root(level@) == fold_root(leaves@),
        decreases level@.len(),
    {
        level = fold_level(&p, &level);
    }
    level[0]
}

/// Build the membership path of `leaves[index]` in the tree `aggregate_root` builds.
pub fn membership_proof(leaves: &[u32], index: usize) -> (mp: MembershipProof)
    requires
        leaves@.len() > 0,
        index < leaves@.len(),
    ensures
        mp.leaf == leaves@[index as int],
        mp.index == index,
        mp.siblings@ == path_from(leaves@, index as int),
        mp.root == fold_root(leaves@),
{
    let p = poseidon2_16();
    let mut siblings: Vec<(u32, bool)> = Vec::new();
    let mut level: Vec<u32> = copy_u32s(leaves);
    let mut idx: usize = index;
    while level.len() > 1
        invariant
            level@.len() >= 1,
            idx < level@.len(),
            fold_root(level@) == fold_root(leaves@),
            siblings@ + path_from(level@, idx as int) == path_from(leaves@, index as int),
        decreases level@.len(),
    {
        let next = fold_level(&p, &level);
        let sib: (u32, bool) = if idx % 2 == 0 {
            if idx + 1 < level.len() {
                (level[idx + 1], true)
            } else {
                (level[idx], true)
            }
        } else {
            (level[idx - 1], false)
        };
        assert(sib == sibling_at(level@, idx as int));
        let ghost before = siblings@;
        siblings.push(sib);
        assert(path_from(level@, idx as int) == seq![sib] + path_from(next@, (idx / 2) as int));
        assert(siblings@ + path_from(next@, (idx / 2) as int) =~= before + path_from(level@, idx as int));
        idx = idx / 2;
        level = next;
    }
    assert(path_from(level@, idx as int) =~= Seq::<(u32, bool)>::empty());
    assert(siblings@ =~= path_from(leaves@, index as int));
    MembershipProof { leaf: leaves[index], index, siblings, root: level[0] }
}

/// Check that a membership path leads from its leaf to its root.
pub fn verify_membership(proof: &MembershipProof) -> (ok: bool)
    ensures
        ok == (walk(proof.leaf, proof.siblings@) == proof.root),
{
    let p = poseidon2_16();
    let mut acc = proof.leaf;
    let mut i: usize = 0;
    assert(proof.siblings@.skip(0) =~= proof.siblings@);
    while i < proof.siblings.len()
        invariant
            i <= proof.siblings@.len(),
            walk(acc, proof.siblings@.skip(i as int)) == walk(proof.leaf, proof.siblings@),
        decreases proof.siblings@.len() - i,
    {
        let (sib, sib_is_right) = proof.siblings[i];
        assert(proof.siblings@.skip(i as int).drop_first() =~= proof.siblings@.skip(i + 1));
        acc = if sib_is_right {
            merkle_compress(&p, acc, sib)
        } else {
            merkle_compress(&p, sib, acc)
        };
        i = i + 1;
    }
    assert(proof.siblings@.skip(i as int) =~= Seq::<(u32, bool)>::empty());
    acc == proof.root
}

/// Every position's path, walked from its own node, reaches the root of its level.
proof fn lemma_path_walks_to_root(level: Seq<u32>, idx: int)
    requires
        0 <= idx < level.len(),
    ensures
        walk(level[idx], path_from(level, idx)) == fold_root(level),
    decreases level.len(),
{
    if level.len() > 1 {
        let next = next_level(level);
        let j = idx / 2;
        assert(step(level[idx], sibling_at(level, idx)) == next[j]);
        let path = path_from(level, idx);
        assert(path.drop_first() =~= path_from(next, j));
        lemma_path_walks_to_root(next, j);
    }
}

/// Membership law: the path `membership_proof` builds for any position of a
/// non-empty leaf set leads from that leaf to `aggregate_root` of the set.
pub proof fn lemma_membership_reproduces_root(leaves: Seq<u32>, index: int)
    requires
        0 <= index < leaves.len(),
    ensures
        walk(leaves[index], path_from(leaves, index)) == fold_root(leaves),
{
    lemma_path_walks_to_root(leaves, index);
}

/// Width of a batch trace row: 32 gap bits, then repid and threshold.
pub const BATCH_WIDTH: usize = 34;

/// Public values of the batch proof: aggregation root and leaf count.
pub const BATCH_NUM_PUBLIC_VALUES: usize = 2;

/// The batch range-check AIR: every row range-checks its own statement.
pub struct RepIdBatchRangeCheckAir;

/// A batch STARK over N statements, bound to their aggregation root.
#[derive(Debug, Clone)]
pub struct BatchProof {
    pub proof_bytes: Vec<u8>,
    pub root: u32,
    pub leaf_count: usize,
    pub padded_height: usize,
}

/// Trace row of statement `(repid, threshold)`: the gap bits, then repid, threshold.
pub open spec fn batch_row_spec(repid: u64, threshold: u64) -> Seq<u32> {
    gap_bits((repid - threshold - 1) as u32) + seq![repid as u32, threshold as u32]
}

/// One batch trace row.
pub fn batch_row(repid: u64, threshold: u64) -> (row: Vec<u32>)
    requires
        threshold < repid,
    ensures
        row@ == batch_row_spec(repid, threshold),
{
    let mut row = generate_trace((repid - threshold - 1) as u32);
    row.push(repid as u32);
    row.push(threshold as u32);
    row
}

/// Why statement `i` cannot enter a batch, if it cannot.
pub open spec fn statement_error(i: int, st: (u64, u64)) -> Option<Seq<char>> {
    if st.0 <= st.1 {
        Some("statement "@ + decimal(i as nat) + " not positive: repid "@ + decimal(st.0 as nat)
            + " <= threshold "@ + decimal(st.1 as nat))
    } else if st.0 >= 0x8000_0000 || st.1 >= 0x8000_0000 {
        Some("statement "@ + decimal(i as nat) + " out of field range"@)
    } else if st.0 - st.1 - 1 >= 0x1_0000 {
        Some("statement "@ + decimal(i as nat) + " gap >= 2^16 (out of 16-bit range)"@)
    } else {
        None
    }
}

/// The first refused statement at or after position `i`.
pub open spec fn first_statement_error(stmts: Seq<(u64, u64)>, i: int) -> Option<Seq<char>>
    decreases stmts.len() - i,
{
    if i < 0 || i >= stmts.len() {
        None
    } else if statement_error(i, stmts[i]) is Some {
        statement_error(i, stmts[i])
    } else {
        first_statement_error(stmts, i + 1)
    }
}

/// Why a batch is refused, if it is.
pub open spec fn batch_error(stmts: Seq<(u64, u64)>, leaves: Seq<u32>) -> Option<Seq<char>> {
    if stmts.len() == 0 {
        Some("empty batch"@)
    } else if stmts.len() != leaves.len() {
        Some("statements/leaves length mismatch: "@ + decimal(stmts.len()) + " vs "@ + decimal(leaves.len()))
    } else {
        first_statement_error(stmts, 0)
    }
}

/// Every statement can enter a batch.
pub open spec fn statements_valid(stmts: Seq<(u64, u64)>) -> bool {
    forall|i: int| 0 <= i < stmts.len() ==> statement_error(i, #[trigger] stmts[i]) is None
}

proof fn lemma_no_first_error_all_valid(stmts: Seq<(u64, u64)>, i: int)
    requires
        0 <= i <= stmts.len(),
        first_statement_error(stmts, i) is None,
    ensures
        forall|j: int| i <= j < stmts.len() ==> statement_error(j, #[trigger] stmts[j]) is None,
    decreases stmts.len() - i,
{
    if i < stmts.len() {
        lemma_no_first_error_all_valid(stmts, i + 1);
    }
}

fn statement_message(i: usize, st: (u64, u64)) -> (r: Option<String>)
    ensures
        r is None <==> statement_error(i as int, st) is None,
        r matches Some(e) ==> statement_error(i as int, st) == Some(e@),
{
    let (repid, threshold) = st;
    if repid <= threshold {
        let mut e = with_number("statement ", i as u64);
        e.append(" not positive: repid ");
        let a = decimal_string(repid);
        e.append(a.as_str());
        e.append(" <= threshold ");
        let b = decimal_string(threshold);
        e.append(b.as_str());
        return Some(e);
    }
    if repid >= 0x8000_0000u64 || threshold >= 0x8000_0000u64 {
        let mut e = with_number("statement ", i as u64);
        e.append(" out of field range");
        return Some(e);
    }
    if repid - threshold - 1 >= 0x1_0000u64 {
        let mut e = with_number("statement ", i as u64);
        e.append(" gap >= 2^16 (out of 16-bit range)");
        return Some(e);
    }
    None
}

/// Check a batch before proving: non-empty, statements and leaves aligned,
/// every statement positive, in field range and with a gap below 2^16.
pub fn check_batch(statements: &[(u64, u64)], leaves: &[u32]) -> (r: Result<(), String>)
    ensures
        r is Ok <==> batch_error(statements@, leaves@) is None,
        r is Ok ==> statements_valid(statements@),
        r matches Err(e) ==> e@ == batch_error(statements@, leaves@)->0,
        r is Ok <==> {
            &&& statements@.len() > 0
            &&& statements@.len() == leaves@.len()
            &&& forall|i: int| 0 <= i < statements@.len() ==> {
                let (repid, threshold) = #[trigger] statements@[i];
                threshold < repid && repid < 0x8000_0000 && repid - threshold - 1 < 0x1_0000
            }
        },
{
    proof { lemma_batch_accepts_exactly_in_range_statements(statements@, leaves@); }
    if statements.len() == 0 {
        return Err(String::from_str("empty batch"));
    }
    if statements.len() != leaves.len() {
        let mut e = with_number("statements/leaves length mismatch: ", statements.len() as u64);
        e.append(" vs ");
        let b = decimal_string(leaves.len() as u64);
        e.append(b.as_str());
        return Err(e);
    }
    let mut i: usize = 0;
    while i < statements.len()
        invariant
            i <= statements@.len(),
            statements@.len() > 0,
            statements@.len() == leaves@.len(),
            first_statement_error(statements@, 0) == first_statement_error(statements@, i as int),
        decreases statements@.len() - i,
    {
        match statement_message(i, statements[i]) {
            Some(e) => {
                return Err(e);
            },
            None => {},
        }
        i = i + 1;
    }
    proof { lemma_no_first_error_all_valid(statements@, 0); }
    Ok(())
}

proof fn lemma_all_valid_no_first_error(stmts: Seq<(u64, u64)>, i: int)
    requires
        0 <= i <= stmts.len(),
        forall|j: int| i <= j < stmts.len() ==> statement_error(j, #[trigger] stmts[j]) is None,
    ensures
        first_statement_error(stmts, i) is None,
    decreases stmts.len() - i,
{
    if i < stmts.len() {
        lemma_all_valid_no_first_error(stmts, i + 1);
    }
}

/// A batch is accepted exactly when it is non-empty, aligned with its leaves,
/// and every statement `(repid, threshold)` has `threshold < repid < 2^31` and
/// a gap `repid - threshold - 1` below `2^16`.
pub proof fn lemma_batch_accepts_exactly_in_range_statements(stmts: Seq<(u64, u64)>, leaves: Seq<u32>)
    ensures
        batch_error(stmts, leaves) is None <==> {
            &&& stmts.len() > 0
            &&& stmts.len() == leaves.len()
            &&& forall|i: int| 0 <= i < stmts.len() ==> {
                let (repid, threshold) = #[trigger] stmts[i];
                threshold < repid && repid < 0x8000_0000 && repid - threshold - 1 < 0x1_0000
            }
        },
{
    let in_range = forall|i: int| 0 <= i < stmts.len() ==> {
        let (repid, threshold) = #[trigger] stmts[i];
        threshold < repid && repid < 0x8000_0000 && repid - threshold - 1 < 0x1_0000
    };
    if stmts.len() > 0 && stmts.len() == leaves.len() {
        if in_range {
            assert forall|j: int| 0 <= j < stmts.len() implies statement_error(j, #[trigger] stmts[j]) is None by {
                let (repid, threshold) = stmts[j];
                assert(threshold < repid && repid < 0x8000_0000 && repid - threshold - 1 < 0x1_0000);
            }
            lemma_all_valid_no_first_error(stmts, 0);
        } else if first_statement_error(stmts, 0) is None {
            lemma_no_first_error_all_valid(stmts, 0);
            assert forall|i: int| 0 <= i < stmts.len() implies {
                let (repid, threshold) = #[trigger] stmts[i];
                threshold < repid && repid < 0x8000_0000 && repid - threshold - 1 < 0x1_0000
            } by {
                assert(statement_error(i, stmts[i]) is None);
            }
        }
    }
}

/// The padded batch trace: one row per statement, then the trivial valid
/// statement `(1, 0)` up to `trace_height(N)` rows.
pub open spec fn batch_rows(stmts: Seq<(u64, u64)>) -> Seq<Seq<u32>> {
    Seq::new(
        trace_height(stmts.len()),
        |i: int| if i < stmts.len() { batch_row_spec(stmts[i].0, stmts[i].1) } else { batch_row_spec(1, 0) },
    )
}

/// Build the padded batch trace rows.
pub fn batch_trace(statements: &[(u64, u64)]) -> (rows: Vec<Vec<u32>>)
    requires
        statements_valid(statements@),
        statements@.len() <= usize::MAX / 2,
    ensures
        rows@.len() == batch_rows(statements@).len(),
        forall|i: int| 0 <= i < rows@.len() ==> #[trigger] rows@[i]@ == batch_rows(statements@)[i],
{
    let height = padded_height(statements.len());
    let mut rows: Vec<Vec<u32>> = Vec::new();
    let mut i: usize = 0;
    while i < height
        invariant
            height == trace_height(statements@.len() as nat),
            statements_valid(statements@),
            i <= height,
            rows@.len() == i,
            forall|k: int| 0 <= k < i ==> #[trigger] rows@[k]@ == batch_rows(statements@)[k],
        decreases height - i,
    {
        let row = if i < statements.len() {
            let (repid, threshold) = statements[i];
            assert(statement_error(i as int, statements@[i as int]) is None);
            batch_row(repid, threshold)
        } else {
            batch_row(1, 0)
        };
        rows.push(row);
        i = i + 1;
    }
    rows
}

/// Public values of the batch proof: the aggregation root of the leaves and their count.
pub fn batch_public_values(leaves: &[u32]) -> (pv: Vec<u32>)
    ensures
        pv@ == seq![fold_root(leaves@), leaves@.len() as u32],
{
    let mut pv: Vec<u32> = Vec::new();
    pv.push(aggregate_root(leaves));
    pv.push(leaves.len() as u32);
    assert(pv@ =~= seq![fold_root(leaves@), leaves@.len() as u32]);
    pv
}

/// The range statement a batch row asserts, in the single-statement layout
/// (threshold at position 16, repid at position 17).
pub open spec fn batch_row_statement(row: Seq<u32>) -> Seq<u32> {
    Seq::new(18, |i: int| if i == 16 { row[33] } else if i == 17 { row[32] } else { 0u32 })
}

/// The constraints `RepIdBatchRangeCheckAir` imposes on every row.
pub open spec fn batch_row_constraints(row: Seq<u32>) -> bool {
    row.len() == BATCH_WIDTH && range_check_constraints(row.take(32), batch_row_statement(row))
}

/// Batch completeness: for statements `check_batch` accepts, every row of the
/// padded batch trace satisfies the batch AIR's constraints.
pub proof fn lemma_batch_trace_satisfies(stmts: Seq<(u64, u64)>, i: int)
    requires
        statements_valid(stmts),
        0 <= i < batch_rows(stmts).len(),
    ensures
        batch_row_constraints(batch_rows(stmts)[i]),
{
    let (repid, threshold) = if i < stmts.len() { stmts[i] } else { (1u64, 0u64) };
    if i < stmts.len() {
        assert(statement_error(i, stmts[i]) is None);
    }
    let row = batch_row_spec(repid, threshold);
    assert(batch_rows(stmts)[i] == row);
    let pis = batch_row_statement(row);
    lemma_range_check_complete(pis);
    assert(row.take(32) =~= gap_bits((pis[17] - pis[16] - 1) as u32));
}

/// Batch soundness, per row: a row that satisfies the constraints, with its
/// threshold below `BABYBEAR_P - 2^16` and repid below `BABYBEAR_P`, carries a
/// positive statement `repid > threshold`.
pub proof fn lemma_batch_row_sound(row: Seq<u32>)
    requires
        batch_row_constraints(row),
        row[33] + 65536 < BABYBEAR_P,
        row[32] < BABYBEAR_P,
    ensures
        row[32] > row[33],
{
    lemma_range_check_sound(row.take(32), batch_row_statement(row));
}

} // verus!
