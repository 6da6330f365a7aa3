//! Real-proof corpus: the agent set, the thresholds each agent is proven
//! against, and the manifest entry recorded for each proof.
use vstd::prelude::*;
use vstd::string::StringSliceAdditionalSpecFns;
use crate::circuit::{poseidon2_postcard_leaf, postcard_leaf, NUM_PUBLIC_VALUES};
use crate::digest::{hex_encode, hex_lower, sha256, sha256_digest};
use crate::text::{decimal, decimal_string, hex8, with_number};

verus! {

/// (agent_name, agent_uuid, current_repid) of the corpus agents.
pub const REAL_AGENTS: [(&'static str, &'static str, u64); 34] = [
    ("MEDIATOR", "394b6ee4-62e7-4c66-8445-29107b097b4c", 2280),
    ("demo-openai-agent", "51dbf516-c0e0-4d60-bfee-60209de313b8", 2186),
    ("RESEARCHER", "d244f6fc-35af-4131-b649-285bfac64b63", 1675),
    ("GUARDIAN", "5b81eaa8-b15b-44fb-b27c-c02e7ee58a7c", 1400),
    ("SEAN", "d08a6049-6e33-48ef-8d6c-006ebe9ef48a", 1050),
    ("HUMAN-8791", "8791a7c3-40eb-475c-bade-e11d5b9776c7", 1009),
    ("HUMAN-45f5", "45f5ec09-86be-40ef-b10f-299a1bbb913e", 1000),
    ("trinity-shofet", "32e0e809-c1c4-4405-913f-135c8a2d6626", 1000),
    ("trinity-w3c", "d82b2ae5-1d1d-462e-87fb-57cb3e63017b", 1000),
    ("HUMAN-4f66", "4f6673e9-1471-45c1-884e-34f294ddaec1", 1000),
    ("HUMAN-9f76", "9f76eca0-0743-4fa3-a8d8-01f18a161a67", 1000),
    ("trinity-orch", "84f2d7de-5bb9-4f3b-92ca-aecc7c498271", 1000),
    ("trinity-veritas", "a83cc9eb-43b0-49ee-9e45-2ecbb0d35067", 1000),
    ("trinity-hdm", "f93cdbbe-2337-48b3-8bfd-b5b7a5c2b5c0", 1000),
    ("HUMAN-2557", "25574cdd-ac93-4ad3-a9c9-7bdaa7430d2d", 1000),
    ("HUMAN-f436", "f4367518-a2a2-4dec-8193-1a259f3640f4", 916),
    ("SKEPTIC", "2538b7ed-acdb-4423-b5bf-a9e18069ec99", 834),
    ("trinity-t12-e2e", "e0b365eb-6634-4e14-9f8f-6d4cc2e65adc", 700),
    ("trinity-redteam-finder", "bd92d6f1-bbe5-481c-b258-68f0f76c9777", 610),
    ("trinity-redteam-accuser", "14f2b4ac-f8e2-4e45-ba54-59da23e72651", 595),
    ("trinity-redteam-subject", "797dcf75-6276-40c3-a7d0-4e686f646887", 580),
    ("ATLAS", "db5ea9f4-f1ad-445e-8c00-e13495e580f6", 574),
    ("trinity-torch", "9c0dc740-8c16-4862-ad62-9ba3d515369d", 500),
    ("trinity-gcm", "57a2f83a-e071-4901-bbfd-1ebe15ce0be5", 500),
    ("trinity-apm", "065ad782-ea58-4078-9414-60a862d67ba1", 500),
    ("trinity-mel", "942860a6-e26f-4334-ae94-b7c1abed1e8c", 500),
    ("trinity-chesed", "2c2c24d6-2fd0-47e6-95d5-7fc9804a19e6", 500),
    ("trinity-nexus", "848da285-93c5-4e99-a989-3d9e49ebed09", 500),
    ("trinity-sophia", "f3ef0bf8-5cdc-4fad-bce8-5144f01dc271", 500),
    ("MENTOR", "be599a22-2d31-4158-9d46-a87cb5d598ea", 499),
    ("ORACLE", "a16f14e7-3690-40ed-a013-f45c3f724bf7", 499),
    ("SAGE", "cde8f5af-c39e-44cc-bd69-82ce4c08a35f", 499),
    ("CONTRARIAN", "d5bc5cef-e2c4-4774-8651-569945fde388", 74),
    ("NEWCOMER", "d71b1e49-ce20-4e1c-b21f-3501dd852f6a", 60),
];

/// One corpus entry: a statement, its gap, its leaf and its proof's digest.
#[derive(Debug, Clone, PartialEq)]
pub struct CorpusEntry {
    pub agent_name: String,
    pub agent_id: String,
    pub repid_score: u64,
    pub threshold: u64,
    pub gap: u32,
    pub leaf: String,
    pub proof_size_bytes: usize,
    pub proof_sha256: String,
}

/// The corpus manifest.
#[derive(Debug, Clone)]
pub struct Corpus {
    pub plonky3_pin: String,
    pub num_public_values: usize,
    pub note: String,
    pub entries: Vec<CorpusEntry>,
}

/// The tier-floor thresholds every agent is tried against.
pub open spec fn tier_floors() -> Seq<u64> {
    seq![0u64, 100, 250, 499, 500, 999]
}

/// `t` is a threshold of an agent with score `repid`: a tier floor below the
/// score, or the tight boundary `repid - 1`.
pub open spec fn is_threshold_for(repid: u64, t: u64) -> bool {
    (tier_floors().contains(t) && t < repid) || (repid >= 1 && t == repid - 1)
}

/// The floors of `floors` below `repid`, in their order.
pub open spec fn floors_below(floors: Seq<u64>, repid: u64) -> Seq<u64>
    decreases floors.len(),
{
    if floors.len() == 0 {
        Seq::empty()
    } else {
        let p = floors_below(floors.drop_last(), repid);
        if floors.last() < repid { p.push(floors.last()) } else { p }
    }
}

/// The thresholds of an agent with score `repid`: the tier floors below the
/// score, then the tight boundary `repid - 1` unless it is already the last floor.
pub open spec fn threshold_list(repid: u64) -> Seq<u64> {
    let f = floors_below(tier_floors(), repid);
    if repid >= 1 && (f.len() == 0 || f.last() != (repid - 1) as u64) {
        f.push((repid - 1) as u64)
    } else {
        f
    }
}

/// Thresholds strictly below `repid`: the tier floors under the score plus the
/// tight boundary `repid - 1`, ascending and without repeats.
pub fn thresholds_for(repid: u64) -> (ts: Vec<u64>)
    ensures
        forall|i: int, j: int| 0 <= i < j < ts@.len() ==> ts@[i] < ts@[j],
        forall|t: u64| ts@.contains(t) <==> is_threshold_for(repid, t),
        ts@ == threshold_list(repid),
{
    let floors: [u64; 6] = [0, 100, 250, 499, 500, 999];
    assert(floors@ =~= tier_floors());
    let mut ts: Vec<u64> = Vec::new();
    let mut i: usize = 0;
    while i < 6
        invariant
            floors@ == tier_floors(),
            i <= 6,
            forall|a: int, b: int| 0 <= a < b < ts@.len() ==> ts@[a] < ts@[b],
            forall|a: int| 0 <= a < ts@.len() ==> #[trigger] ts@[a] < repid,
            ts@.len() > 0 ==> ts@.last() < if i < 6 { floors@[i as int] } else { 1000u64 },
            forall|t: u64| ts@.contains(t) <==> (floors@.take(i as int).contains(t) && t < repid),
            ts@ == floors_below(floors@.take(i as int), repid),
        decreases 6 - i,
    {
        let t = floors[i];
        assert(floors@.take(i + 1).drop_last() =~= floors@.take(i as int));
        let ghost before = ts@;
        if t < repid {
            ts.push(t);
        }
        assert forall|x: u64| ts@.contains(x) <==> (floors@.take(i + 1).contains(x) && x < repid) by {
            let prev = floors@.take(i as int);
            let next = floors@.take(i + 1);
            assert(next =~= prev.push(t));
            if ts@.contains(x) {
                if before.contains(x) {
                    let k = choose|k: int| 0 <= k < prev.len() && prev[k] == x;
                    assert(next[k] == x);
                } else {
                    let k = choose|k: int| 0 <= k < ts@.len() && ts@[k] == x;
                    if k < before.len() {
                        assert(before[k] == x);
                    }
                    assert(x == t);
                    assert(next[i as int] == x);
                }
            }
            if next.contains(x) && x < repid {
                let k = choose|k: int| 0 <= k < next.len() && next[k] == x;
                if k == i {
                    assert(ts@[ts@.len() - 1] == t);
                } else {
                    assert(prev[k] == x);
                    assert(before.contains(x));
                    let m = choose|m: int| 0 <= m < before.len() && before[m] == x;
                    assert(ts@[m] == x);
                }
            }
        }
        i = i + 1;
    }
    assert(floors@.take(6) =~= floors@);
    assert(ts@ == floors_below(tier_floors(), repid));
    if repid >= 1 {
        let tight = repid - 1;
        if ts.len() == 0 || ts[ts.len() - 1] != tight {
            let ghost before = ts@;
            ts.push(tight);
            assert forall|x: u64| ts@.contains(x) <==> is_threshold_for(repid, x) by {
                if ts@.contains(x) && !before.contains(x) {
                    assert(x == tight);
                }
                if x == tight {
                    assert(ts@[ts@.len() - 1] == tight);
                }
                if before.contains(x) {
                    let k = choose|k: int| 0 <= k < before.len() && before[k] == x;
                    assert(ts@[k] == x);
                }
            }
        } else {
            assert(ts@.contains(tight)) by {
                assert(ts@[ts@.len() - 1] == tight);
            }
        }
    }
    ts
}

/// Why a corpus statement cannot be proven, if it cannot.
pub open spec fn entry_statement_error(repid: u64, threshold: u64) -> Option<Seq<char>> {
    if repid <= threshold {
        Some("repid "@ + decimal(repid as nat) + " <= threshold "@ + decimal(threshold as nat)
            + " (not a positive statement)"@)
    } else {
        None
    }
}

/// Check a corpus statement and return its gap `repid - threshold - 1`.
pub fn entry_gap(repid: u64, threshold: u64) -> (r: Result<u32, String>)
    ensures
        r is Ok <==> entry_statement_error(repid, threshold) is None,
        r matches Ok(g) ==> g == (repid - threshold - 1) as u32,
        r matches Err(e) ==> e@ == entry_statement_error(repid, threshold)->0,
{
    if repid <= threshold {
        let mut e = with_number("repid ", repid);
        e.append(" <= threshold ");
        let t = decimal_string(threshold);
        e.append(t.as_str());
        e.append(" (not a positive statement)");
        return Err(e);
    }
    Ok((repid - threshold - 1) as u32)
}

/// The manifest entry of a proven corpus statement, given the proof bytes the
/// prover produced for it.
pub fn corpus_entry(agent_name: &str, agent_id: &str, repid: u64, threshold: u64, proof: &[u8]) -> (e: CorpusEntry)
    requires
        threshold < repid,
    ensures
        e.agent_name@ == agent_name@,
        e.agent_id@ == agent_id@,
        e.repid_score == repid,
        e.threshold == threshold,
        e.gap == (repid - threshold - 1) as u32,
        e.leaf@ == hex8(postcard_leaf(agent_id.spec_bytes(), threshold, repid)),
        e.proof_size_bytes == proof@.len(),
        e.proof_sha256@ == hex_lower(sha256_digest(proof@)),
{
    let digest = sha256(proof);
    CorpusEntry {
        agent_name: String::from_str(agent_name),
        agent_id: String::from_str(agent_id),
        repid_score: repid,
        threshold,
        gap: (repid - threshold - 1) as u32,
        leaf: poseidon2_postcard_leaf(agent_id, threshold, repid),
        proof_size_bytes: proof.len(),
        proof_sha256: hex_encode(digest.as_slice()),
    }
}

/// The corpus statements of the first `n` agents, in agent order and, per
/// agent, in threshold order: `(agent index, threshold)`.
pub open spec fn corpus_plan(n: nat) -> Seq<(usize, u64)>
    decreases n,
{
    if n == 0 {
        Seq::empty()
    } else {
        let k = (n - 1) as nat;
        corpus_plan(k) + threshold_list(REAL_AGENTS@[k as int].2).map_values(|t: u64| (k as usize, t))
    }
}

/// Every corpus statement: each agent of `REAL_AGENTS` against each of its thresholds.
pub fn corpus_statements() -> (plan: Vec<(usize, u64)>)
    ensures
        plan@ == corpus_plan(REAL_AGENTS@.len()),
{
    let mut plan: Vec<(usize, u64)> = Vec::new();
    let mut k: usize = 0;
    while k < 34
        invariant
            k <= 34,
            REAL_AGENTS@.len() == 34,
            plan@ == corpus_plan(k as nat),
        decreases 34 - k,
    {
        let ts = thresholds_for(REAL_AGENTS[k].2);
        let ghost before = plan@;
        let ghost mapped = ts@.map_values(|t: u64| (k, t));
        let mut j: usize = 0;
        while j < ts.len()
            invariant
                j <= ts@.len(),
                mapped == ts@.map_values(|t: u64| (k, t)),
                plan@ == before + mapped.take(j as int),
            decreases ts@.len() - j,
        {
            plan.push((k, ts[j]));
            assert(mapped.take(j + 1) =~= mapped.take(j as int).push((k, ts@[j as int])));
            j = j + 1;
        }
        assert(mapped.take(ts@.len() as int) =~= mapped);
        assert(corpus_plan((k + 1) as nat) == before + mapped);
        k = k + 1;
    }
    plan
}

/// The corpus manifest over proven entries: the prover pin, the public-value
/// width, the provenance note, and the entries in the order given.
pub fn corpus_manifest(entries: Vec<CorpusEntry>) -> (c: Corpus)
    ensures
        c.plonky3_pin@ == "27d59f7350daf6b02d11b01c3a55af453554b515"@,
        c.num_public_values == NUM_PUBLIC_VALUES,
        c.note@ == "Real Plonky3 STARK postcard proofs over real Trinity-prod agents (sql:2026-06-10). Each proof_sha256 is reproducible from the pinned, deterministic prover."@,
        c.entries@ == entries@,
{
    Corpus {
        plonky3_pin: String::from_str("27d59f7350daf6b02d11b01c3a55af453554b515"),
        num_public_values: NUM_PUBLIC_VALUES,
        note: String::from_str("Real Plonky3 STARK postcard proofs over real Trinity-prod agents (sql:2026-06-10). Each proof_sha256 is reproducible from the pinned, deterministic prover."),
        entries,
    }
}

} // verus!
