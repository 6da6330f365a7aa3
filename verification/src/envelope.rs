//! ENVELOPE tier: owner-selected field disclosure sealed to one recipient.
//!
//! Every field is committed (`Poseidon2(value, salt, label)`), the commitments
//! are folded into a public root, and the selected fields are masked with a
//! recipient-scoped keystream. The envelope carries a scoped nullifier so it
//! can be accepted once.
use vstd::prelude::*;
use std::collections::HashSet;
use crate::aggregate::{aggregate_root, fold_root, membership_proof, path_from, verify_membership, walk, MembershipProof, lemma_membership_reproduces_root};
use crate::leaf::{hash, hash_spec, poseidon2_16, Poseidon2};
use crate::text::{decimal, with_number};

verus! {

/// Envelope domain tag ("ENV1").
pub const DOMAIN_ENVELOPE: u32 = 0x454e_5631;

/// Field values (and keystream masks) stay below 2^31.
pub const FIELD_MAX: u32 = 0x8000_0000;

/// A single disclosable field.
#[derive(Debug, Clone, Copy, PartialEq, Eq, Structural)]
pub struct EnvelopeField {
    pub label: u32,
    pub value: u32,
}

/// One owner-selected field, sealed to the recipient.
#[derive(Debug, Clone, PartialEq)]
pub struct SealedDisclosure {
    pub index: usize,
    pub label: u32,
    /// Per-field salt, revealed so the recipient can re-bind the opened value.
    pub salt: u32,
    /// `value XOR keystream`.
    pub sealed_value: u32,
    /// Path proving this field's commitment is in the envelope root.
    pub membership: MembershipProof,
}

/// The public envelope and its sealed selective disclosure.
#[derive(Debug, Clone, PartialEq)]
pub struct Envelope {
    pub domain: u32,
    pub root: u32,
    pub field_count: usize,
    pub recipient_id: u32,
    pub nullifier: u32,
    pub disclosures: Vec<SealedDisclosure>,
}

/// Per-field commitment `Poseidon2(value, salt, label)`.
pub open spec fn field_commit(f: EnvelopeField, salt: u32) -> u32 {
    hash_spec(seq![f.value, salt, f.label])
}

/// Scoped nullifier `Poseidon2(secret, recipient_id, DOMAIN_ENVELOPE)`.
pub open spec fn envelope_nullifier(secret: u32, recipient_id: u32) -> u32 {
    hash_spec(seq![secret, recipient_id, DOMAIN_ENVELOPE])
}

/// Recipient seal key `Poseidon2(recipient_key, recipient_id, DOMAIN_ENVELOPE)`.
pub open spec fn seal_key(recipient_key: u32, recipient_id: u32) -> u32 {
    hash_spec(seq![recipient_key, recipient_id, DOMAIN_ENVELOPE])
}

/// Per-field mask `Poseidon2(seal_key, salt, index) mod 2^31`.
pub open spec fn keystream(seal_key: u32, salt: u32, index: usize) -> u32 {
    (hash_spec(seq![seal_key, salt, index as u32]) % FIELD_MAX) as u32
}

/// The commitments of all fields, in order.
pub open spec fn field_commits(fields: Seq<EnvelopeField>, salts: Seq<u32>) -> Seq<u32> {
    Seq::new(fields.len(), |i: int| field_commit(fields[i], salts[i]))
}

fn commit_field(p: &Poseidon2, f: &EnvelopeField, salt: u32) -> (c: u32)
    ensures
        c == field_commit(*f, salt),
{
    let v = [f.value, salt, f.label];
    let c = hash(p, v.as_slice());
    assert(v@ =~= seq![f.value, salt, f.label]);
    c
}

fn hash3(p: &Poseidon2, a: u32, b: u32, c: u32) -> (d: u32)
    ensures
        d == hash_spec(seq![a, b, c]),
{
    let v = [a, b, c];
    let d = hash(p, v.as_slice());
    assert(v@ =~= seq![a, b, c]);
    d
}

fn mask(p: &Poseidon2, sk: u32, salt: u32, index: usize) -> (m: u32)
    ensures
        m == keystream(sk, salt, index),
        m < FIELD_MAX,
{
    hash3(p, sk, salt, index as u32) % FIELD_MAX
}

/// `seal_envelope` rejects these inputs, with this message (first failing check).
pub open spec fn seal_error(fields: Seq<EnvelopeField>, salts: Seq<u32>, disclose: Seq<usize>) -> Option<Seq<char>> {
    if fields.len() == 0 {
        Some("envelope must have at least one field"@)
    } else if fields.len() != salts.len() {
        Some("fields/salts length mismatch"@)
    } else if exists|i: int| 0 <= i < fields.len() && fields[i].value >= FIELD_MAX {
        let i = choose|i: int| 0 <= i < fields.len() && fields[i].value >= FIELD_MAX
            && forall|j: int| 0 <= j < i ==> fields[j].value < FIELD_MAX;
        Some("field "@ + decimal(i as nat) + " value out of range (>= 2^31)"@)
    } else if exists|k: int| 0 <= k < disclose.len() && disclose[k] >= fields.len() {
        let k = choose|k: int| 0 <= k < disclose.len() && disclose[k] >= fields.len()
            && forall|j: int| 0 <= j < k ==> disclose[j] < fields.len();
        Some("disclose index "@ + decimal(disclose[k] as nat) + " out of range"@)
    } else {
        None
    }
}

/// Disclosure `d` seals field `i` of `fields` under seal key `sk`.
pub open spec fn sealed_as(d: SealedDisclosure, fields: Seq<EnvelopeField>, salts: Seq<u32>, sk: u32, i: usize) -> bool {
    let commits = field_commits(fields, salts);
    &&& d.index == i
    &&& d.label == fields[i as int].label
    &&& d.salt == salts[i as int]
    &&& d.sealed_value == fields[i as int].value ^ keystream(sk, salts[i as int], i)
    &&& d.membership.leaf == commits[i as int]
    &&& d.membership.index == i
    &&& d.membership.siblings@ == path_from(commits, i as int)
    &&& d.membership.root == fold_root(commits)
}

proof fn lemma_first_index_message(fields: Seq<EnvelopeField>, i: int)
    requires
        0 <= i < fields.len(),
        fields[i].value >= FIELD_MAX,
        forall|j: int| 0 <= j < i ==> fields[j].value < FIELD_MAX,
    ensures
        (choose|x: int| 0 <= x < fields.len() && fields[x].value >= FIELD_MAX
            && forall|j: int| 0 <= j < x ==> fields[j].value < FIELD_MAX) == i,
{
    let x = choose|x: int| 0 <= x < fields.len() && fields[x].value >= FIELD_MAX
        && forall|j: int| 0 <= j < x ==> fields[j].value < FIELD_MAX;
    assert(0 <= x < fields.len() && fields[x].value >= FIELD_MAX && forall|j: int| 0 <= j < x ==> fields[j].value < FIELD_MAX);
    if x < i {
        assert(fields[x].value < FIELD_MAX);
    } else if x > i {
        assert(fields[i].value < FIELD_MAX);
    }
}

proof fn lemma_first_disclose_message(disclose: Seq<usize>, n: int, k: int)
    requires
        0 <= k < disclose.len(),
        disclose[k] >= n,
        forall|j: int| 0 <= j < k ==> disclose[j] < n,
    ensures
        (choose|x: int| 0 <= x < disclose.len() && disclose[x] >= n
            && forall|j: int| 0 <= j < x ==> disclose[j] < n) == k,
{
    let x = choose|x: int| 0 <= x < disclose.len() && disclose[x] >= n
        && forall|j: int| 0 <= j < x ==> disclose[j] < n;
    assert(0 <= x < disclose.len() && disclose[x] >= n && forall|j: int| 0 <= j < x ==> disclose[j] < n);
    if x < k {
        assert(disclose[x] < n);
    } else if x > k {
        assert(disclose[k] < n);
    }
}

/// Seal an envelope: commit every field, fold the commitments into the public
/// root, derive the scoped nullifier, and seal the `disclose` subset (in the
/// order given) to `recipient_id` / `recipient_key`.
pub fn seal_envelope(
    secret: u32,
    fields: &[EnvelopeField],
    salts: &[u32],
    recipient_id: u32,
    recipient_key: u32,
    disclose: &[usize],
) -> (r: Result<Envelope, String>)
    ensures
        r is Err <==> seal_error(fields@, salts@, disclose@) is Some,
        r matches Err(e) ==> e@ == seal_error(fields@, salts@, disclose@)->0,
        r matches Ok(env) ==> {
            &&& env.domain == DOMAIN_ENVELOPE
            &&& env.root == fold_root(field_commits(fields@, salts@))
            &&& env.field_count == fields@.len()
            &&& env.recipient_id == recipient_id
            &&& env.nullifier == envelope_nullifier(secret, recipient_id)
            &&& env.disclosures@.len() == disclose@.len()
            &&& forall|k: int| 0 <= k < disclose@.len() ==> sealed_as(
                #[trigger] env.disclosures@[k], fields@, salts@, seal_key(recipient_key, recipient_id), disclose@[k])
        },
{
    if fields.len() == 0 {
        return Err(String::from_str("envelope must have at least one field"));
    }
    if fields.len() != salts.len() {
        return Err(String::from_str("fields/salts length mismatch"));
    }
    let mut i: usize = 0;
    while i < fields.len()
        invariant
            i <= fields@.len(),
            fields@.len() > 0,
            fields@.len() == salts@.len(),
            forall|j: int| 0 <= j < i ==> fields@[j].value < FIELD_MAX,
        decreases fields@.len() - i,
    {
        if fields[i].value >= FIELD_MAX {
            proof { lemma_first_index_message(fields@, i as int); }
            assert(0 <= i < fields@.len() && fields@[i as int].value >= FIELD_MAX);
            let mut e = with_number("field ", i as u64);
            e.append(" value out of range (>= 2^31)");
            assert(exists|x: int| 0 <= x < fields@.len() && fields@[x].value >= FIELD_MAX);
            assert(seal_error(fields@, salts@, disclose@) == Some("field "@ + decimal(i as nat) + " value out of range (>= 2^31)"@));
            assert(e@ == seal_error(fields@, salts@, disclose@)->0);
            return Err(e);
        }
        i = i + 1;
    }
    let mut k: usize = 0;
    while k < disclose.len()
        invariant
            k <= disclose@.len(),
            fields@.len() > 0,
            fields@.len() == salts@.len(),
            forall|j: int| 0 <= j < fields@.len() ==> fields@[j].value < FIELD_MAX,
            forall|j: int| 0 <= j < k ==> disclose@[j] < fields@.len(),
        decreases disclose@.len() - k,
    {
        if disclose[k] >= fields.len() {
            proof { lemma_first_disclose_message(disclose@, fields@.len() as int, k as int); }
            assert(0 <= k < disclose@.len() && disclose@[k as int] >= fields@.len());
            assert(!(exists|x: int| 0 <= x < fields@.len() && fields@[x].value >= FIELD_MAX));
            let mut e = with_number("disclose index ", disclose[k] as u64);
            e.append(" out of range");
            assert(e@ == seal_error(fields@, salts@, disclose@)->0);
            return Err(e);
        }
        k = k + 1;
    }

    let p = poseidon2_16();
    let mut commits: Vec<u32> = Vec::new();
    let mut j: usize = 0;
    while j < fields.len()
        invariant
            fields@.len() == salts@.len(),
            j <= fields@.len(),
            commits@ == field_commits(fields@, salts@).take(j as int),
        decreases fields@.len() - j,
    {
        let c = commit_field(&p, &fields[j], salts[j]);
        commits.push(c);
        assert(commits@ =~= field_commits(fields@, salts@).take(j + 1));
        j = j + 1;
    }
    assert(commits@ =~= field_commits(fields@, salts@));
    let root = aggregate_root(commits.as_slice());
    let nullifier = hash3(&p, secret, recipient_id, DOMAIN_ENVELOPE);
    let sk = hash3(&p, recipient_key, recipient_id, DOMAIN_ENVELOPE);

    let mut disclosures: Vec<SealedDisclosure> = Vec::new();
    let mut k: usize = 0;
    while k < disclose.len()
        invariant
            fields@.len() == salts@.len(),
            fields@.len() > 0,
            commits@ == field_commits(fields@, salts@),
            sk == seal_key(recipient_key, recipient_id),
            forall|j: int| 0 <= j < disclose@.len() ==> disclose@[j] < fields@.len(),
            k <= disclose@.len(),
            disclosures@.len() == k,
            forall|m: int| 0 <= m < k ==> sealed_as(#[trigger] disclosures@[m], fields@, salts@, sk, disclose@[m]),
        decreases disclose@.len() - k,
    {
        let i = disclose[k];
        let ks = mask(&p, sk, salts[i], i);
        let sealed_value = fields[i].value ^ ks;
        let membership = membership_proof(commits.as_slice(), i);
        let d = SealedDisclosure { index: i, label: fields[i].label, salt: salts[i], sealed_value, membership };
        disclosures.push(d);
        k = k + 1;
    }

    Ok(Envelope {
        domain: DOMAIN_ENVELOPE,
        root,
        field_count: fields.len(),
        recipient_id,
        nullifier,
        disclosures,
    })
}

/// The value a disclosure unmasks to under seal key `sk`.
pub open spec fn unmasked(d: SealedDisclosure, sk: u32) -> u32 {
    d.sealed_value ^ keystream(sk, d.salt, d.index)
}

/// The unmasked value re-commits to the disclosure's leaf.
pub open spec fn commitment_checks(d: SealedDisclosure, sk: u32) -> bool {
    hash_spec(seq![unmasked(d, sk), d.salt, d.label]) == d.membership.leaf
}

/// The disclosure's path leads from its leaf to the envelope root.
pub open spec fn membership_checks(d: SealedDisclosure, root: u32) -> bool {
    walk(d.membership.leaf, d.membership.siblings@) == d.membership.root && d.membership.root == root
}

/// The first failing disclosure's message, scanning from the front.
pub open spec fn first_disclosure_error(ds: Seq<SealedDisclosure>, root: u32, sk: u32) -> Option<Seq<char>>
    decreases ds.len(),
{
    if ds.len() == 0 {
        None
    } else if !commitment_checks(ds[0], sk) {
        Some("disclosure "@ + decimal(ds[0].index as nat) + " failed commitment check (wrong recipient key or tampered field)"@)
    } else if !membership_checks(ds[0], root) {
        Some("disclosure "@ + decimal(ds[0].index as nat) + " membership does not reproduce the root"@)
    } else {
        first_disclosure_error(ds.drop_first(), root, sk)
    }
}

/// Why `open_envelope` refuses, if it does.
pub open spec fn open_error(env: Envelope, my_recipient_id: u32, my_recipient_key: u32) -> Option<Seq<char>> {
    if env.domain != DOMAIN_ENVELOPE {
        Some("wrong domain"@)
    } else if env.recipient_id != my_recipient_id {
        Some("envelope not addressed to this recipient (wrong scope)"@)
    } else {
        first_disclosure_error(env.disclosures@, env.root, seal_key(my_recipient_key, my_recipient_id))
    }
}

/// Open an envelope as its recipient: every disclosure is unmasked, re-bound to
/// its commitment and checked against the root; the `(index, label, value)`
/// triples come back in disclosure order.
pub fn open_envelope(env: &Envelope, my_recipient_id: u32, my_recipient_key: u32) -> (r: Result<Vec<(usize, u32, u32)>, String>)
    ensures
        r is Err <==> open_error(*env, my_recipient_id, my_recipient_key) is Some,
        r matches Err(e) ==> e@ == open_error(*env, my_recipient_id, my_recipient_key)->0,
        r matches Ok(out) ==> {
            &&& out@.len() == env.disclosures@.len()
            &&& forall|k: int| 0 <= k < out@.len() ==> #[trigger] out@[k] == (
                env.disclosures@[k].index,
                env.disclosures@[k].label,
                unmasked(env.disclosures@[k], seal_key(my_recipient_key, my_recipient_id)),
            )
        },
        r matches Ok(out) ==> {
            &&& env.domain == DOMAIN_ENVELOPE
            &&& env.recipient_id == my_recipient_id
            &&& forall|k: int| 0 <= k < env.disclosures@.len() ==> {
                let d = #[trigger] env.disclosures@[k];
                &&& walk(d.membership.leaf, d.membership.siblings@) == env.root
                &&& hash_spec(seq![out@[k].2, d.salt, d.label]) == d.membership.leaf
            }
        },
{
    proof {
        lemma_opened_disclosures_are_committed_under_root(
            env.disclosures@, env.root, seal_key(my_recipient_key, my_recipient_id));
    }
    if env.domain != DOMAIN_ENVELOPE {
        return Err(String::from_str("wrong domain"));
    }
    if env.recipient_id != my_recipient_id {
        return Err(String::from_str("envelope not addressed to this recipient (wrong scope)"));
    }
    let p = poseidon2_16();
    let sk = hash3(&p, my_recipient_key, my_recipient_id, DOMAIN_ENVELOPE);
    let ghost ds = env.disclosures@;
    let mut out: Vec<(usize, u32, u32)> = Vec::new();
    let mut k: usize = 0;
    assert(ds.skip(0) =~= ds);
    while k < env.disclosures.len()
        invariant
            ds == env.disclosures@,
            env.domain == DOMAIN_ENVELOPE,
            env.recipient_id == my_recipient_id,
            sk == seal_key(my_recipient_key, my_recipient_id),
            k <= ds.len(),
            first_disclosure_error(ds, env.root, sk) == first_disclosure_error(ds.skip(k as int), env.root, sk),
            out@.len() == k,
            forall|m: int| 0 <= m < k ==> #[trigger] out@[m] == (ds[m].index, ds[m].label, unmasked(ds[m], sk)),
        decreases ds.len() - k,
    {
        let d = &env.disclosures[k];
        assert(ds.skip(k as int)[0] == ds[k as int]);
        assert(ds.skip(k as int).drop_first() =~= ds.skip(k + 1));
        let ks = mask(&p, sk, d.salt, d.index);
        let value = d.sealed_value ^ ks;
        let recomputed = hash3(&p, value, d.salt, d.label);
        if recomputed != d.membership.leaf {
            let mut e = with_number("disclosure ", d.index as u64);
            e.append(" failed commitment check (wrong recipient key or tampered field)");
            assert(!commitment_checks(ds[k as int], sk));
            assert(first_disclosure_error(ds.skip(k as int), env.root, sk) == Some(e@));
            return Err(e);
        }
        if !verify_membership(&d.membership) || d.membership.root != env.root {
            let mut e = with_number("disclosure ", d.index as u64);
            e.append(" membership does not reproduce the root");
            return Err(e);
        }
        out.push((d.index, d.label, value));
        k = k + 1;
    }
    assert(ds.skip(k as int) =~= Seq::<SealedDisclosure>::empty());
    Ok(out)
}

/// Every disclosure that passes the opening checks is committed under the
/// root: its unmasked value, salt and label hash to its leaf, and walking its
/// path from that leaf with Poseidon2 compression reaches the root.
pub proof fn lemma_opened_disclosures_are_committed_under_root(ds: Seq<SealedDisclosure>, root: u32, sk: u32)
    ensures
        first_disclosure_error(ds, root, sk) is None ==> forall|k: int| 0 <= k < ds.len() ==> {
            let d = #[trigger] ds[k];
            &&& walk(d.membership.leaf, d.membership.siblings@) == root
            &&& hash_spec(seq![unmasked(d, sk), d.salt, d.label]) == d.membership.leaf
        },
    decreases ds.len(),
{
    if ds.len() > 0 && first_disclosure_error(ds, root, sk) is None {
        lemma_opened_disclosures_are_committed_under_root(ds.drop_first(), root, sk);
        assert forall|k: int| 0 <= k < ds.len() implies {
            let d = #[trigger] ds[k];
            &&& walk(d.membership.leaf, d.membership.siblings@) == root
            &&& hash_spec(seq![unmasked(d, sk), d.salt, d.label]) == d.membership.leaf
        } by {
            if k > 0 {
                assert(ds[k] == ds.drop_first()[k - 1]);
            }
        }
    }
}

/// Scope check: the envelope is bound to `expected_recipient_id`.
pub fn verify_scope(env: &Envelope, expected_recipient_id: u32) -> (r: Result<(), String>)
    ensures
        r is Ok <==> env.recipient_id == expected_recipient_id,
        r matches Err(e) ==> e@ == "wrong scope: envelope bound to a different recipient"@,
{
    if env.recipient_id != expected_recipient_id {
        return Err(String::from_str("wrong scope: envelope bound to a different recipient"));
    }
    Ok(())
}

/// One-time nullifier acceptance: the first presentation of a nullifier is
/// accepted and recorded; any later one is a replay.
pub fn accept_nullifier(seen: &mut HashSet<u32>, env: &Envelope) -> (r: Result<(), String>)
    ensures
        final(seen)@ == old(seen)@.insert(env.nullifier),
        r is Ok <==> !old(seen)@.contains(env.nullifier),
        r matches Err(e) ==> e@ == "nullifier already used (replay rejected)"@,
{
    broadcast use vstd::std_specs::hash::group_hash_axioms;
    if !seen.insert(env.nullifier) {
        return Err(String::from_str("nullifier already used (replay rejected)"));
    }
    Ok(())
}

proof fn lemma_sealed_disclosures_open(
    ds: Seq<SealedDisclosure>,
    fields: Seq<EnvelopeField>,
    salts: Seq<u32>,
    sk: u32,
    disclose: Seq<usize>,
)
    requires
        fields.len() == salts.len(),
        ds.len() == disclose.len(),
        forall|k: int| 0 <= k < disclose.len() ==> disclose[k] < fields.len(),
        forall|k: int| 0 <= k < disclose.len() ==> fields[disclose[k] as int].value < FIELD_MAX,
        forall|k: int| 0 <= k < ds.len() ==> sealed_as(#[trigger] ds[k], fields, salts, sk, disclose[k]),
    ensures
        first_disclosure_error(ds, fold_root(field_commits(fields, salts)), sk) is None,
        forall|k: int| 0 <= k < ds.len() ==> unmasked(#[trigger] ds[k], sk) == fields[disclose[k] as int].value,
    decreases ds.len(),
{
    let commits = field_commits(fields, salts);
    assert forall|k: int| 0 <= k < ds.len() implies unmasked(#[trigger] ds[k], sk) == fields[disclose[k] as int].value by {
        assert(sealed_as(ds[k], fields, salts, sk, disclose[k]));
        let v = fields[disclose[k] as int].value;
        let m = keystream(sk, salts[disclose[k] as int], disclose[k]);
        assert((v ^ m) ^ m == v) by (bit_vector);
    }
    if ds.len() > 0 {
        let d = ds[0];
        let i = disclose[0];
        assert(sealed_as(d, fields, salts, sk, i));
        assert(unmasked(d, sk) == fields[i as int].value);
        assert(seq![unmasked(d, sk), d.salt, d.label] =~= seq![fields[i as int].value, salts[i as int], fields[i as int].label]);
        lemma_membership_reproduces_root(commits, i as int);
        assert forall|k: int| 0 <= k < ds.drop_first().len() implies sealed_as(#[trigger] ds.drop_first()[k], fields, salts, sk, disclose.drop_first()[k]) by {
            assert(ds.drop_first()[k] == ds[k + 1]);
        }
        lemma_sealed_disclosures_open(ds.drop_first(), fields, salts, sk, disclose.drop_first());
    }
}

/// Envelope round trip: an envelope sealed to `recipient_id` / `recipient_key`
/// opens for that recipient, yielding exactly the disclosed `(index, label, value)`
/// triples in disclosure order.
pub proof fn lemma_sealed_envelope_opens(
    env: Envelope,
    secret: u32,
    fields: Seq<EnvelopeField>,
    salts: Seq<u32>,
    recipient_id: u32,
    recipient_key: u32,
    disclose: Seq<usize>,
)
    requires
        seal_error(fields, salts, disclose) is None,
        env.domain == DOMAIN_ENVELOPE,
        env.root == fold_root(field_commits(fields, salts)),
        env.recipient_id == recipient_id,
        env.disclosures@.len() == disclose.len(),
        forall|k: int| 0 <= k < disclose.len() ==> sealed_as(
            #[trigger] env.disclosures@[k], fields, salts, seal_key(recipient_key, recipient_id), disclose[k]),
    ensures
        open_error(env, recipient_id, recipient_key) is None,
        forall|k: int| 0 <= k < disclose.len() ==> (
            #[trigger] env.disclosures@[k].index,
            env.disclosures@[k].label,
            unmasked(env.disclosures@[k], seal_key(recipient_key, recipient_id)),
        ) == (disclose[k], fields[disclose[k] as int].label, fields[disclose[k] as int].value),
{
    let sk = seal_key(recipient_key, recipient_id);
    assert(fields.len() != 0);
    assert(fields.len() == salts.len());
    assert(forall|i: int| 0 <= i < fields.len() ==> fields[i].value < FIELD_MAX);
    assert(forall|k: int| 0 <= k < disclose.len() ==> disclose[k] < fields.len());
    lemma_sealed_disclosures_open(env.disclosures@, fields, salts, sk, disclose);
}

} // verus!
