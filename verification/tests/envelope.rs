use std::collections::HashSet;
use zkp_postcard::aggregate::{aggregate_root, verify_membership};
use zkp_postcard::envelope::{
    accept_nullifier, open_envelope, seal_envelope, verify_scope, EnvelopeField, DOMAIN_ENVELOPE, FIELD_MAX,
};
use zkp_postcard::leaf::{hash, poseidon2_16};

const SECRET: u32 = 0x0BAD_C0DE & (FIELD_MAX - 1);
const RECIPIENT_ID: u32 = 7_777;
const RECIPIENT_KEY: u32 = 0x5EA1_5EA1 & (FIELD_MAX - 1);

fn sample() -> (Vec<EnvelopeField>, Vec<u32>) {
    let fields = vec![
        EnvelopeField { label: 100, value: 3 },
        EnvelopeField { label: 200, value: 42 },
        EnvelopeField { label: 300, value: 2280 },
        EnvelopeField { label: 400, value: 1 },
    ];
    let salts = vec![0x1111_1111, 0x2222_2222, 0x3333_3333, 0x4444_4444];
    (fields, salts)
}

#[test]
fn envelope_recipient_opens_selected_fields_and_verifies() {
    let (fields, salts) = sample();
    let env = seal_envelope(SECRET, &fields, &salts, RECIPIENT_ID, RECIPIENT_KEY, &[0, 2]).unwrap();
    assert_eq!(env.domain, DOMAIN_ENVELOPE);
    assert_eq!(env.field_count, 4);
    assert_eq!(env.disclosures.len(), 2);

    let opened = open_envelope(&env, RECIPIENT_ID, RECIPIENT_KEY).unwrap();
    assert_eq!(opened, vec![(0, 100, 3), (2, 300, 2280)]);
    for d in &env.disclosures {
        assert!(verify_membership(&d.membership) && d.membership.root == env.root);
    }
    let mut seen = HashSet::new();
    assert!(accept_nullifier(&mut seen, &env).is_ok());
}

#[test]
fn neg1_non_recipient_cannot_open() {
    let (fields, salts) = sample();
    let env = seal_envelope(SECRET, &fields, &salts, RECIPIENT_ID, RECIPIENT_KEY, &[0, 2]).unwrap();
    let wrong_key = RECIPIENT_KEY ^ 0x55;
    assert!(
        open_envelope(&env, RECIPIENT_ID, wrong_key).is_err(),
        "a party without the recipient_key must not open the disclosed fields"
    );
}

#[test]
fn neg2_tampered_disclosure_rejected() {
    let (fields, salts) = sample();
    let mut env = seal_envelope(SECRET, &fields, &salts, RECIPIENT_ID, RECIPIENT_KEY, &[0, 2]).unwrap();
    env.disclosures[0].sealed_value ^= 1;
    assert!(
        open_envelope(&env, RECIPIENT_ID, RECIPIENT_KEY).is_err(),
        "a tampered sealed field must fail its commitment check"
    );
    let mut env2 = seal_envelope(SECRET, &fields, &salts, RECIPIENT_ID, RECIPIENT_KEY, &[0, 2]).unwrap();
    env2.disclosures[1].salt ^= 0xFF;
    assert!(open_envelope(&env2, RECIPIENT_ID, RECIPIENT_KEY).is_err(), "tampered salt rejected");
}

#[test]
fn neg3_undisclosed_field_stays_hidden() {
    let (fields, salts) = sample();
    let env = seal_envelope(SECRET, &fields, &salts, RECIPIENT_ID, RECIPIENT_KEY, &[0, 2]).unwrap();
    let disclosed: Vec<usize> = env.disclosures.iter().map(|d| d.index).collect();
    assert_eq!(disclosed, vec![0, 2]);
    assert!(!disclosed.contains(&1) && !disclosed.contains(&3));
    let opened = open_envelope(&env, RECIPIENT_ID, RECIPIENT_KEY).unwrap();
    assert!(opened.iter().all(|(i, _, _)| *i == 0 || *i == 2));
    let p = poseidon2_16();
    let target_leaf = hash(&p, &[fields[1].value, salts[1], fields[1].label]);
    let mut leaked = false;
    for guess in 0..=10_000u32 {
        if hash(&p, &[guess, 0, fields[1].label]) == target_leaf {
            leaked = true;
            break;
        }
    }
    assert!(!leaked, "undisclosed value must not be brute-forceable without the salt");
}

#[test]
fn neg4_replay_rejected() {
    let (fields, salts) = sample();
    let env = seal_envelope(SECRET, &fields, &salts, RECIPIENT_ID, RECIPIENT_KEY, &[0, 2]).unwrap();
    let mut seen = HashSet::new();
    assert!(accept_nullifier(&mut seen, &env).is_ok(), "first use accepted");
    assert!(accept_nullifier(&mut seen, &env).is_err(), "second use (replay) rejected");
}

#[test]
fn neg5_wrong_scope_rejected() {
    let (fields, salts) = sample();
    let env = seal_envelope(SECRET, &fields, &salts, RECIPIENT_ID, RECIPIENT_KEY, &[0, 2]).unwrap();
    let other_id = RECIPIENT_ID + 1;
    assert!(verify_scope(&env, other_id).is_err(), "scope mismatch rejected");
    assert!(open_envelope(&env, other_id, RECIPIENT_KEY).is_err(), "open under wrong scope rejected");
    let env_b = seal_envelope(SECRET, &fields, &salts, other_id, RECIPIENT_KEY, &[0, 2]).unwrap();
    assert_ne!(env.nullifier, env_b.nullifier, "different recipient scope ⇒ different nullifier");
}

#[test]
fn envelope_root_and_nullifier_are_the_published_hashes() {
    let (fields, salts) = sample();
    let env = seal_envelope(SECRET, &fields, &salts, RECIPIENT_ID, RECIPIENT_KEY, &[2, 0]).unwrap();
    let p = poseidon2_16();
    let commits: Vec<u32> = fields.iter().zip(salts.iter()).map(|(f, s)| hash(&p, &[f.value, *s, f.label])).collect();
    assert_eq!(env.root, aggregate_root(&commits));
    assert_eq!(env.nullifier, hash(&p, &[SECRET, RECIPIENT_ID, DOMAIN_ENVELOPE]));
    assert_eq!(env.recipient_id, RECIPIENT_ID);
    assert_eq!(env.disclosures[0].index, 2);
    assert_eq!(env.disclosures[0].label, 300);
    assert_eq!(env.disclosures[0].salt, salts[2]);
    assert_eq!(env.disclosures[0].membership.leaf, commits[2]);
    assert_ne!(env.disclosures[0].sealed_value, 2280, "the disclosed value travels masked");
    assert_eq!(open_envelope(&env, RECIPIENT_ID, RECIPIENT_KEY).unwrap(), vec![(2, 300, 2280), (0, 100, 3)]);
    assert!(verify_scope(&env, RECIPIENT_ID).is_ok());
}

#[test]
fn seal_reports_each_refusal() {
    let (fields, salts) = sample();
    assert_eq!(
        seal_envelope(SECRET, &[], &[], RECIPIENT_ID, RECIPIENT_KEY, &[]).unwrap_err(),
        "envelope must have at least one field"
    );
    assert_eq!(
        seal_envelope(SECRET, &fields, &salts[..3], RECIPIENT_ID, RECIPIENT_KEY, &[0]).unwrap_err(),
        "fields/salts length mismatch"
    );
    assert_eq!(
        seal_envelope(SECRET, &fields, &salts, RECIPIENT_ID, RECIPIENT_KEY, &[1, 4, 9]).unwrap_err(),
        "disclose index 4 out of range"
    );
    let mut big = fields.clone();
    big[3].value = FIELD_MAX;
    assert_eq!(
        seal_envelope(SECRET, &big, &salts, RECIPIENT_ID, RECIPIENT_KEY, &[9]).unwrap_err(),
        "field 3 value out of range (>= 2^31)"
    );
    assert!(seal_envelope(SECRET, &fields, &salts, RECIPIENT_ID, RECIPIENT_KEY, &[]).is_ok());
}

#[test]
fn open_rejects_a_foreign_domain_and_a_moved_root() {
    let (fields, salts) = sample();
    let mut env = seal_envelope(SECRET, &fields, &salts, RECIPIENT_ID, RECIPIENT_KEY, &[0, 2]).unwrap();
    env.domain ^= 1;
    assert_eq!(open_envelope(&env, RECIPIENT_ID, RECIPIENT_KEY).unwrap_err(), "wrong domain");
    let mut env2 = seal_envelope(SECRET, &fields, &salts, RECIPIENT_ID, RECIPIENT_KEY, &[0, 2]).unwrap();
    env2.root ^= 1;
    assert_eq!(
        open_envelope(&env2, RECIPIENT_ID, RECIPIENT_KEY).unwrap_err(),
        "disclosure 0 membership does not reproduce the root"
    );
}
