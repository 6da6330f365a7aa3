use zkp_postcard::aggregate::aggregate_root;
use zkp_postcard::package::{
    assemble_package, authority_from, gate_decision, gate_reveal, isqrt, package_epoch_root, reveal_authority,
    MemberKind, PackageMember, StakeSource, DOMAIN_PACKAGE,
};

fn members() -> Vec<PackageMember> {
    vec![
        PackageMember { leaf: 0x1111_1111, kind: MemberKind::Envelope },
        PackageMember { leaf: 0x2222_2222, kind: MemberKind::Letter },
        PackageMember { leaf: 0x3333_3333, kind: MemberKind::Envelope },
    ]
}

#[test]
fn epoch_root_is_deterministic_and_order_sensitive() {
    let m = members();
    let r1 = package_epoch_root(&m);
    let r2 = package_epoch_root(&m);
    assert_eq!(r1, r2, "same members → same epoch root (deterministic)");
    let mut swapped = m.clone();
    swapped.swap(0, 2);
    assert_ne!(package_epoch_root(&swapped), r1, "member order changes the root (binding)");
}

#[test]
fn assemble_rejects_empty_and_stamps_domain() {
    assert!(assemble_package(7, &[]).is_err());
    let pkg = assemble_package(7, &members()).unwrap();
    assert_eq!(pkg.domain, DOMAIN_PACKAGE);
    assert_eq!(pkg.epoch, 7);
    assert_eq!(pkg.member_count, 3);
}

struct FakeStake {
    repid: Option<u64>,
    stake_usd: Option<u64>,
}

impl StakeSource for FakeStake {
    fn current_repid(&self, _r: &str) -> Option<u64> {
        self.repid
    }
    fn current_stake_usd(&self, _r: &str) -> Option<u64> {
        self.stake_usd
    }
}

#[test]
fn authority_is_min_repid_and_100_sqrt_stake() {
    let s = FakeStake { repid: Some(9000), stake_usd: Some(100) };
    assert_eq!(reveal_authority(&s, "x"), Some(1000), "capital-bound: min(9000, 1000)");
    let s2 = FakeStake { repid: Some(500), stake_usd: Some(1_000_000) };
    assert_eq!(reveal_authority(&s2, "x"), Some(500), "repid-bound: min(500, 100000)");
    let s3 = FakeStake { repid: None, stake_usd: Some(100) };
    assert_eq!(reveal_authority(&s3, "x"), None);
}

#[test]
fn gate_allows_sufficient_and_denies_insufficient() {
    let s = FakeStake { repid: Some(2280), stake_usd: Some(2500) };
    assert_eq!(gate_reveal(&s, "x", 1000).unwrap(), 2280, "sufficient authority reveals");
    assert!(gate_reveal(&s, "x", 3000).is_err(), "insufficient authority denied");
    let broke = FakeStake { repid: None, stake_usd: None };
    assert!(gate_reveal(&broke, "x", 1).is_err(), "no live repid/stake → denied");
}

#[test]
fn package_root_is_the_fold_of_member_leaves() {
    let m = members();
    assert_eq!(package_epoch_root(&m), aggregate_root(&[0x1111_1111, 0x2222_2222, 0x3333_3333]));
    let pkg = assemble_package(9, &m).unwrap();
    assert_eq!(pkg.epoch_root, package_epoch_root(&m));
    assert_eq!(assemble_package(7, &[]).unwrap_err(), "package needs at least one member");
}

#[test]
fn isqrt_is_the_floor_square_root() {
    assert_eq!(isqrt(0), 0);
    assert_eq!(isqrt(1), 1);
    assert_eq!(isqrt(99), 9);
    assert_eq!(isqrt(100), 10);
    assert_eq!(isqrt(2500), 50);
    assert_eq!(isqrt(u64::MAX), 0xFFFF_FFFF);
    assert_eq!(isqrt((1u64 << 32) * (1u64 << 30)), 1u64 << 31);
}

#[test]
fn authority_needs_both_live_values() {
    assert_eq!(authority_from(Some(9000), Some(100)), Some(1000));
    assert_eq!(authority_from(Some(500), Some(1_000_000)), Some(500));
    assert_eq!(authority_from(Some(500), Some(0)), Some(0));
    assert_eq!(authority_from(Some(500), None), None);
    assert_eq!(authority_from(None, Some(100)), None);
    let only_repid = FakeStake { repid: Some(9000), stake_usd: None };
    assert_eq!(reveal_authority(&only_repid, "x"), None);
}

#[test]
fn gate_messages() {
    assert_eq!(gate_decision(Some(2280), 2280).unwrap(), 2280);
    assert_eq!(
        gate_decision(Some(2280), 3000).unwrap_err(),
        "reveal denied: re-derived authority 2280 < required 3000 (earn RepID or add stake)"
    );
    assert_eq!(gate_decision(None, 0).unwrap_err(), "requester has no live repid/stake — reveal denied");
}
