//! PACKAGE tier: one epoch root over member leaves, with the reveal gated by
//! authority re-derived from live reputation and stake, `min(R, 100 * isqrt(S))`.
use vstd::prelude::*;
use crate::aggregate::{aggregate_root, fold_root};
use crate::text::{decimal, decimal_string, with_number};

verus! {

/// Domain tag of the package tier ("PKG1").
pub const DOMAIN_PACKAGE: u32 = 0x504b_4731;

/// Authority scale: `A = min(R, AUTHORITY_BETA * isqrt(S_usd))`.
pub const AUTHORITY_BETA: u64 = 100;

/// Kind of a package member (audit only; does not affect the root).
#[derive(Debug, Clone, Copy, PartialEq, Eq, Structural)]
pub enum MemberKind {
    Envelope,
    Letter,
}

/// A member of a package: the public leaf of one envelope or letter.
#[derive(Debug, Clone, Copy, PartialEq, Eq, Structural)]
pub struct PackageMember {
    pub leaf: u32,
    pub kind: MemberKind,
}

/// The public package: one epoch root over N member leaves.
#[derive(Debug, Clone, Copy, PartialEq, Eq, Structural)]
pub struct Package {
    pub domain: u32,
    pub epoch: u64,
    pub epoch_root: u32,
    pub member_count: usize,
}

/// The leaves of the members, in order.
pub open spec fn member_leaves(members: Seq<PackageMember>) -> Seq<u32> {
    Seq::new(members.len(), |i: int| members[i].leaf)
}

/// The epoch root over the member leaves.
pub fn package_epoch_root(members: &[PackageMember]) -> (root: u32)
    ensures
        root == fold_root(member_leaves(members@)),
{
    let mut leaves: Vec<u32> = Vec::new();
    let mut i: usize = 0;
    while i < members.len()
        invariant
            i <= members@.len(),
            leaves@ == member_leaves(members@).take(i as int),
        decreases members@.len() - i,
    {
        leaves.push(members[i].leaf);
        assert(leaves@ =~= member_leaves(members@).take(i + 1));
        i = i + 1;
    }
    assert(leaves@ =~= member_leaves(members@));
    aggregate_root(leaves.as_slice())
}

/// Assemble the package of an epoch; a package needs at least one member.
pub fn assemble_package(epoch: u64, members: &[PackageMember]) -> (r: Result<Package, String>)
    ensures
        r is Ok <==> members@.len() > 0,
        r matches Ok(pkg) ==> pkg == (Package {
            domain: DOMAIN_PACKAGE,
            epoch,
            epoch_root: fold_root(member_leaves(members@)),
            member_count: members@.len() as usize,
        }),
        r matches Err(e) ==> e@ == "package needs at least one member"@,
{
    if members.len() == 0 {
        return Err(String::from_str("package needs at least one member"));
    }
    Ok(Package {
        domain: DOMAIN_PACKAGE,
        epoch,
        epoch_root: package_epoch_root(members),
        member_count: members.len(),
    })
}

/// Live reputation and stake of a requester, read at request time. Each
/// implementation may say, through the two spec functions, which answers it
/// gives for a requester; one that does not allows any answer. Code generic
/// over the source never sees those definitions, only that each answer
/// satisfies them.
pub trait StakeSource {
    /// `r` is an answer this source may give for the repid of `requester_id`.
    closed spec fn repid_answer(&self, requester_id: Seq<char>, r: Option<u64>) -> bool {
        true
    }

    /// `s` is an answer this source may give for the stake of `requester_id`.
    closed spec fn stake_answer(&self, requester_id: Seq<char>, s: Option<u64>) -> bool {
        true
    }

    /// Current earned RepID of the requester, if any.
    fn current_repid(&self, requester_id: &str) -> (r: Option<u64>)
        ensures
            self.repid_answer(requester_id@, r),
    ;

    /// Current backing stake in whole USD of the requester, if any.
    fn current_stake_usd(&self, requester_id: &str) -> (s: Option<u64>)
        ensures
            self.stake_answer(requester_id@, s),
    ;
}

/// Integer square root: `r * r <= s < (r + 1) * (r + 1)`.
pub open spec fn is_isqrt(s: u64, r: u64) -> bool {
    r * r <= s && s < (r + 1) * (r + 1)
}

/// Integer square root of `s`.
pub fn isqrt(s: u64) -> (r: u64)
    ensures
        is_isqrt(s, r),
        r < 0x1_0000_0000,
{
    let mut lo: u64 = 0;
    let mut hi: u64 = 0x1_0000_0000;
    assert(s < hi * hi) by (nonlinear_arith)
        requires s <= u64::MAX, hi == 0x1_0000_0000u64;
    while hi - lo > 1
        invariant
            lo < hi <= 0x1_0000_0000,
            lo * lo <= s,
            s < hi * hi,
        decreases hi - lo,
    {
        let mid = lo + (hi - lo) / 2;
        assert(mid * mid <= u64::MAX) by (nonlinear_arith)
            requires mid < 0x1_0000_0000u64;
        if mid * mid <= s {
            lo = mid;
        } else {
            hi = mid;
        }
    }
    assert(hi == lo + 1);
    lo
}

/// The authority of repid `r` backed by stake `s`: `min(r, 100 * isqrt(s))`.
pub open spec fn authority(r: u64, s: u64, sqrt_s: u64) -> u64 {
    if r <= AUTHORITY_BETA * sqrt_s { r } else { (AUTHORITY_BETA * sqrt_s) as u64 }
}

/// Authority from live values: none without both a repid and a stake;
/// otherwise `min(repid, 100 * isqrt(stake))`.
pub open spec fn authority_of(repid: Option<u64>, stake_usd: Option<u64>, a: Option<u64>) -> bool {
    match (repid, stake_usd) {
        (Some(r), Some(s)) => exists|q: u64| is_isqrt(s, q) && a == Some(authority(r, s, q)),
        _ => a is None,
    }
}

/// Re-derive the authority from the live values a source returned.
pub fn authority_from(repid: Option<u64>, stake_usd: Option<u64>) -> (a: Option<u64>)
    ensures
        authority_of(repid, stake_usd, a),
{
    match (repid, stake_usd) {
        (Some(r), Some(s)) => {
            let q = isqrt(s);
            let bound: u64 = AUTHORITY_BETA * q;
            let a = if r <= bound { r } else { bound };
            assert(is_isqrt(s, q) && Some(a) == Some(authority(r, s, q)));
            Some(a)
        },
        _ => None,
    }
}

/// `a` is the authority re-derived from the source's answers for
/// `requester_id`: its repid answer `r`, and, only when `r` is some repid, its
/// stake answer `s`; the authority is `min(r, 100 * isqrt(s))`, or none
/// without both.
pub open spec fn reveal_outcome<S: StakeSource>(src: &S, requester_id: Seq<char>, a: Option<u64>) -> bool {
    exists|r: Option<u64>, s: Option<u64>| {
        &&& src.repid_answer(requester_id, r)
        &&& (r is Some ==> src.stake_answer(requester_id, s))
        &&& (r is None ==> s is None)
        &&& authority_of(r, s, a)
    }
}

/// Re-derive the reveal authority of `requester_id` from the source's live
/// repid and stake (never from a stored authority): the repid is asked first,
/// the stake only when there is a repid.
pub fn reveal_authority<S: StakeSource>(src: &S, requester_id: &str) -> (a: Option<u64>)
    ensures
        reveal_outcome(src, requester_id@, a),
{
    let r = match src.current_repid(requester_id) {
        Some(r) => r,
        None => {
            assert(src.repid_answer(requester_id@, None) && authority_of(None, None, None));
            return None;
        },
    };
    let s = match src.current_stake_usd(requester_id) {
        Some(s) => s,
        None => {
            assert(src.repid_answer(requester_id@, Some(r)) && src.stake_answer(requester_id@, None)
                && authority_of(Some(r), None, None));
            return None;
        },
    };
    let a = authority_from(Some(r), Some(s));
    assert(src.repid_answer(requester_id@, Some(r)) && src.stake_answer(requester_id@, Some(s))
        && authority_of(Some(r), Some(s), a));
    a
}

/// The decision of the reveal gate for a re-derived authority.
pub open spec fn gate_outcome(a: Option<u64>, required_authority: u64) -> Result<u64, Seq<char>> {
    match a {
        None => Err("requester has no live repid/stake — reveal denied"@),
        Some(a) => if a < required_authority {
            Err("reveal denied: re-derived authority "@ + decimal(a as nat) + " < required "@
                + decimal(required_authority as nat) + " (earn RepID or add stake)"@)
        } else {
            Ok(a)
        },
    }
}

/// Gate a reveal on an already re-derived authority.
pub fn gate_decision(a: Option<u64>, required_authority: u64) -> (r: Result<u64, String>)
    ensures
        r is Ok <==> gate_outcome(a, required_authority) is Ok,
        r matches Ok(v) ==> gate_outcome(a, required_authority) == Ok::<u64, Seq<char>>(v),
        r matches Err(e) ==> gate_outcome(a, required_authority) == Err::<u64, Seq<char>>(e@),
{
    match a {
        None => Err(String::from_str("requester has no live repid/stake — reveal denied")),
        Some(a) => {
            if a < required_authority {
                let mut e = with_number("reveal denied: re-derived authority ", a);
                e.append(" < required ");
                let t = decimal_string(required_authority);
                e.append(t.as_str());
                e.append(" (earn RepID or add stake)");
                Err(e)
            } else {
                Ok(a)
            }
        },
    }
}

/// Gate a package reveal: allowed only if the requester's re-derived authority
/// meets `required_authority`.
pub fn gate_reveal<S: StakeSource>(src: &S, requester_id: &str, required_authority: u64) -> (r: Result<u64, String>)
    ensures
        exists|a: Option<u64>| {
            &&& reveal_outcome(src, requester_id@, a)
            &&& (r is Ok <==> gate_outcome(a, required_authority) is Ok)
            &&& (r matches Ok(v) ==> gate_outcome(a, required_authority) == Ok::<u64, Seq<char>>(v))
            &&& (r matches Err(e) ==> gate_outcome(a, required_authority) == Err::<u64, Seq<char>>(e@))
        },
{
    let a = reveal_authority(src, requester_id);
    gate_decision(a, required_authority)
}

} // verus!
