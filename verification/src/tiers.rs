//! RepID tiers: the tier of a score and the proof threshold of a tier.
use vstd::prelude::*;
use vstd::string::StringSliceAdditionalSpecFns;
use vstd::utf8::{decode_utf8, encode_utf8, encode_utf8_decode_utf8};

verus! {

/// The tier name of a score.
pub open spec fn tier_of(score: u64) -> Seq<char> {
    if score <= 499 {
        "PROBATIONARY"@
    } else if score <= 999 {
        "EARNING"@
    } else if score <= 4999 {
        "ESTABLISHED"@
    } else if score <= 7999 {
        "AUTONOMOUS"@
    } else if score <= 10000 {
        "VETERAN"@
    } else {
        "PROBATIONARY"@
    }
}

/// Tier of a RepID score; scores above 10000 fall back to PROBATIONARY.
pub fn score_to_tier(score: u64) -> (t: &'static str)
    ensures
        t@ == tier_of(score),
{
    if score <= 499 {
        "PROBATIONARY"
    } else if score <= 999 {
        "EARNING"
    } else if score <= 4999 {
        "ESTABLISHED"
    } else if score <= 7999 {
        "AUTONOMOUS"
    } else if score <= 10000 {
        "VETERAN"
    } else {
        "PROBATIONARY"
    }
}

/// `a` and `b` hold the same characters.
fn same_text(a: &str, b: &str) -> (eq: bool)
    ensures
        eq == (a@ == b@),
{
    let x = a.as_bytes();
    let y = b.as_bytes();
    proof {
        encode_utf8_decode_utf8(a@);
        encode_utf8_decode_utf8(b@);
    }
    if x.len() != y.len() {
        assert(a@ != b@) by {
            if a@ == b@ {
                assert(x@ == y@);
            }
        }
        return false;
    }
    let mut i: usize = 0;
    while i < x.len()
        invariant
            x@ == encode_utf8(a@),
            y@ == encode_utf8(b@),
            x@.len() == y@.len(),
            i <= x@.len(),
            forall|k: int| 0 <= k < i ==> x@[k] == y@[k],
        decreases x@.len() - i,
    {
        if x[i] != y[i] {
            assert(a@ != b@) by {
                if a@ == b@ {
                    assert(x@ == y@);
                }
            }
            return false;
        }
        i = i + 1;
    }
    assert(x@ =~= y@);
    true
}

/// The proof threshold of a tier name, or why there is none.
pub open spec fn threshold_of(tier: Seq<char>) -> Result<u64, Seq<char>> {
    if tier == "PROBATIONARY"@ {
        Ok(0)
    } else if tier == "EARNING"@ {
        Ok(499)
    } else if tier == "ESTABLISHED"@ {
        Ok(999)
    } else if tier == "AUTONOMOUS"@ {
        Ok(4999)
    } else if tier == "VETERAN"@ {
        Ok(7999)
    } else if tier == "CUSTODIED_DBT"@ || tier == "EARNING_AUTONOMY"@ {
        Err("Obsolete tier nomenclature"@)
    } else {
        Err("Unknown tier"@)
    }
}

/// Proof threshold of a tier: the score a holder of that tier must exceed.
pub fn tier_to_threshold(tier: &str) -> (r: Result<u64, &'static str>)
    ensures
        match r {
            Ok(t) => threshold_of(tier@) == Ok::<u64, Seq<char>>(t),
            Err(e) => threshold_of(tier@) == Err::<u64, Seq<char>>(e@),
        },
{
    if same_text(tier, "PROBATIONARY") {
        Ok(0)
    } else if same_text(tier, "EARNING") {
        Ok(499)
    } else if same_text(tier, "ESTABLISHED") {
        Ok(999)
    } else if same_text(tier, "AUTONOMOUS") {
        Ok(4999)
    } else if same_text(tier, "VETERAN") {
        Ok(7999)
    } else if same_text(tier, "CUSTODIED_DBT") || same_text(tier, "EARNING_AUTONOMY") {
        Err("Obsolete tier nomenclature")
    } else {
        Err("Unknown tier")
    }
}

/// A score's own tier never demands more than the score: for every score in
/// the RepID range 1..=10000, the threshold of its tier is strictly below it.
pub proof fn lemma_tier_threshold_below_score(score: u64)
    requires
        1 <= score <= 10000,
    ensures
        threshold_of(tier_of(score)) is Ok,
        threshold_of(tier_of(score))->Ok_0 < score,
{
    reveal_strlit("PROBATIONARY");
    reveal_strlit("EARNING");
    reveal_strlit("ESTABLISHED");
    reveal_strlit("AUTONOMOUS");
    reveal_strlit("VETERAN");
}

} // verus!
