use zkp_postcard::tiers::{score_to_tier, tier_to_threshold};

#[test]
fn scores_map_to_tiers_at_their_floors() {
    assert_eq!(score_to_tier(0), "PROBATIONARY");
    assert_eq!(score_to_tier(499), "PROBATIONARY");
    assert_eq!(score_to_tier(500), "EARNING");
    assert_eq!(score_to_tier(999), "EARNING");
    assert_eq!(score_to_tier(1000), "ESTABLISHED");
    assert_eq!(score_to_tier(4999), "ESTABLISHED");
    assert_eq!(score_to_tier(5000), "AUTONOMOUS");
    assert_eq!(score_to_tier(7999), "AUTONOMOUS");
    assert_eq!(score_to_tier(8000), "VETERAN");
    assert_eq!(score_to_tier(10000), "VETERAN");
    assert_eq!(score_to_tier(10001), "PROBATIONARY");
}

#[test]
fn tiers_map_to_thresholds() {
    assert_eq!(tier_to_threshold("PROBATIONARY"), Ok(0));
    assert_eq!(tier_to_threshold("EARNING"), Ok(499));
    assert_eq!(tier_to_threshold("ESTABLISHED"), Ok(999));
    assert_eq!(tier_to_threshold("AUTONOMOUS"), Ok(4999));
    assert_eq!(tier_to_threshold("VETERAN"), Ok(7999));
    assert_eq!(tier_to_threshold("CUSTODIED_DBT"), Err("Obsolete tier nomenclature"));
    assert_eq!(tier_to_threshold("EARNING_AUTONOMY"), Err("Obsolete tier nomenclature"));
    assert_eq!(tier_to_threshold("earning"), Err("Unknown tier"));
    assert_eq!(tier_to_threshold(""), Err("Unknown tier"));
}

#[test]
fn a_tier_threshold_is_just_below_its_floor() {
    for score in [0u64, 499, 500, 999, 1000, 4999, 5000, 7999, 8000, 10000] {
        let t = tier_to_threshold(score_to_tier(score)).unwrap();
        assert!(score > t || (score == 0 && t == 0));
    }
}

#[test]
fn tier_names_match_whole_strings_only() {
    assert_eq!(tier_to_threshold("VETERANS"), Err("Unknown tier"));
    assert_eq!(tier_to_threshold("VETERA"), Err("Unknown tier"));
    assert_eq!(tier_to_threshold("VETERAM"), Err("Unknown tier"));
    assert_eq!(tier_to_threshold("é"), Err("Unknown tier"));
}
