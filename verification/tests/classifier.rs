use rail::classifier::{
    broad_classify, confirm_mode, frequency_prior_candidates, hz_in, hz_near,
    pick_from_candidates, BwFamily, ClassificationResult, Mode, SidebandBalance,
};

fn names(modes: &[Mode]) -> Vec<&'static str> {
    modes.iter().map(|m| m.wire_name()).collect()
}

#[test]
fn hz_near_basic() {
    assert!(hz_near(98_000_000, 98_000_000, 1_000));
    assert!(hz_near(98_000_500, 98_000_000, 1_000));
    assert!(!hz_near(98_002_000, 98_000_000, 1_000));
}

#[test]
fn hz_in_basic() {
    assert!(hz_in(98_000_000, 87_500_000, 108_000_000));
    assert!(!hz_in(108_000_000, 87_500_000, 108_000_000));
}

#[test]
fn hz_near_is_symmetric_and_inclusive() {
    assert!(hz_near(97_999_000, 98_000_000, 1_000));
    assert!(hz_near(98_001_000, 98_000_000, 1_000));
    assert!(!hz_near(97_998_999, 98_000_000, 1_000));
    assert!(hz_near(0, 500, 1_000));
}

#[test]
fn hz_in_is_half_open() {
    assert!(hz_in(87_500_000, 87_500_000, 108_000_000));
    assert!(!hz_in(87_499_999, 87_500_000, 108_000_000));
}

#[test]
fn fm_broadcast_prior_is_fm() {
    assert_eq!(names(&frequency_prior_candidates(98_000_000)), vec!["FM"]);
}

#[test]
fn acars_129mhz_prior_is_am() {
    assert!(names(&frequency_prior_candidates(129_125_000)).contains(&"AM"));
}

#[test]
fn murs_151mhz_prior_is_nfm() {
    assert_eq!(names(&frequency_prior_candidates(152_000_000)), vec!["NFM"]);
}

#[test]
fn noaa_weather_radio_162mhz_prior_is_nfm() {
    assert_eq!(names(&frequency_prior_candidates(162_475_000)), vec!["NFM"]);
}

#[test]
fn dab3_200mhz_prior_is_empty() {
    assert!(frequency_prior_candidates(200_000_000).is_empty());
}

#[test]
fn frs_gmrs_462mhz_prior_is_nfm() {
    assert_eq!(names(&frequency_prior_candidates(462_562_500)), vec!["NFM"]);
}

#[test]
fn public_safety_uhf_460mhz_prior_is_nfm() {
    assert_eq!(names(&frequency_prior_candidates(460_000_000)), vec!["NFM"]);
}

#[test]
fn amateur_2m_prior_has_several_modes() {
    let c = names(&frequency_prior_candidates(145_000_000));
    assert!(c.contains(&"NFM"));
    assert!(c.contains(&"USB"));
    assert!(c.contains(&"CW"));
}

#[test]
fn maritime_vhf_prior_is_single_nfm() {
    assert_eq!(names(&frequency_prior_candidates(156_800_000)), vec!["NFM"]);
}

#[test]
fn aviation_prior_is_single_am() {
    assert_eq!(names(&frequency_prior_candidates(125_000_000)), vec!["AM"]);
}

#[test]
fn broad_classification_by_bandwidth() {
    assert_eq!(broad_classify(BwFamily::Wideband, false), Some(Mode::Fm));
    assert_eq!(broad_classify(BwFamily::Wideband, true), None);
    assert_eq!(broad_classify(BwFamily::Voice, false), Some(Mode::Nfm));
    assert_eq!(broad_classify(BwFamily::Narrowband, true), Some(Mode::Am));
    assert_eq!(broad_classify(BwFamily::Narrow, false), None);
}

#[test]
fn candidate_pick_prefers_matching_sideband() {
    let c = vec![Mode::Nfm, Mode::Usb, Mode::Cw];
    assert_eq!(
        pick_from_candidates(&c, BwFamily::Voice, false, SidebandBalance::UpperDominant),
        Some(Mode::Usb)
    );
    assert_eq!(
        pick_from_candidates(&c, BwFamily::Narrow, false, SidebandBalance::Balanced),
        Some(Mode::Cw)
    );
    assert_eq!(
        pick_from_candidates(&c, BwFamily::Voice, false, SidebandBalance::Balanced),
        Some(Mode::Nfm)
    );
    assert_eq!(
        pick_from_candidates(&vec![], BwFamily::Voice, false, SidebandBalance::Balanced),
        None
    );
}

#[test]
fn confirmation_needs_snr() {
    let c = vec![Mode::Nfm];
    assert_eq!(confirm_mode(&c, false, BwFamily::Voice, false, None), None);
    assert_eq!(confirm_mode(&c, true, BwFamily::Wideband, true, None), Some(Mode::Nfm));
}

#[test]
fn unknown_band_never_confirms_sideband_modes() {
    let none: Vec<Mode> = vec![];
    assert_eq!(confirm_mode(&none, true, BwFamily::Narrow, false, None), None);
    assert_eq!(confirm_mode(&none, true, BwFamily::Wideband, false, None), Some(Mode::Fm));
}

#[test]
fn amateur_2m_symmetric_voice_picks_nfm() {
    let c = frequency_prior_candidates(145_000_000);
    assert_eq!(
        confirm_mode(&c, true, BwFamily::Voice, false, Some(SidebandBalance::Balanced)),
        Some(Mode::Nfm)
    );
}

#[test]
fn no_signal_result_keeps_prior() {
    let r = ClassificationResult::no_signal(vec![Mode::Fm]);
    assert_eq!(r.confirmed, None);
    assert_eq!(r.candidates, vec![Mode::Fm]);
    assert!(r.reason.is_empty());
}
