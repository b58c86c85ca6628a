use token_filtering::fixed::Fixed;
use token_filtering::ratio::Ratio;
use token_filtering::record::{Risk, TokenScreenData, TopHolder};
use token_filtering::screen::{
    evaluate, hard_fail_reasons, name_is_critical, risk_is_critical, tag_is_desirable,
    warning_reasons, ScreenResult,
};

fn fixed(x: f64) -> Fixed {
    Fixed::from_double_bits(x.to_bits())
}

fn ratio(num: u64, den: u64) -> Ratio {
    Ratio { num, den }
}

fn named_risk(name: &str) -> Risk {
    Risk { name: Some(name.to_string()), ..Risk::default() }
}

fn holder(tags: &[&str]) -> TopHolder {
    TopHolder {
        address: "wallet".to_string(),
        pct: fixed(1.0),
        insider: false,
        maker_token_tags: Vec::new(),
        tags: tags.iter().map(|t| t.to_string()).collect(),
    }
}

/// A record on which no check fires and no warning is raised.
fn quiet() -> TokenScreenData {
    let mut data = TokenScreenData::new("So11111111111111111111111111111111111111112");
    data.total_holders = 1000;
    data.total_lp_providers = 8;
    data
}

#[test]
fn quiet_record_passes_without_reasons() {
    let (result, reasons) = evaluate(&quiet());
    assert_eq!(result, ScreenResult::Pass);
    assert!(reasons.is_empty());
}

#[test]
fn empty_record_fails_on_holder_count() {
    let (result, reasons) = evaluate(&TokenScreenData::new("m"));
    assert_eq!(result, ScreenResult::Fail);
    assert_eq!(reasons, vec!["HARD: total_holders 0 < 500 (too few for new coin)".to_string()]);
}

#[test]
fn high_score_fails_and_names_the_score() {
    let mut data = quiet();
    data.score_normalised = Some(21);
    let (result, reasons) = evaluate(&data);
    assert_eq!(result, ScreenResult::Fail);
    assert_eq!(reasons, vec!["HARD: score_normalised 21 > 20".to_string()]);
    assert!(reasons[0].contains("score_normalised"));
}

#[test]
fn score_of_twenty_is_a_warning_only() {
    let mut data = quiet();
    data.score_normalised = Some(20);
    let (result, reasons) = evaluate(&data);
    assert_eq!(result, ScreenResult::Pass);
    assert_eq!(reasons, vec!["WARN: score_normalised 20 in 10-20 (elevated)".to_string()]);
}

#[test]
fn score_of_ten_warns_and_nine_does_not() {
    let mut data = quiet();
    data.score_normalised = Some(10);
    assert_eq!(
        evaluate(&data).1,
        vec!["WARN: score_normalised 10 in 10-20 (elevated)".to_string()]
    );
    data.score_normalised = Some(9);
    assert!(evaluate(&data).1.is_empty());
    data.score_normalised = Some(-3);
    assert_eq!(evaluate(&data), (ScreenResult::Pass, Vec::new()));
}

#[test]
fn negative_and_extreme_scores_are_written_in_full() {
    let mut data = quiet();
    data.score_normalised = Some(i64::MAX);
    assert_eq!(
        evaluate(&data).1,
        vec!["HARD: score_normalised 9223372036854775807 > 20".to_string()]
    );
    data.score_normalised = Some(i64::MIN);
    assert_eq!(evaluate(&data), (ScreenResult::Pass, Vec::new()));
}

#[test]
fn holder_count_bounds_are_inclusive() {
    for holders in [500u64, 501, 1750, 2999, 3000] {
        let mut data = quiet();
        data.total_holders = holders;
        let (result, reasons) = evaluate(&data);
        assert_eq!(result, ScreenResult::Pass);
        assert!(reasons.iter().all(|r| !r.contains("total_holders")));
    }
    let mut data = quiet();
    data.total_holders = 499;
    assert_eq!(
        evaluate(&data),
        (
            ScreenResult::Fail,
            vec!["HARD: total_holders 499 < 500 (too few for new coin)".to_string()]
        )
    );
    data.total_holders = 3001;
    assert_eq!(
        evaluate(&data),
        (
            ScreenResult::Fail,
            vec!["HARD: total_holders 3001 > 3000 (outside target range)".to_string()]
        )
    );
}

#[test]
fn two_hundred_holders_fail() {
    let mut data = quiet();
    data.total_holders = 200;
    let (result, reasons) = evaluate(&data);
    assert_eq!(result, ScreenResult::Fail);
    assert!(reasons.contains(&"HARD: total_holders 200 < 500 (too few for new coin)".to_string()));
}

#[test]
fn top_holder_share_above_ten_fails() {
    let mut data = quiet();
    data.top_holder_pct = Some(fixed(12.34));
    assert_eq!(
        evaluate(&data),
        (ScreenResult::Fail, vec!["HARD: top_holder_pct 12.3% > 10%".to_string()])
    );
    data.top_holder_pct = Some(fixed(10.0));
    assert_eq!(evaluate(&data), (ScreenResult::Pass, Vec::new()));
    // The next double above ten is already too much.
    data.top_holder_pct = Some(Fixed::from_double_bits(10.0f64.to_bits() + 1));
    assert_eq!(
        evaluate(&data),
        (ScreenResult::Fail, vec!["HARD: top_holder_pct 10.0% > 10%".to_string()])
    );
    data.top_holder_pct = Some(fixed(-50.0));
    assert_eq!(evaluate(&data), (ScreenResult::Pass, Vec::new()));
}

#[test]
fn insiders_above_five_percent_fail() {
    let mut data = quiet();
    data.insiders_pct = Some(ratio(60, 1000));
    assert_eq!(
        evaluate(&data),
        (ScreenResult::Fail, vec!["HARD: insiders_pct 6.0% > 5%".to_string()])
    );
    data.insiders_pct = Some(ratio(50, 1000));
    assert_eq!(evaluate(&data), (ScreenResult::Pass, Vec::new()));
    data.insiders_pct = Some(ratio(51, 1000));
    assert_eq!(
        evaluate(&data),
        (ScreenResult::Fail, vec!["HARD: insiders_pct 5.1% > 5%".to_string()])
    );
}

#[test]
fn bundler_share_of_statistics_counts_without_a_list() {
    let mut data = quiet();
    data.bundler_pct = Some(ratio(310, 1000));
    assert_eq!(
        evaluate(&data),
        (ScreenResult::Fail, vec!["HARD: bundler_pct 31.0% > 30%".to_string()])
    );
    data.bundler_pct = Some(ratio(300, 1000));
    assert_eq!(evaluate(&data), (ScreenResult::Pass, Vec::new()));
}

#[test]
fn bundler_share_of_the_list_takes_precedence() {
    let mut data = quiet();
    data.bundler_pct = Some(ratio(1000, 1000));
    data.bundler_supply_pct = Some(fixed(10.0));
    assert_eq!(evaluate(&data), (ScreenResult::Pass, Vec::new()));
    data.bundler_pct = Some(ratio(0, 1000));
    data.bundler_supply_pct = Some(fixed(45.25));
    assert_eq!(
        evaluate(&data),
        (ScreenResult::Fail, vec!["HARD: bundler_pct 45.2% > 30%".to_string()])
    );
}

#[test]
fn bundled_ratio_of_the_list_takes_precedence() {
    let mut data = quiet();
    data.bundled_ratio = Some(ratio(900, 1000));
    data.bundler_holder_ratio = Some(ratio(1, 10));
    assert_eq!(evaluate(&data), (ScreenResult::Pass, Vec::new()));
    data.bundler_holder_ratio = None;
    assert_eq!(
        evaluate(&data),
        (ScreenResult::Fail, vec!["HARD: bundled_ratio 0.90 > 0.4".to_string()])
    );
    data.bundled_ratio = Some(ratio(0, 1000));
    data.bundler_holder_ratio = Some(ratio(41, 100));
    assert_eq!(
        evaluate(&data),
        (ScreenResult::Fail, vec!["HARD: bundled_ratio 0.41 > 0.4".to_string()])
    );
    data.bundler_holder_ratio = Some(ratio(2, 5));
    assert_eq!(evaluate(&data), (ScreenResult::Pass, Vec::new()));
}

#[test]
fn bluechip_share_below_half_a_percent_fails() {
    let mut data = quiet();
    data.bluechip_pct = Some(ratio(1, 1000));
    assert_eq!(
        evaluate(&data),
        (ScreenResult::Fail, vec!["HARD: bluechip_pct 0.10% < 0.5%".to_string()])
    );
    data.bluechip_pct = Some(ratio(5, 1000));
    assert_eq!(evaluate(&data), (ScreenResult::Pass, Vec::new()));
    data.bluechip_pct = Some(ratio(0, 1000));
    assert_eq!(
        evaluate(&data),
        (ScreenResult::Fail, vec!["HARD: bluechip_pct 0.00% < 0.5%".to_string()])
    );
}

#[test]
fn fresh_ratio_above_two_fifths_fails() {
    let mut data = quiet();
    data.fresh_ratio = Some(ratio(450, 1000));
    assert_eq!(
        evaluate(&data),
        (ScreenResult::Fail, vec!["HARD: fresh_ratio 0.45 > 0.4".to_string()])
    );
    data.fresh_ratio = Some(ratio(400, 1000));
    assert_eq!(evaluate(&data), (ScreenResult::Pass, Vec::new()));
}

#[test]
fn critical_risks_fail_one_reason_each() {
    let mut data = quiet();
    data.risks = vec![
        named_risk("Creator sold some"),
        named_risk("Low liquidity"),
        Risk::default(),
        named_risk("Possible Honeypot"),
        named_risk("Creator sold some"),
    ];
    assert_eq!(
        evaluate(&data),
        (
            ScreenResult::Fail,
            vec![
                "HARD: critical risk 'Creator sold some'".to_string(),
                "HARD: critical risk 'Possible Honeypot'".to_string(),
                "HARD: critical risk 'Creator sold some'".to_string(),
            ]
        )
    );
}

#[test]
fn critical_names_match_case_and_all() {
    assert!(name_is_critical("Top holder concentration"));
    assert!(name_is_critical("xx Creator has rugged yy"));
    assert!(name_is_critical("Creator sold"));
    assert!(name_is_critical("Honeypot"));
    assert!(!name_is_critical("honeypot"));
    assert!(!name_is_critical("Creator  sold"));
    assert!(!name_is_critical(""));
}

#[test]
fn rugged_token_fails() {
    let mut data = quiet();
    data.rugged = Some(true);
    assert_eq!(
        evaluate(&data),
        (ScreenResult::Fail, vec!["HARD: token marked as rugged".to_string()])
    );
    data.rugged = Some(false);
    assert_eq!(evaluate(&data), (ScreenResult::Pass, Vec::new()));
}

#[test]
fn plain_top_holders_are_too_clean() {
    let mut data = quiet();
    data.top_holders = vec![holder(&["top_holder"]), holder(&["top_holder"]), holder(&[])];
    assert_eq!(
        evaluate(&data),
        (
            ScreenResult::Fail,
            vec!["HARD: top holders 'too clean' (no bundler/bluechip/whale/axiom)".to_string()]
        )
    );
}

#[test]
fn no_top_holders_are_not_too_clean() {
    let data = quiet();
    assert!(data.top_holders.is_empty());
    assert!(hard_fail_reasons(&data).is_empty());
}

#[test]
fn one_desirable_tag_among_the_first_ten_is_enough() {
    let mut data = quiet();
    data.top_holders = (0..12).map(|_| holder(&["top_holder"])).collect();
    data.top_holders[9] = holder(&["top_holder", "smart_whale"]);
    assert_eq!(evaluate(&data), (ScreenResult::Pass, Vec::new()));
    // The eleventh holder is not looked at.
    data.top_holders[9] = holder(&["top_holder"]);
    data.top_holders[10] = holder(&["whale"]);
    assert_eq!(evaluate(&data).0, ScreenResult::Fail);
}

#[test]
fn maker_token_tags_count_as_tags() {
    let mut data = quiet();
    let mut h = holder(&[]);
    h.maker_token_tags = vec!["axiom".to_string()];
    data.top_holders = vec![h];
    assert_eq!(evaluate(&data), (ScreenResult::Pass, Vec::new()));
}

#[test]
fn desirable_tags_match_as_written() {
    assert!(tag_is_desirable("bundler"));
    assert!(tag_is_desirable("bluechip_owner"));
    assert!(tag_is_desirable("whale"));
    assert!(tag_is_desirable("axiom"));
    assert!(!tag_is_desirable("Bundler"));
    assert!(!tag_is_desirable("top_holder"));
    assert!(!tag_is_desirable(""));
}

#[test]
fn every_hard_failure_is_collected_in_order() {
    let mut data = TokenScreenData::new("m");
    data.score_normalised = Some(35);
    data.top_holder_pct = Some(fixed(25.0));
    data.total_holders = 100;
    data.insiders_pct = Some(ratio(10, 100));
    data.bundler_pct = Some(ratio(50, 100));
    data.bluechip_pct = Some(ratio(0, 100));
    data.fresh_ratio = Some(ratio(50, 100));
    data.bundled_ratio = Some(ratio(50, 100));
    data.risks = vec![named_risk("Honeypot"), named_risk("Mutable metadata")];
    data.rugged = Some(true);
    data.top_holders = vec![holder(&["top_holder"])];
    data.fresh_wallet_count = Some(1);
    let (result, reasons) = evaluate(&data);
    assert_eq!(result, ScreenResult::Fail);
    assert_eq!(
        reasons,
        vec![
            "HARD: score_normalised 35 > 20".to_string(),
            "HARD: top_holder_pct 25.0% > 10%".to_string(),
            "HARD: total_holders 100 < 500 (too few for new coin)".to_string(),
            "HARD: insiders_pct 10.0% > 5%".to_string(),
            "HARD: bundler_pct 50.0% > 30%".to_string(),
            "HARD: bluechip_pct 0.00% < 0.5%".to_string(),
            "HARD: fresh_ratio 0.50 > 0.4".to_string(),
            "HARD: bundled_ratio 0.50 > 0.4".to_string(),
            "HARD: critical risk 'Honeypot'".to_string(),
            "HARD: token marked as rugged".to_string(),
            "HARD: top holders 'too clean' (no bundler/bluechip/whale/axiom)".to_string(),
        ]
    );
    assert_eq!(hard_fail_reasons(&data), reasons);
}

#[test]
fn one_warning_passes_and_is_handed_back() {
    let mut data = quiet();
    data.total_lp_providers = 4;
    assert_eq!(
        evaluate(&data),
        (ScreenResult::Pass, vec!["WARN: total_lp_providers 4 < 5".to_string()])
    );
}

#[test]
fn second_warning_fails() {
    let mut data = quiet();
    data.total_lp_providers = 4;
    assert_eq!(evaluate(&data).0, ScreenResult::Pass);
    data.risks.push(named_risk("Mutable metadata"));
    assert_eq!(
        evaluate(&data),
        (
            ScreenResult::Fail,
            vec![
                "FAIL: 2 warnings (threshold 2)".to_string(),
                "WARN: total_lp_providers 4 < 5".to_string(),
                "WARN: risk 'Mutable metadata'".to_string(),
            ]
        )
    );
}

#[test]
fn a_risk_without_a_name_is_a_warning_too() {
    let mut data = quiet();
    data.risks.push(Risk { level: Some("warn".to_string()), ..Risk::default() });
    assert_eq!(evaluate(&data), (ScreenResult::Pass, vec!["WARN: risk ''".to_string()]));
    data.total_lp_providers = 4;
    assert_eq!(
        evaluate(&data),
        (
            ScreenResult::Fail,
            vec![
                "FAIL: 2 warnings (threshold 2)".to_string(),
                "WARN: total_lp_providers 4 < 5".to_string(),
                "WARN: risk ''".to_string(),
            ]
        )
    );
}

#[test]
fn a_risk_is_critical_by_its_name() {
    assert!(risk_is_critical(&named_risk("Honeypot detected")));
    assert!(!risk_is_critical(&named_risk("Low liquidity")));
    assert!(!risk_is_critical(&Risk::default()));
    let described = Risk { description: Some("Honeypot".to_string()), ..Risk::default() };
    assert!(!risk_is_critical(&described));
}

#[test]
fn all_warnings_in_order() {
    let mut data = quiet();
    data.score_normalised = Some(15);
    data.total_lp_providers = 0;
    data.risks = vec![named_risk("Low liquidity"), named_risk("Low liquidity")];
    data.fresh_wallet_count = Some(99);
    data.bundler_count = Some(0);
    let expected = vec![
        "WARN: score_normalised 15 in 10-20 (elevated)".to_string(),
        "WARN: total_lp_providers 0 < 5".to_string(),
        "WARN: risk 'Low liquidity'".to_string(),
        "WARN: risk 'Low liquidity'".to_string(),
        "WARN: fresh_wallet_count 99 < 100".to_string(),
        "WARN: bundler_count 0 < 100".to_string(),
    ];
    assert_eq!(warning_reasons(&data), expected);
    let (result, reasons) = evaluate(&data);
    assert_eq!(result, ScreenResult::Fail);
    assert_eq!(reasons[0], "FAIL: 6 warnings (threshold 2)");
    assert_eq!(reasons[1..].to_vec(), expected);
}

#[test]
fn counts_of_a_hundred_raise_no_warning() {
    let mut data = quiet();
    data.fresh_wallet_count = Some(100);
    data.bundler_count = Some(100);
    data.total_lp_providers = 5;
    assert_eq!(evaluate(&data), (ScreenResult::Pass, Vec::new()));
}

#[test]
fn warnings_are_not_looked_at_after_a_hard_failure() {
    let mut data = quiet();
    data.total_lp_providers = 0;
    data.fresh_wallet_count = Some(1);
    data.bundler_count = Some(1);
    data.rugged = Some(true);
    assert_eq!(
        evaluate(&data),
        (ScreenResult::Fail, vec!["HARD: token marked as rugged".to_string()])
    );
}

#[test]
fn healthy_token_passes_with_its_one_warning() {
    let mut data = TokenScreenData::new("mint");
    data.total_holders = 1000;
    data.score_normalised = Some(5);
    data.top_holder_pct = Some(fixed(3.0));
    data.insiders_pct = Some(ratio(1, 100));
    data.bundler_pct = None;
    data.bundler_supply_pct = Some(fixed(10.0));
    data.bluechip_pct = Some(ratio(2, 100));
    data.fresh_ratio = Some(ratio(1, 10));
    data.bundled_ratio = None;
    data.bundler_holder_ratio = Some(ratio(1, 10));
    data.rugged = Some(false);
    data.top_holders = vec![holder(&["bluechip"])];
    let (result, reasons) = evaluate(&data);
    assert_eq!(result, ScreenResult::Pass);
    assert_eq!(reasons, vec!["WARN: total_lp_providers 0 < 5".to_string()]);
    assert!(reasons.iter().all(|r| r.starts_with("WARN:")));
    assert!(reasons.len() < 2);
}

#[test]
fn quotients_without_a_denominator_compare_as_their_limit() {
    let mut data = quiet();
    data.insiders_pct = Some(ratio(1, 0));
    assert_eq!(
        evaluate(&data),
        (ScreenResult::Fail, vec!["HARD: insiders_pct inf% > 5%".to_string()])
    );
    data.insiders_pct = Some(ratio(0, 0));
    data.bluechip_pct = Some(ratio(0, 0));
    assert_eq!(evaluate(&data), (ScreenResult::Pass, Vec::new()));
}

#[test]
fn fresh_records_hold_only_the_identifier() {
    let data = TokenScreenData::new("abc");
    assert_eq!(data.mint, "abc");
    assert_eq!(data.total_holders, 0);
    assert_eq!(data.score_normalised, None);
    assert!(data.risks.is_empty());
    assert!(data.top_holders.is_empty());
    assert_eq!(format!("{:?}", TokenScreenData::default()), format!("{:?}", TokenScreenData::new("")));
    let risk = Risk::default();
    assert!(risk.name.is_none() && risk.level.is_none() && risk.description.is_none());
    assert!(risk.score.is_none() && risk.value.is_none());
    let holder = TopHolder::default();
    assert_eq!(holder.address, "");
    assert_eq!(holder.pct, Fixed { raw: 0 });
    assert!(!holder.insider && holder.tags.is_empty() && holder.maker_token_tags.is_empty());
}
