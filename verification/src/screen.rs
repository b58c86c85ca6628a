//! The decision: hard failures first, then accumulated warnings.

use vstd::prelude::*;
use vstd::string::*;
use crate::fixed::Fixed;
use crate::ratio::Ratio;
use crate::record::{Risk, RiskView, ScreenView, TokenScreenData, TopHolder, TopHolderView};
use crate::text::{
    decimal, has_substring, push_decimal, push_signed_decimal, signed_decimal, str_contains,
};

verus! {

/// The outcome of a screening.
#[derive(Debug, Clone, Copy, PartialEq, Eq, Structural)]
pub enum ScreenResult {
    Pass,
    Fail,
}

/// A normalised score above this is a hard failure.
pub const MAX_SCORE: i64 = 20;

/// A normalised score from here up to [`MAX_SCORE`] is a warning.
pub const ELEVATED_SCORE: i64 = 10;

/// The largest holder may hold at most this percentage of the supply.
pub const MAX_TOP_HOLDER_PCT: u32 = 10;

/// Fewer holders than this is a hard failure.
pub const MIN_HOLDERS: u64 = 500;

/// More holders than this is a hard failure.
pub const MAX_HOLDERS: u64 = 3000;

/// Insiders may be at most this percentage of the holders.
pub const MAX_INSIDERS_PCT: u64 = 5;

/// Bundlers may account for at most this percentage.
pub const MAX_BUNDLER_PCT: u32 = 30;

/// Bluechip owners must be at least this many in a thousand holders (0.5%).
pub const MIN_BLUECHIP_PER_MILLE: u64 = 5;

/// Fresh wallets, and bundlers, may each be at most this many in ten holders
/// (0.4).
pub const MAX_RATIO_TENTHS: u64 = 4;

/// Fewer liquidity providers than this is a warning.
pub const MIN_LP_PROVIDERS: u64 = 5;

/// A fresh-wallet count or a bundler count below this is a warning.
pub const MIN_WALLET_COUNT: u64 = 100;

/// This many warnings make a failure.
pub const WARNING_THRESHOLD: usize = 2;

/// How many of the largest holders are searched for a desirable tag.
pub const LEADING_HOLDERS: usize = 10;

/// The risk names that fail a token at once; a risk is critical when its name
/// contains one of them.
pub open spec fn critical_risk_names() -> Seq<Seq<char>> {
    seq!["Top holder concentration"@, "Creator has rugged"@, "Creator sold"@, "Honeypot"@]
}

/// The tag fragments that mark a holder as one of a mixed crowd. They are
/// matched as they are written, case and all.
pub open spec fn desirable_holder_tags() -> Seq<Seq<char>> {
    seq!["bundler"@, "bluechip"@, "whale"@, "axiom"@]
}

/// The name contains one of the critical risk names.
pub open spec fn is_critical_name(name: Seq<char>) -> bool {
    exists|i: int|
        0 <= i < critical_risk_names().len() && has_substring(
            name,
            #[trigger] critical_risk_names()[i],
        )
}

/// The tag contains one of the desirable fragments.
pub open spec fn is_desirable_tag(tag: Seq<char>) -> bool {
    exists|i: int|
        0 <= i < desirable_holder_tags().len() && has_substring(
            tag,
            #[trigger] desirable_holder_tags()[i],
        )
}

/// One of the tags is desirable.
pub open spec fn any_desirable_tag(tags: Seq<Seq<char>>) -> bool {
    exists|i: int| 0 <= i < tags.len() && is_desirable_tag(#[trigger] tags[i])
}

/// The holder carries a desirable tag in either of its tag lists.
pub open spec fn has_desirable_tag(holder: TopHolderView) -> bool {
    any_desirable_tag(holder.maker_token_tags) || any_desirable_tag(holder.tags)
}

/// There are top holders, and none of the first [`LEADING_HOLDERS`] of them
/// (all of them, where the list is shorter) carries a desirable tag.
pub open spec fn too_clean(holders: Seq<TopHolderView>) -> bool {
    &&& holders.len() > 0
    &&& forall|i: int|
        0 <= i < holders.len() && i < LEADING_HOLDERS ==> !has_desirable_tag(#[trigger] holders[i])
}

/// The bundler ratio that counts: the one of the top-holder list where it is
/// known, else the one of the holder statistics.
pub open spec fn effective_bundled_ratio(d: ScreenView) -> Option<Ratio> {
    match d.bundler_holder_ratio {
        Some(r) => Some(r),
        None => d.bundled_ratio,
    }
}

/// No reason, or the one given.
pub open spec fn reason_if(holds: bool, reason: Seq<char>) -> Seq<Seq<char>> {
    if holds {
        seq![reason]
    } else {
        Seq::empty()
    }
}

pub open spec fn score_reason(score: i64) -> Seq<char> {
    "HARD: score_normalised "@ + signed_decimal(score as int) + " > 20"@
}

pub open spec fn top_holder_reason(pct: Fixed) -> Seq<char> {
    "HARD: top_holder_pct "@ + pct.one_decimal() + "% > 10%"@
}

pub open spec fn few_holders_reason(holders: u64) -> Seq<char> {
    "HARD: total_holders "@ + decimal(holders as nat) + " < 500 (too few for new coin)"@
}

pub open spec fn many_holders_reason(holders: u64) -> Seq<char> {
    "HARD: total_holders "@ + decimal(holders as nat) + " > 3000 (outside target range)"@
}

pub open spec fn insiders_reason(share: Ratio) -> Seq<char> {
    "HARD: insiders_pct "@ + share.percent_one_decimal() + "% > 5%"@
}

/// `percentage` is the numeral of the bundler percentage that counted.
pub open spec fn bundler_reason(percentage: Seq<char>) -> Seq<char> {
    "HARD: bundler_pct "@ + percentage + "% > 30%"@
}

pub open spec fn bluechip_reason(share: Ratio) -> Seq<char> {
    "HARD: bluechip_pct "@ + share.percent_two_decimals() + "% < 0.5%"@
}

pub open spec fn fresh_reason(ratio: Ratio) -> Seq<char> {
    "HARD: fresh_ratio "@ + ratio.two_decimals() + " > 0.4"@
}

pub open spec fn bundled_reason(ratio: Ratio) -> Seq<char> {
    "HARD: bundled_ratio "@ + ratio.two_decimals() + " > 0.4"@
}

pub open spec fn critical_risk_reason(name: Seq<char>) -> Seq<char> {
    "HARD: critical risk '"@ + name + "'"@
}

pub open spec fn rugged_reason() -> Seq<char> {
    "HARD: token marked as rugged"@
}

pub open spec fn too_clean_reason() -> Seq<char> {
    "HARD: top holders 'too clean' (no bundler/bluechip/whale/axiom)"@
}

pub open spec fn elevated_score_warning(score: i64) -> Seq<char> {
    "WARN: score_normalised "@ + signed_decimal(score as int) + " in 10-20 (elevated)"@
}

pub open spec fn lp_providers_warning(providers: u64) -> Seq<char> {
    "WARN: total_lp_providers "@ + decimal(providers as nat) + " < 5"@
}

pub open spec fn risk_warning(name: Seq<char>) -> Seq<char> {
    "WARN: risk '"@ + name + "'"@
}

pub open spec fn fresh_wallets_warning(count: u64) -> Seq<char> {
    "WARN: fresh_wallet_count "@ + decimal(count as nat) + " < 100"@
}

pub open spec fn bundlers_warning(count: u64) -> Seq<char> {
    "WARN: bundler_count "@ + decimal(count as nat) + " < 100"@
}

/// The line that heads the reasons of a failure by warnings.
pub open spec fn warnings_failure(count: nat) -> Seq<char> {
    "FAIL: "@ + decimal(count) + " warnings (threshold 2)"@
}

pub open spec fn score_failures(d: ScreenView) -> Seq<Seq<char>> {
    match d.score_normalised {
        Some(score) => reason_if(score > MAX_SCORE, score_reason(score)),
        None => Seq::empty(),
    }
}

pub open spec fn top_holder_failures(d: ScreenView) -> Seq<Seq<char>> {
    match d.top_holder_pct {
        Some(pct) => reason_if(
            pct.above_whole(MAX_TOP_HOLDER_PCT as nat),
            top_holder_reason(pct),
        ),
        None => Seq::empty(),
    }
}

/// The failures about the holder count: at most one of the two applies.
pub open spec fn holder_count_failures(d: ScreenView) -> Seq<Seq<char>> {
    reason_if(d.total_holders < MIN_HOLDERS, few_holders_reason(d.total_holders)) + reason_if(
        d.total_holders > MAX_HOLDERS,
        many_holders_reason(d.total_holders),
    )
}

pub open spec fn insiders_failures(d: ScreenView) -> Seq<Seq<char>> {
    match d.insiders_pct {
        Some(share) => reason_if(
            share.above(MAX_INSIDERS_PCT as nat, 100),
            insiders_reason(share),
        ),
        None => Seq::empty(),
    }
}

/// The failure about bundlers. The share of supply measured on the top-holder
/// list decides where it is known; the share of holders from the statistics
/// is read only in its absence.
pub open spec fn bundler_failures(d: ScreenView) -> Seq<Seq<char>> {
    match d.bundler_supply_pct {
        Some(pct) => reason_if(
            pct.above_whole(MAX_BUNDLER_PCT as nat),
            bundler_reason(pct.one_decimal()),
        ),
        None => match d.bundler_pct {
            Some(share) => reason_if(
                share.above(MAX_BUNDLER_PCT as nat, 100),
                bundler_reason(share.percent_one_decimal()),
            ),
            None => Seq::empty(),
        },
    }
}

pub open spec fn bluechip_failures(d: ScreenView) -> Seq<Seq<char>> {
    match d.bluechip_pct {
        Some(share) => reason_if(share.below(MIN_BLUECHIP_PER_MILLE as nat, 1000), bluechip_reason(share)),
        None => Seq::empty(),
    }
}

pub open spec fn fresh_failures(d: ScreenView) -> Seq<Seq<char>> {
    match d.fresh_ratio {
        Some(ratio) => reason_if(ratio.above(MAX_RATIO_TENTHS as nat, 10), fresh_reason(ratio)),
        None => Seq::empty(),
    }
}

pub open spec fn bundled_failures(d: ScreenView) -> Seq<Seq<char>> {
    match effective_bundled_ratio(d) {
        Some(ratio) => reason_if(ratio.above(MAX_RATIO_TENTHS as nat, 10), bundled_reason(ratio)),
        None => Seq::empty(),
    }
}

/// The risk is critical: it has a name, and the name is a critical one.
pub open spec fn is_critical(risk: RiskView) -> bool {
    risk.name matches Some(name) && is_critical_name(name)
}

/// The name under which a risk is reported; empty for a risk without one.
pub open spec fn risk_label(risk: RiskView) -> Seq<char> {
    match risk.name {
        Some(name) => name,
        None => Seq::empty(),
    }
}

/// What one risk adds to the hard failures: a reason if it is critical.
pub open spec fn critical_risk_failure(risk: RiskView) -> Seq<Seq<char>> {
    reason_if(is_critical(risk), critical_risk_reason(risk_label(risk)))
}

/// One reason for each risk with a critical name, in the order of the risks.
pub open spec fn critical_risk_failures(risks: Seq<RiskView>) -> Seq<Seq<char>>
    decreases risks.len(),
{
    if risks.len() == 0 {
        Seq::empty()
    } else {
        critical_risk_failures(risks.drop_last()) + critical_risk_failure(risks.last())
    }
}

pub open spec fn rugged_failures(d: ScreenView) -> Seq<Seq<char>> {
    reason_if(d.rugged == Some(true), rugged_reason())
}

pub open spec fn too_clean_failures(d: ScreenView) -> Seq<Seq<char>> {
    reason_if(too_clean(d.top_holders), too_clean_reason())
}

/// The hard failures of a record: every check is made, and each that applies
/// gives one reason, in this order.
pub open spec fn hard_failures(d: ScreenView) -> Seq<Seq<char>> {
    score_failures(d) + top_holder_failures(d) + holder_count_failures(d) + insiders_failures(d)
        + bundler_failures(d) + bluechip_failures(d) + fresh_failures(d) + bundled_failures(d)
        + critical_risk_failures(d.risks) + rugged_failures(d) + too_clean_failures(d)
}

pub open spec fn score_warnings(d: ScreenView) -> Seq<Seq<char>> {
    match d.score_normalised {
        Some(score) => reason_if(
            ELEVATED_SCORE <= score <= MAX_SCORE,
            elevated_score_warning(score),
        ),
        None => Seq::empty(),
    }
}

pub open spec fn lp_providers_warnings(d: ScreenView) -> Seq<Seq<char>> {
    reason_if(
        d.total_lp_providers < MIN_LP_PROVIDERS,
        lp_providers_warning(d.total_lp_providers),
    )
}

/// What one risk adds to the warnings: a reason unless it is critical. A
/// risk without a name is not critical, and is reported under an empty name.
pub open spec fn risk_warning_of(risk: RiskView) -> Seq<Seq<char>> {
    reason_if(!is_critical(risk), risk_warning(risk_label(risk)))
}

/// One warning for each risk that is not critical, in the order of the
/// risks.
pub open spec fn risk_warnings(risks: Seq<RiskView>) -> Seq<Seq<char>>
    decreases risks.len(),
{
    if risks.len() == 0 {
        Seq::empty()
    } else {
        risk_warnings(risks.drop_last()) + risk_warning_of(risks.last())
    }
}

pub open spec fn fresh_wallets_warnings(d: ScreenView) -> Seq<Seq<char>> {
    match d.fresh_wallet_count {
        Some(count) => reason_if(count < MIN_WALLET_COUNT, fresh_wallets_warning(count)),
        None => Seq::empty(),
    }
}

pub open spec fn bundlers_warnings(d: ScreenView) -> Seq<Seq<char>> {
    match d.bundler_count {
        Some(count) => reason_if(count < MIN_WALLET_COUNT, bundlers_warning(count)),
        None => Seq::empty(),
    }
}

/// The warnings of a record, one reason each, in this order.
pub open spec fn warnings(d: ScreenView) -> Seq<Seq<char>> {
    score_warnings(d) + lp_providers_warnings(d) + risk_warnings(d.risks) + fresh_wallets_warnings(
        d,
    ) + bundlers_warnings(d)
}

/// The verdict on a record: it fails on any hard failure, and otherwise on
/// [`WARNING_THRESHOLD`] warnings or more.
pub open spec fn screen_result(d: ScreenView) -> ScreenResult {
    if hard_failures(d).len() > 0 || warnings(d).len() >= WARNING_THRESHOLD {
        ScreenResult::Fail
    } else {
        ScreenResult::Pass
    }
}

/// The reasons given with the result: the hard failures alone where there
/// are any; else the warnings, headed by a summary line where they make a
/// failure.
pub open spec fn screen_reasons(d: ScreenView) -> Seq<Seq<char>> {
    if hard_failures(d).len() > 0 {
        hard_failures(d)
    } else if warnings(d).len() >= WARNING_THRESHOLD {
        seq![warnings_failure(warnings(d).len())] + warnings(d)
    } else {
        warnings(d)
    }
}

fn push_reason(reasons: &mut Vec<String>, reason: String)
    ensures
        final(reasons).deep_view() == old(reasons).deep_view().push(reason@),
        final(reasons).deep_view() == old(reasons).deep_view() + seq![reason@],
{
    reasons.push(reason);
}

/// Whether a risk of this name fails a token at once.
pub fn name_is_critical(name: &str) -> (r: bool)
    ensures
        r == is_critical_name(name@),
{
    let r = str_contains(name, "Top holder concentration") || str_contains(
        name,
        "Creator has rugged",
    ) || str_contains(name, "Creator sold") || str_contains(name, "Honeypot");
    proof {
        // The four names, one by one, are all that the table holds.
        let names = critical_risk_names();
        assert(names[0] == "Top holder concentration"@);
        assert(names[1] == "Creator has rugged"@);
        assert(names[2] == "Creator sold"@);
        assert(names[3] == "Honeypot"@);
    }
    r
}

/// Whether a risk fails a token at once.
pub fn risk_is_critical(risk: &Risk) -> (r: bool)
    ensures
        r == is_critical(risk@),
{
    match &risk.name {
        Some(name) => name_is_critical(name.as_str()),
        None => false,
    }
}

fn push_risk_label(out: &mut String, risk: &Risk)
    ensures
        final(out)@ == old(out)@ + risk_label(risk@),
{
    if let Some(name) = &risk.name {
        out.append(name.as_str());
    }
}

/// Whether a holder tag is one of the desirable kind.
pub fn tag_is_desirable(tag: &str) -> (r: bool)
    ensures
        r == is_desirable_tag(tag@),
{
    let r = str_contains(tag, "bundler") || str_contains(tag, "bluechip") || str_contains(
        tag,
        "whale",
    ) || str_contains(tag, "axiom");
    proof {
        // The four fragments, one by one, are all that the table holds.
        let tags = desirable_holder_tags();
        assert(tags[0] == "bundler"@);
        assert(tags[1] == "bluechip"@);
        assert(tags[2] == "whale"@);
        assert(tags[3] == "axiom"@);
    }
    r
}

fn some_tag_desirable(tags: &Vec<String>) -> (r: bool)
    ensures
        r == any_desirable_tag(tags.deep_view()),
{
    let mut i: usize = 0;
    while i < tags.len()
        invariant
            i <= tags.len(),
            forall|k: int| 0 <= k < i ==> !is_desirable_tag(#[trigger] tags.deep_view()[k]),
        decreases tags.len() - i,
    {
        if tag_is_desirable(tags[i].as_str()) {
            assert(is_desirable_tag(tags.deep_view()[i as int]));
            return true;
        }
        i = i + 1;
    }
    false
}

fn holder_is_desirable(holder: &TopHolder) -> (r: bool)
    ensures
        r == has_desirable_tag(holder@),
{
    some_tag_desirable(&holder.maker_token_tags) || some_tag_desirable(&holder.tags)
}

fn holders_too_clean(holders: &Vec<TopHolder>) -> (r: bool)
    ensures
        r == too_clean(holders.deep_view()),
{
    if holders.len() == 0 {
        return false;
    }
    let mut i: usize = 0;
    while i < holders.len() && i < LEADING_HOLDERS
        invariant
            i <= holders.len(),
            i <= LEADING_HOLDERS,
            forall|k: int| 0 <= k < i ==> !has_desirable_tag(#[trigger] holders.deep_view()[k]),
        decreases holders.len() - i,
    {
        if holder_is_desirable(&holders[i]) {
            assert(has_desirable_tag(holders.deep_view()[i as int]));
            return false;
        }
        i = i + 1;
    }
    true
}

fn check_score(data: &TokenScreenData, reasons: &mut Vec<String>)
    ensures
        final(reasons).deep_view() == old(reasons).deep_view() + score_failures(data@),
{
    if let Some(score) = data.score_normalised {
        if score > MAX_SCORE {
            let mut reason = String::from_str("HARD: score_normalised ");
            push_signed_decimal(&mut reason, score);
            reason.append(" > 20");
            push_reason(reasons, reason);
        }
    }
}

fn check_top_holder(data: &TokenScreenData, reasons: &mut Vec<String>)
    ensures
        final(reasons).deep_view() == old(reasons).deep_view() + top_holder_failures(data@),
{
    if let Some(pct) = data.top_holder_pct {
        if pct.exceeds(MAX_TOP_HOLDER_PCT) {
            let mut reason = String::from_str("HARD: top_holder_pct ");
            pct.push_one_decimal(&mut reason);
            reason.append("% > 10%");
            push_reason(reasons, reason);
        }
    }
}

fn check_holder_count(data: &TokenScreenData, reasons: &mut Vec<String>)
    ensures
        final(reasons).deep_view() == old(reasons).deep_view() + holder_count_failures(data@),
{
    if data.total_holders < MIN_HOLDERS {
        let mut reason = String::from_str("HARD: total_holders ");
        push_decimal(&mut reason, data.total_holders as u128);
        reason.append(" < 500 (too few for new coin)");
        push_reason(reasons, reason);
    }
    if data.total_holders > MAX_HOLDERS {
        let mut reason = String::from_str("HARD: total_holders ");
        push_decimal(&mut reason, data.total_holders as u128);
        reason.append(" > 3000 (outside target range)");
        push_reason(reasons, reason);
    }
}

fn check_insiders(data: &TokenScreenData, reasons: &mut Vec<String>)
    ensures
        final(reasons).deep_view() == old(reasons).deep_view() + insiders_failures(data@),
{
    if let Some(share) = data.insiders_pct {
        if share.is_above(MAX_INSIDERS_PCT, 100) {
            let mut reason = String::from_str("HARD: insiders_pct ");
            share.push_percent_one_decimal(&mut reason);
            reason.append("% > 5%");
            push_reason(reasons, reason);
        }
    }
}

fn check_bundlers(data: &TokenScreenData, reasons: &mut Vec<String>)
    ensures
        final(reasons).deep_view() == old(reasons).deep_view() + bundler_failures(data@),
{
    if let Some(pct) = data.bundler_supply_pct {
        if pct.exceeds(MAX_BUNDLER_PCT) {
            let mut reason = String::from_str("HARD: bundler_pct ");
            pct.push_one_decimal(&mut reason);
            reason.append("% > 30%");
            push_reason(reasons, reason);
        }
    } else if let Some(share) = data.bundler_pct {
        if share.is_above(MAX_BUNDLER_PCT as u64, 100) {
            let mut reason = String::from_str("HARD: bundler_pct ");
            share.push_percent_one_decimal(&mut reason);
            reason.append("% > 30%");
            push_reason(reasons, reason);
        }
    }
}

fn check_bluechip(data: &TokenScreenData, reasons: &mut Vec<String>)
    ensures
        final(reasons).deep_view() == old(reasons).deep_view() + bluechip_failures(data@),
{
    if let Some(share) = data.bluechip_pct {
        if share.is_below(MIN_BLUECHIP_PER_MILLE, 1000) {
            let mut reason = String::from_str("HARD: bluechip_pct ");
            share.push_percent_two_decimals(&mut reason);
            reason.append("% < 0.5%");
            push_reason(reasons, reason);
        }
    }
}

fn check_fresh(data: &TokenScreenData, reasons: &mut Vec<String>)
    ensures
        final(reasons).deep_view() == old(reasons).deep_view() + fresh_failures(data@),
{
    if let Some(ratio) = data.fresh_ratio {
        if ratio.is_above(MAX_RATIO_TENTHS, 10) {
            let mut reason = String::from_str("HARD: fresh_ratio ");
            ratio.push_two_decimals(&mut reason);
            reason.append(" > 0.4");
            push_reason(reasons, reason);
        }
    }
}

fn check_bundled(data: &TokenScreenData, reasons: &mut Vec<String>)
    ensures
        final(reasons).deep_view() == old(reasons).deep_view() + bundled_failures(data@),
{
    let effective: Option<Ratio> = match data.bundler_holder_ratio {
        Some(r) => Some(r),
        None => data.bundled_ratio,
    };
    if let Some(ratio) = effective {
        if ratio.is_above(MAX_RATIO_TENTHS, 10) {
            let mut reason = String::from_str("HARD: bundled_ratio ");
            ratio.push_two_decimals(&mut reason);
            reason.append(" > 0.4");
            push_reason(reasons, reason);
        }
    }
}

fn check_critical_risks(data: &TokenScreenData, reasons: &mut Vec<String>)
    ensures
        final(reasons).deep_view() == old(reasons).deep_view() + critical_risk_failures(
            data@.risks,
        ),
{
    let ghost risks = data@.risks;
    let mut i: usize = 0;
    while i < data.risks.len()
        invariant
            i <= data.risks.len(),
            risks == data@.risks,
            risks.len() == data.risks.len(),
            reasons.deep_view() == old(reasons).deep_view() + critical_risk_failures(
                risks.take(i as int),
            ),
        decreases data.risks.len() - i,
    {
        proof {
            assert(risks.take(i + 1).drop_last() =~= risks.take(i as int));
        }
        if risk_is_critical(&data.risks[i]) {
            let mut reason = String::from_str("HARD: critical risk '");
            push_risk_label(&mut reason, &data.risks[i]);
            reason.append("'");
            push_reason(reasons, reason);
        }
        i = i + 1;
    }
    assert(risks.take(i as int) =~= risks);
}

fn check_rugged(data: &TokenScreenData, reasons: &mut Vec<String>)
    ensures
        final(reasons).deep_view() == old(reasons).deep_view() + rugged_failures(data@),
{
    if let Some(rugged) = data.rugged {
        if rugged {
            push_reason(reasons, String::from_str("HARD: token marked as rugged"));
        }
    }
}

fn check_too_clean(data: &TokenScreenData, reasons: &mut Vec<String>)
    ensures
        final(reasons).deep_view() == old(reasons).deep_view() + too_clean_failures(data@),
{
    if holders_too_clean(&data.top_holders) {
        push_reason(
            reasons,
            String::from_str("HARD: top holders 'too clean' (no bundler/bluechip/whale/axiom)"),
        );
    }
}

/// The hard failures of a record, all of them, in the fixed order of the
/// checks.
pub fn hard_fail_reasons(data: &TokenScreenData) -> (reasons: Vec<String>)
    ensures
        reasons.deep_view() == hard_failures(data@),
{
    let mut reasons: Vec<String> = Vec::new();
    check_score(data, &mut reasons);
    check_top_holder(data, &mut reasons);
    check_holder_count(data, &mut reasons);
    check_insiders(data, &mut reasons);
    check_bundlers(data, &mut reasons);
    check_bluechip(data, &mut reasons);
    check_fresh(data, &mut reasons);
    check_bundled(data, &mut reasons);
    check_critical_risks(data, &mut reasons);
    check_rugged(data, &mut reasons);
    check_too_clean(data, &mut reasons);
    reasons
}

fn warn_score(data: &TokenScreenData, reasons: &mut Vec<String>)
    ensures
        final(reasons).deep_view() == old(reasons).deep_view() + score_warnings(data@),
{
    if let Some(score) = data.score_normalised {
        if ELEVATED_SCORE <= score && score <= MAX_SCORE {
            let mut reason = String::from_str("WARN: score_normalised ");
            push_signed_decimal(&mut reason, score);
            reason.append(" in 10-20 (elevated)");
            push_reason(reasons, reason);
        }
    }
}

fn warn_lp_providers(data: &TokenScreenData, reasons: &mut Vec<String>)
    ensures
        final(reasons).deep_view() == old(reasons).deep_view() + lp_providers_warnings(data@),
{
    if data.total_lp_providers < MIN_LP_PROVIDERS {
        let mut reason = String::from_str("WARN: total_lp_providers ");
        push_decimal(&mut reason, data.total_lp_providers as u128);
        reason.append(" < 5");
        push_reason(reasons, reason);
    }
}

fn warn_risks(data: &TokenScreenData, reasons: &mut Vec<String>)
    ensures
        final(reasons).deep_view() == old(reasons).deep_view() + risk_warnings(data@.risks),
{
    let ghost risks = data@.risks;
    let mut i: usize = 0;
    while i < data.risks.len()
        invariant
            i <= data.risks.len(),
            risks == data@.risks,
            risks.len() == data.risks.len(),
            reasons.deep_view() == old(reasons).deep_view() + risk_warnings(risks.take(i as int)),
        decreases data.risks.len() - i,
    {
        proof {
            assert(risks.take(i + 1).drop_last() =~= risks.take(i as int));
        }
        if !risk_is_critical(&data.risks[i]) {
            let mut reason = String::from_str("WARN: risk '");
            push_risk_label(&mut reason, &data.risks[i]);
            reason.append("'");
            push_reason(reasons, reason);
        }
        i = i + 1;
    }
    assert(risks.take(i as int) =~= risks);
}

fn warn_fresh_wallets(data: &TokenScreenData, reasons: &mut Vec<String>)
    ensures
        final(reasons).deep_view() == old(reasons).deep_view() + fresh_wallets_warnings(data@),
{
    if let Some(count) = data.fresh_wallet_count {
        if count < MIN_WALLET_COUNT {
            let mut reason = String::from_str("WARN: fresh_wallet_count ");
            push_decimal(&mut reason, count as u128);
            reason.append(" < 100");
            push_reason(reasons, reason);
        }
    }
}

fn warn_bundlers(data: &TokenScreenData, reasons: &mut Vec<String>)
    ensures
        final(reasons).deep_view() == old(reasons).deep_view() + bundlers_warnings(data@),
{
    if let Some(count) = data.bundler_count {
        if count < MIN_WALLET_COUNT {
            let mut reason = String::from_str("WARN: bundler_count ");
            push_decimal(&mut reason, count as u128);
            reason.append(" < 100");
            push_reason(reasons, reason);
        }
    }
}

/// The warnings of a record, in the fixed order of the checks.
pub fn warning_reasons(data: &TokenScreenData) -> (reasons: Vec<String>)
    ensures
        reasons.deep_view() == warnings(data@),
{
    let mut reasons: Vec<String> = Vec::new();
    warn_score(data, &mut reasons);
    warn_lp_providers(data, &mut reasons);
    warn_risks(data, &mut reasons);
    warn_fresh_wallets(data, &mut reasons);
    warn_bundlers(data, &mut reasons);
    reasons
}

/// Screens a record: the verdict, and the reasons for it in the order in
/// which the checks are made.
///
/// Any hard failure fails the record, and the reasons are then the hard
/// failures alone. Without one, the warnings are counted: at
/// [`WARNING_THRESHOLD`] or more the record fails, with a summary line ahead
/// of the warnings; below it the record passes, and the warning, if there is
/// one, is handed back with the verdict.
pub fn evaluate(data: &TokenScreenData) -> (out: (ScreenResult, Vec<String>))
    ensures
        out.0 == screen_result(data@),
        out.1.deep_view() == screen_reasons(data@),
{
    let hard = hard_fail_reasons(data);
    if hard.len() > 0 {
        return (ScreenResult::Fail, hard);
    }
    let mut reasons = warning_reasons(data);
    if reasons.len() >= WARNING_THRESHOLD {
        let mut summary = String::from_str("FAIL: ");
        push_decimal(&mut summary, reasons.len() as u128);
        summary.append(" warnings (threshold 2)");
        reasons.insert(0, summary);
        return (ScreenResult::Fail, reasons);
    }
    (ScreenResult::Pass, reasons)
}

} // verus!
