//! What holds of every record and every document.

use vstd::prelude::*;
use vstd::arithmetic::div_mod::{
    lemma_div_denominator, lemma_div_is_ordered, lemma_div_is_ordered_by_denominator,
};
use vstd::arithmetic::power2::{
    lemma2_to64, lemma_pow2_adds, lemma_pow2_pos, lemma_pow2_strictly_increases,
    lemma_pow2_unfold, pow2,
};
use crate::fixed::{
    double_exponent, double_magnitude_raw, double_negative, double_scale, double_significand,
    fixed_of_double,
};
use crate::json::Json;
use crate::ratio::Ratio;
use crate::parse::{
    lemma_bundlers_bounded, report_of, with_counts, with_holder_counts, with_holder_stat,
    with_holders, with_top_holders, HolderCounts,
};
use crate::record::{RiskView, ScreenView, TopHolderView};
use crate::screen::{
    bluechip_failures, bluechip_reason, bundled_failures, bundled_reason, bundler_failures,
    bundler_reason, bundlers_warning, bundlers_warnings, critical_risk_failure,
    critical_risk_failures, critical_risk_reason, desirable_holder_tags,
    effective_bundled_ratio, elevated_score_warning, few_holders_reason, fresh_failures,
    fresh_reason, fresh_wallets_warning, fresh_wallets_warnings, hard_failures,
    has_desirable_tag, holder_count_failures, insiders_failures, insiders_reason,
    is_critical, is_desirable_tag, lp_providers_warning, lp_providers_warnings,
    many_holders_reason, reason_if, risk_label, risk_warning, risk_warning_of, risk_warnings,
    rugged_failures, rugged_reason, score_failures, score_reason, score_warnings,
    screen_reasons, screen_result, too_clean, too_clean_failures, too_clean_reason,
    top_holder_failures, top_holder_reason, warnings, warnings_failure, ScreenResult,
    MAX_BUNDLER_PCT, MAX_HOLDERS, MAX_SCORE, MIN_HOLDERS,
};
use crate::text::{decimal, has_substring, occurs_at, signed_decimal};

verus! {

/// A record passes exactly when it has no hard failure and fewer warnings
/// than the threshold; the reasons of a record that passes are its warnings.
pub proof fn law_pass_means_clean(d: ScreenView)
    ensures
        screen_result(d) == ScreenResult::Pass <==> hard_failures(d).len() == 0 && warnings(
            d,
        ).len() < 2,
        screen_result(d) == ScreenResult::Pass ==> screen_reasons(d) == warnings(d),
        screen_result(d) == ScreenResult::Fail ==> screen_reasons(d).len() > 0,
{
}

/// A normalised score above the maximum fails the record, and the first of
/// the reasons names the score.
pub proof fn law_high_score_fails(d: ScreenView)
    requires
        d.score_normalised matches Some(score) && score > MAX_SCORE,
    ensures
        screen_result(d) == ScreenResult::Fail,
        screen_reasons(d).len() > 0,
        screen_reasons(d)[0] == score_reason(d.score_normalised->0),
        has_substring(screen_reasons(d)[0], "score_normalised"@),
{
    let reason = score_reason(d.score_normalised->0);
    assert(hard_failures(d)[0] == reason);
    reveal_strlit("HARD: score_normalised ");
    reveal_strlit("score_normalised");
    assert(occurs_at(reason, "score_normalised"@, 6));
}

/// Appending a risk that is not critical to a record that passes with one
/// warning makes it fail: the warnings reach the threshold.
pub proof fn law_second_warning_fails(d: ScreenView, risk: RiskView)
    requires
        screen_result(d) == ScreenResult::Pass,
        warnings(d).len() == 1,
        !is_critical(risk),
    ensures
        screen_result(ScreenView { risks: d.risks.push(risk), ..d }) == ScreenResult::Fail,
        warnings(ScreenView { risks: d.risks.push(risk), ..d }).len() == 2,
{
    let more = d.risks.push(risk);
    let e = ScreenView { risks: more, ..d };
    assert(more.drop_last() =~= d.risks);
    assert(more.last() == risk);
    assert(risk_warnings(more) == risk_warnings(d.risks) + risk_warning_of(risk));
    assert(risk_warnings(more).len() == risk_warnings(d.risks).len() + 1);
    assert(score_warnings(e) == score_warnings(d));
    assert(lp_providers_warnings(e) == lp_providers_warnings(d));
    assert(fresh_wallets_warnings(e) == fresh_wallets_warnings(d));
    assert(bundlers_warnings(e) == bundlers_warnings(d));
    assert(warnings(e).len() == warnings(d).len() + 1);
}

/// Merging the same holder-statistics document a second time changes
/// nothing.
pub proof fn law_holder_stat_merge_idempotent(d: ScreenView, j: Json)
    ensures
        with_holder_stat(with_holder_stat(d, j), j) == with_holder_stat(d, j),
{
}

/// Merging the same top-holders document a second time changes nothing.
pub proof fn law_top_holders_merge_idempotent(d: ScreenView, j: Json)
    ensures
        with_top_holders(with_top_holders(d, j), j) == with_top_holders(d, j),
{
}

/// Where the share of supply held by bundlers was measured on the top-holder
/// list, it alone decides the bundler check: whatever share the holder
/// statistics give, the hard failures, the result and the reasons are the
/// same.
pub proof fn law_supply_measure_decides(d: ScreenView, other: Option<Ratio>)
    requires
        d.bundler_supply_pct is Some,
    ensures
        bundler_failures(d) == reason_if(
            d.bundler_supply_pct->0.above_whole(MAX_BUNDLER_PCT as nat),
            bundler_reason(d.bundler_supply_pct->0.one_decimal()),
        ),
        hard_failures(ScreenView { bundler_pct: other, ..d }) == hard_failures(d),
        screen_result(ScreenView { bundler_pct: other, ..d }) == screen_result(d),
        screen_reasons(ScreenView { bundler_pct: other, ..d }) == screen_reasons(d),
{
    let e = ScreenView { bundler_pct: other, ..d };
    assert(bundler_failures(e) == bundler_failures(d));
    lemma_same_but_for_statistics(d, e);
}

/// Two records that differ at most in the two bundler measures of the
/// holder statistics, and on which the two bundler checks come out the same,
/// are screened alike.
proof fn lemma_same_but_for_statistics(d: ScreenView, e: ScreenView)
    requires
        e == (ScreenView { bundler_pct: e.bundler_pct, bundled_ratio: e.bundled_ratio, ..d }),
        bundler_failures(e) == bundler_failures(d),
        bundled_failures(e) == bundled_failures(d),
    ensures
        hard_failures(e) == hard_failures(d),
        warnings(e) == warnings(d),
        screen_result(e) == screen_result(d),
        screen_reasons(e) == screen_reasons(d),
{
    assert(score_failures(e) == score_failures(d));
    assert(top_holder_failures(e) == top_holder_failures(d));
    assert(holder_count_failures(e) == holder_count_failures(d));
    assert(insiders_failures(e) == insiders_failures(d));
    assert(bluechip_failures(e) == bluechip_failures(d));
    assert(fresh_failures(e) == fresh_failures(d));
    assert(rugged_failures(e) == rugged_failures(d));
    assert(too_clean_failures(e) == too_clean_failures(d));
    assert(hard_failures(e) == hard_failures(d));
    assert(score_warnings(e) == score_warnings(d));
    assert(lp_providers_warnings(e) == lp_providers_warnings(d));
    assert(fresh_wallets_warnings(e) == fresh_wallets_warnings(d));
    assert(bundlers_warnings(e) == bundlers_warnings(d));
    assert(warnings(e) == warnings(d));
}

/// Where the bundler ratio was measured on the top-holder list, it alone
/// decides the bundled-ratio check, whatever ratio the holder statistics
/// give.
pub proof fn law_list_ratio_decides(d: ScreenView, other: Option<Ratio>)
    requires
        d.bundler_holder_ratio is Some,
    ensures
        hard_failures(ScreenView { bundled_ratio: other, ..d }) == hard_failures(d),
        screen_result(ScreenView { bundled_ratio: other, ..d }) == screen_result(d),
        screen_reasons(ScreenView { bundled_ratio: other, ..d }) == screen_reasons(d),
{
    let e = ScreenView { bundled_ratio: other, ..d };
    assert(effective_bundled_ratio(e) == effective_bundled_ratio(d));
    assert(bundled_failures(e) == bundled_failures(d));
    lemma_same_but_for_statistics(d, e);
}

/// The tag `top_holder` is not a desirable one.
pub proof fn lemma_top_holder_tag_plain()
    ensures
        !is_desirable_tag("top_holder"@),
{
    reveal_strlit("top_holder");
    reveal_strlit("bundler");
    reveal_strlit("bluechip");
    reveal_strlit("whale");
    reveal_strlit("axiom");
    let tag = "top_holder"@;
    let fragments = desirable_holder_tags();
    assert forall|i: int| 0 <= i < fragments.len() implies !has_substring(
        tag,
        #[trigger] fragments[i],
    ) by {
        let fragment = fragments[i];
        assert forall|at: int| !occurs_at(tag, fragment, at) by {
            if occurs_at(tag, fragment, at) {
                assert(tag.subrange(at, at + fragment.len())[0] == fragment[0]);
            }
        }
    }
}

/// A record with top holders, all of whose tags read `top_holder`, fails as
/// too clean: that reason is the last of the hard failures.
pub proof fn law_only_plain_tags_too_clean(d: ScreenView)
    requires
        d.top_holders.len() > 0,
        forall|i: int, k: int|
            0 <= i < d.top_holders.len() && 0 <= k < d.top_holders[i].all_tags().len()
                ==> #[trigger] d.top_holders[i].all_tags()[k] == "top_holder"@,
    ensures
        too_clean(d.top_holders),
        screen_result(d) == ScreenResult::Fail,
        screen_reasons(d).len() > 0,
        screen_reasons(d).last() == too_clean_reason(),
{
    lemma_top_holder_tag_plain();
    assert forall|i: int| 0 <= i < d.top_holders.len() implies !has_desirable_tag(
        #[trigger] d.top_holders[i],
    ) by {
        let holder = d.top_holders[i];
        let all = holder.all_tags();
        assert forall|k: int| 0 <= k < holder.maker_token_tags.len() implies !is_desirable_tag(
            #[trigger] holder.maker_token_tags[k],
        ) by {
            assert(all[k] == holder.maker_token_tags[k]);
        }
        assert forall|k: int| 0 <= k < holder.tags.len() implies !is_desirable_tag(
            #[trigger] holder.tags[k],
        ) by {
            assert(all[holder.maker_token_tags.len() + k] == holder.tags[k]);
        }
    }
    assert(too_clean_failures(d) == seq![too_clean_reason()]);
    assert(hard_failures(d).last() == too_clean_reason());
}

/// A record without top holders is never too clean.
pub proof fn law_no_holders_not_too_clean(d: ScreenView)
    requires
        d.top_holders.len() == 0,
    ensures
        !too_clean(d.top_holders),
        too_clean_failures(d) == Seq::<Seq<char>>::empty(),
{
}

/// The record of a primary report is well formed.
pub proof fn law_report_well_formed(mint: Seq<char>, j: Json)
    ensures
        report_of(mint, j).well_formed(),
{
}

/// Taking on holder counts keeps a record well formed: a share is set only
/// over a holder count above zero, and the two capped ones are at most one.
pub proof fn law_holder_counts_keep_well_formed(d: ScreenView, counts: HolderCounts)
    requires
        d.well_formed(),
    ensures
        with_holder_counts(d, counts).well_formed(),
{
}

/// A record that counts no holders takes on the counts and no shares: shares
/// that were absent stay absent.
pub proof fn law_no_holders_no_shares(d: ScreenView, counts: HolderCounts)
    requires
        d.total_holders == 0,
        d.insiders_pct is None,
        d.bluechip_pct is None,
        d.bundler_pct is None,
        d.fresh_ratio is None,
        d.bundled_ratio is None,
    ensures
        with_holder_counts(d, counts) == with_counts(d, counts),
        with_holder_counts(d, counts).insiders_pct is None,
        with_holder_counts(d, counts).bluechip_pct is None,
        with_holder_counts(d, counts).bundler_pct is None,
        with_holder_counts(d, counts).fresh_ratio is None,
        with_holder_counts(d, counts).bundled_ratio is None,
{
}

/// Taking on the same holder counts a second time changes nothing.
pub proof fn law_holder_counts_idempotent(d: ScreenView, counts: HolderCounts)
    ensures
        with_holder_counts(with_holder_counts(d, counts), counts) == with_holder_counts(d, counts),
{
}

/// Setting a list of top holders keeps a record well formed: the two bundler
/// measures are present exactly when the list is not empty, and the bundlers
/// are a part of the list. The list is no longer than a machine can hold.
pub proof fn law_top_holders_keep_well_formed(d: ScreenView, holders: Seq<TopHolderView>)
    requires
        d.well_formed(),
        holders.len() <= u64::MAX,
    ensures
        with_holders(d, holders).well_formed(),
{
    lemma_bundlers_bounded(holders);
}

/// The reason is one about the holder count: it opens with
/// `HARD: total_holders `.
pub open spec fn is_holder_count_reason(reason: Seq<char>) -> bool {
    "HARD: total_holders "@.is_prefix_of(reason)
}

/// None of the reasons is about the holder count.
pub open spec fn none_about_holder_count(reasons: Seq<Seq<char>>) -> bool {
    forall|i: int| 0 <= i < reasons.len() ==> !is_holder_count_reason(#[trigger] reasons[i])
}

proof fn lemma_differs(reason: Seq<char>, at: int)
    requires
        0 <= at < 20,
        at < reason.len() ==> reason[at] != "HARD: total_holders "@[at],
    ensures
        !is_holder_count_reason(reason),
{
    reveal_strlit("HARD: total_holders ");
    let opening = "HARD: total_holders "@;
    if opening.is_prefix_of(reason) {
        assert(reason.subrange(0, opening.len() as int)[at] == opening[at]);
    }
}

proof fn lemma_none_joined(a: Seq<Seq<char>>, b: Seq<Seq<char>>)
    requires
        none_about_holder_count(a),
        none_about_holder_count(b),
    ensures
        none_about_holder_count(a + b),
{
    assert forall|i: int| 0 <= i < (a + b).len() implies !is_holder_count_reason(
        #[trigger] (a + b)[i],
    ) by {
        if i < a.len() {
            assert((a + b)[i] == a[i]);
        } else {
            assert((a + b)[i] == b[i - a.len()]);
        }
    }
}

proof fn lemma_critical_risks_other(risks: Seq<RiskView>)
    ensures
        none_about_holder_count(critical_risk_failures(risks)),
    decreases risks.len(),
{
    if risks.len() > 0 {
        lemma_critical_risks_other(risks.drop_last());
        let risk = risks.last();
        reveal_strlit("HARD: critical risk '");
        reveal_strlit("HARD: total_holders ");
        lemma_differs(critical_risk_reason(risk_label(risk)), 6);
        lemma_none_joined(critical_risk_failures(risks.drop_last()), critical_risk_failure(risk));
    }
}

proof fn lemma_risk_warnings_other(risks: Seq<RiskView>)
    ensures
        none_about_holder_count(risk_warnings(risks)),
    decreases risks.len(),
{
    if risks.len() > 0 {
        lemma_risk_warnings_other(risks.drop_last());
        let risk = risks.last();
        reveal_strlit("WARN: risk '");
        reveal_strlit("HARD: total_holders ");
        lemma_differs(risk_warning(risk_label(risk)), 0);
        lemma_none_joined(risk_warnings(risks.drop_last()), risk_warning_of(risk));
    }
}

proof fn lemma_hard_failures_other(d: ScreenView)
    requires
        MIN_HOLDERS <= d.total_holders <= MAX_HOLDERS,
    ensures
        none_about_holder_count(hard_failures(d)),
{
    reveal_strlit("HARD: total_holders ");
    let a = score_failures(d);
    assert(none_about_holder_count(a)) by {
        if d.score_normalised is Some {
            reveal_strlit("HARD: score_normalised ");
            lemma_differs(score_reason(d.score_normalised->0), 6);
        }
    }
    let b = top_holder_failures(d);
    assert(none_about_holder_count(b)) by {
        if d.top_holder_pct is Some {
            reveal_strlit("HARD: top_holder_pct ");
            lemma_differs(top_holder_reason(d.top_holder_pct->0), 8);
        }
    }
    let c = holder_count_failures(d);
    assert(c =~= Seq::<Seq<char>>::empty());
    let e = insiders_failures(d);
    assert(none_about_holder_count(e)) by {
        if d.insiders_pct is Some {
            reveal_strlit("HARD: insiders_pct ");
            lemma_differs(insiders_reason(d.insiders_pct->0), 6);
        }
    }
    let f = bundler_failures(d);
    assert(none_about_holder_count(f)) by {
        reveal_strlit("HARD: bundler_pct ");
        if d.bundler_supply_pct is Some {
            lemma_differs(bundler_reason(d.bundler_supply_pct->0.one_decimal()), 6);
        } else if d.bundler_pct is Some {
            lemma_differs(bundler_reason(d.bundler_pct->0.percent_one_decimal()), 6);
        }
    }
    let g = bluechip_failures(d);
    assert(none_about_holder_count(g)) by {
        if d.bluechip_pct is Some {
            reveal_strlit("HARD: bluechip_pct ");
            lemma_differs(bluechip_reason(d.bluechip_pct->0), 6);
        }
    }
    let h = fresh_failures(d);
    assert(none_about_holder_count(h)) by {
        if d.fresh_ratio is Some {
            reveal_strlit("HARD: fresh_ratio ");
            lemma_differs(fresh_reason(d.fresh_ratio->0), 6);
        }
    }
    let k = bundled_failures(d);
    assert(none_about_holder_count(k)) by {
        if effective_bundled_ratio(d) is Some {
            reveal_strlit("HARD: bundled_ratio ");
            lemma_differs(bundled_reason(effective_bundled_ratio(d)->0), 6);
        }
    }
    let l = critical_risk_failures(d.risks);
    lemma_critical_risks_other(d.risks);
    let m = rugged_failures(d);
    assert(none_about_holder_count(m)) by {
        reveal_strlit("HARD: token marked as rugged");
        lemma_differs(rugged_reason(), 8);
    }
    let n = too_clean_failures(d);
    assert(none_about_holder_count(n)) by {
        reveal_strlit("HARD: top holders 'too clean' (no bundler/bluechip/whale/axiom)");
        lemma_differs(too_clean_reason(), 8);
    }
    lemma_none_joined(a, b);
    lemma_none_joined(a + b, c);
    lemma_none_joined(a + b + c, e);
    lemma_none_joined(a + b + c + e, f);
    lemma_none_joined(a + b + c + e + f, g);
    lemma_none_joined(a + b + c + e + f + g, h);
    lemma_none_joined(a + b + c + e + f + g + h, k);
    lemma_none_joined(a + b + c + e + f + g + h + k, l);
    lemma_none_joined(a + b + c + e + f + g + h + k + l, m);
    lemma_none_joined(a + b + c + e + f + g + h + k + l + m, n);
}

proof fn lemma_warnings_other(d: ScreenView)
    ensures
        none_about_holder_count(warnings(d)),
{
    reveal_strlit("HARD: total_holders ");
    let a = score_warnings(d);
    assert(none_about_holder_count(a)) by {
        if d.score_normalised is Some {
            reveal_strlit("WARN: score_normalised ");
            lemma_differs(elevated_score_warning(d.score_normalised->0), 0);
        }
    }
    let b = lp_providers_warnings(d);
    assert(none_about_holder_count(b)) by {
        reveal_strlit("WARN: total_lp_providers ");
        lemma_differs(lp_providers_warning(d.total_lp_providers), 0);
    }
    let c = risk_warnings(d.risks);
    lemma_risk_warnings_other(d.risks);
    let e = fresh_wallets_warnings(d);
    assert(none_about_holder_count(e)) by {
        if d.fresh_wallet_count is Some {
            reveal_strlit("WARN: fresh_wallet_count ");
            lemma_differs(fresh_wallets_warning(d.fresh_wallet_count->0), 0);
        }
    }
    let f = bundlers_warnings(d);
    assert(none_about_holder_count(f)) by {
        if d.bundler_count is Some {
            reveal_strlit("WARN: bundler_count ");
            lemma_differs(bundlers_warning(d.bundler_count->0), 0);
        }
    }
    lemma_none_joined(a, b);
    lemma_none_joined(a + b, c);
    lemma_none_joined(a + b + c, e);
    lemma_none_joined(a + b + c + e, f);
}

/// A holder count within the bounds gives no reason about the holder count:
/// that check adds nothing to the hard failures, and none of the reasons
/// that come with the result opens as its reasons do.
pub proof fn law_holder_count_within_bounds(d: ScreenView)
    requires
        MIN_HOLDERS <= d.total_holders <= MAX_HOLDERS,
    ensures
        holder_count_failures(d) == Seq::<Seq<char>>::empty(),
        none_about_holder_count(screen_reasons(d)),
{
    assert(holder_count_failures(d) =~= Seq::<Seq<char>>::empty());
    lemma_hard_failures_other(d);
    lemma_warnings_other(d);
    reveal_strlit("HARD: total_holders ");
    reveal_strlit("FAIL: ");
    let summary = warnings_failure(warnings(d).len());
    lemma_differs(summary, 0);
    lemma_none_joined(seq![summary], warnings(d));
}

/// A holder count outside the bounds fails the record, with a reason about
/// the holder count among the hard failures.
pub proof fn law_holder_count_out_of_bounds(d: ScreenView)
    requires
        d.total_holders < MIN_HOLDERS || d.total_holders > MAX_HOLDERS,
    ensures
        screen_result(d) == ScreenResult::Fail,
        holder_count_failures(d).len() == 1,
        is_holder_count_reason(holder_count_failures(d)[0]),
        exists|i: int|
            0 <= i < screen_reasons(d).len() && #[trigger] screen_reasons(d)[i]
                == holder_count_failures(d)[0],
{
    let reason = holder_count_failures(d)[0];
    let opening = "HARD: total_holders "@;
    assert(opening.is_prefix_of(reason)) by {
        if d.total_holders < MIN_HOLDERS {
            assert(reason == few_holders_reason(d.total_holders));
        } else {
            assert(reason == many_holders_reason(d.total_holders));
        }
        assert(reason.subrange(0, opening.len() as int) =~= opening);
    }
    let before = score_failures(d) + top_holder_failures(d);
    assert(hard_failures(d)[before.len() as int] == reason);
    assert(screen_reasons(d)[before.len() as int] == reason);
}

/// Every one of the reasons opens with `opening`.
pub open spec fn all_open_with(reasons: Seq<Seq<char>>, opening: Seq<char>) -> bool {
    forall|i: int| 0 <= i < reasons.len() ==> opening.is_prefix_of(#[trigger] reasons[i])
}

proof fn lemma_opens(opening: Seq<char>, head: Seq<char>, middle: Seq<char>, tail: Seq<char>)
    requires
        opening.is_prefix_of(head),
    ensures
        opening.is_prefix_of(head + middle + tail),
{
    let whole = head + middle + tail;
    assert(whole.subrange(0, opening.len() as int) =~= head.subrange(0, opening.len() as int));
}

proof fn lemma_all_joined(a: Seq<Seq<char>>, b: Seq<Seq<char>>, opening: Seq<char>)
    requires
        all_open_with(a, opening),
        all_open_with(b, opening),
    ensures
        all_open_with(a + b, opening),
{
    assert forall|i: int| 0 <= i < (a + b).len() implies opening.is_prefix_of(
        #[trigger] (a + b)[i],
    ) by {
        if i < a.len() {
            assert((a + b)[i] == a[i]);
        } else {
            assert((a + b)[i] == b[i - a.len()]);
        }
    }
}

proof fn lemma_critical_risks_marked(risks: Seq<RiskView>)
    ensures
        all_open_with(critical_risk_failures(risks), "HARD:"@),
    decreases risks.len(),
{
    if risks.len() > 0 {
        lemma_critical_risks_marked(risks.drop_last());
        reveal_strlit("HARD:");
        reveal_strlit("HARD: critical risk '");
        let head = "HARD: critical risk '"@;
        assert("HARD:"@ =~= head.subrange(0, 5));
        lemma_opens("HARD:"@, head, risk_label(risks.last()), "'"@);
        lemma_all_joined(
            critical_risk_failures(risks.drop_last()),
            critical_risk_failure(risks.last()),
            "HARD:"@,
        );
    }
}

proof fn lemma_risk_warnings_marked(risks: Seq<RiskView>)
    ensures
        all_open_with(risk_warnings(risks), "WARN:"@),
    decreases risks.len(),
{
    if risks.len() > 0 {
        lemma_risk_warnings_marked(risks.drop_last());
        reveal_strlit("WARN:");
        reveal_strlit("WARN: risk '");
        let head = "WARN: risk '"@;
        assert("WARN:"@ =~= head.subrange(0, 5));
        lemma_opens("WARN:"@, head, risk_label(risks.last()), "'"@);
        lemma_all_joined(
            risk_warnings(risks.drop_last()),
            risk_warning_of(risks.last()),
            "WARN:"@,
        );
    }
}

/// Every hard failure is marked as one: it opens with `HARD:`.
pub proof fn law_hard_failures_marked(d: ScreenView)
    ensures
        all_open_with(hard_failures(d), "HARD:"@),
{
    let mark = "HARD:"@;
    reveal_strlit("HARD:");
    let a = score_failures(d);
    assert(all_open_with(a, mark)) by {
        if d.score_normalised is Some {
            reveal_strlit("HARD: score_normalised ");
            let head = "HARD: score_normalised "@;
            assert(mark =~= head.subrange(0, 5));
            lemma_opens(
                mark,
                head,
                signed_decimal(d.score_normalised->0 as int),
                " > 20"@,
            );
        }
    }
    let b = top_holder_failures(d);
    assert(all_open_with(b, mark)) by {
        if d.top_holder_pct is Some {
            reveal_strlit("HARD: top_holder_pct ");
            let head = "HARD: top_holder_pct "@;
            assert(mark =~= head.subrange(0, 5));
            lemma_opens(mark, head, d.top_holder_pct->0.one_decimal(), "% > 10%"@);
        }
    }
    let c = holder_count_failures(d);
    assert(all_open_with(c, mark)) by {
        reveal_strlit("HARD: total_holders ");
        let head = "HARD: total_holders "@;
        assert(mark =~= head.subrange(0, 5));
        let count = decimal(d.total_holders as nat);
        lemma_opens(mark, head, count, " < 500 (too few for new coin)"@);
        lemma_opens(mark, head, count, " > 3000 (outside target range)"@);
    }
    let e = insiders_failures(d);
    assert(all_open_with(e, mark)) by {
        if d.insiders_pct is Some {
            reveal_strlit("HARD: insiders_pct ");
            let head = "HARD: insiders_pct "@;
            assert(mark =~= head.subrange(0, 5));
            lemma_opens(mark, head, d.insiders_pct->0.percent_one_decimal(), "% > 5%"@);
        }
    }
    let f = bundler_failures(d);
    assert(all_open_with(f, mark)) by {
        reveal_strlit("HARD: bundler_pct ");
        let head = "HARD: bundler_pct "@;
        assert(mark =~= head.subrange(0, 5));
        if d.bundler_supply_pct is Some {
            lemma_opens(mark, head, d.bundler_supply_pct->0.one_decimal(), "% > 30%"@);
        } else if d.bundler_pct is Some {
            lemma_opens(mark, head, d.bundler_pct->0.percent_one_decimal(), "% > 30%"@);
        }
    }
    let g = bluechip_failures(d);
    assert(all_open_with(g, mark)) by {
        if d.bluechip_pct is Some {
            reveal_strlit("HARD: bluechip_pct ");
            let head = "HARD: bluechip_pct "@;
            assert(mark =~= head.subrange(0, 5));
            lemma_opens(mark, head, d.bluechip_pct->0.percent_two_decimals(), "% < 0.5%"@);
        }
    }
    let h = fresh_failures(d);
    assert(all_open_with(h, mark)) by {
        if d.fresh_ratio is Some {
            reveal_strlit("HARD: fresh_ratio ");
            let head = "HARD: fresh_ratio "@;
            assert(mark =~= head.subrange(0, 5));
            lemma_opens(mark, head, d.fresh_ratio->0.two_decimals(), " > 0.4"@);
        }
    }
    let k = bundled_failures(d);
    assert(all_open_with(k, mark)) by {
        if effective_bundled_ratio(d) is Some {
            reveal_strlit("HARD: bundled_ratio ");
            let head = "HARD: bundled_ratio "@;
            assert(mark =~= head.subrange(0, 5));
            lemma_opens(mark, head, effective_bundled_ratio(d)->0.two_decimals(), " > 0.4"@);
        }
    }
    let l = critical_risk_failures(d.risks);
    lemma_critical_risks_marked(d.risks);
    let m = rugged_failures(d);
    assert(all_open_with(m, mark)) by {
        reveal_strlit("HARD: token marked as rugged");
        assert(mark =~= rugged_reason().subrange(0, 5));
    }
    let n = too_clean_failures(d);
    assert(all_open_with(n, mark)) by {
        reveal_strlit("HARD: top holders 'too clean' (no bundler/bluechip/whale/axiom)");
        assert(mark =~= too_clean_reason().subrange(0, 5));
    }
    lemma_all_joined(a, b, mark);
    lemma_all_joined(a + b, c, mark);
    lemma_all_joined(a + b + c, e, mark);
    lemma_all_joined(a + b + c + e, f, mark);
    lemma_all_joined(a + b + c + e + f, g, mark);
    lemma_all_joined(a + b + c + e + f + g, h, mark);
    lemma_all_joined(a + b + c + e + f + g + h, k, mark);
    lemma_all_joined(a + b + c + e + f + g + h + k, l, mark);
    lemma_all_joined(a + b + c + e + f + g + h + k + l, m, mark);
    lemma_all_joined(a + b + c + e + f + g + h + k + l + m, n, mark);
}

/// Every warning is marked as one: it opens with `WARN:`.
pub proof fn law_warnings_marked(d: ScreenView)
    ensures
        all_open_with(warnings(d), "WARN:"@),
{
    let mark = "WARN:"@;
    reveal_strlit("WARN:");
    let a = score_warnings(d);
    assert(all_open_with(a, mark)) by {
        if d.score_normalised is Some {
            reveal_strlit("WARN: score_normalised ");
            let head = "WARN: score_normalised "@;
            assert(mark =~= head.subrange(0, 5));
            lemma_opens(
                mark,
                head,
                signed_decimal(d.score_normalised->0 as int),
                " in 10-20 (elevated)"@,
            );
        }
    }
    let b = lp_providers_warnings(d);
    assert(all_open_with(b, mark)) by {
        reveal_strlit("WARN: total_lp_providers ");
        let head = "WARN: total_lp_providers "@;
        assert(mark =~= head.subrange(0, 5));
        lemma_opens(mark, head, decimal(d.total_lp_providers as nat), " < 5"@);
    }
    let c = risk_warnings(d.risks);
    lemma_risk_warnings_marked(d.risks);
    let e = fresh_wallets_warnings(d);
    assert(all_open_with(e, mark)) by {
        if d.fresh_wallet_count is Some {
            reveal_strlit("WARN: fresh_wallet_count ");
            let head = "WARN: fresh_wallet_count "@;
            assert(mark =~= head.subrange(0, 5));
            lemma_opens(
                mark,
                head,
                decimal(d.fresh_wallet_count->0 as nat),
                " < 100"@,
            );
        }
    }
    let f = bundlers_warnings(d);
    assert(all_open_with(f, mark)) by {
        if d.bundler_count is Some {
            reveal_strlit("WARN: bundler_count ");
            let head = "WARN: bundler_count "@;
            assert(mark =~= head.subrange(0, 5));
            lemma_opens(mark, head, decimal(d.bundler_count->0 as nat), " < 100"@);
        }
    }
    lemma_all_joined(a, b, mark);
    lemma_all_joined(a + b, c, mark);
    lemma_all_joined(a + b + c, e, mark);
    lemma_all_joined(a + b + c + e, f, mark);
}

/// The reasons of a record that passes are warnings, and fewer than the
/// threshold; those of a record that fails are its hard failures, or a
/// summary line ahead of its warnings.
pub proof fn law_reasons_by_result(d: ScreenView)
    ensures
        screen_result(d) == ScreenResult::Pass ==> all_open_with(screen_reasons(d), "WARN:"@)
            && screen_reasons(d).len() < 2,
        screen_result(d) == ScreenResult::Fail ==> all_open_with(screen_reasons(d), "HARD:"@) || (
        "FAIL:"@.is_prefix_of(screen_reasons(d)[0]) && all_open_with(
            screen_reasons(d).skip(1),
            "WARN:"@,
        )),
{
    law_hard_failures_marked(d);
    law_warnings_marked(d);
    if hard_failures(d).len() == 0 && warnings(d).len() >= 2 {
        reveal_strlit("FAIL:");
        reveal_strlit("FAIL: ");
        let head = "FAIL: "@;
        assert("FAIL:"@ =~= head.subrange(0, 5));
        lemma_opens(
            "FAIL:"@,
            head,
            decimal(warnings(d).len()),
            " warnings (threshold 2)"@,
        );
        assert(screen_reasons(d).skip(1) =~= warnings(d));
    }
}

proof fn lemma_pow2_ordered(i: nat, j: nat)
    requires
        i <= j,
    ensures
        0 < pow2(i) <= pow2(j),
{
    lemma_pow2_pos(i);
    if i < j {
        lemma_pow2_strictly_increases(i, j);
    }
}

/// Of two finite doubles without a sign, the one with the lower exponent
/// field has the smaller magnitude, rounded down or not.
proof fn lemma_lower_exponent_smaller(a: u64, b: u64)
    requires
        double_exponent(a) < double_exponent(b) < 0x7FF,
    ensures
        double_magnitude_raw(a) <= double_magnitude_raw(b),
{
    lemma2_to64();
    lemma_pow2_adds(32, 20);
    lemma_pow2_adds(32, 21);
    let sa = double_significand(a) as int;
    let sb = double_significand(b) as int;
    let ha = double_scale(a) + 64;
    let hb = double_scale(b) + 64;
    assert(0 <= sa < 0x20_0000_0000_0000);
    assert(0x10_0000_0000_0000 <= sb);
    if ha == hb {
        // A subnormal beside the lowest normal exponent: the same scale, and
        // only the second has the leading bit.
        assert(sa < sb);
        if hb >= 0 {
            let p = pow2(hb as nat) as int;
            assert(sa * p <= sb * p) by (nonlinear_arith)
                requires
                    sa <= sb,
                    p >= 0,
            ;
        } else {
            lemma_pow2_pos((-hb) as nat);
            lemma_div_is_ordered(sa, sb, pow2((-hb) as nat) as int);
        }
    } else if ha >= 0 {
        let pa = pow2(ha as nat) as int;
        let pb = pow2(hb as nat) as int;
        lemma_pow2_ordered((ha + 1) as nat, hb as nat);
        lemma_pow2_unfold((ha + 1) as nat);
        assert(sa * pa <= sb * pb) by (nonlinear_arith)
            requires
                0 <= sa < 0x20_0000_0000_0000,
                0x10_0000_0000_0000 <= sb,
                0 < pa,
                2 * pa <= pb,
        ;
    } else if hb >= 0 {
        let pa = pow2((-ha) as nat) as int;
        let pb = pow2(hb as nat) as int;
        lemma_pow2_ordered(1, (-ha) as nat);
        lemma_pow2_pos(hb as nat);
        lemma_div_is_ordered_by_denominator(sa, 2, pa);
        assert(sa / pa <= sa / 2);
        assert(sb * pb >= sb) by (nonlinear_arith)
            requires
                sb >= 0,
                pb >= 1,
        ;
    } else {
        let pa = pow2((-ha) as nat) as int;
        let pb = pow2((-hb) as nat) as int;
        lemma_pow2_ordered((-hb + 1) as nat, (-ha) as nat);
        lemma_pow2_unfold((-hb + 1) as nat);
        lemma_pow2_pos((-hb) as nat);
        assert(2 * pb <= pa);
        lemma_div_is_ordered_by_denominator(sa, 2 * pb, pa);
        lemma_div_denominator(sa, 2, pb);
        assert((sa / 2) / pb == sa / (2 * pb));
        lemma_div_is_ordered(sa / 2, sb, pb);
    }
}

/// Of two finite doubles without a sign and with the same exponent field,
/// the one with the lower bit pattern has the smaller magnitude.
proof fn lemma_same_exponent_ordered(a: u64, b: u64)
    requires
        !double_negative(a),
        !double_negative(b),
        a <= b,
        double_exponent(a) == double_exponent(b),
    ensures
        double_magnitude_raw(a) <= double_magnitude_raw(b),
{
    let sa = double_significand(a) as int;
    let sb = double_significand(b) as int;
    let h = double_scale(a) + 64;
    assert(sa <= sb);
    if h >= 0 {
        let p = pow2(h as nat) as int;
        assert(sa * p <= sb * p) by (nonlinear_arith)
            requires
                sa <= sb,
                p >= 0,
        ;
    } else {
        lemma_pow2_pos((-h) as nat);
        lemma_div_is_ordered(sa, sb, pow2((-h) as nat) as int);
    }
}

/// Reading doubles keeps their order: of two doubles without a sign, the one
/// with the lower bit pattern, which is the smaller double, is read as the
/// smaller value or as the same. So a value read from a document exceeds a
/// bound only if every greater double does.
pub proof fn law_reading_keeps_order(a: u64, b: u64)
    requires
        !double_negative(a),
        !double_negative(b),
        a <= b,
    ensures
        0 <= fixed_of_double(a).raw <= fixed_of_double(b).raw,
{
    if double_exponent(b) != 0x7FF {
        if double_exponent(a) == double_exponent(b) {
            lemma_same_exponent_ordered(a, b);
        } else {
            lemma_lower_exponent_smaller(a, b);
        }
    }
}

/// A double with the sign bit set is read as the negative of the double
/// without it.
pub proof fn law_reading_keeps_sign(bits: u64)
    requires
        !double_negative(bits),
    ensures
        fixed_of_double((bits + 0x8000_0000_0000_0000) as u64).raw == -fixed_of_double(bits).raw,
{
}

/// A double is read as more than ten exactly when it is more than ten: its
/// sign bit is clear, and its bit pattern lies beyond that of 10.0.
pub proof fn law_reading_above_ten(bits: u64)
    ensures
        fixed_of_double(bits).above_whole(10) <==> 0x4024_0000_0000_0000 < bits
            < 0x8000_0000_0000_0000,
{
    lemma2_to64();
    let ten: u64 = 0x4024_0000_0000_0000;
    assert(double_exponent(ten) == 1026);
    assert(double_significand(ten) == 0x14_0000_0000_0000);
    assert(double_magnitude_raw(ten) == 0x14_0000_0000_0000 * pow2(15));
    assert(fixed_of_double(ten).raw == 10 * 0x1_0000_0000_0000_0000);
    if double_negative(bits) {
        assert(fixed_of_double(bits).raw <= 0);
    } else if bits <= ten {
        law_reading_keeps_order(bits, ten);
    } else {
        let next: u64 = 0x4024_0000_0000_0001;
        assert(double_exponent(next) == 1026);
        assert(double_significand(next) == 0x14_0000_0000_0001);
        assert(double_magnitude_raw(next) == 0x14_0000_0000_0001 * pow2(15));
        assert(fixed_of_double(next).raw > 10 * 0x1_0000_0000_0000_0000);
        law_reading_keeps_order(next, bits);
    }
}

} // verus!
