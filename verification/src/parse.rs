//! From documents to the record: the primary report, the holder statistics
//! and the top-holder list.
//!
//! None of these fails. A member that is missing, or of another type than
//! expected, leaves its field absent.

use vstd::prelude::*;
use vstd::string::*;
use crate::json::{
    count_of, double_of, field_of, first_of, flag_of, int_of, json_of, list_of, text_of, tree_of,
    value_as_array, value_as_bool, value_as_double_bits, value_as_i64, value_as_str, value_as_u64,
    value_get, Json,
};
use crate::fixed::{fixed_of_double, Fixed};
use crate::ratio::Ratio;
use crate::record::{Risk, RiskView, ScreenView, TokenScreenData, TopHolder, TopHolderView};
use crate::text::{has_substring, lowercase_of, str_contains, str_to_lowercase};

verus! {

/// The number that a tree is, as a fixed-point value.
pub open spec fn fixed_of(tree: Option<Json>) -> Option<Fixed> {
    match double_of(tree) {
        Some(bits) => Some(fixed_of_double(bits)),
        None => None,
    }
}

/// The risk that a tree describes.
pub open spec fn risk_of(j: Json) -> RiskView {
    RiskView {
        name: text_of(j.field("name"@)),
        level: text_of(j.field("level"@)),
        description: text_of(j.field("description"@)),
        score: int_of(j.field("score"@)),
        value: text_of(j.field("value"@)),
    }
}

/// The risks that a tree lists; none where it is no array.
pub open spec fn risks_of(tree: Option<Json>) -> Seq<RiskView> {
    match list_of(tree) {
        Some(items) => items.map_values(|item: Json| risk_of(item)),
        None => Seq::empty(),
    }
}

/// A count that stands at `fallback` where the tree gives none.
pub open spec fn count_or(tree: Option<Json>, fallback: u64) -> u64 {
    match count_of(tree) {
        Some(n) => n,
        None => fallback,
    }
}

/// The decimals of a token where the report names none.
pub const DEFAULT_DECIMALS: u64 = 6;

/// Price times circulating supply, the circulating supply being the raw
/// supply over ten to the token's decimals. Known when price and supply are.
pub open spec fn market_cap_of(price: Option<Fixed>, supply: Option<u64>, decimals: u64) -> Option<
    Fixed,
> {
    match (price, supply) {
        (Some(p), Some(s)) => Some(p.scaled_product(s, decimals)),
        _ => None,
    }
}

/// The holders that a market capitalisation is shared among: at least one.
pub open spec fn holders_at_least_one(total: u64) -> u64 {
    if total > 1 {
        total
    } else {
        1
    }
}

/// Market capitalisation per holder.
pub open spec fn per_holder_of(market_cap: Option<Fixed>, total: u64) -> Option<Fixed> {
    match market_cap {
        Some(cap) => Some(cap.quotient(holders_at_least_one(total))),
        None => None,
    }
}

/// The record that a primary report gives for the token `mint`.
pub open spec fn report_of(mint: Seq<char>, j: Json) -> ScreenView {
    let total = count_or(j.field("totalHolders"@), 0);
    let price = fixed_of(j.field("price"@));
    let token = j.field("token"@);
    let market_cap = market_cap_of(
        price,
        count_of(field_of(token, "supply"@)),
        count_or(field_of(token, "decimals"@), DEFAULT_DECIMALS),
    );
    ScreenView {
        score: int_of(j.field("score"@)),
        score_normalised: int_of(j.field("score_normalised"@)),
        top_holder_pct: fixed_of(field_of(first_of(j.field("topHolders"@)), "pct"@)),
        total_holders: total,
        creator: text_of(j.field("creator"@)),
        creator_balance: count_of(j.field("creatorBalance"@)),
        risks: risks_of(j.field("risks"@)),
        lp_locked_pct: fixed_of(
            field_of(field_of(first_of(j.field("markets"@)), "lp"@), "lpLockedPct"@),
        ),
        total_lp_providers: count_or(j.field("totalLPProviders"@), 0),
        graph_insiders_detected: count_or(j.field("graphInsidersDetected"@), 0),
        rugged: flag_of(j.field("rugged"@)),
        price,
        market_cap,
        mc_per_holder: per_holder_of(market_cap, total),
        ..ScreenView::empty(mint)
    }
}

/// A status code of 0 with the message `success`; a missing code or message
/// is no success.
pub open spec fn is_success_status(code: Option<i64>, message: Option<Seq<char>>) -> bool {
    code == Some(0i64) && message == Some("success"@)
}

/// A document of the holder-statistics service reports success: its `code`
/// is the integer 0 and its `message` is the text `success`.
pub open spec fn is_success(j: Json) -> bool {
    is_success_status(int_of(j.field("code"@)), text_of(j.field("message"@)))
}

/// The seven counts of a holder-statistics block.
#[derive(Clone, Copy, Debug, PartialEq, Eq, Structural)]
pub struct HolderCounts {
    pub fresh_wallet_count: Option<u64>,
    pub insider_count: Option<u64>,
    pub bluechip_owner_count: Option<u64>,
    pub bundler_count: Option<u64>,
    pub dex_bot_count: Option<u64>,
    pub sniper_count: Option<u64>,
    pub dev_count: Option<u64>,
}

/// The counts that a statistics block holds: each where it is a non-negative
/// integer.
pub open spec fn counts_of(stat: Json) -> HolderCounts {
    HolderCounts {
        fresh_wallet_count: count_of(stat.field("fresh_wallet_count"@)),
        insider_count: count_of(stat.field("insider_count"@)),
        bluechip_owner_count: count_of(stat.field("bluechip_owner_count"@)),
        bundler_count: count_of(stat.field("bundler_count"@)),
        dex_bot_count: count_of(stat.field("dex_bot_count"@)),
        sniper_count: count_of(stat.field("sniper_count"@)),
        dev_count: count_of(stat.field("dev_count"@)),
    }
}

/// The share of the holders that a count makes up.
pub open spec fn share_of(count: Option<u64>, total: u64) -> Option<Ratio> {
    match count {
        Some(c) => Some(Ratio { num: c, den: total }),
        None => None,
    }
}

/// The share of the holders that a count makes up, held to at most all of
/// them: a count of the statistics may exceed the holder count.
pub open spec fn capped_share_of(count: Option<u64>, total: u64) -> Option<Ratio> {
    match count {
        Some(c) => Some(Ratio::capped(c, total)),
        None => None,
    }
}

/// The record with seven new counts in place of its own.
pub open spec fn with_counts(d: ScreenView, counts: HolderCounts) -> ScreenView {
    ScreenView {
        fresh_wallet_count: counts.fresh_wallet_count,
        insider_count: counts.insider_count,
        bluechip_owner_count: counts.bluechip_owner_count,
        bundler_count: counts.bundler_count,
        dex_bot_count: counts.dex_bot_count,
        sniper_count: counts.sniper_count,
        dev_count: counts.dev_count,
        ..d
    }
}

/// The record with its five shares set from its counts and its holder count.
pub open spec fn with_shares(d: ScreenView) -> ScreenView {
    ScreenView {
        insiders_pct: share_of(d.insider_count, d.total_holders),
        bluechip_pct: share_of(d.bluechip_owner_count, d.total_holders),
        bundler_pct: capped_share_of(d.bundler_count, d.total_holders),
        fresh_ratio: share_of(d.fresh_wallet_count, d.total_holders),
        bundled_ratio: capped_share_of(d.bundler_count, d.total_holders),
        ..d
    }
}

/// The record after it takes on the counts of the holder statistics: the
/// counts replace its own, and the shares follow from them if the record
/// counts any holders. Without holders the shares stay as they were.
pub open spec fn with_holder_counts(d: ScreenView, counts: HolderCounts) -> ScreenView {
    if d.total_holders > 0 {
        with_shares(with_counts(d, counts))
    } else {
        with_counts(d, counts)
    }
}

/// The record after a holder-statistics document is merged in. Without a
/// `data` member nothing changes.
pub open spec fn with_holder_stat(d: ScreenView, j: Json) -> ScreenView {
    match j.field("data"@) {
        None => d,
        Some(stat) => with_holder_counts(d, counts_of(stat)),
    }
}

/// What one item adds to a list of tags: its text, if it is a string.
pub open spec fn tag_of(item: Json) -> Seq<Seq<char>> {
    match item.as_text() {
        Some(t) => seq![t],
        None => Seq::empty(),
    }
}

/// The strings among the items, in their order.
pub open spec fn texts_in(items: Seq<Json>) -> Seq<Seq<char>>
    decreases items.len(),
{
    if items.len() == 0 {
        Seq::empty()
    } else {
        texts_in(items.drop_last()) + tag_of(items.last())
    }
}

/// The tags that a tree lists; none where it is no array.
pub open spec fn tags_of(tree: Option<Json>) -> Seq<Seq<char>> {
    match list_of(tree) {
        Some(items) => texts_in(items),
        None => Seq::empty(),
    }
}

/// The share of supply of a holder: the fraction that the source gives, times
/// a hundred; zero where it gives none.
pub open spec fn holder_pct_of(tree: Option<Json>) -> Fixed {
    match fixed_of(tree) {
        Some(fraction) => fraction.hundredfold(),
        None => Fixed { raw: 0 },
    }
}

/// The top holder that a tree describes.
pub open spec fn holder_of(j: Json) -> TopHolderView {
    TopHolderView {
        address: match text_of(j.field("address"@)) {
            Some(a) => a,
            None => Seq::empty(),
        },
        pct: holder_pct_of(j.field("amount_percentage"@)),
        insider: match flag_of(j.field("insider"@)) {
            Some(b) => b,
            None => false,
        },
        maker_token_tags: tags_of(j.field("maker_token_tags"@)),
        tags: tags_of(j.field("tags"@)),
    }
}

/// The tag names a bundler: in lower case it contains `bundler`.
pub open spec fn is_bundler_tag(tag: Seq<char>) -> bool {
    has_substring(lowercase_of(tag), "bundler"@)
}

/// One of the tags names a bundler.
pub open spec fn any_bundler_tag(tags: Seq<Seq<char>>) -> bool {
    exists|i: int| 0 <= i < tags.len() && is_bundler_tag(#[trigger] tags[i])
}

/// The holder is tagged as a bundler in either of its tag lists.
pub open spec fn is_bundler(holder: TopHolderView) -> bool {
    any_bundler_tag(holder.maker_token_tags) || any_bundler_tag(holder.tags)
}

/// The share of supply held by the bundlers among the holders: their shares
/// added up in the order of the list.
pub open spec fn bundler_supply(holders: Seq<TopHolderView>) -> Fixed
    decreases holders.len(),
{
    if holders.len() == 0 {
        Fixed { raw: 0 }
    } else if is_bundler(holders.last()) {
        bundler_supply(holders.drop_last()).sum(holders.last().pct)
    } else {
        bundler_supply(holders.drop_last())
    }
}

/// How many of the holders are bundlers.
pub open spec fn bundler_holders(holders: Seq<TopHolderView>) -> nat
    decreases holders.len(),
{
    if holders.len() == 0 {
        0
    } else if is_bundler(holders.last()) {
        bundler_holders(holders.drop_last()) + 1
    } else {
        bundler_holders(holders.drop_last())
    }
}

/// The record with a list of top holders and the two bundler measures that
/// follow from it. An empty list leaves both measures absent: nothing was
/// measured.
pub open spec fn with_holders(d: ScreenView, holders: Seq<TopHolderView>) -> ScreenView {
    ScreenView {
        top_holders: holders,
        bundler_supply_pct: if holders.len() > 0 {
            Some(bundler_supply(holders))
        } else {
            None
        },
        bundler_holder_ratio: if holders.len() > 0 {
            Some(Ratio { num: bundler_holders(holders) as u64, den: holders.len() as u64 })
        } else {
            None
        },
        ..d
    }
}

/// The record after a top-holders document is merged in. Without an array at
/// `data.list` nothing changes.
pub open spec fn with_top_holders(d: ScreenView, j: Json) -> ScreenView {
    match list_of(field_of(j.field("data"@), "list"@)) {
        None => d,
        Some(items) => with_holders(d, items.map_values(|item: Json| holder_of(item))),
    }
}

/// The record of a token from its primary report and whichever of the two
/// other documents arrived. A document that does not report success counts
/// as one that did not arrive.
pub open spec fn assembled(
    mint: Seq<char>,
    report: Json,
    holder_stat: Option<Json>,
    token_holders: Option<Json>,
) -> ScreenView {
    let from_report = report_of(mint, report);
    let with_stat = match holder_stat {
        Some(j) => if is_success(j) {
            with_holder_stat(from_report, j)
        } else {
            from_report
        },
        None => from_report,
    };
    match token_holders {
        Some(j) => if is_success(j) {
            with_top_holders(with_stat, j)
        } else {
            with_stat
        },
        None => with_stat,
    }
}

fn member<'a>(value: Option<&'a serde_json::Value>, key: &str) -> (r: Option<
    &'a serde_json::Value,
>)
    ensures
        tree_of(r) == field_of(tree_of(value), key@),
{
    match value {
        Some(v) => value_get(v, key),
        None => None,
    }
}

fn first<'a>(value: Option<&'a serde_json::Value>) -> (r: Option<&'a serde_json::Value>)
    ensures
        tree_of(r) == first_of(tree_of(value)),
{
    match value {
        Some(v) => match value_as_array(v) {
            Some(items) => if items.len() > 0 {
                Some(&items[0])
            } else {
                None
            },
            None => None,
        },
        None => None,
    }
}

fn as_int(value: Option<&serde_json::Value>) -> (r: Option<i64>)
    ensures
        r == int_of(tree_of(value)),
{
    match value {
        Some(v) => value_as_i64(v),
        None => None,
    }
}

fn as_count(value: Option<&serde_json::Value>) -> (r: Option<u64>)
    ensures
        r == count_of(tree_of(value)),
{
    match value {
        Some(v) => value_as_u64(v),
        None => None,
    }
}

fn as_count_or(value: Option<&serde_json::Value>, fallback: u64) -> (r: u64)
    ensures
        r == count_or(tree_of(value), fallback),
{
    match as_count(value) {
        Some(n) => n,
        None => fallback,
    }
}

fn as_flag(value: Option<&serde_json::Value>) -> (r: Option<bool>)
    ensures
        r == flag_of(tree_of(value)),
{
    match value {
        Some(v) => value_as_bool(v),
        None => None,
    }
}

fn as_fixed(value: Option<&serde_json::Value>) -> (r: Option<Fixed>)
    ensures
        r == fixed_of(tree_of(value)),
{
    match value {
        Some(v) => match value_as_double_bits(v) {
            Some(bits) => Some(Fixed::from_double_bits(bits)),
            None => None,
        },
        None => None,
    }
}

fn as_text(value: Option<&serde_json::Value>) -> (r: Option<String>)
    ensures
        r.deep_view() == text_of(tree_of(value)),
{
    match value {
        Some(v) => match value_as_str(v) {
            Some(s) => Some(s.to_owned()),
            None => None,
        },
        None => None,
    }
}

/// Reads one risk. Each of its five members is taken where it has the
/// expected type, and left absent otherwise.
pub fn parse_risk(v: &serde_json::Value) -> (r: Risk)
    ensures
        r@ == risk_of(json_of(*v)),
{
    Risk {
        name: as_text(value_get(v, "name")),
        level: as_text(value_get(v, "level")),
        description: as_text(value_get(v, "description")),
        score: as_int(value_get(v, "score")),
        value: as_text(value_get(v, "value")),
    }
}

fn parse_risks(value: Option<&serde_json::Value>) -> (risks: Vec<Risk>)
    ensures
        risks.deep_view() == risks_of(tree_of(value)),
{
    let mut risks: Vec<Risk> = Vec::new();
    if let Some(v) = value {
        if let Some(items) = value_as_array(v) {
            let mut i: usize = 0;
            while i < items.len()
                invariant
                    i <= items.len(),
                    risks.len() == i,
                    forall|k: int|
                        0 <= k < i ==> #[trigger] risks.deep_view()[k] == risk_of(
                            json_of(items@[k]),
                        ),
                decreases items.len() - i,
            {
                let risk = parse_risk(&items[i]);
                let ghost before = risks.deep_view();
                risks.push(risk);
                assert forall|k: int| 0 <= k < i + 1 implies #[trigger] risks.deep_view()[k]
                    == risk_of(json_of(items@[k])) by {
                    if k < i {
                        assert(risks.deep_view()[k] == before[k]);
                    }
                }
                i = i + 1;
            }
            return risks;
        }
    }
    risks
}

/// Price times circulating supply, where both are known.
pub fn market_cap(price: Option<Fixed>, supply: Option<u64>, decimals: u64) -> (r: Option<Fixed>)
    ensures
        r == market_cap_of(price, supply, decimals),
{
    match price {
        Some(p) => match supply {
            Some(s) => Some(p.scaled_by(s, decimals)),
            None => None,
        },
        None => None,
    }
}

/// Market capitalisation per holder, counting at least one holder.
pub fn per_holder(cap: Option<Fixed>, total: u64) -> (r: Option<Fixed>)
    ensures
        r == per_holder_of(cap, total),
{
    match cap {
        Some(c) => Some(
            c.divided_by(
                if total > 1 {
                    total
                } else {
                    1
                },
            ),
        ),
        None => None,
    }
}

/// Reads the primary report of the token `mint` into a fresh record.
///
/// Every field of the report is taken where its path leads to a value of the
/// expected type and left absent otherwise; the three counts without an
/// absent form stand at zero. The fields of the other two documents are
/// absent.
pub fn parse_rugcheck(mint: &str, json: &serde_json::Value) -> (data: TokenScreenData)
    ensures
        data@ == report_of(mint@, json_of(*json)),
{
    let total_holders: u64 = as_count_or(value_get(json, "totalHolders"), 0);
    let price = as_fixed(value_get(json, "price"));
    let token = value_get(json, "token");
    let cap = market_cap(
        price,
        as_count(member(token, "supply")),
        as_count_or(member(token, "decimals"), DEFAULT_DECIMALS),
    );
    let mut data = TokenScreenData::new(mint);
    data.score = as_int(value_get(json, "score"));
    data.score_normalised = as_int(value_get(json, "score_normalised"));
    data.top_holder_pct = as_fixed(member(first(value_get(json, "topHolders")), "pct"));
    data.total_holders = total_holders;
    data.creator = as_text(value_get(json, "creator"));
    data.creator_balance = as_count(value_get(json, "creatorBalance"));
    data.risks = parse_risks(value_get(json, "risks"));
    data.lp_locked_pct = as_fixed(
        member(member(first(value_get(json, "markets")), "lp"), "lpLockedPct"),
    );
    data.total_lp_providers = as_count_or(value_get(json, "totalLPProviders"), 0);
    data.graph_insiders_detected = as_count_or(value_get(json, "graphInsidersDetected"), 0);
    data.rugged = as_flag(value_get(json, "rugged"));
    data.price = price;
    data.market_cap = cap;
    data.mc_per_holder = per_holder(cap, total_holders);
    data
}

/// Whether a status code and a message report success.
pub fn status_is_success(code: Option<i64>, message: &Option<String>) -> (ok: bool)
    ensures
        ok == is_success_status(code, message.deep_view()),
{
    match (code, message) {
        (Some(c), Some(m)) => c == 0 && *m == String::from_str("success"),
        _ => false,
    }
}

/// Whether a document of the holder-statistics service reports success. One
/// that does not is to be passed over as if it had not arrived.
pub fn gmgn_ok(response: &serde_json::Value) -> (ok: bool)
    ensures
        ok == is_success(json_of(*response)),
{
    let code = as_int(value_get(response, "code"));
    let message = as_text(value_get(response, "message"));
    status_is_success(code, &message)
}

fn share(count: Option<u64>, total: u64) -> (r: Option<Ratio>)
    ensures
        r == share_of(count, total),
{
    match count {
        Some(c) => Some(Ratio { num: c, den: total }),
        None => None,
    }
}

fn capped_share(count: Option<u64>, total: u64) -> (r: Option<Ratio>)
    ensures
        r == capped_share_of(count, total),
{
    match count {
        Some(c) => Some(Ratio::new_capped(c, total)),
        None => None,
    }
}

/// Reads the seven counts of a statistics block.
pub fn parse_holder_counts(stat: &serde_json::Value) -> (counts: HolderCounts)
    ensures
        counts == counts_of(json_of(*stat)),
{
    HolderCounts {
        fresh_wallet_count: as_count(value_get(stat, "fresh_wallet_count")),
        insider_count: as_count(value_get(stat, "insider_count")),
        bluechip_owner_count: as_count(value_get(stat, "bluechip_owner_count")),
        bundler_count: as_count(value_get(stat, "bundler_count")),
        dex_bot_count: as_count(value_get(stat, "dex_bot_count")),
        sniper_count: as_count(value_get(stat, "sniper_count")),
        dev_count: as_count(value_get(stat, "dev_count")),
    }
}

/// Puts the counts of the holder statistics into the record, with the shares
/// that follow from them.
///
/// The seven counts replace those of the record. The five shares are then
/// set from them, each over the holder count, provided the record counts any
/// holders; with none they stay as they were.
pub fn set_holder_counts(data: &mut TokenScreenData, counts: HolderCounts)
    ensures
        final(data)@ == with_holder_counts(old(data)@, counts),
{
    data.fresh_wallet_count = counts.fresh_wallet_count;
    data.insider_count = counts.insider_count;
    data.bluechip_owner_count = counts.bluechip_owner_count;
    data.bundler_count = counts.bundler_count;
    data.dex_bot_count = counts.dex_bot_count;
    data.sniper_count = counts.sniper_count;
    data.dev_count = counts.dev_count;
    let total: u64 = data.total_holders;
    if total > 0 {
        data.insiders_pct = share(counts.insider_count, total);
        data.bluechip_pct = share(counts.bluechip_owner_count, total);
        data.bundler_pct = capped_share(counts.bundler_count, total);
        data.fresh_ratio = share(counts.fresh_wallet_count, total);
        data.bundled_ratio = capped_share(counts.bundler_count, total);
    }
}

/// Merges a holder-statistics document into the record: the counts of its
/// `data` member, and the shares that follow from them. A document without a
/// `data` member changes nothing.
///
/// Whether the document reports success is not asked here: that is for the
/// caller to find out with [`gmgn_ok`], as [`assemble`] does.
pub fn merge_gmgn_holder_stat(data: &mut TokenScreenData, json: &serde_json::Value)
    ensures
        final(data)@ == with_holder_stat(old(data)@, json_of(*json)),
{
    match value_get(json, "data") {
        Some(stat) => {
            let counts = parse_holder_counts(stat);
            set_holder_counts(data, counts);
        },
        None => {},
    }
}

fn parse_tags(value: Option<&serde_json::Value>) -> (tags: Vec<String>)
    ensures
        tags.deep_view() == tags_of(tree_of(value)),
{
    let mut tags: Vec<String> = Vec::new();
    if let Some(v) = value {
        if let Some(items) = value_as_array(v) {
            let ghost trees = items@.map_values(|item: serde_json::Value| json_of(item));
            let mut i: usize = 0;
            while i < items.len()
                invariant
                    i <= items.len(),
                    trees == items@.map_values(|item: serde_json::Value| json_of(item)),
                    tags.deep_view() == texts_in(trees.take(i as int)),
                decreases items.len() - i,
            {
                let ghost before = tags.deep_view();
                proof {
                    assert(trees.take(i + 1).drop_last() =~= trees.take(i as int));
                }
                if let Some(text) = value_as_str(&items[i]) {
                    tags.push(text.to_owned());
                    assert(tags.deep_view() =~= before + seq![text@]);
                }
                i = i + 1;
            }
            assert(trees.take(i as int) =~= trees);
            return tags;
        }
    }
    tags
}

fn parse_holder(v: &serde_json::Value) -> (holder: TopHolder)
    ensures
        holder@ == holder_of(json_of(*v)),
{
    let address = match as_text(value_get(v, "address")) {
        Some(a) => a,
        None => String::new(),
    };
    let pct = match as_fixed(value_get(v, "amount_percentage")) {
        Some(fraction) => fraction.times_hundred(),
        None => Fixed::zero(),
    };
    let insider = match as_flag(value_get(v, "insider")) {
        Some(b) => b,
        None => false,
    };
    TopHolder {
        address,
        pct,
        insider,
        maker_token_tags: parse_tags(value_get(v, "maker_token_tags")),
        tags: parse_tags(value_get(v, "tags")),
    }
}

/// Whether a text, already in lower case, mentions a bundler.
pub fn lowered_names_bundler(lowered: &str) -> (r: bool)
    ensures
        r == has_substring(lowered@, "bundler"@),
{
    str_contains(lowered, "bundler")
}

/// Whether a tag names a bundler, in whatever case it is written.
pub fn tag_names_bundler(tag: &str) -> (r: bool)
    ensures
        r == is_bundler_tag(tag@),
{
    let lowered = str_to_lowercase(tag);
    lowered_names_bundler(lowered.as_str())
}

fn tags_name_bundler(tags: &Vec<String>) -> (r: bool)
    ensures
        r == any_bundler_tag(tags.deep_view()),
{
    let mut i: usize = 0;
    while i < tags.len()
        invariant
            i <= tags.len(),
            forall|k: int| 0 <= k < i ==> !is_bundler_tag(#[trigger] tags.deep_view()[k]),
        decreases tags.len() - i,
    {
        if tag_names_bundler(tags[i].as_str()) {
            assert(is_bundler_tag(tags.deep_view()[i as int]));
            return true;
        }
        i = i + 1;
    }
    false
}

/// Whether a top holder is tagged as a bundler.
pub fn holder_is_bundler(holder: &TopHolder) -> (r: bool)
    ensures
        r == is_bundler(holder@),
{
    tags_name_bundler(&holder.maker_token_tags) || tags_name_bundler(&holder.tags)
}

/// There are no more bundlers among the holders than holders.
pub proof fn lemma_bundlers_bounded(holders: Seq<TopHolderView>)
    ensures
        bundler_holders(holders) <= holders.len(),
    decreases holders.len(),
{
    if holders.len() > 0 {
        lemma_bundlers_bounded(holders.drop_last());
    }
}

/// Puts a list of top holders into the record, with the two bundler measures
/// that follow from it.
pub fn set_top_holders(data: &mut TokenScreenData, holders: Vec<TopHolder>)
    ensures
        final(data)@ == with_holders(old(data)@, holders.deep_view()),
{
    let ghost views = holders.deep_view();
    let mut supply = Fixed::zero();
    let mut bundlers: usize = 0;
    let mut i: usize = 0;
    while i < holders.len()
        invariant
            i <= holders.len(),
            views == holders.deep_view(),
            bundlers <= i,
            bundlers == bundler_holders(views.take(i as int)),
            supply == bundler_supply(views.take(i as int)),
        decreases holders.len() - i,
    {
        proof {
            assert(views.take(i + 1).drop_last() =~= views.take(i as int));
        }
        if holder_is_bundler(&holders[i]) {
            supply = supply.plus(&holders[i].pct);
            bundlers = bundlers + 1;
        }
        i = i + 1;
    }
    assert(views.take(i as int) =~= views);
    let n: usize = holders.len();
    data.top_holders = holders;
    if n > 0 {
        data.bundler_supply_pct = Some(supply);
        data.bundler_holder_ratio = Some(Ratio { num: bundlers as u64, den: n as u64 });
    } else {
        data.bundler_supply_pct = None;
        data.bundler_holder_ratio = None;
    }
}

/// Merges a top-holders document into the record.
///
/// The holders listed at `data.list` replace those of the record, each share
/// of supply taken times a hundred, and the two bundler measures are set from
/// the new list. A document without an array there changes nothing.
///
/// Whether the document reports success is not asked here: that is for the
/// caller to find out with [`gmgn_ok`], as [`assemble`] does.
pub fn merge_gmgn_token_holders(data: &mut TokenScreenData, json: &serde_json::Value)
    ensures
        final(data)@ == with_top_holders(old(data)@, json_of(*json)),
{
    let items = match first_list(member(value_get(json, "data"), "list")) {
        Some(items) => items,
        None => {
            return;
        },
    };
    let mut holders: Vec<TopHolder> = Vec::new();
    let mut i: usize = 0;
    while i < items.len()
        invariant
            i <= items.len(),
            holders.len() == i,
            forall|k: int|
                0 <= k < i ==> #[trigger] holders.deep_view()[k] == holder_of(json_of(items@[k])),
        decreases items.len() - i,
    {
        let holder = parse_holder(&items[i]);
        let ghost before = holders.deep_view();
        holders.push(holder);
        assert forall|k: int| 0 <= k < i + 1 implies #[trigger] holders.deep_view()[k]
            == holder_of(json_of(items@[k])) by {
            if k < i {
                assert(holders.deep_view()[k] == before[k]);
            }
        }
        i = i + 1;
    }
    assert(holders.deep_view() =~= items@.map_values(
        |item: serde_json::Value| json_of(item),
    ).map_values(|item: Json| holder_of(item)));
    set_top_holders(data, holders);
}

fn first_list<'a>(value: Option<&'a serde_json::Value>) -> (r: Option<&'a Vec<serde_json::Value>>)
    ensures
        match r {
            Some(items) => list_of(tree_of(value)) == Some(
                items@.map_values(|item: serde_json::Value| json_of(item)),
            ),
            None => list_of(tree_of(value)) is None,
        },
{
    match value {
        Some(v) => value_as_array(v),
        None => None,
    }
}

/// Builds the record of the token `mint` from its primary report and
/// whichever of the two other documents arrived.
///
/// A document that did not arrive, or that does not report success, is
/// passed over: the fields that it would have filled stay absent. The
/// documents are merged in a fixed order, the holder statistics before the
/// top-holder list.
pub fn assemble(
    mint: &str,
    report: &serde_json::Value,
    holder_stat: Option<&serde_json::Value>,
    token_holders: Option<&serde_json::Value>,
) -> (data: TokenScreenData)
    ensures
        data@ == assembled(mint@, json_of(*report), tree_of(holder_stat), tree_of(token_holders)),
{
    let mut data = parse_rugcheck(mint, report);
    if let Some(stat) = holder_stat {
        if gmgn_ok(stat) {
            merge_gmgn_holder_stat(&mut data, stat);
        }
    }
    if let Some(holders) = token_holders {
        if gmgn_ok(holders) {
            merge_gmgn_token_holders(&mut data, holders);
        }
    }
    data
}

} // verus!
