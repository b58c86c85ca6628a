//! The screening record and the facts it is built from.

use vstd::prelude::*;
use crate::fixed::Fixed;
use crate::ratio::Ratio;

verus! {

/// One flagged concern of the primary report. Risks have no identity beyond
/// their name; equal names may repeat.
#[derive(Debug, Clone)]
pub struct Risk {
    pub name: Option<String>,
    pub level: Option<String>,
    pub description: Option<String>,
    pub score: Option<i64>,
    pub value: Option<String>,
}

/// A [`Risk`] as plain values.
pub struct RiskView {
    pub name: Option<Seq<char>>,
    pub level: Option<Seq<char>>,
    pub description: Option<Seq<char>>,
    pub score: Option<i64>,
    pub value: Option<Seq<char>>,
}

impl DeepView for Risk {
    type V = RiskView;

    open spec fn deep_view(&self) -> RiskView {
        RiskView {
            name: self.name.deep_view(),
            level: self.level.deep_view(),
            description: self.description.deep_view(),
            score: self.score,
            value: self.value.deep_view(),
        }
    }
}

impl View for Risk {
    type V = RiskView;

    open spec fn view(&self) -> RiskView {
        self.deep_view()
    }
}

impl Default for Risk {
    fn default() -> (r: Risk)
        ensures
            r@ == (RiskView { name: None, level: None, description: None, score: None, value: None }),
    {
        Risk { name: None, level: None, description: None, score: None, value: None }
    }
}

/// One wallet among the ranked largest holders.
#[derive(Debug, Clone)]
pub struct TopHolder {
    /// Empty where the source gives no address.
    pub address: String,
    /// Share of the total supply, on a scale of 0 to 100.
    pub pct: Fixed,
    pub insider: bool,
    /// Free-text labels, no fixed vocabulary.
    pub maker_token_tags: Vec<String>,
    /// Free-text labels, no fixed vocabulary.
    pub tags: Vec<String>,
}

/// A [`TopHolder`] as plain values.
pub struct TopHolderView {
    pub address: Seq<char>,
    pub pct: Fixed,
    pub insider: bool,
    pub maker_token_tags: Seq<Seq<char>>,
    pub tags: Seq<Seq<char>>,
}

impl TopHolderView {
    /// Both tag lists, the maker-token tags first.
    pub open spec fn all_tags(self) -> Seq<Seq<char>> {
        self.maker_token_tags + self.tags
    }
}

impl DeepView for TopHolder {
    type V = TopHolderView;

    open spec fn deep_view(&self) -> TopHolderView {
        TopHolderView {
            address: self.address@,
            pct: self.pct,
            insider: self.insider,
            maker_token_tags: self.maker_token_tags.deep_view(),
            tags: self.tags.deep_view(),
        }
    }
}

impl View for TopHolder {
    type V = TopHolderView;

    open spec fn view(&self) -> TopHolderView {
        self.deep_view()
    }
}

impl Default for TopHolder {
    fn default() -> (r: TopHolder)
        ensures
            r@ == (TopHolderView {
                address: Seq::empty(),
                pct: Fixed { raw: 0 },
                insider: false,
                maker_token_tags: Seq::empty(),
                tags: Seq::empty(),
            }),
    {
        let r = TopHolder {
            address: String::new(),
            pct: Fixed::zero(),
            insider: false,
            maker_token_tags: Vec::new(),
            tags: Vec::new(),
        };
        assert(r.tags.deep_view() =~= Seq::<Seq<char>>::empty());
        r
    }
}

/// Everything known about one token, gathered for a single evaluation.
///
/// A record starts with the fields of the primary report and takes on the
/// holder statistics and the top-holder list as those arrive. A field whose
/// source is missing stays `None`.
#[derive(Debug, Clone)]
pub struct TokenScreenData {
    pub mint: String,
    // From the primary report.
    pub score: Option<i64>,
    pub score_normalised: Option<i64>,
    /// Share of supply of the largest holder, on a scale of 0 to 100.
    pub top_holder_pct: Option<Fixed>,
    pub total_holders: u64,
    pub creator: Option<String>,
    pub creator_balance: Option<u64>,
    pub risks: Vec<Risk>,
    pub lp_locked_pct: Option<Fixed>,
    pub total_lp_providers: u64,
    pub graph_insiders_detected: u64,
    pub rugged: Option<bool>,
    pub price: Option<Fixed>,
    /// Price times circulating supply.
    pub market_cap: Option<Fixed>,
    /// Market capitalisation per holder, counting at least one holder.
    pub mc_per_holder: Option<Fixed>,
    // Raw counts of the holder statistics.
    pub fresh_wallet_count: Option<u64>,
    pub insider_count: Option<u64>,
    pub bluechip_owner_count: Option<u64>,
    pub bundler_count: Option<u64>,
    pub dex_bot_count: Option<u64>,
    pub sniper_count: Option<u64>,
    pub dev_count: Option<u64>,
    // Shares of the holders, each a count over the total holder count. The
    // fields named `_pct` are read as percentages: a hundred times the quotient.
    pub insiders_pct: Option<Ratio>,
    pub bluechip_pct: Option<Ratio>,
    /// Held to at most 100%.
    pub bundler_pct: Option<Ratio>,
    pub fresh_ratio: Option<Ratio>,
    /// Held to at most one.
    pub bundled_ratio: Option<Ratio>,
    // From the ranked top-holder list.
    /// Share of supply held by top holders tagged as bundlers, 0 to 100.
    pub bundler_supply_pct: Option<Fixed>,
    /// Bundlers among the top holders, over the length of the list.
    pub bundler_holder_ratio: Option<Ratio>,
    pub top_holders: Vec<TopHolder>,
}

/// A [`TokenScreenData`] as plain values.
pub struct ScreenView {
    pub mint: Seq<char>,
    pub score: Option<i64>,
    pub score_normalised: Option<i64>,
    pub top_holder_pct: Option<Fixed>,
    pub total_holders: u64,
    pub creator: Option<Seq<char>>,
    pub creator_balance: Option<u64>,
    pub risks: Seq<RiskView>,
    pub lp_locked_pct: Option<Fixed>,
    pub total_lp_providers: u64,
    pub graph_insiders_detected: u64,
    pub rugged: Option<bool>,
    pub price: Option<Fixed>,
    pub market_cap: Option<Fixed>,
    pub mc_per_holder: Option<Fixed>,
    pub fresh_wallet_count: Option<u64>,
    pub insider_count: Option<u64>,
    pub bluechip_owner_count: Option<u64>,
    pub bundler_count: Option<u64>,
    pub dex_bot_count: Option<u64>,
    pub sniper_count: Option<u64>,
    pub dev_count: Option<u64>,
    pub insiders_pct: Option<Ratio>,
    pub bluechip_pct: Option<Ratio>,
    pub bundler_pct: Option<Ratio>,
    pub fresh_ratio: Option<Ratio>,
    pub bundled_ratio: Option<Ratio>,
    pub bundler_supply_pct: Option<Fixed>,
    pub bundler_holder_ratio: Option<Ratio>,
    pub top_holders: Seq<TopHolderView>,
}

impl ScreenView {
    /// The record of a token of which nothing is known but its identifier.
    pub open spec fn empty(mint: Seq<char>) -> ScreenView {
        ScreenView {
            mint,
            score: None,
            score_normalised: None,
            top_holder_pct: None,
            total_holders: 0,
            creator: None,
            creator_balance: None,
            risks: Seq::empty(),
            lp_locked_pct: None,
            total_lp_providers: 0,
            graph_insiders_detected: 0,
            rugged: None,
            price: None,
            market_cap: None,
            mc_per_holder: None,
            fresh_wallet_count: None,
            insider_count: None,
            bluechip_owner_count: None,
            bundler_count: None,
            dex_bot_count: None,
            sniper_count: None,
            dev_count: None,
            insiders_pct: None,
            bluechip_pct: None,
            bundler_pct: None,
            fresh_ratio: None,
            bundled_ratio: None,
            bundler_supply_pct: None,
            bundler_holder_ratio: None,
            top_holders: Seq::empty(),
        }
    }

    /// Every quotient has a denominator, and the capped ones are at most one.
    pub open spec fn well_formed(self) -> bool {
        &&& self.insiders_pct matches Some(r) ==> r.den > 0
        &&& self.bluechip_pct matches Some(r) ==> r.den > 0
        &&& self.bundler_pct matches Some(r) ==> r.den > 0 && r.at_most_one()
        &&& self.fresh_ratio matches Some(r) ==> r.den > 0
        &&& self.bundled_ratio matches Some(r) ==> r.den > 0 && r.at_most_one()
        &&& self.bundler_holder_ratio matches Some(r) ==> r.den > 0 && r.at_most_one()
        &&& self.bundler_supply_pct is Some <==> self.top_holders.len() > 0
        &&& self.bundler_holder_ratio is Some <==> self.top_holders.len() > 0
    }
}

impl DeepView for TokenScreenData {
    type V = ScreenView;

    open spec fn deep_view(&self) -> ScreenView {
        ScreenView {
            mint: self.mint@,
            score: self.score,
            score_normalised: self.score_normalised,
            top_holder_pct: self.top_holder_pct,
            total_holders: self.total_holders,
            creator: self.creator.deep_view(),
            creator_balance: self.creator_balance,
            risks: self.risks.deep_view(),
            lp_locked_pct: self.lp_locked_pct,
            total_lp_providers: self.total_lp_providers,
            graph_insiders_detected: self.graph_insiders_detected,
            rugged: self.rugged,
            price: self.price,
            market_cap: self.market_cap,
            mc_per_holder: self.mc_per_holder,
            fresh_wallet_count: self.fresh_wallet_count,
            insider_count: self.insider_count,
            bluechip_owner_count: self.bluechip_owner_count,
            bundler_count: self.bundler_count,
            dex_bot_count: self.dex_bot_count,
            sniper_count: self.sniper_count,
            dev_count: self.dev_count,
            insiders_pct: self.insiders_pct,
            bluechip_pct: self.bluechip_pct,
            bundler_pct: self.bundler_pct,
            fresh_ratio: self.fresh_ratio,
            bundled_ratio: self.bundled_ratio,
            bundler_supply_pct: self.bundler_supply_pct,
            bundler_holder_ratio: self.bundler_holder_ratio,
            top_holders: self.top_holders.deep_view(),
        }
    }
}

impl View for TokenScreenData {
    type V = ScreenView;

    open spec fn view(&self) -> ScreenView {
        self.deep_view()
    }
}

impl TokenScreenData {
    /// A record that holds the token identifier and nothing else.
    pub fn new(mint: &str) -> (r: TokenScreenData)
        ensures
            r@ == ScreenView::empty(mint@),
    {
        let r = TokenScreenData {
            mint: mint.to_owned(),
            score: None,
            score_normalised: None,
            top_holder_pct: None,
            total_holders: 0,
            creator: None,
            creator_balance: None,
            risks: Vec::new(),
            lp_locked_pct: None,
            total_lp_providers: 0,
            graph_insiders_detected: 0,
            rugged: None,
            price: None,
            market_cap: None,
            mc_per_holder: None,
            fresh_wallet_count: None,
            insider_count: None,
            bluechip_owner_count: None,
            bundler_count: None,
            dex_bot_count: None,
            sniper_count: None,
            dev_count: None,
            insiders_pct: None,
            bluechip_pct: None,
            bundler_pct: None,
            fresh_ratio: None,
            bundled_ratio: None,
            bundler_supply_pct: None,
            bundler_holder_ratio: None,
            top_holders: Vec::new(),
        };
        assert(r.risks.deep_view() =~= Seq::<RiskView>::empty());
        assert(r.top_holders.deep_view() =~= Seq::<TopHolderView>::empty());
        r
    }
}

impl Default for TokenScreenData {
    fn default() -> (r: TokenScreenData)
        ensures
            r@ == ScreenView::empty(Seq::empty()),
    {
        let r = TokenScreenData::new("");
        proof {
            reveal_strlit("");
        }
        assert(r@.mint =~= Seq::<char>::empty());
        r
    }
}

} // verus!
