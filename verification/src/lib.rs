//! Risk screening of a tradable token.
//!
//! Three loosely shaped documents about one token are folded into a single
//! typed record, and the record is reduced to a verdict with an ordered list
//! of reasons. Every quantity is held exactly: counts as integers, quotients
//! of counts as [`Ratio`], and numbers read from a document as binary
//! fixed-point [`Fixed`] values.

pub mod endpoints;
pub mod fixed;
pub mod json;
pub mod laws;
pub mod parse;
pub mod ratio;
pub mod record;
pub mod screen;
pub mod text;

pub use endpoints::{
    gmgn_holder_stat_url, gmgn_query_params, gmgn_token_holders_url, rugcheck_report_url,
    GMGN_BASE, GMGN_QUERY, RUGCHECK_BASE,
};
pub use fixed::{Fixed, MAX_RAW, ONE_RAW};
pub use json::{double_of_int, json_of, Json, JsonNumber};
pub use parse::{
    assemble, gmgn_ok, merge_gmgn_holder_stat, merge_gmgn_token_holders, parse_risk,
    parse_rugcheck, set_holder_counts, set_top_holders, HolderCounts,
};
pub use ratio::Ratio;
pub use record::{Risk, RiskView, ScreenView, TokenScreenData, TopHolder, TopHolderView};
pub use screen::{evaluate, ScreenResult};
pub use text::{decimal, digit_char, has_substring, lowercase_of, occurs_at, signed_decimal};
