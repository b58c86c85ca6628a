//! Where the three documents of a token are to be had.

use vstd::prelude::*;
use vstd::string::*;

verus! {

/// The service that issues the primary report.
pub const RUGCHECK_BASE: &'static str = "https://api.rugcheck.xyz";

/// The service that issues the holder statistics and the top-holder list.
pub const GMGN_BASE: &'static str = "https://gmgn.ai";

/// The parameters that every query to the holder-statistics service carries.
pub const GMGN_QUERY: &'static str =
    "device_id=550e8400-e29b-41d4-a716-446655440000&fp_did=a1b2c3d4e5f67890abcdef12&client_id=gmgn_web_20260131-10580-95ff663&from_app=gmgn&app_ver=20260131-10580-95ff663&tz_name=Asia%2FCalcutta&tz_offset=19800&app_lang=en-US&os=web&worker=0";

/// The address of the primary report of `mint`.
pub open spec fn report_address(mint: Seq<char>) -> Seq<char> {
    RUGCHECK_BASE@ + "/v1/tokens/"@ + mint + "/report"@
}

/// The address of the holder statistics of `mint`.
pub open spec fn holder_stat_address(mint: Seq<char>) -> Seq<char> {
    GMGN_BASE@ + "/vas/api/v1/token_holder_stat/sol/"@ + mint + "?"@ + GMGN_QUERY@
}

/// The address of the top holders of `mint`: the hundred largest, by share of
/// supply, largest first.
pub open spec fn token_holders_address(mint: Seq<char>) -> Seq<char> {
    GMGN_BASE@ + "/vas/api/v1/token_holders/sol/"@ + mint + "?"@ + GMGN_QUERY@
        + "&limit=100&cost=20&orderby=amount_percentage&direction=desc"@
}

/// The parameters that every query to the holder-statistics service carries.
pub fn gmgn_query_params() -> (r: &'static str)
    ensures
        r@ == GMGN_QUERY@,
{
    GMGN_QUERY
}

/// The address of the primary report of `mint`.
pub fn rugcheck_report_url(mint: &str) -> (url: String)
    ensures
        url@ == report_address(mint@),
{
    let mut url = String::from_str(RUGCHECK_BASE);
    url.append("/v1/tokens/");
    url.append(mint);
    url.append("/report");
    url
}

/// The address of the holder statistics of `mint`.
pub fn gmgn_holder_stat_url(mint: &str) -> (url: String)
    ensures
        url@ == holder_stat_address(mint@),
{
    let mut url = String::from_str(GMGN_BASE);
    url.append("/vas/api/v1/token_holder_stat/sol/");
    url.append(mint);
    url.append("?");
    url.append(gmgn_query_params());
    url
}

/// The address of the top holders of `mint`.
pub fn gmgn_token_holders_url(mint: &str) -> (url: String)
    ensures
        url@ == token_holders_address(mint@),
{
    let mut url = String::from_str(GMGN_BASE);
    url.append("/vas/api/v1/token_holders/sol/");
    url.append(mint);
    url.append("?");
    url.append(gmgn_query_params());
    url.append("&limit=100&cost=20&orderby=amount_percentage&direction=desc");
    url
}

} // verus!
