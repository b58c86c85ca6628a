use token_filtering::endpoints::{
    gmgn_holder_stat_url, gmgn_query_params, gmgn_token_holders_url, rugcheck_report_url,
    GMGN_BASE, RUGCHECK_BASE,
};

#[test]
fn query_parameters_are_fixed() {
    let q = gmgn_query_params();
    assert!(q.starts_with("device_id="));
    assert!(q.ends_with("&os=web&worker=0"));
    assert_eq!(q.matches('&').count(), 9);
    assert!(q.contains("tz_name=Asia%2FCalcutta&tz_offset=19800"));
}

#[test]
fn report_address() {
    assert_eq!(RUGCHECK_BASE, "https://api.rugcheck.xyz");
    assert_eq!(
        rugcheck_report_url("So11111111111111111111111111111111111111112"),
        "https://api.rugcheck.xyz/v1/tokens/So11111111111111111111111111111111111111112/report"
    );
    assert_eq!(rugcheck_report_url(""), "https://api.rugcheck.xyz/v1/tokens//report");
}

#[test]
fn holder_statistics_address() {
    assert_eq!(GMGN_BASE, "https://gmgn.ai");
    assert_eq!(
        gmgn_holder_stat_url("Mint"),
        format!("https://gmgn.ai/vas/api/v1/token_holder_stat/sol/Mint?{}", gmgn_query_params())
    );
}

#[test]
fn top_holders_address() {
    assert_eq!(
        gmgn_token_holders_url("Mint"),
        format!(
            "https://gmgn.ai/vas/api/v1/token_holders/sol/Mint?{}&limit=100&cost=20&orderby=amount_percentage&direction=desc",
            gmgn_query_params()
        )
    );
}
