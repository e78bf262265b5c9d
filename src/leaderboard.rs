//! Parameters of the leaderboard analytics run.
use vstd::prelude::*;

verus! {

/// The public info endpoint of the main network.
pub open spec fn api_url() -> Seq<char> {
    "https://api.hyperliquid.xyz/info"@
}

#[derive(Clone, Debug)]
pub struct LeaderboardParams {
    pub api_url: String,
    pub limit_addresses: usize,
    pub concurrency: usize,
    pub start_ms: u64,
    pub end_ms_override: Option<u64>,
    pub is_testnet: bool,
    pub max_fill_pages: usize,
    pub max_funding_pages: usize,
    pub max_items_soft_cap: usize,
    pub page_delay_ms: u64,
}

impl Default for LeaderboardParams {
    fn default() -> (p: Self)
        ensures
            p.api_url@ == api_url(),
            p.limit_addresses == 100,
            p.concurrency == 8,
            p.start_ms == 0,
            p.end_ms_override.is_none(),
            !p.is_testnet,
            p.max_fill_pages == 10_000,
            p.max_funding_pages == 5_000,
            p.max_items_soft_cap == 100_000,
            p.page_delay_ms == 0,
    {
        LeaderboardParams {
            api_url: String::from_str("https://api.hyperliquid.xyz/info"),
            limit_addresses: 100,
            concurrency: 8,
            start_ms: 0,
            end_ms_override: None,
            is_testnet: false,
            max_fill_pages: 10_000,
            max_funding_pages: 5_000,
            max_items_soft_cap: 100_000,
            page_delay_ms: 0,
        }
    }
}

/// Parameters of the command-line run, and whether its output is pretty-printed:
/// the defaults with a concurrency of at least one.
pub fn build_params() -> (r: (LeaderboardParams, bool))
    ensures
        r.0.api_url@ == api_url(),
        r.0.limit_addresses == 100,
        r.0.concurrency == 8,
        r.0.start_ms == 0,
        r.0.end_ms_override.is_none(),
        !r.0.is_testnet,
        r.0.max_fill_pages == 10_000,
        r.0.max_funding_pages == 5_000,
        r.0.max_items_soft_cap == 100_000,
        r.0.page_delay_ms == 0,
        r.1,
{
    let mut params = LeaderboardParams::default();
    let concurrency: usize = 8;
    params.concurrency = if concurrency > 1 { concurrency } else { 1 };
    (params, true)
}

} // verus!
