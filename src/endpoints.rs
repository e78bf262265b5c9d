//! Addresses of the exchange's services.
use vstd::prelude::*;

verus! {

#[derive(Clone, Debug)]
pub struct HyperliquidEndpoints {
    pub info: String,
    pub exchange: String,
    pub websocket: String,
    pub evm: String,
}

impl HyperliquidEndpoints {
    /// The endpoints of the test network or of the main network.
    pub fn new(testnet: bool) -> (e: Self)
        ensures
            testnet ==> e.info@ == "https://api.hyperliquid-testnet.xyz/info"@
                && e.exchange@ == "https://api.hyperliquid-testnet.xyz/exchange"@
                && e.websocket@ == "wss://api.hyperliquid-testnet.xyz/ws"@
                && e.evm@ == "https://api.hyperliquid-testnet.xyz"@,
            !testnet ==> e.info@ == "https://api.hyperliquid.xyz/info"@
                && e.exchange@ == "https://api.hyperliquid.xyz/exchange"@
                && e.websocket@ == "wss://api.hyperliquid.xyz/ws"@
                && e.evm@ == "https://api.hyperliquid.xyz"@,
    {
        if testnet {
            HyperliquidEndpoints {
                info: String::from_str("https://api.hyperliquid-testnet.xyz/info"),
                exchange: String::from_str("https://api.hyperliquid-testnet.xyz/exchange"),
                websocket: String::from_str("wss://api.hyperliquid-testnet.xyz/ws"),
                evm: String::from_str("https://api.hyperliquid-testnet.xyz"),
            }
        } else {
            HyperliquidEndpoints {
                info: String::from_str("https://api.hyperliquid.xyz/info"),
                exchange: String::from_str("https://api.hyperliquid.xyz/exchange"),
                websocket: String::from_str("wss://api.hyperliquid.xyz/ws"),
                evm: String::from_str("https://api.hyperliquid.xyz"),
            }
        }
    }
}

} // verus!
