use hyperliquid_bot::endpoints::HyperliquidEndpoints;
use hyperliquid_bot::errors::BotError;
use hyperliquid_bot::key_manager::{KeyCandidate, KeyManager};

const KEY: &str = "ABCDEF0123456789abcdef0123456789ABCDEF0123456789abcdef0123456789";

#[test]
fn normalizes_keys() {
    let km = KeyManager;
    assert_eq!(km.normalize_key("ABC"), "0xabc");
    assert_eq!(km.normalize_key("0xABC"), "0xabc");
    assert_eq!(km.normalize_key("0XAB"), "0x0xab");
}

#[test]
fn first_usable_candidate_wins() {
    let km = KeyManager;
    let candidates = vec![
        KeyCandidate::FileContents("   \n".to_string()),
        KeyCandidate::FileContents("0x1234".to_string()),
        KeyCandidate::FileContents(format!("  {}\n", KEY)),
        KeyCandidate::Inline("ff".to_string()),
    ];
    let key = km.get_private_key(true, &candidates).unwrap();
    assert_eq!(key, format!("0x{}", KEY.to_lowercase()));
    assert_eq!(key.len(), 66);
}

#[test]
fn inline_keys_are_taken_as_given() {
    let km = KeyManager;
    let candidates = vec![KeyCandidate::Inline("FF".to_string())];
    assert_eq!(km.get_private_key(false, &candidates).unwrap(), "0xff");
}

#[test]
fn missing_key_names_the_network() {
    let km = KeyManager;
    match km.get_private_key(false, &vec![]) {
        Err(BotError::Configuration(m)) => assert_eq!(m, "no private key found for mainnet"),
        other => panic!("unexpected {:?}", other),
    }
    let info = km.key_info(true, &vec![], 5);
    assert!(!info.key_found);
    assert_eq!(info.network, "testnet");
    assert_eq!(info.error.as_deref(), Some("configuration error: no private key found for testnet"));
    assert_eq!(info.checked_at, 5);
    let info = km.key_info(true, &vec![KeyCandidate::Inline("aa".to_string())], 5);
    assert!(info.key_found);
    assert_eq!(info.key_source.as_deref(), Some("resolved"));
}

#[test]
fn endpoints_follow_the_network() {
    let test = HyperliquidEndpoints::new(true);
    assert_eq!(test.info, "https://api.hyperliquid-testnet.xyz/info");
    assert_eq!(test.websocket, "wss://api.hyperliquid-testnet.xyz/ws");
    let main = HyperliquidEndpoints::new(false);
    assert_eq!(main.exchange, "https://api.hyperliquid.xyz/exchange");
    assert_eq!(main.evm, "https://api.hyperliquid.xyz");
}

#[test]
fn errors_read_as_sentences() {
    assert_eq!(BotError::Grid("bad".to_string()).message(), "grid error: bad");
    assert_eq!(BotError::Other("plain".to_string()).message(), "plain");
}
