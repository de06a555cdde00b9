use bitcoin_p2p_handshake::messages::Chain;
use bitcoin_p2p_handshake::options::{parse_chain, parse_services, parse_timeout, parse_u64};

#[test]
fn parse_timeout_reads_seconds() {
    assert_eq!(parse_timeout("10"), Some(10));
    assert_eq!(parse_timeout("0"), Some(0));
    assert_eq!(parse_timeout("+5"), Some(5));
    assert_eq!(parse_timeout("007"), Some(7));
}

#[test]
fn parse_timeout_rejects_bad_text() {
    assert_eq!(parse_timeout(""), None);
    assert_eq!(parse_timeout("+"), None);
    assert_eq!(parse_timeout("-1"), None);
    assert_eq!(parse_timeout("1s"), None);
    assert_eq!(parse_timeout(" 1"), None);
}

#[test]
fn parse_u64_bounds() {
    assert_eq!(parse_u64("18446744073709551615"), Some(u64::MAX));
    assert_eq!(parse_u64("18446744073709551616"), None);
    assert_eq!(parse_u64("99999999999999999999x"), None);
}

#[test]
fn parse_services_truncates() {
    assert_eq!(parse_services("0").unwrap().bits(), 0);
    assert_eq!(parse_services("1").unwrap().bits(), 1);
    assert_eq!(parse_services("1033").unwrap().bits(), 1033);
    assert_eq!(parse_services("32").unwrap().bits(), 0);
    assert!(parse_services("x").is_none());
}

#[test]
fn parse_chain_by_name() {
    assert_eq!(parse_chain("mainnet"), Some(Chain::Mainnet));
    assert_eq!(parse_chain("regnet"), Some(Chain::Regnet));
    assert_eq!(parse_chain("testnet3"), Some(Chain::Testnet3));
    assert_eq!(parse_chain("signet"), Some(Chain::Signet));
    assert_eq!(parse_chain("namecoin"), Some(Chain::Namecoin));
    assert_eq!(parse_chain("Mainnet"), None);
    assert_eq!(parse_chain("testnet"), None);
    assert_eq!(parse_chain(""), None);
}
