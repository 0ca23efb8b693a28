use localchain::chain_config::{ChainConfig, ChainStatus};
use localchain::form::{FormError, NewChainForm};
use localchain::text::{eq_ignore_ascii_case, is_blank, parse_unsigned, truncate_hash};

fn existing() -> Vec<ChainConfig> {
    vec![ChainConfig {
        name: "Ethereum".to_string(),
        id: 1,
        port: 8545,
        block_time: 1,
        fork_url: None,
        status: ChainStatus::Running,
    }]
}

fn form(name: &str, id: &str, port: &str, bt: &str) -> NewChainForm {
    NewChainForm {
        name: name.to_string(),
        chain_id: id.to_string(),
        port: port.to_string(),
        block_time: bt.to_string(),
    }
}

#[test]
fn parse_unsigned_follows_std() {
    assert_eq!(parse_unsigned("42", u64::MAX), Some(42));
    assert_eq!(parse_unsigned("+7", u64::MAX), Some(7));
    assert_eq!(parse_unsigned("007", u64::MAX), Some(7));
    assert_eq!(parse_unsigned("", u64::MAX), None);
    assert_eq!(parse_unsigned("+", u64::MAX), None);
    assert_eq!(parse_unsigned("-1", u64::MAX), None);
    assert_eq!(parse_unsigned("12a", u64::MAX), None);
    assert_eq!(parse_unsigned(" 1", u64::MAX), None);
    assert_eq!(parse_unsigned("18446744073709551615", u64::MAX), Some(u64::MAX));
    assert_eq!(parse_unsigned("18446744073709551616", u64::MAX), None);
    assert_eq!(parse_unsigned("65535", u16::MAX as u64), Some(65535));
    assert_eq!(parse_unsigned("65536", u16::MAX as u64), None);
    for s in ["0", "9", "123456", "99999999999999999999", "+0"] {
        assert_eq!(parse_unsigned(s, u64::MAX), s.parse::<u64>().ok());
    }
}

#[test]
fn blank_and_case_helpers() {
    assert!(is_blank(""));
    assert!(is_blank(" \t\n\u{3000}"));
    assert!(!is_blank(" a "));
    assert!(eq_ignore_ascii_case("Chain-A", "cHAIN-a"));
    assert!(!eq_ignore_ascii_case("abc", "abd"));
    assert!(!eq_ignore_ascii_case("abc", "abcd"));
}

#[test]
fn truncate_hash_keeps_both_ends() {
    assert_eq!(truncate_hash("0x1234", 16), "0x1234");
    assert_eq!(
        truncate_hash("0x0123456789abcdef0123456789abcdef", 16),
        "0x012345...89abcdef"
    );
    assert_eq!(truncate_hash("abcdef", 3), "a...f");
}

#[test]
fn form_errors_in_order() {
    let e = existing();
    assert_eq!(form("  ", "2", "9000", "1").validate(&e), Err(FormError::NameRequired));
    assert_eq!(form("a b", "2", "9000", "1").validate(&e), Err(FormError::NameCharacters));
    assert_eq!(form("ETHEREUM", "2", "9000", "1").validate(&e), Err(FormError::NameTaken));
    assert_eq!(form("dev", "x", "9000", "1").validate(&e), Err(FormError::InvalidChainId));
    assert_eq!(form("dev", "1", "9000", "1").validate(&e), Err(FormError::ChainIdTaken));
    assert_eq!(form("dev", "2", "70000", "1").validate(&e), Err(FormError::InvalidPort));
    assert_eq!(form("dev", "2", "8545", "1").validate(&e), Err(FormError::PortTaken));
    assert_eq!(form("dev", "2", "9000", "0").validate(&e), Err(FormError::ZeroBlockTime));
    assert_eq!(form("dev_1-x", "2", "9000", "3").validate(&e), Ok(()));
    assert_eq!(form("dev", "2", "9000", "soon").validate(&e), Ok(()));
    assert_eq!(FormError::PortTaken.message(), "Port must be unique");
}

#[test]
fn form_to_config_uses_fallbacks() {
    let c = form("dev", "5", "9001", "2").to_config();
    assert_eq!((c.id, c.port, c.block_time), (5, 9001, 2));
    assert_eq!(c.name, "dev");
    assert_eq!(c.status, ChainStatus::Stopped);
    let d = form("dev", "?", "?", "?").to_config();
    assert_eq!((d.id, d.port, d.block_time), (31337, 8545, 1));
    let accepted = form("a", "7", "5", "x");
    assert_eq!(accepted.validate(&Vec::new()), Ok(()));
    assert_eq!(accepted.to_config().block_time, 1);
}
