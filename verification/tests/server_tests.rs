use i_am_surging::server::{check_bearer, filter_symbols, split_symbol_list};
use i_am_surging::{PricesQuery, ServerConfig, SymbolsQuery};

// =============================================================================
// Server Configuration Tests
// =============================================================================

#[test]
fn test_server_config_addr() {
    let config = ServerConfig {
        host: "0.0.0.0".to_string(),
        port: 9000,
    };
    assert_eq!(config.addr(), "0.0.0.0:9000");
}

#[test]
fn test_server_config_addr_localhost() {
    let config = ServerConfig {
        host: "127.0.0.1".to_string(),
        port: 8080,
    };
    assert_eq!(config.addr(), "127.0.0.1:8080");
}

// =============================================================================
// Query parsing tests
// =============================================================================

#[test]
fn test_prices_query_deserialization() {
    let query: PricesQuery = PricesQuery::from_json(r#"{"symbols": "btc,eth,sol"}"#).unwrap();
    assert_eq!(query.symbols, "btc,eth,sol");
}

#[test]
fn test_symbols_query_default() {
    let query = SymbolsQuery::default();
    assert!(query.filter.is_none());
}

#[test]
fn test_symbols_query_with_filter() {
    let query: SymbolsQuery = SymbolsQuery::from_json(r#"{"filter": "sol"}"#).unwrap();
    assert_eq!(query.filter, Some("sol".to_string()));
}

#[test]
fn test_symbols_query_without_filter_field() {
    let query = SymbolsQuery::from_json(r#"{}"#).unwrap();
    assert!(query.filter.is_none());
}

#[test]
fn test_prices_query_rejects_missing_symbols() {
    assert!(PricesQuery::from_json(r#"{"other": 1}"#).is_none());
}

// =============================================================================
// Symbol parsing helper tests
// =============================================================================

#[test]
fn test_parse_symbols_from_query() {
    let query = PricesQuery {
        symbols: "btc,eth,sol".to_string(),
    };
    let symbols: Vec<&str> = query.symbols.split(',').map(str::trim).collect();
    assert_eq!(symbols, vec!["btc", "eth", "sol"]);
}

#[test]
fn test_parse_symbols_with_whitespace() {
    let query = PricesQuery {
        symbols: "btc , eth , sol".to_string(),
    };
    let symbols: Vec<&str> = query.symbols.split(',').map(str::trim).collect();
    assert_eq!(symbols, vec!["btc", "eth", "sol"]);
}

#[test]
fn test_split_symbol_list_basic() {
    let parts = split_symbol_list("btc,eth,sol");
    assert_eq!(parts, vec!["btc", "eth", "sol"]);
}

#[test]
fn test_split_symbol_list_trims_spaces() {
    let parts = split_symbol_list("btc , eth , sol");
    assert_eq!(parts, vec!["btc", "eth", "sol"]);
}

#[test]
fn test_split_symbol_list_single() {
    let parts = split_symbol_list("btc");
    assert_eq!(parts, vec!["btc"]);
}

#[test]
fn test_split_symbol_list_empty_text() {
    let parts = split_symbol_list("");
    assert_eq!(parts, vec![""]);
}

// =============================================================================
// Symbol filter tests
// =============================================================================

#[test]
fn test_filter_symbols() {
    let all_symbols = vec![
        "BTC/USD".to_string(),
        "ETH/USD".to_string(),
        "SOL/USD".to_string(),
        "SOL/USDT".to_string(),
    ];

    let filter = "sol".to_lowercase();
    let filtered: Vec<&String> = all_symbols
        .iter()
        .filter(|s| s.to_lowercase().contains(&filter))
        .collect();

    assert_eq!(filtered.len(), 2);
    assert!(filtered.iter().any(|s| *s == "SOL/USD"));
    assert!(filtered.iter().any(|s| *s == "SOL/USDT"));
}

#[test]
fn test_filter_symbols_case_blind() {
    let all_symbols = vec![
        "BTC/USD".to_string(),
        "ETH/USD".to_string(),
        "SOL/USD".to_string(),
        "SOL/USDT".to_string(),
    ];
    let filtered = filter_symbols(&all_symbols, "sol");
    assert_eq!(filtered, vec!["SOL/USD".to_string(), "SOL/USDT".to_string()]);

    let upper = filter_symbols(&all_symbols, "SOL");
    assert_eq!(upper, vec!["SOL/USD".to_string(), "SOL/USDT".to_string()]);
}

#[test]
fn test_filter_symbols_no_match() {
    let all_symbols = vec!["BTC/USD".to_string(), "ETH/USD".to_string()];
    let filtered = filter_symbols(&all_symbols, "xyznotacoin123");
    assert!(filtered.is_empty());
}

#[test]
fn test_filter_symbols_empty_filter_keeps_all() {
    let all_symbols = vec!["BTC/USD".to_string(), "ETH/USD".to_string()];
    let filtered = filter_symbols(&all_symbols, "");
    assert_eq!(filtered, all_symbols);
}

// =============================================================================
// Bearer auth tests
// =============================================================================

#[test]
fn test_check_bearer_no_key_configured() {
    assert!(check_bearer(None, ""));
    assert!(check_bearer(Some("anything"), ""));
}

#[test]
fn test_check_bearer_valid_token() {
    assert!(check_bearer(Some("Bearer SECRET-REDACTED"), "SECRET-REDACTED"));
}

#[test]
fn test_check_bearer_wrong_token() {
    assert!(!check_bearer(Some("Bearer wrong"), "right"));
}

#[test]
fn test_check_bearer_bad_scheme() {
    assert!(!check_bearer(Some("Basic abc"), "abc"));
}

#[test]
fn test_check_bearer_missing_header() {
    assert!(!check_bearer(None, "abc"));
}
