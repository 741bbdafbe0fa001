use i_am_surging::codec::{decode_price_update, parse_i64, parse_surge_feeds, parse_u64};
use i_am_surging::types::SymbolRequest;
use i_am_surging::{FeedLoader, SubscriptionRequest, SurgeError, Symbol};

// =============================================================================
// Upstream update decoding
// =============================================================================

#[test]
fn test_decode_update_full() {
    let text = r#"{"type":"price","data":{"symbol":"BTC/USD","price":65000.5,"source_ts_ms":1700000000000,"feed_id":"abc","signature":"sig","oracle_pubkey":"pk"}}"#;
    let update = decode_price_update(text).unwrap();
    assert_eq!(update.event_type, Some("price".to_string()));
    assert_eq!(update.data.symbol, "BTC/USD");
    assert_eq!(update.data.price, "65000.5");
    assert_eq!(update.data.source_timestamp_ms, 1700000000000);
    assert_eq!(update.data.feed_id, Some("abc".to_string()));
    assert_eq!(update.data.signature, Some("sig".to_string()));
    assert_eq!(update.data.oracle_pubkey, Some("pk".to_string()));
}

#[test]
fn test_decode_update_type_absent() {
    // absence of the type tag does not invalidate the message
    let text = r#"{"data":{"symbol":"ETH/USD","price":3245,"source_ts_ms":1}}"#;
    let update = decode_price_update(text).unwrap();
    assert_eq!(update.event_type, None);
    assert_eq!(update.data.symbol, "ETH/USD");
    assert_eq!(update.data.price, "3245");
    assert_eq!(update.data.feed_id, None);
}

#[test]
fn test_decode_update_fields_in_any_order() {
    let text = r#"{"data":{"source_ts_ms":7,"price":-0.25,"symbol":"X/Y"},"type":"price"}"#;
    let update = decode_price_update(text).unwrap();
    assert_eq!(update.data.symbol, "X/Y");
    assert_eq!(update.data.price, "-0.25");
    assert_eq!(update.data.source_timestamp_ms, 7);
}

#[test]
fn test_decode_update_ignores_unknown_fields() {
    let text = r#"{"extra":[1,2,{"a":null}],"data":{"symbol":"A/B","price":1e3,"source_ts_ms":-5,"other":true}}"#;
    let update = decode_price_update(text).unwrap();
    assert_eq!(update.data.price, "1e3");
    assert_eq!(update.data.source_timestamp_ms, -5);
}

#[test]
fn test_decode_update_rejects_malformed() {
    assert!(decode_price_update("").is_none());
    assert!(decode_price_update("not json").is_none());
    assert!(decode_price_update(r#"{"type":"price"}"#).is_none());
    assert!(decode_price_update(r#"{"data":{"price":1,"source_ts_ms":1}}"#).is_none());
    assert!(decode_price_update(r#"{"data":{"symbol":"A/B","source_ts_ms":1}}"#).is_none());
    assert!(decode_price_update(r#"{"data":{"symbol":"A/B","price":"1","source_ts_ms":1}}"#)
        .is_none());
    assert!(decode_price_update(r#"{"data":{"symbol":"A/B","price":1,"source_ts_ms":1.5}}"#)
        .is_none());
    assert!(decode_price_update(r#"{"data":{"symbol":"A/B","price":01,"source_ts_ms":1}}"#)
        .is_none());
    assert!(decode_price_update(r#"{"data":{"symbol":"A/B","price":1,"source_ts_ms":1}} tail"#)
        .is_none());
}

#[test]
fn test_decode_update_timestamp_bounds() {
    let max = r#"{"data":{"symbol":"A/B","price":1,"source_ts_ms":9223372036854775807}}"#;
    assert_eq!(
        decode_price_update(max).unwrap().data.source_timestamp_ms,
        i64::MAX
    );
    let min = r#"{"data":{"symbol":"A/B","price":1,"source_ts_ms":-9223372036854775808}}"#;
    assert_eq!(
        decode_price_update(min).unwrap().data.source_timestamp_ms,
        i64::MIN
    );
    let over = r#"{"data":{"symbol":"A/B","price":1,"source_ts_ms":9223372036854775808}}"#;
    assert!(decode_price_update(over).is_none());
}

// =============================================================================
// Integer token parsing
// =============================================================================

#[test]
fn test_parse_i64_values() {
    assert_eq!(parse_i64("0"), Some(0));
    assert_eq!(parse_i64("-0"), Some(0));
    assert_eq!(parse_i64("42"), Some(42));
    assert_eq!(parse_i64("-42"), Some(-42));
    assert_eq!(parse_i64("9223372036854775807"), Some(i64::MAX));
    assert_eq!(parse_i64("-9223372036854775808"), Some(i64::MIN));
}

#[test]
fn test_parse_i64_rejects() {
    assert_eq!(parse_i64(""), None);
    assert_eq!(parse_i64("-"), None);
    assert_eq!(parse_i64("007"), None);
    assert_eq!(parse_i64("1.5"), None);
    assert_eq!(parse_i64("1e3"), None);
    assert_eq!(parse_i64("9223372036854775808"), None);
    assert_eq!(parse_i64("-9223372036854775809"), None);
}

#[test]
fn test_parse_u64_values() {
    assert_eq!(parse_u64("0"), Some(0));
    assert_eq!(parse_u64("18446744073709551615"), Some(u64::MAX));
    assert_eq!(parse_u64("18446744073709551616"), None);
    assert_eq!(parse_u64("-1"), None);
    assert_eq!(parse_u64(""), None);
}

// =============================================================================
// Subscription request encoding
// =============================================================================

#[test]
fn test_subscription_request_encoding() {
    let request = SubscriptionRequest {
        action: "subscribe".to_string(),
        symbols: vec![
            SymbolRequest { symbol: "BTC/USD".to_string() },
            SymbolRequest { symbol: "ETH/USD".to_string() },
        ],
    };
    assert_eq!(
        request.to_json_string(),
        r#"{"action":"subscribe","symbols":[{"symbol":"BTC/USD"},{"symbol":"ETH/USD"}]}"#
    );
}

#[test]
fn test_subscription_request_empty_symbols() {
    let request = SubscriptionRequest {
        action: "unsubscribe".to_string(),
        symbols: vec![],
    };
    assert_eq!(request.to_json_string(), r#"{"action":"unsubscribe","symbols":[]}"#);
}

// =============================================================================
// Feed listing decoding
// =============================================================================

#[test]
fn test_parse_surge_feeds() {
    let text = r#"[{"symbol":"BTC/USD","feedId":"abc","active":true,"updateFrequencyMs":500},{"symbol":"ETH/USD"}]"#;
    let feeds = parse_surge_feeds(text).unwrap();
    assert_eq!(feeds.len(), 2);
    assert_eq!(feeds[0].symbol, "BTC/USD");
    assert_eq!(feeds[0].feed_id, Some("abc".to_string()));
    assert_eq!(feeds[0].active, Some(true));
    assert_eq!(feeds[0].update_frequency_ms, Some(500));
    assert_eq!(feeds[1].symbol, "ETH/USD");
    assert_eq!(feeds[1].feed_id, None);
    assert_eq!(feeds[1].active, None);
    assert_eq!(feeds[1].update_frequency_ms, None);
}

#[test]
fn test_parse_surge_feeds_rejects_malformed() {
    match parse_surge_feeds(r#"{"not":"a list"}"#) {
        Err(SurgeError::JsonError(m)) => assert_eq!(m, "malformed feeds response"),
        _ => panic!("expected a JSON error"),
    }
    assert!(parse_surge_feeds(r#"[{"feedId":"abc"}]"#).is_err());
}

// =============================================================================
// Feed table
// =============================================================================

fn sample_loader() -> FeedLoader {
    FeedLoader::from_json(
        r#"{"BTC/USD":"aa11","ETH/USD":"bb22","SOL/USD":"cc33"}"#,
    )
    .unwrap()
}

#[test]
fn test_feed_loader_lookup() {
    let loader = sample_loader();
    assert_eq!(loader.get_feed_id("BTC/USD").unwrap(), "aa11");
    assert_eq!(loader.get_feed_id("SOL/USD").unwrap(), "cc33");
    match loader.get_feed_id("FAKE/COIN") {
        Err(SurgeError::FeedNotFound(m)) => assert_eq!(m, "FAKE/COIN"),
        _ => panic!("expected a not-found error"),
    }
}

#[test]
fn test_feed_loader_membership_and_count() {
    let loader = sample_loader();
    assert_eq!(loader.count(), 3);
    assert!(loader.has_symbol("BTC/USD"));
    assert!(!loader.has_symbol("FAKE/COIN"));
    assert_eq!(
        loader.get_all_symbols(),
        vec!["BTC/USD".to_string(), "ETH/USD".to_string(), "SOL/USD".to_string()]
    );
}

#[test]
fn test_feed_loader_symbols_come_back_sorted() {
    let loader =
        FeedLoader::from_json(r#"{"SOL/USD":"cc","BTC/USD":"aa","ETH/USD":"bb"}"#).unwrap();
    assert_eq!(
        loader.get_all_symbols(),
        vec!["BTC/USD".to_string(), "ETH/USD".to_string(), "SOL/USD".to_string()]
    );
}

#[test]
fn test_feed_loader_get_feed() {
    let loader = sample_loader();
    let feed = loader.get_feed("ETH/USD").unwrap();
    assert_eq!(feed.symbol.base, "ETH");
    assert_eq!(feed.symbol.quote, "USD");
    assert_eq!(feed.feed_id, "bb22");
}

#[test]
fn test_feed_loader_rejects_malformed() {
    match FeedLoader::from_json("[1,2,3]") {
        Err(SurgeError::JsonError(m)) => assert_eq!(m, "malformed feed table"),
        _ => panic!("expected a JSON error"),
    }
    assert!(FeedLoader::from_json(r#"{"BTC/USD":42}"#).is_err());
    assert!(FeedLoader::from_json("not json").is_err());
}

// =============================================================================
// Symbols
// =============================================================================

#[test]
fn test_symbol_from_str_valid() {
    let sym = Symbol::from_str("BTC/USD").unwrap();
    assert_eq!(sym.base, "BTC");
    assert_eq!(sym.quote, "USD");
    assert_eq!(sym.to_string(), "BTC/USD");
}

#[test]
fn test_symbol_from_str_invalid() {
    for bad in ["", "BTCUSD", "A/B/C"] {
        match Symbol::from_str(bad) {
            Err(SurgeError::InvalidSymbol(m)) => assert_eq!(m, bad),
            _ => panic!("expected an invalid-symbol error for {:?}", bad),
        }
    }
}

#[test]
fn test_symbol_new() {
    let sym = Symbol::new("SOL", "USDC");
    assert_eq!(sym.to_string(), "SOL/USDC");
}

// =============================================================================
// Errors
// =============================================================================

#[test]
fn test_surge_error_feed_not_found_status_code() {
    let err = SurgeError::FeedNotFound("TEST/COIN".to_string());
    assert_eq!(err.status_code(), axum::http::StatusCode::NOT_FOUND.as_u16());
}

#[test]
fn test_surge_error_api_error_status_code() {
    let err = SurgeError::ApiError("upstream error".to_string());
    assert_eq!(err.status_code(), axum::http::StatusCode::BAD_GATEWAY.as_u16());
}

#[test]
fn test_surge_error_display() {
    let err = SurgeError::FeedNotFound("FAKE/COIN".to_string());
    let display = err.to_message();
    assert!(display.contains("Feed not found"));
    assert!(display.contains("FAKE/COIN"));
}

#[test]
fn test_surge_error_api_error_display() {
    let err = SurgeError::ApiError("Connection timeout".to_string());
    let display = err.to_message();
    assert!(display.contains("API error"));
    assert!(display.contains("Connection timeout"));
}

#[test]
fn test_surge_error_invalid_symbol_display() {
    let err = SurgeError::InvalidSymbol("xyz".to_string());
    assert_eq!(
        err.to_message(),
        "Invalid symbol format: xyz. Expected format: BASE/QUOTE (e.g., BTC/USD)"
    );
}

// =============================================================================
// Update repackaging
// =============================================================================

#[test]
fn test_update_to_bundle_ix() {
    let update = decode_price_update(
        r#"{"data":{"symbol":"BTC/USD","price":65000.5,"source_ts_ms":1700000000000,"signature":"sig"}}"#,
    )
    .unwrap();
    let ix = update.to_bundle_ix();
    assert_eq!(ix.symbol, "BTC/USD");
    assert_eq!(ix.price, "65000.5");
    assert_eq!(ix.timestamp_ms, 1700000000000);
    assert_eq!(ix.signature, Some("sig".to_string()));
}
