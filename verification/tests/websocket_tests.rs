use i_am_surging::relay::{decode_client_message, forward_event};
use i_am_surging::types::SurgeUpdateData;
use i_am_surging::{ClientMessage, RelayMultiplexer, ServerMessage, SessionDirective, SurgeEvent,
    SurgeUpdate};

// === ClientMessage tests ===

#[test]
fn test_client_message_subscribe_deserialization() {
    let json = r#"{"action": "subscribe", "symbols": ["BTC/USD", "ETH/USD"]}"#;
    let msg: ClientMessage = decode_client_message(json).unwrap();

    match msg {
        ClientMessage::Subscribe { symbols } => {
            assert_eq!(symbols.len(), 2);
            assert!(symbols.contains(&"BTC/USD".to_string()));
            assert!(symbols.contains(&"ETH/USD".to_string()));
        }
        _ => panic!("Expected Subscribe variant"),
    }
}

#[test]
fn test_client_message_unsubscribe_deserialization() {
    let json = r#"{"action": "unsubscribe", "symbols": ["BTC/USD"]}"#;
    let msg: ClientMessage = decode_client_message(json).unwrap();

    match msg {
        ClientMessage::Unsubscribe { symbols } => {
            assert_eq!(symbols.len(), 1);
            assert_eq!(symbols[0], "BTC/USD");
        }
        _ => panic!("Expected Unsubscribe variant"),
    }
}

#[test]
fn test_client_message_subscribe_empty_symbols() {
    let json = r#"{"action": "subscribe", "symbols": []}"#;
    let msg: ClientMessage = decode_client_message(json).unwrap();

    match msg {
        ClientMessage::Subscribe { symbols } => {
            assert!(symbols.is_empty());
        }
        _ => panic!("Expected Subscribe variant"),
    }
}

#[test]
fn test_client_message_invalid_action() {
    let json = r#"{"action": "invalid", "symbols": ["BTC/USD"]}"#;
    let result = decode_client_message(json);
    assert!(result.is_none(), "Should fail for invalid action");
}

#[test]
fn test_client_message_missing_symbols() {
    let json = r#"{"action": "subscribe"}"#;
    let result = decode_client_message(json);
    assert!(result.is_none(), "Should fail without symbols field");
}

// === ServerMessage tests ===

#[test]
fn test_server_message_price_serialization() {
    let msg = ServerMessage::Price {
        symbol: "BTC/USD".to_string(),
        price: "89846.94".to_string(),
        timestamp: 1705936800000,
        feed_id: Some("abc123".to_string()),
    };
    let json = msg.to_json_string();

    assert!(json.contains(r#""type":"price""#));
    assert!(json.contains(r#""symbol":"BTC/USD""#));
    assert!(json.contains(r#""price":89846.94"#));
    assert!(json.contains(r#""timestamp":1705936800000"#));
    assert!(json.contains(r#""feed_id":"abc123""#));
}

#[test]
fn test_server_message_price_without_feed_id() {
    let msg = ServerMessage::Price {
        symbol: "ETH/USD".to_string(),
        price: "3245.50".to_string(),
        timestamp: 1705936800000,
        feed_id: None,
    };
    let json = msg.to_json_string();

    assert!(json.contains(r#""type":"price""#));
    assert!(!json.contains("feed_id"), "feed_id should be omitted when None");
}

#[test]
fn test_server_message_subscribed_serialization() {
    let msg = ServerMessage::Subscribed {
        symbols: vec!["BTC/USD".to_string(), "ETH/USD".to_string()],
    };
    let json = msg.to_json_string();

    assert!(json.contains(r#""type":"subscribed""#));
    assert!(json.contains("BTC/USD"));
    assert!(json.contains("ETH/USD"));
}

#[test]
fn test_server_message_unsubscribed_serialization() {
    let msg = ServerMessage::Unsubscribed {
        symbols: vec!["BTC/USD".to_string()],
    };
    let json = msg.to_json_string();

    assert!(json.contains(r#""type":"unsubscribed""#));
    assert!(json.contains("BTC/USD"));
}

#[test]
fn test_server_message_error_serialization() {
    let msg = ServerMessage::Error {
        message: "Connection failed".to_string(),
    };
    let json = msg.to_json_string();

    assert!(json.contains(r#""type":"error""#));
    assert!(json.contains(r#""message":"Connection failed""#));
}

// === Message roundtrip tests ===

#[test]
fn test_server_message_json_roundtrip() {
    let original = ServerMessage::Price {
        symbol: "SOL/USD".to_string(),
        price: "148.25".to_string(),
        timestamp: 1705936800000,
        feed_id: Some("xyz789".to_string()),
    };

    let json = original.to_json_string();
    let parsed: serde_json::Value = serde_json::from_str(&json).unwrap();

    assert_eq!(parsed["type"], "price");
    assert_eq!(parsed["symbol"], "SOL/USD");
    assert_eq!(parsed["price"], 148.25);
    assert_eq!(parsed["timestamp"], 1705936800000_i64);
    assert_eq!(parsed["feed_id"], "xyz789");
}

#[test]
fn test_server_message_escapes_strings() {
    let msg = ServerMessage::Error {
        message: "a \"quoted\" back\\slash\nline".to_string(),
    };
    let json = msg.to_json_string();
    let parsed: serde_json::Value = serde_json::from_str(&json).unwrap();
    assert_eq!(parsed["message"], "a \"quoted\" back\\slash\nline");
}

// === Subscription management tests ===

#[test]
fn test_add_unique_symbols_with_hashset() {
    let mut symbols: std::collections::HashSet<String> = std::collections::HashSet::new();
    symbols.insert("BTC/USD".to_string());

    // Adding duplicates should be a no-op
    symbols.insert("BTC/USD".to_string());
    symbols.insert("ETH/USD".to_string());

    assert_eq!(symbols.len(), 2);
    assert!(symbols.contains("BTC/USD"));
    assert!(symbols.contains("ETH/USD"));
}

#[test]
fn test_remove_symbols_from_hashset() {
    let mut symbols: std::collections::HashSet<String> = std::collections::HashSet::new();
    symbols.insert("BTC/USD".to_string());
    symbols.insert("ETH/USD".to_string());
    symbols.insert("SOL/USD".to_string());

    symbols.remove("ETH/USD");

    assert_eq!(symbols.len(), 2);
    assert!(symbols.contains("BTC/USD"));
    assert!(symbols.contains("SOL/USD"));
    assert!(!symbols.contains("ETH/USD"));
}

// === Relay multiplexer tests ===

#[test]
fn test_relay_subscribe_then_unsubscribe_is_empty() {
    // A downstream peer subscribes to ETH/USD and immediately unsubscribes:
    // the effective upstream subscription ends empty, and the peer gets a
    // subscribed and an unsubscribed acknowledgement, in request order.
    let mut relay = RelayMultiplexer::new();

    let (dir1, reply1) = relay.handle_text(r#"{"action":"subscribe","symbols":["ETH/USD"]}"#);
    match reply1 {
        ServerMessage::Subscribed { symbols } => assert_eq!(symbols, vec!["ETH/USD".to_string()]),
        _ => panic!("expected a subscribed acknowledgement first"),
    }
    match dir1 {
        Some(SessionDirective::ReplaceSession(snapshot)) => {
            assert_eq!(snapshot, vec!["ETH/USD".to_string()]);
        }
        _ => panic!("expected a session seeded with ETH/USD"),
    }

    let (dir2, reply2) = relay.handle_text(r#"{"action":"unsubscribe","symbols":["ETH/USD"]}"#);
    match reply2 {
        ServerMessage::Unsubscribed { symbols } => {
            assert_eq!(symbols, vec!["ETH/USD".to_string()])
        }
        _ => panic!("expected an unsubscribed acknowledgement second"),
    }
    match dir2 {
        Some(SessionDirective::DropSession) => {}
        _ => panic!("expected the session to be dropped"),
    }

    assert!(relay.current_symbols().is_empty());
}

#[test]
fn test_relay_invalid_message_changes_nothing() {
    let mut relay = RelayMultiplexer::new();
    relay.handle_text(r#"{"action":"subscribe","symbols":["BTC/USD"]}"#);

    let (dir, reply) = relay.handle_text("not json at all");
    assert!(dir.is_none());
    match reply {
        ServerMessage::Error { message } => {
            assert_eq!(message, "Invalid message: malformed subscribe/unsubscribe request")
        }
        _ => panic!("expected an error reply"),
    }
    assert_eq!(relay.current_symbols(), vec!["BTC/USD".to_string()]);
}

#[test]
fn test_relay_deduplicates_interest() {
    let mut relay = RelayMultiplexer::new();
    relay.handle_text(r#"{"action":"subscribe","symbols":["BTC/USD","BTC/USD","ETH/USD"]}"#);
    assert_eq!(
        relay.current_symbols(),
        vec!["BTC/USD".to_string(), "ETH/USD".to_string()]
    );
}

#[test]
fn test_forward_event_translates_updates() {
    let update = SurgeUpdate {
        event_type: Some("price".to_string()),
        data: SurgeUpdateData {
            symbol: "BTC/USD".to_string(),
            price: "65000.5".to_string(),
            source_timestamp_ms: 1700000000000,
            feed_id: Some("feedbeef".to_string()),
            signature: None,
            oracle_pubkey: None,
        },
    };
    match forward_event(&SurgeEvent::PriceUpdate(update)) {
        Some(ServerMessage::Price { symbol, price, timestamp, feed_id }) => {
            assert_eq!(symbol, "BTC/USD");
            assert_eq!(price, "65000.5");
            assert_eq!(timestamp, 1700000000000);
            assert_eq!(feed_id, Some("feedbeef".to_string()));
        }
        _ => panic!("expected a price message"),
    }

    match forward_event(&SurgeEvent::Error("boom".to_string())) {
        Some(ServerMessage::Error { message }) => assert_eq!(message, "boom"),
        _ => panic!("expected an error message"),
    }

    assert!(forward_event(&SurgeEvent::Connected).is_none());
    assert!(forward_event(&SurgeEvent::Disconnected).is_none());
}
