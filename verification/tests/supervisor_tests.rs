use i_am_surging::eventbus::ReadOutcome;
use i_am_surging::{
    ConnectionState, ConnectionSupervisor, SessionEvent, SupervisorAction, SurgeConfig, SurgeEvent,
};

fn test_config(auto_reconnect: bool, max_attempts: u32, initial_delay_ms: u64) -> SurgeConfig {
    SurgeConfig {
        api_key: "key".to_string(),
        ws_url: "wss://surge.switchboard.xyz/ws".to_string(),
        api_url: "https://surge.switchboard.xyz".to_string(),
        auto_reconnect,
        max_reconnect_attempts: max_attempts,
        initial_reconnect_delay_ms: initial_delay_ms,
    }
}

fn drain(sup: &ConnectionSupervisor, reader: &mut i_am_surging::EventBusReader) -> Vec<SurgeEvent> {
    let mut out = Vec::new();
    loop {
        match sup.poll_events(reader) {
            ReadOutcome::Event(e) => out.push(e),
            ReadOutcome::Lagged(_) => {}
            ReadOutcome::Empty => break,
        }
    }
    out
}

#[test]
fn test_connect_subscribe_and_receive_update() {
    // Connect, subscribe to BTC/USD, receive one update: every attached
    // reader is handed an update with that symbol and price.
    let mut sup = ConnectionSupervisor::new("key");
    let mut reader_a = sup.subscribe_events();
    let mut reader_b = sup.subscribe_events();

    let actions = sup
        .connect_and_subscribe(&vec!["BTC/USD".to_string()])
        .unwrap();
    assert!(matches!(actions[0], SupervisorAction::OpenTransport(_)));
    assert_eq!(sup.connection_state(), ConnectionState::Connecting);

    let actions = sup.step(SessionEvent::TransportEstablished);
    assert_eq!(sup.connection_state(), ConnectionState::Connected);
    assert!(sup.is_connected());
    match &actions[0] {
        SupervisorAction::SendText(text) => {
            assert_eq!(text, r#"{"action":"subscribe","symbols":[{"symbol":"BTC/USD"}]}"#);
        }
        _ => panic!("expected the initial subscribe request"),
    }

    let frame =
        r#"{"type":"price","data":{"symbol":"BTC/USD","price":65000.5,"source_ts_ms":1700000000000}}"#;
    let actions = sup.handle_frame(frame);
    assert!(actions.is_empty());

    for reader in [&mut reader_a, &mut reader_b] {
        let events = drain(&sup, reader);
        assert_eq!(events.len(), 2);
        assert!(matches!(events[0], SurgeEvent::Connected));
        match &events[1] {
            SurgeEvent::PriceUpdate(update) => {
                assert_eq!(update.data.symbol, "BTC/USD");
                assert_eq!(update.data.price, "65000.5");
                assert_eq!(update.data.price.parse::<f64>().unwrap(), 65000.5);
                assert_eq!(update.data.source_timestamp_ms, 1700000000000);
            }
            _ => panic!("expected the price update"),
        }
    }
}

#[test]
fn test_malformed_frame_is_dropped_silently() {
    let mut sup = ConnectionSupervisor::new("key");
    let mut reader = sup.subscribe_events();
    sup.connect_and_subscribe(&vec!["BTC/USD".to_string()]).unwrap();
    sup.step(SessionEvent::TransportEstablished);
    drain(&sup, &mut reader);

    sup.handle_frame("not json");
    sup.handle_frame(r#"{"data":{"symbol":"BTC/USD","price":"text-not-number","source_ts_ms":1}}"#);
    sup.handle_frame(r#"{"data":{"price":1.0,"source_ts_ms":1}}"#);

    assert!(drain(&sup, &mut reader).is_empty());
    assert!(sup.is_connected());
}

#[test]
fn test_disconnect_while_connecting_goes_straight_to_terminated() {
    // A disconnect issued before any transport exists: the supervisor goes
    // straight to Terminated, never reaching Connected, and no update is
    // ever published.
    let mut sup = ConnectionSupervisor::new("key");
    let mut reader = sup.subscribe_events();
    sup.connect_and_subscribe(&vec!["BTC/USD".to_string()]).unwrap();
    assert_eq!(sup.connection_state(), ConnectionState::Connecting);

    let actions = sup.step(SessionEvent::ControlDisconnect);
    assert_eq!(sup.connection_state(), ConnectionState::Terminated);
    assert!(!sup.is_connected());
    assert!(matches!(actions[0], SupervisorAction::Halt));

    let events = drain(&sup, &mut reader);
    assert!(
        events.iter().all(|e| !matches!(e, SurgeEvent::PriceUpdate(_))),
        "no update may ever be published"
    );
    assert!(!events.iter().any(|e| matches!(e, SurgeEvent::Connected)));
}

#[test]
fn test_backoff_delays_double_up_to_cap() {
    // With an initial delay of 1000 ms the consecutive failure delays are
    // min(1000 * 2^k, 30000): 1000, 2000, 4000, 8000, 16000, 30000, 30000.
    let mut sup = ConnectionSupervisor::with_config(test_config(true, 10, 1000));
    let mut reader = sup.subscribe_events();
    sup.connect_and_subscribe(&vec!["BTC/USD".to_string()]).unwrap();

    let expected = [1000u64, 2000, 4000, 8000, 16000, 30000, 30000];
    for (k, want) in expected.iter().enumerate() {
        let actions = sup.step(SessionEvent::TransportFailed("refused".to_string()));
        match &actions[0] {
            SupervisorAction::StartBackoff(delay) => assert_eq!(delay, want),
            _ => panic!("expected a backoff to start"),
        }
        let events = drain(&sup, &mut reader);
        assert_eq!(events.len(), 2);
        match &events[0] {
            SurgeEvent::Error(message) => {
                assert_eq!(message, "Connection failed: refused");
            }
            _ => panic!("expected the failure to be reported"),
        }
        match &events[1] {
            SurgeEvent::Reconnecting { attempt, delay_ms } => {
                assert_eq!(*attempt as usize, k + 1);
                assert_eq!(delay_ms, want);
            }
            _ => panic!("expected a reconnecting notice"),
        }
        let actions = sup.step(SessionEvent::BackoffElapsed);
        assert!(matches!(actions[0], SupervisorAction::OpenTransport(_)));
    }
}

#[test]
fn test_backoff_resets_after_success() {
    let mut sup = ConnectionSupervisor::with_config(test_config(true, 10, 1000));
    let mut reader = sup.subscribe_events();
    sup.connect_and_subscribe(&vec!["BTC/USD".to_string()]).unwrap();

    sup.step(SessionEvent::TransportFailed("refused".to_string()));
    sup.step(SessionEvent::BackoffElapsed);
    sup.step(SessionEvent::TransportFailed("refused".to_string()));
    sup.step(SessionEvent::BackoffElapsed);
    // the next failure would back off 4000 ms, but a success intervenes
    sup.step(SessionEvent::TransportEstablished);
    assert!(sup.is_connected());
    drain(&sup, &mut reader);

    let actions = sup.step(SessionEvent::TransportClosed);
    match &actions[0] {
        SupervisorAction::StartBackoff(delay) => assert_eq!(*delay, 1000),
        _ => panic!("expected a backoff at the initial delay again"),
    }
    let events = drain(&sup, &mut reader);
    assert!(matches!(events[0], SurgeEvent::Disconnected));
    match &events[1] {
        SurgeEvent::Reconnecting { attempt, delay_ms } => {
            assert_eq!(*attempt, 1);
            assert_eq!(*delay_ms, 1000);
        }
        _ => panic!("expected the attempt counter to restart"),
    }
}

#[test]
fn test_exhausted_budget_emits_one_terminal_error() {
    // After exactly max_reconnect_attempts consecutive failures the
    // supervisor emits exactly one terminal error and never tries again.
    let mut sup = ConnectionSupervisor::with_config(test_config(true, 3, 1000));
    let mut reader = sup.subscribe_events();
    sup.connect_and_subscribe(&vec!["BTC/USD".to_string()]).unwrap();

    for _ in 0..2 {
        let actions = sup.step(SessionEvent::TransportFailed("refused".to_string()));
        assert!(matches!(actions[0], SupervisorAction::StartBackoff(_)));
        sup.step(SessionEvent::BackoffElapsed);
    }

    let actions = sup.step(SessionEvent::TransportFailed("refused".to_string()));
    assert_eq!(actions.len(), 1);
    assert!(matches!(actions[0], SupervisorAction::Halt));
    assert_eq!(sup.connection_state(), ConnectionState::Terminated);

    let events = drain(&sup, &mut reader);
    let terminal: Vec<&SurgeEvent> = events
        .iter()
        .filter(|e| matches!(e, SurgeEvent::Error(m) if m == "Max reconnection attempts reached"))
        .collect();
    assert_eq!(terminal.len(), 1, "exactly one terminal error");

    // a terminated supervisor performs no further connection attempts
    let actions = sup.step(SessionEvent::BackoffElapsed);
    assert!(actions.is_empty());
    let actions = sup.step(SessionEvent::TransportFailed("refused".to_string()));
    assert!(actions.is_empty());
    assert!(drain(&sup, &mut reader).is_empty());
}

#[test]
fn test_auto_reconnect_disabled_halts_on_first_failure() {
    let mut sup = ConnectionSupervisor::with_config(test_config(false, 10, 1000));
    let mut reader = sup.subscribe_events();
    sup.connect_and_subscribe(&vec!["BTC/USD".to_string()]).unwrap();

    let actions = sup.step(SessionEvent::TransportFailed("refused".to_string()));
    assert!(matches!(actions[0], SupervisorAction::Halt));
    assert_eq!(sup.connection_state(), ConnectionState::Terminated);
    let events = drain(&sup, &mut reader);
    assert!(events
        .iter()
        .any(|e| matches!(e, SurgeEvent::Error(m) if m == "Max reconnection attempts reached")));
}

#[test]
fn test_control_subscribe_sends_incremental_request() {
    let mut sup = ConnectionSupervisor::new("key");
    sup.connect_and_subscribe(&vec!["BTC/USD".to_string()]).unwrap();
    sup.step(SessionEvent::TransportEstablished);

    let actions = sup.step(SessionEvent::ControlSubscribe(vec!["ETH/USD".to_string()]));
    match &actions[0] {
        SupervisorAction::SendText(text) => {
            assert_eq!(text, r#"{"action":"subscribe","symbols":[{"symbol":"ETH/USD"}]}"#);
        }
        _ => panic!("expected an incremental subscribe request"),
    }
    assert_eq!(
        sup.get_subscriptions(),
        vec!["BTC/USD".to_string(), "ETH/USD".to_string()]
    );

    let actions = sup.step(SessionEvent::ControlUnsubscribe(vec!["BTC/USD".to_string()]));
    match &actions[0] {
        SupervisorAction::SendText(text) => {
            assert_eq!(text, r#"{"action":"unsubscribe","symbols":[{"symbol":"BTC/USD"}]}"#);
        }
        _ => panic!("expected an incremental unsubscribe request"),
    }
    assert_eq!(sup.get_subscriptions(), vec!["ETH/USD".to_string()]);
}

#[test]
fn test_subscribe_then_unsubscribe_leaves_empty_set() {
    // Subscribing to a set and immediately unsubscribing from it leaves an
    // empty effective subscription, here exercised before any session is
    // established.
    let mut sup = ConnectionSupervisor::new("key");
    let set = vec!["BTC/USD".to_string(), "ETH/USD".to_string(), "SOL/USD".to_string()];
    sup.step(SessionEvent::ControlSubscribe(set.clone()));
    assert_eq!(sup.get_subscriptions(), set);
    sup.step(SessionEvent::ControlUnsubscribe(set));
    assert!(sup.get_subscriptions().is_empty());
}

#[test]
fn test_connect_twice_fails_synchronously() {
    let mut sup = ConnectionSupervisor::new("key");
    sup.connect_and_subscribe(&vec!["BTC/USD".to_string()]).unwrap();
    let second = sup.connect_and_subscribe(&vec!["ETH/USD".to_string()]);
    match second {
        Err(e) => assert!(e.to_message().contains("already started")),
        Ok(_) => panic!("a second session must be refused"),
    }
}

#[test]
fn test_connect_with_invalid_endpoint_fails_synchronously() {
    let mut config = test_config(true, 10, 1000);
    config.ws_url = "not a url at all".to_string();
    let mut sup = ConnectionSupervisor::with_config(config);
    let result = sup.connect_and_subscribe(&vec!["BTC/USD".to_string()]);
    match result {
        Err(e) => assert!(e.to_message().contains("invalid WebSocket URL")),
        Ok(_) => panic!("an invalid endpoint must be refused"),
    }
    assert_eq!(sup.connection_state(), ConnectionState::Disconnected);
}

#[test]
fn test_session_replacement_emits_disconnect_then_reconnects() {
    let mut sup = ConnectionSupervisor::new("key");
    let mut reader = sup.subscribe_events();
    sup.connect_and_subscribe(&vec!["BTC/USD".to_string()]).unwrap();
    sup.step(SessionEvent::TransportEstablished);
    drain(&sup, &mut reader);

    let actions = sup.step(SessionEvent::TransportClosed);
    assert_eq!(sup.connection_state(), ConnectionState::Reconnecting);
    assert!(matches!(actions[0], SupervisorAction::StartBackoff(_)));
    let events = drain(&sup, &mut reader);
    assert!(matches!(events[0], SurgeEvent::Disconnected));

    let actions = sup.step(SessionEvent::BackoffElapsed);
    assert_eq!(sup.connection_state(), ConnectionState::Connecting);
    match &actions[0] {
        SupervisorAction::OpenTransport(url) => {
            assert_eq!(url, "wss://surge.switchboard.xyz/ws?apiKey=key");
        }
        _ => panic!("expected a fresh transport attempt"),
    }
}
