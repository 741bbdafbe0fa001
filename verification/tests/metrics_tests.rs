use i_am_surging::ConnectionMetrics;

#[test]
fn test_ws_connection_counter_initial() {
    let mut metrics = ConnectionMetrics::new();
    metrics.reset_ws_connections();
    assert_eq!(metrics.get_active_ws_connections(), 0);
}

#[test]
fn test_ws_connection_opened_increments() {
    let mut metrics = ConnectionMetrics::new();
    metrics.reset_ws_connections();
    metrics.ws_connection_opened();
    assert_eq!(metrics.get_active_ws_connections(), 1);
    metrics.ws_connection_opened();
    assert_eq!(metrics.get_active_ws_connections(), 2);
    metrics.reset_ws_connections();
}

#[test]
fn test_ws_connection_closed_decrements() {
    let mut metrics = ConnectionMetrics::new();
    metrics.reset_ws_connections();
    metrics.ws_connection_opened();
    metrics.ws_connection_opened();
    metrics.ws_connection_opened();
    assert_eq!(metrics.get_active_ws_connections(), 3);

    metrics.ws_connection_closed();
    assert_eq!(metrics.get_active_ws_connections(), 2);

    metrics.ws_connection_closed();
    assert_eq!(metrics.get_active_ws_connections(), 1);

    metrics.reset_ws_connections();
}

#[test]
fn test_ws_connection_lifecycle() {
    let mut metrics = ConnectionMetrics::new();
    metrics.reset_ws_connections();

    // Simulate connections opening and closing
    metrics.ws_connection_opened();
    metrics.ws_connection_opened();
    assert_eq!(metrics.get_active_ws_connections(), 2);

    metrics.ws_connection_closed();
    assert_eq!(metrics.get_active_ws_connections(), 1);

    metrics.ws_connection_opened();
    assert_eq!(metrics.get_active_ws_connections(), 2);

    metrics.ws_connection_closed();
    metrics.ws_connection_closed();
    assert_eq!(metrics.get_active_ws_connections(), 0);

    metrics.reset_ws_connections();
}

#[test]
fn test_ws_connection_closed_never_goes_negative() {
    let mut metrics = ConnectionMetrics::new();
    metrics.ws_connection_closed();
    assert_eq!(metrics.get_active_ws_connections(), 0);
}
