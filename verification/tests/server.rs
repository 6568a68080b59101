use tokio_channels_console::server::{
    bind_failure_message, listening_message, metrics_addr, metrics_port, metrics_reply,
    metrics_url, not_found_reply, port_variable, route, Route, DEFAULT_METRICS_PORT,
};

#[test]
fn default_port_is_6770() {
    assert_eq!(DEFAULT_METRICS_PORT, 6770);
    assert_eq!(metrics_port(None, None), 6770);
}

#[test]
fn configured_port_comes_first() {
    assert_eq!(metrics_port(Some(8080), Some("9090")), 8080);
    assert_eq!(metrics_port(Some(0), None), 0);
}

#[test]
fn variable_overrides_the_default() {
    assert_eq!(metrics_port(None, Some("9090")), 9090);
    assert_eq!(metrics_port(None, Some("0")), 0);
    assert_eq!(metrics_port(None, Some("65535")), 65535);
    assert_eq!(metrics_port(None, Some("+80")), 80);
    assert_eq!(metrics_port(None, Some("00080")), 80);
}

#[test]
fn variable_that_is_no_port_gives_the_default() {
    for value in ["", "abc", "65536", "-1", " 80", "80 ", "8_0", "+", "99999999999999999999999"] {
        assert_eq!(metrics_port(None, Some(value)), 6770);
    }
}

#[test]
fn port_parsing_agrees_with_std() {
    for value in ["1", "+1", "-0", "065535", "65536", "６７", "0x10", "1e3", "++1", "٣"] {
        let want = value.parse::<u16>().unwrap_or(6770);
        assert_eq!(metrics_port(None, Some(value)), want);
    }
}

#[test]
fn variable_is_named() {
    assert_eq!(port_variable(), "TOKIO_CHANNELS_CONSOLE_METRICS_PORT");
}

#[test]
fn address_is_on_the_loopback() {
    assert_eq!(metrics_addr(6770), "127.0.0.1:6770");
    assert_eq!(metrics_addr(0), "127.0.0.1:0");
    assert_eq!(metrics_addr(65535), "127.0.0.1:65535");
    assert_eq!(metrics_url(6770), "http://127.0.0.1:6770/metrics");
}

#[test]
fn messages_name_the_address() {
    assert_eq!(
        listening_message("127.0.0.1:6770"),
        "Channel metrics server listening on http://127.0.0.1:6770"
    );
    assert_eq!(
        bind_failure_message("127.0.0.1:6770", "Address already in use"),
        "Failed to bind metrics server to 127.0.0.1:6770: Address already in use. Customize the port using the TOKIO_CHANNELS_CONSOLE_METRICS_PORT environment variable."
    );
}

#[test]
fn only_get_metrics_is_served() {
    assert_eq!(route("GET", "/metrics"), Route::Metrics);
    assert_eq!(route("POST", "/metrics"), Route::NotFound);
    assert_eq!(route("get", "/metrics"), Route::NotFound);
    assert_eq!(route("GET", "/"), Route::NotFound);
    assert_eq!(route("GET", "/metrics/"), Route::NotFound);
    assert_eq!(route("GET", "/metrics?x=1"), Route::NotFound);
    assert_eq!(route("GET", "metrics"), Route::NotFound);
    assert_eq!(route("", ""), Route::NotFound);
}

#[test]
fn metrics_are_answered_with_json() {
    let reply = metrics_reply(Ok("[]".to_string()));
    assert_eq!(reply.status, 200);
    assert!(reply.json);
    assert_eq!(reply.body, "[]");
    assert!(reply.diagnostic.is_none());
}

#[test]
fn failed_serialization_is_answered_with_500() {
    let reply = metrics_reply(Err("key must be a string".to_string()));
    assert_eq!(reply.status, 500);
    assert!(!reply.json);
    assert_eq!(reply.body, "Internal server error: key must be a string");
    assert_eq!(
        reply.diagnostic.as_deref(),
        Some("Failed to serialize metrics: key must be a string")
    );
}

#[test]
fn anything_else_is_not_found() {
    let reply = not_found_reply();
    assert_eq!(reply.status, 404);
    assert!(!reply.json);
    assert_eq!(reply.body, "Not found");
    assert!(reply.diagnostic.is_none());
}
