use reqly::endpoint::{endpoint, InvalidUrl};

#[test]
fn websocket_address_is_read() {
    assert_eq!(endpoint("ws://localhost:8765"), Ok("ws://localhost:8765/".to_string()));
    assert_eq!(endpoint("ws://host/echo"), Ok("ws://host/echo".to_string()));
}

#[test]
fn address_comes_back_in_normal_form() {
    assert_eq!(endpoint("WS://EXAMPLE.com:80/a/../b"), Ok("ws://example.com/b".to_string()));
    assert_eq!(endpoint("  wss://example.com  "), Ok("wss://example.com/".to_string()));
}

#[test]
fn text_without_a_scheme_is_no_address() {
    assert_eq!(endpoint("/echo"), Err(InvalidUrl { reason: "relative URL without a base".to_string() }));
    assert_eq!(endpoint("host/echo"), Err(InvalidUrl { reason: "relative URL without a base".to_string() }));
    assert_eq!(endpoint(""), Err(InvalidUrl { reason: "relative URL without a base".to_string() }));
}

#[test]
fn text_before_a_colon_is_read_as_the_scheme() {
    assert_eq!(endpoint("localhost:8765"), Ok("localhost:8765".to_string()));
}

#[test]
fn defective_addresses_are_described() {
    assert_eq!(endpoint("ws://"), Err(InvalidUrl { reason: "empty host".to_string() }));
    assert_eq!(endpoint("ws://host:99999/"), Err(InvalidUrl { reason: "invalid port number".to_string() }));
    assert_eq!(endpoint("ws://[::1/"), Err(InvalidUrl { reason: "invalid IPv6 address".to_string() }));
}
