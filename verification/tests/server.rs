use webol_cli::config::Config;
use webol_cli::error::Error;
use webol_cli::headers::default_headers;
use webol_cli::server::{check_success, format_url, is_success, Protocols};

fn config() -> Config {
    Config::new("secret-key".to_string(), "localhost:7229".to_string())
}

#[test]
fn format_url_http() {
    let url = format_url(&config(), "start", &Protocols::Http);
    assert_eq!(url, "http://localhost:7229/start");
}

#[test]
fn format_url_websocket() {
    let url = format_url(&config(), "status", &Protocols::Websocket);
    assert_eq!(url, "ws://localhost:7229/status");
}

#[test]
fn protocol_names() {
    assert_eq!(Protocols::Http.to_string(), "http");
    assert_eq!(Protocols::Websocket.to_string(), "ws");
}

#[test]
fn success_statuses() {
    assert!(is_success(200));
    assert!(is_success(204));
    assert!(is_success(299));
    assert!(!is_success(199));
    assert!(!is_success(300));
    assert!(check_success(200).is_ok());
    assert!(check_success(201).is_ok());
}

#[test]
fn unauthorized_status() {
    assert!(matches!(check_success(401), Err(Error::Authorization)));
}

#[test]
fn other_error_statuses_carry_the_code() {
    assert!(matches!(check_success(404), Err(Error::HttpStatus(404))));
    assert!(matches!(check_success(500), Err(Error::HttpStatus(500))));
    assert!(matches!(check_success(302), Err(Error::HttpStatus(302))));
}

#[test]
fn default_headers_hold_the_three_headers() {
    let map = default_headers(&config()).unwrap();
    assert_eq!(map.len(), 3);
    assert_eq!(map.get("accept-content").unwrap(), "application/json");
    assert_eq!(map.get("content-type").unwrap(), "application/json");
    assert_eq!(map.get("authorization").unwrap(), "secret-key");
    assert_eq!(map.get_all("authorization").iter().count(), 1);
}

#[test]
fn default_headers_accept_tabs_and_non_ascii() {
    let c = Config::new("a\tb äö".to_string(), "h".to_string());
    let map = default_headers(&c).unwrap();
    assert_eq!(map.get("authorization").unwrap().as_bytes(), "a\tb äö".as_bytes());
}

#[test]
fn default_headers_refuse_a_newline_in_the_key() {
    let c = Config::new("bad\nkey".to_string(), "h".to_string());
    assert!(matches!(default_headers(&c), Err(Error::InvalidHeaderValue { .. })));
}

#[test]
fn default_headers_refuse_delete_in_the_key() {
    let c = Config::new("bad\u{7f}".to_string(), "h".to_string());
    assert!(matches!(default_headers(&c), Err(Error::InvalidHeaderValue { .. })));
}
