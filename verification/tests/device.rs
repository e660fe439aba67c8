use webol_cli::cli::DeviceCmd;
use webol_cli::config::Config;
use webol_cli::requests::device::{device_body, device_request, Method};

fn config() -> Config {
    Config::new("k".to_string(), "srv:80".to_string())
}

#[test]
fn device_body_json() {
    assert_eq!(
        device_body("pc", "aa:bb:cc:dd:ee:ff", "10.0.0.255", "10.0.0.2"),
        r#"{"id": "pc", "mac": "aa:bb:cc:dd:ee:ff", "broadcast_addr": "10.0.0.255", "ip": "10.0.0.2"}"#
    );
}

#[test]
fn add_is_a_put_with_body() {
    let cmd = DeviceCmd::Add {
        id: "pc".to_string(),
        mac: "m".to_string(),
        broadcast_addr: "b".to_string(),
        ip: "i".to_string(),
    };
    let r = device_request(&config(), &cmd);
    assert_eq!(r.method, Method::Put);
    assert_eq!(r.url, "http://srv:80/device");
    assert_eq!(
        r.body.as_deref(),
        Some(r#"{"id": "pc", "mac": "m", "broadcast_addr": "b", "ip": "i"}"#)
    );
    assert!(r.echo_url);
}

#[test]
fn edit_is_a_post_with_body() {
    let cmd = DeviceCmd::Edit {
        id: "pc".to_string(),
        mac: "m".to_string(),
        broadcast_addr: "b".to_string(),
        ip: "i".to_string(),
    };
    let r = device_request(&config(), &cmd);
    assert_eq!(r.method, Method::Post);
    assert_eq!(r.url, "http://srv:80/device");
    assert!(r.body.is_some());
    assert!(!r.echo_url);
}

#[test]
fn get_is_a_get_of_the_device_path() {
    let cmd = DeviceCmd::Get { id: "pc".to_string() };
    let r = device_request(&config(), &cmd);
    assert_eq!(r.method, Method::Get);
    assert_eq!(r.url, "http://srv:80/device/pc");
    assert!(r.body.is_none());
    assert!(!r.echo_url);
}
