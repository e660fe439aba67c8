use vstd::prelude::*;
use crate::cli::DeviceCmd;
use crate::config::Config;
use crate::server::{format_url, url_spec, Protocols};

verus! {

/// The HTTP method of a device request.
#[derive(Debug, Clone, Copy, PartialEq, Eq, Structural)]
pub enum Method {
    Put,
    Get,
    Post,
}

/// A device request, ready to be sent.
pub struct DeviceRequest {
    pub method: Method,
    pub url: String,
    /// The JSON body, if the request has one.
    pub body: Option<String>,
    /// Whether the URL is printed before the request is sent.
    pub echo_url: bool,
}

/// The JSON body that describes a device:
/// `{"id": "{id}", "mac": "{mac}", "broadcast_addr": "{broadcast_addr}", "ip": "{ip}"}`.
/// The fields are written as they are, without escaping.
pub open spec fn device_body_spec(
    id: Seq<char>,
    mac: Seq<char>,
    broadcast_addr: Seq<char>,
    ip: Seq<char>,
) -> Seq<char> {
    "{\"id\": \""@ + id + "\", \"mac\": \""@ + mac + "\", \"broadcast_addr\": \""@ + broadcast_addr
        + "\", \"ip\": \""@ + ip + "\"}"@
}

/// `b` is `{"id": "`, `id`, `", "mac": "`, `mac`, `", "broadcast_addr": "`,
/// `broadcast_addr`, `", "ip": "`, `ip` and `"}`, each field verbatim at its
/// place.
pub open spec fn device_body_fields(
    b: Seq<char>,
    id: Seq<char>,
    mac: Seq<char>,
    broadcast_addr: Seq<char>,
    ip: Seq<char>,
) -> bool {
    let p1: int = 8 + id.len() as int;
    let p2: int = p1 + 11 + mac.len();
    let p3: int = p2 + 22 + broadcast_addr.len();
    let p4: int = p3 + 10 + ip.len();
    &&& b.len() == p4 + 2
    &&& b.subrange(0, 8) == seq!['{', '"', 'i', 'd', '"', ':', ' ', '"']
    &&& b.subrange(8, p1) == id
    &&& b.subrange(p1, p1 + 11) == seq!['"', ',', ' ', '"', 'm', 'a', 'c', '"', ':', ' ', '"']
    &&& b.subrange(p1 + 11, p2) == mac
    &&& b.subrange(p2, p2 + 22) == seq![
        '"',
        ',',
        ' ',
        '"',
        'b',
        'r',
        'o',
        'a',
        'd',
        'c',
        'a',
        's',
        't',
        '_',
        'a',
        'd',
        'd',
        'r',
        '"',
        ':',
        ' ',
        '"',
    ]
    &&& b.subrange(p2 + 22, p3) == broadcast_addr
    &&& b.subrange(p3, p3 + 10) == seq!['"', ',', ' ', '"', 'i', 'p', '"', ':', ' ', '"']
    &&& b.subrange(p3 + 10, p4) == ip
    &&& b.subrange(p4, p4 + 2) == seq!['"', '}']
}

/// A device body holds each of the four fields verbatim, between the fixed
/// JSON pieces, in the order id, mac, broadcast address, ip.
pub proof fn law_device_body_fields(
    id: Seq<char>,
    mac: Seq<char>,
    broadcast_addr: Seq<char>,
    ip: Seq<char>,
)
    ensures
        ({
            let b = device_body_spec(id, mac, broadcast_addr, ip);
            let p1: int = 8 + id.len() as int;
            let p2: int = p1 + 11 + mac.len();
            let p3: int = p2 + 22 + broadcast_addr.len();
            let p4: int = p3 + 10 + ip.len();
            &&& b.len() == p4 + 2
            &&& b.subrange(0, 8) == seq!['{', '"', 'i', 'd', '"', ':', ' ', '"']
            &&& b.subrange(8, p1) == id
            &&& b.subrange(p1, p1 + 11) == seq!['"', ',', ' ', '"', 'm', 'a', 'c', '"', ':', ' ', '"']
            &&& b.subrange(p1 + 11, p2) == mac
            &&& b.subrange(p2, p2 + 22) == seq!['"', ',', ' ', '"', 'b', 'r', 'o', 'a', 'd', 'c',
                'a', 's', 't', '_', 'a', 'd', 'd', 'r', '"', ':', ' ', '"']
            &&& b.subrange(p2 + 22, p3) == broadcast_addr
            &&& b.subrange(p3, p3 + 10) == seq!['"', ',', ' ', '"', 'i', 'p', '"', ':', ' ', '"']
            &&& b.subrange(p3 + 10, p4) == ip
            &&& b.subrange(p4, p4 + 2) == seq!['"', '}']
        }),
        device_body_fields(device_body_spec(id, mac, broadcast_addr, ip), id, mac, broadcast_addr, ip),
{
    reveal_strlit("{\"id\": \"");
    reveal_strlit("\", \"mac\": \"");
    reveal_strlit("\", \"broadcast_addr\": \"");
    reveal_strlit("\", \"ip\": \"");
    reveal_strlit("\"}");
    let b = device_body_spec(id, mac, broadcast_addr, ip);
    let p1: int = 8 + id.len() as int;
    let p2: int = p1 + 11 + mac.len();
    let p3: int = p2 + 22 + broadcast_addr.len();
    let p4: int = p3 + 10 + ip.len();
    assert(b.subrange(0, 8) =~= seq!['{', '"', 'i', 'd', '"', ':', ' ', '"']);
    assert(b.subrange(8, p1) =~= id);
    assert(b.subrange(p1, p1 + 11) =~= seq!['"', ',', ' ', '"', 'm', 'a', 'c', '"', ':', ' ', '"']);
    assert(b.subrange(p1 + 11, p2) =~= mac);
    assert(b.subrange(p2, p2 + 22) =~= seq!['"', ',', ' ', '"', 'b', 'r', 'o', 'a', 'd',
        'c', 'a', 's', 't', '_', 'a', 'd', 'd', 'r', '"', ':', ' ', '"']);
    assert(b.subrange(p2 + 22, p3) =~= broadcast_addr);
    assert(b.subrange(p3, p3 + 10) =~= seq!['"', ',', ' ', '"', 'i', 'p', '"', ':', ' ', '"']);
    assert(b.subrange(p3 + 10, p4) =~= ip);
    assert(b.subrange(p4, p4 + 2) =~= seq!['"', '}']);
}

/// The path of one device is `device/` followed by the id verbatim.
pub proof fn law_device_path(id: Seq<char>)
    ensures
        device_path(id).len() == 7 + id.len(),
        device_path(id).subrange(0, 7) == seq!['d', 'e', 'v', 'i', 'c', 'e', '/'],
        device_path(id).subrange(7, device_path(id).len() as int) == id,
{
    reveal_strlit("device/");
    assert(device_path(id).subrange(0, 7) =~= seq!['d', 'e', 'v', 'i', 'c', 'e', '/']);
    assert(device_path(id).subrange(7, device_path(id).len() as int) =~= id);
}

/// The JSON body that describes a device (see `device_body_spec`).
pub fn device_body(id: &str, mac: &str, broadcast_addr: &str, ip: &str) -> (r: String)
    ensures
        r@ == device_body_spec(id@, mac@, broadcast_addr@, ip@),
        device_body_fields(r@, id@, mac@, broadcast_addr@, ip@),
{
    proof {
        law_device_body_fields(id@, mac@, broadcast_addr@, ip@);
    }
    let mut r = String::from_str("{\"id\": \"");
    r.append(id);
    r.append("\", \"mac\": \"");
    r.append(mac);
    r.append("\", \"broadcast_addr\": \"");
    r.append(broadcast_addr);
    r.append("\", \"ip\": \"");
    r.append(ip);
    r.append("\"}");
    r
}

/// The path of one device: `device/{id}`.
pub open spec fn device_path(id: Seq<char>) -> Seq<char> {
    "device/"@ + id
}

/// The request a device command makes: adding is a `PUT` of the device to
/// `device` (whose URL is printed first), editing a `POST` of it to `device`,
/// and showing a `GET` of `device/{id}` without a body.
pub fn device_request(config: &Config, cmd: &DeviceCmd) -> (r: DeviceRequest)
    ensures
        match cmd {
            DeviceCmd::Add { id, mac, broadcast_addr, ip } => {
                &&& r.method == Method::Put
                &&& r.url@ == url_spec(config.server@, "device"@, Protocols::Http)
                &&& r.body matches Some(b)
                &&& r.body->0@ == device_body_spec(id@, mac@, broadcast_addr@, ip@)
                &&& r.echo_url
            },
            DeviceCmd::Get { id } => {
                &&& r.method == Method::Get
                &&& r.url@ == url_spec(config.server@, device_path(id@), Protocols::Http)
                &&& r.url@ == url_spec(
                    config.server@,
                    seq!['d', 'e', 'v', 'i', 'c', 'e', '/'] + id@,
                    Protocols::Http,
                )
                &&& r.body is None
                &&& !r.echo_url
            },
            DeviceCmd::Edit { id, mac, broadcast_addr, ip } => {
                &&& r.method == Method::Post
                &&& r.url@ == url_spec(config.server@, "device"@, Protocols::Http)
                &&& r.body matches Some(b)
                &&& r.body->0@ == device_body_spec(id@, mac@, broadcast_addr@, ip@)
                &&& !r.echo_url
            },
        },
{
    if let DeviceCmd::Get { id } = cmd {
        proof {
            law_device_path(id@);
            assert(device_path(id@) =~= seq!['d', 'e', 'v', 'i', 'c', 'e', '/'] + id@);
        }
    }
    match cmd {
        DeviceCmd::Add { id, mac, broadcast_addr, ip } => DeviceRequest {
            method: Method::Put,
            url: format_url(config, "device", &Protocols::Http),
            body: Some(device_body(id.as_str(), mac.as_str(), broadcast_addr.as_str(), ip.as_str())),
            echo_url: true,
        },
        DeviceCmd::Get { id } => {
            let mut path = String::from_str("device/");
            path.append(id.as_str());
            DeviceRequest {
                method: Method::Get,
                url: format_url(config, path.as_str(), &Protocols::Http),
                body: None,
                echo_url: false,
            }
        },
        DeviceCmd::Edit { id, mac, broadcast_addr, ip } => DeviceRequest {
            method: Method::Post,
            url: format_url(config, "device", &Protocols::Http),
            body: Some(device_body(id.as_str(), mac.as_str(), broadcast_addr.as_str(), ip.as_str())),
            echo_url: false,
        },
    }
}

} // verus!
