use vstd::prelude::*;
use crate::config::Config;
use crate::error::Error;

verus! {

/// The scheme of a URL of the server.
#[derive(Debug, Clone, Copy, PartialEq, Eq, Structural)]
pub enum Protocols {
    Http,
    Websocket,
}

impl Protocols {
    /// The scheme as it is written in a URL.
    pub open spec fn name(self) -> Seq<char> {
        match self {
            Protocols::Http => "http"@,
            Protocols::Websocket => "ws"@,
        }
    }

    /// The scheme as it is written in a URL (`http` or `ws`).
    pub fn to_string(&self) -> (r: String)
        ensures
            r@ == self.name(),
    {
        match self {
            Protocols::Http => String::from_str("http"),
            Protocols::Websocket => String::from_str("ws"),
        }
    }
}

/// The URL of `path` on `server` under `protocol`: `{protocol}://{server}/{path}`.
pub open spec fn url_spec(server: Seq<char>, path: Seq<char>, protocol: Protocols) -> Seq<char> {
    protocol.name() + "://"@ + server + "/"@ + path
}

/// The URL of `path` on the configured server.
pub fn format_url(config: &Config, path: &str, protocol: &Protocols) -> (r: String)
    ensures
        r@ == url_spec(config.server@, path@, *protocol),
{
    let mut r = protocol.to_string();
    r.append("://");
    r.append(config.server.as_str());
    r.append("/");
    r.append(path);
    r
}

/// A status in the 2xx range.
pub open spec fn is_success_status(status: u16) -> bool {
    200 <= status <= 299
}

/// Whether an HTTP status is a success (2xx), as `StatusCode::is_success` says.
pub fn is_success(status: u16) -> (r: bool)
    ensures
        r == is_success_status(status),
{
    200 <= status && status <= 299
}

/// How a response status is taken: a success lets the body be read, 401 is
/// an authorization failure, and any other status is an error that carries it.
pub open spec fn status_outcome(status: u16) -> Result<(), Error> {
    if is_success_status(status) {
        Ok(())
    } else if status == 401 {
        Err(Error::Authorization)
    } else {
        Err(Error::HttpStatus(status))
    }
}

/// Classifies a response status (see `status_outcome`).
pub fn check_success(status: u16) -> (r: Result<(), Error>)
    ensures
        r == status_outcome(status),
        200 <= status <= 299 ==> r == Ok::<(), Error>(()),
        status == 401 ==> r == Err::<(), Error>(Error::Authorization),
        (status < 200 || status > 299) && status != 401 ==> r == Err::<(), Error>(
            Error::HttpStatus(status),
        ),
{
    proof {
        law_status_classification(status);
    }
    if is_success(status) {
        Ok(())
    } else if status == 401 {
        Err(Error::Authorization)
    } else {
        Err(Error::HttpStatus(status))
    }
}

/// A status is classified by its value alone: every 2xx status succeeds,
/// 401 and only 401 is an authorization failure, and every other status is
/// an error that carries exactly that status.
pub proof fn law_status_classification(status: u16)
    ensures
        200 <= status <= 299 ==> status_outcome(status) == Ok::<(), Error>(()),
        status == 401 ==> status_outcome(status) == Err::<(), Error>(Error::Authorization),
        status_outcome(status) == Err::<(), Error>(Error::Authorization) ==> status == 401,
        (status < 200 || status > 299) && status != 401 ==> status_outcome(status) == Err::<
            (),
            Error,
        >(Error::HttpStatus(status)),
        status_outcome(status) is Ok ==> 200 <= status <= 299,
{
}

/// A URL is made of its parts verbatim: the scheme (`http` or `ws`), `://`,
/// the server, `/`, and the path.
pub proof fn law_url_parts(server: Seq<char>, path: Seq<char>, protocol: Protocols)
    ensures
        ({
            let u = url_spec(server, path, protocol);
            let scheme = if protocol == Protocols::Http {
                seq!['h', 't', 't', 'p']
            } else {
                seq!['w', 's']
            };
            let k = scheme.len() as int;
            &&& u.len() == k + 3 + server.len() + 1 + path.len()
            &&& u.subrange(0, k) == scheme
            &&& u.subrange(k, k + 3) == seq![':', '/', '/']
            &&& u.subrange(k + 3, k + 3 + server.len()) == server
            &&& u[k + 3 + server.len()] == '/'
            &&& u.subrange(k + 4 + server.len(), u.len() as int) == path
        }),
{
    reveal_strlit("http");
    reveal_strlit("ws");
    reveal_strlit("://");
    reveal_strlit("/");
    let u = url_spec(server, path, protocol);
    let scheme = protocol.name();
    let k = scheme.len() as int;
    if protocol == Protocols::Http {
        assert(scheme =~= seq!['h', 't', 't', 'p']);
    } else {
        assert(scheme =~= seq!['w', 's']);
    }
    assert(u.subrange(0, k) =~= scheme);
    assert(u.subrange(k, k + 3) =~= seq![':', '/', '/']);
    assert(u.subrange(k + 3, k + 3 + server.len()) =~= server);
    assert(u.subrange(k + 4 + server.len(), u.len() as int) =~= path);
}

} // verus!
