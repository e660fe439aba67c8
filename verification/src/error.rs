use vstd::prelude::*;

verus! {

/// Why a decimal integer could not be read (the kinds that `u64::from_str` reports).
#[derive(Debug, Clone, Copy, PartialEq, Eq, Structural)]
pub enum ParseIntErrorKind {
    /// The text was empty.
    Empty,
    /// A character that is not a decimal digit was met first.
    InvalidDigit,
    /// The number does not fit in a `u64`.
    PosOverflow,
}

/// Errors that the library's own logic produces.
#[derive(Debug)]
pub enum Error {
    /// A header value held a byte that HTTP does not allow there.
    InvalidHeaderValue { source: reqwest::header::InvalidHeaderValue },
    /// A number in a server message could not be read.
    Parse { kind: ParseIntErrorKind },
    /// A websocket message did not have the expected shape.
    WsResponse,
    /// The server answered 401.
    Authorization,
    /// The server answered with another non-success status.
    HttpStatus(u16),
}

} // verus!
