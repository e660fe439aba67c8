use vstd::prelude::*;
use crate::error::Error;
use crate::text::{
    split_spec, split_char, str_eq, parse_u64, parse_u64_spec, push_char, push_two_digits,
    two_digits, lemma_split_nonempty, views, decimal_spec, lemma_decimal_digits,
    lemma_parse_decimal, lemma_split_concat, lemma_split_single, is_digit, digits_value,
    digit_char, digit_value,
};

verus! {

/// What the status socket may report about a start.
#[derive(Debug, Clone, Copy, PartialEq, Eq, Structural)]
pub enum ResponseType {
    Start,
    Timeout,
    NotFound,
}

/// A status message, checked against the uuid of the start it should be about.
#[derive(Debug, Clone, Copy, PartialEq, Eq, Structural)]
pub enum Verified {
    ResponseType(ResponseType),
    WrongUuid,
}

/// The name of a report in a status message.
pub open spec fn response_type_spec(value: Seq<char>) -> Result<ResponseType, Error> {
    if value == "start"@ {
        Ok(ResponseType::Start)
    } else if value == "timeout"@ {
        Ok(ResponseType::Timeout)
    } else if value == "notfound"@ {
        Ok(ResponseType::NotFound)
    } else {
        Err(Error::WsResponse)
    }
}

impl ResponseType {
    /// Reads the name of a report: `start`, `timeout` or `notfound`; any
    /// other text is a malformed message.
    pub fn from(value: &str) -> (r: Result<Self, Error>)
        ensures
            r == response_type_spec(value@),
    {
        if str_eq(value, "start") {
            Ok(ResponseType::Start)
        } else if str_eq(value, "timeout") {
            Ok(ResponseType::Timeout)
        } else if str_eq(value, "notfound") {
            Ok(ResponseType::NotFound)
        } else {
            Err(Error::WsResponse)
        }
    }
}

/// `secs` seconds as `HH:MM:SS`, where the hours are taken modulo 60.
pub open spec fn clock_spec(secs: u64) -> Seq<char> {
    let sec = secs % 60;
    let min = (secs / 60) % 60;
    let hou = (secs / 3600) % 60;
    two_digits(hou as int) + seq![':'] + two_digits(min as int) + seq![':'] + two_digits(
        sec as int,
    )
}

/// A message `get_eta` can read without indexing past its parts: one that
/// starts with `eta` has at least three `_`-separated parts.
pub open spec fn eta_readable(msg: Seq<char>) -> bool {
    let parts = split_spec(msg, '_');
    parts[0] == "eta"@ ==> parts.len() >= 3
}

/// What an `eta_{seconds}_{uuid}` message says for the start with `uuid`:
/// the time left as `HH:MM:SS`. Another first part, or another uuid in the
/// third part, is a malformed message; seconds that are no `u64` are a
/// parse error.
pub open spec fn eta_spec(msg: Seq<char>, uuid: Seq<char>) -> Result<Seq<char>, Error> {
    let parts = split_spec(msg, '_');
    if parts[0] != "eta"@ || parts[2] != uuid {
        Err(Error::WsResponse)
    } else {
        match parse_u64_spec(parts[1]) {
            Ok(secs) => Ok(clock_spec(secs)),
            Err(kind) => Err(Error::Parse { kind }),
        }
    }
}

/// Reads the expected start time from a status message (see `eta_spec`).
pub fn get_eta(msg: &str, uuid: &str) -> (r: Result<String, Error>)
    requires
        eta_readable(msg@),
    ensures
        match r {
            Ok(t) => eta_spec(msg@, uuid@) == Ok::<Seq<char>, Error>(t@),
            Err(e) => eta_spec(msg@, uuid@) == Err::<Seq<char>, Error>(e),
        },
{
    let spl = split_char(msg, '_');
    proof {
        lemma_split_nonempty(msg@, '_');
        assert(views(spl@)[0] == spl@[0]@);
    }
    if !str_eq(spl[0].as_str(), "eta") {
        return Err(Error::WsResponse);
    }
    assert(views(spl@)[2] == spl@[2]@);
    if !str_eq(spl[2].as_str(), uuid) {
        return Err(Error::WsResponse);
    }
    assert(views(spl@)[1] == spl@[1]@);
    let input = match parse_u64(spl[1].as_str()) {
        Ok(v) => v,
        Err(kind) => return Err(Error::Parse { kind }),
    };
    let sec = input % 60;
    let min = (input / 60) % 60;
    let hou = (input / (60 * 60)) % 60;
    let mut out = String::new();
    push_two_digits(&mut out, hou);
    push_char(&mut out, ':');
    push_two_digits(&mut out, min);
    push_char(&mut out, ':');
    push_two_digits(&mut out, sec);
    assert(out@ =~= clock_spec(input));
    Ok(out)
}

/// A message `verify_response` can read: it has at least two parts.
pub open spec fn verdict_readable(res: Seq<char>) -> bool {
    split_spec(res, '_').len() >= 2
}

/// What a `{type}_{uuid}` message says about the start with `org_uuid`:
/// another uuid means the message is about another start; otherwise the type
/// is read by `response_type_spec`.
pub open spec fn verify_response_spec(res: Seq<char>, org_uuid: Seq<char>) -> Result<Verified, Error> {
    let parts = split_spec(res, '_');
    if parts[1] != org_uuid {
        Ok(Verified::WrongUuid)
    } else {
        match response_type_spec(parts[0]) {
            Ok(t) => Ok(Verified::ResponseType(t)),
            Err(e) => Err(e),
        }
    }
}

/// Reads the final status message of a start (see `verify_response_spec`).
pub fn verify_response(res: &str, org_uuid: &str) -> (r: Result<Verified, Error>)
    requires
        verdict_readable(res@),
    ensures
        r == verify_response_spec(res@, org_uuid@),
{
    let spl = split_char(res, '_');
    assert(views(spl@)[0] == spl@[0]@);
    assert(views(spl@)[1] == spl@[1]@);
    if !str_eq(spl[1].as_str(), org_uuid) {
        return Ok(Verified::WrongUuid);
    }
    match ResponseType::from(spl[0].as_str()) {
        Ok(t) => Ok(Verified::ResponseType(t)),
        Err(e) => Err(e),
    }
}


/// The name under which the status socket reports `t`.
pub open spec fn response_name(t: ResponseType) -> Seq<char> {
    match t {
        ResponseType::Start => "start"@,
        ResponseType::Timeout => "timeout"@,
        ResponseType::NotFound => "notfound"@,
    }
}

/// Each report is read back from its name, so the three names are told apart.
pub proof fn law_response_type_from_name(t: ResponseType)
    ensures
        response_type_spec(response_name(t)) == Ok::<ResponseType, Error>(t),
{
    reveal_strlit("start");
    reveal_strlit("timeout");
    reveal_strlit("notfound");
    assert("start"@.len() == 5 && "timeout"@.len() == 7 && "notfound"@.len() == 8);
    match t {
        ResponseType::Start => {},
        ResponseType::Timeout => {
            assert("timeout"@ != "start"@);
        },
        ResponseType::NotFound => {
            assert("notfound"@ != "start"@);
            assert("notfound"@ != "timeout"@);
        },
    }
}

/// The expected-time message the status socket sends for the start with
/// `uuid`: `eta_{secs}_{uuid}`.
pub open spec fn eta_message(secs: u64, uuid: Seq<char>) -> Seq<char> {
    "eta"@ + seq!['_'] + decimal_spec(secs as nat) + seq!['_'] + uuid
}

/// A decimal writing holds no `_`.
proof fn lemma_decimal_no_underscore(n: nat)
    ensures
        !decimal_spec(n).contains('_'),
{
    lemma_decimal_digits(n);
    if decimal_spec(n).contains('_') {
        let j = choose|j: int| 0 <= j < decimal_spec(n).len() && decimal_spec(n)[j] == '_';
        assert(is_digit(decimal_spec(n)[j]));
    }
}

/// An expected-time message for `secs` and a uuid without `_` is read as
/// `secs` on the clock when it is about the awaited start, and as a
/// malformed message when it is about another one.
pub proof fn law_eta_message_read(secs: u64, uuid: Seq<char>, awaited: Seq<char>)
    requires
        !uuid.contains('_'),
    ensures
        eta_readable(eta_message(secs, uuid)),
        eta_spec(eta_message(secs, uuid), awaited) == if uuid == awaited {
            Ok::<Seq<char>, Error>(clock_spec(secs))
        } else {
            Err::<Seq<char>, Error>(Error::WsResponse)
        },
{
    reveal_strlit("eta");
    let d = decimal_spec(secs as nat);
    lemma_decimal_no_underscore(secs as nat);
    assert(!"eta"@.contains('_')) by {
        if "eta"@.contains('_') {
            let j = choose|j: int| 0 <= j < "eta"@.len() && "eta"@[j] == '_';
        }
    }
    lemma_split_concat("eta"@ + seq!['_'] + d, uuid, '_');
    lemma_split_concat("eta"@, d, '_');
    lemma_split_single("eta"@, '_');
    lemma_split_single(d, '_');
    lemma_split_single(uuid, '_');
    assert(split_spec(eta_message(secs, uuid), '_') =~= seq!["eta"@, d, uuid]);
    lemma_parse_decimal(secs);
}

/// Two digits of `n` (below 100) read back as `n`.
proof fn lemma_two_digits(n: int)
    requires
        0 <= n < 100,
    ensures
        two_digits(n).len() == 2,
        is_digit(two_digits(n)[0]),
        is_digit(two_digits(n)[1]),
        digits_value(two_digits(n)) == n,
{
    let t = two_digits(n);
    assert(digit_char(n / 10) as int == n / 10 + 48);
    assert(digit_char(n % 10) as int == n % 10 + 48);
    assert(t.drop_last().drop_last() =~= Seq::<char>::empty());
    let t0 = t.drop_last();
    assert(t0 =~= seq![digit_char(n / 10)]);
    assert(t0.drop_last() =~= Seq::<char>::empty());
    assert(digits_value(t0) == digits_value(t0.drop_last()) * 10 + digit_value(t0.last()));
    assert(digits_value(t0) == n / 10);
    assert(digits_value(t) == digits_value(t0) * 10 + digit_value(t.last()));
    assert(n == (n / 10) * 10 + n % 10);
}

/// The clock always reads `HH:MM:SS`: two digits each for the hours (modulo
/// 60), minutes and seconds of `secs`, separated by colons.
pub proof fn law_clock_shape(secs: u64)
    ensures
        clock_spec(secs).len() == 8,
        clock_spec(secs)[2] == ':',
        clock_spec(secs)[5] == ':',
        forall|j: int|
            0 <= j < 8 && j != 2 && j != 5 ==> is_digit(#[trigger] clock_spec(secs)[j]),
        digits_value(clock_spec(secs).subrange(0, 2)) == (secs / 3600) % 60,
        digits_value(clock_spec(secs).subrange(3, 5)) == (secs / 60) % 60,
        digits_value(clock_spec(secs).subrange(6, 8)) == secs % 60,
{
    let c = clock_spec(secs);
    let h = two_digits(((secs / 3600) % 60) as int);
    let m = two_digits(((secs / 60) % 60) as int);
    let s = two_digits((secs % 60) as int);
    lemma_two_digits(((secs / 3600) % 60) as int);
    lemma_two_digits(((secs / 60) % 60) as int);
    lemma_two_digits((secs % 60) as int);
    assert(c.subrange(0, 2) =~= h);
    assert(c.subrange(3, 5) =~= m);
    assert(c.subrange(6, 8) =~= s);
    assert(c =~= seq![h[0], h[1], ':', m[0], m[1], ':', s[0], s[1]]);
}

/// The final message the status socket sends about the start with `uuid`:
/// `{type}_{uuid}`.
pub open spec fn verdict_message_text(t: ResponseType, uuid: Seq<char>) -> Seq<char> {
    response_name(t) + seq!['_'] + uuid
}

/// A final message with a uuid without `_` is read as its report when it is
/// about the awaited start, and as being about another start otherwise.
pub proof fn law_verdict_message_read(t: ResponseType, uuid: Seq<char>, awaited: Seq<char>)
    requires
        !uuid.contains('_'),
    ensures
        verdict_readable(verdict_message_text(t, uuid)),
        verify_response_spec(verdict_message_text(t, uuid), awaited) == if uuid == awaited {
            Ok::<Verified, Error>(Verified::ResponseType(t))
        } else {
            Ok::<Verified, Error>(Verified::WrongUuid)
        },
{
    reveal_strlit("start");
    reveal_strlit("timeout");
    reveal_strlit("notfound");
    let name = response_name(t);
    assert(!name.contains('_')) by {
        if name.contains('_') {
            let j = choose|j: int| 0 <= j < name.len() && name[j] == '_';
        }
    }
    lemma_split_concat(name, uuid, '_');
    lemma_split_single(name, '_');
    lemma_split_single(uuid, '_');
    assert(split_spec(verdict_message_text(t, uuid), '_') =~= seq![name, uuid]);
    law_response_type_from_name(t);
}

/// Only the three report names are read, each as its own report.
pub proof fn law_response_type_names(value: Seq<char>)
    ensures
        response_type_spec(value) == Ok::<ResponseType, Error>(ResponseType::Start) <==> value
            == seq!['s', 't', 'a', 'r', 't'],
        response_type_spec(value) == Ok::<ResponseType, Error>(ResponseType::Timeout) <==> value
            == seq!['t', 'i', 'm', 'e', 'o', 'u', 't'],
        response_type_spec(value) == Ok::<ResponseType, Error>(ResponseType::NotFound) <==> value
            == seq!['n', 'o', 't', 'f', 'o', 'u', 'n', 'd'],
        response_type_spec(value) is Err ==> response_type_spec(value) == Err::<
            ResponseType,
            Error,
        >(Error::WsResponse),
{
    reveal_strlit("start");
    reveal_strlit("timeout");
    reveal_strlit("notfound");
    assert("start"@ =~= seq!['s', 't', 'a', 'r', 't']);
    assert("timeout"@ =~= seq!['t', 'i', 'm', 'e', 'o', 'u', 't']);
    assert("notfound"@ =~= seq!['n', 'o', 't', 'f', 'o', 'u', 'n', 'd']);
}

/// The lines shown during a start carry their data verbatim at their end:
/// the closing overview ends with the device the server named, the eta
/// overview starts with `/` and the time and ends with ` start ` and the
/// asked id, and a refusal ends with the server's error text.
pub proof fn law_messages_carry_data(
    started: bool,
    device: Seq<char>,
    eta: Seq<char>,
    id: Seq<char>,
    error: Seq<char>,
)
    ensures
        ({
            let o = final_overview(started, device);
            let head = if started {
                seq!['s', 'u', 'c', 'c', 'e', 's', 's', 'f', 'u', 'l', 'l', 'y', ' ', 's', 't', 'a',
                    'r', 't', 'e', 'd', ' ']
            } else {
                seq!['e', 'r', 'r', 'o', 'r', ' ', 'w', 'h', 'i', 'l', 'e', ' ', 's', 't', 'a',
                    'r', 't', 'i', 'n', 'g', ' ']
            };
            &&& o.len() == (head.len() as int) + (device.len() as int)
            &&& o.subrange(0, (head.len() as int) as int) == head
            &&& o.subrange((head.len() as int) as int, o.len() as int) == device
        }),
        ({
            let e = eta_overview(eta, id);
            &&& e.len() == 1 + (eta.len() as int) + 8 + id.len()
            &&& e[0] == '/'
            &&& e.subrange(1, 1 + (eta.len() as int)) == eta
            &&& e.subrange(1 + (eta.len() as int), 9 + (eta.len() as int)) == seq![')', ' ', 's', 't', 'a', 'r', 't', ' ']
            &&& e.subrange(9 + (eta.len() as int), e.len() as int) == id
        }),
        ({
            let m = refusal_message(error);
            &&& m.len() >= (error.len() as int)
            &&& m.subrange((m.len() as int) - (error.len() as int), m.len() as int) == error
        }),
{
    reveal_strlit("successfully started ");
    reveal_strlit("error while starting ");
    reveal_strlit("/");
    reveal_strlit(") start ");
    let o = final_overview(started, device);
    if started {
        assert("successfully started "@ =~= seq!['s', 'u', 'c', 'c', 'e', 's', 's', 'f', 'u',
            'l', 'l', 'y', ' ', 's', 't', 'a', 'r', 't', 'e', 'd', ' ']);
        assert(o.subrange(0, 21) =~= "successfully started "@);
    } else {
        assert("error while starting "@ =~= seq!['e', 'r', 'r', 'o', 'r', ' ', 'w', 'h', 'i',
            'l', 'e', ' ', 's', 't', 'a', 'r', 't', 'i', 'n', 'g', ' ']);
        assert(o.subrange(0, 21) =~= "error while starting "@);
    }
    assert(o.subrange(21, o.len() as int) =~= device);
    let e = eta_overview(eta, id);
    assert(e.subrange(1, 1 + (eta.len() as int)) =~= eta);
    assert(e.subrange(1 + (eta.len() as int), 9 + (eta.len() as int)) =~= seq![')', ' ', 's', 't', 'a', 'r', 't', ' ']);
    assert(e.subrange(9 + (eta.len() as int), e.len() as int) =~= id);
    let m = refusal_message(error);
    assert(m.subrange((m.len() as int) - (error.len() as int), m.len() as int) =~= error);
}

/// `true` or `false`, as `bool` is displayed.
pub open spec fn bool_text(b: bool) -> Seq<char> {
    if b {
        "true"@
    } else {
        "false"@
    }
}

/// The body of a start request: `{"id": "{id}", "ping": {ping}}`.
pub open spec fn start_body_spec(id: Seq<char>, ping: bool) -> Seq<char> {
    "{\"id\": \""@ + id + "\", \"ping\": "@ + bool_text(ping) + "}"@
}

/// A start body is `{"id": "`, then the id verbatim, then `", "ping": `,
/// then `true` or `false` as `ping` says, then `}`; so the id and the flag
/// can be read back from it.
pub proof fn law_start_body_fields(id: Seq<char>, ping: bool)
    ensures
        ({
            let b = start_body_spec(id, ping);
            let n = id.len() as int;
            let flag = if ping {
                seq!['t', 'r', 'u', 'e']
            } else {
                seq!['f', 'a', 'l', 's', 'e']
            };
            &&& b.len() == 20 + n + flag.len()
            &&& b.subrange(0, 8) == seq!['{', '"', 'i', 'd', '"', ':', ' ', '"']
            &&& b.subrange(8, 8 + n) == id
            &&& b.subrange(8 + n, 19 + n) == seq![
                '"',
                ',',
                ' ',
                '"',
                'p',
                'i',
                'n',
                'g',
                '"',
                ':',
                ' ',
            ]
            &&& b.subrange(19 + n, b.len() - 1) == flag
            &&& b[b.len() - 1] == '}'
        }),
{
    reveal_strlit("{\"id\": \"");
    reveal_strlit("\", \"ping\": ");
    reveal_strlit("true");
    reveal_strlit("false");
    reveal_strlit("}");
    let b = start_body_spec(id, ping);
    let n = id.len() as int;
    let flag = bool_text(ping);
    if ping {
        assert(flag =~= seq!['t', 'r', 'u', 'e']);
    } else {
        assert(flag =~= seq!['f', 'a', 'l', 's', 'e']);
    }
    assert(b.subrange(0, 8) =~= seq!['{', '"', 'i', 'd', '"', ':', ' ', '"']);
    assert(b.subrange(8, 8 + n) =~= id);
    assert(b.subrange(8 + n, 19 + n) =~= seq!['"', ',', ' ', '"', 'p', 'i', 'n', 'g', '"', ':', ' ']);
    assert(b.subrange(19 + n, b.len() - 1) =~= flag);
}

/// The body of the request that starts device `id`; `ping` asks the server
/// to report on the start through the status socket.
pub fn start_request_body(id: &str, ping: bool) -> (r: String)
    ensures
        r@ == start_body_spec(id@, ping),
        r@.subrange(0, 8) == seq!['{', '"', 'i', 'd', '"', ':', ' ', '"'],
        r@.subrange(8, 8 + (id@.len() as int)) == id@,
        r@.subrange(8 + (id@.len() as int), 19 + (id@.len() as int)) == seq![
            '"',
            ',',
            ' ',
            '"',
            'p',
            'i',
            'n',
            'g',
            '"',
            ':',
            ' ',
        ],
        r@.subrange(19 + (id@.len() as int), (r@.len() as int) - 1) == if ping {
            seq!['t', 'r', 'u', 'e']
        } else {
            seq!['f', 'a', 'l', 's', 'e']
        },
        r@.len() >= 1 && r@[(r@.len() as int) - 1] == '}',
{
    proof {
        law_start_body_fields(id@, ping);
    }
    let mut r = String::from_str("{\"id\": \"");
    r.append(id);
    r.append("\", \"ping\": ");
    if ping {
        r.append("true");
    } else {
        r.append("false");
    }
    r.append("}");
    r
}

/// What the server answers to an accepted start request.
pub struct StartResponse {
    pub boot: bool,
    pub id: String,
    pub uuid: String,
}

/// What the server answers to a refused request.
pub struct ErrorResponse {
    pub error: String,
}

/// How far a start has come.
#[derive(Debug, Clone, Copy, PartialEq, Eq, Structural)]
pub enum StartPhase {
    /// The request was sent; its status is awaited.
    AwaitStatus,
    /// The request was accepted; its body is awaited.
    AwaitStartBody,
    /// The request was refused; its body is awaited.
    AwaitErrorBody,
    /// The status socket is open; the expected time is awaited.
    AwaitEta,
    /// The final status message is awaited.
    AwaitResult,
    /// Nothing more is awaited.
    Done,
}

/// How far along a phase is: each step moves a session strictly forward.
pub open spec fn phase_rank(p: StartPhase) -> int {
    match p {
        StartPhase::AwaitStatus => 0,
        StartPhase::AwaitStartBody => 1,
        StartPhase::AwaitErrorBody => 1,
        StartPhase::AwaitEta => 2,
        StartPhase::AwaitResult => 3,
        StartPhase::Done => 4,
    }
}

/// What happened since the last step.
pub enum StartEvent {
    /// The server answered the start request with this status.
    Status(u16),
    /// The body of an accepted request.
    StartBody(StartResponse),
    /// The body of a refused request.
    ErrorBody(ErrorResponse),
    /// The first message from the status socket.
    EtaMessage(String),
    /// The second message from the status socket.
    ResultMessage(String),
}

/// What to do next.
pub enum StartAction {
    /// Read the body as a `StartResponse`.
    ReadStartBody,
    /// Read the body as an `ErrorResponse`.
    ReadErrorBody,
    /// The start was accepted; `boot` says that the start packet was sent.
    /// With `socket`, open the status socket and send that uuid on it;
    /// without, the start is over.
    Accepted { boot: bool, socket: Option<String> },
    /// The start was refused; show `message`.
    Refused { message: String },
    /// Show `overview`, which holds the expected time `eta`.
    Eta { eta: String, overview: String },
    /// The start is over: show the verdict's `message` (a success when
    /// `started`) and close the overview with `overview`.
    Finished { verdict: Verified, message: String, started: bool, overview: String },
    /// The start ends with this error.
    Fail(Error),
}

/// The line shown for a verdict.
pub open spec fn verdict_message(v: Verified) -> Seq<char> {
    match v {
        Verified::WrongUuid => "returned wrong uuid"@,
        Verified::ResponseType(ResponseType::Start) => "device started"@,
        Verified::ResponseType(ResponseType::Timeout) => "ping timed out"@,
        Verified::ResponseType(ResponseType::NotFound) => "unknown uuid"@,
    }
}

/// Whether a verdict means that the device started.
pub open spec fn verdict_started(v: Verified) -> bool {
    v == Verified::ResponseType(ResponseType::Start)
}

/// The closing line of the overview for `device`.
pub open spec fn final_overview(started: bool, device: Seq<char>) -> Seq<char> {
    if started {
        "successfully started "@ + device
    } else {
        "error while starting "@ + device
    }
}

/// The overview line once the expected time is known.
pub open spec fn eta_overview(eta: Seq<char>, id: Seq<char>) -> Seq<char> {
    "/"@ + eta + ") start "@ + id
}

/// The line shown when the server refuses a start.
pub open spec fn refusal_message(error: Seq<char>) -> Seq<char> {
    "✗ got error: "@ + error
}

/// The decisions taken while device `id` is started.
pub struct StartSession {
    /// The device that was asked for.
    pub id: String,
    /// Whether the outcome is followed on the status socket.
    pub ping: bool,
    /// The uuid the server gave the start.
    pub uuid: String,
    /// The device the server says it starts.
    pub device: String,
    pub phase: StartPhase,
}

impl StartSession {
    /// Whether `event` is one this session waits for, and one it can read.
    pub open spec fn accepts(&self, event: &StartEvent) -> bool {
        match event {
            StartEvent::Status(_) => self.phase == StartPhase::AwaitStatus,
            StartEvent::StartBody(_) => self.phase == StartPhase::AwaitStartBody,
            StartEvent::ErrorBody(_) => self.phase == StartPhase::AwaitErrorBody,
            StartEvent::EtaMessage(m) => self.phase == StartPhase::AwaitEta && eta_readable(m@),
            StartEvent::ResultMessage(m) => self.phase == StartPhase::AwaitResult
                && verdict_readable(m@),
        }
    }

    /// A session for starting `id`; the outcome is followed unless `ping`
    /// is `Some(false)`.
    pub fn new(id: String, ping: Option<bool>) -> (s: Self)
        ensures
            s.id == id,
            s.ping == match ping {
                Some(p) => p,
                None => true,
            },
            s.uuid@ == Seq::<char>::empty(),
            s.device@ == Seq::<char>::empty(),
            s.phase == StartPhase::AwaitStatus,
    {
        let ping = match ping {
            Some(p) => p,
            None => true,
        };
        StartSession { id, ping, uuid: String::new(), device: String::new(), phase: StartPhase::AwaitStatus }
    }

    /// Takes one event and says what to do next.
    pub fn step(&mut self, event: StartEvent) -> (action: StartAction)
        requires
            old(self).accepts(&event),
        ensures
            final(self).id == old(self).id,
            final(self).ping == old(self).ping,
            phase_rank(final(self).phase) > phase_rank(old(self).phase),
            match event {
                StartEvent::Status(code) => {
                    &&& final(self).uuid == old(self).uuid
                    &&& final(self).device == old(self).device
                    &&& code == 200 ==> final(self).phase == StartPhase::AwaitStartBody
                        && action is ReadStartBody
                    &&& code != 200 ==> final(self).phase == StartPhase::AwaitErrorBody
                        && action is ReadErrorBody
                },
                StartEvent::StartBody(body) => {
                    &&& final(self).uuid == body.uuid
                    &&& final(self).device == body.id
                    &&& final(self).phase == if old(self).ping {
                        StartPhase::AwaitEta
                    } else {
                        StartPhase::Done
                    }
                    &&& action matches StartAction::Accepted { boot, socket }
                    &&& action->boot == body.boot
                    &&& old(self).ping ==> (action->socket matches Some(u) && u@ == body.uuid@)
                    &&& !old(self).ping ==> action->socket is None
                },
                StartEvent::ErrorBody(body) => {
                    &&& final(self).uuid == old(self).uuid
                    &&& final(self).device == old(self).device
                    &&& final(self).phase == StartPhase::Done
                    &&& action matches StartAction::Refused { message }
                    &&& action->Refused_message@ == refusal_message(body.error@)
                },
                StartEvent::EtaMessage(m) => {
                    &&& final(self).uuid == old(self).uuid
                    &&& final(self).device == old(self).device
                    &&& match eta_spec(m@, old(self).uuid@) {
                        Ok(eta) => {
                            &&& final(self).phase == StartPhase::AwaitResult
                            &&& action matches StartAction::Eta { eta: e, overview }
                            &&& action->eta@ == eta
                            &&& action->Eta_overview@ == eta_overview(eta, old(self).id@)
                        },
                        Err(err) => {
                            &&& final(self).phase == StartPhase::Done
                            &&& action matches StartAction::Fail(e)
                            &&& action->0 == err
                        },
                    }
                },
                StartEvent::ResultMessage(m) => {
                    &&& final(self).uuid == old(self).uuid
                    &&& final(self).device == old(self).device
                    &&& final(self).phase == StartPhase::Done
                    &&& match verify_response_spec(m@, old(self).uuid@) {
                        Ok(v) => {
                            &&& action matches StartAction::Finished {
                                verdict,
                                message,
                                started,
                                overview,
                            }
                            &&& action->verdict == v
                            &&& action->Finished_message@ == verdict_message(v)
                            &&& action->started == verdict_started(v)
                            &&& action->Finished_overview@ == final_overview(
                                verdict_started(v),
                                old(self).device@,
                            )
                        },
                        Err(err) => {
                            &&& action matches StartAction::Fail(e)
                            &&& action->0 == err
                        },
                    }
                },
            },
    {
        match event {
            StartEvent::Status(code) => {
                if code == 200 {
                    self.phase = StartPhase::AwaitStartBody;
                    StartAction::ReadStartBody
                } else {
                    self.phase = StartPhase::AwaitErrorBody;
                    StartAction::ReadErrorBody
                }
            },
            StartEvent::StartBody(body) => {
                let socket = if self.ping {
                    self.phase = StartPhase::AwaitEta;
                    Some(body.uuid.clone())
                } else {
                    self.phase = StartPhase::Done;
                    None
                };
                self.uuid = body.uuid;
                self.device = body.id;
                StartAction::Accepted { boot: body.boot, socket }
            },
            StartEvent::ErrorBody(body) => {
                self.phase = StartPhase::Done;
                let mut message = String::from_str("✗ got error: ");
                message.append(body.error.as_str());
                StartAction::Refused { message }
            },
            StartEvent::EtaMessage(m) => {
                match get_eta(m.as_str(), self.uuid.as_str()) {
                    Ok(eta) => {
                        self.phase = StartPhase::AwaitResult;
                        let mut overview = String::from_str("/");
                        overview.append(eta.as_str());
                        overview.append(") start ");
                        overview.append(self.id.as_str());
                        StartAction::Eta { eta, overview }
                    },
                    Err(e) => {
                        self.phase = StartPhase::Done;
                        StartAction::Fail(e)
                    },
                }
            },
            StartEvent::ResultMessage(m) => {
                self.phase = StartPhase::Done;
                match verify_response(m.as_str(), self.uuid.as_str()) {
                    Ok(verdict) => {
                        let (message, started) = match verdict {
                            Verified::WrongUuid => (String::from_str("returned wrong uuid"), false),
                            Verified::ResponseType(ResponseType::Start) => (
                                String::from_str("device started"),
                                true,
                            ),
                            Verified::ResponseType(ResponseType::Timeout) => (
                                String::from_str("ping timed out"),
                                false,
                            ),
                            Verified::ResponseType(ResponseType::NotFound) => (
                                String::from_str("unknown uuid"),
                                false,
                            ),
                        };
                        let mut overview = if started {
                            String::from_str("successfully started ")
                        } else {
                            String::from_str("error while starting ")
                        };
                        overview.append(self.device.as_str());
                        StartAction::Finished { verdict, message, started, overview }
                    },
                    Err(e) => StartAction::Fail(e),
                }
            },
        }
    }
}

} // verus!
