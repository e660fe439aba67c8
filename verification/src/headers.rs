use vstd::prelude::*;
use reqwest::header::{HeaderMap, HeaderValue, InvalidHeaderValue};
use crate::config::Config;
use crate::error::Error;

verus! {

#[verifier::external_type_specification]
#[verifier::external_body]
pub struct ExHeaderValue(reqwest::header::HeaderValue);

#[verifier::external_type_specification]
#[verifier::external_body]
pub struct ExInvalidHeaderValue(reqwest::header::InvalidHeaderValue);

#[verifier::external_type_specification]
#[verifier::external_body]
#[verifier::reject_recursive_types(T)]
pub struct ExHeaderMap<T>(reqwest::header::HeaderMap<T>);

/// The text a header value was made from.
pub uninterp spec fn header_value_text(v: HeaderValue) -> Seq<char>;

/// What a header map holds: for each (lower-case) name, its values in the
/// order in which they were appended.
pub uninterp spec fn header_map_contents(m: HeaderMap) -> Map<Seq<char>, Seq<Seq<char>>>;

/// A character that may stand in a header value: its UTF-8 bytes are all
/// at least 32 and not 127, or it is a tab.
pub open spec fn valid_header_value_char(c: char) -> bool {
    (c as u32 >= 32 && c as u32 != 127) || c == '\t'
}

/// Text that `HeaderValue::from_str` accepts.
pub open spec fn valid_header_value(s: Seq<char>) -> bool {
    forall|i: int| 0 <= i < s.len() ==> valid_header_value_char(#[trigger] s[i])
}

/// A character that may stand in a header name (an HTTP token character).
pub open spec fn header_name_char(c: char) -> bool {
    ('a' <= c <= 'z') || ('A' <= c <= 'Z') || ('0' <= c <= '9') || c == '!' || c == '#'
        || c == '$' || c == '%' || c == '&' || c == '\'' || c == '*' || c == '+' || c == '-'
        || c == '.' || c == '^' || c == '_' || c == '`' || c == '|' || c == '~'
}

/// A name that `HeaderName` takes from a static string without panicking
/// and without falling back to its long-name path.
pub open spec fn valid_static_header_name(s: Seq<char>) -> bool {
    &&& 1 <= s.len() <= 64
    &&& forall|i: int| 0 <= i < s.len() ==> header_name_char(#[trigger] s[i])
}

/// The ASCII lower-case form of a character.
pub open spec fn lower_char(c: char) -> char {
    if 'A' <= c <= 'Z' {
        ((c as u32) + 32) as char
    } else {
        c
    }
}

/// The normalised form of a header name: ASCII letters in lower case.
pub open spec fn header_key(s: Seq<char>) -> Seq<char> {
    s.map_values(|c: char| lower_char(c))
}

/// The values held under `key`, none if the key is absent.
pub open spec fn values_of(m: Map<Seq<char>, Seq<Seq<char>>>, key: Seq<char>) -> Seq<Seq<char>> {
    if m.dom().contains(key) {
        m[key]
    } else {
        Seq::empty()
    }
}

/// `HeaderValue::from_str`: accepts `s` exactly when every byte is a visible
/// or extended byte (at least 32 and not 127) or a tab; the value then holds
/// the bytes of `s`.
#[verifier::external_body]
fn header_value_from_str(s: &str) -> (r: Result<HeaderValue, InvalidHeaderValue>)
    ensures
        r is Ok <==> valid_header_value(s@),
        r matches Ok(v) ==> header_value_text(v) == s@,
{
    HeaderValue::from_str(s)
}

/// `HeaderMap::new`: an empty map.
#[verifier::external_body]
fn header_map_new() -> (map: HeaderMap)
    ensures
        header_map_contents(map).dom().is_empty(),
{
    HeaderMap::new()
}

/// `HeaderMap::append` with a static name: the name is normalised to lower
/// case and the value goes to the end of that name's values; the result says
/// whether the name was there before. The name must be a valid token of at
/// most 64 characters (else the call panics or takes another path), and the
/// map must hold few names (else it panics on reaching its size limit).
#[verifier::external_body]
fn header_map_append(m: &mut HeaderMap, name: &'static str, value: HeaderValue) -> (had: bool)
    requires
        valid_static_header_name(name@),
        header_map_contents(*old(m)).dom().finite(),
        header_map_contents(*old(m)).dom().len() < 1024,
    ensures
        had == header_map_contents(*old(m)).dom().contains(header_key(name@)),
        header_map_contents(*final(m)) == header_map_contents(*old(m)).insert(
            header_key(name@),
            values_of(header_map_contents(*old(m)), header_key(name@)).push(
                header_value_text(value),
            ),
        ),
{
    m.append(name, value)
}

/// The headers sent with every request: the two JSON headers and the key.
pub open spec fn default_header_contents(apikey: Seq<char>) -> Map<Seq<char>, Seq<Seq<char>>> {
    Map::<Seq<char>, Seq<Seq<char>>>::empty().insert(
        header_key("Accept-Content"@),
        seq!["application/json"@],
    ).insert(header_key("Content-Type"@), seq!["application/json"@]).insert(
        header_key("Authorization"@),
        seq![apikey],
    )
}

/// The headers of every request to the server. Fails exactly when the key
/// cannot stand in a header value.
pub fn default_headers(config: &Config) -> (r: Result<HeaderMap, Error>)
    ensures
        r is Ok <==> valid_header_value(config.apikey@),
        r matches Err(e) ==> e is InvalidHeaderValue,
        r matches Ok(m) ==> header_map_contents(m) == default_header_contents(config.apikey@),
        r matches Ok(m) ==> header_map_contents(m).dom() =~= set![
            "accept-content"@,
            "content-type"@,
            "authorization"@,
        ],
        r matches Ok(m) ==> header_map_contents(m)["authorization"@] == seq![config.apikey@],
        r matches Ok(m) ==> header_map_contents(m)["accept-content"@] == seq!["application/json"@],
        r matches Ok(m) ==> header_map_contents(m)["content-type"@] == seq!["application/json"@],
{
    proof {
        law_default_header_contents(config.apikey@);
    }
    proof {
        reveal_strlit("Accept-Content");
        reveal_strlit("Content-Type");
        reveal_strlit("Authorization");
        reveal_strlit("application/json");
    }
    let ghost k1 = header_key("Accept-Content"@);
    let ghost k2 = header_key("Content-Type"@);
    let ghost k3 = header_key("Authorization"@);
    assert(k1.len() == 14 && k2.len() == 12 && k3.len() == 13);
    let mut map = header_map_new();
    let ghost empty = header_map_contents(map);
    assert(empty =~= Map::<Seq<char>, Seq<Seq<char>>>::empty());
    let accept = match header_value_from_str("application/json") {
        Ok(v) => v,
        Err(e) => return Err(Error::InvalidHeaderValue { source: e }),
    };
    header_map_append(&mut map, "Accept-Content", accept);
    let content_type = match header_value_from_str("application/json") {
        Ok(v) => v,
        Err(e) => return Err(Error::InvalidHeaderValue { source: e }),
    };
    header_map_append(&mut map, "Content-Type", content_type);
    let authorization = match header_value_from_str(config.apikey.as_str()) {
        Ok(v) => v,
        Err(e) => return Err(Error::InvalidHeaderValue { source: e }),
    };
    header_map_append(&mut map, "Authorization", authorization);
    assert(header_map_contents(map) =~= default_header_contents(config.apikey@));
    Ok(map)
}

/// The headers of every request are exactly three: `accept-content` and
/// `content-type`, each with the single value `application/json`, and
/// `authorization`, whose single value is the key, character for character.
pub proof fn law_default_header_contents(apikey: Seq<char>)
    ensures
        default_header_contents(apikey).dom() =~= set![
            "accept-content"@,
            "content-type"@,
            "authorization"@,
        ],
        default_header_contents(apikey)["authorization"@] == seq![apikey],
        default_header_contents(apikey)["accept-content"@] == seq!["application/json"@],
        default_header_contents(apikey)["content-type"@] == seq!["application/json"@],
{
    reveal_strlit("Accept-Content");
    reveal_strlit("Content-Type");
    reveal_strlit("Authorization");
    reveal_strlit("accept-content");
    reveal_strlit("content-type");
    reveal_strlit("authorization");
    assert(header_key("Accept-Content"@) =~= "accept-content"@);
    assert(header_key("Content-Type"@) =~= "content-type"@);
    assert(header_key("Authorization"@) =~= "authorization"@);
    assert("accept-content"@.len() == 14 && "content-type"@.len() == 12
        && "authorization"@.len() == 13);
}

} // verus!
