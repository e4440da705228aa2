//! Reading a field out of a bearer token's payload: the token's
//! second dot-separated segment is base64-decoded and parsed as a
//! JSON object.

use vstd::prelude::*;

verus! {

/// Why a token could not be read.
#[derive(Debug)]
pub enum TokenError {
    /// The payload segment is not valid base64.
    Base64,
    /// The decoded payload is not valid JSON.
    Json,
    /// The payload has no such field, or the field is not a string.
    InvalidToken,
}

/// What decoding a URL-safe, unpadded base64 text yields, where it
/// succeeds. Relies on the decoder named in `base64_url_decode`.
pub uninterp spec fn base64_url_decoded_of(s: Seq<char>) -> Seq<u8>;

/// Relies on base64's `decode_config` with the URL-safe alphabet and
/// no padding: the decoded bytes are a pure function of the text.
#[verifier::external_body]
fn base64_url_decode(s: &str) -> (r: Option<Vec<u8>>)
    ensures
        r matches Some(v) ==> v@ == base64_url_decoded_of(s@),
{
    base64::decode_config(s, base64::URL_SAFE_NO_PAD).ok()
}

/// Relies on serde_json: declares its JSON value type, which this
/// crate only carries through.
#[verifier::external_type_specification]
#[verifier::external_body]
pub struct ExValue(serde_json::Value);

/// Relies on serde_json's `from_slice`: parses bytes as one JSON
/// value, or fails.
#[verifier::external_body]
fn json_parse(bytes: &Vec<u8>) -> (r: Option<serde_json::Value>)
{
    serde_json::from_slice(bytes.as_slice()).ok()
}

/// Relies on serde_json's `Value::get`: looks a field up in a JSON
/// object, absent for non-objects and missing keys.
#[verifier::external_body]
fn json_get<'a>(v: &'a serde_json::Value, key: &str) -> (r: Option<&'a serde_json::Value>)
{
    v.get(key)
}

/// Relies on serde_json's `Value::as_str`: the owned text of a JSON
/// string value, absent for any other kind of value.
#[verifier::external_body]
fn json_as_str(v: &serde_json::Value) -> (r: Option<String>)
{
    v.as_str().map(|s| s.to_string())
}

/// Whether the token has a second dot-separated segment.
pub open spec fn spec_has_dot(s: Seq<char>) -> bool {
    exists|i: int| 0 <= i < s.len() && s[i] == '.'
}

/// The bounds of the token's second dot-separated segment: from past
/// the first dot to the second dot or the end.
pub open spec fn spec_payload_segment(s: Seq<char>, first: int, end: int) -> bool {
    &&& 0 <= first < s.len()
    &&& s[first] == '.'
    &&& (forall|k: int| 0 <= k < first ==> s[k] != '.')
    &&& first < end <= s.len()
    &&& (forall|k: int| first < k < end ==> s[k] != '.')
    &&& (end < s.len() ==> s[end] == '.')
}

/// The index of the first dot at or past the given start, or the
/// string's length where there is none.
fn find_dot(token: &str, start: usize) -> (r: usize)
    requires
        start <= token@.len(),
    ensures
        start <= r <= token@.len(),
        forall|k: int| start <= k < r ==> token@[k] != '.',
        r < token@.len() ==> token@[r as int] == '.',
{
    let n = token.unicode_len();
    let mut i: usize = start;
    while i < n
        invariant
            n == token@.len(),
            start <= i <= n,
            forall|k: int| start <= k < i ==> token@[k] != '.',
        decreases n - i,
    {
        if token.get_char(i) == '.' {
            return i;
        }
        i = i + 1;
    }
    n
}

/// The token's payload segment, between its first dot and its second
/// dot or end.
fn payload_segment(token: &str) -> (r: String)
    requires
        spec_has_dot(token@),
    ensures
        exists|first: int, end: int|
            #![trigger spec_payload_segment(token@, first, end)]
            spec_payload_segment(token@, first, end) && r@ == token@.subrange(first + 1, end),
{
    let n = token.unicode_len();
    let first = find_dot(token, 0);
    proof {
        if first >= token@.len() {
            let i = choose|i: int| 0 <= i < token@.len() && token@[i] == '.';
            assert(false);
        }
        assert(first < n);
    }
    let end = find_dot(token, first + 1);
    let seg = token.substring_char(first + 1, end).to_owned();
    proof {
        assert(spec_payload_segment(token@, first as int, end as int));
    }
    seg
}

/// Parses the token's payload: base64-decodes the second dot-separated
/// segment and reads it as one JSON value. What the value holds is
/// whatever the token carried.
pub fn get_payload(token: &str) -> (r: Result<serde_json::Value, TokenError>)
    requires
        spec_has_dot(token@),
    ensures
        r matches Err(e) ==> (e is Base64 || e is Json),
{
    let segment = payload_segment(token);
    let decoded = match base64_url_decode(segment.as_str()) {
        Some(bytes) => bytes,
        None => {
            return Err(TokenError::Base64);
        },
    };
    match json_parse(&decoded) {
        Some(value) => Ok(value),
        None => Err(TokenError::Json),
    }
}

/// Reads one string field out of the token's payload. Fails exactly
/// where the payload does not decode, does not parse, lacks the
/// field, or holds it as something other than a string.
pub fn get_payload_field(token: &str, field: &str) -> (r: Result<String, TokenError>)
    requires
        spec_has_dot(token@),
{
    let value = get_payload(token)?;
    let inner = match json_get(&value, field) {
        Some(v) => match json_as_str(v) {
            Some(s) => Ok(s),
            None => Err(TokenError::InvalidToken),
        },
        None => Err(TokenError::InvalidToken),
    };
    inner
}

} // verus!
