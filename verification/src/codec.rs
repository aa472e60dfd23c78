//! Base64 bodies of forwarded management requests and replies, and the
//! random identifiers of hub requests and peer paths.

use vstd::prelude::*;
use vstd::utf8::encode_utf8;
use base64::Engine;

verus! {

/// The character of the standard base64 alphabet for the six bits `v`:
/// `A`-`Z`, `a`-`z`, `0`-`9`, `+`, `/`.
pub open spec fn base64_symbol(v: int) -> char {
    if v < 26 {
        ('A' as int + v) as char
    } else if v < 52 {
        ('a' as int + (v - 26)) as char
    } else if v < 62 {
        ('0' as int + (v - 52)) as char
    } else if v == 62 {
        '+'
    } else {
        '/'
    }
}

/// Standard base64 with padding: every three bytes become four symbols of
/// six bits each; a last group of one or two bytes is padded with `=` to
/// four characters.
pub open spec fn base64_standard_encoding(b: Seq<u8>) -> Seq<char>
    decreases b.len(),
{
    let x = b[0] as int;
    let y = b[1] as int;
    let z = b[2] as int;
    if b.len() == 0 {
        Seq::empty()
    } else if b.len() == 1 {
        seq![base64_symbol(x / 4), base64_symbol((x % 4) * 16), '=', '=']
    } else if b.len() == 2 {
        seq![base64_symbol(x / 4), base64_symbol((x % 4) * 16 + y / 16), base64_symbol((y % 16) * 4), '=']
    } else {
        seq![
            base64_symbol(x / 4),
            base64_symbol((x % 4) * 16 + y / 16),
            base64_symbol((y % 16) * 4 + z / 64),
            base64_symbol(z % 64),
        ] + base64_standard_encoding(b.skip(3))
    }
}

/// What base64's standard engine (with padding) decodes `text` to; `None`
/// when `text` is not valid base64.
pub uninterp spec fn base64_standard_decoding(text: Seq<u8>) -> Option<Seq<u8>>;

/// Calls `base64::engine::general_purpose::STANDARD.encode`: the standard
/// alphabet with `=` padding, as `base64_standard_encoding` states it. The
/// engine panics only when the encoded length overflows `usize`, which the
/// bound on the input excludes.
#[verifier::external_body]
fn base64_encode(bytes: &[u8]) -> (r: String)
    requires
        bytes@.len() <= usize::MAX / 2,
    ensures
        r@ == base64_standard_encoding(bytes@),
{
    base64::engine::general_purpose::STANDARD.encode(bytes)
}

/// Calls `base64::engine::general_purpose::STANDARD.decode` on the UTF-8
/// bytes of `text`. The result is named `base64_standard_decoding`; the
/// engine gives back the bytes of any text that its own encoder wrote. A
/// decode error comes back as the engine's own message (`DecodeError`'s
/// text), whose wording is left unsaid.
#[verifier::external_body]
fn base64_decode(text: &str) -> (r: Result<Vec<u8>, String>)
    ensures
        match r {
            Ok(v) => base64_standard_decoding(encode_utf8(text@)) == Some(v@) && forall|b: Seq<u8>|
                #[trigger] base64_standard_encoding(b) == text@ ==> v@ == b,
            Err(_) => base64_standard_decoding(encode_utf8(text@)) is None && forall|b: Seq<u8>|
                #[trigger] base64_standard_encoding(b) != text@,
        },
{
    match base64::engine::general_purpose::STANDARD.decode(text) {
        Ok(v) => Ok(v),
        Err(e) => Err(e.to_string()),
    }
}

/// The base64 text a forwarded request carries for its body; no body, no
/// text.
pub fn request_body_b64(body: Option<Vec<u8>>) -> (r: Option<String>)
    requires
        body matches Some(b) ==> b@.len() <= usize::MAX / 2,
    ensures
        match body {
            Some(b) => r is Some && r->0@ == base64_standard_encoding(b@),
            None => r is None,
        },
{
    match body {
        Some(b) => Some(base64_encode(b.as_slice())),
        None => None,
    }
}

/// The body of a forwarded reply: the decoded base64 text, or empty when
/// there is none or it does not decode.
pub fn decode_hub_body(body_b64: Option<String>) -> (r: Vec<u8>)
    ensures
        match body_b64 {
            Some(t) => match base64_standard_decoding(encode_utf8(t@)) {
                Some(b) => r@ == b,
                None => r@.len() == 0,
            },
            None => r@.len() == 0,
        },
        forall|b: Seq<u8>|
            body_b64 matches Some(t) && #[trigger] base64_standard_encoding(b) == t@ ==> r@ == b,
{
    match body_b64 {
        Some(t) => match base64_decode(t.as_str()) {
            Ok(v) => v,
            Err(_) => Vec::new(),
        },
        None => Vec::new(),
    }
}

/// The body of a forwarded request as received: `Ok(None)` without body,
/// `Ok(Some(bytes))` for valid base64, and the decoder's error message when
/// the text does not decode.
pub fn decode_forward_body(body_b64: Option<String>) -> (r: Result<Option<Vec<u8>>, String>)
    ensures
        match body_b64 {
            None => r matches Ok(None),
            Some(t) => match base64_standard_decoding(encode_utf8(t@)) {
                Some(b) => r matches Ok(Some(v)) && v@ == b,
                None => r is Err,
            },
        },
        forall|b: Seq<u8>|
            body_b64 matches Some(t) && #[trigger] base64_standard_encoding(b) == t@ ==> (r matches Ok(
                Some(v),
            ) && v@ == b),
{
    match body_b64 {
        None => Ok(None),
        Some(t) => match base64_decode(t.as_str()) {
            Ok(v) => Ok(Some(v)),
            Err(e) => Err(e),
        },
    }
}

/// The text is a hyphenated lower-case UUID: 36 characters, `-` at 8, 13,
/// 18 and 23, lower-case hexadecimal digits elsewhere.
pub open spec fn is_uuid_text(s: Seq<char>) -> bool {
    &&& s.len() == 36
    &&& forall|i: int|
        0 <= i < 36 ==> if i == 8 || i == 13 || i == 18 || i == 23 {
            s[i] == '-'
        } else {
            ('0' <= #[trigger] s[i] && s[i] <= '9') || ('a' <= s[i] && s[i] <= 'f')
        }
}

/// Calls `uuid::Uuid::new_v4().to_string()`. The value is random; what holds
/// of every outcome is its hyphenated lower-case form, which the crate's
/// formatter always writes.
#[verifier::external_body]
pub(crate) fn new_uuid_text() -> (r: String)
    ensures
        is_uuid_text(r@),
{
    uuid::Uuid::new_v4().to_string()
}

} // verus!
