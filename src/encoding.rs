//! Text encodings of byte strings: URL-safe base64 for tokens, lowercase hex
//! for identities, and UTF-8 validation of uploaded text.
use vstd::prelude::*;
use vstd::utf8::{valid_utf8, decode_utf8};
use rustc_serialize::base64::{self, FromBase64, ToBase64};
use rustc_serialize::hex::ToHex;

verus! {

/// The character for the 6-bit value `v` in the URL-safe base64 alphabet.
pub open spec fn url_safe_char(v: nat) -> char {
    "ABCDEFGHIJKLMNOPQRSTUVWXYZabcdefghijklmnopqrstuvwxyz0123456789-_"@[v as int]
}

/// The four characters for the 24-bit group `n` of which `k` bytes are real,
/// padded with `=` for the missing ones.
pub open spec fn b64_group(n: nat, k: nat) -> Seq<char> {
    let c0 = url_safe_char((n / 0x40000) % 64);
    let c1 = url_safe_char((n / 0x1000) % 64);
    let c2 = url_safe_char((n / 0x40) % 64);
    let c3 = url_safe_char(n % 64);
    if k == 1 {
        seq![c0, c1, '=', '=']
    } else if k == 2 {
        seq![c0, c1, c2, '=']
    } else {
        seq![c0, c1, c2, c3]
    }
}

/// URL-safe base64 of `b`, padded with `=`, without line breaks.
pub open spec fn url_safe_base64(b: Seq<u8>) -> Seq<char>
    decreases b.len(),
{
    if b.len() == 0 {
        seq![]
    } else if b.len() == 1 {
        b64_group(b[0] as nat * 0x10000, 1)
    } else if b.len() == 2 {
        b64_group(b[0] as nat * 0x10000 + b[1] as nat * 0x100, 2)
    } else {
        b64_group(b[0] as nat * 0x10000 + b[1] as nat * 0x100 + b[2] as nat, 3)
            + url_safe_base64(b.subrange(3, b.len() as int))
    }
}

pub open spec fn hex_digit(v: nat) -> char {
    "0123456789abcdef"@[v as int]
}

/// Two lowercase hex digits per byte, high nibble first.
pub open spec fn hex_of(b: Seq<u8>) -> Seq<char>
    decreases b.len(),
{
    if b.len() == 0 {
        seq![]
    } else {
        hex_of(b.drop_last()) + seq![hex_digit(b.last() as nat / 16), hex_digit(b.last() as nat % 16)]
    }
}

/// What `FromBase64::from_base64` makes of the given bytes: `None` where it
/// reports an error.
pub uninterp spec fn base64_decoded(b: Seq<u8>) -> Option<Seq<u8>>;

/// Relies on rustc_serialize's `ToBase64::to_base64` with the URL-safe
/// alphabet, padding on and no line length: four characters per group of
/// three bytes, `=` filling the last group.
#[verifier::external_body]
pub(crate) fn to_url_safe_base64(b: &[u8]) -> (r: String)
    ensures
        r@ == url_safe_base64(b@),
{
    b.to_base64(base64::Config { pad: true, ..base64::URL_SAFE })
}

/// Relies on rustc_serialize's `FromBase64::from_base64` on bytes; its error
/// is dropped.
#[verifier::external_body]
pub(crate) fn from_base64(b: &[u8]) -> (r: Option<Vec<u8>>)
    ensures
        r matches Some(v) ==> base64_decoded(b@) == Some(v@),
        r is None ==> base64_decoded(b@) is None,
{
    b.from_base64().ok()
}

/// Relies on rustc_serialize's `ToHex::to_hex`: two digits from
/// `0123456789abcdef` per byte, high nibble first.
#[verifier::external_body]
pub(crate) fn to_hex(b: &[u8]) -> (r: String)
    ensures
        r@ == hex_of(b@),
{
    b.to_hex()
}

/// Relies on `std::str::from_utf8`: `Ok` exactly when the bytes are valid
/// UTF-8, and then the text they encode.
#[verifier::external_body]
pub(crate) fn utf8_text(b: &[u8]) -> (r: Option<String>)
    ensures
        r is Some <==> valid_utf8(b@),
        r matches Some(s) ==> s@ == decode_utf8(b@),
{
    match std::str::from_utf8(b) {
        Ok(s) => Some(s.to_string()),
        Err(_) => None,
    }
}

} // verus!
