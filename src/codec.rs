//! Byte and text encodings: SHA-256, hexadecimal, base64, JSON members,
//! lossy UTF-8 and decimal integers.

use vstd::prelude::*;

use base64::Engine;
use sha2::Digest;

use crate::text::{opt_view, push_char};

verus! {

/// The hexadecimal digit for `n` (0..16), in upper or lower case.
pub open spec fn hex_digit(n: int, upper: bool) -> char {
    if n == 0 {
        '0'
    } else if n == 1 {
        '1'
    } else if n == 2 {
        '2'
    } else if n == 3 {
        '3'
    } else if n == 4 {
        '4'
    } else if n == 5 {
        '5'
    } else if n == 6 {
        '6'
    } else if n == 7 {
        '7'
    } else if n == 8 {
        '8'
    } else if n == 9 {
        '9'
    } else if n == 10 {
        if upper { 'A' } else { 'a' }
    } else if n == 11 {
        if upper { 'B' } else { 'b' }
    } else if n == 12 {
        if upper { 'C' } else { 'c' }
    } else if n == 13 {
        if upper { 'D' } else { 'd' }
    } else if n == 14 {
        if upper { 'E' } else { 'e' }
    } else if n == 15 {
        if upper { 'F' } else { 'f' }
    } else {
        if upper { 'F' } else { 'f' }
    }
}

/// Two hexadecimal digits per byte, high nibble first.
pub open spec fn hex_of(b: Seq<u8>, upper: bool) -> Seq<char>
    decreases b.len(),
{
    if b.len() == 0 {
        Seq::empty()
    } else {
        hex_of(b.drop_last(), upper) + seq![
            hex_digit(b.last() as int / 16, upper),
            hex_digit(b.last() as int % 16, upper),
        ]
    }
}

pub open spec fn hex_lower_of(b: Seq<u8>) -> Seq<char> {
    hex_of(b, false)
}

pub open spec fn hex_upper_of(b: Seq<u8>) -> Seq<char> {
    hex_of(b, true)
}

/// The value of a lower-case hexadecimal digit.
pub open spec fn lower_hex_value(c: char) -> Option<int> {
    if '0' <= c && c <= '9' {
        Some(c as int - '0' as int)
    } else if 'a' <= c && c <= 'f' {
        Some(c as int - 'a' as int + 10)
    } else {
        None
    }
}

/// Lower-case hexadecimal text decoded to bytes: `None` unless it has an even
/// number of characters, each a lower-case hexadecimal digit.
pub open spec fn lower_hex_decoding(s: Seq<char>) -> Option<Seq<u8>>
    decreases s.len(),
{
    if s.len() == 0 {
        Some(Seq::empty())
    } else if s.len() == 1 {
        None
    } else {
        match (lower_hex_decoding(s.subrange(0, s.len() - 2)), lower_hex_value(s[s.len() - 2]),
            lower_hex_value(s[s.len() - 1])) {
            (Some(init), Some(hi), Some(lo)) => Some(init.push((hi * 16 + lo) as u8)),
            _ => None,
        }
    }
}

pub(crate) fn hex_digit_char(n: u8, upper: bool) -> (c: char)
    requires
        n < 16,
    ensures
        c == hex_digit(n as int, upper),
{
    if n == 0 {
        '0'
    } else if n == 1 {
        '1'
    } else if n == 2 {
        '2'
    } else if n == 3 {
        '3'
    } else if n == 4 {
        '4'
    } else if n == 5 {
        '5'
    } else if n == 6 {
        '6'
    } else if n == 7 {
        '7'
    } else if n == 8 {
        '8'
    } else if n == 9 {
        '9'
    } else if n == 10 {
        if upper { 'A' } else { 'a' }
    } else if n == 11 {
        if upper { 'B' } else { 'b' }
    } else if n == 12 {
        if upper { 'C' } else { 'c' }
    } else if n == 13 {
        if upper { 'D' } else { 'd' }
    } else if n == 14 {
        if upper { 'E' } else { 'e' }
    } else {
        if upper { 'F' } else { 'f' }
    }
}

/// Lower-case hexadecimal text of `b`.
pub fn to_hex_lower(b: &[u8]) -> (r: String)
    ensures
        r@ == hex_lower_of(b@),
{
    let mut r = String::new();
    let mut i: usize = 0;
    while i < b.len()
        invariant
            i <= b@.len(),
            r@ == hex_of(b@.subrange(0, i as int), false),
        decreases b@.len() - i,
    {
        let x = b[i];
        push_char(&mut r, hex_digit_char(x / 16, false));
        push_char(&mut r, hex_digit_char(x % 16, false));
        assert(b@.subrange(0, i + 1).drop_last() =~= b@.subrange(0, i as int));
        i += 1;
    }
    assert(b@.subrange(0, b@.len() as int) =~= b@);
    r
}

/// Relies on subtle-encoding's `hex::encode_upper`: two upper-case digits per
/// byte; the ASCII result is taken as a string unchanged.
#[verifier::external_body]
pub(crate) fn to_hex_upper(b: &[u8]) -> (r: String)
    ensures
        r@ == hex_upper_of(b@),
{
    String::from_utf8_lossy(&subtle_encoding::hex::encode_upper(b)).into_owned()
}

/// Relies on subtle-encoding's `hex::decode` (lower case): it fails unless the
/// text has an even length and only lower-case hexadecimal digits.
#[verifier::external_body]
pub(crate) fn from_hex_lower(s: &str) -> (r: Option<Vec<u8>>)
    ensures
        match r {
            Some(v) => lower_hex_decoding(s@) == Some(v@),
            None => lower_hex_decoding(s@) is None,
        },
{
    subtle_encoding::hex::decode(s).ok()
}

pub uninterp spec fn sha256_of(b: Seq<u8>) -> Seq<u8>;

/// Relies on sha2's `Sha256::digest`: the 32-byte digest of `b`.
#[verifier::external_body]
pub(crate) fn sha256(b: &[u8]) -> (r: Vec<u8>)
    ensures
        r@ == sha256_of(b@),
        r@.len() == 32,
{
    sha2::Sha256::digest(b).to_vec()
}

pub uninterp spec fn json_member_of(doc: Seq<u8>, key: Seq<char>) -> Option<Seq<char>>;

/// Relies on serde_json's `from_slice` into a `Value`, then `Value::get` and
/// `Value::as_str`: the string under `key` when `doc` is JSON with such a member.
#[verifier::external_body]
pub(crate) fn json_string_member(doc: &[u8], key: &str) -> (r: Option<String>)
    ensures
        opt_view(r) == json_member_of(doc@, key@),
{
    let v = serde_json::from_slice::<serde_json::Value>(doc).ok();
    v.as_ref().and_then(|v| v.get(key)).and_then(|m| m.as_str()).map(|s| s.to_string())
}

pub uninterp spec fn json_has_member_of(doc: Seq<u8>, key: Seq<char>) -> bool;

/// Relies on serde_json's `from_slice` into a `Value`, then `Value::get`: whether
/// `doc` is JSON with a member `key`, of any type.
#[verifier::external_body]
pub(crate) fn json_has_member(doc: &[u8], key: &str) -> (r: bool)
    ensures
        r == json_has_member_of(doc@, key@),
{
    serde_json::from_slice::<serde_json::Value>(doc).ok().map_or(false, |v| v.get(key).is_some())
}

pub uninterp spec fn json_string_array_of(doc: Seq<u8>) -> Option<Seq<Seq<char>>>;

/// Relies on serde_json's `from_slice` into a `Vec<String>`: the items when `doc` is
/// a JSON array of strings.
#[verifier::external_body]
pub(crate) fn json_string_array(doc: &[u8]) -> (r: Option<Vec<String>>)
    ensures
        match r {
            Some(v) => json_string_array_of(doc@) == Some(v@.map_values(|s: String| s@)),
            None => json_string_array_of(doc@) is None,
        },
{
    serde_json::from_slice::<Vec<String>>(doc).ok()
}

pub uninterp spec fn base64_decoding(s: Seq<char>) -> Option<Seq<u8>>;

/// Relies on base64's `STANDARD` engine `decode`; a decoding error gives `None`.
#[verifier::external_body]
pub(crate) fn from_base64(s: &str) -> (r: Option<Vec<u8>>)
    ensures
        match r {
            Some(v) => base64_decoding(s@) == Some(v@),
            None => base64_decoding(s@) is None,
        },
{
    base64::engine::general_purpose::STANDARD.decode(s).ok()
}

pub uninterp spec fn base64_encoding(b: Seq<u8>) -> Seq<char>;

/// Relies on base64's `STANDARD` engine `encode`.
#[verifier::external_body]
pub(crate) fn to_base64(b: &[u8]) -> (r: String)
    ensures
        r@ == base64_encoding(b@),
{
    base64::engine::general_purpose::STANDARD.encode(b)
}

pub uninterp spec fn utf8_lossy_of(b: Seq<u8>) -> Seq<char>;

/// Relies on `String::from_utf8_lossy`: the text of `b`, invalid sequences replaced.
#[verifier::external_body]
pub(crate) fn utf8_lossy(b: &[u8]) -> (r: String)
    ensures
        r@ == utf8_lossy_of(b@),
{
    String::from_utf8_lossy(b).into_owned()
}

/// The text consists of decimal digits only, and at least one.
pub open spec fn is_decimal(s: Seq<char>) -> bool {
    s.len() > 0 && forall|i: int| 0 <= i < s.len() ==> '0' <= #[trigger] s[i] && s[i] <= '9'
}

/// The value of a string of decimal digits.
pub open spec fn decimal_value(s: Seq<char>) -> nat
    decreases s.len(),
{
    if s.len() == 0 {
        0
    } else {
        decimal_value(s.drop_last()) * 10 + (s.last() as nat - '0' as nat) as nat
    }
}

pub uninterp spec fn u64_parse(s: Seq<char>) -> Option<u64>;

/// Relies on `str::parse::<u64>`: decimal digits whose value fits give that value;
/// the empty string is an error.
#[verifier::external_body]
pub(crate) fn parse_u64(s: &str) -> (r: Option<u64>)
    ensures
        r == u64_parse(s@),
        is_decimal(s@) && decimal_value(s@) <= u64::MAX ==> r == Some(decimal_value(s@) as u64),
        is_decimal(s@) && decimal_value(s@) > u64::MAX ==> r is None,
        s@.len() == 0 ==> r is None,
{
    s.parse::<u64>().ok()
}

} // verus!
