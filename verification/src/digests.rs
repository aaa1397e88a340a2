//! Content hashes (SHA-1, SHA-256), their lowercase hexadecimal text, and
//! base64url encoding.
use vstd::prelude::*;
use crate::text::{chars_equal, chars_of, push_char};
use base64::Engine;
use sha2::Digest;

verus! {

/// The SHA-256 digest of a byte string.
pub uninterp spec fn sha256_digest(data: Seq<u8>) -> Seq<u8>;

/// The SHA-1 digest of a byte string.
pub uninterp spec fn sha1_digest(data: Seq<u8>) -> Seq<u8>;

/// Calls `sha2::Sha256::digest`: the result is `sha256_digest` of the input,
/// 32 bytes long.
#[verifier::external_body]
pub(crate) fn sha256(data: &[u8]) -> (r: Vec<u8>)
    ensures
        r@ == sha256_digest(data@),
        r@.len() == 32,
{
    sha2::Sha256::digest(data).to_vec()
}

/// Calls `sha1::Sha1::digest`: the result is `sha1_digest` of the input, 20
/// bytes long.
#[verifier::external_body]
pub(crate) fn sha1(data: &[u8]) -> (r: Vec<u8>)
    ensures
        r@ == sha1_digest(data@),
        r@.len() == 20,
{
    sha1::Sha1::digest(data).to_vec()
}

/// A lowercase hexadecimal digit.
pub open spec fn hex_digit(d: nat) -> char {
    if d < 10 {
        ((d + 48) as u32) as char
    } else {
        ((d + 87) as u32) as char
    }
}

/// Two lowercase hexadecimal digits per byte, as `{:x}` prints a digest.
pub open spec fn lower_hex(bytes: Seq<u8>) -> Seq<char>
    decreases bytes.len(),
{
    if bytes.len() == 0 {
        seq![]
    } else {
        lower_hex(bytes.drop_last()) + seq![
            hex_digit((bytes.last() / 16) as nat),
            hex_digit((bytes.last() % 16) as nat),
        ]
    }
}

fn hex_digit_exec(d: u8) -> (c: char)
    requires
        d < 16,
    ensures
        c == hex_digit(d as nat),
{
    if d < 10 {
        (d + 48) as char
    } else {
        (d + 87) as char
    }
}

/// The lowercase hexadecimal text of a byte string.
pub fn lower_hex_string(bytes: &[u8]) -> (r: String)
    ensures
        r@ == lower_hex(bytes@),
{
    let mut r = String::new();
    let mut i: usize = 0;
    while i < bytes.len()
        invariant
            0 <= i <= bytes.len(),
            r@ == lower_hex(bytes@.take(i as int)),
        decreases bytes.len() - i,
    {
        proof {
            assert(bytes@.take(i + 1).drop_last() =~= bytes@.take(i as int));
            assert(bytes@.take(i + 1).last() == bytes@[i as int]);
        }
        let b = bytes[i];
        let ghost before = r@;
        push_char(&mut r, hex_digit_exec(b / 16));
        push_char(&mut r, hex_digit_exec(b % 16));
        assert(r@ =~= before + seq![hex_digit((b / 16) as nat), hex_digit((b % 16) as nat)]);
        i += 1;
    }
    assert(bytes@.take(bytes.len() as int) =~= bytes@);
    r
}

/// The lowercase hexadecimal SHA-256 digest of a byte string.
pub fn sha256_hex(data: &[u8]) -> (r: String)
    ensures
        r@ == lower_hex(sha256_digest(data@)),
{
    let d = sha256(data);
    lower_hex_string(d.as_slice())
}

/// The lowercase hexadecimal SHA-1 digest of a byte string.
pub fn sha1_hex(data: &[u8]) -> (r: String)
    ensures
        r@ == lower_hex(sha1_digest(data@)),
{
    let d = sha1(data);
    lower_hex_string(d.as_slice())
}

/// Whether `data` has the expected lowercase hexadecimal SHA-256 digest.
pub fn sha256_matches(data: &[u8], expected: &str) -> (r: bool)
    ensures
        r == (lower_hex(sha256_digest(data@)) == expected@),
{
    let h = sha256_hex(data);
    chars_equal(&chars_of(h.as_str()), &chars_of(expected))
}

/// Whether `data` has the expected lowercase hexadecimal SHA-1 digest.
pub fn sha1_matches(data: &[u8], expected: &str) -> (r: bool)
    ensures
        r == (lower_hex(sha1_digest(data@)) == expected@),
{
    let h = sha1_hex(data);
    chars_equal(&chars_of(h.as_str()), &chars_of(expected))
}

/// The base64url alphabet (RFC 4648, section 5).
pub open spec fn base64url_char(v: nat) -> char {
    if v < 26 {
        ((v + 65) as u32) as char
    } else if v < 52 {
        ((v + 71) as u32) as char
    } else if v < 62 {
        ((v - 4) as u32) as char
    } else if v == 62 {
        '-'
    } else {
        '_'
    }
}

/// Base64url without padding (RFC 4648): each group of three bytes becomes
/// four characters, a final group of one or two bytes two or three.
pub open spec fn base64url_nopad(b: Seq<u8>) -> Seq<char>
    decreases b.len(),
{
    if b.len() == 0 {
        seq![]
    } else if b.len() == 1 {
        seq![base64url_char((b[0] / 4) as nat), base64url_char(((b[0] % 4) * 16) as nat)]
    } else if b.len() == 2 {
        seq![
            base64url_char((b[0] / 4) as nat),
            base64url_char(((b[0] % 4) * 16 + b[1] / 16) as nat),
            base64url_char(((b[1] % 16) * 4) as nat),
        ]
    } else {
        seq![
            base64url_char((b[0] / 4) as nat),
            base64url_char(((b[0] % 4) * 16 + b[1] / 16) as nat),
            base64url_char(((b[1] % 16) * 4 + b[2] / 64) as nat),
            base64url_char((b[2] % 64) as nat),
        ] + base64url_nopad(b.skip(3))
    }
}

/// Calls `base64::engine::general_purpose::URL_SAFE_NO_PAD.encode`, which
/// writes RFC 4648 base64url without padding. The input is bounded so that
/// the length computation inside the crate cannot overflow.
#[verifier::external_body]
pub(crate) fn base64url_encode(data: &[u8]) -> (r: String)
    requires
        data@.len() <= 0x1000_0000,
    ensures
        r@ == base64url_nopad(data@),
{
    base64::engine::general_purpose::URL_SAFE_NO_PAD.encode(data)
}

} // verus!
