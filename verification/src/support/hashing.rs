//! Hash functions and hexadecimal text.

use vstd::prelude::*;
use sha2::Digest;
use vstd::string::StringSliceAdditionalSpecFns;

verus! {

/// The SHA-256 digest of a byte string.
pub uninterp spec fn sha256_of(data: Seq<u8>) -> Seq<u8>;

/// The SHA-512 digest of a byte string.
pub uninterp spec fn sha512_of(data: Seq<u8>) -> Seq<u8>;

/// `sha2::Sha256::digest`: the 32-byte SHA-256 digest of `data`.
#[verifier::external_body]
pub(crate) fn sha256(data: &[u8]) -> (d: Vec<u8>)
    ensures
        d@ == sha256_of(data@),
        d@.len() == 32,
{
    sha2::Sha256::digest(data).to_vec()
}

/// `sha2::Sha512::digest`: the 64-byte SHA-512 digest of `data`.
#[verifier::external_body]
pub(crate) fn sha512(data: &[u8]) -> (d: Vec<u8>)
    ensures
        d@ == sha512_of(data@),
        d@.len() == 64,
{
    sha2::Sha512::digest(data).to_vec()
}

/// The lower-case hexadecimal digit for a value below 16.
pub open spec fn hex_digit(v: int) -> char {
    if v < 10 {
        ('0' as int + v) as char
    } else {
        ('a' as int + v - 10) as char
    }
}

/// Lower-case hexadecimal text of a byte string: two digits per byte, the
/// high half first.
pub open spec fn hex_lower(bytes: Seq<u8>) -> Seq<char> {
    Seq::new(
        bytes.len() * 2,
        |i: int|
            if i % 2 == 0 {
                hex_digit(bytes[i / 2] as int / 16)
            } else {
                hex_digit(bytes[i / 2] as int % 16)
            },
    )
}

/// The value of a hexadecimal digit byte (either case), if it is one.
pub open spec fn hex_value(c: u8) -> Option<u8> {
    if 0x30 <= c <= 0x39 {
        Some((c - 0x30) as u8)
    } else if 0x61 <= c <= 0x66 {
        Some((c - 0x61 + 10) as u8)
    } else if 0x41 <= c <= 0x46 {
        Some((c - 0x41 + 10) as u8)
    } else {
        None
    }
}

/// Whether a byte string is hexadecimal text: even length, digits only.
pub open spec fn is_hex_text(text: Seq<u8>) -> bool {
    &&& text.len() % 2 == 0
    &&& forall|i: int| 0 <= i < text.len() ==> (#[trigger] hex_value(text[i])) is Some
}

/// The bytes that hexadecimal text stands for.
pub open spec fn hex_bytes(text: Seq<u8>) -> Seq<u8> {
    Seq::new(
        text.len() / 2,
        |i: int| (hex_value(text[2 * i])->0 * 16 + hex_value(text[2 * i + 1])->0) as u8,
    )
}

/// `hex::encode`: lower-case hexadecimal text of `bytes`.
#[verifier::external_body]
pub(crate) fn hex_encode(bytes: &[u8]) -> (s: String)
    ensures
        s@ == hex_lower(bytes@),
{
    hex::encode(bytes)
}

/// `hex::decode` of the bytes of `text`: the bytes it stands for when it is
/// hexadecimal text (digits of either case, even length), else nothing.
#[verifier::external_body]
pub(crate) fn hex_decode(text: &str) -> (r: Option<Vec<u8>>)
    ensures
        r is Some <==> is_hex_text(text.spec_bytes()),
        r matches Some(b) ==> b@ == hex_bytes(text.spec_bytes()),
{
    hex::decode(text).ok()
}

} // verus!

verus! {

/// Decoding the lower-case hexadecimal text of a byte string gives the
/// byte string back.
pub proof fn law_hex_round_trip(bytes: Seq<u8>)
    ensures
        is_hex_text(vstd::utf8::encode_utf8(hex_lower(bytes))),
        hex_bytes(vstd::utf8::encode_utf8(hex_lower(bytes))) == bytes,
{
    let chars = hex_lower(bytes);
    assert(vstd::utf8::is_ascii_chars(chars)) by {
        assert forall|i: int| 0 <= i < chars.len() implies '\0' <= #[trigger] chars[i] <= '\u{7f}' by {}
    }
    vstd::utf8::is_ascii_chars_encode_utf8(chars);
    let t = vstd::utf8::encode_utf8(chars);
    assert forall|i: int| 0 <= i < t.len() implies (#[trigger] hex_value(t[i])) is Some && hex_value(t[i])->0 == (
        if i % 2 == 0 { bytes[i / 2] as int / 16 } else { bytes[i / 2] as int % 16 }) by {
        assert(t[i] == chars[i] as u8);
    }
    assert(hex_bytes(t) =~= bytes) by {
        assert forall|k: int| 0 <= k < bytes.len() implies hex_bytes(t)[k] == bytes[k] by {
            assert(hex_value(t[2 * k])->0 == bytes[k] as int / 16);
            assert(hex_value(t[2 * k + 1])->0 == bytes[k] as int % 16);
        }
    }
}

} // verus!

verus! {

/// The content hash of a text: its SHA-256 digest in lower-case hexadecimal.
pub open spec fn content_hash_of(content: Seq<char>) -> Seq<char> {
    hex_lower(sha256_of(vstd::utf8::encode_utf8(content)))
}

/// The content hash of `content`, see `content_hash_of`.
pub fn content_hash_hex(content: &str) -> (h: String)
    ensures
        h@ == content_hash_of(content@),
{
    let d = sha256(content.as_bytes());
    hex_encode(d.as_slice())
}

} // verus!
