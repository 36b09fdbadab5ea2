//! Encodings and digests: base64, SHA-256, percent-encoding, hexadecimal, and
//! random bytes.

use vstd::prelude::*;
use vstd::utf8::{decode_utf8, encode_utf8, valid_utf8};

use base64::Engine;

use crate::text::opt_view;

verus! {

// ---- base64 -----------------------------------------------------------

/// The URL-safe base64 text of bytes, without padding.
pub uninterp spec fn base64url(bytes: Seq<u8>) -> Seq<char>;

/// The bytes that a URL-safe base64 text without padding stands for.
pub uninterp spec fn base64url_bytes(text: Seq<char>) -> Option<Seq<u8>>;

/// The standard base64 text of bytes, with padding.
pub uninterp spec fn base64_standard(bytes: Seq<u8>) -> Seq<char>;

/// A character of the URL-safe base64 alphabet.
pub open spec fn is_base64url_char(c: char) -> bool {
    'A' <= c <= 'Z' || 'a' <= c <= 'z' || '0' <= c <= '9' || c == '-' || c == '_'
}

/// `Engine::encode` of base64's `URL_SAFE_NO_PAD` writes bytes in the URL-safe
/// alphabet, and its `decode` gives the bytes back.
#[verifier::external_body]
pub(crate) fn base64url_encode(bytes: &[u8]) -> (r: String)
    ensures
        r@ == base64url(bytes@),
        forall|i: int| 0 <= i < r@.len() ==> is_base64url_char(#[trigger] r@[i]),
        base64url_bytes(r@) == Some(bytes@),
{
    base64::engine::general_purpose::URL_SAFE_NO_PAD.encode(bytes)
}

/// The bytes of an optional vector.
pub open spec fn opt_bytes(v: Option<Vec<u8>>) -> Option<Seq<u8>> {
    match v {
        Some(b) => Some(b@),
        None => None,
    }
}

/// `Engine::decode` of base64's `URL_SAFE_NO_PAD` reads a base64 text, or
/// fails.
#[verifier::external_body]
pub(crate) fn base64url_decode(text: &str) -> (r: Option<Vec<u8>>)
    ensures
        opt_bytes(r) == base64url_bytes(text@),
{
    base64::engine::general_purpose::URL_SAFE_NO_PAD.decode(text).ok()
}

/// `Engine::encode` of base64's `STANDARD` writes bytes in the standard
/// alphabet.
#[verifier::external_body]
pub(crate) fn base64_encode(bytes: &[u8]) -> (r: String)
    ensures
        r@ == base64_standard(bytes@),
{
    base64::engine::general_purpose::STANDARD.encode(bytes)
}

// ---- SHA-256 ----------------------------------------------------------

/// The SHA-256 digest of bytes.
pub uninterp spec fn sha256_digest(bytes: Seq<u8>) -> Seq<u8>;

/// `Sha256::digest` of sha2 gives the digest, which is 32 bytes long.
#[verifier::external_body]
pub(crate) fn sha256(bytes: &[u8]) -> (r: Vec<u8>)
    ensures
        r@ == sha256_digest(bytes@),
        r@.len() == 32,
{
    <sha2::Sha256 as sha2::Digest>::digest(bytes).to_vec()
}

// ---- random bytes -----------------------------------------------------

/// `RngCore::fill_bytes` of rand fills a buffer with random bytes. Nothing is
/// known of them but their number.
#[verifier::external_body]
pub(crate) fn random_bytes(count: usize) -> (r: Vec<u8>)
    ensures
        r@.len() == count,
{
    let mut bytes = vec![0u8; count];
    rand::RngCore::fill_bytes(&mut rand::thread_rng(), &mut bytes);
    bytes
}

// ---- percent-encoding -------------------------------------------------

/// A byte that percent-encoding leaves as it is.
pub open spec fn is_unreserved(b: u8) -> bool {
    ||| '0' as u8 <= b <= '9' as u8
    ||| 'A' as u8 <= b <= 'Z' as u8
    ||| 'a' as u8 <= b <= 'z' as u8
    ||| b == '-' as u8
    ||| b == '.' as u8
    ||| b == '_' as u8
    ||| b == '~' as u8
}

/// The capital hexadecimal digit of a number below 16.
pub open spec fn hex_upper(n: u8) -> char {
    if n < 10 {
        ('0' as u8 + n) as char
    } else {
        ('A' as u8 + (n - 10)) as char
    }
}

/// Bytes in percent-encoding.
pub open spec fn percent_encoded(bytes: Seq<u8>) -> Seq<char>
    decreases bytes.len(),
{
    if bytes.len() == 0 {
        seq![]
    } else {
        let b = bytes[0];
        let first = if is_unreserved(b) {
            seq![b as char]
        } else {
            seq!['%', hex_upper(b / 16), hex_upper(b % 16)]
        };
        first + percent_encoded(bytes.drop_first())
    }
}

/// `urlencoding::encode` percent-encodes the UTF-8 bytes of a text, all but the
/// unreserved ones.
#[verifier::external_body]
pub(crate) fn url_encode(s: &str) -> (r: String)
    ensures
        r@ == percent_encoded(encode_utf8(s@)),
{
    urlencoding::encode(s).into_owned()
}

/// The number that a hexadecimal digit stands for.
pub open spec fn hex_value(b: u8) -> Option<u8> {
    if '0' as u8 <= b <= '9' as u8 {
        Some((b - '0' as u8) as u8)
    } else if 'A' as u8 <= b <= 'F' as u8 {
        Some((b - 'A' as u8 + 10) as u8)
    } else if 'a' as u8 <= b <= 'f' as u8 {
        Some((b - 'a' as u8 + 10) as u8)
    } else {
        None
    }
}

/// Bytes with each `%` and two hexadecimal digits replaced by the byte that
/// they stand for.
pub open spec fn percent_decoded(bytes: Seq<u8>) -> Seq<u8>
    decreases bytes.len(),
{
    if bytes.len() == 0 {
        seq![]
    } else if bytes[0] == '%' as u8 && bytes.len() >= 3 && hex_value(bytes[1]) is Some && hex_value(
        bytes[2],
    ) is Some {
        seq![(hex_value(bytes[1])->0 * 16 + hex_value(bytes[2])->0) as u8] + percent_decoded(
            bytes.skip(3),
        )
    } else {
        seq![bytes[0]] + percent_decoded(bytes.drop_first())
    }
}

/// The text that a percent-encoded text stands for, where it is one.
pub open spec fn url_decoded(s: Seq<char>) -> Option<Seq<char>> {
    let bytes = percent_decoded(encode_utf8(s));
    if valid_utf8(bytes) {
        Some(decode_utf8(bytes))
    } else {
        None
    }
}

/// `urlencoding::decode` decodes the percent-encoded bytes of a text, leaves
/// what is no such sequence as it is, and fails where the bytes are not UTF-8.
#[verifier::external_body]
pub(crate) fn url_decode(s: &str) -> (r: Option<String>)
    ensures
        opt_view(r) == url_decoded(s@),
{
    Some(urlencoding::decode(s).ok()?.into_owned())
}

// ---- hexadecimal ------------------------------------------------------

/// The small hexadecimal digit of a number below 16.
pub open spec fn hex_lower(n: u8) -> char {
    if n < 10 {
        ('0' as u8 + n) as char
    } else {
        ('a' as u8 + (n - 10)) as char
    }
}

/// Bytes as two small hexadecimal digits each.
pub open spec fn hex_text(bytes: Seq<u8>) -> Seq<char>
    decreases bytes.len(),
{
    if bytes.len() == 0 {
        seq![]
    } else {
        hex_text(bytes.drop_last()) + seq![
            hex_lower(bytes.last() / 16),
            hex_lower(bytes.last() % 16),
        ]
    }
}

fn hex_digit(n: u8) -> (r: char)
    requires
        n < 16,
    ensures
        r == hex_lower(n),
{
    if n < 10 {
        ('0' as u8 + n) as char
    } else {
        ('a' as u8 + (n - 10)) as char
    }
}

/// Writes bytes as two small hexadecimal digits each.
pub fn to_hex(bytes: &Vec<u8>) -> (r: String)
    ensures
        r@ == hex_text(bytes@),
{
    let mut out = String::new();
    let mut i: usize = 0;
    proof {
        assert(bytes@.take(0) =~= Seq::<u8>::empty());
    }
    while i < bytes.len()
        invariant
            i <= bytes@.len(),
            out@ == hex_text(bytes@.take(i as int)),
        decreases bytes@.len() - i,
    {
        let b = bytes[i];
        out.push(hex_digit(b / 16));
        out.push(hex_digit(b % 16));
        proof {
            let t = bytes@.take(i + 1);
            assert(t.drop_last() =~= bytes@.take(i as int));
            assert(out@ =~= hex_text(t));
        }
        i = i + 1;
    }
    proof {
        assert(bytes@.take(bytes@.len() as int) =~= bytes@);
    }
    out
}

} // verus!
