//! Byte-level encodings: percent-encoding, hexadecimal, form decoding and
//! the SHA-1 digest. The work is done by the crates `urlencoding`, `hex`,
//! `url` and `sha1`; this module states what the callers rely on.

use vstd::prelude::*;
use vstd::utf8::encode_utf8;
use sha1::Digest;
use crate::strmap::{pair_views, Pair};

verus! {

/// The upper-case hexadecimal digit for a value below sixteen.
pub open spec fn upper_hex_digit(d: int) -> char
    recommends
        0 <= d < 16,
{
    if d < 10 {
        ((d + 48) as u8) as char
    } else {
        ((d + 55) as u8) as char
    }
}

/// The lower-case hexadecimal digit for a value below sixteen.
pub open spec fn lower_hex_digit(d: int) -> char
    recommends
        0 <= d < 16,
{
    if d < 10 {
        ((d + 48) as u8) as char
    } else {
        ((d + 87) as u8) as char
    }
}

/// Whether `c` is one of `0`-`9` or `a`-`f`.
pub open spec fn is_lower_hex(c: char) -> bool {
    ('0' <= c && c <= '9') || ('a' <= c && c <= 'f')
}

/// A byte written as `%` and two upper-case hexadecimal digits.
pub open spec fn percent_triplet(b: u8) -> Seq<char> {
    seq!['%', upper_hex_digit(b as int / 16), upper_hex_digit(b as int % 16)]
}

/// An ASCII letter or digit.
pub open spec fn is_alphanumeric_byte(b: u8) -> bool {
    (0x30 <= b <= 0x39) || (0x41 <= b <= 0x5A) || (0x61 <= b <= 0x7A)
}

/// The bytes that percent-encoding of a query value leaves as they are:
/// ASCII letters and digits, `-`, `.`, `_` and `~`.
pub open spec fn is_unreserved(b: u8) -> bool {
    is_alphanumeric_byte(b) || b == 0x2D || b == 0x2E || b == 0x5F || b == 0x7E
}

/// The percent-encoding of a byte string: unreserved bytes stand for
/// themselves, every other byte becomes its triplet.
pub open spec fn percent_encoded(bytes: Seq<u8>) -> Seq<char>
    decreases bytes.len(),
{
    if bytes.len() == 0 {
        Seq::empty()
    } else {
        percent_encoded(bytes.drop_last()) + if is_unreserved(bytes.last()) {
            seq![bytes.last() as char]
        } else {
            percent_triplet(bytes.last())
        }
    }
}

/// The percent-encoding of a text, taken in UTF-8.
pub open spec fn url_encoded(text: Seq<char>) -> Seq<char> {
    percent_encoded(encode_utf8(text))
}

/// The lower-case hexadecimal form of a byte string, two digits a byte.
pub open spec fn hex_lower(bytes: Seq<u8>) -> Seq<char>
    decreases bytes.len(),
{
    if bytes.len() == 0 {
        Seq::empty()
    } else {
        hex_lower(bytes.drop_last()).push(lower_hex_digit(bytes.last() as int / 16)).push(
            lower_hex_digit(bytes.last() as int % 16),
        )
    }
}

/// The hexadecimal form is twice as long as the bytes and holds only
/// lower-case hexadecimal digits.
pub proof fn lemma_hex_lower(bytes: Seq<u8>)
    ensures
        hex_lower(bytes).len() == 2 * bytes.len(),
        forall|i: int| 0 <= i < hex_lower(bytes).len() ==> is_lower_hex(#[trigger] hex_lower(bytes)[i]),
    decreases bytes.len(),
{
    if bytes.len() != 0 {
        lemma_hex_lower(bytes.drop_last());
    }
}

/// The SHA-1 digest of a byte string.
pub uninterp spec fn sha1_of(data: Seq<u8>) -> Seq<u8>;

/// The name and value pairs that a form-encoded byte string holds, decoded,
/// in the order in which they stand.
pub uninterp spec fn form_pairs(input: Seq<u8>) -> Seq<Pair>;

/// Computes the SHA-1 digest of `data`.
///
/// Trusted: names the result of `sha1::Sha1::digest`, and states that it is
/// twenty bytes long, which is the output size the `sha1` crate declares.
#[verifier::external_body]
pub(crate) fn sha1_digest(data: &[u8]) -> (r: Vec<u8>)
    ensures
        r@ == sha1_of(data@),
        r@.len() == 20,
{
    sha1::Sha1::digest(data).to_vec()
}

/// Writes bytes in lower-case hexadecimal.
///
/// Trusted: states of `hex::encode` that each byte becomes two digits from
/// `0123456789abcdef`, the high half first.
#[verifier::external_body]
pub(crate) fn hex_encode(data: &[u8]) -> (r: String)
    ensures
        r@ == hex_lower(data@),
{
    hex::encode(data)
}

/// Percent-encodes a query value.
///
/// Trusted: states of `urlencoding::encode` that it works on the UTF-8 bytes
/// of the text, leaves ASCII letters, digits, `-`, `.`, `_` and `~` alone and
/// writes every other byte as `%` and two upper-case hexadecimal digits.
#[verifier::external_body]
pub(crate) fn url_encode(value: &str) -> (r: String)
    ensures
        r@ == url_encoded(value@),
{
    urlencoding::encode(value).into_owned()
}

/// Decodes a form-encoded query string into its pairs.
///
/// Trusted: names the pairs that `url::form_urlencoded::parse` yields for
/// the UTF-8 bytes of `input`.
#[verifier::external_body]
pub(crate) fn parse_form(input: &str) -> (r: Vec<(String, String)>)
    ensures
        pair_views(r@) == form_pairs(encode_utf8(input@)),
{
    url::form_urlencoded::parse(input.as_bytes()).into_owned().collect()
}

} // verus!
