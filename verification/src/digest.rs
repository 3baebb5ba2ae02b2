//! Digests, fingerprints and the comparison of secrets.

use vstd::prelude::*;
use vstd::string::*;

verus! {

/// The SHA-256 digest of a byte string.
pub uninterp spec fn sha256_of(bytes: Seq<u8>) -> Seq<u8>;

/// `sha2::Sha256::digest` gives the SHA-256 digest, which is 32 bytes long.
#[verifier::external_body]
pub(crate) fn sha256(bytes: &[u8]) -> (r: Vec<u8>)
    ensures
        r@ == sha256_of(bytes@),
        r@.len() == 32,
{
    <sha2::Sha256 as sha2::Digest>::digest(bytes).to_vec()
}

/// The character of a hexadecimal digit.
pub open spec fn hex_char(d: int) -> char {
    if d < 10 {
        ((48 + d) as u8) as char
    } else {
        ((87 + d) as u8) as char
    }
}

/// Bytes written as two small hexadecimal digits each.
pub open spec fn hex_of(bytes: Seq<u8>) -> Seq<char> {
    Seq::new(
        2 * bytes.len(),
        |i: int|
            if i % 2 == 0 {
                hex_char(bytes[i / 2] as int / 16)
            } else {
                hex_char(bytes[i / 2] as int % 16)
            },
    )
}

fn hex_digit(d: u8) -> (c: char)
    requires
        d < 16,
    ensures
        c == hex_char(d as int),
{
    if d < 10 {
        (48u8 + d) as char
    } else {
        (87u8 + d) as char
    }
}

/// Bytes written as two small hexadecimal digits each.
pub fn hex(bytes: &[u8]) -> (out: String)
    ensures
        out@ == hex_of(bytes@),
{
    let mut out = String::new();
    let mut i: usize = 0;
    while i < bytes.len()
        invariant
            i <= bytes@.len(),
            out@ == hex_of(bytes@).take(2 * i),
        decreases bytes@.len() - i,
    {
        let b = bytes[i];
        out.push(hex_digit(b / 16));
        out.push(hex_digit(b % 16));
        assert(hex_of(bytes@).take(2 * i).push(hex_of(bytes@)[2 * i]).push(
            hex_of(bytes@)[2 * i + 1],
        ) =~= hex_of(bytes@).take(2 * (i + 1)));
        i = i + 1;
    }
    assert(hex_of(bytes@).take(2 * i) =~= hex_of(bytes@));
    out
}

/// The digest of a text, in hexadecimal: it stands for the text where the text
/// itself must not be kept.
pub open spec fn fingerprint_of(text: Seq<char>) -> Seq<char> {
    hex_of(sha256_of(vstd::utf8::encode_utf8(text)))
}

/// The digest of a text, in hexadecimal.
pub fn fingerprint(value: &str) -> (out: String)
    ensures
        out@ == fingerprint_of(value@),
{
    hex(&sha256(value.as_bytes()))
}

/// The digest of a document, in hexadecimal.
pub fn document_sha256(bytes: &[u8]) -> (out: String)
    ensures
        out@ == hex_of(sha256_of(bytes@)),
{
    hex(&sha256(bytes))
}

/// The byte at an index, zero past the end.
pub open spec fn byte_at(s: Seq<u8>, i: int) -> u8 {
    if 0 <= i < s.len() {
        s[i]
    } else {
        0
    }
}

/// What the comparison of secrets accepts: lengths that agree modulo 256, and equal
/// bytes where the shorter one counts as continued with zeros.
pub open spec fn same_secret(left: Seq<u8>, right: Seq<u8>) -> bool {
    &&& left.len() % 256 == right.len() % 256
    &&& forall|i: int|
        0 <= i < left.len() || 0 <= i < right.len() ==> #[trigger] byte_at(left, i) == byte_at(
            right,
            i,
        )
}

/// Compares two byte strings without stopping at the first difference.
pub fn constant_time_equal(left: &[u8], right: &[u8]) -> (r: bool)
    ensures
        r == same_secret(left@, right@),
{
    let length: usize = if left.len() > right.len() {
        left.len()
    } else {
        right.len()
    };
    let a: u64 = left.len() as u64;
    let b: u64 = right.len() as u64;
    let mut difference: u8 = (a ^ b) as u8;
    assert(((a ^ b) as u8 == 0) <==> a % 256 == b % 256) by (bit_vector);
    let mut index: usize = 0;
    while index < length
        invariant
            index <= length,
            length == (if left@.len() > right@.len() {
                left@.len()
            } else {
                right@.len()
            }),
            difference == 0 <==> (left@.len() % 256 == right@.len() % 256 && forall|i: int|
                0 <= i < index ==> #[trigger] byte_at(left@, i) == byte_at(right@, i)),
        decreases length - index,
    {
        let left_byte: u8 = if index < left.len() {
            left[index]
        } else {
            0
        };
        let right_byte: u8 = if index < right.len() {
            right[index]
        } else {
            0
        };
        let before: u8 = difference;
        difference = before | (left_byte ^ right_byte);
        assert((before | (left_byte ^ right_byte)) == 0u8 <==> before == 0u8 && left_byte
            == right_byte) by (bit_vector);
        assert(byte_at(left@, index as int) == left_byte);
        assert(byte_at(right@, index as int) == right_byte);
        index = index + 1;
    }
    difference == 0
}

/// Whether no byte is zero.
pub open spec fn without_zero(s: Seq<u8>) -> bool {
    forall|i: int| 0 <= i < s.len() ==> #[trigger] s[i] != 0
}

/// The comparison of secrets is equality, except for pairs whose lengths differ by
/// a multiple of 256 and of which one holds a zero byte.
pub proof fn same_secret_is_equality(left: Seq<u8>, right: Seq<u8>)
    requires
        left.len() == right.len() || left.len() % 256 != right.len() % 256 || (without_zero(left)
            && without_zero(right)),
    ensures
        same_secret(left, right) <==> left == right,
{
    if same_secret(left, right) {
        if left.len() > right.len() {
            let i = right.len() as int;
            assert(byte_at(left, i) == byte_at(right, i));
            assert(left[i] == 0);
        } else if left.len() < right.len() {
            let i = left.len() as int;
            assert(byte_at(left, i) == byte_at(right, i));
            assert(right[i] == 0);
        }
        assert forall|i: int| 0 <= i < left.len() implies left[i] == right[i] by {
            assert(byte_at(left, i) == byte_at(right, i));
        }
        assert(left =~= right);
    }
}

/// Equal secrets are always accepted.
pub proof fn same_secret_accepts_equals(secret: Seq<u8>)
    ensures
        same_secret(secret, secret),
{
}

/// Whether a character is the hexadecimal digit of a value.
pub open spec fn digit_of(c: char, value: int) -> bool {
    if value < 10 {
        c as u32 == '0' as u32 + value
    } else {
        c as u32 == 'a' as u32 + value - 10
    }
}

/// A digest is written with two characters for each byte, the upper half first, each a digit or
/// a small letter from `a` to `f`.
pub proof fn bytes_are_written_in_hexadecimal(bytes: Seq<u8>, i: int)
    requires
        0 <= i < bytes.len(),
    ensures
        hex_of(bytes).len() == 2 * bytes.len(),
        digit_of(hex_of(bytes)[2 * i], bytes[i] as int / 16),
        digit_of(hex_of(bytes)[2 * i + 1], bytes[i] as int % 16),
{
    assert((2 * i) / 2 == i && (2 * i) % 2 == 0);
    assert((2 * i + 1) / 2 == i && (2 * i + 1) % 2 == 1);
}

} // verus!
