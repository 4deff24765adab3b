//! The outside primitives: the Keccak-256 digest and its hexadecimal text.
use vstd::prelude::*;
use crate::ascii::hex_digit_char;

verus! {

/// The Keccak-256 digest of a byte string, as computed by the `sha3` crate.
pub uninterp spec fn keccak256_of(data: Seq<u8>) -> Seq<u8>;

/// Lowercase hexadecimal text of a byte string: two digits per byte, high nibble first.
pub open spec fn hex_text(bytes: Seq<u8>) -> Seq<char> {
    Seq::new(
        2 * bytes.len(),
        |i: int|
            if i % 2 == 0 {
                hex_digit_char(bytes[i / 2] as int / 16)
            } else {
                hex_digit_char(bytes[i / 2] as int % 16)
            },
    )
}

/// Relies on `sha3::Keccak256` through `digest::Digest::digest`: the digest of
/// `data` is a function of the bytes alone, and is 32 bytes long (output size `U32`).
#[verifier::external_body]
pub(crate) fn keccak256(data: &[u8]) -> (r: Vec<u8>)
    ensures
        r@ == keccak256_of(data@),
        r@.len() == 32,
{
    <sha3::Keccak256 as sha3::Digest>::digest(data).to_vec()
}

/// Relies on `hex::encode`: each byte becomes two digits of `0123456789abcdef`,
/// the high nibble first.
#[verifier::external_body]
pub(crate) fn hex_encode(data: &[u8]) -> (r: String)
    ensures
        r@ == hex_text(data@),
{
    hex::encode(data)
}

/// Relies on `String::push`: the character is appended at the end.
#[verifier::external_body]
pub(crate) fn push_char(s: &mut String, c: char)
    ensures
        final(s)@ == old(s)@.push(c),
{
    s.push(c)
}

} // verus!
