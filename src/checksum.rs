//! The checksum encoder and the validator.
use vstd::prelude::*;
use crate::ascii::{
    hex_digit_value, hex_value, is_hex, is_hex_digit, lower_char, to_lower, to_upper, upper_char,
};
use crate::digest::{hex_encode, hex_text, keccak256, keccak256_of, push_char};

verus! {

/// Why an address cannot be checksummed.
#[derive(Debug, Clone, Copy, PartialEq, Eq, Structural)]
pub enum AddressError {
    /// The payload is not exactly forty characters of `[0-9a-fA-F]`.
    MalformedAddress,
}

/// The length of the hexadecimal payload of an address.
pub const PAYLOAD_LEN: usize = 40;

/// Whether `a` starts with the prefix `0x` (or `0X`).
pub open spec fn has_prefix(a: Seq<char>) -> bool {
    a.len() >= 2 && a[0] == '0' && (a[1] == 'x' || a[1] == 'X')
}

/// The payload of an address: the text after a leading prefix, if any.
pub open spec fn payload_of(a: Seq<char>) -> Seq<char> {
    if has_prefix(a) {
        a.subrange(2, a.len() as int)
    } else {
        a
    }
}

/// Exactly forty hexadecimal digits, in any case.
pub open spec fn is_valid_payload(p: Seq<char>) -> bool {
    p.len() == PAYLOAD_LEN && forall|i: int| 0 <= i < p.len() ==> #[trigger] is_hex_digit(p[i])
}

/// An address that can be checksummed: its payload is valid.
pub open spec fn is_well_formed(a: Seq<char>) -> bool {
    is_valid_payload(payload_of(a))
}

pub open spec fn lowercase(s: Seq<char>) -> Seq<char> {
    Seq::new(s.len(), |i: int| lower_char(s[i]))
}

pub open spec fn uppercase(s: Seq<char>) -> Seq<char> {
    Seq::new(s.len(), |i: int| upper_char(s[i]))
}

/// The bytes of an ASCII text.
pub open spec fn ascii_bytes(s: Seq<char>) -> Seq<u8> {
    Seq::new(s.len(), |i: int| s[i] as u8)
}

/// The hexadecimal text of the digest that decides the casing of payload `p`:
/// Keccak-256 over the bytes of the lowercase payload.
pub open spec fn digest_text(p: Seq<char>) -> Seq<char> {
    hex_text(keccak256_of(ascii_bytes(lowercase(p))))
}

/// Each character of `p` uppercased where the digit of `h` at its position
/// is above 7, and lowercased otherwise.
pub open spec fn recase(p: Seq<char>, h: Seq<char>) -> Seq<char> {
    Seq::new(
        p.len(),
        |i: int|
            if hex_value(h[i]) > 7 {
                upper_char(p[i])
            } else {
                lower_char(p[i])
            },
    )
}

/// The checksum encoding of address `a`: a lowercase `0x` and the recased payload.
pub open spec fn encoded(a: Seq<char>) -> Seq<char> {
    seq!['0', 'x'] + recase(payload_of(a), digest_text(payload_of(a)))
}

/// An address that is its own checksum encoding.
pub open spec fn is_checksummed(a: Seq<char>) -> bool {
    is_well_formed(a) && encoded(a) == a
}

/// The prefixed checksum encoding of `payload` under the digest text `digest_hex`.
pub fn checksum_with_digest(payload: &str, digest_hex: &str) -> (r: String)
    requires
        payload@.len() <= digest_hex@.len(),
        forall|i: int| 0 <= i < payload@.len() ==> #[trigger] is_hex_digit(digest_hex@[i]),
    ensures
        r@ == seq!['0', 'x'] + recase(payload@, digest_hex@),
{
    let n = payload.unicode_len();
    let mut out = String::new();
    push_char(&mut out, '0');
    push_char(&mut out, 'x');
    let mut i: usize = 0;
    while i < n
        invariant
            n == payload@.len(),
            i <= n,
            payload@.len() <= digest_hex@.len(),
            forall|j: int| 0 <= j < payload@.len() ==> #[trigger] is_hex_digit(digest_hex@[j]),
            out@ == seq!['0', 'x'] + recase(payload@, digest_hex@).take(i as int),
        decreases n - i,
    {
        let c = payload.get_char(i);
        let d = digest_hex.get_char(i);
        assert(is_hex_digit(digest_hex@[i as int]));
        let c2 = if hex_digit_value(d) > 7 {
            to_upper(c)
        } else {
            to_lower(c)
        };
        push_char(&mut out, c2);
        i = i + 1;
        assert(recase(payload@, digest_hex@).take(i as int) =~= recase(payload@, digest_hex@).take(
            (i - 1) as int,
        ).push(c2));
    }
    assert(recase(payload@, digest_hex@).take(n as int) =~= recase(payload@, digest_hex@));
    out
}

/// The payload of `address`: the text after a leading `0x` or `0X`.
pub fn strip_prefix(address: &str) -> (r: &str)
    ensures
        r@ == payload_of(address@),
{
    let n = address.unicode_len();
    if n >= 2 {
        let c0 = address.get_char(0);
        let c1 = address.get_char(1);
        if c0 == '0' && (c1 == 'x' || c1 == 'X') {
            return address.substring_char(2, n);
        }
    }
    address
}

/// Whether `payload` is exactly forty hexadecimal digits.
pub fn is_payload(payload: &str) -> (r: bool)
    ensures
        r == is_valid_payload(payload@),
{
    let n = payload.unicode_len();
    if n != PAYLOAD_LEN {
        return false;
    }
    let mut i: usize = 0;
    while i < n
        invariant
            n == payload@.len(),
            i <= n,
            forall|j: int| 0 <= j < i ==> #[trigger] is_hex_digit(payload@[j]),
        decreases n - i,
    {
        if !is_hex(payload.get_char(i)) {
            return false;
        }
        i = i + 1;
    }
    true
}

/// The bytes of the lowercase form of an ASCII `text`.
pub fn lowercase_bytes(text: &str) -> (r: Vec<u8>)
    ensures
        r@ == ascii_bytes(lowercase(text@)),
{
    let n = text.unicode_len();
    let mut out: Vec<u8> = Vec::new();
    let mut i: usize = 0;
    while i < n
        invariant
            n == text@.len(),
            i <= n,
            out@ == ascii_bytes(lowercase(text@)).take(i as int),
        decreases n - i,
    {
        let c = to_lower(text.get_char(i));
        out.push(c as u8);
        i = i + 1;
        assert(ascii_bytes(lowercase(text@)).take(i as int) =~= ascii_bytes(lowercase(text@)).take(
            (i - 1) as int,
        ).push(c as u8));
    }
    assert(ascii_bytes(lowercase(text@)).take(n as int) =~= ascii_bytes(lowercase(text@)));
    out
}

/// The mixed-case checksum encoding of `address`, which may carry a `0x`
/// prefix; the result always carries a lowercase `0x`.
pub fn checksum(address: &str) -> (r: Result<String, AddressError>)
    ensures
        match r {
            Ok(s) => is_well_formed(address@) && s@ == encoded(address@),
            Err(e) => !is_well_formed(address@) && e == AddressError::MalformedAddress,
        },
{
    let payload = strip_prefix(address);
    if !is_payload(payload) {
        return Err(AddressError::MalformedAddress);
    }
    let lowered = lowercase_bytes(payload);
    let digest = keccak256(lowered.as_slice());
    let digest_hex = hex_encode(digest.as_slice());
    proof {
        assert forall|i: int| 0 <= i < digest_hex@.len() implies #[trigger] is_hex_digit(
            digest_hex@[i],
        ) by {
            assert(digest_hex@[i] == hex_text(digest@)[i]);
        }
    }
    Ok(checksum_with_digest(payload, digest_hex.as_str()))
}

/// Whether `address` is exactly its own checksum encoding, prefix included;
/// an address that cannot be checksummed is not valid.
pub fn validate_address(address: &str) -> (r: bool)
    ensures
        r == is_checksummed(address@),
{
    match checksum(address) {
        Ok(s) => s == address.to_owned(),
        Err(_) => false,
    }
}

} // verus!
