//! Character classes and ASCII case mapping on single characters.
use vstd::prelude::*;

verus! {

pub open spec fn is_upper_letter(c: char) -> bool {
    'A' <= c && c <= 'Z'
}

pub open spec fn is_lower_letter(c: char) -> bool {
    'a' <= c && c <= 'z'
}

pub open spec fn is_letter(c: char) -> bool {
    is_upper_letter(c) || is_lower_letter(c)
}

/// A hexadecimal digit in either case: `0-9`, `a-f`, `A-F`.
pub open spec fn is_hex_digit(c: char) -> bool {
    ('0' <= c && c <= '9') || ('a' <= c && c <= 'f') || ('A' <= c && c <= 'F')
}

/// The ASCII lowercase form of `c`; characters other than `A-Z` are kept.
pub open spec fn lower_char(c: char) -> char {
    if is_upper_letter(c) {
        ((c as u8) + 32) as char
    } else {
        c
    }
}

/// The ASCII uppercase form of `c`; characters other than `a-z` are kept.
pub open spec fn upper_char(c: char) -> char {
    if is_lower_letter(c) {
        ((c as u8) - 32) as char
    } else {
        c
    }
}

/// The other case of an ASCII letter; any other character is kept.
pub open spec fn flip_case(c: char) -> char {
    if is_lower_letter(c) {
        upper_char(c)
    } else {
        lower_char(c)
    }
}

/// The value of a hexadecimal digit, `0` to `15`.
pub open spec fn hex_value(c: char) -> int {
    if '0' <= c && c <= '9' {
        c as int - '0' as int
    } else if 'a' <= c && c <= 'f' {
        c as int - 'a' as int + 10
    } else {
        c as int - 'A' as int + 10
    }
}

/// The lowercase hexadecimal digit for a value below sixteen.
pub open spec fn hex_digit_char(n: int) -> char {
    if n < 10 {
        (n + '0' as int) as char
    } else {
        (n - 10 + 'a' as int) as char
    }
}

pub proof fn lemma_case_maps(c: char)
    ensures
        lower_char(lower_char(c)) == lower_char(c),
        lower_char(upper_char(c)) == lower_char(c),
        upper_char(lower_char(c)) == upper_char(c),
        upper_char(upper_char(c)) == upper_char(c),
        lower_char(flip_case(c)) == lower_char(c),
        is_letter(c) ==> flip_case(c) != c,
        is_hex_digit(c) ==> is_hex_digit(lower_char(c)) && is_hex_digit(upper_char(c)),
        is_hex_digit(c) ==> is_hex_digit(flip_case(c)),
{
}

pub fn to_lower(c: char) -> (r: char)
    ensures
        r == lower_char(c),
{
    if 'A' <= c && c <= 'Z' {
        ((c as u8) + 32) as char
    } else {
        c
    }
}

pub fn to_upper(c: char) -> (r: char)
    ensures
        r == upper_char(c),
{
    if 'a' <= c && c <= 'z' {
        ((c as u8) - 32) as char
    } else {
        c
    }
}

pub fn is_hex(c: char) -> (r: bool)
    ensures
        r == is_hex_digit(c),
{
    ('0' <= c && c <= '9') || ('a' <= c && c <= 'f') || ('A' <= c && c <= 'F')
}

pub fn hex_digit_value(c: char) -> (r: u8)
    requires
        is_hex_digit(c),
    ensures
        r as int == hex_value(c),
        r < 16,
{
    if '0' <= c && c <= '9' {
        ((c as u32) - ('0' as u32)) as u8
    } else if 'a' <= c && c <= 'f' {
        ((c as u32) - ('a' as u32) + 10) as u8
    } else {
        ((c as u32) - ('A' as u32) + 10) as u8
    }
}

} // verus!
