//! Mixed-case checksum encoding of hexadecimal account addresses (EIP-55).
mod ascii;
mod checksum;
mod digest;
mod laws;

pub use ascii::{flip_case, hex_digit_char, hex_value, is_hex_digit, is_letter, lower_char, upper_char};
pub use checksum::{
    checksum, checksum_with_digest, is_payload, strip_prefix, validate_address, AddressError,
    PAYLOAD_LEN,
};
pub use digest::{hex_text, keccak256_of};
pub use laws::{
    lemma_case_flip_detected, lemma_checksum_idempotent, lemma_checksum_ignores_case,
    lemma_round_trip,
};
