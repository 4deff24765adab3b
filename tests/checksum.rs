use eip55::{checksum, checksum_with_digest, is_payload, strip_prefix, validate_address, AddressError};

fn ok(s: &str) -> Result<String, AddressError> {
    Ok(s.to_string())
}

#[test]
fn checksum_no_prefix() {
    let input = "fb6916095ca1df60bb79ce92ce3ea74c37c5d359";
    let target = "0xfB6916095ca1df60bB79Ce92cE3Ea74c37c5d359";
    let output = checksum(input);
    assert_eq!(output, ok(target));
}

#[test]
fn checksums() {
    let target = "0xfB6916095ca1df60bB79Ce92cE3Ea74c37c5d359";
    assert_eq!(ok(target), checksum(&target.to_lowercase()));
    let all_caps_1 = "0x52908400098527886E0F7030069857D2E4169EE7";
    assert_eq!(ok(all_caps_1), checksum(&all_caps_1.to_lowercase()));
    let all_caps_2 = "0x8617E340B3D01FA5F11F306F4090FD50E238070D";
    assert_eq!(ok(all_caps_2), checksum(&all_caps_2.to_lowercase()));
    let all_lower_1 = "0xde709f2102306220921060314715629080e2fb77";
    assert_eq!(ok(all_lower_1), checksum(&all_lower_1.to_lowercase()));
    let all_lower_2 = "0x27b1fdb04752bbc536007a920d24acb045561c26";
    assert_eq!(ok(all_lower_2), checksum(&all_lower_2.to_lowercase()));
    let normal_1 = "0x5aAeb6053F3E94C9b9A09f33669435E7Ef1BeAed";
    assert_eq!(ok(normal_1), checksum(&normal_1.to_lowercase()));
    let normal_2 = "0xfB6916095ca1df60bB79Ce92cE3Ea74c37c5d359";
    assert_eq!(ok(normal_2), checksum(&normal_2.to_lowercase()));
}

#[test]
fn lib_test_validate_address() {
    // Base
    assert_eq!(validate_address("0x5aAeb6053F3E94C9b9A09f33669435E7Ef1BeAed"), true);
    // All caps
    assert_eq!(validate_address("0x52908400098527886E0F7030069857D2E4169EE7"), true);
    assert_eq!(validate_address("0x8617E340B3D01FA5F11F306F4090FD50E238070D"), true);
    // All Lower
    assert_eq!(validate_address("0xde709f2102306220921060314715629080e2fb77"), true);
    assert_eq!(validate_address("0x27b1fdb04752bbc536007a920d24acb045561c26"), true);
    // Normal
    assert_eq!(validate_address("0x5aAeb6053F3E94C9b9A09f33669435E7Ef1BeAed"), true);
    assert_eq!(validate_address("0xfB6916095ca1df60bB79Ce92cE3Ea74c37c5d359"), true);
    assert_eq!(validate_address("0xdbF03B407c01E7cD3CBea99509d93f8DDDC8C6FB"), true);
    assert_eq!(validate_address("0xD1220A0cf47c7B9Be7A2E6BA89F429762e7b9aDb"), true);

    // False
    assert_eq!(validate_address("0xD1220a0cf47c7B9Be7A2E6BA89F429762e7b9aDb"), false);
    assert_eq!(validate_address("0xdbF03B407c01e7cD3CBea99509d93f8DDDC8C6FB"), false);
    assert_eq!(validate_address("0xfb6916095ca1df60bB79Ce92cE3Ea74c37c5D359"), false);
    assert_eq!(validate_address("0x5aAeb6053f3E94C9b9A09f33669435E7Ef1BeAed"), false);

    assert_eq!(validate_address("0x000000000000000000000000000000000000dEAD"), false);
    assert_eq!(validate_address("0x000000000000000000000000000000000000dEaD"), true);
}

#[test]
fn main_test_validate_address() {
    assert_eq!(validate_address("0x5aAeb6053F3E94C9b9A09f33669435E7Ef1BeAed"), true);
    assert_eq!(
        checksum("0x5aaeb6053f3e94c9b9a09f33669435e7ef1beaed"),
        ok("0x5aAeb6053F3E94C9b9A09f33669435E7Ef1BeAed")
    )
}

#[test]
fn checksum_is_idempotent() {
    let once = checksum("0x8617e340b3d01fa5f11f306f4090fd50e238070d").unwrap();
    assert_eq!(checksum(&once), Ok(once.clone()));
    let no_prefix = checksum("dbf03b407c01e7cd3cbea99509d93f8dddc8c6fb").unwrap();
    assert_eq!(no_prefix, "0xdbF03B407c01E7cD3CBea99509d93f8DDDC8C6FB");
    assert_eq!(checksum(&no_prefix), Ok(no_prefix.clone()));
}

#[test]
fn checksum_ignores_input_case() {
    let mixed = "0xD1220a0CF47c7b9bE7a2e6ba89f429762E7B9AdB";
    let expected = ok("0xD1220A0cf47c7B9Be7A2E6BA89F429762e7b9aDb");
    assert_eq!(checksum(mixed), expected);
    assert_eq!(checksum(&mixed.to_lowercase()), expected);
    assert_eq!(checksum(&mixed.to_uppercase()), expected);
}

#[test]
fn checksum_accepts_uppercase_prefix() {
    assert_eq!(
        checksum("0XFB6916095CA1DF60BB79CE92CE3EA74C37C5D359"),
        ok("0xfB6916095ca1df60bB79Ce92cE3Ea74c37c5d359")
    );
    // the prefix is never re-emitted as given
    assert_eq!(validate_address("0XfB6916095ca1df60bB79Ce92cE3Ea74c37c5d359"), false);
}

#[test]
fn checksum_round_trips_through_validation() {
    for p in [
        "0x000000000000000000000000000000000000dead",
        "ffffffffffffffffffffffffffffffffffffffff",
        "0xABCDEFABCDEFABCDEFABCDEFABCDEFABCDEFABCD",
    ] {
        let c = checksum(p).unwrap();
        assert_eq!(c.len(), 42);
        assert!(c.starts_with("0x"));
        assert!(validate_address(&c));
    }
}

#[test]
fn single_case_flip_fails_validation() {
    let good = "0x5aAeb6053F3E94C9b9A09f33669435E7Ef1BeAed";
    assert!(validate_address(good));
    let chars: Vec<char> = good.chars().collect();
    for i in 2..chars.len() {
        if chars[i].is_ascii_alphabetic() {
            let mut flipped = chars.clone();
            flipped[i] = if chars[i].is_ascii_lowercase() {
                chars[i].to_ascii_uppercase()
            } else {
                chars[i].to_ascii_lowercase()
            };
            let s: String = flipped.into_iter().collect();
            assert!(!validate_address(&s), "flip at {} validated", i);
        }
    }
}

#[test]
fn digits_have_no_case() {
    assert_eq!(validate_address("0x000000000000000000000000000000000000dEaD"), true);
    assert_eq!(validate_address("0x000000000000000000000000000000000000dEAD"), false);
    assert_eq!(
        checksum("0x0000000000000000000000000000000000000000"),
        ok("0x0000000000000000000000000000000000000000")
    );
}

#[test]
fn malformed_addresses_are_rejected() {
    let err = Err(AddressError::MalformedAddress);
    assert_eq!(checksum(""), err);
    assert_eq!(checksum("0x"), err);
    // 39 and 41 payload characters
    assert_eq!(checksum("0xfb6916095ca1df60bb79ce92ce3ea74c37c5d35"), err);
    assert_eq!(checksum("0xfb6916095ca1df60bb79ce92ce3ea74c37c5d3599"), err);
    // a character outside [0-9a-fA-F]
    assert_eq!(checksum("0xgb6916095ca1df60bb79ce92ce3ea74c37c5d359"), err);
    assert_eq!(checksum("0xfb6916095ca1df60bb79ce92ce3ea74c37c5d35é"), err);
    // only one prefix is stripped
    assert_eq!(checksum("0x0xfb6916095ca1df60bb79ce92ce3ea74c37c5d359"), err);
}

#[test]
fn malformed_addresses_do_not_validate() {
    assert!(!validate_address(""));
    assert!(!validate_address("0x"));
    assert!(!validate_address("0xfB6916095ca1df60bB79Ce92cE3Ea74c37c5d35"));
    assert!(!validate_address("0xzB6916095ca1df60bB79Ce92cE3Ea74c37c5d359"));
    // a correct payload without its prefix
    assert!(!validate_address("fB6916095ca1df60bB79Ce92cE3Ea74c37c5d359"));
}

#[test]
fn checksum_with_digest_follows_each_digit() {
    let payload = "abcdef0123abcdef0123abcdef0123abcdef0123";
    let high = "8".repeat(64);
    let low = "7".repeat(64);
    assert_eq!(checksum_with_digest(payload, &high), "0xABCDEF0123ABCDEF0123ABCDEF0123ABCDEF0123");
    assert_eq!(checksum_with_digest(payload, &low), "0xabcdef0123abcdef0123abcdef0123abcdef0123");
    assert_eq!(checksum_with_digest("aBcD", "0f7A"), "0xaBcD");
    assert_eq!(checksum_with_digest("aBcD", "F08a"), "0xAbCD");
    assert_eq!(checksum_with_digest("", "f"), "0x");
}

#[test]
fn strip_prefix_removes_one_prefix() {
    assert_eq!(strip_prefix("0xabc"), "abc");
    assert_eq!(strip_prefix("0Xabc"), "abc");
    assert_eq!(strip_prefix("0x0xabc"), "0xabc");
    assert_eq!(strip_prefix("abc"), "abc");
    assert_eq!(strip_prefix("0"), "0");
}

#[test]
fn is_payload_checks_length_and_digits() {
    assert!(is_payload("fb6916095ca1df60bb79ce92ce3ea74c37c5d359"));
    assert!(is_payload("FB6916095CA1DF60BB79CE92CE3EA74C37C5D359"));
    assert!(!is_payload("fb6916095ca1df60bb79ce92ce3ea74c37c5d35"));
    assert!(!is_payload("fb6916095ca1df60bb79ce92ce3ea74c37c5d35x"));
}
