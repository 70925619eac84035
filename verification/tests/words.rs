use daman_bridge::abi::{
    calldata, is_encodable, is_sliceable, pad_left_address, pad_left_word, zero_bytes32,
};
use daman_bridge::digest::{keccak_hex, keccak_selector, selector_of};
use daman_bridge::intent::DispatchIntent;
use daman_bridge::quantity::{
    format_unsigned, hex_quantity, parse_hex_u64, parse_unsigned, strip_hex, HexError, NumberError,
};
use daman_bridge::text::{is_blank, repeat_zero, same};

fn attest(leader: &str, evidence_hash: &str, builder: &str) -> DispatchIntent {
    DispatchIntent::AttestDegradation {
        leader: leader.to_string(),
        evidence_hash: evidence_hash.to_string(),
        builder: builder.to_string(),
    }
}

fn rule(claim_id: &str, slash_amount: &str, upheld: bool, builder: &str) -> DispatchIntent {
    DispatchIntent::ArbiterRule {
        claim_id: claim_id.to_string(),
        slash_amount: slash_amount.to_string(),
        upheld,
        builder: builder.to_string(),
    }
}

#[test]
fn selector_matches_known_signature() {
    // transfer(address,uint256) is well-known: a9059cbb
    let sel = keccak_selector("transfer(address,uint256)");
    assert_eq!(sel, "a9059cbb");
}

#[test]
fn pad_left_address_pads_to_32_bytes() {
    let padded = pad_left_address("0xabcdef0123456789abcdef0123456789abcdef01");
    assert_eq!(padded.len(), 64);
    assert!(padded.ends_with("abcdef0123456789abcdef0123456789abcdef01"));
}

#[test]
fn digest_of_known_texts() {
    assert_eq!(
        keccak_hex(b""),
        "c5d2460186f7233c927e7db2dcc703c0e500b653ca82273b7bfad8045d85a470"
    );
    assert_eq!(
        keccak_hex(b"transfer(address,uint256)"),
        "a9059cbb2ab09eb219583f4a59a5d0623ade346d962bcd4e46b11da047c9049b"
    );
}

#[test]
fn selectors_of_the_contract_calls() {
    assert_eq!(keccak_selector("attestDegradation(address,bytes32,bytes32)"), "c0dd590e");
    assert_eq!(keccak_selector("arbiterRule(uint256,uint256,bool,bytes32)"), "38c21c38");
}

#[test]
fn selector_is_the_front_of_the_digest() {
    assert_eq!(selector_of("0123456789abcdef"), "01234567");
    assert_eq!(selector_of("fedcba98"), "fedcba98");
}

#[test]
fn address_word_is_24_zeros_and_40_digits() {
    assert_eq!(
        pad_left_address("0xabcdef0123456789abcdef0123456789abcdef01"),
        "000000000000000000000000abcdef0123456789abcdef0123456789abcdef01"
    );
    // More than 40 digits: the last ones count.
    assert_eq!(
        pad_left_address("ffffabcdef0123456789abcdef0123456789abcdef01"),
        "000000000000000000000000abcdef0123456789abcdef0123456789abcdef01"
    );
    assert_eq!(pad_left_address("0xabc"), "0".repeat(61) + "abc");
    assert_eq!(pad_left_address(""), "0".repeat(64));
}

#[test]
fn address_cut_counts_bytes() {
    let inside = "\u{e9}".to_string() + &"a".repeat(39);
    assert!(!is_sliceable(&inside));
    assert!(!is_encodable(&attest(&inside, "", "")));
    let between = "\u{e9}".to_string() + &"a".repeat(40);
    assert!(is_sliceable(&between));
    assert_eq!(pad_left_address(&between), "0".repeat(24) + &"a".repeat(40));
    let short = "\u{e9}";
    assert!(is_sliceable(short));
    assert_eq!(pad_left_address(short), "0".repeat(62) + short);
}

#[test]
fn words_are_padded_and_never_cut() {
    assert_eq!(pad_left_word("ab".to_string()), "0".repeat(62) + "ab");
    assert_eq!(pad_left_word(String::new()), "0".repeat(64));
    assert_eq!(pad_left_word("f".repeat(64)), "f".repeat(64));
    assert_eq!(pad_left_word("f".repeat(70)), "f".repeat(70));
    let once = pad_left_word("12".to_string());
    assert_eq!(pad_left_word(once.clone()), once);
    assert_eq!(pad_left_word("\u{e9}".to_string()), "0".repeat(62) + "\u{e9}");
}

#[test]
fn zero_word_has_prefix_and_64_zeros() {
    assert_eq!(zero_bytes32(), "0x".to_string() + &"0".repeat(64));
    assert_eq!(pad_left_word(strip_hex(&zero_bytes32())), "0".repeat(64));
}

#[test]
fn calldata_of_attestation() {
    let intent = attest("0xabcdef0123456789abcdef0123456789abcdef01", "0xdef", "0xf00d");
    assert!(is_encodable(&intent));
    let expected = "0xc0dd590e".to_string()
        + "000000000000000000000000abcdef0123456789abcdef0123456789abcdef01"
        + "0000000000000000000000000000000000000000000000000000000000000def"
        + "000000000000000000000000000000000000000000000000000000000000f00d";
    assert_eq!(calldata(&intent), expected);
    assert_eq!(expected.len(), 10 + 64 * 3);
}

#[test]
fn calldata_of_rulings() {
    let upheld = rule("0x7", "0x64", true, &zero_bytes32());
    let expected = "0x38c21c38".to_string()
        + "0000000000000000000000000000000000000000000000000000000000000007"
        + "0000000000000000000000000000000000000000000000000000000000000064"
        + "0000000000000000000000000000000000000000000000000000000000000001"
        + "0000000000000000000000000000000000000000000000000000000000000000";
    assert_eq!(calldata(&upheld), expected);
    let denied = calldata(&rule("0x7", "0x64", false, &zero_bytes32()));
    assert_eq!(denied.len(), expected.len());
    assert_ne!(denied, expected);
    assert_eq!(&denied[138..202], "0".repeat(64));
}

#[test]
fn every_leading_prefix_is_stripped() {
    assert_eq!(strip_hex("0xabc"), "abc");
    assert_eq!(strip_hex("0x0x0xabc"), "abc");
    assert_eq!(strip_hex("abc"), "abc");
    assert_eq!(strip_hex("0Xabc"), "0Xabc");
    assert_eq!(strip_hex("0x0"), "0");
    assert_eq!(strip_hex("0x"), "");
    assert_eq!(strip_hex(""), "");
    assert_eq!(strip_hex("00x1"), "00x1");
    for s in ["0x0xab", "x0x", "0", "0x0x", "\u{e9}0x"] {
        assert_eq!(strip_hex(s), s.trim_start_matches("0x"));
        assert_eq!(strip_hex(&strip_hex(s)), strip_hex(s));
    }
}

#[test]
fn quantities_are_read() {
    assert_eq!(parse_hex_u64("0x10"), Ok(16));
    assert_eq!(parse_hex_u64("10"), Ok(16));
    assert_eq!(parse_hex_u64("0xFf"), Ok(255));
    assert_eq!(parse_hex_u64("0x+a"), Ok(10));
    assert_eq!(parse_hex_u64("0xffffffffffffffff"), Ok(u64::MAX));
    assert_eq!(parse_hex_u64("0x00000000000000000000000001"), Ok(1));
}

#[test]
fn bad_quantities_are_refused() {
    for s in ["", "0x", "0x0x"] {
        assert_eq!(parse_hex_u64(s), Err(HexError::NotU64(NumberError::Empty)));
    }
    for s in ["0x+", "0x-1", "0xg", "0x1 ", " 0x1", "0x1_0"] {
        assert_eq!(parse_hex_u64(s), Err(HexError::NotU64(NumberError::InvalidDigit)));
    }
    for s in ["0x10000000000000000", "0x10000000000000000g"] {
        assert_eq!(parse_hex_u64(s), Err(HexError::NotU64(NumberError::PosOverflow)));
    }
    // The first fault from the front counts.
    assert_eq!(
        parse_hex_u64("0xg10000000000000000"),
        Err(HexError::NotU64(NumberError::InvalidDigit))
    );
    let e = parse_hex_u64("0xg").unwrap_err();
    assert_eq!(e.message(), "parse u64 from hex");
    assert_eq!(e.cause(), NumberError::InvalidDigit);
    assert_eq!(e.cause().message(), "invalid digit found in string");
}

#[test]
fn reading_agrees_with_the_standard_library() {
    let samples = [
        "", "0", "+", "-", "+5", "++5", "-0", "12", "1a", "zz", "Z", "018446744073709551615",
        "18446744073709551616", "99999999999999999999999", "\u{663}", "7 ", "+-1", "-",
        "18446744073709551616x", "18446744073709551615x", "1x8446744073709551616",
        "+18446744073709551616", "99999999999999999999 9", "ffffffffffffffff", "fffffffffffffffff",
        "fffffffffffffffff!", "ffffffffffffffff!", "-99999999999999999999",
    ];
    for s in samples {
        for radix in [2, 10, 16, 36] {
            let ours = parse_unsigned(s, radix).map_err(|e| e.message());
            let theirs = u64::from_str_radix(s, radix as u32).map_err(|e| e.to_string());
            assert_eq!(ours, theirs);
        }
        assert_eq!(parse_unsigned(s, 10).ok(), s.parse::<u64>().ok());
    }
}

#[test]
fn numbers_are_written() {
    assert_eq!(hex_quantity(0), "0x0");
    assert_eq!(hex_quantity(255), "0xff");
    assert_eq!(hex_quantity(u64::MAX), "0xffffffffffffffff");
    assert_eq!(format_unsigned(1000, 10), "1000");
    assert_eq!(format_unsigned(u64::MAX, 10), "18446744073709551615");
    assert_eq!(format_unsigned(5, 2), "101");
}

#[test]
fn quantities_round_trip() {
    for n in [0, 1, 9, 10, 15, 16, 4096, 123456789, u64::MAX - 1, u64::MAX] {
        assert_eq!(parse_hex_u64(&hex_quantity(n)), Ok(n));
        assert_eq!(parse_unsigned(&format_unsigned(n, 10), 10), Ok(n));
        assert_eq!(hex_quantity(n), format!("0x{:x}", n));
    }
}

#[test]
fn padding_keeps_the_value() {
    for s in ["0", "7", "deadbeef", "FF"] {
        let word = pad_left_word(s.to_string());
        assert_eq!(parse_hex_u64(&word), parse_hex_u64(s));
    }
}

#[test]
fn blank_lines_are_what_trim_empties() {
    assert!(is_blank(""));
    assert!(is_blank(" \t\r\n\u{3000}"));
    assert!(!is_blank(" x "));
    for code in 0..=0x10ffffu32 {
        if let Some(c) = char::from_u32(code) {
            let s = c.to_string();
            assert_eq!(is_blank(&s), s.trim().is_empty());
        }
    }
}

#[test]
fn small_texts() {
    assert_eq!(repeat_zero(0), "");
    assert_eq!(repeat_zero(3), "000");
    assert!(same("ab", "ab"));
    assert!(!same("ab", "abc"));
}
