use iso_iec_7064::{mod_11_2, mod_1271_36, mod_37_2, mod_661_26, mod_97_10, System};

#[test]
fn pure_names_designations_and_check_lengths() {
    assert_eq!("ISO/IEC 7064, MOD 11-2", mod_11_2().name());
    assert_eq!(1, mod_11_2().designation());
    assert_eq!(1, mod_11_2().check_length());

    assert_eq!("ISO/IEC 7064, MOD 37-2", mod_37_2().name());
    assert_eq!(2, mod_37_2().designation());
    assert_eq!(1, mod_37_2().check_length());

    assert_eq!("ISO/IEC 7064, MOD 97-10", mod_97_10().name());
    assert_eq!(3, mod_97_10().designation());
    assert_eq!(2, mod_97_10().check_length());

    assert_eq!("ISO/IEC 7064, MOD 661-26", mod_661_26().name());
    assert_eq!(4, mod_661_26().designation());
    assert_eq!(2, mod_661_26().check_length());

    assert_eq!("ISO/IEC 7064, MOD 1271-36", mod_1271_36().name());
    assert_eq!(5, mod_1271_36().designation());
    assert_eq!(2, mod_1271_36().check_length());
}

#[test]
fn pure_checksums() {
    assert_eq!(Some(1), mod_11_2().checksum_string("0"));
    assert_eq!(Some(5), mod_37_2().checksum_string("A12425GABC1234002"));
    assert_eq!(Some(34), mod_37_2().checksum_string("ISO79"));
    assert_eq!(Some(24), mod_37_2().checksum_string("ZZZZ"));
    assert_eq!(Some(36), mod_37_2().checksum_string("1"));
    assert_eq!(Some(39), mod_97_10().checksum_string("123456789012345678901234567890"));
    assert_eq!(Some(38), mod_661_26().checksum_string("BAISDLAFK"));
    assert_eq!(Some(225), mod_661_26().checksum_string("ISO"));
    assert_eq!(Some(390), mod_1271_36().checksum_string("XS868977863229"));
}

// A payload followed by the characters of its check value is valid.
#[test]
fn pure_payload_with_check_characters_is_valid() {
    // 0
    assert!(mod_11_2().validate_string("07940"));
    // 10, the supplementary 'X'
    assert!(mod_11_2().validate_string("1X"));
    // 5
    assert!(mod_37_2().validate_string("A12425GABC12340025"));
    // 34, 'Y'
    assert!(mod_37_2().validate_string("ISO79Y"));
    // 36, the supplementary '*'
    assert!(mod_37_2().validate_string("1*"));
    // 44 = 4 * 10 + 4
    assert!(mod_97_10().validate_string("79444"));
    // 39 = 3 * 10 + 9
    assert!(mod_97_10().validate_string("12345678901234567890123456789039"));
    // 38 = 1 * 26 + 12, "BM"
    assert!(mod_661_26().validate_string("BAISDLAFKBM"));
    // 225 = 8 * 26 + 17, "IR"
    assert!(mod_661_26().validate_string("ISOIR"));
    // 140 = 3 * 36 + 32, "3W"
    assert!(mod_1271_36().validate_string("ISO793W"));
    // 390 = 10 * 36 + 30, "AU"
    assert!(mod_1271_36().validate_string("XS868977863229AU"));
}

#[test]
fn pure_wrong_check_characters_are_invalid() {
    assert!(!mod_11_2().validate_string("07941"));
    assert!(!mod_37_2().validate_string("ISO79Z"));
    assert!(!mod_97_10().validate_string("79445"));
    assert!(!mod_97_10().validate_string("79434"));
    assert!(!mod_661_26().validate_string("BAISDLAFKMB"));
    assert!(!mod_1271_36().validate_string("ISO79W3"));
    // a transposition in the payload
    assert!(!mod_1271_36().validate_string("IOS793W"));
    assert!(!mod_97_10().validate_string("97444"));
}

// The same payload gives the same check value each time.
#[test]
fn pure_checksum_is_repeatable() {
    let first: Option<u16> = mod_1271_36().checksum_string("ISO79");
    let second: Option<u16> = mod_1271_36().checksum_string("ISO79");
    assert_eq!(first, second);
    let system = mod_97_10();
    assert_eq!(system.checksum_string("794"), system.checksum_string("794"));
    assert_eq!(system.validate_string("79444"), system.validate_string("79444"));
}

#[test]
fn pure_byte_outside_the_alphabet() {
    assert_eq!(None, mod_11_2().checksum_string("07A4"));
    assert_eq!(None, mod_11_2().checksum_string("0794 "));
    assert_eq!(None, mod_11_2().checksum_string("x"));
    assert!(!mod_11_2().validate_string("0794o"));
    assert!(!mod_11_2().validate_string("079x"));
    assert_eq!(None, mod_37_2().checksum_string("iso79"));
    assert!(!mod_37_2().validate_string("ISO-79Y"));
    assert_eq!(None, mod_97_10().checksum_string("79X"));
    assert!(!mod_97_10().validate_string("794A4"));
    assert_eq!(None, mod_661_26().checksum_string("ISO79"));
    assert!(!mod_661_26().validate_string("IS0IR"));
    assert_eq!(None, mod_1271_36().checksum_string("ISO*79"));
    assert!(!mod_1271_36().validate_string("ISO79\u{e9}3W"));
    assert_eq!(None, mod_1271_36().checksum_string("\u{1f600}"));
}

// A supplementary symbol is legal in the check position only.
#[test]
fn pure_supplementary_symbol_in_payload() {
    assert!(!mod_11_2().validate_string("X7940"));
    assert!(!mod_11_2().validate_string("07X40"));
    assert!(!mod_11_2().validate_string("079X0"));
    assert!(!mod_11_2().validate_string("XX"));
    assert!(!mod_37_2().validate_string("*1"));
    assert!(!mod_37_2().validate_string("IS*79Y"));
    assert!(!mod_37_2().validate_string("1**"));
    assert_eq!(None, mod_11_2().checksum_string("07X"));
    assert_eq!(None, mod_11_2().checksum_string("X"));
    assert_eq!(None, mod_11_2().checksum_string("079X"));
    assert_eq!(None, mod_37_2().checksum_string("ISO79*"));
    assert_eq!(None, mod_37_2().checksum_string("*"));
}

// With "X" in the place of "0" the string below would leave 1 modulo 11 all
// the same, were the digit value 10 allowed in a payload: 10 * 2 + 3 = 23.
#[test]
fn pure_supplementary_symbol_beats_the_numeral() {
    assert!(!mod_11_2().validate_string("X3"));
    assert!(mod_11_2().validate_digit_values_iter(&[0, 6, 0]));
    assert!(!mod_11_2().validate_digit_values_iter(&[10, 3]));
}

#[test]
fn pure_input_without_payload() {
    assert_eq!(None, mod_11_2().checksum_string(""));
    assert_eq!(None, mod_97_10().checksum_string(""));
    assert_eq!(None, mod_1271_36().checksum_digit_values_iter(&[]));
    assert!(!mod_11_2().validate_string(""));
    assert!(!mod_97_10().validate_string(""));
    // The numeral is 1, but the check characters are all there is.
    assert!(!mod_11_2().validate_string("1"));
    assert!(!mod_37_2().validate_string("1"));
    assert!(!mod_97_10().validate_string("1"));
    assert!(!mod_97_10().validate_string("01"));
    assert!(!mod_661_26().validate_string("AB"));
    assert!(!mod_1271_36().validate_string("01"));
    // One more character in front makes a payload of it.
    assert!(mod_11_2().validate_string("01"));
    assert!(mod_97_10().validate_string("001"));
    assert!(mod_661_26().validate_string("AAB"));
    assert!(mod_1271_36().validate_string("001"));
}

// Inputs long enough for the running sum to be reduced on the way.
#[test]
fn pure_long_inputs() {
    let nines: String = "9".repeat(100);
    assert_eq!(Some(74), mod_97_10().checksum_string(&nines));
    assert!(mod_97_10().validate_string(&format!("{}74", nines)));
    assert!(!mod_97_10().validate_string(&format!("{}47", nines)));

    let many_nines: String = "9".repeat(300);
    assert_eq!(Some(1), mod_11_2().checksum_string(&many_nines));
    assert!(mod_11_2().validate_string(&format!("{}1", many_nines)));

    let zeds: String = "Z".repeat(200);
    assert_eq!(Some(83), mod_1271_36().checksum_string(&zeds));
    // 83 = 2 * 36 + 11, "2B"
    assert!(mod_1271_36().validate_string(&format!("{}2B", zeds)));

    let more_zeds: String = "Z".repeat(64);
    assert_eq!(Some(8), mod_37_2().checksum_string(&more_zeds));
    assert!(mod_37_2().validate_string(&format!("{}8", more_zeds)));
}

#[test]
fn pure_digit_values_and_bytes() {
    assert_eq!(Some(0), mod_11_2().checksum_digit_values_iter(&[0, 7, 9, 4]));
    assert_eq!(Some(10), mod_11_2().checksum_digit_values_iter(&[0, 7, 9]));
    assert_eq!(None, mod_11_2().checksum_digit_values_iter(&[0, 7, 11]));
    assert_eq!(None, mod_11_2().checksum_digit_values_iter(&[0, 255, 9]));
    assert_eq!(None, mod_11_2().checksum_digit_values_iter(&[0, 10, 9]));
    assert!(mod_11_2().validate_digit_values_iter(&[0, 7, 9, 10]));
    assert!(!mod_11_2().validate_digit_values_iter(&[0, 7, 9, 11]));
    assert!(!mod_11_2().validate_digit_values_iter(&[0, 7, 10, 10]));
    assert_eq!(Some(140), mod_1271_36().checksum_digit_values_iter(&[18, 28, 24, 7, 9]));
    assert!(mod_1271_36().validate_digit_values_iter(&[18, 28, 24, 7, 9, 3, 32]));
    assert!(!mod_1271_36().validate_digit_values_iter(&[18, 28, 24, 7, 9, 3, 36]));

    assert_eq!(Some(44), mod_97_10().checksum_ascii_bytes_iter(b"794"));
    assert_eq!(None, mod_97_10().checksum_ascii_bytes_iter(b"7 4"));
    assert!(mod_97_10().validate_ascii_bytes_iter(b"79444"));
    assert!(!mod_97_10().validate_ascii_bytes_iter(b"7944\xff"));
    assert!(mod_11_2().validate_ascii_bytes_iter(b"079X"));
}
