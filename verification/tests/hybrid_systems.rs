use iso_iec_7064::{mod_11_10, mod_27_26, mod_37_36, System};

#[test]
fn hybrid_names_designations_and_check_lengths() {
    assert_eq!("ISO/IEC 7064, MOD 11,10", mod_11_10().name());
    assert_eq!(6, mod_11_10().designation());
    assert_eq!(1, mod_11_10().check_length());

    assert_eq!("ISO/IEC 7064, MOD 27,26", mod_27_26().name());
    assert_eq!(7, mod_27_26().designation());
    assert_eq!(1, mod_27_26().check_length());

    assert_eq!("ISO/IEC 7064, MOD 37,36", mod_37_36().name());
    assert_eq!(8, mod_37_36().designation());
    assert_eq!(1, mod_37_36().check_length());
}

#[test]
fn hybrid_checksums() {
    assert_eq!(Some(3), mod_11_10().checksum_string(&"9".repeat(50)));
    assert_eq!(Some(19), mod_27_26().checksum_string("ISO"));
    assert_eq!(Some(25), mod_27_26().checksum_string("ABCDEFGHIJKLMNOPQRSTUVWXYZ"));
    assert_eq!(Some(9), mod_37_36().checksum_string("ISO79"));
    assert_eq!(Some(2), mod_37_36().checksum_string("0"));
    assert_eq!(Some(22), mod_37_36().checksum_string("A12425GABC1234002"));
}

// A payload followed by the character of its check value is valid.
#[test]
fn hybrid_payload_with_check_character_is_valid() {
    assert!(mod_11_10().validate_string(&format!("{}3", "9".repeat(50))));
    // 19, 'T'
    assert!(mod_27_26().validate_string("ISOT"));
    // 25, 'Z'
    assert!(mod_27_26().validate_string("ABCDEFGHIJKLMNOPQRSTUVWXYZZ"));
    assert!(mod_37_36().validate_string("ISO799"));
    assert!(mod_37_36().validate_string("02"));
    // 22, 'M'
    assert!(mod_37_36().validate_string("A12425GABC1234002M"));
}

#[test]
fn hybrid_wrong_check_character_is_invalid() {
    assert!(!mod_11_10().validate_string("07946"));
    assert!(!mod_11_10().validate_string("07495"));
    assert!(!mod_27_26().validate_string("ISOU"));
    assert!(!mod_27_26().validate_string("IOST"));
    assert!(!mod_37_36().validate_string("ISO790"));
    assert!(!mod_37_36().validate_string("A12425GABC1234020M"));
}

// The same payload gives the same check value each time.
#[test]
fn hybrid_checksum_is_repeatable() {
    let first: Option<u16> = mod_37_36().checksum_string("ISO79");
    let second: Option<u16> = mod_37_36().checksum_string("ISO79");
    assert_eq!(first, second);
    let system = mod_11_10();
    assert_eq!(system.checksum_string("0794"), system.checksum_string("0794"));
    assert_eq!(system.validate_string("07945"), system.validate_string("07945"));
}

#[test]
fn hybrid_byte_outside_the_alphabet() {
    assert_eq!(None, mod_11_10().checksum_string("07X4"));
    assert_eq!(None, mod_11_10().checksum_string("0794\n"));
    assert!(!mod_11_10().validate_string("0794S"));
    assert!(!mod_11_10().validate_string("X"));
    assert_eq!(None, mod_27_26().checksum_string("ISO79"));
    assert_eq!(None, mod_27_26().checksum_string("iso"));
    assert!(!mod_27_26().validate_string("IS0T"));
    assert_eq!(None, mod_37_36().checksum_string("ISO 79"));
    assert_eq!(None, mod_37_36().checksum_string("ISO79*"));
    assert!(!mod_37_36().validate_string("ISO79*"));
    assert!(!mod_37_36().validate_string("\u{e9}"));
}

// The hybrid systems give the empty payload a check value, and take that
// value alone for a valid string; the empty string is not valid.
#[test]
fn hybrid_empty_payload() {
    assert_eq!(Some(1), mod_11_10().checksum_string(""));
    assert_eq!(Some(1), mod_27_26().checksum_string(""));
    assert_eq!(Some(1), mod_37_36().checksum_digit_values_iter(&[]));
    assert!(mod_11_10().validate_string("1"));
    assert!(mod_27_26().validate_string("B"));
    assert!(mod_37_36().validate_string("1"));
    assert!(!mod_11_10().validate_string(""));
    assert!(!mod_27_26().validate_string(""));
    assert!(!mod_37_36().validate_digit_values_iter(&[]));
}

#[test]
fn hybrid_digit_values_and_bytes() {
    assert_eq!(Some(5), mod_11_10().checksum_digit_values_iter(&[0, 7, 9, 4]));
    assert_eq!(None, mod_11_10().checksum_digit_values_iter(&[0, 7, 10, 4]));
    assert_eq!(None, mod_11_10().checksum_digit_values_iter(&[255]));
    assert!(mod_11_10().validate_digit_values_iter(&[0, 7, 9, 4, 5]));
    assert!(!mod_11_10().validate_digit_values_iter(&[0, 7, 9, 4, 10]));
    assert!(!mod_11_10().validate_digit_values_iter(&[10, 7, 9, 4, 5]));
    assert_eq!(Some(19), mod_27_26().checksum_digit_values_iter(&[8, 18, 14]));
    assert!(mod_27_26().validate_digit_values_iter(&[8, 18, 14, 19]));
    assert!(!mod_27_26().validate_digit_values_iter(&[8, 18, 14, 26]));

    assert_eq!(Some(5), mod_11_10().checksum_ascii_bytes_iter(b"0794"));
    assert_eq!(None, mod_11_10().checksum_ascii_bytes_iter(b"07\x0094"));
    assert!(mod_11_10().validate_ascii_bytes_iter(b"07945"));
    assert!(!mod_11_10().validate_ascii_bytes_iter(b"07945 "));
    assert!(mod_37_36().validate_ascii_bytes_iter(b"ISO799"));
}
