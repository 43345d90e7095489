//! The interface shared by all check character systems, pure and hybrid, and
//! the step from ASCII bytes to digit values.

use vstd::prelude::*;
use vstd::string::StringSliceAdditionalSpecFns;
use crate::alphabet::{Alphabet, ASTERISK, DIGIT_0, DIGIT_9, LETTER_A, LETTER_X, LETTER_Z};

verus! {

/// The digit value that stands for a byte outside the alphabet. It is greater
/// than every digit value of the five alphabets.
pub const ILLEGAL_DIGIT_VALUE: u8 = 0xff;

/// The digit value of the symbol `c` in the alphabet whose greatest digit value
/// is `max_digit_value`, or -1 where `c` is no symbol of it or there is no such
/// alphabet.
pub open spec fn spec_char_value(max_digit_value: u8, c: u8) -> i8 {
    match Alphabet::with_max_digit_value(max_digit_value) {
        Some(alphabet) => alphabet.spec_char_value(c),
        None => -1i8,
    }
}

/// The digit value handed to a system for the byte `c`: that of the symbol, or
/// [`ILLEGAL_DIGIT_VALUE`] where `c` is no symbol of the alphabet.
pub open spec fn spec_digit_value(max_digit_value: u8, c: u8) -> u8 {
    let value = spec_char_value(max_digit_value, c);
    if value < 0 {
        ILLEGAL_DIGIT_VALUE
    } else {
        value as u8
    }
}

/// The digit values handed to a system for the bytes `bytes`, one for one.
pub open spec fn spec_digit_values(max_digit_value: u8, bytes: Seq<u8>) -> Seq<u8> {
    Seq::new(bytes.len(), |i: int| spec_digit_value(max_digit_value, bytes[i]))
}

/// Whether every digit value of `digits` is one of the alphabet whose greatest
/// digit value is `max_digit_value`.
pub open spec fn within_alphabet(max_digit_value: u8, digits: Seq<u8>) -> bool {
    forall|i: int| 0 <= i < digits.len() ==> digits[i] <= max_digit_value
}

/// The symbols that write the digit values `digits`, one for one, in the
/// alphabet whose greatest digit value is `max_digit_value`.
pub open spec fn spec_symbols(max_digit_value: u8, digits: Seq<u8>) -> Seq<u8> {
    Seq::new(
        digits.len(),
        |i: int| Alphabet::with_max_digit_value(max_digit_value)->0.symbol(digits[i]),
    )
}

/// The five alphabets are distinguished by their maximum digit value, which
/// this function takes as a generic parameter.
///
/// Converts an input ASCII character into its corresponding digit value,
/// returning -1 if the character is not in the alphabet.
pub fn char_value<const MAX_DIGIT_VALUE: u8>(c: u8) -> (value: i8)
    ensures
        value == spec_char_value(MAX_DIGIT_VALUE, c),
        -1 <= value <= MAX_DIGIT_VALUE,
{
    match MAX_DIGIT_VALUE {
        // numeric
        9 => match c {
            DIGIT_0..=DIGIT_9 => (c - DIGIT_0) as i8,
            _ => -1i8,
        },
        // numeric with 'X'
        10 => match c {
            DIGIT_0..=DIGIT_9 => (c - DIGIT_0) as i8,
            LETTER_X => 10i8,
            _ => -1i8,
        },
        // alphabetic
        25 => match c {
            LETTER_A..=LETTER_Z => (c - LETTER_A) as i8,
            _ => -1i8,
        },
        // alphanumeric
        35 => match c {
            DIGIT_0..=DIGIT_9 => (c - DIGIT_0) as i8,
            LETTER_A..=LETTER_Z => (c - LETTER_A + 10) as i8,
            _ => -1i8,
        },
        // alphanumeric with '*'
        36 => match c {
            DIGIT_0..=DIGIT_9 => (c - DIGIT_0) as i8,
            LETTER_A..=LETTER_Z => (c - LETTER_A + 10) as i8,
            ASTERISK => 36i8,
            _ => -1i8,
        },
        _ => -1i8,
    }
}

/// Converts ASCII bytes into digit values, one for one. A byte outside the
/// alphabet becomes [`ILLEGAL_DIGIT_VALUE`], which no system over one of the
/// five alphabets accepts.
pub fn digit_values<const MAX_DIGIT_VALUE: u8>(bytes: &[u8]) -> (values: Vec<u8>)
    ensures
        values@ == spec_digit_values(MAX_DIGIT_VALUE, bytes@),
{
    let mut values: Vec<u8> = Vec::with_capacity(bytes.len());
    let mut i: usize = 0;
    while i < bytes.len()
        invariant
            i <= bytes.len(),
            values@ == spec_digit_values(MAX_DIGIT_VALUE, bytes@.take(i as int)),
        decreases bytes.len() - i,
    {
        let value = match char_value::<MAX_DIGIT_VALUE>(bytes[i]) {
            a if a < 0 => ILLEGAL_DIGIT_VALUE,
            a => a as u8,
        };
        values.push(value);
        i += 1;
    }
    assert(bytes@.take(i as int) == bytes@);
    values
}

/// A check character system over the alphabet whose greatest digit value is
/// `MAX_DIGIT_VALUE`.
pub trait System<const MAX_DIGIT_VALUE: u8> {
    /// The name that the standard gives the system.
    spec fn spec_name(&self) -> Seq<char>;

    /// The number that the standard gives the system.
    spec fn spec_designation(&self) -> u8;

    /// How many check characters the system appends to a payload.
    spec fn spec_check_length(&self) -> u8;

    /// Whether the digit values `digits`, the check digits among them, satisfy
    /// the check.
    spec fn accepts(&self, digits: Seq<u8>) -> bool;

    /// The check value of the payload `digits`, or `None` where it has none.
    spec fn check_value(&self, digits: Seq<u8>) -> Option<u16>;

    /// A digit value above the alphabet's greatest, anywhere in the input, has
    /// the input rejected and leaves it without a check value.
    proof fn lemma_illegal_digit_value(&self, digits: Seq<u8>, i: int)
        requires
            0 <= i < digits.len(),
            digits[i] > MAX_DIGIT_VALUE,
        ensures
            !self.accepts(digits),
            self.check_value(digits) is None,
    ;

    /// The standard's name for the system, from its table of designations.
    fn name(&self) -> (name: &'static str)
        ensures
            name@ == self.spec_name(),
    ;

    /// The standard's number for the system, from 1 to 8. Zero is reserved
    /// for "no check character or non-standard system".
    fn designation(&self) -> (designation: u8)
        ensures
            designation == self.spec_designation(),
    ;

    /// The number of check characters the system produces.
    fn check_length(&self) -> (length: u8)
        ensures
            length == self.spec_check_length(),
    ;

    /// Validates the input digit values, which must already have the check
    /// digit(s) appended. A digit value outside the alphabet makes the result
    /// `false`.
    fn validate_digit_values_iter(&self, it: &[u8]) -> (valid: bool)
        ensures
            valid == self.accepts(it@),
    ;

    /// Validates the input ASCII bytes, which must already have the check
    /// character(s) appended. A byte outside the alphabet makes the result
    /// `false`.
    fn validate_ascii_bytes_iter(&self, it: &[u8]) -> (valid: bool)
        ensures
            valid == self.accepts(spec_digit_values(MAX_DIGIT_VALUE, it@)),
    {
        let values = digit_values::<MAX_DIGIT_VALUE>(it);
        self.validate_digit_values_iter(values.as_slice())
    }

    /// Checks that the input string, which must already have the check
    /// character(s) appended, satisfies the check. A character outside the
    /// alphabet makes the result `false`.
    fn validate_string(&self, string: &str) -> (valid: bool)
        ensures
            valid == self.accepts(spec_digit_values(MAX_DIGIT_VALUE, string.spec_bytes())),
    {
        self.validate_ascii_bytes_iter(string.as_bytes())
    }

    /// Computes the check value for the payload digit values. A digit value
    /// outside the alphabet makes the result `None`.
    fn checksum_digit_values_iter(&self, it: &[u8]) -> (checksum: Option<u16>)
        ensures
            checksum == self.check_value(it@),
    ;

    /// Computes the check value for the payload ASCII bytes. A byte outside
    /// the alphabet makes the result `None`.
    fn checksum_ascii_bytes_iter(&self, it: &[u8]) -> (checksum: Option<u16>)
        ensures
            checksum == self.check_value(spec_digit_values(MAX_DIGIT_VALUE, it@)),
    {
        let values = digit_values::<MAX_DIGIT_VALUE>(it);
        self.checksum_digit_values_iter(values.as_slice())
    }

    /// Computes the check value for a payload string. A character outside
    /// the alphabet makes the result `None`.
    fn checksum_string(&self, string: &str) -> (checksum: Option<u16>)
        ensures
            checksum == self.check_value(spec_digit_values(MAX_DIGIT_VALUE, string.spec_bytes())),
    {
        self.checksum_ascii_bytes_iter(string.as_bytes())
    }
}

} // verus!
