//! The five alphabets that the check character systems draw their symbols from.
//!
//! Every symbol is one ASCII byte, so strings are handled as byte sequences.

use vstd::prelude::*;

verus! {

/// An alphabet assigns the digit values `0, 1, 2, ...` to its symbols, in order
/// and without gaps. Two of the alphabets end with a supplementary symbol that
/// may only stand in a check character position.
pub enum Alphabet {
    /// The digits '0' to '9'.
    Numeric,
    /// The digits '0' to '9', and the supplementary symbol 'X' with value 10.
    NumericWithX,
    /// The letters 'A' to 'Z'.
    Alphabetic,
    /// The digits '0' to '9' followed by the letters 'A' to 'Z'.
    Alphanumeric,
    /// The digits '0' to '9' followed by the letters 'A' to 'Z', and the
    /// supplementary symbol '*' with value 36.
    AlphanumericWithAsterisk,
}

/// ASCII '0'.
pub const DIGIT_0: u8 = 0x30;

/// ASCII '9'.
pub const DIGIT_9: u8 = 0x39;

/// ASCII 'A'.
pub const LETTER_A: u8 = 0x41;

/// ASCII 'Z'.
pub const LETTER_Z: u8 = 0x5a;

/// ASCII 'X', the supplementary symbol of the numeric alphabet.
pub const LETTER_X: u8 = 0x58;

/// ASCII '*', the supplementary symbol of the alphanumeric alphabet.
pub const ASTERISK: u8 = 0x2a;

/// The value of an ASCII decimal digit, if `c` is one.
pub open spec fn decimal_value(c: u8) -> Option<u8> {
    if DIGIT_0 <= c <= DIGIT_9 {
        Some((c - DIGIT_0) as u8)
    } else {
        None
    }
}

/// The position in the Latin alphabet of an ASCII capital letter, if `c` is one.
pub open spec fn letter_index(c: u8) -> Option<u8> {
    if LETTER_A <= c <= LETTER_Z {
        Some((c - LETTER_A) as u8)
    } else {
        None
    }
}

impl Alphabet {
    /// The symbol that is legal only as a check character, if the alphabet has one.
    pub open spec fn supplementary_symbol(self) -> Option<u8> {
        match self {
            Alphabet::NumericWithX => Some(LETTER_X),
            Alphabet::AlphanumericWithAsterisk => Some(ASTERISK),
            _ => None,
        }
    }

    /// The digit value of each symbol that may stand in a payload.
    pub open spec fn payload_value(self, c: u8) -> Option<u8> {
        match self {
            Alphabet::Numeric | Alphabet::NumericWithX => decimal_value(c),
            Alphabet::Alphabetic => letter_index(c),
            Alphabet::Alphanumeric | Alphabet::AlphanumericWithAsterisk => {
                if decimal_value(c) is Some {
                    decimal_value(c)
                } else if letter_index(c) is Some {
                    Some((letter_index(c)->0 + 10) as u8)
                } else {
                    None
                }
            },
        }
    }

    /// How many symbols may stand in a payload.
    pub open spec fn payload_symbols(self) -> nat {
        match self {
            Alphabet::Numeric | Alphabet::NumericWithX => 10,
            Alphabet::Alphabetic => 26,
            Alphabet::Alphanumeric | Alphabet::AlphanumericWithAsterisk => 36,
        }
    }

    /// The digit value of the supplementary symbol: the one after the last
    /// payload value.
    pub open spec fn spec_supplementary_char_value(self) -> Option<u8> {
        if self.supplementary_symbol() is Some {
            Some(self.payload_symbols() as u8)
        } else {
            None
        }
    }

    /// The greatest digit value of the alphabet, the supplementary one included.
    pub open spec fn spec_max_digit_value(self) -> u8 {
        match self.spec_supplementary_char_value() {
            Some(v) => v,
            None => (self.payload_symbols() - 1) as u8,
        }
    }

    /// The digit value of the symbol `c`, or -1 where `c` is no symbol of the
    /// alphabet.
    pub open spec fn spec_char_value(self, c: u8) -> i8 {
        if self.payload_value(c) is Some {
            self.payload_value(c)->0 as i8
        } else if self.supplementary_symbol() == Some(c) {
            self.payload_symbols() as i8
        } else {
            -1i8
        }
    }

    /// The symbol whose digit value is `value`, for a `value` up to the
    /// alphabet's greatest.
    pub open spec fn symbol(self, value: u8) -> u8 {
        if self.spec_supplementary_char_value() == Some(value) {
            self.supplementary_symbol()->0
        } else {
            match self {
                Alphabet::Numeric | Alphabet::NumericWithX => (DIGIT_0 + value) as u8,
                Alphabet::Alphabetic => (LETTER_A + value) as u8,
                Alphabet::Alphanumeric | Alphabet::AlphanumericWithAsterisk => {
                    if value < 10 {
                        (DIGIT_0 + value) as u8
                    } else {
                        (LETTER_A + value - 10) as u8
                    }
                },
            }
        }
    }

    /// The alphabet whose greatest digit value is `max`, if there is one: no
    /// two alphabets share their greatest digit value.
    pub open spec fn with_max_digit_value(max: u8) -> Option<Alphabet> {
        if max == 9 {
            Some(Alphabet::Numeric)
        } else if max == 10 {
            Some(Alphabet::NumericWithX)
        } else if max == 25 {
            Some(Alphabet::Alphabetic)
        } else if max == 35 {
            Some(Alphabet::Alphanumeric)
        } else if max == 36 {
            Some(Alphabet::AlphanumericWithAsterisk)
        } else {
            None
        }
    }

    /// The maximum digit value assigned to any character of the alphabet.
    pub fn max_digit_value(&self) -> (max: u8)
        ensures
            max == self.spec_max_digit_value(),
    {
        match self {
            Alphabet::Numeric => 9,
            Alphabet::NumericWithX => 10,
            Alphabet::Alphabetic => 25,
            Alphabet::Alphanumeric => 35,
            Alphabet::AlphanumericWithAsterisk => 36,
        }
    }

    /// Returns the digit value of the character, or -1 if it is not a valid
    /// character for the alphabet.
    pub fn char_value(&self, c: u8) -> (value: i8)
        ensures
            value == self.spec_char_value(c),
            -1 <= value <= self.spec_max_digit_value(),
    {
        match self {
            Alphabet::Numeric => match c {
                DIGIT_0..=DIGIT_9 => (c - DIGIT_0) as i8,
                _ => -1i8,
            },
            Alphabet::NumericWithX => match c {
                DIGIT_0..=DIGIT_9 => (c - DIGIT_0) as i8,
                LETTER_X => 10i8,
                _ => -1i8,
            },
            Alphabet::Alphabetic => match c {
                LETTER_A..=LETTER_Z => (c - LETTER_A) as i8,
                _ => -1i8,
            },
            Alphabet::Alphanumeric => match c {
                DIGIT_0..=DIGIT_9 => (c - DIGIT_0) as i8,
                LETTER_A..=LETTER_Z => (c - LETTER_A + 10) as i8,
                _ => -1i8,
            },
            Alphabet::AlphanumericWithAsterisk => match c {
                DIGIT_0..=DIGIT_9 => (c - DIGIT_0) as i8,
                LETTER_A..=LETTER_Z => (c - LETTER_A + 10) as i8,
                ASTERISK => 36i8,
                _ => -1i8,
            },
        }
    }

    /// Returns the digit value of the supplementary check character of the
    /// alphabet, or `None` if there isn't one.
    pub fn supplementary_char_value(&self) -> (value: Option<u8>)
        ensures
            value == self.spec_supplementary_char_value(),
    {
        match self {
            Alphabet::Numeric => None,
            Alphabet::NumericWithX => Some(10),
            Alphabet::Alphabetic => None,
            Alphabet::Alphanumeric => None,
            Alphabet::AlphanumericWithAsterisk => Some(36),
        }
    }
}

/// The digit values of an alphabet run from 0 to its greatest without a gap:
/// each of them belongs to one symbol, and `char_value` gives it back.
pub proof fn lemma_symbol_has_value(alphabet: Alphabet, value: u8)
    requires
        value <= alphabet.spec_max_digit_value(),
    ensures
        alphabet.spec_char_value(alphabet.symbol(value)) == value,
{
}

/// No two symbols of an alphabet share a digit value: a byte with a digit
/// value is the symbol of that value.
pub proof fn lemma_value_has_symbol(alphabet: Alphabet, c: u8)
    requires
        alphabet.spec_char_value(c) >= 0,
    ensures
        alphabet.spec_char_value(c) <= alphabet.spec_max_digit_value(),
        alphabet.symbol(alphabet.spec_char_value(c) as u8) == c,
{
}

/// The supplementary value, where there is one, is the alphabet's greatest
/// digit value, one above the greatest value that may stand in a payload.
pub proof fn lemma_supplementary_is_greatest(alphabet: Alphabet)
    ensures
        alphabet.spec_supplementary_char_value() matches Some(value) ==> {
            &&& value == alphabet.spec_max_digit_value()
            &&& value == alphabet.payload_symbols()
            &&& alphabet.spec_char_value(alphabet.supplementary_symbol()->0) == value
            &&& alphabet.payload_value(alphabet.supplementary_symbol()->0) is None
        },
        alphabet.spec_supplementary_char_value() is None ==> alphabet.spec_max_digit_value()
            == alphabet.payload_symbols() - 1,
{
}

/// An alphabet is known by its greatest digit value.
pub proof fn lemma_known_by_max_digit_value(alphabet: Alphabet)
    ensures
        Alphabet::with_max_digit_value(alphabet.spec_max_digit_value()) == Some(alphabet),
{
}

} // verus!
