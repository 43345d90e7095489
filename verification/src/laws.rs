//! What holds of the systems as a whole: a payload followed by its check
//! characters is valid, a byte outside the alphabet or a supplementary symbol
//! in the payload makes a string invalid, and equal strings have equal check
//! values.

use vstd::prelude::*;
use vstd::arithmetic::div_mod::{
    lemma_add_mod_noop, lemma_fundamental_div_mod, lemma_mod_bound,
    lemma_mod_sub_multiples_vanish, lemma_small_mod,
};
use vstd::string::StringSliceAdditionalSpecFns;
use crate::alphabet::{lemma_symbol_has_value, Alphabet};
use crate::hybrid::{final_sum, running_product, HybridSystem};
use crate::pure::{
    capacity, check_digits, complement, numeral, placeholders, supplementary_value, PureSystem,
};
use crate::system::{spec_char_value, spec_digit_values, spec_symbols, within_alphabet, System};

verus! {

/// Digit values that are written as symbols and read back are unchanged.
pub proof fn lemma_symbols_read_back(max_digit_value: u8, digits: Seq<u8>)
    requires
        Alphabet::with_max_digit_value(max_digit_value) is Some,
        within_alphabet(max_digit_value, digits),
    ensures
        spec_digit_values(max_digit_value, spec_symbols(max_digit_value, digits)) == digits,
{
    let alphabet = Alphabet::with_max_digit_value(max_digit_value)->0;
    let symbols = spec_symbols(max_digit_value, digits);
    assert forall|i: int| 0 <= i < digits.len() implies spec_digit_values(
        max_digit_value,
        symbols,
    )[i] == digits[i] by {
        lemma_symbol_has_value(alphabet, digits[i]);
    }
}

/// The digit values of two byte strings, one after the other, are those of
/// the first followed by those of the second.
pub proof fn lemma_digit_values_of_concatenation(
    max_digit_value: u8,
    first: Seq<u8>,
    second: Seq<u8>,
)
    ensures
        spec_digit_values(max_digit_value, first + second) == spec_digit_values(
            max_digit_value,
            first,
        ) + spec_digit_values(max_digit_value, second),
{
}

/// A byte outside the alphabet, anywhere in a string, has every system over
/// that alphabet reject the string and leave it without a check value.
pub proof fn lemma_byte_outside_alphabet<const MAX_DIGIT_VALUE: u8, S: System<MAX_DIGIT_VALUE>>(
    system: &S,
    bytes: Seq<u8>,
    i: int,
)
    requires
        MAX_DIGIT_VALUE < u8::MAX,
        0 <= i < bytes.len(),
        spec_char_value(MAX_DIGIT_VALUE, bytes[i]) < 0,
    ensures
        !system.accepts(spec_digit_values(MAX_DIGIT_VALUE, bytes)),
        system.check_value(spec_digit_values(MAX_DIGIT_VALUE, bytes)) is None,
{
    system.lemma_illegal_digit_value(spec_digit_values(MAX_DIGIT_VALUE, bytes), i);
}

/// Strings that hold the same characters have the same check value, and are
/// both valid or both invalid.
pub proof fn lemma_same_string_same_result<const MAX_DIGIT_VALUE: u8, S: System<MAX_DIGIT_VALUE>>(
    system: &S,
    first: &str,
    second: &str,
)
    requires
        first@ == second@,
    ensures
        system.check_value(spec_digit_values(MAX_DIGIT_VALUE, first.spec_bytes()))
            == system.check_value(spec_digit_values(MAX_DIGIT_VALUE, second.spec_bytes())),
        system.accepts(spec_digit_values(MAX_DIGIT_VALUE, first.spec_bytes())) == system.accepts(
            spec_digit_values(MAX_DIGIT_VALUE, second.spec_bytes()),
        ),
{
}

/// Check digits are digit values of the alphabet, and they add the check
/// value to the numeral that has zeros in the check positions.
pub proof fn lemma_check_digits(
    payload: Seq<u8>,
    value: int,
    length: int,
    max_digit_value: u8,
    radix: int,
)
    requires
        1 <= length,
        1 <= radix,
        length >= 2 ==> radix <= max_digit_value + 1,
        0 <= value < capacity(length, max_digit_value, radix),
    ensures
        check_digits(value, length, radix).len() == length,
        within_alphabet(max_digit_value, check_digits(value, length, radix)),
        numeral(payload + check_digits(value, length, radix), radix) == numeral(
            payload + placeholders(length),
            radix,
        ) + value,
    decreases length,
{
    let digits = check_digits(value, length, radix);
    if length <= 1 {
        assert((payload + digits).drop_last() == payload);
        assert((payload + placeholders(length)).drop_last() == payload);
    } else {
        let leading = check_digits(value / radix, length - 1, radix);
        lemma_fundamental_div_mod(value, radix);
        lemma_mod_bound(value, radix);
        assert(0 <= value / radix < capacity(length - 1, max_digit_value, radix))
            by (nonlinear_arith)
            requires
                0 <= value < capacity(length - 1, max_digit_value, radix) * radix,
                1 <= radix,
        ;
        lemma_check_digits(payload, value / radix, length - 1, max_digit_value, radix);
        assert((payload + digits).drop_last() == payload + leading);
        assert((payload + placeholders(length)).drop_last() == payload + placeholders(
            length - 1,
        ));
        let zeros = numeral(payload + placeholders(length - 1), radix);
        assert((zeros + value / radix) * radix + value % radix == zeros * radix + value)
            by (nonlinear_arith)
            requires
                value == radix * (value / radix) + value % radix,
        ;
    }
}

/// What is missing from `rest` to `modulus` plus one, taken modulo `modulus`,
/// brings `rest` to 1 modulo `modulus`.
pub proof fn lemma_missing_to_one(rest: int, modulus: int)
    requires
        2 <= modulus,
        0 <= rest <= modulus,
    ensures
        0 <= (modulus + 1 - rest) % modulus < modulus,
        (rest + (modulus + 1 - rest) % modulus) % modulus == 1,
{
    let missing = modulus + 1 - rest;
    lemma_small_mod(1, modulus as nat);
    if rest <= 1 {
        lemma_mod_sub_multiples_vanish(missing, modulus);
        lemma_small_mod((1 - rest) as nat, modulus as nat);
        assert(missing % modulus == 1 - rest);
    } else {
        lemma_small_mod(missing as nat, modulus as nat);
        lemma_mod_sub_multiples_vanish(modulus + 1, modulus);
        assert((rest + missing % modulus) % modulus == 1);
    }
}

/// The complement of a numeral brings it to 1 modulo `modulus`.
pub proof fn lemma_complement(numeral: int, modulus: int)
    requires
        2 <= modulus,
    ensures
        0 <= complement(numeral, modulus) < modulus,
        (numeral + complement(numeral, modulus)) % modulus == 1,
{
    let rest = numeral % modulus;
    lemma_mod_bound(numeral, modulus);
    lemma_missing_to_one(rest, modulus);
    lemma_add_mod_noop(numeral, complement(numeral, modulus), modulus);
    lemma_small_mod(complement(numeral, modulus) as nat, modulus as nat);
}

impl<
    const CHECK_LENGTH: usize,
    const MAX_DIGIT_VALUE: u8,
    const MODULUS: usize,
    const RADIX: usize,
> PureSystem<CHECK_LENGTH, MAX_DIGIT_VALUE, MODULUS, RADIX> {
    /// A payload followed by the check digits of its check value is valid.
    pub proof fn lemma_round_trip(&self, payload: Seq<u8>)
        requires
            crate::pure::valid_parameters(
                CHECK_LENGTH as int,
                MAX_DIGIT_VALUE,
                MODULUS as int,
                RADIX as int,
            ),
            self.check_value(payload) is Some,
        ensures
            self.accepts(
                payload + check_digits(
                    self.check_value(payload)->0 as int,
                    CHECK_LENGTH as int,
                    RADIX as int,
                ),
            ),
    {
        let zeros = numeral(payload + placeholders(CHECK_LENGTH as int), RADIX as int);
        let value = complement(zeros, MODULUS as int);
        lemma_complement(zeros, MODULUS as int);
        lemma_check_digits(payload, value, CHECK_LENGTH as int, MAX_DIGIT_VALUE, RADIX as int);
        let digits = check_digits(value, CHECK_LENGTH as int, RADIX as int);
        assert forall|i: int| 0 <= i < payload.len() implies (payload + digits)[i]
            == payload[i] by {}
    }

    /// A payload string followed by the symbols of its check digits is a
    /// valid string.
    pub proof fn lemma_round_trip_bytes(&self, payload: Seq<u8>)
        requires
            crate::pure::valid_parameters(
                CHECK_LENGTH as int,
                MAX_DIGIT_VALUE,
                MODULUS as int,
                RADIX as int,
            ),
            self.check_value(spec_digit_values(MAX_DIGIT_VALUE, payload)) is Some,
        ensures
            self.accepts(
                spec_digit_values(
                    MAX_DIGIT_VALUE,
                    payload + spec_symbols(
                        MAX_DIGIT_VALUE,
                        check_digits(
                            self.check_value(spec_digit_values(MAX_DIGIT_VALUE, payload))->0 as int,
                            CHECK_LENGTH as int,
                            RADIX as int,
                        ),
                    ),
                ),
            ),
    {
        let values = spec_digit_values(MAX_DIGIT_VALUE, payload);
        let zeros = numeral(values + placeholders(CHECK_LENGTH as int), RADIX as int);
        let value = complement(zeros, MODULUS as int);
        lemma_complement(zeros, MODULUS as int);
        lemma_check_digits(values, value, CHECK_LENGTH as int, MAX_DIGIT_VALUE, RADIX as int);
        let digits = check_digits(value, CHECK_LENGTH as int, RADIX as int);
        self.lemma_round_trip(values);
        lemma_symbols_read_back(MAX_DIGIT_VALUE, digits);
        lemma_digit_values_of_concatenation(
            MAX_DIGIT_VALUE,
            payload,
            spec_symbols(MAX_DIGIT_VALUE, digits),
        );
    }

    /// The supplementary symbol before the check positions makes a string
    /// invalid, whatever its numeral.
    pub proof fn lemma_supplementary_in_payload(&self, bytes: Seq<u8>, i: int)
        requires
            crate::pure::valid_parameters(
                CHECK_LENGTH as int,
                MAX_DIGIT_VALUE,
                MODULUS as int,
                RADIX as int,
            ),
            0 <= i < bytes.len() - CHECK_LENGTH,
            Alphabet::with_max_digit_value(MAX_DIGIT_VALUE)->0.supplementary_symbol() == Some(
                bytes[i],
            ),
        ensures
            !self.accepts(spec_digit_values(MAX_DIGIT_VALUE, bytes)),
            self.check_value(spec_digit_values(MAX_DIGIT_VALUE, bytes)) is None,
    {
        let values = spec_digit_values(MAX_DIGIT_VALUE, bytes);
        assert(supplementary_value(MAX_DIGIT_VALUE) == Some(values[i]));
    }
}

impl<const MAX_DIGIT_VALUE: u8> HybridSystem<MAX_DIGIT_VALUE> {
    /// A payload followed by its check value, which is a digit value of the
    /// alphabet, is valid. This holds of the empty payload too.
    pub proof fn lemma_round_trip(&self, payload: Seq<u8>)
        requires
            crate::hybrid::valid_parameters(MAX_DIGIT_VALUE, self.spec_modulus()),
            self.check_value(payload) is Some,
        ensures
            self.check_value(payload)->0 <= MAX_DIGIT_VALUE,
            self.accepts(payload.push(self.check_value(payload)->0 as u8)),
    {
        let modulus = self.spec_modulus();
        let product = running_product(payload, modulus);
        crate::hybrid::lemma_running_product_bounds(payload, modulus);
        let value = (modulus + 1 - product) % modulus;
        lemma_mod_bound(modulus + 1 - product, modulus);
        let full = payload.push(value as u8);
        assert(full.drop_last() == payload);
        lemma_missing_to_one(product, modulus);
        lemma_small_mod(1, modulus as nat);
        assert(final_sum(full, modulus) == 1);
    }

    /// A payload string followed by the symbol of its check value is a valid
    /// string.
    pub proof fn lemma_round_trip_bytes(&self, payload: Seq<u8>)
        requires
            crate::hybrid::valid_parameters(MAX_DIGIT_VALUE, self.spec_modulus()),
            self.check_value(spec_digit_values(MAX_DIGIT_VALUE, payload)) is Some,
        ensures
            self.accepts(
                spec_digit_values(
                    MAX_DIGIT_VALUE,
                    payload + spec_symbols(
                        MAX_DIGIT_VALUE,
                        seq![
                            self.check_value(spec_digit_values(MAX_DIGIT_VALUE, payload))->0 as u8,
                        ],
                    ),
                ),
            ),
    {
        let values = spec_digit_values(MAX_DIGIT_VALUE, payload);
        self.lemma_round_trip(values);
        let digit = self.check_value(values)->0 as u8;
        lemma_symbols_read_back(MAX_DIGIT_VALUE, seq![digit]);
        lemma_digit_values_of_concatenation(
            MAX_DIGIT_VALUE,
            payload,
            spec_symbols(MAX_DIGIT_VALUE, seq![digit]),
        );
        assert(values + seq![digit] == values.push(digit));
    }
}

} // verus!
