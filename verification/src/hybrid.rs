//! The hybrid check character systems: a running product is carried from one
//! digit value to the next, reduced modulo the system's modulus when a digit
//! value is added and modulo the modulus plus one when the sum is doubled.

use vstd::prelude::*;
use crate::alphabet::Alphabet;
use crate::system::{within_alphabet, System};

verus! {

/// The sum of the running product and the digit value `v` modulo `modulus`,
/// with `modulus` in the place of zero: a value from 1 to `modulus`.
pub open spec fn hybrid_sum(product: int, v: u8, modulus: int) -> int {
    let sum = (product + v) % modulus;
    if sum == 0 {
        modulus
    } else {
        sum
    }
}

/// The running product that follows the sum `sum`: twice the sum, modulo
/// `modulus` plus one.
pub open spec fn hybrid_product(sum: int, modulus: int) -> int {
    (sum * 2) % (modulus + 1)
}

/// The running product after the digit values `digits`. It starts at
/// `modulus`.
pub open spec fn running_product(digits: Seq<u8>, modulus: int) -> int
    decreases digits.len(),
{
    if digits.len() == 0 {
        modulus
    } else {
        hybrid_product(
            hybrid_sum(running_product(digits.drop_last(), modulus), digits.last(), modulus),
            modulus,
        )
    }
}

/// The sum that the last digit value of `digits` gives with the running
/// product of those before it, or zero where `digits` is empty.
pub open spec fn final_sum(digits: Seq<u8>, modulus: int) -> int {
    if digits.len() == 0 {
        0
    } else {
        hybrid_sum(running_product(digits.drop_last(), modulus), digits.last(), modulus)
    }
}

/// The parameters of a hybrid system: its alphabet is one of the five and has
/// no supplementary symbol, since nothing here would keep one out of the
/// payload, and each check value is a digit value of the alphabet.
pub open spec fn valid_parameters(max_digit_value: u8, modulus: int) -> bool {
    &&& Alphabet::with_max_digit_value(max_digit_value) matches Some(alphabet)
        && alphabet.supplementary_symbol() is None
    &&& 2 <= modulus <= max_digit_value + 1
}

/// The running product stays within 0 and `modulus`.
pub proof fn lemma_running_product_bounds(digits: Seq<u8>, modulus: int)
    requires
        modulus >= 1,
    ensures
        0 <= running_product(digits, modulus) <= modulus,
    decreases digits.len(),
{
    if digits.len() > 0 {
        lemma_running_product_bounds(digits.drop_last(), modulus);
    }
}

/// A hybrid check character system with one check character over the alphabet
/// whose greatest digit value is `MAX_DIGIT_VALUE`.
pub struct HybridSystem<const MAX_DIGIT_VALUE: u8> {
    pub(crate) name: &'static str,
    pub(crate) designation: u8,
    pub(crate) modulus: usize,
}

impl<const MAX_DIGIT_VALUE: u8> HybridSystem<MAX_DIGIT_VALUE> {
    /// Every system that exists has valid parameters and one of the
    /// standard's designations, which run from 1 to 8.
    #[verifier::type_invariant]
    spec fn well_formed(self) -> bool {
        &&& valid_parameters(MAX_DIGIT_VALUE, self.modulus as int)
        &&& 1 <= self.designation <= 8
    }

    /// The modulus of the system.
    pub closed spec fn spec_modulus(&self) -> int {
        self.modulus as int
    }

    /// The system with the given name, designation and modulus.
    pub(crate) fn new(name: &'static str, designation: u8, modulus: usize) -> (system: Self)
        requires
            valid_parameters(MAX_DIGIT_VALUE, modulus as int),
            1 <= designation <= 8,
        ensures
            system.spec_name() == name@,
            system.spec_designation() == designation,
            system.spec_modulus() == modulus,
    {
        HybridSystem { name, designation, modulus }
    }
}

impl<const MAX_DIGIT_VALUE: u8> System<MAX_DIGIT_VALUE> for HybridSystem<MAX_DIGIT_VALUE> {
    closed spec fn spec_name(&self) -> Seq<char> {
        self.name@
    }

    closed spec fn spec_designation(&self) -> u8 {
        self.designation
    }

    open spec fn spec_check_length(&self) -> u8 {
        1
    }

    /// The input is accepted when it is not empty, each digit value is one
    /// of the alphabet, and the last sum leaves 1 modulo the modulus.
    open spec fn accepts(&self, digits: Seq<u8>) -> bool {
        &&& within_alphabet(MAX_DIGIT_VALUE, digits)
        &&& final_sum(digits, self.spec_modulus()) % self.spec_modulus() == 1
    }

    /// A payload has a check value when each of its digit values is one of
    /// the alphabet, the empty payload too. The check value is what brings
    /// the running product to 1 modulo the modulus.
    open spec fn check_value(&self, digits: Seq<u8>) -> Option<u16> {
        if within_alphabet(MAX_DIGIT_VALUE, digits) {
            Some(
                ((self.spec_modulus() + 1 - running_product(digits, self.spec_modulus()))
                    % self.spec_modulus()) as u16,
            )
        } else {
            None
        }
    }

    proof fn lemma_illegal_digit_value(&self, digits: Seq<u8>, i: int) {
    }

    fn name(&self) -> (name: &'static str) {
        self.name
    }

    fn designation(&self) -> (designation: u8)
        ensures
            1 <= designation <= 8,
    {
        proof {
            use_type_invariant(self);
        }
        self.designation
    }

    fn check_length(&self) -> (length: u8) {
        1
    }

    fn validate_digit_values_iter(&self, it: &[u8]) -> (valid: bool) {
        proof {
            use_type_invariant(self);
        }
        let mut p: usize = self.modulus;
        let mut s: usize = 0;
        let mut first_char: bool = true;
        assert(it@.take(0) == Seq::<u8>::empty());

        for i in 0..it.len()
            invariant
                valid_parameters(MAX_DIGIT_VALUE, self.modulus as int),
                within_alphabet(MAX_DIGIT_VALUE, it@.take(i as int)),
                first_char == (i == 0),
                p <= self.modulus,
                s <= self.modulus,
                s == final_sum(it@.take(i as int), self.modulus as int),
                i == 0 ==> p == self.modulus,
        {
            let ghost taken = it@.take(i as int);
            let v = it[i];
            assert(it@.take(i + 1) == taken.push(v));
            assert(taken.push(v).drop_last() == taken);
            if v > MAX_DIGIT_VALUE {
                return false;
            }
            if first_char {
                first_char = false;
            } else {
                p = (s * 2) % (self.modulus + 1);
            }
            assert(p == running_product(taken, self.modulus as int));

            s = p + (v as usize);
            s %= self.modulus;
            s = if s == 0 {
                self.modulus
            } else {
                s
            };
        }
        assert(it@.take(it@.len() as int) == it@);

        s % self.modulus == 1
    }

    fn checksum_digit_values_iter(&self, it: &[u8]) -> (checksum: Option<u16>) {
        proof {
            use_type_invariant(self);
        }
        let mut p: usize = self.modulus;
        assert(it@.take(0) == Seq::<u8>::empty());

        for i in 0..it.len()
            invariant
                valid_parameters(MAX_DIGIT_VALUE, self.modulus as int),
                within_alphabet(MAX_DIGIT_VALUE, it@.take(i as int)),
                p <= self.modulus,
                p == running_product(it@.take(i as int), self.modulus as int),
        {
            let ghost taken = it@.take(i as int);
            let v = it[i];
            assert(it@.take(i + 1) == taken.push(v));
            assert(taken.push(v).drop_last() == taken);
            if v > MAX_DIGIT_VALUE {
                return None;
            }
            let mut s: usize = p + (v as usize);
            s %= self.modulus;
            s = if s == 0 {
                self.modulus
            } else {
                s
            };
            p = (s * 2) % (self.modulus + 1);
        }
        assert(it@.take(it@.len() as int) == it@);

        Some(((self.modulus + 1 - p) % self.modulus) as u16)
    }
}

} // verus!
