//! The pure check character systems: the digit values of a string, check
//! digits included, are read as one numeral in a fixed radix, and the string is
//! valid when that numeral is congruent to 1 modulo the system's modulus.

use vstd::prelude::*;
use vstd::arithmetic::div_mod::{lemma_add_mod_noop, lemma_mod_twice, lemma_mul_mod_noop_left};
use crate::alphabet::Alphabet;
use crate::system::{within_alphabet, System, ILLEGAL_DIGIT_VALUE};

verus! {

/// The number that `digits` spell in base `radix`, most significant digit
/// first.
pub open spec fn numeral(digits: Seq<u8>, radix: int) -> int
    decreases digits.len(),
{
    if digits.len() == 0 {
        0
    } else {
        numeral(digits.drop_last(), radix) * radix + digits.last()
    }
}

/// The digit value that is legal only in a check position, for the alphabet
/// whose greatest digit value is `max_digit_value`.
pub open spec fn supplementary_value(max_digit_value: u8) -> Option<u8> {
    match Alphabet::with_max_digit_value(max_digit_value) {
        Some(alphabet) => alphabet.spec_supplementary_char_value(),
        None => None,
    }
}

/// Whether the first `length` digit values of `digits` are free of the
/// supplementary value of the alphabet.
pub open spec fn payload_is_plain(max_digit_value: u8, digits: Seq<u8>, length: int) -> bool {
    supplementary_value(max_digit_value) matches Some(supplementary) ==> forall|i: int|
        0 <= i < length && i < digits.len() ==> digits[i] != supplementary
}

/// How many check values `check_length` check digits can tell apart: the
/// leading digit takes any value of the alphabet, the others are digits in
/// base `radix`.
pub open spec fn capacity(check_length: int, max_digit_value: u8, radix: int) -> int
    decreases check_length,
{
    if check_length <= 1 {
        max_digit_value + 1
    } else {
        capacity(check_length - 1, max_digit_value, radix) * radix
    }
}

/// The parameters with which the running sum can be carried in a `usize`:
/// a sum reduced modulo `modulus` takes one more digit without overflow.
pub open spec fn computable_parameters(
    check_length: int,
    max_digit_value: u8,
    modulus: int,
    radix: int,
) -> bool {
    &&& 1 <= check_length
    &&& 1 <= modulus
    &&& 1 <= radix
    &&& (modulus - 1) * radix + max_digit_value <= usize::MAX
}

/// The parameters of a pure system: it computes without overflow, its
/// alphabet is one of the five, its check values fit the result type, and
/// it can write each of them with its own alphabet.
pub open spec fn valid_parameters(
    check_length: int,
    max_digit_value: u8,
    modulus: int,
    radix: int,
) -> bool {
    &&& computable_parameters(check_length, max_digit_value, modulus, radix)
    &&& Alphabet::with_max_digit_value(max_digit_value) is Some
    &&& check_length <= u8::MAX
    &&& 2 <= modulus <= u16::MAX + 1
    &&& modulus <= capacity(check_length, max_digit_value, radix)
    &&& check_length >= 2 ==> radix <= max_digit_value + 1
}

/// The greatest running sum that can take one more digit without overflow.
pub open spec fn spec_max_sum(max_digit_value: u8, radix: int) -> int {
    (usize::MAX - max_digit_value) / radix
}

/// The running sum after one more digit value: the sum is first reduced
/// modulo `modulus` where the step could overflow otherwise.
pub open spec fn next_sum(sum: int, v: u8, max_digit_value: u8, modulus: int, radix: int) -> int {
    let reduced = if sum > spec_max_sum(max_digit_value, radix) {
        sum % modulus
    } else {
        sum
    };
    reduced * radix + v
}

/// The state that changes with each digit value.
pub struct State<
    const CHECK_LENGTH: usize,
    const MAX_DIGIT_VALUE: u8,
    const MODULUS: usize,
    const RADIX: usize,
> {
    /// How many digit values were taken in, so that an input without payload
    /// can be refused. It stops at `usize::MAX`.
    pub count: usize,
    /// The work-in-progress checksum.
    pub sum: usize,
    /// The last `CHECK_LENGTH` digit values, oldest first, kept where the
    /// alphabet has a supplementary value: one that leaves this window stood
    /// in the payload. A slot that has taken no digit value yet holds
    /// [`ILLEGAL_DIGIT_VALUE`].
    pub check_char_values: [u8; CHECK_LENGTH],
}

impl<
    const CHECK_LENGTH: usize,
    const MAX_DIGIT_VALUE: u8,
    const MODULUS: usize,
    const RADIX: usize,
> State<CHECK_LENGTH, MAX_DIGIT_VALUE, MODULUS, RADIX> {
    /// Whether the state takes in the digit value `v`.
    pub open spec fn admits(self, v: u8) -> bool {
        &&& v <= MAX_DIGIT_VALUE
        &&& supplementary_value(MAX_DIGIT_VALUE) matches Some(supplementary)
            ==> self.check_char_values@[0] != supplementary
    }

    /// The count after one more digit value.
    pub open spec fn next_count(self) -> int {
        if self.count < usize::MAX {
            self.count + 1
        } else {
            self.count as int
        }
    }

    /// The greatest running sum that can take one more digit without overflow.
    fn max_sum() -> (max: usize)
        requires
            RADIX >= 1,
        ensures
            max == spec_max_sum(MAX_DIGIT_VALUE, RADIX as int),
    {
        (usize::MAX - (MAX_DIGIT_VALUE as usize)) / RADIX
    }

    /// The supplementary check character value of the alphabet, or -1 if
    /// there isn't one.
    fn supplementary_char_value() -> (value: i8)
        ensures
            match supplementary_value(MAX_DIGIT_VALUE) {
                Some(supplementary) => value == supplementary,
                None => value == -1,
            },
    {
        match MAX_DIGIT_VALUE {
            10 => 10,
            36 => 36,
            _ => -1,
        }
    }

    /// The state before any digit value. Each slot of the window holds
    /// [`ILLEGAL_DIGIT_VALUE`], which is no digit value of the five
    /// alphabets: an empty slot is never taken for a supplementary value.
    pub fn new() -> (state: State<CHECK_LENGTH, MAX_DIGIT_VALUE, MODULUS, RADIX>)
        ensures
            state.count == 0,
            state.sum == 0,
            forall|i: int|
                0 <= i < CHECK_LENGTH ==> state.check_char_values@[i] == ILLEGAL_DIGIT_VALUE,
            MAX_DIGIT_VALUE < ILLEGAL_DIGIT_VALUE ==> forall|i: int|
                0 <= i < CHECK_LENGTH ==> state.check_char_values@[i] > MAX_DIGIT_VALUE,
    {
        let check_char_values: [u8; CHECK_LENGTH] = [ILLEGAL_DIGIT_VALUE; CHECK_LENGTH];
        // Naming the filled array brings in what vstd states of its slots.
        assert(check_char_values == vstd::array::spec_array_fill_for_copy_type::<u8, CHECK_LENGTH>(
            ILLEGAL_DIGIT_VALUE,
        ));
        State { count: 0, sum: 0, check_char_values }
    }

    /// Takes in the digit value `v`. Returns true if it was taken in, false
    /// if it is no digit value of the alphabet, or if it pushes a
    /// supplementary value out of the window of check positions.
    pub fn process_digit_value(&mut self, v: u8) -> (accepted: bool)
        requires
            computable_parameters(
                CHECK_LENGTH as int,
                MAX_DIGIT_VALUE,
                MODULUS as int,
                RADIX as int,
            ),
        ensures
            accepted == old(self).admits(v),
            final(self).count == if v <= MAX_DIGIT_VALUE {
                old(self).next_count()
            } else {
                old(self).count as int
            },
            final(self).sum == if accepted {
                next_sum(old(self).sum as int, v, MAX_DIGIT_VALUE, MODULUS as int, RADIX as int)
            } else {
                old(self).sum as int
            },
            final(self).check_char_values@ == if accepted && supplementary_value(MAX_DIGIT_VALUE)
                is Some {
                old(self).check_char_values@.drop_first().push(v)
            } else {
                old(self).check_char_values@
            },
    {
        if v > MAX_DIGIT_VALUE {
            return false;
        }
        if self.count < usize::MAX {
            self.count += 1;
        }
        // If the alphabet has a supplementary character, the value about to
        // leave the window must not be that character's: it would have stood
        // in the payload.

        match Self::supplementary_char_value() {
            -1 => (),
            n => {
                if self.check_char_values[0] == (n as u8) {
                    return false;
                }
                for i in 1..CHECK_LENGTH
                    invariant
                        self.count == old(self).next_count(),
                        self.sum == old(self).sum,
                        self.check_char_values@.len() == CHECK_LENGTH,
                        old(self).check_char_values@.len() == CHECK_LENGTH,
                        forall|j: int|
                            0 <= j < i - 1 ==> self.check_char_values@[j] == old(
                                self,
                            ).check_char_values@[j + 1],
                        forall|j: int|
                            i - 1 <= j < CHECK_LENGTH ==> self.check_char_values@[j] == old(
                                self,
                            ).check_char_values@[j],
                {
                    self.check_char_values[i - 1] = self.check_char_values[i]
                }
                self.check_char_values[CHECK_LENGTH - 1] = v;
            },
        }

        // If the sum is too great for the next step, reduce it first.
        if self.sum > Self::max_sum() {
            self.sum %= MODULUS
        }
        assert(self.sum * RADIX + v <= usize::MAX) by (nonlinear_arith)
            requires
                RADIX >= 1,
                self.sum <= (usize::MAX - MAX_DIGIT_VALUE) / (RADIX as int) || self.sum <= MODULUS
                    - 1,
                (MODULUS - 1) * RADIX + MAX_DIGIT_VALUE <= usize::MAX,
                v <= MAX_DIGIT_VALUE,
        ;
        self.sum = (self.sum * RADIX) + (v as usize);

        true
    }
}

/// `length` digit values of zero: what stands in the check positions while the
/// check value is worked out.
pub open spec fn placeholders(length: int) -> Seq<u8> {
    Seq::new(length as nat, |i: int| 0u8)
}

/// The `length` check digits that write the check value `value`: digits in
/// base `radix`, most significant first, of which the leading one takes
/// whatever is left.
pub open spec fn check_digits(value: int, length: int, radix: int) -> Seq<u8>
    decreases length,
{
    if length <= 1 {
        seq![value as u8]
    } else {
        check_digits(value / radix, length - 1, radix).push((value % radix) as u8)
    }
}

/// The check value that brings a numeral whose check positions hold zero to
/// 1 modulo `modulus`.
pub open spec fn complement(numeral: int, modulus: int) -> int {
    ((modulus + 1) - (numeral % modulus)) % modulus
}

impl<
    const CHECK_LENGTH: usize,
    const MAX_DIGIT_VALUE: u8,
    const MODULUS: usize,
    const RADIX: usize,
> State<CHECK_LENGTH, MAX_DIGIT_VALUE, MODULUS, RADIX> {
    /// Whether this is the state reached from a new one by taking in
    /// `digits`, each of which was admitted.
    pub open spec fn tracks(self, digits: Seq<u8>) -> bool {
        &&& within_alphabet(MAX_DIGIT_VALUE, digits)
        &&& payload_is_plain(MAX_DIGIT_VALUE, digits, digits.len() - CHECK_LENGTH)
        &&& self.count == if digits.len() < usize::MAX {
            digits.len() as int
        } else {
            usize::MAX as int
        }
        &&& (self.sum as int) % (MODULUS as int) == numeral(digits, RADIX as int) % (MODULUS as int)
        &&& supplementary_value(MAX_DIGIT_VALUE) is Some ==> forall|j: int|
            0 <= j < CHECK_LENGTH ==> self.check_char_values@[j] == if digits.len() - CHECK_LENGTH
                + j >= 0 {
                digits[digits.len() - CHECK_LENGTH + j]
            } else {
                ILLEGAL_DIGIT_VALUE
            }
    }

    /// A state that tracks `digits` refuses `v` exactly when `v` is no digit
    /// value of the alphabet or pushes a supplementary value out of the
    /// check positions.
    proof fn lemma_admits(self, digits: Seq<u8>, v: u8)
        requires
            computable_parameters(
                CHECK_LENGTH as int,
                MAX_DIGIT_VALUE,
                MODULUS as int,
                RADIX as int,
            ),
            self.tracks(digits),
        ensures
            self.admits(v) <==> v <= MAX_DIGIT_VALUE && !(digits.len() >= CHECK_LENGTH
                && supplementary_value(MAX_DIGIT_VALUE) == Some(
                digits[digits.len() - CHECK_LENGTH],
            )),
    {
    }

    /// Taking in an admitted digit value leads from a state that tracks
    /// `digits` to one that tracks `digits` followed by `v`.
    proof fn lemma_tracks_next(self, next: Self, digits: Seq<u8>, v: u8)
        requires
            computable_parameters(
                CHECK_LENGTH as int,
                MAX_DIGIT_VALUE,
                MODULUS as int,
                RADIX as int,
            ),
            self.tracks(digits),
            self.admits(v),
            next.count == self.next_count(),
            next.sum == next_sum(
                self.sum as int,
                v,
                MAX_DIGIT_VALUE,
                MODULUS as int,
                RADIX as int,
            ),
            supplementary_value(MAX_DIGIT_VALUE) is Some ==> next.check_char_values@
                == self.check_char_values@.drop_first().push(v),
        ensures
            next.tracks(digits.push(v)),
    {
        let after = digits.push(v);
        assert(after.drop_last() == digits);
        lemma_next_sum(
            self.sum as int,
            numeral(digits, RADIX as int),
            v,
            MAX_DIGIT_VALUE,
            MODULUS as int,
            RADIX as int,
        );
        self.lemma_admits(digits, v);
    }
}

/// Reducing the running sum before a step does not change the sum modulo
/// `modulus`.
proof fn lemma_next_sum(
    sum: int,
    numeral: int,
    v: u8,
    max_digit_value: u8,
    modulus: int,
    radix: int,
)
    requires
        modulus >= 1,
        sum % modulus == numeral % modulus,
    ensures
        next_sum(sum, v, max_digit_value, modulus, radix) % modulus == (numeral * radix + v)
            % modulus,
{
    let reduced = if sum > spec_max_sum(max_digit_value, radix) {
        sum % modulus
    } else {
        sum
    };
    lemma_mod_twice(sum, modulus);
    assert(reduced % modulus == numeral % modulus);
    lemma_mul_mod_noop_left(reduced, radix, modulus);
    lemma_mul_mod_noop_left(numeral, radix, modulus);
    lemma_add_mod_noop(reduced * radix, v as int, modulus);
    lemma_add_mod_noop(numeral * radix, v as int, modulus);
}

/// A pure check character system with `CHECK_LENGTH` check characters over the
/// alphabet whose greatest digit value is `MAX_DIGIT_VALUE`.
pub struct PureSystem<
    const CHECK_LENGTH: usize,
    const MAX_DIGIT_VALUE: u8,
    const MODULUS: usize,
    const RADIX: usize,
> {
    pub(crate) name: &'static str,
    pub(crate) designation: u8,
}

impl<
    const CHECK_LENGTH: usize,
    const MAX_DIGIT_VALUE: u8,
    const MODULUS: usize,
    const RADIX: usize,
> PureSystem<CHECK_LENGTH, MAX_DIGIT_VALUE, MODULUS, RADIX> {
    /// Every system that exists has valid parameters and one of the
    /// standard's designations, which run from 1 to 8.
    #[verifier::type_invariant]
    spec fn well_formed(self) -> bool {
        &&& valid_parameters(CHECK_LENGTH as int, MAX_DIGIT_VALUE, MODULUS as int, RADIX as int)
        &&& 1 <= self.designation <= 8
    }

    /// The system with the given name and designation.
    pub(crate) fn new(name: &'static str, designation: u8) -> (system: Self)
        requires
            valid_parameters(
                CHECK_LENGTH as int,
                MAX_DIGIT_VALUE,
                MODULUS as int,
                RADIX as int,
            ),
            1 <= designation <= 8,
        ensures
            system.spec_name() == name@,
            system.spec_designation() == designation,
    {
        PureSystem { name, designation }
    }
}

impl<
    const CHECK_LENGTH: usize,
    const MAX_DIGIT_VALUE: u8,
    const MODULUS: usize,
    const RADIX: usize,
> System<MAX_DIGIT_VALUE> for PureSystem<CHECK_LENGTH, MAX_DIGIT_VALUE, MODULUS, RADIX> {
    closed spec fn spec_name(&self) -> Seq<char> {
        self.name@
    }

    closed spec fn spec_designation(&self) -> u8 {
        self.designation
    }

    open spec fn spec_check_length(&self) -> u8 {
        CHECK_LENGTH as u8
    }

    /// The input is accepted when each digit value is one of the alphabet,
    /// the supplementary value stands in check positions only, there is at
    /// least one payload digit, and the numeral leaves 1 modulo `MODULUS`.
    open spec fn accepts(&self, digits: Seq<u8>) -> bool {
        &&& within_alphabet(MAX_DIGIT_VALUE, digits)
        &&& payload_is_plain(MAX_DIGIT_VALUE, digits, digits.len() - CHECK_LENGTH)
        &&& digits.len() >= CHECK_LENGTH + 1
        &&& numeral(digits, RADIX as int) % (MODULUS as int) == 1
    }

    /// A payload has a check value when it is not empty, each of its digit
    /// values is one of the alphabet and none is the supplementary value.
    /// The check value complements the numeral of the payload followed by
    /// zeros in the check positions.
    open spec fn check_value(&self, digits: Seq<u8>) -> Option<u16> {
        if within_alphabet(MAX_DIGIT_VALUE, digits) && payload_is_plain(
            MAX_DIGIT_VALUE,
            digits,
            digits.len() as int,
        ) && digits.len() >= 1 {
            Some(
                complement(
                    numeral(digits + placeholders(CHECK_LENGTH as int), RADIX as int),
                    MODULUS as int,
                ) as u16,
            )
        } else {
            None
        }
    }

    proof fn lemma_illegal_digit_value(&self, digits: Seq<u8>, i: int) {
    }

    fn name(&self) -> (name: &'static str) {
        self.name
    }

    fn designation(&self) -> (designation: u8)
        ensures
            1 <= designation <= 8,
    {
        proof {
            use_type_invariant(self);
        }
        self.designation
    }

    fn check_length(&self) -> (length: u8) {
        proof {
            use_type_invariant(self);
        }
        CHECK_LENGTH as u8
    }

    fn validate_digit_values_iter(&self, it: &[u8]) -> (valid: bool) {
        proof {
            use_type_invariant(self);
        }
        let mut state: State<CHECK_LENGTH, MAX_DIGIT_VALUE, MODULUS, RADIX> = State::new();
        assert(it@.take(0) == Seq::<u8>::empty());

        for i in 0..it.len()
            invariant
                valid_parameters(
                    CHECK_LENGTH as int,
                    MAX_DIGIT_VALUE,
                    MODULUS as int,
                    RADIX as int,
                ),
                state.tracks(it@.take(i as int)),
        {
            let ghost before = state;
            let ghost taken = it@.take(i as int);
            let v = it[i];
            assert(it@.take(i + 1) == taken.push(v));
            if !state.process_digit_value(v) {
                proof {
                    before.lemma_admits(taken, v);
                }
                return false;
            }
            proof {
                before.lemma_tracks_next(state, taken, v);
            }
        }
        assert(it@.take(it@.len() as int) == it@);

        // With fewer than `CHECK_LENGTH` + 1 digit values the input has no
        // payload.
        if state.count < (CHECK_LENGTH + 1) {
            return false;
        }
        state.sum % MODULUS == 1
    }

    fn checksum_digit_values_iter(&self, it: &[u8]) -> (checksum: Option<u16>) {
        proof {
            use_type_invariant(self);
        }
        let mut state: State<CHECK_LENGTH, MAX_DIGIT_VALUE, MODULUS, RADIX> = State::new();
        assert(it@.take(0) == Seq::<u8>::empty());

        for i in 0..it.len()
            invariant
                valid_parameters(
                    CHECK_LENGTH as int,
                    MAX_DIGIT_VALUE,
                    MODULUS as int,
                    RADIX as int,
                ),
                state.tracks(it@.take(i as int)),
        {
            let ghost before = state;
            let ghost taken = it@.take(i as int);
            let v = it[i];
            assert(it@.take(i + 1) == taken.push(v));
            if !state.process_digit_value(v) {
                proof {
                    before.lemma_admits(taken, v);
                }
                return None;
            }
            proof {
                before.lemma_tracks_next(state, taken, v);
            }
        }
        assert(it@.take(it@.len() as int) == it@);
        assert(it@ + placeholders(0) == it@);

        // Act as if zeros stood in the check positions.
        for k in 0..CHECK_LENGTH
            invariant
                valid_parameters(
                    CHECK_LENGTH as int,
                    MAX_DIGIT_VALUE,
                    MODULUS as int,
                    RADIX as int,
                ),
                state.tracks(it@ + placeholders(k as int)),
        {
            let ghost before = state;
            let ghost taken = it@ + placeholders(k as int);
            assert(it@ + placeholders(k + 1) == taken.push(0u8));
            if !state.process_digit_value(0) {
                proof {
                    before.lemma_admits(taken, 0u8);
                }
                return None;
            }
            proof {
                before.lemma_tracks_next(state, taken, 0u8);
            }
        }

        // Without a digit value before the placeholders there is no payload.
        if state.count < (CHECK_LENGTH + 1) {
            return None;
        }
        let value = ((MODULUS + 1) - (state.sum % MODULUS)) % MODULUS;
        proof {
            // The payload is what stood before the placeholders.
            let padded = it@ + placeholders(CHECK_LENGTH as int);
            assert(padded.len() == it@.len() + CHECK_LENGTH);
            assert forall|i: int| 0 <= i < it@.len() implies it@[i] == padded[i] by {}
            if supplementary_value(MAX_DIGIT_VALUE) is Some {
                let supplementary = supplementary_value(MAX_DIGIT_VALUE)->0;
                assert forall|i: int| 0 <= i < it@.len() implies it@[i] != supplementary by {
                    assert(padded[i] != supplementary);
                }
            }
        }

        Some(value as u16)
    }
}

} // verus!
