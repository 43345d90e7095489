//! The pure system MOD 97-10.

use vstd::prelude::*;
use crate::pure::{capacity, PureSystem};
use crate::system::System;

verus! {

/// The system MOD 97-10, for numeric strings, with two check characters that are digits.
pub fn mod_97_10() -> (system: PureSystem<2, 9, 97, 10>)
    ensures
        system.spec_name() == "ISO/IEC 7064, MOD 97-10"@,
        system.spec_designation() == 3,
{
    proof {
        // Two check characters: one digit in the radix under any digit of
        // the alphabet.
        reveal_with_fuel(capacity, 2);
    }
    PureSystem::new("ISO/IEC 7064, MOD 97-10", 3)
}

} // verus!
