//! The pure system MOD 1271-36.

use vstd::prelude::*;
use crate::pure::{capacity, PureSystem};
use crate::system::System;

verus! {

/// The system MOD 1271-36, for alphanumeric strings, with two check characters that are digits or letters.
pub fn mod_1271_36() -> (system: PureSystem<2, 35, 1271, 36>)
    ensures
        system.spec_name() == "ISO/IEC 7064, MOD 1271-36"@,
        system.spec_designation() == 5,
{
    proof {
        // Two check characters: one digit in the radix under any digit of
        // the alphabet.
        reveal_with_fuel(capacity, 2);
    }
    PureSystem::new("ISO/IEC 7064, MOD 1271-36", 5)
}

} // verus!
