//! The pure system MOD 661-26.

use vstd::prelude::*;
use crate::pure::{capacity, PureSystem};
use crate::system::System;

verus! {

/// The system MOD 661-26, for alphabetic strings, with two check characters that are letters.
pub fn mod_661_26() -> (system: PureSystem<2, 25, 661, 26>)
    ensures
        system.spec_name() == "ISO/IEC 7064, MOD 661-26"@,
        system.spec_designation() == 4,
{
    proof {
        // Two check characters: one digit in the radix under any digit of
        // the alphabet.
        reveal_with_fuel(capacity, 2);
    }
    PureSystem::new("ISO/IEC 7064, MOD 661-26", 4)
}

} // verus!
