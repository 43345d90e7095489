//! The hybrid system MOD 11,10.

use vstd::prelude::*;
use crate::hybrid::HybridSystem;
use crate::system::System;

verus! {

/// The system MOD 11,10, for numeric strings, with one check character that is a digit.
pub fn mod_11_10() -> (system: HybridSystem<9>)
    ensures
        system.spec_name() == "ISO/IEC 7064, MOD 11,10"@,
        system.spec_designation() == 6,
        system.spec_modulus() == 10,
{
    HybridSystem::new("ISO/IEC 7064, MOD 11,10", 6, 10)
}

} // verus!
