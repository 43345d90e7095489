//! The hybrid system MOD 37,36.

use vstd::prelude::*;
use crate::hybrid::HybridSystem;
use crate::system::System;

verus! {

/// The system MOD 37,36, for alphanumeric strings, with one check character that is a digit or a letter.
pub fn mod_37_36() -> (system: HybridSystem<35>)
    ensures
        system.spec_name() == "ISO/IEC 7064, MOD 37,36"@,
        system.spec_designation() == 8,
        system.spec_modulus() == 36,
{
    HybridSystem::new("ISO/IEC 7064, MOD 37,36", 8, 36)
}

} // verus!
