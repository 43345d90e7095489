//! The hybrid system MOD 27,26.

use vstd::prelude::*;
use crate::hybrid::HybridSystem;
use crate::system::System;

verus! {

/// The system MOD 27,26, for alphabetic strings, with one check character that is a letter.
pub fn mod_27_26() -> (system: HybridSystem<25>)
    ensures
        system.spec_name() == "ISO/IEC 7064, MOD 27,26"@,
        system.spec_designation() == 7,
        system.spec_modulus() == 26,
{
    HybridSystem::new("ISO/IEC 7064, MOD 27,26", 7, 26)
}

} // verus!
