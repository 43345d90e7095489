//! The pure system MOD 11-2.

use vstd::prelude::*;
use crate::pure::PureSystem;
use crate::system::System;

verus! {

/// The system MOD 11-2, for numeric strings, with one check character that is a digit or the supplementary 'X'.
pub fn mod_11_2() -> (system: PureSystem<1, 10, 11, 2>)
    ensures
        system.spec_name() == "ISO/IEC 7064, MOD 11-2"@,
        system.spec_designation() == 1,
{
    PureSystem::new("ISO/IEC 7064, MOD 11-2", 1)
}

} // verus!
