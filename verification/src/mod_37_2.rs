//! The pure system MOD 37-2.

use vstd::prelude::*;
use crate::pure::PureSystem;
use crate::system::System;

verus! {

/// The system MOD 37-2, for alphanumeric strings, with one check character that is a digit, a letter or the supplementary '*'.
pub fn mod_37_2() -> (system: PureSystem<1, 36, 37, 2>)
    ensures
        system.spec_name() == "ISO/IEC 7064, MOD 37-2"@,
        system.spec_designation() == 2,
{
    PureSystem::new("ISO/IEC 7064, MOD 37-2", 2)
}

} // verus!
