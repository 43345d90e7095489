//! Check character systems of ISO/IEC 7064:2003, "Information technology --
//! Security techniques -- Check character systems".
//!
//! A check character system computes one or two check characters for a payload
//! string and decides whether a string that already carries its check
//! characters is consistent. Everything here is executable Rust whose behaviour
//! is stated in contracts over sequences of digit values and proved by Verus.

pub mod alphabet;
pub use alphabet::Alphabet;

pub mod system;
pub use system::System;

pub mod pure;
pub use pure::PureSystem;

pub mod hybrid;
pub use hybrid::HybridSystem;

// The pure check character systems of the standard.

mod mod_11_2;
pub use mod_11_2::mod_11_2;

mod mod_37_2;
pub use mod_37_2::mod_37_2;

mod mod_97_10;
pub use mod_97_10::mod_97_10;

mod mod_661_26;
pub use mod_661_26::mod_661_26;

mod mod_1271_36;
pub use mod_1271_36::mod_1271_36;

// The hybrid check character systems of the standard.

mod mod_11_10;
pub use mod_11_10::mod_11_10;

mod mod_27_26;
pub use mod_27_26::mod_27_26;

mod mod_37_36;
pub use mod_37_36::mod_37_36;

pub mod laws;
