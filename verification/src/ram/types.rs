//! Basic type names shared by the instruction set and the machine.

use vstd::prelude::*;

verus! {

/// Addresses and stored values share one signed 32-bit type.
pub type Number = i32;

/// A position in the program or on the input tape.
pub type Index = usize;

/// The name of a jump target.
pub type Label = String;

} // verus!
