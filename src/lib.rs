//! A builder for byte-encoded scripts that are composed from opcodes and from
//! whole sub-scripts embedded by value, flattened into one byte sequence on demand.
use vstd::prelude::*;

pub mod script_buf;
pub mod assembler;
pub mod laws;

verus! {

} // verus!
