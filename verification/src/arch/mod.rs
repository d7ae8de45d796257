//! Instruction encodings: the fields relocations patch, and the code the
//! linker writes itself.

pub mod aarch64;
pub mod arm;
pub mod errata;
pub mod loongarch;
pub mod ppc64;
pub mod riscv;
pub mod s390x;

use vstd::prelude::*;

verus! {

/// Why a field cannot hold a value.
#[derive(Clone, Copy, Debug, PartialEq, Eq, Structural)]
pub enum EncodeError {
    /// The value is out of the field's range, or not a multiple of its
    /// unit.
    Overflow,
    /// The instruction is not one the field belongs to.
    BadInstruction,
}

/// `x` shifted right by `n` bits; nothing is left after 64 or more.
#[verifier::allow_in_spec]
pub fn shifted_right(x: u64, n: u8) -> u64
    returns
        (if n < 64 {
            x >> (n as u64)
        } else {
            0
        }),
{
    if n < 64 {
        x >> (n as u64)
    } else {
        0
    }
}

} // verus!
