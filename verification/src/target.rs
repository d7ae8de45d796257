//! Target platforms.

use vstd::prelude::*;

verus! {

/// An instruction set.
#[derive(Clone, Copy, Debug, PartialEq, Eq, Structural)]
pub enum Architecture {
    /// 32-bit x86.
    I386,
    /// x86-64.
    X86_64,
    /// 32-bit Arm.
    Arm,
    /// AArch64.
    Aarch64,
    /// PowerPC64.
    PowerPc64,
    /// RISC-V, 64-bit.
    RiscV64,
    /// LoongArch, 64-bit.
    LoongArch64,
    /// IBM Z.
    S390x,
}

/// A byte order.
#[derive(Clone, Copy, Debug, PartialEq, Eq, Structural)]
pub enum Endianness {
    /// The lowest byte first.
    Little,
    /// The highest byte first.
    Big,
}

/// A target platform.
#[derive(Clone, Copy, Debug, PartialEq, Eq, Structural)]
pub struct Target {
    /// Its instruction set.
    pub arch: Architecture,
    /// Its byte order.
    pub endian: Endianness,
}

} // verus!
