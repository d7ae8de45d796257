//! x86-64 relocation types.

use vstd::prelude::*;

verus! {

/// Relocation type `R_X86_64_NONE`.
pub const R_X86_64_NONE: u32 = 0;

/// Relocation type `R_X86_64_64`.
pub const R_X86_64_64: u32 = 1;

/// Relocation type `R_X86_64_PC32`.
pub const R_X86_64_PC32: u32 = 2;

/// Relocation type `R_X86_64_GOT32`.
pub const R_X86_64_GOT32: u32 = 3;

/// Relocation type `R_X86_64_PLT32`.
pub const R_X86_64_PLT32: u32 = 4;

/// Relocation type `R_X86_64_COPY`.
pub const R_X86_64_COPY: u32 = 5;

/// Relocation type `R_X86_64_GLOB_DAT`.
pub const R_X86_64_GLOB_DAT: u32 = 6;

/// Relocation type `R_X86_64_JUMP_SLOT`.
pub const R_X86_64_JUMP_SLOT: u32 = 7;

/// Relocation type `R_X86_64_RELATIVE`.
pub const R_X86_64_RELATIVE: u32 = 8;

/// Relocation type `R_X86_64_GOTPCREL`.
pub const R_X86_64_GOTPCREL: u32 = 9;

/// Relocation type `R_X86_64_32`.
pub const R_X86_64_32: u32 = 10;

/// Relocation type `R_X86_64_32S`.
pub const R_X86_64_32S: u32 = 11;

/// Relocation type `R_X86_64_16`.
pub const R_X86_64_16: u32 = 12;

/// Relocation type `R_X86_64_PC16`.
pub const R_X86_64_PC16: u32 = 13;

/// Relocation type `R_X86_64_8`.
pub const R_X86_64_8: u32 = 14;

/// Relocation type `R_X86_64_PC8`.
pub const R_X86_64_PC8: u32 = 15;

/// Relocation type `R_X86_64_DTPMOD64`.
pub const R_X86_64_DTPMOD64: u32 = 16;

/// Relocation type `R_X86_64_DTPOFF64`.
pub const R_X86_64_DTPOFF64: u32 = 17;

/// Relocation type `R_X86_64_TPOFF64`.
pub const R_X86_64_TPOFF64: u32 = 18;

/// Relocation type `R_X86_64_TLSGD`.
pub const R_X86_64_TLSGD: u32 = 19;

/// Relocation type `R_X86_64_TLSLD`.
pub const R_X86_64_TLSLD: u32 = 20;

/// Relocation type `R_X86_64_DTPOFF32`.
pub const R_X86_64_DTPOFF32: u32 = 21;

/// Relocation type `R_X86_64_GOTTPOFF`.
pub const R_X86_64_GOTTPOFF: u32 = 22;

/// Relocation type `R_X86_64_TPOFF32`.
pub const R_X86_64_TPOFF32: u32 = 23;

/// Relocation type `R_X86_64_PC64`.
pub const R_X86_64_PC64: u32 = 24;

/// Relocation type `R_X86_64_GOTOFF64`.
pub const R_X86_64_GOTOFF64: u32 = 25;

/// Relocation type `R_X86_64_GOTPC32`.
pub const R_X86_64_GOTPC32: u32 = 26;

/// Relocation type `R_X86_64_GOT64`.
pub const R_X86_64_GOT64: u32 = 27;

/// Relocation type `R_X86_64_GOTPCREL64`.
pub const R_X86_64_GOTPCREL64: u32 = 28;

/// Relocation type `R_X86_64_GOTPC64`.
pub const R_X86_64_GOTPC64: u32 = 29;

/// Relocation type `R_X86_64_GOTPLT64`.
pub const R_X86_64_GOTPLT64: u32 = 30;

/// Relocation type `R_X86_64_PLTOFF64`.
pub const R_X86_64_PLTOFF64: u32 = 31;

/// Relocation type `R_X86_64_SIZE32`.
pub const R_X86_64_SIZE32: u32 = 32;

/// Relocation type `R_X86_64_SIZE64`.
pub const R_X86_64_SIZE64: u32 = 33;

/// Relocation type `R_X86_64_GOTPC32_TLSDESC`.
pub const R_X86_64_GOTPC32_TLSDESC: u32 = 34;

/// Relocation type `R_X86_64_TLSDESC_CALL`.
pub const R_X86_64_TLSDESC_CALL: u32 = 35;

/// Relocation type `R_X86_64_TLSDESC`.
pub const R_X86_64_TLSDESC: u32 = 36;

/// Relocation type `R_X86_64_IRELATIVE`.
pub const R_X86_64_IRELATIVE: u32 = 37;

/// Relocation type `R_X86_64_RELATIVE64`.
pub const R_X86_64_RELATIVE64: u32 = 38;

/// Relocation type `R_X86_64_PC32_BND`.
pub const R_X86_64_PC32_BND: u32 = 39;

/// Relocation type `R_X86_64_PLT32_BND`.
pub const R_X86_64_PLT32_BND: u32 = 40;

/// Relocation type `R_X86_64_GOTPCRELX`.
pub const R_X86_64_GOTPCRELX: u32 = 41;

/// Relocation type `R_X86_64_REX_GOTPCRELX`.
pub const R_X86_64_REX_GOTPCRELX: u32 = 42;

/// Relocation type `R_X86_64_GNU_VTINHERIT`.
pub const R_X86_64_GNU_VTINHERIT: u32 = 250;

/// Relocation type `R_X86_64_GNU_VTENTRY`.
pub const R_X86_64_GNU_VTENTRY: u32 = 251;

/// The name of x86-64 relocation type `r_type`, as `readelf` prints it.
#[verifier::allow_in_spec]
pub fn reloc_name(r_type: u32) -> Option<&'static str>
    returns
        (match r_type {
            R_X86_64_NONE => Some("R_X86_64_NONE"),
            R_X86_64_64 => Some("R_X86_64_64"),
            R_X86_64_PC32 => Some("R_X86_64_PC32"),
            R_X86_64_GOT32 => Some("R_X86_64_GOT32"),
            R_X86_64_PLT32 => Some("R_X86_64_PLT32"),
            R_X86_64_COPY => Some("R_X86_64_COPY"),
            R_X86_64_GLOB_DAT => Some("R_X86_64_GLOB_DAT"),
            R_X86_64_JUMP_SLOT => Some("R_X86_64_JUMP_SLOT"),
            R_X86_64_RELATIVE => Some("R_X86_64_RELATIVE"),
            R_X86_64_GOTPCREL => Some("R_X86_64_GOTPCREL"),
            R_X86_64_32 => Some("R_X86_64_32"),
            R_X86_64_32S => Some("R_X86_64_32S"),
            R_X86_64_16 => Some("R_X86_64_16"),
            R_X86_64_PC16 => Some("R_X86_64_PC16"),
            R_X86_64_8 => Some("R_X86_64_8"),
            R_X86_64_PC8 => Some("R_X86_64_PC8"),
            R_X86_64_DTPMOD64 => Some("R_X86_64_DTPMOD64"),
            R_X86_64_DTPOFF64 => Some("R_X86_64_DTPOFF64"),
            R_X86_64_TPOFF64 => Some("R_X86_64_TPOFF64"),
            R_X86_64_TLSGD => Some("R_X86_64_TLSGD"),
            R_X86_64_TLSLD => Some("R_X86_64_TLSLD"),
            R_X86_64_DTPOFF32 => Some("R_X86_64_DTPOFF32"),
            R_X86_64_GOTTPOFF => Some("R_X86_64_GOTTPOFF"),
            R_X86_64_TPOFF32 => Some("R_X86_64_TPOFF32"),
            R_X86_64_PC64 => Some("R_X86_64_PC64"),
            R_X86_64_GOTOFF64 => Some("R_X86_64_GOTOFF64"),
            R_X86_64_GOTPC32 => Some("R_X86_64_GOTPC32"),
            R_X86_64_GOT64 => Some("R_X86_64_GOT64"),
            R_X86_64_GOTPCREL64 => Some("R_X86_64_GOTPCREL64"),
            R_X86_64_GOTPC64 => Some("R_X86_64_GOTPC64"),
            R_X86_64_GOTPLT64 => Some("R_X86_64_GOTPLT64"),
            R_X86_64_PLTOFF64 => Some("R_X86_64_PLTOFF64"),
            R_X86_64_SIZE32 => Some("R_X86_64_SIZE32"),
            R_X86_64_SIZE64 => Some("R_X86_64_SIZE64"),
            R_X86_64_GOTPC32_TLSDESC => Some("R_X86_64_GOTPC32_TLSDESC"),
            R_X86_64_TLSDESC_CALL => Some("R_X86_64_TLSDESC_CALL"),
            R_X86_64_TLSDESC => Some("R_X86_64_TLSDESC"),
            R_X86_64_IRELATIVE => Some("R_X86_64_IRELATIVE"),
            R_X86_64_RELATIVE64 => Some("R_X86_64_RELATIVE64"),
            R_X86_64_PC32_BND => Some("R_X86_64_PC32_BND"),
            R_X86_64_PLT32_BND => Some("R_X86_64_PLT32_BND"),
            R_X86_64_GOTPCRELX => Some("R_X86_64_GOTPCRELX"),
            R_X86_64_REX_GOTPCRELX => Some("R_X86_64_REX_GOTPCRELX"),
            R_X86_64_GNU_VTINHERIT => Some("R_X86_64_GNU_VTINHERIT"),
            R_X86_64_GNU_VTENTRY => Some("R_X86_64_GNU_VTENTRY"),
            _ => None,
        }),
{
    match r_type {
        R_X86_64_NONE => Some("R_X86_64_NONE"),
        R_X86_64_64 => Some("R_X86_64_64"),
        R_X86_64_PC32 => Some("R_X86_64_PC32"),
        R_X86_64_GOT32 => Some("R_X86_64_GOT32"),
        R_X86_64_PLT32 => Some("R_X86_64_PLT32"),
        R_X86_64_COPY => Some("R_X86_64_COPY"),
        R_X86_64_GLOB_DAT => Some("R_X86_64_GLOB_DAT"),
        R_X86_64_JUMP_SLOT => Some("R_X86_64_JUMP_SLOT"),
        R_X86_64_RELATIVE => Some("R_X86_64_RELATIVE"),
        R_X86_64_GOTPCREL => Some("R_X86_64_GOTPCREL"),
        R_X86_64_32 => Some("R_X86_64_32"),
        R_X86_64_32S => Some("R_X86_64_32S"),
        R_X86_64_16 => Some("R_X86_64_16"),
        R_X86_64_PC16 => Some("R_X86_64_PC16"),
        R_X86_64_8 => Some("R_X86_64_8"),
        R_X86_64_PC8 => Some("R_X86_64_PC8"),
        R_X86_64_DTPMOD64 => Some("R_X86_64_DTPMOD64"),
        R_X86_64_DTPOFF64 => Some("R_X86_64_DTPOFF64"),
        R_X86_64_TPOFF64 => Some("R_X86_64_TPOFF64"),
        R_X86_64_TLSGD => Some("R_X86_64_TLSGD"),
        R_X86_64_TLSLD => Some("R_X86_64_TLSLD"),
        R_X86_64_DTPOFF32 => Some("R_X86_64_DTPOFF32"),
        R_X86_64_GOTTPOFF => Some("R_X86_64_GOTTPOFF"),
        R_X86_64_TPOFF32 => Some("R_X86_64_TPOFF32"),
        R_X86_64_PC64 => Some("R_X86_64_PC64"),
        R_X86_64_GOTOFF64 => Some("R_X86_64_GOTOFF64"),
        R_X86_64_GOTPC32 => Some("R_X86_64_GOTPC32"),
        R_X86_64_GOT64 => Some("R_X86_64_GOT64"),
        R_X86_64_GOTPCREL64 => Some("R_X86_64_GOTPCREL64"),
        R_X86_64_GOTPC64 => Some("R_X86_64_GOTPC64"),
        R_X86_64_GOTPLT64 => Some("R_X86_64_GOTPLT64"),
        R_X86_64_PLTOFF64 => Some("R_X86_64_PLTOFF64"),
        R_X86_64_SIZE32 => Some("R_X86_64_SIZE32"),
        R_X86_64_SIZE64 => Some("R_X86_64_SIZE64"),
        R_X86_64_GOTPC32_TLSDESC => Some("R_X86_64_GOTPC32_TLSDESC"),
        R_X86_64_TLSDESC_CALL => Some("R_X86_64_TLSDESC_CALL"),
        R_X86_64_TLSDESC => Some("R_X86_64_TLSDESC"),
        R_X86_64_IRELATIVE => Some("R_X86_64_IRELATIVE"),
        R_X86_64_RELATIVE64 => Some("R_X86_64_RELATIVE64"),
        R_X86_64_PC32_BND => Some("R_X86_64_PC32_BND"),
        R_X86_64_PLT32_BND => Some("R_X86_64_PLT32_BND"),
        R_X86_64_GOTPCRELX => Some("R_X86_64_GOTPCRELX"),
        R_X86_64_REX_GOTPCRELX => Some("R_X86_64_REX_GOTPCRELX"),
        R_X86_64_GNU_VTINHERIT => Some("R_X86_64_GNU_VTINHERIT"),
        R_X86_64_GNU_VTENTRY => Some("R_X86_64_GNU_VTENTRY"),
        _ => None,
    }
}

} // verus!
