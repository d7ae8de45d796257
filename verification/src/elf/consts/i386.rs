//! i386 relocation types.

use vstd::prelude::*;

verus! {

/// Relocation type `R_386_NONE`.
pub const R_386_NONE: u32 = 0;

/// Relocation type `R_386_32`.
pub const R_386_32: u32 = 1;

/// Relocation type `R_386_PC32`.
pub const R_386_PC32: u32 = 2;

/// Relocation type `R_386_GOT32`.
pub const R_386_GOT32: u32 = 3;

/// Relocation type `R_386_PLT32`.
pub const R_386_PLT32: u32 = 4;

/// Relocation type `R_386_COPY`.
pub const R_386_COPY: u32 = 5;

/// Relocation type `R_386_GLOB_DAT`.
pub const R_386_GLOB_DAT: u32 = 6;

/// Relocation type `R_386_JUMP_SLOT`.
pub const R_386_JUMP_SLOT: u32 = 7;

/// Relocation type `R_386_RELATIVE`.
pub const R_386_RELATIVE: u32 = 8;

/// Relocation type `R_386_GOTOFF`.
pub const R_386_GOTOFF: u32 = 9;

/// Relocation type `R_386_GOTPC`.
pub const R_386_GOTPC: u32 = 10;

/// Relocation type `R_386_32PLT`.
pub const R_386_32PLT: u32 = 11;

/// Relocation type `R_386_TLS_TPOFF`.
pub const R_386_TLS_TPOFF: u32 = 14;

/// Relocation type `R_386_TLS_IE`.
pub const R_386_TLS_IE: u32 = 15;

/// Relocation type `R_386_TLS_GOTIE`.
pub const R_386_TLS_GOTIE: u32 = 16;

/// Relocation type `R_386_TLS_LE`.
pub const R_386_TLS_LE: u32 = 17;

/// Relocation type `R_386_TLS_GD`.
pub const R_386_TLS_GD: u32 = 18;

/// Relocation type `R_386_TLS_LDM`.
pub const R_386_TLS_LDM: u32 = 19;

/// Relocation type `R_386_16`.
pub const R_386_16: u32 = 20;

/// Relocation type `R_386_PC16`.
pub const R_386_PC16: u32 = 21;

/// Relocation type `R_386_8`.
pub const R_386_8: u32 = 22;

/// Relocation type `R_386_PC8`.
pub const R_386_PC8: u32 = 23;

/// Relocation type `R_386_TLS_GD_32`.
pub const R_386_TLS_GD_32: u32 = 24;

/// Relocation type `R_386_TLS_GD_PUSH`.
pub const R_386_TLS_GD_PUSH: u32 = 25;

/// Relocation type `R_386_TLS_GD_CALL`.
pub const R_386_TLS_GD_CALL: u32 = 26;

/// Relocation type `R_386_TLS_GD_POP`.
pub const R_386_TLS_GD_POP: u32 = 27;

/// Relocation type `R_386_TLS_LDM_32`.
pub const R_386_TLS_LDM_32: u32 = 28;

/// Relocation type `R_386_TLS_LDM_PUSH`.
pub const R_386_TLS_LDM_PUSH: u32 = 29;

/// Relocation type `R_386_TLS_LDM_CALL`.
pub const R_386_TLS_LDM_CALL: u32 = 30;

/// Relocation type `R_386_TLS_LDM_POP`.
pub const R_386_TLS_LDM_POP: u32 = 31;

/// Relocation type `R_386_TLS_LDO_32`.
pub const R_386_TLS_LDO_32: u32 = 32;

/// Relocation type `R_386_TLS_IE_32`.
pub const R_386_TLS_IE_32: u32 = 33;

/// Relocation type `R_386_TLS_LE_32`.
pub const R_386_TLS_LE_32: u32 = 34;

/// Relocation type `R_386_TLS_DTPMOD32`.
pub const R_386_TLS_DTPMOD32: u32 = 35;

/// Relocation type `R_386_TLS_DTPOFF32`.
pub const R_386_TLS_DTPOFF32: u32 = 36;

/// Relocation type `R_386_TLS_TPOFF32`.
pub const R_386_TLS_TPOFF32: u32 = 37;

/// Relocation type `R_386_SIZE32`.
pub const R_386_SIZE32: u32 = 38;

/// Relocation type `R_386_TLS_GOTDESC`.
pub const R_386_TLS_GOTDESC: u32 = 39;

/// Relocation type `R_386_TLS_DESC_CALL`.
pub const R_386_TLS_DESC_CALL: u32 = 40;

/// Relocation type `R_386_TLS_DESC`.
pub const R_386_TLS_DESC: u32 = 41;

/// Relocation type `R_386_IRELATIVE`.
pub const R_386_IRELATIVE: u32 = 42;

/// Relocation type `R_386_GOT32X`.
pub const R_386_GOT32X: u32 = 43;

/// Relocation type `R_386_GNU_VTINHERIT`.
pub const R_386_GNU_VTINHERIT: u32 = 250;

/// Relocation type `R_386_GNU_VTENTRY`.
pub const R_386_GNU_VTENTRY: u32 = 251;

/// The name of i386 relocation type `r_type`, as `readelf` prints it.
#[verifier::allow_in_spec]
pub fn reloc_name(r_type: u32) -> Option<&'static str>
    returns
        (match r_type {
            R_386_NONE => Some("R_386_NONE"),
            R_386_32 => Some("R_386_32"),
            R_386_PC32 => Some("R_386_PC32"),
            R_386_GOT32 => Some("R_386_GOT32"),
            R_386_PLT32 => Some("R_386_PLT32"),
            R_386_COPY => Some("R_386_COPY"),
            R_386_GLOB_DAT => Some("R_386_GLOB_DAT"),
            R_386_JUMP_SLOT => Some("R_386_JUMP_SLOT"),
            R_386_RELATIVE => Some("R_386_RELATIVE"),
            R_386_GOTOFF => Some("R_386_GOTOFF"),
            R_386_GOTPC => Some("R_386_GOTPC"),
            R_386_32PLT => Some("R_386_32PLT"),
            R_386_TLS_TPOFF => Some("R_386_TLS_TPOFF"),
            R_386_TLS_IE => Some("R_386_TLS_IE"),
            R_386_TLS_GOTIE => Some("R_386_TLS_GOTIE"),
            R_386_TLS_LE => Some("R_386_TLS_LE"),
            R_386_TLS_GD => Some("R_386_TLS_GD"),
            R_386_TLS_LDM => Some("R_386_TLS_LDM"),
            R_386_16 => Some("R_386_16"),
            R_386_PC16 => Some("R_386_PC16"),
            R_386_8 => Some("R_386_8"),
            R_386_PC8 => Some("R_386_PC8"),
            R_386_TLS_GD_32 => Some("R_386_TLS_GD_32"),
            R_386_TLS_GD_PUSH => Some("R_386_TLS_GD_PUSH"),
            R_386_TLS_GD_CALL => Some("R_386_TLS_GD_CALL"),
            R_386_TLS_GD_POP => Some("R_386_TLS_GD_POP"),
            R_386_TLS_LDM_32 => Some("R_386_TLS_LDM_32"),
            R_386_TLS_LDM_PUSH => Some("R_386_TLS_LDM_PUSH"),
            R_386_TLS_LDM_CALL => Some("R_386_TLS_LDM_CALL"),
            R_386_TLS_LDM_POP => Some("R_386_TLS_LDM_POP"),
            R_386_TLS_LDO_32 => Some("R_386_TLS_LDO_32"),
            R_386_TLS_IE_32 => Some("R_386_TLS_IE_32"),
            R_386_TLS_LE_32 => Some("R_386_TLS_LE_32"),
            R_386_TLS_DTPMOD32 => Some("R_386_TLS_DTPMOD32"),
            R_386_TLS_DTPOFF32 => Some("R_386_TLS_DTPOFF32"),
            R_386_TLS_TPOFF32 => Some("R_386_TLS_TPOFF32"),
            R_386_SIZE32 => Some("R_386_SIZE32"),
            R_386_TLS_GOTDESC => Some("R_386_TLS_GOTDESC"),
            R_386_TLS_DESC_CALL => Some("R_386_TLS_DESC_CALL"),
            R_386_TLS_DESC => Some("R_386_TLS_DESC"),
            R_386_IRELATIVE => Some("R_386_IRELATIVE"),
            R_386_GOT32X => Some("R_386_GOT32X"),
            R_386_GNU_VTINHERIT => Some("R_386_GNU_VTINHERIT"),
            R_386_GNU_VTENTRY => Some("R_386_GNU_VTENTRY"),
            _ => None,
        }),
{
    match r_type {
        R_386_NONE => Some("R_386_NONE"),
        R_386_32 => Some("R_386_32"),
        R_386_PC32 => Some("R_386_PC32"),
        R_386_GOT32 => Some("R_386_GOT32"),
        R_386_PLT32 => Some("R_386_PLT32"),
        R_386_COPY => Some("R_386_COPY"),
        R_386_GLOB_DAT => Some("R_386_GLOB_DAT"),
        R_386_JUMP_SLOT => Some("R_386_JUMP_SLOT"),
        R_386_RELATIVE => Some("R_386_RELATIVE"),
        R_386_GOTOFF => Some("R_386_GOTOFF"),
        R_386_GOTPC => Some("R_386_GOTPC"),
        R_386_32PLT => Some("R_386_32PLT"),
        R_386_TLS_TPOFF => Some("R_386_TLS_TPOFF"),
        R_386_TLS_IE => Some("R_386_TLS_IE"),
        R_386_TLS_GOTIE => Some("R_386_TLS_GOTIE"),
        R_386_TLS_LE => Some("R_386_TLS_LE"),
        R_386_TLS_GD => Some("R_386_TLS_GD"),
        R_386_TLS_LDM => Some("R_386_TLS_LDM"),
        R_386_16 => Some("R_386_16"),
        R_386_PC16 => Some("R_386_PC16"),
        R_386_8 => Some("R_386_8"),
        R_386_PC8 => Some("R_386_PC8"),
        R_386_TLS_GD_32 => Some("R_386_TLS_GD_32"),
        R_386_TLS_GD_PUSH => Some("R_386_TLS_GD_PUSH"),
        R_386_TLS_GD_CALL => Some("R_386_TLS_GD_CALL"),
        R_386_TLS_GD_POP => Some("R_386_TLS_GD_POP"),
        R_386_TLS_LDM_32 => Some("R_386_TLS_LDM_32"),
        R_386_TLS_LDM_PUSH => Some("R_386_TLS_LDM_PUSH"),
        R_386_TLS_LDM_CALL => Some("R_386_TLS_LDM_CALL"),
        R_386_TLS_LDM_POP => Some("R_386_TLS_LDM_POP"),
        R_386_TLS_LDO_32 => Some("R_386_TLS_LDO_32"),
        R_386_TLS_IE_32 => Some("R_386_TLS_IE_32"),
        R_386_TLS_LE_32 => Some("R_386_TLS_LE_32"),
        R_386_TLS_DTPMOD32 => Some("R_386_TLS_DTPMOD32"),
        R_386_TLS_DTPOFF32 => Some("R_386_TLS_DTPOFF32"),
        R_386_TLS_TPOFF32 => Some("R_386_TLS_TPOFF32"),
        R_386_SIZE32 => Some("R_386_SIZE32"),
        R_386_TLS_GOTDESC => Some("R_386_TLS_GOTDESC"),
        R_386_TLS_DESC_CALL => Some("R_386_TLS_DESC_CALL"),
        R_386_TLS_DESC => Some("R_386_TLS_DESC"),
        R_386_IRELATIVE => Some("R_386_IRELATIVE"),
        R_386_GOT32X => Some("R_386_GOT32X"),
        R_386_GNU_VTINHERIT => Some("R_386_GNU_VTINHERIT"),
        R_386_GNU_VTENTRY => Some("R_386_GNU_VTENTRY"),
        _ => None,
    }
}

} // verus!
