//! RISC-V relocation types.

use vstd::prelude::*;

verus! {

/// Relocation type `R_RISCV_NONE`.
pub const R_RISCV_NONE: u32 = 0;

/// Relocation type `R_RISCV_32`.
pub const R_RISCV_32: u32 = 1;

/// Relocation type `R_RISCV_64`.
pub const R_RISCV_64: u32 = 2;

/// Relocation type `R_RISCV_RELATIVE`.
pub const R_RISCV_RELATIVE: u32 = 3;

/// Relocation type `R_RISCV_COPY`.
pub const R_RISCV_COPY: u32 = 4;

/// Relocation type `R_RISCV_JUMP_SLOT`.
pub const R_RISCV_JUMP_SLOT: u32 = 5;

/// Relocation type `R_RISCV_TLS_DTPMOD32`.
pub const R_RISCV_TLS_DTPMOD32: u32 = 6;

/// Relocation type `R_RISCV_TLS_DTPMOD64`.
pub const R_RISCV_TLS_DTPMOD64: u32 = 7;

/// Relocation type `R_RISCV_TLS_DTPREL32`.
pub const R_RISCV_TLS_DTPREL32: u32 = 8;

/// Relocation type `R_RISCV_TLS_DTPREL64`.
pub const R_RISCV_TLS_DTPREL64: u32 = 9;

/// Relocation type `R_RISCV_TLS_TPREL32`.
pub const R_RISCV_TLS_TPREL32: u32 = 10;

/// Relocation type `R_RISCV_TLS_TPREL64`.
pub const R_RISCV_TLS_TPREL64: u32 = 11;

/// Relocation type `R_RISCV_TLSDESC`.
pub const R_RISCV_TLSDESC: u32 = 12;

/// Relocation type `R_RISCV_BRANCH`.
pub const R_RISCV_BRANCH: u32 = 16;

/// Relocation type `R_RISCV_JAL`.
pub const R_RISCV_JAL: u32 = 17;

/// Relocation type `R_RISCV_CALL`.
pub const R_RISCV_CALL: u32 = 18;

/// Relocation type `R_RISCV_CALL_PLT`.
pub const R_RISCV_CALL_PLT: u32 = 19;

/// Relocation type `R_RISCV_GOT_HI20`.
pub const R_RISCV_GOT_HI20: u32 = 20;

/// Relocation type `R_RISCV_TLS_GOT_HI20`.
pub const R_RISCV_TLS_GOT_HI20: u32 = 21;

/// Relocation type `R_RISCV_TLS_GD_HI20`.
pub const R_RISCV_TLS_GD_HI20: u32 = 22;

/// Relocation type `R_RISCV_PCREL_HI20`.
pub const R_RISCV_PCREL_HI20: u32 = 23;

/// Relocation type `R_RISCV_PCREL_LO12_I`.
pub const R_RISCV_PCREL_LO12_I: u32 = 24;

/// Relocation type `R_RISCV_PCREL_LO12_S`.
pub const R_RISCV_PCREL_LO12_S: u32 = 25;

/// Relocation type `R_RISCV_HI20`.
pub const R_RISCV_HI20: u32 = 26;

/// Relocation type `R_RISCV_LO12_I`.
pub const R_RISCV_LO12_I: u32 = 27;

/// Relocation type `R_RISCV_LO12_S`.
pub const R_RISCV_LO12_S: u32 = 28;

/// Relocation type `R_RISCV_TPREL_HI20`.
pub const R_RISCV_TPREL_HI20: u32 = 29;

/// Relocation type `R_RISCV_TPREL_LO12_I`.
pub const R_RISCV_TPREL_LO12_I: u32 = 30;

/// Relocation type `R_RISCV_TPREL_LO12_S`.
pub const R_RISCV_TPREL_LO12_S: u32 = 31;

/// Relocation type `R_RISCV_TPREL_ADD`.
pub const R_RISCV_TPREL_ADD: u32 = 32;

/// Relocation type `R_RISCV_ADD8`.
pub const R_RISCV_ADD8: u32 = 33;

/// Relocation type `R_RISCV_ADD16`.
pub const R_RISCV_ADD16: u32 = 34;

/// Relocation type `R_RISCV_ADD32`.
pub const R_RISCV_ADD32: u32 = 35;

/// Relocation type `R_RISCV_ADD64`.
pub const R_RISCV_ADD64: u32 = 36;

/// Relocation type `R_RISCV_SUB8`.
pub const R_RISCV_SUB8: u32 = 37;

/// Relocation type `R_RISCV_SUB16`.
pub const R_RISCV_SUB16: u32 = 38;

/// Relocation type `R_RISCV_SUB32`.
pub const R_RISCV_SUB32: u32 = 39;

/// Relocation type `R_RISCV_SUB64`.
pub const R_RISCV_SUB64: u32 = 40;

/// Relocation type `R_RISCV_GOT32_PCREL`.
pub const R_RISCV_GOT32_PCREL: u32 = 41;

/// Relocation type `R_RISCV_ALIGN`.
pub const R_RISCV_ALIGN: u32 = 43;

/// Relocation type `R_RISCV_RVC_BRANCH`.
pub const R_RISCV_RVC_BRANCH: u32 = 44;

/// Relocation type `R_RISCV_RVC_JUMP`.
pub const R_RISCV_RVC_JUMP: u32 = 45;

/// Relocation type `R_RISCV_RVC_LUI`.
pub const R_RISCV_RVC_LUI: u32 = 46;

/// Relocation type `R_RISCV_GPREL_I`.
pub const R_RISCV_GPREL_I: u32 = 47;

/// Relocation type `R_RISCV_GPREL_S`.
pub const R_RISCV_GPREL_S: u32 = 48;

/// Relocation type `R_RISCV_TPREL_I`.
pub const R_RISCV_TPREL_I: u32 = 49;

/// Relocation type `R_RISCV_TPREL_S`.
pub const R_RISCV_TPREL_S: u32 = 50;

/// Relocation type `R_RISCV_RELAX`.
pub const R_RISCV_RELAX: u32 = 51;

/// Relocation type `R_RISCV_SUB6`.
pub const R_RISCV_SUB6: u32 = 52;

/// Relocation type `R_RISCV_SET6`.
pub const R_RISCV_SET6: u32 = 53;

/// Relocation type `R_RISCV_SET8`.
pub const R_RISCV_SET8: u32 = 54;

/// Relocation type `R_RISCV_SET16`.
pub const R_RISCV_SET16: u32 = 55;

/// Relocation type `R_RISCV_SET32`.
pub const R_RISCV_SET32: u32 = 56;

/// Relocation type `R_RISCV_32_PCREL`.
pub const R_RISCV_32_PCREL: u32 = 57;

/// Relocation type `R_RISCV_IRELATIVE`.
pub const R_RISCV_IRELATIVE: u32 = 58;

/// Relocation type `R_RISCV_PLT32`.
pub const R_RISCV_PLT32: u32 = 59;

/// Relocation type `R_RISCV_SET_ULEB128`.
pub const R_RISCV_SET_ULEB128: u32 = 60;

/// Relocation type `R_RISCV_SUB_ULEB128`.
pub const R_RISCV_SUB_ULEB128: u32 = 61;

/// Relocation type `R_RISCV_TLSDESC_HI20`.
pub const R_RISCV_TLSDESC_HI20: u32 = 62;

/// Relocation type `R_RISCV_TLSDESC_LOAD_LO12`.
pub const R_RISCV_TLSDESC_LOAD_LO12: u32 = 63;

/// Relocation type `R_RISCV_TLSDESC_ADD_LO12`.
pub const R_RISCV_TLSDESC_ADD_LO12: u32 = 64;

/// Relocation type `R_RISCV_TLSDESC_CALL`.
pub const R_RISCV_TLSDESC_CALL: u32 = 65;

/// Relocation type `R_RISCV_VENDOR`.
pub const R_RISCV_VENDOR: u32 = 191;

/// The name of RISC-V relocation type `r_type`, as `readelf` prints it.
#[verifier::allow_in_spec]
pub fn reloc_name(r_type: u32) -> Option<&'static str>
    returns
        (match r_type {
            R_RISCV_NONE => Some("R_RISCV_NONE"),
            R_RISCV_32 => Some("R_RISCV_32"),
            R_RISCV_64 => Some("R_RISCV_64"),
            R_RISCV_RELATIVE => Some("R_RISCV_RELATIVE"),
            R_RISCV_COPY => Some("R_RISCV_COPY"),
            R_RISCV_JUMP_SLOT => Some("R_RISCV_JUMP_SLOT"),
            R_RISCV_TLS_DTPMOD32 => Some("R_RISCV_TLS_DTPMOD32"),
            R_RISCV_TLS_DTPMOD64 => Some("R_RISCV_TLS_DTPMOD64"),
            R_RISCV_TLS_DTPREL32 => Some("R_RISCV_TLS_DTPREL32"),
            R_RISCV_TLS_DTPREL64 => Some("R_RISCV_TLS_DTPREL64"),
            R_RISCV_TLS_TPREL32 => Some("R_RISCV_TLS_TPREL32"),
            R_RISCV_TLS_TPREL64 => Some("R_RISCV_TLS_TPREL64"),
            R_RISCV_TLSDESC => Some("R_RISCV_TLSDESC"),
            R_RISCV_BRANCH => Some("R_RISCV_BRANCH"),
            R_RISCV_JAL => Some("R_RISCV_JAL"),
            R_RISCV_CALL => Some("R_RISCV_CALL"),
            R_RISCV_CALL_PLT => Some("R_RISCV_CALL_PLT"),
            R_RISCV_GOT_HI20 => Some("R_RISCV_GOT_HI20"),
            R_RISCV_TLS_GOT_HI20 => Some("R_RISCV_TLS_GOT_HI20"),
            R_RISCV_TLS_GD_HI20 => Some("R_RISCV_TLS_GD_HI20"),
            R_RISCV_PCREL_HI20 => Some("R_RISCV_PCREL_HI20"),
            R_RISCV_PCREL_LO12_I => Some("R_RISCV_PCREL_LO12_I"),
            R_RISCV_PCREL_LO12_S => Some("R_RISCV_PCREL_LO12_S"),
            R_RISCV_HI20 => Some("R_RISCV_HI20"),
            R_RISCV_LO12_I => Some("R_RISCV_LO12_I"),
            R_RISCV_LO12_S => Some("R_RISCV_LO12_S"),
            R_RISCV_TPREL_HI20 => Some("R_RISCV_TPREL_HI20"),
            R_RISCV_TPREL_LO12_I => Some("R_RISCV_TPREL_LO12_I"),
            R_RISCV_TPREL_LO12_S => Some("R_RISCV_TPREL_LO12_S"),
            R_RISCV_TPREL_ADD => Some("R_RISCV_TPREL_ADD"),
            R_RISCV_ADD8 => Some("R_RISCV_ADD8"),
            R_RISCV_ADD16 => Some("R_RISCV_ADD16"),
            R_RISCV_ADD32 => Some("R_RISCV_ADD32"),
            R_RISCV_ADD64 => Some("R_RISCV_ADD64"),
            R_RISCV_SUB8 => Some("R_RISCV_SUB8"),
            R_RISCV_SUB16 => Some("R_RISCV_SUB16"),
            R_RISCV_SUB32 => Some("R_RISCV_SUB32"),
            R_RISCV_SUB64 => Some("R_RISCV_SUB64"),
            R_RISCV_GOT32_PCREL => Some("R_RISCV_GOT32_PCREL"),
            R_RISCV_ALIGN => Some("R_RISCV_ALIGN"),
            R_RISCV_RVC_BRANCH => Some("R_RISCV_RVC_BRANCH"),
            R_RISCV_RVC_JUMP => Some("R_RISCV_RVC_JUMP"),
            R_RISCV_RVC_LUI => Some("R_RISCV_RVC_LUI"),
            R_RISCV_GPREL_I => Some("R_RISCV_GPREL_I"),
            R_RISCV_GPREL_S => Some("R_RISCV_GPREL_S"),
            R_RISCV_TPREL_I => Some("R_RISCV_TPREL_I"),
            R_RISCV_TPREL_S => Some("R_RISCV_TPREL_S"),
            R_RISCV_RELAX => Some("R_RISCV_RELAX"),
            R_RISCV_SUB6 => Some("R_RISCV_SUB6"),
            R_RISCV_SET6 => Some("R_RISCV_SET6"),
            R_RISCV_SET8 => Some("R_RISCV_SET8"),
            R_RISCV_SET16 => Some("R_RISCV_SET16"),
            R_RISCV_SET32 => Some("R_RISCV_SET32"),
            R_RISCV_32_PCREL => Some("R_RISCV_32_PCREL"),
            R_RISCV_IRELATIVE => Some("R_RISCV_IRELATIVE"),
            R_RISCV_PLT32 => Some("R_RISCV_PLT32"),
            R_RISCV_SET_ULEB128 => Some("R_RISCV_SET_ULEB128"),
            R_RISCV_SUB_ULEB128 => Some("R_RISCV_SUB_ULEB128"),
            R_RISCV_TLSDESC_HI20 => Some("R_RISCV_TLSDESC_HI20"),
            R_RISCV_TLSDESC_LOAD_LO12 => Some("R_RISCV_TLSDESC_LOAD_LO12"),
            R_RISCV_TLSDESC_ADD_LO12 => Some("R_RISCV_TLSDESC_ADD_LO12"),
            R_RISCV_TLSDESC_CALL => Some("R_RISCV_TLSDESC_CALL"),
            R_RISCV_VENDOR => Some("R_RISCV_VENDOR"),
            _ => None,
        }),
{
    match r_type {
        R_RISCV_NONE => Some("R_RISCV_NONE"),
        R_RISCV_32 => Some("R_RISCV_32"),
        R_RISCV_64 => Some("R_RISCV_64"),
        R_RISCV_RELATIVE => Some("R_RISCV_RELATIVE"),
        R_RISCV_COPY => Some("R_RISCV_COPY"),
        R_RISCV_JUMP_SLOT => Some("R_RISCV_JUMP_SLOT"),
        R_RISCV_TLS_DTPMOD32 => Some("R_RISCV_TLS_DTPMOD32"),
        R_RISCV_TLS_DTPMOD64 => Some("R_RISCV_TLS_DTPMOD64"),
        R_RISCV_TLS_DTPREL32 => Some("R_RISCV_TLS_DTPREL32"),
        R_RISCV_TLS_DTPREL64 => Some("R_RISCV_TLS_DTPREL64"),
        R_RISCV_TLS_TPREL32 => Some("R_RISCV_TLS_TPREL32"),
        R_RISCV_TLS_TPREL64 => Some("R_RISCV_TLS_TPREL64"),
        R_RISCV_TLSDESC => Some("R_RISCV_TLSDESC"),
        R_RISCV_BRANCH => Some("R_RISCV_BRANCH"),
        R_RISCV_JAL => Some("R_RISCV_JAL"),
        R_RISCV_CALL => Some("R_RISCV_CALL"),
        R_RISCV_CALL_PLT => Some("R_RISCV_CALL_PLT"),
        R_RISCV_GOT_HI20 => Some("R_RISCV_GOT_HI20"),
        R_RISCV_TLS_GOT_HI20 => Some("R_RISCV_TLS_GOT_HI20"),
        R_RISCV_TLS_GD_HI20 => Some("R_RISCV_TLS_GD_HI20"),
        R_RISCV_PCREL_HI20 => Some("R_RISCV_PCREL_HI20"),
        R_RISCV_PCREL_LO12_I => Some("R_RISCV_PCREL_LO12_I"),
        R_RISCV_PCREL_LO12_S => Some("R_RISCV_PCREL_LO12_S"),
        R_RISCV_HI20 => Some("R_RISCV_HI20"),
        R_RISCV_LO12_I => Some("R_RISCV_LO12_I"),
        R_RISCV_LO12_S => Some("R_RISCV_LO12_S"),
        R_RISCV_TPREL_HI20 => Some("R_RISCV_TPREL_HI20"),
        R_RISCV_TPREL_LO12_I => Some("R_RISCV_TPREL_LO12_I"),
        R_RISCV_TPREL_LO12_S => Some("R_RISCV_TPREL_LO12_S"),
        R_RISCV_TPREL_ADD => Some("R_RISCV_TPREL_ADD"),
        R_RISCV_ADD8 => Some("R_RISCV_ADD8"),
        R_RISCV_ADD16 => Some("R_RISCV_ADD16"),
        R_RISCV_ADD32 => Some("R_RISCV_ADD32"),
        R_RISCV_ADD64 => Some("R_RISCV_ADD64"),
        R_RISCV_SUB8 => Some("R_RISCV_SUB8"),
        R_RISCV_SUB16 => Some("R_RISCV_SUB16"),
        R_RISCV_SUB32 => Some("R_RISCV_SUB32"),
        R_RISCV_SUB64 => Some("R_RISCV_SUB64"),
        R_RISCV_GOT32_PCREL => Some("R_RISCV_GOT32_PCREL"),
        R_RISCV_ALIGN => Some("R_RISCV_ALIGN"),
        R_RISCV_RVC_BRANCH => Some("R_RISCV_RVC_BRANCH"),
        R_RISCV_RVC_JUMP => Some("R_RISCV_RVC_JUMP"),
        R_RISCV_RVC_LUI => Some("R_RISCV_RVC_LUI"),
        R_RISCV_GPREL_I => Some("R_RISCV_GPREL_I"),
        R_RISCV_GPREL_S => Some("R_RISCV_GPREL_S"),
        R_RISCV_TPREL_I => Some("R_RISCV_TPREL_I"),
        R_RISCV_TPREL_S => Some("R_RISCV_TPREL_S"),
        R_RISCV_RELAX => Some("R_RISCV_RELAX"),
        R_RISCV_SUB6 => Some("R_RISCV_SUB6"),
        R_RISCV_SET6 => Some("R_RISCV_SET6"),
        R_RISCV_SET8 => Some("R_RISCV_SET8"),
        R_RISCV_SET16 => Some("R_RISCV_SET16"),
        R_RISCV_SET32 => Some("R_RISCV_SET32"),
        R_RISCV_32_PCREL => Some("R_RISCV_32_PCREL"),
        R_RISCV_IRELATIVE => Some("R_RISCV_IRELATIVE"),
        R_RISCV_PLT32 => Some("R_RISCV_PLT32"),
        R_RISCV_SET_ULEB128 => Some("R_RISCV_SET_ULEB128"),
        R_RISCV_SUB_ULEB128 => Some("R_RISCV_SUB_ULEB128"),
        R_RISCV_TLSDESC_HI20 => Some("R_RISCV_TLSDESC_HI20"),
        R_RISCV_TLSDESC_LOAD_LO12 => Some("R_RISCV_TLSDESC_LOAD_LO12"),
        R_RISCV_TLSDESC_ADD_LO12 => Some("R_RISCV_TLSDESC_ADD_LO12"),
        R_RISCV_TLSDESC_CALL => Some("R_RISCV_TLSDESC_CALL"),
        R_RISCV_VENDOR => Some("R_RISCV_VENDOR"),
        _ => None,
    }
}

} // verus!
