//! PowerPC64 relocation types.

use vstd::prelude::*;

verus! {

/// Relocation type `R_PPC64_NONE`.
pub const R_PPC64_NONE: u32 = 0;

/// Relocation type `R_PPC64_ADDR32`.
pub const R_PPC64_ADDR32: u32 = 1;

/// Relocation type `R_PPC64_ADDR24`.
pub const R_PPC64_ADDR24: u32 = 2;

/// Relocation type `R_PPC64_ADDR16`.
pub const R_PPC64_ADDR16: u32 = 3;

/// Relocation type `R_PPC64_ADDR16_LO`.
pub const R_PPC64_ADDR16_LO: u32 = 4;

/// Relocation type `R_PPC64_ADDR16_HI`.
pub const R_PPC64_ADDR16_HI: u32 = 5;

/// Relocation type `R_PPC64_ADDR16_HA`.
pub const R_PPC64_ADDR16_HA: u32 = 6;

/// Relocation type `R_PPC64_ADDR14`.
pub const R_PPC64_ADDR14: u32 = 7;

/// Relocation type `R_PPC64_ADDR14_BRTAKEN`.
pub const R_PPC64_ADDR14_BRTAKEN: u32 = 8;

/// Relocation type `R_PPC64_ADDR14_BRNTAKEN`.
pub const R_PPC64_ADDR14_BRNTAKEN: u32 = 9;

/// Relocation type `R_PPC64_REL24`.
pub const R_PPC64_REL24: u32 = 10;

/// Relocation type `R_PPC64_REL14`.
pub const R_PPC64_REL14: u32 = 11;

/// Relocation type `R_PPC64_REL14_BRTAKEN`.
pub const R_PPC64_REL14_BRTAKEN: u32 = 12;

/// Relocation type `R_PPC64_REL14_BRNTAKEN`.
pub const R_PPC64_REL14_BRNTAKEN: u32 = 13;

/// Relocation type `R_PPC64_GOT16`.
pub const R_PPC64_GOT16: u32 = 14;

/// Relocation type `R_PPC64_GOT16_LO`.
pub const R_PPC64_GOT16_LO: u32 = 15;

/// Relocation type `R_PPC64_GOT16_HI`.
pub const R_PPC64_GOT16_HI: u32 = 16;

/// Relocation type `R_PPC64_GOT16_HA`.
pub const R_PPC64_GOT16_HA: u32 = 17;

/// Relocation type `R_PPC64_COPY`.
pub const R_PPC64_COPY: u32 = 19;

/// Relocation type `R_PPC64_GLOB_DAT`.
pub const R_PPC64_GLOB_DAT: u32 = 20;

/// Relocation type `R_PPC64_JMP_SLOT`.
pub const R_PPC64_JMP_SLOT: u32 = 21;

/// Relocation type `R_PPC64_RELATIVE`.
pub const R_PPC64_RELATIVE: u32 = 22;

/// Relocation type `R_PPC64_UADDR32`.
pub const R_PPC64_UADDR32: u32 = 24;

/// Relocation type `R_PPC64_UADDR16`.
pub const R_PPC64_UADDR16: u32 = 25;

/// Relocation type `R_PPC64_REL32`.
pub const R_PPC64_REL32: u32 = 26;

/// Relocation type `R_PPC64_PLT32`.
pub const R_PPC64_PLT32: u32 = 27;

/// Relocation type `R_PPC64_PLTREL32`.
pub const R_PPC64_PLTREL32: u32 = 28;

/// Relocation type `R_PPC64_PLT16_LO`.
pub const R_PPC64_PLT16_LO: u32 = 29;

/// Relocation type `R_PPC64_PLT16_HI`.
pub const R_PPC64_PLT16_HI: u32 = 30;

/// Relocation type `R_PPC64_PLT16_HA`.
pub const R_PPC64_PLT16_HA: u32 = 31;

/// Relocation type `R_PPC64_SECTOFF`.
pub const R_PPC64_SECTOFF: u32 = 33;

/// Relocation type `R_PPC64_SECTOFF_LO`.
pub const R_PPC64_SECTOFF_LO: u32 = 34;

/// Relocation type `R_PPC64_SECTOFF_HI`.
pub const R_PPC64_SECTOFF_HI: u32 = 35;

/// Relocation type `R_PPC64_SECTOFF_HA`.
pub const R_PPC64_SECTOFF_HA: u32 = 36;

/// Relocation type `R_PPC64_REL30`.
pub const R_PPC64_REL30: u32 = 37;

/// Relocation type `R_PPC64_ADDR64`.
pub const R_PPC64_ADDR64: u32 = 38;

/// Relocation type `R_PPC64_ADDR16_HIGHER`.
pub const R_PPC64_ADDR16_HIGHER: u32 = 39;

/// Relocation type `R_PPC64_ADDR16_HIGHERA`.
pub const R_PPC64_ADDR16_HIGHERA: u32 = 40;

/// Relocation type `R_PPC64_ADDR16_HIGHEST`.
pub const R_PPC64_ADDR16_HIGHEST: u32 = 41;

/// Relocation type `R_PPC64_ADDR16_HIGHESTA`.
pub const R_PPC64_ADDR16_HIGHESTA: u32 = 42;

/// Relocation type `R_PPC64_UADDR64`.
pub const R_PPC64_UADDR64: u32 = 43;

/// Relocation type `R_PPC64_REL64`.
pub const R_PPC64_REL64: u32 = 44;

/// Relocation type `R_PPC64_PLT64`.
pub const R_PPC64_PLT64: u32 = 45;

/// Relocation type `R_PPC64_PLTREL64`.
pub const R_PPC64_PLTREL64: u32 = 46;

/// Relocation type `R_PPC64_TOC16`.
pub const R_PPC64_TOC16: u32 = 47;

/// Relocation type `R_PPC64_TOC16_LO`.
pub const R_PPC64_TOC16_LO: u32 = 48;

/// Relocation type `R_PPC64_TOC16_HI`.
pub const R_PPC64_TOC16_HI: u32 = 49;

/// Relocation type `R_PPC64_TOC16_HA`.
pub const R_PPC64_TOC16_HA: u32 = 50;

/// Relocation type `R_PPC64_TOC`.
pub const R_PPC64_TOC: u32 = 51;

/// Relocation type `R_PPC64_PLTGOT16`.
pub const R_PPC64_PLTGOT16: u32 = 52;

/// Relocation type `R_PPC64_PLTGOT16_LO`.
pub const R_PPC64_PLTGOT16_LO: u32 = 53;

/// Relocation type `R_PPC64_PLTGOT16_HI`.
pub const R_PPC64_PLTGOT16_HI: u32 = 54;

/// Relocation type `R_PPC64_PLTGOT16_HA`.
pub const R_PPC64_PLTGOT16_HA: u32 = 55;

/// Relocation type `R_PPC64_ADDR16_DS`.
pub const R_PPC64_ADDR16_DS: u32 = 56;

/// Relocation type `R_PPC64_ADDR16_LO_DS`.
pub const R_PPC64_ADDR16_LO_DS: u32 = 57;

/// Relocation type `R_PPC64_GOT16_DS`.
pub const R_PPC64_GOT16_DS: u32 = 58;

/// Relocation type `R_PPC64_GOT16_LO_DS`.
pub const R_PPC64_GOT16_LO_DS: u32 = 59;

/// Relocation type `R_PPC64_PLT16_LO_DS`.
pub const R_PPC64_PLT16_LO_DS: u32 = 60;

/// Relocation type `R_PPC64_SECTOFF_DS`.
pub const R_PPC64_SECTOFF_DS: u32 = 61;

/// Relocation type `R_PPC64_SECTOFF_LO_DS`.
pub const R_PPC64_SECTOFF_LO_DS: u32 = 62;

/// Relocation type `R_PPC64_TOC16_DS`.
pub const R_PPC64_TOC16_DS: u32 = 63;

/// Relocation type `R_PPC64_TOC16_LO_DS`.
pub const R_PPC64_TOC16_LO_DS: u32 = 64;

/// Relocation type `R_PPC64_PLTGOT16_DS`.
pub const R_PPC64_PLTGOT16_DS: u32 = 65;

/// Relocation type `R_PPC64_PLTGOT16_LO_DS`.
pub const R_PPC64_PLTGOT16_LO_DS: u32 = 66;

/// Relocation type `R_PPC64_TLS`.
pub const R_PPC64_TLS: u32 = 67;

/// Relocation type `R_PPC64_DTPMOD64`.
pub const R_PPC64_DTPMOD64: u32 = 68;

/// Relocation type `R_PPC64_TPREL16`.
pub const R_PPC64_TPREL16: u32 = 69;

/// Relocation type `R_PPC64_TPREL16_LO`.
pub const R_PPC64_TPREL16_LO: u32 = 70;

/// Relocation type `R_PPC64_TPREL16_HI`.
pub const R_PPC64_TPREL16_HI: u32 = 71;

/// Relocation type `R_PPC64_TPREL16_HA`.
pub const R_PPC64_TPREL16_HA: u32 = 72;

/// Relocation type `R_PPC64_TPREL64`.
pub const R_PPC64_TPREL64: u32 = 73;

/// Relocation type `R_PPC64_DTPREL16`.
pub const R_PPC64_DTPREL16: u32 = 74;

/// Relocation type `R_PPC64_DTPREL16_LO`.
pub const R_PPC64_DTPREL16_LO: u32 = 75;

/// Relocation type `R_PPC64_DTPREL16_HI`.
pub const R_PPC64_DTPREL16_HI: u32 = 76;

/// Relocation type `R_PPC64_DTPREL16_HA`.
pub const R_PPC64_DTPREL16_HA: u32 = 77;

/// Relocation type `R_PPC64_DTPREL64`.
pub const R_PPC64_DTPREL64: u32 = 78;

/// Relocation type `R_PPC64_GOT_TLSGD16`.
pub const R_PPC64_GOT_TLSGD16: u32 = 79;

/// Relocation type `R_PPC64_GOT_TLSGD16_LO`.
pub const R_PPC64_GOT_TLSGD16_LO: u32 = 80;

/// Relocation type `R_PPC64_GOT_TLSGD16_HI`.
pub const R_PPC64_GOT_TLSGD16_HI: u32 = 81;

/// Relocation type `R_PPC64_GOT_TLSGD16_HA`.
pub const R_PPC64_GOT_TLSGD16_HA: u32 = 82;

/// Relocation type `R_PPC64_GOT_TLSLD16`.
pub const R_PPC64_GOT_TLSLD16: u32 = 83;

/// Relocation type `R_PPC64_GOT_TLSLD16_LO`.
pub const R_PPC64_GOT_TLSLD16_LO: u32 = 84;

/// Relocation type `R_PPC64_GOT_TLSLD16_HI`.
pub const R_PPC64_GOT_TLSLD16_HI: u32 = 85;

/// Relocation type `R_PPC64_GOT_TLSLD16_HA`.
pub const R_PPC64_GOT_TLSLD16_HA: u32 = 86;

/// Relocation type `R_PPC64_GOT_TPREL16_DS`.
pub const R_PPC64_GOT_TPREL16_DS: u32 = 87;

/// Relocation type `R_PPC64_GOT_TPREL16_LO_DS`.
pub const R_PPC64_GOT_TPREL16_LO_DS: u32 = 88;

/// Relocation type `R_PPC64_GOT_TPREL16_HI`.
pub const R_PPC64_GOT_TPREL16_HI: u32 = 89;

/// Relocation type `R_PPC64_GOT_TPREL16_HA`.
pub const R_PPC64_GOT_TPREL16_HA: u32 = 90;

/// Relocation type `R_PPC64_GOT_DTPREL16_DS`.
pub const R_PPC64_GOT_DTPREL16_DS: u32 = 91;

/// Relocation type `R_PPC64_GOT_DTPREL16_LO_DS`.
pub const R_PPC64_GOT_DTPREL16_LO_DS: u32 = 92;

/// Relocation type `R_PPC64_GOT_DTPREL16_HI`.
pub const R_PPC64_GOT_DTPREL16_HI: u32 = 93;

/// Relocation type `R_PPC64_GOT_DTPREL16_HA`.
pub const R_PPC64_GOT_DTPREL16_HA: u32 = 94;

/// Relocation type `R_PPC64_TPREL16_DS`.
pub const R_PPC64_TPREL16_DS: u32 = 95;

/// Relocation type `R_PPC64_TPREL16_LO_DS`.
pub const R_PPC64_TPREL16_LO_DS: u32 = 96;

/// Relocation type `R_PPC64_TPREL16_HIGHER`.
pub const R_PPC64_TPREL16_HIGHER: u32 = 97;

/// Relocation type `R_PPC64_TPREL16_HIGHERA`.
pub const R_PPC64_TPREL16_HIGHERA: u32 = 98;

/// Relocation type `R_PPC64_TPREL16_HIGHEST`.
pub const R_PPC64_TPREL16_HIGHEST: u32 = 99;

/// Relocation type `R_PPC64_TPREL16_HIGHESTA`.
pub const R_PPC64_TPREL16_HIGHESTA: u32 = 100;

/// Relocation type `R_PPC64_DTPREL16_DS`.
pub const R_PPC64_DTPREL16_DS: u32 = 101;

/// Relocation type `R_PPC64_DTPREL16_LO_DS`.
pub const R_PPC64_DTPREL16_LO_DS: u32 = 102;

/// Relocation type `R_PPC64_DTPREL16_HIGHER`.
pub const R_PPC64_DTPREL16_HIGHER: u32 = 103;

/// Relocation type `R_PPC64_DTPREL16_HIGHERA`.
pub const R_PPC64_DTPREL16_HIGHERA: u32 = 104;

/// Relocation type `R_PPC64_DTPREL16_HIGHEST`.
pub const R_PPC64_DTPREL16_HIGHEST: u32 = 105;

/// Relocation type `R_PPC64_DTPREL16_HIGHESTA`.
pub const R_PPC64_DTPREL16_HIGHESTA: u32 = 106;

/// Relocation type `R_PPC64_TLSGD`.
pub const R_PPC64_TLSGD: u32 = 107;

/// Relocation type `R_PPC64_TLSLD`.
pub const R_PPC64_TLSLD: u32 = 108;

/// Relocation type `R_PPC64_TOCSAVE`.
pub const R_PPC64_TOCSAVE: u32 = 109;

/// Relocation type `R_PPC64_ADDR16_HIGH`.
pub const R_PPC64_ADDR16_HIGH: u32 = 110;

/// Relocation type `R_PPC64_ADDR16_HIGHA`.
pub const R_PPC64_ADDR16_HIGHA: u32 = 111;

/// Relocation type `R_PPC64_TPREL16_HIGH`.
pub const R_PPC64_TPREL16_HIGH: u32 = 112;

/// Relocation type `R_PPC64_TPREL16_HIGHA`.
pub const R_PPC64_TPREL16_HIGHA: u32 = 113;

/// Relocation type `R_PPC64_DTPREL16_HIGH`.
pub const R_PPC64_DTPREL16_HIGH: u32 = 114;

/// Relocation type `R_PPC64_DTPREL16_HIGHA`.
pub const R_PPC64_DTPREL16_HIGHA: u32 = 115;

/// Relocation type `R_PPC64_REL24_NOTOC`.
pub const R_PPC64_REL24_NOTOC: u32 = 116;

/// Relocation type `R_PPC64_ADDR64_LOCAL`.
pub const R_PPC64_ADDR64_LOCAL: u32 = 117;

/// Relocation type `R_PPC64_ENTRY`.
pub const R_PPC64_ENTRY: u32 = 118;

/// Relocation type `R_PPC64_PLTSEQ`.
pub const R_PPC64_PLTSEQ: u32 = 119;

/// Relocation type `R_PPC64_PLTCALL`.
pub const R_PPC64_PLTCALL: u32 = 120;

/// Relocation type `R_PPC64_PLTSEQ_NOTOC`.
pub const R_PPC64_PLTSEQ_NOTOC: u32 = 121;

/// Relocation type `R_PPC64_PLTCALL_NOTOC`.
pub const R_PPC64_PLTCALL_NOTOC: u32 = 122;

/// Relocation type `R_PPC64_PCREL_OPT`.
pub const R_PPC64_PCREL_OPT: u32 = 123;

/// Relocation type `R_PPC64_REL24_P9NOTOC`.
pub const R_PPC64_REL24_P9NOTOC: u32 = 124;

/// Relocation type `R_PPC64_D34`.
pub const R_PPC64_D34: u32 = 128;

/// Relocation type `R_PPC64_D34_LO`.
pub const R_PPC64_D34_LO: u32 = 129;

/// Relocation type `R_PPC64_D34_HI30`.
pub const R_PPC64_D34_HI30: u32 = 130;

/// Relocation type `R_PPC64_D34_HA30`.
pub const R_PPC64_D34_HA30: u32 = 131;

/// Relocation type `R_PPC64_PCREL34`.
pub const R_PPC64_PCREL34: u32 = 132;

/// Relocation type `R_PPC64_GOT_PCREL34`.
pub const R_PPC64_GOT_PCREL34: u32 = 133;

/// Relocation type `R_PPC64_PLT_PCREL34`.
pub const R_PPC64_PLT_PCREL34: u32 = 134;

/// Relocation type `R_PPC64_PLT_PCREL34_NOTOC`.
pub const R_PPC64_PLT_PCREL34_NOTOC: u32 = 135;

/// Relocation type `R_PPC64_ADDR16_HIGHER34`.
pub const R_PPC64_ADDR16_HIGHER34: u32 = 136;

/// Relocation type `R_PPC64_ADDR16_HIGHERA34`.
pub const R_PPC64_ADDR16_HIGHERA34: u32 = 137;

/// Relocation type `R_PPC64_ADDR16_HIGHEST34`.
pub const R_PPC64_ADDR16_HIGHEST34: u32 = 138;

/// Relocation type `R_PPC64_ADDR16_HIGHESTA34`.
pub const R_PPC64_ADDR16_HIGHESTA34: u32 = 139;

/// Relocation type `R_PPC64_REL16_HIGHER34`.
pub const R_PPC64_REL16_HIGHER34: u32 = 140;

/// Relocation type `R_PPC64_REL16_HIGHERA34`.
pub const R_PPC64_REL16_HIGHERA34: u32 = 141;

/// Relocation type `R_PPC64_REL16_HIGHEST34`.
pub const R_PPC64_REL16_HIGHEST34: u32 = 142;

/// Relocation type `R_PPC64_REL16_HIGHESTA34`.
pub const R_PPC64_REL16_HIGHESTA34: u32 = 143;

/// Relocation type `R_PPC64_D28`.
pub const R_PPC64_D28: u32 = 144;

/// Relocation type `R_PPC64_PCREL28`.
pub const R_PPC64_PCREL28: u32 = 145;

/// Relocation type `R_PPC64_TPREL34`.
pub const R_PPC64_TPREL34: u32 = 146;

/// Relocation type `R_PPC64_DTPREL34`.
pub const R_PPC64_DTPREL34: u32 = 147;

/// Relocation type `R_PPC64_GOT_TLSGD_PCREL34`.
pub const R_PPC64_GOT_TLSGD_PCREL34: u32 = 148;

/// Relocation type `R_PPC64_GOT_TLSLD_PCREL34`.
pub const R_PPC64_GOT_TLSLD_PCREL34: u32 = 149;

/// Relocation type `R_PPC64_GOT_TPREL_PCREL34`.
pub const R_PPC64_GOT_TPREL_PCREL34: u32 = 150;

/// Relocation type `R_PPC64_GOT_DTPREL_PCREL34`.
pub const R_PPC64_GOT_DTPREL_PCREL34: u32 = 151;

/// Relocation type `R_PPC64_REL16_HIGH`.
pub const R_PPC64_REL16_HIGH: u32 = 240;

/// Relocation type `R_PPC64_REL16_HIGHA`.
pub const R_PPC64_REL16_HIGHA: u32 = 241;

/// Relocation type `R_PPC64_REL16_HIGHER`.
pub const R_PPC64_REL16_HIGHER: u32 = 242;

/// Relocation type `R_PPC64_REL16_HIGHERA`.
pub const R_PPC64_REL16_HIGHERA: u32 = 243;

/// Relocation type `R_PPC64_REL16_HIGHEST`.
pub const R_PPC64_REL16_HIGHEST: u32 = 244;

/// Relocation type `R_PPC64_REL16_HIGHESTA`.
pub const R_PPC64_REL16_HIGHESTA: u32 = 245;

/// Relocation type `R_PPC64_REL16DX_HA`.
pub const R_PPC64_REL16DX_HA: u32 = 246;

/// Relocation type `R_PPC64_JMP_IREL`.
pub const R_PPC64_JMP_IREL: u32 = 247;

/// Relocation type `R_PPC64_IRELATIVE`.
pub const R_PPC64_IRELATIVE: u32 = 248;

/// Relocation type `R_PPC64_REL16`.
pub const R_PPC64_REL16: u32 = 249;

/// Relocation type `R_PPC64_REL16_LO`.
pub const R_PPC64_REL16_LO: u32 = 250;

/// Relocation type `R_PPC64_REL16_HI`.
pub const R_PPC64_REL16_HI: u32 = 251;

/// Relocation type `R_PPC64_REL16_HA`.
pub const R_PPC64_REL16_HA: u32 = 252;

/// Relocation type `R_PPC64_GNU_VTINHERIT`.
pub const R_PPC64_GNU_VTINHERIT: u32 = 253;

/// Relocation type `R_PPC64_GNU_VTENTRY`.
pub const R_PPC64_GNU_VTENTRY: u32 = 254;

/// The name of PowerPC64 relocation type `r_type`, as `readelf` prints it.
#[verifier::allow_in_spec]
pub fn reloc_name(r_type: u32) -> Option<&'static str>
    returns
        (match r_type {
            R_PPC64_NONE => Some("R_PPC64_NONE"),
            R_PPC64_ADDR32 => Some("R_PPC64_ADDR32"),
            R_PPC64_ADDR24 => Some("R_PPC64_ADDR24"),
            R_PPC64_ADDR16 => Some("R_PPC64_ADDR16"),
            R_PPC64_ADDR16_LO => Some("R_PPC64_ADDR16_LO"),
            R_PPC64_ADDR16_HI => Some("R_PPC64_ADDR16_HI"),
            R_PPC64_ADDR16_HA => Some("R_PPC64_ADDR16_HA"),
            R_PPC64_ADDR14 => Some("R_PPC64_ADDR14"),
            R_PPC64_ADDR14_BRTAKEN => Some("R_PPC64_ADDR14_BRTAKEN"),
            R_PPC64_ADDR14_BRNTAKEN => Some("R_PPC64_ADDR14_BRNTAKEN"),
            R_PPC64_REL24 => Some("R_PPC64_REL24"),
            R_PPC64_REL14 => Some("R_PPC64_REL14"),
            R_PPC64_REL14_BRTAKEN => Some("R_PPC64_REL14_BRTAKEN"),
            R_PPC64_REL14_BRNTAKEN => Some("R_PPC64_REL14_BRNTAKEN"),
            R_PPC64_GOT16 => Some("R_PPC64_GOT16"),
            R_PPC64_GOT16_LO => Some("R_PPC64_GOT16_LO"),
            R_PPC64_GOT16_HI => Some("R_PPC64_GOT16_HI"),
            R_PPC64_GOT16_HA => Some("R_PPC64_GOT16_HA"),
            R_PPC64_COPY => Some("R_PPC64_COPY"),
            R_PPC64_GLOB_DAT => Some("R_PPC64_GLOB_DAT"),
            R_PPC64_JMP_SLOT => Some("R_PPC64_JMP_SLOT"),
            R_PPC64_RELATIVE => Some("R_PPC64_RELATIVE"),
            R_PPC64_UADDR32 => Some("R_PPC64_UADDR32"),
            R_PPC64_UADDR16 => Some("R_PPC64_UADDR16"),
            R_PPC64_REL32 => Some("R_PPC64_REL32"),
            R_PPC64_PLT32 => Some("R_PPC64_PLT32"),
            R_PPC64_PLTREL32 => Some("R_PPC64_PLTREL32"),
            R_PPC64_PLT16_LO => Some("R_PPC64_PLT16_LO"),
            R_PPC64_PLT16_HI => Some("R_PPC64_PLT16_HI"),
            R_PPC64_PLT16_HA => Some("R_PPC64_PLT16_HA"),
            R_PPC64_SECTOFF => Some("R_PPC64_SECTOFF"),
            R_PPC64_SECTOFF_LO => Some("R_PPC64_SECTOFF_LO"),
            R_PPC64_SECTOFF_HI => Some("R_PPC64_SECTOFF_HI"),
            R_PPC64_SECTOFF_HA => Some("R_PPC64_SECTOFF_HA"),
            R_PPC64_REL30 => Some("R_PPC64_REL30"),
            R_PPC64_ADDR64 => Some("R_PPC64_ADDR64"),
            R_PPC64_ADDR16_HIGHER => Some("R_PPC64_ADDR16_HIGHER"),
            R_PPC64_ADDR16_HIGHERA => Some("R_PPC64_ADDR16_HIGHERA"),
            R_PPC64_ADDR16_HIGHEST => Some("R_PPC64_ADDR16_HIGHEST"),
            R_PPC64_ADDR16_HIGHESTA => Some("R_PPC64_ADDR16_HIGHESTA"),
            R_PPC64_UADDR64 => Some("R_PPC64_UADDR64"),
            R_PPC64_REL64 => Some("R_PPC64_REL64"),
            R_PPC64_PLT64 => Some("R_PPC64_PLT64"),
            R_PPC64_PLTREL64 => Some("R_PPC64_PLTREL64"),
            R_PPC64_TOC16 => Some("R_PPC64_TOC16"),
            R_PPC64_TOC16_LO => Some("R_PPC64_TOC16_LO"),
            R_PPC64_TOC16_HI => Some("R_PPC64_TOC16_HI"),
            R_PPC64_TOC16_HA => Some("R_PPC64_TOC16_HA"),
            R_PPC64_TOC => Some("R_PPC64_TOC"),
            R_PPC64_PLTGOT16 => Some("R_PPC64_PLTGOT16"),
            R_PPC64_PLTGOT16_LO => Some("R_PPC64_PLTGOT16_LO"),
            R_PPC64_PLTGOT16_HI => Some("R_PPC64_PLTGOT16_HI"),
            R_PPC64_PLTGOT16_HA => Some("R_PPC64_PLTGOT16_HA"),
            R_PPC64_ADDR16_DS => Some("R_PPC64_ADDR16_DS"),
            R_PPC64_ADDR16_LO_DS => Some("R_PPC64_ADDR16_LO_DS"),
            R_PPC64_GOT16_DS => Some("R_PPC64_GOT16_DS"),
            R_PPC64_GOT16_LO_DS => Some("R_PPC64_GOT16_LO_DS"),
            R_PPC64_PLT16_LO_DS => Some("R_PPC64_PLT16_LO_DS"),
            R_PPC64_SECTOFF_DS => Some("R_PPC64_SECTOFF_DS"),
            R_PPC64_SECTOFF_LO_DS => Some("R_PPC64_SECTOFF_LO_DS"),
            R_PPC64_TOC16_DS => Some("R_PPC64_TOC16_DS"),
            R_PPC64_TOC16_LO_DS => Some("R_PPC64_TOC16_LO_DS"),
            R_PPC64_PLTGOT16_DS => Some("R_PPC64_PLTGOT16_DS"),
            R_PPC64_PLTGOT16_LO_DS => Some("R_PPC64_PLTGOT16_LO_DS"),
            R_PPC64_TLS => Some("R_PPC64_TLS"),
            R_PPC64_DTPMOD64 => Some("R_PPC64_DTPMOD64"),
            R_PPC64_TPREL16 => Some("R_PPC64_TPREL16"),
            R_PPC64_TPREL16_LO => Some("R_PPC64_TPREL16_LO"),
            R_PPC64_TPREL16_HI => Some("R_PPC64_TPREL16_HI"),
            R_PPC64_TPREL16_HA => Some("R_PPC64_TPREL16_HA"),
            R_PPC64_TPREL64 => Some("R_PPC64_TPREL64"),
            R_PPC64_DTPREL16 => Some("R_PPC64_DTPREL16"),
            R_PPC64_DTPREL16_LO => Some("R_PPC64_DTPREL16_LO"),
            R_PPC64_DTPREL16_HI => Some("R_PPC64_DTPREL16_HI"),
            R_PPC64_DTPREL16_HA => Some("R_PPC64_DTPREL16_HA"),
            R_PPC64_DTPREL64 => Some("R_PPC64_DTPREL64"),
            R_PPC64_GOT_TLSGD16 => Some("R_PPC64_GOT_TLSGD16"),
            R_PPC64_GOT_TLSGD16_LO => Some("R_PPC64_GOT_TLSGD16_LO"),
            R_PPC64_GOT_TLSGD16_HI => Some("R_PPC64_GOT_TLSGD16_HI"),
            R_PPC64_GOT_TLSGD16_HA => Some("R_PPC64_GOT_TLSGD16_HA"),
            R_PPC64_GOT_TLSLD16 => Some("R_PPC64_GOT_TLSLD16"),
            R_PPC64_GOT_TLSLD16_LO => Some("R_PPC64_GOT_TLSLD16_LO"),
            R_PPC64_GOT_TLSLD16_HI => Some("R_PPC64_GOT_TLSLD16_HI"),
            R_PPC64_GOT_TLSLD16_HA => Some("R_PPC64_GOT_TLSLD16_HA"),
            R_PPC64_GOT_TPREL16_DS => Some("R_PPC64_GOT_TPREL16_DS"),
            R_PPC64_GOT_TPREL16_LO_DS => Some("R_PPC64_GOT_TPREL16_LO_DS"),
            R_PPC64_GOT_TPREL16_HI => Some("R_PPC64_GOT_TPREL16_HI"),
            R_PPC64_GOT_TPREL16_HA => Some("R_PPC64_GOT_TPREL16_HA"),
            R_PPC64_GOT_DTPREL16_DS => Some("R_PPC64_GOT_DTPREL16_DS"),
            R_PPC64_GOT_DTPREL16_LO_DS => Some("R_PPC64_GOT_DTPREL16_LO_DS"),
            R_PPC64_GOT_DTPREL16_HI => Some("R_PPC64_GOT_DTPREL16_HI"),
            R_PPC64_GOT_DTPREL16_HA => Some("R_PPC64_GOT_DTPREL16_HA"),
            R_PPC64_TPREL16_DS => Some("R_PPC64_TPREL16_DS"),
            R_PPC64_TPREL16_LO_DS => Some("R_PPC64_TPREL16_LO_DS"),
            R_PPC64_TPREL16_HIGHER => Some("R_PPC64_TPREL16_HIGHER"),
            R_PPC64_TPREL16_HIGHERA => Some("R_PPC64_TPREL16_HIGHERA"),
            R_PPC64_TPREL16_HIGHEST => Some("R_PPC64_TPREL16_HIGHEST"),
            R_PPC64_TPREL16_HIGHESTA => Some("R_PPC64_TPREL16_HIGHESTA"),
            R_PPC64_DTPREL16_DS => Some("R_PPC64_DTPREL16_DS"),
            R_PPC64_DTPREL16_LO_DS => Some("R_PPC64_DTPREL16_LO_DS"),
            R_PPC64_DTPREL16_HIGHER => Some("R_PPC64_DTPREL16_HIGHER"),
            R_PPC64_DTPREL16_HIGHERA => Some("R_PPC64_DTPREL16_HIGHERA"),
            R_PPC64_DTPREL16_HIGHEST => Some("R_PPC64_DTPREL16_HIGHEST"),
            R_PPC64_DTPREL16_HIGHESTA => Some("R_PPC64_DTPREL16_HIGHESTA"),
            R_PPC64_TLSGD => Some("R_PPC64_TLSGD"),
            R_PPC64_TLSLD => Some("R_PPC64_TLSLD"),
            R_PPC64_TOCSAVE => Some("R_PPC64_TOCSAVE"),
            R_PPC64_ADDR16_HIGH => Some("R_PPC64_ADDR16_HIGH"),
            R_PPC64_ADDR16_HIGHA => Some("R_PPC64_ADDR16_HIGHA"),
            R_PPC64_TPREL16_HIGH => Some("R_PPC64_TPREL16_HIGH"),
            R_PPC64_TPREL16_HIGHA => Some("R_PPC64_TPREL16_HIGHA"),
            R_PPC64_DTPREL16_HIGH => Some("R_PPC64_DTPREL16_HIGH"),
            R_PPC64_DTPREL16_HIGHA => Some("R_PPC64_DTPREL16_HIGHA"),
            R_PPC64_REL24_NOTOC => Some("R_PPC64_REL24_NOTOC"),
            R_PPC64_ADDR64_LOCAL => Some("R_PPC64_ADDR64_LOCAL"),
            R_PPC64_ENTRY => Some("R_PPC64_ENTRY"),
            R_PPC64_PLTSEQ => Some("R_PPC64_PLTSEQ"),
            R_PPC64_PLTCALL => Some("R_PPC64_PLTCALL"),
            R_PPC64_PLTSEQ_NOTOC => Some("R_PPC64_PLTSEQ_NOTOC"),
            R_PPC64_PLTCALL_NOTOC => Some("R_PPC64_PLTCALL_NOTOC"),
            R_PPC64_PCREL_OPT => Some("R_PPC64_PCREL_OPT"),
            R_PPC64_REL24_P9NOTOC => Some("R_PPC64_REL24_P9NOTOC"),
            R_PPC64_D34 => Some("R_PPC64_D34"),
            R_PPC64_D34_LO => Some("R_PPC64_D34_LO"),
            R_PPC64_D34_HI30 => Some("R_PPC64_D34_HI30"),
            R_PPC64_D34_HA30 => Some("R_PPC64_D34_HA30"),
            R_PPC64_PCREL34 => Some("R_PPC64_PCREL34"),
            R_PPC64_GOT_PCREL34 => Some("R_PPC64_GOT_PCREL34"),
            R_PPC64_PLT_PCREL34 => Some("R_PPC64_PLT_PCREL34"),
            R_PPC64_PLT_PCREL34_NOTOC => Some("R_PPC64_PLT_PCREL34_NOTOC"),
            R_PPC64_ADDR16_HIGHER34 => Some("R_PPC64_ADDR16_HIGHER34"),
            R_PPC64_ADDR16_HIGHERA34 => Some("R_PPC64_ADDR16_HIGHERA34"),
            R_PPC64_ADDR16_HIGHEST34 => Some("R_PPC64_ADDR16_HIGHEST34"),
            R_PPC64_ADDR16_HIGHESTA34 => Some("R_PPC64_ADDR16_HIGHESTA34"),
            R_PPC64_REL16_HIGHER34 => Some("R_PPC64_REL16_HIGHER34"),
            R_PPC64_REL16_HIGHERA34 => Some("R_PPC64_REL16_HIGHERA34"),
            R_PPC64_REL16_HIGHEST34 => Some("R_PPC64_REL16_HIGHEST34"),
            R_PPC64_REL16_HIGHESTA34 => Some("R_PPC64_REL16_HIGHESTA34"),
            R_PPC64_D28 => Some("R_PPC64_D28"),
            R_PPC64_PCREL28 => Some("R_PPC64_PCREL28"),
            R_PPC64_TPREL34 => Some("R_PPC64_TPREL34"),
            R_PPC64_DTPREL34 => Some("R_PPC64_DTPREL34"),
            R_PPC64_GOT_TLSGD_PCREL34 => Some("R_PPC64_GOT_TLSGD_PCREL34"),
            R_PPC64_GOT_TLSLD_PCREL34 => Some("R_PPC64_GOT_TLSLD_PCREL34"),
            R_PPC64_GOT_TPREL_PCREL34 => Some("R_PPC64_GOT_TPREL_PCREL34"),
            R_PPC64_GOT_DTPREL_PCREL34 => Some("R_PPC64_GOT_DTPREL_PCREL34"),
            R_PPC64_REL16_HIGH => Some("R_PPC64_REL16_HIGH"),
            R_PPC64_REL16_HIGHA => Some("R_PPC64_REL16_HIGHA"),
            R_PPC64_REL16_HIGHER => Some("R_PPC64_REL16_HIGHER"),
            R_PPC64_REL16_HIGHERA => Some("R_PPC64_REL16_HIGHERA"),
            R_PPC64_REL16_HIGHEST => Some("R_PPC64_REL16_HIGHEST"),
            R_PPC64_REL16_HIGHESTA => Some("R_PPC64_REL16_HIGHESTA"),
            R_PPC64_REL16DX_HA => Some("R_PPC64_REL16DX_HA"),
            R_PPC64_JMP_IREL => Some("R_PPC64_JMP_IREL"),
            R_PPC64_IRELATIVE => Some("R_PPC64_IRELATIVE"),
            R_PPC64_REL16 => Some("R_PPC64_REL16"),
            R_PPC64_REL16_LO => Some("R_PPC64_REL16_LO"),
            R_PPC64_REL16_HI => Some("R_PPC64_REL16_HI"),
            R_PPC64_REL16_HA => Some("R_PPC64_REL16_HA"),
            R_PPC64_GNU_VTINHERIT => Some("R_PPC64_GNU_VTINHERIT"),
            R_PPC64_GNU_VTENTRY => Some("R_PPC64_GNU_VTENTRY"),
            _ => None,
        }),
{
    match r_type {
        R_PPC64_NONE => Some("R_PPC64_NONE"),
        R_PPC64_ADDR32 => Some("R_PPC64_ADDR32"),
        R_PPC64_ADDR24 => Some("R_PPC64_ADDR24"),
        R_PPC64_ADDR16 => Some("R_PPC64_ADDR16"),
        R_PPC64_ADDR16_LO => Some("R_PPC64_ADDR16_LO"),
        R_PPC64_ADDR16_HI => Some("R_PPC64_ADDR16_HI"),
        R_PPC64_ADDR16_HA => Some("R_PPC64_ADDR16_HA"),
        R_PPC64_ADDR14 => Some("R_PPC64_ADDR14"),
        R_PPC64_ADDR14_BRTAKEN => Some("R_PPC64_ADDR14_BRTAKEN"),
        R_PPC64_ADDR14_BRNTAKEN => Some("R_PPC64_ADDR14_BRNTAKEN"),
        R_PPC64_REL24 => Some("R_PPC64_REL24"),
        R_PPC64_REL14 => Some("R_PPC64_REL14"),
        R_PPC64_REL14_BRTAKEN => Some("R_PPC64_REL14_BRTAKEN"),
        R_PPC64_REL14_BRNTAKEN => Some("R_PPC64_REL14_BRNTAKEN"),
        R_PPC64_GOT16 => Some("R_PPC64_GOT16"),
        R_PPC64_GOT16_LO => Some("R_PPC64_GOT16_LO"),
        R_PPC64_GOT16_HI => Some("R_PPC64_GOT16_HI"),
        R_PPC64_GOT16_HA => Some("R_PPC64_GOT16_HA"),
        R_PPC64_COPY => Some("R_PPC64_COPY"),
        R_PPC64_GLOB_DAT => Some("R_PPC64_GLOB_DAT"),
        R_PPC64_JMP_SLOT => Some("R_PPC64_JMP_SLOT"),
        R_PPC64_RELATIVE => Some("R_PPC64_RELATIVE"),
        R_PPC64_UADDR32 => Some("R_PPC64_UADDR32"),
        R_PPC64_UADDR16 => Some("R_PPC64_UADDR16"),
        R_PPC64_REL32 => Some("R_PPC64_REL32"),
        R_PPC64_PLT32 => Some("R_PPC64_PLT32"),
        R_PPC64_PLTREL32 => Some("R_PPC64_PLTREL32"),
        R_PPC64_PLT16_LO => Some("R_PPC64_PLT16_LO"),
        R_PPC64_PLT16_HI => Some("R_PPC64_PLT16_HI"),
        R_PPC64_PLT16_HA => Some("R_PPC64_PLT16_HA"),
        R_PPC64_SECTOFF => Some("R_PPC64_SECTOFF"),
        R_PPC64_SECTOFF_LO => Some("R_PPC64_SECTOFF_LO"),
        R_PPC64_SECTOFF_HI => Some("R_PPC64_SECTOFF_HI"),
        R_PPC64_SECTOFF_HA => Some("R_PPC64_SECTOFF_HA"),
        R_PPC64_REL30 => Some("R_PPC64_REL30"),
        R_PPC64_ADDR64 => Some("R_PPC64_ADDR64"),
        R_PPC64_ADDR16_HIGHER => Some("R_PPC64_ADDR16_HIGHER"),
        R_PPC64_ADDR16_HIGHERA => Some("R_PPC64_ADDR16_HIGHERA"),
        R_PPC64_ADDR16_HIGHEST => Some("R_PPC64_ADDR16_HIGHEST"),
        R_PPC64_ADDR16_HIGHESTA => Some("R_PPC64_ADDR16_HIGHESTA"),
        R_PPC64_UADDR64 => Some("R_PPC64_UADDR64"),
        R_PPC64_REL64 => Some("R_PPC64_REL64"),
        R_PPC64_PLT64 => Some("R_PPC64_PLT64"),
        R_PPC64_PLTREL64 => Some("R_PPC64_PLTREL64"),
        R_PPC64_TOC16 => Some("R_PPC64_TOC16"),
        R_PPC64_TOC16_LO => Some("R_PPC64_TOC16_LO"),
        R_PPC64_TOC16_HI => Some("R_PPC64_TOC16_HI"),
        R_PPC64_TOC16_HA => Some("R_PPC64_TOC16_HA"),
        R_PPC64_TOC => Some("R_PPC64_TOC"),
        R_PPC64_PLTGOT16 => Some("R_PPC64_PLTGOT16"),
        R_PPC64_PLTGOT16_LO => Some("R_PPC64_PLTGOT16_LO"),
        R_PPC64_PLTGOT16_HI => Some("R_PPC64_PLTGOT16_HI"),
        R_PPC64_PLTGOT16_HA => Some("R_PPC64_PLTGOT16_HA"),
        R_PPC64_ADDR16_DS => Some("R_PPC64_ADDR16_DS"),
        R_PPC64_ADDR16_LO_DS => Some("R_PPC64_ADDR16_LO_DS"),
        R_PPC64_GOT16_DS => Some("R_PPC64_GOT16_DS"),
        R_PPC64_GOT16_LO_DS => Some("R_PPC64_GOT16_LO_DS"),
        R_PPC64_PLT16_LO_DS => Some("R_PPC64_PLT16_LO_DS"),
        R_PPC64_SECTOFF_DS => Some("R_PPC64_SECTOFF_DS"),
        R_PPC64_SECTOFF_LO_DS => Some("R_PPC64_SECTOFF_LO_DS"),
        R_PPC64_TOC16_DS => Some("R_PPC64_TOC16_DS"),
        R_PPC64_TOC16_LO_DS => Some("R_PPC64_TOC16_LO_DS"),
        R_PPC64_PLTGOT16_DS => Some("R_PPC64_PLTGOT16_DS"),
        R_PPC64_PLTGOT16_LO_DS => Some("R_PPC64_PLTGOT16_LO_DS"),
        R_PPC64_TLS => Some("R_PPC64_TLS"),
        R_PPC64_DTPMOD64 => Some("R_PPC64_DTPMOD64"),
        R_PPC64_TPREL16 => Some("R_PPC64_TPREL16"),
        R_PPC64_TPREL16_LO => Some("R_PPC64_TPREL16_LO"),
        R_PPC64_TPREL16_HI => Some("R_PPC64_TPREL16_HI"),
        R_PPC64_TPREL16_HA => Some("R_PPC64_TPREL16_HA"),
        R_PPC64_TPREL64 => Some("R_PPC64_TPREL64"),
        R_PPC64_DTPREL16 => Some("R_PPC64_DTPREL16"),
        R_PPC64_DTPREL16_LO => Some("R_PPC64_DTPREL16_LO"),
        R_PPC64_DTPREL16_HI => Some("R_PPC64_DTPREL16_HI"),
        R_PPC64_DTPREL16_HA => Some("R_PPC64_DTPREL16_HA"),
        R_PPC64_DTPREL64 => Some("R_PPC64_DTPREL64"),
        R_PPC64_GOT_TLSGD16 => Some("R_PPC64_GOT_TLSGD16"),
        R_PPC64_GOT_TLSGD16_LO => Some("R_PPC64_GOT_TLSGD16_LO"),
        R_PPC64_GOT_TLSGD16_HI => Some("R_PPC64_GOT_TLSGD16_HI"),
        R_PPC64_GOT_TLSGD16_HA => Some("R_PPC64_GOT_TLSGD16_HA"),
        R_PPC64_GOT_TLSLD16 => Some("R_PPC64_GOT_TLSLD16"),
        R_PPC64_GOT_TLSLD16_LO => Some("R_PPC64_GOT_TLSLD16_LO"),
        R_PPC64_GOT_TLSLD16_HI => Some("R_PPC64_GOT_TLSLD16_HI"),
        R_PPC64_GOT_TLSLD16_HA => Some("R_PPC64_GOT_TLSLD16_HA"),
        R_PPC64_GOT_TPREL16_DS => Some("R_PPC64_GOT_TPREL16_DS"),
        R_PPC64_GOT_TPREL16_LO_DS => Some("R_PPC64_GOT_TPREL16_LO_DS"),
        R_PPC64_GOT_TPREL16_HI => Some("R_PPC64_GOT_TPREL16_HI"),
        R_PPC64_GOT_TPREL16_HA => Some("R_PPC64_GOT_TPREL16_HA"),
        R_PPC64_GOT_DTPREL16_DS => Some("R_PPC64_GOT_DTPREL16_DS"),
        R_PPC64_GOT_DTPREL16_LO_DS => Some("R_PPC64_GOT_DTPREL16_LO_DS"),
        R_PPC64_GOT_DTPREL16_HI => Some("R_PPC64_GOT_DTPREL16_HI"),
        R_PPC64_GOT_DTPREL16_HA => Some("R_PPC64_GOT_DTPREL16_HA"),
        R_PPC64_TPREL16_DS => Some("R_PPC64_TPREL16_DS"),
        R_PPC64_TPREL16_LO_DS => Some("R_PPC64_TPREL16_LO_DS"),
        R_PPC64_TPREL16_HIGHER => Some("R_PPC64_TPREL16_HIGHER"),
        R_PPC64_TPREL16_HIGHERA => Some("R_PPC64_TPREL16_HIGHERA"),
        R_PPC64_TPREL16_HIGHEST => Some("R_PPC64_TPREL16_HIGHEST"),
        R_PPC64_TPREL16_HIGHESTA => Some("R_PPC64_TPREL16_HIGHESTA"),
        R_PPC64_DTPREL16_DS => Some("R_PPC64_DTPREL16_DS"),
        R_PPC64_DTPREL16_LO_DS => Some("R_PPC64_DTPREL16_LO_DS"),
        R_PPC64_DTPREL16_HIGHER => Some("R_PPC64_DTPREL16_HIGHER"),
        R_PPC64_DTPREL16_HIGHERA => Some("R_PPC64_DTPREL16_HIGHERA"),
        R_PPC64_DTPREL16_HIGHEST => Some("R_PPC64_DTPREL16_HIGHEST"),
        R_PPC64_DTPREL16_HIGHESTA => Some("R_PPC64_DTPREL16_HIGHESTA"),
        R_PPC64_TLSGD => Some("R_PPC64_TLSGD"),
        R_PPC64_TLSLD => Some("R_PPC64_TLSLD"),
        R_PPC64_TOCSAVE => Some("R_PPC64_TOCSAVE"),
        R_PPC64_ADDR16_HIGH => Some("R_PPC64_ADDR16_HIGH"),
        R_PPC64_ADDR16_HIGHA => Some("R_PPC64_ADDR16_HIGHA"),
        R_PPC64_TPREL16_HIGH => Some("R_PPC64_TPREL16_HIGH"),
        R_PPC64_TPREL16_HIGHA => Some("R_PPC64_TPREL16_HIGHA"),
        R_PPC64_DTPREL16_HIGH => Some("R_PPC64_DTPREL16_HIGH"),
        R_PPC64_DTPREL16_HIGHA => Some("R_PPC64_DTPREL16_HIGHA"),
        R_PPC64_REL24_NOTOC => Some("R_PPC64_REL24_NOTOC"),
        R_PPC64_ADDR64_LOCAL => Some("R_PPC64_ADDR64_LOCAL"),
        R_PPC64_ENTRY => Some("R_PPC64_ENTRY"),
        R_PPC64_PLTSEQ => Some("R_PPC64_PLTSEQ"),
        R_PPC64_PLTCALL => Some("R_PPC64_PLTCALL"),
        R_PPC64_PLTSEQ_NOTOC => Some("R_PPC64_PLTSEQ_NOTOC"),
        R_PPC64_PLTCALL_NOTOC => Some("R_PPC64_PLTCALL_NOTOC"),
        R_PPC64_PCREL_OPT => Some("R_PPC64_PCREL_OPT"),
        R_PPC64_REL24_P9NOTOC => Some("R_PPC64_REL24_P9NOTOC"),
        R_PPC64_D34 => Some("R_PPC64_D34"),
        R_PPC64_D34_LO => Some("R_PPC64_D34_LO"),
        R_PPC64_D34_HI30 => Some("R_PPC64_D34_HI30"),
        R_PPC64_D34_HA30 => Some("R_PPC64_D34_HA30"),
        R_PPC64_PCREL34 => Some("R_PPC64_PCREL34"),
        R_PPC64_GOT_PCREL34 => Some("R_PPC64_GOT_PCREL34"),
        R_PPC64_PLT_PCREL34 => Some("R_PPC64_PLT_PCREL34"),
        R_PPC64_PLT_PCREL34_NOTOC => Some("R_PPC64_PLT_PCREL34_NOTOC"),
        R_PPC64_ADDR16_HIGHER34 => Some("R_PPC64_ADDR16_HIGHER34"),
        R_PPC64_ADDR16_HIGHERA34 => Some("R_PPC64_ADDR16_HIGHERA34"),
        R_PPC64_ADDR16_HIGHEST34 => Some("R_PPC64_ADDR16_HIGHEST34"),
        R_PPC64_ADDR16_HIGHESTA34 => Some("R_PPC64_ADDR16_HIGHESTA34"),
        R_PPC64_REL16_HIGHER34 => Some("R_PPC64_REL16_HIGHER34"),
        R_PPC64_REL16_HIGHERA34 => Some("R_PPC64_REL16_HIGHERA34"),
        R_PPC64_REL16_HIGHEST34 => Some("R_PPC64_REL16_HIGHEST34"),
        R_PPC64_REL16_HIGHESTA34 => Some("R_PPC64_REL16_HIGHESTA34"),
        R_PPC64_D28 => Some("R_PPC64_D28"),
        R_PPC64_PCREL28 => Some("R_PPC64_PCREL28"),
        R_PPC64_TPREL34 => Some("R_PPC64_TPREL34"),
        R_PPC64_DTPREL34 => Some("R_PPC64_DTPREL34"),
        R_PPC64_GOT_TLSGD_PCREL34 => Some("R_PPC64_GOT_TLSGD_PCREL34"),
        R_PPC64_GOT_TLSLD_PCREL34 => Some("R_PPC64_GOT_TLSLD_PCREL34"),
        R_PPC64_GOT_TPREL_PCREL34 => Some("R_PPC64_GOT_TPREL_PCREL34"),
        R_PPC64_GOT_DTPREL_PCREL34 => Some("R_PPC64_GOT_DTPREL_PCREL34"),
        R_PPC64_REL16_HIGH => Some("R_PPC64_REL16_HIGH"),
        R_PPC64_REL16_HIGHA => Some("R_PPC64_REL16_HIGHA"),
        R_PPC64_REL16_HIGHER => Some("R_PPC64_REL16_HIGHER"),
        R_PPC64_REL16_HIGHERA => Some("R_PPC64_REL16_HIGHERA"),
        R_PPC64_REL16_HIGHEST => Some("R_PPC64_REL16_HIGHEST"),
        R_PPC64_REL16_HIGHESTA => Some("R_PPC64_REL16_HIGHESTA"),
        R_PPC64_REL16DX_HA => Some("R_PPC64_REL16DX_HA"),
        R_PPC64_JMP_IREL => Some("R_PPC64_JMP_IREL"),
        R_PPC64_IRELATIVE => Some("R_PPC64_IRELATIVE"),
        R_PPC64_REL16 => Some("R_PPC64_REL16"),
        R_PPC64_REL16_LO => Some("R_PPC64_REL16_LO"),
        R_PPC64_REL16_HI => Some("R_PPC64_REL16_HI"),
        R_PPC64_REL16_HA => Some("R_PPC64_REL16_HA"),
        R_PPC64_GNU_VTINHERIT => Some("R_PPC64_GNU_VTINHERIT"),
        R_PPC64_GNU_VTENTRY => Some("R_PPC64_GNU_VTENTRY"),
        _ => None,
    }
}

} // verus!
