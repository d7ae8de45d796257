//! AArch64 relocation types.

use vstd::prelude::*;

verus! {

/// Relocation type `R_AARCH64_NONE`.
pub const R_AARCH64_NONE: u32 = 0;

/// Relocation type `R_AARCH64_NULL`.
pub const R_AARCH64_NULL: u32 = 256;

/// Relocation type `R_AARCH64_ABS64`.
pub const R_AARCH64_ABS64: u32 = 257;

/// Relocation type `R_AARCH64_ABS32`.
pub const R_AARCH64_ABS32: u32 = 258;

/// Relocation type `R_AARCH64_ABS16`.
pub const R_AARCH64_ABS16: u32 = 259;

/// Relocation type `R_AARCH64_PREL64`.
pub const R_AARCH64_PREL64: u32 = 260;

/// Relocation type `R_AARCH64_PREL32`.
pub const R_AARCH64_PREL32: u32 = 261;

/// Relocation type `R_AARCH64_PREL16`.
pub const R_AARCH64_PREL16: u32 = 262;

/// Relocation type `R_AARCH64_MOVW_UABS_G0`.
pub const R_AARCH64_MOVW_UABS_G0: u32 = 263;

/// Relocation type `R_AARCH64_MOVW_UABS_G0_NC`.
pub const R_AARCH64_MOVW_UABS_G0_NC: u32 = 264;

/// Relocation type `R_AARCH64_MOVW_UABS_G1`.
pub const R_AARCH64_MOVW_UABS_G1: u32 = 265;

/// Relocation type `R_AARCH64_MOVW_UABS_G1_NC`.
pub const R_AARCH64_MOVW_UABS_G1_NC: u32 = 266;

/// Relocation type `R_AARCH64_MOVW_UABS_G2`.
pub const R_AARCH64_MOVW_UABS_G2: u32 = 267;

/// Relocation type `R_AARCH64_MOVW_UABS_G2_NC`.
pub const R_AARCH64_MOVW_UABS_G2_NC: u32 = 268;

/// Relocation type `R_AARCH64_MOVW_UABS_G3`.
pub const R_AARCH64_MOVW_UABS_G3: u32 = 269;

/// Relocation type `R_AARCH64_MOVW_SABS_G0`.
pub const R_AARCH64_MOVW_SABS_G0: u32 = 270;

/// Relocation type `R_AARCH64_MOVW_SABS_G1`.
pub const R_AARCH64_MOVW_SABS_G1: u32 = 271;

/// Relocation type `R_AARCH64_MOVW_SABS_G2`.
pub const R_AARCH64_MOVW_SABS_G2: u32 = 272;

/// Relocation type `R_AARCH64_LD_PREL_LO19`.
pub const R_AARCH64_LD_PREL_LO19: u32 = 273;

/// Relocation type `R_AARCH64_ADR_PREL_LO21`.
pub const R_AARCH64_ADR_PREL_LO21: u32 = 274;

/// Relocation type `R_AARCH64_ADR_PREL_PG_HI21`.
pub const R_AARCH64_ADR_PREL_PG_HI21: u32 = 275;

/// Relocation type `R_AARCH64_ADR_PREL_PG_HI21_NC`.
pub const R_AARCH64_ADR_PREL_PG_HI21_NC: u32 = 276;

/// Relocation type `R_AARCH64_ADD_ABS_LO12_NC`.
pub const R_AARCH64_ADD_ABS_LO12_NC: u32 = 277;

/// Relocation type `R_AARCH64_LDST8_ABS_LO12_NC`.
pub const R_AARCH64_LDST8_ABS_LO12_NC: u32 = 278;

/// Relocation type `R_AARCH64_TSTBR14`.
pub const R_AARCH64_TSTBR14: u32 = 279;

/// Relocation type `R_AARCH64_CONDBR19`.
pub const R_AARCH64_CONDBR19: u32 = 280;

/// Relocation type `R_AARCH64_JUMP26`.
pub const R_AARCH64_JUMP26: u32 = 282;

/// Relocation type `R_AARCH64_CALL26`.
pub const R_AARCH64_CALL26: u32 = 283;

/// Relocation type `R_AARCH64_LDST16_ABS_LO12_NC`.
pub const R_AARCH64_LDST16_ABS_LO12_NC: u32 = 284;

/// Relocation type `R_AARCH64_LDST32_ABS_LO12_NC`.
pub const R_AARCH64_LDST32_ABS_LO12_NC: u32 = 285;

/// Relocation type `R_AARCH64_LDST64_ABS_LO12_NC`.
pub const R_AARCH64_LDST64_ABS_LO12_NC: u32 = 286;

/// Relocation type `R_AARCH64_MOVW_PREL_G0`.
pub const R_AARCH64_MOVW_PREL_G0: u32 = 287;

/// Relocation type `R_AARCH64_MOVW_PREL_G0_NC`.
pub const R_AARCH64_MOVW_PREL_G0_NC: u32 = 288;

/// Relocation type `R_AARCH64_MOVW_PREL_G1`.
pub const R_AARCH64_MOVW_PREL_G1: u32 = 289;

/// Relocation type `R_AARCH64_MOVW_PREL_G1_NC`.
pub const R_AARCH64_MOVW_PREL_G1_NC: u32 = 290;

/// Relocation type `R_AARCH64_MOVW_PREL_G2`.
pub const R_AARCH64_MOVW_PREL_G2: u32 = 291;

/// Relocation type `R_AARCH64_MOVW_PREL_G2_NC`.
pub const R_AARCH64_MOVW_PREL_G2_NC: u32 = 292;

/// Relocation type `R_AARCH64_MOVW_PREL_G3`.
pub const R_AARCH64_MOVW_PREL_G3: u32 = 293;

/// Relocation type `R_AARCH64_LDST128_ABS_LO12_NC`.
pub const R_AARCH64_LDST128_ABS_LO12_NC: u32 = 299;

/// Relocation type `R_AARCH64_MOVW_GOTOFF_G0`.
pub const R_AARCH64_MOVW_GOTOFF_G0: u32 = 300;

/// Relocation type `R_AARCH64_MOVW_GOTOFF_G0_NC`.
pub const R_AARCH64_MOVW_GOTOFF_G0_NC: u32 = 301;

/// Relocation type `R_AARCH64_MOVW_GOTOFF_G1`.
pub const R_AARCH64_MOVW_GOTOFF_G1: u32 = 302;

/// Relocation type `R_AARCH64_MOVW_GOTOFF_G1_NC`.
pub const R_AARCH64_MOVW_GOTOFF_G1_NC: u32 = 303;

/// Relocation type `R_AARCH64_MOVW_GOTOFF_G2`.
pub const R_AARCH64_MOVW_GOTOFF_G2: u32 = 304;

/// Relocation type `R_AARCH64_MOVW_GOTOFF_G2_NC`.
pub const R_AARCH64_MOVW_GOTOFF_G2_NC: u32 = 305;

/// Relocation type `R_AARCH64_MOVW_GOTOFF_G3`.
pub const R_AARCH64_MOVW_GOTOFF_G3: u32 = 306;

/// Relocation type `R_AARCH64_GOTREL64`.
pub const R_AARCH64_GOTREL64: u32 = 307;

/// Relocation type `R_AARCH64_GOTREL32`.
pub const R_AARCH64_GOTREL32: u32 = 308;

/// Relocation type `R_AARCH64_GOT_LD_PREL19`.
pub const R_AARCH64_GOT_LD_PREL19: u32 = 309;

/// Relocation type `R_AARCH64_LD64_GOTOFF_LO15`.
pub const R_AARCH64_LD64_GOTOFF_LO15: u32 = 310;

/// Relocation type `R_AARCH64_ADR_GOT_PAGE`.
pub const R_AARCH64_ADR_GOT_PAGE: u32 = 311;

/// Relocation type `R_AARCH64_LD64_GOT_LO12_NC`.
pub const R_AARCH64_LD64_GOT_LO12_NC: u32 = 312;

/// Relocation type `R_AARCH64_LD64_GOTPAGE_LO15`.
pub const R_AARCH64_LD64_GOTPAGE_LO15: u32 = 313;

/// Relocation type `R_AARCH64_PLT32`.
pub const R_AARCH64_PLT32: u32 = 314;

/// Relocation type `R_AARCH64_GOTPCREL32`.
pub const R_AARCH64_GOTPCREL32: u32 = 315;

/// Relocation type `R_AARCH64_TLSGD_ADR_PREL21`.
pub const R_AARCH64_TLSGD_ADR_PREL21: u32 = 512;

/// Relocation type `R_AARCH64_TLSGD_ADR_PAGE21`.
pub const R_AARCH64_TLSGD_ADR_PAGE21: u32 = 513;

/// Relocation type `R_AARCH64_TLSGD_ADD_LO12_NC`.
pub const R_AARCH64_TLSGD_ADD_LO12_NC: u32 = 514;

/// Relocation type `R_AARCH64_TLSGD_MOVW_G1`.
pub const R_AARCH64_TLSGD_MOVW_G1: u32 = 515;

/// Relocation type `R_AARCH64_TLSGD_MOVW_G0_NC`.
pub const R_AARCH64_TLSGD_MOVW_G0_NC: u32 = 516;

/// Relocation type `R_AARCH64_TLSLD_ADR_PREL21`.
pub const R_AARCH64_TLSLD_ADR_PREL21: u32 = 517;

/// Relocation type `R_AARCH64_TLSLD_ADR_PAGE21`.
pub const R_AARCH64_TLSLD_ADR_PAGE21: u32 = 518;

/// Relocation type `R_AARCH64_TLSLD_ADD_LO12_NC`.
pub const R_AARCH64_TLSLD_ADD_LO12_NC: u32 = 519;

/// Relocation type `R_AARCH64_TLSLD_MOVW_G1`.
pub const R_AARCH64_TLSLD_MOVW_G1: u32 = 520;

/// Relocation type `R_AARCH64_TLSLD_MOVW_G0_NC`.
pub const R_AARCH64_TLSLD_MOVW_G0_NC: u32 = 521;

/// Relocation type `R_AARCH64_TLSLD_LD_PREL19`.
pub const R_AARCH64_TLSLD_LD_PREL19: u32 = 522;

/// Relocation type `R_AARCH64_TLSLD_MOVW_DTPREL_G2`.
pub const R_AARCH64_TLSLD_MOVW_DTPREL_G2: u32 = 523;

/// Relocation type `R_AARCH64_TLSLD_MOVW_DTPREL_G1`.
pub const R_AARCH64_TLSLD_MOVW_DTPREL_G1: u32 = 524;

/// Relocation type `R_AARCH64_TLSLD_MOVW_DTPREL_G1_NC`.
pub const R_AARCH64_TLSLD_MOVW_DTPREL_G1_NC: u32 = 525;

/// Relocation type `R_AARCH64_TLSLD_MOVW_DTPREL_G0`.
pub const R_AARCH64_TLSLD_MOVW_DTPREL_G0: u32 = 526;

/// Relocation type `R_AARCH64_TLSLD_MOVW_DTPREL_G0_NC`.
pub const R_AARCH64_TLSLD_MOVW_DTPREL_G0_NC: u32 = 527;

/// Relocation type `R_AARCH64_TLSLD_ADD_DTPREL_HI12`.
pub const R_AARCH64_TLSLD_ADD_DTPREL_HI12: u32 = 528;

/// Relocation type `R_AARCH64_TLSLD_ADD_DTPREL_LO12`.
pub const R_AARCH64_TLSLD_ADD_DTPREL_LO12: u32 = 529;

/// Relocation type `R_AARCH64_TLSLD_ADD_DTPREL_LO12_NC`.
pub const R_AARCH64_TLSLD_ADD_DTPREL_LO12_NC: u32 = 530;

/// Relocation type `R_AARCH64_TLSLD_LDST8_DTPREL_LO12`.
pub const R_AARCH64_TLSLD_LDST8_DTPREL_LO12: u32 = 531;

/// Relocation type `R_AARCH64_TLSLD_LDST8_DTPREL_LO12_NC`.
pub const R_AARCH64_TLSLD_LDST8_DTPREL_LO12_NC: u32 = 532;

/// Relocation type `R_AARCH64_TLSLD_LDST16_DTPREL_LO12`.
pub const R_AARCH64_TLSLD_LDST16_DTPREL_LO12: u32 = 533;

/// Relocation type `R_AARCH64_TLSLD_LDST16_DTPREL_LO12_NC`.
pub const R_AARCH64_TLSLD_LDST16_DTPREL_LO12_NC: u32 = 534;

/// Relocation type `R_AARCH64_TLSLD_LDST32_DTPREL_LO12`.
pub const R_AARCH64_TLSLD_LDST32_DTPREL_LO12: u32 = 535;

/// Relocation type `R_AARCH64_TLSLD_LDST32_DTPREL_LO12_NC`.
pub const R_AARCH64_TLSLD_LDST32_DTPREL_LO12_NC: u32 = 536;

/// Relocation type `R_AARCH64_TLSLD_LDST64_DTPREL_LO12`.
pub const R_AARCH64_TLSLD_LDST64_DTPREL_LO12: u32 = 537;

/// Relocation type `R_AARCH64_TLSLD_LDST64_DTPREL_LO12_NC`.
pub const R_AARCH64_TLSLD_LDST64_DTPREL_LO12_NC: u32 = 538;

/// Relocation type `R_AARCH64_TLSIE_MOVW_GOTTPREL_G1`.
pub const R_AARCH64_TLSIE_MOVW_GOTTPREL_G1: u32 = 539;

/// Relocation type `R_AARCH64_TLSIE_MOVW_GOTTPREL_G0_NC`.
pub const R_AARCH64_TLSIE_MOVW_GOTTPREL_G0_NC: u32 = 540;

/// Relocation type `R_AARCH64_TLSIE_ADR_GOTTPREL_PAGE21`.
pub const R_AARCH64_TLSIE_ADR_GOTTPREL_PAGE21: u32 = 541;

/// Relocation type `R_AARCH64_TLSIE_LD64_GOTTPREL_LO12_NC`.
pub const R_AARCH64_TLSIE_LD64_GOTTPREL_LO12_NC: u32 = 542;

/// Relocation type `R_AARCH64_TLSIE_LD_GOTTPREL_PREL19`.
pub const R_AARCH64_TLSIE_LD_GOTTPREL_PREL19: u32 = 543;

/// Relocation type `R_AARCH64_TLSLE_MOVW_TPREL_G2`.
pub const R_AARCH64_TLSLE_MOVW_TPREL_G2: u32 = 544;

/// Relocation type `R_AARCH64_TLSLE_MOVW_TPREL_G1`.
pub const R_AARCH64_TLSLE_MOVW_TPREL_G1: u32 = 545;

/// Relocation type `R_AARCH64_TLSLE_MOVW_TPREL_G1_NC`.
pub const R_AARCH64_TLSLE_MOVW_TPREL_G1_NC: u32 = 546;

/// Relocation type `R_AARCH64_TLSLE_MOVW_TPREL_G0`.
pub const R_AARCH64_TLSLE_MOVW_TPREL_G0: u32 = 547;

/// Relocation type `R_AARCH64_TLSLE_MOVW_TPREL_G0_NC`.
pub const R_AARCH64_TLSLE_MOVW_TPREL_G0_NC: u32 = 548;

/// Relocation type `R_AARCH64_TLSLE_ADD_TPREL_HI12`.
pub const R_AARCH64_TLSLE_ADD_TPREL_HI12: u32 = 549;

/// Relocation type `R_AARCH64_TLSLE_ADD_TPREL_LO12`.
pub const R_AARCH64_TLSLE_ADD_TPREL_LO12: u32 = 550;

/// Relocation type `R_AARCH64_TLSLE_ADD_TPREL_LO12_NC`.
pub const R_AARCH64_TLSLE_ADD_TPREL_LO12_NC: u32 = 551;

/// Relocation type `R_AARCH64_TLSLE_LDST8_TPREL_LO12`.
pub const R_AARCH64_TLSLE_LDST8_TPREL_LO12: u32 = 552;

/// Relocation type `R_AARCH64_TLSLE_LDST8_TPREL_LO12_NC`.
pub const R_AARCH64_TLSLE_LDST8_TPREL_LO12_NC: u32 = 553;

/// Relocation type `R_AARCH64_TLSLE_LDST16_TPREL_LO12`.
pub const R_AARCH64_TLSLE_LDST16_TPREL_LO12: u32 = 554;

/// Relocation type `R_AARCH64_TLSLE_LDST16_TPREL_LO12_NC`.
pub const R_AARCH64_TLSLE_LDST16_TPREL_LO12_NC: u32 = 555;

/// Relocation type `R_AARCH64_TLSLE_LDST32_TPREL_LO12`.
pub const R_AARCH64_TLSLE_LDST32_TPREL_LO12: u32 = 556;

/// Relocation type `R_AARCH64_TLSLE_LDST32_TPREL_LO12_NC`.
pub const R_AARCH64_TLSLE_LDST32_TPREL_LO12_NC: u32 = 557;

/// Relocation type `R_AARCH64_TLSLE_LDST64_TPREL_LO12`.
pub const R_AARCH64_TLSLE_LDST64_TPREL_LO12: u32 = 558;

/// Relocation type `R_AARCH64_TLSLE_LDST64_TPREL_LO12_NC`.
pub const R_AARCH64_TLSLE_LDST64_TPREL_LO12_NC: u32 = 559;

/// Relocation type `R_AARCH64_TLSDESC_LD_PREL19`.
pub const R_AARCH64_TLSDESC_LD_PREL19: u32 = 560;

/// Relocation type `R_AARCH64_TLSDESC_ADR_PREL21`.
pub const R_AARCH64_TLSDESC_ADR_PREL21: u32 = 561;

/// Relocation type `R_AARCH64_TLSDESC_ADR_PAGE21`.
pub const R_AARCH64_TLSDESC_ADR_PAGE21: u32 = 562;

/// Relocation type `R_AARCH64_TLSDESC_LD64_LO12`.
pub const R_AARCH64_TLSDESC_LD64_LO12: u32 = 563;

/// Relocation type `R_AARCH64_TLSDESC_ADD_LO12`.
pub const R_AARCH64_TLSDESC_ADD_LO12: u32 = 564;

/// Relocation type `R_AARCH64_TLSDESC_OFF_G1`.
pub const R_AARCH64_TLSDESC_OFF_G1: u32 = 565;

/// Relocation type `R_AARCH64_TLSDESC_OFF_G0_NC`.
pub const R_AARCH64_TLSDESC_OFF_G0_NC: u32 = 566;

/// Relocation type `R_AARCH64_TLSDESC_LDR`.
pub const R_AARCH64_TLSDESC_LDR: u32 = 567;

/// Relocation type `R_AARCH64_TLSDESC_ADD`.
pub const R_AARCH64_TLSDESC_ADD: u32 = 568;

/// Relocation type `R_AARCH64_TLSDESC_CALL`.
pub const R_AARCH64_TLSDESC_CALL: u32 = 569;

/// Relocation type `R_AARCH64_TLSLE_LDST128_TPREL_LO12`.
pub const R_AARCH64_TLSLE_LDST128_TPREL_LO12: u32 = 570;

/// Relocation type `R_AARCH64_TLSLE_LDST128_TPREL_LO12_NC`.
pub const R_AARCH64_TLSLE_LDST128_TPREL_LO12_NC: u32 = 571;

/// Relocation type `R_AARCH64_TLSLD_LDST128_DTPREL_LO12`.
pub const R_AARCH64_TLSLD_LDST128_DTPREL_LO12: u32 = 572;

/// Relocation type `R_AARCH64_TLSLD_LDST128_DTPREL_LO12_NC`.
pub const R_AARCH64_TLSLD_LDST128_DTPREL_LO12_NC: u32 = 573;

/// Relocation type `R_AARCH64_AUTH_ABS64`.
pub const R_AARCH64_AUTH_ABS64: u32 = 580;

/// Relocation type `R_AARCH64_COPY`.
pub const R_AARCH64_COPY: u32 = 1024;

/// Relocation type `R_AARCH64_GLOB_DAT`.
pub const R_AARCH64_GLOB_DAT: u32 = 1025;

/// Relocation type `R_AARCH64_JUMP_SLOT`.
pub const R_AARCH64_JUMP_SLOT: u32 = 1026;

/// Relocation type `R_AARCH64_RELATIVE`.
pub const R_AARCH64_RELATIVE: u32 = 1027;

/// Relocation type `R_AARCH64_TLS_DTPMOD64`.
pub const R_AARCH64_TLS_DTPMOD64: u32 = 1028;

/// Relocation type `R_AARCH64_TLS_DTPREL64`.
pub const R_AARCH64_TLS_DTPREL64: u32 = 1029;

/// Relocation type `R_AARCH64_TLS_TPREL64`.
pub const R_AARCH64_TLS_TPREL64: u32 = 1030;

/// Relocation type `R_AARCH64_TLSDESC`.
pub const R_AARCH64_TLSDESC: u32 = 1031;

/// Relocation type `R_AARCH64_IRELATIVE`.
pub const R_AARCH64_IRELATIVE: u32 = 1032;

/// The name of AArch64 relocation type `r_type`, as `readelf` prints it.
#[verifier::allow_in_spec]
pub fn reloc_name(r_type: u32) -> Option<&'static str>
    returns
        (match r_type {
            R_AARCH64_NONE => Some("R_AARCH64_NONE"),
            R_AARCH64_NULL => Some("R_AARCH64_NULL"),
            R_AARCH64_ABS64 => Some("R_AARCH64_ABS64"),
            R_AARCH64_ABS32 => Some("R_AARCH64_ABS32"),
            R_AARCH64_ABS16 => Some("R_AARCH64_ABS16"),
            R_AARCH64_PREL64 => Some("R_AARCH64_PREL64"),
            R_AARCH64_PREL32 => Some("R_AARCH64_PREL32"),
            R_AARCH64_PREL16 => Some("R_AARCH64_PREL16"),
            R_AARCH64_MOVW_UABS_G0 => Some("R_AARCH64_MOVW_UABS_G0"),
            R_AARCH64_MOVW_UABS_G0_NC => Some("R_AARCH64_MOVW_UABS_G0_NC"),
            R_AARCH64_MOVW_UABS_G1 => Some("R_AARCH64_MOVW_UABS_G1"),
            R_AARCH64_MOVW_UABS_G1_NC => Some("R_AARCH64_MOVW_UABS_G1_NC"),
            R_AARCH64_MOVW_UABS_G2 => Some("R_AARCH64_MOVW_UABS_G2"),
            R_AARCH64_MOVW_UABS_G2_NC => Some("R_AARCH64_MOVW_UABS_G2_NC"),
            R_AARCH64_MOVW_UABS_G3 => Some("R_AARCH64_MOVW_UABS_G3"),
            R_AARCH64_MOVW_SABS_G0 => Some("R_AARCH64_MOVW_SABS_G0"),
            R_AARCH64_MOVW_SABS_G1 => Some("R_AARCH64_MOVW_SABS_G1"),
            R_AARCH64_MOVW_SABS_G2 => Some("R_AARCH64_MOVW_SABS_G2"),
            R_AARCH64_LD_PREL_LO19 => Some("R_AARCH64_LD_PREL_LO19"),
            R_AARCH64_ADR_PREL_LO21 => Some("R_AARCH64_ADR_PREL_LO21"),
            R_AARCH64_ADR_PREL_PG_HI21 => Some("R_AARCH64_ADR_PREL_PG_HI21"),
            R_AARCH64_ADR_PREL_PG_HI21_NC => Some("R_AARCH64_ADR_PREL_PG_HI21_NC"),
            R_AARCH64_ADD_ABS_LO12_NC => Some("R_AARCH64_ADD_ABS_LO12_NC"),
            R_AARCH64_LDST8_ABS_LO12_NC => Some("R_AARCH64_LDST8_ABS_LO12_NC"),
            R_AARCH64_TSTBR14 => Some("R_AARCH64_TSTBR14"),
            R_AARCH64_CONDBR19 => Some("R_AARCH64_CONDBR19"),
            R_AARCH64_JUMP26 => Some("R_AARCH64_JUMP26"),
            R_AARCH64_CALL26 => Some("R_AARCH64_CALL26"),
            R_AARCH64_LDST16_ABS_LO12_NC => Some("R_AARCH64_LDST16_ABS_LO12_NC"),
            R_AARCH64_LDST32_ABS_LO12_NC => Some("R_AARCH64_LDST32_ABS_LO12_NC"),
            R_AARCH64_LDST64_ABS_LO12_NC => Some("R_AARCH64_LDST64_ABS_LO12_NC"),
            R_AARCH64_MOVW_PREL_G0 => Some("R_AARCH64_MOVW_PREL_G0"),
            R_AARCH64_MOVW_PREL_G0_NC => Some("R_AARCH64_MOVW_PREL_G0_NC"),
            R_AARCH64_MOVW_PREL_G1 => Some("R_AARCH64_MOVW_PREL_G1"),
            R_AARCH64_MOVW_PREL_G1_NC => Some("R_AARCH64_MOVW_PREL_G1_NC"),
            R_AARCH64_MOVW_PREL_G2 => Some("R_AARCH64_MOVW_PREL_G2"),
            R_AARCH64_MOVW_PREL_G2_NC => Some("R_AARCH64_MOVW_PREL_G2_NC"),
            R_AARCH64_MOVW_PREL_G3 => Some("R_AARCH64_MOVW_PREL_G3"),
            R_AARCH64_LDST128_ABS_LO12_NC => Some("R_AARCH64_LDST128_ABS_LO12_NC"),
            R_AARCH64_MOVW_GOTOFF_G0 => Some("R_AARCH64_MOVW_GOTOFF_G0"),
            R_AARCH64_MOVW_GOTOFF_G0_NC => Some("R_AARCH64_MOVW_GOTOFF_G0_NC"),
            R_AARCH64_MOVW_GOTOFF_G1 => Some("R_AARCH64_MOVW_GOTOFF_G1"),
            R_AARCH64_MOVW_GOTOFF_G1_NC => Some("R_AARCH64_MOVW_GOTOFF_G1_NC"),
            R_AARCH64_MOVW_GOTOFF_G2 => Some("R_AARCH64_MOVW_GOTOFF_G2"),
            R_AARCH64_MOVW_GOTOFF_G2_NC => Some("R_AARCH64_MOVW_GOTOFF_G2_NC"),
            R_AARCH64_MOVW_GOTOFF_G3 => Some("R_AARCH64_MOVW_GOTOFF_G3"),
            R_AARCH64_GOTREL64 => Some("R_AARCH64_GOTREL64"),
            R_AARCH64_GOTREL32 => Some("R_AARCH64_GOTREL32"),
            R_AARCH64_GOT_LD_PREL19 => Some("R_AARCH64_GOT_LD_PREL19"),
            R_AARCH64_LD64_GOTOFF_LO15 => Some("R_AARCH64_LD64_GOTOFF_LO15"),
            R_AARCH64_ADR_GOT_PAGE => Some("R_AARCH64_ADR_GOT_PAGE"),
            R_AARCH64_LD64_GOT_LO12_NC => Some("R_AARCH64_LD64_GOT_LO12_NC"),
            R_AARCH64_LD64_GOTPAGE_LO15 => Some("R_AARCH64_LD64_GOTPAGE_LO15"),
            R_AARCH64_PLT32 => Some("R_AARCH64_PLT32"),
            R_AARCH64_GOTPCREL32 => Some("R_AARCH64_GOTPCREL32"),
            R_AARCH64_TLSGD_ADR_PREL21 => Some("R_AARCH64_TLSGD_ADR_PREL21"),
            R_AARCH64_TLSGD_ADR_PAGE21 => Some("R_AARCH64_TLSGD_ADR_PAGE21"),
            R_AARCH64_TLSGD_ADD_LO12_NC => Some("R_AARCH64_TLSGD_ADD_LO12_NC"),
            R_AARCH64_TLSGD_MOVW_G1 => Some("R_AARCH64_TLSGD_MOVW_G1"),
            R_AARCH64_TLSGD_MOVW_G0_NC => Some("R_AARCH64_TLSGD_MOVW_G0_NC"),
            R_AARCH64_TLSLD_ADR_PREL21 => Some("R_AARCH64_TLSLD_ADR_PREL21"),
            R_AARCH64_TLSLD_ADR_PAGE21 => Some("R_AARCH64_TLSLD_ADR_PAGE21"),
            R_AARCH64_TLSLD_ADD_LO12_NC => Some("R_AARCH64_TLSLD_ADD_LO12_NC"),
            R_AARCH64_TLSLD_MOVW_G1 => Some("R_AARCH64_TLSLD_MOVW_G1"),
            R_AARCH64_TLSLD_MOVW_G0_NC => Some("R_AARCH64_TLSLD_MOVW_G0_NC"),
            R_AARCH64_TLSLD_LD_PREL19 => Some("R_AARCH64_TLSLD_LD_PREL19"),
            R_AARCH64_TLSLD_MOVW_DTPREL_G2 => Some("R_AARCH64_TLSLD_MOVW_DTPREL_G2"),
            R_AARCH64_TLSLD_MOVW_DTPREL_G1 => Some("R_AARCH64_TLSLD_MOVW_DTPREL_G1"),
            R_AARCH64_TLSLD_MOVW_DTPREL_G1_NC => Some("R_AARCH64_TLSLD_MOVW_DTPREL_G1_NC"),
            R_AARCH64_TLSLD_MOVW_DTPREL_G0 => Some("R_AARCH64_TLSLD_MOVW_DTPREL_G0"),
            R_AARCH64_TLSLD_MOVW_DTPREL_G0_NC => Some("R_AARCH64_TLSLD_MOVW_DTPREL_G0_NC"),
            R_AARCH64_TLSLD_ADD_DTPREL_HI12 => Some("R_AARCH64_TLSLD_ADD_DTPREL_HI12"),
            R_AARCH64_TLSLD_ADD_DTPREL_LO12 => Some("R_AARCH64_TLSLD_ADD_DTPREL_LO12"),
            R_AARCH64_TLSLD_ADD_DTPREL_LO12_NC => Some("R_AARCH64_TLSLD_ADD_DTPREL_LO12_NC"),
            R_AARCH64_TLSLD_LDST8_DTPREL_LO12 => Some("R_AARCH64_TLSLD_LDST8_DTPREL_LO12"),
            R_AARCH64_TLSLD_LDST8_DTPREL_LO12_NC => Some("R_AARCH64_TLSLD_LDST8_DTPREL_LO12_NC"),
            R_AARCH64_TLSLD_LDST16_DTPREL_LO12 => Some("R_AARCH64_TLSLD_LDST16_DTPREL_LO12"),
            R_AARCH64_TLSLD_LDST16_DTPREL_LO12_NC => Some("R_AARCH64_TLSLD_LDST16_DTPREL_LO12_NC"),
            R_AARCH64_TLSLD_LDST32_DTPREL_LO12 => Some("R_AARCH64_TLSLD_LDST32_DTPREL_LO12"),
            R_AARCH64_TLSLD_LDST32_DTPREL_LO12_NC => Some("R_AARCH64_TLSLD_LDST32_DTPREL_LO12_NC"),
            R_AARCH64_TLSLD_LDST64_DTPREL_LO12 => Some("R_AARCH64_TLSLD_LDST64_DTPREL_LO12"),
            R_AARCH64_TLSLD_LDST64_DTPREL_LO12_NC => Some("R_AARCH64_TLSLD_LDST64_DTPREL_LO12_NC"),
            R_AARCH64_TLSIE_MOVW_GOTTPREL_G1 => Some("R_AARCH64_TLSIE_MOVW_GOTTPREL_G1"),
            R_AARCH64_TLSIE_MOVW_GOTTPREL_G0_NC => Some("R_AARCH64_TLSIE_MOVW_GOTTPREL_G0_NC"),
            R_AARCH64_TLSIE_ADR_GOTTPREL_PAGE21 => Some("R_AARCH64_TLSIE_ADR_GOTTPREL_PAGE21"),
            R_AARCH64_TLSIE_LD64_GOTTPREL_LO12_NC => Some("R_AARCH64_TLSIE_LD64_GOTTPREL_LO12_NC"),
            R_AARCH64_TLSIE_LD_GOTTPREL_PREL19 => Some("R_AARCH64_TLSIE_LD_GOTTPREL_PREL19"),
            R_AARCH64_TLSLE_MOVW_TPREL_G2 => Some("R_AARCH64_TLSLE_MOVW_TPREL_G2"),
            R_AARCH64_TLSLE_MOVW_TPREL_G1 => Some("R_AARCH64_TLSLE_MOVW_TPREL_G1"),
            R_AARCH64_TLSLE_MOVW_TPREL_G1_NC => Some("R_AARCH64_TLSLE_MOVW_TPREL_G1_NC"),
            R_AARCH64_TLSLE_MOVW_TPREL_G0 => Some("R_AARCH64_TLSLE_MOVW_TPREL_G0"),
            R_AARCH64_TLSLE_MOVW_TPREL_G0_NC => Some("R_AARCH64_TLSLE_MOVW_TPREL_G0_NC"),
            R_AARCH64_TLSLE_ADD_TPREL_HI12 => Some("R_AARCH64_TLSLE_ADD_TPREL_HI12"),
            R_AARCH64_TLSLE_ADD_TPREL_LO12 => Some("R_AARCH64_TLSLE_ADD_TPREL_LO12"),
            R_AARCH64_TLSLE_ADD_TPREL_LO12_NC => Some("R_AARCH64_TLSLE_ADD_TPREL_LO12_NC"),
            R_AARCH64_TLSLE_LDST8_TPREL_LO12 => Some("R_AARCH64_TLSLE_LDST8_TPREL_LO12"),
            R_AARCH64_TLSLE_LDST8_TPREL_LO12_NC => Some("R_AARCH64_TLSLE_LDST8_TPREL_LO12_NC"),
            R_AARCH64_TLSLE_LDST16_TPREL_LO12 => Some("R_AARCH64_TLSLE_LDST16_TPREL_LO12"),
            R_AARCH64_TLSLE_LDST16_TPREL_LO12_NC => Some("R_AARCH64_TLSLE_LDST16_TPREL_LO12_NC"),
            R_AARCH64_TLSLE_LDST32_TPREL_LO12 => Some("R_AARCH64_TLSLE_LDST32_TPREL_LO12"),
            R_AARCH64_TLSLE_LDST32_TPREL_LO12_NC => Some("R_AARCH64_TLSLE_LDST32_TPREL_LO12_NC"),
            R_AARCH64_TLSLE_LDST64_TPREL_LO12 => Some("R_AARCH64_TLSLE_LDST64_TPREL_LO12"),
            R_AARCH64_TLSLE_LDST64_TPREL_LO12_NC => Some("R_AARCH64_TLSLE_LDST64_TPREL_LO12_NC"),
            R_AARCH64_TLSDESC_LD_PREL19 => Some("R_AARCH64_TLSDESC_LD_PREL19"),
            R_AARCH64_TLSDESC_ADR_PREL21 => Some("R_AARCH64_TLSDESC_ADR_PREL21"),
            R_AARCH64_TLSDESC_ADR_PAGE21 => Some("R_AARCH64_TLSDESC_ADR_PAGE21"),
            R_AARCH64_TLSDESC_LD64_LO12 => Some("R_AARCH64_TLSDESC_LD64_LO12"),
            R_AARCH64_TLSDESC_ADD_LO12 => Some("R_AARCH64_TLSDESC_ADD_LO12"),
            R_AARCH64_TLSDESC_OFF_G1 => Some("R_AARCH64_TLSDESC_OFF_G1"),
            R_AARCH64_TLSDESC_OFF_G0_NC => Some("R_AARCH64_TLSDESC_OFF_G0_NC"),
            R_AARCH64_TLSDESC_LDR => Some("R_AARCH64_TLSDESC_LDR"),
            R_AARCH64_TLSDESC_ADD => Some("R_AARCH64_TLSDESC_ADD"),
            R_AARCH64_TLSDESC_CALL => Some("R_AARCH64_TLSDESC_CALL"),
            R_AARCH64_TLSLE_LDST128_TPREL_LO12 => Some("R_AARCH64_TLSLE_LDST128_TPREL_LO12"),
            R_AARCH64_TLSLE_LDST128_TPREL_LO12_NC => Some("R_AARCH64_TLSLE_LDST128_TPREL_LO12_NC"),
            R_AARCH64_TLSLD_LDST128_DTPREL_LO12 => Some("R_AARCH64_TLSLD_LDST128_DTPREL_LO12"),
            R_AARCH64_TLSLD_LDST128_DTPREL_LO12_NC => Some("R_AARCH64_TLSLD_LDST128_DTPREL_LO12_NC"),
            R_AARCH64_AUTH_ABS64 => Some("R_AARCH64_AUTH_ABS64"),
            R_AARCH64_COPY => Some("R_AARCH64_COPY"),
            R_AARCH64_GLOB_DAT => Some("R_AARCH64_GLOB_DAT"),
            R_AARCH64_JUMP_SLOT => Some("R_AARCH64_JUMP_SLOT"),
            R_AARCH64_RELATIVE => Some("R_AARCH64_RELATIVE"),
            R_AARCH64_TLS_DTPMOD64 => Some("R_AARCH64_TLS_DTPMOD64"),
            R_AARCH64_TLS_DTPREL64 => Some("R_AARCH64_TLS_DTPREL64"),
            R_AARCH64_TLS_TPREL64 => Some("R_AARCH64_TLS_TPREL64"),
            R_AARCH64_TLSDESC => Some("R_AARCH64_TLSDESC"),
            R_AARCH64_IRELATIVE => Some("R_AARCH64_IRELATIVE"),
            _ => None,
        }),
{
    match r_type {
        R_AARCH64_NONE => Some("R_AARCH64_NONE"),
        R_AARCH64_NULL => Some("R_AARCH64_NULL"),
        R_AARCH64_ABS64 => Some("R_AARCH64_ABS64"),
        R_AARCH64_ABS32 => Some("R_AARCH64_ABS32"),
        R_AARCH64_ABS16 => Some("R_AARCH64_ABS16"),
        R_AARCH64_PREL64 => Some("R_AARCH64_PREL64"),
        R_AARCH64_PREL32 => Some("R_AARCH64_PREL32"),
        R_AARCH64_PREL16 => Some("R_AARCH64_PREL16"),
        R_AARCH64_MOVW_UABS_G0 => Some("R_AARCH64_MOVW_UABS_G0"),
        R_AARCH64_MOVW_UABS_G0_NC => Some("R_AARCH64_MOVW_UABS_G0_NC"),
        R_AARCH64_MOVW_UABS_G1 => Some("R_AARCH64_MOVW_UABS_G1"),
        R_AARCH64_MOVW_UABS_G1_NC => Some("R_AARCH64_MOVW_UABS_G1_NC"),
        R_AARCH64_MOVW_UABS_G2 => Some("R_AARCH64_MOVW_UABS_G2"),
        R_AARCH64_MOVW_UABS_G2_NC => Some("R_AARCH64_MOVW_UABS_G2_NC"),
        R_AARCH64_MOVW_UABS_G3 => Some("R_AARCH64_MOVW_UABS_G3"),
        R_AARCH64_MOVW_SABS_G0 => Some("R_AARCH64_MOVW_SABS_G0"),
        R_AARCH64_MOVW_SABS_G1 => Some("R_AARCH64_MOVW_SABS_G1"),
        R_AARCH64_MOVW_SABS_G2 => Some("R_AARCH64_MOVW_SABS_G2"),
        R_AARCH64_LD_PREL_LO19 => Some("R_AARCH64_LD_PREL_LO19"),
        R_AARCH64_ADR_PREL_LO21 => Some("R_AARCH64_ADR_PREL_LO21"),
        R_AARCH64_ADR_PREL_PG_HI21 => Some("R_AARCH64_ADR_PREL_PG_HI21"),
        R_AARCH64_ADR_PREL_PG_HI21_NC => Some("R_AARCH64_ADR_PREL_PG_HI21_NC"),
        R_AARCH64_ADD_ABS_LO12_NC => Some("R_AARCH64_ADD_ABS_LO12_NC"),
        R_AARCH64_LDST8_ABS_LO12_NC => Some("R_AARCH64_LDST8_ABS_LO12_NC"),
        R_AARCH64_TSTBR14 => Some("R_AARCH64_TSTBR14"),
        R_AARCH64_CONDBR19 => Some("R_AARCH64_CONDBR19"),
        R_AARCH64_JUMP26 => Some("R_AARCH64_JUMP26"),
        R_AARCH64_CALL26 => Some("R_AARCH64_CALL26"),
        R_AARCH64_LDST16_ABS_LO12_NC => Some("R_AARCH64_LDST16_ABS_LO12_NC"),
        R_AARCH64_LDST32_ABS_LO12_NC => Some("R_AARCH64_LDST32_ABS_LO12_NC"),
        R_AARCH64_LDST64_ABS_LO12_NC => Some("R_AARCH64_LDST64_ABS_LO12_NC"),
        R_AARCH64_MOVW_PREL_G0 => Some("R_AARCH64_MOVW_PREL_G0"),
        R_AARCH64_MOVW_PREL_G0_NC => Some("R_AARCH64_MOVW_PREL_G0_NC"),
        R_AARCH64_MOVW_PREL_G1 => Some("R_AARCH64_MOVW_PREL_G1"),
        R_AARCH64_MOVW_PREL_G1_NC => Some("R_AARCH64_MOVW_PREL_G1_NC"),
        R_AARCH64_MOVW_PREL_G2 => Some("R_AARCH64_MOVW_PREL_G2"),
        R_AARCH64_MOVW_PREL_G2_NC => Some("R_AARCH64_MOVW_PREL_G2_NC"),
        R_AARCH64_MOVW_PREL_G3 => Some("R_AARCH64_MOVW_PREL_G3"),
        R_AARCH64_LDST128_ABS_LO12_NC => Some("R_AARCH64_LDST128_ABS_LO12_NC"),
        R_AARCH64_MOVW_GOTOFF_G0 => Some("R_AARCH64_MOVW_GOTOFF_G0"),
        R_AARCH64_MOVW_GOTOFF_G0_NC => Some("R_AARCH64_MOVW_GOTOFF_G0_NC"),
        R_AARCH64_MOVW_GOTOFF_G1 => Some("R_AARCH64_MOVW_GOTOFF_G1"),
        R_AARCH64_MOVW_GOTOFF_G1_NC => Some("R_AARCH64_MOVW_GOTOFF_G1_NC"),
        R_AARCH64_MOVW_GOTOFF_G2 => Some("R_AARCH64_MOVW_GOTOFF_G2"),
        R_AARCH64_MOVW_GOTOFF_G2_NC => Some("R_AARCH64_MOVW_GOTOFF_G2_NC"),
        R_AARCH64_MOVW_GOTOFF_G3 => Some("R_AARCH64_MOVW_GOTOFF_G3"),
        R_AARCH64_GOTREL64 => Some("R_AARCH64_GOTREL64"),
        R_AARCH64_GOTREL32 => Some("R_AARCH64_GOTREL32"),
        R_AARCH64_GOT_LD_PREL19 => Some("R_AARCH64_GOT_LD_PREL19"),
        R_AARCH64_LD64_GOTOFF_LO15 => Some("R_AARCH64_LD64_GOTOFF_LO15"),
        R_AARCH64_ADR_GOT_PAGE => Some("R_AARCH64_ADR_GOT_PAGE"),
        R_AARCH64_LD64_GOT_LO12_NC => Some("R_AARCH64_LD64_GOT_LO12_NC"),
        R_AARCH64_LD64_GOTPAGE_LO15 => Some("R_AARCH64_LD64_GOTPAGE_LO15"),
        R_AARCH64_PLT32 => Some("R_AARCH64_PLT32"),
        R_AARCH64_GOTPCREL32 => Some("R_AARCH64_GOTPCREL32"),
        R_AARCH64_TLSGD_ADR_PREL21 => Some("R_AARCH64_TLSGD_ADR_PREL21"),
        R_AARCH64_TLSGD_ADR_PAGE21 => Some("R_AARCH64_TLSGD_ADR_PAGE21"),
        R_AARCH64_TLSGD_ADD_LO12_NC => Some("R_AARCH64_TLSGD_ADD_LO12_NC"),
        R_AARCH64_TLSGD_MOVW_G1 => Some("R_AARCH64_TLSGD_MOVW_G1"),
        R_AARCH64_TLSGD_MOVW_G0_NC => Some("R_AARCH64_TLSGD_MOVW_G0_NC"),
        R_AARCH64_TLSLD_ADR_PREL21 => Some("R_AARCH64_TLSLD_ADR_PREL21"),
        R_AARCH64_TLSLD_ADR_PAGE21 => Some("R_AARCH64_TLSLD_ADR_PAGE21"),
        R_AARCH64_TLSLD_ADD_LO12_NC => Some("R_AARCH64_TLSLD_ADD_LO12_NC"),
        R_AARCH64_TLSLD_MOVW_G1 => Some("R_AARCH64_TLSLD_MOVW_G1"),
        R_AARCH64_TLSLD_MOVW_G0_NC => Some("R_AARCH64_TLSLD_MOVW_G0_NC"),
        R_AARCH64_TLSLD_LD_PREL19 => Some("R_AARCH64_TLSLD_LD_PREL19"),
        R_AARCH64_TLSLD_MOVW_DTPREL_G2 => Some("R_AARCH64_TLSLD_MOVW_DTPREL_G2"),
        R_AARCH64_TLSLD_MOVW_DTPREL_G1 => Some("R_AARCH64_TLSLD_MOVW_DTPREL_G1"),
        R_AARCH64_TLSLD_MOVW_DTPREL_G1_NC => Some("R_AARCH64_TLSLD_MOVW_DTPREL_G1_NC"),
        R_AARCH64_TLSLD_MOVW_DTPREL_G0 => Some("R_AARCH64_TLSLD_MOVW_DTPREL_G0"),
        R_AARCH64_TLSLD_MOVW_DTPREL_G0_NC => Some("R_AARCH64_TLSLD_MOVW_DTPREL_G0_NC"),
        R_AARCH64_TLSLD_ADD_DTPREL_HI12 => Some("R_AARCH64_TLSLD_ADD_DTPREL_HI12"),
        R_AARCH64_TLSLD_ADD_DTPREL_LO12 => Some("R_AARCH64_TLSLD_ADD_DTPREL_LO12"),
        R_AARCH64_TLSLD_ADD_DTPREL_LO12_NC => Some("R_AARCH64_TLSLD_ADD_DTPREL_LO12_NC"),
        R_AARCH64_TLSLD_LDST8_DTPREL_LO12 => Some("R_AARCH64_TLSLD_LDST8_DTPREL_LO12"),
        R_AARCH64_TLSLD_LDST8_DTPREL_LO12_NC => Some("R_AARCH64_TLSLD_LDST8_DTPREL_LO12_NC"),
        R_AARCH64_TLSLD_LDST16_DTPREL_LO12 => Some("R_AARCH64_TLSLD_LDST16_DTPREL_LO12"),
        R_AARCH64_TLSLD_LDST16_DTPREL_LO12_NC => Some("R_AARCH64_TLSLD_LDST16_DTPREL_LO12_NC"),
        R_AARCH64_TLSLD_LDST32_DTPREL_LO12 => Some("R_AARCH64_TLSLD_LDST32_DTPREL_LO12"),
        R_AARCH64_TLSLD_LDST32_DTPREL_LO12_NC => Some("R_AARCH64_TLSLD_LDST32_DTPREL_LO12_NC"),
        R_AARCH64_TLSLD_LDST64_DTPREL_LO12 => Some("R_AARCH64_TLSLD_LDST64_DTPREL_LO12"),
        R_AARCH64_TLSLD_LDST64_DTPREL_LO12_NC => Some("R_AARCH64_TLSLD_LDST64_DTPREL_LO12_NC"),
        R_AARCH64_TLSIE_MOVW_GOTTPREL_G1 => Some("R_AARCH64_TLSIE_MOVW_GOTTPREL_G1"),
        R_AARCH64_TLSIE_MOVW_GOTTPREL_G0_NC => Some("R_AARCH64_TLSIE_MOVW_GOTTPREL_G0_NC"),
        R_AARCH64_TLSIE_ADR_GOTTPREL_PAGE21 => Some("R_AARCH64_TLSIE_ADR_GOTTPREL_PAGE21"),
        R_AARCH64_TLSIE_LD64_GOTTPREL_LO12_NC => Some("R_AARCH64_TLSIE_LD64_GOTTPREL_LO12_NC"),
        R_AARCH64_TLSIE_LD_GOTTPREL_PREL19 => Some("R_AARCH64_TLSIE_LD_GOTTPREL_PREL19"),
        R_AARCH64_TLSLE_MOVW_TPREL_G2 => Some("R_AARCH64_TLSLE_MOVW_TPREL_G2"),
        R_AARCH64_TLSLE_MOVW_TPREL_G1 => Some("R_AARCH64_TLSLE_MOVW_TPREL_G1"),
        R_AARCH64_TLSLE_MOVW_TPREL_G1_NC => Some("R_AARCH64_TLSLE_MOVW_TPREL_G1_NC"),
        R_AARCH64_TLSLE_MOVW_TPREL_G0 => Some("R_AARCH64_TLSLE_MOVW_TPREL_G0"),
        R_AARCH64_TLSLE_MOVW_TPREL_G0_NC => Some("R_AARCH64_TLSLE_MOVW_TPREL_G0_NC"),
        R_AARCH64_TLSLE_ADD_TPREL_HI12 => Some("R_AARCH64_TLSLE_ADD_TPREL_HI12"),
        R_AARCH64_TLSLE_ADD_TPREL_LO12 => Some("R_AARCH64_TLSLE_ADD_TPREL_LO12"),
        R_AARCH64_TLSLE_ADD_TPREL_LO12_NC => Some("R_AARCH64_TLSLE_ADD_TPREL_LO12_NC"),
        R_AARCH64_TLSLE_LDST8_TPREL_LO12 => Some("R_AARCH64_TLSLE_LDST8_TPREL_LO12"),
        R_AARCH64_TLSLE_LDST8_TPREL_LO12_NC => Some("R_AARCH64_TLSLE_LDST8_TPREL_LO12_NC"),
        R_AARCH64_TLSLE_LDST16_TPREL_LO12 => Some("R_AARCH64_TLSLE_LDST16_TPREL_LO12"),
        R_AARCH64_TLSLE_LDST16_TPREL_LO12_NC => Some("R_AARCH64_TLSLE_LDST16_TPREL_LO12_NC"),
        R_AARCH64_TLSLE_LDST32_TPREL_LO12 => Some("R_AARCH64_TLSLE_LDST32_TPREL_LO12"),
        R_AARCH64_TLSLE_LDST32_TPREL_LO12_NC => Some("R_AARCH64_TLSLE_LDST32_TPREL_LO12_NC"),
        R_AARCH64_TLSLE_LDST64_TPREL_LO12 => Some("R_AARCH64_TLSLE_LDST64_TPREL_LO12"),
        R_AARCH64_TLSLE_LDST64_TPREL_LO12_NC => Some("R_AARCH64_TLSLE_LDST64_TPREL_LO12_NC"),
        R_AARCH64_TLSDESC_LD_PREL19 => Some("R_AARCH64_TLSDESC_LD_PREL19"),
        R_AARCH64_TLSDESC_ADR_PREL21 => Some("R_AARCH64_TLSDESC_ADR_PREL21"),
        R_AARCH64_TLSDESC_ADR_PAGE21 => Some("R_AARCH64_TLSDESC_ADR_PAGE21"),
        R_AARCH64_TLSDESC_LD64_LO12 => Some("R_AARCH64_TLSDESC_LD64_LO12"),
        R_AARCH64_TLSDESC_ADD_LO12 => Some("R_AARCH64_TLSDESC_ADD_LO12"),
        R_AARCH64_TLSDESC_OFF_G1 => Some("R_AARCH64_TLSDESC_OFF_G1"),
        R_AARCH64_TLSDESC_OFF_G0_NC => Some("R_AARCH64_TLSDESC_OFF_G0_NC"),
        R_AARCH64_TLSDESC_LDR => Some("R_AARCH64_TLSDESC_LDR"),
        R_AARCH64_TLSDESC_ADD => Some("R_AARCH64_TLSDESC_ADD"),
        R_AARCH64_TLSDESC_CALL => Some("R_AARCH64_TLSDESC_CALL"),
        R_AARCH64_TLSLE_LDST128_TPREL_LO12 => Some("R_AARCH64_TLSLE_LDST128_TPREL_LO12"),
        R_AARCH64_TLSLE_LDST128_TPREL_LO12_NC => Some("R_AARCH64_TLSLE_LDST128_TPREL_LO12_NC"),
        R_AARCH64_TLSLD_LDST128_DTPREL_LO12 => Some("R_AARCH64_TLSLD_LDST128_DTPREL_LO12"),
        R_AARCH64_TLSLD_LDST128_DTPREL_LO12_NC => Some("R_AARCH64_TLSLD_LDST128_DTPREL_LO12_NC"),
        R_AARCH64_AUTH_ABS64 => Some("R_AARCH64_AUTH_ABS64"),
        R_AARCH64_COPY => Some("R_AARCH64_COPY"),
        R_AARCH64_GLOB_DAT => Some("R_AARCH64_GLOB_DAT"),
        R_AARCH64_JUMP_SLOT => Some("R_AARCH64_JUMP_SLOT"),
        R_AARCH64_RELATIVE => Some("R_AARCH64_RELATIVE"),
        R_AARCH64_TLS_DTPMOD64 => Some("R_AARCH64_TLS_DTPMOD64"),
        R_AARCH64_TLS_DTPREL64 => Some("R_AARCH64_TLS_DTPREL64"),
        R_AARCH64_TLS_TPREL64 => Some("R_AARCH64_TLS_TPREL64"),
        R_AARCH64_TLSDESC => Some("R_AARCH64_TLSDESC"),
        R_AARCH64_IRELATIVE => Some("R_AARCH64_IRELATIVE"),
        _ => None,
    }
}

} // verus!
