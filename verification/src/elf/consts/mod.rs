//! Numbers of the ELF format.

pub mod aarch64;
pub mod i386;
pub mod ppc64;
pub mod riscv;
pub mod x86_64;

use vstd::prelude::*;

verus! {

/// No machine.
pub const EM_NONE: u16 = 0;

/// PowerPC64.
pub const EM_PPC64: u16 = 21;

/// 32-bit Arm.
pub const EM_ARM: u16 = 40;

/// x86-64.
pub const EM_X86_64: u16 = 62;

/// AArch64.
pub const EM_AARCH64: u16 = 183;

/// RISC-V.
pub const EM_RISCV: u16 = 243;

/// Section flag: writable.
pub const SHF_WRITE: u64 = 1;

/// Section flag: occupies memory.
pub const SHF_ALLOC: u64 = 2;

/// Section flag: holds code.
pub const SHF_EXECINSTR: u64 = 4;

/// Section flag: linked order follows another section.
pub const SHF_LINK_ORDER: u64 = 0x80;

/// Section type: contents.
pub const SHT_PROGBITS: u32 = 1;

/// Section type: symbols.
pub const SHT_SYMTAB: u32 = 2;

/// Section type: strings.
pub const SHT_STRTAB: u32 = 3;

/// Section type: no contents in the file.
pub const SHT_NOBITS: u32 = 8;

/// Section type of `.riscv.attributes`.
pub const SHT_RISCV_ATTRIBUTES: u32 = 0x7000_0003;

/// Section index: undefined.
pub const SHN_UNDEF: u16 = 0;

/// First reserved section index.
pub const SHN_LORESERVE: u16 = 0xff00;

/// Section index: an absolute value.
pub const SHN_ABS: u16 = 0xfff1;

/// Symbol binding: local.
pub const STB_LOCAL: u8 = 0;

/// Symbol binding: global.
pub const STB_GLOBAL: u8 = 1;

/// Symbol binding: weak.
pub const STB_WEAK: u8 = 2;

/// Symbol type: none.
pub const STT_NOTYPE: u8 = 0;

/// Symbol type: data.
pub const STT_OBJECT: u8 = 1;

/// Symbol type: code.
pub const STT_FUNC: u8 = 2;

/// Symbol type: a section.
pub const STT_SECTION: u8 = 3;

/// Symbol type: thread-local data.
pub const STT_TLS: u8 = 6;

/// Symbol type: an indirect function.
pub const STT_GNU_IFUNC: u8 = 10;

/// Symbol visibility: default.
pub const STV_DEFAULT: u8 = 0;

/// Symbol visibility: internal.
pub const STV_INTERNAL: u8 = 1;

/// Symbol visibility: hidden.
pub const STV_HIDDEN: u8 = 2;

/// Symbol visibility: protected.
pub const STV_PROTECTED: u8 = 3;

/// Version index: local.
pub const VER_NDX_LOCAL: u16 = 0;

/// Version index: global, unversioned.
pub const VER_NDX_GLOBAL: u16 = 1;

/// Version flag: the base version of a file.
pub const VER_FLG_BASE: u16 = 1;

/// Dynamic tag.
pub const DT_NULL: i64 = 0;

/// Dynamic tag.
pub const DT_NEEDED: i64 = 1;

/// Dynamic tag.
pub const DT_PLTRELSZ: i64 = 2;

/// Dynamic tag.
pub const DT_PLTGOT: i64 = 3;

/// Dynamic tag.
pub const DT_HASH: i64 = 4;

/// Dynamic tag.
pub const DT_STRTAB: i64 = 5;

/// Dynamic tag.
pub const DT_SYMTAB: i64 = 6;

/// Dynamic tag.
pub const DT_RELA: i64 = 7;

/// Dynamic tag.
pub const DT_RELASZ: i64 = 8;

/// Dynamic tag.
pub const DT_RELAENT: i64 = 9;

/// Dynamic tag.
pub const DT_STRSZ: i64 = 10;

/// Dynamic tag.
pub const DT_SYMENT: i64 = 11;

/// Dynamic tag.
pub const DT_INIT: i64 = 12;

/// Dynamic tag.
pub const DT_FINI: i64 = 13;

/// Dynamic tag.
pub const DT_SONAME: i64 = 14;

/// Dynamic tag.
pub const DT_RPATH: i64 = 15;

/// Dynamic tag.
pub const DT_SYMBOLIC: i64 = 16;

/// Dynamic tag.
pub const DT_PLTREL: i64 = 20;

/// Dynamic tag.
pub const DT_DEBUG: i64 = 21;

/// Dynamic tag.
pub const DT_TEXTREL: i64 = 22;

/// Dynamic tag.
pub const DT_JMPREL: i64 = 23;

/// Dynamic tag.
pub const DT_INIT_ARRAY: i64 = 25;

/// Dynamic tag.
pub const DT_FINI_ARRAY: i64 = 26;

/// Dynamic tag.
pub const DT_INIT_ARRAYSZ: i64 = 27;

/// Dynamic tag.
pub const DT_FINI_ARRAYSZ: i64 = 28;

/// Dynamic tag.
pub const DT_RUNPATH: i64 = 29;

/// Dynamic tag.
pub const DT_FLAGS: i64 = 30;

/// Dynamic tag.
pub const DT_PREINIT_ARRAY: i64 = 32;

/// Dynamic tag.
pub const DT_PREINIT_ARRAYSZ: i64 = 33;

/// Dynamic tag.
pub const DT_RELRSZ: i64 = 35;

/// Dynamic tag.
pub const DT_RELR: i64 = 36;

/// Dynamic tag.
pub const DT_RELRENT: i64 = 37;

/// Dynamic tag.
pub const DT_GNU_HASH: i64 = 0x6fff_fef5;

/// Dynamic tag.
pub const DT_VERSYM: i64 = 0x6fff_fff0;

/// Dynamic tag.
pub const DT_RELACOUNT: i64 = 0x6fff_fff9;

/// Dynamic tag.
pub const DT_FLAGS_1: i64 = 0x6fff_fffb;

/// Dynamic tag.
pub const DT_VERDEF: i64 = 0x6fff_fffc;

/// Dynamic tag.
pub const DT_VERDEFNUM: i64 = 0x6fff_fffd;

/// Dynamic tag.
pub const DT_VERNEED: i64 = 0x6fff_fffe;

/// Dynamic tag.
pub const DT_VERNEEDNUM: i64 = 0x6fff_ffff;

/// Dynamic tag.
pub const DT_AUXILIARY: i64 = 0x7fff_fffd;

/// Dynamic tag.
pub const DT_FILTER: i64 = 0x7fff_ffff;

/// Flag of `DT_FLAGS`.
pub const DF_ORIGIN: u64 = 1;

/// Flag of `DT_FLAGS`.
pub const DF_SYMBOLIC: u64 = 2;

/// Flag of `DT_FLAGS`.
pub const DF_TEXTREL: u64 = 4;

/// Flag of `DT_FLAGS`.
pub const DF_BIND_NOW: u64 = 8;

/// Flag of `DT_FLAGS`.
pub const DF_STATIC_TLS: u64 = 0x10;

/// Flag of `DT_FLAGS_1`.
pub const DF_1_NOW: u64 = 1;

/// Flag of `DT_FLAGS_1`.
pub const DF_1_GLOBAL: u64 = 2;

/// Flag of `DT_FLAGS_1`.
pub const DF_1_NODELETE: u64 = 8;

/// Flag of `DT_FLAGS_1`.
pub const DF_1_LOADFLTR: u64 = 0x10;

/// Flag of `DT_FLAGS_1`.
pub const DF_1_INITFIRST: u64 = 0x20;

/// Flag of `DT_FLAGS_1`.
pub const DF_1_NOOPEN: u64 = 0x40;

/// Flag of `DT_FLAGS_1`.
pub const DF_1_ORIGIN: u64 = 0x80;

/// Flag of `DT_FLAGS_1`.
pub const DF_1_INTERPOSE: u64 = 0x400;

/// Flag of `DT_FLAGS_1`.
pub const DF_1_NODEFLIB: u64 = 0x800;

/// Flag of `DT_FLAGS_1`.
pub const DF_1_NODUMP: u64 = 0x1000;

/// Flag of `DT_FLAGS_1`.
pub const DF_1_SINGLETON: u64 = 0x200_0000;

/// Flag of `DT_FLAGS_1`.
pub const DF_1_PIE: u64 = 0x800_0000;

} // verus!
