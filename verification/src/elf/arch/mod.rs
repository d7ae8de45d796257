//! Per-architecture relocation handling.

pub mod aarch64;
pub mod aarch64_errata;
pub mod apply;
pub mod arm;
pub mod build_attributes;
pub mod dispatch;
pub mod fields;
pub mod i386;
pub mod loongarch;
pub mod patch;
pub mod ppc64;
pub mod riscv;
pub mod s390x;
pub mod shrink;
pub mod thunk;
pub mod x86_64;

use vstd::prelude::*;

pub use fields::{add_value, width_bytes, write_value};

verus! {

/// The architecture an ELF link targets.
#[derive(Clone, Copy, Debug, PartialEq, Eq, Hash, Structural)]
pub enum Arch {
    /// x86-64.
    X86_64,
    /// AArch64 (LP64, little-endian).
    AArch64,
    /// PowerPC64, little-endian, ELFv2 ABI.
    Ppc64,
    /// 32-bit Arm, little-endian, EABI.
    Arm,
    /// RISC-V, 64-bit.
    RiscV64,
}

impl Default for Arch {
    fn default() -> (r: Self)
        ensures
            r == Arch::X86_64,
    {
        Arch::X86_64
    }
}

/// What a relocation computes.
///
/// `S` is the symbol's address, `A` the addend, `P` the place being
/// relocated, `G` the address of the symbol's GOT entry (of the
/// relocation's [`GotKind`]), `GOT` the GOT base, `TP` the thread pointer
/// and `Page(x)` the address with its low 12 bits cleared.
#[derive(Clone, Copy, Debug, PartialEq, Eq, Structural)]
pub enum Kind {
    /// Nothing to do.
    Nothing,
    /// `S + A`.
    Abs,
    /// `S + A - P`.
    Pc,
    /// `Page(S + A) - Page(P)`.
    Page,
    /// The low part of `S + A` whose high part [`Kind::Page`] computes.
    PageOff,
    /// `G + A - P`.
    Got,
    /// `Page(G + A) - Page(P)`.
    GotPage,
    /// `G + A`.
    GotAbs,
    /// `G + A - Page(GOT)`.
    GotPageOff,
    /// `G + A - GOT`.
    GotSlotRel,
    /// `S + A - GOT`.
    GotRel,
    /// `GOT + A - P`.
    GotBasePc,
    /// `Z + A`, the symbol's size.
    Size,
    /// `A` alone: a hint whose addend locates a related instruction
    /// (PowerPC64 `R_PPC64_PCREL_OPT`).
    Addend,
    /// `S + A` added to what the field holds.
    Add,
    /// `S + A` subtracted from what the field holds.
    Sub,
    /// A hint that the sequence here may be rewritten.
    Relax,
    /// A GOT load that becomes the address itself; the GOT entry stays.
    GotRelax,
    /// `S + A - TP`.
    TpOff,
    /// `S + A - TLS block start` in non-allocated sections, `S + A - TP` in
    /// allocated ones (local-dynamic code relaxed to local-exec).
    DtpOff,
    /// x86: a relaxed `GOTPCRELX`, `S + A - P` with the instruction
    /// rewritten.
    RelaxGotPc,
    /// x86: a relaxed GOT load with an immediate operand, `S`.
    RelaxGotPcNoPic,
    /// x86: a relaxed GOT load relative to the GOT base, `S + A - GOT`.
    RelaxGotOff,
    /// General-dynamic → local-exec.
    GdToLe,
    /// Local-dynamic → local-exec.
    LdToLe,
    /// Initial-exec → local-exec.
    IeToLe,
    /// TLS descriptor → local-exec.
    DescToLe,
    /// A TLS descriptor call that becomes a no-op.
    DescCallToLe,
    /// General-dynamic → initial-exec.
    GdToIe,
    /// TLS descriptor → initial-exec.
    DescToIe,
}

/// What a GOT entry holds.
#[derive(Clone, Copy, Debug, PartialEq, Eq, Structural)]
pub enum GotKind {
    /// The symbol's address (one word).
    Address,
    /// TLS module ID and offset (two words).
    TlsGd,
    /// The thread pointer offset (one word).
    TpOff,
    /// A TLS descriptor (two words).
    TlsDesc,
    /// The module-local TLS module ID and a zero offset (two words).
    TlsLd,
}

impl Default for GotKind {
    fn default() -> (r: Self)
        ensures
            r == GotKind::Address,
    {
        GotKind::Address
    }
}

/// How the computed value is stored.
#[derive(Clone, Copy, Debug, PartialEq, Eq, Structural)]
pub enum Width {
    /// Nothing is written.
    Nothing,
    /// 8 bytes.
    W64,
    /// 4 bytes, zero-extended by the processor.
    U32,
    /// 4 bytes, sign-extended.
    I32,
    /// 4 bytes, signed or unsigned.
    Any32,
    /// 2 bytes, signed or unsigned.
    Any16,
    /// 2 bytes, signed.
    I16,
    /// 1 byte, signed or unsigned.
    Any8,
    /// 1 byte, signed.
    I8,
    /// An AArch64 instruction (or data) field.
    Field(crate::arch::aarch64::Field),
    /// A PowerPC64 instruction (or data) field.
    Ppc(crate::arch::ppc64::Field),
    /// An Arm instruction (or data) field.
    Arm(crate::arch::arm::Field),
    /// A LoongArch instruction field.
    LoongArch(crate::arch::loongarch::Field),
    /// A RISC-V instruction (or data) field.
    RiscV(crate::arch::riscv::Field),
    /// An s390x instruction field.
    S390(crate::arch::s390x::Field),
}

/// A classified relocation.
#[derive(Clone, Copy, Debug, PartialEq, Eq, Structural)]
pub struct Class {
    /// What to compute.
    pub kind: Kind,
    /// How to store it.
    pub width: Width,
    /// Which GOT entry the `Got*` kinds use.
    pub slot: GotKind,
    /// The relocation that follows is part of this one's sequence and must
    /// not be processed again (the call a TLS relaxation removes).
    pub skip_next: bool,
}

impl Class {
    /// A classification with no GOT entry and no skipped successor.
    #[verifier::allow_in_spec]
    pub fn new(kind: Kind, width: Width) -> Self
        returns
            (Class { kind, width, slot: GotKind::Address, skip_next: false }),
    {
        Class { kind, width, slot: GotKind::Address, skip_next: false }
    }

    /// The same classification through GOT entry `slot`.
    #[verifier::allow_in_spec]
    pub fn through(self, slot: GotKind) -> Self
        returns
            (Class { slot, ..self }),
    {
        Class { slot, ..self }
    }

    /// The same classification, consuming the relocation that follows.
    #[verifier::allow_in_spec]
    pub fn skipping(self) -> Self
        returns
            (Class { skip_next: true, ..self }),
    {
        Class { skip_next: true, ..self }
    }

    /// Whether the relocation reads a GOT entry, and so needs one.
    #[verifier::allow_in_spec]
    pub fn needs_got(self) -> bool
        returns
            (match self.kind {
                Kind::Got
                | Kind::GotPage
                | Kind::GotAbs
                | Kind::GotPageOff
                | Kind::GotSlotRel
                | Kind::GotRelax => true,
                _ => false,
            }),
    {
        match self.kind {
            Kind::Got
            | Kind::GotPage
            | Kind::GotAbs
            | Kind::GotPageOff
            | Kind::GotSlotRel
            | Kind::GotRelax => true,
            _ => false,
        }
    }

    /// Whether the relocation uses the GOT base, so `_GLOBAL_OFFSET_TABLE_`
    /// must exist.
    #[verifier::allow_in_spec]
    pub fn uses_got_base(self) -> bool
        returns
            (match self.kind {
                Kind::GotSlotRel | Kind::GotRel | Kind::GotBasePc | Kind::GotPageOff => true,
                _ => false,
            }),
    {
        match self.kind {
            Kind::GotSlotRel | Kind::GotRel | Kind::GotBasePc | Kind::GotPageOff => true,
            _ => false,
        }
    }

    /// Whether the relocation is an initial-exec access through a GOT entry
    /// holding the thread pointer offset.
    #[verifier::allow_in_spec]
    pub fn needs_gottpoff(self) -> bool
        returns
            (match self.kind {
                Kind::GdToIe | Kind::DescToIe => true,
                _ => self.needs_got() && self.slot == GotKind::TpOff,
            }),
    {
        match self.kind {
            Kind::GdToIe | Kind::DescToIe => true,
            _ => self.needs_got() && self.slot == GotKind::TpOff,
        }
    }

    /// Whether the relocation is a TLS access.
    #[verifier::allow_in_spec]
    pub fn is_tls(self) -> bool
        returns
            (match self.kind {
                Kind::TpOff
                | Kind::DtpOff
                | Kind::GdToLe
                | Kind::LdToLe
                | Kind::IeToLe
                | Kind::DescToLe
                | Kind::DescCallToLe
                | Kind::GdToIe
                | Kind::DescToIe => true,
                _ => self.needs_got() && self.slot != GotKind::Address,
            }),
    {
        match self.kind {
            Kind::TpOff
            | Kind::DtpOff
            | Kind::GdToLe
            | Kind::LdToLe
            | Kind::IeToLe
            | Kind::DescToLe
            | Kind::DescCallToLe
            | Kind::GdToIe
            | Kind::DescToIe => true,
            _ => self.needs_got() && self.slot != GotKind::Address,
        }
    }
}

/// How TLS accesses to one variable are linked.
#[derive(Clone, Copy, Debug, PartialEq, Eq, Structural)]
pub enum TlsMode {
    /// The variable is in the executable being linked: relax to local-exec.
    LocalExec,
    /// An executable accessing a shared library's variable: relax
    /// general-dynamic and descriptors to initial-exec.
    InitialExec,
    /// A shared object: keep the dynamic models.
    Dynamic,
}

/// Whether a kind rewrites a TLS access into one of another model.
pub open spec fn changes_tls_model(kind: Kind) -> bool {
    match kind {
        Kind::GdToLe
        | Kind::LdToLe
        | Kind::IeToLe
        | Kind::DescToLe
        | Kind::DescCallToLe
        | Kind::GdToIe
        | Kind::DescToIe => true,
        _ => false,
    }
}

/// Whether a kind rewrites an x86 load from the GOT.
pub open spec fn replaces_got_load(kind: Kind) -> bool {
    match kind {
        Kind::RelaxGotPc | Kind::RelaxGotPcNoPic | Kind::RelaxGotOff => true,
        _ => false,
    }
}

/// What [`Arch::classify`] needs to know besides the relocation.
#[derive(Clone, Copy, Debug, PartialEq, Eq, Structural)]
pub struct ClassifyContext {
    /// GOT-indirect accesses may be rewritten into direct ones.
    pub relax_got: bool,
    /// The output is position-independent, so an address cannot become an
    /// immediate operand.
    pub pic: bool,
    /// How TLS accesses to the relocation's symbol are linked.
    pub tls: TlsMode,
    /// How local-dynamic accesses are linked: by the kind of output, not
    /// the variable.
    pub tls_ld: TlsMode,
    /// The relocated section holds code (`SHF_EXECINSTR`).
    pub code: bool,
}

impl ClassifyContext {
    /// The context of a static executable: everything relaxes.
    #[verifier::allow_in_spec]
    pub fn static_exec(relax_got: bool) -> Self
        returns
            (ClassifyContext {
                relax_got,
                pic: false,
                tls: TlsMode::LocalExec,
                tls_ld: TlsMode::LocalExec,
                code: false,
            }),
    {
        ClassifyContext {
            relax_got,
            pic: false,
            tls: TlsMode::LocalExec,
            tls_ld: TlsMode::LocalExec,
            code: false,
        }
    }
}

/// Why a relocation cannot be handled.
#[derive(Clone, Copy, Debug, PartialEq, Eq, Structural)]
pub enum ClassifyError {
    /// The type is unknown or not valid in a relocatable object.
    Unsupported,
    /// A TLS relaxation found an instruction it cannot rewrite.
    BadTlsInstruction,
}

/// Why a relocation could not be written.
#[derive(Clone, Copy, Debug, PartialEq, Eq, Structural)]
pub enum ApplyError {
    /// The value does not fit the field.
    Overflow,
    /// The field lies outside the section.
    OutOfBounds,
    /// A relaxation found an instruction it cannot rewrite.
    BadInstruction,
}

/// The role of a dynamic relocation, without naming its number.
#[derive(Clone, Copy, Debug, PartialEq, Eq, Structural)]
pub enum DynKind {
    /// The load base is added to the addend.
    Relative,
    /// The load base is added and the result called to get the value.
    Irelative,
    /// A lazily bound PLT slot.
    JumpSlot,
    /// A GOT slot holding a symbol's address.
    GlobDat,
    /// A copy of a shared library's data.
    Copy,
    /// A 64-bit absolute address of a symbol.
    Abs64,
    /// The TLS module ID of a symbol's module.
    DtpMod,
    /// A symbol's offset in its module's TLS block.
    DtpOff,
    /// A symbol's offset from the thread pointer.
    TpOff,
    /// A TLS descriptor.
    TlsDesc,
}

/// The values a relaxation may need, all computed by the writer.
#[derive(Clone, Copy, Debug, PartialEq, Eq, Structural)]
pub struct RelaxValues {
    /// `S + A - TP`, the thread pointer offset of the target.
    pub tpoff: i64,
    /// The address of the GOT entry the relaxed sequence reads, if it keeps
    /// one (initial-exec).
    pub got: u64,
    /// `G + A - P` for that entry.
    pub got_pc: i64,
    /// The GOT base.
    pub got_base: u64,
    /// The place being relocated.
    pub place: u64,
    /// The type of the relocation that follows, which tells PowerPC64's
    /// TOC and PC-relative `__tls_get_addr` calls apart.
    pub next_type: Option<u32>,
}

impl Default for RelaxValues {
    fn default() -> (r: Self)
        ensures
            r == (RelaxValues {
                tpoff: 0,
                got: 0,
                got_pc: 0,
                got_base: 0,
                place: 0,
                next_type: None,
            }),
    {
        RelaxValues { tpoff: 0, got: 0, got_pc: 0, got_base: 0, place: 0, next_type: None }
    }
}

/// A direct branch, as range-extension thunk planning and the writer both
/// see it.
#[derive(Clone, Copy, Debug, PartialEq, Eq, Structural)]
pub struct Branch {
    /// The relocation type.
    pub r_type: u32,
    /// The address of the branch instruction.
    pub place: u64,
    /// The symbol's address plus addend, or the stub's when the branch
    /// goes through one.
    pub target: u64,
    /// The callee's `st_other` (0 when unknown).
    pub st_other: u8,
    /// The branch goes to a PLT or IFUNC stub.
    pub via_stub: bool,
    /// The GOT word that stub jumps through, for calls that need a stub of
    /// their own (PowerPC64 code without a TOC pointer).
    pub slot: Option<u64>,
}

/// Options that change the shape of PLT entries.
#[derive(Clone, Copy, Debug, PartialEq, Eq, Structural)]
pub struct PltFlags {
    /// The PLT header starts with a landing pad: x86-64 `endbr64`, or
    /// AArch64 `bti c` because PLT entries reach the header through
    /// `br x17`.
    pub landing_pad: bool,
    /// PLT entries start with one too. On x86-64 that is IBT (and the
    /// jumps move to `.plt.sec`); on AArch64 entries are only reached by
    /// direct branches, so GNU ld leaves them without one unless
    /// `-z force-bti` asks.
    pub entry_landing_pad: bool,
}

impl Default for PltFlags {
    fn default() -> (r: Self)
        ensures
            r == (PltFlags { landing_pad: false, entry_landing_pad: false }),
    {
        PltFlags { landing_pad: false, entry_landing_pad: false }
    }
}

} // verus!
