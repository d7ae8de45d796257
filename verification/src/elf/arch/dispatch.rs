//! What an ELF link asks of its architecture.

use vstd::prelude::*;
use vstd::string::StringExecFns;

use super::{
    ApplyError, Arch, Branch, Class, ClassifyContext, ClassifyError, DynKind, Kind, PltFlags,
    RelaxValues,
};
use super::{aarch64, arm, ppc64, riscv, x86_64};
use super::patch::Patched;
use crate::bytes::fill_words;
use crate::elf::consts::{EM_AARCH64, EM_ARM, EM_PPC64, EM_RISCV, EM_X86_64};
use crate::elf::consts::aarch64 as a64;
use crate::elf::consts::ppc64 as p64;
use crate::elf::consts::riscv as rv;
use crate::elf::consts::x86_64 as x64;
use crate::elf::inputs::ElfInput;
use crate::elf::layout::DEFAULT_BASE;
use crate::error::Error;
use crate::options::LinkOptions;
use crate::target::{Architecture, Endianness, Target};
use crate::text::push_decimal;

verus! {

impl Arch {
    /// The architecture of ELF machine `e_machine`, if it is linked.
    #[verifier::allow_in_spec]
    pub fn from_machine(e_machine: u16) -> Option<Arch>
        returns
            (match e_machine {
                EM_X86_64 => Some(Arch::X86_64),
                EM_AARCH64 => Some(Arch::AArch64),
                EM_PPC64 => Some(Arch::Ppc64),
                _ => None,
            }),
    {
        match e_machine {
            EM_X86_64 => Some(Arch::X86_64),
            EM_AARCH64 => Some(Arch::AArch64),
            EM_PPC64 => Some(Arch::Ppc64),
            _ => None,
        }
    }

    /// The architecture of `target`, if it is linked.
    #[verifier::allow_in_spec]
    pub fn from_target(target: Target) -> Option<Arch>
        returns
            (match target.arch {
                Architecture::X86_64 => Some(Arch::X86_64),
                Architecture::Aarch64 => Some(Arch::AArch64),
                Architecture::PowerPc64 => if target.endian == Endianness::Little {
                    Some(Arch::Ppc64)
                } else {
                    None
                },
                _ => None,
            }),
    {
        match target.arch {
            Architecture::X86_64 => Some(Arch::X86_64),
            Architecture::Aarch64 => Some(Arch::AArch64),
            Architecture::PowerPc64 => if target.endian == Endianness::Little {
                Some(Arch::Ppc64)
            } else {
                None
            },
            _ => None,
        }
    }

    /// The architecture of the first relocatable object from `i` on that is
    /// linked.
    pub open spec fn first_of(files: Seq<ElfInput>, i: int) -> Option<Arch>
        decreases files.len() - i,
    {
        if i < 0 || i >= files.len() {
            None
        } else {
            match files[i].object {
                Some(object) => match Arch::from_machine(object.machine) {
                    Some(arch) => Some(arch),
                    None => Arch::first_of(files, i + 1),
                },
                None => Arch::first_of(files, i + 1),
            }
        }
    }

    /// The architecture of the first relocatable object among `files`.
    pub fn of_files(files: &[ElfInput]) -> (r: Option<Arch>)
        ensures
            r == Arch::first_of(files@, 0),
    {
        let mut i: usize = 0;
        while i < files.len()
            invariant
                Arch::first_of(files@, 0) == Arch::first_of(files@, i as int),
            decreases files@.len() - i,
        {
            if let Some(object) = &files[i].object {
                let arch: Option<Arch> = Arch::from_machine(object.machine);
                if arch.is_some() {
                    return arch;
                }
            }
            i += 1;
        }
        None
    }

    /// The architecture of a link: the emulation's when one was given,
    /// otherwise the first relocatable object's, otherwise the default.
    pub open spec fn spec_of(options: LinkOptions, files: Seq<ElfInput>) -> Arch {
        let emulated = match options.target {
            Some(target) => Arch::from_target(target),
            None => None,
        };
        match (emulated, Arch::first_of(files, 0)) {
            (Some(arch), _) => arch,
            (None, Some(arch)) => arch,
            (None, None) => Arch::X86_64,
        }
    }

    /// The architecture of a link: the emulation (`-m`) when one was given,
    /// otherwise the first relocatable object's machine.
    pub fn of(options: &LinkOptions, files: &[ElfInput]) -> (r: Arch)
        ensures
            r == Arch::spec_of(*options, files@),
    {
        if let Some(target) = options.target {
            if let Some(arch) = Arch::from_target(target) {
                return arch;
            }
        }
        match Arch::of_files(files) {
            Some(arch) => arch,
            None => Arch::default(),
        }
    }

    /// The `e_machine` of the output.
    #[verifier::allow_in_spec]
    pub fn machine(self) -> u16
        returns
            (match self {
                Arch::X86_64 => EM_X86_64,
                Arch::AArch64 => EM_AARCH64,
                Arch::Ppc64 => EM_PPC64,
                Arch::Arm => EM_ARM,
                Arch::RiscV64 => EM_RISCV,
            }),
    {
        match self {
            Arch::X86_64 => EM_X86_64,
            Arch::AArch64 => EM_AARCH64,
            Arch::Ppc64 => EM_PPC64,
            Arch::Arm => EM_ARM,
            Arch::RiscV64 => EM_RISCV,
        }
    }

    /// The `e_flags` of the output: the ELFv2 ABI version on PowerPC64.
    #[verifier::allow_in_spec]
    pub fn e_flags(self) -> u32
        returns
            (match self {
                Arch::Ppc64 => 2u32,
                _ => 0u32,
            }),
    {
        match self {
            Arch::Ppc64 => 2u32,
            _ => 0u32,
        }
    }

    /// The emulation name, for diagnostics.
    #[verifier::allow_in_spec]
    pub fn emulation(self) -> &'static str
        returns
            (match self {
                Arch::X86_64 => "elf_x86_64",
                Arch::AArch64 => "aarch64linux",
                Arch::Ppc64 => "elf64lppc",
                Arch::Arm => "armelf_linux_eabi",
                Arch::RiscV64 => "elf64lriscv",
            }),
    {
        match self {
            Arch::X86_64 => "elf_x86_64",
            Arch::AArch64 => "aarch64linux",
            Arch::Ppc64 => "elf64lppc",
            Arch::Arm => "armelf_linux_eabi",
            Arch::RiscV64 => "elf64lriscv",
        }
    }

    /// The name of relocation type `r_type`, as `readelf` prints it.
    #[verifier::allow_in_spec]
    pub fn reloc_name(self, r_type: u32) -> Option<&'static str>
        returns
            (match self {
                Arch::X86_64 => crate::elf::consts::x86_64::reloc_name(r_type),
                Arch::AArch64 => crate::elf::consts::aarch64::reloc_name(r_type),
                Arch::Ppc64 => crate::elf::consts::ppc64::reloc_name(r_type),
                Arch::Arm => arm::reloc_name(r_type),
                Arch::RiscV64 => crate::elf::consts::riscv::reloc_name(r_type),
            }),
    {
        match self {
            Arch::X86_64 => crate::elf::consts::x86_64::reloc_name(r_type),
            Arch::AArch64 => crate::elf::consts::aarch64::reloc_name(r_type),
            Arch::Ppc64 => crate::elf::consts::ppc64::reloc_name(r_type),
            Arch::Arm => arm::reloc_name(r_type),
            Arch::RiscV64 => crate::elf::consts::riscv::reloc_name(r_type),
        }
    }

    /// That name, or the number in decimal.
    pub open spec fn spec_reloc_label(self, r_type: u32) -> Seq<char> {
        match self.reloc_name(r_type) {
            Some(name) => name@,
            None => crate::text::decimal(r_type as nat),
        }
    }

    /// That name, or the number when the type is unknown.
    pub fn reloc_label(self, r_type: u32) -> (r: String)
        ensures
            r@ == self.spec_reloc_label(r_type),
    {
        let mut text: String = String::new();
        match self.reloc_name(r_type) {
            Some(name) => {
                text.append(name);
                assert(text@ =~= name@);
            },
            None => {
                push_decimal(&mut text, r_type as u64);
                assert(text@ =~= crate::text::decimal(r_type as nat));
            },
        }
        text
    }

    /// The default maximum page size: what segment alignment assumes when
    /// `-z max-page-size` is not given.
    #[verifier::allow_in_spec]
    pub fn default_max_page(self) -> u64
        returns
            (match self {
                Arch::X86_64 => 0x1000u64,
                Arch::AArch64 => 0x1_0000u64,
                Arch::Ppc64 => 0x1_0000u64,
                Arch::Arm => 0x1_0000u64,
                Arch::RiscV64 => 0x1000u64,
            }),
    {
        match self {
            Arch::X86_64 => 0x1000u64,
            Arch::AArch64 => 0x1_0000u64,
            Arch::Ppc64 => 0x1_0000u64,
            Arch::Arm => 0x1_0000u64,
            Arch::RiscV64 => 0x1000u64,
        }
    }

    /// The default base address of a position-dependent executable
    /// (`0x10000000` on PowerPC64, the first 256 MiB segment boundary).
    #[verifier::allow_in_spec]
    pub fn default_base(self) -> u64
        returns
            (match self {
                Arch::Ppc64 => 0x1000_0000u64,
                _ => DEFAULT_BASE,
            }),
    {
        match self {
            Arch::Ppc64 => 0x1000_0000u64,
            _ => DEFAULT_BASE,
        }
    }

    /// Rejects options whose AArch64 effect is not implemented, rather
    /// than silently producing a binary that does not have it.
    ///
    /// # Errors
    ///
    /// [`Error::Unimplemented`] for the Cortex-A53 erratum workarounds.
    pub fn check_options(self, options: &LinkOptions) -> (r: Result<(), Error>)
        ensures
            r == (if self == Arch::AArch64 && options.fix_cortex_a53_843419 {
                Err::<(), Error>(
                    Error::Unimplemented(
                        "--fix-cortex-a53-843419 (roadmap M4: the erratum workaround)",
                    ),
                )
            } else {
                Ok::<(), Error>(())
            }),
    {
        if self == Arch::AArch64 && options.fix_cortex_a53_843419 {
            return Err(
                Error::Unimplemented(
                    "--fix-cortex-a53-843419 (roadmap M4: the erratum workaround)",
                ),
            );
        }
        Ok(())
    }

    /// Whether calls can fall out of range, so layout has to insert
    /// range-extension thunks.
    #[verifier::allow_in_spec]
    pub fn needs_thunks(self) -> bool
        returns
            (self == Arch::AArch64 || self == Arch::Ppc64),
    {
        self == Arch::AArch64 || self == Arch::Ppc64
    }

    /// Number of bytes one range-extension thunk occupies.
    #[verifier::allow_in_spec]
    pub fn thunk_size(self) -> u64
        returns
            (match self {
                Arch::Ppc64 => crate::arch::ppc64::THUNK_SIZE,
                Arch::Arm => crate::arch::arm::THUNK_SIZE,
                _ => crate::arch::aarch64::THUNK_SIZE,
            }),
    {
        match self {
            Arch::Ppc64 => crate::arch::ppc64::THUNK_SIZE,
            Arch::Arm => crate::arch::arm::THUNK_SIZE,
            _ => crate::arch::aarch64::THUNK_SIZE,
        }
    }

    /// What [`Arch::write_thunk`] does.
    pub open spec fn spec_write_thunk(
        self,
        s: Seq<u8>,
        at: u64,
        address: u64,
        target: u64,
    ) -> Patched {
        match self {
            Arch::Ppc64 => Patched::new(s).require(
                crate::arch::ppc64::thunk_reaches(address, target),
                ApplyError::Overflow,
            ).write(
                at as int,
                crate::arch::ppc64::spec_words(
                    crate::arch::ppc64::thunk_words(address, target)@,
                ),
                ApplyError::Overflow,
            ),
            Arch::Arm => arm::spec_write_thunk(s, at, address, target),
            _ => Patched::new(s).require(
                crate::arch::aarch64::thunk_reaches(address, target),
                ApplyError::Overflow,
            ).write(
                at as int,
                crate::arch::aarch64::thunk_code(address, target),
                ApplyError::Overflow,
            ),
        }
    }

    /// Writes a range-extension thunk at address `address` that branches to
    /// `target` into `out` at `at`.
    ///
    /// # Errors
    ///
    /// [`ApplyError::Overflow`] when the target is out of the thunk's reach.
    pub fn write_thunk(self, out: &mut [u8], at: u64, address: u64, target: u64) -> (r: Result<
        (),
        ApplyError,
    >)
        ensures
            r == self.spec_write_thunk(old(out)@, at, address, target).result,
            final(out)@ == self.spec_write_thunk(old(out)@, at, address, target).bytes,
    {
        match self {
            Arch::Ppc64 => {
                proof {
                    crate::arch::ppc64::words_length(
                        crate::arch::ppc64::thunk_words(address, target)@,
                    );
                }
                match crate::arch::ppc64::write_thunk(out, at, address, target) {
                    Ok(()) => Ok(()),
                    Err(_) => Err(ApplyError::Overflow),
                }
            },
            Arch::Arm => arm::write_thunk(out, at, address, target),
            _ => match crate::arch::aarch64::write_thunk(out, at, address, target) {
                Ok(()) => Ok(()),
                Err(_) => Err(ApplyError::Overflow),
            },
        }
    }

    /// Whether relocation `r_type` is a direct branch that range-extension
    /// thunks serve.
    #[verifier::allow_in_spec]
    pub fn is_thunk_branch(self, r_type: u32) -> bool
        returns
            (match self {
                Arch::X86_64 => false,
                Arch::AArch64 => aarch64::is_jump26(r_type),
                Arch::Ppc64 => ppc64::is_thunk_branch(r_type),
                Arch::Arm => arm::is_thunk_branch(r_type),
                Arch::RiscV64 => false,
            }),
    {
        match self {
            Arch::X86_64 => false,
            Arch::AArch64 => aarch64::is_jump26(r_type),
            Arch::Ppc64 => ppc64::is_thunk_branch(r_type),
            Arch::Arm => arm::is_thunk_branch(r_type),
            Arch::RiscV64 => false,
        }
    }

    /// The address a direct branch jumps to, before any thunk: PowerPC64
    /// enters a function of this output at its local entry point.
    #[verifier::allow_in_spec]
    pub fn branch_destination(self, branch: Branch) -> u64
        returns
            (match self {
                Arch::Ppc64 => ppc64::branch_destination(branch),
                _ => branch.target,
            }),
    {
        match self {
            Arch::Ppc64 => ppc64::branch_destination(branch),
            _ => branch.target,
        }
    }

    /// What [`Arch::branch_thunk`] gives.
    pub open spec fn spec_branch_thunk(self, branch: Branch) -> Option<u64> {
        match self {
            Arch::AArch64 => if self.is_thunk_branch(branch.r_type)
                && !crate::arch::aarch64::spec_branch_in_range(branch.place, branch.target) {
                Some(branch.target)
            } else {
                None
            },
            Arch::Ppc64 => ppc64::spec_branch_thunk(branch),
            _ => None,
        }
    }

    /// The destination of the range-extension thunk `branch` goes
    /// through, if it needs one; thunks are shared by destination. (Arm
    /// plans its own, by key.)
    pub fn branch_thunk(self, branch: Branch) -> (r: Option<u64>)
        ensures
            r == self.spec_branch_thunk(branch),
    {
        match self {
            Arch::AArch64 => if self.is_thunk_branch(branch.r_type)
                && !crate::arch::aarch64::branch_in_range(branch.place, branch.target) {
                Some(branch.target)
            } else {
                None
            },
            Arch::Ppc64 => ppc64::branch_thunk(branch),
            _ => None,
        }
    }

    /// What [`Arch::finish_call`] does.
    pub open spec fn spec_finish_call(
        self,
        s: Seq<u8>,
        offset: u64,
        branch: Branch,
    ) -> Patched {
        match self {
            Arch::Ppc64 => ppc64::spec_finish_call(s, offset, branch),
            _ => Patched::new(s),
        }
    }

    /// Rewrites what a direct call at `offset` needs besides its
    /// displacement: on PowerPC64, the `nop` after a call through a stub
    /// becomes the reload of the TOC pointer.
    ///
    /// # Errors
    ///
    /// [`ApplyError::BadInstruction`] for calls the architecture cannot link.
    pub fn finish_call(
        self,
        out: &mut [u8],
        offset: u64,
        branch: Branch,
    ) -> (r: Result<(), ApplyError>)
        ensures
            r == self.spec_finish_call(old(out)@, offset, branch).result,
            final(out)@ == self.spec_finish_call(old(out)@, offset, branch).bytes,
    {
        match self {
            Arch::Ppc64 => ppc64::finish_call(out, offset, branch),
            _ => Ok(()),
        }
    }

    /// Whether `-z separate-code` is the default, as it is for x86 but not for
    /// the others.
    #[verifier::allow_in_spec]
    pub fn separate_code_by_default(self) -> bool
        returns
            (self == Arch::X86_64),
    {
        self == Arch::X86_64
    }

    /// The default program interpreter on Linux.
    #[verifier::allow_in_spec]
    pub fn default_interpreter(self) -> &'static str
        returns
            (match self {
                Arch::X86_64 => "/lib64/ld-linux-x86-64.so.2",
                Arch::AArch64 => "/lib/ld-linux-aarch64.so.1",
                Arch::Ppc64 => "/lib64/ld64.so.2",
                Arch::Arm => arm::INTERPRETER,
                Arch::RiscV64 => "/lib/ld-linux-riscv64-lp64d.so.1",
            }),
    {
        match self {
            Arch::X86_64 => "/lib64/ld-linux-x86-64.so.2",
            Arch::AArch64 => "/lib/ld-linux-aarch64.so.1",
            Arch::Ppc64 => "/lib64/ld64.so.2",
            Arch::Arm => arm::INTERPRETER,
            Arch::RiscV64 => "/lib/ld-linux-riscv64-lp64d.so.1",
        }
    }

    /// Whether TLS uses variant I (the thread pointer is below the block,
    /// after a thread control block) rather than variant II.
    #[verifier::allow_in_spec]
    pub fn tls_variant1(self) -> bool
        returns
            (self != Arch::X86_64),
    {
        self != Arch::X86_64
    }

    /// Where the thread pointer is relative to the start of the TLS block,
    /// when the ABI fixes it there (PowerPC64: 0x7000 bytes past it)
    /// rather than past a thread control block.
    #[verifier::allow_in_spec]
    pub fn tp_past_tls_start(self) -> Option<u64>
        returns
            (match self {
                Arch::Ppc64 => Some(crate::arch::ppc64::TP_OFFSET),
                _ => None,
            }),
    {
        match self {
            Arch::Ppc64 => Some(crate::arch::ppc64::TP_OFFSET),
            _ => None,
        }
    }

    /// How far past the start of a module's TLS block the dynamic thread
    /// vector points (PowerPC64: 0x8000), which biases `@dtprel` values.
    #[verifier::allow_in_spec]
    pub fn dtv_offset(self) -> u64
        returns
            (match self {
                Arch::Ppc64 => crate::arch::ppc64::DTV_OFFSET,
                _ => 0u64,
            }),
    {
        match self {
            Arch::Ppc64 => crate::arch::ppc64::DTV_OFFSET,
            _ => 0u64,
        }
    }

    /// Where the GOT base that GOT-relative relocations use is, from the
    /// start of `.got`, when it is not `.got.plt` (PowerPC64: the TOC
    /// pointer, `.got + 0x8000`).
    #[verifier::allow_in_spec]
    pub fn toc_bias(self) -> Option<u64>
        returns
            (match self {
                Arch::Ppc64 => Some(crate::arch::ppc64::TOC_BIAS),
                _ => None,
            }),
    {
        match self {
            Arch::Ppc64 => Some(crate::arch::ppc64::TOC_BIAS),
            _ => None,
        }
    }

    /// Words reserved at the start of `.got` (PowerPC64 keeps the TOC
    /// pointer's link-time value there).
    #[verifier::allow_in_spec]
    pub fn got_header_words(self) -> u64
        returns
            (match self {
                Arch::Ppc64 => 1u64,
                _ => 0u64,
            }),
    {
        match self {
            Arch::Ppc64 => 1u64,
            _ => 0u64,
        }
    }

    /// Words reserved at the start of `.got.plt` for the dynamic linker.
    #[verifier::allow_in_spec]
    pub fn got_plt_reserved(self) -> u64
        returns
            (match self {
                Arch::Ppc64 | Arch::RiscV64 => 2u64,
                _ => 3u64,
            }),
    {
        match self {
            Arch::Ppc64 | Arch::RiscV64 => 2u64,
            _ => 3u64,
        }
    }

    /// The `DT_PPC64_GLINK` value, as an offset from the start of `.plt`:
    /// 32 bytes before the first lazy entry, where glibc expects it.
    #[verifier::allow_in_spec]
    pub fn glink_offset(self) -> Option<u64>
        returns
            (match self {
                Arch::Ppc64 => Some(crate::arch::ppc64::GLINK_HEADER_SIZE.wrapping_sub(32)),
                _ => None,
            }),
    {
        match self {
            Arch::Ppc64 => Some(crate::arch::ppc64::GLINK_HEADER_SIZE.wrapping_sub(32)),
            _ => None,
        }
    }

    /// The size of the thread control block variant I reserves below the
    /// TLS block.
    #[verifier::allow_in_spec]
    pub fn tcb_size(self) -> u64
        returns
            (match self {
                Arch::X86_64 => 0u64,
                Arch::AArch64 => 16u64,
                Arch::Ppc64 => 0u64,
                Arch::Arm => 8u64,
                Arch::RiscV64 => 0u64,
            }),
    {
        match self {
            Arch::X86_64 => 0u64,
            Arch::AArch64 => 16u64,
            Arch::Ppc64 => 0u64,
            Arch::Arm => 8u64,
            Arch::RiscV64 => 0u64,
        }
    }

    /// The number written for dynamic relocation `kind`. PowerPC64 has no TLS
    /// descriptors.
    #[verifier::allow_in_spec]
    pub fn dyn_reloc(self, kind: DynKind) -> u32
        returns
            (match self {
                Arch::X86_64 => match kind {
                    DynKind::Relative => x64::R_X86_64_RELATIVE,
                    DynKind::Irelative => x64::R_X86_64_IRELATIVE,
                    DynKind::JumpSlot => x64::R_X86_64_JUMP_SLOT,
                    DynKind::GlobDat => x64::R_X86_64_GLOB_DAT,
                    DynKind::Copy => x64::R_X86_64_COPY,
                    DynKind::Abs64 => x64::R_X86_64_64,
                    DynKind::DtpMod => x64::R_X86_64_DTPMOD64,
                    DynKind::DtpOff => x64::R_X86_64_DTPOFF64,
                    DynKind::TpOff => x64::R_X86_64_TPOFF64,
                    DynKind::TlsDesc => x64::R_X86_64_TLSDESC,
                },
                Arch::AArch64 => match kind {
                    DynKind::Relative => a64::R_AARCH64_RELATIVE,
                    DynKind::Irelative => a64::R_AARCH64_IRELATIVE,
                    DynKind::JumpSlot => a64::R_AARCH64_JUMP_SLOT,
                    DynKind::GlobDat => a64::R_AARCH64_GLOB_DAT,
                    DynKind::Copy => a64::R_AARCH64_COPY,
                    DynKind::Abs64 => a64::R_AARCH64_ABS64,
                    DynKind::DtpMod => a64::R_AARCH64_TLS_DTPMOD64,
                    DynKind::DtpOff => a64::R_AARCH64_TLS_DTPREL64,
                    DynKind::TpOff => a64::R_AARCH64_TLS_TPREL64,
                    DynKind::TlsDesc => a64::R_AARCH64_TLSDESC,
                },
                Arch::Ppc64 => match kind {
                    DynKind::Relative => p64::R_PPC64_RELATIVE,
                    DynKind::Irelative => p64::R_PPC64_IRELATIVE,
                    DynKind::JumpSlot => p64::R_PPC64_JMP_SLOT,
                    DynKind::GlobDat => p64::R_PPC64_GLOB_DAT,
                    DynKind::Copy => p64::R_PPC64_COPY,
                    DynKind::Abs64 => p64::R_PPC64_ADDR64,
                    DynKind::DtpMod => p64::R_PPC64_DTPMOD64,
                    DynKind::DtpOff => p64::R_PPC64_DTPREL64,
                    DynKind::TpOff => p64::R_PPC64_TPREL64,
                    DynKind::TlsDesc => p64::R_PPC64_NONE,
                },
                Arch::Arm => match kind {
                    DynKind::Relative => arm::R_ARM_RELATIVE,
                    DynKind::Irelative => arm::R_ARM_IRELATIVE,
                    DynKind::JumpSlot => arm::R_ARM_JUMP_SLOT,
                    DynKind::GlobDat => arm::R_ARM_GLOB_DAT,
                    DynKind::Copy => arm::R_ARM_COPY,
                    DynKind::Abs64 => arm::R_ARM_ABS32,
                    DynKind::DtpMod => arm::R_ARM_TLS_DTPMOD32,
                    DynKind::DtpOff => arm::R_ARM_TLS_DTPOFF32,
                    DynKind::TpOff => arm::R_ARM_TLS_TPOFF32,
                    DynKind::TlsDesc => arm::R_ARM_TLS_DESC,
                },
                Arch::RiscV64 => match kind {
                    DynKind::Relative => rv::R_RISCV_RELATIVE,
                    DynKind::Irelative => rv::R_RISCV_IRELATIVE,
                    DynKind::JumpSlot => rv::R_RISCV_JUMP_SLOT,
                    DynKind::GlobDat => rv::R_RISCV_64,
                    DynKind::Copy => rv::R_RISCV_COPY,
                    DynKind::Abs64 => rv::R_RISCV_64,
                    DynKind::DtpMod => rv::R_RISCV_TLS_DTPMOD64,
                    DynKind::DtpOff => rv::R_RISCV_TLS_DTPREL64,
                    DynKind::TpOff => rv::R_RISCV_TLS_TPREL64,
                    DynKind::TlsDesc => rv::R_RISCV_TLSDESC,
                },
            }),
    {
        match self {
            Arch::X86_64 => match kind {
                DynKind::Relative => x64::R_X86_64_RELATIVE,
                DynKind::Irelative => x64::R_X86_64_IRELATIVE,
                DynKind::JumpSlot => x64::R_X86_64_JUMP_SLOT,
                DynKind::GlobDat => x64::R_X86_64_GLOB_DAT,
                DynKind::Copy => x64::R_X86_64_COPY,
                DynKind::Abs64 => x64::R_X86_64_64,
                DynKind::DtpMod => x64::R_X86_64_DTPMOD64,
                DynKind::DtpOff => x64::R_X86_64_DTPOFF64,
                DynKind::TpOff => x64::R_X86_64_TPOFF64,
                DynKind::TlsDesc => x64::R_X86_64_TLSDESC,
            },
            Arch::AArch64 => match kind {
                DynKind::Relative => a64::R_AARCH64_RELATIVE,
                DynKind::Irelative => a64::R_AARCH64_IRELATIVE,
                DynKind::JumpSlot => a64::R_AARCH64_JUMP_SLOT,
                DynKind::GlobDat => a64::R_AARCH64_GLOB_DAT,
                DynKind::Copy => a64::R_AARCH64_COPY,
                DynKind::Abs64 => a64::R_AARCH64_ABS64,
                DynKind::DtpMod => a64::R_AARCH64_TLS_DTPMOD64,
                DynKind::DtpOff => a64::R_AARCH64_TLS_DTPREL64,
                DynKind::TpOff => a64::R_AARCH64_TLS_TPREL64,
                DynKind::TlsDesc => a64::R_AARCH64_TLSDESC,
            },
            Arch::Ppc64 => match kind {
                DynKind::Relative => p64::R_PPC64_RELATIVE,
                DynKind::Irelative => p64::R_PPC64_IRELATIVE,
                DynKind::JumpSlot => p64::R_PPC64_JMP_SLOT,
                DynKind::GlobDat => p64::R_PPC64_GLOB_DAT,
                DynKind::Copy => p64::R_PPC64_COPY,
                DynKind::Abs64 => p64::R_PPC64_ADDR64,
                DynKind::DtpMod => p64::R_PPC64_DTPMOD64,
                DynKind::DtpOff => p64::R_PPC64_DTPREL64,
                DynKind::TpOff => p64::R_PPC64_TPREL64,
                DynKind::TlsDesc => p64::R_PPC64_NONE,
            },
            Arch::Arm => match kind {
                DynKind::Relative => arm::R_ARM_RELATIVE,
                DynKind::Irelative => arm::R_ARM_IRELATIVE,
                DynKind::JumpSlot => arm::R_ARM_JUMP_SLOT,
                DynKind::GlobDat => arm::R_ARM_GLOB_DAT,
                DynKind::Copy => arm::R_ARM_COPY,
                DynKind::Abs64 => arm::R_ARM_ABS32,
                DynKind::DtpMod => arm::R_ARM_TLS_DTPMOD32,
                DynKind::DtpOff => arm::R_ARM_TLS_DTPOFF32,
                DynKind::TpOff => arm::R_ARM_TLS_TPOFF32,
                DynKind::TlsDesc => arm::R_ARM_TLS_DESC,
            },
            Arch::RiscV64 => match kind {
                DynKind::Relative => rv::R_RISCV_RELATIVE,
                DynKind::Irelative => rv::R_RISCV_IRELATIVE,
                DynKind::JumpSlot => rv::R_RISCV_JUMP_SLOT,
                DynKind::GlobDat => rv::R_RISCV_64,
                DynKind::Copy => rv::R_RISCV_COPY,
                DynKind::Abs64 => rv::R_RISCV_64,
                DynKind::DtpMod => rv::R_RISCV_TLS_DTPMOD64,
                DynKind::DtpOff => rv::R_RISCV_TLS_DTPREL64,
                DynKind::TpOff => rv::R_RISCV_TLS_TPREL64,
                DynKind::TlsDesc => rv::R_RISCV_TLSDESC,
            },
        }
    }

    /// Whether relocation `r_type` is a call or jump that goes through the
    /// PLT when its symbol is preemptible, and does not take the symbol's
    /// address (so `--icf=safe` may fold its target).
    #[verifier::allow_in_spec]
    pub fn is_branch(self, r_type: u32) -> bool
        returns
            (match self {
                Arch::X86_64 => r_type == x64::R_X86_64_PLT32 || r_type == x64::R_X86_64_PLT32_BND,
                Arch::AArch64 => r_type == a64::R_AARCH64_CALL26 || r_type
                    == a64::R_AARCH64_JUMP26 || r_type == a64::R_AARCH64_PLT32,
                Arch::Ppc64 => r_type == p64::R_PPC64_REL24 || r_type == p64::R_PPC64_REL24_NOTOC,
                Arch::Arm => arm::is_branch(r_type),
                Arch::RiscV64 => riscv::is_branch(r_type),
            }),
    {
        match self {
            Arch::X86_64 => r_type == x64::R_X86_64_PLT32 || r_type == x64::R_X86_64_PLT32_BND,
            Arch::AArch64 => r_type == a64::R_AARCH64_CALL26 || r_type == a64::R_AARCH64_JUMP26
                || r_type == a64::R_AARCH64_PLT32,
            Arch::Ppc64 => r_type == p64::R_PPC64_REL24 || r_type == p64::R_PPC64_REL24_NOTOC,
            Arch::Arm => arm::is_branch(r_type),
            Arch::RiscV64 => riscv::is_branch(r_type),
        }
    }

    /// What [`Arch::classify`] gives.
    pub open spec fn spec_classify(
        self,
        r_type: u32,
        addend: i64,
        data: Seq<u8>,
        offset: u64,
        context: ClassifyContext,
    ) -> Result<Class, ClassifyError> {
        match self {
            Arch::X86_64 => x86_64::spec_classify(r_type, addend, data, offset, context),
            Arch::AArch64 => aarch64::spec_classify(r_type, context),
            Arch::Ppc64 => ppc64::spec_classify(r_type, data, offset, context),
            Arch::Arm => arm::spec_classify(r_type, context),
            Arch::RiscV64 => riscv::spec_classify(r_type, context),
        }
    }

    /// Classifies relocation `r_type` at `offset` in section `data`.
    ///
    /// # Errors
    ///
    /// [`ClassifyError`] for unsupported types and unrecognized TLS code.
    pub fn classify(
        self,
        r_type: u32,
        addend: i64,
        data: &[u8],
        offset: u64,
        context: ClassifyContext,
    ) -> (r: Result<Class, ClassifyError>)
        ensures
            r == self.spec_classify(r_type, addend, data@, offset, context),
    {
        match self {
            Arch::X86_64 => x86_64::classify(r_type, addend, data, offset, context),
            Arch::AArch64 => aarch64::classify(r_type, context),
            Arch::Ppc64 => ppc64::classify(r_type, data, offset, context),
            Arch::Arm => arm::classify(r_type, context),
            Arch::RiscV64 => riscv::classify(r_type, context),
        }
    }

    /// What [`Arch::relax_got`] does.
    pub open spec fn spec_relax_got(
        self,
        s: Seq<u8>,
        offset: u64,
        kind: Kind,
        value: i64,
    ) -> Patched {
        match self {
            Arch::X86_64 => x86_64::spec_relax_got(s, offset, kind, value),
            _ => Patched::new(s).fail(ApplyError::BadInstruction),
        }
    }

    /// Rewrites a relaxed GOT-indirect instruction (x86-64 only).
    ///
    /// # Errors
    ///
    /// [`ApplyError`] when the instruction is not one that was classified as
    /// relaxable.
    pub fn relax_got(
        self,
        out: &mut [u8],
        offset: u64,
        kind: Kind,
        value: i64,
    ) -> (r: Result<(), ApplyError>)
        ensures
            r == self.spec_relax_got(old(out)@, offset, kind, value).result,
            final(out)@ == self.spec_relax_got(old(out)@, offset, kind, value).bytes,
    {
        match self {
            Arch::X86_64 => x86_64::relax_got(out, offset, kind, value),
            _ => Err(ApplyError::BadInstruction),
        }
    }

    /// What [`Arch::relax_tls`] does.
    pub open spec fn spec_relax_tls(
        self,
        s: Seq<u8>,
        offset: u64,
        kind: Kind,
        r_type: u32,
        values: RelaxValues,
    ) -> Patched {
        match self {
            Arch::X86_64 => x86_64::spec_relax_tls(s, offset, kind, values),
            Arch::AArch64 => aarch64::spec_relax_tls(s, offset, kind, r_type, values),
            Arch::Ppc64 => ppc64::spec_relax_tls(s, offset, kind, r_type, values),
            _ => Patched::new(s).fail(ApplyError::BadInstruction),
        }
    }

    /// Rewrites a relaxed TLS access.
    ///
    /// # Errors
    ///
    /// [`ApplyError`] for unrecognized instruction sequences.
    pub fn relax_tls(
        self,
        out: &mut [u8],
        offset: u64,
        kind: Kind,
        r_type: u32,
        values: RelaxValues,
    ) -> (r: Result<(), ApplyError>)
        ensures
            r == self.spec_relax_tls(old(out)@, offset, kind, r_type, values).result,
            final(out)@ == self.spec_relax_tls(old(out)@, offset, kind, r_type, values).bytes,
    {
        match self {
            Arch::X86_64 => x86_64::relax_tls(out, offset, kind, values),
            Arch::AArch64 => aarch64::relax_tls(out, offset, kind, r_type, values),
            Arch::Ppc64 => ppc64::relax_tls(out, offset, kind, r_type, values),
            _ => Err(ApplyError::BadInstruction),
        }
    }

    /// Size of the PLT header (`.plt` starts with it in a dynamic output).
    #[verifier::allow_in_spec]
    pub fn plt_header_size(self, _flags: PltFlags) -> u64
        returns
            (match self {
                Arch::X86_64 => 16u64,
                Arch::AArch64 => 32u64,
                Arch::Ppc64 => crate::arch::ppc64::GLINK_HEADER_SIZE,
                Arch::Arm => 20u64,
                Arch::RiscV64 => 32u64,
            }),
    {
        match self {
            Arch::X86_64 => 16u64,
            Arch::AArch64 => 32u64,
            Arch::Ppc64 => crate::arch::ppc64::GLINK_HEADER_SIZE,
            Arch::Arm => 20u64,
            Arch::RiscV64 => 32u64,
        }
    }

    /// Size of one `.plt` entry.
    #[verifier::allow_in_spec]
    pub fn plt_entry_size(self, flags: PltFlags) -> u64
        returns
            (match self {
                Arch::X86_64 => 16u64,
                Arch::AArch64 => if flags.entry_landing_pad {
                    24u64
                } else {
                    16u64
                },
                Arch::Ppc64 => 4u64,
                Arch::Arm => 12u64,
                Arch::RiscV64 => 16u64,
            }),
    {
        match self {
            Arch::X86_64 => 16u64,
            Arch::AArch64 => if flags.entry_landing_pad {
                24u64
            } else {
                16u64
            },
            Arch::Ppc64 => 4u64,
            Arch::Arm => 12u64,
            Arch::RiscV64 => 16u64,
        }
    }

    /// Whether a dynamic output calls PLT entries through `.plt.sec`:
    /// x86-64 with IBT, and PowerPC64 always, its call stubs being there
    /// while `.plt` holds the lazy-binding entries.
    #[verifier::allow_in_spec]
    pub fn has_plt_sec(self, ibt: bool) -> bool
        returns
            (match self {
                Arch::X86_64 => ibt,
                Arch::AArch64 => false,
                Arch::Ppc64 => true,
                Arch::Arm => false,
                Arch::RiscV64 => false,
            }),
    {
        match self {
            Arch::X86_64 => ibt,
            Arch::AArch64 => false,
            Arch::Ppc64 => true,
            Arch::Arm => false,
            Arch::RiscV64 => false,
        }
    }

    /// Whether a preemptible function that also has a GOT entry is called
    /// through `.plt.got` (jumping through that entry) rather than getting
    /// a PLT slot. PowerPC64 linkers give every called function a slot.
    #[verifier::allow_in_spec]
    pub fn uses_plt_got(self) -> bool
        returns
            (self != Arch::Ppc64),
    {
        self != Arch::Ppc64
    }

    /// Size of one `.plt.sec` entry.
    #[verifier::allow_in_spec]
    pub fn plt_sec_entry_size(self, flags: PltFlags) -> u64
        returns
            (match self {
                Arch::Ppc64 => crate::arch::ppc64::PLT_CALL_STUB_SIZE,
                _ => self.plt_entry_size(flags),
            }),
    {
        match self {
            Arch::Ppc64 => crate::arch::ppc64::PLT_CALL_STUB_SIZE,
            _ => self.plt_entry_size(flags),
        }
    }

    /// Size of one `.plt.got` entry.
    #[verifier::allow_in_spec]
    pub fn plt_got_entry_size(self, flags: PltFlags) -> u64
        returns
            (match self {
                Arch::X86_64 => if flags.landing_pad {
                    16u64
                } else {
                    8u64
                },
                Arch::AArch64 => if flags.entry_landing_pad {
                    24u64
                } else {
                    16u64
                },
                Arch::Ppc64 => crate::arch::ppc64::PLT_CALL_STUB_SIZE,
                Arch::Arm => 12u64,
                Arch::RiscV64 => 16u64,
            }),
    {
        match self {
            Arch::X86_64 => if flags.landing_pad {
                16u64
            } else {
                8u64
            },
            Arch::AArch64 => if flags.entry_landing_pad {
                24u64
            } else {
                16u64
            },
            Arch::Ppc64 => crate::arch::ppc64::PLT_CALL_STUB_SIZE,
            Arch::Arm => 12u64,
            Arch::RiscV64 => 16u64,
        }
    }

    /// Alignment of `.plt`, `.plt.sec` and `.plt.got`.
    #[verifier::allow_in_spec]
    pub fn plt_align(self) -> u64
        returns
            (16u64),
    {
        16u64
    }

    /// Size of an IFUNC stub in a static executable.
    #[verifier::allow_in_spec]
    pub fn iplt_entry_size(self) -> u64
        returns
            (match self {
                Arch::Ppc64 => crate::arch::ppc64::PLT_CALL_STUB_SIZE,
                _ => 16u64,
            }),
    {
        match self {
            Arch::Ppc64 => crate::arch::ppc64::PLT_CALL_STUB_SIZE,
            _ => 16u64,
        }
    }

    /// The value a lazy `.got.plt` slot holds before the dynamic linker
    /// binds it: the code that pushes the relocation index and jumps to the
    /// resolver. On x86-64 that is the `push` after the jump, or the whole
    /// entry with IBT; elsewhere the header pushes and jumps; on PowerPC64 the
    /// dynamic linker points every slot at its lazy entry.
    #[verifier::allow_in_spec]
    pub fn lazy_slot_value(self, plt: u64, entry: u64, flags: PltFlags) -> u64
        returns
            (match self {
                Arch::X86_64 => if flags.landing_pad {
                    entry
                } else {
                    entry.wrapping_add(6)
                },
                Arch::AArch64 => plt,
                Arch::Ppc64 => 0u64,
                Arch::Arm => plt,
                Arch::RiscV64 => plt,
            }),
    {
        match self {
            Arch::X86_64 => if flags.landing_pad {
                entry
            } else {
                entry.wrapping_add(6)
            },
            Arch::AArch64 => plt,
            Arch::Ppc64 => 0u64,
            Arch::Arm => plt,
            Arch::RiscV64 => plt,
        }
    }

    /// What [`Arch::write_plt_header`] does.
    pub open spec fn spec_write_plt_header(
        self,
        s: Seq<u8>,
        plt: u64,
        got_plt: u64,
        flags: PltFlags,
    ) -> Patched {
        match self {
            Arch::X86_64 => x86_64::spec_write_plt_header(s, plt, got_plt),
            Arch::AArch64 => aarch64::spec_write_plt_header(s, plt, got_plt, flags),
            Arch::Ppc64 => ppc64::spec_write_plt_header(s, plt, got_plt),
            Arch::Arm => arm::spec_write_plt_header(s, plt, got_plt),
            Arch::RiscV64 => riscv::spec_write_plt_header(s, plt, got_plt),
        }
    }

    /// Writes the PLT header at address `plt`, which jumps to the resolver
    /// through `.got.plt` (at `got_plt`).
    ///
    /// # Errors
    ///
    /// [`ApplyError`] when out of range.
    pub fn write_plt_header(
        self,
        out: &mut [u8],
        plt: u64,
        got_plt: u64,
        flags: PltFlags,
    ) -> (r: Result<(), ApplyError>)
        ensures
            r == self.spec_write_plt_header(old(out)@, plt, got_plt, flags).result,
            final(out)@ == self.spec_write_plt_header(old(out)@, plt, got_plt, flags).bytes,
    {
        match self {
            Arch::X86_64 => x86_64::write_plt_header(out, plt, got_plt),
            Arch::AArch64 => aarch64::write_plt_header(out, plt, got_plt, flags),
            Arch::Ppc64 => ppc64::write_plt_header(out, plt, got_plt),
            Arch::Arm => arm::write_plt_header(out, plt, got_plt),
            Arch::RiscV64 => riscv::write_plt_header(out, plt, got_plt),
        }
    }

    /// What [`Arch::write_plt_entry`] does.
    pub open spec fn spec_write_plt_entry(
        self,
        s: Seq<u8>,
        entry: u64,
        slot: u64,
        index: u32,
        plt: u64,
        flags: PltFlags,
    ) -> Patched {
        match self {
            Arch::X86_64 => x86_64::spec_write_plt_entry(
                s,
                entry,
                slot,
                index,
                plt,
                flags.landing_pad,
            ),
            Arch::AArch64 => aarch64::spec_write_plt_entry(s, entry, slot, flags),
            Arch::Ppc64 => ppc64::with_insn(
                Patched::new(s),
                0,
                crate::arch::ppc64::spec_glink_entry(entry.wrapping_sub(plt)),
            ),
            Arch::Arm => arm::spec_write_plt_entry(s, entry, slot),
            Arch::RiscV64 => riscv::spec_write_plt_entry(s, entry, slot),
        }
    }

    /// Writes `.plt` entry `index` at `entry`, which jumps through its
    /// `.got.plt` slot at `slot`.
    ///
    /// # Errors
    ///
    /// [`ApplyError`] when out of range.
    pub fn write_plt_entry(
        self,
        out: &mut [u8],
        entry: u64,
        slot: u64,
        index: u32,
        plt: u64,
        flags: PltFlags,
    ) -> (r: Result<(), ApplyError>)
        ensures
            r == self.spec_write_plt_entry(old(out)@, entry, slot, index, plt, flags).result,
            final(out)@ == self.spec_write_plt_entry(old(out)@, entry, slot, index, plt, flags).bytes,
    {
        match self {
            Arch::X86_64 => x86_64::write_plt_entry(out, entry, slot, index, plt, flags.landing_pad),
            Arch::AArch64 => aarch64::write_plt_entry(out, entry, slot, flags),
            Arch::Ppc64 => ppc64::write_plt_entry(out, entry, plt),
            Arch::Arm => arm::write_plt_entry(out, entry, slot),
            Arch::RiscV64 => riscv::write_plt_entry(out, entry, slot),
        }
    }

    /// What [`Arch::write_plt_jump`] does.
    pub open spec fn spec_write_plt_jump(
        self,
        s: Seq<u8>,
        entry: u64,
        slot: u64,
        flags: PltFlags,
        got_base: u64,
    ) -> Patched {
        match self {
            Arch::X86_64 => x86_64::spec_write_plt_jump(s, entry, slot, flags.landing_pad),
            Arch::AArch64 => aarch64::spec_write_plt_entry(s, entry, slot, flags),
            Arch::Ppc64 => ppc64::spec_write_call_stub(s, slot, got_base),
            Arch::Arm => arm::spec_write_plt_entry(s, entry, slot),
            Arch::RiscV64 => riscv::spec_write_plt_entry(s, entry, slot),
        }
    }

    /// Writes a `.plt.sec` or `.plt.got` entry at `entry` that jumps through
    /// the GOT word at `slot`. `got_base` is the GOT base, from which PowerPC64
    /// stubs address the slot.
    ///
    /// # Errors
    ///
    /// [`ApplyError`] when out of range.
    pub fn write_plt_jump(
        self,
        out: &mut [u8],
        entry: u64,
        slot: u64,
        flags: PltFlags,
        got_base: u64,
    ) -> (r: Result<(), ApplyError>)
        ensures
            r == self.spec_write_plt_jump(old(out)@, entry, slot, flags, got_base).result,
            final(out)@ == self.spec_write_plt_jump(old(out)@, entry, slot, flags, got_base).bytes,
    {
        match self {
            Arch::X86_64 => x86_64::write_plt_jump(out, entry, slot, flags.landing_pad),
            Arch::AArch64 => aarch64::write_plt_entry(out, entry, slot, flags),
            Arch::Ppc64 => ppc64::write_call_stub(out, slot, got_base),
            Arch::Arm => arm::write_plt_entry(out, entry, slot),
            Arch::RiscV64 => riscv::write_plt_entry(out, entry, slot),
        }
    }

    /// What [`Arch::write_iplt`] does.
    pub open spec fn spec_write_iplt(
        self,
        s: Seq<u8>,
        stub: u64,
        slot_address: u64,
        got_base: u64,
    ) -> Patched {
        match self {
            Arch::X86_64 => x86_64::spec_write_iplt(s, stub, slot_address),
            Arch::AArch64 => aarch64::spec_write_plt_entry(
                s,
                stub,
                slot_address,
                PltFlags { landing_pad: false, entry_landing_pad: false },
            ),
            Arch::Ppc64 => ppc64::spec_write_call_stub(s, slot_address, got_base),
            Arch::Arm => arm::spec_write_plt_entry(s, stub, slot_address),
            Arch::RiscV64 => riscv::spec_write_plt_entry(s, stub, slot_address),
        }
    }

    /// Writes an IFUNC stub at `stub` that jumps through the GOT slot at
    /// `slot_address`; `got_base` as for [`Arch::write_plt_jump`].
    ///
    /// # Errors
    ///
    /// [`ApplyError`] when out of range.
    pub fn write_iplt(
        self,
        out: &mut [u8],
        stub: u64,
        slot_address: u64,
        got_base: u64,
    ) -> (r: Result<(), ApplyError>)
        ensures
            r == self.spec_write_iplt(old(out)@, stub, slot_address, got_base).result,
            final(out)@ == self.spec_write_iplt(old(out)@, stub, slot_address, got_base).bytes,
    {
        match self {
            Arch::X86_64 => x86_64::write_iplt(out, stub, slot_address),
            Arch::AArch64 => aarch64::write_plt_entry(out, stub, slot_address, PltFlags::default()),
            Arch::Ppc64 => ppc64::write_call_stub(out, slot_address, got_base),
            Arch::Arm => arm::write_plt_entry(out, stub, slot_address),
            Arch::RiscV64 => riscv::write_plt_entry(out, stub, slot_address),
        }
    }

    /// Whether a branch `r_type` to an undefined weak symbol becomes a `nop`.
    #[verifier::allow_in_spec]
    pub fn nops_undefined(self, r_type: u32) -> bool
        returns
            (match self {
                Arch::AArch64 => aarch64::is_jump26(r_type),
                Arch::Ppc64 => ppc64::is_thunk_branch(r_type),
                _ => false,
            }),
    {
        match self {
            Arch::AArch64 => aarch64::is_jump26(r_type),
            Arch::Ppc64 => ppc64::is_thunk_branch(r_type),
            _ => false,
        }
    }

    /// Replaces a branch to an undefined weak symbol, which has no address
    /// to branch to, with a `nop` (AArch64 and PowerPC64). Returns `false`
    /// when the architecture keeps the branch.
    ///
    /// # Errors
    ///
    /// [`ApplyError`] when the instruction is outside the section.
    pub fn nop_undefined_branch(self, out: &mut [u8], offset: u64, r_type: u32) -> (r: Result<
        bool,
        ApplyError,
    >)
        ensures
            ({
                let nop = match self {
                    Arch::AArch64 => crate::arch::aarch64::NOP,
                    _ => crate::arch::ppc64::NOP,
                };
                let p = Patched::new(old(out)@).word(offset as int, nop);
                if self.nops_undefined(r_type) {
                    &&& final(out)@ == p.bytes
                    &&& match p.result {
                        Ok(_) => r == Ok::<bool, ApplyError>(true),
                        Err(e) => r == Err::<bool, ApplyError>(e),
                    }
                } else {
                    final(out)@ == old(out)@ && r == Ok::<bool, ApplyError>(false)
                }
            }),
    {
        match self {
            Arch::AArch64 => aarch64::nop_undefined_branch(out, offset, r_type),
            Arch::Ppc64 => ppc64::nop_undefined_branch(out, offset, r_type),
            _ => Ok(false),
        }
    }

    /// What [`Arch::write_nops`] writes into `s`.
    pub open spec fn filled(self, s: Seq<u8>) -> Seq<u8> {
        match self {
            Arch::X86_64 => x86_64::nops(s.len()),
            Arch::AArch64 => crate::bytes::filled_with(s, crate::arch::aarch64::NOP),
            Arch::Ppc64 => crate::bytes::filled_with(s, crate::arch::ppc64::NOP),
            Arch::Arm => crate::bytes::filled_with(s, crate::arch::arm::NOP_ALWAYS),
            Arch::RiscV64 => Seq::new(s.len(), |i: int| 0u8),
        }
    }

    /// Fills `out` with no-op instructions, as the architecture's default
    /// fill does for gaps in executable sections.
    pub fn write_nops(self, out: &mut [u8])
        ensures
            final(out)@ == self.filled(old(out)@),
    {
        match self {
            Arch::X86_64 => x86_64::write_nops(out),
            Arch::AArch64 => aarch64::write_nops(out),
            Arch::Ppc64 => ppc64::write_nops(out),
            Arch::Arm => fill_words(out, crate::arch::arm::NOP_ALWAYS),
            Arch::RiscV64 => riscv::write_nops(out),
        }
    }
}

/// An architecture that is linked is that of its machine.
pub proof fn machines_name_their_architecture(arch: Arch)
    requires
        arch == Arch::X86_64 || arch == Arch::AArch64 || arch == Arch::Ppc64,
    ensures
        Arch::from_machine(arch.machine()) == Some(arch),
{
}

/// The number that the ABI of an architecture gives a dynamic relocation.
pub open spec fn dynamic_number(arch: Arch, kind: DynKind) -> u32 {
    match arch {
        Arch::X86_64 => match kind {
            DynKind::Relative => 8,
            DynKind::Irelative => 37,
            DynKind::JumpSlot => 7,
            DynKind::GlobDat => 6,
            DynKind::Copy => 5,
            DynKind::Abs64 => 1,
            DynKind::DtpMod => 16,
            DynKind::DtpOff => 17,
            DynKind::TpOff => 18,
            DynKind::TlsDesc => 36,
        },
        Arch::AArch64 => match kind {
            DynKind::Relative => 1027,
            DynKind::Irelative => 1032,
            DynKind::JumpSlot => 1026,
            DynKind::GlobDat => 1025,
            DynKind::Copy => 1024,
            DynKind::Abs64 => 257,
            DynKind::DtpMod => 1028,
            DynKind::DtpOff => 1029,
            DynKind::TpOff => 1030,
            DynKind::TlsDesc => 1031,
        },
        Arch::Ppc64 => match kind {
            DynKind::Relative => 22,
            DynKind::Irelative => 248,
            DynKind::JumpSlot => 21,
            DynKind::GlobDat => 20,
            DynKind::Copy => 19,
            DynKind::Abs64 => 38,
            DynKind::DtpMod => 68,
            DynKind::DtpOff => 78,
            DynKind::TpOff => 73,
            DynKind::TlsDesc => 0,
        },
        Arch::Arm => match kind {
            DynKind::Relative => 23,
            DynKind::Irelative => 160,
            DynKind::JumpSlot => 22,
            DynKind::GlobDat => 21,
            DynKind::Copy => 20,
            DynKind::Abs64 => 2,
            DynKind::DtpMod => 17,
            DynKind::DtpOff => 18,
            DynKind::TpOff => 19,
            DynKind::TlsDesc => 13,
        },
        Arch::RiscV64 => match kind {
            DynKind::Relative => 3,
            DynKind::Irelative => 58,
            DynKind::JumpSlot => 5,
            DynKind::GlobDat => 2,
            DynKind::Copy => 4,
            DynKind::Abs64 => 2,
            DynKind::DtpMod => 7,
            DynKind::DtpOff => 9,
            DynKind::TpOff => 11,
            DynKind::TlsDesc => 12,
        },
    }
}

/// Dynamic relocations have the numbers that loaders know them by, and
/// outputs the number of their machine.
pub proof fn loaders_know_the_numbers(arch: Arch, kind: DynKind)
    ensures
        arch.dyn_reloc(kind) == dynamic_number(arch, kind),
        arch.machine() == (match arch {
            Arch::X86_64 => 62u16,
            Arch::AArch64 => 183,
            Arch::Ppc64 => 21,
            Arch::Arm => 40,
            Arch::RiscV64 => 243,
        }),
{
}

/// A PLT entry fits the size that entries have, and an unresolved slot leads
/// to where the entry starts to resolve it: on x86-64 the push behind the
/// jump, or the `endbr64` of an entry that starts with one; on other
/// architectures the header.
pub proof fn unresolved_slots_lead_to_the_resolver(
    s: Seq<u8>,
    plt: u64,
    entry: u64,
    slot: u64,
    index: u32,
    flags: PltFlags,
)
    requires
        s.len() == Arch::X86_64.plt_entry_size(flags),
    ensures
        ({
            let p = Arch::X86_64.spec_write_plt_entry(s, entry, slot, index, plt, flags);
            let at = Arch::X86_64.lazy_slot_value(plt, entry, flags).wrapping_sub(entry) as int;
            p.result is Ok ==> p.bytes[at] == (if flags.landing_pad {
                0xf3u8
            } else {
                0x68u8
            }) && (!flags.landing_pad ==> at == 6) && (flags.landing_pad ==> at == 0)
        }),
        Arch::X86_64.spec_write_plt_entry(s, entry, slot, index, plt, flags).result != Err::<
            (),
            ApplyError,
        >(ApplyError::OutOfBounds),
        Arch::AArch64.lazy_slot_value(plt, entry, flags) == plt,
        Arch::Arm.lazy_slot_value(plt, entry, flags) == plt,
        Arch::RiscV64.lazy_slot_value(plt, entry, flags) == plt,
{
}

/// Every architecture writes with its own instructions: what is asked of one
/// is what that architecture's own writer does.
pub proof fn architectures_use_their_own_tables(
    r_type: u32,
    addend: i64,
    data: Seq<u8>,
    offset: u64,
    context: ClassifyContext,
)
    ensures
        Arch::X86_64.spec_classify(r_type, addend, data, offset, context)
            == x86_64::spec_classify(r_type, addend, data, offset, context),
        Arch::AArch64.spec_classify(r_type, addend, data, offset, context)
            == aarch64::spec_classify(r_type, context),
        Arch::Ppc64.spec_classify(r_type, addend, data, offset, context) == ppc64::spec_classify(
            r_type,
            data,
            offset,
            context,
        ),
        Arch::Arm.spec_classify(r_type, addend, data, offset, context) == arm::spec_classify(
            r_type,
            context,
        ),
        Arch::RiscV64.spec_classify(r_type, addend, data, offset, context)
            == riscv::spec_classify(r_type, context),
{
}

/// The architecture of a link is that of its first object that has one,
/// unless the command line says which.
pub proof fn the_first_object_decides(files: Seq<ElfInput>, i: int, k: int, arch: Arch)
    requires
        0 <= i <= k < files.len(),
        files[k].object matches Some(object) && Arch::from_machine(object.machine) == Some(arch),
        forall|n: int|
            i <= n < k ==> ((#[trigger] files[n]).object matches Some(object)
                ==> Arch::from_machine(object.machine) is None),
    ensures
        Arch::first_of(files, i) == Some(arch),
    decreases k - i,
{
    if i < k {
        the_first_object_decides(files, i + 1, k, arch);
    }
}

} // verus!
