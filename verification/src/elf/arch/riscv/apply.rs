//! Writing and relocating RISC-V input sections.
//!
//! The writer's generic loop applies one relocation at a time; RISC-V needs
//! more context, so its input sections come here instead:
//!
//! - the section is copied with the relaxation edits of layout applied
//!   ([`super::relax`]): deleted bytes dropped, `R_RISCV_ALIGN` padding
//!   rewritten, relaxed calls and local-exec accesses replaced;
//! - relocation offsets move with the edits;
//! - a `%pcrel_lo` takes the low part of the value its `%pcrel_hi` (found by
//!   the label it names) computes, at the `auipc`'s address;
//! - TLS descriptor sequences are rewritten as a whole, as lld does;
//! - `SET_ULEB128`/`SUB_ULEB128` pairs write a label difference;
//! - `.riscv.attributes` sections are replaced by the merged one.
//!
//! Everything else (GOT and PLT redirection, dynamic relocations, TLS
//! offsets, tombstones for dead code in debug sections) follows the same
//! decisions as the scan and the other architectures.

use vstd::prelude::*;

use super::attributes::Output;
use super::relax::{fill_nops, GPREL, X0REL};
use super::super::{add_value, width_bytes, ApplyError, Class, Kind, Width};
use super::super::apply::{
    put, put_word, report, truncated, Address, Decision, Facts, Problem, Report, Site, State,
};
use super::super::shrink::{by_offset, copy, list_offsets, Edit, Rewrite, SectionRelax};
use crate::arch::EncodeError;
use crate::arch::riscv::{
    hi20, itype, lo12, utype, Field, A0, ADDI, AUIPC, LD, LUI, NOP, X0,
};
use crate::arch::riscv as insn;
use crate::bytes::store;
use crate::elf::consts::{SHF_ALLOC, SHT_RISCV_ATTRIBUTES};
use crate::elf::consts::riscv as r;
use crate::elf::inputs::{InputSection, RelocTable};
use crate::elf::layout::{Layout, Tls};
use crate::elf::refs::{Def, Refs, Target};
use crate::elf::relocation::Relocation;
use crate::error::Error;
use crate::ids::SectionId;
use crate::symbols::{NEEDS_PLT, PREEMPTIBLE};

verus! {

/// Whether an undefined weak target of `r_type` resolves to the place
/// itself, so that the branch is harmless (as in lld).
#[verifier::allow_in_spec]
pub fn is_branch_like(r_type: u32) -> bool
    returns
        (match r_type {
            r::R_RISCV_BRANCH | r::R_RISCV_JAL | r::R_RISCV_CALL | r::R_RISCV_CALL_PLT
            | r::R_RISCV_RVC_BRANCH | r::R_RISCV_RVC_JUMP | r::R_RISCV_PLT32 => true,
            _ => false,
        }),
{
    match r_type {
        r::R_RISCV_BRANCH | r::R_RISCV_JAL | r::R_RISCV_CALL | r::R_RISCV_CALL_PLT
        | r::R_RISCV_RVC_BRANCH | r::R_RISCV_RVC_JUMP | r::R_RISCV_PLT32 => true,
        _ => false,
    }
}

/// Whether a relocation computes with labels in place.
#[verifier::allow_in_spec]
pub fn is_label_math(class: Class) -> bool
    returns
        (match class.kind {
            Kind::Add | Kind::Sub => true,
            _ => match class.width {
                Width::RiscV(field) => field.is_label_math(),
                _ => false,
            },
        }),
{
    match class.kind {
        Kind::Add | Kind::Sub => true,
        _ => match class.width {
            Width::RiscV(field) => field.is_label_math(),
            _ => false,
        },
    }
}

/// What a relocation writes: a value, or nothing because a dynamic
/// relocation supplies it, the scan reported it, or there is a problem.
#[derive(Clone, Copy, Debug, PartialEq, Eq, Structural)]
pub struct Value {
    /// The value.
    pub value: Option<u64>,
    /// What is wrong.
    pub problem: Option<Problem>,
}

impl Value {
    /// This value.
    #[verifier::allow_in_spec]
    pub fn write(value: u64) -> Self
        returns
            (Value { value: Some(value), problem: None }),
    {
        Value { value: Some(value), problem: None }
    }

    /// Nothing.
    #[verifier::allow_in_spec]
    pub fn skip() -> Self
        returns
            (Value { value: None, problem: None }),
    {
        Value { value: None, problem: None }
    }

    /// Nothing, because of a problem.
    #[verifier::allow_in_spec]
    pub fn wrong(problem: Problem) -> Self
        returns
            (Value { value: None, problem: Some(problem) }),
    {
        Value { value: None, problem: Some(problem) }
    }
}

/// What a relocation computes: how to store it, what, and whether the
/// reference is prohibited.
#[derive(Clone, Copy, Debug, PartialEq, Eq, Structural)]
pub struct Outcome {
    /// What is computed and how it is stored.
    pub class: Class,
    /// What to write.
    pub value: Value,
    /// Whether the reference crosses sections that must not refer to each
    /// other.
    pub cross: bool,
}

/// What the values in a section depend on besides their symbols.
#[derive(Clone, Copy, Debug, PartialEq, Eq, Structural)]
pub struct Setting {
    /// Whether the section is part of the process image.
    pub alloc: bool,
    /// What a reference to a discarded section holds here.
    pub discarded: Option<u64>,
    /// The thread-local segment.
    pub tls: Tls,
    /// Whether the output is an executable or is not dynamically linked.
    pub executable: bool,
}

impl Setting {
    /// The PLT or IPLT entry a relocation goes through instead of its
    /// symbol.
    #[verifier::allow_in_spec]
    pub fn stub(
        self,
        r_type: u32,
        kind: Kind,
        facts: Facts,
        ifunc: bool,
        needs_plt: bool,
    ) -> Option<u64>
        returns
            (if !self.alloc {
                None
            } else if kind == Kind::Pc && super::is_branch(r_type) && needs_plt && facts.plt.is_some() {
                facts.plt
            } else if ifunc {
                facts.iplt
            } else {
                None
            }),
    {
        if !self.alloc {
            None
        } else if kind == Kind::Pc && super::is_branch(r_type) && needs_plt && facts.plt.is_some() {
            facts.plt
        } else if ifunc {
            facts.iplt
        } else {
            None
        }
    }

    /// The value of a relocation at `place` whose symbol is at `address`.
    #[verifier::allow_in_spec]
    pub fn computed(
        self,
        r_type: u32,
        decision: Decision,
        slot: Option<u64>,
        address: Address,
        undefined: bool,
        place: u64,
    ) -> Value
        returns
            (match decision.class.kind {
                Kind::Add | Kind::Sub => Value::write(address.sum()),
                Kind::Abs => if decision.symbolic {
                    Value::skip()
                } else {
                    Value::write(address.sum())
                },
                // A branch to an undefined weak symbol branches to itself (lld);
                // other PC-relative references compute `0 + A - P`.
                Kind::Pc => if undefined && is_branch_like(r_type) {
                    Value::write(address.addend as u64)
                } else {
                    Value::write(address.sum().wrapping_sub(place))
                },
                Kind::Got => match slot {
                    Some(g) => Value::write(
                        g.wrapping_add_signed(address.addend).wrapping_sub(place),
                    ),
                    None => Value::wrong(Problem::Apply(ApplyError::BadInstruction)),
                },
                Kind::TpOff => if undefined {
                    Value::write(address.addend as u64)
                } else {
                    Value::write(address.sum().wrapping_sub(self.tls.tp))
                },
                Kind::DtpOff => if undefined {
                    Value::write(address.addend as u64)
                } else if self.alloc && self.executable {
                    Value::write(address.sum().wrapping_sub(self.tls.tp))
                } else {
                    Value::write(address.sum().wrapping_sub(self.tls.start))
                },
                _ => Value::wrong(Problem::Apply(ApplyError::BadInstruction)),
            }),
    {
        match decision.class.kind {
            Kind::Add | Kind::Sub => Value::write(address.sum()),
            Kind::Abs => if decision.symbolic {
                Value::skip()
            } else {
                Value::write(address.sum())
            },
            // A branch to an undefined weak symbol branches to itself (lld);
            // other PC-relative references compute `0 + A - P`.
            Kind::Pc => if undefined && is_branch_like(r_type) {
                Value::write(address.addend as u64)
            } else {
                Value::write(address.sum().wrapping_sub(place))
            },
            Kind::Got => match slot {
                Some(g) => Value::write(
                    g.wrapping_add_signed(address.addend).wrapping_sub(place),
                ),
                None => Value::wrong(Problem::Apply(ApplyError::BadInstruction)),
            },
            Kind::TpOff => if undefined {
                Value::write(address.addend as u64)
            } else {
                Value::write(address.sum().wrapping_sub(self.tls.tp))
            },
            Kind::DtpOff => if undefined {
                Value::write(address.addend as u64)
            } else if self.alloc && self.executable {
                Value::write(address.sum().wrapping_sub(self.tls.tp))
            } else {
                Value::write(address.sum().wrapping_sub(self.tls.start))
            },
            _ => Value::wrong(Problem::Apply(ApplyError::BadInstruction)),
        }
    }

    /// The value of a relocation at `place` against `target`, as the
    /// generic writer computes it for other architectures.
    #[verifier::allow_in_spec]
    pub fn decided(
        self,
        site: Site,
        decision: Decision,
        target: Target,
        needs_plt: bool,
        place: u64,
    ) -> Value
        returns
            (if decision.class.kind == Kind::Nothing || (self.alloc && decision.problem) {
                Value::skip()
            } else if !self.alloc && !is_label_math(decision.class) && (decision.class.kind == Kind::Abs
                || decision.class.kind == Kind::DtpOff) && site.facts.dead.is_some() {
                match site.facts.dead {
                    Some(value) => Value::write(truncated(value, width_bytes(decision.class.width))),
                    None => Value::skip(),
                }
            } else {
                match site.facts.address {
                    None => if self.alloc {
                        Value::wrong(Problem::Discarded)
                    } else if is_label_math(decision.class) {
                        Value::write(0)
                    } else {
                        match self.discarded {
                            Some(value) => Value::write(
                                truncated(value, width_bytes(decision.class.width)),
                            ),
                            None => Value::write(0),
                        }
                    },
                    Some(address) => match self.stub(
                        site.rel.r_type,
                        decision.class.kind,
                        site.facts,
                        target.ifunc,
                        needs_plt,
                    ) {
                        Some(stub) => self.computed(
                            site.rel.r_type,
                            decision,
                            site.facts.slot,
                            Address { value: stub, addend: address.addend },
                            false,
                            place,
                        ),
                        None => self.computed(
                            site.rel.r_type,
                            decision,
                            site.facts.slot,
                            address,
                            matches!(target.def, Def::Undefined { .. }),
                            place,
                        ),
                    },
                }
            }),
    {
        if decision.class.kind == Kind::Nothing || (self.alloc && decision.problem) {
            Value::skip()
        } else if !self.alloc && !is_label_math(decision.class) && (decision.class.kind == Kind::Abs
            || decision.class.kind == Kind::DtpOff) && site.facts.dead.is_some() {
            match site.facts.dead {
                Some(value) => Value::write(truncated(value, width_bytes(decision.class.width))),
                None => Value::skip(),
            }
        } else {
            match site.facts.address {
                None => if self.alloc {
                    Value::wrong(Problem::Discarded)
                } else if is_label_math(decision.class) {
                    Value::write(0)
                } else {
                    match self.discarded {
                        Some(value) => Value::write(
                            truncated(value, width_bytes(decision.class.width)),
                        ),
                        None => Value::write(0),
                    }
                },
                Some(address) => match self.stub(
                    site.rel.r_type,
                    decision.class.kind,
                    site.facts,
                    target.ifunc,
                    needs_plt,
                ) {
                    Some(stub) => self.computed(
                        site.rel.r_type,
                        decision,
                        site.facts.slot,
                        Address { value: stub, addend: address.addend },
                        false,
                        place,
                    ),
                    None => self.computed(
                        site.rel.r_type,
                        decision,
                        site.facts.slot,
                        address,
                        matches!(target.def, Def::Undefined { .. }),
                        place,
                    ),
                },
            }
        }
    }
}

/// One section being relocated.
#[derive(Debug)]
pub struct Writer<'s> {
    /// What the symbols stand for.
    pub refs: &'s Refs,
    /// The file.
    pub file: usize,
    /// The section's index in it.
    pub index: u32,
    /// The section's output address.
    pub base: u64,
    /// What its values depend on.
    pub setting: Setting,
    /// The value of `__global_pointer$`.
    pub gp: u64,
    /// The edits relaxation made.
    pub relax: Option<&'s SectionRelax>,
    /// The relocations, by offset.
    pub sites: &'s Vec<Site>,
}

/// The first of `sites` from `i` on that is a `%pcrel_hi` at `label`.
pub open spec fn high_from(sites: Seq<Site>, label: u64, i: int) -> Option<int>
    decreases sites.len() - i,
{
    if i < 0 || i >= sites.len() {
        None
    } else if sites[i].rel.offset == label && super::is_pcrel_hi(sites[i].rel.r_type) {
        Some(i)
    } else {
        high_from(sites, label, i + 1)
    }
}

/// The sites are in order of their offsets.
pub open spec fn in_offset_order(sites: Seq<Site>) -> bool {
    forall|i: int, j: int|
        0 <= i < j < sites.len() ==> (#[trigger] sites[i]).rel.offset <= (
        #[trigger] sites[j]).rel.offset
}

/// Sites before a label hold no relocation of it.
proof fn high_skips(sites: Seq<Site>, label: u64, i: int, to: int)
    requires
        0 <= i <= to <= sites.len(),
        forall|k: int| i <= k < to ==> (#[trigger] sites[k]).rel.offset != label,
    ensures
        high_from(sites, label, i) == high_from(sites, label, to),
    decreases to - i,
{
    if i < to {
        assert(sites[i].rel.offset != label);
        high_skips(sites, label, i + 1, to);
    }
}

/// Finds the `%pcrel_hi` at `label`.
fn find_high(sites: &Vec<Site>, label: u64) -> (r: Option<usize>)
    requires
        in_offset_order(sites@),
    ensures
        match r {
            Some(i) => i < sites@.len() && high_from(sites@, label, 0) == Some(i as int),
            None => high_from(sites@, label, 0) is None,
        },
{
    let mut low: usize = 0;
    let mut high: usize = sites.len();
    while low < high
        invariant
            low <= high <= sites@.len(),
            in_offset_order(sites@),
            forall|k: int| 0 <= k < low ==> (#[trigger] sites@[k]).rel.offset < label,
            forall|k: int| high <= k < sites@.len() ==> (#[trigger] sites@[k]).rel.offset >= label,
        decreases high - low,
    {
        let middle: usize = low + (high - low) / 2;
        if sites[middle].rel.offset < label {
            low = middle + 1;
        } else {
            high = middle;
        }
    }
    proof {
        high_skips(sites@, label, 0, low as int);
    }
    let mut i: usize = low;
    while i < sites.len() && sites[i].rel.offset == label
        invariant
            low <= i <= sites@.len(),
            in_offset_order(sites@),
            high_from(sites@, label, 0) == high_from(sites@, label, i as int),
            forall|k: int| low <= k < sites@.len() ==> (#[trigger] sites@[k]).rel.offset >= label,
        decreases sites@.len() - i,
    {
        if super::is_pcrel_hi(sites[i].rel.r_type) {
            return Some(i);
        }
        i += 1;
    }
    proof {
        assert forall|k: int| i <= k < sites@.len() implies (#[trigger] sites@[k]).rel.offset
            != label by {
            assert(sites@[i as int].rel.offset > label);
        }
        high_skips(sites@, label, i as int, sites@.len() as int);
    }
    None
}

/// The TLS descriptor sequence being written, and whether the relocation
/// that follows belongs to the one before it.
#[derive(Clone, Copy, Debug, PartialEq, Eq, Structural)]
pub struct Sequence {
    /// The value its tail uses.
    pub value: u64,
    /// Whether it is relaxed.
    pub relaxes: bool,
    /// Whether it is relaxed to local-exec, not initial-exec.
    pub to_le: bool,
    /// Whether its instructions were deleted.
    pub deleted: bool,
    /// Whether the next relocation is done.
    pub skip_next: bool,
}

impl Sequence {
    /// No sequence.
    #[verifier::allow_in_spec]
    pub fn none() -> Self
        returns
            (Sequence { value: 0, relaxes: false, to_le: false, deleted: false, skip_next: false }),
    {
        Sequence { value: 0, relaxes: false, to_le: false, deleted: false, skip_next: false }
    }

    /// The value the tail relocation of type `r_type` uses, which applies
    /// at `at`: an initial-exec sequence is relative to its `auipc`.
    #[verifier::allow_in_spec]
    pub fn tail_value(self, r_type: u32, at: u64) -> u64
        returns
            (if !self.to_le && r_type == r::R_RISCV_TLSDESC_ADD_LO12 {
                self.value.wrapping_sub(at)
            } else {
                self.value
            }),
    {
        if !self.to_le && r_type == r::R_RISCV_TLSDESC_ADD_LO12 {
            self.value.wrapping_sub(at)
        } else {
            self.value
        }
    }

    /// Whether the tail instruction of type `r_type` was deleted.
    #[verifier::allow_in_spec]
    pub fn tail_deleted(self, r_type: u32) -> bool
        returns
            (self.deleted && (r_type == r::R_RISCV_TLSDESC_LOAD_LO12 || (r_type
                == r::R_RISCV_TLSDESC_ADD_LO12 && self.to_le && hi20(self.value) == 0))),
    {
        self.deleted && (r_type == r::R_RISCV_TLSDESC_LOAD_LO12 || (r_type
            == r::R_RISCV_TLSDESC_ADD_LO12 && self.to_le && hi20(self.value) == 0))
    }

    /// The instruction that takes the place of the tail instruction of type
    /// `r_type`.
    #[verifier::allow_in_spec]
    pub fn tail_word(self, r_type: u32) -> u32
        returns
            (if r_type == r::R_RISCV_TLSDESC_LOAD_LO12 {
                NOP
            } else if r_type == r::R_RISCV_TLSDESC_ADD_LO12 {
                if !self.to_le {
                    utype(AUIPC, A0, hi20(self.value))
                } else if hi20(self.value) == 0 {
                    NOP
                } else {
                    utype(LUI, A0, hi20(self.value))
                }
            } else if !self.to_le {
                itype(LD, A0, A0, lo12(self.value))
            } else if (self.value as i64) >= -0x800 && (self.value as i64) < 0x800 {
                itype(ADDI, A0, X0, self.value as u32)
            } else {
                itype(ADDI, A0, A0, lo12(self.value))
            }),
    {
        if r_type == r::R_RISCV_TLSDESC_LOAD_LO12 {
            NOP
        } else if r_type == r::R_RISCV_TLSDESC_ADD_LO12 {
            if !self.to_le {
                utype(AUIPC, A0, hi20(self.value))
            } else if hi20(self.value) == 0 {
                NOP
            } else {
                utype(LUI, A0, hi20(self.value))
            }
        } else if !self.to_le {
            itype(LD, A0, A0, lo12(self.value))
        } else if (self.value as i64) >= -0x800 && (self.value as i64) < 0x800 {
            itype(ADDI, A0, X0, self.value as u32)
        } else {
            itype(ADDI, A0, A0, lo12(self.value))
        }
    }
}

/// What a section is while its relocations are written.
#[verifier::ext_equal]
pub struct Progress {
    /// The bytes, and the problems found.
    pub state: State,
    /// The sequence being written.
    pub sequence: Sequence,
}

/// The field a relaxed call is written into.
#[verifier::allow_in_spec]
pub fn jump_field(r_type: u32) -> Field
    returns
        (if r_type == r::R_RISCV_RVC_JUMP {
            Field::RvcJump
        } else {
            Field::Jal
        }),
{
    if r_type == r::R_RISCV_RVC_JUMP {
        Field::RvcJump
    } else {
        Field::Jal
    }
}

/// The field a low part relative to `gp` is written into.
#[verifier::allow_in_spec]
pub fn gp_field(r_type: u32) -> Field
    returns
        (if r_type == r::R_RISCV_LO12_S {
            Field::GpRelS
        } else {
            Field::GpRelI
        }),
{
    if r_type == r::R_RISCV_LO12_S {
        Field::GpRelS
    } else {
        Field::GpRelI
    }
}

/// The field an absolute low part is written into.
#[verifier::allow_in_spec]
pub fn x0_field(r_type: u32) -> Field
    returns
        (if r_type == r::R_RISCV_LO12_S {
            Field::X0RelS
        } else {
            Field::X0RelI
        }),
{
    if r_type == r::R_RISCV_LO12_S {
        Field::X0RelS
    } else {
        Field::X0RelI
    }
}

/// The field of the low part of a PC-relative address.
#[verifier::allow_in_spec]
pub fn low_field(r_type: u32) -> Field
    returns
        (if r_type == r::R_RISCV_PCREL_LO12_I {
            Field::Lo12I
        } else {
            Field::Lo12S
        }),
{
    if r_type == r::R_RISCV_PCREL_LO12_I {
        Field::Lo12I
    } else {
        Field::Lo12S
    }
}

impl State {
    /// With what a relocation computes written: into its field, or added to
    /// (`ADD*`) or subtracted from (`SUB*`) the field's contents.
    pub open spec fn stored(self, seq: int, at: u64, class: Class, value: u64) -> State {
        match class.kind {
            Kind::Add => self.patched(
                seq,
                super::super::fields::spec_add_value(self.out, at, class.width, value),
            ),
            Kind::Sub => self.patched(
                seq,
                super::super::fields::spec_add_value(
                    self.out,
                    at,
                    class.width,
                    0u64.wrapping_sub(value),
                ),
            ),
            _ => self.put(seq, at, class.width, value),
        }
    }

    /// With the problems of an outcome.
    pub open spec fn reported(self, seq: int, outcome: Outcome) -> State {
        let first = if outcome.cross {
            self.report(seq, Problem::CrossReference)
        } else {
            self
        };
        match outcome.value.problem {
            Some(problem) => first.report(seq, problem),
            None => first,
        }
    }

    /// With the label difference `value` over the ULEB128 number at `at`.
    pub open spec fn difference(self, seq: int, at: u64, value: u64) -> State {
        let (bytes, error) = insn::uleb_result(self.out, at as int, value);
        let next = State { out: bytes, ..self };
        match error {
            None => next,
            Some(EncodeError::Overflow) => next.report(seq, Problem::UlebSpace(value)),
            Some(_) => next.report(seq, Problem::Apply(ApplyError::OutOfBounds)),
        }
    }
}

impl Writer<'_> {
    /// The edits and the relocations are in order.
    pub open spec fn valid(&self) -> bool {
        &&& in_offset_order(self.sites@)
        &&& match self.relax {
            Some(relax) => super::super::shrink::in_order(relax.edits@),
            None => true,
        }
    }

    /// Where offset `offset` of the input section is in the output
    /// section's bytes.
    pub open spec fn spec_out_offset(&self, offset: u64) -> u64 {
        match self.relax {
            Some(relax) => relax.spec_map(offset),
            None => offset,
        }
    }

    /// Where offset `offset` of the input section is in the output
    /// section's bytes.
    fn out_offset(&self, offset: u64) -> (r: u64)
        requires
            self.valid(),
        ensures
            r == self.spec_out_offset(offset),
    {
        match self.relax {
            Some(relax) => relax.map(offset),
            None => offset,
        }
    }

    /// The edit of the relocation at position `seq`.
    pub open spec fn spec_edit(&self, seq: int) -> Option<Edit> {
        match self.relax {
            Some(relax) => super::super::shrink::edit_at(relax.edits@, seq as u32, 0),
            None => None,
        }
    }

    /// What the symbol of the relocation at position `seq` stands for.
    pub open spec fn spec_target(&self, seq: int) -> Option<Target> {
        self.refs.spec_target(self.file as int, self.sites@[seq].rel.symbol as int)
    }

    /// What the relocation at position `seq` computes at `place`.
    pub open spec fn spec_value(&self, seq: int, place: u64) -> Outcome {
        let site = self.sites@[seq];
        match self.spec_target(seq) {
            None => Outcome { class: super::nothing(), value: Value::skip(), cross: false },
            Some(target) => match site.facts.decision {
                None => Outcome {
                    class: super::nothing(),
                    value: Value::skip(),
                    cross: site.facts.prohibited,
                },
                Some(decision) => Outcome {
                    class: decision.class,
                    value: self.setting.decided(
                        site,
                        decision,
                        target,
                        self.refs.flags_of(target).contains(NEEDS_PLT | PREEMPTIBLE),
                        place,
                    ),
                    cross: site.facts.prohibited,
                },
            },
        }
    }

    /// What the relocation at position `seq` computes at `place`.
    fn value(&self, seq: usize, place: u64) -> (r: Outcome)
        requires
            seq < self.sites@.len(),
        ensures
            r == self.spec_value(seq as int, place),
    {
        let site: Site = self.sites[seq];
        let Some(target) = self.refs.target(self.file, site.rel.symbol) else {
            return Outcome { class: super::nothing(), value: Value::skip(), cross: false };
        };
        let Some(decision) = site.facts.decision else {
            // Reported by the scan.
            return Outcome {
                class: super::nothing(),
                value: Value::skip(),
                cross: site.facts.prohibited,
            };
        };
        let needs_plt: bool = self.refs.target_flags(target).contains(NEEDS_PLT | PREEMPTIBLE);
        Outcome {
            class: decision.class,
            value: self.setting.decided(site, decision, target, needs_plt, place),
            cross: site.facts.prohibited,
        }
    }

    /// The `%pcrel_hi` value the `%pcrel_lo` at position `seq` refers to, or
    /// why there is none. The `%pcrel_hi` reports its own problems.
    pub open spec fn spec_high(&self, seq: int) -> Value {
        let rel = self.sites@[seq].rel;
        match self.spec_target(seq) {
            None => Value::skip(),
            Some(target) => match target.def {
                Def::Section { file, section, value } => {
                    let label = value.wrapping_add_signed(rel.addend);
                    let hi = if file == self.file && section == self.index {
                        high_from(self.sites@, label, 0)
                    } else {
                        None
                    };
                    match hi {
                        None => Value::wrong(Problem::NoHigh),
                        Some(hi) => Value {
                            problem: None,
                            ..self.spec_value(
                                hi,
                                self.base.wrapping_add(
                                    self.spec_out_offset(self.sites@[hi].rel.offset),
                                ),
                            ).value
                        },
                    }
                },
                _ => Value::wrong(Problem::AbsoluteLow),
            },
        }
    }

    /// The `%pcrel_hi` value the `%pcrel_lo` at position `seq` refers to, or
    /// why there is none.
    fn pcrel_hi_value(&self, seq: usize) -> (r: Value)
        requires
            self.valid(),
            seq < self.sites@.len(),
        ensures
            r == self.spec_high(seq as int),
    {
        let rel = self.sites[seq].rel;
        let Some(target) = self.refs.target(self.file, rel.symbol) else {
            return Value::skip();
        };
        match target.def {
            Def::Section { file, section, value } => {
                let label: u64 = value.wrapping_add_signed(rel.addend);
                let hi: Option<usize> = if file == self.file && section == self.index {
                    find_high(self.sites, label)
                } else {
                    None
                };
                let Some(hi) = hi else {
                    return Value::wrong(Problem::NoHigh);
                };
                let place: u64 = self.base.wrapping_add(
                    self.out_offset(self.sites[hi].rel.offset),
                );
                Value { value: self.value(hi, place).value.value, problem: None }
            },
            _ => Value::wrong(Problem::AbsoluteLow),
        }
    }

    /// The address of the symbol of the relocation at position `seq`, with
    /// its addend; 0 when there is none.
    pub open spec fn spec_address(&self, seq: int) -> u64 {
        match (self.spec_target(seq), self.sites@[seq].facts.address) {
            (Some(_), Some(address)) => address.sum(),
            _ => 0,
        }
    }

    /// The address of the symbol of the relocation at position `seq`, with
    /// its addend; 0 when there is none.
    fn address(&self, seq: usize) -> (r: u64)
        requires
            seq < self.sites@.len(),
        ensures
            r == self.spec_address(seq as int),
    {
        let site: Site = self.sites[seq];
        match (self.refs.target(self.file, site.rel.symbol), site.facts.address) {
            (Some(_), Some(address)) => address.sum(),
            _ => 0,
        }
    }

    /// Whether the relocation after position `seq` is the `SUB_ULEB128` that
    /// goes with the `SET_ULEB128` there.
    pub open spec fn spec_paired(&self, seq: int) -> bool {
        seq + 1 < self.sites@.len() && self.sites@[seq + 1].rel.r_type == r::R_RISCV_SUB_ULEB128
            && self.sites@[seq + 1].rel.offset == self.sites@[seq].rel.offset
    }

    /// With the value of the relocation at position `seq` written into
    /// `field`, `bias` less.
    pub open spec fn spec_put_value(
        &self,
        state: State,
        seq: int,
        at: u64,
        field: Field,
        bias: u64,
    ) -> State {
        let outcome = self.spec_value(seq, self.base.wrapping_add(at));
        let next = state.reported(seq, outcome);
        match outcome.value.value {
            Some(value) => next.put(seq, at, Width::RiscV(field), value.wrapping_sub(bias)),
            None => next,
        }
    }

    /// After the `TLSDESC_HI20` at position `seq`, which starts a sequence.
    pub open spec fn spec_descriptor(&self, p: Progress, seq: int, at: u64) -> Progress {
        let place = self.base.wrapping_add(at);
        let facts = self.sites@[seq].facts;
        let deleted = self.spec_edit(seq) is Some;
        match (self.spec_target(seq), facts.decision) {
            (Some(_), Some(decision)) => match decision.class.kind {
                Kind::DescToLe => Progress {
                    state: if deleted {
                        p.state
                    } else {
                        p.state.put_word(seq, at, NOP)
                    },
                    sequence: Sequence {
                        value: self.spec_address(seq).wrapping_sub(self.setting.tls.tp),
                        relaxes: true,
                        to_le: true,
                        deleted,
                        ..p.sequence
                    },
                },
                Kind::DescToIe => match facts.tp_slot {
                    None => Progress {
                        state: p.state.report(seq, Problem::Apply(ApplyError::BadInstruction)),
                        sequence: Sequence { relaxes: true, to_le: false, deleted, ..p.sequence },
                    },
                    Some(got) => Progress {
                        state: if deleted {
                            p.state
                        } else {
                            p.state.put_word(seq, at, NOP)
                        },
                        sequence: Sequence {
                            value: got.wrapping_add_signed(
                                self.sites@[seq].rel.addend,
                            ).wrapping_sub(place).wrapping_add(at),
                            relaxes: true,
                            to_le: false,
                            deleted,
                            ..p.sequence
                        },
                    },
                },
                _ => {
                    let outcome = self.spec_value(seq, place);
                    let next = p.state.reported(seq, outcome);
                    match outcome.value.value {
                        Some(value) => Progress {
                            state: next.put(seq, at, outcome.class.width, value),
                            sequence: Sequence { value, relaxes: false, deleted, ..p.sequence },
                        },
                        None => Progress {
                            state: next,
                            sequence: Sequence { relaxes: false, deleted, ..p.sequence },
                        },
                    }
                },
            },
            _ => p,
        }
    }

    /// After a relocation of the tail of a TLS descriptor sequence.
    pub open spec fn spec_tail(&self, p: Progress, seq: int, at: u64) -> Progress {
        let r_type = self.sites@[seq].rel.r_type;
        if !p.sequence.relaxes {
            if r_type == r::R_RISCV_TLSDESC_CALL {
                p
            } else {
                Progress {
                    state: p.state.put(
                        seq,
                        at,
                        Width::RiscV(Field::Lo12I),
                        p.sequence.value,
                    ),
                    ..p
                }
            }
        } else {
            let sequence = Sequence {
                value: p.sequence.tail_value(r_type, at),
                ..p.sequence
            };
            if sequence.tail_deleted(r_type) {
                Progress { sequence, ..p }
            } else {
                Progress {
                    state: p.state.put_word(seq, at, sequence.tail_word(r_type)),
                    sequence,
                }
            }
        }
    }

    /// After a relocation that stands alone, as its edit has it.
    pub open spec fn spec_plain(&self, state: State, seq: int, at: u64) -> State {
        let r_type = self.sites@[seq].rel.r_type;
        let outcome = self.spec_value(seq, self.base.wrapping_add(at));
        let usual = match outcome.value.value {
            Some(value) => state.reported(seq, outcome).stored(seq, at, outcome.class, value),
            None => state.reported(seq, outcome),
        };
        match self.spec_edit(seq) {
            None => usual,
            Some(edit) => match edit.rewrite {
                Rewrite::Delete => state,
                Rewrite::Align { .. } => state,
                Rewrite::Replace { r_type: new_type, .. } => if new_type == 0 {
                    state
                } else {
                    self.spec_put_value(state, seq, at, jump_field(new_type), 0)
                },
                Rewrite::Retype(new_type) => if new_type == GPREL {
                    self.spec_put_value(state, seq, at, gp_field(r_type), self.gp)
                } else if new_type == X0REL {
                    self.spec_put_value(state, seq, at, x0_field(r_type), 0)
                } else {
                    usual
                },
            },
        }
    }

    /// After the relocation at position `seq`.
    pub open spec fn step(&self, p: Progress, seq: int) -> Progress {
        let rel = self.sites@[seq].rel;
        let at = self.spec_out_offset(rel.offset);
        if p.sequence.skip_next {
            Progress { sequence: Sequence { skip_next: false, ..p.sequence }, ..p }
        } else {
            match rel.r_type {
                r::R_RISCV_NONE | r::R_RISCV_RELAX | r::R_RISCV_ALIGN | r::R_RISCV_TPREL_ADD
                | r::R_RISCV_VENDOR => p,
                r::R_RISCV_PCREL_LO12_I | r::R_RISCV_PCREL_LO12_S => {
                    let high = self.spec_high(seq);
                    Progress {
                        state: match (high.value, high.problem) {
                            (Some(value), _) => p.state.put(
                                seq,
                                at,
                                Width::RiscV(low_field(rel.r_type)),
                                value,
                            ),
                            (None, Some(problem)) => p.state.report(seq, problem),
                            (None, None) => p.state,
                        },
                        ..p
                    }
                },
                r::R_RISCV_TLSDESC_HI20 => self.spec_descriptor(p, seq, at),
                r::R_RISCV_TLSDESC_LOAD_LO12 | r::R_RISCV_TLSDESC_ADD_LO12
                | r::R_RISCV_TLSDESC_CALL => self.spec_tail(p, seq, at),
                r::R_RISCV_SET_ULEB128 => if self.spec_paired(seq) {
                    Progress {
                        state: p.state.difference(
                            seq,
                            at,
                            self.spec_address(seq).wrapping_sub(self.spec_address(seq + 1)),
                        ),
                        sequence: Sequence { skip_next: true, ..p.sequence },
                    }
                } else {
                    Progress { state: p.state.report(seq, Problem::SetUnpaired), ..p }
                },
                r::R_RISCV_SUB_ULEB128 => Progress {
                    state: p.state.report(seq, Problem::SubUnpaired),
                    ..p
                },
                _ => Progress { state: self.spec_plain(p.state, seq, at), ..p },
            }
        }
    }

    /// After the relocations from position `seq` on.
    pub open spec fn relocated_from(&self, p: Progress, seq: int) -> Progress
        decreases self.sites@.len() - seq,
    {
        if seq < 0 || seq >= self.sites@.len() {
            p
        } else {
            self.relocated_from(self.step(p, seq), seq + 1)
        }
    }

    /// What relocating makes of the bytes `out`, and the problems there are.
    pub open spec fn relocated(&self, out: Seq<u8>) -> State {
        self.relocated_from(
            Progress {
                state: State { out, reports: Seq::empty() },
                sequence: Sequence::none(),
            },
            0,
        ).state
    }

    /// Reports the problems of an outcome.
    fn report_all(&self, reports: &mut Vec<Report>, seq: usize, outcome: Outcome)
        ensures
            forall|out: Seq<u8>|
                (State { out, reports: final(reports)@ }) == #[trigger] (State {
                    out,
                    reports: old(reports)@,
                }).reported(seq as int, outcome),
    {
        if outcome.cross {
            report(reports, seq, Problem::CrossReference);
        }
        match outcome.value.problem {
            Some(problem) => report(reports, seq, problem),
            None => {},
        }
    }

    /// Writes a relocation's value: into its field, or added to (`ADD*`) or
    /// subtracted from (`SUB*`) the field's contents.
    fn store(
        &self,
        out: &mut [u8],
        reports: &mut Vec<Report>,
        seq: usize,
        at: u64,
        class: Class,
        value: u64,
    )
        ensures
            (State { out: final(out)@, reports: final(reports)@ }) == (State {
                out: old(out)@,
                reports: old(reports)@,
            }).stored(seq as int, at, class, value),
    {
        let result: Result<(), ApplyError> = match class.kind {
            Kind::Add => add_value(out, at, class.width, value),
            Kind::Sub => add_value(out, at, class.width, 0u64.wrapping_sub(value)),
            _ => super::super::write_value(out, at, class.width, value),
        };
        match result {
            Ok(()) => {},
            Err(error) => report(reports, seq, Problem::Apply(error)),
        }
    }

    /// Writes the value of the relocation at position `seq` into `field`,
    /// `bias` less.
    fn put_value(
        &self,
        out: &mut [u8],
        reports: &mut Vec<Report>,
        seq: usize,
        at: u64,
        field: Field,
        bias: u64,
    )
        requires
            seq < self.sites@.len(),
        ensures
            (State { out: final(out)@, reports: final(reports)@ }) == self.spec_put_value(
                (State { out: old(out)@, reports: old(reports)@ }),
                seq as int,
                at,
                field,
                bias,
            ),
    {
        let outcome: Outcome = self.value(seq, self.base.wrapping_add(at));
        self.report_all(reports, seq, outcome);
        assert((State { out: out@, reports: reports@ }) == (State {
            out: old(out)@,
            reports: old(reports)@,
        }).reported(seq as int, outcome));
        match outcome.value.value {
            Some(value) => put(
                out,
                reports,
                seq,
                at,
                Width::RiscV(field),
                value.wrapping_sub(bias),
            ),
            None => {
                let _len: usize = out.len();
            },
        }
    }

    /// Writes the label difference `value` over the ULEB128 number at `at`.
    fn put_difference(
        &self,
        out: &mut [u8],
        reports: &mut Vec<Report>,
        seq: usize,
        at: u64,
        value: u64,
    )
        ensures
            (State { out: final(out)@, reports: final(reports)@ }) == (State {
                out: old(out)@,
                reports: old(reports)@,
            }).difference(seq as int, at, value),
    {
        match insn::write_uleb128(out, at, value) {
            Ok(()) => {},
            Err(EncodeError::Overflow) => report(reports, seq, Problem::UlebSpace(value)),
            Err(_) => report(reports, seq, Problem::Apply(ApplyError::OutOfBounds)),
        }
    }

    /// Writes the `TLSDESC_HI20` at position `seq`, which starts a sequence.
    fn descriptor(
        &self,
        out: &mut [u8],
        reports: &mut Vec<Report>,
        sequence: Sequence,
        seq: usize,
        at: u64,
        edit: Option<Edit>,
    ) -> (r: Sequence)
        requires
            seq < self.sites@.len(),
            edit == self.spec_edit(seq as int),
        ensures
            (Progress {
                state: State { out: final(out)@, reports: final(reports)@ },
                sequence: r,
            }) == self.spec_descriptor(
                (Progress {
                    state: State { out: old(out)@, reports: old(reports)@ },
                    sequence,
                }),
                seq as int,
                at,
            ),
    {
        let site: Site = self.sites[seq];
        let place: u64 = self.base.wrapping_add(at);
        let deleted: bool = edit.is_some();
        let _len: usize = out.len();
        let (Some(_), Some(decision)) = (
            self.refs.target(self.file, site.rel.symbol),
            site.facts.decision,
        ) else {
            return sequence;
        };
        match decision.class.kind {
            Kind::DescToLe => {
                if !deleted {
                    put_word(out, reports, seq, at, NOP);
                }
                Sequence {
                    value: self.address(seq).wrapping_sub(self.setting.tls.tp),
                    relaxes: true,
                    to_le: true,
                    deleted,
                    ..sequence
                }
            },
            Kind::DescToIe => {
                let Some(got) = site.facts.tp_slot else {
                    report(reports, seq, Problem::Apply(ApplyError::BadInstruction));
                    return Sequence { relaxes: true, to_le: false, deleted, ..sequence };
                };
                if !deleted {
                    put_word(out, reports, seq, at, NOP);
                }
                Sequence {
                    value: got.wrapping_add_signed(site.rel.addend).wrapping_sub(
                        place,
                    ).wrapping_add(at),
                    relaxes: true,
                    to_le: false,
                    deleted,
                    ..sequence
                }
            },
            _ => {
                let outcome: Outcome = self.value(seq, place);
                self.report_all(reports, seq, outcome);
                assert((State { out: out@, reports: reports@ }) == (State {
                    out: old(out)@,
                    reports: old(reports)@,
                }).reported(seq as int, outcome));
                match outcome.value.value {
                    Some(value) => {
                        put(out, reports, seq, at, outcome.class.width, value);
                        Sequence { value, relaxes: false, deleted, ..sequence }
                    },
                    None => Sequence { relaxes: false, deleted, ..sequence },
                }
            },
        }
    }

    /// Writes a relocation of the tail of a TLS descriptor sequence.
    fn tail(
        &self,
        out: &mut [u8],
        reports: &mut Vec<Report>,
        sequence: Sequence,
        seq: usize,
        at: u64,
    ) -> (r: Sequence)
        requires
            seq < self.sites@.len(),
        ensures
            (Progress {
                state: State { out: final(out)@, reports: final(reports)@ },
                sequence: r,
            }) == self.spec_tail(
                (Progress {
                    state: State { out: old(out)@, reports: old(reports)@ },
                    sequence,
                }),
                seq as int,
                at,
            ),
    {
        let r_type: u32 = self.sites[seq].rel.r_type;
        let _len: usize = out.len();
        if !sequence.relaxes {
            if r_type != r::R_RISCV_TLSDESC_CALL {
                put(out, reports, seq, at, Width::RiscV(Field::Lo12I), sequence.value);
            }
            return sequence;
        }
        let next: Sequence = Sequence { value: sequence.tail_value(r_type, at), ..sequence };
        if !next.tail_deleted(r_type) {
            put_word(out, reports, seq, at, next.tail_word(r_type));
        }
        next
    }

    /// Writes a relocation that stands alone, as its edit has it.
    fn plain(
        &self,
        out: &mut [u8],
        reports: &mut Vec<Report>,
        seq: usize,
        at: u64,
        edit: Option<Edit>,
    )
        requires
            seq < self.sites@.len(),
            edit == self.spec_edit(seq as int),
        ensures
            (State { out: final(out)@, reports: final(reports)@ }) == self.spec_plain(
                (State { out: old(out)@, reports: old(reports)@ }),
                seq as int,
                at,
            ),
    {
        let r_type: u32 = self.sites[seq].rel.r_type;
        let _len: usize = out.len();
        match edit {
            None => {},
            Some(edit) => match edit.rewrite {
                // Deleted, or already written whole by the copy.
                Rewrite::Delete => {
                    return;
                },
                Rewrite::Align { .. } => {
                    return;
                },
                Rewrite::Replace { r_type: new_type, .. } => {
                    if new_type != 0 {
                        self.put_value(out, reports, seq, at, jump_field(new_type), 0);
                    }
                    return;
                },
                Rewrite::Retype(new_type) => {
                    if new_type == GPREL {
                        self.put_value(out, reports, seq, at, gp_field(r_type), self.gp);
                        return;
                    }
                    if new_type == X0REL {
                        self.put_value(out, reports, seq, at, x0_field(r_type), 0);
                        return;
                    }
                },
            },
        }
        let outcome: Outcome = self.value(seq, self.base.wrapping_add(at));
        self.report_all(reports, seq, outcome);
        assert((State { out: out@, reports: reports@ }) == (State {
            out: old(out)@,
            reports: old(reports)@,
        }).reported(seq as int, outcome));
        match outcome.value.value {
            Some(value) => self.store(out, reports, seq, at, outcome.class, value),
            None => {},
        }
    }

    /// Writes the relocation at position `seq`.
    #[verifier::rlimit(30)]
    fn relocate_one(
        &self,
        out: &mut [u8],
        reports: &mut Vec<Report>,
        sequence: Sequence,
        seq: usize,
    ) -> (r: Sequence)
        requires
            self.valid(),
            seq < self.sites@.len(),
        ensures
            (Progress {
                state: State { out: final(out)@, reports: final(reports)@ },
                sequence: r,
            }) == self.step(
                (Progress {
                    state: State { out: old(out)@, reports: old(reports)@ },
                    sequence,
                }),
                seq as int,
            ),
    {
        let rel = self.sites[seq].rel;
        let _len: usize = out.len();
        if sequence.skip_next {
            return Sequence { skip_next: false, ..sequence };
        }
        let edit: Option<Edit> = match self.relax {
            Some(relax) => relax.edit(seq as u32),
            None => None,
        };
        let at: u64 = self.out_offset(rel.offset);
        match rel.r_type {
            r::R_RISCV_NONE | r::R_RISCV_RELAX | r::R_RISCV_ALIGN | r::R_RISCV_TPREL_ADD
            | r::R_RISCV_VENDOR => sequence,
            r::R_RISCV_PCREL_LO12_I | r::R_RISCV_PCREL_LO12_S => {
                let high: Value = self.pcrel_hi_value(seq);
                match (high.value, high.problem) {
                    (Some(value), _) => put(
                        out,
                        reports,
                        seq,
                        at,
                        Width::RiscV(low_field(rel.r_type)),
                        value,
                    ),
                    (None, Some(problem)) => report(reports, seq, problem),
                    (None, None) => {},
                }
                sequence
            },
            r::R_RISCV_TLSDESC_HI20 => self.descriptor(out, reports, sequence, seq, at, edit),
            r::R_RISCV_TLSDESC_LOAD_LO12 | r::R_RISCV_TLSDESC_ADD_LO12
            | r::R_RISCV_TLSDESC_CALL => self.tail(out, reports, sequence, seq, at),
            r::R_RISCV_SET_ULEB128 => {
                let paired: bool = self.sites.len() - seq > 1 && self.sites[seq + 1].rel.r_type
                    == r::R_RISCV_SUB_ULEB128 && self.sites[seq + 1].rel.offset == rel.offset;
                if !paired {
                    report(reports, seq, Problem::SetUnpaired);
                    return sequence;
                }
                let value: u64 = self.address(seq).wrapping_sub(self.address(seq + 1));
                self.put_difference(out, reports, seq, at, value);
                Sequence { skip_next: true, ..sequence }
            },
            r::R_RISCV_SUB_ULEB128 => {
                report(reports, seq, Problem::SubUnpaired);
                sequence
            },
            _ => {
                self.plain(out, reports, seq, at, edit);
                sequence
            },
        }
    }

    /// Writes every relocation of the section into its bytes, and says what
    /// is wrong.
    pub fn relocate(&self, out: &mut [u8]) -> (reports: Vec<Report>)
        requires
            self.valid(),
        ensures
            (State { out: final(out)@, reports: reports@ }) == self.relocated(old(out)@),
    {
        let mut reports: Vec<Report> = Vec::new();
        let mut sequence: Sequence = Sequence::none();
        let mut seq: usize = 0;
        let ghost start = Progress {
            state: State { out: out@, reports: reports@ },
            sequence,
        };
        assert(reports@ =~= Seq::empty());
        while seq < self.sites.len()
            invariant
                self.valid(),
                seq <= self.sites@.len(),
                self.relocated_from(start, 0) == self.relocated_from(
                    (Progress { state: State { out: out@, reports: reports@ }, sequence }),
                    seq as int,
                ),
            decreases self.sites@.len() - seq,
        {
            sequence = self.relocate_one(out, &mut reports, sequence, seq);
            seq += 1;
        }
        reports
    }
}

/// One input section being written.
#[derive(Debug)]
pub struct SectionWrite<'s> {
    /// The section.
    pub id: SectionId,
    /// Its file.
    pub file: usize,
    /// Its index in the file.
    pub index: u32,
    /// Its header and kind.
    pub section: &'s InputSection,
    /// Its input contents.
    pub data: &'s [u8],
    /// Its output address.
    pub base: u64,
}

/// What writing a section needs to know of the link.
#[derive(Debug)]
pub struct WriteInput<'s> {
    /// What symbols and sections stand for.
    pub refs: &'s Refs,
    /// Where everything is.
    pub layout: &'s Layout,
    /// The merged attributes of the output.
    pub attributes: Option<&'s Output>,
    /// Whether the output is an executable or is not dynamically linked.
    pub executable: bool,
    /// The value of `__global_pointer$`, 0 when nothing defines it.
    pub gp: u64,
    /// What a reference to a discarded section holds in this section.
    pub discarded: Option<u64>,
}

/// What was written in a section's place.
#[derive(Debug)]
pub enum Written {
    /// Nothing: another section holds the merged attributes.
    Nothing,
    /// The merged attributes, whose problems are to be reported.
    Merged,
    /// The section.
    Relocated {
        /// Its relocations in processing order.
        sites: Vec<Site>,
        /// What is wrong with them.
        reports: Vec<Report>,
    },
}

/// Whether `sites` are the relocations of `list`, with what is known of
/// them, in processing order.
pub open spec fn is_sites(list: Seq<Relocation>, facts: Seq<Facts>, sites: Seq<Site>) -> bool {
    exists|order: Seq<u32>| #[trigger]
        super::super::shrink::is_processing_order(
            super::super::shrink::offsets_of(list),
            order,
        ) && sites == Seq::new(
            order.len(),
            |i: int| Site { rel: list[order[i] as int], facts: facts[order[i] as int] },
        )
}

/// Puts relocations in processing order, with what is known of them.
fn order_sites(list: &Vec<Relocation>, facts: &[Facts]) -> (r: Vec<Site>)
    requires
        facts@.len() == list@.len(),
    ensures
        is_sites(list@, facts@, r@),
        in_offset_order(r@),
{
    let offsets: Vec<u64> = list_offsets(list);
    let order: Vec<u32> = by_offset(&offsets);
    proof {
        super::super::shrink::orders_name_positions(offsets@, order@);
        super::super::shrink::processing_orders_sort(offsets@, order@);
    }
    let mut sites: Vec<Site> = Vec::new();
    let mut i: usize = 0;
    while i < order.len()
        invariant
            i <= order@.len(),
            facts@.len() == list@.len(),
            forall|k: int| 0 <= k < order@.len() ==> (#[trigger] order@[k]) < list@.len(),
            sites@ == Seq::new(
                i as nat,
                |k: int| Site { rel: list@[order@[k] as int], facts: facts@[order@[k] as int] },
            ),
        decreases order@.len() - i,
    {
        let at: usize = order[i] as usize;
        sites.push(Site { rel: list[at], facts: facts[at] });
        i += 1;
        assert(sites@ =~= Seq::new(
            i as nat,
            |k: int| Site { rel: list@[order@[k] as int], facts: facts@[order@[k] as int] },
        ));
    }
    proof {
        assert forall|a: int, b: int| 0 <= a < b < sites@.len() implies (
        #[trigger] sites@[a]).rel.offset <= (#[trigger] sites@[b]).rel.offset by {
            assert(offsets@[order@[a] as int] <= offsets@[order@[b] as int]);
        }
    }
    sites
}

/// The relocations of a section that are applied to it.
pub open spec fn applied_to(section: InputSection) -> Seq<Relocation> {
    match section.relocations {
        RelocTable::Rela(list) => list@,
        _ => Seq::empty(),
    }
}

impl WriteInput<'_> {
    /// Everything is where it should be.
    pub open spec fn valid(&self) -> bool {
        self.layout.relax.valid()
    }

    /// What the values in `section` depend on.
    pub open spec fn spec_setting(&self, section: SectionWrite) -> Setting {
        let alloc = section.section.header.sh_flags & SHF_ALLOC != 0;
        Setting {
            alloc,
            discarded: if alloc {
                None
            } else {
                self.discarded
            },
            tls: match self.layout.tls {
                Some(tls) => tls,
                None => Tls { start: 0, tp: 0 },
            },
            executable: self.executable,
        }
    }

    /// What relocates `section`.
    pub open spec fn spec_writer<'s>(
        &'s self,
        section: SectionWrite,
        sites: &'s Vec<Site>,
    ) -> Writer<
        's,
    > {
        Writer {
            refs: self.refs,
            file: section.file,
            index: section.index,
            base: section.base,
            setting: self.spec_setting(section),
            gp: self.gp,
            relax: match self.layout.relax.spec_section(section.id) {
                Some(relax) => Some(&relax),
                None => None,
            },
            sites,
        }
    }

    /// What copying `section` to `out` gives, with its edits applied.
    pub open spec fn spec_copied(&self, section: SectionWrite, out: Seq<u8>) -> Seq<u8> {
        match self.layout.relax.spec_section(section.id) {
            Some(relax) => super::super::shrink::copied_from(
                section.data@,
                relax.edits@,
                0,
                out,
                0,
                0,
                |k: int, s: Seq<u8>| super::relax::padded(s),
            ),
            None => crate::bytes::stored(out, 0, section.data@),
        }
    }
}

/// Copies and relocates one RISC-V input section into `out`; `facts` tells
/// what is known of each of its relocations.
///
/// # Errors
///
/// Relocation section parse errors; relocation problems are among the
/// reports instead.
pub fn write_section(
    input: &WriteInput,
    section: SectionWrite,
    facts: &[Facts],
    out: &mut [u8],
) -> (r: Result<Written, Error>)
    requires
        input.valid(),
        facts@.len() == applied_to(*section.section).len(),
    ensures
        match input.attributes {
            Some(merged) if section.section.header.sh_type == SHT_RISCV_ATTRIBUTES => if merged.first
                == section.id {
                r == Ok::<Written, Error>(Written::Merged) && final(out)@ == crate::bytes::stored(
                    old(out)@,
                    0,
                    merged.bytes@,
                )
            } else {
                r == Ok::<Written, Error>(Written::Nothing) && final(out)@ == old(out)@
            },
            _ => if section.file >= input.refs.files@.len()
                || input.refs.files@[section.file as int].object is None {
                r == Err::<Written, Error>(Error::Internal("unparsed file in output"))
                    && final(out)@ == old(out)@
            } else {
                match section.section.relocations {
                    RelocTable::Malformed { offset, what } => final(out)@ == old(out)@ && match r {
                        Err(Error::Malformed { file, offset: at, what: w }) => file@
                            == input.refs.files@[section.file as int].name@ && at == offset && w@
                            == what@,
                        _ => false,
                    },
                    _ => match r {
                        Ok(Written::Relocated { sites, reports }) => is_sites(
                            applied_to(*section.section),
                            facts@,
                            sites@,
                        ) && (State { out: final(out)@, reports: reports@ })
                            == input.spec_writer(section, &sites).relocated(
                            input.spec_copied(section, old(out)@),
                        ),
                        _ => false,
                    },
                }
            },
        },
{
    let _len: usize = out.len();
    if section.section.header.sh_type == SHT_RISCV_ATTRIBUTES {
        if let Some(merged) = input.attributes {
            if merged.first == section.id {
                let _ = store(out, 0, &merged.bytes);
                return Ok(Written::Merged);
            }
            return Ok(Written::Nothing);
        }
    }
    if section.file >= input.refs.files.len() || input.refs.files[section.file].object.is_none() {
        return Err(Error::Internal("unparsed file in output"));
    }
    let sites: Vec<Site> = match &section.section.relocations {
        RelocTable::Malformed { offset, what } => {
            return Err(
                Error::Malformed {
                    file: input.refs.files[section.file].name.clone(),
                    offset: *offset,
                    what: what.clone(),
                },
            );
        },
        RelocTable::Rela(list) => order_sites(list, facts),
        _ => {
            let none: Vec<Relocation> = Vec::new();
            order_sites(&none, facts)
        },
    };
    let relax: Option<&SectionRelax> = input.layout.relax.section(section.id);
    match relax {
        Some(relax) => {
            copy(section.data, relax, out, fill_nops);
            proof {
                let edits = relax.edits@;
                let pad = choose|pad: spec_fn(int, Seq<u8>) -> Seq<u8>|
                    super::super::shrink::keeps_lengths(pad) && out@
                        == #[trigger] super::super::shrink::copied_from(
                        section.data@,
                        edits,
                        0,
                        old(out)@,
                        0,
                        0,
                        pad,
                    ) && (forall|k: int|
                        0 <= k < edits.len() ==> (
                        #[trigger] super::super::shrink::refilled(edits, old(out)@, k) matches Some(
                            before,
                        ) ==> pad(k, before) == super::relax::padded(before)));
                super::super::shrink::paddings_decide_the_copy(
                    section.data@,
                    edits,
                    old(out)@,
                    pad,
                    |k: int, s: Seq<u8>| super::relax::padded(s),
                );
            }
        },
        None => {
            let _ = store(out, 0, section.data);
        },
    }
    assert(out@ == input.spec_copied(section, old(out)@));
    let alloc: bool = section.section.header.sh_flags & SHF_ALLOC != 0;
    let setting: Setting = Setting {
        alloc,
        discarded: if alloc {
            None
        } else {
            input.discarded
        },
        tls: match input.layout.tls {
            Some(tls) => tls,
            None => Tls { start: 0, tp: 0 },
        },
        executable: input.executable,
    };
    let writer: Writer = Writer {
        refs: input.refs,
        file: section.file,
        index: section.index,
        base: section.base,
        setting,
        gp: input.gp,
        relax,
        sites: &sites,
    };
    let reports: Vec<Report> = writer.relocate(out);
    assert(writer == input.spec_writer(section, &sites));
    Ok(Written::Relocated { sites, reports })
}

/// What a relocation writes: the address and the addend, their distance from
/// the place or from the thread pointer, or that of the GOT entry from the
/// place. A branch to a symbol that nothing defines goes where its addend
/// says, and a dynamic relocation against the symbol leaves the value to
/// the loader.
pub proof fn values_follow_the_address(
    setting: Setting,
    r_type: u32,
    decision: Decision,
    slot: Option<u64>,
    address: Address,
    place: u64,
)
    ensures
        ({
            let defined = setting.computed(r_type, decision, slot, address, false, place);
            let undefined = setting.computed(r_type, decision, slot, address, true, place);
            let s = address.value as int;
            let a = address.addend as int;
            let p = place as int;
            match decision.class.kind {
                Kind::Add | Kind::Sub => defined.value matches Some(v) && v == (s + a) % 0x1_0000_0000_0000_0000,
                Kind::Abs => if decision.symbolic {
                    defined.value is None && defined.problem is None
                } else {
                    defined.value matches Some(v) && v == (s + a) % 0x1_0000_0000_0000_0000
                },
                Kind::Pc => (defined.value matches Some(v) && v == (s + a - p) % 0x1_0000_0000_0000_0000) && (
                undefined.value matches Some(v) && v == (if r_type == 16 || r_type == 17 || r_type
                    == 18 || r_type == 19 || r_type == 44 || r_type == 45 || r_type == 59 {
                    a % 0x1_0000_0000_0000_0000
                } else {
                    (s + a - p) % 0x1_0000_0000_0000_0000
                })),
                Kind::Got => match slot {
                    Some(g) => defined.value matches Some(v) && v == (g + a - p) % 0x1_0000_0000_0000_0000,
                    None => defined.value is None && defined.problem is Some,
                },
                Kind::TpOff => (defined.value matches Some(v) && v == (s + a - setting.tls.tp) % 0x1_0000_0000_0000_0000)
                    && (undefined.value matches Some(v) && v == a % 0x1_0000_0000_0000_0000),
                Kind::DtpOff => (defined.value matches Some(v) && v == (s + a - (if setting.alloc
                    && setting.executable {
                    setting.tls.tp
                } else {
                    setting.tls.start
                })) % 0x1_0000_0000_0000_0000) && (undefined.value matches Some(v) && v == a % 0x1_0000_0000_0000_0000),
                _ => defined.value is None && defined.problem is Some,
            }
        }),
{
    crate::bits::signs(0, address.addend);
}

/// A call to a symbol of another module goes to its PLT entry, a reference to
/// an indirect function to its stub, and neither in a section that is not
/// loaded.
pub proof fn calls_go_through_the_plt(setting: Setting, facts: Facts, needs_plt: bool, ifunc: bool)
    ensures
        forall|r_type: u32, kind: Kind|
            !setting.alloc ==> #[trigger] setting.stub(r_type, kind, facts, ifunc, needs_plt) is None,
        setting.alloc && needs_plt && facts.plt is Some ==> setting.stub(
            18,
            Kind::Pc,
            facts,
            ifunc,
            needs_plt,
        ) == facts.plt && setting.stub(19, Kind::Pc, facts, ifunc, needs_plt) == facts.plt
            && setting.stub(59, Kind::Pc, facts, ifunc, needs_plt) == facts.plt,
        setting.alloc && !needs_plt && ifunc ==> setting.stub(19, Kind::Pc, facts, ifunc, needs_plt)
            == facts.iplt,
        setting.alloc && ifunc ==> setting.stub(2, Kind::Abs, facts, ifunc, needs_plt)
            == facts.iplt,
        setting.alloc && !ifunc ==> setting.stub(2, Kind::Abs, facts, ifunc, needs_plt) is None,
{
}

} // verus!
