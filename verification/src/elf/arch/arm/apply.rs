//! Writing and relocating Arm input sections.
//!
//! The writer's generic loop applies one relocation at a time and knows
//! nothing about instruction sets; Arm branches need more, so its input
//! sections come here instead:
//!
//! - a `bl` whose target is in the other state becomes a `blx` (and back),
//!   and a branch that cannot change state, or cannot reach its target,
//!   goes to the thunk layout planned for it ([`super::thunks`]);
//! - a branch to an undefined weak symbol with no PLT entry becomes a
//!   `nop`, as in GNU ld;
//! - `.ARM.exidx` sections are replaced by the one table ([`super::exidx`])
//!   and `.ARM.attributes` sections by the merged one
//!   ([`super::attributes`]).
//!
//! Everything else (GOT and PLT redirection, dynamic relocations, TLS
//! offsets, tombstones for dead code in debug sections) follows the same
//! decisions as the scan and the other architectures.

use vstd::prelude::*;

use super::exidx::{Reference, Source, Table};
use super::{
    is_branch, is_thumb_branch, is_thunk_branch, patch_of, pc_bias, Branch, BranchPlan, Patch,
    Prepared, R_ARM_PREL31, R_ARM_THM_CALL, SHT_ARM_ATTRIBUTES, SHT_ARM_EXIDX,
};
use super::super::apply::{put, report, truncated, Address, Decision, Facts, Problem, Report, Site, State};
use super::super::{width_bytes, ApplyError, Kind, Width};
use super::thunks::{is_function, key_of, relocations};
use crate::arch::arm::Field;
use crate::arch::arm as insn;
use crate::bytes::{copied, store};
use crate::elf::consts::SHF_ALLOC;
use crate::elf::inputs::{InputSection, RelocTable};
use crate::elf::layout::{Layout, Tls};
use crate::elf::refs::{Def, Refs, Target};
use crate::elf::relocation::Relocation;
use crate::error::Error;
use crate::ids::SectionId;
use crate::symbols::{NEEDS_PLT, PREEMPTIBLE};

verus! {

/// Whether the writer handles sections of this type itself, rather than
/// copying and relocating them: the merged `.ARM.attributes` and the one
/// exception index take the place of their first input section, and the
/// others are empty.
#[verifier::allow_in_spec]
pub fn is_replaced(sh_type: u32) -> bool
    returns
        (sh_type == SHT_ARM_ATTRIBUTES || sh_type == SHT_ARM_EXIDX),
{
    sh_type == SHT_ARM_ATTRIBUTES || sh_type == SHT_ARM_EXIDX
}

/// What [`member_size`] answers.
pub open spec fn spec_member_size(
    prepared: Option<Prepared>,
    id: SectionId,
    sh_type: u32,
    size: u64,
    align: u64,
) -> (u64, u64) {
    match prepared {
        Some(p) => if sh_type == SHT_ARM_ATTRIBUTES {
            match p.attributes {
                Some(merged) => (
                    if merged.first == id {
                        merged.bytes@.len() as u64
                    } else {
                        0
                    },
                    1,
                ),
                None => (size, align),
            }
        } else if sh_type == SHT_ARM_EXIDX {
            match p.exidx {
                Some(table) => (
                    if table.first == id {
                        table.size
                    } else {
                        0
                    },
                    4,
                ),
                None => (size, align),
            }
        } else {
            (size, align)
        },
        None => (size, align),
    }
}

/// The size and alignment of Arm input section `id` in the output: the
/// merged `.ARM.attributes` or the whole exception index for the first
/// such section, nothing for the others.
pub fn member_size(
    prepared: Option<&Prepared>,
    id: SectionId,
    sh_type: u32,
    size: u64,
    align: u64,
) -> (r: (u64, u64))
    ensures
        r == spec_member_size(
            (match prepared {
                Some(p) => Some(*p),
                None => None,
            }),
            id,
            sh_type,
            size,
            align,
        ),
{
    let Some(p) = prepared else {
        return (size, align);
    };
    if sh_type == SHT_ARM_ATTRIBUTES {
        match &p.attributes {
            Some(merged) => if merged.first == id {
                (merged.bytes.len() as u64, 1)
            } else {
                (0, 1)
            },
            None => (size, align),
        }
    } else if sh_type == SHT_ARM_EXIDX {
        match &p.exidx {
            Some(table) => if table.first == id {
                (table.size, 4)
            } else {
                (0, 4)
            },
            None => (size, align),
        }
    } else {
        (size, align)
    }
}

/// What a relocation that is no branch writes.
#[derive(Clone, Copy, Debug, PartialEq, Eq, Structural)]
pub enum Value {
    /// This value, into its field.
    Write(u64),
    /// Nothing: a dynamic relocation supplies the value, or the scan
    /// reported it.
    Skip,
    /// Nothing, because of a problem.
    Wrong(Problem),
    /// A branch to this address (the addend applied).
    Branch {
        /// The address.
        sum: u64,
        /// Whether it is a PLT entry or an IFUNC stub.
        via_stub: bool,
        /// Whether nothing defines the symbol.
        undefined: bool,
    },
}

/// What the values in a section depend on besides their symbols.
#[derive(Clone, Copy, Debug, PartialEq, Eq, Structural)]
pub struct Setting {
    /// Whether the section is part of the process image.
    pub alloc: bool,
    /// What a reference to a discarded section holds here.
    pub discarded: Option<u64>,
    /// The thread-local segment.
    pub tls: Tls,
    /// The address `_GLOBAL_OFFSET_TABLE_` stands for.
    pub got_base: u64,
}

impl Setting {
    /// The PLT or IPLT entry a relocation goes through instead of its
    /// symbol.
    #[verifier::allow_in_spec]
    pub fn stub(
        self,
        r_type: u32,
        kind: Kind,
        facts: Facts,
        ifunc: bool,
        needs_plt: bool,
    ) -> Option<u64>
        returns
            (if !self.alloc {
                None
            } else if needs_plt && kind == Kind::Pc && is_branch(r_type) && facts.plt.is_some() {
                facts.plt
            } else if ifunc {
                facts.iplt
            } else {
                None
            }),
    {
        if !self.alloc {
            None
        } else if needs_plt && kind == Kind::Pc && is_branch(r_type) && facts.plt.is_some() {
            facts.plt
        } else if ifunc {
            facts.iplt
        } else {
            None
        }
    }

    /// The value of a relocation at `place` whose symbol is at `address`.
    #[verifier::allow_in_spec]
    pub fn computed(
        self,
        decision: Decision,
        slot: Option<u64>,
        address: Address,
        undefined: bool,
        place: u64,
    ) -> Value
        returns
            (match decision.class.kind {
                // With the addend in the field, it stays there for the dynamic
                // linker to add the symbol's address to.
                Kind::Abs => if decision.symbolic {
                    Value::Skip
                } else {
                    Value::Write(address.sum())
                },
                Kind::Pc => Value::Write(
                    address.sum().wrapping_sub(
                        match decision.class.width {
                            Width::Arm(field) => if field.from_aligned_place() {
                                place & !3u64
                            } else {
                                place
                            },
                            _ => place,
                        },
                    ),
                ),
                Kind::Got => match slot {
                    Some(g) => Value::Write(
                        g.wrapping_add_signed(address.addend).wrapping_sub(place),
                    ),
                    None => Value::Wrong(Problem::Apply(ApplyError::BadInstruction)),
                },
                Kind::GotAbs => match slot {
                    Some(g) => Value::Write(g.wrapping_add_signed(address.addend)),
                    None => Value::Wrong(Problem::Apply(ApplyError::BadInstruction)),
                },
                Kind::GotSlotRel => match slot {
                    Some(g) => Value::Write(
                        g.wrapping_sub(self.got_base).wrapping_add_signed(address.addend),
                    ),
                    None => Value::Wrong(Problem::Apply(ApplyError::BadInstruction)),
                },
                Kind::GotRel => Value::Write(address.sum().wrapping_sub(self.got_base)),
                Kind::GotBasePc => Value::Write(
                    self.got_base.wrapping_add_signed(address.addend).wrapping_sub(place),
                ),
                // An undefined (weak) TLS symbol has no offset; GNU ld and lld
                // write the addend.
                Kind::TpOff => if undefined {
                    Value::Write(address.addend as u64)
                } else {
                    Value::Write(address.sum().wrapping_sub(self.tls.tp))
                },
                // Arm has no local-dynamic relaxation: `__tls_get_addr` returns
                // the start of the module's block, whatever the output is.
                Kind::DtpOff => if undefined {
                    Value::Write(address.addend as u64)
                } else {
                    Value::Write(address.sum().wrapping_sub(self.tls.start))
                },
                _ => Value::Wrong(Problem::Apply(ApplyError::BadInstruction)),
            }),
    {
        match decision.class.kind {
            // With the addend in the field, it stays there for the dynamic
            // linker to add the symbol's address to.
            Kind::Abs => if decision.symbolic {
                Value::Skip
            } else {
                Value::Write(address.sum())
            },
            Kind::Pc => Value::Write(
                address.sum().wrapping_sub(
                    match decision.class.width {
                        Width::Arm(field) => if field.from_aligned_place() {
                            place & !3u64
                        } else {
                            place
                        },
                        _ => place,
                    },
                ),
            ),
            Kind::Got => match slot {
                Some(g) => Value::Write(
                    g.wrapping_add_signed(address.addend).wrapping_sub(place),
                ),
                None => Value::Wrong(Problem::Apply(ApplyError::BadInstruction)),
            },
            Kind::GotAbs => match slot {
                Some(g) => Value::Write(g.wrapping_add_signed(address.addend)),
                None => Value::Wrong(Problem::Apply(ApplyError::BadInstruction)),
            },
            Kind::GotSlotRel => match slot {
                Some(g) => Value::Write(
                    g.wrapping_sub(self.got_base).wrapping_add_signed(address.addend),
                ),
                None => Value::Wrong(Problem::Apply(ApplyError::BadInstruction)),
            },
            Kind::GotRel => Value::Write(address.sum().wrapping_sub(self.got_base)),
            Kind::GotBasePc => Value::Write(
                self.got_base.wrapping_add_signed(address.addend).wrapping_sub(place),
            ),
            // An undefined (weak) TLS symbol has no offset; GNU ld and lld
            // write the addend.
            Kind::TpOff => if undefined {
                Value::Write(address.addend as u64)
            } else {
                Value::Write(address.sum().wrapping_sub(self.tls.tp))
            },
            // Arm has no local-dynamic relaxation: `__tls_get_addr` returns
            // the start of the module's block, whatever the output is.
            Kind::DtpOff => if undefined {
                Value::Write(address.addend as u64)
            } else {
                Value::Write(address.sum().wrapping_sub(self.tls.start))
            },
            _ => Value::Wrong(Problem::Apply(ApplyError::BadInstruction)),
        }
    }

    /// What the relocation of a site at `place` against `target` writes.
    #[verifier::allow_in_spec]
    pub fn decided(
        self,
        site: Site,
        decision: Decision,
        target: Target,
        needs_plt: bool,
        place: u64,
    ) -> Value
        returns
            (if decision.class.kind == Kind::Nothing || (self.alloc && decision.problem) {
                Value::Skip
            } else if !self.alloc && (decision.class.kind == Kind::Abs || decision.class.kind
                == Kind::DtpOff) && site.facts.dead.is_some() {
                match site.facts.dead {
                    Some(value) => Value::Write(truncated(value, width_bytes(decision.class.width))),
                    None => Value::Skip,
                }
            } else {
                match site.facts.address {
                    None => if self.alloc {
                        Value::Wrong(Problem::Discarded)
                    } else {
                        match self.discarded {
                            Some(value) => Value::Write(
                                truncated(value, width_bytes(decision.class.width)),
                            ),
                            None => Value::Write(0),
                        }
                    },
                    Some(address) => match self.stub(
                        site.rel.r_type,
                        decision.class.kind,
                        site.facts,
                        target.ifunc,
                        needs_plt,
                    ) {
                        Some(stub) => if is_thunk_branch(site.rel.r_type) {
                            Value::Branch {
                                sum: stub.wrapping_add_signed(address.addend),
                                via_stub: true,
                                undefined: false,
                            }
                        } else {
                            self.computed(
                                decision,
                                site.facts.slot,
                                Address { value: stub, addend: address.addend },
                                false,
                                place,
                            )
                        },
                        None => if is_thunk_branch(site.rel.r_type) {
                            Value::Branch {
                                sum: address.sum(),
                                via_stub: false,
                                undefined: matches!(target.def, Def::Undefined { .. }),
                            }
                        } else {
                            self.computed(
                                decision,
                                site.facts.slot,
                                address,
                                matches!(target.def, Def::Undefined { .. }),
                                place,
                            )
                        },
                    },
                }
            }),
    {
        if decision.class.kind == Kind::Nothing || (self.alloc && decision.problem) {
            Value::Skip
        } else if !self.alloc && (decision.class.kind == Kind::Abs || decision.class.kind
            == Kind::DtpOff) && site.facts.dead.is_some() {
            match site.facts.dead {
                Some(value) => Value::Write(truncated(value, width_bytes(decision.class.width))),
                None => Value::Skip,
            }
        } else {
            match site.facts.address {
                None => if self.alloc {
                    Value::Wrong(Problem::Discarded)
                } else {
                    match self.discarded {
                        Some(value) => Value::Write(
                            truncated(value, width_bytes(decision.class.width)),
                        ),
                        None => Value::Write(0),
                    }
                },
                Some(address) => match self.stub(
                    site.rel.r_type,
                    decision.class.kind,
                    site.facts,
                    target.ifunc,
                    needs_plt,
                ) {
                    Some(stub) => if is_thunk_branch(site.rel.r_type) {
                        Value::Branch {
                            sum: stub.wrapping_add_signed(address.addend),
                            via_stub: true,
                            undefined: false,
                        }
                    } else {
                        self.computed(
                            decision,
                            site.facts.slot,
                            Address { value: stub, addend: address.addend },
                            false,
                            place,
                        )
                    },
                    None => if is_thunk_branch(site.rel.r_type) {
                        Value::Branch {
                            sum: address.sum(),
                            via_stub: false,
                            undefined: matches!(target.def, Def::Undefined { .. }),
                        }
                    } else {
                        self.computed(
                            decision,
                            site.facts.slot,
                            address,
                            matches!(target.def, Def::Undefined { .. }),
                            place,
                        )
                    },
                },
            }
        }
    }
}

/// The instruction that takes the place of a branch to nowhere.
#[verifier::allow_in_spec]
pub fn nop_for(r_type: u32, word: u32) -> u32
    returns
        (if is_thumb_branch(r_type) {
            insn::THUMB_NOP_W
        } else {
            (word & 0xf000_0000) | insn::NOP
        }),
{
    if is_thumb_branch(r_type) {
        insn::THUMB_NOP_W
    } else {
        (word & 0xf000_0000) | insn::NOP
    }
}

/// The instruction that makes the branch, in the state its caller and its
/// destination are in, before its displacement.
#[verifier::allow_in_spec]
pub fn switched(branch: Branch, thumb_target: bool) -> u32
    returns
        (if !branch.thumb_caller() {
            insn::arm_bl(branch.insn)
        } else if !thumb_target {
            insn::thumb_set_blx(branch.insn, true)
        } else if branch.r_type == R_ARM_THM_CALL {
            insn::thumb_set_blx(branch.insn, false)
        } else {
            branch.insn
        }),
{
    if !branch.thumb_caller() {
        insn::arm_bl(branch.insn)
    } else if !thumb_target {
        insn::thumb_set_blx(branch.insn, true)
    } else if branch.r_type == R_ARM_THM_CALL {
        insn::thumb_set_blx(branch.insn, false)
    } else {
        branch.insn
    }
}

/// The displacement of a branch to `destination`. A `blx` from Thumb
/// branches from the aligned PC, to a word.
#[verifier::allow_in_spec]
pub fn displacement(branch: Branch, destination: u64, thumb_target: bool) -> u64
    returns
        (if !branch.thumb_caller() {
            destination.wrapping_sub(branch.place.wrapping_add(pc_bias(branch.r_type)))
        } else if thumb_target {
            (destination & !1u64).wrapping_sub(branch.place.wrapping_add(pc_bias(branch.r_type)))
        } else {
            destination.wrapping_sub(
                branch.place.wrapping_add(pc_bias(branch.r_type)) & !3u64,
            ).wrapping_add(3) & !3u64
        }),
{
    if !branch.thumb_caller() {
        destination.wrapping_sub(branch.place.wrapping_add(pc_bias(branch.r_type)))
    } else if thumb_target {
        (destination & !1u64).wrapping_sub(branch.place.wrapping_add(pc_bias(branch.r_type)))
    } else {
        destination.wrapping_sub(
            branch.place.wrapping_add(pc_bias(branch.r_type)) & !3u64,
        ).wrapping_add(3) & !3u64
    }
}

/// `value` as 32-bit code computes with it.
#[verifier::allow_in_spec]
pub fn as_signed32(value: u64) -> i64
    returns
        (((value as u32) as i32) as i64),
{
    ((value as u32) as i32) as i64
}

/// The instruction of a branch that reaches `destination` directly, if
/// there is one.
pub open spec fn spec_branch_word(
    branch: Branch,
    field: Field,
    destination: u64,
    thumb_target: bool,
) -> Option<u32> {
    let value = as_signed32(displacement(branch, destination, thumb_target));
    if !branch.thumb_caller() && thumb_target {
        insn::spec_arm_blx(value)
    } else {
        match field.encoded(switched(branch, thumb_target), value) {
            Ok(word) => Some(word),
            Err(_) => None,
        }
    }
}

/// The instruction of a branch that reaches `destination` directly, if
/// there is one.
fn branch_word(branch: Branch, field: Field, destination: u64, thumb_target: bool) -> (r: Option<
    u32,
>)
    ensures
        r == spec_branch_word(branch, field, destination, thumb_target),
{
    let value: i64 = as_signed32(displacement(branch, destination, thumb_target));
    if !branch.thumb_caller() && thumb_target {
        // A32 to Thumb: `blx`, whose H bit takes bit 1 of the offset.
        return insn::arm_blx(value);
    }
    match field.encode(switched(branch, thumb_target), value) {
        Ok(word) => Some(word),
        Err(_) => None,
    }
}

/// One section being relocated.
#[derive(Debug)]
pub struct Writer<'s> {
    /// What the symbols stand for.
    pub refs: &'s Refs,
    /// Where everything is.
    pub layout: &'s Layout,
    /// The section.
    pub id: SectionId,
    /// Its file.
    pub file: usize,
    /// Its output address.
    pub base: u64,
    /// What its values depend on.
    pub setting: Setting,
    /// Whether the output is position-independent.
    pub pic: bool,
}

impl State {
    /// With instruction `word` of `field` at `at`.
    pub open spec fn put_insn(self, seq: int, at: u64, field: Field, word: u32) -> State {
        self.patched(
            seq,
            super::super::patch::Patched::new(self.out).write(
                at as int,
                field.insn_bytes(word),
                ApplyError::OutOfBounds,
            ),
        )
    }
}

/// Writes instruction `word` of `field` at `at`, or reports that it cannot.
fn put_insn(
    out: &mut [u8],
    reports: &mut Vec<Report>,
    seq: usize,
    at: u64,
    field: Field,
    word: u32,
)
    ensures
        (State { out: final(out)@, reports: final(reports)@ }) == (State {
            out: old(out)@,
            reports: old(reports)@,
        }).put_insn(seq as int, at, field, word),
{
    if !field.write(out, at, word) {
        report(reports, seq, Problem::Apply(ApplyError::OutOfBounds));
    }
}

impl Writer<'_> {
    /// The address of the thunk a branch goes through.
    pub open spec fn spec_thunk_address(&self, branch: Branch) -> Option<u64> {
        match (
            super::thunks::spec_key_of(branch, self.pic),
            self.layout.spec_output_of(self.id),
        ) {
            (Some(key), Some(output)) => self.layout.thunk_from(output, key, 0),
            _ => None,
        }
    }

    /// The address of the thunk `branch` goes through.
    fn thunk_address(&self, branch: &Branch) -> (r: Option<u64>)
        ensures
            r == self.spec_thunk_address(*branch),
    {
        let Some(key) = key_of(branch, self.pic) else {
            return None;
        };
        let Some(output) = self.layout.output_of(self.id) else {
            return None;
        };
        self.layout.thunk_for(output, key)
    }

    /// A branch to `sum`, whose instruction is `word`.
    pub open spec fn spec_branch_of(
        &self,
        rel: Relocation,
        word: u32,
        target: Target,
        sum: u64,
        via_stub: bool,
    ) -> Branch {
        Branch {
            r_type: rel.r_type,
            insn: word,
            place: self.base.wrapping_add(rel.offset),
            destination: sum.wrapping_add(pc_bias(rel.r_type)),
            function: via_stub || is_function(target),
            via_stub,
        }
    }

    /// With a branch written: interworking, thunks and undefined weak
    /// targets.
    pub open spec fn spec_branch(
        &self,
        state: State,
        seq: int,
        rel: Relocation,
        target: Target,
        sum: u64,
        via_stub: bool,
        undefined: bool,
    ) -> State {
        match patch_of(rel.r_type) {
            Patch::Insn(field) => match field.insn_at(state.out, rel.offset as int) {
                None => state.report(seq, Problem::Apply(ApplyError::OutOfBounds)),
                Some(word) => if undefined {
                    state.put_insn(seq, rel.offset, field, nop_for(rel.r_type, word))
                } else {
                    let branch = self.spec_branch_of(rel, word, target, sum, via_stub);
                    let plan = branch.spec_plan();
                    // The thunk is in the caller's state, and the branch
                    // reaches it directly.
                    let (destination, thumb_target) = if plan.thunk {
                        (self.spec_thunk_address(branch), branch.thumb_caller())
                    } else {
                        (Some(branch.destination), plan.thumb_target)
                    };
                    match destination {
                        None => state.report(seq, Problem::Apply(ApplyError::Overflow)),
                        Some(to) => match spec_branch_word(branch, field, to, thumb_target) {
                            Some(new) => state.put_insn(seq, rel.offset, field, new),
                            None => state.report(seq, Problem::Apply(ApplyError::Overflow)),
                        },
                    }
                },
            },
            _ => state,
        }
    }

    /// Writes a branch: interworking, thunks and undefined weak targets.
    fn branch(
        &self,
        out: &mut [u8],
        reports: &mut Vec<Report>,
        seq: usize,
        rel: Relocation,
        target: Target,
        sum: u64,
        via_stub: bool,
        undefined: bool,
    )
        ensures
            (State { out: final(out)@, reports: final(reports)@ }) == self.spec_branch(
                (State { out: old(out)@, reports: old(reports)@ }),
                seq as int,
                rel,
                target,
                sum,
                via_stub,
                undefined,
            ),
    {
        let _len: usize = out.len();
        let Patch::Insn(field) = patch_of(rel.r_type) else {
            return;
        };
        let Some(word) = field.read(out, rel.offset) else {
            report(reports, seq, Problem::Apply(ApplyError::OutOfBounds));
            return;
        };
        // A branch to an undefined weak symbol without a PLT entry has
        // nowhere to go: GNU ld writes a `nop`.
        if undefined {
            put_insn(out, reports, seq, rel.offset, field, nop_for(rel.r_type, word));
            return;
        }
        let branch: Branch = Branch {
            r_type: rel.r_type,
            insn: word,
            place: self.base.wrapping_add(rel.offset),
            destination: sum.wrapping_add(pc_bias(rel.r_type)),
            function: via_stub || is_function(target),
            via_stub,
        };
        let plan: BranchPlan = branch.plan();
        let (destination, thumb_target): (Option<u64>, bool) = if plan.thunk {
            (self.thunk_address(&branch), branch.thumb_caller())
        } else {
            (Some(branch.destination), plan.thumb_target)
        };
        let Some(to) = destination else {
            report(reports, seq, Problem::Apply(ApplyError::Overflow));
            return;
        };
        match branch_word(branch, field, to, thumb_target) {
            Some(new) => put_insn(out, reports, seq, rel.offset, field, new),
            None => report(reports, seq, Problem::Apply(ApplyError::Overflow)),
        }
    }

    /// After the relocation of `site`, which is the one at position `seq`.
    pub open spec fn step(&self, state: State, seq: int, site: Site) -> State {
        match self.refs.spec_target(self.file as int, site.rel.symbol as int) {
            None => state,
            Some(target) => {
                let first = if site.facts.prohibited {
                    state.report(seq, Problem::CrossReference)
                } else {
                    state
                };
                match site.facts.decision {
                    None => first,
                    Some(decision) => match self.setting.decided(
                        site,
                        decision,
                        target,
                        self.refs.flags_of(target).contains(NEEDS_PLT | PREEMPTIBLE),
                        self.base.wrapping_add(site.rel.offset),
                    ) {
                        Value::Write(value) => first.put(
                            seq,
                            site.rel.offset,
                            decision.class.width,
                            value,
                        ),
                        Value::Skip => first,
                        Value::Wrong(problem) => first.report(seq, problem),
                        Value::Branch { sum, via_stub, undefined } => self.spec_branch(
                            first,
                            seq,
                            site.rel,
                            target,
                            sum,
                            via_stub,
                            undefined,
                        ),
                    },
                }
            },
        }
    }

    /// Writes one relocation.
    fn relocate(&self, out: &mut [u8], reports: &mut Vec<Report>, seq: usize, site: Site)
        ensures
            (State { out: final(out)@, reports: final(reports)@ }) == self.step(
                (State { out: old(out)@, reports: old(reports)@ }),
                seq as int,
                site,
            ),
    {
        let _len: usize = out.len();
        let Some(target) = self.refs.target(self.file, site.rel.symbol) else {
            return;
        };
        if site.facts.prohibited {
            report(reports, seq, Problem::CrossReference);
        }
        let Some(decision) = site.facts.decision else {
            // Reported by the scan.
            return;
        };
        let needs_plt: bool = self.refs.target_flags(target).contains(NEEDS_PLT | PREEMPTIBLE);
        let place: u64 = self.base.wrapping_add(site.rel.offset);
        match self.setting.decided(site, decision, target, needs_plt, place) {
            Value::Write(value) => put(
                out,
                reports,
                seq,
                site.rel.offset,
                decision.class.width,
                value,
            ),
            Value::Skip => {},
            Value::Wrong(problem) => report(reports, seq, problem),
            Value::Branch { sum, via_stub, undefined } => self.branch(
                out,
                reports,
                seq,
                site.rel,
                target,
                sum,
                via_stub,
                undefined,
            ),
        }
    }

    /// After the relocations from position `i` on.
    pub open spec fn relocated_from(
        &self,
        state: State,
        relocs: Seq<Relocation>,
        facts: Seq<Facts>,
        i: int,
    ) -> State
        decreases relocs.len() - i,
    {
        if i < 0 || i >= relocs.len() {
            state
        } else {
            self.relocated_from(
                self.step(state, i, Site { rel: relocs[i], facts: facts[i] }),
                relocs,
                facts,
                i + 1,
            )
        }
    }

    /// Writes every relocation of the section into its bytes, and says what
    /// is wrong.
    pub fn relocate_all(
        &self,
        out: &mut [u8],
        relocs: &Vec<Relocation>,
        facts: &[Facts],
    ) -> (reports:
        Vec<Report>)
        requires
            facts@.len() == relocs@.len(),
        ensures
            (State { out: final(out)@, reports: reports@ }) == self.relocated_from(
                (State { out: old(out)@, reports: Seq::empty() }),
                relocs@,
                facts@,
                0,
            ),
    {
        let mut reports: Vec<Report> = Vec::new();
        let mut i: usize = 0;
        assert(reports@ =~= Seq::empty());
        while i < relocs.len()
            invariant
                i <= relocs@.len(),
                facts@.len() == relocs@.len(),
                self.relocated_from(
                    (State { out: old(out)@, reports: Seq::empty() }),
                    relocs@,
                    facts@,
                    0,
                ) == self.relocated_from(
                    (State { out: out@, reports: reports@ }),
                    relocs@,
                    facts@,
                    i as int,
                ),
            decreases relocs@.len() - i,
        {
            self.relocate(out, &mut reports, i, Site { rel: relocs[i], facts: facts[i] });
            i += 1;
        }
        reports
    }
}

/// A branch to an undefined symbol that no stub stands for asks for no thunk,
/// and the writer makes it a `nop`, whatever its addend is.
pub proof fn branches_to_nowhere_become_nops(
    writer: Writer,
    state: State,
    seq: int,
    site: Site,
    target: Target,
    decision: Decision,
    field: Field,
    word: u32,
)
    requires
        writer.refs.spec_target(writer.file as int, site.rel.symbol as int) == Some(target),
        target.def is Undefined,
        is_thunk_branch(site.rel.r_type),
        patch_of(site.rel.r_type) == Patch::Insn(field),
        field.insn_at(state.out, site.rel.offset as int) == Some(word),
        site.facts.decision == Some(decision),
        decision.class.kind == Kind::Pc,
        !decision.problem,
        !site.facts.prohibited,
        site.facts.address is Some,
        site.facts.iplt is None,
        site.facts.plt is None,
        crate::elf::arch::thunk::spec_stub(
            *writer.refs,
            *writer.layout,
            target,
            crate::elf::layout::Owner::of(target.global, writer.file, site.rel.symbol),
        ) is None,
    ensures
        super::thunks::spec_destination(
            *writer.refs,
            *writer.layout,
            writer.file,
            site.rel.symbol,
            site.rel.addend,
            site.rel.r_type,
        ) is None,
        writer.step(state, seq, site) == state.put_insn(
            seq,
            site.rel.offset,
            field,
            nop_for(site.rel.r_type, word),
        ),
{
}

/// One input section being written.
#[derive(Debug)]
pub struct SectionWrite<'s> {
    /// The section.
    pub id: SectionId,
    /// Its file.
    pub file: usize,
    /// Its index in the file.
    pub index: u32,
    /// Its header and kind.
    pub section: &'s InputSection,
    /// Its input contents.
    pub data: &'s [u8],
    /// Its output address.
    pub base: u64,
}

/// What writing a section needs to know of the link.
#[derive(Debug)]
pub struct WriteInput<'s> {
    /// What symbols and sections stand for.
    pub refs: &'s Refs,
    /// Where everything is.
    pub layout: &'s Layout,
    /// What was built before layout.
    pub prepared: Option<&'s Prepared>,
    /// Whether the output is position-independent.
    pub pic: bool,
    /// The address `_GLOBAL_OFFSET_TABLE_` stands for.
    pub got_base: u64,
    /// What a reference to a discarded section holds in this section.
    pub discarded: Option<u64>,
    /// The addresses that the relocations of each `.ARM.exidx` section refer
    /// to, by the section's position.
    pub entries: &'s Vec<Vec<Option<Address>>>,
}

/// The references that relocations from `i` on of a `.ARM.exidx` section
/// make: `R_ARM_PREL31` references to the code it describes and to
/// `.ARM.extab` entries. `R_ARM_NONE` markers only keep a personality
/// routine.
pub open spec fn references_from(
    refs: Refs,
    file: int,
    relocs: Seq<Relocation>,
    addresses: Seq<Option<Address>>,
    i: int,
) -> Seq<Reference>
    decreases relocs.len() - i,
{
    if i < 0 || i >= relocs.len() {
        Seq::empty()
    } else {
        let rest = references_from(refs, file, relocs, addresses, i + 1);
        if relocs[i].r_type == R_ARM_PREL31 && refs.spec_target(
            file,
            relocs[i].symbol as int,
        ) is Some && i < addresses.len() {
            match addresses[i] {
                Some(address) => seq![
                    Reference { offset: relocs[i].offset, target: address.sum() },
                ] + rest,
                None => rest,
            }
        } else {
            rest
        }
    }
}

/// Lists the references a `.ARM.exidx` section makes.
fn list_references(
    refs: &Refs,
    file: usize,
    relocs: &Vec<Relocation>,
    addresses: &Vec<Option<Address>>,
) -> (r: Vec<Reference>)
    ensures
        r@ == references_from(*refs, file as int, relocs@, addresses@, 0),
{
    let mut out: Vec<Reference> = Vec::new();
    let mut i: usize = 0;
    let ghost whole = references_from(*refs, file as int, relocs@, addresses@, 0);
    assert(whole =~= out@ + whole);
    while i < relocs.len()
        invariant
            i <= relocs@.len(),
            whole == out@ + references_from(*refs, file as int, relocs@, addresses@, i as int),
        decreases relocs@.len() - i,
    {
        let rel: Relocation = relocs[i];
        let ghost before = out@;
        let ghost rest = references_from(*refs, file as int, relocs@, addresses@, i + 1);
        if rel.r_type == R_ARM_PREL31 && refs.target(file, rel.symbol).is_some() && i
            < addresses.len() {
            if let Some(address) = addresses[i] {
                let reference: Reference = Reference { offset: rel.offset, target: address.sum() };
                out.push(reference);
                assert(before + (seq![reference] + rest) =~= out@ + rest);
            }
        }
        i += 1;
    }
    assert(whole =~= out@);
    out
}

/// Section `id` of a link.
pub open spec fn section_of(refs: Refs, id: SectionId) -> Option<(usize, InputSection)> {
    match refs.sections.spec_locate(id) {
        Some((file, index)) => if file < refs.files@.len() {
            match refs.files@[file as int].object {
                Some(object) => match object.spec_section(index as int) {
                    Some(section) => Some((file, section)),
                    None => None,
                },
                None => None,
            }
        } else {
            None
        },
        None => None,
    }
}

/// The contents of a section, nothing where they could not be read.
pub open spec fn contents_of(section: InputSection) -> Seq<u8> {
    match section.contents {
        Some(data) => data@,
        None => Seq::empty(),
    }
}

/// The addresses that the relocations of section `id` refer to.
pub open spec fn entries_of(entries: Seq<Vec<Option<Address>>>, id: SectionId) -> Seq<
    Option<Address>,
> {
    if id.position < entries.len() {
        entries[id.position as int]@
    } else {
        Seq::empty()
    }
}

/// Whether `source` is what writing the exception index reads of section
/// `id`.
pub open spec fn is_source(input: WriteInput, id: SectionId, source: Source) -> bool {
    &&& source.address == input.layout.spec_address(id)
    &&& match section_of(*input.refs, id) {
        Some((file, section)) => {
            &&& source.size == section.header.sh_size
            &&& match (source.contents, section.contents) {
                (Some(a), Some(b)) => a@ == b@,
                (None, None) => true,
                _ => false,
            }
            &&& source.references@ == match super::thunks::spec_relocations(
                section.relocations,
                contents_of(section),
            ) {
                Some(relocs) => references_from(
                    *input.refs,
                    file as int,
                    relocs,
                    entries_of(input.entries@, id),
                    0,
                ),
                None => Seq::empty(),
            }
        },
        None => source.size == 0 && source.contents is None && source.references@.len() == 0,
    }
}

/// What writing the exception index reads of section `id`.
fn source(input: &WriteInput, id: SectionId) -> (r: Source)
    ensures
        is_source(*input, id, r),
{
    let address: Option<u64> = input.layout.address(id);
    let none: Source = Source {
        address,
        size: 0,
        contents: None,
        references: Vec::new(),
    };
    let Some((file, index)) = input.refs.sections.locate(id) else {
        return none;
    };
    if file >= input.refs.files.len() {
        return none;
    }
    let Some(object) = &input.refs.files[file].object else {
        return none;
    };
    let Some(section) = object.section(index) else {
        return none;
    };
    let contents: Option<Vec<u8>> = match &section.contents {
        Some(data) => Some(copied(data)),
        None => None,
    };
    let empty: Vec<u8> = Vec::new();
    let relocs: Option<Vec<Relocation>> = match &section.contents {
        Some(data) => relocations(&section.relocations, data),
        None => {
            assert(empty@ =~= contents_of(*section));
            relocations(&section.relocations, &empty)
        },
    };
    let no_addresses: Vec<Option<Address>> = Vec::new();
    let references: Vec<Reference> = match &relocs {
        Some(list) => if id.position < input.entries.len() {
            list_references(input.refs, file, list, &input.entries[id.position])
        } else {
            assert(no_addresses@ =~= entries_of(input.entries@, id));
            list_references(input.refs, file, list, &no_addresses)
        },
        None => Vec::new(),
    };
    Source { address, size: section.header.sh_size, contents, references }
}

/// Whether `sources` is what writing the exception index reads of every
/// section.
pub open spec fn are_sources(input: WriteInput, sources: Seq<Source>) -> bool {
    &&& sources.len() == input.refs.sections.places@.len()
    &&& forall|i: int|
        0 <= i < sources.len() ==> is_source(
            input,
            SectionId { position: i as usize },
            #[trigger] sources[i],
        )
}

/// Whether `out` is `before` with the exception index written into it.
pub open spec fn has_table(input: WriteInput, table: Table, base: u64, before: Seq<u8>, out: Seq<
    u8,
>) -> bool {
    exists|sources: Seq<Source>, order: Seq<usize>|
        are_sources(input, sources) && crate::order::is_stable_order(
            super::exidx::address_keys(table, sources),
            order,
        ) && out == #[trigger] super::exidx::with_pieces(
            before,
            0,
            base,
            table,
            order,
            sources,
            0,
        )
}

/// Writes the exception index into `out`, the place of the first
/// `.ARM.exidx` input section.
fn write_exidx(input: &WriteInput, table: &Table, base: u64, out: &mut [u8])
    ensures
        has_table(*input, *table, base, old(out)@, final(out)@),
{
    let mut sources: Vec<Source> = Vec::new();
    let total: usize = input.refs.sections.len();
    let mut i: usize = 0;
    while i < total
        invariant
            i <= total,
            total == input.refs.sections.places@.len(),
            sources@.len() == i,
            forall|k: int|
                0 <= k < i ==> is_source(
                    *input,
                    SectionId { position: k as usize },
                    #[trigger] sources@[k],
                ),
        decreases total - i,
    {
        let next: Source = source(input, SectionId { position: i });
        sources.push(next);
        i += 1;
    }
    assert(are_sources(*input, sources@));
    super::exidx::write(table, base, out, &sources);
}

/// What was written in a section's place.
#[derive(Debug)]
pub enum Written {
    /// Nothing: another section holds the table or the merged attributes.
    Nothing,
    /// The merged attributes, whose problems are to be reported.
    Merged,
    /// The exception index.
    Table,
    /// The section.
    Relocated {
        /// Its relocations, in the order of their table.
        relocs: Vec<Relocation>,
        /// What is wrong with them.
        reports: Vec<Report>,
    },
}

/// The number of relocations a section has.
pub open spec fn relocation_count(section: InputSection) -> nat {
    match section.relocations {
        RelocTable::Rel(list) => list@.len(),
        RelocTable::Rela(list) => list@.len(),
        _ => 0,
    }
}

impl WriteInput<'_> {
    /// What relocates `section`.
    pub open spec fn spec_writer(&self, section: SectionWrite) -> Writer<'_> {
        let alloc = section.section.header.sh_flags & SHF_ALLOC != 0;
        Writer {
            refs: self.refs,
            layout: self.layout,
            id: section.id,
            file: section.file,
            base: section.base,
            setting: Setting {
                alloc,
                discarded: if alloc {
                    None
                } else {
                    self.discarded
                },
                tls: match self.layout.tls {
                    Some(tls) => tls,
                    None => Tls { start: 0, tp: 0 },
                },
                got_base: self.got_base,
            },
            pic: self.pic,
        }
    }
}

/// What an ordinary section becomes: `r` and `out` after `before`.
pub open spec fn is_relocated(
    input: WriteInput,
    section: SectionWrite,
    facts: Seq<Facts>,
    before: Seq<u8>,
    r: Result<Written, Error>,
    out: Seq<u8>,
) -> bool {
    let start = crate::bytes::stored(before, 0, section.data@);
    match section.section.relocations {
        RelocTable::Missing => out == start && match r {
            Ok(Written::Relocated { relocs, reports }) => relocs@.len() == 0 && reports@.len()
                == 0,
            _ => false,
        },
        _ => if section.file >= input.refs.files@.len()
            || input.refs.files@[section.file as int].object is None {
            out == start && r == Err::<Written, Error>(Error::Internal("unparsed file in output"))
        } else {
            match section.section.relocations {
                RelocTable::Malformed { offset, what } => out == start && match r {
                    Err(Error::Malformed { file, offset: at, what: w }) => file@
                        == input.refs.files@[section.file as int].name@ && at == offset && w@
                        == what@,
                    _ => false,
                },
                _ => match r {
                    Ok(Written::Relocated { relocs, reports }) => super::thunks::spec_relocations(
                        section.section.relocations,
                        section.data@,
                    ) == Some(relocs@) && (State { out, reports: reports@ }) == input.spec_writer(
                        section,
                    ).relocated_from(
                        (State { out: start, reports: Seq::empty() }),
                        relocs@,
                        facts,
                        0,
                    ),
                    _ => false,
                },
            }
        },
    }
}

/// Copies and relocates one Arm input section into `out`; `facts` tells
/// what is known of each of its relocations.
///
/// # Errors
///
/// Relocation section parse errors; relocation problems are among the
/// reports instead.
pub fn write_section(
    input: &WriteInput,
    section: SectionWrite,
    facts: &[Facts],
    out: &mut [u8],
) -> (r: Result<Written, Error>)
    requires
        facts@.len() == relocation_count(*section.section),
    ensures
        if section.section.header.sh_type == SHT_ARM_ATTRIBUTES {
            match input.prepared {
                Some(Prepared { attributes: Some(merged), .. }) if merged.first == section.id => r
                    == Ok::<Written, Error>(Written::Merged) && final(out)@
                    == crate::bytes::stored(old(out)@, 0, merged.bytes@),
                _ => r == Ok::<Written, Error>(Written::Nothing) && final(out)@ == old(out)@,
            }
        } else if section.section.header.sh_type == SHT_ARM_EXIDX {
            match input.prepared {
                Some(Prepared { exidx: Some(table), .. }) if table.first == section.id => r
                    == Ok::<Written, Error>(Written::Table) && has_table(
                    *input,
                    *table,
                    section.base,
                    old(out)@,
                    final(out)@,
                ),
                _ => r == Ok::<Written, Error>(Written::Nothing) && final(out)@ == old(out)@,
            }
        } else {
            is_relocated(*input, section, facts@, old(out)@, r, final(out)@)
        },
{
    let _len: usize = out.len();
    if section.section.header.sh_type == SHT_ARM_ATTRIBUTES {
        if let Some(prepared) = input.prepared {
            if let Some(merged) = &prepared.attributes {
                if merged.first == section.id {
                    let _ = store(out, 0, &merged.bytes);
                    return Ok(Written::Merged);
                }
            }
        }
        return Ok(Written::Nothing);
    }
    if section.section.header.sh_type == SHT_ARM_EXIDX {
        if let Some(prepared) = input.prepared {
            if let Some(table) = &prepared.exidx {
                if table.first == section.id {
                    write_exidx(input, table, section.base, out);
                    return Ok(Written::Table);
                }
            }
        }
        return Ok(Written::Nothing);
    }
    let _ = store(out, 0, section.data);
    if let RelocTable::Missing = &section.section.relocations {
        return Ok(Written::Relocated { relocs: Vec::new(), reports: Vec::new() });
    }
    if section.file >= input.refs.files.len() || input.refs.files[section.file].object.is_none() {
        return Err(Error::Internal("unparsed file in output"));
    }
    if let RelocTable::Malformed { offset, what } = &section.section.relocations {
        return Err(
            Error::Malformed {
                file: input.refs.files[section.file].name.clone(),
                offset: *offset,
                what: what.clone(),
            },
        );
    }
    let Some(relocs) = relocations(&section.section.relocations, section.data) else {
        return Ok(Written::Relocated { relocs: Vec::new(), reports: Vec::new() });
    };
    let alloc: bool = section.section.header.sh_flags & SHF_ALLOC != 0;
    let writer: Writer = Writer {
        refs: input.refs,
        layout: input.layout,
        id: section.id,
        file: section.file,
        base: section.base,
        setting: Setting {
            alloc,
            discarded: if alloc {
                None
            } else {
                input.discarded
            },
            tls: match input.layout.tls {
                Some(tls) => tls,
                None => Tls { start: 0, tp: 0 },
            },
            got_base: input.got_base,
        },
        pic: input.pic,
    };
    assert(writer == input.spec_writer(section));
    let reports: Vec<Report> = writer.relocate_all(out, &relocs, facts);
    Ok(Written::Relocated { relocs, reports })
}

/// What a relocation writes: the address and the addend, or their distance
/// from the place, from the thread pointer or from the GOT. A thread-local
/// symbol that nothing defines has its addend written.
#[verifier::rlimit(80)]
#[verifier::spinoff_prover]
pub proof fn values_follow_the_address(
    setting: Setting,
    decision: Decision,
    slot: Option<u64>,
    address: Address,
    place: u64,
)
    ensures
        ({
            let defined = setting.computed(decision, slot, address, false, place);
            let undefined = setting.computed(decision, slot, address, true, place);
            let s = address.value as int;
            let a = address.addend as int;
            let p = place as int;
            match decision.class.kind {
                Kind::Abs => if decision.symbolic {
                    defined == Value::Skip
                } else {
                    defined matches Value::Write(v) && v == (s + a) % 0x1_0000_0000_0000_0000
                },
                Kind::Pc => defined matches Value::Write(v) && (decision.class.width == Width::Any32
                    ==> v == (s + a - p) % 0x1_0000_0000_0000_0000),
                Kind::Got => match slot {
                    Some(g) => defined matches Value::Write(v) && v == (g + a - p) % 0x1_0000_0000_0000_0000,
                    None => defined is Wrong,
                },
                Kind::GotAbs => match slot {
                    Some(g) => defined matches Value::Write(v) && v == (g + a) % 0x1_0000_0000_0000_0000,
                    None => defined is Wrong,
                },
                Kind::GotSlotRel => match slot {
                    Some(g) => defined matches Value::Write(v) && v == (g - setting.got_base + a) % 0x1_0000_0000_0000_0000,
                    None => defined is Wrong,
                },
                Kind::GotRel => defined matches Value::Write(v) && v == (s + a - setting.got_base) % 0x1_0000_0000_0000_0000,
                Kind::GotBasePc => defined matches Value::Write(v) && v == (setting.got_base + a - p)
                    % 0x1_0000_0000_0000_0000,
                Kind::TpOff => (defined matches Value::Write(v) && v == (s + a - setting.tls.tp) % 0x1_0000_0000_0000_0000)
                    && (undefined matches Value::Write(v) && v == a % 0x1_0000_0000_0000_0000),
                Kind::DtpOff => (defined matches Value::Write(v) && v == (s + a - setting.tls.start) % 0x1_0000_0000_0000_0000)
                    && (undefined matches Value::Write(v) && v == a % 0x1_0000_0000_0000_0000),
                _ => defined is Wrong,
            }
        }),
{
    crate::bits::signs(0, address.addend);
}

} // verus!
