//! Planning Arm range-extension and interworking thunks.
//!
//! The shared framework ([`crate::elf::arch::thunk`]) places thunks at the
//! end of the output section holding their callers; this module decides
//! which branches need one and what it must do. A thunk is keyed by its
//! destination, the state of its callers (the thunk is in that state, so
//! the branch to it needs no `blx`) and whether the output is
//! position-independent ([`super::thunk_key`]), so callers that agree on all
//! three share one.

use vstd::prelude::*;

use super::{
    implicit_addend, is_thunk_branch, patch_of, pc_bias, thunk_key, Branch, Patch,
};
use crate::elf::arch::Arch;
use crate::elf::arch::thunk::{caller, defined_at, pool_start, stub, Thunks};
use crate::elf::consts::{STT_FUNC, STT_GNU_IFUNC};
use crate::elf::inputs::{InputSection, ObjectInput, RelocTable};
use crate::elf::layout::{Layout, LayoutInput, Owner};
use crate::elf::refs::{Refs, Target};
use crate::elf::relocation::Relocation;

verus! {

/// Relocation `rel` with its addend, which `data` holds where the table has
/// none.
pub open spec fn with_addend(rel: Relocation, implicit: bool, data: Seq<u8>) -> Relocation {
    if implicit {
        Relocation { addend: super::spec_implicit_addend(rel.r_type, data, rel.offset), ..rel }
    } else {
        rel
    }
}

/// The relocations of a table, each with its addend.
pub open spec fn spec_relocations(table: RelocTable, data: Seq<u8>) -> Option<Seq<Relocation>> {
    match table {
        RelocTable::Rel(list) => Some(
            Seq::new(list@.len(), |i: int| with_addend(list@[i], true, data)),
        ),
        RelocTable::Rela(list) => Some(list@),
        _ => None,
    }
}

/// The relocations of a table, each with its addend: in the table, or in
/// the fields that the relocations patch.
pub fn relocations(table: &RelocTable, data: &[u8]) -> (r: Option<Vec<Relocation>>)
    ensures
        match (r, spec_relocations(*table, data@)) {
            (Some(a), Some(b)) => a@ == b,
            (None, None) => true,
            _ => false,
        },
{
    let mut out: Vec<Relocation> = Vec::new();
    match table {
        RelocTable::Rel(list) => {
            let mut i: usize = 0;
            while i < list.len()
                invariant
                    i <= list@.len(),
                    out@.len() == i,
                    forall|k: int|
                        0 <= k < i ==> #[trigger] out@[k] == with_addend(list@[k], true, data@),
                decreases list@.len() - i,
            {
                let rel: Relocation = list[i];
                let addend: i64 = implicit_addend(rel.r_type, data, rel.offset);
                out.push(
                    Relocation {
                        offset: rel.offset,
                        symbol: rel.symbol,
                        r_type: rel.r_type,
                        addend,
                    },
                );
                i += 1;
            }
            assert(out@ =~= Seq::new(list@.len(), |i: int| with_addend(list@[i], true, data@)));
            Some(out)
        },
        RelocTable::Rela(list) => {
            let mut i: usize = 0;
            while i < list.len()
                invariant
                    i <= list@.len(),
                    out@ == list@.take(i as int),
                decreases list@.len() - i,
            {
                out.push(list[i]);
                i += 1;
                assert(out@ =~= list@.take(i as int));
            }
            assert(out@ =~= list@);
            Some(out)
        },
        _ => None,
    }
}

/// Where a branch goes, before any thunk.
#[derive(Clone, Copy, Debug, PartialEq, Eq, Structural)]
pub struct Destination {
    /// The address the branch computes: `S + A` plus the PC bias, with
    /// bit 0 set for a Thumb function.
    pub address: u64,
    /// The symbol is a function, so bit 0 of its address gives its state.
    pub function: bool,
    /// The branch goes to a PLT entry or an IFUNC stub.
    pub via_stub: bool,
}

/// Whether a symbol is a function.
#[verifier::allow_in_spec]
pub fn is_function(target: Target) -> bool
    returns
        (match target.raw {
            Some(raw) => raw.kind() == STT_FUNC || raw.kind() == STT_GNU_IFUNC,
            None => false,
        }),
{
    match target.raw {
        Some(raw) => raw.kind() == STT_FUNC || raw.kind() == STT_GNU_IFUNC,
        None => false,
    }
}

/// What [`destination`] gives.
pub open spec fn spec_destination(
    refs: Refs,
    layout: Layout,
    file: usize,
    symbol: u32,
    addend: i64,
    r_type: u32,
) -> Option<Destination> {
    match refs.spec_target(file as int, symbol as int) {
        None => None,
        Some(target) => {
            let owner = Owner::of(target.global, file, symbol);
            match crate::elf::arch::thunk::spec_stub(refs, layout, target, owner) {
                Some(address) => Some(
                    Destination {
                        address: address.wrapping_add_signed(addend).wrapping_add(pc_bias(r_type)),
                        function: true,
                        via_stub: true,
                    },
                ),
                None => match crate::elf::arch::thunk::spec_defined_at(
                    refs,
                    layout,
                    target.def,
                ) {
                    Some(address) => Some(
                        Destination {
                            address: address.wrapping_add_signed(addend).wrapping_add(
                                pc_bias(r_type),
                            ),
                            function: is_function(target),
                            via_stub: false,
                        },
                    ),
                    None => None,
                },
            }
        },
    }
}

/// Where the branch of relocation `r_type` against symbol `symbol` of
/// `file` goes. `None` when it goes nowhere a thunk could help: an
/// undefined symbol without a PLT entry (the writer makes those a `nop`),
/// or a symbol in a section that is not in the output.
pub fn destination(
    refs: &Refs,
    layout: &Layout,
    file: usize,
    symbol: u32,
    addend: i64,
    r_type: u32,
) -> (r: Option<Destination>)
    ensures
        r == spec_destination(*refs, *layout, file, symbol, addend, r_type),
{
    let Some(target) = refs.target(file, symbol) else {
        return None;
    };
    let owner: Owner = Owner::of(target.global, file, symbol);
    if let Some(address) = stub(refs, layout, target, owner) {
        return Some(
            Destination {
                address: address.wrapping_add_signed(addend).wrapping_add(pc_bias(r_type)),
                function: true,
                via_stub: true,
            },
        );
    }
    match defined_at(refs, layout, target.def) {
        Some(address) => Some(
            Destination {
                address: address.wrapping_add_signed(addend).wrapping_add(pc_bias(r_type)),
                function: is_function(target),
                via_stub: false,
            },
        ),
        None => None,
    }
}

/// What [`key_of`] gives.
pub open spec fn spec_key_of(branch: Branch, pic: bool) -> Option<u64> {
    let plan = branch.spec_plan();
    if plan.thunk {
        let bit = if plan.thumb_target {
            1u64
        } else {
            0u64
        };
        Some(thunk_key((branch.destination & !1u64) | bit, branch.thumb_caller(), pic))
    } else {
        None
    }
}

/// The thunk key of `branch`, if it needs one, given how it is resolved.
/// The thunk `bx`es to the destination, so bit 0 says which state it is in;
/// it is itself in its callers' state.
pub fn key_of(branch: &Branch, pic: bool) -> (r: Option<u64>)
    ensures
        r == spec_key_of(*branch, pic),
{
    let plan: super::BranchPlan = branch.plan();
    if !plan.thunk {
        return None;
    }
    let bit: u64 = if plan.thumb_target {
        1
    } else {
        0
    };
    Some(thunk_key((branch.destination & !1u64) | bit, branch.thumb_caller(), pic))
}

/// The key that relocation `rel` of a section at `base` needs a thunk for.
pub open spec fn spec_need(
    input: LayoutInput,
    layout: Layout,
    file: usize,
    base: u64,
    data: Seq<u8>,
    rel: Relocation,
) -> Option<u64> {
    if !is_thunk_branch(rel.r_type) {
        None
    } else {
        match spec_destination(
            *input.refs,
            layout,
            file,
            rel.symbol,
            rel.addend,
            rel.r_type,
        ) {
            None => None,
            Some(d) => {
                let insn = match patch_of(rel.r_type) {
                    Patch::Insn(field) => match field.insn_at(data, rel.offset as int) {
                        Some(word) => word,
                        None => 0,
                    },
                    _ => 0,
                };
                spec_key_of(
                    Branch {
                        r_type: rel.r_type,
                        insn,
                        place: base.wrapping_add(rel.offset),
                        destination: d.address,
                        function: d.function,
                        via_stub: d.via_stub,
                    },
                    input.pic,
                )
            },
        }
    }
}

/// The thunks that relocations from `i` on need.
pub open spec fn relocations_need(
    input: LayoutInput,
    layout: Layout,
    file: usize,
    caller: (u32, u64),
    data: Seq<u8>,
    relocs: Seq<Relocation>,
    i: int,
) -> Seq<(u32, u64)>
    decreases relocs.len() - i,
{
    if i < 0 || i >= relocs.len() {
        Seq::empty()
    } else {
        let rest = relocations_need(input, layout, file, caller, data, relocs, i + 1);
        match spec_need(input, layout, file, caller.1, data, relocs[i]) {
            Some(key) => seq![(caller.0, key)] + rest,
            None => rest,
        }
    }
}

/// The thunks that a section needs.
pub open spec fn section_needs(
    input: LayoutInput,
    layout: Layout,
    file: usize,
    index: usize,
    section: InputSection,
) -> Seq<(u32, u64)> {
    match (
        crate::elf::arch::thunk::spec_caller(*input.refs, layout, file as int, index, section),
        section.contents,
    ) {
        (Some(caller), Some(data)) => match spec_relocations(section.relocations, data@) {
            Some(relocs) => relocations_need(input, layout, file, caller, data@, relocs, 0),
            None => Seq::empty(),
        },
        _ => Seq::empty(),
    }
}

/// The thunks that sections from `i` on of an object need.
pub open spec fn sections_need(
    input: LayoutInput,
    layout: Layout,
    file: usize,
    object: ObjectInput,
    i: int,
) -> Seq<(u32, u64)>
    decreases object.sections@.len() - i,
{
    if i < 0 || i >= object.sections@.len() {
        Seq::empty()
    } else {
        section_needs(input, layout, file, i as usize, object.sections@[i]) + sections_need(
            input,
            layout,
            file,
            object,
            i + 1,
        )
    }
}

/// The thunks that files from `f` on need.
pub open spec fn files_need(input: LayoutInput, layout: Layout, f: int) -> Seq<(u32, u64)>
    decreases input.refs.files@.len() - f,
{
    if f < 0 || f >= input.refs.files@.len() {
        Seq::empty()
    } else {
        let rest = files_need(input, layout, f + 1);
        match input.refs.files@[f].object {
            Some(object) => sections_need(input, layout, f as usize, object, 0) + rest,
            None => rest,
        }
    }
}

/// Collects the thunks that one section needs.
fn collect_section(
    input: &LayoutInput,
    layout: &Layout,
    file: usize,
    index: usize,
    section: &InputSection,
    needed: &mut Vec<(u32, u64)>,
)
    ensures
        final(needed)@ == old(needed)@ + section_needs(*input, *layout, file, index, *section),
{
    let found: Option<(u32, u64)> = caller(input.refs, layout, file, index, section);
    let ghost whole = section_needs(*input, *layout, file, index, *section);
    if let (Some(c), Some(data)) = (found, &section.contents) {
        if let Some(relocs) = relocations(&section.relocations, data) {
            let mut i: usize = 0;
            while i < relocs.len()
                invariant
                    i <= relocs@.len(),
                    old(needed)@ + whole == needed@ + relocations_need(
                        *input,
                        *layout,
                        file,
                        c,
                        data@,
                        relocs@,
                        i as int,
                    ),
                decreases relocs@.len() - i,
            {
                let rel: Relocation = relocs[i];
                let ghost before = needed@;
                let ghost rest = relocations_need(
                    *input,
                    *layout,
                    file,
                    c,
                    data@,
                    relocs@,
                    i + 1,
                );
                if is_thunk_branch(rel.r_type) {
                    if let Some(d) = destination(
                        input.refs,
                        layout,
                        file,
                        rel.symbol,
                        rel.addend,
                        rel.r_type,
                    ) {
                        let insn: u32 = match patch_of(rel.r_type) {
                            Patch::Insn(field) => match field.read(data, rel.offset) {
                                Some(word) => word,
                                None => 0,
                            },
                            _ => 0,
                        };
                        let branch: Branch = Branch {
                            r_type: rel.r_type,
                            insn,
                            place: c.1.wrapping_add(rel.offset),
                            destination: d.address,
                            function: d.function,
                            via_stub: d.via_stub,
                        };
                        if let Some(key) = key_of(&branch, input.pic) {
                            needed.push((c.0, key));
                            assert(before + (seq![(c.0, key)] + rest) =~= needed@ + rest);
                        }
                    }
                }
                i += 1;
            }
        }
    }
    assert(needed@ + Seq::<(u32, u64)>::empty() =~= needed@);
}

/// Collects the thunks that every file needs.
fn collect_files(input: &LayoutInput, layout: &Layout) -> (needed: Vec<(u32, u64)>)
    ensures
        needed@ == files_need(*input, *layout, 0),
{
    let mut needed: Vec<(u32, u64)> = Vec::new();
    let mut f: usize = 0;
    assert(needed@ + files_need(*input, *layout, 0) =~= files_need(*input, *layout, 0));
    while f < input.refs.files.len()
        invariant
            f <= input.refs.files@.len(),
            files_need(*input, *layout, 0) == needed@ + files_need(*input, *layout, f as int),
        decreases input.refs.files@.len() - f,
    {
        let ghost before = needed@;
        let ghost rest = files_need(*input, *layout, f + 1);
        if let Some(object) = &input.refs.files[f].object {
            let ghost here = sections_need(*input, *layout, f, *object, 0);
            let mut i: usize = 0;
            while i < object.sections.len()
                invariant
                    i <= object.sections@.len(),
                    before + here == needed@ + sections_need(
                        *input,
                        *layout,
                        f,
                        *object,
                        i as int,
                    ),
                decreases object.sections@.len() - i,
            {
                let ghost earlier = needed@;
                let section: &InputSection = &object.sections[i];
                collect_section(input, layout, f, i, section, &mut needed);
                proof {
                    let one = section_needs(*input, *layout, f, i, *section);
                    let more = sections_need(*input, *layout, f, *object, i + 1);
                    assert(earlier + (one + more) =~= needed@ + more);
                }
                i += 1;
            }
            assert(needed@ + Seq::<(u32, u64)>::empty() =~= needed@);
            assert(before + (here + rest) =~= needed@ + rest);
        }
        f += 1;
    }
    assert(needed@ + files_need(*input, *layout, f as int) =~= needed@);
    needed
}

/// Plans the thunks the layout in `layout` needs, given the ones
/// `previous` planned (whose space `layout` already reserves).
pub fn plan(input: &LayoutInput, layout: &Layout, previous: &Thunks) -> (r: Thunks)
    ensures
        ({
            let needed = files_need(*input, *layout, 0);
            if needed.len() == 0 {
                r.entries@.len() == 0 && r.arch == Arch::X86_64
            } else {
                crate::elf::arch::thunk::is_table(
                    Arch::Arm,
                    needed,
                    |output: u32|
                        crate::elf::arch::thunk::spec_pool_start(*layout, *previous, output),
                    r,
                )
            }
        }),
{
    let needed: Vec<(u32, u64)> = collect_files(input, layout);
    if needed.len() == 0 {
        return Thunks::default();
    }
    let start = |output: u32| -> (at: u64)
        ensures
            at == crate::elf::arch::thunk::spec_pool_start(*layout, *previous, output),
        { pool_start(layout, previous, output) };
    Thunks::build(Arch::Arm, needed, &start)
}

} // verus!
