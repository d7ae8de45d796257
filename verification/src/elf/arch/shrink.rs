//! Linker relaxation with section shrinking, for any architecture.
//!
//! RISC-V code is assembled for the worst case, with relocations marking
//! the sequences the linker may shorten once addresses are known, and
//! alignment relocations marking `nop` padding the linker must trim so that
//! the code after it is aligned *after* shrinking. Shrinking moves code,
//! which moves symbols, which changes what can be relaxed, so layout
//! iterates ([`layout`]):
//!
//! 1. lay out with the current edits (none at first): each relaxed section
//!    is smaller by the bytes its edits delete ([`Relaxation::removed`]);
//! 2. with those addresses, the architecture decides every relocation's
//!    edit again, section by section in parallel;
//! 3. stop when no section's deletions changed; the layout of step 1 is
//!    then final, with the edits of step 2 (which delete the same bytes).
//!
//! The framework owns everything but the decisions: the edit plan of each
//! section ([`SectionRelax`]), address mapping ([`SectionRelax::map`]), the
//! copy of a section with its edits applied ([`copy`]) and `--emit-relocs`
//! types ([`Relaxation::emitted_type`]).

use vstd::prelude::*;
use vstd::slice::slice_subrange;

use super::{Arch, TlsMode};
use super::riscv::relax;
use super::thunk::is_code;
use crate::bits::checked_offset;
use crate::bytes::{le32, write_over};
use crate::elf::consts::SHT_NOBITS;
use crate::elf::consts::riscv::R_RISCV_RELAX;
use crate::elf::inputs::{InputSection, ObjectInput, RelocTable, SectionKind};
use crate::elf::layout::{find_entry, Layout, LayoutInput, Owner};
use crate::elf::refs::{Def, Refs, Target};
use crate::elf::relocation::Relocation;
use crate::error::Error;
use crate::ids::SectionId;
use crate::order::stable_order;
use crate::parallel::{map_all, numbers};
use crate::symbols::{NEEDS_PLT, PREEMPTIBLE};

verus! {

/// How many passes layout may take before giving up on a fixpoint.
pub const MAX_PASSES: u32 = 30;

/// The position of a section that is not relaxed.
pub const NOWHERE: u32 = u32::MAX;

/// What relaxation does to the instruction (or padding) of one
/// relocation.
#[derive(Clone, Copy, Debug, PartialEq, Eq, Structural)]
pub enum Rewrite {
    /// Alignment padding of `addend` bytes, trimmed by the edit's `remove`
    /// bytes; what stays is refilled with no-ops when the trim splits one.
    Align {
        /// The padding the assembler reserved.
        addend: u32,
    },
    /// The instruction is deleted.
    Delete,
    /// The instruction's first `len` bytes become `word` (2 or 4 bytes);
    /// the edit's `remove` bytes after them go. The writer then applies
    /// relocation type `r_type` there, or nothing when it is 0 (the word is
    /// complete).
    Replace {
        /// The new instruction.
        word: u32,
        /// Its length in bytes.
        len: u8,
        /// The relocation the writer applies to it.
        r_type: u32,
    },
    /// No byte changes; the writer applies relocation type `r_type` (an
    /// architecture-internal number, above 255) instead of the original.
    Retype(u32),
}

impl Rewrite {
    /// The bytes the rewrite keeps at the relocation's offset before the
    /// deleted ones.
    #[verifier::allow_in_spec]
    pub fn kept(self) -> u64
        returns
            (match self {
                Rewrite::Replace { len, .. } => len as u64,
                _ => 0u64,
            }),
    {
        match self {
            Rewrite::Replace { len, .. } => len as u64,
            _ => 0u64,
        }
    }
}

/// One relaxed relocation.
#[derive(Clone, Copy, Debug, PartialEq, Eq, Structural)]
pub struct Edit {
    /// Position of the relocation in processing order ([`sorted_order`]).
    pub seq: u32,
    /// Its index in the relocation section.
    pub index: u32,
    /// Its offset in the input section.
    pub offset: u64,
    /// Bytes deleted after the kept part of the instruction.
    pub remove: u32,
    /// Bytes deleted in the section up to and including this edit.
    pub delta: u64,
    /// What becomes of the instruction.
    pub rewrite: Rewrite,
}

/// The edits of one input section.
#[derive(Debug, PartialEq, Eq)]
pub struct SectionRelax {
    /// The section.
    pub id: SectionId,
    /// Its edits, in processing order.
    pub edits: Vec<Edit>,
    /// The relocation table was sorted by offset, so processing order is
    /// table order.
    pub sorted: bool,
}

/// Whether edits are in processing order: by position, and so by offset.
pub open spec fn in_order(edits: Seq<Edit>) -> bool {
    forall|i: int, j: int|
        0 <= i < j < edits.len() ==> (#[trigger] edits[i]).seq < (#[trigger] edits[j]).seq
            && edits[i].offset <= edits[j].offset
}

/// Whether each edit's `delta` counts the bytes deleted up to it.
pub open spec fn deltas_count(edits: Seq<Edit>) -> bool {
    forall|i: int|
        0 <= i < edits.len() ==> (#[trigger] edits[i]).delta == deleted_by(edits, i + 1)
}

/// The bytes that the first `n` edits delete.
pub open spec fn deleted_by(edits: Seq<Edit>, n: int) -> u64
    decreases n,
{
    if n <= 0 {
        0
    } else {
        crate::elf::arch::thunk::saturated(
            deleted_by(edits, n - 1),
            edits[n - 1].remove as u64,
        )
    }
}

/// The bytes that the first edits delete do not depend on the others.
proof fn deletions_agree(a: Seq<Edit>, b: Seq<Edit>, n: int)
    requires
        n <= a.len(),
        n <= b.len(),
        forall|i: int| 0 <= i < n ==> a[i] == b[i],
    ensures
        deleted_by(a, n) == deleted_by(b, n),
    decreases n,
{
    if n > 0 {
        deletions_agree(a, b, n - 1);
    }
}

/// An edit whose `delta` adds the bytes it deletes keeps the count.
pub proof fn added_edits_count(before: Seq<Edit>, after: Seq<Edit>)
    requires
        deltas_count(before),
        after.len() == before.len() + 1,
        after.drop_last() == before,
        after.last().delta == crate::elf::arch::thunk::saturated(
            deleted_by(before, before.len() as int),
            after.last().remove as u64,
        ),
    ensures
        deltas_count(after),
        deleted_by(after, after.len() as int) == after.last().delta,
{
    let n = before.len() as int;
    assert forall|i: int| 0 <= i < n implies after[i] == before[i] by {
        assert(after.drop_last()[i] == before[i]);
    }
    deletions_agree(before, after, n);
    assert forall|i: int| 0 <= i < after.len() implies (#[trigger] after[i]).delta == deleted_by(
        after,
        i + 1,
    ) by {
        if i < n {
            deletions_agree(before, after, i + 1);
            assert(before[i].delta == deleted_by(before, i + 1));
        }
    }
}

/// How many edits come before `offset`, from `i` on.
pub open spec fn edits_before(edits: Seq<Edit>, offset: u64, i: int) -> int
    decreases edits.len() - i,
{
    if 0 <= i < edits.len() && edits[i].offset < offset {
        edits_before(edits, offset, i + 1)
    } else {
        i
    }
}

/// The bytes deleted before `offset`.
pub open spec fn deleted_before(edits: Seq<Edit>, offset: u64) -> u64 {
    let n = edits_before(edits, offset, 0);
    if n > 0 {
        edits[n - 1].delta
    } else {
        0
    }
}

/// A number of edits that divides them by `offset` is how many come before
/// it.
proof fn division_counts(edits: Seq<Edit>, offset: u64, i: int, n: int)
    requires
        0 <= i <= n <= edits.len(),
        forall|k: int| i <= k < n ==> (#[trigger] edits[k]).offset < offset,
        n < edits.len() ==> edits[n].offset >= offset,
    ensures
        edits_before(edits, offset, i) == n,
    decreases n - i,
{
    if i < n {
        assert(edits[i].offset < offset);
        division_counts(edits, offset, i + 1, n);
    }
}

/// The edits counted come before the offset, and the next does not.
proof fn counted_come_before(edits: Seq<Edit>, offset: u64, i: int)
    requires
        0 <= i <= edits.len(),
    ensures
        i <= edits_before(edits, offset, i) <= edits.len(),
        forall|k: int|
            i <= k < edits_before(edits, offset, i) ==> (#[trigger] edits[k]).offset < offset,
        edits_before(edits, offset, i) < edits.len() ==> edits[edits_before(
            edits,
            offset,
            i,
        )].offset >= offset,
    decreases edits.len() - i,
{
    if i < edits.len() && edits[i].offset < offset {
        counted_come_before(edits, offset, i + 1);
    }
}

/// `a - b`, or 0.
pub open spec fn reduced(a: u64, b: u64) -> u64 {
    if a >= b {
        (a - b) as u64
    } else {
        0
    }
}

/// The edit of the relocation at position `seq`, from `i` on.
pub open spec fn edit_at(edits: Seq<Edit>, seq: u32, i: int) -> Option<Edit>
    decreases edits.len() - i,
{
    if i < 0 || i >= edits.len() {
        None
    } else if edits[i].seq == seq {
        Some(edits[i])
    } else {
        edit_at(edits, seq, i + 1)
    }
}

/// In edits that are in order, the edit at a position is the one with that
/// position.
proof fn edit_is_unique(edits: Seq<Edit>, i: int, at: int)
    requires
        in_order(edits),
        0 <= i <= at < edits.len(),
    ensures
        edit_at(edits, edits[at].seq, i) == Some(edits[at]),
    decreases at - i,
{
    if i < at {
        assert(edits[i].seq < edits[at].seq);
        edit_is_unique(edits, i + 1, at);
    }
}

/// Where no edit has a position, none is found.
proof fn no_edit(edits: Seq<Edit>, seq: u32, i: int)
    requires
        0 <= i,
        forall|k: int| 0 <= k < edits.len() ==> (#[trigger] edits[k]).seq != seq,
    ensures
        edit_at(edits, seq, i) is None,
    decreases edits.len() - i,
{
    if i < edits.len() {
        assert(edits[i].seq != seq);
        no_edit(edits, seq, i + 1);
    }
}

/// The first edit of relocation `index` of the table, from `i` on.
pub open spec fn edit_of_entry(edits: Seq<Edit>, index: u32, i: int) -> Option<Edit>
    decreases edits.len() - i,
{
    if i < 0 || i >= edits.len() {
        None
    } else if edits[i].index == index {
        Some(edits[i])
    } else {
        edit_of_entry(edits, index, i + 1)
    }
}

/// The deletions from `i` on, as `(position, bytes deleted so far)`.
pub open spec fn shape_from(edits: Seq<Edit>, i: int) -> Seq<(u32, u64)>
    decreases edits.len() - i,
{
    if i < 0 || i >= edits.len() {
        Seq::empty()
    } else if edits[i].remove != 0 {
        seq![(edits[i].seq, edits[i].delta)] + shape_from(edits, i + 1)
    } else {
        shape_from(edits, i + 1)
    }
}

impl SectionRelax {
    /// Bytes the edits delete.
    pub open spec fn spec_removed(self) -> u64 {
        if self.edits@.len() == 0 {
            0
        } else {
            self.edits@.last().delta
        }
    }

    /// Bytes the edits delete.
    pub fn removed(&self) -> (r: u64)
        ensures
            r == self.spec_removed(),
    {
        let n: usize = self.edits.len();
        if n == 0 {
            0
        } else {
            self.edits[n - 1].delta
        }
    }

    /// Where offset `offset` of the input section ends up.
    pub open spec fn spec_map(self, offset: u64) -> u64 {
        reduced(offset, deleted_before(self.edits@, offset))
    }

    /// Where offset `offset` of the input section ends up: minus the bytes
    /// deleted before it. An offset at a relaxed instruction stays at its
    /// start.
    pub fn map(&self, offset: u64) -> (r: u64)
        requires
            in_order(self.edits@),
        ensures
            r == self.spec_map(offset),
    {
        let mut low: usize = 0;
        let mut high: usize = self.edits.len();
        while low < high
            invariant
                low <= high <= self.edits@.len(),
                in_order(self.edits@),
                forall|k: int| 0 <= k < low ==> (#[trigger] self.edits@[k]).offset < offset,
                forall|k: int|
                    high <= k < self.edits@.len() ==> (#[trigger] self.edits@[k]).offset >= offset,
            decreases high - low,
        {
            let middle: usize = low + (high - low) / 2;
            if self.edits[middle].offset < offset {
                low = middle + 1;
            } else {
                high = middle;
            }
        }
        proof {
            division_counts(self.edits@, offset, 0, low as int);
        }
        let deleted: u64 = if low > 0 {
            self.edits[low - 1].delta
        } else {
            0
        };
        offset.saturating_sub(deleted)
    }

    /// The edit of the relocation at position `seq`, if relaxed.
    pub fn edit(&self, seq: u32) -> (r: Option<Edit>)
        requires
            in_order(self.edits@),
        ensures
            r == edit_at(self.edits@, seq, 0),
    {
        let mut low: usize = 0;
        let mut high: usize = self.edits.len();
        while low < high
            invariant
                low <= high <= self.edits@.len(),
                in_order(self.edits@),
                forall|k: int| 0 <= k < low ==> (#[trigger] self.edits@[k]).seq < seq,
                forall|k: int|
                    high <= k < self.edits@.len() ==> (#[trigger] self.edits@[k]).seq > seq,
            decreases high - low,
        {
            let middle: usize = low + (high - low) / 2;
            let edit: Edit = self.edits[middle];
            if edit.seq == seq {
                proof {
                    edit_is_unique(self.edits@, 0, middle as int);
                }
                return Some(edit);
            }
            if edit.seq < seq {
                low = middle + 1;
            } else {
                high = middle;
            }
        }
        proof {
            no_edit(self.edits@, seq, 0);
        }
        None
    }

    /// The edit of relocation `index` of the section's table.
    pub open spec fn spec_edit_of_index(self, index: u32) -> Option<Edit> {
        if self.sorted {
            edit_at(self.edits@, index, 0)
        } else {
            edit_of_entry(self.edits@, index, 0)
        }
    }

    /// The edit of relocation `index` of the section's table.
    pub fn edit_of_index(&self, index: u32) -> (r: Option<Edit>)
        requires
            in_order(self.edits@),
        ensures
            r == self.spec_edit_of_index(index),
    {
        if self.sorted {
            return self.edit(index);
        }
        let mut i: usize = 0;
        while i < self.edits.len()
            invariant
                !self.sorted,
                edit_of_entry(self.edits@, index, 0) == edit_of_entry(
                    self.edits@,
                    index,
                    i as int,
                ),
            decreases self.edits@.len() - i,
        {
            if self.edits[i].index == index {
                return Some(self.edits[i]);
            }
            i += 1;
        }
        None
    }

    /// The deletions, which decide the layout.
    fn shape(&self) -> (r: Vec<(u32, u64)>)
        ensures
            r@ == shape_from(self.edits@, 0),
    {
        let mut out: Vec<(u32, u64)> = Vec::new();
        let mut i: usize = 0;
        assert(out@ + shape_from(self.edits@, 0) =~= shape_from(self.edits@, 0));
        while i < self.edits.len()
            invariant
                i <= self.edits@.len(),
                shape_from(self.edits@, 0) == out@ + shape_from(self.edits@, i as int),
            decreases self.edits@.len() - i,
        {
            let edit: Edit = self.edits[i];
            if edit.remove != 0 {
                let ghost before = out@;
                out.push((edit.seq, edit.delta));
                assert(before + (seq![(edit.seq, edit.delta)] + shape_from(self.edits@, i + 1))
                    =~= out@ + shape_from(self.edits@, i + 1));
            }
            i += 1;
        }
        assert(out@ + shape_from(self.edits@, i as int) =~= out@);
        out
    }
}

/// Whether an offset is in no deleted bytes.
pub open spec fn survives(edits: Seq<Edit>, offset: u64) -> bool {
    forall|i: int|
        0 <= i < edits.len() && (#[trigger] edits[i]).offset < offset ==> edits[i].offset
            + edits[i].remove <= offset
}

/// Offsets of bytes that are not deleted keep their order: code stays where
/// it was relative to other code, however much is deleted.
pub proof fn maps_keep_order(section: SectionRelax, a: u64, b: u64)
    requires
        in_order(section.edits@),
        deltas_count(section.edits@),
        fits_between(section.edits@),
        survives(section.edits@, b),
        a <= b,
    ensures
        section.spec_map(a) <= section.spec_map(b),
{
    let e = section.edits@;
    let n = edits_before(e, a, 0);
    let m = edits_before(e, b, 0);
    counted_come_before(e, a, 0);
    counted_come_before(e, b, 0);
    if m < n {
        assert(e[m].offset < a);
    }
    if n > 0 {
        assert(e[n - 1].delta == deleted_by(e, n));
    }
    if n < m {
        span_deletes_less(e, n, m - 1);
        assert(e[m - 1].offset < b);
        assert(e[n].offset >= a);
        assert(e[m - 1].delta == deleted_by(e, m));
    }
}

/// Whether each edit deletes no more than lies between it and the next.
pub open spec fn fits_between(edits: Seq<Edit>) -> bool {
    forall|i: int, j: int|
        0 <= i < j < edits.len() && j == i + 1 ==> (#[trigger] edits[i]).remove <= (
        #[trigger] edits[j]).offset - edits[i].offset
}

/// The edits from `i` to before `j` delete no more than lies between them.
proof fn span_deletes_less(edits: Seq<Edit>, i: int, j: int)
    requires
        in_order(edits),
        fits_between(edits),
        0 <= i <= j < edits.len(),
    ensures
        deleted_by(edits, j) - deleted_by(edits, i) <= edits[j].offset - edits[i].offset,
        deleted_by(edits, i) <= deleted_by(edits, j),
    decreases j - i,
{
    if i < j {
        span_deletes_less(edits, i, j - 1);
        assert(edits[j - 1].remove <= edits[j].offset - edits[j - 1].offset);
    }
}

/// The relaxation state of a link: the edits of every relaxed section.
#[derive(Debug, PartialEq, Eq)]
pub struct Relaxation {
    /// Position in `sections` by section, or [`NOWHERE`]; empty when nothing
    /// is relaxed.
    pub index: Vec<u32>,
    /// The sections with edits, by section.
    pub sections: Vec<SectionRelax>,
    /// The type `--emit-relocs` gives a deleted instruction's relocation.
    pub deleted_type: u32,
}

/// The position of each of `total` sections among the first `n` relaxed
/// ones.
pub open spec fn positions(total: nat, sections: Seq<SectionRelax>, n: int) -> Seq<u32>
    decreases n,
{
    if n <= 0 {
        Seq::new(total, |i: int| NOWHERE)
    } else {
        let before = positions(total, sections, n - 1);
        let at = sections[n - 1].id.position as int;
        if at < total {
            before.update(
                at,
                if n - 1 > u32::MAX {
                    NOWHERE
                } else {
                    (n - 1) as u32
                },
            )
        } else {
            before
        }
    }
}

/// Tables of positions have a place for each section.
proof fn positions_have_length(total: nat, sections: Seq<SectionRelax>, n: int)
    ensures
        positions(total, sections, n).len() == total,
    decreases n,
{
    if n > 0 {
        positions_have_length(total, sections, n - 1);
    }
}

impl Default for Relaxation {
    fn default() -> (r: Relaxation)
        ensures
            r.is_unrelaxed(),
    {
        Relaxation { index: Vec::new(), sections: Vec::new(), deleted_type: 0 }
    }
}

impl Relaxation {
    /// Whether the edits of every section are in order.
    pub open spec fn valid(self) -> bool {
        forall|i: int|
            0 <= i < self.sections@.len() ==> in_order((#[trigger] self.sections@[i]).edits@)
    }

    /// Whether this is the state before any edit.
    pub open spec fn is_unrelaxed(self) -> bool {
        &&& self.index@.len() == 0
        &&& self.sections@.len() == 0
        &&& self.deleted_type == 0
    }

    /// The state with these sections, of `total` in the link.
    pub fn new(total: usize, sections: Vec<SectionRelax>, deleted_type: u32) -> (r: Relaxation)
        ensures
            r.sections@ == sections@,
            sections@.len() > 0 ==> r.deleted_type == deleted_type && r.index@ == positions(
                total as nat,
                sections@,
                sections@.len() as int,
            ),
            sections@.len() == 0 ==> r.is_unrelaxed(),
    {
        let n: usize = sections.len();
        if n == 0 {
            let none: Relaxation = Relaxation::default();
            assert(none.sections@ =~= sections@);
            return none;
        }
        let mut index: Vec<u32> = Vec::new();
        let mut i: usize = 0;
        while i < total
            invariant
                i <= total,
                index@ == Seq::new(i as nat, |k: int| NOWHERE),
            decreases total - i,
        {
            index.push(NOWHERE);
            i += 1;
            assert(index@ =~= Seq::new(i as nat, |k: int| NOWHERE));
        }
        let mut p: usize = 0;
        while p < n
            invariant
                p <= n,
                n == sections@.len(),
                index@ == positions(total as nat, sections@, p as int),
                index@.len() == total,
            decreases n - p,
        {
            let at: usize = sections[p].id.position;
            proof {
                positions_have_length(total as nat, sections@, p + 1);
            }
            if at < index.len() {
                let position: u32 = if p > u32::MAX as usize {
                    NOWHERE
                } else {
                    p as u32
                };
                index.set(at, position);
            }
            p += 1;
        }
        Relaxation { index, sections, deleted_type }
    }

    /// Whether no section is relaxed.
    pub fn is_empty(&self) -> (r: bool)
        ensures
            r == (self.sections@.len() == 0),
    {
        self.sections.len() == 0
    }

    /// The edits of section `id`, if it has any.
    pub open spec fn spec_section(self, id: SectionId) -> Option<SectionRelax> {
        if id.position < self.index@.len() {
            let position = self.index@[id.position as int];
            if position < self.sections@.len() {
                Some(self.sections@[position as int])
            } else {
                None
            }
        } else {
            None
        }
    }

    /// The edits of section `id`, if it has any.
    pub fn section(&self, id: SectionId) -> (r: Option<&SectionRelax>)
        ensures
            match r {
                Some(s) => self.spec_section(id) == Some(*s) && (self.valid() ==> in_order(
                    s.edits@,
                )),
                None => self.spec_section(id) is None,
            },
    {
        if id.position >= self.index.len() {
            return None;
        }
        let position: u32 = self.index[id.position];
        let n: usize = self.sections.len();
        if (position as u64) < n as u64 {
            Some(&self.sections[position as usize])
        } else {
            None
        }
    }

    /// Where offset `offset` of section `id` ends up.
    pub open spec fn spec_map(self, id: SectionId, offset: u64) -> u64 {
        match self.spec_section(id) {
            Some(section) => section.spec_map(offset),
            None => offset,
        }
    }

    /// Where offset `offset` of section `id` ends up.
    pub fn map(&self, id: SectionId, offset: u64) -> (r: u64)
        requires
            self.valid(),
        ensures
            r == self.spec_map(id, offset),
    {
        match self.section(id) {
            Some(section) => section.map(offset),
            None => offset,
        }
    }

    /// The type `--emit-relocs` writes for relocation `index` of section
    /// `id`: a replaced instruction's new relocation, and the architecture's
    /// marker for a deleted one.
    pub open spec fn spec_emitted_type(self, id: SectionId, index: usize, r_type: u32) -> u32 {
        let edit = match self.spec_section(id) {
            Some(section) => if index <= u32::MAX {
                section.spec_edit_of_index(index as u32)
            } else {
                None
            },
            None => None,
        };
        match edit {
            Some(e) => match e.rewrite {
                Rewrite::Replace { r_type: new, .. } => if new != 0 {
                    new
                } else {
                    r_type
                },
                Rewrite::Delete => self.deleted_type,
                _ => r_type,
            },
            None => r_type,
        }
    }

    /// The type `--emit-relocs` writes for relocation `index` of section
    /// `id`.
    pub fn emitted_type(&self, id: SectionId, index: usize, r_type: u32) -> (r: u32)
        requires
            self.valid(),
        ensures
            r == self.spec_emitted_type(id, index, r_type),
    {
        if index > u32::MAX as usize {
            return r_type;
        }
        let edit: Option<Edit> = match self.section(id) {
            Some(section) => section.edit_of_index(index as u32),
            None => None,
        };
        match edit {
            Some(e) => match e.rewrite {
                Rewrite::Replace { r_type: new, .. } => if new != 0 {
                    new
                } else {
                    r_type
                },
                Rewrite::Delete => self.deleted_type,
                _ => r_type,
            },
            None => r_type,
        }
    }

    /// Bytes relaxation deletes from section `id`.
    pub open spec fn spec_removed(self, id: SectionId) -> u64 {
        match self.spec_section(id) {
            Some(section) => section.spec_removed(),
            None => 0,
        }
    }

    /// Bytes relaxation deletes from section `id`.
    pub fn removed(&self, id: SectionId) -> (r: u64)
        ensures
            r == self.spec_removed(id),
    {
        match self.section(id) {
            Some(section) => section.removed(),
            None => 0,
        }
    }

    /// The size of a symbol at `value` with size `size` in section `id`.
    pub open spec fn spec_symbol_size(self, id: SectionId, value: u64, size: u64) -> u64 {
        match self.spec_section(id) {
            Some(section) => reduced(
                section.spec_map(crate::elf::arch::thunk::saturated(value, size)),
                section.spec_map(value),
            ),
            None => size,
        }
    }

    /// The size of a symbol at `value` with size `size` in section `id`.
    pub fn symbol_size(&self, id: SectionId, value: u64, size: u64) -> (r: u64)
        requires
            self.valid(),
        ensures
            r == self.spec_symbol_size(id, value, size),
    {
        match self.section(id) {
            Some(section) => section.map(value.saturating_add(size)).saturating_sub(
                section.map(value),
            ),
            None => size,
        }
    }

    /// Whether two states delete the same bytes.
    pub open spec fn spec_same_shape(self, other: Relaxation) -> bool {
        &&& self.sections@.len() == other.sections@.len()
        &&& forall|i: int|
            0 <= i < self.sections@.len() ==> (#[trigger] self.sections@[i]).id
                == other.sections@[i].id && shape_from(self.sections@[i].edits@, 0) == shape_from(
                other.sections@[i].edits@,
                0,
            )
    }

    /// Whether two states delete the same bytes.
    pub fn same_shape(&self, other: &Relaxation) -> (r: bool)
        ensures
            r == self.spec_same_shape(*other),
    {
        if self.sections.len() != other.sections.len() {
            return false;
        }
        let mut i: usize = 0;
        while i < self.sections.len()
            invariant
                i <= self.sections@.len(),
                self.sections@.len() == other.sections@.len(),
                forall|k: int|
                    0 <= k < i ==> (#[trigger] self.sections@[k]).id == other.sections@[k].id
                        && shape_from(self.sections@[k].edits@, 0) == shape_from(
                        other.sections@[k].edits@,
                        0,
                    ),
            decreases self.sections@.len() - i,
        {
            if self.sections[i].id != other.sections[i].id {
                return false;
            }
            let a: Vec<(u32, u64)> = self.sections[i].shape();
            let b: Vec<(u32, u64)> = other.sections[i].shape();
            if !same_pairs(&a, &b) {
                return false;
            }
            i += 1;
        }
        true
    }
}

/// Whether two lists are the same.
fn same_pairs(a: &Vec<(u32, u64)>, b: &Vec<(u32, u64)>) -> (r: bool)
    ensures
        r == (a@ == b@),
{
    if a.len() != b.len() {
        return false;
    }
    let mut i: usize = 0;
    while i < a.len()
        invariant
            i <= a@.len(),
            a@.len() == b@.len(),
            forall|k: int| 0 <= k < i ==> a@[k] == b@[k],
        decreases a@.len() - i,
    {
        if a[i].0 != b[i].0 || a[i].1 != b[i].1 {
            assert(a@[i as int] != b@[i as int]);
            return false;
        }
        i += 1;
    }
    assert(a@ =~= b@);
    true
}

/// A section that layout knows, once and in a place of its own, is found
/// with its edits.
pub proof fn relaxed_sections_are_found(
    state: Relaxation,
    total: nat,
    deleted_type: u32,
    p: int,
)
    requires
        state.index@ == positions(total, state.sections@, state.sections@.len() as int),
        0 <= p < state.sections@.len() < u32::MAX,
        state.sections@[p].id.position < total,
        forall|q: int|
            0 <= q < state.sections@.len() && q != p ==> (#[trigger] state.sections@[q]).id
                != state.sections@[p].id,
    ensures
        state.spec_section(state.sections@[p].id) == Some(state.sections@[p]),
{
    position_stays(total, state.sections@, p, state.sections@.len() as int);
    positions_have_length(total, state.sections@, state.sections@.len() as int);
}

/// The position of a section is kept when others are added.
proof fn position_stays(total: nat, sections: Seq<SectionRelax>, p: int, n: int)
    requires
        0 <= p < n <= sections.len() < u32::MAX,
        sections[p].id.position < total,
        forall|q: int|
            0 <= q < sections.len() && q != p ==> (#[trigger] sections[q]).id != sections[p].id,
    ensures
        positions(total, sections, n)[sections[p].id.position as int] == p,
    decreases n,
{
    positions_have_length(total, sections, n - 1);
    if p < n - 1 {
        position_stays(total, sections, p, n - 1);
        assert(sections[n - 1].id != sections[p].id);
    }
}

/// Whether offsets are sorted.
pub open spec fn offsets_sorted(offsets: Seq<u64>) -> bool {
    forall|i: int, j: int| 0 <= i < j < offsets.len() ==> offsets[i] <= offsets[j]
}

/// What orders relocations: their offsets.
pub open spec fn offset_keys(offsets: Seq<u64>) -> Seq<(u64, u64)> {
    Seq::new(
        if offsets.len() > u32::MAX {
            u32::MAX as nat
        } else {
            offsets.len()
        },
        |i: int| (offsets[i], 0u64),
    )
}

/// Whether `order` lists relocations by offset, those at one offset in
/// table order.
pub open spec fn is_processing_order(offsets: Seq<u64>, order: Seq<u32>) -> bool {
    exists|stable: Seq<usize>| #[trigger]
        crate::order::is_stable_order(offset_keys(offsets), stable) && order == Seq::new(
            stable.len(),
            |i: int| stable[i] as u32,
        )
}

/// The processing order of a relocation table: by offset, stably. `None`
/// when the table is already in that order, as assemblers write it.
pub fn sorted_order(offsets: &[u64]) -> (r: Option<Vec<u32>>)
    ensures
        match r {
            None => offsets_sorted(offsets@),
            Some(order) => !offsets_sorted(offsets@) && is_processing_order(offsets@, order@),
        },
{
    let n: usize = offsets.len();
    let mut i: usize = 1;
    while i < n
        invariant
            1 <= i,
            n == offsets@.len(),
            n > 0 ==> i <= n,
            forall|a: int, b: int| 0 <= a < b < i && b < n ==> offsets@[a] <= offsets@[b],
        decreases n - i,
    {
        if offsets[i - 1] > offsets[i] {
            assert(!offsets_sorted(offsets@));
            return Some(by_offset(offsets));
        }
        i += 1;
    }
    None
}

/// The positions of a relocation table by offset.
pub(crate) fn by_offset(offsets: &[u64]) -> (r: Vec<u32>)
    ensures
        is_processing_order(offsets@, r@),
{
    let n: usize = if offsets.len() > u32::MAX as usize {
        u32::MAX as usize
    } else {
        offsets.len()
    };
    let mut keys: Vec<(u64, u64)> = Vec::new();
    let mut i: usize = 0;
    while i < n
        invariant
            i <= n <= offsets@.len(),
            n == offset_keys(offsets@).len(),
            keys@ == offset_keys(offsets@).take(i as int),
        decreases n - i,
    {
        keys.push((offsets[i], 0));
        i += 1;
        assert(keys@ =~= offset_keys(offsets@).take(i as int));
    }
    assert(keys@ =~= offset_keys(offsets@));
    let stable: Vec<usize> = stable_order(&keys);
    let mut order: Vec<u32> = Vec::new();
    let mut k: usize = 0;
    while k < stable.len()
        invariant
            k <= stable@.len(),
            order@ == Seq::new(k as nat, |i: int| stable@[i] as u32),
        decreases stable@.len() - k,
    {
        order.push(stable[k] as u32);
        k += 1;
        assert(order@ =~= Seq::new(k as nat, |i: int| stable@[i] as u32));
    }
    assert(crate::order::is_stable_order(offset_keys(offsets@), stable@));
    order
}

/// Relocations in the order `order` lists them.
pub open spec fn arranged(relocs: Seq<Relocation>, order: Seq<u32>) -> Seq<Relocation> {
    Seq::new(order.len(), |i: int| relocs[order[i] as int])
}

/// The offsets of relocations.
pub open spec fn offsets_of(relocs: Seq<Relocation>) -> Seq<u64> {
    Seq::new(relocs.len(), |i: int| relocs[i].offset)
}

/// The offsets of relocations.
pub(crate) fn list_offsets(relocs: &Vec<Relocation>) -> (r: Vec<u64>)
    ensures
        r@ == offsets_of(relocs@),
{
    let mut out: Vec<u64> = Vec::new();
    let mut i: usize = 0;
    while i < relocs.len()
        invariant
            i <= relocs@.len(),
            out@ == offsets_of(relocs@).take(i as int),
        decreases relocs@.len() - i,
    {
        out.push(relocs[i].offset);
        i += 1;
        assert(out@ =~= offsets_of(relocs@).take(i as int));
    }
    assert(out@ =~= offsets_of(relocs@));
    out
}

/// Relocations in the order `order` lists them.
fn arrange(relocs: &Vec<Relocation>, order: &Vec<u32>) -> (r: Vec<Relocation>)
    requires
        forall|i: int| 0 <= i < order@.len() ==> (#[trigger] order@[i]) < relocs@.len(),
    ensures
        r@ == arranged(relocs@, order@),
{
    let mut out: Vec<Relocation> = Vec::new();
    let mut i: usize = 0;
    while i < order.len()
        invariant
            i <= order@.len(),
            forall|k: int| 0 <= k < order@.len() ==> (#[trigger] order@[k]) < relocs@.len(),
            out@ == arranged(relocs@, order@).take(i as int),
        decreases order@.len() - i,
    {
        let at: u32 = order[i];
        let len: usize = relocs.len();
        out.push(relocs[at as usize]);
        i += 1;
        assert(out@ =~= arranged(relocs@, order@).take(i as int));
    }
    assert(out@ =~= arranged(relocs@, order@));
    out
}

/// A processing order names positions of the table.
pub proof fn orders_name_positions(offsets: Seq<u64>, order: Seq<u32>)
    requires
        is_processing_order(offsets, order),
    ensures
        forall|i: int| 0 <= i < order.len() ==> (#[trigger] order[i]) < offsets.len(),
        order.len() == offset_keys(offsets).len(),
{
    let stable = choose|stable: Seq<usize>| #[trigger]
        crate::order::is_stable_order(offset_keys(offsets), stable) && order == Seq::new(
            stable.len(),
            |i: int| stable[i] as u32,
        );
    assert forall|i: int| 0 <= i < order.len() implies (#[trigger] order[i])
        < offsets.len() by {
        assert(stable[i] < offset_keys(offsets).len());
    }
}

/// Whether `r` holds `relocs` in processing order, and whether they were.
pub open spec fn is_ordered(relocs: Seq<Relocation>, r: Seq<Relocation>, sorted: bool) -> bool {
    if sorted {
        offsets_sorted(offsets_of(relocs)) && r == relocs
    } else {
        !offsets_sorted(offsets_of(relocs)) && exists|order: Seq<u32>| #[trigger]
            is_processing_order(offsets_of(relocs), order) && r == arranged(relocs, order)
    }
}

/// The relocations of a section in processing order, and whether the table
/// was already sorted.
pub fn ordered(relocs: Vec<Relocation>) -> (r: (Vec<Relocation>, bool))
    ensures
        is_ordered(relocs@, r.0@, r.1),
{
    let offsets: Vec<u64> = list_offsets(&relocs);
    match sorted_order(&offsets) {
        None => (relocs, true),
        Some(order) => {
            proof {
                orders_name_positions(offsets@, order@);
            }
            (arrange(&relocs, &order), false)
        },
    }
}

/// `n`, or the highest offset there is.
pub open spec fn capped(n: int) -> int {
    if n > usize::MAX {
        usize::MAX as int
    } else {
        n
    }
}

/// `out` with the bytes of `data` from `from` up to `until` at `to`, where
/// both have them.
pub open spec fn run_copied(
    out: Seq<u8>,
    data: Seq<u8>,
    from: int,
    until: int,
    to: int,
) -> Seq<u8> {
    if from <= until <= data.len() && to + (until - from) <= out.len() {
        crate::bytes::overlay(out, to, data.subrange(from, until))
    } else {
        out
    }
}

/// Where the next byte goes after such a run.
pub open spec fn run_end(from: int, until: int, to: int) -> int {
    capped(
        to + (if until > from {
            until - from
        } else {
            0
        }),
    )
}

/// The bytes at an edit's place that are written rather than copied.
pub open spec fn written_at(edit: Edit) -> int {
    match edit.rewrite {
        Rewrite::Align { addend } => if (edit.remove % 4 != 0 || addend % 4 != 0) && addend
            > edit.remove {
            addend - edit.remove
        } else {
            0
        },
        Rewrite::Replace { len, .. } => len as int,
        _ => 0,
    }
}

/// Whether what takes the place of padding is as long. `pad` gives, for an
/// edit's position in its list and the bytes that were there, the bytes that
/// the padding it trims is refilled with.
pub open spec fn keeps_lengths(pad: spec_fn(int, Seq<u8>) -> Seq<u8>) -> bool {
    forall|k: int, s: Seq<u8>| (#[trigger] pad(k, s)).len() == s.len()
}

/// `out` with the replacement of edit `i` at `to`: refilled padding, or a
/// new instruction.
pub open spec fn replacement_put(
    out: Seq<u8>,
    edit: Edit,
    i: int,
    to: int,
    pad: spec_fn(int, Seq<u8>) -> Seq<u8>,
) -> Seq<u8> {
    let n = written_at(edit);
    if to + n > out.len() || n == 0 {
        out
    } else {
        match edit.rewrite {
            Rewrite::Align { .. } => crate::bytes::overlay(
                out,
                to,
                pad(i, out.subrange(to, to + n)),
            ),
            Rewrite::Replace { word, .. } => if n <= 4 {
                crate::bytes::overlay(out, to, crate::bytes::spec_le32(word).take(n))
            } else {
                out
            },
            _ => out,
        }
    }
}

/// What [`copy`] writes with the edits from `i` on, when the bytes before
/// `from` are in `out` before `to`.
pub open spec fn copied_from(
    data: Seq<u8>,
    edits: Seq<Edit>,
    i: int,
    out: Seq<u8>,
    from: int,
    to: int,
    pad: spec_fn(int, Seq<u8>) -> Seq<u8>,
) -> Seq<u8>
    decreases edits.len() - i,
{
    if i < 0 || i >= edits.len() || edits[i].offset > usize::MAX {
        run_copied(out, data, from, data.len() as int, to)
    } else {
        let edit = edits[i];
        let at = edit.offset as int;
        if at < from {
            copied_from(data, edits, i + 1, out, from, to, pad)
        } else {
            let n = written_at(edit);
            let next = run_end(from, at, to);
            copied_from(
                data,
                edits,
                i + 1,
                replacement_put(run_copied(out, data, from, at, to), edit, i, next, pad),
                capped(capped(at + n) + edit.remove),
                capped(next + n),
                pad,
            )
        }
    }
}

/// Where [`copy`] puts what edit `k` writes, with the edits from `i` on, when
/// the bytes before `from` are in the output before `to`: nowhere where it
/// passes the edit over.
pub open spec fn place_of(edits: Seq<Edit>, i: int, from: int, to: int, k: int) -> Option<int>
    decreases edits.len() - i,
{
    if i < 0 || i >= edits.len() || edits[i].offset > usize::MAX {
        None
    } else {
        let at = edits[i].offset as int;
        let n = written_at(edits[i]);
        let next = run_end(from, at, to);
        if i == k {
            if at < from {
                None
            } else {
                Some(next)
            }
        } else if at < from {
            place_of(edits, i + 1, from, to, k)
        } else {
            place_of(
                edits,
                i + 1,
                capped(capped(at + n) + edits[i].remove),
                capped(next + n),
                k,
            )
        }
    }
}

/// The bytes of `out` that edit `k` has refilled, where it trims padding and
/// there is room for what stays of it.
pub open spec fn refilled(edits: Seq<Edit>, out: Seq<u8>, k: int) -> Option<Seq<u8>> {
    let n = written_at(edits[k]);
    match (edits[k].rewrite, place_of(edits, 0, 0, 0, k)) {
        (Rewrite::Align { .. }, Some(to)) => if n > 0 && to + n <= out.len() {
            Some(out.subrange(to, to + n))
        } else {
            None
        },
        _ => None,
    }
}

/// Copies a run of bytes, and says where the next byte goes.
fn copy_run(out: &mut [u8], data: &[u8], from: usize, until: usize, to: usize) -> (r: usize)
    ensures
        final(out)@ == run_copied(old(out)@, data@, from as int, until as int, to as int),
        r == run_end(from as int, until as int, to as int),
{
    let len: usize = until.saturating_sub(from);
    let end: usize = to.saturating_add(len);
    let room: usize = out.len();
    if from <= until && until <= data.len() && to <= room && len <= room - to {
        write_over(out, to, slice_subrange(data, from, until));
    }
    end
}

/// The bytes at an edit's place that are written rather than copied.
fn written_length(edit: Edit) -> (r: usize)
    ensures
        r == written_at(edit),
{
    match edit.rewrite {
        Rewrite::Align { addend } => if (edit.remove % 4 != 0 || addend % 4 != 0) && addend
            > edit.remove {
            (addend - edit.remove) as usize
        } else {
            0
        },
        Rewrite::Replace { len, .. } => len as usize,
        _ => 0,
    }
}

/// Lets `fill` work on the `n` bytes of `out` at `at`.
fn fill_at<F: Fn(&mut [u8])>(out: &mut [u8], at: usize, n: usize, fill: &F)
    requires
        at + n <= old(out)@.len(),
        forall|p: &mut [u8]| #[trigger] fill.requires((p,)),
        forall|p: &mut [u8]| #[trigger] fill.ensures((p,), ()) ==> final(p)@.len() == p@.len(),
    ensures
        exists|p: &mut [u8]| #[trigger]
            fill.ensures((p,), ()) && p@ == old(out)@.subrange(at as int, at + n) && final(p)@
                == final(out)@.subrange(at as int, at + n),
        final(out)@ == crate::bytes::overlay(
            old(out)@,
            at as int,
            final(out)@.subrange(at as int, at + n),
        ),
{
    let ghost before = out@;
    let (_, tail) = out.split_at_mut(at);
    let (padding, _) = tail.split_at_mut(n);
    assert(padding@ =~= before.subrange(at as int, at + n));
    fill(padding);
    assert(out@ =~= crate::bytes::overlay(before, at as int, out@.subrange(at as int, at + n)));
}

/// What takes the place of padding where edit `k` gives `pads[k]`.
spec fn given(pads: Seq<Seq<u8>>) -> spec_fn(int, Seq<u8>) -> Seq<u8> {
    |k: int, s: Seq<u8>|
        if 0 <= k < pads.len() && pads[k].len() == s.len() {
            pads[k]
        } else {
            s
        }
}

/// Copies `data` into `out` with the edits of `relax` applied: deleted
/// bytes are dropped, replaced instructions written, and trimmed alignment
/// padding refilled by `fill` (with the architecture's no-ops) when the trim
/// does not remove whole 4-byte no-ops.
#[verifier::rlimit(40)]
pub fn copy<F: Fn(&mut [u8])>(data: &[u8], relax: &SectionRelax, out: &mut [u8], fill: F)
    requires
        forall|p: &mut [u8]| #[trigger] fill.requires((p,)),
        forall|p: &mut [u8]| #[trigger] fill.ensures((p,), ()) ==> final(p)@.len() == p@.len(),
    ensures
        exists|pad: spec_fn(int, Seq<u8>) -> Seq<u8>|
            keeps_lengths(pad) && final(out)@ == #[trigger] copied_from(
                data@,
                relax.edits@,
                0,
                old(out)@,
                0,
                0,
                pad,
            ) && (forall|k: int|
                0 <= k < relax.edits@.len() ==> (#[trigger] refilled(
                    relax.edits@,
                    old(out)@,
                    k,
                ) matches Some(before) ==> exists|p: &mut [u8]| #[trigger]
                    fill.ensures((p,), ()) && p@ == before && final(p)@ == pad(k, before))),
{
    let mut from: usize = 0;
    let mut to: usize = 0;
    let mut i: usize = 0;
    let ghost start = out@;
    let ghost edits = relax.edits@;
    let ghost mut pads: Seq<Seq<u8>> = Seq::empty();
    while i < relax.edits.len() && relax.edits[i].offset <= usize::MAX as u64
        invariant
            i <= relax.edits@.len(),
            edits == relax.edits@,
            start == old(out)@,
            out@.len() == start.len(),
            forall|p: &mut [u8]| #[trigger] fill.requires((p,)),
            forall|p: &mut [u8]| #[trigger] fill.ensures((p,), ()) ==> final(p)@.len() == p@.len(),
            forall|j: int| to <= j < out@.len() ==> #[trigger] out@[j] == start[j],
            forall|k: int|
                i <= k < edits.len() ==> #[trigger] place_of(edits, 0, 0, 0, k) == place_of(
                    edits,
                    i as int,
                    from as int,
                    to as int,
                    k,
                ),
            pads.len() == i,
            forall|more: Seq<Seq<u8>>|
                i <= more.len() && more.take(i as int) == pads ==> copied_from(
                    data@,
                    edits,
                    i as int,
                    out@,
                    from as int,
                    to as int,
                    given(more),
                ) == #[trigger] copied_from(data@, edits, 0, start, 0, 0, given(more)),
            forall|k: int|
                0 <= k < i ==> (#[trigger] refilled(edits, start, k) matches Some(before) ==> exists|
                    p: &mut [u8],
                | #[trigger]
                    fill.ensures((p,), ()) && p@ == before && final(p)@ == pads[k]),
        decreases relax.edits@.len() - i,
    {
        let edit: Edit = relax.edits[i];
        let at: usize = edit.offset as usize;
        let ghost before = out@;
        let ghost here = from;
        let ghost place = to;
        let ghost mut given_here: Seq<u8> = Seq::empty();
        if at >= from {
            let n: usize = written_length(edit);
            let next: usize = copy_run(out, data, from, at, to);
            let ghost run = out@;
            assert(run.len() == start.len());
            let room: usize = out.len();
            if n > 0 && next <= room && n <= room - next {
                match edit.rewrite {
                    Rewrite::Align { .. } => {
                        fill_at(out, next, n, &fill);
                        proof {
                            given_here = out@.subrange(next as int, next + n);
                            assert(run.subrange(next as int, next + n) =~= start.subrange(
                                next as int,
                                next + n,
                            ));
                            assert(refilled(edits, start, i as int) == Some(
                                start.subrange(next as int, next + n),
                            ));
                        }
                    },
                    Rewrite::Replace { word, .. } => {
                        if n <= 4 {
                            let bytes: [u8; 4] = le32(word);
                            write_over(out, next, slice_subrange(&bytes, 0, n));
                            assert(bytes@.subrange(0, n as int) =~= crate::bytes::spec_le32(
                                word,
                            ).take(n as int));
                        }
                    },
                    _ => {},
                }
            }
            to = next.saturating_add(n);
            from = at.saturating_add(n).saturating_add(edit.remove as usize);
            proof {
                assert forall|more: Seq<Seq<u8>>|
                    i < more.len() && more[i as int] == given_here implies replacement_put(
                    run,
                    edit,
                    i as int,
                    next as int,
                    #[trigger] given(more),
                ) == out@ by {}
            }
        }
        proof {
            let earlier = pads;
            pads = pads.push(given_here);
            assert forall|more: Seq<Seq<u8>>|
                i + 1 <= more.len() && more.take(i + 1) == pads implies copied_from(
                data@,
                edits,
                i + 1,
                out@,
                from as int,
                to as int,
                given(more),
            ) == #[trigger] copied_from(data@, edits, 0, start, 0, 0, given(more)) by {
                assert(more.take(i as int) =~= earlier) by {
                    assert(more.take(i as int) =~= more.take(i + 1).take(i as int));
                }
                assert(more.take(i + 1)[i as int] == more[i as int]);
                assert(copied_from(
                    data@,
                    edits,
                    i as int,
                    before,
                    here as int,
                    place as int,
                    given(more),
                ) == copied_from(
                    data@,
                    edits,
                    i + 1,
                    out@,
                    from as int,
                    to as int,
                    given(more),
                ));
            }
        }
        i += 1;
    }
    copy_run(out, data, from, data.len(), to);
    proof {
        assert(pads.take(i as int) =~= pads);
        let pad = given(pads);
        assert(out@ == copied_from(data@, edits, 0, start, 0, 0, pad));
        assert forall|k: int| 0 <= k < edits.len() implies (#[trigger] refilled(
            edits,
            start,
            k,
        ) matches Some(before) ==> exists|p: &mut [u8]| #[trigger]
            fill.ensures((p,), ()) && p@ == before && final(p)@ == pad(k, before)) by {
            if k >= i {
                assert(place_of(edits, 0, 0, 0, k) is None);
            }
        }
    }
}

/// How padding is refilled decides what is copied: two ways that agree on
/// the padding that is refilled give the same.
proof fn same_paddings_give_the_same(
    data: Seq<u8>,
    edits: Seq<Edit>,
    i: int,
    start: Seq<u8>,
    out: Seq<u8>,
    from: int,
    to: int,
    a: spec_fn(int, Seq<u8>) -> Seq<u8>,
    b: spec_fn(int, Seq<u8>) -> Seq<u8>,
)
    requires
        0 <= i,
        0 <= from,
        0 <= to <= usize::MAX,
        out.len() == start.len() <= usize::MAX,
        keeps_lengths(a),
        forall|j: int| to <= j < out.len() ==> #[trigger] out[j] == start[j],
        forall|k: int|
            i <= k < edits.len() ==> #[trigger] place_of(edits, 0, 0, 0, k) == place_of(
                edits,
                i,
                from,
                to,
                k,
            ),
        forall|k: int|
            0 <= k < edits.len() ==> (#[trigger] refilled(edits, start, k) matches Some(before)
                ==> a(k, before) == b(k, before)),
    ensures
        copied_from(data, edits, i, out, from, to, a) == copied_from(
            data,
            edits,
            i,
            out,
            from,
            to,
            b,
        ),
    decreases edits.len() - i,
{
    if i < edits.len() && edits[i].offset <= usize::MAX {
        let edit = edits[i];
        let at = edit.offset as int;
        if at < from {
            same_paddings_give_the_same(data, edits, i + 1, start, out, from, to, a, b);
        } else {
            let n = written_at(edit);
            let next = run_end(from, at, to);
            let run = run_copied(out, data, from, at, to);
            let put = replacement_put(run, edit, i, next, a);
            assert(place_of(edits, 0, 0, 0, i) == Some(next));
            if edit.rewrite is Align && n > 0 && next + n <= out.len() {
                assert(run.subrange(next, next + n) =~= start.subrange(next, next + n));
                assert(refilled(edits, start, i) == Some(start.subrange(next, next + n)));
            }
            assert(put == replacement_put(run, edit, i, next, b));
            same_paddings_give_the_same(
                data,
                edits,
                i + 1,
                start,
                put,
                capped(capped(at + n) + edit.remove),
                capped(next + n),
                a,
                b,
            );
        }
    }
}

/// What is copied depends on how padding is refilled only through the
/// padding that is refilled.
pub proof fn paddings_decide_the_copy(
    data: Seq<u8>,
    edits: Seq<Edit>,
    out: Seq<u8>,
    a: spec_fn(int, Seq<u8>) -> Seq<u8>,
    b: spec_fn(int, Seq<u8>) -> Seq<u8>,
)
    requires
        out.len() <= usize::MAX,
        keeps_lengths(a),
        forall|k: int|
            0 <= k < edits.len() ==> (#[trigger] refilled(edits, out, k) matches Some(before)
                ==> a(k, before) == b(k, before)),
    ensures
        copied_from(data, edits, 0, out, 0, 0, a) == copied_from(data, edits, 0, out, 0, 0, b),
{
    same_paddings_give_the_same(data, edits, 0, out, out, 0, 0, a, b);
}

/// A section relaxation looks at.
#[derive(Clone, Copy, Debug, PartialEq, Eq, Structural)]
pub struct Candidate {
    /// The section.
    pub id: SectionId,
    /// Its file.
    pub file: usize,
    /// Its index in the file.
    pub section: u32,
}

/// Whether a section may be relaxed.
pub open spec fn may_relax(refs: Refs, f: int, i: int, section: InputSection) -> bool {
    section.relocs != 0 && is_code(section.header.sh_flags) && section.kind
        == SectionKind::Regular && section.header.sh_type != SHT_NOBITS
        && refs.sections.spec_is_live_in(f, i)
}

/// The sections from `i` on of an object that may be relaxed.
pub open spec fn object_candidates(refs: Refs, f: usize, object: ObjectInput, i: int) -> Seq<
    Candidate,
>
    decreases object.sections@.len() - i,
{
    if i < 0 || i >= object.sections@.len() || i > u32::MAX {
        Seq::empty()
    } else {
        let rest = object_candidates(refs, f, object, i + 1);
        match refs.sections.spec_id(f as int, i) {
            Some(id) => if may_relax(refs, f as int, i, object.sections@[i]) {
                seq![Candidate { id, file: f, section: i as u32 }] + rest
            } else {
                rest
            },
            None => rest,
        }
    }
}

/// The sections of a file that may be relaxed.
pub open spec fn file_candidates(refs: Refs, f: usize) -> Seq<Candidate> {
    if f < refs.files@.len() {
        match refs.files@[f as int].object {
            Some(object) => object_candidates(refs, f, object, 0),
            None => Seq::empty(),
        }
    } else {
        Seq::empty()
    }
}

/// The sections of the first `n` files that may be relaxed.
pub open spec fn candidates_of(refs: Refs, n: int) -> Seq<Candidate>
    decreases n,
{
    if n <= 0 {
        Seq::empty()
    } else {
        candidates_of(refs, n - 1) + file_candidates(refs, (n - 1) as usize)
    }
}

/// The sections of a file that may be relaxed.
fn candidates_in(refs: &Refs, f: usize) -> (r: Vec<Candidate>)
    ensures
        r@ == file_candidates(*refs, f),
{
    let mut found: Vec<Candidate> = Vec::new();
    if f >= refs.files.len() {
        return found;
    }
    let Some(object) = &refs.files[f].object else {
        return found;
    };
    let mut i: usize = 0;
    assert(found@ + object_candidates(*refs, f, *object, 0) =~= object_candidates(
        *refs,
        f,
        *object,
        0,
    ));
    while i < object.sections.len() && i <= u32::MAX as usize
        invariant
            i <= object.sections@.len(),
            object_candidates(*refs, f, *object, 0) == found@ + object_candidates(
                *refs,
                f,
                *object,
                i as int,
            ),
        decreases object.sections@.len() - i,
    {
        let section: &InputSection = &object.sections[i];
        let at: u32 = i as u32;
        if section.relocs != 0 && is_code(section.header.sh_flags) && section.kind
            == SectionKind::Regular && section.header.sh_type != SHT_NOBITS
            && refs.sections.is_live_in(f, at) {
            if let Some(id) = refs.sections.id(f, at) {
                let ghost before = found@;
                let candidate: Candidate = Candidate { id, file: f, section: at };
                found.push(candidate);
                proof {
                    let rest = object_candidates(*refs, f, *object, i + 1);
                    assert(before + (seq![candidate] + rest) =~= found@ + rest);
                }
            }
        }
        i += 1;
    }
    assert(found@ + object_candidates(*refs, f, *object, i as int) =~= found@);
    found
}

/// The live code sections with relocations, in input order.
pub fn candidates(refs: &Refs) -> (r: Vec<Candidate>)
    ensures
        r@ == candidates_of(*refs, refs.files@.len() as int),
{
    let files: Vec<usize> = numbers(refs.files.len());
    let find = |f: &usize| -> (list: Vec<Candidate>)
        ensures
            list@ == file_candidates(*refs, *f),
        { candidates_in(refs, *f) };
    let lists: Vec<Vec<Candidate>> = map_all(&files, find);
    let mut out: Vec<Candidate> = Vec::new();
    let mut n: usize = 0;
    while n < lists.len()
        invariant
            n <= lists@.len(),
            lists@.len() == refs.files@.len(),
            forall|k: int|
                0 <= k < lists@.len() ==> (#[trigger] lists@[k])@ == file_candidates(
                    *refs,
                    k as usize,
                ),
            out@ == candidates_of(*refs, n as int),
        decreases lists@.len() - n,
    {
        let list: &Vec<Candidate> = &lists[n];
        let ghost before = out@;
        let mut i: usize = 0;
        while i < list.len()
            invariant
                i <= list@.len(),
                out@ == before + list@.take(i as int),
            decreases list@.len() - i,
        {
            out.push(list[i]);
            i += 1;
            assert(out@ =~= before + list@.take(i as int));
        }
        assert(list@.take(i as int) =~= list@);
        n += 1;
    }
    out
}

/// Where a relocation's target is, in a form that stays valid across
/// passes.
#[derive(Clone, Copy, Debug, PartialEq, Eq, Structural)]
pub enum Place {
    /// Not known before the write (commons, linker-defined and shared
    /// symbols without a PLT entry).
    Unknown,
    /// A fixed address.
    Absolute(u64),
    /// Offset `value` of live regular section `id`, plus `addend`: moves
    /// with the section's relaxation edits.
    Section {
        /// The section.
        id: SectionId,
        /// The offset in it.
        value: u64,
        /// What is added.
        addend: i64,
    },
    /// Anywhere else in a section (merged, folded): looked up in full.
    Offset {
        /// The file.
        file: usize,
        /// The section.
        section: u32,
        /// The offset in it.
        value: u64,
        /// What is added.
        addend: i64,
    },
    /// A PLT entry.
    Plt {
        /// Whose.
        owner: Owner,
        /// What is added.
        addend: i64,
    },
    /// An IFUNC stub.
    Iplt {
        /// Whose.
        owner: Owner,
        /// What is added.
        addend: i64,
    },
}

/// What the architecture's decisions can look up in one pass.
#[derive(Clone, Copy, Debug)]
pub struct Pass<'a> {
    /// What the link refers to.
    pub refs: &'a Refs,
    /// The layout of this pass; symbol values follow the edits it was laid
    /// out with.
    pub layout: &'a Layout,
    /// The architecture.
    pub arch: Arch,
    /// `--relax`: relaxation marks may be acted on. Alignment is honored
    /// either way.
    pub relax: bool,
    /// The thread pointer, when there is a TLS segment.
    pub tp: Option<u64>,
    /// A global pointer register's value the architecture may relax
    /// accesses against.
    pub gp: Option<u64>,
    /// The edits this pass's layout was computed with.
    pub previous: &'a Relaxation,
    /// The pass number, from 0.
    pub pass: u32,
}

/// Where a defined symbol plus `addend` is.
pub open spec fn spec_resolve_def(refs: Refs, target: Target, addend: i64) -> Place {
    match target.def {
        Def::Section { file, section, value } => {
            let kind = refs.spec_kind_in(file as int, section as int);
            let id = refs.sections.spec_id(file as int, section as int);
            if kind == Some(SectionKind::Merge) && target.is_section_symbol() {
                match crate::bits::offset_by(value, addend) {
                    Some(offset) => Place::Offset { file, section, value: offset, addend: 0 },
                    None => Place::Unknown,
                }
            } else if kind == Some(SectionKind::Regular) && id is Some
                && refs.sections.spec_is_live(id->0) {
                match (target.is_section_symbol(), crate::bits::offset_by(value, addend)) {
                    (true, Some(offset)) => Place::Section { id: id->0, value: offset, addend: 0 },
                    _ => Place::Section { id: id->0, value, addend },
                }
            } else {
                Place::Offset { file, section, value, addend }
            }
        },
        Def::Absolute(value) => Place::Absolute(value.wrapping_add_signed(addend)),
        Def::Undefined { weak } => if weak {
            Place::Absolute(addend as u64)
        } else {
            Place::Unknown
        },
        _ => Place::Unknown,
    }
}

/// Where a defined symbol plus `addend` is. A section symbol's offset into
/// relaxed code moves with the code, as a label does.
fn resolve_def(refs: &Refs, target: Target, addend: i64) -> (r: Place)
    ensures
        r == spec_resolve_def(*refs, target, addend),
{
    match target.def {
        Def::Section { file, section, value } => {
            let kind: Option<SectionKind> = refs.kind_in(file, section);
            let offset: Option<u64> = checked_offset(value, addend);
            if let Some(k) = kind {
                if k == SectionKind::Merge && target.is_section_symbol() {
                    return match offset {
                        Some(o) => Place::Offset { file, section, value: o, addend: 0 },
                        None => Place::Unknown,
                    };
                }
                if k == SectionKind::Regular {
                    if let Some(id) = refs.sections.id(file, section) {
                        if refs.sections.is_live(id) {
                            if target.is_section_symbol() {
                                if let Some(o) = offset {
                                    return Place::Section { id, value: o, addend: 0 };
                                }
                            }
                            return Place::Section { id, value, addend };
                        }
                    }
                }
            }
            Place::Offset { file, section, value, addend }
        },
        Def::Absolute(value) => Place::Absolute(value.wrapping_add_signed(addend)),
        Def::Undefined { weak } => if weak {
            Place::Absolute(addend as u64)
        } else {
            Place::Unknown
        },
        _ => Place::Unknown,
    }
}

impl<'a> Pass<'a> {
    /// Where relocation target `symbol` of `file` plus `addend` is.
    pub open spec fn spec_resolve(
        self,
        file: usize,
        symbol: u32,
        addend: i64,
        branch: bool,
    ) -> Place {
        match self.refs.spec_target(file as int, symbol as int) {
            None => Place::Unknown,
            Some(target) => {
                let owner = Owner::of(target.global, file, symbol);
                if branch && target.is_ifunc() && crate::elf::layout::entry_of(
                    self.layout.iplt@,
                    owner,
                    0,
                ) is Some {
                    Place::Iplt { owner, addend }
                } else if branch && self.refs.flags_of(target).contains(NEEDS_PLT | PREEMPTIBLE)
                    && crate::elf::layout::entry_of(self.layout.plt@, owner, 0) is Some {
                    Place::Plt { owner, addend }
                } else {
                    spec_resolve_def(*self.refs, target, addend)
                }
            },
        }
    }

    /// Where relocation target `symbol` of `file` (plus `addend`) is, in a
    /// form that stays valid across passes: through its PLT entry or IFUNC
    /// stub when `branch` says the relocation is a call.
    pub fn resolve(&self, file: usize, symbol: u32, addend: i64, branch: bool) -> (r: Place)
        ensures
            r == self.spec_resolve(file, symbol, addend, branch),
    {
        let Some(target) = self.refs.target(file, symbol) else {
            return Place::Unknown;
        };
        let owner: Owner = Owner::of(target.global, file, symbol);
        if branch {
            if target.is_ifunc() && find_entry(&self.layout.iplt, owner).is_some() {
                return Place::Iplt { owner, addend };
            }
            if self.refs.target_flags(target).contains(NEEDS_PLT | PREEMPTIBLE) && find_entry(
                &self.layout.plt,
                owner,
            ).is_some() {
                return Place::Plt { owner, addend };
            }
        }
        resolve_def(self.refs, target, addend)
    }

    /// The address of `place` in this pass's layout.
    pub open spec fn spec_address(self, place: Place) -> Option<u64> {
        match place {
            Place::Unknown => None,
            Place::Absolute(value) => Some(value),
            Place::Section { id, value, addend } => match (
                self.layout.position_of(id),
                self.layout.spec_address(id),
            ) {
                (Some(_), Some(base)) => Some(
                    base.wrapping_add(self.previous.spec_map(id, value)).wrapping_add_signed(
                        addend,
                    ),
                ),
                _ => None,
            },
            Place::Offset { file, section, value, addend } => match self.layout.offset_from(
                (file, section, value),
                0,
            ) {
                Some(address) => Some(address.wrapping_add_signed(addend)),
                None => None,
            },
            Place::Plt { owner, addend } => match crate::elf::layout::entry_of(
                self.layout.plt@,
                owner,
                0,
            ) {
                Some(address) => Some(address.wrapping_add_signed(addend)),
                None => None,
            },
            Place::Iplt { owner, addend } => match crate::elf::layout::entry_of(
                self.layout.iplt@,
                owner,
                0,
            ) {
                Some(address) => Some(address.wrapping_add_signed(addend)),
                None => None,
            },
        }
    }

    /// The address of `place` in this pass's layout; `None` when it is not
    /// known yet: such relocations are not relaxed.
    pub fn address(&self, place: Place) -> (r: Option<u64>)
        requires
            self.previous.valid(),
        ensures
            r == self.spec_address(place),
    {
        let (found, addend) = match place {
            Place::Unknown => {
                return None;
            },
            Place::Absolute(value) => {
                return Some(value);
            },
            Place::Section { id, value, addend } => {
                let address: Option<u64> = match (
                    self.layout.find_position(id),
                    self.layout.address(id),
                ) {
                    (Some(_), Some(base)) => Some(base.wrapping_add(self.previous.map(id, value))),
                    _ => None,
                };
                (address, addend)
            },
            Place::Offset { file, section, value, addend } => (
                self.layout.section_offset_address(file, section, value),
                addend,
            ),
            Place::Plt { owner, addend } => (find_entry(&self.layout.plt, owner), addend),
            Place::Iplt { owner, addend } => (find_entry(&self.layout.iplt, owner), addend),
        };
        match found {
            Some(address) => Some(address.wrapping_add_signed(addend)),
            None => None,
        }
    }

    /// `S + A` of a relocation in this pass.
    pub open spec fn spec_target(
        self,
        file: usize,
        symbol: u32,
        addend: i64,
        branch: bool,
    ) -> Option<u64> {
        self.spec_address(self.spec_resolve(file, symbol, addend, branch))
    }

    /// `S + A` of a relocation in this pass, through its PLT entry or IFUNC
    /// stub when `branch` says it is a call. `None` when the address is not
    /// known (such relocations are not relaxed).
    pub fn target(&self, file: usize, symbol: u32, addend: i64, branch: bool) -> (r: Option<u64>)
        requires
            self.previous.valid(),
        ensures
            r == self.spec_target(file, symbol, addend, branch),
    {
        let place: Place = self.resolve(file, symbol, addend, branch);
        self.address(place)
    }

    /// How a TLS access to `symbol` of `file` is linked.
    pub open spec fn spec_tls_mode(self, file: usize, symbol: u32) -> TlsMode {
        match self.refs.spec_target(file as int, symbol as int) {
            Some(target) => target.tls,
            None => TlsMode::Dynamic,
        }
    }

    /// How a TLS access to `symbol` of `file` is linked.
    pub fn tls_mode(&self, file: usize, symbol: u32) -> (r: TlsMode)
        ensures
            r == self.spec_tls_mode(file, symbol),
    {
        match self.refs.target(file, symbol) {
            Some(target) => target.tls,
            None => TlsMode::Dynamic,
        }
    }

    /// The edit the previous pass made for relocation `seq` of section `id`.
    pub open spec fn spec_previous_edit(self, id: SectionId, seq: u32) -> Option<Edit> {
        match self.previous.spec_section(id) {
            Some(section) => edit_at(section.edits@, seq, 0),
            None => None,
        }
    }

    /// The edit the previous pass made for relocation `seq` of section `id`.
    pub fn previous_edit(&self, id: SectionId, seq: u32) -> (r: Option<Edit>)
        requires
            self.previous.valid(),
        ensures
            r == self.spec_previous_edit(id, seq),
    {
        match self.previous.section(id) {
            Some(section) => section.edit(seq),
            None => None,
        }
    }
}

/// One code section, prepared for the architecture's decisions.
#[derive(Debug)]
pub struct SectionInput<'a> {
    /// The section.
    pub id: SectionId,
    /// Its file, by index.
    pub file: usize,
    /// The name messages give its file.
    pub name: &'a str,
    /// The ELF flags of its file.
    pub e_flags: u32,
    /// Where its contents are in the file.
    pub sh_offset: u64,
    /// Its contents.
    pub data: &'a [u8],
    /// Its relocations in processing order.
    pub relocs: Vec<Relocation>,
    /// Their index in the table, by position, when the table was not
    /// sorted.
    pub order: Option<Vec<u32>>,
}

impl<'a> SectionInput<'a> {
    /// Whether the relocations are in processing order.
    pub open spec fn valid(self) -> bool {
        forall|i: int, j: int|
            0 <= i < j < self.relocs@.len() ==> (#[trigger] self.relocs@[i]).offset <= (
            #[trigger] self.relocs@[j]).offset
    }

    /// The table index of the relocation at position `seq`.
    pub open spec fn spec_index_of(self, seq: u32) -> u32 {
        match self.order {
            Some(order) => if seq < order@.len() {
                order@[seq as int]
            } else {
                seq
            },
            None => seq,
        }
    }

    /// The table index of the relocation at position `seq`.
    pub fn index_of(&self, seq: u32) -> (r: u32)
        ensures
            r == self.spec_index_of(seq),
    {
        if let Some(order) = &self.order {
            let n: usize = order.len();
            if (seq as u64) < n as u64 {
                return order[seq as usize];
            }
        }
        seq
    }

    /// An error about malformed input at `offset` of the section.
    pub fn malformed(&self, offset: u64, what: String) -> (r: Error)
        ensures
            match r {
                Error::Malformed { file, offset: at, what: w } => file@ == self.name@ && at
                    == crate::elf::arch::thunk::saturated(self.sh_offset, offset) && w == what,
                _ => false,
            },
    {
        Error::Malformed {
            file: self.name.to_owned(),
            offset: self.sh_offset.saturating_add(offset),
            what,
        }
    }
}

/// The edits of a section as the architecture decides them, in processing
/// order.
#[derive(Debug)]
pub struct Edits {
    /// The edits so far.
    pub edits: Vec<Edit>,
    /// The bytes they delete.
    pub delta: u64,
}

impl Default for Edits {
    fn default() -> (r: Edits)
        ensures
            r.edits@.len() == 0,
            r.delta == 0,
    {
        Edits { edits: Vec::new(), delta: 0 }
    }
}

/// Edits with one more.
pub open spec fn edit_added(
    edits: Seq<Edit>,
    delta: u64,
    section: SectionInput,
    seq: u32,
    offset: u64,
    remove: u32,
    rewrite: Rewrite,
) -> Seq<Edit> {
    edits.push(
        Edit {
            seq,
            index: section.spec_index_of(seq),
            offset,
            remove,
            delta: crate::elf::arch::thunk::saturated(delta, remove as u64),
            rewrite,
        },
    )
}

impl Edits {
    /// Bytes deleted so far in this pass: the relocation at `offset` is at
    /// `section address + offset - delta` once they are gone.
    pub fn delta(&self) -> (r: u64)
        ensures
            r == self.delta,
    {
        self.delta
    }

    /// Records the edit of the relocation at position `seq`.
    pub fn push(
        &mut self,
        section: &SectionInput,
        seq: u32,
        offset: u64,
        remove: u32,
        rewrite: Rewrite,
    )
        ensures
            final(self).edits@ == edit_added(
                old(self).edits@,
                old(self).delta,
                *section,
                seq,
                offset,
                remove,
                rewrite,
            ),
            final(self).delta == crate::elf::arch::thunk::saturated(
                old(self).delta,
                remove as u64,
            ),
    {
        self.delta = self.delta.saturating_add(remove as u64);
        self.edits.push(
            Edit {
                seq,
                index: section.index_of(seq),
                offset,
                remove,
                delta: self.delta,
                rewrite,
            },
        );
    }
}

/// Whether `arch` relaxes with section shrinking, so layout goes through
/// [`layout`].
#[verifier::allow_in_spec]
pub fn applies(arch: Arch) -> bool
    returns
        arch == Arch::RiscV64,
{
    arch == Arch::RiscV64
}

/// The type `--emit-relocs` gives the relocation of a deleted instruction.
#[verifier::allow_in_spec]
pub fn deleted_type(arch: Arch) -> u32
    returns
        (match arch {
            Arch::RiscV64 => R_RISCV_RELAX,
            _ => 0u32,
        }),
{
    match arch {
        Arch::RiscV64 => R_RISCV_RELAX,
        _ => 0u32,
    }
}

/// The section a candidate is.
pub open spec fn candidate_section(refs: Refs, c: Candidate) -> Option<InputSection> {
    if c.file < refs.files@.len() {
        match refs.files@[c.file as int].object {
            Some(object) => object.spec_section(c.section as int),
            None => None,
        }
    } else {
        None
    }
}

/// Whether preparing a candidate gave what it should: nothing where it is
/// no section with addends, an error where it cannot be read, otherwise its
/// contents and its relocations in processing order.
pub open spec fn is_prepared(
    refs: Refs,
    c: Candidate,
    r: Result<Option<SectionInput>, Error>,
) -> bool {
    match candidate_section(refs, c) {
        None => r matches Ok(None),
        Some(section) => match section.relocations {
            RelocTable::Missing => r matches Ok(None),
            RelocTable::Malformed { offset, what } => match r {
                Err(Error::Malformed { file, offset: at, what: w }) => file@
                    == refs.files@[c.file as int].name@ && at == offset && w@ == what@,
                _ => false,
            },
            RelocTable::Rel(_) => r matches Ok(None),
            RelocTable::Rela(relocs) => match section.contents {
                None => match r {
                    Err(Error::Malformed { file, offset: at, what }) => file@
                        == refs.files@[c.file as int].name@ && at == section.header.sh_offset
                        && what@ == "section contents"@,
                    _ => false,
                },
                Some(data) => match r {
                    Ok(Some(input)) => {
                        &&& input.id == c.id
                        &&& input.file == c.file
                        &&& input.name@ == refs.files@[c.file as int].name@
                        &&& input.e_flags == refs.files@[c.file as int].object->0.e_flags
                        &&& input.sh_offset == section.header.sh_offset
                        &&& input.data@ == data@
                        &&& is_ordered(relocs@, input.relocs@, input.order is None)
                        &&& input.order matches Some(order) ==> is_processing_order(
                            offsets_of(relocs@),
                            order@,
                        ) && input.relocs@ == arranged(relocs@, order@)
                        &&& input.valid()
                    },
                    _ => false,
                },
            },
        },
    }
}

/// In processing order, no offset is below an earlier one.
pub proof fn processing_orders_sort(offsets: Seq<u64>, order: Seq<u32>)
    requires
        is_processing_order(offsets, order),
    ensures
        forall|i: int, j: int|
            0 <= i < j < order.len() ==> offsets[#[trigger] order[i] as int]
                <= offsets[#[trigger] order[j] as int],
{
    let stable = choose|stable: Seq<usize>| #[trigger]
        crate::order::is_stable_order(offset_keys(offsets), stable) && order == Seq::new(
            stable.len(),
            |i: int| stable[i] as u32,
        );
    assert forall|i: int, j: int| 0 <= i < j < order.len() implies offsets[
        #[trigger] order[i] as int
    ] <= offsets[#[trigger] order[j] as int] by {
        assert(stable[i] < offset_keys(offsets).len());
        assert(stable[j] < offset_keys(offsets).len());
        assert(crate::order::key_before(
            offset_keys(offsets),
            stable[i] as int,
            stable[j] as int,
        ));
    }
}

/// Copies a list of relocations.
fn copy_relocations(list: &Vec<Relocation>) -> (r: Vec<Relocation>)
    ensures
        r@ == list@,
{
    let mut out: Vec<Relocation> = Vec::new();
    let mut i: usize = 0;
    while i < list.len()
        invariant
            i <= list@.len(),
            out@ == list@.take(i as int),
        decreases list@.len() - i,
    {
        out.push(list[i]);
        i += 1;
        assert(out@ =~= list@.take(i as int));
    }
    assert(out@ =~= list@);
    out
}

/// Reads candidate section `c` for the passes: its relocations in processing
/// order and its contents.
///
/// # Errors
///
/// [`Error::Malformed`] when they cannot be read.
pub fn prepare<'a>(refs: &'a Refs, c: Candidate) -> (r: Result<Option<SectionInput<'a>>, Error>)
    ensures
        is_prepared(*refs, c, r),
{
    if c.file >= refs.files.len() {
        return Ok(None);
    }
    let name: &'a str = refs.files[c.file].name.as_str();
    let Some(object) = &refs.files[c.file].object else {
        return Ok(None);
    };
    let Some(section) = object.section(c.section) else {
        return Ok(None);
    };
    match &section.relocations {
        RelocTable::Missing => Ok(None),
        RelocTable::Malformed { offset, what } => Err(
            Error::Malformed { file: name.to_owned(), offset: *offset, what: what.clone() },
        ),
        RelocTable::Rel(_) => Ok(None),
        RelocTable::Rela(list) => {
            let Some(data) = &section.contents else {
                return Err(
                    Error::Malformed {
                        file: name.to_owned(),
                        offset: section.header.sh_offset,
                        what: "section contents".to_owned(),
                    },
                );
            };
            let offsets: Vec<u64> = list_offsets(list);
            let order: Option<Vec<u32>> = sorted_order(&offsets);
            let relocs: Vec<Relocation> = match &order {
                Some(positions) => {
                    proof {
                        orders_name_positions(offsets@, positions@);
                        processing_orders_sort(offsets@, positions@);
                    }
                    arrange(list, positions)
                },
                None => copy_relocations(list),
            };
            proof {
                assert forall|i: int, j: int| 0 <= i < j < relocs@.len() implies (
                #[trigger] relocs@[i]).offset <= (#[trigger] relocs@[j]).offset by {
                    match order {
                        Some(positions) => {
                            assert(offsets@[positions@[i] as int] <= offsets@[positions@[j] as int]);
                        },
                        None => {
                            assert(offsets@[i] <= offsets@[j]);
                        },
                    }
                }
            }
            Ok(
                Some(
                    SectionInput {
                        id: c.id,
                        file: c.file,
                        name,
                        e_flags: object.e_flags,
                        sh_offset: section.header.sh_offset,
                        data: data.as_slice(),
                        relocs,
                        order,
                    },
                ),
            )
        },
    }
}

/// The architecture's decisions of one section at `address`.
pub open spec fn spec_decide(pass: Pass, section: SectionInput, address: u64) -> Result<
    Seq<Edit>,
    (u64, Seq<char>),
> {
    match pass.arch {
        Arch::RiscV64 => relax::spec_decide(pass, section, address),
        _ => Ok(Seq::empty()),
    }
}

/// The architecture's edits of one section at `address`.
///
/// # Errors
///
/// Those of the architecture.
pub fn decide(pass: &Pass, section: &SectionInput, address: u64) -> (r: Result<Edits, Error>)
    requires
        pass.previous.valid(),
    ensures
        relax::agrees(r, *section, spec_decide(*pass, *section, address)),
        r matches Ok(edits) ==> deltas_count(edits.edits@) && (section.valid() ==> in_order(
            edits.edits@,
        )),
{
    match pass.arch {
        Arch::RiscV64 => relax::decide(pass, section, address),
        _ => {
            let none: Edits = Edits::default();
            assert(none.edits@ =~= Seq::<Edit>::empty());
            Ok(none)
        },
    }
}

/// Whether a result is what a pass decides of a section: nothing where it is
/// not in the output or has no edit.
pub open spec fn is_relaxed(
    pass: Pass,
    section: SectionInput,
    r: Result<Option<SectionRelax>, Error>,
) -> bool {
    if pass.layout.position_of(section.id) is None {
        r matches Ok(None)
    } else {
        let address = match pass.layout.spec_address(section.id) {
            Some(address) => address,
            None => 0,
        };
        match (spec_decide(pass, section, address), r) {
            (Ok(edits), Ok(None)) => edits.len() == 0,
            (Ok(edits), Ok(Some(relaxed))) => edits.len() > 0 && relaxed.id == section.id
                && relaxed.edits@ == edits && relaxed.sorted == (section.order is None)
                && deltas_count(edits) && (section.valid() ==> in_order(edits)),
            (Err((offset, what)), Err(error)) => relax::reports(error, section, offset, what),
            _ => false,
        }
    }
}

/// Decides the edits of one section.
///
/// # Errors
///
/// Those of the architecture.
pub fn relax_section(pass: &Pass, section: &SectionInput) -> (r: Result<
    Option<SectionRelax>,
    Error,
>)
    requires
        pass.previous.valid(),
    ensures
        is_relaxed(*pass, *section, r),
{
    if pass.layout.find_position(section.id).is_none() {
        return Ok(None);
    }
    let address: u64 = match pass.layout.address(section.id) {
        Some(address) => address,
        None => 0,
    };
    match decide(pass, section, address) {
        Ok(edits) => if edits.edits.len() == 0 {
            Ok(None)
        } else {
            Ok(
                Some(
                    SectionRelax {
                        id: section.id,
                        edits: edits.edits,
                        sorted: section.order.is_none(),
                    },
                ),
            )
        },
        Err(error) => Err(error),
    }
}

/// The pass that a layout makes.
pub open spec fn pass_of<'a>(input: LayoutInput<'a>, layout: &'a Layout, pass: u32) -> Pass<'a> {
    Pass {
        refs: input.refs,
        layout,
        arch: input.arch,
        relax: input.relax,
        tp: match layout.tls {
            Some(tls) => Some(tls.tp),
            None => None,
        },
        gp: match input.arch {
            Arch::RiscV64 => input.gp,
            _ => None,
        },
        previous: &layout.relax,
        pass,
    }
}

/// Whether `relaxed` lists the edits that a pass decides of the first `n`
/// sections, in order.
pub open spec fn all_relaxed(
    pass: Pass,
    sections: Seq<SectionInput>,
    n: int,
    relaxed: Seq<SectionRelax>,
) -> bool
    decreases n,
{
    if n <= 0 {
        relaxed.len() == 0
    } else {
        let r: Result<Option<SectionRelax>, Error> = Ok(None);
        ||| is_relaxed(pass, sections[n - 1], r) && all_relaxed(pass, sections, n - 1, relaxed)
        ||| relaxed.len() > 0 && is_relaxed(
            pass,
            sections[n - 1],
            Ok::<Option<SectionRelax>, Error>(Some(relaxed.last())),
        ) && all_relaxed(pass, sections, n - 1, relaxed.drop_last())
    }
}

/// Whether a state is the one a pass decides, or an error the first there
/// is.
pub open spec fn is_pass_result(
    input: LayoutInput,
    layout: Layout,
    sections: Seq<SectionInput>,
    pass: u32,
    r: Result<Relaxation, Error>,
) -> bool {
    let p = pass_of(input, &layout, pass);
    match r {
        Ok(state) => {
            &&& all_relaxed(p, sections, sections.len() as int, state.sections@)
            &&& state.valid()
            &&& state.sections@.len() > 0 ==> state.deleted_type == deleted_type(input.arch)
                && state.index@ == positions(
                input.refs.sections.places@.len(),
                state.sections@,
                state.sections@.len() as int,
            )
            &&& state.sections@.len() == 0 ==> state.is_unrelaxed()
        },
        Err(error) => exists|k: int, done: Seq<SectionRelax>|
            0 <= k < sections.len() && #[trigger] all_relaxed(p, sections, k, done) && is_relaxed(
                p,
                #[trigger] sections[k],
                Err::<Option<SectionRelax>, Error>(error),
            ),
    }
}

/// Decides every section's edits against `layout`, whose `relax` holds the
/// edits it was laid out with.
///
/// # Errors
///
/// The first of the architecture's.
pub fn relax_pass(
    input: &LayoutInput,
    layout: &Layout,
    sections: &Vec<SectionInput>,
    pass: u32,
) -> (r: Result<Relaxation, Error>)
    requires
        layout.relax.valid(),
        forall|i: int| 0 <= i < sections@.len() ==> (#[trigger] sections@[i]).valid(),
    ensures
        is_pass_result(*input, *layout, sections@, pass, r),
{
    let p: Pass = Pass {
        refs: input.refs,
        layout,
        arch: input.arch,
        relax: input.relax,
        tp: match layout.tls {
            Some(tls) => Some(tls.tp),
            None => None,
        },
        gp: match input.arch {
            Arch::RiscV64 => input.gp,
            _ => None,
        },
        previous: &layout.relax,
        pass,
    };
    let each = |section: &SectionInput| -> (one: Result<Option<SectionRelax>, Error>)
        ensures
            is_relaxed(p, *section, one),
        { relax_section(&p, section) };
    let results: Vec<Result<Option<SectionRelax>, Error>> = map_all(sections, each);
    let mut relaxed: Vec<SectionRelax> = Vec::new();
    let ghost all = results@;
    for one in it: results
        invariant
            it.seq() == all,
            all.len() == sections@.len(),
            p == pass_of(*input, layout, pass),
            forall|k: int| 0 <= k < all.len() ==> is_relaxed(p, sections@[k], #[trigger] all[k]),
            forall|i: int| 0 <= i < sections@.len() ==> (#[trigger] sections@[i]).valid(),
            all_relaxed(p, sections@, it.index(), relaxed@),
            forall|i: int| 0 <= i < relaxed@.len() ==> in_order((#[trigger] relaxed@[i]).edits@),
    {
        let ghost n = it.index();
        assert(one == all[n]);
        match one {
            Ok(Some(section)) => {
                let ghost before = relaxed@;
                relaxed.push(section);
                assert(relaxed@.drop_last() =~= before);
                assert(sections@[n].valid());
            },
            Ok(None) => {},
            Err(error) => {
                assert(all_relaxed(p, sections@, n, relaxed@));
                assert(is_relaxed(p, sections@[n], Err::<Option<SectionRelax>, Error>(error)));
                return Err(error);
            },
        }
    }
    Ok(Relaxation::new(input.refs.sections.len(), relaxed, deleted_type(input.arch)))
}

/// Whether `sections` lists what preparing the first `n` candidates gives,
/// in order.
pub open spec fn all_prepared(
    refs: Refs,
    candidates: Seq<Candidate>,
    n: int,
    sections: Seq<SectionInput>,
) -> bool
    decreases n,
{
    if n <= 0 {
        sections.len() == 0
    } else {
        ||| is_prepared(refs, candidates[n - 1], Ok::<Option<SectionInput>, Error>(None))
            && all_prepared(refs, candidates, n - 1, sections)
        ||| sections.len() > 0 && is_prepared(
            refs,
            candidates[n - 1],
            Ok::<Option<SectionInput>, Error>(Some(sections.last())),
        ) && all_prepared(refs, candidates, n - 1, sections.drop_last())
    }
}

/// Whether a candidate can be read for the passes.
pub open spec fn can_prepare(refs: Refs, c: Candidate) -> bool {
    match candidate_section(refs, c) {
        Some(section) => match section.relocations {
            RelocTable::Malformed { .. } => false,
            RelocTable::Rela(_) => section.contents is Some,
            _ => true,
        },
        None => true,
    }
}

/// The first candidate from `i` on that cannot be read.
pub open spec fn first_unreadable(refs: Refs, candidates: Seq<Candidate>, i: int) -> Option<int>
    decreases candidates.len() - i,
{
    if i < 0 || i >= candidates.len() {
        None
    } else if can_prepare(refs, candidates[i]) {
        first_unreadable(refs, candidates, i + 1)
    } else {
        Some(i)
    }
}

/// Prepares every candidate.
///
/// # Errors
///
/// That of the first candidate that cannot be read.
fn prepare_all<'a>(refs: &'a Refs, candidates: &Vec<Candidate>) -> (r: Result<
    Vec<SectionInput<'a>>,
    Error,
>)
    ensures
        match first_unreadable(*refs, candidates@, 0) {
            Some(k) => r matches Err(error) && is_prepared(
                *refs,
                candidates@[k],
                Err::<Option<SectionInput>, Error>(error),
            ),
            None => r matches Ok(sections) && all_prepared(
                *refs,
                candidates@,
                candidates@.len() as int,
                sections@,
            ) && (forall|i: int|
                0 <= i < sections@.len() ==> (#[trigger] sections@[i]).valid()),
        },
{
    let each = |c: &Candidate| -> (one: Result<Option<SectionInput<'a>>, Error>)
        ensures
            is_prepared(*refs, *c, one),
        { prepare(refs, *c) };
    let results: Vec<Result<Option<SectionInput<'a>>, Error>> = map_all(candidates, each);
    let mut sections: Vec<SectionInput<'a>> = Vec::new();
    let ghost all = results@;
    for one in it: results
        invariant
            it.seq() == all,
            all.len() == candidates@.len(),
            forall|k: int|
                0 <= k < all.len() ==> is_prepared(*refs, candidates@[k], #[trigger] all[k]),
            all_prepared(*refs, candidates@, it.index(), sections@),
            first_unreadable(*refs, candidates@, 0) == first_unreadable(
                *refs,
                candidates@,
                it.index(),
            ),
            forall|i: int| 0 <= i < sections@.len() ==> (#[trigger] sections@[i]).valid(),
    {
        let ghost n = it.index();
        assert(one == all[n]);
        match one {
            Ok(Some(section)) => {
                let ghost before = sections@;
                sections.push(section);
                assert(sections@.drop_last() =~= before);
            },
            Ok(None) => {},
            Err(error) => {
                return Err(error);
            },
        }
    }
    Ok(sections)
}

/// Whether `states` and `laid` are the states and layouts of the first
/// passes: from no edits on, `inner` lays out with each state, and the pass
/// on that layout decides the next state. Only the last pass may delete the
/// same bytes as the one before.
pub open spec fn is_layout_run<F: Fn(&Relaxation) -> Result<Layout, Error>>(
    input: LayoutInput,
    inner: F,
    sections: Seq<SectionInput>,
    states: Seq<Relaxation>,
    laid: Seq<Layout>,
) -> bool {
    &&& states.len() == laid.len() + 1
    &&& laid.len() <= MAX_PASSES
    &&& states[0].is_unrelaxed()
    &&& forall|i: int|
        0 <= i < laid.len() ==> {
            &&& inner.ensures((&states[i],), Ok::<Layout, Error>(#[trigger] laid[i]))
            &&& is_pass_result(
                input,
                Layout { relax: states[i], ..laid[i] },
                sections,
                i as u32,
                Ok::<Relaxation, Error>(states[i + 1]),
            )
            &&& i + 1 < laid.len() ==> !states[i + 1].spec_same_shape(states[i])
        }
}

/// Whether `r` is what such passes end with: the last layout once its pass
/// deletes the same bytes as the one before, otherwise an error of `inner`
/// or of a decision in the next pass, or that no pass is left.
pub open spec fn is_run_end<F: Fn(&Relaxation) -> Result<Layout, Error>>(
    input: LayoutInput,
    inner: F,
    sections: Seq<SectionInput>,
    states: Seq<Relaxation>,
    laid: Seq<Layout>,
    r: Result<Layout, Error>,
) -> bool {
    let n = laid.len() as int;
    let settled = n > 0 && states[n].spec_same_shape(states[n - 1]);
    match r {
        Ok(layout) => settled && layout == (Layout { relax: states[n], ..laid[n - 1] }),
        Err(error) => !settled && if n == MAX_PASSES {
            error == Error::Internal("linker relaxation did not converge")
        } else {
            ||| inner.ensures((&states[n],), Err::<Layout, Error>(error))
            ||| exists|last: Layout| #[trigger]
                inner.ensures((&states[n],), Ok::<Layout, Error>(last)) && is_pass_result(
                    input,
                    Layout { relax: states[n], ..last },
                    sections,
                    n as u32,
                    Err::<Relaxation, Error>(error),
                )
        },
    }
}

/// Lays out with relaxation: repeats `inner`, which lays out with given
/// edits, until the edits stop changing.
///
/// # Errors
///
/// That of the first section that cannot be read, errors from `inner` and
/// from the architecture's decisions (malformed alignment padding), and
/// [`Error::Internal`] when no fixpoint is reached.
pub fn layout<F: Fn(&Relaxation) -> Result<Layout, Error>>(input: &LayoutInput, inner: &F) -> (r:
    Result<Layout, Error>)
    requires
        forall|state: Relaxation| #[trigger] inner.requires((&state,)),
    ensures
        ({
            let candidates = candidates_of(*input.refs, input.refs.files@.len() as int);
            if candidates.len() == 0 {
                exists|state: Relaxation| #[trigger]
                    inner.ensures((&state,), r) && state.is_unrelaxed()
            } else {
                match first_unreadable(*input.refs, candidates, 0) {
                    Some(k) => r matches Err(error) && is_prepared(
                        *input.refs,
                        candidates[k],
                        Err::<Option<SectionInput>, Error>(error),
                    ),
                    None => exists|
                        sections: Seq<SectionInput>,
                        states: Seq<Relaxation>,
                        laid: Seq<Layout>,
                    | #[trigger]
                        is_layout_run(*input, *inner, sections, states, laid) && is_run_end(
                            *input,
                            *inner,
                            sections,
                            states,
                            laid,
                            r,
                        ) && all_prepared(
                            *input.refs,
                            candidates,
                            candidates.len() as int,
                            sections,
                        ),
                }
            }
        }),
{
    let candidates: Vec<Candidate> = candidates(input.refs);
    let mut state: Relaxation = Relaxation::default();
    if candidates.len() == 0 {
        let laid: Result<Layout, Error> = inner(&state);
        assert(inner.ensures((&state,), laid));
        return laid;
    }
    // Relocations are read once; each pass only recomputes addresses.
    let sections: Vec<SectionInput> = match prepare_all(input.refs, &candidates) {
        Ok(sections) => sections,
        Err(error) => {
            return Err(error);
        },
    };
    let ghost mut states: Seq<Relaxation> = seq![state];
    let ghost mut layouts: Seq<Layout> = Seq::empty();
    let mut pass: u32 = 0;
    while pass < MAX_PASSES
        invariant
            pass <= MAX_PASSES,
            state.valid(),
            forall|s: Relaxation| #[trigger] inner.requires((&s,)),
            candidates@ == candidates_of(*input.refs, input.refs.files@.len() as int),
            candidates@.len() > 0,
            first_unreadable(*input.refs, candidates@, 0) is None,
            all_prepared(*input.refs, candidates@, candidates@.len() as int, sections@),
            forall|i: int| 0 <= i < sections@.len() ==> (#[trigger] sections@[i]).valid(),
            is_layout_run(*input, *inner, sections@, states, layouts),
            layouts.len() == pass,
            states[pass as int] == state,
            pass > 0 ==> !state.spec_same_shape(states[pass - 1]),
        decreases MAX_PASSES - pass,
    {
        let ghost before = state;
        let mut laid: Layout = match inner(&state) {
            Ok(laid) => laid,
            Err(error) => {
                assert(is_run_end(*input, *inner, sections@, states, layouts, Err(error)));
                return Err(error);
            },
        };
        let ghost first = laid;
        laid.relax = state;
        assert(laid == Layout { relax: before, ..first });
        let next: Relaxation = match relax_pass(input, &laid, &sections, pass) {
            Ok(next) => next,
            Err(error) => {
                assert(inner.ensures((&states[pass as int],), Ok::<Layout, Error>(first)));
                assert(is_run_end(*input, *inner, sections@, states, layouts, Err(error)));
                return Err(error);
            },
        };
        proof {
            let earlier = states;
            let done = layouts;
            states = states.push(next);
            layouts = layouts.push(first);
            assert forall|i: int| 0 <= i < layouts.len() implies {
                &&& inner.ensures((&states[i],), Ok::<Layout, Error>(#[trigger] layouts[i]))
                &&& is_pass_result(
                    *input,
                    Layout { relax: states[i], ..layouts[i] },
                    sections@,
                    i as u32,
                    Ok::<Relaxation, Error>(states[i + 1]),
                )
                &&& i + 1 < layouts.len() ==> !states[i + 1].spec_same_shape(states[i])
            } by {
                if i < done.len() {
                    assert(done[i] == layouts[i]);
                    assert(earlier[i] == states[i] && earlier[i + 1] == states[i + 1]);
                }
            }
            assert(is_layout_run(*input, *inner, sections@, states, layouts));
        }
        if next.same_shape(&laid.relax) {
            laid.relax = next;
            assert(is_run_end(*input, *inner, sections@, states, layouts, Ok(laid)));
            return Ok(laid);
        }
        state = next;
        pass += 1;
    }
    let error: Error = Error::Internal("linker relaxation did not converge");
    assert(is_run_end(*input, *inner, sections@, states, layouts, Err(error)));
    Err(error)
}

/// Where the bytes that an edit writes or deletes end.
pub open spec fn edit_end(edit: Edit) -> int {
    edit.offset + written_at(edit) + edit.remove
}

/// Whether edits lie one after the other in `len` bytes.
pub open spec fn edits_fit(edits: Seq<Edit>, len: nat) -> bool {
    &&& forall|i: int, j: int|
        0 <= i < j < edits.len() ==> edit_end(#[trigger] edits[i]) <= (#[trigger] edits[j]).offset
    &&& forall|i: int| 0 <= i < edits.len() ==> edit_end(#[trigger] edits[i]) <= len
}

/// Whether no edit writes or deletes byte `p`.
pub open spec fn is_kept(edits: Seq<Edit>, p: int) -> bool {
    forall|i: int|
        0 <= i < edits.len() ==> p < (#[trigger] edits[i]).offset || edit_end(edits[i]) <= p
}

/// A run of bytes is copied, and what is before it stays.
proof fn runs_are_copied(out: Seq<u8>, data: Seq<u8>, from: int, until: int, to: int, k: int)
    requires
        0 <= k < out.len(),
        0 <= to,
    ensures
        run_copied(out, data, from, until, to).len() == out.len(),
        k < to ==> run_copied(out, data, from, until, to)[k] == out[k],
        0 <= from <= until <= data.len() && to + (until - from) <= out.len() && to <= k < to + (
        until - from) ==> run_copied(out, data, from, until, to)[k] == data[from + k - to],
{
}

/// A replacement leaves what is before it.
proof fn replacements_keep_the_start(
    out: Seq<u8>,
    edit: Edit,
    i: int,
    to: int,
    pad: spec_fn(int, Seq<u8>) -> Seq<u8>,
    k: int,
)
    requires
        0 <= k < to,
        k < out.len(),
        keeps_lengths(pad),
    ensures
        replacement_put(out, edit, i, to, pad).len() == out.len(),
        replacement_put(out, edit, i, to, pad)[k] == out[k],
{
}

/// A replacement keeps the length.
proof fn replacements_keep_the_length(
    out: Seq<u8>,
    edit: Edit,
    i: int,
    to: int,
    pad: spec_fn(int, Seq<u8>) -> Seq<u8>,
)
    ensures
        replacement_put(out, edit, i, to, pad).len() == out.len(),
{
}

/// Copying with further edits leaves what is written before.
proof fn copies_keep_the_start(
    data: Seq<u8>,
    edits: Seq<Edit>,
    i: int,
    out: Seq<u8>,
    from: int,
    to: int,
    pad: spec_fn(int, Seq<u8>) -> Seq<u8>,
    k: int,
)
    requires
        0 <= i,
        0 <= k < to <= usize::MAX,
        k < out.len(),
        keeps_lengths(pad),
    ensures
        copied_from(data, edits, i, out, from, to, pad).len() == out.len(),
        copied_from(data, edits, i, out, from, to, pad)[k] == out[k],
    decreases edits.len() - i,
{
    if i < edits.len() && edits[i].offset <= usize::MAX {
        let edit = edits[i];
        let at = edit.offset as int;
        if at < from {
            copies_keep_the_start(data, edits, i + 1, out, from, to, pad, k);
        } else {
            let n = written_at(edit);
            let next = run_end(from, at, to);
            let run = run_copied(out, data, from, at, to);
            let put = replacement_put(run, edit, i, next, pad);
            runs_are_copied(out, data, from, at, to, k);
            replacements_keep_the_start(run, edit, i, next, pad, k);
            copies_keep_the_start(
                data,
                edits,
                i + 1,
                put,
                capped(capped(at + n) + edit.remove),
                capped(next + n),
                pad,
                k,
            );
        }
    }
}

/// Copying keeps the length.
proof fn copies_keep_the_length(
    data: Seq<u8>,
    edits: Seq<Edit>,
    i: int,
    out: Seq<u8>,
    from: int,
    to: int,
    pad: spec_fn(int, Seq<u8>) -> Seq<u8>,
)
    requires
        0 <= i,
    ensures
        copied_from(data, edits, i, out, from, to, pad).len() == out.len(),
    decreases edits.len() - i,
{
    if i < edits.len() && edits[i].offset <= usize::MAX {
        let edit = edits[i];
        let at = edit.offset as int;
        if at < from {
            copies_keep_the_length(data, edits, i + 1, out, from, to, pad);
        } else {
            let n = written_at(edit);
            let next = run_end(from, at, to);
            copies_keep_the_length(
                data,
                edits,
                i + 1,
                replacement_put(run_copied(out, data, from, at, to), edit, i, next, pad),
                capped(capped(at + n) + edit.remove),
                capped(next + n),
                pad,
            );
        }
    }
}

/// What edits before a byte delete, where those at it delete nothing.
proof fn deletions_before(edits: Seq<Edit>, p: u64, i: int)
    requires
        0 <= i <= edits.len(),
        deltas_count(edits),
        forall|j: int| 0 <= j < i ==> edit_end(#[trigger] edits[j]) <= p,
        forall|j: int| i <= j < edits.len() ==> p <= (#[trigger] edits[j]).offset,
        in_order(edits),
    ensures
        deleted_before(edits, p) == deleted_by(edits, i),
{
    let n = edits_before(edits, p, 0);
    counted_come_before(edits, p, 0);
    if n > i {
        assert(edits[i].offset < p);
    }
    nothing_is_deleted(edits, p, n, i);
    if n > 0 {
        assert(edits[n - 1].delta == deleted_by(edits, n));
    }
}

/// Edits at a byte that is kept delete nothing.
proof fn nothing_is_deleted(edits: Seq<Edit>, p: u64, n: int, i: int)
    requires
        0 <= n <= i <= edits.len(),
        in_order(edits),
        n < edits.len() ==> edits[n].offset >= p,
        forall|j: int| 0 <= j < i ==> edit_end(#[trigger] edits[j]) <= p,
    ensures
        deleted_by(edits, n) == deleted_by(edits, i),
    decreases i - n,
{
    if n < i {
        nothing_is_deleted(edits, p, n, i - 1);
        if n < i - 1 {
            assert(edits[n].offset <= edits[i - 1].offset);
        }
        assert(edit_end(edits[i - 1]) <= p);
    }
}

/// A byte that is kept is copied to where it maps, from edit `i` on.
#[verifier::spinoff_prover]
#[verifier::rlimit(30)]
proof fn kept_bytes_are_copied(
    data: Seq<u8>,
    edits: Seq<Edit>,
    i: int,
    out: Seq<u8>,
    from: int,
    pad: spec_fn(int, Seq<u8>) -> Seq<u8>,
    p: u64,
)
    requires
        0 <= i <= edits.len(),
        data.len() <= usize::MAX,
        in_order(edits),
        deltas_count(edits),
        edits_fit(edits, data.len()),
        is_kept(edits, p as int),
        keeps_lengths(pad),
        from == (if i == 0 {
            0
        } else {
            edit_end(edits[i - 1])
        }),
        deleted_by(edits, i) <= from <= p < data.len(),
        data.len() - deleted_by(edits, edits.len() as int) <= out.len(),
    ensures
        copied_from(data, edits, i, out, from, from - deleted_by(edits, i), pad)[p - deleted_before(
            edits,
            p,
        )] == data[p as int],
    decreases edits.len() - i,
{
    let gone = deleted_by(edits, i) as int;
    let to = from - gone;
    deletions_grow(edits, data.len(), i);
    if i < edits.len() {
        let edit = edits[i];
        let at = edit.offset as int;
        let n = written_at(edit);
        assert(edit_end(edit) <= data.len());
        assert(from <= at);
        let next = run_end(from, at, to);
        let run = run_copied(out, data, from, at, to);
        let put = replacement_put(run, edit, i, next, pad);
        let after = capped(capped(at + n) + edit.remove);
        assert(next == at - gone);
        assert(after == edit_end(edit));
        assert(capped(next + n) == at + n - gone);
        deletions_grow(edits, data.len(), i + 1);
        assert(deleted_by(edits, i + 1) == gone + edit.remove);
        replacements_keep_the_length(run, edit, i, next, pad);
        if p < at {
            assert forall|j: int| 0 <= j < i implies edit_end(#[trigger] edits[j]) <= p by {
                if j < i - 1 {
                    assert(edit_end(edits[j]) <= edits[i - 1].offset);
                }
            }
            deletions_before(edits, p, i);
            runs_are_copied(out, data, from, at, to, p - gone);
            replacements_keep_the_start(run, edit, i, next, pad, p - gone);
            copies_keep_the_start(
                data,
                edits,
                i + 1,
                put,
                after,
                at + n - gone,
                pad,
                p - gone,
            );
        } else {
            assert(edit_end(edits[i]) <= p);
            kept_bytes_are_copied(data, edits, i + 1, put, after, pad, p);
        }
    } else {
        assert forall|j: int| 0 <= j < i implies edit_end(#[trigger] edits[j]) <= p by {
            if j < i - 1 {
                assert(edit_end(edits[j]) <= edits[i - 1].offset);
            }
        }
        deletions_before(edits, p, i);
    }
}

/// Edits that fit delete no more than what lies before them, and more edits
/// leave no more than there is room for.
proof fn deletions_grow(edits: Seq<Edit>, len: nat, i: int)
    requires
        0 <= i <= edits.len(),
        len <= usize::MAX,
        edits_fit(edits, len),
    ensures
        deleted_by(edits, i) <= (if i == 0 {
            0
        } else {
            edit_end(edits[i - 1])
        }),
        i < edits.len() ==> deleted_by(edits, i) + edits[i].remove == deleted_by(edits, i + 1),
        deleted_by(edits, edits.len() as int) - deleted_by(edits, i) <= len - (if i == 0 {
            0
        } else {
            edit_end(edits[i - 1])
        }),
    decreases edits.len(), i,
{
    if i > 0 {
        deletions_come_before(edits, len, i);
    }
    if i < edits.len() {
        deletions_come_before(edits, len, i + 1);
        assert(edit_end(edits[i]) <= len);
        if i > 0 {
            assert(edit_end(edits[i - 1]) <= edits[i].offset);
        }
    }
    deletions_come_after(edits, len, i);
}

/// The first edits delete no more than what lies before where they end.
proof fn deletions_come_before(edits: Seq<Edit>, len: nat, i: int)
    requires
        0 < i <= edits.len(),
        len <= usize::MAX,
        edits_fit(edits, len),
    ensures
        deleted_by(edits, i) <= edit_end(edits[i - 1]),
        deleted_by(edits, i) == deleted_by(edits, i - 1) + edits[i - 1].remove,
    decreases i,
{
    assert(edit_end(edits[i - 1]) <= len);
    if i > 1 {
        deletions_come_before(edits, len, i - 1);
        assert(edit_end(edits[i - 2]) <= edits[i - 1].offset);
    }
}

/// The edits from `i` on delete no more than what lies behind those before.
proof fn deletions_come_after(edits: Seq<Edit>, len: nat, i: int)
    requires
        0 <= i <= edits.len(),
        len <= usize::MAX,
        edits_fit(edits, len),
    ensures
        deleted_by(edits, edits.len() as int) - deleted_by(edits, i) <= len - (if i == 0 {
            0
        } else {
            edit_end(edits[i - 1])
        }),
    decreases edits.len() - i,
{
    if i > 0 {
        assert(edit_end(edits[i - 1]) <= len);
    }
    if i < edits.len() {
        deletions_come_before(edits, len, i + 1);
        deletions_come_after(edits, len, i + 1);
        if i > 0 {
            assert(edit_end(edits[i - 1]) <= edits[i].offset);
        }
    }
}

/// The copy of a section follows its map: a byte that no edit writes or
/// deletes is copied to the offset the map gives it.
pub proof fn copies_follow_the_map(
    section: SectionRelax,
    data: Seq<u8>,
    out: Seq<u8>,
    pad: spec_fn(int, Seq<u8>) -> Seq<u8>,
    p: u64,
)
    requires
        data.len() <= usize::MAX,
        in_order(section.edits@),
        deltas_count(section.edits@),
        edits_fit(section.edits@, data.len()),
        is_kept(section.edits@, p as int),
        keeps_lengths(pad),
        p < data.len(),
        out.len() >= data.len() - section.spec_removed(),
    ensures
        copied_from(data, section.edits@, 0, out, 0, 0, pad)[section.spec_map(p) as int]
            == data[p as int],
{
    let edits = section.edits@;
    let n = edits.len() as int;
    deletions_grow(edits, data.len(), 0);
    if n > 0 {
        assert(edits[n - 1].delta == deleted_by(edits, n));
    }
    kept_bytes_are_copied(data, edits, 0, out, 0, pad, p);
    let m = edits_before(edits, p, 0);
    counted_come_before(edits, p, 0);
    if m > 0 {
        assert(edits[m - 1].offset < p);
        assert(edit_end(edits[m - 1]) <= p);
        assert(edits[m - 1].delta == deleted_by(edits, m));
        deletions_come_before(edits, data.len(), m);
    }
}

/// The bytes edit `e` writes over `before`: refilled padding, or a new
/// instruction.
pub open spec fn edit_bytes(
    edit: Edit,
    e: int,
    before: Seq<u8>,
    pad: spec_fn(int, Seq<u8>) -> Seq<u8>,
) -> Seq<u8> {
    match edit.rewrite {
        Rewrite::Align { .. } => pad(e, before),
        Rewrite::Replace { word, len, .. } => crate::bytes::spec_le32(word).take(len as int),
        _ => Seq::empty(),
    }
}

/// Byte `k` of what edit `e` writes stands behind what the edits before
/// leave, from edit `i` on.
#[verifier::spinoff_prover]
#[verifier::rlimit(30)]
proof fn edits_write_their_bytes(
    data: Seq<u8>,
    edits: Seq<Edit>,
    i: int,
    e: int,
    start: Seq<u8>,
    out: Seq<u8>,
    from: int,
    pad: spec_fn(int, Seq<u8>) -> Seq<u8>,
    k: int,
)
    requires
        0 <= i <= e < edits.len(),
        data.len() <= usize::MAX,
        in_order(edits),
        edits_fit(edits, data.len()),
        keeps_lengths(pad),
        from == (if i == 0 {
            0
        } else {
            edit_end(edits[i - 1])
        }),
        deleted_by(edits, i) <= from,
        data.len() - deleted_by(edits, edits.len() as int) <= out.len(),
        out.len() == start.len(),
        forall|j: int|
            from - deleted_by(edits, i) <= j < out.len() ==> #[trigger] out[j] == start[j],
        edits[e].rewrite matches Rewrite::Replace { len, .. } ==> len <= 4,
        0 <= k < written_at(edits[e]),
    ensures
        ({
            let at = edits[e].offset - deleted_by(edits, e);
            copied_from(data, edits, i, out, from, from - deleted_by(edits, i), pad)[at + k]
                == edit_bytes(
                edits[e],
                e,
                start.subrange(at, at + written_at(edits[e])),
                pad,
            )[k]
        }),
    decreases e - i,
{
    let gone = deleted_by(edits, i) as int;
    let to = from - gone;
    deletions_grow(edits, data.len(), i);
    let edit = edits[i];
    let at = edit.offset as int;
    let n = written_at(edit);
    assert(edit_end(edit) <= data.len());
    assert(from <= at);
    let next = run_end(from, at, to);
    let run = run_copied(out, data, from, at, to);
    let put = replacement_put(run, edit, i, next, pad);
    let after = capped(capped(at + n) + edit.remove);
    assert(next == at - gone);
    assert(after == edit_end(edit));
    assert(capped(next + n) == at + n - gone);
    deletions_grow(edits, data.len(), i + 1);
    assert(deleted_by(edits, i + 1) == gone + edit.remove);
    replacements_keep_the_length(run, edit, i, next, pad);
    if i == e {
        assert(next + n <= out.len());
        let before = start.subrange(next, next + n);
        assert(run.subrange(next, next + n) =~= before);
        assert(put[next + k] == edit_bytes(edit, e, before, pad)[k]);
        copies_keep_the_start(data, edits, i + 1, put, after, at + n - gone, pad, next + k);
    } else {
        edits_write_their_bytes(data, edits, i + 1, e, start, put, after, pad, k);
    }
}

/// The copy of a section puts what an edit writes at the offset the map
/// gives the edit: the bytes of a new instruction, or what the bytes there
/// are refilled with where padding is trimmed.
pub proof fn replacements_follow_the_map(
    section: SectionRelax,
    data: Seq<u8>,
    out: Seq<u8>,
    pad: spec_fn(int, Seq<u8>) -> Seq<u8>,
    e: int,
)
    requires
        data.len() <= usize::MAX,
        in_order(section.edits@),
        deltas_count(section.edits@),
        edits_fit(section.edits@, data.len()),
        keeps_lengths(pad),
        out.len() >= data.len() - section.spec_removed(),
        0 <= e < section.edits@.len(),
        section.edits@[e].rewrite matches Rewrite::Replace { len, .. } ==> len <= 4,
    ensures
        ({
            let edit = section.edits@[e];
            let at = section.spec_map(edit.offset) as int;
            let copy = copied_from(data, section.edits@, 0, out, 0, 0, pad);
            &&& crate::bytes::inside(copy, at, written_at(edit))
            &&& copy.subrange(at, at + written_at(edit)) == edit_bytes(
                edit,
                e,
                out.subrange(at, at + written_at(edit)),
                pad,
            )
        }),
{
    let edits = section.edits@;
    let edit = edits[e];
    let p = edit.offset;
    let n = edits.len() as int;
    let copy = copied_from(data, edits, 0, out, 0, 0, pad);
    deletions_grow(edits, data.len(), 0);
    deletions_grow(edits, data.len(), e);
    deletions_grow(edits, data.len(), e + 1);
    assert(edits[n - 1].delta == deleted_by(edits, n));
    deletions_before(edits, p, e);
    if e > 0 {
        assert(edit_end(edits[e - 1]) <= p);
    }
    assert(edit_end(edit) <= data.len());
    let at = section.spec_map(p) as int;
    assert(at == p - deleted_by(edits, e));
    copies_keep_the_length(data, edits, 0, out, 0, 0, pad);
    let bytes = edit_bytes(edit, e, out.subrange(at, at + written_at(edit)), pad);
    assert forall|k: int| 0 <= k < written_at(edit) implies copy[at + k] == bytes[k] by {
        edits_write_their_bytes(data, edits, 0, e, out, out, 0, pad, k);
    }
    assert(bytes.len() == written_at(edit));
    assert(copy.subrange(at, at + written_at(edit)) =~= bytes);
}

} // verus!
