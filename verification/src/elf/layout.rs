//! Where everything is.

use vstd::prelude::*;

use super::arch::Arch;
use super::arch::shrink::Relaxation;
use super::arch::thunk::Placed;
use super::refs::Refs;
use crate::ids::{SectionId, SymbolId};

verus! {

/// The default base address of a position-dependent executable.
pub const DEFAULT_BASE: u64 = 0x40_0000;

/// Whom a table entry belongs to.
#[derive(Clone, Copy, Debug, PartialEq, Eq, Structural)]
pub enum Owner {
    /// A global symbol.
    Global(SymbolId),
    /// A local symbol of a file.
    Local {
        /// The file.
        file: u32,
        /// The symbol.
        symbol: u32,
    },
}

impl Owner {
    /// The owner that symbol `symbol` of `file` is, given the global symbol
    /// it stands for.
    #[verifier::allow_in_spec]
    pub fn of(global: Option<SymbolId>, file: usize, symbol: u32) -> Owner
        returns
            (match global {
                Some(id) => Owner::Global(id),
                None => Owner::Local {
                    file: if file > u32::MAX as usize {
                        u32::MAX
                    } else {
                        file as u32
                    },
                    symbol,
                },
            }),
    {
        match global {
            Some(id) => Owner::Global(id),
            None => Owner::Local {
                file: if file > u32::MAX as usize {
                    u32::MAX
                } else {
                    file as u32
                },
                symbol,
            },
        }
    }
}

/// The address a table gives `owner`, from `i` on.
pub open spec fn entry_of(table: Seq<(Owner, u64)>, owner: Owner, i: int) -> Option<u64>
    decreases table.len() - i,
{
    if i < 0 || i >= table.len() {
        None
    } else if table[i].0 == owner {
        Some(table[i].1)
    } else {
        entry_of(table, owner, i + 1)
    }
}

/// The address a table gives `owner`.
pub fn find_entry(table: &Vec<(Owner, u64)>, owner: Owner) -> (r: Option<u64>)
    ensures
        r == entry_of(table@, owner, 0),
{
    let mut i: usize = 0;
    while i < table.len()
        invariant
            entry_of(table@, owner, 0) == entry_of(table@, owner, i as int),
        decreases table@.len() - i,
    {
        if table[i].0 == owner {
            return Some(table[i].1);
        }
        i += 1;
    }
    None
}

/// A section of the output.
#[derive(Debug, PartialEq, Eq)]
pub struct OutputSection {
    /// Its name.
    pub name: Vec<u8>,
    /// Its number among the planned output sections.
    pub output: u32,
    /// Its address.
    pub addr: u64,
    /// The address it is loaded at.
    pub lma: u64,
    /// Its size.
    pub size: u64,
    /// Its alignment.
    pub align: u64,
    /// Whether it is in memory.
    pub alloc: bool,
}

/// The thread-local segment.
#[derive(Clone, Copy, Debug, PartialEq, Eq, Structural)]
pub struct Tls {
    /// Its address.
    pub start: u64,
    /// The thread pointer.
    pub tp: u64,
}

/// Where everything is.
#[derive(Debug, PartialEq, Eq)]
pub struct Layout {
    /// The output sections.
    pub sections: Vec<OutputSection>,
    /// One more than the position of the output section that holds each
    /// input section, 0 where none does.
    pub section_shndx: Vec<u32>,
    /// The address of each input section.
    pub section_addr: Vec<u64>,
    /// The addresses of offsets in merged and folded sections, as
    /// `(file, section, offset)`.
    pub offsets: Vec<((usize, u32, u64), u64)>,
    /// The PLT entries.
    pub plt: Vec<(Owner, u64)>,
    /// The IFUNC stubs.
    pub iplt: Vec<(Owner, u64)>,
    /// The GOT words that stubs jump through.
    pub plt_slots: Vec<(Owner, u64)>,
    /// The thunks.
    pub thunks: Vec<Placed>,
    /// The thread-local segment.
    pub tls: Option<Tls>,
    /// The relaxation edits that the addresses were computed with.
    pub relax: Relaxation,
}

impl Layout {
    /// The position of the output section that holds an input section.
    pub open spec fn position_of(self, id: SectionId) -> Option<u32> {
        if id.position < self.section_shndx@.len() {
            let shndx = self.section_shndx@[id.position as int];
            if shndx == 0 {
                None
            } else {
                Some((shndx - 1) as u32)
            }
        } else {
            None
        }
    }

    /// The position of the output section that holds an input section.
    pub fn find_position(&self, id: SectionId) -> (r: Option<u32>)
        ensures
            r == self.position_of(id),
    {
        if id.position < self.section_shndx.len() {
            let shndx: u32 = self.section_shndx[id.position];
            if shndx != 0 {
                return Some(shndx - 1);
            }
        }
        None
    }

    /// The number of the planned output section that holds an input section.
    pub open spec fn spec_output_of(self, id: SectionId) -> Option<u32> {
        match self.position_of(id) {
            Some(p) => if p < self.sections@.len() {
                Some(self.sections@[p as int].output)
            } else {
                None
            },
            None => None,
        }
    }

    /// The number of the planned output section that holds an input section.
    pub fn output_of(&self, id: SectionId) -> (r: Option<u32>)
        ensures
            r == self.spec_output_of(id),
    {
        match self.find_position(id) {
            Some(p) => {
                let len: usize = self.sections.len();
                if (p as u64) < len as u64 {
                    Some(self.sections[p as usize].output)
                } else {
                    None
                }
            },
            None => None,
        }
    }

    /// The address of an input section.
    pub open spec fn spec_address(self, id: SectionId) -> Option<u64> {
        if id.position < self.section_addr@.len() {
            Some(self.section_addr@[id.position as int])
        } else {
            None
        }
    }

    /// The address of an input section.
    pub fn address(&self, id: SectionId) -> (r: Option<u64>)
        ensures
            r == self.spec_address(id),
    {
        if id.position < self.section_addr.len() {
            Some(self.section_addr[id.position])
        } else {
            None
        }
    }

    /// The address of a place in a merged or folded section, from `i` on.
    pub open spec fn offset_from(self, place: (usize, u32, u64), i: int) -> Option<u64>
        decreases self.offsets@.len() - i,
    {
        if i < 0 || i >= self.offsets@.len() {
            None
        } else if self.offsets@[i].0 == place {
            Some(self.offsets@[i].1)
        } else {
            self.offset_from(place, i + 1)
        }
    }

    /// The address of offset `value` of section `section` of `file`.
    pub fn section_offset_address(&self, file: usize, section: u32, value: u64) -> (r: Option<u64>)
        ensures
            r == self.offset_from((file, section, value), 0),
    {
        let mut i: usize = 0;
        while i < self.offsets.len()
            invariant
                self.offset_from((file, section, value), 0) == self.offset_from(
                    (file, section, value),
                    i as int,
                ),
            decreases self.offsets@.len() - i,
        {
            let entry: ((usize, u32, u64), u64) = self.offsets[i];
            if entry.0.0 == file && entry.0.1 == section && entry.0.2 == value {
                return Some(entry.1);
            }
            i += 1;
        }
        None
    }

    /// The size of output section `output`, from position `i` on.
    pub open spec fn size_from(self, output: u32, i: int) -> u64
        decreases self.sections@.len() - i,
    {
        if i < 0 || i >= self.sections@.len() {
            0
        } else if self.sections@[i].output == output {
            self.sections@[i].size
        } else {
            self.size_from(output, i + 1)
        }
    }

    /// The size of output section `output`, 0 where there is none.
    pub fn size_of(&self, output: u32) -> (r: u64)
        ensures
            r == self.size_from(output, 0),
    {
        let mut i: usize = 0;
        while i < self.sections.len()
            invariant
                self.size_from(output, 0) == self.size_from(output, i as int),
            decreases self.sections@.len() - i,
        {
            if self.sections[i].output == output {
                return self.sections[i].size;
            }
            i += 1;
        }
        0
    }

    /// The address of a thunk of `output` that leads to `target`, from `i`
    /// on.
    pub open spec fn thunk_from(self, output: u32, target: u64, i: int) -> Option<u64>
        decreases self.thunks@.len() - i,
    {
        if i < 0 || i >= self.thunks@.len() {
            None
        } else if self.thunks@[i].output == output && self.thunks@[i].target == target {
            Some(self.thunks@[i].address)
        } else {
            self.thunk_from(output, target, i + 1)
        }
    }

    /// The address of the thunk of `output` that leads to `target`.
    pub fn thunk_for(&self, output: u32, target: u64) -> (r: Option<u64>)
        ensures
            r == self.thunk_from(output, target, 0),
    {
        let mut i: usize = 0;
        while i < self.thunks.len()
            invariant
                self.thunk_from(output, target, 0) == self.thunk_from(output, target, i as int),
            decreases self.thunks@.len() - i,
        {
            if self.thunks[i].output == output && self.thunks[i].target == target {
                return Some(self.thunks[i].address);
            }
            i += 1;
        }
        None
    }
}

/// What layout works from.
#[derive(Clone, Copy, Debug)]
pub struct LayoutInput<'a> {
    /// What the link refers to.
    pub refs: &'a Refs,
    /// The architecture.
    pub arch: Arch,
    /// Whether the output is position-independent.
    pub pic: bool,
    /// `--relax`.
    pub relax: bool,
    /// The global pointer's value, where accesses may be relaxed against
    /// it.
    pub gp: Option<u64>,
}

/// A planned output section.
#[derive(Debug, PartialEq, Eq)]
pub struct PlannedOutput {
    /// Its name.
    pub name: Vec<u8>,
    /// Its place among the others.
    pub rank: (u16, u32),
}

/// Which output section each input section goes to.
#[derive(Debug, PartialEq, Eq)]
pub struct Placement {
    /// The output section of each input section.
    pub output_of: Vec<Option<u32>>,
    /// The output sections.
    pub outputs: Vec<PlannedOutput>,
    /// Which description of its output section each input section matched.
    pub sub: Vec<u16>,
}

impl Placement {
    /// The output section of an input section.
    pub open spec fn spec_output_of(self, id: SectionId) -> Option<u32> {
        if id.position < self.output_of@.len() {
            self.output_of@[id.position as int]
        } else {
            None
        }
    }

    /// The output section of an input section.
    pub fn find_output(&self, id: SectionId) -> (r: Option<u32>)
        ensures
            r == self.spec_output_of(id),
    {
        if id.position < self.output_of.len() {
            self.output_of[id.position]
        } else {
            None
        }
    }
}

/// The section headers count from one: the index of a section that is in the
/// output is one more than the position of its output section, and one that
/// is not has index 0.
pub proof fn header_indices_count_from_one(layout: Layout, id: SectionId)
    ensures
        match layout.position_of(id) {
            Some(p) => id.position < layout.section_shndx@.len() && layout.section_shndx@[id.position as int]
                == p + 1,
            None => id.position >= layout.section_shndx@.len()
                || layout.section_shndx@[id.position as int] == 0,
        },
        match layout.spec_output_of(id) {
            Some(output) => exists|p: int|
                0 <= p < layout.sections@.len() && (#[trigger] layout.sections@[p]).output == output
                    && layout.section_shndx@[id.position as int] == p + 1,
            None => true,
        },
        id.position < layout.section_addr@.len() ==> layout.spec_address(id) == Some(
            layout.section_addr@[id.position as int],
        ),
{
    if let Some(p) = layout.position_of(id) {
        if p < layout.sections@.len() {
            assert(layout.sections@[p as int].output == layout.spec_output_of(id)->0);
        }
    }
}

/// An entry is found by its owner, a string by its place, a size by its
/// output section and a thunk by its output section and target, the first
/// where there are several.
pub proof fn lookups_find_the_first(
    layout: Layout,
    table: Seq<(Owner, u64)>,
    owner: Owner,
    place: (usize, u32, u64),
    output: u32,
    target: u64,
    i: int,
    k: int,
)
    requires
        0 <= i <= k,
    ensures
        k < table.len() && table[k].0 == owner ==> (entry_of(table, owner, i) matches Some(v)
            && exists|n: int| i <= n <= k && #[trigger] table[n] == (owner, v)),
        k < layout.offsets@.len() && layout.offsets@[k].0 == place ==> (layout.offset_from(
            place,
            i,
        ) matches Some(v) && exists|n: int|
            i <= n <= k && #[trigger] layout.offsets@[n] == (place, v)),
        k < layout.sections@.len() && layout.sections@[k].output == output ==> exists|n: int|
            i <= n <= k && (#[trigger] layout.sections@[n]).output == output
                && layout.sections@[n].size == layout.size_from(output, i),
        k < layout.thunks@.len() && layout.thunks@[k].output == output && layout.thunks@[k].target
            == target ==> (layout.thunk_from(output, target, i) matches Some(a) && exists|n: int|
            i <= n <= k && (#[trigger] layout.thunks@[n]).output == output
                && layout.thunks@[n].target == target && layout.thunks@[n].address == a),
    decreases k - i,
{
    if i < k {
        lookups_find_the_first(layout, table, owner, place, output, target, i + 1, k);
    }
    if i < table.len() && table[i].0 == owner {
        assert(table[i] == (owner, table[i].1));
    }
    if i < layout.offsets@.len() && layout.offsets@[i].0 == place {
        assert(layout.offsets@[i] == (place, layout.offsets@[i].1));
    }
}

} // verus!
