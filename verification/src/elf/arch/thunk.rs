//! Range-extension thunks.
//!
//! An AArch64 `bl`/`b` reaches ±128 MiB. When a call is farther than that,
//! the branch goes to a thunk, which reaches ±4 GiB. PowerPC64 uses the same
//! machinery: its `bl` reaches ±32 MiB, and its thunks also serve calls from
//! code without a TOC pointer to functions that need one.
//!
//! A thunk is placed at the end of the output section holding its callers,
//! and every caller in that section that branches to the same address shares
//! it; the table is sorted by output section and destination.

use vstd::prelude::*;

use super::{Arch, Branch};
use crate::elf::consts::{SHF_ALLOC, SHF_EXECINSTR};
use crate::elf::inputs::{InputSection, ObjectInput, RelocTable, SectionKind};
use crate::elf::layout::{find_entry, Layout, LayoutInput, Owner};
use crate::elf::refs::{Def, Refs, Target};
use crate::elf::relocation::Relocation;
use crate::order::sort_rows;
use crate::symbols::{NEEDS_PLT, PREEMPTIBLE};

verus! {

/// How many times layout may be repeated before giving up on a fixpoint.
pub const MAX_ROUNDS: u32 = 8;

/// One planned thunk.
#[derive(Clone, Copy, Debug, PartialEq, Eq, PartialOrd, Ord, Structural)]
pub struct Thunk {
    /// The output section whose callers use this thunk, and at the end of
    /// which it is placed.
    pub output: u32,
    /// The address the thunk branches to.
    pub target: u64,
    /// Offset of the thunk in its output section.
    pub offset: u64,
}

/// The thunks of a link, sorted by output section and destination.
#[derive(Debug, PartialEq, Eq)]
pub struct Thunks {
    /// Every thunk, sorted.
    pub entries: Vec<Thunk>,
    /// The architecture whose thunks these are.
    pub arch: Arch,
}

/// A thunk with its final address, for the writer.
#[derive(Clone, Copy, Debug, PartialEq, Eq, PartialOrd, Ord, Structural)]
pub struct Placed {
    /// The output section its callers are in.
    pub output: u32,
    /// The address it branches to.
    pub target: u64,
    /// The thunk's own address.
    pub address: u64,
}

/// Whether a thunk of `(a, b)` comes before one of `(c, d)`.
pub open spec fn before(a: u32, b: u64, c: u32, d: u64) -> bool {
    a < c || (a == c && b < d)
}

/// Whether thunks are sorted, each destination of an output section once.
pub open spec fn sorted(entries: Seq<Thunk>) -> bool {
    forall|i: int, j: int|
        0 <= i < j < entries.len() ==> before(
            (#[trigger] entries[i]).output,
            entries[i].target,
            (#[trigger] entries[j]).output,
            entries[j].target,
        )
}

/// `a + b`, or the highest number there is.
pub open spec fn saturated(a: u64, b: u64) -> u64 {
    if a + b > u64::MAX {
        u64::MAX
    } else {
        (a + b) as u64
    }
}

/// Whether thunk `i` is the first of its output section.
pub open spec fn starts_pool(entries: Seq<Thunk>, i: int) -> bool {
    i == 0 || entries[i - 1].output != entries[i].output
}

/// Whether thunk `i` starts a pool or follows the one before it.
pub open spec fn follows(entries: Seq<Thunk>, i: int, size: u64) -> bool {
    starts_pool(entries, i) || entries[i].offset == saturated(entries[i - 1].offset, size)
}

/// Whether the thunks of each output section follow one another.
pub open spec fn packed(entries: Seq<Thunk>, size: u64) -> bool {
    forall|i: int| 0 <= i < entries.len() ==> #[trigger] follows(entries, i, size)
}

/// Whether thunks are exactly those that are needed.
pub open spec fn serve(entries: Seq<Thunk>, needed: Seq<(u32, u64)>) -> bool {
    &&& forall|i: int|
        0 <= i < entries.len() ==> needed.contains(
            ((#[trigger] entries[i]).output, entries[i].target),
        )
    &&& forall|k: int|
        0 <= k < needed.len() ==> exists|i: int|
            0 <= i < entries.len() && (#[trigger] entries[i]).output == (#[trigger] needed[k]).0
                && entries[i].target == needed[k].1
}

/// Whether `thunks` is the table of `arch` for the destinations `needed`,
/// whose pools start at `start`.
pub open spec fn is_table(
    arch: Arch,
    needed: Seq<(u32, u64)>,
    start: spec_fn(u32) -> u64,
    thunks: Thunks,
) -> bool {
    &&& thunks.arch == arch
    &&& sorted(thunks.entries@)
    &&& serve(thunks.entries@, needed)
    &&& packed(thunks.entries@, arch.thunk_size())
    &&& forall|i: int|
        0 <= i < thunks.entries@.len() && #[trigger] starts_pool(thunks.entries@, i)
            ==> thunks.entries@[i].offset == start(thunks.entries@[i].output)
}

/// How many thunks `output` has among the first `n`.
pub open spec fn count(entries: Seq<Thunk>, output: u32, n: int) -> nat
    decreases n,
{
    if n <= 0 {
        0
    } else {
        count(entries, output, n - 1) + (if entries[n - 1].output == output {
            1nat
        } else {
            0nat
        })
    }
}

/// A count is no higher than the number counted.
proof fn counts_are_bounded(entries: Seq<Thunk>, output: u32, n: int)
    requires
        0 <= n,
    ensures
        count(entries, output, n) <= n,
    decreases n,
{
    if n > 0 {
        counts_are_bounded(entries, output, n - 1);
    }
}

/// The thunks of `output` from `i` on that can be written, as
/// `(offset, bytes)`.
pub open spec fn rendered(thunks: Thunks, output: u32, base: u64, i: int) -> Seq<(u64, Seq<u8>)>
    decreases thunks.entries@.len() - i,
{
    if i < 0 || i >= thunks.entries@.len() {
        Seq::empty()
    } else {
        let rest = rendered(thunks, output, base, i + 1);
        let thunk = thunks.entries@[i];
        let zeros = Seq::new(thunks.arch.thunk_size() as nat, |k: int| 0u8);
        let p = thunks.arch.spec_write_thunk(
            zeros,
            0,
            base.wrapping_add(thunk.offset),
            thunk.target,
        );
        if thunk.output == output && p.result is Ok {
            seq![(thunk.offset, p.bytes)] + rest
        } else {
            rest
        }
    }
}

/// What a list of rendered thunks holds.
pub open spec fn shown(list: Seq<(u64, Vec<u8>)>) -> Seq<(u64, Seq<u8>)> {
    Seq::new(list.len(), |i: int| (list[i].0, list[i].1@))
}

/// A buffer of zeros.
fn zeros(n: usize) -> (r: Vec<u8>)
    ensures
        r@ == Seq::new(n as nat, |k: int| 0u8),
{
    let mut out: Vec<u8> = Vec::new();
    let mut i: usize = 0;
    while i < n
        invariant
            i <= n,
            out@ == Seq::new(i as nat, |k: int| 0u8),
        decreases n - i,
    {
        out.push(0);
        i += 1;
        assert(out@ =~= Seq::new(i as nat, |k: int| 0u8));
    }
    out
}

impl Default for Thunks {
    fn default() -> (r: Thunks)
        ensures
            r.entries@.len() == 0,
            r.arch == Arch::X86_64,
    {
        Thunks { entries: Vec::new(), arch: Arch::X86_64 }
    }
}

impl Thunks {
    /// Whether no thunk is needed.
    pub fn is_empty(&self) -> (r: bool)
        ensures
            r == (self.entries@.len() == 0),
    {
        self.entries.len() == 0
    }

    /// The bytes the thunks of output section `output` occupy.
    pub open spec fn spec_size_of(self, output: u32) -> u64 {
        let size = count(self.entries@, output, self.entries@.len() as int)
            * self.arch.thunk_size();
        if size > u64::MAX {
            u64::MAX
        } else {
            size as u64
        }
    }

    /// The bytes the thunks of output section `output` occupy.
    pub fn size_of(&self, output: u32) -> (r: u64)
        ensures
            r == self.spec_size_of(output),
    {
        let mut n: u64 = 0;
        let mut i: usize = 0;
        while i < self.entries.len()
            invariant
                i <= self.entries@.len(),
                n == count(self.entries@, output, i as int),
            decreases self.entries@.len() - i,
        {
            proof {
                counts_are_bounded(self.entries@, output, i as int);
            }
            if self.entries[i].output == output {
                n += 1;
            }
            i += 1;
        }
        match n.checked_mul(self.arch.thunk_size()) {
            Some(size) => size,
            None => u64::MAX,
        }
    }

    /// The offset in its output section of the thunk of `output` that
    /// branches to `target`.
    pub fn offset_of(&self, output: u32, target: u64) -> (r: Option<u64>)
        requires
            sorted(self.entries@),
        ensures
            match r {
                Some(offset) => exists|i: int|
                    0 <= i < self.entries@.len() && #[trigger] self.entries@[i] == (Thunk {
                        output,
                        target,
                        offset,
                    }),
                None => forall|i: int|
                    0 <= i < self.entries@.len() ==> (#[trigger] self.entries@[i]).output != output
                        || self.entries@[i].target != target,
            },
    {
        let mut low: usize = 0;
        let mut high: usize = self.entries.len();
        while low < high
            invariant
                low <= high <= self.entries@.len(),
                sorted(self.entries@),
                forall|i: int|
                    0 <= i < low ==> before(
                        (#[trigger] self.entries@[i]).output,
                        self.entries@[i].target,
                        output,
                        target,
                    ),
                forall|i: int|
                    high <= i < self.entries@.len() ==> before(
                        output,
                        target,
                        (#[trigger] self.entries@[i]).output,
                        self.entries@[i].target,
                    ),
            decreases high - low,
        {
            let middle: usize = low + (high - low) / 2;
            let thunk: Thunk = self.entries[middle];
            if thunk.output == output && thunk.target == target {
                assert(self.entries@[middle as int] == Thunk {
                    output,
                    target,
                    offset: thunk.offset,
                });
                return Some(thunk.offset);
            }
            if thunk.output < output || (thunk.output == output && thunk.target < target) {
                low = middle + 1;
            } else {
                high = middle;
            }
        }
        None
    }

    /// Builds the table of `arch` from the destinations each output section
    /// needs, starting each section's pool at `pool_start`.
    pub fn build<F: Fn(u32) -> u64>(arch: Arch, needed: Vec<(u32, u64)>, pool_start: &F) -> (r:
        Thunks)
        requires
            forall|output: u32| #[trigger] pool_start.requires((output,)),
        ensures
            r.arch == arch,
            sorted(r.entries@),
            serve(r.entries@, needed@),
            packed(r.entries@, arch.thunk_size()),
            forall|i: int|
                0 <= i < r.entries@.len() && #[trigger] starts_pool(r.entries@, i)
                    ==> pool_start.ensures((r.entries@[i].output,), r.entries@[i].offset),
    {
        let mut rows: Vec<(u64, u64, u64)> = Vec::new();
        let mut i: usize = 0;
        while i < needed.len()
            invariant
                i <= needed@.len(),
                rows@.len() == i,
                forall|k: int|
                    0 <= k < i ==> #[trigger] rows@[k] == (needed@[k].0 as u64, needed@[k].1, 0u64),
            decreases needed@.len() - i,
        {
            let pair: (u32, u64) = needed[i];
            rows.push((pair.0 as u64, pair.1, 0));
            i += 1;
        }
        let ghost listed = rows@;
        sort_rows(&mut rows);
        proof {
            rows@.to_multiset_ensures();
            listed.to_multiset_ensures();
            assert forall|k: int| 0 <= k < rows@.len() implies (#[trigger] rows@[k]).0
                <= u32::MAX && rows@[k].2 == 0 && needed@.contains(
                (rows@[k].0 as u32, rows@[k].1),
            ) by {
                assert(rows@.to_multiset().count(rows@[k]) > 0);
                assert(listed.contains(rows@[k]));
                let m = choose|m: int| 0 <= m < listed.len() && listed[m] == rows@[k];
                assert(needed@[m] == (rows@[k].0 as u32, rows@[k].1));
            }
            assert forall|k: int| 0 <= k < needed@.len() implies rows@.contains(
                ((#[trigger] needed@[k]).0 as u64, needed@[k].1, 0u64),
            ) by {
                assert(listed[k] == (needed@[k].0 as u64, needed@[k].1, 0u64));
                assert(listed.to_multiset().count(listed[k]) > 0);
            }
        }
        let size: u64 = arch.thunk_size();
        let mut entries: Vec<Thunk> = Vec::new();
        let mut j: usize = 0;
        while j < rows.len()
            invariant
                j <= rows@.len(),
                size == arch.thunk_size(),
                forall|output: u32| #[trigger] pool_start.requires((output,)),
                crate::order::rows_sorted(rows@),
                forall|k: int|
                    0 <= k < rows@.len() ==> (#[trigger] rows@[k]).0 <= u32::MAX && rows@[k].2 == 0
                        && needed@.contains((rows@[k].0 as u32, rows@[k].1)),
                sorted(entries@),
                packed(entries@, size),
                j > 0 ==> entries@.len() > 0 && entries@.last().output == rows@[j - 1].0
                    && entries@.last().target == rows@[j - 1].1,
                j == 0 ==> entries@.len() == 0,
                forall|k: int|
                    0 <= k < entries@.len() ==> needed@.contains(
                        ((#[trigger] entries@[k]).output, entries@[k].target),
                    ),
                forall|k: int|
                    0 <= k < j ==> exists|m: int|
                        0 <= m < entries@.len() && (#[trigger] entries@[m]).output
                            == (#[trigger] rows@[k]).0 && entries@[m].target == rows@[k].1,
                forall|k: int|
                    0 <= k < entries@.len() && #[trigger] starts_pool(entries@, k)
                        ==> pool_start.ensures((entries@[k].output,), entries@[k].offset),
            decreases rows@.len() - j,
        {
            let row: (u64, u64, u64) = rows[j];
            let output: u32 = row.0 as u32;
            let target: u64 = row.1;
            let n: usize = entries.len();
            let repeated: bool = n > 0 && entries[n - 1].output == output && entries[n - 1].target
                == target;
            if !repeated {
                let offset: u64 = if n > 0 && entries[n - 1].output == output {
                    entries[n - 1].offset.saturating_add(size)
                } else {
                    pool_start(output)
                };
                let ghost earlier = entries@;
                entries.push(Thunk { output, target, offset });
                proof {
                    let e = entries@;
                    assert(e[n as int] == Thunk { output, target, offset });
                    assert forall|a: int| 0 <= a < n implies e[a] == earlier[a] by {}
                    if n > 0 {
                        assert(!crate::order::row_less(rows@[j as int], rows@[j - 1]));
                        assert(before(
                            e[n - 1].output,
                            e[n - 1].target,
                            e[n as int].output,
                            e[n as int].target,
                        ));
                    }
                    assert forall|a: int, b: int| 0 <= a < b < e.len() implies before(
                        (#[trigger] e[a]).output,
                        e[a].target,
                        (#[trigger] e[b]).output,
                        e[b].target,
                    ) by {
                        if b == n && a < n - 1 {
                            assert(before(
                                earlier[a].output,
                                earlier[a].target,
                                earlier[n - 1].output,
                                earlier[n - 1].target,
                            ));
                        }
                    }
                    assert forall|k: int| 0 <= k < e.len() implies #[trigger] follows(
                        e,
                        k,
                        size,
                    ) by {
                        if k < n {
                            assert(follows(earlier, k, size));
                        }
                    }
                    assert forall|k: int|
                        0 <= k < e.len() && #[trigger] starts_pool(
                            e,
                            k,
                        ) implies pool_start.ensures((e[k].output,), e[k].offset) by {
                        if k < n {
                            assert(starts_pool(earlier, k));
                        }
                    }
                    assert forall|k: int| 0 <= k < j + 1 implies exists|m: int|
                        0 <= m < e.len() && (#[trigger] e[m]).output == (#[trigger] rows@[k]).0
                            && e[m].target == rows@[k].1 by {
                        if k < j {
                            let m = choose|m: int|
                                0 <= m < earlier.len() && (#[trigger] earlier[m]).output
                                    == rows@[k].0 && earlier[m].target == rows@[k].1;
                            assert(e[m].output == rows@[k].0);
                        } else {
                            assert(e[n as int].output == rows@[k].0);
                        }
                    }
                }
            } else {
                assert(entries@[n - 1].output == rows@[j as int].0);
            }
            j += 1;
        }
        proof {
            assert forall|k: int| 0 <= k < needed@.len() implies exists|m: int|
                0 <= m < entries@.len() && (#[trigger] entries@[m]).output
                    == (#[trigger] needed@[k]).0 && entries@[m].target == needed@[k].1 by {
                let row = (needed@[k].0 as u64, needed@[k].1, 0u64);
                assert(rows@.contains(row));
                let a = choose|a: int| 0 <= a < rows@.len() && rows@[a] == row;
                let m = choose|m: int|
                    0 <= m < entries@.len() && (#[trigger] entries@[m]).output == rows@[a].0
                        && entries@[m].target == rows@[a].1;
                assert(entries@[m].output == needed@[k].0);
            }
        }
        Thunks { entries, arch }
    }

    /// The bytes of the thunks of output section `output`, whose contents
    /// start at address `base`, as `(offset, bytes)` pairs.
    pub fn render(&self, output: u32, base: u64) -> (r: Vec<(u64, Vec<u8>)>)
        ensures
            shown(r@) == rendered(*self, output, base, 0),
    {
        let mut out: Vec<(u64, Vec<u8>)> = Vec::new();
        let size: usize = self.arch.thunk_size() as usize;
        let mut i: usize = 0;
        assert(shown(out@) + rendered(*self, output, base, 0) =~= rendered(*self, output, base, 0));
        while i < self.entries.len()
            invariant
                i <= self.entries@.len(),
                size == self.arch.thunk_size(),
                rendered(*self, output, base, 0) == shown(out@) + rendered(
                    *self,
                    output,
                    base,
                    i as int,
                ),
            decreases self.entries@.len() - i,
        {
            let thunk: Thunk = self.entries[i];
            let ghost before = shown(out@);
            let ghost rest = rendered(*self, output, base, i + 1);
            if thunk.output == output {
                let mut bytes: Vec<u8> = zeros(size);
                let address: u64 = base.wrapping_add(thunk.offset);
                let written: Result<(), super::ApplyError> = self.arch.write_thunk(
                    bytes.as_mut_slice(),
                    0,
                    address,
                    thunk.target,
                );
                if written.is_ok() {
                    let ghost pair = (thunk.offset, bytes@);
                    out.push((thunk.offset, bytes));
                    assert(shown(out@) =~= before.push(pair));
                    assert(before + (seq![pair] + rest) =~= shown(out@) + rest);
                }
            }
            i += 1;
        }
        assert(shown(out@) + rendered(*self, output, base, i as int) =~= shown(out@));
        out
    }
}

/// `n` as a 32-bit section index, or the highest there is.
#[verifier::allow_in_spec]
pub fn index32(n: usize) -> u32
    returns
        (if n > u32::MAX as usize {
            u32::MAX
        } else {
            n as u32
        }),
{
    if n > u32::MAX as usize {
        u32::MAX
    } else {
        n as u32
    }
}

/// Whether section flags say code.
#[verifier::allow_in_spec]
pub fn is_code(sh_flags: u64) -> bool
    returns
        (sh_flags & (SHF_ALLOC | SHF_EXECINSTR) == (SHF_ALLOC | SHF_EXECINSTR)),
{
    sh_flags & (SHF_ALLOC | SHF_EXECINSTR) == (SHF_ALLOC | SHF_EXECINSTR)
}

/// Whether a section's branches may need thunks, and if so the output
/// section it is in and its address.
pub open spec fn spec_caller(
    refs: Refs,
    layout: Layout,
    file: int,
    index: usize,
    section: InputSection,
) -> Option<(u32, u64)> {
    if section.relocs == 0 || !is_code(section.header.sh_flags) || section.kind
        == SectionKind::Ignored || !refs.sections.spec_is_live_in(file, index32(index) as int) {
        None
    } else {
        match refs.sections.spec_id(file, index32(index) as int) {
            None => None,
            Some(id) => match layout.spec_output_of(id) {
                None => None,
                Some(output) => Some(
                    (
                        output,
                        match layout.spec_address(id) {
                            Some(base) => base,
                            None => 0,
                        },
                    ),
                ),
            },
        }
    }
}

/// Whether a section's branches may need thunks, and if so the output
/// section it is in and its address.
pub fn caller(
    refs: &Refs,
    layout: &Layout,
    file: usize,
    index: usize,
    section: &InputSection,
) -> (r: Option<(u32, u64)>)
    ensures
        r == spec_caller(*refs, *layout, file as int, index, *section),
{
    let at: u32 = index32(index);
    if section.relocs == 0 || !is_code(section.header.sh_flags) || section.kind
        == SectionKind::Ignored || !refs.sections.is_live_in(file, at) {
        return None;
    }
    let Some(id) = refs.sections.id(file, at) else {
        return None;
    };
    let Some(output) = layout.output_of(id) else {
        return None;
    };
    let base: u64 = match layout.address(id) {
        Some(base) => base,
        None => 0,
    };
    Some((output, base))
}

/// The address of a symbol's definition, where branches to it are planned:
/// in a section that is in the output, or an absolute value.
pub open spec fn spec_defined_at(refs: Refs, layout: Layout, def: Def) -> Option<u64> {
    match def {
        Def::Section { file, section, value } => match refs.sections.spec_id(
            file as int,
            section as int,
        ) {
            None => None,
            Some(id) => match (layout.position_of(id), layout.spec_address(id)) {
                (Some(_), Some(base)) => Some(base.wrapping_add(value)),
                _ => None,
            },
        },
        Def::Absolute(value) => Some(value),
        _ => None,
    }
}

/// The address of a symbol's definition, where branches to it are planned.
pub fn defined_at(refs: &Refs, layout: &Layout, def: Def) -> (r: Option<u64>)
    ensures
        r == spec_defined_at(*refs, *layout, def),
{
    match def {
        Def::Section { file, section, value } => {
            let Some(id) = refs.sections.id(file, section) else {
                return None;
            };
            match (layout.find_position(id), layout.address(id)) {
                (Some(_), Some(base)) => Some(base.wrapping_add(value)),
                _ => None,
            }
        },
        Def::Absolute(value) => Some(value),
        _ => None,
    }
}

/// The stub a branch to `target` goes through: its IFUNC stub, or its PLT
/// entry when another module may define it.
pub open spec fn spec_stub(
    refs: Refs,
    layout: Layout,
    target: Target,
    owner: Owner,
) -> Option<u64> {
    let iplt = if target.is_ifunc() {
        crate::elf::layout::entry_of(layout.iplt@, owner, 0)
    } else {
        None
    };
    if iplt is Some {
        iplt
    } else if refs.flags_of(target).contains(NEEDS_PLT | PREEMPTIBLE) {
        crate::elf::layout::entry_of(layout.plt@, owner, 0)
    } else {
        None
    }
}

/// The stub a branch to `target` goes through.
pub fn stub(refs: &Refs, layout: &Layout, target: Target, owner: Owner) -> (r: Option<u64>)
    ensures
        r == spec_stub(*refs, *layout, target, owner),
{
    if target.is_ifunc() {
        let iplt: Option<u64> = find_entry(&layout.iplt, owner);
        if iplt.is_some() {
            return iplt;
        }
    }
    if refs.target_flags(target).contains(NEEDS_PLT | PREEMPTIBLE) {
        return find_entry(&layout.plt, owner);
    }
    None
}

/// What [`branch_target`] gives.
pub open spec fn spec_branch_target(
    refs: Refs,
    layout: Layout,
    file: usize,
    symbol: u32,
    addend: i64,
) -> Option<(u64, Option<u64>, u8)> {
    match refs.spec_target(file as int, symbol as int) {
        None => None,
        Some(target) => {
            let owner = Owner::of(target.global, file, symbol);
            match spec_stub(refs, layout, target, owner) {
                Some(address) => {
                    let slot = match crate::elf::layout::entry_of(layout.plt_slots@, owner, 0) {
                        Some(slot) => slot,
                        None => 0,
                    };
                    Some((address, Some(slot), 0))
                },
                None => {
                    let st_other = match target.raw {
                        Some(raw) => raw.st_other,
                        None => 0,
                    };
                    let address = match target.def {
                        Def::Undefined { .. } => if symbol == 0 {
                            Some(0u64)
                        } else {
                            None
                        },
                        _ => spec_defined_at(refs, layout, target.def),
                    };
                    match address {
                        Some(a) => Some((a.wrapping_add_signed(addend), None, st_other)),
                        None => None,
                    }
                },
            }
        },
    }
}

/// The address a direct branch against `symbol` of `file` ends up branching
/// to, as the writer will compute it, whether that is a stub (and the GOT
/// word it jumps through, 0 when there is none), and the callee's
/// `st_other`.
///
/// Symbol 0 makes the addend an absolute address, which is what an
/// assembler makes of a branch to an absolute symbol it resolved itself.
/// Common, linker-defined and shared-library symbols are no branch targets
/// a thunk serves.
pub fn branch_target(refs: &Refs, layout: &Layout, file: usize, symbol: u32, addend: i64) -> (r:
    Option<(u64, Option<u64>, u8)>)
    ensures
        r == spec_branch_target(*refs, *layout, file, symbol, addend),
{
    let Some(target) = refs.target(file, symbol) else {
        return None;
    };
    let owner: Owner = Owner::of(target.global, file, symbol);
    if let Some(address) = stub(refs, layout, target, owner) {
        let slot: u64 = match find_entry(&layout.plt_slots, owner) {
            Some(slot) => slot,
            None => 0,
        };
        return Some((address, Some(slot), 0));
    }
    let st_other: u8 = match target.raw {
        Some(raw) => raw.st_other,
        None => 0,
    };
    let address: Option<u64> = match target.def {
        Def::Undefined { .. } => if symbol == 0 {
            Some(0)
        } else {
            None
        },
        _ => defined_at(refs, layout, target.def),
    };
    match address {
        Some(a) => Some((a.wrapping_add_signed(addend), None, st_other)),
        None => None,
    }
}

/// The destination that relocation `rel` of a section at `base` needs a
/// thunk for.
pub open spec fn spec_need(
    input: LayoutInput,
    layout: Layout,
    file: usize,
    base: u64,
    rel: Relocation,
) -> Option<u64> {
    if !input.arch.is_thunk_branch(rel.r_type) {
        None
    } else {
        match spec_branch_target(*input.refs, layout, file, rel.symbol, rel.addend) {
            None => None,
            Some((target, slot, st_other)) => input.arch.spec_branch_thunk(
                Branch {
                    r_type: rel.r_type,
                    place: base.wrapping_add(rel.offset),
                    target,
                    st_other,
                    via_stub: slot is Some,
                    slot,
                },
            ),
        }
    }
}

/// The thunks that relocations from `i` on need.
pub open spec fn relocations_need(
    input: LayoutInput,
    layout: Layout,
    file: usize,
    caller: (u32, u64),
    relocs: Seq<Relocation>,
    i: int,
) -> Seq<(u32, u64)>
    decreases relocs.len() - i,
{
    if i < 0 || i >= relocs.len() {
        Seq::empty()
    } else {
        let rest = relocations_need(input, layout, file, caller, relocs, i + 1);
        match spec_need(input, layout, file, caller.1, relocs[i]) {
            Some(destination) => seq![(caller.0, destination)] + rest,
            None => rest,
        }
    }
}

/// The thunks that sections from `i` on of an object need.
pub open spec fn sections_need(
    input: LayoutInput,
    layout: Layout,
    file: usize,
    object: ObjectInput,
    i: int,
) -> Seq<(u32, u64)>
    decreases object.sections@.len() - i,
{
    if i < 0 || i >= object.sections@.len() {
        Seq::empty()
    } else {
        let rest = sections_need(input, layout, file, object, i + 1);
        let section = object.sections@[i];
        match (spec_caller(*input.refs, layout, file as int, i as usize, section), section.relocations) {
            (Some(caller), RelocTable::Rela(relocs)) => relocations_need(
                input,
                layout,
                file,
                caller,
                relocs@,
                0,
            ) + rest,
            _ => rest,
        }
    }
}

/// The thunks that files from `f` on need.
pub open spec fn files_need(input: LayoutInput, layout: Layout, f: int) -> Seq<(u32, u64)>
    decreases input.refs.files@.len() - f,
{
    if f < 0 || f >= input.refs.files@.len() {
        Seq::empty()
    } else {
        let rest = files_need(input, layout, f + 1);
        match input.refs.files@[f].object {
            Some(object) => sections_need(input, layout, f as usize, object, 0) + rest,
            None => rest,
        }
    }
}

/// Where the pool of `output` starts: at its end, without the thunks
/// planned before, on a word boundary.
pub open spec fn spec_pool_start(layout: Layout, previous: Thunks, output: u32) -> u64 {
    let size = layout.size_from(output, 0);
    let planned = previous.spec_size_of(output);
    let end = if size >= planned {
        (size - planned) as u64
    } else {
        0
    };
    saturated(end, 3) & !3
}

/// Where the pool of `output` starts.
pub fn pool_start(layout: &Layout, previous: &Thunks, output: u32) -> (r: u64)
    ensures
        r == spec_pool_start(*layout, *previous, output),
{
    let end: u64 = layout.size_of(output).saturating_sub(previous.size_of(output));
    end.saturating_add(3) & !3
}

/// Collects the thunks that the relocations of one section need.
fn collect_relocations(
    input: &LayoutInput,
    layout: &Layout,
    file: usize,
    caller: (u32, u64),
    relocs: &Vec<Relocation>,
    needed: &mut Vec<(u32, u64)>,
)
    ensures
        final(needed)@ == old(needed)@ + relocations_need(
            *input,
            *layout,
            file,
            caller,
            relocs@,
            0,
        ),
{
    let mut i: usize = 0;
    while i < relocs.len()
        invariant
            i <= relocs@.len(),
            old(needed)@ + relocations_need(*input, *layout, file, caller, relocs@, 0) == needed@
                + relocations_need(*input, *layout, file, caller, relocs@, i as int),
        decreases relocs@.len() - i,
    {
        let rel: Relocation = relocs[i];
        let ghost before = needed@;
        let ghost rest = relocations_need(*input, *layout, file, caller, relocs@, i + 1);
        if input.arch.is_thunk_branch(rel.r_type) {
            if let Some((target, slot, st_other)) = branch_target(
                input.refs,
                layout,
                file,
                rel.symbol,
                rel.addend,
            ) {
                let branch: Branch = Branch {
                    r_type: rel.r_type,
                    place: caller.1.wrapping_add(rel.offset),
                    target,
                    st_other,
                    via_stub: slot.is_some(),
                    slot,
                };
                if let Some(destination) = input.arch.branch_thunk(branch) {
                    needed.push((caller.0, destination));
                    assert(before + (seq![(caller.0, destination)] + rest) =~= needed@ + rest);
                }
            }
        }
        i += 1;
    }
    assert(needed@ + relocations_need(*input, *layout, file, caller, relocs@, i as int)
        =~= needed@);
}

/// Collects the thunks that the sections of one object need.
fn collect_sections(
    input: &LayoutInput,
    layout: &Layout,
    file: usize,
    object: &ObjectInput,
    needed: &mut Vec<(u32, u64)>,
)
    ensures
        final(needed)@ == old(needed)@ + sections_need(*input, *layout, file, *object, 0),
{
    let mut i: usize = 0;
    while i < object.sections.len()
        invariant
            i <= object.sections@.len(),
            old(needed)@ + sections_need(*input, *layout, file, *object, 0) == needed@
                + sections_need(*input, *layout, file, *object, i as int),
        decreases object.sections@.len() - i,
    {
        let section: &InputSection = &object.sections[i];
        let ghost before = needed@;
        let ghost rest = sections_need(*input, *layout, file, *object, i + 1);
        let found: Option<(u32, u64)> = caller(input.refs, layout, file, i, section);
        if let (Some(c), RelocTable::Rela(relocs)) = (found, &section.relocations) {
            collect_relocations(input, layout, file, c, relocs, needed);
            proof {
                let here = relocations_need(*input, *layout, file, c, relocs@, 0);
                assert(before + (here + rest) =~= needed@ + rest);
            }
        }
        i += 1;
    }
    assert(needed@ + sections_need(*input, *layout, file, *object, i as int) =~= needed@);
}

/// Collects the thunks that every file needs.
fn collect_files(input: &LayoutInput, layout: &Layout) -> (needed: Vec<(u32, u64)>)
    ensures
        needed@ == files_need(*input, *layout, 0),
{
    let mut needed: Vec<(u32, u64)> = Vec::new();
    let mut f: usize = 0;
    assert(needed@ + files_need(*input, *layout, 0) =~= files_need(*input, *layout, 0));
    while f < input.refs.files.len()
        invariant
            f <= input.refs.files@.len(),
            files_need(*input, *layout, 0) == needed@ + files_need(*input, *layout, f as int),
        decreases input.refs.files@.len() - f,
    {
        let ghost before = needed@;
        let ghost rest = files_need(*input, *layout, f + 1);
        if let Some(object) = &input.refs.files[f].object {
            collect_sections(input, layout, f, object, &mut needed);
            proof {
                let here = sections_need(*input, *layout, f, *object, 0);
                assert(before + (here + rest) =~= needed@ + rest);
            }
        }
        f += 1;
    }
    assert(needed@ + files_need(*input, *layout, f as int) =~= needed@);
    needed
}

/// Plans the thunks the layout in `layout` needs, given the ones the
/// `previous` round planned (whose space `layout` already reserves).
pub fn plan(input: &LayoutInput, layout: &Layout, previous: &Thunks) -> (r: Thunks)
    ensures
        ({
            let needed = files_need(*input, *layout, 0);
            if !input.arch.needs_thunks() || needed.len() == 0 {
                r.entries@.len() == 0 && r.arch == Arch::X86_64
            } else {
                is_table(
                    input.arch,
                    needed,
                    |output: u32| spec_pool_start(*layout, *previous, output),
                    r,
                )
            }
        }),
{
    if !input.arch.needs_thunks() {
        return Thunks::default();
    }
    let needed: Vec<(u32, u64)> = collect_files(input, layout);
    if needed.len() == 0 {
        return Thunks::default();
    }
    let start = |output: u32| -> (at: u64)
        ensures
            at == spec_pool_start(*layout, *previous, output),
        { pool_start(layout, previous, output) };
    Thunks::build(input.arch, needed, &start)
}

/// Every branch that needs a thunk finds it in the table, at an offset of
/// its own output section.
pub proof fn needed_thunks_are_found(
    arch: Arch,
    needed: Seq<(u32, u64)>,
    start: spec_fn(u32) -> u64,
    thunks: Thunks,
    k: int,
)
    requires
        is_table(arch, needed, start, thunks),
        0 <= k < needed.len(),
    ensures
        exists|i: int|
            0 <= i < thunks.entries@.len() && (#[trigger] thunks.entries@[i]).output == needed[k].0
                && thunks.entries@[i].target == needed[k].1 && (forall|j: int|
                0 <= j < thunks.entries@.len() && j != i ==> (#[trigger] thunks.entries@[j]).output
                    != needed[k].0 || thunks.entries@[j].target != needed[k].1),
{
    let e = thunks.entries@;
    assert(needed[k] == needed[k]);
    let i = choose|i: int|
        0 <= i < e.len() && (#[trigger] e[i]).output == needed[k].0 && e[i].target == needed[k].1;
    assert forall|j: int| 0 <= j < e.len() && j != i implies (#[trigger] e[j]).output
        != needed[k].0 || e[j].target != needed[k].1 by {
        if j < i {
            assert(before(e[j].output, e[j].target, e[i].output, e[i].target));
        } else {
            assert(before(e[i].output, e[i].target, e[j].output, e[j].target));
        }
    }
}

/// A branch to a symbol that an input section defines, and that goes through
/// no stub, is planned for the address of the section plus the symbol's value
/// plus the addend: that is where it has to reach, and the destination of the
/// AArch64 thunk it gets where it does not.
pub proof fn branches_lead_to_their_symbol(
    input: LayoutInput,
    layout: Layout,
    file: usize,
    base: u64,
    rel: Relocation,
    id: crate::ids::SectionId,
)
    requires
        file < input.refs.targets@.len(),
        rel.symbol < input.refs.targets@[file as int]@.len(),
        input.refs.targets@[file as int]@[rel.symbol as int] matches Some(target) && {
            &&& target.def matches Def::Section { file: f, section, .. } && {
                &&& f < input.refs.sections.ids@.len()
                &&& section < input.refs.sections.ids@[f as int]@.len()
                &&& input.refs.sections.ids@[f as int]@[section as int] == Some(id)
            }
            &&& !target.ifunc
            &&& target.global is None || !(target.global->0.position
                < input.refs.symbols.symbols@.len()) || input.refs.symbols.symbols@[(
            target.global->0).position as int].flags.bits & 0x1_0010 != 0x1_0010
        },
        id.position < layout.section_shndx@.len(),
        id.position < layout.section_addr@.len(),
        layout.section_shndx@[id.position as int] != 0,
    ensures
        ({
            let target = input.refs.targets@[file as int]@[rel.symbol as int]->0;
            let value = target.def->Section_value;
            let there = layout.section_addr@[id.position as int].wrapping_add(
                value,
            ).wrapping_add_signed(rel.addend);
            let away = there.wrapping_sub(base.wrapping_add(rel.offset)) as i64;
            &&& spec_branch_target(*input.refs, layout, file, rel.symbol, rel.addend) == Some(
                (
                    there,
                    None::<u64>,
                    match target.raw {
                        Some(raw) => raw.st_other,
                        None => 0,
                    },
                ),
            )
            &&& input.arch == Arch::AArch64 && (rel.r_type == 282 || rel.r_type == 283)
                ==> spec_need(input, layout, file, base, rel) == (if -0x800_0000 <= away
                < 0x800_0000 {
                None
            } else {
                Some(there)
            })
        }),
{
    vstd::arithmetic::power2::lemma2_to64();
    assert(vstd::arithmetic::power2::pow2(27) == 0x800_0000);
    assert(NEEDS_PLT | PREEMPTIBLE == 0x1_0010) by {
        word_boundaries(0);
    }
    word_boundaries(0);
}

/// Two symbols at different places of one section are different
/// destinations for branches with equal addends.
pub proof fn symbols_of_a_section_are_told_apart(
    refs: Refs,
    layout: Layout,
    file: usize,
    section: u32,
    a: u64,
    b: u64,
)
    requires
        a != b,
        spec_defined_at(refs, layout, Def::Section { file, section, value: a }) is Some,
    ensures
        spec_defined_at(refs, layout, Def::Section { file, section, value: a }) != spec_defined_at(
            refs,
            layout,
            Def::Section { file, section, value: b },
        ),
{
}

/// A list that some relocation needs a thunk for holds its destination.
proof fn relocations_list_their_needs(
    input: LayoutInput,
    layout: Layout,
    file: usize,
    caller: (u32, u64),
    relocs: Seq<Relocation>,
    i: int,
    k: int,
)
    requires
        0 <= i <= k < relocs.len(),
        spec_need(input, layout, file, caller.1, relocs[k]) is Some,
    ensures
        relocations_need(input, layout, file, caller, relocs, i).contains(
            (caller.0, spec_need(input, layout, file, caller.1, relocs[k])->0),
        ),
    decreases relocs.len() - i,
{
    let all = relocations_need(input, layout, file, caller, relocs, i);
    let rest = relocations_need(input, layout, file, caller, relocs, i + 1);
    let pair = (caller.0, spec_need(input, layout, file, caller.1, relocs[k])->0);
    if i == k {
        assert(all[0] == pair);
    } else {
        relocations_list_their_needs(input, layout, file, caller, relocs, i + 1, k);
        let j = choose|j: int| 0 <= j < rest.len() && rest[j] == pair;
        if spec_need(input, layout, file, caller.1, relocs[i]) is Some {
            assert(all[j + 1] == pair);
        }
    }
}

/// What sections from a later one on need is among what those from an
/// earlier one on need.
proof fn sections_list_their_needs(
    input: LayoutInput,
    layout: Layout,
    file: usize,
    object: ObjectInput,
    i: int,
    k: int,
    pair: (u32, u64),
)
    requires
        0 <= i <= k <= object.sections@.len(),
        sections_need(input, layout, file, object, k).contains(pair),
    ensures
        sections_need(input, layout, file, object, i).contains(pair),
    decreases k - i,
{
    if i < k {
        sections_list_their_needs(input, layout, file, object, i + 1, k, pair);
        let all = sections_need(input, layout, file, object, i);
        let rest = sections_need(input, layout, file, object, i + 1);
        let j = choose|j: int| 0 <= j < rest.len() && rest[j] == pair;
        assert(all[all.len() - rest.len() + j] == pair);
    }
}

/// What files from a later one on need is among what those from an earlier
/// one on need.
proof fn files_list_their_needs(
    input: LayoutInput,
    layout: Layout,
    f: int,
    k: int,
    pair: (u32, u64),
)
    requires
        0 <= f <= k <= input.refs.files@.len(),
        files_need(input, layout, k).contains(pair),
    ensures
        files_need(input, layout, f).contains(pair),
    decreases k - f,
{
    if f < k {
        files_list_their_needs(input, layout, f + 1, k, pair);
        let all = files_need(input, layout, f);
        let rest = files_need(input, layout, f + 1);
        let j = choose|j: int| 0 <= j < rest.len() && rest[j] == pair;
        assert(all[all.len() - rest.len() + j] == pair);
    }
}

/// Every relocation of live code that needs a thunk finds one for its
/// destination, in the output section its code is in.
pub proof fn far_branches_get_their_thunk(
    input: LayoutInput,
    layout: Layout,
    previous: Thunks,
    thunks: Thunks,
    f: int,
    i: int,
    k: int,
)
    requires
        is_table(
            input.arch,
            files_need(input, layout, 0),
            |output: u32| spec_pool_start(layout, previous, output),
            thunks,
        ),
        0 <= f < input.refs.files@.len() <= usize::MAX,
        input.refs.files@[f].object matches Some(object) && {
            &&& 0 <= i < object.sections@.len() <= usize::MAX
            &&& object.sections@[i].relocations matches RelocTable::Rela(relocs) && {
                &&& 0 <= k < relocs@.len()
                &&& spec_caller(*input.refs, layout, f, i as usize, object.sections@[i]) matches Some(
                    (_, base),
                ) && spec_need(input, layout, f as usize, base, relocs@[k]) is Some
            }
        },
    ensures
        ({
            let section = input.refs.files@[f].object->0.sections@[i];
            let (output, base) = spec_caller(*input.refs, layout, f, i as usize, section)->0;
            let rel = section.relocations->Rela_0@[k];
            exists|t: int|
                0 <= t < thunks.entries@.len() && (#[trigger] thunks.entries@[t]).output == output
                    && thunks.entries@[t].target == spec_need(
                    input,
                    layout,
                    f as usize,
                    base,
                    rel,
                )->0
        }),
{
    let object = input.refs.files@[f].object->0;
    let section = object.sections@[i];
    let relocs = section.relocations->Rela_0@;
    let caller = spec_caller(*input.refs, layout, f, i as usize, section)->0;
    let pair = (caller.0, spec_need(input, layout, f as usize, caller.1, relocs[k])->0);
    relocations_list_their_needs(input, layout, f as usize, caller, relocs, 0, k);
    let here = relocations_need(input, layout, f as usize, caller, relocs, 0);
    let a = choose|a: int| 0 <= a < here.len() && here[a] == pair;
    let mine = sections_need(input, layout, f as usize, object, i);
    assert(mine[a] == pair);
    sections_list_their_needs(input, layout, f as usize, object, 0, i, pair);
    let whole = sections_need(input, layout, f as usize, object, 0);
    let b = choose|b: int| 0 <= b < whole.len() && whole[b] == pair;
    assert(files_need(input, layout, f)[b] == pair);
    files_list_their_needs(input, layout, 0, f, pair);
    let needed = files_need(input, layout, 0);
    let c = choose|c: int| 0 <= c < needed.len() && needed[c] == pair;
    needed_thunks_are_found(
        input.arch,
        needed,
        |output: u32| spec_pool_start(layout, previous, output),
        thunks,
        c,
    );
}

/// The pool of an output section starts on a word boundary behind what the
/// section held before the thunks planned earlier, and no more than a word
/// behind it.
pub proof fn pools_start_behind_their_section(layout: Layout, previous: Thunks, output: u32)
    requires
        layout.size_from(output, 0) >= previous.spec_size_of(output),
        layout.size_from(output, 0) - previous.spec_size_of(output) < u64::MAX - 3,
    ensures
        ({
            let end = layout.size_from(output, 0) - previous.spec_size_of(output);
            let start = spec_pool_start(layout, previous, output);
            end <= start < end + 4 && start % 4 == 0
        }),
{
    let end = (layout.size_from(output, 0) - previous.spec_size_of(output)) as u64;
    word_boundaries((end + 3) as u64);
}

/// Clearing the low two bits goes down to a word boundary; the flags of a
/// symbol that branches reach through a stub.
proof fn word_boundaries(v: u64)
    by (bit_vector)
    ensures
        (v & !3) % 4 == 0,
        v & !3 <= v,
        v - (v & !3) < 4,
        0x10u32 | 0x1_0000u32 == 0x1_0010,
        0u32 & 0x1_0010u32 == 0,
        2u64 | 4u64 == 6,
{
}

/// The branches of every live code section in the output are planned, from
/// the address of the section, for the pool of its output section; AArch64
/// and PowerPC64 are the architectures whose branches are.
pub proof fn live_code_is_planned(
    refs: Refs,
    layout: Layout,
    file: int,
    index: usize,
    section: InputSection,
    id: crate::ids::SectionId,
)
    requires
        section.relocs != 0,
        section.header.sh_flags & 6 == 6,
        section.kind != SectionKind::Ignored,
        0 <= file < refs.sections.ids@.len(),
        index < refs.sections.ids@[file]@.len(),
        index <= u32::MAX,
        refs.sections.ids@[file]@[index as int] == Some(id),
        id.position < refs.sections.live@.len(),
        refs.sections.live@[id.position as int],
        id.position < layout.section_shndx@.len(),
        0 < layout.section_shndx@[id.position as int] <= layout.sections@.len(),
        id.position < layout.section_addr@.len(),
    ensures
        spec_caller(refs, layout, file, index, section) == Some(
            (
                layout.sections@[layout.section_shndx@[id.position as int] - 1].output,
                layout.section_addr@[id.position as int],
            ),
        ),
        Arch::AArch64.needs_thunks(),
        Arch::Ppc64.needs_thunks(),
        Arch::AArch64.thunk_size() == 12,
        Arch::Ppc64.thunk_size() == 36,
{
    word_boundaries(0);
}

/// A branch to a function that another module may define goes to its PLT
/// entry, whatever the addend, with the word that the entry jumps through.
pub proof fn branches_to_other_modules_go_through_the_plt(
    refs: Refs,
    layout: Layout,
    file: usize,
    symbol: u32,
    addend: i64,
    id: crate::ids::SymbolId,
    p: int,
)
    requires
        file < refs.targets@.len(),
        symbol < refs.targets@[file as int]@.len(),
        refs.targets@[file as int]@[symbol as int] matches Some(target) && !target.ifunc
            && target.global == Some(id),
        id.position < refs.symbols.symbols@.len(),
        refs.symbols.symbols@[id.position as int].flags.bits & 0x1_0010 == 0x1_0010,
        0 <= p < layout.plt@.len(),
        layout.plt@[p].0 == Owner::of(Some(id), file, symbol),
        forall|q: int| 0 <= q < p ==> (#[trigger] layout.plt@[q]).0 != layout.plt@[p].0,
    ensures
        spec_branch_target(refs, layout, file, symbol, addend) matches Some((to, slot, _))
            && to == layout.plt@[p].1 && slot is Some,
{
    word_boundaries(0);
    first_entries_are_found(layout.plt@, layout.plt@[p].0, 0, p);
}

/// The first entry of an owner is the one that is found.
proof fn first_entries_are_found(entries: Seq<(Owner, u64)>, owner: Owner, i: int, p: int)
    requires
        0 <= i <= p < entries.len(),
        entries[p].0 == owner,
        forall|q: int| i <= q < p ==> (#[trigger] entries[q]).0 != owner,
    ensures
        crate::elf::layout::entry_of(entries, owner, i) == Some(entries[p].1),
    decreases p - i,
{
    if i < p {
        assert(entries[i].0 != owner);
        first_entries_are_found(entries, owner, i + 1, p);
    }
}

} // verus!
