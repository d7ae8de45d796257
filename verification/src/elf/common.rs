//! Common symbol allocation.
//!
//! A common symbol that wins resolution gets space at the end of `.bss`,
//! with the size of the largest tentative definition (resolution already
//! picked it) and the alignment its `st_value` gives. Symbols are laid out
//! in input order of their winning definitions, so the layout does not
//! depend on symbol IDs or threads.

use vstd::prelude::*;

use super::refs::Refs;
use crate::ids::SymbolId;
use crate::order::row_set;
use crate::parallel::{map_all, numbers};
use crate::symbols::{Definition, DefinitionKind, AUX_COMDAT};

verus! {

/// Allocated common symbols.
#[derive(Debug, PartialEq, Eq)]
pub struct Commons {
    /// `(symbol, offset in the common block)`, sorted by symbol.
    pub entries: Vec<(SymbolId, u64)>,
    /// Total size.
    pub size: u64,
    /// Largest alignment.
    pub align: u64,
}

impl Default for Commons {
    fn default() -> (r: Commons)
        ensures
            r.entries@.len() == 0,
            r.size == 0,
            r.align == 0,
    {
        Commons { entries: Vec::new(), size: 0, align: 0 }
    }
}

/// Entries are in the order of their symbols, each once.
pub open spec fn by_symbol(entries: Seq<(SymbolId, u64)>) -> bool {
    forall|i: int, j: int|
        0 <= i < j < entries.len() ==> (#[trigger] entries[i]).0.position < (
        #[trigger] entries[j]).0.position
}

impl Commons {
    /// Offset of `id` in the common block.
    pub fn offset(&self, id: SymbolId) -> (r: Option<u64>)
        requires
            by_symbol(self.entries@),
        ensures
            match r {
                Some(offset) => self.entries@.contains((id, offset)),
                None => forall|offset: u64| !self.entries@.contains((id, offset)),
            },
    {
        let mut low: usize = 0;
        let mut high: usize = self.entries.len();
        while low < high
            invariant
                low <= high <= self.entries@.len(),
                by_symbol(self.entries@),
                forall|k: int|
                    0 <= k < low ==> (#[trigger] self.entries@[k]).0.position < id.position,
                forall|k: int|
                    high <= k < self.entries@.len() ==> (#[trigger] self.entries@[k]).0.position
                        >= id.position,
            decreases high - low,
        {
            let middle: usize = low + (high - low) / 2;
            if self.entries[middle].0.position < id.position {
                low = middle + 1;
            } else {
                high = middle;
            }
        }
        if low < self.entries.len() && self.entries[low].0.position == id.position {
            let offset: u64 = self.entries[low].1;
            assert(self.entries@[low as int] == (id, offset));
            Some(offset)
        } else {
            proof {
                assert forall|offset: u64| !self.entries@.contains((id, offset)) by {
                    if self.entries@.contains((id, offset)) {
                        let k = choose|k: int|
                            0 <= k < self.entries@.len() && self.entries@[k] == (id, offset);
                        assert(self.entries@[k].0.position == id.position);
                        if k > low {
                            assert(self.entries@[low as int].0.position
                                < self.entries@[k].0.position);
                        }
                    }
                }
            }
            None
        }
    }
}

/// Whether a number is a power of two.
#[verifier::allow_in_spec]
pub fn is_power_of_two(n: u64) -> bool
    returns
        (n != 0 && n & n.wrapping_sub(1) == 0),
{
    n != 0 && n & n.wrapping_sub(1) == 0
}

/// The alignment a common symbol's value gives; 1 where it gives none.
#[verifier::allow_in_spec]
pub fn alignment_of(st_value: u64) -> u64
    returns
        (if is_power_of_two(st_value) {
            st_value
        } else {
            1
        }),
{
    if is_power_of_two(st_value) {
        st_value
    } else {
        1
    }
}

/// A common symbol that won resolution: where its definition is among the
/// inputs, its size and its alignment.
#[derive(Clone, Copy, Debug, PartialEq, Eq, Structural)]
pub struct Winner {
    /// The place of its file on the command line.
    pub position: u64,
    /// Its index among the global symbols of the file.
    pub index: u32,
    /// Its size.
    pub size: u64,
    /// Its alignment.
    pub align: u64,
}

/// The common symbol that `id` is, if it is one.
pub open spec fn winner_of(refs: Refs, id: SymbolId) -> Option<Winner> {
    let def = refs.symbols.definition_of(id);
    if def.kind != DefinitionKind::Common || def.file.position >= refs.files@.len() {
        None
    } else {
        match refs.files@[def.file.position as int].object {
            None => None,
            Some(object) => match object.spec_raw(def.index + object.first_global) {
                None => None,
                Some(raw) => Some(
                    Winner {
                        position: def.position,
                        index: def.index,
                        size: def.aux & !AUX_COMDAT,
                        align: alignment_of(raw.st_value),
                    },
                ),
            },
        }
    }
}

/// The common symbol that `id` is, if it is one.
fn winner(refs: &Refs, id: SymbolId) -> (r: Option<Winner>)
    ensures
        r == winner_of(*refs, id),
{
    let def: Definition = refs.symbols.definition(id);
    if def.kind != DefinitionKind::Common || def.file.position >= refs.files.len() {
        return None;
    }
    let Some(object) = &refs.files[def.file.position].object else {
        return None;
    };
    let total: usize = object.symbols.len();
    if object.first_global >= total || def.index as u64 >= (total - object.first_global) as u64 {
        return None;
    }
    let index: usize = def.index as usize + object.first_global;
    Some(
        Winner {
            position: def.position,
            index: def.index,
            size: def.aux & !AUX_COMDAT,
            align: alignment_of(object.symbols[index].raw.st_value),
        },
    )
}

/// What the common symbols from `i` on are sorted by: the place of the
/// definition, then the symbol.
pub open spec fn rows_from(refs: Refs, i: int) -> Seq<(u64, u64, u64)>
    decreases refs.symbols.symbols@.len() - i,
{
    if i < 0 || i >= refs.symbols.symbols@.len() {
        Seq::empty()
    } else {
        let rest = rows_from(refs, i + 1);
        match winner_of(refs, SymbolId { position: i as usize }) {
            Some(w) => seq![(w.position, w.index as u64, i as u64)] + rest,
            None => rest,
        }
    }
}

/// Where a symbol of alignment `align` goes after `size` bytes; nothing when
/// there is no such place.
#[verifier::allow_in_spec]
pub fn aligned_after(size: u64, align: u64) -> Option<u64>
    returns
        (match size.checked_add(align.wrapping_sub(1)) {
            Some(v) => Some(v & !align.wrapping_sub(1)),
            None => None,
        }),
{
    match size.checked_add(align.wrapping_sub(1)) {
        Some(v) => Some(v & !align.wrapping_sub(1)),
        None => None,
    }
}

/// A common block as it is laid out.
#[verifier::ext_equal]
pub struct Block {
    /// The symbols and their offsets, in order.
    pub entries: Seq<(SymbolId, u64)>,
    /// The size.
    pub size: u64,
    /// The largest alignment.
    pub align: u64,
}

impl Block {
    /// With another symbol behind what is there.
    pub open spec fn with(self, id: SymbolId, w: Winner) -> Block {
        match aligned_after(self.size, w.align) {
            Some(offset) => Block {
                entries: self.entries.push((id, offset)),
                size: crate::elf::arch::thunk::saturated(offset, w.size),
                align: if self.align < w.align {
                    w.align
                } else {
                    self.align
                },
            },
            None => self,
        }
    }
}

/// With the symbols of `rows` from `i` on behind what is there.
pub open spec fn laid_from(refs: Refs, rows: Seq<(u64, u64, u64)>, block: Block, i: int) -> Block
    decreases rows.len() - i,
{
    if i < 0 || i >= rows.len() {
        block
    } else {
        let id = SymbolId { position: rows[i].2 as usize };
        laid_from(
            refs,
            rows,
            match winner_of(refs, id) {
                Some(w) => block.with(id, w),
                None => block,
            },
            i + 1,
        )
    }
}

/// The block of the symbols of `rows`.
pub open spec fn block_of(refs: Refs, rows: Seq<(u64, u64, u64)>) -> Block {
    laid_from(refs, rows, Block { entries: Seq::empty(), size: 0, align: 1 }, 0)
}

/// Whether `commons` is the common block of a link: the common symbols that
/// won resolution, laid out in the order of `rows`, which is that of their
/// definitions.
pub open spec fn is_allocated(refs: Refs, rows: Seq<(u64, u64, u64)>, commons: Commons) -> bool {
    let block = block_of(refs, rows);
    &&& crate::order::is_row_set(rows_from(refs, 0), rows)
    &&& commons.size == block.size
    &&& commons.align == block.align
    &&& by_symbol(commons.entries@)
    &&& forall|e: (SymbolId, u64)| #[trigger]
        commons.entries@.contains(e) <==> block.entries.contains(e)
}

/// A row stands for the symbol it names.
proof fn rows_name_symbols(refs: Refs, i: int)
    requires
        0 <= i,
        refs.symbols.symbols@.len() <= usize::MAX,
    ensures
        forall|row: (u64, u64, u64)| #[trigger]
            rows_from(refs, i).contains(row) ==> i <= row.2 < refs.symbols.symbols@.len() && (
            match winner_of(refs, SymbolId { position: row.2 as usize }) {
                Some(w) => row.0 == w.position && row.1 == w.index,
                None => false,
            }),
    decreases refs.symbols.symbols@.len() - i,
{
    if i < refs.symbols.symbols@.len() {
        rows_name_symbols(refs, i + 1);
        let rest = rows_from(refs, i + 1);
        let all = rows_from(refs, i);
        assert forall|row: (u64, u64, u64)| #[trigger] all.contains(row) implies i <= row.2
            < refs.symbols.symbols@.len() && (match winner_of(
            refs,
            SymbolId { position: row.2 as usize },
        ) {
            Some(w) => row.0 == w.position && row.1 == w.index,
            None => false,
        }) by {
            let k = choose|k: int| 0 <= k < all.len() && all[k] == row;
            match winner_of(refs, SymbolId { position: i as usize }) {
                Some(w) => {
                    if k > 0 {
                        assert(rest[k - 1] == row);
                        assert(rest.contains(row));
                    }
                },
                None => {
                    assert(rest.contains(row));
                },
            }
        }
    }
}

/// No symbol comes twice.
pub open spec fn symbols_once(entries: Seq<(SymbolId, u64)>) -> bool {
    forall|a: int, b: int|
        0 <= a < b < entries.len() ==> (#[trigger] entries[a]).0 != (#[trigger] entries[b]).0
}

/// Every symbol of a block comes from a row, and no symbol comes twice.
proof fn blocks_hold_symbols_once(refs: Refs, rows: Seq<(u64, u64, u64)>, block: Block, i: int)
    requires
        0 <= i <= rows.len(),
        forall|a: int, b: int|
            0 <= a < b < rows.len() ==> (#[trigger] rows[a]).2 as usize != (
            #[trigger] rows[b]).2 as usize,
        forall|k: int|
            0 <= k < block.entries.len() ==> exists|a: int|
                0 <= a < i && (#[trigger] rows[a]).2 as usize == (
                #[trigger] block.entries[k]).0.position,
        symbols_once(block.entries),
    ensures
        symbols_once(laid_from(refs, rows, block, i).entries),
    decreases rows.len() - i,
{
    if i < rows.len() {
        let id = SymbolId { position: rows[i].2 as usize };
        let next = match winner_of(refs, id) {
            Some(w) => block.with(id, w),
            None => block,
        };
        assert forall|k: int| 0 <= k < next.entries.len() implies exists|a: int|
            0 <= a < i + 1 && (#[trigger] rows[a]).2 as usize == (
            #[trigger] next.entries[k]).0.position by {
            if k < block.entries.len() {
                assert(next.entries[k] == block.entries[k]);
                let a = choose|a: int|
                    0 <= a < i && (#[trigger] rows[a]).2 as usize == block.entries[k].0.position;
                assert(rows[a].2 as usize == next.entries[k].0.position);
            } else {
                assert(rows[i].2 as usize == next.entries[k].0.position);
            }
        }
        assert forall|a: int, b: int| 0 <= a < b < next.entries.len() implies (
        #[trigger] next.entries[a]).0 != (#[trigger] next.entries[b]).0 by {
            if b < block.entries.len() {
                assert(block.entries[a].0 != block.entries[b].0);
            } else {
                let c = choose|c: int|
                    0 <= c < i && (#[trigger] rows[c]).2 as usize == block.entries[a].0.position;
                assert(rows[c].2 as usize != rows[i].2 as usize);
            }
        }
        blocks_hold_symbols_once(refs, rows, next, i + 1);
    }
}

/// Lists what the common symbols are sorted by.
fn list_rows(refs: &Refs) -> (r: Vec<(u64, u64, u64)>)
    ensures
        r@ == rows_from(*refs, 0),
{
    let ids: Vec<usize> = numbers(refs.symbols.len());
    let each = |i: &usize| -> (one: Option<Winner>)
        ensures
            one == winner_of(*refs, SymbolId { position: *i }),
        { winner(refs, SymbolId { position: *i }) };
    let winners: Vec<Option<Winner>> = map_all(&ids, each);
    proof {
        assert forall|k: int| 0 <= k < winners@.len() implies #[trigger] winners@[k] == winner_of(
            *refs,
            SymbolId { position: k as usize },
        ) by {
            assert(each.ensures((&ids@[k],), winners@[k]));
        }
    }
    let mut rows: Vec<(u64, u64, u64)> = Vec::new();
    let ghost whole = rows_from(*refs, 0);
    assert(whole =~= rows@ + whole);
    let mut i: usize = 0;
    while i < winners.len()
        invariant
            i <= winners@.len(),
            winners@.len() == refs.symbols.symbols@.len(),
            forall|k: int|
                0 <= k < winners@.len() ==> #[trigger] winners@[k] == winner_of(
                    *refs,
                    SymbolId { position: k as usize },
                ),
            whole == rows@ + rows_from(*refs, i as int),
        decreases winners@.len() - i,
    {
        let ghost before = rows@;
        let ghost rest = rows_from(*refs, i + 1);
        if let Some(w) = winners[i] {
            let row: (u64, u64, u64) = (w.position, w.index as u64, i as u64);
            rows.push(row);
            assert(before + (seq![row] + rest) =~= rows@ + rest);
        }
        i += 1;
    }
    assert(whole =~= rows@);
    rows
}

/// Lays out the common symbols that won resolution.
pub fn allocate(refs: &Refs) -> (r: Commons)
    ensures
        exists|rows: Seq<(u64, u64, u64)>| #[trigger] is_allocated(*refs, rows, r),
{
    let listed: Vec<(u64, u64, u64)> = list_rows(refs);
    let rows: Vec<(u64, u64, u64)> = row_set(listed);
    let total: usize = refs.symbols.len();
    proof {
        rows_name_symbols(*refs, 0);
        assert forall|a: int, b: int| 0 <= a < b < rows@.len() implies (
        #[trigger] rows@[a]).2 as usize != (#[trigger] rows@[b]).2 as usize by {
            assert(rows@.contains(rows@[a]));
            assert(rows@.contains(rows@[b]));
            assert(crate::order::row_less(rows@[a], rows@[b]));
            if rows@[a].2 as usize == rows@[b].2 as usize {
                assert(rows@[a].2 == rows@[b].2);
            }
        }
        blocks_hold_symbols_once(
            *refs,
            rows@,
            Block { entries: Seq::empty(), size: 0, align: 1 },
            0,
        );
    }
    let mut placed: Vec<(u64, u64, u64)> = Vec::new();
    let mut size: u64 = 0;
    let mut align: u64 = 1;
    let ghost mut entries: Seq<(SymbolId, u64)> = Seq::empty();
    let mut i: usize = 0;
    while i < rows.len()
        invariant
            i <= rows@.len(),
            placed@ == Seq::new(
                entries.len(),
                |k: int| (entries[k].0.position as u64, entries[k].1, 0u64),
            ),
            block_of(*refs, rows@) == laid_from(
                *refs,
                rows@,
                (Block { entries, size, align }),
                i as int,
            ),
        decreases rows@.len() - i,
    {
        let id: SymbolId = SymbolId { position: rows[i].2 as usize };
        if let Some(w) = winner(refs, id) {
            if let Some(offset) = aligned_after(size, w.align) {
                size = offset.saturating_add(w.size);
                if align < w.align {
                    align = w.align;
                }
                placed.push((id.position as u64, offset, 0));
                proof {
                    entries = entries.push((id, offset));
                    assert(placed@ =~= Seq::new(
                        entries.len(),
                        |k: int| (entries[k].0.position as u64, entries[k].1, 0u64),
                    ));
                }
            }
        }
        i += 1;
    }
    let ghost listed = placed@;
    let sorted: Vec<(u64, u64, u64)> = row_set(placed);
    let mut out: Vec<(SymbolId, u64)> = Vec::new();
    let mut k: usize = 0;
    while k < sorted.len()
        invariant
            k <= sorted@.len(),
            out@.len() == k,
            forall|m: int|
                0 <= m < k ==> #[trigger] out@[m] == (
                    SymbolId { position: sorted@[m].0 as usize },
                    sorted@[m].1,
                ),
        decreases sorted@.len() - k,
    {
        out.push((SymbolId { position: sorted[k].0 as usize }, sorted[k].1));
        k += 1;
    }
    let commons: Commons = Commons { entries: out, size, align };
    proof {
        assert(block_of(*refs, rows@) == (Block { entries, size, align }));
        assert(symbols_once(entries));
        assert forall|m: int| 0 <= m < sorted@.len() implies exists|n: int|
            0 <= n < entries.len() && listed[n] == #[trigger] sorted@[m] && #[trigger] entries[n]
                == out@[m] by {
            assert(sorted@.contains(sorted@[m]));
            let n = choose|n: int| 0 <= n < listed.len() && listed[n] == sorted@[m];
            assert(entries[n] == out@[m]);
        }
        assert forall|a: int, b: int| 0 <= a < b < out@.len() implies (
        #[trigger] out@[a]).0.position < (#[trigger] out@[b]).0.position by {
            assert(crate::order::row_less(sorted@[a], sorted@[b]));
            let n = choose|n: int|
                0 <= n < entries.len() && listed[n] == sorted@[a] && #[trigger] entries[n]
                    == out@[a];
            let m = choose|m: int|
                0 <= m < entries.len() && listed[m] == sorted@[b] && #[trigger] entries[m]
                    == out@[b];
            if out@[a].0 == out@[b].0 {
                if n < m {
                    assert(entries[n].0 != entries[m].0);
                } else if m < n {
                    assert(entries[m].0 != entries[n].0);
                }
            }
        }
        assert forall|e: (SymbolId, u64)| #[trigger] out@.contains(e) <==> entries.contains(e) by {
            if out@.contains(e) {
                let m = choose|m: int| 0 <= m < out@.len() && out@[m] == e;
                let n = choose|n: int|
                    0 <= n < entries.len() && listed[n] == sorted@[m] && #[trigger] entries[n]
                        == out@[m];
                assert(entries[n] == e);
            }
            if entries.contains(e) {
                let n = choose|n: int| 0 <= n < entries.len() && entries[n] == e;
                assert(listed.contains(listed[n]));
                assert(sorted@.contains(listed[n]));
                let m = choose|m: int| 0 <= m < sorted@.len() && sorted@[m] == listed[n];
                assert(out@[m] == e);
            }
        }
        assert(is_allocated(*refs, rows@, commons));
    }
    commons
}

/// The space and the alignment a symbol needs.
pub open spec fn needs(refs: Refs, id: SymbolId) -> (u64, u64) {
    match winner_of(refs, id) {
        Some(w) => (w.size, w.align),
        None => (0, 1),
    }
}

/// Symbol `a` of a block ends before symbol `b` starts.
pub open spec fn ends_before(refs: Refs, entries: Seq<(SymbolId, u64)>, a: int, b: int) -> bool {
    entries[a].1 + needs(refs, entries[a].0).0 <= entries[b].1
}

/// Every symbol of a block is aligned; unless the block outgrows the address
/// space, every symbol ends inside it and before the next one starts.
pub open spec fn well_laid(refs: Refs, block: Block) -> bool {
    &&& forall|k: int|
        0 <= k < block.entries.len() ==> (#[trigger] block.entries[k]).1 & needs(
            refs,
            block.entries[k].0,
        ).1.wrapping_sub(1) == 0
    &&& block.size < u64::MAX ==> forall|k: int|
        0 <= k < block.entries.len() ==> (#[trigger] block.entries[k]).1 + needs(
            refs,
            block.entries[k].0,
        ).0 <= block.size
    &&& block.size < u64::MAX ==> forall|a: int, b: int|
        0 <= a < b < block.entries.len() ==> #[trigger] ends_before(refs, block.entries, a, b)
}

/// A place that is rounded up comes after what is there and is aligned.
proof fn rounding_up(size: u64, align: u64)
    requires
        is_power_of_two(align),
    ensures
        match aligned_after(size, align) {
            Some(offset) => size <= offset && offset & align.wrapping_sub(1) == 0,
            None => true,
        },
{
    let m = align.wrapping_sub(1);
    if size + m <= u64::MAX {
        let v = (size + m) as u64;
        assert(v & !m >= size && (v & !m) & m == 0) by (bit_vector)
            requires
                v == size + m,
                align == m + 1,
                align & m == 0,
        ;
    }
}

/// Laying out more symbols keeps what [`well_laid`] says.
proof fn laying_keeps_order(refs: Refs, rows: Seq<(u64, u64, u64)>, block: Block, i: int)
    requires
        0 <= i,
        well_laid(refs, block),
    ensures
        well_laid(refs, laid_from(refs, rows, block, i)),
    decreases rows.len() - i,
{
    if i < rows.len() {
        let id = SymbolId { position: rows[i].2 as usize };
        match winner_of(refs, id) {
            Some(w) => {
                clearing_bits(0, 0, 0);
                assert(is_power_of_two(w.align));
                rounding_up(block.size, w.align);
                let next = block.with(id, w);
                match aligned_after(block.size, w.align) {
                    Some(offset) => {
                        assert forall|k: int| 0 <= k < next.entries.len() implies (
                        #[trigger] next.entries[k]).1 & needs(
                            refs,
                            next.entries[k].0,
                        ).1.wrapping_sub(1) == 0 by {
                            if k < block.entries.len() {
                                assert(next.entries[k] == block.entries[k]);
                            }
                        }
                        if next.size < u64::MAX {
                            assert forall|k: int| 0 <= k < next.entries.len() implies (
                            #[trigger] next.entries[k]).1 + needs(refs, next.entries[k].0).0
                                <= next.size by {
                                if k < block.entries.len() {
                                    assert(next.entries[k] == block.entries[k]);
                                }
                            }
                            assert forall|a: int, b: int|
                                0 <= a < b < next.entries.len() implies #[trigger] ends_before(
                                refs,
                                next.entries,
                                a,
                                b,
                            ) by {
                                assert(next.entries[a] == block.entries[a]);
                                if b < block.entries.len() {
                                    assert(ends_before(refs, block.entries, a, b));
                                }
                            }
                        }
                    },
                    None => {},
                }
                laying_keeps_order(refs, rows, next, i + 1);
            },
            None => {
                laying_keeps_order(refs, rows, block, i + 1);
            },
        }
    }
}

/// Common symbols are aligned, and in a block that fits the address space
/// each ends before the next one starts and none ends behind the block.
pub proof fn commons_do_not_overlap(refs: Refs, rows: Seq<(u64, u64, u64)>)
    ensures
        well_laid(refs, block_of(refs, rows)),
{
    laying_keeps_order(refs, rows, Block { entries: Seq::empty(), size: 0, align: 1 }, 0);
}

/// The `st_value` of the symbol table entry that a definition names, which
/// a common symbol keeps its alignment in.
pub open spec fn common_value(refs: Refs, id: SymbolId) -> Option<u64> {
    let def = refs.symbols.symbols@[id.position as int].definition;
    if id.position < refs.symbols.symbols@.len() && def.kind == DefinitionKind::Common
        && def.file.position < refs.files@.len() {
        match refs.files@[def.file.position as int].object {
            Some(object) => if def.index + object.first_global < object.symbols@.len() {
                Some(object.symbols@[def.index + object.first_global].raw.st_value)
            } else {
                None
            },
            None => None,
        }
    } else {
        None
    }
}

/// What every common block keeps: each of its symbols is a common one, the
/// alignment a symbol asks for is no more than that of the block, the block's
/// is 1 or that of one of its symbols, and symbols follow one another with no
/// more room between them than alignment takes.
pub open spec fn is_tight(refs: Refs, block: Block) -> bool {
    let e = block.entries;
    &&& forall|k: int|
        0 <= k < e.len() ==> (#[trigger] winner_of(refs, e[k].0)) is Some && needs(refs, e[k].0).1
            <= block.align
    &&& block.align == 1 || exists|k: int|
        0 <= k < e.len() && block.align == (#[trigger] needs(refs, e[k].0)).1
    &&& e.len() == 0 ==> block.size == 0
    &&& block.size < u64::MAX ==> {
        &&& forall|k: int|
            0 <= k < e.len() ==> (#[trigger] e[k]).1 < (if k == 0 {
                0
            } else {
                e[k - 1].1 + needs(refs, e[k - 1].0).0
            }) + needs(refs, e[k].0).1
        &&& e.len() > 0 ==> block.size == e.last().1 + needs(refs, e.last().0).0
    }
}

/// A place that is rounded up is the first that is aligned.
proof fn rounding_up_is_short(size: u64, align: u64)
    requires
        is_power_of_two(align),
    ensures
        match aligned_after(size, align) {
            Some(offset) => size <= offset < size + align,
            None => size + align > u64::MAX,
        },
{
    let m = align.wrapping_sub(1);
    if size + m <= u64::MAX {
        let v = (size + m) as u64;
        clearing_bits(v, m, 0);
        rounding_up(size, align);
    }
}

/// Laying out more symbols keeps a block tight, and takes nothing away.
proof fn laying_keeps_tight(refs: Refs, rows: Seq<(u64, u64, u64)>, block: Block, i: int)
    requires
        0 <= i,
        is_tight(refs, block),
    ensures
        is_tight(refs, laid_from(refs, rows, block, i)),
        block.size <= laid_from(refs, rows, block, i).size,
        block.entries.len() <= laid_from(refs, rows, block, i).entries.len(),
        forall|k: int|
            0 <= k < block.entries.len() ==> #[trigger] laid_from(refs, rows, block, i).entries[k]
                == block.entries[k],
        laid_from(refs, rows, block, i).size < u64::MAX ==> forall|j: int|
            #![trigger rows[j]]
            i <= j < rows.len() && winner_of(
                refs,
                SymbolId { position: rows[j].2 as usize },
            ) is Some && laid_from(refs, rows, block, i).size + needs(
                refs,
                SymbolId { position: rows[j].2 as usize },
            ).1 <= u64::MAX ==> exists|k: int|
                0 <= k < laid_from(refs, rows, block, i).entries.len() && (
                #[trigger] laid_from(refs, rows, block, i).entries[k]).0.position
                    == rows[j].2 as usize,
    decreases rows.len() - i,
{
    if i < rows.len() {
        let id = SymbolId { position: rows[i].2 as usize };
        match winner_of(refs, id) {
            Some(w) => {
                clearing_bits(0, 0, 0);
                assert(is_power_of_two(w.align));
                rounding_up_is_short(block.size, w.align);
                let next = block.with(id, w);
                let e = next.entries;
                match aligned_after(block.size, w.align) {
                    Some(offset) => {
                        let last = block.entries.len() as int;
                        assert(e[last] == (id, offset));
                        assert(needs(refs, e[last].0) == (w.size, w.align));
                        assert forall|k: int| 0 <= k < e.len() implies (
                        #[trigger] winner_of(refs, e[k].0)) is Some && needs(refs, e[k].0).1
                            <= next.align by {
                            if k < last {
                                assert(e[k] == block.entries[k]);
                                assert(winner_of(refs, block.entries[k].0) is Some);
                            }
                        }
                        assert(next.align == 1 || exists|k: int|
                            0 <= k < e.len() && next.align == (
                            #[trigger] needs(refs, e[k].0)).1) by {
                            if next.align == w.align {
                                assert(next.align == needs(refs, e[last].0).1);
                            } else if block.align != 1 {
                                let k = choose|k: int|
                                    0 <= k < block.entries.len() && block.align == (
                                    #[trigger] needs(refs, block.entries[k].0)).1;
                                assert(next.align == needs(refs, e[k].0).1);
                            }
                        }
                        if next.size < u64::MAX {
                            assert forall|k: int| 0 <= k < e.len() implies (#[trigger] e[k]).1 < (
                            if k == 0 {
                                0
                            } else {
                                e[k - 1].1 + needs(refs, e[k - 1].0).0
                            }) + needs(refs, e[k].0).1 by {
                                if k < last {
                                    assert(e[k] == block.entries[k]);
                                    if k > 0 {
                                        assert(e[k - 1] == block.entries[k - 1]);
                                    }
                                } else if k > 0 {
                                    assert(e[k - 1] == block.entries.last());
                                }
                            }
                        }
                        laying_keeps_tight(refs, rows, next, i + 1);
                        let all = laid_from(refs, rows, next, i + 1);
                        assert(all.entries[last] == e[last]);
                        assert forall|k: int| 0 <= k < block.entries.len() implies
                            #[trigger] all.entries[k] == block.entries[k] by {
                            assert(all.entries[k] == e[k]);
                        }
                    },
                    None => {
                        laying_keeps_tight(refs, rows, next, i + 1);
                    },
                }
            },
            None => {
                laying_keeps_tight(refs, rows, block, i + 1);
            },
        }
    }
}

/// Clearing bits makes nothing larger; 1 has no low bits; a size has no
/// mark to clear.
proof fn clearing_bits(v: u64, m: u64, aux: u64)
    by (bit_vector)
    ensures
        v & !m <= v,
        1u64 & 0u64 == 0,
        aux < 0x8000_0000_0000_0000 ==> aux & !0x8000_0000_0000_0000u64 == aux,
{
}

/// The alignment of the common block is the largest its symbols ask for: no
/// symbol asks for more, and one asks for it unless it is 1. A symbol asks
/// for its `st_value` where that is a power of two, and stands at a multiple
/// of it.
pub proof fn the_block_is_aligned_for_every_common(
    refs: Refs,
    rows: Seq<(u64, u64, u64)>,
    commons: Commons,
    e: (SymbolId, u64),
)
    requires
        is_allocated(refs, rows, commons),
        commons.entries@.contains(e),
    ensures
        common_value(refs, e.0) matches Some(value) && {
            value != 0 && value & value.wrapping_sub(1) == 0 ==> value <= commons.align && e.1
                & value.wrapping_sub(1) == 0
        },
        commons.align >= 1,
        commons.align == 1 || exists|f: (SymbolId, u64)| #[trigger]
            commons.entries@.contains(f) && common_value(refs, f.0) == Some(commons.align),
{
    let start = Block { entries: Seq::empty(), size: 0, align: 1 };
    laying_keeps_tight(refs, rows, start, 0);
    commons_do_not_overlap(refs, rows);
    let block = block_of(refs, rows);
    let k = choose|k: int| 0 <= k < block.entries.len() && block.entries[k] == e;
    assert(winner_of(refs, block.entries[k].0) is Some);
    assert(needs(refs, block.entries[k].0).1 <= block.align);
    if block.align != 1 {
        let j = choose|j: int|
            0 <= j < block.entries.len() && block.align == (
            #[trigger] needs(refs, block.entries[j].0)).1;
        assert(winner_of(refs, block.entries[j].0) is Some);
        assert(block.entries.contains(block.entries[j]));
        assert(commons.entries@.contains(block.entries[j]));
    }
}

/// Every common symbol that won resolution has a place in the block, unless
/// the block outgrows the address space.
pub proof fn every_common_has_a_place(
    refs: Refs,
    rows: Seq<(u64, u64, u64)>,
    commons: Commons,
    id: SymbolId,
)
    requires
        is_allocated(refs, rows, commons),
        refs.symbols.symbols@.len() <= usize::MAX,
        common_value(refs, id) matches Some(value) && commons.size + value < u64::MAX,
    ensures
        exists|offset: u64| #[trigger] commons.entries@.contains((id, offset)),
{
    let start = Block { entries: Seq::empty(), size: 0, align: 1 };
    laying_keeps_tight(refs, rows, start, 0);
    let block = block_of(refs, rows);
    winners_have_rows(refs, 0, id);
    let w = winner_of(refs, id).unwrap();
    let row = (w.position, w.index as u64, id.position as u64);
    assert(rows.contains(row));
    let j = choose|j: int| 0 <= j < rows.len() && rows[j] == row;
    assert(rows[j].2 as usize == id.position);
    let k = choose|k: int|
        0 <= k < block.entries.len() && (#[trigger] block.entries[k]).0.position
            == rows[j].2 as usize;
    assert(block.entries[k] == (id, block.entries[k].1));
    assert(block.entries.contains((id, block.entries[k].1)));
    assert(commons.entries@.contains((id, block.entries[k].1)));
}

/// Every common symbol has a row.
proof fn winners_have_rows(refs: Refs, i: int, id: SymbolId)
    requires
        0 <= i <= id.position < refs.symbols.symbols@.len() <= usize::MAX,
        winner_of(refs, id) is Some,
    ensures
        ({
            let w = winner_of(refs, id).unwrap();
            rows_from(refs, i).contains((w.position, w.index as u64, id.position as u64))
        }),
    decreases refs.symbols.symbols@.len() - i,
{
    let w = winner_of(refs, id).unwrap();
    let row = (w.position, w.index as u64, id.position as u64);
    let rest = rows_from(refs, i + 1);
    if i == id.position {
        assert(SymbolId { position: i as usize } == id);
        assert(rows_from(refs, i)[0] == row);
    } else {
        winners_have_rows(refs, i + 1, id);
        let k = choose|k: int| 0 <= k < rest.len() && rest[k] == row;
        match winner_of(refs, SymbolId { position: i as usize }) {
            Some(_) => {
                assert(rows_from(refs, i)[k + 1] == row);
            },
            None => {},
        }
    }
}

/// No room is lost: in input order each common symbol starts at the first
/// multiple of its alignment behind the one before, the first one at the
/// start, and the block ends where the last one does.
pub proof fn commons_lie_close(refs: Refs, rows: Seq<(u64, u64, u64)>)
    requires
        block_of(refs, rows).size < u64::MAX,
    ensures
        ({
            let block = block_of(refs, rows);
            let e = block.entries;
            &&& forall|k: int|
                0 < k < e.len() ==> (#[trigger] e[k]).1 - (e[k - 1].1 + needs(refs, e[k - 1].0).0)
                    < needs(refs, e[k].0).1
            &&& e.len() > 0 ==> e[0].1 < needs(refs, e[0].0).1
            &&& block.size == (if e.len() == 0 {
                0
            } else {
                e.last().1 + needs(refs, e.last().0).0
            })
        }),
{
    laying_keeps_tight(refs, rows, Block { entries: Seq::empty(), size: 0, align: 1 }, 0);
}

/// The room a common symbol takes is the size that resolution kept for it.
pub proof fn commons_take_their_size(refs: Refs, id: SymbolId)
    requires
        common_value(refs, id) is Some,
        refs.symbols.symbols@[id.position as int].definition.aux < 0x8000_0000_0000_0000,
    ensures
        needs(refs, id).0 == refs.symbols.symbols@[id.position as int].definition.aux,
{
    let aux = refs.symbols.symbols@[id.position as int].definition.aux;
    clearing_bits(0, 0, aux);
}

} // verus!
