//! Cortex-A53 errata 843419 and 835769: which instructions of the output
//! need a patch.
//!
//! `--fix-cortex-a53-843419` and `--fix-cortex-a53-835769` scan the code of
//! every live input section, as lld (843419) and GNU ld (835769) do, and
//! return the instructions to move into a patch: the last load or store of
//! an 843419 sequence, and the multiply-accumulate of an 835769 one. The
//! instruction tests are in [`crate::arch::errata`].
//!
//! Only code is scanned: the `$x` and `$d` mapping symbols of each section
//! delimit its code and data, as in both linkers, and a section without
//! mapping symbols is not scanned. The scan reads the input bytes, before
//! relocation, as lld does.
//!
//! 843419 depends on addresses (the `adrp` must be at a page offset of
//! `0xff8` or `0xffc`), so it runs in every round of the layout fixpoint
//! ([`super::thunk::plan`]); patches go into the pool at the end of the
//! output section, after the range-extension thunks.

use vstd::prelude::*;

use super::thunk::is_code;
use crate::arch::errata::{scan_835769, scan_843419};
use crate::elf::consts::{SHT_PROGBITS, STT_NOTYPE};
use crate::elf::inputs::{InputSection, ObjectInput, SectionKind, SymbolSection};
use crate::elf::layout::Layout;
use crate::elf::refs::Refs;
use crate::ids::SectionId;
use crate::options::LinkOptions;
use crate::order::{row_set, stable_order};
use crate::parallel::{concatenated, map_all, numbers};

verus! {

/// One instruction to patch.
#[derive(Clone, Copy, Debug, PartialEq, Eq, Structural)]
pub struct Site {
    /// The output section (its number in the placement) holding it.
    pub output: u32,
    /// Its address.
    pub address: u64,
    /// The input section holding it.
    pub section: SectionId,
    /// Its offset in that input section.
    pub offset: u64,
}

/// Whether either erratum workaround is on.
#[verifier::allow_in_spec]
pub fn enabled(options: &LinkOptions) -> bool
    returns
        (options.fix_cortex_a53_843419 || options.fix_cortex_a53_835769),
{
    options.fix_cortex_a53_843419 || options.fix_cortex_a53_835769
}

/// Whether a name is that of a mapping symbol, and if so whether it starts
/// code (`$x`) rather than data (`$d`).
pub open spec fn spec_mapping_symbol(name: Seq<u8>) -> Option<bool> {
    if name.len() >= 2 && name[0] == 0x24 && (name.len() == 2 || name[2] == 0x2e) {
        if name[1] == 0x78 {
            Some(true)
        } else if name[1] == 0x64 {
            Some(false)
        } else {
            None
        }
    } else {
        None
    }
}

/// Whether local symbol `name` is a mapping symbol, and if so whether it
/// starts code (`$x`) rather than data (`$d`).
pub fn mapping_symbol(name: &[u8]) -> (r: Option<bool>)
    ensures
        r == spec_mapping_symbol(name@),
{
    if name.len() < 2 || name[0] != 0x24 || (name.len() > 2 && name[2] != 0x2e) {
        return None;
    }
    match name[1] {
        0x78 => Some(true),
        0x64 => Some(false),
        _ => None,
    }
}

/// The mapping symbol that local symbol `i` of `object` is: its section, its
/// value, and whether it starts code.
pub open spec fn mapping_at(object: ObjectInput, i: int) -> Option<(u32, u64, bool)> {
    let symbol = object.symbols@[i];
    if symbol.raw.kind() != STT_NOTYPE {
        None
    } else {
        match (symbol.name, symbol.section) {
            (Some(name), SymbolSection::Section(section)) => match spec_mapping_symbol(name@) {
                Some(code) => Some((section, symbol.raw.st_value, code)),
                None => None,
            },
            _ => None,
        }
    }
}

/// The mapping symbols among the local symbols from `i` on.
pub open spec fn mappings_from(object: ObjectInput, i: int) -> Seq<(u32, u64, bool)>
    decreases object.symbols@.len() - i,
{
    if i < 0 || i >= object.symbols@.len() || i >= object.first_global {
        Seq::empty()
    } else {
        let rest = mappings_from(object, i + 1);
        match mapping_at(object, i) {
            Some(m) => seq![m] + rest,
            None => rest,
        }
    }
}

/// What mapping symbols are sorted by.
pub open spec fn mapping_keys(list: Seq<(u32, u64, bool)>) -> Seq<(u64, u64)> {
    Seq::new(list.len(), |i: int| (list[i].0 as u64, list[i].1))
}

/// Whether `r` lists the mapping symbols of `object` by section and value;
/// those at one place stay in the order of the symbol table.
pub open spec fn is_mapped(object: ObjectInput, r: Seq<(u32, u64, bool)>) -> bool {
    exists|order: Seq<usize>| #[trigger]
        crate::order::is_stable_order(mapping_keys(mappings_from(object, 0)), order) && r
            == Seq::new(order.len(), |i: int| mappings_from(object, 0)[order[i] as int])
}

/// Sections are in order.
pub open spec fn by_section(list: Seq<(u32, u64, bool)>) -> bool {
    forall|i: int, j: int|
        0 <= i < j < list.len() ==> (#[trigger] list[i]).0 <= (#[trigger] list[j]).0
}

/// The mapping symbols of `object`, as `(section, value, code)`, sorted.
pub fn mapping_symbols(object: &ObjectInput) -> (r: Vec<(u32, u64, bool)>)
    ensures
        is_mapped(*object, r@),
        by_section(r@),
{
    let mut list: Vec<(u32, u64, bool)> = Vec::new();
    let mut keys: Vec<(u64, u64)> = Vec::new();
    let mut i: usize = 0;
    let ghost whole = mappings_from(*object, 0);
    assert(whole =~= list@ + whole);
    while i < object.symbols.len() && i < object.first_global
        invariant
            i <= object.symbols@.len(),
            whole == list@ + mappings_from(*object, i as int),
            keys@ == mapping_keys(list@),
        decreases object.symbols@.len() - i,
    {
        let ghost before = list@;
        let ghost rest = mappings_from(*object, i + 1);
        if object.symbols[i].raw.kind() == STT_NOTYPE {
            if let (Some(name), SymbolSection::Section(section)) = (
                &object.symbols[i].name,
                object.symbols[i].section,
            ) {
                if let Some(code) = mapping_symbol(name) {
                    let m: (u32, u64, bool) = (section, object.symbols[i].raw.st_value, code);
                    list.push(m);
                    keys.push((m.0 as u64, m.1));
                    assert(before + (seq![m] + rest) =~= list@ + rest);
                    assert(keys@ =~= mapping_keys(list@));
                }
            }
        }
        i += 1;
    }
    assert(whole =~= list@);
    let order: Vec<usize> = stable_order(&keys);
    let mut out: Vec<(u32, u64, bool)> = Vec::new();
    let mut k: usize = 0;
    while k < order.len()
        invariant
            k <= order@.len(),
            crate::order::is_stable_order(keys@, order@),
            keys@ == mapping_keys(list@),
            out@ == Seq::new(k as nat, |j: int| list@[order@[j] as int]),
        decreases order@.len() - k,
    {
        let at: usize = order[k];
        out.push(list[at]);
        k += 1;
        assert(out@ =~= Seq::new(k as nat, |j: int| list@[order@[j] as int]));
    }
    proof {
        assert(out@ =~= Seq::new(order@.len(), |j: int| list@[order@[j] as int]));
        assert forall|a: int, b: int| 0 <= a < b < out@.len() implies (#[trigger] out@[a]).0 <= (
        #[trigger] out@[b]).0 by {
            assert(crate::order::key_before(keys@, order@[a] as int, order@[b] as int));
        }
    }
    out
}

/// The smaller of two numbers.
#[verifier::allow_in_spec]
pub fn least(a: u64, b: u64) -> u64
    returns
        (if a < b {
            a
        } else {
            b
        }),
{
    if a < b {
        a
    } else {
        b
    }
}

/// The code ranges that mapping symbols from `i` on make in a section of
/// `size` bytes; the code that starts at `open`, if any, goes on there.
pub open spec fn ranges_from(
    symbols: Seq<(u32, u64, bool)>,
    size: u64,
    i: int,
    open: Option<u64>,
) -> Seq<(u64, u64)>
    decreases symbols.len() - i,
{
    if i < 0 || i >= symbols.len() {
        match open {
            Some(start) => seq![(start, size)],
            None => Seq::empty(),
        }
    } else {
        let (_, value, code) = symbols[i];
        match open {
            None => ranges_from(
                symbols,
                size,
                i + 1,
                if code {
                    Some(value)
                } else {
                    None
                },
            ),
            Some(start) => if code {
                ranges_from(symbols, size, i + 1, open)
            } else {
                seq![(start, least(value, size))] + ranges_from(symbols, size, i + 1, None)
            },
        }
    }
}

/// The code ranges of a section of `size` bytes whose mapping symbols are
/// `symbols` (sorted by value): lld's reading, where a run of symbols of one
/// kind counts once and leading data symbols are dropped.
pub fn code_ranges(symbols: &[(u32, u64, bool)], size: u64) -> (r: Vec<(u64, u64)>)
    ensures
        r@ == ranges_from(symbols@, size, 0, None),
{
    let mut out: Vec<(u64, u64)> = Vec::new();
    let mut open: Option<u64> = None;
    let mut i: usize = 0;
    let ghost whole = ranges_from(symbols@, size, 0, None);
    assert(whole =~= out@ + whole);
    while i < symbols.len()
        invariant
            i <= symbols@.len(),
            whole == out@ + ranges_from(symbols@, size, i as int, open),
        decreases symbols@.len() - i,
    {
        let (_, value, code) = symbols[i];
        let ghost before = out@;
        match open {
            None => {
                if code {
                    open = Some(value);
                }
            },
            Some(start) => {
                if !code {
                    let range: (u64, u64) = (start, least(value, size));
                    out.push(range);
                    open = None;
                    proof {
                        let rest = ranges_from(symbols@, size, i + 1, None);
                        assert(before + (seq![range] + rest) =~= out@ + rest);
                    }
                }
            },
        }
        i += 1;
    }
    if let Some(start) = open {
        out.push((start, size));
    }
    assert(whole =~= out@);
    out
}

/// Code ranges end inside the section.
proof fn ranges_end_inside(
    symbols: Seq<(u32, u64, bool)>,
    size: u64,
    i: int,
    open: Option<u64>,
)
    ensures
        forall|k: int|
            0 <= k < ranges_from(symbols, size, i, open).len() ==> (#[trigger] ranges_from(
                symbols,
                size,
                i,
                open,
            )[k]).1 <= size,
    decreases symbols.len() - i,
{
    if 0 <= i < symbols.len() {
        ranges_end_inside(symbols, size, i + 1, None);
        ranges_end_inside(symbols, size, i + 1, open);
        ranges_end_inside(symbols, size, i + 1, Some(symbols[i].1));
        let all = ranges_from(symbols, size, i, open);
        let rest = ranges_from(symbols, size, i + 1, None);
        assert forall|k: int| 0 <= k < all.len() implies (#[trigger] all[k]).1 <= size by {
            match open {
                Some(start) => if symbols[i].2 {
                    assert(all[k] == ranges_from(symbols, size, i + 1, open)[k]);
                } else if k > 0 {
                    assert(all[k] == rest[k - 1]);
                } else {
                    assert(all[k] == (start, least(symbols[i].1, size)));
                },
                None => if symbols[i].2 {
                    assert(all == ranges_from(symbols, size, i + 1, Some(symbols[i].1)));
                } else {
                    assert(all == rest);
                },
            }
        }
    }
}

/// The mapping symbols of `section` from `i` on.
pub open spec fn in_section_from(list: Seq<(u32, u64, bool)>, section: u32, i: int) -> Seq<
    (u32, u64, bool),
>
    decreases list.len() - i,
{
    if i < 0 || i >= list.len() {
        Seq::empty()
    } else if list[i].0 == section {
        seq![list[i]] + in_section_from(list, section, i + 1)
    } else {
        in_section_from(list, section, i + 1)
    }
}

/// Entries of other sections are left out.
proof fn others_are_left_out(list: Seq<(u32, u64, bool)>, section: u32, i: int, to: int)
    requires
        0 <= i <= to <= list.len(),
        forall|k: int| i <= k < to ==> (#[trigger] list[k]).0 != section,
    ensures
        in_section_from(list, section, i) == in_section_from(list, section, to),
    decreases to - i,
{
    if i < to {
        assert(list[i].0 != section);
        others_are_left_out(list, section, i + 1, to);
    }
}

/// The mapping symbols of `section`.
fn in_section(list: &Vec<(u32, u64, bool)>, section: u32) -> (r: Vec<(u32, u64, bool)>)
    requires
        by_section(list@),
    ensures
        r@ == in_section_from(list@, section, 0),
{
    let mut low: usize = 0;
    let mut high: usize = list.len();
    while low < high
        invariant
            low <= high <= list@.len(),
            by_section(list@),
            forall|k: int| 0 <= k < low ==> (#[trigger] list@[k]).0 < section,
            forall|k: int| high <= k < list@.len() ==> (#[trigger] list@[k]).0 >= section,
        decreases high - low,
    {
        let middle: usize = low + (high - low) / 2;
        if list[middle].0 < section {
            low = middle + 1;
        } else {
            high = middle;
        }
    }
    proof {
        others_are_left_out(list@, section, 0, low as int);
    }
    let mut out: Vec<(u32, u64, bool)> = Vec::new();
    let ghost whole = in_section_from(list@, section, 0);
    assert(whole =~= out@ + whole);
    let mut i: usize = low;
    while i < list.len() && list[i].0 == section
        invariant
            low <= i <= list@.len(),
            by_section(list@),
            whole == out@ + in_section_from(list@, section, i as int),
            forall|k: int| low <= k < list@.len() ==> (#[trigger] list@[k]).0 >= section,
        decreases list@.len() - i,
    {
        let ghost before = out@;
        out.push(list[i]);
        proof {
            let rest = in_section_from(list@, section, i + 1);
            assert(before + (seq![list@[i as int]] + rest) =~= out@ + rest);
        }
        i += 1;
    }
    proof {
        assert forall|k: int| i <= k < list@.len() implies (#[trigger] list@[k]).0 != section by {
            assert(list@[i as int].0 > section);
        }
        others_are_left_out(list@, section, i as int, list@.len() as int);
        assert(whole =~= out@);
    }
    out
}

/// Where a section's code is: the output section, the input section and its
/// address.
#[derive(Clone, Copy, Debug, PartialEq, Eq, Structural)]
pub struct Code {
    /// The output section.
    pub output: u32,
    /// The input section.
    pub id: SectionId,
    /// Its address.
    pub base: u64,
}

impl Code {
    /// The instruction at `offset`.
    #[verifier::allow_in_spec]
    pub fn site(self, offset: u64) -> Site
        returns
            (Site {
                output: self.output,
                address: self.base.wrapping_add(offset),
                section: self.id,
                offset,
            }),
    {
        Site {
            output: self.output,
            address: self.base.wrapping_add(offset),
            section: self.id,
            offset,
        }
    }

    /// The instructions at `offsets`.
    pub open spec fn sites(self, offsets: Seq<u64>) -> Seq<Site> {
        Seq::new(offsets.len(), |i: int| self.site(offsets[i]))
    }
}

/// Where the code of section `index` of `file` is, if it is scanned.
pub open spec fn code_at(
    refs: Refs,
    layout: Layout,
    file: int,
    index: int,
    section: InputSection,
) -> Option<
    Code,
> {
    if section.header.sh_type != SHT_PROGBITS || !is_code(section.header.sh_flags) || section.kind
        == SectionKind::Ignored || !refs.sections.spec_is_live_in(file, index) {
        None
    } else {
        match refs.sections.spec_id(file, index) {
            None => None,
            Some(id) => match (layout.spec_output_of(id), layout.spec_address(id)) {
                (Some(output), Some(base)) => Some(Code { output, id, base }),
                _ => None,
            },
        }
    }
}

/// Where the code of section `index` of `file` is, if it is scanned.
fn find_code(refs: &Refs, layout: &Layout, file: usize, index: u32, section: &InputSection) -> (r:
    Option<Code>)
    ensures
        r == code_at(*refs, *layout, file as int, index as int, *section),
{
    if section.header.sh_type != SHT_PROGBITS || !is_code(section.header.sh_flags) || section.kind
        == SectionKind::Ignored || !refs.sections.is_live_in(file, index) {
        return None;
    }
    let Some(id) = refs.sections.id(file, index) else {
        return None;
    };
    match (layout.output_of(id), layout.address(id)) {
        (Some(output), Some(base)) => Some(Code { output, id, base }),
        _ => None,
    }
}

/// The offsets to patch in one code range.
pub open spec fn offsets_in(
    options: LinkOptions,
    data: Seq<u8>,
    base: u64,
    range: (u64, u64),
) -> Seq<
    u64,
> {
    (if options.fix_cortex_a53_843419 {
        crate::arch::errata::found_843419(data, base, range.0 as int, range.1 as int)
    } else {
        Seq::empty()
    }) + (if options.fix_cortex_a53_835769 {
        crate::arch::errata::found_835769(data, range.0 as int, range.1 as int)
    } else {
        Seq::empty()
    })
}

/// The instructions to patch in the code ranges from `i` on.
pub open spec fn ranges_found(
    options: LinkOptions,
    data: Seq<u8>,
    code: Code,
    ranges: Seq<(u64, u64)>,
    i: int,
) -> Seq<Site>
    decreases ranges.len() - i,
{
    if i < 0 || i >= ranges.len() {
        Seq::empty()
    } else {
        code.sites(offsets_in(options, data, code.base, ranges[i])) + ranges_found(
            options,
            data,
            code,
            ranges,
            i + 1,
        )
    }
}

/// Appends the instructions at `offsets`.
fn push_sites(out: &mut Vec<Site>, code: Code, offsets: &Vec<u64>)
    ensures
        final(out)@ == old(out)@ + code.sites(offsets@),
{
    let mut i: usize = 0;
    while i < offsets.len()
        invariant
            i <= offsets@.len(),
            out@ == old(out)@ + code.sites(offsets@).take(i as int),
        decreases offsets@.len() - i,
    {
        out.push(code.site(offsets[i]));
        i += 1;
        assert(out@ =~= old(out)@ + code.sites(offsets@).take(i as int));
    }
    assert(code.sites(offsets@).take(i as int) =~= code.sites(offsets@));
}

/// Appends the instructions to patch in a section's code.
fn scan_ranges(
    out: &mut Vec<Site>,
    options: &LinkOptions,
    data: &[u8],
    code: Code,
    ranges: &Vec<(u64, u64)>,
)
    requires
        forall|k: int| 0 <= k < ranges@.len() ==> (#[trigger] ranges@[k]).1 <= data@.len(),
    ensures
        final(out)@ == old(out)@ + ranges_found(*options, data@, code, ranges@, 0),
{
    let mut i: usize = 0;
    let ghost whole = old(out)@ + ranges_found(*options, data@, code, ranges@, 0);
    while i < ranges.len()
        invariant
            i <= ranges@.len(),
            forall|k: int| 0 <= k < ranges@.len() ==> (#[trigger] ranges@[k]).1 <= data@.len(),
            whole == out@ + ranges_found(*options, data@, code, ranges@, i as int),
        decreases ranges@.len() - i,
    {
        let range: (u64, u64) = ranges[i];
        let ghost before = out@;
        let ghost rest = ranges_found(*options, data@, code, ranges@, i + 1);
        let ghost mut first: Seq<u64> = Seq::empty();
        let ghost mut second: Seq<u64> = Seq::empty();
        if options.fix_cortex_a53_843419 {
            let found: Vec<u64> = scan_843419(data, code.base, range.0, range.1);
            push_sites(out, code, &found);
            proof {
                first = found@;
            }
        }
        assert(out@ =~= before + code.sites(first));
        if options.fix_cortex_a53_835769 {
            let found: Vec<u64> = scan_835769(data, range.0, range.1);
            push_sites(out, code, &found);
            proof {
                second = found@;
            }
        }
        proof {
            let offsets = offsets_in(*options, data@, code.base, range);
            assert(first + second =~= offsets);
            assert(code.sites(first) + code.sites(second) =~= code.sites(offsets));
            assert(out@ =~= before + code.sites(offsets));
            assert(out@ + rest =~= before + (code.sites(offsets) + rest));
        }
        i += 1;
    }
    assert(out@ =~= whole);
}

/// The instructions to patch in section `i` of an object whose mapping
/// symbols are `mapped`.
pub open spec fn section_found(
    refs: Refs,
    layout: Layout,
    options: LinkOptions,
    file: int,
    object: ObjectInput,
    mapped: Seq<(u32, u64, bool)>,
    i: int,
) -> Seq<Site> {
    match (code_at(refs, layout, file, i, object.sections@[i]), object.sections@[i].contents) {
        (Some(code), Some(data)) => ranges_found(
            options,
            data@,
            code,
            ranges_from(in_section_from(mapped, i as u32, 0), data@.len() as u64, 0, None),
            0,
        ),
        _ => Seq::empty(),
    }
}

/// The instructions to patch in the sections from `i` on of an object.
pub open spec fn sections_found(
    refs: Refs,
    layout: Layout,
    options: LinkOptions,
    file: int,
    object: ObjectInput,
    mapped: Seq<(u32, u64, bool)>,
    i: int,
) -> Seq<Site>
    decreases object.sections@.len() - i,
{
    if i < 0 || i >= object.sections@.len() || i > u32::MAX {
        Seq::empty()
    } else {
        section_found(refs, layout, options, file, object, mapped, i) + sections_found(
            refs,
            layout,
            options,
            file,
            object,
            mapped,
            i + 1,
        )
    }
}

/// Whether `r` lists the instructions to patch in `file`.
pub open spec fn is_file_found(
    refs: Refs,
    layout: Layout,
    options: LinkOptions,
    file: int,
    r: Seq<Site>,
) -> bool {
    match refs.files@[file].object {
        None => r.len() == 0,
        Some(object) => exists|mapped: Seq<(u32, u64, bool)>| #[trigger]
            is_mapped(object, mapped) && r == sections_found(
                refs,
                layout,
                options,
                file,
                object,
                mapped,
                0,
            ),
    }
}

/// The instructions to patch in `file`.
fn scan_file(refs: &Refs, layout: &Layout, options: &LinkOptions, file: usize) -> (r: Vec<Site>)
    requires
        file < refs.files@.len(),
    ensures
        is_file_found(*refs, *layout, *options, file as int, r@),
{
    let mut out: Vec<Site> = Vec::new();
    let Some(object) = &refs.files[file].object else {
        return out;
    };
    let mapped: Vec<(u32, u64, bool)> = mapping_symbols(object);
    let ghost whole = sections_found(
        *refs,
        *layout,
        *options,
        file as int,
        *object,
        mapped@,
        0,
    );
    assert(whole =~= out@ + whole);
    let mut i: usize = 0;
    while i < object.sections.len() && i <= u32::MAX as usize
        invariant
            i <= object.sections@.len(),
            by_section(mapped@),
            whole == out@ + sections_found(
                *refs,
                *layout,
                *options,
                file as int,
                *object,
                mapped@,
                i as int,
            ),
        decreases object.sections@.len() - i,
    {
        let ghost before = out@;
        let ghost rest = sections_found(
            *refs,
            *layout,
            *options,
            file as int,
            *object,
            mapped@,
            i + 1,
        );
        let section: &InputSection = &object.sections[i];
        if let (Some(code), Some(data)) = (
            find_code(refs, layout, file, i as u32, section),
            &section.contents,
        ) {
            let symbols: Vec<(u32, u64, bool)> = in_section(&mapped, i as u32);
            let ranges: Vec<(u64, u64)> = code_ranges(&symbols, data.len() as u64);
            proof {
                ranges_end_inside(symbols@, data@.len() as u64, 0, None);
            }
            scan_ranges(&mut out, options, data, code, &ranges);
        }
        proof {
            let here = section_found(
                *refs,
                *layout,
                *options,
                file as int,
                *object,
                mapped@,
                i as int,
            );
            assert(out@ =~= before + here);
            assert(before + (here + rest) =~= out@ + rest);
        }
        i += 1;
    }
    assert(whole =~= out@);
    out
}

/// The order of instructions: by output section, address, input section and
/// offset.
pub open spec fn site_before(a: Site, b: Site) -> bool {
    ||| a.output < b.output
    ||| a.output == b.output && a.address < b.address
    ||| a.output == b.output && a.address == b.address && a.section.position < b.section.position
    ||| a.output == b.output && a.address == b.address && a.section == b.section && a.offset
        < b.offset
}

/// Whether `r` holds the instructions of `list`, each once, in order.
pub open spec fn is_sorted_set(list: Seq<Site>, r: Seq<Site>) -> bool {
    &&& forall|i: int, j: int|
        0 <= i < j < r.len() ==> site_before(#[trigger] r[i], #[trigger] r[j])
    &&& forall|s: Site| #[trigger] r.contains(s) <==> list.contains(s)
}

/// An instruction is where its section is.
pub open spec fn is_placed(layout: Layout, site: Site) -> bool {
    match layout.spec_address(site.section) {
        Some(base) => site.address == base.wrapping_add(site.offset),
        None => false,
    }
}

/// An instruction as a row of numbers.
pub open spec fn row_of(site: Site) -> (u64, u64, u64) {
    (site.output as u64, site.address, site.section.position as u64)
}

/// A section's address and an offset in it give an address from which the
/// offset can be told.
proof fn offsets_can_be_told(base: u64, offset: u64)
    ensures
        base.wrapping_add(offset).wrapping_sub(base) == offset,
{
}

/// Sorts instructions and drops repeated ones.
fn sorted_set(layout: &Layout, list: &Vec<Site>) -> (r: Vec<Site>)
    requires
        all_placed(*layout, list@),
    ensures
        is_sorted_set(list@, r@),
{
    let mut listed: Vec<(u64, u64, u64)> = Vec::new();
    let mut i: usize = 0;
    while i < list.len()
        invariant
            i <= list@.len(),
            listed@ == Seq::new(i as nat, |k: int| row_of(list@[k])),
        decreases list@.len() - i,
    {
        let site: Site = list[i];
        listed.push((site.output as u64, site.address, site.section.position as u64));
        i += 1;
        assert(listed@ =~= Seq::new(i as nat, |k: int| row_of(list@[k])));
    }
    let ghost all = listed@;
    let rows: Vec<(u64, u64, u64)> = row_set(listed);
    let mut out: Vec<Site> = Vec::new();
    let mut k: usize = 0;
    while k < rows.len()
        invariant
            k <= rows@.len(),
            all == Seq::new(list@.len(), |j: int| row_of(list@[j])),
            crate::order::is_row_set(all, rows@),
            all_placed(*layout, list@),
            out@.len() == k,
            forall|j: int| 0 <= j < k ==> list@.contains(#[trigger] out@[j]),
            forall|j: int| 0 <= j < k ==> row_of(#[trigger] out@[j]) == rows@[j],
        decreases rows@.len() - k,
    {
        let row: (u64, u64, u64) = rows[k];
        let section: SectionId = SectionId { position: row.2 as usize };
        let base: u64 = match layout.address(section) {
            Some(base) => base,
            None => 0,
        };
        let site: Site = Site {
            output: row.0 as u32,
            address: row.1,
            section,
            offset: row.1.wrapping_sub(base),
        };
        proof {
            assert(rows@.contains(rows@[k as int]));
            let m = choose|m: int| 0 <= m < all.len() && all[m] == row;
            assert(is_placed(*layout, list@[m]));
            offsets_can_be_told(base, list@[m].offset);
            assert(site == list@[m]);
        }
        out.push(site);
        k += 1;
    }
    proof {
        assert forall|a: int, b: int| 0 <= a < b < out@.len() implies site_before(
            #[trigger] out@[a],
            #[trigger] out@[b],
        ) by {
            assert(crate::order::row_less(rows@[a], rows@[b]));
        }
        assert forall|s: Site| #[trigger] out@.contains(s) <==> list@.contains(s) by {
            if list@.contains(s) {
                let m = choose|m: int| 0 <= m < list@.len() && list@[m] == s;
                assert(all[m] == row_of(s));
                assert(all.contains(row_of(s)));
                assert(rows@.contains(row_of(s)));
                let j = choose|j: int| 0 <= j < rows@.len() && rows@[j] == row_of(s);
                assert(list@.contains(out@[j]));
                let p = choose|p: int| 0 <= p < list@.len() && list@[p] == out@[j];
                assert(is_placed(*layout, list@[p]));
                assert(is_placed(*layout, list@[m]));
                let base = layout.spec_address(s.section)->Some_0;
                offsets_can_be_told(base, s.offset);
                offsets_can_be_told(base, out@[j].offset);
                assert(out@[j] == s);
            }
            if out@.contains(s) {
                let j = choose|j: int| 0 <= j < out@.len() && out@[j] == s;
                assert(list@.contains(out@[j]));
            }
        }
    }
    out
}

/// Every instruction is where its section is.
pub open spec fn all_placed(layout: Layout, sites: Seq<Site>) -> bool {
    forall|k: int| 0 <= k < sites.len() ==> is_placed(layout, #[trigger] sites[k])
}

/// Two lists of placed instructions make one.
proof fn both_placed(layout: Layout, a: Seq<Site>, b: Seq<Site>)
    requires
        all_placed(layout, a),
        all_placed(layout, b),
    ensures
        all_placed(layout, a + b),
{
    assert forall|k: int| 0 <= k < (a + b).len() implies is_placed(
        layout,
        #[trigger] (a + b)[k],
    ) by {
        if k < a.len() {
            assert(is_placed(layout, a[k]));
        } else {
            assert(is_placed(layout, b[k - a.len()]));
        }
    }
}

/// Sites of code are where it is.
proof fn found_sites_are_placed(
    layout: Layout,
    options: LinkOptions,
    data: Seq<u8>,
    code: Code,
    ranges: Seq<(u64, u64)>,
    i: int,
)
    requires
        layout.spec_address(code.id) == Some(code.base),
    ensures
        all_placed(layout, ranges_found(options, data, code, ranges, i)),
    decreases ranges.len() - i,
{
    if 0 <= i < ranges.len() {
        found_sites_are_placed(layout, options, data, code, ranges, i + 1);
        both_placed(
            layout,
            code.sites(offsets_in(options, data, code.base, ranges[i])),
            ranges_found(options, data, code, ranges, i + 1),
        );
    }
}

/// Sites of an object are where its sections are.
proof fn object_sites_are_placed(
    refs: Refs,
    layout: Layout,
    options: LinkOptions,
    file: int,
    object: ObjectInput,
    mapped: Seq<(u32, u64, bool)>,
    i: int,
)
    ensures
        all_placed(layout, sections_found(refs, layout, options, file, object, mapped, i)),
    decreases object.sections@.len() - i,
{
    if 0 <= i < object.sections@.len() && i <= u32::MAX {
        object_sites_are_placed(refs, layout, options, file, object, mapped, i + 1);
        match (code_at(refs, layout, file, i, object.sections@[i]), object.sections@[i].contents) {
            (Some(code), Some(data)) => {
                found_sites_are_placed(
                    layout,
                    options,
                    data@,
                    code,
                    ranges_from(in_section_from(mapped, i as u32, 0), data@.len() as u64, 0, None),
                    0,
                );
            },
            _ => {},
        }
        both_placed(
            layout,
            section_found(refs, layout, options, file, object, mapped, i),
            sections_found(refs, layout, options, file, object, mapped, i + 1),
        );
    }
}

/// Whether `lists` are the instructions to patch in every file.
pub open spec fn are_found(
    refs: Refs,
    layout: Layout,
    options: LinkOptions,
    lists: Seq<Seq<Site>>,
) -> bool {
    &&& lists.len() == refs.files@.len()
    &&& forall|i: int|
        0 <= i < lists.len() ==> is_file_found(refs, layout, options, i, #[trigger] lists[i])
}

/// Every instruction the enabled workarounds patch, sorted by output
/// section and address.
pub fn scan(refs: &Refs, layout: &Layout, options: &LinkOptions) -> (r: Vec<Site>)
    ensures
        if enabled(options) {
            exists|lists: Seq<Seq<Site>>| #[trigger]
                are_found(*refs, *layout, *options, lists) && is_sorted_set(
                    crate::parallel::flattened(lists),
                    r@,
                )
        } else {
            r@.len() == 0
        },
{
    if !enabled(options) {
        return Vec::new();
    }
    let files: Vec<usize> = numbers(refs.files.len());
    let each = |file: &usize| -> (one: Vec<Site>)
        requires
            *file < refs.files@.len(),
        ensures
            is_file_found(*refs, *layout, *options, *file as int, one@),
        { scan_file(refs, layout, options, *file) };
    let results: Vec<Vec<Site>> = map_all(&files, each);
    let ghost lists = crate::parallel::lists_view(results@);
    let all: Vec<Site> = concatenated(&results);
    proof {
        assert forall|i: int| 0 <= i < lists.len() implies is_file_found(
            *refs,
            *layout,
            *options,
            i,
            #[trigger] lists[i],
        ) by {
            assert(each.ensures((&files@[i],), results@[i]));
        }
        assert(are_found(*refs, *layout, *options, lists));
        found_lists_are_placed(*refs, *layout, *options, lists, lists.len() as int);
        assert(lists.take(lists.len() as int) =~= lists);
    }
    sorted_set(layout, &all)
}

/// The instructions of the first `n` files are where their sections are.
proof fn found_lists_are_placed(
    refs: Refs,
    layout: Layout,
    options: LinkOptions,
    lists: Seq<Seq<Site>>,
    n: int,
)
    requires
        0 <= n <= lists.len(),
        are_found(refs, layout, options, lists),
    ensures
        all_placed(layout, crate::parallel::flattened(lists.take(n))),
    decreases n,
{
    if n > 0 {
        found_lists_are_placed(refs, layout, options, lists, n - 1);
        assert(lists.take(n).drop_last() =~= lists.take(n - 1));
        assert(lists.take(n).last() == lists[n - 1]);
        assert(is_file_found(refs, layout, options, n - 1, lists[n - 1]));
        assert forall|k: int| 0 <= k < lists[n - 1].len() implies is_placed(
            layout,
            #[trigger] lists[n - 1][k],
        ) by {
            patches_are_placed(refs, layout, options, n - 1, lists[n - 1], k);
        }
        both_placed(layout, crate::parallel::flattened(lists.take(n - 1)), lists[n - 1]);
    }
}

/// Every instruction that is patched is in a code section of the link, where
/// its section is.
pub proof fn patches_are_placed(
    refs: Refs,
    layout: Layout,
    options: LinkOptions,
    file: int,
    sites: Seq<Site>,
    k: int,
)
    requires
        is_file_found(refs, layout, options, file, sites),
        0 <= k < sites.len(),
    ensures
        is_placed(layout, sites[k]),
{
    match refs.files@[file].object {
        Some(object) => {
            let mapped = choose|mapped: Seq<(u32, u64, bool)>| #[trigger]
                is_mapped(object, mapped) && sites == sections_found(
                    refs,
                    layout,
                    options,
                    file,
                    object,
                    mapped,
                    0,
                );
            object_sites_are_placed(refs, layout, options, file, object, mapped, 0);
        },
        None => {},
    }
}

/// A mapping symbol is `$x` or `$d`, alone or followed by a dot.
pub proof fn mapping_symbols_mark_code_and_data(rest: Seq<u8>)
    ensures
        spec_mapping_symbol(seq![0x24u8, 0x78]) == Some(true),
        spec_mapping_symbol(seq![0x24u8, 0x64]) == Some(false),
        spec_mapping_symbol(seq![0x24u8, 0x78, 0x2e] + rest) == Some(true),
        spec_mapping_symbol(seq![0x24u8, 0x64, 0x2e] + rest) == Some(false),
        rest.len() > 0 && rest[0] != 0x2e ==> spec_mapping_symbol(seq![0x24u8, 0x78] + rest) is None
            && spec_mapping_symbol(seq![0x24u8, 0x64] + rest) is None,
        rest.len() > 0 && rest[0] != 0x24 ==> spec_mapping_symbol(rest) is None,
        spec_mapping_symbol(rest) is Some ==> rest[1] == 0x78 || rest[1] == 0x64,
{
}

/// A range of code starts at a symbol that marks code and goes to the next
/// that marks data, or to the end; and data is in no range.
pub proof fn ranges_go_from_code_to_data(
    symbols: Seq<(u32, u64, bool)>,
    size: u64,
    i: int,
    open: Option<u64>,
    k: int,
)
    requires
        0 <= i <= symbols.len(),
        0 <= k < ranges_from(symbols, size, i, open).len(),
    ensures
        ({
            let range = ranges_from(symbols, size, i, open)[k];
            &&& range.1 <= size
            &&& open == Some(range.0) || exists|n: int|
                i <= n < symbols.len() && (#[trigger] symbols[n]).1 == range.0 && symbols[n].2
            &&& range.1 == size || exists|n: int|
                i <= n < symbols.len() && (#[trigger] symbols[n]).1 == range.1 && !symbols[n].2
        }),
    decreases symbols.len() - i,
{
    if i < symbols.len() {
        let (_, value, code) = symbols[i];
        match open {
            None => {
                let next = if code {
                    Some(value)
                } else {
                    None
                };
                ranges_go_from_code_to_data(symbols, size, i + 1, next, k);
            },
            Some(start) => {
                if code {
                    ranges_go_from_code_to_data(symbols, size, i + 1, open, k);
                } else if k > 0 {
                    ranges_go_from_code_to_data(symbols, size, i + 1, None, k - 1);
                }
            },
        }
    }
}

/// Code that is marked is in a range.
pub proof fn marked_code_is_in_a_range(
    symbols: Seq<(u32, u64, bool)>,
    size: u64,
    i: int,
    open: Option<u64>,
)
    requires
        0 <= i <= symbols.len(),
    ensures
        open is Some || (i < symbols.len() && symbols[i].2) ==> ranges_from(
            symbols,
            size,
            i,
            open,
        ).len() > 0 && ranges_from(symbols, size, i, open)[0].0 == (match open {
            Some(start) => start,
            None => symbols[i].1,
        }),
        open is None && (forall|n: int| i <= n < symbols.len() ==> !(#[trigger] symbols[n]).2)
            ==> ranges_from(symbols, size, i, open).len() == 0,
    decreases symbols.len() - i,
{
    if i < symbols.len() {
        let (_, value, code) = symbols[i];
        let next = match open {
            None => if code {
                Some(value)
            } else {
                None
            },
            Some(start) => if code {
                open
            } else {
                None
            },
        };
        marked_code_is_in_a_range(symbols, size, i + 1, next);
    }
}

} // verus!
