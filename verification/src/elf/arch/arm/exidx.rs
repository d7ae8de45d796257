//! The exception index (`.ARM.exidx`).
//!
//! The Arm EHABI describes unwinding with a table of eight-byte entries,
//! sorted by the address of the code they cover: a `PREL31` reference to
//! the function, and either inline unwind instructions, a `PREL31`
//! reference to a `.ARM.extab` entry, or `EXIDX_CANTUNWIND`. The table has
//! to be in address order, cover every executable section, and end with a
//! sentinel.
//!
//! [`plan`] builds the table before layout:
//!
//! - executable input sections are taken in the order layout will place
//!   them; each one contributes its `.ARM.exidx` section, or a linker-made
//!   `EXIDX_CANTUNWIND` entry when it has none;
//! - a section whose entries all say the same as the entry before it is
//!   dropped, where entries are merged;
//! - a sentinel `EXIDX_CANTUNWIND` entry covers the end of the last
//!   executable section.
//!
//! The whole table takes the place of the first `.ARM.exidx` input
//! section. [`write`] fills it once addresses are known, in address order.

use vstd::prelude::*;
use vstd::slice::slice_subrange;

use super::SHT_ARM_EXIDX;
use crate::arch::arm::Field;
use crate::bytes::{copied, get_u32, place, put_u32, write_over};
use crate::elf::arch::thunk::{index32, is_code};
use crate::elf::arch::{write_value, Width};
use crate::elf::inputs::{InputSection, ObjectInput, SectionKind};
use crate::elf::layout::Placement;
use crate::elf::refs::Refs;
use crate::ids::SectionId;
use crate::order::{lower_bound, sort_rows, stable_order};

verus! {

/// Size of one exception index entry.
pub const ENTRY_SIZE: u64 = 8;

/// The unwind word of code that cannot be unwound.
pub const EXIDX_CANTUNWIND: u32 = 1;

/// One piece of the table.
#[derive(Clone, Copy, Debug, PartialEq, Eq, Structural)]
pub enum Piece {
    /// The entries of one `.ARM.exidx` input section, covering code in
    /// `text`.
    Input {
        /// The `.ARM.exidx` section.
        exidx: SectionId,
        /// The executable section it describes.
        text: SectionId,
        /// Its size in bytes.
        size: u64,
    },
    /// A linker-made `EXIDX_CANTUNWIND` entry for a section without
    /// unwind information.
    CantUnwind {
        /// The executable section it covers.
        text: SectionId,
    },
}

impl Piece {
    /// The executable section the piece describes.
    #[verifier::allow_in_spec]
    pub fn text(self) -> SectionId
        returns
            (match self {
                Piece::Input { text, .. } => text,
                Piece::CantUnwind { text } => text,
            }),
    {
        match self {
            Piece::Input { text, .. } => text,
            Piece::CantUnwind { text } => text,
        }
    }

    /// Its size in the table.
    #[verifier::allow_in_spec]
    pub fn size(self) -> u64
        returns
            (match self {
                Piece::Input { size, .. } => size,
                Piece::CantUnwind { .. } => ENTRY_SIZE,
            }),
    {
        match self {
            Piece::Input { size, .. } => size,
            Piece::CantUnwind { .. } => ENTRY_SIZE,
        }
    }
}

/// The exception index of a link.
#[derive(Debug, PartialEq, Eq)]
pub struct Table {
    /// The `.ARM.exidx` input section whose place holds the table; the
    /// others are laid out empty.
    pub first: SectionId,
    /// The table's pieces, in planned order.
    pub pieces: Vec<Piece>,
    /// The section whose end the sentinel entry covers.
    pub sentinel: SectionId,
    /// The table's size, the pieces plus the sentinel.
    pub size: u64,
}

/// Where layout will place an input section, as one number: its output
/// section's rank, then the description that matched it. Sections of equal
/// number are placed in the order of their positions.
pub open spec fn spec_order_key(placement: Placement, id: SectionId) -> Option<u64> {
    match placement.spec_output_of(id) {
        None => None,
        Some(output) => if output < placement.outputs@.len() {
            let rank = placement.outputs@[output as int].rank;
            let sub = if id.position < placement.sub@.len() {
                placement.sub@[id.position as int]
            } else {
                0
            };
            Some((rank.0 * 0x1_0000_0000_0000 + rank.1 * 0x1_0000 + sub) as u64)
        } else {
            None
        },
    }
}

/// That key for `id`, or `None` when it has no output section.
fn order_key(placement: &Placement, id: SectionId) -> (r: Option<u64>)
    ensures
        r == spec_order_key(*placement, id),
{
    let Some(output) = placement.find_output(id) else {
        return None;
    };
    let len: usize = placement.outputs.len();
    if (output as u64) < len as u64 {
        let rank: (u16, u32) = placement.outputs[output as usize].rank;
        let sub: u16 = if id.position < placement.sub.len() {
            placement.sub[id.position]
        } else {
            0
        };
        Some(rank.0 as u64 * 0x1_0000_0000_0000 + rank.1 as u64 * 0x1_0000 + sub as u64)
    } else {
        None
    }
}

/// Whether an unwind word may cover the code after it too: it does not
/// refer to `.ARM.extab`.
#[verifier::allow_in_spec]
pub fn covers_more(word: u32) -> bool
    returns
        (word & 0x8000_0000 != 0 || word == EXIDX_CANTUNWIND),
{
    word & 0x8000_0000 != 0 || word == EXIDX_CANTUNWIND
}

/// Whether the unwind words of the entries from `at` on all repeat
/// `previous`.
pub open spec fn repeats(data: Seq<u8>, previous: u32, at: int) -> bool
    decreases data.len() - at + 8,
{
    if at < 0 || at >= data.len() {
        true
    } else {
        match crate::bytes::u32_at(data, at) {
            None => false,
            Some(word) => word == previous && covers_more(word) && repeats(
                data,
                previous,
                at + 8,
            ),
        }
    }
}

/// What [`is_duplicate`] decides.
pub open spec fn spec_is_duplicate(previous: u32, section: Option<Seq<u8>>) -> bool {
    covers_more(previous) && match section {
        None => previous == EXIDX_CANTUNWIND,
        Some(data) => repeats(data, previous, 4),
    }
}

/// Whether the entries of `section` (the contents of a `.ARM.exidx`
/// section) all repeat `previous`, the last unwind word before it, so that
/// the entry before covers them too. `None` for the synthesized
/// `EXIDX_CANTUNWIND` of a section without unwind information.
pub fn is_duplicate(previous: u32, section: Option<&[u8]>) -> (r: bool)
    ensures
        r == spec_is_duplicate(
            previous,
            match section {
                Some(data) => Some(data@),
                None => None,
            },
        ),
{
    // A reference to `.ARM.extab` describes one function only.
    if !covers_more(previous) {
        return false;
    }
    let Some(data) = section else {
        return previous == EXIDX_CANTUNWIND;
    };
    let len: u64 = data.len() as u64;
    let mut at: u64 = 4;
    while at < len
        invariant
            len == data@.len(),
            section == Some(data),
            covers_more(previous),
            repeats(data@, previous, 4) == repeats(data@, previous, at as int),
        decreases len + 8 - at,
    {
        let Some(word) = get_u32(data, at) else {
            return false;
        };
        if word != previous || !covers_more(word) {
            return false;
        }
        if at > u64::MAX - 8 {
            assert(repeats(data@, previous, at + 8));
            return true;
        }
        at += 8;
    }
    true
}

/// The last unwind word of a section.
pub open spec fn spec_last_unwind(section: Option<Seq<u8>>) -> u32 {
    match section {
        None => EXIDX_CANTUNWIND,
        Some(data) => match crate::bytes::u32_at(data, data.len() - 4) {
            Some(word) => word,
            None => EXIDX_CANTUNWIND,
        },
    }
}

/// The last unwind word of `data`, which decides whether the next section
/// repeats it.
pub fn last_unwind(data: Option<&[u8]>) -> (r: u32)
    ensures
        r == spec_last_unwind(
            match data {
                Some(bytes) => Some(bytes@),
                None => None,
            },
        ),
{
    let Some(bytes) = data else {
        return EXIDX_CANTUNWIND;
    };
    let len: usize = bytes.len();
    if len < 4 {
        return EXIDX_CANTUNWIND;
    }
    match get_u32(bytes, (len - 4) as u64) {
        Some(word) => word,
        None => EXIDX_CANTUNWIND,
    }
}

/// The sections a plan is made of: `.ARM.exidx` sections as `(text,
/// section, size)`, and executable sections as `(place, section, 0)`.
pub struct Found {
    /// The `.ARM.exidx` sections.
    pub exidx: Seq<(u64, u64, u64)>,
    /// The executable sections.
    pub executable: Seq<(u64, u64, u64)>,
}

/// What section `index` of file `f` adds.
pub open spec fn section_found(
    refs: Refs,
    placement: Placement,
    f: int,
    index: usize,
    section: InputSection,
) -> Found {
    let nothing = Found { exidx: Seq::empty(), executable: Seq::empty() };
    match refs.sections.spec_id(f, index32(index) as int) {
        None => nothing,
        Some(id) => if !refs.sections.spec_is_live(id) || placement.spec_output_of(id) is None {
            nothing
        } else if section.header.sh_type == SHT_ARM_EXIDX {
            match refs.sections.spec_id(f, section.header.sh_link as int) {
                Some(text) => if refs.sections.spec_is_live(text) {
                    Found {
                        exidx: seq![
                            (text.position as u64, id.position as u64, section.header.sh_size),
                        ],
                        executable: Seq::empty(),
                    }
                } else {
                    nothing
                },
                None => nothing,
            }
        } else if is_code(section.header.sh_flags) && section.header.sh_size > 0 && section.kind
            != SectionKind::Ignored {
            match spec_order_key(placement, id) {
                Some(key) => Found {
                    exidx: Seq::empty(),
                    executable: seq![(key, id.position as u64, 0u64)],
                },
                None => nothing,
            }
        } else {
            nothing
        },
    }
}

/// What the sections from `i` on of file `f` add.
pub open spec fn sections_found(
    refs: Refs,
    placement: Placement,
    f: int,
    object: ObjectInput,
    i: int,
) -> Found
    decreases object.sections@.len() - i,
{
    if i < 0 || i >= object.sections@.len() {
        Found { exidx: Seq::empty(), executable: Seq::empty() }
    } else {
        let here = section_found(refs, placement, f, i as usize, object.sections@[i]);
        let rest = sections_found(refs, placement, f, object, i + 1);
        Found {
            exidx: here.exidx + rest.exidx,
            executable: here.executable + rest.executable,
        }
    }
}

/// What the files from `f` on add.
pub open spec fn files_found(refs: Refs, placement: Placement, f: int) -> Found
    decreases refs.files@.len() - f,
{
    if f < 0 || f >= refs.files@.len() {
        Found { exidx: Seq::empty(), executable: Seq::empty() }
    } else {
        let rest = files_found(refs, placement, f + 1);
        match refs.files@[f].object {
            None => rest,
            Some(object) => {
                let here = sections_found(refs, placement, f, object, 0);
                Found {
                    exidx: here.exidx + rest.exidx,
                    executable: here.executable + rest.executable,
                }
            },
        }
    }
}

/// Collects what one object adds.
fn find_in_object(
    refs: &Refs,
    placement: &Placement,
    f: usize,
    object: &ObjectInput,
    exidx: &mut Vec<(u64, u64, u64)>,
    executable: &mut Vec<(u64, u64, u64)>,
)
    ensures
        final(exidx)@ == old(exidx)@ + sections_found(
            *refs,
            *placement,
            f as int,
            *object,
            0,
        ).exidx,
        final(executable)@ == old(executable)@ + sections_found(
            *refs,
            *placement,
            f as int,
            *object,
            0,
        ).executable,
{
    let ghost whole = sections_found(*refs, *placement, f as int, *object, 0);
    let mut i: usize = 0;
    while i < object.sections.len()
        invariant
            i <= object.sections@.len(),
            old(exidx)@ + whole.exidx == exidx@ + sections_found(
                *refs,
                *placement,
                f as int,
                *object,
                i as int,
            ).exidx,
            old(executable)@ + whole.executable == executable@ + sections_found(
                *refs,
                *placement,
                f as int,
                *object,
                i as int,
            ).executable,
        decreases object.sections@.len() - i,
    {
        let section: &InputSection = &object.sections[i];
        let ghost here = section_found(*refs, *placement, f as int, i, *section);
        let ghost rest = sections_found(*refs, *placement, f as int, *object, i + 1);
        let ghost x = exidx@;
        let ghost e = executable@;
        if let Some(id) = refs.sections.id(f, index32(i)) {
            if refs.sections.is_live(id) && placement.find_output(id).is_some() {
                if section.header.sh_type == SHT_ARM_EXIDX {
                    if let Some(text) = refs.sections.id(f, section.header.sh_link) {
                        if refs.sections.is_live(text) {
                            exidx.push(
                                (
                                    text.position as u64,
                                    id.position as u64,
                                    section.header.sh_size,
                                ),
                            );
                        }
                    }
                } else if is_code(section.header.sh_flags) && section.header.sh_size > 0
                    && section.kind != SectionKind::Ignored {
                    if let Some(key) = order_key(placement, id) {
                        executable.push((key, id.position as u64, 0));
                    }
                }
            }
        }
        assert(exidx@ =~= x + here.exidx);
        assert(executable@ =~= e + here.executable);
        assert(x + (here.exidx + rest.exidx) =~= exidx@ + rest.exidx);
        assert(e + (here.executable + rest.executable) =~= executable@ + rest.executable);
        i += 1;
    }
    assert(exidx@ + Seq::<(u64, u64, u64)>::empty() =~= exidx@);
    assert(executable@ + Seq::<(u64, u64, u64)>::empty() =~= executable@);
}

/// The earliest placed of the `.ARM.exidx` sections from `i` on, as
/// `(place, section)`.
pub open spec fn earliest(placement: Placement, exidx: Seq<(u64, u64, u64)>, i: int) -> Option<
    (u64, u64),
>
    decreases exidx.len() - i,
{
    if i < 0 || i >= exidx.len() {
        None
    } else {
        let rest = earliest(placement, exidx, i + 1);
        match spec_order_key(placement, SectionId { position: exidx[i].1 as usize }) {
            None => rest,
            Some(key) => match rest {
                None => Some((key, exidx[i].1)),
                Some(other) => if other.0 < key || (other.0 == key && other.1 < exidx[i].1) {
                    rest
                } else {
                    Some((key, exidx[i].1))
                },
            },
        }
    }
}

/// The contents of a section, if it has any that could be read.
pub open spec fn contents_of(refs: Refs, id: SectionId) -> Option<Seq<u8>> {
    match refs.sections.spec_locate(id) {
        None => None,
        Some((file, index)) => if file < refs.files@.len() {
            match refs.files@[file as int].object {
                None => None,
                Some(object) => match object.spec_section(index as int) {
                    None => None,
                    Some(section) => match section.contents {
                        Some(data) => Some(data@),
                        None => None,
                    },
                },
            }
        } else {
            None
        },
    }
}

/// The contents of a section, if it has any that could be read.
fn data_of(refs: &Refs, id: SectionId) -> (r: Option<&[u8]>)
    ensures
        match (r, contents_of(*refs, id)) {
            (Some(a), Some(b)) => a@ == b,
            (None, None) => true,
            _ => false,
        },
{
    let Some((file, index)) = refs.sections.locate(id) else {
        return None;
    };
    if file >= refs.files.len() {
        return None;
    }
    let Some(object) = &refs.files[file].object else {
        return None;
    };
    let Some(section) = object.section(index) else {
        return None;
    };
    match &section.contents {
        Some(data) => Some(data.as_slice()),
        None => None,
    }
}

/// The piece that describes executable section `text`, given the
/// `.ARM.exidx` sections in order.
pub open spec fn piece_of(exidx: Seq<(u64, u64, u64)>, text: u64) -> Piece {
    let at = crate::order::first_at_least(exidx, text, 0);
    if 0 <= at < exidx.len() && exidx[at].0 == text && exidx[at].2 > 0 {
        Piece::Input {
            exidx: SectionId { position: exidx[at].1 as usize },
            text: SectionId { position: text as usize },
            size: exidx[at].2,
        }
    } else {
        Piece::CantUnwind { text: SectionId { position: text as usize } }
    }
}

/// The contents that a piece's entries are in.
pub open spec fn piece_contents(refs: Refs, piece: Piece) -> Option<Seq<u8>> {
    match piece {
        Piece::Input { exidx, .. } => contents_of(refs, exidx),
        Piece::CantUnwind { .. } => None,
    }
}

/// The pieces of the executable sections from `i` on: all of them, or,
/// where entries are merged, those that say more than the one before.
pub open spec fn pieces_from(
    refs: Refs,
    exidx: Seq<(u64, u64, u64)>,
    executable: Seq<(u64, u64, u64)>,
    merge: bool,
    previous: Option<u32>,
    i: int,
) -> Seq<Piece>
    decreases executable.len() - i,
{
    if i < 0 || i >= executable.len() {
        Seq::empty()
    } else {
        let piece = piece_of(exidx, executable[i].1);
        let contents = piece_contents(refs, piece);
        if merge && previous is Some && spec_is_duplicate(previous->0, contents) {
            pieces_from(refs, exidx, executable, merge, previous, i + 1)
        } else {
            seq![piece] + pieces_from(
                refs,
                exidx,
                executable,
                merge,
                Some(spec_last_unwind(contents)),
                i + 1,
            )
        }
    }
}

/// The size of pieces, added up to the highest number there is.
pub open spec fn size_of(pieces: Seq<Piece>, n: int) -> u64
    decreases n,
{
    if n <= 0 {
        0
    } else {
        crate::elf::arch::thunk::saturated(size_of(pieces, n - 1), pieces[n - 1].size())
    }
}

/// Whether `table` is the index of a link with these sections, each list in
/// order.
pub open spec fn is_index(
    refs: Refs,
    placement: Placement,
    exidx: Seq<(u64, u64, u64)>,
    executable: Seq<(u64, u64, u64)>,
    merge: bool,
    table: Option<Table>,
) -> bool {
    match (earliest(placement, exidx, 0), table) {
        (None, None) => true,
        (Some(_), None) => executable.len() == 0,
        (None, Some(_)) => false,
        (Some(first), Some(t)) => {
            &&& executable.len() > 0
            &&& t.first.position == first.1 as usize
            &&& t.sentinel.position == executable.last().1 as usize
            &&& t.pieces@ == pieces_from(refs, exidx, executable, merge, None, 0)
            &&& t.size == crate::elf::arch::thunk::saturated(
                size_of(t.pieces@, t.pieces@.len() as int),
                ENTRY_SIZE,
            )
        },
    }
}

/// The earliest placed of the `.ARM.exidx` sections.
fn find_earliest(placement: &Placement, exidx: &Vec<(u64, u64, u64)>) -> (r: Option<(u64, u64)>)
    ensures
        r == earliest(*placement, exidx@, 0),
{
    let mut best: Option<(u64, u64)> = None;
    let mut i: usize = exidx.len();
    while i > 0
        invariant
            i <= exidx@.len(),
            best == earliest(*placement, exidx@, i as int),
        decreases i,
    {
        i -= 1;
        let id: u64 = exidx[i].1;
        if let Some(key) = order_key(placement, SectionId { position: id as usize }) {
            best = match best {
                None => Some((key, id)),
                Some(other) => if other.0 < key || (other.0 == key && other.1 < id) {
                    Some(other)
                } else {
                    Some((key, id))
                },
            };
        }
    }
    best
}

/// The pieces of a table, and their size.
fn find_pieces(
    refs: &Refs,
    exidx: &Vec<(u64, u64, u64)>,
    executable: &Vec<(u64, u64, u64)>,
    merge: bool,
) -> (r: (Vec<Piece>, u64))
    requires
        crate::order::rows_sorted(exidx@),
    ensures
        r.0@ == pieces_from(*refs, exidx@, executable@, merge, None, 0),
        r.1 == size_of(r.0@, r.0@.len() as int),
{
    let ghost whole = pieces_from(*refs, exidx@, executable@, merge, None, 0);
    let mut pieces: Vec<Piece> = Vec::new();
    let mut size: u64 = 0;
    let mut previous: Option<u32> = None;
    let mut i: usize = 0;
    assert(pieces@ + whole =~= whole);
    while i < executable.len()
        invariant
            i <= executable@.len(),
            crate::order::rows_sorted(exidx@),
            whole == pieces@ + pieces_from(
                *refs,
                exidx@,
                executable@,
                merge,
                previous,
                i as int,
            ),
            size == size_of(pieces@, pieces@.len() as int),
        decreases executable@.len() - i,
    {
        let text: u64 = executable[i].1;
        let at: usize = lower_bound(exidx, text);
        let piece: Piece = if at < exidx.len() && exidx[at].0 == text && exidx[at].2 > 0 {
            Piece::Input {
                exidx: SectionId { position: exidx[at].1 as usize },
                text: SectionId { position: text as usize },
                size: exidx[at].2,
            }
        } else {
            Piece::CantUnwind { text: SectionId { position: text as usize } }
        };
        let contents: Option<&[u8]> = match piece {
            Piece::Input { exidx: id, .. } => data_of(refs, id),
            Piece::CantUnwind { .. } => None,
        };
        let repeated: bool = match previous {
            Some(word) => merge && is_duplicate(word, contents),
            None => false,
        };
        if !repeated {
            let ghost before = pieces@;
            previous = Some(last_unwind(contents));
            size = size.saturating_add(piece.size());
            pieces.push(piece);
            proof {
                let rest = pieces_from(*refs, exidx@, executable@, merge, previous, i + 1);
                assert(before + (seq![piece] + rest) =~= pieces@ + rest);
                sizes_agree(before, pieces@, before.len() as int);
            }
        }
        i += 1;
    }
    assert(pieces@ + Seq::<Piece>::empty() =~= pieces@);
    (pieces, size)
}

/// The size of the first pieces does not depend on the others.
proof fn sizes_agree(a: Seq<Piece>, b: Seq<Piece>, n: int)
    requires
        0 <= n <= a.len(),
        n <= b.len(),
        forall|i: int| 0 <= i < n ==> a[i] == b[i],
    ensures
        size_of(a, n) == size_of(b, n),
    decreases n,
{
    if n > 0 {
        sizes_agree(a, b, n - 1);
    }
}

/// Whether a plan is made of sorted lists of the sections found.
pub open spec fn is_plan(
    refs: Refs,
    placement: Placement,
    merge: bool,
    table: Option<Table>,
) -> bool {
    let found = files_found(refs, placement, 0);
    exists|exidx: Seq<(u64, u64, u64)>, executable: Seq<(u64, u64, u64)>| #[trigger]
        crate::order::is_sorted_of(exidx, found.exidx) && #[trigger] crate::order::is_sorted_of(
            executable,
            found.executable,
        ) && is_index(refs, placement, exidx, executable, merge, table)
}

/// Builds the exception index. `merge` drops sections whose entries repeat
/// the one before (`--merge-exidx-entries`, the default, and only when the
/// planned order is the final one). `None` when no input has one.
pub fn plan(refs: &Refs, placement: &Placement, merge: bool) -> (r: Option<Table>)
    ensures
        is_plan(*refs, *placement, merge, r),
{
    let mut exidx: Vec<(u64, u64, u64)> = Vec::new();
    let mut executable: Vec<(u64, u64, u64)> = Vec::new();
    let ghost found = files_found(*refs, *placement, 0);
    let mut f: usize = 0;
    assert(exidx@ + found.exidx =~= found.exidx);
    assert(executable@ + found.executable =~= found.executable);
    while f < refs.files.len()
        invariant
            f <= refs.files@.len(),
            found.exidx == exidx@ + files_found(*refs, *placement, f as int).exidx,
            found.executable == executable@ + files_found(*refs, *placement, f as int).executable,
        decreases refs.files@.len() - f,
    {
        let ghost rest = files_found(*refs, *placement, f + 1);
        let ghost x = exidx@;
        let ghost e = executable@;
        if let Some(object) = &refs.files[f].object {
            find_in_object(refs, placement, f, object, &mut exidx, &mut executable);
            proof {
                let here = sections_found(*refs, *placement, f as int, *object, 0);
                assert(x + (here.exidx + rest.exidx) =~= exidx@ + rest.exidx);
                assert(e + (here.executable + rest.executable) =~= executable@ + rest.executable);
            }
        }
        f += 1;
    }
    assert(exidx@ + Seq::<(u64, u64, u64)>::empty() =~= exidx@);
    assert(executable@ + Seq::<(u64, u64, u64)>::empty() =~= executable@);
    sort_rows(&mut exidx);
    sort_rows(&mut executable);
    assert(crate::order::is_sorted_of(exidx@, found.exidx));
    assert(crate::order::is_sorted_of(executable@, found.executable));
    let n: usize = executable.len();
    let r: Option<Table> = match find_earliest(placement, &exidx) {
        None => None,
        Some(first) => if n == 0 {
            None
        } else {
            let (pieces, size) = find_pieces(refs, &exidx, &executable, merge);
            Some(
                Table {
                    first: SectionId { position: first.1 as usize },
                    pieces,
                    sentinel: SectionId { position: executable[n - 1].1 as usize },
                    // The sentinel entry.
                    size: size.saturating_add(ENTRY_SIZE),
                },
            )
        },
    };
    assert(is_index(*refs, *placement, exidx@, executable@, merge, r));
    r
}

/// A reference of a `.ARM.exidx` input section to code or to `.ARM.extab`.
#[derive(Clone, Copy, Debug, PartialEq, Eq, Structural)]
pub struct Reference {
    /// Where in the section.
    pub offset: u64,
    /// The address it refers to.
    pub target: u64,
}

/// What writing the table reads of an input section.
#[derive(Debug, PartialEq, Eq)]
pub struct Source {
    /// Its address, `None` when it is not in the output.
    pub address: Option<u64>,
    /// Its size.
    pub size: u64,
    /// Its contents, if they could be read.
    pub contents: Option<Vec<u8>>,
    /// The references a `.ARM.exidx` section makes.
    pub references: Vec<Reference>,
}

/// The address of a section, 0 where it has none.
pub open spec fn address_of(sources: Seq<Source>, id: SectionId) -> u64 {
    if id.position < sources.len() {
        match sources[id.position as int].address {
            Some(address) => address,
            None => 0,
        }
    } else {
        0
    }
}

/// The address of a section, 0 where it has none.
fn find_address(sources: &[Source], id: SectionId) -> (r: u64)
    ensures
        r == address_of(sources@, id),
{
    if id.position < sources.len() {
        match sources[id.position].address {
            Some(address) => address,
            None => 0,
        }
    } else {
        0
    }
}

/// The size of a section, 0 where there is none.
pub open spec fn extent_of(sources: Seq<Source>, id: SectionId) -> u64 {
    if id.position < sources.len() {
        sources[id.position as int].size
    } else {
        0
    }
}

/// `s` with a `PREL31` reference to `target` at `at`, whose address is
/// `place`; unchanged where it does not fit.
pub open spec fn with_prel31(s: Seq<u8>, at: int, place: u64, target: u64) -> Seq<u8> {
    match crate::bytes::u32_at(s, at) {
        None => s,
        Some(insn) => match Field::Prel31.encoded(
            insn,
            (target.wrapping_sub(place) as u32 as i32) as i64,
        ) {
            Ok(word) => crate::bytes::stored(s, at, crate::bytes::spec_le32(word)),
            Err(_) => s,
        },
    }
}

/// Writes a `PREL31` reference to `target` at `at` in `out`, whose
/// address is `place`.
fn put_prel31(out: &mut [u8], at: u64, place: u64, target: u64)
    ensures
        final(out)@ == with_prel31(old(out)@, at as int, place, target),
{
    if let Some(insn) = get_u32(out, at) {
        let value: i64 = (target.wrapping_sub(place) as u32 as i32) as i64;
        if let Ok(word) = Field::Prel31.encode(insn, value) {
            put_u32(out, at, word);
        }
    }
}

/// `s` with an `EXIDX_CANTUNWIND` entry for `target` at `at`.
pub open spec fn with_cantunwind(s: Seq<u8>, at: int, place: u64, target: u64) -> Seq<u8> {
    let cleared = crate::bytes::stored(s, at, crate::bytes::spec_le32(0));
    let referred = with_prel31(cleared, at, place, target);
    crate::bytes::stored(referred, at + 4, crate::bytes::spec_le32(EXIDX_CANTUNWIND))
}

/// Writes an `EXIDX_CANTUNWIND` entry for `target` at `at`.
fn put_cantunwind(out: &mut [u8], at: u64, place: u64, target: u64)
    ensures
        final(out)@ == with_cantunwind(old(out)@, at as int, place, target),
{
    let len: usize = out.len();
    put_u32(out, at, 0);
    put_prel31(out, at, place, target);
    assert(out@.len() == len);
    if at <= u64::MAX - 4 {
        put_u32(out, at + 4, EXIDX_CANTUNWIND);
    }
}

/// The references from `i` on applied to the entries `s` at `place`.
pub open spec fn with_references(
    s: Seq<u8>,
    place: u64,
    references: Seq<Reference>,
    i: int,
) -> Seq<u8>
    decreases references.len() - i,
{
    if i < 0 || i >= references.len() {
        s
    } else {
        let r = references[i];
        let value = r.target.wrapping_sub(place.wrapping_add(r.offset));
        with_references(
            crate::elf::arch::fields::spec_write_value(
                s,
                r.offset,
                Width::Arm(Field::Prel31),
                value,
            ).bytes,
            place,
            references,
            i + 1,
        )
    }
}

/// The entries of an input section in the place `s`, at address `place`.
pub open spec fn entries_in(s: Seq<u8>, place: u64, source: Source, contents: Seq<u8>) -> Seq<u8> {
    let n = if contents.len() < s.len() {
        contents.len()
    } else {
        s.len()
    };
    with_references(
        crate::bytes::overlay(s, 0, contents.take(n as int)),
        place,
        source.references@,
        0,
    )
}

/// `s` with one piece of the table written at `offset` of it.
pub open spec fn with_piece(
    s: Seq<u8>,
    offset: u64,
    base: u64,
    piece: Piece,
    sources: Seq<Source>,
) -> Seq<u8> {
    let place = base.wrapping_add(offset);
    match piece {
        Piece::Input { exidx, size, .. } => if exidx.position < sources.len()
            && sources[exidx.position as int].contents is Some && crate::bytes::inside(
            s,
            offset as int,
            size as int,
        ) {
            let source = sources[exidx.position as int];
            crate::bytes::overlay(
                s,
                offset as int,
                entries_in(
                    s.subrange(offset as int, offset + size),
                    place,
                    source,
                    source.contents->0@,
                ),
            )
        } else {
            s
        },
        Piece::CantUnwind { text } => with_cantunwind(
            s,
            offset as int,
            place,
            address_of(sources, text),
        ),
    }
}

/// `s` with the pieces that `order` lists from `i` on written from `offset`
/// on, and the sentinel after them.
pub open spec fn with_pieces(
    s: Seq<u8>,
    offset: u64,
    base: u64,
    table: Table,
    order: Seq<usize>,
    sources: Seq<Source>,
    i: int,
) -> Seq<u8>
    decreases order.len() - i,
{
    if i < 0 || i >= order.len() {
        with_cantunwind(
            s,
            offset as int,
            base.wrapping_add(offset),
            address_of(sources, table.sentinel).wrapping_add(extent_of(sources, table.sentinel)),
        )
    } else {
        let piece = table.pieces@[order[i] as int];
        with_pieces(
            with_piece(s, offset, base, piece, sources),
            crate::elf::arch::thunk::saturated(offset, piece.size()),
            base,
            table,
            order,
            sources,
            i + 1,
        )
    }
}

/// What orders the pieces of a table when it is written: their addresses.
pub open spec fn address_keys(table: Table, sources: Seq<Source>) -> Seq<(u64, u64)> {
    Seq::new(
        table.pieces@.len(),
        |i: int| (address_of(sources, table.pieces@[i].text()), 0u64),
    )
}

/// Applies the references of an input section to its entries.
fn apply_references(out: &mut [u8], place: u64, references: &Vec<Reference>)
    ensures
        final(out)@ == with_references(old(out)@, place, references@, 0),
{
    let mut i: usize = 0;
    while i < references.len()
        invariant
            i <= references@.len(),
            with_references(old(out)@, place, references@, 0) == with_references(
                out@,
                place,
                references@,
                i as int,
            ),
        decreases references@.len() - i,
    {
        let r: Reference = references[i];
        let value: u64 = r.target.wrapping_sub(place.wrapping_add(r.offset));
        let _ = write_value(out, r.offset, Width::Arm(Field::Prel31), value);
        i += 1;
    }
}

/// Writing references keeps the length.
proof fn references_keep_the_length(s: Seq<u8>, place: u64, references: Seq<Reference>, i: int)
    ensures
        with_references(s, place, references, i).len() == s.len(),
    decreases references.len() - i,
{
    if 0 <= i < references.len() {
        let r = references[i];
        let value = r.target.wrapping_sub(place.wrapping_add(r.offset));
        let next = crate::elf::arch::fields::spec_write_value(
            s,
            r.offset,
            Width::Arm(Field::Prel31),
            value,
        ).bytes;
        assert(next.len() == s.len());
        references_keep_the_length(next, place, references, i + 1);
    }
}

/// Writes one piece of the table at `offset` of `out`.
fn put_piece(out: &mut [u8], offset: u64, base: u64, piece: Piece, sources: &[Source])
    ensures
        final(out)@ == with_piece(old(out)@, offset, base, piece, sources@),
{
    let at: u64 = base.wrapping_add(offset);
    match piece {
        Piece::Input { exidx, size, .. } => {
            if exidx.position >= sources.len() {
                return ;
            }
            let source: &Source = &sources[exidx.position];
            let Some(contents) = &source.contents else {
                return ;
            };
            let len: usize = out.len();
            if size > len as u64 || offset > len as u64 - size {
                return ;
            }
            let start: usize = offset as usize;
            let end: usize = (offset + size) as usize;
            let mut entries: Vec<u8> = copied(slice_subrange(out, start, end));
            let n: usize = if contents.len() < entries.len() {
                contents.len()
            } else {
                entries.len()
            };
            let ghost room = entries@;
            assert(room == old(out)@.subrange(offset as int, offset + size));
            write_over(entries.as_mut_slice(), 0, slice_subrange(contents.as_slice(), 0, n));
            apply_references(entries.as_mut_slice(), at, &source.references);
            proof {
                assert(contents@.subrange(0, n as int) =~= contents@.take(n as int));
                references_keep_the_length(
                    crate::bytes::overlay(room, 0, contents@.take(n as int)),
                    at,
                    source.references@,
                    0,
                );
            }
            write_over(out, start, &entries);
        },
        Piece::CantUnwind { text } => {
            put_cantunwind(out, offset, at, find_address(sources, text));
        },
    }
}

/// Writes the exception index at address `base` into `out`, in address
/// order: the planned order, unless the layout moved sections apart from
/// it. The sentinel covers the end of the last executable section, so that
/// an unwinder searching past it stops.
pub fn write(table: &Table, base: u64, out: &mut [u8], sources: &[Source])
    ensures
        exists|order: Seq<usize>| #[trigger]
            crate::order::is_stable_order(address_keys(*table, sources@), order) && final(out)@
                == with_pieces(old(out)@, 0, base, *table, order, sources@, 0),
{
    let mut keys: Vec<(u64, u64)> = Vec::new();
    let mut k: usize = 0;
    while k < table.pieces.len()
        invariant
            k <= table.pieces@.len(),
            keys@ == address_keys(*table, sources@).take(k as int),
        decreases table.pieces@.len() - k,
    {
        let piece: Piece = table.pieces[k];
        keys.push((find_address(sources, piece.text()), 0));
        k += 1;
        assert(keys@ =~= address_keys(*table, sources@).take(k as int));
    }
    assert(keys@ =~= address_keys(*table, sources@));
    let order: Vec<usize> = stable_order(&keys);
    let mut offset: u64 = 0;
    let mut i: usize = 0;
    while i < order.len()
        invariant
            i <= order@.len(),
            order@.len() == table.pieces@.len(),
            forall|j: int| 0 <= j < order@.len() ==> (#[trigger] order@[j]) < table.pieces@.len(),
            with_pieces(old(out)@, 0, base, *table, order@, sources@, 0) == with_pieces(
                out@,
                offset,
                base,
                *table,
                order@,
                sources@,
                i as int,
            ),
        decreases order@.len() - i,
    {
        let at: usize = order[i];
        let piece: Piece = table.pieces[at];
        put_piece(out, offset, base, piece, sources);
        offset = offset.saturating_add(piece.size());
        i += 1;
    }
    let extent: u64 = if table.sentinel.position < sources.len() {
        sources[table.sentinel.position].size
    } else {
        0
    };
    let end: u64 = find_address(sources, table.sentinel).wrapping_add(extent);
    put_cantunwind(out, offset, base.wrapping_add(offset), end);
    assert(crate::order::is_stable_order(address_keys(*table, sources@), order@));
}

/// The last unwind word of pieces, if there are any.
pub open spec fn word_before(refs: Refs, pieces: Seq<Piece>) -> Option<u32> {
    if pieces.len() == 0 {
        None
    } else {
        Some(spec_last_unwind(piece_contents(refs, pieces.last())))
    }
}

/// Entries that repeat a word are all that word.
proof fn repeated_words(data: Seq<u8>, previous: u32, at: int, k: int)
    requires
        0 <= at,
        0 <= k,
        at + 8 * k < data.len(),
        repeats(data, previous, at),
    ensures
        crate::bytes::u32_at(data, at + 8 * k) == Some(previous),
    decreases k,
{
    if k > 0 {
        repeated_words(data, previous, at + 8, k - 1);
    }
}

/// Merging entries loses nothing: the piece of an executable section is in
/// the table after those of the sections before it, or all of its entries
/// have the unwind word of the entry that stands before it in the table.
pub proof fn merging_keeps_what_is_unwound(
    refs: Refs,
    exidx: Seq<(u64, u64, u64)>,
    executable: Seq<(u64, u64, u64)>,
    n: int,
) -> (before: Seq<Piece>)
    requires
        0 <= n < executable.len(),
    ensures
        ({
            let previous = word_before(refs, before);
            let piece = piece_of(exidx, executable[n].1);
            let contents = piece_contents(refs, piece);
            let rest = pieces_from(refs, exidx, executable, true, previous, n);
            &&& pieces_from(refs, exidx, executable, true, None, 0) == before + rest
            &&& {
                ||| rest == seq![piece] + pieces_from(
                    refs,
                    exidx,
                    executable,
                    true,
                    word_before(refs, before.push(piece)),
                    n + 1,
                )
                ||| {
                    &&& rest == pieces_from(refs, exidx, executable, true, previous, n + 1)
                    &&& previous matches Some(word) && match contents {
                        None => word == EXIDX_CANTUNWIND,
                        Some(data) => forall|k: int|
                            0 <= k && 4 + 8 * k < data.len() ==> #[trigger] crate::bytes::u32_at(
                                data,
                                4 + 8 * k,
                            ) == Some(word),
                    }
                }
            }
        }),
    decreases n,
{
    let before = if n == 0 {
        Seq::<Piece>::empty()
    } else {
        let earlier = merging_keeps_what_is_unwound(refs, exidx, executable, n - 1);
        let previous = word_before(refs, earlier);
        let piece = piece_of(exidx, executable[n - 1].1);
        if previous is Some && spec_is_duplicate(previous->0, piece_contents(refs, piece)) {
            earlier
        } else {
            let rest = pieces_from(refs, exidx, executable, true, previous, n - 1);
            let more = pieces_from(
                refs,
                exidx,
                executable,
                true,
                word_before(refs, earlier.push(piece)),
                n,
            );
            assert(rest == seq![piece] + more);
            assert(earlier + (seq![piece] + more) =~= earlier.push(piece) + more);
            earlier.push(piece)
        }
    };
    let previous = word_before(refs, before);
    let piece = piece_of(exidx, executable[n].1);
    let contents = piece_contents(refs, piece);
    let rest = pieces_from(refs, exidx, executable, true, previous, n);
    assert(pieces_from(refs, exidx, executable, true, None, 0) =~= before + rest);
    if previous is Some && spec_is_duplicate(previous->0, contents) {
        if let Some(data) = contents {
            assert forall|k: int| 0 <= k && 4 + 8 * k < data.len() implies #[trigger]
                crate::bytes::u32_at(data, 4 + 8 * k) == Some(previous->0) by {
                repeated_words(data, previous->0, 4, k);
            }
        }
    }
    before
}

} // verus!
