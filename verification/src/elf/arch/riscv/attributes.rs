//! `.riscv.attributes` merging.
//!
//! Every object carries a build-attributes section naming the ISA it was
//! compiled for. The output gets one merged section:
//!
//! - `Tag_RISCV_arch`: the union of the extensions, each at the highest
//!   version any object has, in canonical order;
//! - `Tag_RISCV_stack_align`: must agree (a mismatch is reported);
//! - `Tag_RISCV_unaligned_access`: set if any object sets it;
//! - `Tag_RISCV_atomic_abi`: the psABI's compatibility rules;
//! - other tags: kept when every object that has them agrees.
//!
//! Attributes are written in ascending tag order.

use vstd::prelude::*;
use vstd::string::StringExecFns;

use super::isa::{insert_all, parse_arch, write_isa, Extension, ExtensionView};
use crate::bytes::{copied, same};
use crate::elf::arch::build_attributes;
use crate::elf::arch::build_attributes::{
    frame, parse_section, Attributes, Value, ValueView, Vendor,
};
use crate::elf::consts::SHT_RISCV_ATTRIBUTES;
use crate::elf::inputs::{InputSection, ObjectInput};
use crate::elf::refs::Refs;
use crate::ids::SectionId;
use crate::leb::push_uleb;
use crate::text::{lossy_text, push_decimal, push_text};

verus! {

/// `Tag_RISCV_stack_align`.
pub const STACK_ALIGN: u64 = 4;

/// `Tag_RISCV_arch`.
pub const ARCH: u64 = 5;

/// `Tag_RISCV_unaligned_access`.
pub const UNALIGNED_ACCESS: u64 = 6;

/// `Tag_RISCV_atomic_abi`.
pub const ATOMIC_ABI: u64 = 14;

/// Atomic ABI: not stated.
pub const ATOMIC_UNKNOWN: u64 = 0;

/// Atomic ABI: `A6C`.
pub const ATOMIC_A6C: u64 = 1;

/// Atomic ABI: `A6S`.
pub const ATOMIC_A6S: u64 = 2;

/// Atomic ABI: `A7`.
pub const ATOMIC_A7: u64 = 3;

/// Merges two atomic ABIs, or `None` if they are incompatible.
#[verifier::allow_in_spec]
pub fn merge_atomic(old: u64, new: u64) -> Option<u64>
    returns
        (if old == new || new == ATOMIC_UNKNOWN {
            Some(old)
        } else {
            match (old, new) {
                (ATOMIC_UNKNOWN, _) => Some(new),
                (ATOMIC_A6C, ATOMIC_A6S) | (ATOMIC_A6S, ATOMIC_A6C) => Some(ATOMIC_A6C),
                (ATOMIC_A6S, ATOMIC_A7) | (ATOMIC_A7, ATOMIC_A6S) => Some(ATOMIC_A7),
                _ => None,
            }
        }),
{
    if old == new || new == ATOMIC_UNKNOWN {
        return Some(old);
    }
    match (old, new) {
        (ATOMIC_UNKNOWN, _) => Some(new),
        (ATOMIC_A6C, ATOMIC_A6S) | (ATOMIC_A6S, ATOMIC_A6C) => Some(ATOMIC_A6C),
        (ATOMIC_A6S, ATOMIC_A7) | (ATOMIC_A7, ATOMIC_A6S) => Some(ATOMIC_A7),
        _ => None,
    }
}

/// Parses the `riscv` vendor's file-level attributes of a section.
///
/// # Errors
///
/// A description of the first malformation found.
pub fn parse(data: &[u8]) -> (r: Result<Attributes, &'static str>)
    ensures
        match build_attributes::spec_parse(data@, Vendor::RiscV) {
            Ok(items) => r is Ok && build_attributes::viewed(r->Ok_0@) == items,
            Err(e) => r is Err && r->Err_0 == e,
        },
{
    parse_section(data, Vendor::RiscV)
}

/// The width and the extensions of ISA strings, or the string that is none.
pub enum Isa {
    /// No string was seen.
    Nothing,
    /// The first string's width and every extension.
    Merged(u32, Seq<ExtensionView>),
    /// An invalid string.
    Invalid(Seq<char>),
}

/// The strings from `i` on merged into what came before.
pub open spec fn isa_merged(
    xlen: Option<u32>,
    list: Seq<ExtensionView>,
    strings: Seq<Seq<char>>,
    i: int,
) -> Isa
    decreases strings.len() - i,
{
    if i < 0 || i >= strings.len() {
        match xlen {
            None => Isa::Nothing,
            Some(width) => Isa::Merged(width, list),
        }
    } else {
        match crate::elf::arch::riscv::isa::spec_parse_arch(vstd::utf8::encode_utf8(strings[i])) {
            None => Isa::Invalid(strings[i]),
            Some((width, extensions)) => isa_merged(
                Some(
                    match xlen {
                        Some(first) => first,
                        None => width,
                    },
                ),
                crate::elf::arch::riscv::isa::all_inserted(list, extensions, 0),
                strings,
                i + 1,
            ),
        }
    }
}

/// What merging ISA strings gives: the merged string, nothing where there
/// is none, or a description of the first invalid one.
pub open spec fn isa_result(isa: Isa) -> Result<Option<Seq<u8>>, Seq<char>> {
    match isa {
        Isa::Nothing => Ok(None),
        Isa::Merged(xlen, list) => Ok(Some(crate::elf::arch::riscv::isa::isa_string(xlen, list))),
        Isa::Invalid(text) => Err(text + ": invalid ISA string"@),
    }
}

/// Whether a result is the one asked for.
pub open spec fn isa_agrees(
    r: Result<Option<Vec<u8>>, String>,
    asked: Result<Option<Seq<u8>>, Seq<char>>,
) -> bool {
    match (r, asked) {
        (Ok(Some(a)), Ok(Some(b))) => a@ == b,
        (Ok(None), Ok(None)) => true,
        (Err(a), Err(b)) => a@ == b,
        _ => false,
    }
}

/// Merges the texts of ISA strings: every extension, at the highest
/// version.
///
/// # Errors
///
/// A description of the first invalid string.
pub fn merge_arch_texts(strings: &Vec<String>) -> (r: Result<Option<Vec<u8>>, String>)
    ensures
        isa_agrees(r, isa_result(isa_merged(None, Seq::empty(), crate::text::texts(strings@), 0))),
{
    let mut xlen: Option<u32> = None;
    let mut merged: Vec<Extension> = Vec::new();
    let mut i: usize = 0;
    assert(crate::elf::arch::riscv::isa::shown(merged@) =~= Seq::<ExtensionView>::empty());
    while i < strings.len()
        invariant
            i <= strings@.len(),
            isa_merged(None, Seq::empty(), crate::text::texts(strings@), 0) == isa_merged(
                xlen,
                crate::elf::arch::riscv::isa::shown(merged@),
                crate::text::texts(strings@),
                i as int,
            ),
        decreases strings@.len() - i,
    {
        let text: &str = strings[i].as_str();
        assert(crate::text::texts(strings@)[i as int] == text@);
        let Some((width, extensions)) = parse_arch(text.as_bytes()) else {
            let mut what: String = String::new();
            what.append(text);
            what.append(": invalid ISA string");
            assert(what@ =~= text@ + ": invalid ISA string"@);
            return Err(what);
        };
        xlen = match xlen {
            Some(first) => Some(first),
            None => Some(width),
        };
        insert_all(&mut merged, &extensions);
        i += 1;
    }
    match xlen {
        None => Ok(None),
        Some(width) => Ok(Some(write_isa(width, &merged))),
    }
}

/// The texts that the bytes of ISA strings are read as.
pub open spec fn lossy_texts(strings: Seq<Seq<u8>>) -> Seq<Seq<char>> {
    Seq::new(strings.len(), |i: int| crate::text::utf8_lossy(strings[i]))
}

/// What a list of byte strings holds.
pub open spec fn byte_strings(list: Seq<Vec<u8>>) -> Seq<Seq<u8>> {
    Seq::new(list.len(), |i: int| list[i]@)
}

/// Merges ISA strings: every extension, at the highest version.
///
/// # Errors
///
/// A description of the first invalid string.
pub fn merge_arch(strings: &Vec<Vec<u8>>) -> (r: Result<Option<Vec<u8>>, String>)
    ensures
        isa_agrees(
            r,
            isa_result(
                isa_merged(None, Seq::empty(), lossy_texts(byte_strings(strings@)), 0),
            ),
        ),
{
    let mut list: Vec<String> = Vec::new();
    let mut i: usize = 0;
    while i < strings.len()
        invariant
            i <= strings@.len(),
            crate::text::texts(list@) == lossy_texts(byte_strings(strings@)).take(i as int),
        decreases strings@.len() - i,
    {
        let text: String = lossy_text(&strings[i]);
        push_text(&mut list, text);
        i += 1;
        assert(crate::text::texts(list@) =~= lossy_texts(byte_strings(strings@)).take(i as int));
    }
    assert(crate::text::texts(list@) =~= lossy_texts(byte_strings(strings@)));
    merge_arch_texts(&list)
}

/// The value a tag has so far: a number and the section it came from, or a
/// text.
#[derive(Debug)]
pub struct Slot {
    /// The tag.
    pub tag: u64,
    /// A number.
    pub number: u64,
    /// The section that set it first.
    pub from: usize,
    /// A text.
    pub text: Vec<u8>,
}

/// What a [`Slot`] holds.
pub struct SlotView {
    /// The tag.
    pub tag: u64,
    /// A number.
    pub number: u64,
    /// The section that set it first.
    pub from: int,
    /// A text.
    pub text: Seq<u8>,
}

impl View for Slot {
    type V = SlotView;

    open spec fn view(&self) -> SlotView {
        SlotView {
            tag: self.tag,
            number: self.number,
            from: self.from as int,
            text: self.text@,
        }
    }
}

/// What a list of slots holds.
pub open spec fn slots_shown(list: Seq<Slot>) -> Seq<SlotView> {
    Seq::new(list.len(), |i: int| list[i]@)
}

/// Where `tag` belongs among slots in tag order, from position `i` on.
pub open spec fn slot_place(slots: Seq<SlotView>, tag: u64, i: int) -> int
    decreases slots.len() - i,
{
    if 0 <= i < slots.len() && slots[i].tag < tag {
        slot_place(slots, tag, i + 1)
    } else {
        i
    }
}

/// The slot of `tag`.
pub open spec fn slot_of(slots: Seq<SlotView>, tag: u64) -> Option<SlotView> {
    let at = slot_place(slots, tag, 0);
    if 0 <= at < slots.len() && slots[at].tag == tag {
        Some(slots[at])
    } else {
        None
    }
}

/// The slots with that of its tag put in or replaced.
pub open spec fn slot_put(slots: Seq<SlotView>, slot: SlotView) -> Seq<SlotView> {
    let at = slot_place(slots, slot.tag, 0);
    if 0 <= at < slots.len() && slots[at].tag == slot.tag {
        slots.update(at, slot)
    } else {
        slots.insert(at, slot)
    }
}

/// Whether slots are in tag order, each tag once.
pub open spec fn in_tag_order(slots: Seq<SlotView>) -> bool {
    forall|i: int, j: int|
        0 <= i < j < slots.len() ==> (#[trigger] slots[i]).tag < (#[trigger] slots[j]).tag
}

/// What precedes a place has smaller tags, and what follows has not.
proof fn slot_places_divide(slots: Seq<SlotView>, tag: u64, i: int)
    requires
        0 <= i <= slots.len(),
    ensures
        i <= slot_place(slots, tag, i) <= slots.len(),
        forall|k: int| i <= k < slot_place(slots, tag, i) ==> (#[trigger] slots[k]).tag < tag,
        slot_place(slots, tag, i) < slots.len() ==> slots[slot_place(slots, tag, i)].tag >= tag,
    decreases slots.len() - i,
{
    if i < slots.len() && slots[i].tag < tag {
        slot_places_divide(slots, tag, i + 1);
    }
}

/// Putting a slot in keeps the tag order.
pub proof fn puts_keep_the_tag_order(slots: Seq<SlotView>, slot: SlotView)
    requires
        in_tag_order(slots),
    ensures
        in_tag_order(slot_put(slots, slot)),
        slot_of(slot_put(slots, slot), slot.tag) == Some(slot),
{
    slot_places_divide(slots, slot.tag, 0);
    let at = slot_place(slots, slot.tag, 0);
    let out = slot_put(slots, slot);
    if at < slots.len() {
        assert forall|k: int| at < k < slots.len() implies (#[trigger] slots[k]).tag
            > slot.tag by {
            assert(slots[at].tag < slots[k].tag);
        }
    }
    assert(out[at] == slot);
    slot_places_divide(out, slot.tag, 0);
    let again = slot_place(out, slot.tag, 0);
    if again < at {
        assert(out[again].tag == slots[again].tag);
    }
    if again > at {
        assert(out[at].tag < slot.tag);
    }
}

/// What merging has come to.
pub struct Merging {
    /// The tags' values, in tag order.
    pub slots: Seq<SlotView>,
    /// The ISA strings seen.
    pub arches: Seq<Seq<u8>>,
    /// The conflicts found.
    pub problems: Seq<Seq<char>>,
}

/// The slots of `m` with one put in or replaced.
pub open spec fn with_slot(m: Merging, slot: SlotView) -> Merging {
    Merging { slots: slot_put(m.slots, slot), ..m }
}

/// A slot with a number.
pub open spec fn number_slot(tag: u64, number: u64, from: int) -> SlotView {
    SlotView { tag, number, from, text: Seq::empty() }
}

/// A number of section `index` merged.
pub open spec fn number_merged(
    m: Merging,
    tag: u64,
    v: u64,
    index: int,
    names: Seq<Seq<char>>,
) -> Merging {
    match slot_of(m.slots, tag) {
        None => with_slot(m, number_slot(tag, v, index)),
        Some(slot) => if tag == STACK_ALIGN {
            if slot.number != v {
                Merging {
                    problems: m.problems.push(
                        names[index] + " has stack_align="@ + crate::text::decimal(v as nat) + " but "@
                            + names[slot.from] + " has stack_align="@ + crate::text::decimal(
                            slot.number as nat,
                        ),
                    ),
                    ..m
                }
            } else {
                m
            }
        } else if tag == UNALIGNED_ACCESS {
            with_slot(m, SlotView { number: slot.number | v, ..slot })
        } else if tag == ATOMIC_ABI {
            match merge_atomic(slot.number, v) {
                Some(merged) => with_slot(m, SlotView { number: merged, ..slot }),
                None => Merging {
                    problems: m.problems.push(
                        "atomic abi mismatch for .riscv.attributes: "@ + names[slot.from]
                            + " has atomic_abi="@ + crate::text::decimal(slot.number as nat) + " but "@
                            + names[index] + " has atomic_abi="@ + crate::text::decimal(v as nat),
                    ),
                    ..m
                },
            }
        } else if slot.number != v {
            with_slot(m, SlotView { number: 0, ..slot })
        } else {
            m
        },
    }
}

/// A text merged: ISA strings are collected, others kept while every
/// section agrees.
pub open spec fn text_merged(m: Merging, tag: u64, text: Seq<u8>, index: int) -> Merging {
    if tag == ARCH {
        Merging { arches: m.arches.push(text), ..m }
    } else {
        match slot_of(m.slots, tag) {
            None => with_slot(m, SlotView { tag, number: 0, from: index, text }),
            Some(slot) => if slot.text != text {
                with_slot(m, SlotView { text: Seq::empty(), ..slot })
            } else {
                m
            },
        }
    }
}

/// The attributes of section `index` from `from` on merged.
pub open spec fn attributes_merged(
    m: Merging,
    attrs: Seq<(u64, ValueView)>,
    from: int,
    index: int,
    names: Seq<Seq<char>>,
) -> Merging
    decreases attrs.len() - from,
{
    if from < 0 || from >= attrs.len() {
        m
    } else {
        let next = match attrs[from].1 {
            ValueView::Int(v) => number_merged(m, attrs[from].0, v, index, names),
            ValueView::Text(t) => text_merged(m, attrs[from].0, t, index),
            ValueView::Pair(..) => m,
        };
        attributes_merged(next, attrs, from + 1, index, names)
    }
}

/// The attributes of a section, none where it is malformed.
pub open spec fn attributes_of(data: Seq<u8>) -> Seq<(u64, ValueView)> {
    match build_attributes::spec_parse(data, Vendor::RiscV) {
        Ok(attrs) => attrs,
        Err(_) => Seq::empty(),
    }
}

/// The sections from `index` on merged.
pub open spec fn sections_merged(
    m: Merging,
    contents: Seq<Seq<u8>>,
    index: int,
    names: Seq<Seq<char>>,
) -> Merging
    decreases contents.len() - index,
{
    if index < 0 || index >= contents.len() {
        m
    } else {
        sections_merged(
            attributes_merged(m, attributes_of(contents[index]), 0, index, names),
            contents,
            index + 1,
            names,
        )
    }
}

/// What is wrong with the sections before `end`.
pub open spec fn malformations(
    contents: Seq<Seq<u8>>,
    names: Seq<Seq<char>>,
    end: int,
) -> Seq<Seq<char>>
    decreases end,
{
    if end <= 0 {
        Seq::empty()
    } else {
        let before = malformations(contents, names, end - 1);
        match build_attributes::spec_parse(contents[end - 1], Vendor::RiscV) {
            Ok(_) => before,
            Err(what) => before.push(names[end - 1] + ": "@ + what@),
        }
    }
}

/// The merged ISA string put in its slot, or reported.
pub open spec fn arch_merged(m: Merging, isa: Result<Option<Seq<u8>>, Seq<char>>) -> Merging {
    match isa {
        Ok(Some(text)) => with_slot(m, SlotView { tag: ARCH, number: 0, from: 0, text }),
        Ok(None) => m,
        Err(what) => Merging { problems: m.problems.push(what), ..m },
    }
}

/// The attributes that the slots from `i` on come to: numbers that are not
/// 0, under even tags, and texts that are not empty, under odd ones.
pub open spec fn kept(slots: Seq<SlotView>, i: int) -> Seq<(u64, ValueView)>
    decreases slots.len() - i,
{
    if i < 0 || i >= slots.len() {
        Seq::empty()
    } else {
        let rest = kept(slots, i + 1);
        if slots[i].tag % 2 == 0 {
            if slots[i].number != 0 {
                seq![(slots[i].tag, ValueView::Int(slots[i].number))] + rest
            } else {
                rest
            }
        } else if slots[i].text.len() != 0 {
            seq![(slots[i].tag, ValueView::Text(slots[i].text))] + rest
        } else {
            rest
        }
    }
}

/// `n` as a 32-bit length, or the highest there is.
pub open spec fn length32(n: nat) -> u32 {
    if n > u32::MAX {
        u32::MAX
    } else {
        n as u32
    }
}

/// The bytes of the merged section.
pub open spec fn merged_bytes(slots: Seq<SlotView>, sections: nat) -> Seq<u8> {
    let attrs = kept(slots, 0);
    if attrs.len() == 0 && sections == 0 {
        Seq::empty()
    } else {
        let body = build_attributes::body_bytes(attrs);
        build_attributes::section_bytes(
            Vendor::RiscV,
            length32(body.len() + 15),
            length32(body.len() + 5),
            body,
        )
    }
}

/// What merging comes to, given what the ISA strings come to.
pub open spec fn merge_ends(
    contents: Seq<Seq<u8>>,
    names: Seq<Seq<char>>,
    isa: Result<Option<Seq<u8>>, Seq<char>>,
) -> Merging {
    arch_merged(before_arch(contents, names), isa)
}

/// What merging comes to before the ISA strings.
pub open spec fn before_arch(contents: Seq<Seq<u8>>, names: Seq<Seq<char>>) -> Merging {
    sections_merged(
        Merging {
            slots: Seq::empty(),
            arches: Seq::empty(),
            problems: malformations(contents, names, contents.len() as int),
        },
        contents,
        0,
        names,
    )
}

/// What the ISA strings of sections come to.
pub open spec fn isa_of(contents: Seq<Seq<u8>>, names: Seq<Seq<char>>) -> Result<
    Option<Seq<u8>>,
    Seq<char>,
> {
    isa_result(
        isa_merged(None, Seq::empty(), lossy_texts(before_arch(contents, names).arches), 0),
    )
}

/// The names of sections.
pub open spec fn names_of(sections: Seq<(String, &[u8])>) -> Seq<Seq<char>> {
    Seq::new(sections.len(), |i: int| sections[i].0@)
}

/// The contents of sections.
pub open spec fn contents_of(sections: Seq<(String, &[u8])>) -> Seq<Seq<u8>> {
    Seq::new(sections.len(), |i: int| sections[i].1@)
}

/// The state of a merge.
struct Merger {
    slots: Vec<Slot>,
    arches: Vec<Vec<u8>>,
    problems: Vec<String>,
}

impl Merger {
    spec fn seen(self) -> Merging {
        Merging {
            slots: slots_shown(self.slots@),
            arches: byte_strings(self.arches@),
            problems: crate::text::texts(self.problems@),
        }
    }

    spec fn valid(self, index: int) -> bool {
        forall|i: int| 0 <= i < self.slots@.len() ==> (#[trigger] self.slots@[i]).from <= index
    }

    fn find(&self, tag: u64) -> (r: (usize, bool))
        ensures
            r.0 == slot_place(slots_shown(self.slots@), tag, 0),
            r.0 <= self.slots@.len(),
            r.1 == (r.0 < self.slots@.len() && self.slots@[r.0 as int].tag == tag),
    {
        let mut at: usize = 0;
        while at < self.slots.len() && self.slots[at].tag < tag
            invariant
                at <= self.slots@.len(),
                slot_place(slots_shown(self.slots@), tag, 0) == slot_place(
                    slots_shown(self.slots@),
                    tag,
                    at as int,
                ),
            decreases self.slots@.len() - at,
        {
            at += 1;
        }
        (at, at < self.slots.len() && self.slots[at].tag == tag)
    }

    fn put(&mut self, slot: Slot, index: usize)
        requires
            old(self).valid(index as int),
            slot.from <= index,
        ensures
            final(self).seen() == with_slot(old(self).seen(), slot@),
            final(self).valid(index as int),
    {
        let (at, there) = self.find(slot.tag);
        let ghost before = slots_shown(self.slots@);
        let ghost new = slot@;
        if there {
            self.slots.set(at, slot);
            assert(slots_shown(self.slots@) =~= before.update(at as int, new));
        } else {
            self.slots.insert(at, slot);
            assert(slots_shown(self.slots@) =~= before.insert(at as int, new));
        }
    }

    fn number(&mut self, tag: u64, v: u64, index: usize, sections: &[(String, &[u8])])
        requires
            old(self).valid(index as int),
            index < sections@.len(),
        ensures
            final(self).seen() == number_merged(
                old(self).seen(),
                tag,
                v,
                index as int,
                names_of(sections@),
            ),
            final(self).valid(index as int),
    {
        let ghost names = names_of(sections@);
        let (at, there) = self.find(tag);
        if !there {
            let slot: Slot = Slot { tag, number: v, from: index, text: Vec::new() };
            assert(slot@ == number_slot(tag, v, index as int));
            self.put(slot, index);
            return ;
        }
        let number: u64 = self.slots[at].number;
        let from: usize = self.slots[at].from;
        let text: Vec<u8> = copied(&self.slots[at].text);
        let ghost slot = self.slots@[at as int]@;
        assert(slot_of(self.seen().slots, tag) == Some(slot));
        assert(names[index as int] == sections@[index as int].0@);
        assert(names[from as int] == sections@[from as int].0@);
        if tag == STACK_ALIGN {
            if number != v {
                let mut what: String = String::new();
                what.append(sections[index].0.as_str());
                what.append(" has stack_align=");
                push_decimal(&mut what, v);
                what.append(" but ");
                what.append(sections[from].0.as_str());
                what.append(" has stack_align=");
                push_decimal(&mut what, number);
                assert(what@ =~= names[index as int] + " has stack_align="@ + crate::text::decimal(v as nat)
                    + " but "@ + names[from as int] + " has stack_align="@ + crate::text::decimal(
                    number as nat,
                ));
                push_text(&mut self.problems, what);
            }
        } else if tag == UNALIGNED_ACCESS {
            let merged: Slot = Slot { tag, number: number | v, from, text };
            assert(merged@ == SlotView { number: number | v, ..slot });
            self.put(merged, index);
        } else if tag == ATOMIC_ABI {
            match merge_atomic(number, v) {
                Some(n) => {
                    let merged: Slot = Slot { tag, number: n, from, text };
                    assert(merged@ == SlotView { number: n, ..slot });
                    self.put(merged, index);
                },
                None => {
                    let mut what: String = String::new();
                    what.append("atomic abi mismatch for .riscv.attributes: ");
                    what.append(sections[from].0.as_str());
                    what.append(" has atomic_abi=");
                    push_decimal(&mut what, number);
                    what.append(" but ");
                    what.append(sections[index].0.as_str());
                    what.append(" has atomic_abi=");
                    push_decimal(&mut what, v);
                    assert(what@ =~= "atomic abi mismatch for .riscv.attributes: "@
                        + names[from as int] + " has atomic_abi="@ + crate::text::decimal(number as nat)
                        + " but "@ + names[index as int] + " has atomic_abi="@ + crate::text::decimal(v as nat));
                    push_text(&mut self.problems, what);
                },
            }
        } else if number != v {
            let merged: Slot = Slot { tag, number: 0, from, text };
            assert(merged@ == SlotView { number: 0, ..slot });
            self.put(merged, index);
        }
    }

    fn text(&mut self, tag: u64, text: &Vec<u8>, index: usize)
        requires
            old(self).valid(index as int),
        ensures
            final(self).seen() == text_merged(old(self).seen(), tag, text@, index as int),
            final(self).valid(index as int),
    {
        if tag == ARCH {
            self.arches.push(copied(text));
            assert(byte_strings(self.arches@) =~= byte_strings(old(self).arches@).push(text@));
            return ;
        }
        let (at, there) = self.find(tag);
        if !there {
            let slot: Slot = Slot { tag, number: 0, from: index, text: copied(text) };
            self.put(slot, index);
            return ;
        }
        let ghost slot = self.slots@[at as int]@;
        assert(slot_of(self.seen().slots, tag) == Some(slot));
        if !same(&self.slots[at].text, text) {
            let number: u64 = self.slots[at].number;
            let from: usize = self.slots[at].from;
            let merged: Slot = Slot { tag, number, from, text: Vec::new() };
            assert(merged@ =~= SlotView { text: Seq::empty(), ..slot });
            self.put(merged, index);
        }
    }

    fn section(&mut self, attrs: &Attributes, index: usize, sections: &[(String, &[u8])])
        requires
            old(self).valid(index as int),
            index < sections@.len(),
        ensures
            final(self).seen() == attributes_merged(
                old(self).seen(),
                build_attributes::viewed(attrs@),
                0,
                index as int,
                names_of(sections@),
            ),
            final(self).valid(index as int),
    {
        let mut i: usize = 0;
        while i < attrs.len()
            invariant
                i <= attrs@.len(),
                index < sections@.len(),
                self.valid(index as int),
                attributes_merged(
                    old(self).seen(),
                    build_attributes::viewed(attrs@),
                    0,
                    index as int,
                    names_of(sections@),
                ) == attributes_merged(
                    self.seen(),
                    build_attributes::viewed(attrs@),
                    i as int,
                    index as int,
                    names_of(sections@),
                ),
            decreases attrs@.len() - i,
        {
            assert(build_attributes::viewed(attrs@)[i as int] == (attrs@[i as int].0, attrs@[i as int].1@));
            let tag: u64 = attrs[i].0;
            match &attrs[i].1 {
                Value::Int(v) => self.number(tag, *v, index, sections),
                Value::Text(t) => self.text(tag, t, index),
                Value::Pair(..) => {},
            }
            i += 1;
        }
    }
}

/// The merged attributes, and problems found while merging.
#[derive(Debug, PartialEq, Eq)]
pub struct Merged {
    /// The section contents.
    pub bytes: Vec<u8>,
    /// Conflicts between inputs, to report as warnings.
    pub problems: Vec<String>,
}

impl Default for Merged {
    fn default() -> (r: Merged)
        ensures
            r.bytes@.len() == 0,
            r.problems@.len() == 0,
    {
        Merged { bytes: Vec::new(), problems: Vec::new() }
    }
}

/// `n` as a 32-bit length, or the highest there is.
fn length_of(n: usize, more: usize) -> (r: u32)
    requires
        more <= 15,
    ensures
        r == length32((n + more) as nat),
{
    let sum: usize = n.saturating_add(more);
    if sum > u32::MAX as usize {
        u32::MAX
    } else {
        sum as u32
    }
}

/// Writes the attributes that slots come to.
fn write_slots(slots: &Vec<Slot>, sections: usize) -> (r: Vec<u8>)
    ensures
        r@ == merged_bytes(slots_shown(slots@), sections as nat),
{
    let ghost all = slots_shown(slots@);
    let mut body: Vec<u8> = Vec::new();
    let mut empty: bool = true;
    let mut i: usize = 0;
    assert(body@ + build_attributes::body_bytes(kept(all, 0)) =~= build_attributes::body_bytes(kept(all, 0)));
    while i < slots.len()
        invariant
            i <= slots@.len(),
            all == slots_shown(slots@),
            body@ + build_attributes::body_bytes(kept(all, i as int))
                == build_attributes::body_bytes(kept(all, 0)),
            empty ==> kept(all, 0) == kept(all, i as int),
            !empty ==> kept(all, 0).len() > 0,
        decreases slots@.len() - i,
    {
        let ghost before = body@;
        let ghost rest = kept(all, i + 1);
        let slot: &Slot = &slots[i];
        assert(all[i as int] == slot@);
        if slot.tag % 2 == 0 {
            if slot.number != 0 {
                push_uleb(&mut body, slot.tag);
                push_uleb(&mut body, slot.number);
                proof {
                    let first = seq![(slot.tag, ValueView::Int(slot.number))];
                    assert((first + rest).drop_first() =~= rest);
                    assert(before + build_attributes::body_bytes(first + rest) =~= body@
                        + build_attributes::body_bytes(rest));
                }
                empty = false;
            }
        } else if slot.text.len() != 0 {
            push_uleb(&mut body, slot.tag);
            crate::bytes::push_all(&mut body, &slot.text);
            body.push(0);
            proof {
                let first = seq![(slot.tag, ValueView::Text(slot.text@))];
                assert((first + rest).drop_first() =~= rest);
                assert(before + build_attributes::body_bytes(first + rest) =~= body@
                    + build_attributes::body_bytes(rest));
            }
            empty = false;
        }
        i += 1;
    }
    assert(body@ =~= build_attributes::body_bytes(kept(all, 0)));
    if empty && sections == 0 {
        let r: Vec<u8> = Vec::new();
        assert(r@ =~= Seq::<u8>::empty());
        return r;
    }
    let length: u32 = length_of(body.len(), 15);
    let size: u32 = length_of(body.len(), 5);
    frame(Vendor::RiscV, length, size, &body)
}

/// Parses the sections, reporting what is wrong with them.
fn parse_all(sections: &[(String, &[u8])], problems: &mut Vec<String>) -> (r: Vec<Attributes>)
    requires
        old(problems)@.len() == 0,
    ensures
        r@.len() == sections@.len(),
        forall|i: int|
            0 <= i < r@.len() ==> build_attributes::viewed((#[trigger] r@[i])@) == attributes_of(
                sections@[i].1@,
            ),
        crate::text::texts(final(problems)@) == malformations(
            contents_of(sections@),
            names_of(sections@),
            sections@.len() as int,
        ),
{
    let mut parsed: Vec<Attributes> = Vec::new();
    let mut i: usize = 0;
    assert(crate::text::texts(problems@) =~= Seq::<Seq<char>>::empty());
    while i < sections.len()
        invariant
            i <= sections@.len(),
            parsed@.len() == i,
            forall|j: int|
                0 <= j < i ==> build_attributes::viewed((#[trigger] parsed@[j])@) == attributes_of(
                    sections@[j].1@,
                ),
            crate::text::texts(problems@) == malformations(
                contents_of(sections@),
                names_of(sections@),
                i as int,
            ),
        decreases sections@.len() - i,
    {
        assert(contents_of(sections@)[i as int] == sections@[i as int].1@);
        assert(names_of(sections@)[i as int] == sections@[i as int].0@);
        match parse(sections[i].1) {
            Ok(attrs) => parsed.push(attrs),
            Err(what) => {
                let mut text: String = String::new();
                text.append(sections[i].0.as_str());
                text.append(": ");
                text.append(what);
                assert(text@ =~= sections@[i as int].0@ + ": "@ + what@);
                push_text(problems, text);
                let none: Attributes = Vec::new();
                assert(build_attributes::viewed(none@) =~= Seq::<(u64, ValueView)>::empty());
                parsed.push(none);
            },
        }
        i += 1;
    }
    parsed
}

/// Merges the contents of the input `.riscv.attributes` sections, named by
/// `(section, contents)` for diagnostics.
pub fn merge(sections: &[(String, &[u8])]) -> (r: Merged)
    ensures
        ({
            let contents = contents_of(sections@);
            let names = names_of(sections@);
            let end = merge_ends(contents, names, isa_of(contents, names));
            &&& r.bytes@ == merged_bytes(end.slots, sections@.len())
            &&& crate::text::texts(r.problems@) == end.problems
        }),
{
    let ghost contents = contents_of(sections@);
    let ghost names = names_of(sections@);
    let mut problems: Vec<String> = Vec::new();
    let parsed: Vec<Attributes> = parse_all(sections, &mut problems);
    let mut merger: Merger = Merger { slots: Vec::new(), arches: Vec::new(), problems };
    let mut i: usize = 0;
    proof {
        assert(merger.seen().slots =~= Seq::<SlotView>::empty());
        assert(merger.seen().arches =~= Seq::<Seq<u8>>::empty());
    }
    while i < parsed.len()
        invariant
            i <= parsed@.len(),
            parsed@.len() == sections@.len(),
            contents == contents_of(sections@),
            names == names_of(sections@),
            forall|j: int|
                0 <= j < parsed@.len() ==> build_attributes::viewed((#[trigger] parsed@[j])@)
                    == attributes_of(sections@[j].1@),
            merger.valid(i as int),
            before_arch(contents, names) == sections_merged(
                merger.seen(),
                contents,
                i as int,
                names,
            ),
        decreases parsed@.len() - i,
    {
        assert(contents[i as int] == sections@[i as int].1@);
        merger.section(&parsed[i], i, sections);
        i += 1;
    }
    assert(before_arch(contents, names) == merger.seen());
    let isa: Result<Option<Vec<u8>>, String> = merge_arch(&merger.arches);
    match isa {
        Ok(Some(text)) => {
            let slot: Slot = Slot { tag: ARCH, number: 0, from: 0, text };
            merger.put(slot, sections.len());
        },
        Ok(None) => {},
        Err(what) => {
            push_text(&mut merger.problems, what);
        },
    }
    let bytes: Vec<u8> = write_slots(&merger.slots, sections.len());
    Merged { bytes, problems: merger.problems }
}

/// The merged `.riscv.attributes` of a link, written in place of the first
/// input section; the others become empty.
#[derive(Debug, PartialEq, Eq)]
pub struct Output {
    /// The input section whose place the merged section takes.
    pub first: SectionId,
    /// The merged contents.
    pub bytes: Vec<u8>,
    /// Conflicts between inputs, reported as warnings when written.
    pub problems: Vec<String>,
}

/// An attributes section: what it is, whose, and what it holds.
pub struct Listed {
    /// The section.
    pub id: SectionId,
    /// The name of its file.
    pub name: Seq<char>,
    /// Its contents.
    pub contents: Seq<u8>,
}

/// The live attributes sections from `i` on of file `f`.
pub open spec fn sections_listed(refs: Refs, f: int, object: ObjectInput, i: int) -> Seq<Listed>
    decreases object.sections@.len() - i,
{
    if i < 0 || i >= object.sections@.len() || i > u32::MAX {
        Seq::empty()
    } else {
        let rest = sections_listed(refs, f, object, i + 1);
        let section = object.sections@[i];
        match refs.sections.spec_id(f, i) {
            Some(id) => if section.header.sh_type == SHT_RISCV_ATTRIBUTES
                && refs.sections.spec_is_live(id) {
                seq![
                    Listed {
                        id,
                        name: refs.files@[f].name@,
                        contents: match section.contents {
                            Some(data) => data@,
                            None => Seq::empty(),
                        },
                    },
                ] + rest
            } else {
                rest
            },
            None => rest,
        }
    }
}

/// The live attributes sections of the files from `f` on.
pub open spec fn files_listed(refs: Refs, f: int) -> Seq<Listed>
    decreases refs.files@.len() - f,
{
    if f < 0 || f >= refs.files@.len() {
        Seq::empty()
    } else {
        let rest = files_listed(refs, f + 1);
        match refs.files@[f].object {
            Some(object) => sections_listed(refs, f, object, 0) + rest,
            None => rest,
        }
    }
}

/// Whether sections and their first are the ones listed.
pub open spec fn lists(
    first: Option<SectionId>,
    sections: Seq<(String, &[u8])>,
    listed: Seq<Listed>,
) -> bool {
    &&& sections.len() == listed.len()
    &&& forall|i: int|
        0 <= i < listed.len() ==> (#[trigger] sections[i]).0@ == listed[i].name && sections[i].1@
            == listed[i].contents
    &&& match first {
        Some(id) => listed.len() > 0 && listed[0].id == id,
        None => listed.len() == 0,
    }
}

/// Adds the live attributes sections of one object.
fn list_object<'a>(
    refs: &'a Refs,
    f: usize,
    object: &'a ObjectInput,
    first: Option<SectionId>,
    sections: &mut Vec<(String, &'a [u8])>,
    Ghost(before): Ghost<Seq<Listed>>,
) -> (r: Option<SectionId>)
    requires
        f < refs.files@.len(),
        lists(first, old(sections)@, before),
    ensures
        lists(r, final(sections)@, before + sections_listed(*refs, f as int, *object, 0)),
{
    let mut head: Option<SectionId> = first;
    let ghost mut done = before;
    let mut i: usize = 0;
    while i < object.sections.len() && i <= u32::MAX as usize
        invariant
            f < refs.files@.len(),
            i <= object.sections@.len(),
            lists(head, sections@, done),
            before + sections_listed(*refs, f as int, *object, 0) == done + sections_listed(
                *refs,
                f as int,
                *object,
                i as int,
            ),
        decreases object.sections@.len() - i,
    {
        let section: &'a InputSection = &object.sections[i];
        let at: u32 = i as u32;
        let ghost rest = sections_listed(*refs, f as int, *object, i + 1);
        if section.header.sh_type == SHT_RISCV_ATTRIBUTES && refs.sections.is_live_in(f, at) {
            if let Some(id) = refs.sections.id(f, at) {
                if head.is_none() {
                    head = Some(id);
                }
                let name: String = refs.files[f].name.clone();
                let data: &'a [u8] = match &section.contents {
                    Some(data) => data.as_slice(),
                    None => &[],
                };
                proof {
                    let entry = Listed {
                        id,
                        name: refs.files@[f as int].name@,
                        contents: match &section.contents {
                            Some(data) => data@,
                            None => Seq::empty(),
                        },
                    };
                    assert(data@ =~= entry.contents);
                    assert(done + (seq![entry] + rest) =~= done.push(entry) + rest);
                    done = done.push(entry);
                }
                sections.push((name, data));
            }
        }
        i += 1;
    }
    assert(done + sections_listed(*refs, f as int, *object, i as int) =~= done);
    head
}

/// Merges the live attributes sections of every object, in input order;
/// `None` when there are none.
pub fn collect(refs: &Refs) -> (r: Option<Output>)
    ensures
        ({
            let listed = files_listed(*refs, 0);
            let contents = Seq::new(listed.len(), |i: int| listed[i].contents);
            let names = Seq::new(listed.len(), |i: int| listed[i].name);
            let end = merge_ends(contents, names, isa_of(contents, names));
            match r {
                None => listed.len() == 0,
                Some(output) => {
                    &&& listed.len() > 0
                    &&& output.first == listed[0].id
                    &&& output.bytes@ == merged_bytes(end.slots, listed.len())
                    &&& crate::text::texts(output.problems@) == end.problems
                },
            }
        }),
{
    let mut first: Option<SectionId> = None;
    let mut sections: Vec<(String, &[u8])> = Vec::new();
    let ghost mut done: Seq<Listed> = Seq::empty();
    let mut f: usize = 0;
    assert(done + files_listed(*refs, 0) =~= files_listed(*refs, 0));
    while f < refs.files.len()
        invariant
            f <= refs.files@.len(),
            lists(first, sections@, done),
            files_listed(*refs, 0) == done + files_listed(*refs, f as int),
        decreases refs.files@.len() - f,
    {
        if let Some(object) = &refs.files[f].object {
            first = list_object(refs, f, object, first, &mut sections, Ghost(done));
            proof {
                let here = sections_listed(*refs, f as int, *object, 0);
                let rest = files_listed(*refs, f + 1);
                assert(done + (here + rest) =~= (done + here) + rest);
                done = done + here;
            }
        }
        f += 1;
    }
    assert(done + files_listed(*refs, f as int) =~= done);
    let Some(id) = first else {
        return None;
    };
    proof {
        let listed = files_listed(*refs, 0);
        assert(contents_of(sections@) =~= Seq::new(listed.len(), |i: int| listed[i].contents));
        assert(names_of(sections@) =~= Seq::new(listed.len(), |i: int| listed[i].name));
    }
    let merged: Merged = merge(&sections);
    Some(Output { first: id, bytes: merged.bytes, problems: merged.problems })
}

/// Slots come to attributes of the shapes their tags ask for.
proof fn kept_attributes_fit(slots: Seq<SlotView>, i: int, k: int)
    requires
        0 <= i,
        0 <= k < kept(slots, i).len(),
        forall|j: int| 0 <= j < slots.len() ==> !(#[trigger] slots[j]).text.contains(0),
    ensures
        build_attributes::fits(kept(slots, i)[k], Vendor::RiscV),
    decreases slots.len() - i,
{
    let listed = if slots[i].tag % 2 == 0 {
        slots[i].number != 0
    } else {
        slots[i].text.len() != 0
    };
    if !listed {
        kept_attributes_fit(slots, i + 1, k);
    } else if k > 0 {
        kept_attributes_fit(slots, i + 1, k - 1);
    }
}

/// The attributes that are merged are those that are parsed from the merged
/// section: numbers that are not 0 and texts that are not empty, by tag.
pub proof fn merged_attributes_read_back(slots: Seq<SlotView>, sections: nat)
    requires
        sections > 0,
        forall|j: int| 0 <= j < slots.len() ==> !(#[trigger] slots[j]).text.contains(0),
        build_attributes::body_bytes(kept(slots, 0)).len() + 15 <= u32::MAX,
    ensures
        build_attributes::spec_parse(merged_bytes(slots, sections), Vendor::RiscV) == Ok::<
            Seq<(u64, ValueView)>,
            &'static str,
        >(kept(slots, 0)),
{
    let attrs = kept(slots, 0);
    assert forall|k: int| 0 <= k < attrs.len() implies build_attributes::fits(
        #[trigger] attrs[k],
        Vendor::RiscV,
    ) by {
        kept_attributes_fit(slots, 0, k);
    }
    build_attributes::sections_read_back(attrs, Vendor::RiscV);
}

/// Putting a slot in leaves those of other tags.
proof fn puts_leave_other_tags(slots: Seq<SlotView>, slot: SlotView, tag: u64)
    requires
        in_tag_order(slots),
        tag != slot.tag,
    ensures
        slot_of(slot_put(slots, slot), tag) == slot_of(slots, tag),
{
    puts_keep_the_tag_order(slots, slot);
    slot_places_divide(slots, slot.tag, 0);
    slot_places_divide(slots, tag, 0);
    let out = slot_put(slots, slot);
    slot_places_divide(out, tag, 0);
    let at = slot_place(slots, slot.tag, 0);
    let before = slot_place(slots, tag, 0);
    let after = slot_place(out, tag, 0);
    let replaced = at < slots.len() && slots[at].tag == slot.tag;
    let moved = if !replaced && at <= before {
        before + 1
    } else {
        before
    };
    // Where the tag is, if it is anywhere.
    if before < slots.len() && slots[before].tag == tag {
        assert(out[moved] == slots[before]);
        if after < moved {
            assert(out[after].tag < out[moved].tag);
        }
        if moved < after {
            assert(out[moved].tag < tag);
        }
    }
    if after < out.len() && out[after].tag == tag {
        let origin = if !replaced && after > at {
            after - 1
        } else {
            after
        };
        assert(slots[origin] == out[after]);
        if origin < before {
            assert(slots[origin].tag < tag);
        }
        if before < origin {
            assert(slots[before].tag < slots[origin].tag);
        }
    }
}

/// The number that `tag` has.
pub open spec fn number_of(m: Merging, tag: u64) -> Option<u64> {
    match slot_of(m.slots, tag) {
        Some(slot) => Some(slot.number),
        None => None,
    }
}

/// The numbers that the attributes from `from` on give `tag`.
pub open spec fn numbers_from(attrs: Seq<(u64, ValueView)>, tag: u64, from: int) -> Seq<u64>
    decreases attrs.len() - from,
{
    if from < 0 || from >= attrs.len() {
        Seq::empty()
    } else {
        let rest = numbers_from(attrs, tag, from + 1);
        match attrs[from].1 {
            ValueView::Int(v) if attrs[from].0 == tag => seq![v] + rest,
            _ => rest,
        }
    }
}

/// The numbers that the sections from `index` on give `tag`.
pub open spec fn given_numbers(contents: Seq<Seq<u8>>, tag: u64, index: int) -> Seq<u64>
    decreases contents.len() - index,
{
    if index < 0 || index >= contents.len() {
        Seq::empty()
    } else {
        numbers_from(attributes_of(contents[index]), tag, 0) + given_numbers(
            contents,
            tag,
            index + 1,
        )
    }
}

/// The number that `tag` has after `v` was merged.
pub open spec fn number_after(tag: u64, old: Option<u64>, v: u64) -> u64 {
    match old {
        None => v,
        Some(n) => if tag == STACK_ALIGN {
            n
        } else if tag == UNALIGNED_ACCESS {
            n | v
        } else if tag == ATOMIC_ABI {
            match merge_atomic(n, v) {
                Some(merged) => merged,
                None => n,
            }
        } else if n != v {
            0
        } else {
            n
        },
    }
}

/// The number that `tag` has after `values` were merged.
pub open spec fn numbers_after(tag: u64, old: Option<u64>, values: Seq<u64>) -> Option<u64>
    decreases values.len(),
{
    if values.len() == 0 {
        old
    } else {
        numbers_after(tag, Some(number_after(tag, old, values[0])), values.drop_first())
    }
}

/// Numbers are merged one after the other.
proof fn numbers_come_in_turn(tag: u64, old: Option<u64>, a: Seq<u64>, b: Seq<u64>)
    ensures
        numbers_after(tag, old, a + b) == numbers_after(tag, numbers_after(tag, old, a), b),
    decreases a.len(),
{
    if a.len() == 0 {
        assert(a + b =~= b);
    } else {
        assert((a + b).drop_first() =~= a.drop_first() + b);
        numbers_come_in_turn(tag, Some(number_after(tag, old, a[0])), a.drop_first(), b);
    }
}

/// The attributes of a section change a number by its rule.
proof fn attributes_number(
    m: Merging,
    attrs: Seq<(u64, ValueView)>,
    from: int,
    index: int,
    names: Seq<Seq<char>>,
    tag: u64,
)
    requires
        0 <= from,
        tag % 2 == 0,
        in_tag_order(m.slots),
        forall|k: int|
            0 <= k < attrs.len() ==> build_attributes::fits(#[trigger] attrs[k], Vendor::RiscV),
    ensures
        in_tag_order(attributes_merged(m, attrs, from, index, names).slots),
        number_of(attributes_merged(m, attrs, from, index, names), tag) == numbers_after(
            tag,
            number_of(m, tag),
            numbers_from(attrs, tag, from),
        ),
    decreases attrs.len() - from,
{
    if from < attrs.len() {
        let (at, value) = attrs[from];
        assert(build_attributes::fits(attrs[from], Vendor::RiscV));
        let next = match value {
            ValueView::Int(v) => number_merged(m, at, v, index, names),
            ValueView::Text(t) => text_merged(m, at, t, index),
            ValueView::Pair(..) => m,
        };
        if let ValueView::Int(v) = value {
            let slot = match slot_of(m.slots, at) {
                Some(slot) => SlotView { number: number_after(at, Some(slot.number), v), ..slot },
                None => number_slot(at, v, index),
            };
            slot_places_divide(m.slots, at, 0);
            puts_keep_the_tag_order(m.slots, slot);
            if at != tag {
                puts_leave_other_tags(m.slots, slot, tag);
            }
        }
        if let ValueView::Text(t) = value {
            let slot = match slot_of(m.slots, at) {
                Some(slot) => SlotView { text: Seq::empty(), ..slot },
                None => SlotView { tag: at, number: 0, from: index, text: t },
            };
            slot_places_divide(m.slots, at, 0);
            puts_keep_the_tag_order(m.slots, slot);
            puts_leave_other_tags(m.slots, slot, tag);
        }
        let here = numbers_from(attrs, tag, from);
        let rest = numbers_from(attrs, tag, from + 1);
        attributes_number(next, attrs, from + 1, index, names, tag);
        if value is Int && at == tag {
            assert(here.drop_first() =~= rest);
        }
    }
}

/// The sections change a number by its rule.
proof fn sections_number(
    m: Merging,
    contents: Seq<Seq<u8>>,
    index: int,
    names: Seq<Seq<char>>,
    tag: u64,
)
    requires
        0 <= index,
        tag % 2 == 0,
        in_tag_order(m.slots),
    ensures
        in_tag_order(sections_merged(m, contents, index, names).slots),
        number_of(sections_merged(m, contents, index, names), tag) == numbers_after(
            tag,
            number_of(m, tag),
            given_numbers(contents, tag, index),
        ),
    decreases contents.len() - index,
{
    if index < contents.len() {
        let attrs = attributes_of(contents[index]);
        build_attributes::parsed_attributes_fit(contents[index], Vendor::RiscV);
        attributes_number(m, attrs, 0, index, names, tag);
        let next = attributes_merged(m, attrs, 0, index, names);
        sections_number(next, contents, index + 1, names, tag);
        numbers_come_in_turn(
            tag,
            number_of(m, tag),
            numbers_from(attrs, tag, 0),
            given_numbers(contents, tag, index + 1),
        );
    }
}

/// What numbers that were given one after the other come to.
proof fn numbers_settle(tag: u64, first: u64, values: Seq<u64>)
    requires
        tag != ATOMIC_ABI,
    ensures
        match numbers_after(tag, Some(first), values) {
            Some(n) => if tag == STACK_ALIGN {
                n == first
            } else if tag == UNALIGNED_ACCESS {
                n != 0 <==> first != 0 || exists|i: int|
                    0 <= i < values.len() && #[trigger] values[i] != 0
            } else {
                n == (if forall|i: int| 0 <= i < values.len() ==> #[trigger] values[i] == first {
                    first
                } else {
                    0
                })
            },
            None => false,
        },
    decreases values.len(),
{
    if values.len() > 0 {
        let v = values[0];
        let rest = values.drop_first();
        let next = number_after(tag, Some(first), v);
        numbers_settle(tag, next, rest);
        assert(first | v != 0 <==> first != 0 || v != 0) by (bit_vector);
        assert forall|i: int| 0 < i < values.len() implies #[trigger] values[i] == rest[i - 1] by {}
        assert forall|i: int| 0 <= i < rest.len() implies #[trigger] rest[i] == values[i + 1] by {}
        if tag == UNALIGNED_ACCESS {
            if exists|i: int| 0 <= i < values.len() && #[trigger] values[i] != 0 {
                let i = choose|i: int| 0 <= i < values.len() && #[trigger] values[i] != 0;
                assert(i > 0 ==> rest[i - 1] != 0);
            }
        } else if tag != STACK_ALIGN && v != first {
            assert(!(forall|i: int| 0 <= i < values.len() ==> #[trigger] values[i] == first));
        }
    }
}

/// A number of the output is what its tag's rule makes of the numbers that
/// the sections give it: the stack alignment is the first, unaligned
/// accesses are set where any is, and a number of no known tag is kept where
/// all agree and dropped where they do not. What nothing gives is not there.
pub proof fn merged_numbers_follow_the_rules(
    contents: Seq<Seq<u8>>,
    names: Seq<Seq<char>>,
    isa: Result<Option<Seq<u8>>, Seq<char>>,
    tag: u64,
)
    requires
        tag % 2 == 0,
        tag != ATOMIC_ABI,
    ensures
        match number_of(merge_ends(contents, names, isa), tag) {
            None => given_numbers(contents, tag, 0).len() == 0,
            Some(n) => {
                let given = given_numbers(contents, tag, 0);
                &&& given.len() > 0
                &&& if tag == STACK_ALIGN {
                    n == given[0]
                } else if tag == UNALIGNED_ACCESS {
                    n != 0 <==> exists|i: int| 0 <= i < given.len() && #[trigger] given[i] != 0
                } else {
                    n == (if forall|i: int|
                        0 <= i < given.len() ==> #[trigger] given[i] == given[0] {
                        given[0]
                    } else {
                        0
                    })
                }
            },
        },
{
    let start = Merging {
        slots: Seq::empty(),
        arches: Seq::empty(),
        problems: malformations(contents, names, contents.len() as int),
    };
    sections_number(start, contents, 0, names, tag);
    let m = before_arch(contents, names);
    if let Ok(Some(text)) = isa {
        puts_leave_other_tags(m.slots, SlotView { tag: ARCH, number: 0, from: 0, text }, tag);
    }
    let given = given_numbers(contents, tag, 0);
    if given.len() > 0 {
        let rest = given.drop_first();
        numbers_settle(tag, given[0], rest);
        assert forall|i: int| 0 < i < given.len() implies #[trigger] given[i] == rest[i - 1] by {}
        assert forall|i: int| 0 <= i < rest.len() implies #[trigger] rest[i] == given[i + 1] by {}
        if exists|i: int| 0 <= i < given.len() && #[trigger] given[i] != 0 {
            let i = choose|i: int| 0 <= i < given.len() && #[trigger] given[i] != 0;
            assert(i > 0 ==> rest[i - 1] != 0);
        }
    }
}

} // verus!
