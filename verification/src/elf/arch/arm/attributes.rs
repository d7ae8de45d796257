//! `.ARM.attributes` merging.
//!
//! Every Arm object carries a build-attributes section describing the
//! architecture and ABI it was built for. The output gets one merged
//! section:
//!
//! - architecture and extension tags take the highest value any object has,
//!   and the CPU names come from the object with the highest
//!   `Tag_CPU_arch`;
//! - ABI tags must agree: a mismatch is a warning, except
//!   `Tag_ABI_VFP_args` (the float ABI), where linking an object that
//!   passes floating-point arguments in VFP registers with one that does
//!   not is an error;
//! - tags whose value is zero ("unspecified") take the other object's.
//!
//! The merged `Tag_ABI_VFP_args` also chooses the `EF_ARM_ABI_FLOAT_HARD` or
//! `EF_ARM_ABI_FLOAT_SOFT` bit of `e_flags` ([`hard_float`]).

use vstd::prelude::*;
use vstd::string::StringExecFns;

use super::SHT_ARM_ATTRIBUTES;
use crate::elf::arch::build_attributes;
use crate::elf::arch::build_attributes::{
    copy_value, frame, parse_section, push_value, same_value, Attributes, Value, ValueView,
    Vendor,
};
use crate::elf::arch::thunk::index32;
use crate::elf::inputs::{ElfInput, InputSection, ObjectInput};
use crate::elf::refs::Refs;
use crate::ids::SectionId;
use crate::leb::push_uleb;
use crate::order::stable_order;
use crate::text::{push_decimal, push_text};

verus! {

/// `Tag_CPU_raw_name`.
pub const CPU_RAW_NAME: u64 = 4;

/// `Tag_CPU_name`.
pub const CPU_NAME: u64 = 5;

/// `Tag_CPU_arch`.
pub const CPU_ARCH: u64 = 6;

/// `Tag_CPU_arch_profile`.
pub const CPU_ARCH_PROFILE: u64 = 7;

/// `Tag_ABI_FP_number_model`.
pub const ABI_FP_NUMBER_MODEL: u64 = 23;

/// `Tag_ABI_enum_size`.
pub const ABI_ENUM_SIZE: u64 = 26;

/// `Tag_ABI_VFP_args`: 0 base (core registers), 1 VFP registers, 2
/// toolchain-specific, 3 compatible with either.
pub const ABI_VFP_ARGS: u64 = 28;

/// `Tag_ABI_VFP_args` value for VFP register arguments.
pub const VFP_ARGS_VFP: u64 = 1;

/// `Tag_ABI_VFP_args` value for code that passes no floating-point
/// arguments.
pub const VFP_ARGS_COMPATIBLE: u64 = 3;

/// `Tag_nodefaults`, whose value carries no information.
pub const NODEFAULTS: u64 = 64;

/// `Tag_conformance`, which the ABI puts first.
pub const CONFORMANCE: u64 = 67;

/// Whether the merged value of `tag` is the highest of the objects': the
/// architecture (6) and its profile (7), the extensions it may use
/// (`Tag_ARM_ISA_use`, `Tag_THUMB_ISA_use`, `Tag_FP_arch`,
/// `Tag_WMMX_arch`, `Tag_Advanced_SIMD_arch`, 8 to 12), the floating-point
/// and alignment properties (19 to 25, 27), unaligned access (34), and the
/// extensions of later revisions.
#[verifier::allow_in_spec]
pub fn takes_highest(tag: u64) -> bool
    returns
        (match tag {
            6 | 7 | 8 | 9 | 10 | 11 | 12 => true,
            19 | 20 | 21 | 22 | 23 | 24 | 25 | 27 => true,
            34 | 36 | 42 | 44 | 46 | 48 | 50 | 52 => true,
            66 | 68 | 70 | 74 | 76 => true,
            _ => false,
        }),
{
    match tag {
        6 | 7 | 8 | 9 | 10 | 11 | 12 => true,
        19 | 20 | 21 | 22 | 23 | 24 | 25 | 27 => true,
        34 | 36 | 42 | 44 | 46 | 48 | 50 | 52 => true,
        66 | 68 | 70 | 74 | 76 => true,
        _ => false,
    }
}

/// The merged `.ARM.attributes` of a link.
#[derive(Debug)]
pub struct Output {
    /// The input section whose place in the output holds the merged
    /// section; the others are written empty.
    pub first: SectionId,
    /// The merged contents.
    pub bytes: Vec<u8>,
    /// Warnings found while merging.
    pub problems: Vec<String>,
    /// Errors found while merging (a float ABI mismatch).
    pub errors: Vec<String>,
    /// Whether the merged `Tag_ABI_VFP_args` says floating-point
    /// arguments go in VFP registers.
    pub hard_float: bool,
}

impl Default for Output {
    fn default() -> (r: Output)
        ensures
            r.first == SectionId::new(0),
            r.bytes@.len() == 0,
            r.problems@.len() == 0,
            r.errors@.len() == 0,
            !r.hard_float,
    {
        Output {
            first: SectionId::new(0),
            bytes: Vec::new(),
            problems: Vec::new(),
            errors: Vec::new(),
            hard_float: false,
        }
    }
}

/// Parses the `aeabi` vendor's file-level attributes of a section.
///
/// # Errors
///
/// A description of the first malformation found.
pub fn parse(data: &[u8]) -> (r: Result<Attributes, &'static str>)
    ensures
        match build_attributes::spec_parse(data@, Vendor::Aeabi) {
            Ok(items) => r is Ok && build_attributes::viewed(r->Ok_0@) == items,
            Err(e) => r is Err && r->Err_0 == e,
        },
{
    parse_section(data, Vendor::Aeabi)
}

/// The position of the first attribute `tag` from `from` on.
pub open spec fn found(attrs: Seq<(u64, ValueView)>, tag: u64, from: int) -> Option<int>
    decreases attrs.len() - from,
{
    if from < 0 || from >= attrs.len() {
        None
    } else if attrs[from].0 == tag {
        Some(from)
    } else {
        found(attrs, tag, from + 1)
    }
}

/// A found attribute has the tag asked for.
proof fn found_has_the_tag(attrs: Seq<(u64, ValueView)>, tag: u64, from: int)
    ensures
        match found(attrs, tag, from) {
            Some(at) => from <= at < attrs.len() && 0 <= at && attrs[at].0 == tag,
            None => true,
        },
    decreases attrs.len() - from,
{
    if 0 <= from < attrs.len() && attrs[from].0 != tag {
        found_has_the_tag(attrs, tag, from + 1);
    }
}

/// The position of attribute `tag`.
fn find(attrs: &Attributes, tag: u64) -> (r: Option<usize>)
    ensures
        match r {
            Some(at) => at < attrs@.len() && found(build_attributes::viewed(attrs@), tag, 0)
                == Some(at as int) && attrs@[at as int].0 == tag,
            None => found(build_attributes::viewed(attrs@), tag, 0) is None,
        },
{
    let mut i: usize = 0;
    while i < attrs.len()
        invariant
            found(build_attributes::viewed(attrs@), tag, 0) == found(
                build_attributes::viewed(attrs@),
                tag,
                i as int,
            ),
        decreases attrs@.len() - i,
    {
        if attrs[i].0 == tag {
            return Some(i);
        }
        i += 1;
    }
    None
}

/// The number that `tag` has, or 0.
pub open spec fn spec_int(attrs: Seq<(u64, ValueView)>, tag: u64) -> u64 {
    match found(attrs, tag, 0) {
        Some(at) => match attrs[at].1 {
            ValueView::Int(n) => n,
            _ => 0,
        },
        None => 0,
    }
}

/// The integer value of `tag`, or 0 when the object does not set it.
pub fn int_value(attrs: &Attributes, tag: u64) -> (r: u64)
    ensures
        r == spec_int(build_attributes::viewed(attrs@), tag),
{
    match find(attrs, tag) {
        Some(at) => match &attrs[at].1 {
            Value::Int(n) => *n,
            _ => 0,
        },
        None => 0,
    }
}

/// `attrs` with `tag` set to `value`.
pub open spec fn spec_set(attrs: Seq<(u64, ValueView)>, tag: u64, value: ValueView) -> Seq<
    (u64, ValueView),
> {
    match found(attrs, tag, 0) {
        Some(at) => attrs.update(at, (tag, value)),
        None => attrs.push((tag, value)),
    }
}

/// Sets `tag` to `value`, in place where it is there already.
pub fn set_value(out: &mut Attributes, tag: u64, value: Value)
    ensures
        build_attributes::viewed(final(out)@) == spec_set(build_attributes::viewed(old(out)@), tag, value@),
{
    let ghost shown = value@;
    match find(out, tag) {
        Some(at) => {
            out.set(at, (tag, value));
            assert(build_attributes::viewed(out@) =~= build_attributes::viewed(old(out)@).update(
                at as int,
                (tag, shown),
            ));
        },
        None => {
            out.push((tag, value));
            assert(build_attributes::viewed(out@) =~= build_attributes::viewed(old(out)@).push((tag, shown)));
        },
    }
}

/// What merging has come to.
pub struct Merging {
    /// The merged attributes.
    pub attrs: Seq<(u64, ValueView)>,
    /// The warnings.
    pub problems: Seq<Seq<char>>,
    /// The errors.
    pub errors: Seq<Seq<char>>,
}

/// The float ABI: objects that use no floating point at all are ignored.
pub open spec fn float_abi_merged(
    m: Merging,
    attrs: Seq<(u64, ValueView)>,
    name: Seq<char>,
) -> Merging {
    let theirs = spec_int(attrs, ABI_VFP_ARGS);
    let ours = spec_int(m.attrs, ABI_VFP_ARGS);
    let their_model = spec_int(attrs, ABI_FP_NUMBER_MODEL);
    let our_model = spec_int(m.attrs, ABI_FP_NUMBER_MODEL);
    if theirs == ours {
        m
    } else if our_model == 0 || (their_model != 0 && ours == VFP_ARGS_COMPATIBLE) {
        Merging { attrs: spec_set(m.attrs, ABI_VFP_ARGS, ValueView::Int(theirs)), ..m }
    } else if their_model != 0 && theirs != VFP_ARGS_COMPATIBLE {
        let text = if theirs == VFP_ARGS_VFP {
            name + " uses VFP register arguments, "@ + "the output"@ + " does not"@
        } else {
            "the output"@ + " uses VFP register arguments, "@ + name + " does not"@
        };
        Merging { errors: m.errors.push(text), ..m }
    } else {
        m
    }
}

/// Whether `tag` names the CPU.
#[verifier::allow_in_spec]
pub fn is_cpu_name(tag: u64) -> bool
    returns
        tag == CPU_NAME || tag == CPU_RAW_NAME,
{
    tag == CPU_NAME || tag == CPU_RAW_NAME
}

/// The attributes from `from` on without those that name the CPU.
pub open spec fn unnamed(attrs: Seq<(u64, ValueView)>, from: int) -> Seq<(u64, ValueView)>
    decreases attrs.len() - from,
{
    if from < 0 || from >= attrs.len() {
        Seq::empty()
    } else if is_cpu_name(attrs[from].0) {
        unnamed(attrs, from + 1)
    } else {
        seq![attrs[from]] + unnamed(attrs, from + 1)
    }
}

/// How an object's architecture compares with the output's.
#[derive(Clone, Copy, Debug, PartialEq, Eq, Structural)]
pub enum Rank {
    /// It is lower.
    Lower,
    /// They are the same.
    Same,
    /// It is higher.
    Higher,
}

/// How architecture `theirs` compares with `ours`.
#[verifier::allow_in_spec]
pub fn rank_of(theirs: u64, ours: u64) -> Rank
    returns
        (if theirs > ours {
            Rank::Higher
        } else if theirs < ours {
            Rank::Lower
        } else {
            Rank::Same
        }),
{
    if theirs > ours {
        Rank::Higher
    } else if theirs < ours {
        Rank::Lower
    } else {
        Rank::Same
    }
}

/// One attribute merged, of an object whose architecture has this rank.
pub open spec fn attribute_merged(
    m: Merging,
    attr: (u64, ValueView),
    name: Seq<char>,
    rank: Rank,
) -> Merging {
    let (tag, value) = attr;
    if tag == ABI_VFP_ARGS || tag == NODEFAULTS {
        m
    } else {
        match found(m.attrs, tag, 0) {
            None => if is_cpu_name(tag) && rank == Rank::Lower {
                m
            } else {
                Merging { attrs: spec_set(m.attrs, tag, value), ..m }
            },
            Some(at) => {
                let current = m.attrs[at].1;
                if current == value {
                    m
                } else if is_cpu_name(tag) {
                    if rank == Rank::Higher {
                        Merging { attrs: spec_set(m.attrs, tag, value), ..m }
                    } else {
                        m
                    }
                } else {
                    match (current, value) {
                        (ValueView::Int(ours), ValueView::Int(theirs)) => number_merged(
                            m,
                            tag,
                            ours,
                            theirs,
                            name,
                        ),
                        _ => m,
                    }
                }
            },
        }
    }
}

/// A number merged with a different one.
pub open spec fn number_merged(
    m: Merging,
    tag: u64,
    ours: u64,
    theirs: u64,
    name: Seq<char>,
) -> Merging {
    let highest = if ours > theirs {
        ours
    } else {
        theirs
    };
    let lowest = if ours < theirs {
        ours
    } else {
        theirs
    };
    if takes_highest(tag) || ours == 0 || theirs == 0 {
        Merging { attrs: spec_set(m.attrs, tag, ValueView::Int(highest)), ..m }
    } else if tag == ABI_ENUM_SIZE && (ours == 3 || theirs == 3) {
        Merging { attrs: spec_set(m.attrs, tag, ValueView::Int(lowest)), ..m }
    } else {
        Merging {
            attrs: spec_set(m.attrs, tag, ValueView::Int(ours)),
            problems: m.problems.push(
                name + ": attribute "@ + crate::text::decimal(tag as nat) + " is "@
                    + crate::text::decimal(theirs as nat) + ", the output has "@
                    + crate::text::decimal(ours as nat),
            ),
            ..m
        }
    }
}

/// The attributes from `from` on merged, one after the other.
pub open spec fn attributes_merged(
    m: Merging,
    attrs: Seq<(u64, ValueView)>,
    from: int,
    name: Seq<char>,
    rank: Rank,
) -> Merging
    decreases attrs.len() - from,
{
    if from < 0 || from >= attrs.len() {
        m
    } else {
        attributes_merged(
            attribute_merged(m, attrs[from], name, rank),
            attrs,
            from + 1,
            name,
            rank,
        )
    }
}

/// What merging has come to before the attributes of an object whose
/// architecture has this rank: the names of a lower one are dropped.
pub open spec fn names_dropped(m: Merging, rank: Rank) -> Merging {
    if rank == Rank::Higher {
        Merging { attrs: unnamed(m.attrs, 0), ..m }
    } else {
        m
    }
}

/// The attributes of the object `name` merged.
pub open spec fn spec_merge_into(
    m: Merging,
    attrs: Seq<(u64, ValueView)>,
    name: Seq<char>,
) -> Merging {
    let start = float_abi_merged(m, attrs, name);
    let theirs = spec_int(attrs, CPU_ARCH);
    let rank = rank_of(theirs, spec_int(start.attrs, CPU_ARCH));
    let end = attributes_merged(names_dropped(start, rank), attrs, 0, name, rank);
    if rank == Rank::Higher {
        Merging { attrs: spec_set(end.attrs, CPU_ARCH, ValueView::Int(theirs)), ..end }
    } else {
        end
    }
}

/// What attributes and a result have come to.
pub open spec fn merging(out: Seq<(u64, Value)>, result: Output) -> Merging {
    Merging {
        attrs: build_attributes::viewed(out),
        problems: crate::text::texts(result.problems@),
        errors: crate::text::texts(result.errors@),
    }
}

/// Whether merging leaves the other fields of a result alone.
pub open spec fn same_place(a: Output, b: Output) -> bool {
    a.first == b.first && a.bytes == b.bytes && a.hard_float == b.hard_float
}

/// Merges the float ABI of `attrs` into `out`.
fn merge_float_abi(out: &mut Attributes, attrs: &Attributes, name: &str, result: &mut Output)
    ensures
        merging(final(out)@, *final(result)) == float_abi_merged(
            merging(old(out)@, *old(result)),
            build_attributes::viewed(attrs@),
            name@,
        ),
        same_place(*old(result), *final(result)),
{
    let theirs: u64 = int_value(attrs, ABI_VFP_ARGS);
    let ours: u64 = int_value(out, ABI_VFP_ARGS);
    if theirs != ours {
        let their_model: u64 = int_value(attrs, ABI_FP_NUMBER_MODEL);
        let our_model: u64 = int_value(out, ABI_FP_NUMBER_MODEL);
        if our_model == 0 || (their_model != 0 && ours == VFP_ARGS_COMPATIBLE) {
            set_value(out, ABI_VFP_ARGS, Value::Int(theirs));
        } else if their_model != 0 && theirs != VFP_ARGS_COMPATIBLE {
            let mut text: String = String::new();
            if theirs == VFP_ARGS_VFP {
                text.append(name);
                text.append(" uses VFP register arguments, ");
                text.append("the output");
                text.append(" does not");
                assert(text@ =~= name@ + " uses VFP register arguments, "@ + "the output"@
                    + " does not"@);
            } else {
                text.append("the output");
                text.append(" uses VFP register arguments, ");
                text.append(name);
                text.append(" does not");
                assert(text@ =~= "the output"@ + " uses VFP register arguments, "@ + name@
                    + " does not"@);
            }
            push_text(&mut result.errors, text);
        }
    }
}

/// Merges a number with a different one.
fn merge_number(
    out: &mut Attributes,
    tag: u64,
    ours: u64,
    theirs: u64,
    name: &str,
    result: &mut Output,
)
    ensures
        merging(final(out)@, *final(result)) == number_merged(
            merging(old(out)@, *old(result)),
            tag,
            ours,
            theirs,
            name@,
        ),
        same_place(*old(result), *final(result)),
{
    let highest: u64 = if ours > theirs {
        ours
    } else {
        theirs
    };
    let lowest: u64 = if ours < theirs {
        ours
    } else {
        theirs
    };
    if takes_highest(tag) || ours == 0 || theirs == 0 {
        set_value(out, tag, Value::Int(highest));
    } else if tag == ABI_ENUM_SIZE && (ours == 3 || theirs == 3) {
        // "Any size" is compatible with both.
        set_value(out, tag, Value::Int(lowest));
    } else {
        let mut text: String = String::new();
        text.append(name);
        text.append(": attribute ");
        push_decimal(&mut text, tag);
        text.append(" is ");
        push_decimal(&mut text, theirs);
        text.append(", the output has ");
        push_decimal(&mut text, ours);
        assert(text@ =~= name@ + ": attribute "@ + crate::text::decimal(tag as nat) + " is "@ + crate::text::decimal(
            theirs as nat,
        ) + ", the output has "@ + crate::text::decimal(ours as nat));
        push_text(&mut result.problems, text);
        set_value(out, tag, Value::Int(ours));
    }
}

/// Merges one attribute.
fn merge_attribute(
    out: &mut Attributes,
    tag: u64,
    value: &Value,
    name: &str,
    rank: Rank,
    result: &mut Output,
)
    ensures
        merging(final(out)@, *final(result)) == attribute_merged(
            merging(old(out)@, *old(result)),
            (tag, value@),
            name@,
            rank,
        ),
        same_place(*old(result), *final(result)),
{
    if tag == ABI_VFP_ARGS || tag == NODEFAULTS {
        return ;
    }
    // The CPU names describe the architecture the merged object claims, so
    // they come from the object that has the highest.
    let Some(at) = find(out, tag) else {
        if is_cpu_name(tag) && rank == Rank::Lower {
            return ;
        }
        set_value(out, tag, copy_value(value));
        return ;
    };
    assert(build_attributes::viewed(out@)[at as int].1 == out@[at as int].1@);
    if same_value(&out[at].1, value) {
        return ;
    }
    if is_cpu_name(tag) {
        if rank == Rank::Higher {
            set_value(out, tag, copy_value(value));
        }
        return ;
    }
    let ours: Option<u64> = match &out[at].1 {
        Value::Int(n) => Some(*n),
        _ => None,
    };
    // Strings and `Tag_compatibility`: the first object's.
    if let (Some(ours), Value::Int(theirs)) = (ours, value) {
        merge_number(out, tag, ours, *theirs, name, result);
    }
}

/// The attributes without those that name the CPU.
fn drop_names(attrs: &Attributes) -> (r: Attributes)
    ensures
        build_attributes::viewed(r@) == unnamed(build_attributes::viewed(attrs@), 0),
{
    let mut out: Attributes = Vec::new();
    let ghost all = build_attributes::viewed(attrs@);
    assert(unnamed(all, 0) =~= build_attributes::viewed(out@) + unnamed(all, 0));
    let mut i: usize = 0;
    while i < attrs.len()
        invariant
            i <= attrs@.len(),
            all == build_attributes::viewed(attrs@),
            unnamed(all, 0) == build_attributes::viewed(out@) + unnamed(all, i as int),
        decreases attrs@.len() - i,
    {
        let ghost before = build_attributes::viewed(out@);
        assert(all[i as int] == (attrs@[i as int].0, attrs@[i as int].1@));
        if !is_cpu_name(attrs[i].0) {
            out.push((attrs[i].0, copy_value(&attrs[i].1)));
            assert(build_attributes::viewed(out@) =~= before.push(all[i as int]));
            assert(before + (seq![all[i as int]] + unnamed(all, i + 1))
                =~= build_attributes::viewed(out@) + unnamed(all, i + 1));
        }
        i += 1;
    }
    assert(build_attributes::viewed(out@) =~= unnamed(all, 0));
    out
}

/// Merges `attrs` into `out`, reporting problems about `name`.
pub fn merge_into(out: &mut Attributes, attrs: &Attributes, name: &str, result: &mut Output)
    ensures
        merging(final(out)@, *final(result)) == spec_merge_into(
            merging(old(out)@, *old(result)),
            build_attributes::viewed(attrs@),
            name@,
        ),
        same_place(*old(result), *final(result)),
{
    merge_float_abi(out, attrs, name, result);
    let theirs: u64 = int_value(attrs, CPU_ARCH);
    let rank: Rank = rank_of(theirs, int_value(out, CPU_ARCH));
    if rank == Rank::Higher {
        *out = drop_names(out);
    }
    let ghost start = merging(out@, *result);
    let mut i: usize = 0;
    while i < attrs.len()
        invariant
            i <= attrs@.len(),
            attributes_merged(start, build_attributes::viewed(attrs@), 0, name@, rank) == attributes_merged(
                merging(out@, *result),
                build_attributes::viewed(attrs@),
                i as int,
                name@,
                rank,
            ),
            same_place(*old(result), *result),
        decreases attrs@.len() - i,
    {
        assert(build_attributes::viewed(attrs@)[i as int] == (attrs@[i as int].0, attrs@[i as int].1@));
        let tag: u64 = attrs[i].0;
        merge_attribute(out, tag, &attrs[i].1, name, rank, result);
        i += 1;
    }
    if rank == Rank::Higher {
        set_value(out, CPU_ARCH, Value::Int(theirs));
    }
}

/// The order attributes are written in: `Tag_conformance` first, as the ABI
/// asks for, everything else in tag order.
pub open spec fn order_keys(attrs: Seq<(u64, ValueView)>) -> Seq<(u64, u64)> {
    Seq::new(
        attrs.len(),
        |i: int|
            (
                if attrs[i].0 == CONFORMANCE {
                    0u64
                } else {
                    1u64
                },
                attrs[i].0,
            ),
    )
}

/// `attrs` in the order `order` lists them.
pub open spec fn arranged(
    attrs: Seq<(u64, ValueView)>,
    order: Seq<usize>,
) -> Seq<(u64, ValueView)> {
    Seq::new(order.len(), |i: int| attrs[order[i] as int])
}

/// The section that holds `attrs` in that order.
pub open spec fn arranged_section(attrs: Seq<(u64, ValueView)>, order: Seq<usize>) -> Seq<u8> {
    let body = build_attributes::body_bytes(arranged(attrs, order));
    build_attributes::section_bytes(
        Vendor::Aeabi,
        saturated(15 + body.len()) as u32,
        saturated(5 + body.len()) as u32,
        body,
    )
}

/// `n`, or the highest length there is.
pub open spec fn saturated(n: nat) -> usize {
    if n > usize::MAX {
        usize::MAX
    } else {
        n as usize
    }
}

/// Encodes merged attributes as a `.ARM.attributes` section.
pub fn encode(attrs: &Attributes) -> (r: Vec<u8>)
    ensures
        exists|order: Seq<usize>| #[trigger]
            crate::order::is_stable_order(order_keys(build_attributes::viewed(attrs@)), order)
                && r@ == arranged_section(build_attributes::viewed(attrs@), order),
{
    let mut keys: Vec<(u64, u64)> = Vec::new();
    let mut i: usize = 0;
    while i < attrs.len()
        invariant
            i <= attrs@.len(),
            keys@ == order_keys(build_attributes::viewed(attrs@)).take(i as int),
        decreases attrs@.len() - i,
    {
        let tag: u64 = attrs[i].0;
        let first: u64 = if tag == CONFORMANCE {
            0
        } else {
            1
        };
        keys.push((first, tag));
        i += 1;
        assert(keys@ =~= order_keys(build_attributes::viewed(attrs@)).take(i as int));
    }
    assert(keys@ =~= order_keys(build_attributes::viewed(attrs@)));
    let order: Vec<usize> = stable_order(&keys);
    let ghost items = arranged(build_attributes::viewed(attrs@), order@);
    let mut body: Vec<u8> = Vec::new();
    let mut k: usize = 0;
    assert(items.skip(0) =~= items);
    while k < order.len()
        invariant
            k <= order@.len(),
            order@.len() == attrs@.len(),
            items == arranged(build_attributes::viewed(attrs@), order@),
            forall|j: int| 0 <= j < order@.len() ==> (#[trigger] order@[j]) < attrs@.len(),
            body@ + build_attributes::body_bytes(items.skip(k as int)) == build_attributes::body_bytes(items),
        decreases order@.len() - k,
    {
        let ghost before = body@;
        let ghost rest = items.skip(k as int);
        let at: usize = order[k];
        assert(rest[0] == (attrs@[at as int].0, attrs@[at as int].1@));
        push_uleb(&mut body, attrs[at].0);
        push_value(&mut body, &attrs[at].1);
        assert(rest.drop_first() =~= items.skip(k + 1));
        assert(body@ + build_attributes::body_bytes(items.skip(k + 1)) =~= before
            + build_attributes::body_bytes(rest));
        k += 1;
    }
    assert(items.skip(k as int) =~= Seq::empty());
    assert(body@ =~= build_attributes::body_bytes(items));
    let length: usize = 15usize.saturating_add(body.len());
    let size: usize = body.len().saturating_add(5);
    let r: Vec<u8> = frame(Vendor::Aeabi, length as u32, size as u32, &body);
    assert(r@ == arranged_section(build_attributes::viewed(attrs@), order@));
    r
}

/// The attributes that are encoded are those that are parsed, in the order
/// they are written in.
pub proof fn encoded_attributes_read_back(
    attrs: Seq<(u64, ValueView)>,
    order: Seq<usize>,
)
    requires
        crate::order::is_stable_order(order_keys(attrs), order),
        forall|i: int|
            0 <= i < attrs.len() ==> build_attributes::fits(
                #[trigger] attrs[i],
                Vendor::Aeabi,
            ),
        build_attributes::body_bytes(arranged(attrs, order)).len() + 15 <= u32::MAX,
    ensures
        build_attributes::spec_parse(arranged_section(attrs, order), Vendor::Aeabi) == Ok::<
            Seq<(u64, ValueView)>,
            &'static str,
        >(arranged(attrs, order)),
{
    build_attributes::sections_read_back(
        arranged(attrs, order),
        Vendor::Aeabi,
    );
}

/// What collecting has come to.
pub struct Collecting {
    /// The first section, once there is one.
    pub first: Option<SectionId>,
    /// What merging has come to.
    pub merging: Merging,
}

/// The live attributes section that index `i` of file `f` is, if it is one.
pub open spec fn attributes_section(refs: Refs, f: int, i: usize, section: InputSection) -> Option<
    SectionId,
> {
    if section.header.sh_type != SHT_ARM_ATTRIBUTES {
        None
    } else {
        match refs.sections.spec_id(f, index32(i) as int) {
            Some(id) => if refs.sections.spec_is_live(id) {
                Some(id)
            } else {
                None
            },
            None => None,
        }
    }
}

/// The contents of a section, nothing where they could not be read.
pub open spec fn contents_or_nothing(section: InputSection) -> Seq<u8> {
    match section.contents {
        Some(data) => data@,
        None => Seq::empty(),
    }
}

/// One attributes section collected.
pub open spec fn section_collected(
    c: Collecting,
    id: SectionId,
    data: Seq<u8>,
    name: Seq<char>,
) -> Collecting {
    match build_attributes::spec_parse(data, Vendor::Aeabi) {
        Err(problem) => Collecting {
            merging: Merging {
                problems: c.merging.problems.push(
                    name + ": "@ + problem@ + " in .ARM.attributes"@,
                ),
                ..c.merging
            },
            ..c
        },
        Ok(attrs) => match c.first {
            None => Collecting { first: Some(id), merging: Merging { attrs, ..c.merging } },
            Some(_) => Collecting { merging: spec_merge_into(c.merging, attrs, name), ..c },
        },
    }
}

/// The sections from `i` on of file `f` collected.
pub open spec fn sections_collected(
    c: Collecting,
    refs: Refs,
    f: int,
    object: ObjectInput,
    i: int,
) -> Collecting
    decreases object.sections@.len() - i,
{
    if i < 0 || i >= object.sections@.len() {
        c
    } else {
        let section = object.sections@[i];
        let next = match attributes_section(refs, f, i as usize, section) {
            Some(id) => section_collected(
                c,
                id,
                contents_or_nothing(section),
                refs.files@[f].name@,
            ),
            None => c,
        };
        sections_collected(next, refs, f, object, i + 1)
    }
}

/// The files from `f` on collected.
pub open spec fn files_collected(c: Collecting, refs: Refs, f: int) -> Collecting
    decreases refs.files@.len() - f,
{
    if f < 0 || f >= refs.files@.len() {
        c
    } else {
        let next = match refs.files@[f].object {
            Some(object) => sections_collected(c, refs, f, object, 0),
            None => c,
        };
        files_collected(next, refs, f + 1)
    }
}

/// Nothing collected yet.
pub open spec fn nothing_collected() -> Collecting {
    Collecting {
        first: None,
        merging: Merging {
            attrs: Seq::empty(),
            problems: Seq::empty(),
            errors: Seq::empty(),
        },
    }
}

/// What has been collected.
struct Collector {
    merged: Option<Attributes>,
    result: Output,
}

impl Collector {
    spec fn seen(self) -> Collecting {
        Collecting {
            first: match self.merged {
                Some(_) => Some(self.result.first),
                None => None,
            },
            merging: Merging {
                attrs: match self.merged {
                    Some(attrs) => build_attributes::viewed(attrs@),
                    None => Seq::empty(),
                },
                problems: crate::text::texts(self.result.problems@),
                errors: crate::text::texts(self.result.errors@),
            },
        }
    }

    fn section(&mut self, id: SectionId, data: &[u8], name: &str)
        ensures
            final(self).seen() == section_collected(old(self).seen(), id, data@, name@),
    {
        let attrs: Attributes = match parse(data) {
            Ok(attrs) => attrs,
            Err(problem) => {
                let mut text: String = String::new();
                text.append(name);
                text.append(": ");
                text.append(problem);
                text.append(" in .ARM.attributes");
                assert(text@ =~= name@ + ": "@ + problem@ + " in .ARM.attributes"@);
                push_text(&mut self.result.problems, text);
                return ;
            },
        };
        let mut merged: Option<Attributes> = None;
        std::mem::swap(&mut merged, &mut self.merged);
        match merged {
            None => {
                self.result.first = id;
                self.merged = Some(attrs);
            },
            Some(list) => {
                let mut out: Attributes = list;
                merge_into(&mut out, &attrs, name, &mut self.result);
                self.merged = Some(out);
            },
        }
    }

    fn readable(&mut self, file: &ElfInput, object: &ObjectInput)
        ensures
            final(self).seen() == object_merged(old(self).seen(), *file, *object, 0),
    {
        let mut i: usize = 0;
        while i < object.sections.len()
            invariant
                i <= object.sections@.len(),
                object_merged(old(self).seen(), *file, *object, 0) == object_merged(
                    self.seen(),
                    *file,
                    *object,
                    i as int,
                ),
            decreases object.sections@.len() - i,
        {
            let section: &InputSection = &object.sections[i];
            if section.header.sh_type == SHT_ARM_ATTRIBUTES {
                if let Some(data) = &section.contents {
                    self.section(SectionId::new(0), data, file.name.as_str());
                }
            }
            i += 1;
        }
    }

    fn object(&mut self, refs: &Refs, f: usize, object: &ObjectInput)
        requires
            f < refs.files@.len(),
        ensures
            final(self).seen() == sections_collected(
                old(self).seen(),
                *refs,
                f as int,
                *object,
                0,
            ),
    {
        let mut i: usize = 0;
        while i < object.sections.len()
            invariant
                f < refs.files@.len(),
                i <= object.sections@.len(),
                sections_collected(old(self).seen(), *refs, f as int, *object, 0)
                    == sections_collected(self.seen(), *refs, f as int, *object, i as int),
            decreases object.sections@.len() - i,
        {
            let section: &InputSection = &object.sections[i];
            if section.header.sh_type == SHT_ARM_ATTRIBUTES {
                if let Some(id) = refs.sections.id(f, index32(i)) {
                    if refs.sections.is_live(id) {
                        let name: &str = refs.files[f].name.as_str();
                        match &section.contents {
                            Some(data) => self.section(id, data, name),
                            None => {
                                let empty: [u8; 0] = [];
                                assert(empty@ =~= Seq::<u8>::empty());
                                self.section(id, &empty, name);
                            },
                        }
                    }
                }
            }
            i += 1;
        }
    }
}

/// Whether a result is what collecting the sections of a link comes to.
pub open spec fn is_collected(refs: Refs, r: Option<Output>) -> bool {
    let c = files_collected(nothing_collected(), refs, 0);
    match (r, c.first) {
        (None, None) => true,
        (Some(output), Some(first)) => {
            &&& output.first == first
            &&& crate::text::texts(output.problems@) == c.merging.problems
            &&& crate::text::texts(output.errors@) == c.merging.errors
            &&& output.hard_float == (spec_int(c.merging.attrs, ABI_VFP_ARGS) == VFP_ARGS_VFP)
            &&& exists|order: Seq<usize>| #[trigger]
                crate::order::is_stable_order(order_keys(c.merging.attrs), order)
                    && output.bytes@ == arranged_section(c.merging.attrs, order)
        },
        _ => false,
    }
}

/// Merges the `.ARM.attributes` sections of the live inputs, in input
/// order. `None` when there is none.
pub fn collect(refs: &Refs) -> (r: Option<Output>)
    ensures
        is_collected(*refs, r),
{
    let mut c: Collector = Collector { merged: None, result: Output::default() };
    let mut f: usize = 0;
    proof {
        assert(c.seen().merging.problems =~= Seq::<Seq<char>>::empty());
        assert(c.seen().merging.errors =~= Seq::<Seq<char>>::empty());
    }
    while f < refs.files.len()
        invariant
            f <= refs.files@.len(),
            files_collected(nothing_collected(), *refs, 0) == files_collected(
                c.seen(),
                *refs,
                f as int,
            ),
        decreases refs.files@.len() - f,
    {
        if let Some(object) = &refs.files[f].object {
            c.object(refs, f, object);
        }
        f += 1;
    }
    let Collector { merged, result } = c;
    match merged {
        None => None,
        Some(attrs) => {
            let mut output: Output = result;
            output.hard_float = int_value(&attrs, ABI_VFP_ARGS) == VFP_ARGS_VFP;
            output.bytes = encode(&attrs);
            Some(output)
        },
    }
}

/// The sections from `i` on of an object merged, those that can be read.
pub open spec fn object_merged(c: Collecting, file: ElfInput, object: ObjectInput, i: int) -> Collecting
    decreases object.sections@.len() - i,
{
    if i < 0 || i >= object.sections@.len() {
        c
    } else {
        let section = object.sections@[i];
        let next = match section.contents {
            Some(data) if section.header.sh_type == SHT_ARM_ATTRIBUTES => section_collected(
                c,
                SectionId::new(0),
                data@,
                file.name@,
            ),
            _ => c,
        };
        object_merged(next, file, object, i + 1)
    }
}

/// The objects from file `f` on merged.
pub open spec fn files_merged(c: Collecting, files: Seq<ElfInput>, f: int) -> Collecting
    decreases files.len() - f,
{
    if f < 0 || f >= files.len() {
        c
    } else {
        let next = match files[f].object {
            Some(object) => object_merged(c, files[f], object, 0),
            None => c,
        };
        files_merged(next, files, f + 1)
    }
}

/// Whether the merged objects pass floating-point arguments in VFP
/// registers.
pub open spec fn spec_hard_float(files: Seq<ElfInput>) -> bool {
    spec_int(files_merged(nothing_collected(), files, 0).merging.attrs, ABI_VFP_ARGS)
        == VFP_ARGS_VFP
}

/// Whether the merged objects pass floating-point arguments in VFP
/// registers, which selects `EF_ARM_ABI_FLOAT_HARD`.
pub fn hard_float(files: &[ElfInput]) -> (r: bool)
    ensures
        r == spec_hard_float(files@),
{
    let mut c: Collector = Collector { merged: None, result: Output::default() };
    proof {
        assert(c.seen().merging.problems =~= Seq::<Seq<char>>::empty());
        assert(c.seen().merging.errors =~= Seq::<Seq<char>>::empty());
    }
    let mut f: usize = 0;
    while f < files.len()
        invariant
            f <= files@.len(),
            files_merged(nothing_collected(), files@, 0) == files_merged(
                c.seen(),
                files@,
                f as int,
            ),
        decreases files@.len() - f,
    {
        if let Some(object) = &files[f].object {
            c.readable(&files[f], object);
        }
        f += 1;
    }
    match &c.merged {
        Some(attrs) => int_value(attrs, ABI_VFP_ARGS) == VFP_ARGS_VFP,
        None => false,
    }
}

/// Whether every attributes section of a link is live and can be read.
pub open spec fn are_all_used(refs: Refs) -> bool {
    forall|f: int, object: ObjectInput, i: int|
        0 <= f < refs.files@.len() && refs.files@[f].object == Some(object) && 0 <= i
            < object.sections@.len() && object.sections@[i].header.sh_type == SHT_ARM_ATTRIBUTES
            ==> #[trigger] attributes_section(refs, f, i as usize, object.sections@[i]) is Some
            && object.sections@[i].contents is Some
}

/// Whether both ways of merging have come to the same.
pub open spec fn come_to_the_same(c: Collecting, d: Collecting) -> bool {
    &&& c.merging == d.merging
    &&& c.first is Some <==> d.first is Some
    &&& c.first is None ==> c.merging.attrs.len() == 0
}

/// The sections of an object come to the same where all are used.
proof fn objects_come_to_the_same(
    c: Collecting,
    d: Collecting,
    refs: Refs,
    f: int,
    object: ObjectInput,
    i: int,
)
    requires
        come_to_the_same(c, d),
        are_all_used(refs),
        0 <= f < refs.files@.len(),
        refs.files@[f].object == Some(object),
        0 <= i,
    ensures
        come_to_the_same(
            sections_collected(c, refs, f, object, i),
            object_merged(d, refs.files@[f], object, i),
        ),
    decreases object.sections@.len() - i,
{
    if i < object.sections@.len() {
        let section = object.sections@[i];
        let id = attributes_section(refs, f, i as usize, section);
        let next = match id {
            Some(id) => section_collected(
                c,
                id,
                contents_or_nothing(section),
                refs.files@[f].name@,
            ),
            None => c,
        };
        let other = match section.contents {
            Some(data) if section.header.sh_type == SHT_ARM_ATTRIBUTES => section_collected(
                d,
                SectionId::new(0),
                data@,
                refs.files@[f].name@,
            ),
            _ => d,
        };
        assert(come_to_the_same(next, other));
        objects_come_to_the_same(next, other, refs, f, object, i + 1);
    }
}

/// The files of a link come to the same where all sections are used.
proof fn files_come_to_the_same(c: Collecting, d: Collecting, refs: Refs, f: int)
    requires
        come_to_the_same(c, d),
        are_all_used(refs),
        0 <= f,
    ensures
        come_to_the_same(files_collected(c, refs, f), files_merged(d, refs.files@, f)),
    decreases refs.files@.len() - f,
{
    if f < refs.files@.len() {
        match refs.files@[f].object {
            Some(object) => {
                objects_come_to_the_same(c, d, refs, f, object, 0);
                files_come_to_the_same(
                    sections_collected(c, refs, f, object, 0),
                    object_merged(d, refs.files@[f], object, 0),
                    refs,
                    f + 1,
                );
            },
            None => {
                files_come_to_the_same(c, d, refs, f + 1);
            },
        }
    }
}

/// The merged `Tag_ABI_VFP_args` chooses the float ABI: where every
/// attributes section is live and can be read, the output is hard-float if
/// and only if the merged section says so.
pub proof fn merged_attributes_choose_the_float_abi(refs: Refs, r: Option<Output>)
    requires
        is_collected(refs, r),
        are_all_used(refs),
    ensures
        spec_hard_float(refs.files@) == (match r {
            Some(output) => output.hard_float,
            None => false,
        }),
{
    files_come_to_the_same(nothing_collected(), nothing_collected(), refs, 0);
}

/// The highest number that attributes from `from` on give `tag`, 0 where
/// there is none.
pub open spec fn highest_of(attrs: Seq<(u64, ValueView)>, tag: u64, from: int) -> u64
    decreases attrs.len() - from,
{
    if from < 0 || from >= attrs.len() {
        0
    } else {
        let rest = highest_of(attrs, tag, from + 1);
        match attrs[from].1 {
            ValueView::Int(n) if attrs[from].0 == tag && n > rest => n,
            _ => rest,
        }
    }
}

/// Whether every value of `tag` is a number.
pub open spec fn are_numbers(attrs: Seq<(u64, ValueView)>, tag: u64) -> bool {
    forall|i: int| 0 <= i < attrs.len() && (#[trigger] attrs[i]).0 == tag ==> attrs[i].1 is Int
}

/// Where a tag is found is decided by the tags alone, the first coming
/// first.
proof fn found_goes_by_tags(
    a: Seq<(u64, ValueView)>,
    b: Seq<(u64, ValueView)>,
    tag: u64,
    from: int,
)
    requires
        0 <= from,
        a.len() <= b.len(),
        forall|i: int| 0 <= i < a.len() ==> (#[trigger] a[i]).0 == b[i].0,
        forall|i: int| a.len() <= i < b.len() ==> (#[trigger] b[i]).0 != tag,
    ensures
        found(a, tag, from) == found(b, tag, from),
    decreases b.len() - from,
{
    if from < b.len() {
        found_goes_by_tags(a, b, tag, from + 1);
    }
}

/// An attribute that is added is found where the tag was not there.
proof fn pushed_is_found(attrs: Seq<(u64, ValueView)>, tag: u64, value: ValueView, from: int)
    requires
        0 <= from <= attrs.len(),
        found(attrs, tag, from) is None,
    ensures
        found(attrs.push((tag, value)), tag, from) == Some(attrs.len() as int),
    decreases attrs.len() - from,
{
    if from < attrs.len() {
        pushed_is_found(attrs, tag, value, from + 1);
    }
}

/// Setting a tag to a number gives it that number and leaves the others.
proof fn set_numbers(attrs: Seq<(u64, ValueView)>, other: u64, value: ValueView, tag: u64)
    requires
        are_numbers(attrs, tag),
        other == tag ==> value is Int,
    ensures
        are_numbers(spec_set(attrs, other, value), tag),
        spec_int(spec_set(attrs, other, value), tag) == (if other == tag {
            value->Int_0
        } else {
            spec_int(attrs, tag)
        }),
{
    found_has_the_tag(attrs, other, 0);
    found_has_the_tag(attrs, tag, 0);
    let next = spec_set(attrs, other, value);
    match found(attrs, other, 0) {
        Some(at) => {
            found_goes_by_tags(attrs, next, tag, 0);
        },
        None => {
            if other == tag {
                pushed_is_found(attrs, tag, value, 0);
            } else {
                found_goes_by_tags(attrs, next, tag, 0);
            }
        },
    }
    assert forall|i: int| 0 <= i < next.len() && (#[trigger] next[i]).0 == tag implies next[i].1
        is Int by {
        if i < attrs.len() {
            assert(attrs[i].0 == tag ==> attrs[i].1 is Int);
        }
    }
}

/// One attribute merged makes a tag that takes the highest value no lower.
proof fn one_attribute_raises(
    m: Merging,
    attr: (u64, ValueView),
    name: Seq<char>,
    rank: Rank,
    tag: u64,
)
    requires
        takes_highest(tag),
        are_numbers(m.attrs, tag),
        attr.0 == tag ==> attr.1 is Int,
    ensures
        are_numbers(attribute_merged(m, attr, name, rank).attrs, tag),
        spec_int(attribute_merged(m, attr, name, rank).attrs, tag) == (if attr.0 == tag
            && attr.1->Int_0 > spec_int(m.attrs, tag) {
            attr.1->Int_0
        } else {
            spec_int(m.attrs, tag)
        }),
{
    let (other, value) = attr;
    found_has_the_tag(m.attrs, other, 0);
    if let Some(at) = found(m.attrs, other, 0) {
        let current = m.attrs[at].1;
        match (current, value) {
            (ValueView::Int(ours), ValueView::Int(theirs)) => {
                set_numbers(m.attrs, other, ValueView::Int(ours), tag);
                set_numbers(m.attrs, other, ValueView::Int(theirs), tag);
                set_numbers(m.attrs, other, value, tag);
            },
            _ => {
                if other != tag {
                    set_numbers(m.attrs, other, value, tag);
                }
            },
        }
    } else {
        set_numbers(m.attrs, other, value, tag);
    }
}

/// Attributes merged make a tag that takes the highest value the highest.
proof fn attributes_raise(
    m: Merging,
    attrs: Seq<(u64, ValueView)>,
    from: int,
    name: Seq<char>,
    rank: Rank,
    tag: u64,
)
    requires
        0 <= from,
        takes_highest(tag),
        are_numbers(m.attrs, tag),
        are_numbers(attrs, tag),
    ensures
        are_numbers(attributes_merged(m, attrs, from, name, rank).attrs, tag),
        spec_int(attributes_merged(m, attrs, from, name, rank).attrs, tag) == (if highest_of(
            attrs,
            tag,
            from,
        ) > spec_int(m.attrs, tag) {
            highest_of(attrs, tag, from)
        } else {
            spec_int(m.attrs, tag)
        }),
    decreases attrs.len() - from,
{
    if from < attrs.len() {
        one_attribute_raises(m, attrs[from], name, rank, tag);
        attributes_raise(
            attribute_merged(m, attrs[from], name, rank),
            attrs,
            from + 1,
            name,
            rank,
            tag,
        );
    }
}

/// An architecture or extension tag of the output takes the highest value
/// that any object gives it. (An object that names its architecture twice
/// does so with the highest first.)
pub proof fn merging_takes_the_highest(
    m: Merging,
    attrs: Seq<(u64, ValueView)>,
    name: Seq<char>,
    tag: u64,
)
    requires
        takes_highest(tag),
        are_numbers(m.attrs, tag),
        are_numbers(attrs, tag),
        tag == CPU_ARCH ==> spec_int(attrs, CPU_ARCH) == highest_of(attrs, CPU_ARCH, 0),
    ensures
        spec_int(spec_merge_into(m, attrs, name).attrs, tag) == (if highest_of(attrs, tag, 0)
            > spec_int(m.attrs, tag) {
            highest_of(attrs, tag, 0)
        } else {
            spec_int(m.attrs, tag)
        }),
{
    let start = float_abi_merged(m, attrs, name);
    set_numbers(m.attrs, ABI_VFP_ARGS, ValueView::Int(spec_int(attrs, ABI_VFP_ARGS)), tag);
    let theirs = spec_int(attrs, CPU_ARCH);
    let rank = rank_of(theirs, spec_int(start.attrs, CPU_ARCH));
    let kept = names_dropped(start, rank);
    names_leave_the_rest(start.attrs, tag);
    attributes_raise(kept, attrs, 0, name, rank, tag);
    let end = attributes_merged(kept, attrs, 0, name, rank);
    set_numbers(end.attrs, CPU_ARCH, ValueView::Int(theirs), tag);
}

/// The value that `tag` has.
pub open spec fn value_of(attrs: Seq<(u64, ValueView)>, tag: u64) -> Option<ValueView> {
    match found(attrs, tag, 0) {
        Some(at) => Some(attrs[at].1),
        None => None,
    }
}

/// The last value that the attributes from `from` on give `tag`.
pub open spec fn last_value(attrs: Seq<(u64, ValueView)>, tag: u64, from: int) -> Option<ValueView>
    decreases attrs.len() - from,
{
    if from < 0 || from >= attrs.len() {
        None
    } else {
        let rest = last_value(attrs, tag, from + 1);
        if rest is None && attrs[from].0 == tag {
            Some(attrs[from].1)
        } else {
            rest
        }
    }
}

/// Setting a tag gives it that value and leaves the others.
proof fn set_values(attrs: Seq<(u64, ValueView)>, other: u64, value: ValueView, tag: u64)
    ensures
        value_of(spec_set(attrs, other, value), tag) == (if other == tag {
            Some(value)
        } else {
            value_of(attrs, tag)
        }),
{
    found_has_the_tag(attrs, other, 0);
    found_has_the_tag(attrs, tag, 0);
    let next = spec_set(attrs, other, value);
    if found(attrs, other, 0) is None && other == tag {
        pushed_is_found(attrs, tag, value, 0);
    } else {
        found_goes_by_tags(attrs, next, tag, 0);
    }
}

/// One attribute merged names the CPU where its object may, and is never an
/// error.
proof fn one_attribute_names(
    m: Merging,
    attr: (u64, ValueView),
    name: Seq<char>,
    rank: Rank,
    tag: u64,
)
    requires
        is_cpu_name(tag),
    ensures
        attribute_merged(m, attr, name, rank).errors == m.errors,
        value_of(attribute_merged(m, attr, name, rank).attrs, tag) == (if attr.0 == tag && (rank
            == Rank::Higher || rank == Rank::Same && value_of(m.attrs, tag) is None) {
            Some(attr.1)
        } else {
            value_of(m.attrs, tag)
        }),
{
    let (other, value) = attr;
    set_values(m.attrs, other, value, tag);
    found_has_the_tag(m.attrs, other, 0);
    if let Some(at) = found(m.attrs, other, 0) {
        if let (ValueView::Int(ours), ValueView::Int(theirs)) = (m.attrs[at].1, value) {
            set_values(m.attrs, other, ValueView::Int(ours), tag);
            set_values(m.attrs, other, ValueView::Int(theirs), tag);
        }
    }
}

/// The first value that the attributes from `from` on give `tag`.
pub open spec fn value_from(attrs: Seq<(u64, ValueView)>, tag: u64, from: int) -> Option<ValueView> {
    match found(attrs, tag, from) {
        Some(at) => Some(attrs[at].1),
        None => None,
    }
}

/// Attributes merged do so one after the other.
proof fn attributes_name(
    m: Merging,
    attrs: Seq<(u64, ValueView)>,
    from: int,
    name: Seq<char>,
    rank: Rank,
    tag: u64,
)
    requires
        0 <= from,
        is_cpu_name(tag),
    ensures
        attributes_merged(m, attrs, from, name, rank).errors == m.errors,
        value_of(attributes_merged(m, attrs, from, name, rank).attrs, tag) == (match rank {
            Rank::Higher => if last_value(attrs, tag, from) is Some {
                last_value(attrs, tag, from)
            } else {
                value_of(m.attrs, tag)
            },
            Rank::Same => if value_of(m.attrs, tag) is Some {
                value_of(m.attrs, tag)
            } else {
                value_from(attrs, tag, from)
            },
            Rank::Lower => value_of(m.attrs, tag),
        }),
    decreases attrs.len() - from,
{
    if from < attrs.len() {
        one_attribute_names(m, attrs[from], name, rank, tag);
        attributes_name(
            attribute_merged(m, attrs[from], name, rank),
            attrs,
            from + 1,
            name,
            rank,
            tag,
        );
    }
}

/// An attribute that is not the one asked for is passed over.
proof fn others_are_passed_over(
    first: (u64, ValueView),
    rest: Seq<(u64, ValueView)>,
    tag: u64,
    from: int,
)
    requires
        0 <= from,
    ensures
        value_from(seq![first] + rest, tag, from + 1) == value_from(rest, tag, from),
    decreases rest.len() - from,
{
    if from < rest.len() {
        others_are_passed_over(first, rest, tag, from + 1);
        assert((seq![first] + rest)[from + 1] == rest[from]);
    }
}

/// Attributes without names have none, and the values of the other tags.
proof fn names_are_dropped(attrs: Seq<(u64, ValueView)>, tag: u64, from: int)
    requires
        0 <= from,
    ensures
        value_of(unnamed(attrs, from), tag) == (if is_cpu_name(tag) {
            None
        } else {
            value_from(attrs, tag, from)
        }),
    decreases attrs.len() - from,
{
    if from < attrs.len() {
        names_are_dropped(attrs, tag, from + 1);
        let rest = unnamed(attrs, from + 1);
        others_are_passed_over(attrs[from], rest, tag, 0);
        assert((seq![attrs[from]] + rest)[0] == attrs[from]);
    }
}

/// Every attribute that stays was there.
proof fn unnamed_were_there(attrs: Seq<(u64, ValueView)>, tag: u64, from: int)
    requires
        0 <= from,
        are_numbers(attrs, tag),
    ensures
        are_numbers(unnamed(attrs, from), tag),
    decreases attrs.len() - from,
{
    if from < attrs.len() {
        unnamed_were_there(attrs, tag, from + 1);
        assert(attrs[from].0 == tag ==> attrs[from].1 is Int);
        let rest = unnamed(attrs, from + 1);
        let all = seq![attrs[from]] + rest;
        assert forall|i: int| 0 <= i < all.len() && (#[trigger] all[i]).0 == tag implies all[i].1
            is Int by {
            if i > 0 {
                assert(all[i] == rest[i - 1]);
            }
        }
    }
}

/// Dropping names leaves the numbers of the other tags.
proof fn names_leave_the_rest(attrs: Seq<(u64, ValueView)>, tag: u64)
    requires
        !is_cpu_name(tag),
        are_numbers(attrs, tag),
    ensures
        are_numbers(unnamed(attrs, 0), tag),
        spec_int(unnamed(attrs, 0), tag) == spec_int(attrs, tag),
{
    names_are_dropped(attrs, tag, 0);
    unnamed_were_there(attrs, tag, 0);
}

/// The CPU names come from the object with the highest architecture: where
/// the output's is the higher its names stay, where the object's is its own
/// take their place, and at a tie they stay where there are any.
pub proof fn cpu_names_go_with_the_architecture(
    m: Merging,
    attrs: Seq<(u64, ValueView)>,
    name: Seq<char>,
    tag: u64,
)
    requires
        is_cpu_name(tag),
        are_numbers(m.attrs, CPU_ARCH),
    ensures
        value_of(spec_merge_into(m, attrs, name).attrs, tag) == (match rank_of(
            spec_int(attrs, CPU_ARCH),
            spec_int(m.attrs, CPU_ARCH),
        ) {
            Rank::Higher => last_value(attrs, tag, 0),
            Rank::Same => if value_of(m.attrs, tag) is Some {
                value_of(m.attrs, tag)
            } else {
                value_of(attrs, tag)
            },
            Rank::Lower => value_of(m.attrs, tag),
        }),
{
    let start = float_abi_merged(m, attrs, name);
    let args = ValueView::Int(spec_int(attrs, ABI_VFP_ARGS));
    set_numbers(m.attrs, ABI_VFP_ARGS, args, CPU_ARCH);
    set_values(m.attrs, ABI_VFP_ARGS, args, tag);
    let theirs = spec_int(attrs, CPU_ARCH);
    let rank = rank_of(theirs, spec_int(start.attrs, CPU_ARCH));
    let kept = names_dropped(start, rank);
    names_are_dropped(start.attrs, tag, 0);
    attributes_name(kept, attrs, 0, name, rank, tag);
    let end = attributes_merged(kept, attrs, 0, name, rank);
    set_values(end.attrs, CPU_ARCH, ValueView::Int(theirs), tag);
}

/// Of objects that both use floating point, one that passes its arguments in
/// VFP registers and one that does not are an error, and only that is one:
/// objects that agree, use no floating point or pass no such arguments merge.
pub proof fn float_abis_must_agree(
    m: Merging,
    attrs: Seq<(u64, ValueView)>,
    name: Seq<char>,
)
    ensures
        spec_merge_into(m, attrs, name).errors.len() == m.errors.len() + (if spec_int(
            attrs,
            ABI_VFP_ARGS,
        ) != spec_int(m.attrs, ABI_VFP_ARGS) && spec_int(attrs, ABI_FP_NUMBER_MODEL) != 0
            && spec_int(m.attrs, ABI_FP_NUMBER_MODEL) != 0 && spec_int(attrs, ABI_VFP_ARGS)
            != VFP_ARGS_COMPATIBLE && spec_int(m.attrs, ABI_VFP_ARGS) != VFP_ARGS_COMPATIBLE {
            1int
        } else {
            0
        }),
{
    let start = float_abi_merged(m, attrs, name);
    let rank = rank_of(spec_int(attrs, CPU_ARCH), spec_int(start.attrs, CPU_ARCH));
    attributes_name(names_dropped(start, rank), attrs, 0, name, rank, CPU_NAME);
}

} // verus!
