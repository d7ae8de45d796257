//! RISC-V ISA strings, such as `rv64i2p1_m2p0_zicsr2p0`.

use vstd::prelude::*;
use vstd::slice::slice_subrange;

use crate::bytes::{copied, push_all, same};
use crate::text::push_decimal_bytes;

verus! {

/// One extension of an ISA string with its version.
#[derive(Debug, PartialEq, Eq)]
pub struct Extension {
    /// The name, without its version.
    pub name: Vec<u8>,
    /// The major version.
    pub major: u32,
    /// The minor version.
    pub minor: u32,
}

/// What an [`Extension`] holds.
pub struct ExtensionView {
    /// The name.
    pub name: Seq<u8>,
    /// The major version.
    pub major: u32,
    /// The minor version.
    pub minor: u32,
}

impl View for Extension {
    type V = ExtensionView;

    open spec fn view(&self) -> ExtensionView {
        ExtensionView { name: self.name@, major: self.major, minor: self.minor }
    }
}

/// What a list of extensions holds.
pub open spec fn shown(list: Seq<Extension>) -> Seq<ExtensionView> {
    Seq::new(list.len(), |i: int| list[i]@)
}

/// The canonical position of a single-letter extension: `i`, `e`, the
/// letters of `mafdqlcbkjtpvnh`, and the others alphabetically.
#[verifier::allow_in_spec]
pub fn letter_rank(letter: u8) -> u32
    returns
        (match letter {
            0x69 => 0u32,
            0x65 => 1u32,
            0x6d => 2u32,
            0x61 => 3u32,
            0x66 => 4u32,
            0x64 => 5u32,
            0x71 => 6u32,
            0x6c => 7u32,
            0x63 => 8u32,
            0x62 => 9u32,
            0x6b => 10u32,
            0x6a => 11u32,
            0x74 => 12u32,
            0x70 => 13u32,
            0x76 => 14u32,
            0x6e => 15u32,
            0x68 => 16u32,
            _ => if letter < 0x61 {
                17u32
            } else {
                (17 + (letter - 0x61)) as u32
            },
        }),
{
    match letter {
        0x69 => 0u32,
        0x65 => 1u32,
        0x6d => 2u32,
        0x61 => 3u32,
        0x66 => 4u32,
        0x64 => 5u32,
        0x71 => 6u32,
        0x6c => 7u32,
        0x63 => 8u32,
        0x62 => 9u32,
        0x6b => 10u32,
        0x6a => 11u32,
        0x74 => 12u32,
        0x70 => 13u32,
        0x76 => 14u32,
        0x6e => 15u32,
        0x68 => 16u32,
        _ => if letter < 0x61 {
            17u32
        } else {
            17 + (letter - 0x61) as u32
        },
    }
}

/// The group of an extension in the canonical order: single letters, then
/// `z*` by the category of their second letter, then `s*`, then `x*`.
pub open spec fn spec_rank(name: Seq<u8>) -> u32 {
    if name.len() >= 1 && name[0] == 0x73 {
        128
    } else if name.len() >= 2 && name[0] == 0x7a {
        64 | letter_rank(name[1])
    } else if name.len() >= 1 && name[0] == 0x78 {
        256
    } else if name.len() == 1 {
        letter_rank(name[0])
    } else {
        512
    }
}

/// The group of an extension in the canonical order.
pub fn rank(name: &[u8]) -> (r: u32)
    ensures
        r == spec_rank(name@),
{
    if name.len() >= 1 && name[0] == 0x73 {
        128
    } else if name.len() >= 2 && name[0] == 0x7a {
        64 | letter_rank(name[1])
    } else if name.len() >= 1 && name[0] == 0x78 {
        256
    } else if name.len() == 1 {
        letter_rank(name[0])
    } else {
        512
    }
}

/// Whether `a` comes before `b` alphabetically, from position `i` on.
pub open spec fn name_less(a: Seq<u8>, b: Seq<u8>, i: int) -> bool
    decreases a.len() - i,
{
    if i < 0 || i >= b.len() {
        false
    } else if i >= a.len() {
        true
    } else if a[i] != b[i] {
        a[i] < b[i]
    } else {
        name_less(a, b, i + 1)
    }
}

/// Whether extension `a` comes before `b` in the canonical order.
pub open spec fn comes_before(a: Seq<u8>, b: Seq<u8>) -> bool {
    spec_rank(a) < spec_rank(b) || (spec_rank(a) == spec_rank(b) && name_less(a, b, 0))
}

/// Whether extension `a` comes before `b`.
fn before(a: &[u8], b: &[u8]) -> (r: bool)
    ensures
        r == comes_before(a@, b@),
{
    let left: u32 = rank(a);
    let right: u32 = rank(b);
    if left != right {
        return left < right;
    }
    let mut i: usize = 0;
    while i < a.len() && i < b.len()
        invariant
            spec_rank(a@) == spec_rank(b@),
            name_less(a@, b@, 0) == name_less(a@, b@, i as int),
            i <= a@.len(),
            i <= b@.len(),
        decreases a@.len() - i,
    {
        if a[i] != b[i] {
            return a[i] < b[i];
        }
        i += 1;
    }
    i < b.len()
}

/// Of two different names one comes before the other.
proof fn names_are_ordered(a: Seq<u8>, b: Seq<u8>, i: int)
    requires
        0 <= i <= a.len(),
        i <= b.len(),
        a.take(i) == b.take(i),
    ensures
        name_less(a, b, i) || name_less(b, a, i) || a == b,
    decreases a.len() - i,
{
    if i < a.len() && i < b.len() && a[i] == b[i] {
        assert(a.take(i + 1) =~= a.take(i).push(a[i]));
        assert(b.take(i + 1) =~= b.take(i).push(b[i]));
        names_are_ordered(a, b, i + 1);
    } else if i == a.len() && i == b.len() {
        assert(a =~= a.take(i));
        assert(b =~= b.take(i));
    }
}

/// The order of names is transitive.
proof fn names_chain(a: Seq<u8>, b: Seq<u8>, c: Seq<u8>, i: int)
    requires
        name_less(a, b, i),
        name_less(b, c, i),
    ensures
        name_less(a, c, i),
    decreases a.len() - i,
{
    if i < a.len() && a[i] == b[i] && b[i] == c[i] {
        names_chain(a, b, c, i + 1);
    }
}

/// No name comes before itself.
proof fn names_do_not_precede_themselves(a: Seq<u8>, i: int)
    ensures
        !name_less(a, a, i),
    decreases a.len() - i,
{
    if 0 <= i < a.len() {
        names_do_not_precede_themselves(a, i + 1);
    }
}

/// Whether a byte is an ASCII digit.
#[verifier::allow_in_spec]
pub fn is_digit(b: u8) -> bool
    returns
        (0x30 <= b && b <= 0x39),
{
    0x30 <= b && b <= 0x39
}

/// Where the digits from `at` on end.
pub open spec fn digits_end(s: Seq<u8>, at: int) -> int
    decreases s.len() - at,
{
    if 0 <= at < s.len() && is_digit(s[at]) {
        digits_end(s, at + 1)
    } else {
        at
    }
}

/// Where the digits before `end` start.
pub open spec fn digits_start(s: Seq<u8>, end: int) -> int
    decreases end,
{
    if 0 < end <= s.len() && is_digit(s[end - 1]) {
        digits_start(s, end - 1)
    } else {
        end
    }
}

/// The number written in the bytes from `from` up to `to`.
pub open spec fn number(s: Seq<u8>, from: int, to: int) -> nat
    decreases to - from,
{
    if to <= from {
        0
    } else {
        number(s, from, to - 1) * 10 + ((s[to - 1] - 0x30) as nat)
    }
}

/// That number, where it is there and fits 32 bits.
pub open spec fn spec_number_at(s: Seq<u8>, from: int, to: int) -> Option<u32> {
    if from >= to || number(s, from, to) > u32::MAX {
        None
    } else {
        Some(number(s, from, to) as u32)
    }
}

/// More digits never make a number smaller.
proof fn numbers_grow(s: Seq<u8>, from: int, mid: int, to: int)
    requires
        0 <= from <= mid <= to <= s.len(),
        forall|i: int| from <= i < to ==> is_digit(#[trigger] s[i]),
    ensures
        number(s, from, mid) <= number(s, from, to),
    decreases to - mid,
{
    if mid < to {
        numbers_grow(s, from, mid, to - 1);
        assert(is_digit(s[to - 1]));
    }
}

/// The number in the digits from `from` up to `to`.
fn number_at(s: &[u8], from: usize, to: usize) -> (r: Option<u32>)
    requires
        from <= to <= s@.len(),
        forall|i: int| from <= i < to ==> is_digit(#[trigger] s@[i]),
    ensures
        r == spec_number_at(s@, from as int, to as int),
{
    if from >= to {
        return None;
    }
    let mut value: u64 = 0;
    let mut i: usize = from;
    while i < to
        invariant
            from <= i <= to <= s@.len(),
            forall|j: int| from <= j < to ==> is_digit(#[trigger] s@[j]),
            value == number(s@, from as int, i as int),
            value <= u32::MAX,
        decreases to - i,
    {
        assert(is_digit(s@[i as int]));
        value = value * 10 + (s[i] - 0x30) as u64;
        i += 1;
        if value > u32::MAX as u64 {
            proof {
                numbers_grow(s@, from as int, i as int, to as int);
            }
            return None;
        }
    }
    Some(value as u32)
}

/// Where the digits from `at` on end.
fn find_digits_end(s: &[u8], at: usize) -> (r: usize)
    requires
        at <= s@.len(),
    ensures
        r == digits_end(s@, at as int),
        at <= r <= s@.len(),
        forall|i: int| at <= i < r ==> is_digit(#[trigger] s@[i]),
{
    let mut i: usize = at;
    while i < s.len() && is_digit(s[i])
        invariant
            at <= i <= s@.len(),
            digits_end(s@, at as int) == digits_end(s@, i as int),
            forall|j: int| at <= j < i ==> is_digit(#[trigger] s@[j]),
        decreases s@.len() - i,
    {
        i += 1;
    }
    i
}

/// Where the digits before `end` start.
fn find_digits_start(s: &[u8], end: usize) -> (r: usize)
    requires
        end <= s@.len(),
    ensures
        r == digits_start(s@, end as int),
        r <= end,
        forall|i: int| r <= i < end ==> is_digit(#[trigger] s@[i]),
{
    let mut i: usize = end;
    while i > 0 && is_digit(s[i - 1])
        invariant
            i <= end <= s@.len(),
            digits_start(s@, end as int) == digits_start(s@, i as int),
            forall|j: int| i <= j < end ==> is_digit(#[trigger] s@[j]),
        decreases i,
    {
        i -= 1;
    }
    i
}

/// One part of an ISA string: the name, then `<major>p<minor>`. Names may
/// contain digits (`zve32x`), so the version is found from the end; a part
/// without one has version 0.
pub open spec fn spec_extension(part: Seq<u8>) -> Option<ExtensionView> {
    let end = part.len() as int;
    let minor = digits_start(part, end);
    if 0 < minor < end && part[minor - 1] == 0x70 {
        let major = digits_start(part, minor - 1);
        if major == minor - 1 || major == 0 {
            None
        } else {
            match (
                spec_number_at(part, major, minor - 1),
                spec_number_at(part, minor, end),
            ) {
                (Some(a), Some(b)) => Some(
                    ExtensionView { name: part.take(major), major: a, minor: b },
                ),
                _ => None,
            }
        }
    } else {
        Some(ExtensionView { name: part, major: 0, minor: 0 })
    }
}

/// Reads one part of an ISA string.
fn extension(part: &[u8]) -> (r: Option<Extension>)
    ensures
        match (r, spec_extension(part@)) {
            (Some(a), Some(b)) => a@ == b,
            (None, None) => true,
            _ => false,
        },
{
    let end: usize = part.len();
    let minor: usize = find_digits_start(part, end);
    if 0 < minor && minor < end && part[minor - 1] == 0x70 {
        let major: usize = find_digits_start(part, minor - 1);
        if major == minor - 1 || major == 0 {
            return None;
        }
        let high: Option<u32> = number_at(part, major, minor - 1);
        let low: Option<u32> = number_at(part, minor, end);
        match (high, low) {
            (Some(a), Some(b)) => {
                let name: Vec<u8> = copied(slice_subrange(part, 0, major));
                assert(name@ =~= part@.take(major as int));
                Some(Extension { name, major: a, minor: b })
            },
            _ => None,
        }
    } else {
        Some(Extension { name: copied(part), major: 0, minor: 0 })
    }
}

/// Where the part that starts at `at` ends: at the next `_` or at the end.
pub open spec fn part_end(s: Seq<u8>, at: int) -> int
    decreases s.len() - at,
{
    if 0 <= at < s.len() && s[at] != 0x5f {
        part_end(s, at + 1)
    } else {
        at
    }
}

/// A part ends no earlier than it starts.
pub proof fn parts_advance(s: Seq<u8>, at: int)
    requires
        0 <= at <= s.len(),
    ensures
        at <= part_end(s, at) <= s.len(),
    decreases s.len() - at,
{
    if at < s.len() && s[at] != 0x5f {
        parts_advance(s, at + 1);
    }
}

/// The extensions in the parts from `at` on; empty parts are skipped.
pub open spec fn extensions_from(s: Seq<u8>, at: int) -> Option<Seq<ExtensionView>>
    decreases s.len() - at,
{
    if at < 0 || at >= s.len() {
        Some(Seq::empty())
    } else {
        let end = part_end(s, at);
        if end <= at {
            extensions_from(s, at + 1)
        } else {
            proof {
                parts_advance(s, at);
            }
            match (spec_extension(s.subrange(at, end)), extensions_from(s, end)) {
                (Some(first), Some(rest)) => Some(seq![first] + rest),
                _ => None,
            }
        }
    }
}

/// The base width and the extensions of an ISA string.
pub open spec fn spec_parse_arch(s: Seq<u8>) -> Option<(u32, Seq<ExtensionView>)> {
    if s.len() < 2 || s[0] != 0x72 || s[1] != 0x76 {
        None
    } else {
        let digits = digits_end(s, 2);
        match (spec_number_at(s, 2, digits), extensions_from(s, digits)) {
            (Some(xlen), Some(extensions)) => Some((xlen, extensions)),
            _ => None,
        }
    }
}

/// Whether an optional list is the one a specification asks for.
pub open spec fn listed(list: Option<Vec<Extension>>, asked: Option<Seq<ExtensionView>>) -> bool {
    match (list, asked) {
        (Some(a), Some(b)) => shown(a@) == b,
        (None, None) => true,
        _ => false,
    }
}

/// Reads the parts from `start` on.
fn extensions(s: &[u8], start: usize) -> (r: Option<Vec<Extension>>)
    requires
        start <= s@.len(),
    ensures
        listed(r, extensions_from(s@, start as int)),
{
    let mut out: Vec<Extension> = Vec::new();
    let mut at: usize = start;
    assert(shown(out@) =~= Seq::<ExtensionView>::empty());
    proof {
        let whole = extensions_from(s@, start as int);
        if whole is Some {
            assert(Seq::<ExtensionView>::empty() + whole->0 =~= whole->0);
        }
    }
    while at < s.len()
        invariant
            at <= s@.len(),
            match (extensions_from(s@, start as int), extensions_from(s@, at as int)) {
                (Some(whole), Some(rest)) => whole == shown(out@) + rest,
                (None, None) => true,
                _ => false,
            },
        decreases s@.len() - at,
    {
        let mut end: usize = at;
        while end < s.len() && s[end] != 0x5f
            invariant
                at <= end <= s@.len(),
                part_end(s@, at as int) == part_end(s@, end as int),
            decreases s@.len() - end,
        {
            end += 1;
        }
        if end == at {
            at += 1;
        } else {
            let Some(ext) = extension(slice_subrange(s, at, end)) else {
                return None;
            };
            let ghost before = shown(out@);
            let ghost first = ext@;
            out.push(ext);
            proof {
                assert(shown(out@) =~= before.push(first));
                let rest = extensions_from(s@, end as int);
                if rest is Some {
                    assert(before + (seq![first] + rest->0) =~= shown(out@) + rest->0);
                }
            }
            at = end;
        }
    }
    assert(shown(out@) + Seq::<ExtensionView>::empty() =~= shown(out@));
    Some(out)
}

/// Splits a normalized ISA string into its base width and extensions.
pub fn parse_arch(text: &[u8]) -> (r: Option<(u32, Vec<Extension>)>)
    ensures
        match (r, spec_parse_arch(text@)) {
            (Some(a), Some(b)) => a.0 == b.0 && shown(a.1@) == b.1,
            (None, None) => true,
            _ => false,
        },
{
    if text.len() < 2 || text[0] != 0x72 || text[1] != 0x76 {
        return None;
    }
    let digits: usize = find_digits_end(text, 2);
    let xlen: Option<u32> = number_at(text, 2, digits);
    let list: Option<Vec<Extension>> = extensions(text, digits);
    match (xlen, list) {
        (Some(xlen), Some(list)) => Some((xlen, list)),
        _ => None,
    }
}

/// Whether version `a` is higher than version `b`.
#[verifier::allow_in_spec]
pub fn newer(a: (u32, u32), b: (u32, u32)) -> bool
    returns
        (a.0 > b.0 || (a.0 == b.0 && a.1 > b.1)),
{
    a.0 > b.0 || (a.0 == b.0 && a.1 > b.1)
}

/// Where `name` belongs in a list in canonical order, from position `i` on.
pub open spec fn place_of(list: Seq<ExtensionView>, name: Seq<u8>, i: int) -> int
    decreases list.len() - i,
{
    if 0 <= i < list.len() && comes_before(list[i].name, name) {
        place_of(list, name, i + 1)
    } else {
        i
    }
}

/// A list in canonical order with an extension added: at the highest
/// version, if it is in the list already.
pub open spec fn inserted(list: Seq<ExtensionView>, ext: ExtensionView) -> Seq<ExtensionView> {
    let at = place_of(list, ext.name, 0);
    if at < list.len() && list[at].name == ext.name {
        if newer((ext.major, ext.minor), (list[at].major, list[at].minor)) {
            list.update(at, ext)
        } else {
            list
        }
    } else {
        list.insert(at, ext)
    }
}

/// The extensions from `i` on added one after the other.
pub open spec fn all_inserted(
    list: Seq<ExtensionView>,
    extensions: Seq<ExtensionView>,
    i: int,
) -> Seq<ExtensionView>
    decreases extensions.len() - i,
{
    if i < 0 || i >= extensions.len() {
        list
    } else {
        all_inserted(inserted(list, extensions[i]), extensions, i + 1)
    }
}

/// Whether a list is in canonical order and names nothing twice.
pub open spec fn in_canonical_order(list: Seq<ExtensionView>) -> bool {
    forall|i: int, j: int|
        0 <= i < j < list.len() ==> comes_before((#[trigger] list[i]).name, (#[trigger] list[j]).name)
}

/// Whether a list has `name` at version `version` or a higher one.
pub open spec fn covers(list: Seq<ExtensionView>, ext: ExtensionView) -> bool {
    exists|i: int|
        0 <= i < list.len() && (#[trigger] list[i]).name == ext.name && !newer(
            (ext.major, ext.minor),
            (list[i].major, list[i].minor),
        )
}

/// Everything before a place comes before the name, and nothing there does.
proof fn places_divide(list: Seq<ExtensionView>, name: Seq<u8>, i: int)
    requires
        0 <= i <= list.len(),
    ensures
        i <= place_of(list, name, i) <= list.len(),
        forall|k: int|
            i <= k < place_of(list, name, i) ==> comes_before((#[trigger] list[k]).name, name),
        place_of(list, name, i) < list.len() ==> !comes_before(
            list[place_of(list, name, i)].name,
            name,
        ),
    decreases list.len() - i,
{
    if i < list.len() && comes_before(list[i].name, name) {
        places_divide(list, name, i + 1);
    }
}

/// Adding an extension keeps the canonical order, keeps every extension at
/// its version or a higher one, and adds the new one.
pub proof fn insertion_keeps_the_order(list: Seq<ExtensionView>, ext: ExtensionView)
    requires
        in_canonical_order(list),
    ensures
        in_canonical_order(inserted(list, ext)),
        covers(inserted(list, ext), ext),
        forall|e: ExtensionView| #[trigger] covers(list, e) ==> covers(inserted(list, ext), e),
{
    let at = place_of(list, ext.name, 0);
    let out = inserted(list, ext);
    places_divide(list, ext.name, 0);
    if at < list.len() && list[at].name == ext.name {
        if newer((ext.major, ext.minor), (list[at].major, list[at].minor)) {
            assert(out[at] == ext);
            assert forall|i: int, j: int| 0 <= i < j < out.len() implies comes_before(
                (#[trigger] out[i]).name,
                (#[trigger] out[j]).name,
            ) by {
                assert(out[i].name == list[i].name);
                assert(out[j].name == list[j].name);
            }
            assert forall|e: ExtensionView| #[trigger] covers(list, e) implies covers(out, e) by {
                let k = choose|k: int|
                    0 <= k < list.len() && (#[trigger] list[k]).name == e.name && !newer(
                        (e.major, e.minor),
                        (list[k].major, list[k].minor),
                    );
                assert(out[k].name == e.name);
            }
        } else {
            assert(out[at].name == ext.name);
        }
    } else {
        assert(out[at] == ext);
        assert forall|k: int| at <= k < list.len() implies comes_before(
            ext.name,
            (#[trigger] list[k]).name,
        ) by {
            ordered(list[at].name, ext.name);
            if k > at {
                assert(comes_before(list[at].name, list[k].name));
                chained(ext.name, list[at].name, list[k].name);
            }
        }
        assert forall|i: int, j: int| 0 <= i < j < out.len() implies comes_before(
            (#[trigger] out[i]).name,
            (#[trigger] out[j]).name,
        ) by {
            let a = if i < at {
                i
            } else {
                i - 1
            };
            let b = if j < at {
                j
            } else {
                j - 1
            };
            if i < at {
                assert(out[i] == list[i]);
            } else if i > at {
                assert(out[i] == list[i - 1]);
            }
            if j < at {
                assert(out[j] == list[j]);
            } else if j > at {
                assert(out[j] == list[j - 1]);
            }
            if i != at && j != at {
                assert(comes_before(list[a].name, list[b].name));
            }
        }
        assert forall|e: ExtensionView| #[trigger] covers(list, e) implies covers(out, e) by {
            let k = choose|k: int|
                0 <= k < list.len() && (#[trigger] list[k]).name == e.name && !newer(
                    (e.major, e.minor),
                    (list[k].major, list[k].minor),
                );
            let m = if k < at {
                k
            } else {
                k + 1
            };
            assert(out[m] == list[k]);
        }
    }
}

/// Of two extensions that differ one comes before the other.
proof fn ordered(a: Seq<u8>, b: Seq<u8>)
    ensures
        comes_before(a, b) || comes_before(b, a) || a == b,
{
    assert(a.take(0) =~= b.take(0));
    names_are_ordered(a, b, 0);
}

/// The canonical order is transitive.
proof fn chained(a: Seq<u8>, b: Seq<u8>, c: Seq<u8>)
    requires
        comes_before(a, b),
        comes_before(b, c),
    ensures
        comes_before(a, c),
{
    if spec_rank(a) == spec_rank(b) && spec_rank(b) == spec_rank(c) {
        names_chain(a, b, c, 0);
    }
}

/// Adding extensions keeps the canonical order, and the result has every
/// extension of both at its version or a higher one.
pub proof fn union_has_everything(
    list: Seq<ExtensionView>,
    extensions: Seq<ExtensionView>,
    i: int,
)
    requires
        in_canonical_order(list),
        0 <= i <= extensions.len(),
    ensures
        in_canonical_order(all_inserted(list, extensions, i)),
        forall|e: ExtensionView| #[trigger]
            covers(list, e) ==> covers(all_inserted(list, extensions, i), e),
        forall|k: int|
            i <= k < extensions.len() ==> covers(
                all_inserted(list, extensions, i),
                #[trigger] extensions[k],
            ),
    decreases extensions.len() - i,
{
    if i < extensions.len() {
        insertion_keeps_the_order(list, extensions[i]);
        union_has_everything(inserted(list, extensions[i]), extensions, i + 1);
        assert(covers(inserted(list, extensions[i]), extensions[i]));
    }
}

/// Adds an extension to a list in canonical order.
fn insert(list: &mut Vec<Extension>, ext: Extension)
    ensures
        shown(final(list)@) == inserted(shown(old(list)@), ext@),
{
    let ghost before = shown(list@);
    let ghost new = ext@;
    proof {
        places_divide(before, new.name, 0);
    }
    let mut at: usize = 0;
    while at < list.len() && self::before(&list[at].name, &ext.name)
        invariant
            at <= list@.len(),
            before == shown(list@),
            place_of(before, ext.name@, 0) == place_of(before, ext.name@, at as int),
        decreases list@.len() - at,
    {
        at += 1;
    }
    if at < list.len() && same(&list[at].name, &ext.name) {
        assert(before[at as int].name == list@[at as int].name@);
        if newer((ext.major, ext.minor), (list[at].major, list[at].minor)) {
            list.set(at, ext);
            assert(shown(list@) =~= before.update(at as int, new));
        }
    } else {
        list.insert(at, ext);
        assert(shown(list@) =~= before.insert(at as int, new));
    }
}

/// Adds extensions to a list in canonical order.
pub fn insert_all(list: &mut Vec<Extension>, extensions: &Vec<Extension>)
    ensures
        shown(final(list)@) == all_inserted(shown(old(list)@), shown(extensions@), 0),
{
    let mut i: usize = 0;
    while i < extensions.len()
        invariant
            i <= extensions@.len(),
            all_inserted(shown(old(list)@), shown(extensions@), 0) == all_inserted(
                shown(list@),
                shown(extensions@),
                i as int,
            ),
        decreases extensions@.len() - i,
    {
        let ext: &Extension = &extensions[i];
        let copy: Extension = Extension {
            name: copied(&ext.name),
            major: ext.major,
            minor: ext.minor,
        };
        assert(copy@ == shown(extensions@)[i as int]);
        insert(list, copy);
        i += 1;
    }
}

/// The parts that write the extensions from `i` on.
pub open spec fn written_from(list: Seq<ExtensionView>, i: int) -> Seq<u8>
    decreases list.len() - i,
{
    if i < 0 || i >= list.len() {
        Seq::empty()
    } else {
        (if i > 0 {
            seq![0x5fu8]
        } else {
            Seq::empty()
        }) + list[i].name + crate::text::decimal_bytes(list[i].major as nat) + seq![0x70u8] + crate::text::decimal_bytes(
            list[i].minor as nat,
        ) + written_from(list, i + 1)
    }
}

/// The ISA string of a width and extensions.
pub open spec fn isa_string(xlen: u32, list: Seq<ExtensionView>) -> Seq<u8> {
    seq![0x72u8, 0x76u8] + crate::text::decimal_bytes(xlen as nat) + written_from(list, 0)
}

/// Writes the ISA string of a width and extensions.
pub fn write_isa(xlen: u32, list: &Vec<Extension>) -> (r: Vec<u8>)
    ensures
        r@ == isa_string(xlen, shown(list@)),
{
    let mut out: Vec<u8> = Vec::new();
    out.push(0x72);
    out.push(0x76);
    push_decimal_bytes(&mut out, xlen as u64);
    assert(out@ =~= seq![0x72u8, 0x76u8] + crate::text::decimal_bytes(xlen as nat));
    let mut i: usize = 0;
    while i < list.len()
        invariant
            i <= list@.len(),
            out@ + written_from(shown(list@), i as int) == isa_string(xlen, shown(list@)),
        decreases list@.len() - i,
    {
        let ghost before = out@;
        let ext: &Extension = &list[i];
        assert(shown(list@)[i as int] == ext@);
        if i > 0 {
            out.push(0x5f);
        }
        push_all(&mut out, &ext.name);
        push_decimal_bytes(&mut out, ext.major as u64);
        out.push(0x70);
        push_decimal_bytes(&mut out, ext.minor as u64);
        assert(before + written_from(shown(list@), i as int) =~= out@ + written_from(
            shown(list@),
            i + 1,
        ));
        i += 1;
    }
    assert(out@ + written_from(shown(list@), i as int) =~= out@);
    out
}

} // verus!
