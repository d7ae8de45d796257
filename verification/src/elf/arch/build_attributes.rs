//! Build-attributes sections: `.ARM.attributes` and `.riscv.attributes`.
//!
//! A section is a format byte `A` and subsections, each a length, a vendor
//! name and blocks; a block is a tag, a size and, for the tag of the whole
//! file, attributes. An attribute is a ULEB128 tag and a value, which is a
//! ULEB128 number, a NUL-terminated text or both, by the vendor's rule.

use vstd::prelude::*;

use crate::bytes;
use vstd::slice::slice_subrange;

use crate::bytes::{copied, get_u32, le32, push_all, same};
use crate::leb::{last_byte, push_uleb, value_of};

verus! {

/// `Tag_File`: attributes of the whole file.
pub const TAG_FILE: u8 = 1;

/// A value of one attribute.
#[derive(Clone, Debug, PartialEq, Eq)]
pub enum Value {
    /// A ULEB128.
    Int(u64),
    /// A NUL-terminated string.
    Text(Vec<u8>),
    /// A ULEB128 and a string.
    Pair(u64, Vec<u8>),
}

/// What a [`Value`] holds.
pub enum ValueView {
    /// A number.
    Int(u64),
    /// A text.
    Text(Seq<u8>),
    /// A number and a text.
    Pair(u64, Seq<u8>),
}

impl View for Value {
    type V = ValueView;

    open spec fn view(&self) -> ValueView {
        match self {
            Value::Int(n) => ValueView::Int(*n),
            Value::Text(t) => ValueView::Text(t@),
            Value::Pair(n, t) => ValueView::Pair(*n, t@),
        }
    }
}

/// The attributes of one section, in file order.
pub type Attributes = Vec<(u64, Value)>;

/// What attributes hold.
pub open spec fn viewed(attrs: Seq<(u64, Value)>) -> Seq<(u64, ValueView)> {
    Seq::new(attrs.len(), |i: int| (attrs[i].0, attrs[i].1@))
}

/// The shape of a tag's value.
#[derive(Clone, Copy, Debug, PartialEq, Eq, Structural)]
pub enum Shape {
    /// A ULEB128.
    Int,
    /// A string.
    Text,
    /// A ULEB128 and a string.
    Pair,
}

/// A vendor's rules.
#[derive(Clone, Copy, Debug, PartialEq, Eq, Structural)]
pub enum Vendor {
    /// `aeabi`.
    Aeabi,
    /// `riscv`.
    RiscV,
}

impl Vendor {
    /// The name in a subsection.
    #[verifier::allow_in_spec]
    pub fn name(self) -> [u8; 5]
        returns
            (match self {
                Vendor::Aeabi => [0x61u8, 0x65, 0x61, 0x62, 0x69],
                Vendor::RiscV => [0x72u8, 0x69, 0x73, 0x63, 0x76],
            }),
    {
        match self {
            Vendor::Aeabi => [0x61u8, 0x65, 0x61, 0x62, 0x69],
            Vendor::RiscV => [0x72u8, 0x69, 0x73, 0x63, 0x76],
        }
    }

    /// The shape of the value of `tag`. For `aeabi`: the named string tags
    /// (4, 5, 65 and 67) and by the ABI's rule odd tags above 32 hold
    /// strings, and 32 (`Tag_compatibility`) both. For `riscv` even tags
    /// hold numbers and odd ones strings.
    #[verifier::allow_in_spec]
    pub fn shape(self, tag: u64) -> Shape
        returns
            (match self {
                Vendor::Aeabi => match tag {
                    32 => Shape::Pair,
                    4 | 5 | 65 | 67 => Shape::Text,
                    _ => if tag > 32 && tag % 2 == 1 {
                        Shape::Text
                    } else {
                        Shape::Int
                    },
                },
                Vendor::RiscV => if tag % 2 == 0 {
                    Shape::Int
                } else {
                    Shape::Text
                },
            }),
    {
        match self {
            Vendor::Aeabi => match tag {
                32 => Shape::Pair,
                4 | 5 | 65 | 67 => Shape::Text,
                _ => if tag > 32 && tag % 2 == 1 {
                    Shape::Text
                } else {
                    Shape::Int
                },
            },
            Vendor::RiscV => if tag % 2 == 0 {
                Shape::Int
            } else {
                Shape::Text
            },
        }
    }

    /// What a text without its NUL is reported as.
    #[verifier::allow_in_spec]
    pub fn unterminated(self) -> &'static str
        returns
            (match self {
                Vendor::Aeabi => "unterminated attribute",
                Vendor::RiscV => "unterminated attribute string",
            }),
    {
        match self {
            Vendor::Aeabi => "unterminated attribute",
            Vendor::RiscV => "unterminated attribute string",
        }
    }
}

/// The result of parsing attributes, or what is malformed.
pub type Parsed = Result<Seq<(u64, ValueView)>, &'static str>;

/// `first` and then what `rest` holds.
pub open spec fn followed(first: Seq<(u64, ValueView)>, rest: Parsed) -> Parsed {
    match rest {
        Ok(r) => Ok(first + r),
        Err(e) => Err(e),
    }
}

/// The index of the first zero byte from `at` on.
pub open spec fn nul_at(s: Seq<u8>, at: int) -> Option<int>
    decreases s.len() - at,
{
    if at < 0 || at >= s.len() {
        None
    } else if s[at] == 0 {
        Some(at)
    } else {
        nul_at(s, at + 1)
    }
}

/// The value of `tag` at `at`, and where it ends.
pub open spec fn value_at(s: Seq<u8>, at: int, tag: u64, vendor: Vendor) -> Result<
    (ValueView, int),
    &'static str,
> {
    match vendor.shape(tag) {
        Shape::Int => match crate::leb::uleb_end(s, at) {
            Some(end) => Ok((ValueView::Int(crate::leb::uleb_value(s, at, end)), end)),
            None => Err("truncated attribute"),
        },
        Shape::Text => match nul_at(s, at) {
            Some(nul) => Ok((ValueView::Text(s.subrange(at, nul)), nul + 1)),
            None => Err(vendor.unterminated()),
        },
        Shape::Pair => match crate::leb::uleb_end(s, at) {
            Some(mid) => match nul_at(s, mid) {
                Some(nul) => Ok(
                    (ValueView::Pair(crate::leb::uleb_value(s, at, mid), s.subrange(mid, nul)), nul + 1),
                ),
                None => Err(vendor.unterminated()),
            },
            None => Err("truncated attribute"),
        },
    }
}

/// A number ends past its start.
pub proof fn numbers_advance(s: Seq<u8>, at: int)
    ensures
        match crate::leb::uleb_end(s, at) {
            Some(end) => at < end <= s.len(),
            None => true,
        },
    decreases s.len() - at,
{
    if 0 <= at < s.len() && s[at] & 0x80 != 0 {
        numbers_advance(s, at + 1);
    }
}

/// A text ends no earlier than its start.
pub proof fn texts_advance(s: Seq<u8>, at: int)
    ensures
        match nul_at(s, at) {
            Some(nul) => 0 <= at <= nul < s.len() && s[nul] == 0 && (forall|i: int|
                at <= i < nul ==> s[i] != 0),
            None => true,
        },
    decreases s.len() - at,
{
    if 0 <= at < s.len() && s[at] != 0 {
        texts_advance(s, at + 1);
    }
}

/// A value ends past its start.
pub proof fn values_advance(s: Seq<u8>, at: int, tag: u64, vendor: Vendor)
    ensures
        match value_at(s, at, tag, vendor) {
            Ok((_, end)) => at < end <= s.len(),
            Err(_) => true,
        },
{
    numbers_advance(s, at);
    texts_advance(s, at);
    match crate::leb::uleb_end(s, at) {
        Some(mid) => {
            texts_advance(s, mid);
        },
        None => {},
    }
}

/// The attributes from `at` on.
pub open spec fn attributes_from(s: Seq<u8>, at: int, vendor: Vendor) -> Parsed
    decreases s.len() - at,
{
    if at >= s.len() {
        Ok(Seq::empty())
    } else {
        match crate::leb::uleb_end(s, at) {
            None => Err("truncated attribute"),
            Some(after) => {
                let tag = crate::leb::uleb_value(s, at, after);
                match value_at(s, after, tag, vendor) {
                    Err(e) => Err(e),
                    Ok((value, end)) => {
                        proof {
                            numbers_advance(s, at);
                            values_advance(s, after, tag, vendor);
                        }
                        followed(seq![(tag, value)], attributes_from(s, end, vendor))
                    },
                }
            },
        }
    }
}

/// The blocks of a subsection from `at` on.
pub open spec fn blocks_from(s: Seq<u8>, at: int, vendor: Vendor) -> Parsed
    decreases s.len() - at,
{
    if at >= s.len() {
        Ok(Seq::empty())
    } else {
        match bytes::u32_at(s, at + 1) {
            None => Err("truncated attributes"),
            Some(size) => if size < 5 || at + size > s.len() {
                Err("attributes overrun their subsection")
            } else {
                let here: Parsed = if s[at] == TAG_FILE {
                    attributes_from(s.subrange(at + 5, at + size), 0, vendor)
                } else {
                    Ok(Seq::empty())
                };
                match here {
                    Err(e) => Err(e),
                    Ok(first) => followed(first, blocks_from(s, at + size, vendor)),
                }
            },
        }
    }
}

/// The attributes of one subsection: none of another vendor's.
pub open spec fn subsection(s: Seq<u8>, vendor: Vendor) -> Parsed {
    match nul_at(s, 0) {
        None => Err("unterminated attributes vendor name"),
        Some(nul) => if s.subrange(0, nul) == vendor.name()@ {
            blocks_from(s, nul + 1, vendor)
        } else {
            Ok(Seq::empty())
        },
    }
}

/// The subsections from `at` on.
pub open spec fn subsections_from(s: Seq<u8>, at: int, vendor: Vendor) -> Parsed
    decreases s.len() - at,
{
    if at >= s.len() {
        Ok(Seq::empty())
    } else {
        match bytes::u32_at(s, at) {
            None => Err("truncated attributes subsection"),
            Some(length) => if length < 4 || at + length > s.len() {
                Err("attributes subsection overruns the section")
            } else {
                match subsection(s.subrange(at + 4, at + length), vendor) {
                    Err(e) => Err(e),
                    Ok(first) => followed(first, subsections_from(s, at + length, vendor)),
                }
            },
        }
    }
}

/// The attributes of a section.
pub open spec fn spec_parse(s: Seq<u8>, vendor: Vendor) -> Parsed {
    if s.len() == 0 {
        Ok(Seq::empty())
    } else if s[0] != 0x41 {
        Err("unknown attributes format version")
    } else {
        subsections_from(s, 1, vendor)
    }
}

/// Whether a function that appends attributes did what `parsed` says.
pub open spec fn appended(
    before: Seq<(u64, Value)>,
    after: Seq<(u64, Value)>,
    r: Result<(), &'static str>,
    parsed: Parsed,
) -> bool {
    match parsed {
        Ok(items) => r is Ok && viewed(after) == viewed(before) + items,
        Err(e) => r == Err::<(), &'static str>(e),
    }
}

/// The index of the first zero byte from `at` on.
fn find_nul(data: &[u8], at: usize) -> (r: Option<usize>)
    ensures
        match r {
            Some(nul) => at <= nul < data@.len() && nul_at(data@, at as int) == Some(nul as int),
            None => nul_at(data@, at as int) is None,
        },
{
    let mut i: usize = at;
    while i < data.len()
        invariant
            at <= i,
            nul_at(data@, at as int) == nul_at(data@, i as int),
        decreases data@.len() - i,
    {
        if data[i] == 0 {
            return Some(i);
        }
        i += 1;
    }
    None
}

/// Reads the value of `tag` at `at`, and where it ends.
fn read_value(data: &[u8], at: usize, tag: u64, vendor: Vendor) -> (r: Result<
    (Value, usize),
    &'static str,
>)
    ensures
        match (r, value_at(data@, at as int, tag, vendor)) {
            (Ok((v, end)), Ok((w, e))) => v@ == w && end == e && at < end <= data@.len(),
            (Err(a), Err(b)) => a == b,
            _ => false,
        },
{
    proof {
        values_advance(data@, at as int, tag, vendor);
    }
    let len: usize = data.len();
    match vendor.shape(tag) {
        Shape::Int => match last_byte(data, at as u64) {
            Some(last) => Ok((Value::Int(value_of(data, at, last)), last + 1)),
            None => Err("truncated attribute"),
        },
        Shape::Text => match find_nul(data, at) {
            Some(nul) => Ok((Value::Text(copied(slice_subrange(data, at, nul))), nul + 1)),
            None => Err(vendor.unterminated()),
        },
        Shape::Pair => match last_byte(data, at as u64) {
            Some(last) => {
                let number: u64 = value_of(data, at, last);
                match find_nul(data, last + 1) {
                    Some(nul) => Ok(
                        (
                            Value::Pair(number, copied(slice_subrange(data, last + 1, nul))),
                            nul + 1,
                        ),
                    ),
                    None => Err(vendor.unterminated()),
                }
            },
            None => Err("truncated attribute"),
        },
    }
}

/// Appends the attributes in `data`.
fn parse_attributes(data: &[u8], vendor: Vendor, out: &mut Attributes) -> (r: Result<
    (),
    &'static str,
>)
    ensures
        appended(old(out)@, final(out)@, r, attributes_from(data@, 0, vendor)),
{
    let mut at: usize = 0;
    let len: usize = data.len();
    assert(viewed(out@) =~= viewed(old(out)@));
    while at < len
        invariant
            at <= len,
            len == data@.len(),
            followed(viewed(old(out)@), attributes_from(data@, 0, vendor)) == followed(
                viewed(out@),
                attributes_from(data@, at as int, vendor),
            ),
        decreases len - at,
    {
        let Some(last) = last_byte(data, at as u64) else {
            return Err("truncated attribute");
        };
        let tag: u64 = value_of(data, at, last);
        let (value, end) = match read_value(data, last + 1, tag, vendor) {
            Ok(v) => v,
            Err(e) => {
                return Err(e);
            },
        };
        let ghost before = viewed(out@);
        let ghost shown = value@;
        out.push((tag, value));
        proof {
            assert(viewed(out@) =~= before + seq![(tag, shown)]);
            let rest = attributes_from(data@, end as int, vendor);
            match rest {
                Ok(items) => {
                    assert(before + (seq![(tag, shown)] + items) =~= viewed(out@) + items);
                },
                Err(_) => {},
            }
        }
        at = end;
    }
    assert(viewed(out@) + Seq::<(u64, ValueView)>::empty() =~= viewed(out@));
    Ok(())
}

/// Appends the attributes of the blocks of `body` from `start` on.
fn parse_blocks(body: &[u8], start: usize, vendor: Vendor, out: &mut Attributes) -> (r: Result<
    (),
    &'static str,
>)
    ensures
        appended(old(out)@, final(out)@, r, blocks_from(body@, start as int, vendor)),
{
    let len: usize = body.len();
    let mut at: usize = start;
    while at < len
        invariant
            len == body@.len(),
            followed(viewed(old(out)@), blocks_from(body@, start as int, vendor)) == followed(
                viewed(out@),
                blocks_from(body@, at as int, vendor),
            ),
        decreases len - at,
    {
        let size: usize = match get_u32(body, at as u64 + 1) {
            Some(size) => size as usize,
            None => {
                return Err("truncated attributes");
            },
        };
        if size < 5 || size > len - at {
            return Err("attributes overrun their subsection");
        }
        let ghost before = viewed(out@);
        let ghost rest = blocks_from(body@, at + size, vendor);
        if body[at] == TAG_FILE {
            let attrs: &[u8] = slice_subrange(body, at + 5, at + size);
            match parse_attributes(attrs, vendor, out) {
                Ok(()) => {},
                Err(e) => {
                    return Err(e);
                },
            }
            proof {
                let items = attributes_from(attrs@, 0, vendor)->Ok_0;
                if rest is Ok {
                    assert(before + (items + rest->Ok_0) =~= viewed(out@) + rest->Ok_0);
                }
            }
        } else {
            proof {
                if rest is Ok {
                    assert(before + (Seq::<(u64, ValueView)>::empty() + rest->Ok_0) =~= viewed(out@)
                        + rest->Ok_0);
                }
            }
        }
        at = at + size;
    }
    assert(viewed(out@) + Seq::<(u64, ValueView)>::empty() =~= viewed(out@));
    Ok(())
}

/// Parses the vendor's file-level attributes of a section.
///
/// # Errors
///
/// A description of the first malformation found.
pub fn parse_section(data: &[u8], vendor: Vendor) -> (r: Result<Attributes, &'static str>)
    ensures
        match spec_parse(data@, vendor) {
            Ok(items) => r is Ok && viewed(r->Ok_0@) == items,
            Err(e) => r is Err && r->Err_0 == e,
        },
{
    let mut out: Attributes = Vec::new();
    let len: usize = data.len();
    assert(viewed(out@) =~= Seq::<(u64, ValueView)>::empty());
    if len == 0 {
        return Ok(out);
    }
    if data[0] != 0x41 {
        return Err("unknown attributes format version");
    }
    let name: [u8; 5] = vendor.name();
    let mut at: usize = 1;
    proof {
        let whole = subsections_from(data@, 1, vendor);
        if whole is Ok {
            assert(Seq::<(u64, ValueView)>::empty() + whole->Ok_0 =~= whole->Ok_0);
        }
    }
    while at < len
        invariant
            1 <= at,
            len == data@.len(),
            name == vendor.name(),
            subsections_from(data@, 1, vendor) == followed(
                viewed(out@),
                subsections_from(data@, at as int, vendor),
            ),
            spec_parse(data@, vendor) == subsections_from(data@, 1, vendor),
        decreases len - at,
    {
        let length: usize = match get_u32(data, at as u64) {
            Some(length) => length as usize,
            None => {
                return Err("truncated attributes subsection");
            },
        };
        if length < 4 || length > len - at {
            return Err("attributes subsection overruns the section");
        }
        let body: &[u8] = slice_subrange(data, at + 4, at + length);
        let Some(nul) = find_nul(body, 0) else {
            return Err("unterminated attributes vendor name");
        };
        let ghost before = viewed(out@);
        let ghost rest = subsections_from(data@, at + length, vendor);
        if same(slice_subrange(body, 0, nul), &name) {
            match parse_blocks(body, nul + 1, vendor, &mut out) {
                Ok(()) => {},
                Err(e) => {
                    return Err(e);
                },
            }
            proof {
                let items = blocks_from(body@, nul + 1, vendor)->Ok_0;
                if rest is Ok {
                    assert(before + (items + rest->Ok_0) =~= viewed(out@) + rest->Ok_0);
                }
            }
        } else {
            proof {
                if rest is Ok {
                    assert(before + (Seq::<(u64, ValueView)>::empty() + rest->Ok_0) =~= viewed(out@)
                        + rest->Ok_0);
                }
            }
        }
        at = at + length;
    }
    assert(viewed(out@) + Seq::<(u64, ValueView)>::empty() =~= viewed(out@));
    Ok(out)
}

/// Whether two values are the same.
pub fn same_value(a: &Value, b: &Value) -> (r: bool)
    ensures
        r == (a@ == b@),
{
    match (a, b) {
        (Value::Int(x), Value::Int(y)) => *x == *y,
        (Value::Text(s), Value::Text(t)) => same(s, t),
        (Value::Pair(x, s), Value::Pair(y, t)) => *x == *y && same(s, t),
        _ => false,
    }
}

/// A copy of a value.
pub fn copy_value(value: &Value) -> (r: Value)
    ensures
        r@ == value@,
{
    match value {
        Value::Int(n) => Value::Int(*n),
        Value::Text(t) => Value::Text(copied(t)),
        Value::Pair(n, t) => Value::Pair(*n, copied(t)),
    }
}

/// How a value is written.
pub open spec fn value_bytes(value: ValueView) -> Seq<u8> {
    match value {
        ValueView::Int(n) => crate::leb::uleb_bytes(n),
        ValueView::Text(t) => t.push(0),
        ValueView::Pair(n, t) => crate::leb::uleb_bytes(n) + t.push(0),
    }
}

/// How attributes are written, one after the other.
pub open spec fn body_bytes(attrs: Seq<(u64, ValueView)>) -> Seq<u8>
    decreases attrs.len(),
{
    if attrs.len() == 0 {
        Seq::empty()
    } else {
        crate::leb::uleb_bytes(attrs[0].0) + value_bytes(attrs[0].1) + body_bytes(
            attrs.drop_first(),
        )
    }
}

/// Whether a value has the shape of its tag, and a text no NUL inside.
pub open spec fn fits(attr: (u64, ValueView), vendor: Vendor) -> bool {
    match attr.1 {
        ValueView::Int(_) => vendor.shape(attr.0) == Shape::Int,
        ValueView::Text(t) => vendor.shape(attr.0) == Shape::Text && !t.contains(0),
        ValueView::Pair(_, t) => vendor.shape(attr.0) == Shape::Pair && !t.contains(0),
    }
}

/// A section of one subsection of one block, the whole file's.
pub open spec fn section_bytes(
    vendor: Vendor,
    subsection_length: u32,
    block_size: u32,
    body: Seq<u8>,
) -> Seq<u8> {
    seq![0x41u8] + bytes::spec_le32(subsection_length) + vendor.name()@ + seq![0u8, TAG_FILE]
        + bytes::spec_le32(block_size) + body
}

/// Appends a value.
pub fn push_value(out: &mut Vec<u8>, value: &Value)
    ensures
        final(out)@ == old(out)@ + value_bytes(value@),
{
    match value {
        Value::Int(n) => push_uleb(out, *n),
        Value::Text(t) => {
            push_all(out, t);
            out.push(0);
        },
        Value::Pair(n, t) => {
            push_uleb(out, *n);
            push_all(out, t);
            out.push(0);
        },
    }
    assert(out@ =~= old(out)@ + value_bytes(value@));
}

/// A section around `body`.
pub fn frame(vendor: Vendor, subsection_length: u32, block_size: u32, body: &[u8]) -> (r: Vec<u8>)
    ensures
        r@ == section_bytes(vendor, subsection_length, block_size, body@),
{
    let mut out: Vec<u8> = Vec::new();
    out.push(0x41);
    push_all(&mut out, &le32(subsection_length));
    push_all(&mut out, &vendor.name());
    out.push(0);
    out.push(TAG_FILE);
    push_all(&mut out, &le32(block_size));
    push_all(&mut out, body);
    assert(out@ =~= section_bytes(vendor, subsection_length, block_size, body@));
    out
}

/// A text without a NUL inside ends at the NUL behind it.
proof fn texts_end_at_their_nul(s: Seq<u8>, at: int, text: Seq<u8>)
    requires
        0 <= at,
        at + text.len() < s.len(),
        s.subrange(at, at + text.len() + 1) == text.push(0),
        !text.contains(0),
    ensures
        nul_at(s, at) == Some(at + text.len()),
        s.subrange(at, at + text.len()) == text,
    decreases text.len(),
{
    let w = s.subrange(at, at + text.len() + 1);
    assert(s.subrange(at, at + text.len()) =~= text) by {
        assert forall|i: int| 0 <= i < text.len() implies s[at + i] == text[i] by {
            assert(w[i] == text.push(0)[i]);
        }
    }
    assert(s[at] == w[0]);
    if text.len() > 0 {
        assert(text.contains(text[0]));
        let rest = text.drop_first();
        assert(s.subrange(at + 1, at + 1 + rest.len() + 1) =~= rest.push(0)) by {
            assert forall|i: int| 0 <= i < rest.len() + 1 implies s[at + 1 + i] == rest.push(
                0,
            )[i] by {
                assert(w[i + 1] == text.push(0)[i + 1]);
            }
        }
        assert(!rest.contains(0)) by {
            if rest.contains(0) {
                let i = choose|i: int| 0 <= i < rest.len() && rest[i] == 0;
                assert(text[i + 1] == 0);
            }
        }
        texts_end_at_their_nul(s, at + 1, rest);
    }
}

/// The bytes of `s` at `at` are those of the first part of what follows.
proof fn first_part(s: Seq<u8>, at: int, first: Seq<u8>, rest: Seq<u8>)
    requires
        0 <= at <= s.len(),
        s.skip(at) == first + rest,
    ensures
        at + first.len() <= s.len(),
        s.subrange(at, at + first.len()) == first,
        s.skip(at + first.len()) == rest,
{
    assert(s.skip(at).len() == first.len() + rest.len());
    assert(s.subrange(at, at + first.len()) =~= first) by {
        assert forall|i: int| 0 <= i < first.len() implies s[at + i] == first[i] by {
            assert(s.skip(at)[i] == s[i + at]);
            assert((first + rest)[i] == first[i]);
        }
    }
    assert(s.skip(at + first.len()) =~= rest) by {
        assert forall|i: int| 0 <= i < rest.len() implies s[at + first.len() + i] == rest[i] by {
            assert(s.skip(at)[first.len() + i] == s[first.len() + i + at]);
            assert((first + rest)[first.len() + i] == rest[i]);
        }
    }
}

/// A value that fits its tag reads back.
proof fn values_read_back(s: Seq<u8>, at: int, attr: (u64, ValueView), vendor: Vendor)
    requires
        0 <= at,
        at + value_bytes(attr.1).len() <= s.len(),
        s.subrange(at, at + value_bytes(attr.1).len()) == value_bytes(attr.1),
        fits(attr, vendor),
    ensures
        value_at(s, at, attr.0, vendor) == Ok::<(ValueView, int), &'static str>(
            (attr.1, at + value_bytes(attr.1).len()),
        ),
{
    match attr.1 {
        ValueView::Int(n) => {
            crate::leb::pushed_reads_back(s, at, n);
        },
        ValueView::Text(t) => {
            texts_end_at_their_nul(s, at, t);
        },
        ValueView::Pair(n, t) => {
            let first = crate::leb::uleb_bytes(n);
            let w = s.subrange(at, at + value_bytes(attr.1).len());
            assert(w.skip(0) =~= w);
            first_part(w, 0, first, t.push(0));
            assert(w.subrange(0, first.len() as int) =~= s.subrange(at, at + first.len()));
            assert(w.skip(first.len() as int) =~= s.subrange(
                at + first.len(),
                at + first.len() + t.len() + 1,
            ));
            crate::leb::pushed_reads_back(s, at, n);
            texts_end_at_their_nul(s, at + first.len(), t);
        },
    }
}

/// Attributes read back.
proof fn attributes_read_back(s: Seq<u8>, at: int, attrs: Seq<(u64, ValueView)>, vendor: Vendor)
    requires
        0 <= at <= s.len(),
        s.skip(at) == body_bytes(attrs),
        forall|i: int| 0 <= i < attrs.len() ==> fits(#[trigger] attrs[i], vendor),
    ensures
        attributes_from(s, at, vendor) == Ok::<Seq<(u64, ValueView)>, &'static str>(attrs),
    decreases attrs.len(),
{
    if attrs.len() == 0 {
        assert(s.skip(at).len() == 0);
        assert(attrs =~= Seq::empty());
    } else {
        let tag = crate::leb::uleb_bytes(attrs[0].0);
        let value = value_bytes(attrs[0].1);
        let rest = body_bytes(attrs.drop_first());
        assert(tag + value + rest =~= tag + (value + rest));
        first_part(s, at, tag, value + rest);
        crate::leb::pushed_reads_back(s, at, attrs[0].0);
        first_part(s, at + tag.len(), value, rest);
        values_read_back(s, at + tag.len(), attrs[0], vendor);
        let after = at + tag.len() + value.len();
        assert forall|i: int| 0 <= i < attrs.drop_first().len() implies fits(
            #[trigger] attrs.drop_first()[i],
            vendor,
        ) by {
            assert(fits(attrs[i + 1], vendor));
        }
        attributes_read_back(s, after, attrs.drop_first(), vendor);
        assert(seq![attrs[0]] + attrs.drop_first() =~= attrs);
    }
}

/// The attributes written into a section are those that are parsed from it.
pub proof fn sections_read_back(attrs: Seq<(u64, ValueView)>, vendor: Vendor)
    requires
        forall|i: int| 0 <= i < attrs.len() ==> fits(#[trigger] attrs[i], vendor),
        body_bytes(attrs).len() + 15 <= u32::MAX,
    ensures
        ({
            let body = body_bytes(attrs);
            spec_parse(
                section_bytes(vendor, (body.len() + 15) as u32, (body.len() + 5) as u32, body),
                vendor,
            ) == Ok::<Seq<(u64, ValueView)>, &'static str>(attrs)
        }),
{
    let body = body_bytes(attrs);
    let length = (body.len() + 15) as u32;
    let size = (body.len() + 5) as u32;
    let s = section_bytes(vendor, length, size, body);
    let name = vendor.name()@;
    assert(s.len() == 16 + body.len());
    bytes::u32_round_trip(s, 1, length);
    assert(bytes::stored(s, 1, bytes::spec_le32(length)) =~= s);
    let sub = s.subrange(5, 1 + length);
    let block = name + seq![0u8, TAG_FILE] + bytes::spec_le32(size) + body;
    assert(sub =~= block);
    assert(block.subrange(0, 5) =~= name);
    assert(block.subrange(0, 6) =~= name.push(0));
    assert(!name.contains(0));
    texts_end_at_their_nul(block, 0, name);
    bytes::u32_round_trip(block, 7, size);
    assert(bytes::stored(block, 7, bytes::spec_le32(size)) =~= block);
    assert(block[6] == TAG_FILE);
    assert(block.subrange(11, 6 + size) =~= body);
    assert(body.skip(0) =~= body);
    attributes_read_back(body, 0, attrs, vendor);
    assert(attrs + Seq::<(u64, ValueView)>::empty() =~= attrs);
    reveal_with_fuel(blocks_from, 2);
    reveal_with_fuel(subsections_from, 2);
}

/// What precedes the first zero byte is not zero.
proof fn texts_hold_no_nul(s: Seq<u8>, at: int)
    requires
        0 <= at,
    ensures
        match nul_at(s, at) {
            Some(nul) => at <= nul < s.len() && !s.subrange(at, nul).contains(0),
            None => true,
        },
    decreases s.len() - at,
{
    if at < s.len() {
        if s[at] == 0 {
            assert(s.subrange(at, at).len() == 0);
        } else {
            texts_hold_no_nul(s, at + 1);
            if let Some(nul) = nul_at(s, at) {
                if s.subrange(at, nul).contains(0) {
                    let k = s.subrange(at, nul).index_of(0);
                    assert(k > 0);
                    assert(s.subrange(at + 1, nul)[k - 1] == 0);
                }
            }
        }
    }
}

/// Whether everything that was read has the shape of its tag.
pub open spec fn all_fit(parsed: Parsed, vendor: Vendor) -> bool {
    match parsed {
        Ok(attrs) => forall|k: int| 0 <= k < attrs.len() ==> fits(#[trigger] attrs[k], vendor),
        Err(_) => true,
    }
}

/// The attributes of a block have the shapes of their tags.
proof fn attributes_fit(s: Seq<u8>, at: int, vendor: Vendor)
    requires
        0 <= at,
    ensures
        all_fit(attributes_from(s, at, vendor), vendor),
    decreases s.len() - at,
{
    if at < s.len() {
        if let Some(after) = crate::leb::uleb_end(s, at) {
            let tag = crate::leb::uleb_value(s, at, after);
            numbers_advance(s, at);
            values_advance(s, after, tag, vendor);
            texts_hold_no_nul(s, after);
            if let Some(mid) = crate::leb::uleb_end(s, after) {
                numbers_advance(s, after);
                texts_hold_no_nul(s, mid);
            }
            if let Ok((value, end)) = value_at(s, after, tag, vendor) {
                attributes_fit(s, end, vendor);
            }
        }
    }
}

/// The attributes of blocks have the shapes of their tags.
proof fn blocks_fit(s: Seq<u8>, at: int, vendor: Vendor)
    requires
        0 <= at,
    ensures
        all_fit(blocks_from(s, at, vendor), vendor),
    decreases s.len() - at,
{
    if at < s.len() {
        if let Some(size) = bytes::u32_at(s, at + 1) {
            if size >= 5 && at + size <= s.len() {
                attributes_fit(s.subrange(at + 5, at + size), 0, vendor);
                blocks_fit(s, at + size, vendor);
            }
        }
    }
}

/// The attributes of subsections have the shapes of their tags.
proof fn subsections_fit(s: Seq<u8>, at: int, vendor: Vendor)
    requires
        0 <= at,
    ensures
        all_fit(subsections_from(s, at, vendor), vendor),
    decreases s.len() - at,
{
    if at < s.len() {
        if let Some(length) = bytes::u32_at(s, at) {
            if length >= 4 && at + length <= s.len() {
                let part = s.subrange(at + 4, at + length);
                if let Some(nul) = nul_at(part, 0) {
                    texts_hold_no_nul(part, 0);
                    blocks_fit(part, nul + 1, vendor);
                }
                subsections_fit(s, at + length, vendor);
            }
        }
    }
}

/// Every attribute that is read has the shape of its tag: a number, a text
/// without a NUL, or both.
pub proof fn parsed_attributes_fit(s: Seq<u8>, vendor: Vendor)
    ensures
        all_fit(spec_parse(s, vendor), vendor),
{
    if s.len() > 0 {
        subsections_fit(s, 1, vendor);
    }
}

} // verus!
