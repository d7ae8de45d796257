//! `--defsym` expressions.
//!
//! What evaluates an expression is handed in; what it reads of the link
//! ([`Classify`] before layout, [`DefsymContext`] after it) and how the
//! results settle is here.

use vstd::prelude::*;

use super::{symbol_def, SymbolDef};
use crate::bytes::{copied, push_all, same};
use crate::elf::inputs::ElfInput;
use crate::elf::layout::Layout;
use crate::elf::refs::{Def, Refs, Target};
use crate::ids::SymbolId;
use crate::options::LinkOptions;
use crate::symbols::{DefinitionKind, Symbol, SymbolTable, ABSOLUTE};

verus! {

/// The script assignment that a `--defsym` stands for, as far as the link
/// reads it: GNU ld parses `name=expr` as a linker script assignment, so any
/// expression is allowed.
#[derive(Debug, PartialEq, Eq)]
pub struct Assignment {
    /// The symbols whose values it reads, in order.
    pub symbols: Vec<Vec<u8>>,
    /// The symbol whose type it copies.
    pub type_source: Option<Vec<u8>>,
}

/// Whether a name is among the first `n` of a list.
pub open spec fn is_listed(names: Seq<Vec<u8>>, name: Seq<u8>, n: int) -> bool {
    exists|i: int| 0 <= i < n && (#[trigger] names[i])@ == name
}

/// The names of `names` from `i` on but `name` and those that come before
/// them.
pub open spec fn references_from(names: Seq<Vec<u8>>, name: Seq<u8>, i: int) -> Seq<Seq<u8>>
    decreases names.len() - i,
{
    if i < 0 || i >= names.len() {
        Seq::empty()
    } else {
        let rest = references_from(names, name, i + 1);
        if names[i]@ == name || is_listed(names, names[i]@, i) {
            rest
        } else {
            seq![names[i]@] + rest
        }
    }
}

/// What names hold.
pub open spec fn names_view(names: Seq<Vec<u8>>) -> Seq<Seq<u8>> {
    Seq::new(names.len(), |i: int| names[i]@)
}

/// What `parse` makes of the `--defsym` expression of a number.
pub fn defsym_expr<T, P: Fn(&[u8]) -> Option<T>>(
    options: &LinkOptions,
    index: usize,
    parse: &P,
) -> (r: Option<T>)
    requires
        forall|text: &[u8]| #[trigger] parse.requires((text,)),
    ensures
        index >= options.defsym@.len() ==> r is None,
        index < options.defsym@.len() ==> exists|text: &[u8]|
            text@ == options.defsym@[index as int].1@ && #[trigger] parse.ensures((text,), r),
{
    if index < options.defsym.len() {
        let text: &[u8] = options.defsym[index].1.as_slice();
        let parsed: Option<T> = parse(text);
        assert(parse.ensures((text,), parsed));
        return parsed;
    }
    None
}

/// What `parse` makes of the script assignment `--defsym name=expr` stands
/// for: GNU ld parses it as a linker script assignment, so any expression is
/// allowed.
pub fn defsym_assignment<A, E, P: Fn(&[u8]) -> Result<A, E>>(
    name: &[u8],
    expr: &[u8],
    parse: &P,
) -> (r: Result<A, E>)
    requires
        forall|text: &[u8]| #[trigger] parse.requires((text,)),
    ensures
        exists|text: &[u8]|
            text@ == name@ + seq![0x3du8] + expr@ && #[trigger] parse.ensures((text,), r),
{
    let mut assignment: Vec<u8> = copied(name);
    assignment.push(0x3d);
    push_all(&mut assignment, expr);
    let text: &[u8] = assignment.as_slice();
    assert(text@ =~= name@ + seq![0x3du8] + expr@);
    let parsed: Result<A, E> = parse(text);
    assert(parse.ensures((text,), parsed));
    parsed
}

/// The symbols whose values a `--defsym` expression reads: the linker's
/// references (archive members that define them are loaded, and garbage
/// collection keeps their sections). Malformed expressions read nothing;
/// they are reported before the link starts.
pub fn defsym_references(name: &[u8], assignment: Option<&Assignment>) -> (r: Vec<Vec<u8>>)
    ensures
        names_view(r@) == match assignment {
            Some(a) => references_from(a.symbols@, name@, 0),
            None => Seq::empty(),
        },
{
    let mut out: Vec<Vec<u8>> = Vec::new();
    let Some(assignment) = assignment else {
        assert(names_view(out@) =~= Seq::empty());
        return out;
    };
    let names: &Vec<Vec<u8>> = &assignment.symbols;
    let ghost whole = references_from(names@, name@, 0);
    assert(whole =~= names_view(out@) + whole);
    let mut i: usize = 0;
    while i < names.len()
        invariant
            i <= names@.len(),
            whole == names_view(out@) + references_from(names@, name@, i as int),
        decreases names@.len() - i,
    {
        let ghost before = names_view(out@);
        let ghost rest = references_from(names@, name@, i + 1);
        if !same(&names[i], name) && !comes_before(names, i) {
            let one: Vec<u8> = copied(&names[i]);
            out.push(one);
            assert(names_view(out@) =~= before.push(names@[i as int]@));
            assert(before + (seq![names@[i as int]@] + rest) =~= names_view(out@) + rest);
        }
        i += 1;
    }
    assert(whole =~= names_view(out@));
    out
}

/// Whether name `n` of a list comes before its place too.
fn comes_before(names: &Vec<Vec<u8>>, n: usize) -> (r: bool)
    requires
        n < names@.len(),
    ensures
        r == is_listed(names@, names@[n as int]@, n as int),
{
    let mut i: usize = 0;
    while i < n
        invariant
            i <= n < names@.len(),
            forall|k: int| 0 <= k < i ==> (#[trigger] names@[k])@ != names@[n as int]@,
        decreases n - i,
    {
        if same(&names[i], &names[n]) {
            assert(names@[i as int]@ == names@[n as int]@);
            return true;
        }
        i += 1;
    }
    false
}

/// A section handle for evaluation: an output section by position in the
/// layout, or "the image" for linker-defined addresses whose section the
/// symbol table works out from the address.
#[derive(Clone, Copy, Debug, PartialEq, Eq, Structural)]
pub enum DefsymSection {
    /// The output section at this position.
    Output(u32),
    /// The image.
    Image,
}

/// The value of an expression.
#[derive(Clone, Copy, Debug, PartialEq, Eq, Structural)]
pub struct ExprValue {
    /// The section it is relative to; nothing when it is absolute.
    pub section: Option<DefsymSection>,
    /// The number.
    pub value: u64,
}

impl ExprValue {
    /// An absolute value.
    #[verifier::allow_in_spec]
    pub fn absolute(value: u64) -> ExprValue
        returns
            (ExprValue { section: None, value }),
    {
        ExprValue { section: None, value }
    }

    /// A value relative to a section.
    #[verifier::allow_in_spec]
    pub fn relative(section: DefsymSection, value: u64) -> ExprValue
        returns
            (ExprValue { section: Some(section), value }),
    {
        ExprValue { section: Some(section), value }
    }
}

/// What an expression reads before layout: values are irrelevant here, only
/// the sections results end up in.
#[derive(Clone, Copy, Debug)]
pub struct Classify<'c> {
    /// The symbols.
    pub symbols: &'c SymbolTable,
    /// The input files.
    pub files: &'c [ElfInput],
}

/// Whether a link defines a symbol.
pub open spec fn defines(symbols: Seq<Symbol>, name: Seq<u8>) -> bool {
    match crate::symbols::found_in(symbols, name, 0) {
        Some(id) => {
            let kind = crate::symbols::definition_in(symbols, id).kind;
            kind == DefinitionKind::Regular || kind == DefinitionKind::Weak || kind
                == DefinitionKind::Common
        },
        None => false,
    }
}

/// Whether a link defines a symbol.
fn is_defined_in(symbols: &SymbolTable, name: &[u8]) -> (r: bool)
    ensures
        r == defines(symbols.symbols@, name@),
{
    match symbols.lookup(name) {
        Some(id) => {
            let kind: DefinitionKind = symbols.definition_kind(id);
            kind == DefinitionKind::Regular || kind == DefinitionKind::Weak || kind
                == DefinitionKind::Common
        },
        None => false,
    }
}

impl Classify<'_> {
    /// What a symbol stands for.
    pub open spec fn spec_symbol(&self, name: Seq<u8>) -> ExprValue {
        match self.symbols.found(name, 0) {
            None => ExprValue::absolute(0),
            Some(id) => match super::def_of(self.symbols.symbols@, self.files@, id) {
                SymbolDef::Absolute(_) => ExprValue::absolute(0),
                SymbolDef::Undefined => ExprValue::absolute(0),
                SymbolDef::Linker => if self.symbols.flags_of(id).contains(ABSOLUTE) {
                    ExprValue::absolute(0)
                } else {
                    ExprValue::relative(DefsymSection::Image, 0)
                },
                _ => ExprValue::relative(DefsymSection::Image, 0),
            },
        }
    }

    /// What a symbol stands for.
    pub fn symbol(&self, name: &[u8]) -> (r: ExprValue)
        ensures
            r == self.spec_symbol(name@),
    {
        let Some(id) = self.symbols.lookup(name) else {
            return ExprValue::absolute(0);
        };
        match symbol_def(self.symbols, self.files, id) {
            SymbolDef::Absolute(_) => ExprValue::absolute(0),
            SymbolDef::Undefined => ExprValue::absolute(0),
            SymbolDef::Linker => if self.symbols.flags(id).contains(ABSOLUTE) {
                ExprValue::absolute(0)
            } else {
                ExprValue::relative(DefsymSection::Image, 0)
            },
            _ => ExprValue::relative(DefsymSection::Image, 0),
        }
    }

    /// Whether a symbol is defined.
    pub fn is_defined(&self, name: &[u8]) -> (r: bool)
        ensures
            r == defines(self.symbols.symbols@, name@),
    {
        is_defined_in(self.symbols, name)
    }
}

/// What an expression reads after layout.
#[derive(Clone, Copy, Debug)]
pub struct DefsymContext<'c> {
    /// What symbols and sections stand for.
    pub refs: &'c Refs,
    /// Where everything is.
    pub layout: &'c Layout,
    /// `-z max-page-size`.
    pub max_page: Option<u64>,
    /// `-z common-page-size`.
    pub common_page: Option<u64>,
    /// The address of each global symbol.
    pub globals: &'c Vec<u64>,
    /// Results so far (this pass, else the previous one).
    pub values: &'c Vec<(SymbolId, ExprValue)>,
}

/// The result for a symbol, from `i` on.
pub open spec fn result_from(values: Seq<(SymbolId, ExprValue)>, id: SymbolId, i: int) -> Option<
    ExprValue,
>
    decreases values.len() - i,
{
    if i < 0 || i >= values.len() {
        None
    } else if values[i].0 == id {
        Some(values[i].1)
    } else {
        result_from(values, id, i + 1)
    }
}

/// The result for a symbol.
fn find_result(values: &Vec<(SymbolId, ExprValue)>, id: SymbolId) -> (r: Option<ExprValue>)
    ensures
        r == result_from(values@, id, 0),
{
    let mut i: usize = 0;
    while i < values.len()
        invariant
            result_from(values@, id, 0) == result_from(values@, id, i as int),
        decreases values@.len() - i,
    {
        if values[i].0 == id {
            return Some(values[i].1);
        }
        i += 1;
    }
    None
}

/// The position of the first output section from `i` on that is named
/// `name`.
pub open spec fn position_from(layout: Layout, name: Seq<u8>, i: int) -> Option<u32>
    decreases layout.sections@.len() - i,
{
    if i < 0 || i >= layout.sections@.len() || i > u32::MAX {
        None
    } else if layout.sections@[i].name@ == name {
        Some(i as u32)
    } else {
        position_from(layout, name, i + 1)
    }
}

/// A section's address in a layout.
pub open spec fn vma_of(layout: Layout, section: DefsymSection) -> u64 {
    match section {
        DefsymSection::Output(position) => if position < layout.sections@.len() {
            layout.sections@[position as int].addr
        } else {
            0
        },
        DefsymSection::Image => 0,
    }
}

/// A section's address in a layout.
fn find_vma(layout: &Layout, section: DefsymSection) -> (r: u64)
    ensures
        r == vma_of(*layout, section),
{
    match section {
        DefsymSection::Output(position) => {
            let len: usize = layout.sections.len();
            if (position as u64) < len as u64 {
                layout.sections[position as usize].addr
            } else {
                0
            }
        },
        DefsymSection::Image => 0,
    }
}

impl DefsymContext<'_> {
    /// The position of the output section named `name`.
    fn position_named(&self, name: &[u8]) -> (r: Option<u32>)
        ensures
            r == position_from(*self.layout, name@, 0),
            match r {
                Some(p) => p < self.layout.sections@.len(),
                None => true,
            },
    {
        let mut i: usize = 0;
        while i < self.layout.sections.len() && i <= u32::MAX as usize
            invariant
                i <= self.layout.sections@.len(),
                position_from(*self.layout, name@, 0) == position_from(
                    *self.layout,
                    name@,
                    i as int,
                ),
            decreases self.layout.sections@.len() - i,
        {
            if same(&self.layout.sections[i].name, name) {
                return Some(i as u32);
            }
            i += 1;
        }
        None
    }

    /// The address of a section.
    pub fn section_vma(&self, section: DefsymSection) -> (r: u64)
        ensures
            r == vma_of(*self.layout, section),
    {
        find_vma(self.layout, section)
    }

    /// The position of the output section that a section of an object is
    /// in.
    pub open spec fn spec_position(&self, file: usize, section: u32) -> Option<u32> {
        match self.refs.sections.spec_id(file as int, section as int) {
            None => None,
            Some(id) => match self.refs.sections.spec_resolve(id) {
                None => None,
                Some(kept) => match self.layout.position_of(kept) {
                    Some(p) => if p < self.layout.sections@.len() {
                        Some(p)
                    } else {
                        None
                    },
                    None => None,
                },
            },
        }
    }

    /// The position of the output section that a section of an object is
    /// in.
    fn position(&self, file: usize, section: u32) -> (r: Option<u32>)
        ensures
            r == self.spec_position(file, section),
    {
        let Some(id) = self.refs.sections.id(file, section) else {
            return None;
        };
        let Some(kept) = self.refs.sections.resolve(id) else {
            return None;
        };
        let Some(p) = self.layout.find_position(kept) else {
            return None;
        };
        let len: usize = self.layout.sections.len();
        if (p as u64) < len as u64 {
            Some(p)
        } else {
            None
        }
    }

    /// What a symbol stands for; nothing when there is no such symbol.
    pub open spec fn spec_symbol(&self, name: Seq<u8>) -> Option<ExprValue> {
        match self.refs.symbols.found(name, 0) {
            None => None,
            Some(id) => Some(
                match result_from(self.values@, id, 0) {
                    Some(value) => value,
                    None => {
                        let address = if id.position < self.globals@.len() {
                            self.globals@[id.position as int]
                        } else {
                            0
                        };
                        match self.refs.spec_global_target(id).def {
                            Def::Section { file, section, .. } => match self.spec_position(
                                file,
                                section,
                            ) {
                                Some(p) => ExprValue::relative(
                                    DefsymSection::Output(p),
                                    address.wrapping_sub(
                                        vma_of(*self.layout, DefsymSection::Output(p)),
                                    ),
                                ),
                                None => ExprValue::absolute(address),
                            },
                            Def::Absolute(value) => ExprValue::absolute(value),
                            Def::Linker(_) => if self.refs.symbols.flags_of(id).contains(ABSOLUTE) {
                                ExprValue::absolute(address)
                            } else {
                                ExprValue::relative(DefsymSection::Image, address)
                            },
                            Def::Common(_) => ExprValue::relative(DefsymSection::Image, address),
                            Def::Shared(_) => ExprValue::relative(DefsymSection::Image, address),
                            // Undefined symbols are reported as undefined
                            // references.
                            Def::Undefined { .. } => ExprValue::absolute(0),
                        }
                    },
                },
            ),
        }
    }

    /// What a symbol stands for; nothing when there is no such symbol.
    pub fn symbol(&self, name: &[u8]) -> (r: Option<ExprValue>)
        ensures
            r == self.spec_symbol(name@),
    {
        let Some(id) = self.refs.symbols.lookup(name) else {
            return None;
        };
        if let Some(value) = find_result(self.values, id) {
            return Some(value);
        }
        let address: u64 = if id.position < self.globals.len() {
            self.globals[id.position]
        } else {
            0
        };
        let target: Target = self.refs.global_target(id);
        Some(
            match target.def {
                Def::Section { file, section, .. } => match self.position(file, section) {
                    Some(p) => ExprValue::relative(
                        DefsymSection::Output(p),
                        address.wrapping_sub(self.section_vma(DefsymSection::Output(p))),
                    ),
                    None => ExprValue::absolute(address),
                },
                Def::Absolute(value) => ExprValue::absolute(value),
                Def::Linker(_) => if self.refs.symbols.flags(id).contains(ABSOLUTE) {
                    ExprValue::absolute(address)
                } else {
                    ExprValue::relative(DefsymSection::Image, address)
                },
                Def::Common(_) => ExprValue::relative(DefsymSection::Image, address),
                Def::Shared(_) => ExprValue::relative(DefsymSection::Image, address),
                Def::Undefined { .. } => ExprValue::absolute(0),
            },
        )
    }

    /// Whether a symbol is defined.
    pub fn is_defined(&self, name: &[u8]) -> (r: bool)
        ensures
            r == defines(self.refs.symbols.symbols@, name@),
    {
        is_defined_in(&self.refs.symbols, name)
    }

    /// `ADDR`; nothing when there is no such section.
    pub fn section_addr(&self, name: &[u8]) -> (r: Option<ExprValue>)
        ensures
            r == (match position_from(*self.layout, name@, 0) {
                Some(p) => Some(ExprValue::relative(DefsymSection::Output(p), 0)),
                None => None,
            }),
    {
        match self.position_named(name) {
            Some(p) => Some(ExprValue::relative(DefsymSection::Output(p), 0)),
            None => None,
        }
    }

    /// `LOADADDR`; nothing when there is no such section.
    pub fn section_load_addr(&self, name: &[u8]) -> (r: Option<u64>)
        ensures
            r == (match position_from(*self.layout, name@, 0) {
                Some(p) => Some(self.layout.sections@[p as int].lma),
                None => None,
            }),
    {
        match self.position_named(name) {
            Some(p) => Some(self.layout.sections[p as usize].lma),
            None => None,
        }
    }

    /// `SIZEOF`. GNU ld gives 0 for sections that do not exist.
    pub fn section_size(&self, name: &[u8]) -> (r: u64)
        ensures
            r == (match position_from(*self.layout, name@, 0) {
                Some(p) => self.layout.sections@[p as int].size,
                None => 0,
            }),
    {
        match self.position_named(name) {
            Some(p) => self.layout.sections[p as usize].size,
            None => 0,
        }
    }

    /// `ALIGNOF`; nothing when there is no such section.
    pub fn section_alignment(&self, name: &[u8]) -> (r: Option<u64>)
        ensures
            r == (match position_from(*self.layout, name@, 0) {
                Some(p) => Some(self.layout.sections@[p as int].align),
                None => None,
            }),
    {
        match self.position_named(name) {
            Some(p) => Some(self.layout.sections[p as usize].align),
            None => None,
        }
    }

    /// `CONSTANT(MAXPAGESIZE)`.
    pub fn max_page_size(&self) -> (r: u64)
        ensures
            r == (match self.max_page {
                Some(size) => size,
                None => 0x1000,
            }),
    {
        match self.max_page {
            Some(size) => size,
            None => 0x1000,
        }
    }

    /// `CONSTANT(COMMONPAGESIZE)`.
    pub fn common_page_size(&self) -> (r: u64)
        ensures
            r == (match self.common_page {
                Some(size) => size,
                None => 0x1000,
            }),
    {
        match self.common_page {
            Some(size) => size,
            None => 0x1000,
        }
    }
}

/// The results of `old` from `i` on for symbols that `new` has none for.
pub open spec fn others_from(
    new: Seq<(SymbolId, ExprValue)>,
    old_values: Seq<(SymbolId, ExprValue)>,
    i: int,
) -> Seq<(SymbolId, ExprValue)>
    decreases old_values.len() - i,
{
    if i < 0 || i >= old_values.len() {
        Seq::empty()
    } else {
        let rest = others_from(new, old_values, i + 1);
        if result_from(new, old_values[i].0, 0) is Some {
            rest
        } else {
            seq![old_values[i]] + rest
        }
    }
}

/// This pass's results first, then the previous pass's.
pub open spec fn seen_of(
    new: Seq<(SymbolId, ExprValue)>,
    old_values: Seq<(SymbolId, ExprValue)>,
) -> Seq<(SymbolId, ExprValue)> {
    new + others_from(new, old_values, 0)
}

/// This pass's results first, then the previous pass's.
fn seen(new: &Vec<(SymbolId, ExprValue)>, old_values: &Vec<(SymbolId, ExprValue)>) -> (r: Vec<
    (SymbolId, ExprValue),
>)
    ensures
        r@ == seen_of(new@, old_values@),
{
    let mut out: Vec<(SymbolId, ExprValue)> = Vec::new();
    let mut i: usize = 0;
    while i < new.len()
        invariant
            i <= new@.len(),
            out@ == new@.take(i as int),
        decreases new@.len() - i,
    {
        out.push(new[i]);
        i += 1;
        assert(out@ =~= new@.take(i as int));
    }
    assert(out@ =~= new@);
    let ghost whole = seen_of(new@, old_values@);
    let mut k: usize = 0;
    while k < old_values.len()
        invariant
            k <= old_values@.len(),
            whole == out@ + others_from(new@, old_values@, k as int),
        decreases old_values@.len() - k,
    {
        let ghost before = out@;
        let ghost rest = others_from(new@, old_values@, k + 1);
        let entry: (SymbolId, ExprValue) = old_values[k];
        if find_result(new, entry.0).is_none() {
            out.push(entry);
            assert(before + (seq![entry] + rest) =~= out@ + rest);
        }
        k += 1;
    }
    assert(whole =~= out@);
    out
}

/// Results from `i` on but those for `id`.
pub open spec fn without_from(values: Seq<(SymbolId, ExprValue)>, id: SymbolId, i: int) -> Seq<
    (SymbolId, ExprValue),
>
    decreases values.len() - i,
{
    if i < 0 || i >= values.len() {
        Seq::empty()
    } else if values[i].0 == id {
        without_from(values, id, i + 1)
    } else {
        seq![values[i]] + without_from(values, id, i + 1)
    }
}

/// Results with another one, in place of those for the same symbol.
fn replaced(values: &Vec<(SymbolId, ExprValue)>, id: SymbolId, value: ExprValue) -> (r: Vec<
    (SymbolId, ExprValue),
>)
    ensures
        r@ == without_from(values@, id, 0).push((id, value)),
{
    let mut out: Vec<(SymbolId, ExprValue)> = Vec::new();
    let ghost whole = without_from(values@, id, 0);
    assert(whole =~= out@ + whole);
    let mut i: usize = 0;
    while i < values.len()
        invariant
            i <= values@.len(),
            whole == out@ + without_from(values@, id, i as int),
        decreases values@.len() - i,
    {
        let ghost before = out@;
        let entry: (SymbolId, ExprValue) = values[i];
        if entry.0 != id {
            out.push(entry);
            proof {
                let rest = without_from(values@, id, i + 1);
                assert(before + (seq![entry] + rest) =~= out@ + rest);
            }
        }
        i += 1;
    }
    assert(whole =~= out@);
    out.push((id, value));
    out
}

/// Whether option `index` is an expression.
pub open spec fn is_good(well_formed: Seq<bool>, index: usize) -> bool {
    index < well_formed.len() && well_formed[index as int]
}

/// What every evaluation of a link reads.
pub struct World {
    /// What symbols and sections stand for.
    pub refs: Refs,
    /// Where everything is.
    pub layout: Layout,
    /// `-z max-page-size`.
    pub max_page: Option<u64>,
    /// `-z common-page-size`.
    pub common_page: Option<u64>,
    /// The address of each global symbol.
    pub globals: Seq<u64>,
}

impl World {
    /// Whether an evaluation reads this link, with these results.
    pub open spec fn is_context(
        self,
        context: DefsymContext,
        values: Seq<(SymbolId, ExprValue)>,
    ) -> bool {
        &&& *context.refs == self.refs
        &&& *context.layout == self.layout
        &&& context.max_page == self.max_page
        &&& context.common_page == self.common_page
        &&& context.globals@ == self.globals
        &&& context.values@ == values
    }

    /// Whether `value` is a result of expression `index`, given other
    /// results: 0 where it is malformed or cannot be evaluated.
    pub open spec fn is_result<E: Fn(usize, &DefsymContext) -> Option<ExprValue>>(
        self,
        eval: E,
        well_formed: bool,
        index: usize,
        values: Seq<(SymbolId, ExprValue)>,
        value: ExprValue,
    ) -> bool {
        if well_formed {
            exists|context: DefsymContext, r: Option<ExprValue>| #[trigger]
                eval.ensures((index, &context), r) && self.is_context(context, values) && value
                    == (match r {
                    Some(v) => v,
                    None => ExprValue::absolute(0),
                })
        } else {
            value == ExprValue::absolute(0)
        }
    }

    /// Whether `next` holds results of the first `n` assignments in a pass
    /// after one that gave `values`.
    pub open spec fn is_pass<E: Fn(usize, &DefsymContext) -> Option<ExprValue>>(
        self,
        eval: E,
        defsyms: Seq<(SymbolId, usize)>,
        well_formed: Seq<bool>,
        values: Seq<(SymbolId, ExprValue)>,
        n: int,
        next: Seq<(SymbolId, ExprValue)>,
    ) -> bool
        decreases n,
    {
        if n <= 0 {
            next.len() == 0
        } else {
            exists|middle: Seq<(SymbolId, ExprValue)>, value: ExprValue|
                self.is_pass(eval, defsyms, well_formed, values, n - 1, middle)
                    && #[trigger] self.is_result(
                    eval,
                    is_good(well_formed, defsyms[n - 1].1),
                    defsyms[n - 1].1,
                    seen_of(middle, values),
                    value,
                ) && next == without_from(middle, defsyms[n - 1].0, 0).push(
                    (defsyms[n - 1].0, value),
                )
        }
    }

    /// Whether `values` holds results after `passes` passes, none of which
    /// repeats the one before.
    pub open spec fn is_run<E: Fn(usize, &DefsymContext) -> Option<ExprValue>>(
        self,
        eval: E,
        defsyms: Seq<(SymbolId, usize)>,
        well_formed: Seq<bool>,
        passes: int,
        values: Seq<(SymbolId, ExprValue)>,
    ) -> bool
        decreases passes,
    {
        if passes <= 0 {
            values.len() == 0
        } else {
            exists|before: Seq<(SymbolId, ExprValue)>|
                self.is_run(eval, defsyms, well_formed, passes - 1, before)
                    && #[trigger] self.is_pass(
                    eval,
                    defsyms,
                    well_formed,
                    before,
                    defsyms.len() as int,
                    values,
                ) && values != before
        }
    }

    /// Whether `values` holds the results that stand: those of the first
    /// pass that repeats the one before, or of the last pass where none does
    /// earlier.
    pub open spec fn is_settled<E: Fn(usize, &DefsymContext) -> Option<ExprValue>>(
        self,
        eval: E,
        defsyms: Seq<(SymbolId, usize)>,
        well_formed: Seq<bool>,
        values: Seq<(SymbolId, ExprValue)>,
    ) -> bool {
        exists|done: int, before: Seq<(SymbolId, ExprValue)>|
            0 <= done < pass_limit(defsyms.len() as int) && #[trigger] self.is_run(
                eval,
                defsyms,
                well_formed,
                done,
                before,
            ) && self.is_pass(
                eval,
                defsyms,
                well_formed,
                before,
                defsyms.len() as int,
                values,
            ) && (values == before || done + 1 == pass_limit(defsyms.len() as int))
    }
}

/// How many passes there are at most.
pub open spec fn pass_limit(n: int) -> int {
    if n < 8 {
        n + 1
    } else {
        9
    }
}

/// Whether two lists of results are the same.
fn same_results(a: &Vec<(SymbolId, ExprValue)>, b: &Vec<(SymbolId, ExprValue)>) -> (r: bool)
    ensures
        r == (a@ == b@),
{
    if a.len() != b.len() {
        return false;
    }
    let mut i: usize = 0;
    while i < a.len()
        invariant
            i <= a@.len(),
            a@.len() == b@.len(),
            forall|k: int| 0 <= k < i ==> a@[k] == b@[k],
        decreases a@.len() - i,
    {
        if a[i].0 != b[i].0 || a[i].1 != b[i].1 {
            assert(a@[i as int] != b@[i as int]);
            return false;
        }
        i += 1;
    }
    assert(a@ =~= b@);
    true
}

/// The results of one pass.
fn pass<E: Fn(usize, &DefsymContext) -> Option<ExprValue>>(
    refs: &Refs,
    layout: &Layout,
    max_page: Option<u64>,
    common_page: Option<u64>,
    globals: &Vec<u64>,
    defsyms: &[(SymbolId, usize)],
    well_formed: &[bool],
    eval: &E,
    values: &Vec<(SymbolId, ExprValue)>,
) -> (r: Vec<(SymbolId, ExprValue)>)
    requires
        forall|i: usize, c: DefsymContext| #[trigger] eval.requires((i, &c)),
    ensures
        (World {
            refs: *refs,
            layout: *layout,
            max_page,
            common_page,
            globals: globals@,
        }).is_pass(*eval, defsyms@, well_formed@, values@, defsyms@.len() as int, r@),
{
    let ghost world = World {
        refs: *refs,
        layout: *layout,
        max_page,
        common_page,
        globals: globals@,
    };
    let mut next: Vec<(SymbolId, ExprValue)> = Vec::new();
    let mut n: usize = 0;
    while n < defsyms.len()
        invariant
            n <= defsyms@.len(),
            forall|i: usize, c: DefsymContext| #[trigger] eval.requires((i, &c)),
            world == (World {
                refs: *refs,
                layout: *layout,
                max_page,
                common_page,
                globals: globals@,
            }),
            world.is_pass(*eval, defsyms@, well_formed@, values@, n as int, next@),
        decreases defsyms@.len() - n,
    {
        let (id, index) = defsyms[n];
        let known: Vec<(SymbolId, ExprValue)> = seen(&next, values);
        let good: bool = index < well_formed.len() && well_formed[index];
        let value: ExprValue = if good {
            let context: DefsymContext = DefsymContext {
                refs,
                layout,
                max_page,
                common_page,
                globals,
                values: &known,
            };
            let result: Option<ExprValue> = eval(index, &context);
            assert(eval.ensures((index, &context), result) && world.is_context(context, known@));
            match result {
                Some(value) => value,
                None => ExprValue::absolute(0),
            }
        } else {
            ExprValue::absolute(0)
        };
        let ghost middle = next@;
        next = replaced(&next, id, value);
        n += 1;
        proof {
            assert(defsyms@[n - 1] == (id, index));
            assert(world.is_pass(*eval, defsyms@, well_formed@, values@, n - 1, middle));
            assert(world.is_result(
                *eval,
                is_good(well_formed@, defsyms@[n - 1].1),
                defsyms@[n - 1].1,
                seen_of(middle, values@),
                value,
            ));
        }
    }
    next
}

/// The address a value stands for.
pub open spec fn resolved(layout: Layout, value: ExprValue) -> u64 {
    match value.section {
        Some(section) => vma_of(layout, section).wrapping_add(value.value),
        None => value.value,
    }
}

/// Symbols and addresses with results from `i` on stored: absolute ones get
/// the flag, others lose it.
pub open spec fn stored_from(
    layout: Layout,
    values: Seq<(SymbolId, ExprValue)>,
    symbols: Seq<Symbol>,
    globals: Seq<u64>,
    i: int,
) -> (Seq<Symbol>, Seq<u64>)
    decreases values.len() - i,
{
    if i < 0 || i >= values.len() {
        (symbols, globals)
    } else {
        let (id, value) = values[i];
        stored_from(
            layout,
            values,
            if value.section is None {
                crate::symbols::with_flags(symbols, id, ABSOLUTE)
            } else {
                crate::symbols::without_flags(symbols, id, ABSOLUTE)
            },
            if id.position < globals.len() {
                globals.update(id.position as int, resolved(layout, value))
            } else {
                globals
            },
            i + 1,
        )
    }
}

/// Stores results: the addresses, and which symbols are absolute.
pub fn store_results(
    symbols: &mut SymbolTable,
    globals: &mut Vec<u64>,
    layout: &Layout,
    values: &Vec<(SymbolId, ExprValue)>,
)
    ensures
        (final(symbols).symbols@, final(globals)@) == stored_from(
            *layout,
            values@,
            old(symbols).symbols@,
            old(globals)@,
            0,
        ),
{
    let mut i: usize = 0;
    while i < values.len()
        invariant
            i <= values@.len(),
            stored_from(*layout, values@, old(symbols).symbols@, old(globals)@, 0) == stored_from(
                *layout,
                values@,
                symbols.symbols@,
                globals@,
                i as int,
            ),
        decreases values@.len() - i,
    {
        let (id, value) = values[i];
        let address: u64 = match value.section {
            Some(section) => find_vma(layout, section).wrapping_add(value.value),
            None => value.value,
        };
        if value.section.is_none() {
            symbols.set_flags(id, ABSOLUTE);
        } else {
            symbols.clear_flags(id, ABSOLUTE);
        }
        if id.position < globals.len() {
            globals.set(id.position, address);
        }
        i += 1;
    }
}

/// Evaluates the `--defsym` expressions of `defsyms` (symbol, index in the
/// options) after layout, into `globals`, as GNU ld evaluates them: in
/// command-line order before the default script's `SECTIONS`, with `.` at
/// 0, repeated so that forward references to later `--defsym`s settle.
/// Symbols whose value is absolute (every expression but a lone symbol,
/// `.` or `ADDR`) get [`ABSOLUTE`]. `well_formed` tells which of the options
/// are expressions at all; `eval` evaluates one.
pub fn evaluate_defsyms<E: Fn(usize, &DefsymContext) -> Option<ExprValue>>(
    globals: &mut Vec<u64>,
    refs: &mut Refs,
    layout: &Layout,
    max_page: Option<u64>,
    common_page: Option<u64>,
    defsyms: &[(SymbolId, usize)],
    well_formed: &[bool],
    eval: &E,
)
    requires
        forall|i: usize, c: DefsymContext| #[trigger] eval.requires((i, &c)),
    ensures
        exists|values: Seq<(SymbolId, ExprValue)>| #[trigger]
            (World {
                refs: *old(refs),
                layout: *layout,
                max_page,
                common_page,
                globals: old(globals)@,
            }).is_settled(*eval, defsyms@, well_formed@, values) && (
            final(refs).symbols.symbols@,
            final(globals)@,
        ) == stored_from(*layout, values, old(refs).symbols.symbols@, old(globals)@, 0),
        final(refs).files == old(refs).files,
        final(refs).sections == old(refs).sections,
        final(refs).resolution == old(refs).resolution,
        final(refs).targets == old(refs).targets,
        final(refs).globals == old(refs).globals,
{
    let ghost world = World {
        refs: *refs,
        layout: *layout,
        max_page,
        common_page,
        globals: globals@,
    };
    let limit: usize = if defsyms.len() < 8 {
        defsyms.len() + 1
    } else {
        9
    };
    let mut values: Vec<(SymbolId, ExprValue)> = Vec::new();
    let mut passes: usize = 0;
    let mut settled: bool = false;
    while passes < limit && !settled
        invariant
            0 < limit,
            passes <= limit,
            limit == pass_limit(defsyms@.len() as int),
            forall|i: usize, c: DefsymContext| #[trigger] eval.requires((i, &c)),
            *refs == *old(refs),
            globals@ == old(globals)@,
            world == (World {
                refs: *refs,
                layout: *layout,
                max_page,
                common_page,
                globals: globals@,
            }),
            !settled ==> world.is_run(*eval, defsyms@, well_formed@, passes as int, values@),
            settled || passes == limit ==> world.is_settled(
                *eval,
                defsyms@,
                well_formed@,
                values@,
            ),
        decreases limit - passes,
    {
        let next: Vec<(SymbolId, ExprValue)> = pass(
            refs,
            layout,
            max_page,
            common_page,
            globals,
            defsyms,
            well_formed,
            eval,
            &values,
        );
        settled = same_results(&next, &values);
        proof {
            assert(world.is_pass(
                *eval,
                defsyms@,
                well_formed@,
                values@,
                defsyms@.len() as int,
                next@,
            ));
        }
        let ghost before = values@;
        values = next;
        passes += 1;
        proof {
            assert(world.is_run(*eval, defsyms@, well_formed@, passes - 1, before));
        }
    }
    store_results(&mut refs.symbols, globals, layout, &values);
}

/// A symbol in an expression stands for its address: relative to the output
/// section that holds it where there is one, else to the image; one that is
/// absolute stands for its value and no section, and one that nothing defines
/// for 0.
pub proof fn symbols_stand_for_their_address(context: DefsymContext, name: Seq<u8>, id: SymbolId)
    requires
        context.refs.symbols.found(name, 0) == Some(id),
        result_from(context.values@, id, 0) is None,
        id.position < context.globals@.len(),
    ensures
        ({
            let address = context.globals@[id.position as int];
            &&& context.spec_symbol(name) matches Some(value)
            &&& match context.refs.spec_global_target(id).def {
                Def::Section { file, section, .. } => resolved(*context.layout, value) == address
                    && value.section == (match context.spec_position(file, section) {
                    Some(p) => Some(DefsymSection::Output(p)),
                    None => None,
                }),
                Def::Common(_) => resolved(*context.layout, value) == address && value.section
                    == Some(DefsymSection::Image),
                Def::Shared(_) => resolved(*context.layout, value) == address && value.section
                    == Some(DefsymSection::Image),
                Def::Linker(_) => resolved(*context.layout, value) == address && (
                value.section is None <==> context.refs.symbols.flags_of(id).contains(0x80_0000)),
                Def::Absolute(v) => value.section is None && value.value == v,
                Def::Undefined { .. } => value.section is None && value.value == 0,
            }
        }),
{
}

/// What an assignment gave a symbol is what later expressions read; the
/// latest pass goes before the one before it.
pub proof fn later_results_go_first(
    new: Seq<(SymbolId, ExprValue)>,
    before: Seq<(SymbolId, ExprValue)>,
    id: SymbolId,
)
    ensures
        result_from(seen_of(new, before), id, 0) == (match result_from(new, id, 0) {
            Some(value) => Some(value),
            None => result_from(before, id, 0),
        }),
{
    results_of_two(new, others_from(new, before, 0), id, 0);
    others_have_results(new, before, id, 0);
}

/// The result of a symbol in one list followed by another.
proof fn results_of_two(
    a: Seq<(SymbolId, ExprValue)>,
    b: Seq<(SymbolId, ExprValue)>,
    id: SymbolId,
    i: int,
)
    requires
        0 <= i <= a.len(),
    ensures
        result_from(a + b, id, i) == (match result_from(a, id, i) {
            Some(value) => Some(value),
            None => result_from(b, id, 0),
        }),
    decreases a.len() - i,
{
    if i < a.len() {
        results_of_two(a, b, id, i + 1);
    } else {
        results_are_shifted(a, b, id, 0);
    }
}

/// The result of a symbol behind another list.
proof fn results_are_shifted(
    a: Seq<(SymbolId, ExprValue)>,
    b: Seq<(SymbolId, ExprValue)>,
    id: SymbolId,
    i: int,
)
    requires
        0 <= i <= b.len(),
    ensures
        result_from(a + b, id, a.len() + i) == result_from(b, id, i),
    decreases b.len() - i,
{
    if i < b.len() {
        results_are_shifted(a, b, id, i + 1);
    }
}

/// The results of the pass before that are still of use.
proof fn others_have_results(
    new: Seq<(SymbolId, ExprValue)>,
    before: Seq<(SymbolId, ExprValue)>,
    id: SymbolId,
    i: int,
)
    requires
        0 <= i <= before.len(),
    ensures
        result_from(new, id, 0) is None ==> result_from(others_from(new, before, i), id, 0)
            == result_from(before, id, i),
    decreases before.len() - i,
{
    if i < before.len() {
        others_have_results(new, before, id, i + 1);
        let rest = others_from(new, before, i + 1);
        results_are_shifted(seq![before[i]], rest, id, 0);
    }
}

/// What is stored for a symbol is what its expression came to, in every
/// place that no later expression is for; other symbols keep their address.
pub proof fn results_are_stored(
    layout: Layout,
    values: Seq<(SymbolId, ExprValue)>,
    symbols: Seq<Symbol>,
    globals: Seq<u64>,
    i: int,
    at: int,
)
    requires
        0 <= i <= values.len(),
        0 <= at < globals.len(),
    ensures
        stored_from(layout, values, symbols, globals, i).1.len() == globals.len(),
        (forall|k: int| i <= k < values.len() ==> (#[trigger] values[k]).0.position != at)
            ==> stored_from(layout, values, symbols, globals, i).1[at] == globals[at],
        forall|k: int|
            i <= k < values.len() && (#[trigger] values[k]).0.position == at && (forall|n: int|
                k < n < values.len() ==> (#[trigger] values[n]).0.position != at) ==> stored_from(
                layout,
                values,
                symbols,
                globals,
                i,
            ).1[at] == resolved(layout, values[k].1),
    decreases values.len() - i,
{
    if i < values.len() {
        let (id, value) = values[i];
        let next = if value.section is None {
            crate::symbols::with_flags(symbols, id, ABSOLUTE)
        } else {
            crate::symbols::without_flags(symbols, id, ABSOLUTE)
        };
        let stored = if id.position < globals.len() {
            globals.update(id.position as int, resolved(layout, value))
        } else {
            globals
        };
        results_are_stored(layout, values, next, stored, i + 1, at);
    }
}

/// Where a value is: in its output section at the section's address and the
/// offset, in the image or absolute at the value itself.
pub proof fn values_move_with_their_section(layout: Layout, position: u32, value: u64)
    ensures
        position < layout.sections@.len() ==> resolved(
            layout,
            ExprValue { section: Some(DefsymSection::Output(position)), value },
        ) == (layout.sections@[position as int].addr + value) % 0x1_0000_0000_0000_0000,
        resolved(layout, ExprValue { section: Some(DefsymSection::Image), value }) == value,
        resolved(layout, ExprValue { section: None, value }) == value,
{
}

/// The references of an expression are the names it reads, each once,
/// without the name it defines.
pub proof fn references_are_what_is_read(names: Seq<Vec<u8>>, name: Seq<u8>, i: int, other: Seq<u8>)
    requires
        0 <= i <= names.len(),
    ensures
        references_from(names, name, i).contains(other) <==> other != name && exists|k: int|
            i <= k < names.len() && (#[trigger] names[k])@ == other && !is_listed(names, other, k),
    decreases names.len() - i,
{
    if i < names.len() {
        references_are_what_is_read(names, name, i + 1, other);
        let rest = references_from(names, name, i + 1);
        let all = references_from(names, name, i);
        if !(names[i]@ == name || is_listed(names, names[i]@, i)) {
            assert(all[0] == names[i]@);
            if rest.contains(other) {
                let k = choose|k: int| 0 <= k < rest.len() && rest[k] == other;
                assert(all[k + 1] == other);
            }
            if all.contains(other) {
                let k = choose|k: int| 0 <= k < all.len() && all[k] == other;
                if k > 0 {
                    assert(rest[k - 1] == other);
                }
            }
        }
    }
}

/// A section is found by its name, and the first of two with the same.
pub proof fn sections_are_found_by_name(layout: Layout, name: Seq<u8>, i: int, k: int)
    requires
        0 <= i <= k < layout.sections@.len(),
        k <= u32::MAX,
        layout.sections@[k].name@ == name,
    ensures
        position_from(layout, name, i) matches Some(p) && i <= p <= k && layout.sections@[p as int].name@
            == name && forall|n: int|
            i <= n < p ==> (#[trigger] layout.sections@[n]).name@ != name,
    decreases k - i,
{
    if layout.sections@[i].name@ != name {
        sections_are_found_by_name(layout, name, i + 1, k);
    }
}

/// Passes go on for as long as a chain of definitions may need, but nine at
/// the most.
pub proof fn passes_are_bounded(n: int)
    requires
        0 <= n,
    ensures
        1 <= pass_limit(n) <= 9,
        n <= 8 ==> pass_limit(n) == n + 1,
        n > 8 ==> pass_limit(n) == 9,
{
}

} // verus!
