//! What the relocation writers share: what is known of a relocation's
//! symbol, and the problems they report.

use vstd::prelude::*;
use vstd::string::StringExecFns;

use super::{ApplyError, Arch, Class};
use crate::elf::relocation::Relocation;
use crate::text::push_decimal;

verus! {

/// The address of a symbol, and the addend to go with it.
#[derive(Clone, Copy, Debug, PartialEq, Eq, Structural)]
pub struct Address {
    /// The address.
    pub value: u64,
    /// The addend.
    pub addend: i64,
}

impl Address {
    /// The address with its addend.
    #[verifier::allow_in_spec]
    pub fn sum(self) -> u64
        returns
            (self.value.wrapping_add_signed(self.addend)),
    {
        self.value.wrapping_add_signed(self.addend)
    }
}

/// What the scan decided about a relocation.
#[derive(Clone, Copy, Debug, PartialEq, Eq, Structural)]
pub struct Decision {
    /// What to compute and how to store it.
    pub class: Class,
    /// Whether a dynamic relocation against the symbol supplies the value.
    pub symbolic: bool,
    /// Whether it cannot be linked, which the scan reported.
    pub problem: bool,
}

/// What is known of a relocation once every address is.
#[derive(Clone, Copy, Debug, PartialEq, Eq, Structural)]
pub struct Facts {
    /// What the scan decided; nothing when it could not.
    pub decision: Option<Decision>,
    /// Whether the reference crosses sections that must not refer to each
    /// other.
    pub prohibited: bool,
    /// What a reference to the symbol holds in this section when the symbol
    /// is dead; nothing when it is live or the section has no such value.
    pub dead: Option<u64>,
    /// The symbol's address; nothing when its section is discarded.
    pub address: Option<Address>,
    /// The symbol's IPLT entry.
    pub iplt: Option<u64>,
    /// The symbol's PLT entry.
    pub plt: Option<u64>,
    /// The symbol's GOT entry of the decided kind.
    pub slot: Option<u64>,
    /// The symbol's GOT entry that holds its thread pointer offset.
    pub tp_slot: Option<u64>,
}

/// A relocation and what is known of it.
#[derive(Clone, Copy, Debug, PartialEq, Eq, Structural)]
pub struct Site {
    /// The relocation.
    pub rel: Relocation,
    /// What is known of it.
    pub facts: Facts,
}

/// What is wrong with a relocation.
#[derive(Clone, Copy, Debug, PartialEq, Eq, Structural)]
pub enum Problem {
    /// Its field cannot be written.
    Apply(ApplyError),
    /// It crosses sections that must not refer to each other.
    CrossReference,
    /// Its symbol is in a discarded section.
    Discarded,
    /// A `%pcrel_lo` that names no label.
    AbsoluteLow,
    /// A `%pcrel_lo` whose label has no `%pcrel_hi`.
    NoHigh,
    /// A label difference that needs more bytes than there are.
    UlebSpace(u64),
    /// A `SET_ULEB128` without its `SUB_ULEB128`.
    SetUnpaired,
    /// A `SUB_ULEB128` without its `SET_ULEB128`.
    SubUnpaired,
}

/// A problem with the relocation at a position of the processing order.
#[derive(Clone, Copy, Debug, PartialEq, Eq, Structural)]
pub struct Report {
    /// The position.
    pub seq: usize,
    /// What is wrong.
    pub problem: Problem,
}

/// The texts a message about a relocation names.
#[derive(Debug, PartialEq, Eq)]
pub struct Names {
    /// The symbol.
    pub symbol: String,
    /// The symbol, as a cross reference names it.
    pub reference: String,
    /// The output section the reference is in.
    pub from: String,
    /// The output section the symbol is in.
    pub to: String,
}

/// The message about a field of a relocation of type `label`.
pub open spec fn apply_text(label: Seq<char>, error: ApplyError, symbol: Seq<char>) -> Seq<char> {
    "relocation "@ + label + (match error {
        ApplyError::Overflow => " out of range; references '"@,
        ApplyError::OutOfBounds => " is outside its section; references '"@,
        ApplyError::BadInstruction =>
            " cannot be applied to this instruction; references '"@,
    }) + symbol + "'"@
}

/// The message about a problem with a relocation.
pub open spec fn problem_text(arch: Arch, r_type: u32, problem: Problem, names: Names) -> Seq<
    char,
> {
    match problem {
        Problem::Apply(error) => apply_text(
            arch.spec_reloc_label(r_type),
            error,
            names.symbol@,
        ),
        Problem::CrossReference => "prohibited cross reference from "@ + names.from@ + " to `"@
            + names.reference@ + "' in "@ + names.to@,
        Problem::Discarded => "relocation refers to a symbol in a discarded section: "@
            + names.symbol@,
        Problem::AbsoluteLow => arch.spec_reloc_label(r_type)
            + " relocation points to an absolute symbol"@,
        Problem::NoHigh =>
            "unable to find corresponding R_RISCV_PCREL_HI20 relocation; references '"@
            + names.symbol@ + "'"@,
        Problem::UlebSpace(value) => "ULEB128 value "@ + crate::text::decimal(value as nat)
            + " exceeds available space; references '"@ + names.symbol@ + "'"@,
        Problem::SetUnpaired => "R_RISCV_SET_ULEB128 not paired with R_RISCV_SUB_ULEB128"@,
        Problem::SubUnpaired => "R_RISCV_SUB_ULEB128 not paired with R_RISCV_SET_ULEB128"@,
    }
}

/// The message about a problem with a relocation of type `r_type`.
pub fn message(arch: Arch, r_type: u32, problem: Problem, names: &Names) -> (r: String)
    ensures
        r@ == problem_text(arch, r_type, problem, *names),
{
    let mut text: String = String::new();
    match problem {
        Problem::Apply(error) => {
            text.append("relocation ");
            text.append(arch.reloc_label(r_type).as_str());
            text.append(
                match error {
                    ApplyError::Overflow => " out of range; references '",
                    ApplyError::OutOfBounds => " is outside its section; references '",
                    ApplyError::BadInstruction =>
                        " cannot be applied to this instruction; references '",
                },
            );
            text.append(names.symbol.as_str());
            text.append("'");
        },
        Problem::CrossReference => {
            text.append("prohibited cross reference from ");
            text.append(names.from.as_str());
            text.append(" to `");
            text.append(names.reference.as_str());
            text.append("' in ");
            text.append(names.to.as_str());
        },
        Problem::Discarded => {
            text.append("relocation refers to a symbol in a discarded section: ");
            text.append(names.symbol.as_str());
        },
        Problem::AbsoluteLow => {
            text.append(arch.reloc_label(r_type).as_str());
            text.append(" relocation points to an absolute symbol");
        },
        Problem::NoHigh => {
            text.append("unable to find corresponding R_RISCV_PCREL_HI20 relocation; references '");
            text.append(names.symbol.as_str());
            text.append("'");
        },
        Problem::UlebSpace(value) => {
            text.append("ULEB128 value ");
            push_decimal(&mut text, value);
            text.append(" exceeds available space; references '");
            text.append(names.symbol.as_str());
            text.append("'");
        },
        Problem::SetUnpaired => {
            text.append("R_RISCV_SET_ULEB128 not paired with R_RISCV_SUB_ULEB128");
        },
        Problem::SubUnpaired => {
            text.append("R_RISCV_SUB_ULEB128 not paired with R_RISCV_SET_ULEB128");
        },
    }
    assert(text@ =~= problem_text(arch, r_type, problem, *names));
    text
}

/// `value` cut to a field of `bytes` bytes: 1, 2, 4 or 8; nothing of it
/// fits in none.
#[verifier::allow_in_spec]
pub fn truncated(value: u64, bytes: usize) -> u64
    returns
        (if bytes >= 8 {
            value
        } else if bytes >= 4 {
            value & 0xffff_ffff
        } else if bytes >= 2 {
            value & 0xffff
        } else if bytes == 1 {
            value & 0xff
        } else {
            0
        }),
{
    if bytes >= 8 {
        value
    } else if bytes >= 4 {
        value & 0xffff_ffff
    } else if bytes >= 2 {
        value & 0xffff
    } else if bytes == 1 {
        value & 0xff
    } else {
        0
    }
}

/// The place of an input section in the output, with what is written there.
#[verifier::ext_equal]
pub struct State {
    /// The bytes.
    pub out: Seq<u8>,
    /// The problems found so far.
    pub reports: Seq<Report>,
}

impl State {
    /// With another problem.
    pub open spec fn report(self, seq: int, problem: Problem) -> State {
        State { reports: self.reports.push(Report { seq: seq as usize, problem }), ..self }
    }

    /// With what a rewrite made of the bytes, and its error as a problem.
    pub open spec fn patched(self, seq: int, p: super::patch::Patched) -> State {
        let next = State { out: p.bytes, ..self };
        match p.result {
            Ok(()) => next,
            Err(error) => next.report(seq, Problem::Apply(error)),
        }
    }

    /// With `value` in a field at `at`.
    pub open spec fn put(self, seq: int, at: u64, width: super::Width, value: u64) -> State {
        self.patched(seq, super::fields::spec_write_value(self.out, at, width, value))
    }

    /// With the instruction word `word` at `at`.
    pub open spec fn put_word(self, seq: int, at: u64, word: u32) -> State {
        self.patched(seq, super::patch::Patched::new(self.out).word(at as int, word))
    }
}

/// Reports a problem.
pub fn report(reports: &mut Vec<Report>, seq: usize, problem: Problem)
    ensures
        final(reports)@ == old(reports)@.push(Report { seq, problem }),
{
    reports.push(Report { seq, problem });
}

/// Writes `value` into a field at `at`, or reports why it cannot.
pub fn put(
    out: &mut [u8],
    reports: &mut Vec<Report>,
    seq: usize,
    at: u64,
    width: super::Width,
    value: u64,
)
    ensures
        (State { out: final(out)@, reports: final(reports)@ }) == (State {
            out: old(out)@,
            reports: old(reports)@,
        }).put(seq as int, at, width, value),
{
    match super::write_value(out, at, width, value) {
        Ok(()) => {},
        Err(error) => report(reports, seq, Problem::Apply(error)),
    }
}

/// Writes an instruction word at `at`, or reports why it cannot.
pub fn put_word(out: &mut [u8], reports: &mut Vec<Report>, seq: usize, at: u64, word: u32)
    ensures
        (State { out: final(out)@, reports: final(reports)@ }) == (State {
            out: old(out)@,
            reports: old(reports)@,
        }).put_word(seq as int, at, word),
{
    match super::patch::put_word(out, at, word) {
        Ok(()) => {},
        Err(error) => report(reports, seq, Problem::Apply(error)),
    }
}

} // verus!
