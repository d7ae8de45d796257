//! RISC-V linker relaxation decisions, for the shrinking framework of
//! [`crate::elf::arch::shrink`].
//!
//! - `R_RISCV_ALIGN` padding is trimmed so that the code after it is
//!   aligned (always, even with `--no-relax`);
//! - a call (`auipc` + `jalr`, `CALL`/`CALL_PLT` with `R_RISCV_RELAX`)
//!   becomes `jal` within ±1 MiB, or `c.j` within ±2 KiB for a tail call
//!   in an object with compressed instructions;
//! - a local-exec access whose offset fits 12 bits loses its `lui` and
//!   `add` and addresses `tp` directly;
//! - a `lui` of an absolute address that fits 12 bits goes away and the
//!   access uses `x0`;
//! - in an executable, a TLS descriptor sequence loses the instructions its
//!   local-exec or initial-exec form does not need.
//!
//! To guarantee termination, a call's edit may only shrink freely in the
//! first four passes, and only grow back afterwards.

use vstd::prelude::*;
use vstd::string::StringExecFns;

use super::EF_RISCV_RVC;
use crate::arch::riscv::{
    hi20, rd, set_lo12_i, set_lo12_s, with_rs1, C_J, C_NOP, JAL, NOP, TP, X0,
};
use crate::bits::{fits_signed, next_power_of_two};
use crate::bytes::{get_u32, put_u16, put_u32};
use crate::elf::arch::TlsMode;
use crate::elf::arch::shrink::{Edit, Edits, Pass, Rewrite, SectionInput};
use crate::elf::consts::riscv::{
    R_RISCV_ALIGN, R_RISCV_CALL, R_RISCV_CALL_PLT, R_RISCV_HI20, R_RISCV_JAL, R_RISCV_LO12_I,
    R_RISCV_LO12_S, R_RISCV_RELAX, R_RISCV_RVC_JUMP, R_RISCV_TLSDESC_ADD_LO12,
    R_RISCV_TLSDESC_HI20, R_RISCV_TLSDESC_LOAD_LO12, R_RISCV_TPREL_ADD, R_RISCV_TPREL_HI20,
    R_RISCV_TPREL_LO12_I, R_RISCV_TPREL_LO12_S,
};
use crate::elf::relocation::Relocation;
use crate::error::Error;
use crate::text::push_decimal;

verus! {

/// Passes after which a call's edit may no longer grow, so that decisions
/// cannot oscillate.
pub const FREE_PASSES: u32 = 4;

/// The internal relocation type of a `%lo` access relaxed to `x0` (the
/// original type tells I from S).
pub const X0REL: u32 = 0x100;

/// The internal relocation type of a `%lo` access relaxed to the global
/// pointer.
pub const GPREL: u32 = 0x101;

/// The symbol whose address is in the global pointer register.
pub const GLOBAL_POINTER: &'static str = "__global_pointer$";

/// The TLS descriptor sequence being relaxed.
#[derive(Clone, Copy, Debug, PartialEq, Eq, Structural)]
pub struct Descriptor {
    /// Its first relocation is marked for relaxation.
    pub relax: bool,
    /// It is not a dynamic access.
    pub fixed: bool,
    /// Its offset fits 12 bits.
    pub short: bool,
}

/// An edit that is decided: the bytes to delete, and what becomes of the
/// instruction.
pub type Decided = Option<(u32, Rewrite)>;

/// What the decisions have come to.
pub struct Deciding {
    /// The edits.
    pub edits: Seq<Edit>,
    /// The bytes they delete.
    pub delta: u64,
    /// The TLS descriptor sequence.
    pub descriptor: Descriptor,
}

/// The alignment that padding of `addend` bytes is for.
pub open spec fn alignment_of(addend: u64) -> u64 {
    let p = crate::bits::doubled_to(1, addend + 2);
    if addend + 2 > u64::MAX || p > u64::MAX {
        u64::MAX
    } else {
        p as u64
    }
}

/// The alignment that padding of `addend` bytes is for.
fn find_alignment(addend: u64) -> (r: u64)
    ensures
        r == alignment_of(addend),
{
    if addend > u64::MAX - 2 {
        return u64::MAX;
    }
    match next_power_of_two(addend + 2) {
        Some(p) => p,
        None => u64::MAX,
    }
}

/// `loc` rounded up to `align`, unchanged where that is not an address.
#[verifier::allow_in_spec]
pub fn aligned_up(loc: u64, align: u64) -> u64
    returns
        (match loc.checked_add(align.wrapping_sub(1)) {
            Some(v) => v & !align.wrapping_sub(1),
            None => loc,
        }),
{
    match loc.checked_add(align.wrapping_sub(1)) {
        Some(v) => v & !align.wrapping_sub(1),
        None => loc,
    }
}

/// The trim of padding of `addend` bytes at `loc`: nothing to do, the edit,
/// or what is wrong with it.
pub open spec fn spec_trim(loc: u64, addend: i64) -> Result<Decided, Seq<char>> {
    if addend < 0 {
        Ok(None)
    } else {
        let bytes = addend as u64;
        let align = alignment_of(bytes);
        let next = loc.wrapping_add(bytes);
        let aligned = aligned_up(loc, align);
        if next < aligned {
            Err(
                "insufficient padding bytes for R_RISCV_ALIGN: "@ + crate::text::decimal(
                    bytes as nat,
                ) + " bytes available for requested alignment of "@ + crate::text::decimal(
                    align as nat,
                ) + " bytes"@,
            )
        } else if next == aligned {
            Ok(None)
        } else {
            Ok(
                Some(
                    (
                        limited(next - aligned),
                        Rewrite::Align { addend: limited(bytes as int) },
                    ),
                ),
            )
        }
    }
}

/// `n` as a 32-bit number, or the highest there is.
pub open spec fn limited(n: int) -> u32 {
    if n > u32::MAX {
        u32::MAX
    } else {
        n as u32
    }
}

/// `n` as a 32-bit number, or the highest there is.
fn limit(n: u64) -> (r: u32)
    ensures
        r == limited(n as int),
{
    if n > u32::MAX as u64 {
        u32::MAX
    } else {
        n as u32
    }
}

/// Decides the trim of padding of `addend` bytes at `loc`.
fn trim(loc: u64, addend: i64) -> (r: Result<Decided, String>)
    ensures
        match (r, spec_trim(loc, addend)) {
            (Ok(a), Ok(b)) => a == b,
            (Err(a), Err(b)) => a@ == b,
            _ => false,
        },
{
    if addend < 0 {
        return Ok(None);
    }
    let bytes: u64 = addend as u64;
    let align: u64 = find_alignment(bytes);
    let next: u64 = loc.wrapping_add(bytes);
    let aligned: u64 = aligned_up(loc, align);
    if next < aligned {
        let mut what: String = String::new();
        what.append("insufficient padding bytes for R_RISCV_ALIGN: ");
        push_decimal(&mut what, bytes);
        what.append(" bytes available for requested alignment of ");
        push_decimal(&mut what, align);
        what.append(" bytes");
        assert(what@ =~= "insufficient padding bytes for R_RISCV_ALIGN: "@ + crate::text::decimal(
            bytes as nat,
        ) + " bytes available for requested alignment of "@ + crate::text::decimal(align as nat)
            + " bytes"@);
        return Err(what);
    }
    if next == aligned {
        Ok(None)
    } else {
        Ok(Some((limit(next - aligned), Rewrite::Align { addend: limit(bytes) })))
    }
}

/// How many bytes of a call may go: 6 during the free passes, then at most
/// what the previous pass removed.
pub open spec fn call_limit(pass: Pass, section: SectionInput, seq: u32) -> u32 {
    if pass.pass < FREE_PASSES {
        6
    } else {
        match pass.spec_previous_edit(section.id, seq) {
            Some(edit) => edit.remove,
            None => 0,
        }
    }
}

/// The edit of a call at `loc`.
pub open spec fn spec_call(
    pass: Pass,
    section: SectionInput,
    seq: u32,
    loc: u64,
    rel: Relocation,
) -> Decided {
    let limit = call_limit(pass, section, seq);
    let rvc = section.e_flags & EF_RISCV_RVC != 0;
    match (
        pass.spec_target(section.file, rel.symbol, rel.addend, true),
        crate::bytes::u32_at(section.data@, rel.offset + 4),
    ) {
        (Some(dest), Some(word)) => {
            let displace = dest.wrapping_sub(loc) as i64;
            if limit >= 6 && rvc && crate::bits::spec_fits_signed(displace as int, 12) && rd(word)
                == X0 {
                Some(
                    (6u32, Rewrite::Replace { word: C_J as u32, len: 2, r_type: R_RISCV_RVC_JUMP }),
                )
            } else if limit >= 4 && crate::bits::spec_fits_signed(displace as int, 21) {
                Some(
                    (
                        4u32,
                        Rewrite::Replace { word: JAL | (rd(word) << 7), len: 4, r_type: R_RISCV_JAL },
                    ),
                )
            } else {
                None
            }
        },
        _ => None,
    }
}

/// Decides the edit of a call at `loc`.
fn call(pass: &Pass, section: &SectionInput, seq: u32, loc: u64, rel: Relocation) -> (r: Decided)
    requires
        pass.previous.valid(),
    ensures
        r == spec_call(*pass, *section, seq, loc, rel),
{
    let limit: u32 = if pass.pass < FREE_PASSES {
        6
    } else {
        match pass.previous_edit(section.id, seq) {
            Some(edit) => edit.remove,
            None => 0,
        }
    };
    let rvc: bool = section.e_flags & EF_RISCV_RVC != 0;
    let _len: usize = section.data.len();
    let jump: Option<u32> = if rel.offset > u64::MAX - 4 {
        None
    } else {
        get_u32(section.data, rel.offset + 4)
    };
    match (pass.target(section.file, rel.symbol, rel.addend, true), jump) {
        (Some(dest), Some(word)) => {
            let displace: i64 = dest.wrapping_sub(loc) as i64;
            if limit >= 6 && rvc && fits_signed(displace, 12) && rd(word) == X0 {
                Some(
                    (6u32, Rewrite::Replace { word: C_J as u32, len: 2, r_type: R_RISCV_RVC_JUMP }),
                )
            } else if limit >= 4 && fits_signed(displace, 21) {
                Some(
                    (
                        4u32,
                        Rewrite::Replace { word: JAL | (rd(word) << 7), len: 4, r_type: R_RISCV_JAL },
                    ),
                )
            } else {
                None
            }
        },
        _ => None,
    }
}

/// The edit of a local-exec access: its offset from the thread pointer fits
/// 12 bits.
pub open spec fn spec_local_exec(pass: Pass, section: SectionInput, rel: Relocation) -> Decided {
    match (pass.tp, pass.spec_target(section.file, rel.symbol, rel.addend, false)) {
        (Some(tp), Some(s)) => {
            let value = s.wrapping_sub(tp);
            if hi20(value) != 0 {
                None
            } else if rel.r_type == R_RISCV_TPREL_HI20 || rel.r_type == R_RISCV_TPREL_ADD {
                Some((4u32, Rewrite::Delete))
            } else {
                match crate::bytes::u32_at(section.data@, rel.offset as int) {
                    Some(word) => Some(
                        (
                            0u32,
                            Rewrite::Replace {
                                word: if rel.r_type == R_RISCV_TPREL_LO12_I {
                                    set_lo12_i(with_rs1(word, TP), value as u32)
                                } else {
                                    set_lo12_s(with_rs1(word, TP), value as u32)
                                },
                                len: 4,
                                r_type: 0,
                            },
                        ),
                    ),
                    None => None,
                }
            }
        },
        _ => None,
    }
}

/// Decides the edit of a local-exec access.
fn local_exec(pass: &Pass, section: &SectionInput, rel: Relocation) -> (r: Decided)
    requires
        pass.previous.valid(),
    ensures
        r == spec_local_exec(*pass, *section, rel),
{
    let Some(tp) = pass.tp else {
        return None;
    };
    let Some(s) = pass.target(section.file, rel.symbol, rel.addend, false) else {
        return None;
    };
    let value: u64 = s.wrapping_sub(tp);
    if hi20(value) != 0 {
        None
    } else if rel.r_type == R_RISCV_TPREL_HI20 || rel.r_type == R_RISCV_TPREL_ADD {
        Some((4u32, Rewrite::Delete))
    } else {
        match get_u32(section.data, rel.offset) {
            Some(word) => Some(
                (
                    0u32,
                    Rewrite::Replace {
                        word: if rel.r_type == R_RISCV_TPREL_LO12_I {
                            set_lo12_i(with_rs1(word, TP), value as u32)
                        } else {
                            set_lo12_s(with_rs1(word, TP), value as u32)
                        },
                        len: 4,
                        r_type: 0,
                    },
                ),
            ),
            None => None,
        }
    }
}

/// The edit of an absolute access whose address fits 12 bits.
pub open spec fn spec_absolute(pass: Pass, section: SectionInput, rel: Relocation) -> Decided {
    match pass.spec_target(section.file, rel.symbol, rel.addend, false) {
        Some(value) => if !crate::bits::spec_fits_signed((value as i64) as int, 12) {
            None
        } else if rel.r_type == R_RISCV_HI20 {
            Some((4u32, Rewrite::Delete))
        } else {
            Some((0u32, Rewrite::Retype(X0REL)))
        },
        None => None,
    }
}

/// Decides the edit of an absolute access.
fn absolute(pass: &Pass, section: &SectionInput, rel: Relocation) -> (r: Decided)
    requires
        pass.previous.valid(),
    ensures
        r == spec_absolute(*pass, *section, rel),
{
    match pass.target(section.file, rel.symbol, rel.addend, false) {
        Some(value) => if !fits_signed(value as i64, 12) {
            None
        } else if rel.r_type == R_RISCV_HI20 {
            Some((4u32, Rewrite::Delete))
        } else {
            Some((0u32, Rewrite::Retype(X0REL)))
        },
        None => None,
    }
}

/// The TLS descriptor sequence that starts at `rel`.
pub open spec fn spec_descriptor(
    pass: Pass,
    section: SectionInput,
    rel: Relocation,
    relaxable: bool,
) -> Descriptor {
    let mode = pass.spec_tls_mode(section.file, rel.symbol);
    Descriptor {
        relax: relaxable,
        fixed: mode != TlsMode::Dynamic,
        short: relaxable && mode == TlsMode::LocalExec && match (
            pass.tp,
            pass.spec_target(section.file, rel.symbol, rel.addend, false),
        ) {
            (Some(tp), Some(s)) => hi20(s.wrapping_sub(tp)) == 0,
            _ => false,
        },
    }
}

/// The TLS descriptor sequence that starts at `rel`.
fn descriptor(pass: &Pass, section: &SectionInput, rel: Relocation, relaxable: bool) -> (r:
    Descriptor)
    requires
        pass.previous.valid(),
    ensures
        r == spec_descriptor(*pass, *section, rel, relaxable),
{
    let mode: TlsMode = pass.tls_mode(section.file, rel.symbol);
    let near: bool = match (
        pass.tp,
        pass.target(section.file, rel.symbol, rel.addend, false),
    ) {
        (Some(tp), Some(s)) => hi20(s.wrapping_sub(tp)) == 0,
        _ => false,
    };
    Descriptor {
        relax: relaxable,
        fixed: mode != TlsMode::Dynamic,
        short: relaxable && mode == TlsMode::LocalExec && near,
    }
}

/// The instruction goes.
#[verifier::allow_in_spec]
pub fn deleted_if(cond: bool) -> Decided
    returns
        (if cond {
            Some((4u32, Rewrite::Delete))
        } else {
            None
        }),
{
    if cond {
        Some((4u32, Rewrite::Delete))
    } else {
        None
    }
}

/// What is decided of the relocation at position `seq`: its edit, and the
/// TLS descriptor sequence it is in.
pub open spec fn spec_decide_one(
    pass: Pass,
    section: SectionInput,
    seq: u32,
    loc: u64,
    rel: Relocation,
    relaxable: bool,
    d: Descriptor,
) -> Result<(Decided, Descriptor), Seq<char>> {
    match rel.r_type {
        R_RISCV_ALIGN => match spec_trim(loc, rel.addend) {
            Ok(edit) => Ok((edit, d)),
            Err(what) => Err(what),
        },
        R_RISCV_CALL | R_RISCV_CALL_PLT => if relaxable {
            Ok((spec_call(pass, section, seq, loc, rel), d))
        } else {
            Ok((None, d))
        },
        R_RISCV_TPREL_HI20 | R_RISCV_TPREL_ADD | R_RISCV_TPREL_LO12_I | R_RISCV_TPREL_LO12_S =>
        if relaxable {
            Ok((spec_local_exec(pass, section, rel), d))
        } else {
            Ok((None, d))
        },
        R_RISCV_HI20 | R_RISCV_LO12_I | R_RISCV_LO12_S => if relaxable {
            Ok((spec_absolute(pass, section, rel), d))
        } else {
            Ok((None, d))
        },
        R_RISCV_TLSDESC_HI20 => {
            let new = spec_descriptor(pass, section, rel, relaxable);
            Ok((deleted_if(new.relax && new.fixed), new))
        },
        R_RISCV_TLSDESC_LOAD_LO12 => Ok((deleted_if(d.relax && d.fixed), d)),
        R_RISCV_TLSDESC_ADD_LO12 => Ok((deleted_if(d.short), d)),
        _ => Ok((None, d)),
    }
}

/// Decides the relocation at position `seq`.
fn decide_one(
    pass: &Pass,
    section: &SectionInput,
    seq: u32,
    loc: u64,
    rel: Relocation,
    relaxable: bool,
    d: Descriptor,
) -> (r: Result<(Decided, Descriptor), String>)
    requires
        pass.previous.valid(),
    ensures
        match (r, spec_decide_one(*pass, *section, seq, loc, rel, relaxable, d)) {
            (Ok(a), Ok(b)) => a == b,
            (Err(a), Err(b)) => a@ == b,
            _ => false,
        },
{
    match rel.r_type {
        R_RISCV_ALIGN => match trim(loc, rel.addend) {
            Ok(edit) => Ok((edit, d)),
            Err(what) => Err(what),
        },
        R_RISCV_CALL | R_RISCV_CALL_PLT => if relaxable {
            Ok((call(pass, section, seq, loc, rel), d))
        } else {
            Ok((None, d))
        },
        R_RISCV_TPREL_HI20 | R_RISCV_TPREL_ADD | R_RISCV_TPREL_LO12_I | R_RISCV_TPREL_LO12_S =>
        if relaxable {
            Ok((local_exec(pass, section, rel), d))
        } else {
            Ok((None, d))
        },
        R_RISCV_HI20 | R_RISCV_LO12_I | R_RISCV_LO12_S => if relaxable {
            Ok((absolute(pass, section, rel), d))
        } else {
            Ok((None, d))
        },
        R_RISCV_TLSDESC_HI20 => {
            let new: Descriptor = descriptor(pass, section, rel, relaxable);
            Ok((deleted_if(new.relax && new.fixed), new))
        },
        R_RISCV_TLSDESC_LOAD_LO12 => Ok((deleted_if(d.relax && d.fixed), d)),
        R_RISCV_TLSDESC_ADD_LO12 => Ok((deleted_if(d.short), d)),
        _ => Ok((None, d)),
    }
}

/// Whether the relocation at position `i` is marked for relaxation: the
/// next one is the mark.
pub open spec fn is_marked(pass: Pass, relocs: Seq<Relocation>, i: int) -> bool {
    pass.relax && i + 1 < relocs.len() && relocs[i + 1].r_type == R_RISCV_RELAX
}

/// The decisions from position `i` on, of a section at `address`. An error
/// is the offset it is at and what is wrong.
pub open spec fn decided_from(
    pass: Pass,
    section: SectionInput,
    address: u64,
    state: Deciding,
    i: int,
) -> Result<Seq<Edit>, (u64, Seq<char>)>
    decreases section.relocs@.len() - i,
{
    if i < 0 || i >= section.relocs@.len() || i >= u32::MAX {
        Ok(state.edits)
    } else {
        let rel = section.relocs@[i];
        let loc = address.wrapping_add(rel.offset).wrapping_sub(state.delta);
        match spec_decide_one(
            pass,
            section,
            i as u32,
            loc,
            rel,
            is_marked(pass, section.relocs@, i),
            state.descriptor,
        ) {
            Err(what) => Err((rel.offset, what)),
            Ok((edit, descriptor)) => {
                let next = match edit {
                    None => Deciding { descriptor, ..state },
                    Some((remove, rewrite)) => Deciding {
                        edits: crate::elf::arch::shrink::edit_added(
                            state.edits,
                            state.delta,
                            section,
                            i as u32,
                            rel.offset,
                            remove,
                            rewrite,
                        ),
                        delta: crate::elf::arch::thunk::saturated(state.delta, remove as u64),
                        descriptor,
                    },
                };
                decided_from(pass, section, address, next, i + 1)
            },
        }
    }
}

/// No TLS descriptor sequence.
#[verifier::allow_in_spec]
pub fn no_descriptor() -> Descriptor
    returns
        (Descriptor { relax: false, fixed: false, short: false }),
{
    Descriptor { relax: false, fixed: false, short: false }
}

/// The decisions of a section at `address`.
pub open spec fn spec_decide(pass: Pass, section: SectionInput, address: u64) -> Result<
    Seq<Edit>,
    (u64, Seq<char>),
> {
    decided_from(
        pass,
        section,
        address,
        Deciding { edits: Seq::empty(), delta: 0, descriptor: no_descriptor() },
        0,
    )
}

/// Whether an error is about malformed input at an offset of a section.
pub open spec fn reports(
    error: Error,
    section: SectionInput,
    offset: u64,
    what: Seq<char>,
) -> bool {
    match error {
        Error::Malformed { file, offset: at, what: text } => file@ == section.name@ && at
            == crate::elf::arch::thunk::saturated(section.sh_offset, offset) && text@ == what,
        _ => false,
    }
}

/// Whether a result is the one decided.
pub open spec fn agrees(
    r: Result<Edits, Error>,
    section: SectionInput,
    decided: Result<Seq<Edit>, (u64, Seq<char>)>,
) -> bool {
    match (r, decided) {
        (Ok(edits), Ok(list)) => edits.edits@ == list,
        (Err(error), Err((offset, what))) => reports(error, section, offset, what),
        _ => false,
    }
}

/// The edits of one section at `address` in pass `pass`.
///
/// # Errors
///
/// [`Error::Malformed`] for `R_RISCV_ALIGN` padding too small for its
/// alignment.
pub fn decide(pass: &Pass, section: &SectionInput, address: u64) -> (r: Result<Edits, Error>)
    requires
        pass.previous.valid(),
    ensures
        agrees(r, *section, spec_decide(*pass, *section, address)),
        r matches Ok(edits) ==> crate::elf::arch::shrink::deltas_count(edits.edits@) && (
        section.valid() ==> crate::elf::arch::shrink::in_order(edits.edits@)),
{
    let mut edits: Edits = Edits::default();
    let mut d: Descriptor = no_descriptor();
    let mut i: usize = 0;
    let n: usize = section.relocs.len();
    let ghost whole = spec_decide(*pass, *section, address);
    assert(edits.edits@ =~= Seq::<Edit>::empty());
    while i < n && i < u32::MAX as usize
        invariant
            i <= n,
            n == section.relocs@.len(),
            pass.previous.valid(),
            whole == decided_from(
                *pass,
                *section,
                address,
                Deciding { edits: edits.edits@, delta: edits.delta, descriptor: d },
                i as int,
            ),
            whole == spec_decide(*pass, *section, address),
            crate::elf::arch::shrink::deltas_count(edits.edits@),
            edits.delta == crate::elf::arch::shrink::deleted_by(
                edits.edits@,
                edits.edits@.len() as int,
            ),
            forall|k: int| 0 <= k < edits.edits@.len() ==> (#[trigger] edits.edits@[k]).seq < i,
            forall|k: int|
                0 <= k < edits.edits@.len() ==> (#[trigger] edits.edits@[k]).offset
                    == section.relocs@[edits.edits@[k].seq as int].offset,
            section.valid() ==> crate::elf::arch::shrink::in_order(edits.edits@),
        decreases n - i,
    {
        let rel: Relocation = section.relocs[i];
        let relaxable: bool = pass.relax && i + 1 < n && section.relocs[i + 1].r_type
            == R_RISCV_RELAX;
        let loc: u64 = address.wrapping_add(rel.offset).wrapping_sub(edits.delta());
        match decide_one(pass, section, i as u32, loc, rel, relaxable, d) {
            Ok((edit, next)) => {
                d = next;
                if let Some((remove, rewrite)) = edit {
                    let ghost before = edits.edits@;
                    edits.push(section, i as u32, rel.offset, remove, rewrite);
                    proof {
                        assert(edits.edits@.drop_last() =~= before);
                        crate::elf::arch::shrink::added_edits_count(before, edits.edits@);
                    }
                }
            },
            Err(what) => {
                return Err(section.malformed(rel.offset, what));
            },
        }
        i += 1;
    }
    Ok(edits)
}

/// `s` filled with no-ops: `nop`s, then a `c.nop` for a 2-byte remainder; a
/// last odd byte is left as it is.
pub open spec fn padded(s: Seq<u8>) -> Seq<u8> {
    Seq::new(
        s.len(),
        |i: int|
            if i < s.len() - s.len() % 4 {
                crate::bytes::spec_le32(NOP)[i % 4]
            } else if i < s.len() - s.len() % 2 {
                crate::bytes::spec_le16(C_NOP)[i % 2]
            } else {
                s[i]
            },
    )
}

/// Fills trimmed alignment padding with no-ops: `nop`s, then a `c.nop`
/// for a 2-byte remainder.
pub fn fill_nops(out: &mut [u8])
    ensures
        final(out)@ == padded(old(out)@),
{
    let n: usize = out.len();
    let words: usize = n - n % 4;
    let mut i: usize = 0;
    while i < words
        invariant
            i <= words,
            i % 4 == 0,
            words == n - n % 4,
            out@.len() == n,
            old(out)@.len() == n,
            forall|k: int| 0 <= k < i ==> out@[k] == crate::bytes::spec_le32(NOP)[k % 4],
            forall|k: int| i <= k < n ==> out@[k] == old(out)@[k],
        decreases words - i,
    {
        let ghost before = out@;
        put_u32(out, i as u64, NOP);
        assert(crate::bytes::inside(before, i as int, 4));
        assert forall|k: int| 0 <= k < i + 4 implies out@[k] == crate::bytes::spec_le32(NOP)[k
            % 4] by {
            if k >= i {
                assert(k % 4 == k - i);
            }
        }
        i += 4;
    }
    if n - words >= 2 {
        let ghost before = out@;
        put_u16(out, words as u64, C_NOP);
        assert(crate::bytes::inside(before, words as int, 2));
    }
    assert(out@ =~= padded(old(out)@));
}

/// After the passes that are free to, a call's edit deletes no more than it
/// did in the pass before.
pub proof fn calls_stop_shrinking(
    pass: Pass,
    section: SectionInput,
    seq: u32,
    loc: u64,
    rel: Relocation,
)
    requires
        pass.pass >= FREE_PASSES,
    ensures
        match (spec_call(pass, section, seq, loc, rel), pass.spec_previous_edit(section.id, seq)) {
            (Some((remove, _)), Some(edit)) => remove <= edit.remove,
            (Some(_), None) => false,
            (None, _) => true,
        },
{
}

/// Doubling one gives powers of two.
proof fn doubled_is_a_power(k: nat, n: int)
    ensures
        exists|j: nat|
            crate::bits::doubled_to(vstd::arithmetic::power2::pow2(k) as int, n)
                == #[trigger] vstd::arithmetic::power2::pow2(j),
    decreases
            if n > vstd::arithmetic::power2::pow2(k) {
                n - vstd::arithmetic::power2::pow2(k)
            } else {
                0
            },
{
    let p = vstd::arithmetic::power2::pow2(k) as int;
    vstd::arithmetic::power2::lemma_pow2_pos(k);
    if p < n {
        vstd::arithmetic::power2::lemma_pow2_unfold(k + 1);
        doubled_is_a_power(k + 1, n);
    }
}

/// Trimmed padding aligns what comes after it: the alignment is the power of
/// two the padding is for, and the address after what is left of the padding
/// has no bits below it.
pub proof fn trimmed_padding_aligns(loc: u64, addend: i64)
    requires
        0 <= addend <= u32::MAX,
        loc + alignment_of(addend as u64) <= u64::MAX,
        spec_trim(loc, addend) is Ok,
    ensures
        ({
            let align = alignment_of(addend as u64);
            let removed: int = match spec_trim(loc, addend)->Ok_0 {
                Some((remove, _)) => remove as int,
                None => 0,
            };
            &&& exists|k: nat| align == #[trigger] vstd::arithmetic::power2::pow2(k)
            &&& addend + 2 <= align
            &&& 0 <= removed <= addend
            &&& ((loc + addend - removed) as u64) & ((align - 1) as u64) == 0
        }),
{
    let bytes = addend as u64;
    crate::bits::doubling_grows(1, bytes + 2);
    vstd::arithmetic::power2::lemma2_to64();
    doubled_is_a_power(0, bytes + 2);
    let align = alignment_of(bytes);
    let m = (align - 1) as u64;
    let v = (loc + m) as u64;
    assert(v & !m == v - (v & m) && v & m <= m && (v & !m) & m == 0) by (bit_vector);
    assert(aligned_up(loc, align) == v & !m);
    assert(aligned_up(loc, align) >= loc);
}

/// What the words of relaxed code are made of.
proof fn relaxed_words(word: u32, v: u32)
    by (bit_vector)
    ensures
        (0x6fu32 | ((word >> 7) & 0x1f) << 7) & 0x7f == 0x6f,
        ((0x6fu32 | ((word >> 7) & 0x1f) << 7) >> 7) & 0x1f == (word >> 7) & 0x1f,
        (0x6fu32 | ((word >> 7) & 0x1f) << 7) >> 12 == 0,
        v >> 12 == 0 <==> v < 0x1000,
        v < 0x8000_0000 ==> v as i32 == v,
        v >= 0x8000_0000 ==> v as i32 == v - 0x1_0000_0000,
        (((word & !0xf_8000u32 | 4u32 << 15) & 0xf_ffff | v << 20) & 0x7fff) == word & 0x7fff,
        (((word & !0xf_8000u32 | 4u32 << 15) & 0xf_ffff | v << 20) >> 15) & 0x1f == 4,
        -2048 <= (v as i32) && (v as i32) < 2048 ==> (((word & !0xf_8000u32 | 4u32 << 15) & 0xf_ffff | v
            << 20) as i32) >> 20 == v as i32,
        ((word & !0xf_8000u32 | 4u32 << 15) & 0x01ff_f07f | (v & 0xfe0) << 20 | (v & 0x1f) << 7)
            & 0x01f0_707f == word & 0x01f0_707f,
        (((word & !0xf_8000u32 | 4u32 << 15) & 0x01ff_f07f | (v & 0xfe0) << 20 | (v & 0x1f) << 7)
            >> 15) & 0x1f == 4,
        -2048 <= (v as i32) && (v as i32) < 2048 ==> ((((word & !0xf_8000u32 | 4u32 << 15) & 0x01ff_f07f | (v
            & 0xfe0) << 20 | (v & 0x1f) << 7) as i32) >> 25) << 5 | (((((word & !0xf_8000u32 | 4u32
            << 15) & 0x01ff_f07f | (v & 0xfe0) << 20 | (v & 0x1f) << 7) >> 7) & 0x1f) as i32)
            == v as i32,
{
}

/// Whether the relocation at `i` is one that relaxation may act on: it is
/// wanted, and `R_RISCV_RELAX` follows.
pub open spec fn may_shrink(pass: Pass, section: SectionInput, i: int) -> bool {
    pass.relax && i + 1 < section.relocs@.len() && section.relocs@[i + 1].r_type == 51
}

/// Whether the low half of a distance from the thread pointer is a signed
/// number of 12 bits.
pub open spec fn near_thread_pointer(pass: Pass, section: SectionInput, rel: Relocation) -> bool {
    pass.tp is Some && (pass.spec_target(section.file, rel.symbol, rel.addend, false) matches Some(
        s,
    ) && -2048 <= ((s.wrapping_sub(pass.tp->0) as u32) as i32) && ((s.wrapping_sub(pass.tp->0) as u32) as i32) < 2048)
}

/// Whether the relocation at `i` starts a TLS descriptor sequence that is not
/// a dynamic access and that relaxation may act on.
pub open spec fn starts_fixed_access(pass: Pass, section: SectionInput, i: int) -> bool {
    let rel = section.relocs@[i];
    0 <= i < section.relocs@.len() && rel.r_type == 62 && may_shrink(pass, section, i)
        && pass.spec_tls_mode(section.file, rel.symbol) != TlsMode::Dynamic
}

/// Whether an edit is one that the code it changes allows.
///
/// A call (`CALL`, `CALL_PLT`) becomes a `jal` of the register that its
/// `jalr` links, where it is in reach of one, or a `c.j` where it links none,
/// is in reach and the object has compressed instructions. A local-exec
/// access loses its `lui` and `add` and addresses `tp` where its offset is a
/// signed number of 12 bits; an absolute one loses its `lui` and addresses
/// `x0` where its address is. A descriptor sequence that is no dynamic access
/// loses its first two instructions, and its third where it is local and near
/// `tp`. Only padding is trimmed.
pub open spec fn is_allowed(
    pass: Pass,
    section: SectionInput,
    address: u64,
    e: Edit,
) -> bool {
    let i = e.seq as int;
    let rel = section.relocs@[i];
    let jalr = crate::bytes::u32_at(section.data@, rel.offset + 4);
    let old = crate::bytes::u32_at(section.data@, rel.offset as int);
    let loc = address.wrapping_add(rel.offset).wrapping_sub((e.delta - e.remove) as u64);
    let to = pass.spec_target(section.file, rel.symbol, rel.addend, true);
    let at = pass.spec_target(section.file, rel.symbol, rel.addend, false);
    let away = (to->0).wrapping_sub(loc) as i64;
    &&& i < section.relocs@.len()
    &&& e.offset == rel.offset
    &&& match e.rewrite {
        Rewrite::Align { .. } => rel.r_type == 43,
        Rewrite::Delete => {
            &&& e.remove == 4
            &&& pass.relax
            &&& {
                ||| (rel.r_type == 29 || rel.r_type == 32) && may_shrink(pass, section, i)
                    && near_thread_pointer(pass, section, rel)
                ||| rel.r_type == 26 && may_shrink(pass, section, i) && at is Some && -2048 <= (
                (at->0) as i64) && ((at->0) as i64) < 2048
                ||| rel.r_type == 62 && starts_fixed_access(pass, section, i)
                ||| rel.r_type == 63 && exists|j: int|
                    0 <= j < i && #[trigger] starts_fixed_access(pass, section, j)
                ||| rel.r_type == 64 && exists|j: int|
                    0 <= j < i && #[trigger] starts_fixed_access(pass, section, j)
                        && near_thread_pointer(pass, section, section.relocs@[j])
                        && pass.spec_tls_mode(section.file, section.relocs@[j].symbol)
                        == TlsMode::LocalExec
            }
        },
        Rewrite::Replace { word, len, r_type } => {
            ||| {
                &&& r_type == 17
                &&& rel.r_type == 18 || rel.r_type == 19
                &&& may_shrink(pass, section, i)
                &&& e.remove == 4 && len == 4
                &&& jalr is Some && to is Some
                &&& word & 0x7f == 0x6f
                &&& (word >> 7) & 0x1f == (jalr->0 >> 7) & 0x1f
                &&& word >> 12 == 0
                &&& e.delta < u64::MAX ==> -0x10_0000 <= away < 0x10_0000
            }
            ||| {
                &&& r_type == 45
                &&& rel.r_type == 18 || rel.r_type == 19
                &&& may_shrink(pass, section, i)
                &&& e.remove == 6 && len == 2
                &&& jalr is Some && to is Some
                &&& word == 0xa001
                &&& (jalr->0 >> 7) & 0x1f == 0
                &&& section.e_flags & 1 != 0
                &&& e.delta < u64::MAX ==> -0x800 <= away < 0x800
            }
            ||| {
                &&& r_type == 0
                &&& rel.r_type == 30 || rel.r_type == 31
                &&& may_shrink(pass, section, i)
                &&& e.remove == 0 && len == 4
                &&& near_thread_pointer(pass, section, rel)
                &&& old is Some
                &&& (word >> 15) & 0x1f == 4
                &&& {
                    let near = ((at->0).wrapping_sub(pass.tp->0) as u32) as i32;
                    if rel.r_type == 30 {
                        word & 0x7fff == old->0 & 0x7fff && (word as i32) >> 20 == near
                    } else {
                        word & 0x01f0_707f == old->0 & 0x01f0_707f && ((word as i32) >> 25) << 5
                            | (((word >> 7) & 0x1f) as i32) == near
                    }
                }
            }
        },
        Rewrite::Retype(t) => {
            &&& t == 0x100
            &&& rel.r_type == 27 || rel.r_type == 28
            &&& may_shrink(pass, section, i)
            &&& e.remove == 0
            &&& at is Some && -2048 <= (at->0) as i64 && ((at->0) as i64) < 2048
        },
    }
}

/// Whether what is known of a descriptor sequence goes back to where one
/// starts before relocation `i`.
spec fn is_founded(pass: Pass, section: SectionInput, d: Descriptor, i: int) -> bool {
    &&& d.relax && d.fixed ==> exists|j: int|
        0 <= j < i && #[trigger] starts_fixed_access(pass, section, j)
    &&& d.short ==> exists|j: int|
        0 <= j < i && #[trigger] starts_fixed_access(pass, section, j) && near_thread_pointer(
            pass,
            section,
            section.relocs@[j],
        ) && pass.spec_tls_mode(section.file, section.relocs@[j].symbol) == TlsMode::LocalExec
}

/// The upper part of a distance is nothing where the distance is a signed
/// number of 12 bits.
proof fn short_distances(v: u64)
    ensures
        hi20(v) == 0 <==> (-2048 <= ((v as u32) as i32) && ((v as u32) as i32) < 2048),
{
    let x = (v as u32).wrapping_add(0x800);
    relaxed_words(0, x);
    relaxed_words(0, v as u32);
}

/// What is decided of one relocation is allowed.
proof fn one_is_allowed(
    pass: Pass,
    section: SectionInput,
    address: u64,
    state: Deciding,
    i: int,
)
    requires
        0 <= i < section.relocs@.len(),
        i < u32::MAX,
        is_founded(pass, section, state.descriptor, i),
    ensures
        ({
            let rel = section.relocs@[i];
            let loc = address.wrapping_add(rel.offset).wrapping_sub(state.delta);
            match spec_decide_one(
                pass,
                section,
                i as u32,
                loc,
                rel,
                is_marked(pass, section.relocs@, i),
                state.descriptor,
            ) {
                Err(_) => true,
                Ok((edit, d)) => {
                    &&& is_founded(pass, section, d, i + 1)
                    &&& edit matches Some((remove, rewrite)) ==> is_allowed(
                        pass,
                        section,
                        address,
                        crate::elf::arch::shrink::edit_added(
                            state.edits,
                            state.delta,
                            section,
                            i as u32,
                            rel.offset,
                            remove,
                            rewrite,
                        ).last(),
                    )
                },
            }
        }),
{
    let rel = section.relocs@[i];
    let loc = address.wrapping_add(rel.offset).wrapping_sub(state.delta);
    vstd::arithmetic::power2::lemma2_to64();
    assert(vstd::arithmetic::power2::pow2(11) == 0x800);
    assert(vstd::arithmetic::power2::pow2(20) == 0x10_0000);
    if let Some(jalr) = crate::bytes::u32_at(section.data@, rel.offset + 4) {
        relaxed_words(jalr, 0);
    }
    if let (Some(tp), Some(s)) = (
        pass.tp,
        pass.spec_target(section.file, rel.symbol, rel.addend, false),
    ) {
        let v = s.wrapping_sub(tp);
        short_distances(v);
        if let Some(old) = crate::bytes::u32_at(section.data@, rel.offset as int) {
            relaxed_words(old, v as u32);
        }
    }
    if rel.r_type == R_RISCV_TLSDESC_HI20 {
        let d = spec_descriptor(pass, section, rel, is_marked(pass, section.relocs@, i));
        if d.relax && d.fixed {
            assert(starts_fixed_access(pass, section, i));
        }
        if d.short {
            assert(starts_fixed_access(pass, section, i));
        }
    } else {
        let d = state.descriptor;
        if d.relax && d.fixed {
            let j = choose|j: int| 0 <= j < i && #[trigger] starts_fixed_access(pass, section, j);
            assert(0 <= j < i + 1 && starts_fixed_access(pass, section, j));
        }
        if d.short {
            let j = choose|j: int|
                0 <= j < i && #[trigger] starts_fixed_access(pass, section, j)
                    && near_thread_pointer(pass, section, section.relocs@[j])
                    && pass.spec_tls_mode(section.file, section.relocs@[j].symbol)
                    == TlsMode::LocalExec;
            assert(0 <= j < i + 1 && starts_fixed_access(pass, section, j));
        }
    }
}

/// What is decided from relocation `i` on is allowed.
proof fn rest_is_allowed(
    pass: Pass,
    section: SectionInput,
    address: u64,
    state: Deciding,
    i: int,
)
    requires
        0 <= i,
        is_founded(pass, section, state.descriptor, i),
        forall|k: int|
            0 <= k < state.edits.len() ==> is_allowed(
                pass,
                section,
                address,
                #[trigger] state.edits[k],
            ),
    ensures
        decided_from(pass, section, address, state, i) matches Ok(edits) ==> forall|k: int|
            0 <= k < edits.len() ==> is_allowed(pass, section, address, #[trigger] edits[k]),
    decreases section.relocs@.len() - i,
{
    if i < section.relocs@.len() && i < u32::MAX {
        one_is_allowed(pass, section, address, state, i);
        let rel = section.relocs@[i];
        let loc = address.wrapping_add(rel.offset).wrapping_sub(state.delta);
        match spec_decide_one(
            pass,
            section,
            i as u32,
            loc,
            rel,
            is_marked(pass, section.relocs@, i),
            state.descriptor,
        ) {
            Err(_) => {},
            Ok((None, descriptor)) => {
                rest_is_allowed(
                    pass,
                    section,
                    address,
                    Deciding { descriptor, ..state },
                    i + 1,
                );
            },
            Ok((Some((remove, rewrite)), descriptor)) => {
                let edits = crate::elf::arch::shrink::edit_added(
                    state.edits,
                    state.delta,
                    section,
                    i as u32,
                    rel.offset,
                    remove,
                    rewrite,
                );
                assert forall|k: int| 0 <= k < edits.len() implies is_allowed(
                    pass,
                    section,
                    address,
                    #[trigger] edits[k],
                ) by {
                    if k < state.edits.len() {
                        assert(edits[k] == state.edits[k]);
                    } else {
                        assert(edits[k] == edits.last());
                    }
                }
                rest_is_allowed(
                    pass,
                    section,
                    address,
                    Deciding {
                        edits,
                        delta: crate::elf::arch::thunk::saturated(state.delta, remove as u64),
                        descriptor,
                    },
                    i + 1,
                );
            },
        }
    }
}

/// Relaxation changes code only in ways that keep what it does: every edit
/// of a section is allowed. So the instruction that replaces a call links the
/// register that the call does, reaches where it goes, and a jump that links
/// none replaces only a call that links none.
pub proof fn edits_keep_what_code_does(pass: Pass, section: SectionInput, address: u64)
    ensures
        spec_decide(pass, section, address) matches Ok(edits) ==> forall|k: int|
            0 <= k < edits.len() ==> is_allowed(pass, section, address, #[trigger] edits[k]),
{
    rest_is_allowed(
        pass,
        section,
        address,
        Deciding { edits: Seq::empty(), delta: 0, descriptor: no_descriptor() },
        0,
    );
}

/// A marked call shrinks wherever it can, as long as passes are free to: to a
/// `c.j` of 2 bytes where it links no register, is within 2 KiB and the
/// object has compressed instructions, otherwise to a `jal` of 4 bytes within
/// 1 MiB.
pub proof fn near_calls_shrink(
    pass: Pass,
    section: SectionInput,
    seq: u32,
    loc: u64,
    rel: Relocation,
    d: Descriptor,
)
    requires
        rel.r_type == 18 || rel.r_type == 19,
        pass.pass < 4,
        pass.spec_target(section.file, rel.symbol, rel.addend, true) is Some,
        crate::bytes::u32_at(section.data@, rel.offset + 4) is Some,
    ensures
        ({
            let to = pass.spec_target(section.file, rel.symbol, rel.addend, true)->0;
            let jalr = crate::bytes::u32_at(section.data@, rel.offset + 4)->0;
            let away = to.wrapping_sub(loc) as i64;
            let removed: int = match spec_decide_one(pass, section, seq, loc, rel, true, d) {
                Ok((Some((remove, _)), _)) => remove as int,
                _ => 0,
            };
            removed == (if -0x800 <= away < 0x800 && (jalr >> 7) & 0x1f == 0 && section.e_flags & 1
                != 0 {
                6
            } else if -0x10_0000 <= away < 0x10_0000 {
                4
            } else {
                0int
            })
        }),
{
    vstd::arithmetic::power2::lemma2_to64();
    assert(vstd::arithmetic::power2::pow2(11) == 0x800);
    assert(vstd::arithmetic::power2::pow2(20) == 0x10_0000);
}

/// Marked accesses near the thread pointer, and to addresses of 12 bits, lose
/// the instruction that makes the upper part, and padding is trimmed whether
/// relaxation is wanted or not.
pub proof fn short_accesses_shrink(
    pass: Pass,
    section: SectionInput,
    seq: u32,
    loc: u64,
    rel: Relocation,
    d: Descriptor,
)
    ensures
        (rel.r_type == 29 || rel.r_type == 32) && near_thread_pointer(pass, section, rel)
            ==> spec_decide_one(pass, section, seq, loc, rel, true, d) == Ok::<
            (Decided, Descriptor),
            Seq<char>,
        >((Some((4u32, Rewrite::Delete)), d)),
        rel.r_type == 26 && (pass.spec_target(section.file, rel.symbol, rel.addend, false)
            matches Some(v) && -2048 <= v as i64 && (v as i64) < 2048) ==> spec_decide_one(
            pass,
            section,
            seq,
            loc,
            rel,
            true,
            d,
        ) == Ok::<(Decided, Descriptor), Seq<char>>((Some((4u32, Rewrite::Delete)), d)),
        rel.r_type == 43 ==> forall|marked: bool| #[trigger]
            spec_decide_one(pass, section, seq, loc, rel, marked, d) == (match spec_trim(
                loc,
                rel.addend,
            ) {
                Ok(edit) => Ok((edit, d)),
                Err(what) => Err(what),
            }),
{
    vstd::arithmetic::power2::lemma2_to64();
    assert(vstd::arithmetic::power2::pow2(11) == 0x800);
    if let (Some(tp), Some(s)) = (
        pass.tp,
        pass.spec_target(section.file, rel.symbol, rel.addend, false),
    ) {
        short_distances(s.wrapping_sub(tp));
    }
}

} // verus!
