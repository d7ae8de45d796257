//! What patching code does to a buffer.
//!
//! A rewrite is a chain of steps: a condition that must hold, or bytes
//! written at an offset. The first step that fails ends it; what was
//! written before stays.

use vstd::prelude::*;

use super::ApplyError;
use crate::arch::EncodeError;
use crate::bytes;
use crate::bytes::{byte_before, le32, store};

verus! {

/// The error of a field that cannot hold its value.
#[verifier::allow_in_spec]
pub fn refused(e: EncodeError) -> ApplyError
    returns
        (match e {
            EncodeError::Overflow => ApplyError::Overflow,
            EncodeError::BadInstruction => ApplyError::BadInstruction,
        }),
{
    match e {
        EncodeError::Overflow => ApplyError::Overflow,
        EncodeError::BadInstruction => ApplyError::BadInstruction,
    }
}

/// The outcome of a rewrite: the buffer's bytes, and whether every step
/// succeeded.
#[verifier::ext_equal]
pub struct Patched {
    /// The bytes of the buffer.
    pub bytes: Seq<u8>,
    /// The first error, if there was one.
    pub result: Result<(), ApplyError>,
}

impl Patched {
    /// Nothing done yet.
    pub open spec fn new(bytes: Seq<u8>) -> Self {
        Patched { bytes, result: Ok(()) }
    }

    /// The rewrite fails here.
    pub open spec fn fail(self, error: ApplyError) -> Self {
        if self.result is Ok {
            Patched { result: Err(error), ..self }
        } else {
            self
        }
    }

    /// The rewrite fails here unless `ok`.
    pub open spec fn require(self, ok: bool, error: ApplyError) -> Self {
        if ok {
            self
        } else {
            self.fail(error)
        }
    }

    /// Writes `b` at `at`; fails with `outside` when it does not lie inside
    /// the buffer.
    pub open spec fn write(self, at: int, b: Seq<u8>, outside: ApplyError) -> Self {
        if self.result is Err {
            self
        } else if bytes::inside(self.bytes, at, b.len() as int) {
            Patched { bytes: bytes::overlay(self.bytes, at, b), ..self }
        } else {
            self.fail(outside)
        }
    }

    /// `next`, unless an earlier step failed.
    pub open spec fn followed_by(self, next: Self) -> Self {
        if self.result is Ok {
            next
        } else {
            self
        }
    }

    /// Writes `b` at `at`, or fails with the error there is instead of it.
    pub open spec fn encoded(self, at: int, b: Result<Seq<u8>, EncodeError>) -> Self {
        match b {
            Ok(b) => self.write(at, b, ApplyError::OutOfBounds),
            Err(e) => self.fail(refused(e)),
        }
    }

    /// Writes one byte at `at`.
    pub open spec fn byte(self, at: int, b: u8) -> Self {
        self.write(at, seq![b], ApplyError::OutOfBounds)
    }

    /// Writes a little-endian instruction word at `at`.
    pub open spec fn word(self, at: int, w: u32) -> Self {
        self.write(at, bytes::spec_le32(w), ApplyError::OutOfBounds)
    }

    /// Copies `b` over the buffer at `at`, as [`copy_at`] does.
    pub open spec fn copy(self, at: int, b: Seq<u8>) -> Self {
        self.write(at, b, copy_error(at, b.len()))
    }

    /// Writes the low 32 bits of `v` at `at`; fails unless `v` is a signed
    /// 32-bit number.
    pub open spec fn write_i32(self, at: int, v: int) -> Self {
        self.require(i32::MIN <= v <= i32::MAX, ApplyError::Overflow).write(
            at,
            bytes::spec_le32((v as i64) as u32),
            ApplyError::OutOfBounds,
        )
    }
}

/// A rewrite never changes the length of the buffer.
pub proof fn patches_keep_the_length(p: Patched, at: int, b: Seq<u8>, outside: ApplyError)
    ensures
        p.write(at, b, outside).bytes.len() == p.bytes.len(),
        p.fail(outside).bytes == p.bytes,
{
}

/// Writes `b` at `at`.
///
/// # Errors
///
/// [`ApplyError::OutOfBounds`] when it does not lie inside `out`.
pub fn put_bytes(out: &mut [u8], at: u64, b: &[u8]) -> (r: Result<(), ApplyError>)
    ensures
        r == Patched::new(old(out)@).write(at as int, b@, ApplyError::OutOfBounds).result,
        final(out)@ == Patched::new(old(out)@).write(
            at as int,
            b@,
            ApplyError::OutOfBounds,
        ).bytes,
{
    if store(out, at, b) {
        Ok(())
    } else {
        Err(ApplyError::OutOfBounds)
    }
}

/// Writes instruction word `w` at `at`.
///
/// # Errors
///
/// [`ApplyError::OutOfBounds`] when it does not lie inside `out`.
pub fn put_word(out: &mut [u8], at: u64, w: u32) -> (r: Result<(), ApplyError>)
    ensures
        r == Patched::new(old(out)@).word(at as int, w).result,
        final(out)@ == Patched::new(old(out)@).word(at as int, w).bytes,
{
    let b: [u8; 4] = le32(w);
    put_bytes(out, at, &b)
}

/// Writes `value` at `back` bytes from `at`.
///
/// # Errors
///
/// [`ApplyError::OutOfBounds`] when it does not lie inside `out`.
pub fn put(out: &mut [u8], at: u64, back: i64, value: u8) -> (r: Result<(), ApplyError>)
    requires
        -16 <= back <= 16,
    ensures
        r == Patched::new(old(out)@).write(
            at + back,
            seq![value],
            ApplyError::OutOfBounds,
        ).result,
        final(out)@ == Patched::new(old(out)@).write(
            at + back,
            seq![value],
            ApplyError::OutOfBounds,
        ).bytes,
{
    let b: [u8; 1] = [value];
    assert(b@ =~= seq![value]);
    let position: Option<u64> = if back < 0 {
        at.checked_sub((-back) as u64)
    } else {
        at.checked_add(back as u64)
    };
    match position {
        Some(p) => put_bytes(out, p, &b),
        None => {
            let _len: usize = out.len();
            Err(ApplyError::OutOfBounds)
        },
    }
}

/// Byte `at - back`.
///
/// # Errors
///
/// [`ApplyError::BadInstruction`] when there is none.
pub fn get(out: &[u8], at: u64, back: u64) -> (r: Result<u8, ApplyError>)
    ensures
        r == (match crate::bytes::byte_at(out@, at - back) {
            Some(b) => Ok(b),
            None => Err(ApplyError::BadInstruction),
        }),
{
    match byte_before(out, at, back) {
        Some(b) => Ok(b),
        None => Err(ApplyError::BadInstruction),
    }
}

/// Writes `value` as a signed 32-bit number at `at`.
///
/// # Errors
///
/// [`ApplyError::Overflow`] when it is not one,
/// [`ApplyError::OutOfBounds`] when it does not lie inside `out`.
pub fn write_i32(out: &mut [u8], at: u64, value: i64) -> (r: Result<(), ApplyError>)
    ensures
        r == Patched::new(old(out)@).write_i32(at as int, value as int).result,
        final(out)@ == Patched::new(old(out)@).write_i32(at as int, value as int).bytes,
{
    if value < -0x8000_0000 || value > 0x7fff_ffff {
        return Err(ApplyError::Overflow);
    }
    let b: [u8; 4] = le32(value as u32);
    put_bytes(out, at, &b)
}

/// What [`copy_at`] fails with when `n` bytes at `at` do not lie inside the
/// buffer: an end beyond the address space is out of bounds, anything else
/// a sequence that is not what it should be.
pub open spec fn copy_error(at: int, n: nat) -> ApplyError {
    if at + n > usize::MAX {
        ApplyError::OutOfBounds
    } else {
        ApplyError::BadInstruction
    }
}

/// Copies `b` over `out` at `at`.
///
/// # Errors
///
/// [`ApplyError::BadInstruction`] when it does not lie inside `out`,
/// [`ApplyError::OutOfBounds`] when its end is no address.
pub fn copy_at(out: &mut [u8], at: u64, b: &[u8]) -> (r: Result<(), ApplyError>)
    ensures
        r == Patched::new(old(out)@).write(at as int, b@, copy_error(at as int, b@.len())).result,
        final(out)@ == Patched::new(old(out)@).write(
            at as int,
            b@,
            copy_error(at as int, b@.len()),
        ).bytes,
{
    if store(out, at, b) {
        return Ok(());
    }
    if at > usize::MAX as u64 {
        return Err(ApplyError::OutOfBounds);
    }
    match (at as usize).checked_add(b.len()) {
        Some(_) => Err(ApplyError::BadInstruction),
        None => Err(ApplyError::OutOfBounds),
    }
}

} // verus!
