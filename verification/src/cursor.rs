//! A byte buffer with a movable read position and little-endian scalar reads.
//!
//! Every read either returns the value described by the spec functions below
//! and advances the position, or fails with `UnknownError` and leaves the
//! cursor unchanged; no read ever panics.

use vstd::prelude::*;

use crate::EQFilesError;

verus! {

/// The little-endian 16-bit value stored at offset `p` of `s`.
pub open spec fn le16_at(s: Seq<u8>, p: int) -> u16
    recommends
        0 <= p,
        p + 2 <= s.len(),
{
    (s[p] + s[p + 1] * 0x100) as u16
}

/// The little-endian 32-bit value stored at offset `p` of `s`.
pub open spec fn le32_at(s: Seq<u8>, p: int) -> u32
    recommends
        0 <= p,
        p + 4 <= s.len(),
{
    (s[p] + s[p + 1] * 0x100 + s[p + 2] * 0x10000 + s[p + 3] * 0x1000000) as u32
}

/// Two's-complement reinterpretation of a 32-bit value.
pub open spec fn as_signed32(v: u32) -> i32 {
    if v < 0x8000_0000 {
        v as i32
    } else {
        (v - 0x1_0000_0000) as i32
    }
}

/// Two's-complement reinterpretation of a 16-bit value.
pub open spec fn as_signed16(v: u16) -> i16 {
    if v < 0x8000 {
        v as i16
    } else {
        (v - 0x1_0000) as i16
    }
}

/// Two's-complement reinterpretation of a byte.
pub open spec fn as_signed8(v: u8) -> i8 {
    if v < 0x80 {
        v as i8
    } else {
        (v - 0x100) as i8
    }
}

/// Reinterprets a 32-bit value as signed without any run-time branching cost
/// beyond a comparison, and without overflow.
pub fn signed32(v: u32) -> (r: i32)
    ensures
        r == as_signed32(v),
{
    if v <= 0x7FFF_FFFF {
        v as i32
    } else {
        -((u32::MAX - v) as i32) - 1
    }
}

/// Reinterprets a 16-bit value as signed.
pub fn signed16(v: u16) -> (r: i16)
    ensures
        r == as_signed16(v),
{
    if v <= 0x7FFF {
        v as i16
    } else {
        -((u16::MAX - v) as i16) - 1
    }
}

/// Reinterprets a byte as signed.
pub fn signed8(v: u8) -> (r: i8)
    ensures
        r == as_signed8(v),
{
    if v <= 0x7F {
        v as i8
    } else {
        -((u8::MAX - v) as i8) - 1
    }
}

/// An owned byte region with a read position.
pub struct ByteCursor {
    data: Vec<u8>,
    pos: usize,
}

impl ByteCursor {
    /// The whole underlying byte region, independent of the position.
    pub closed spec fn bytes(self) -> Seq<u8> {
        self.data@
    }

    /// The current read position.
    pub closed spec fn position(self) -> int {
        self.pos as int
    }

    pub open spec fn wf(self) -> bool {
        0 <= self.position() <= self.bytes().len()
    }

    /// Whether `n` more bytes can be read.
    pub open spec fn can_read(self, n: int) -> bool {
        self.position() + n <= self.bytes().len()
    }

    pub fn new(data: Vec<u8>) -> (r: ByteCursor)
        ensures
            r.bytes() == data@,
            r.position() == 0,
            r.wf(),
    {
        ByteCursor { data, pos: 0 }
    }

    pub fn remaining(&self) -> (r: usize)
        requires
            self.wf(),
        ensures
            r == self.bytes().len() - self.position(),
    {
        self.data.len() - self.pos
    }

    pub fn u8(&mut self) -> (r: Result<u8, EQFilesError>)
        requires
            old(self).wf(),
        ensures
            final(self).wf(),
            final(self).bytes() == old(self).bytes(),
            old(self).can_read(1) ==> r == Ok::<u8, EQFilesError>(
                old(self).bytes()[old(self).position()],
            ) && final(self).position() == old(self).position() + 1,
            !old(self).can_read(1) ==> r == Err::<u8, EQFilesError>(EQFilesError::UnknownError)
                && final(self).position() == old(self).position(),
    {
        if self.pos < self.data.len() {
            let b = self.data[self.pos];
            self.pos = self.pos + 1;
            Ok(b)
        } else {
            Err(EQFilesError::UnknownError)
        }
    }

    pub fn i8(&mut self) -> (r: Result<i8, EQFilesError>)
        requires
            old(self).wf(),
        ensures
            final(self).wf(),
            final(self).bytes() == old(self).bytes(),
            old(self).can_read(1) ==> r == Ok::<i8, EQFilesError>(
                as_signed8(old(self).bytes()[old(self).position()]),
            ) && final(self).position() == old(self).position() + 1,
            !old(self).can_read(1) ==> r == Err::<i8, EQFilesError>(EQFilesError::UnknownError)
                && final(self).position() == old(self).position(),
    {
        match self.u8() {
            Ok(v) => Ok(signed8(v)),
            Err(e) => Err(e),
        }
    }

    pub fn u16le(&mut self) -> (r: Result<u16, EQFilesError>)
        requires
            old(self).wf(),
        ensures
            final(self).wf(),
            final(self).bytes() == old(self).bytes(),
            old(self).can_read(2) ==> r == Ok::<u16, EQFilesError>(
                le16_at(old(self).bytes(), old(self).position()),
            ) && final(self).position() == old(self).position() + 2,
            !old(self).can_read(2) ==> r == Err::<u16, EQFilesError>(EQFilesError::UnknownError)
                && final(self).position() == old(self).position(),
    {
        if 2 <= self.data.len() - self.pos {
            let b0 = self.data[self.pos];
            let b1 = self.data[self.pos + 1];
            self.pos = self.pos + 2;
            Ok(b0 as u16 + b1 as u16 * 0x100)
        } else {
            Err(EQFilesError::UnknownError)
        }
    }

    pub fn i16le(&mut self) -> (r: Result<i16, EQFilesError>)
        requires
            old(self).wf(),
        ensures
            final(self).wf(),
            final(self).bytes() == old(self).bytes(),
            old(self).can_read(2) ==> r == Ok::<i16, EQFilesError>(
                as_signed16(le16_at(old(self).bytes(), old(self).position())),
            ) && final(self).position() == old(self).position() + 2,
            !old(self).can_read(2) ==> r == Err::<i16, EQFilesError>(EQFilesError::UnknownError)
                && final(self).position() == old(self).position(),
    {
        match self.u16le() {
            Ok(v) => Ok(signed16(v)),
            Err(e) => Err(e),
        }
    }

    pub fn u32le(&mut self) -> (r: Result<u32, EQFilesError>)
        requires
            old(self).wf(),
        ensures
            final(self).wf(),
            final(self).bytes() == old(self).bytes(),
            old(self).can_read(4) ==> r == Ok::<u32, EQFilesError>(
                le32_at(old(self).bytes(), old(self).position()),
            ) && final(self).position() == old(self).position() + 4,
            !old(self).can_read(4) ==> r == Err::<u32, EQFilesError>(EQFilesError::UnknownError)
                && final(self).position() == old(self).position(),
    {
        if 4 <= self.data.len() - self.pos {
            let b0 = self.data[self.pos];
            let b1 = self.data[self.pos + 1];
            let b2 = self.data[self.pos + 2];
            let b3 = self.data[self.pos + 3];
            self.pos = self.pos + 4;
            Ok(b0 as u32 + b1 as u32 * 0x100 + b2 as u32 * 0x10000 + b3 as u32 * 0x1000000)
        } else {
            Err(EQFilesError::UnknownError)
        }
    }

    pub fn i32le(&mut self) -> (r: Result<i32, EQFilesError>)
        requires
            old(self).wf(),
        ensures
            final(self).wf(),
            final(self).bytes() == old(self).bytes(),
            old(self).can_read(4) ==> r == Ok::<i32, EQFilesError>(
                as_signed32(le32_at(old(self).bytes(), old(self).position())),
            ) && final(self).position() == old(self).position() + 4,
            !old(self).can_read(4) ==> r == Err::<i32, EQFilesError>(EQFilesError::UnknownError)
                && final(self).position() == old(self).position(),
    {
        match self.u32le() {
            Ok(v) => Ok(signed32(v)),
            Err(e) => Err(e),
        }
    }

    /// Moves the read position to `pos`.
    pub fn seek(&mut self, pos: usize) -> (r: Result<(), EQFilesError>)
        requires
            old(self).wf(),
        ensures
            final(self).wf(),
            final(self).bytes() == old(self).bytes(),
            pos <= old(self).bytes().len() ==> r is Ok && final(self).position() == pos,
            pos > old(self).bytes().len() ==> r is Err && final(self).position() == old(
                self,
            ).position(),
    {
        if pos <= self.data.len() {
            self.pos = pos;
            Ok(())
        } else {
            Err(EQFilesError::UnknownError)
        }
    }

    /// Takes the next `n` bytes as an owned buffer.
    pub fn take(&mut self, n: usize) -> (r: Result<Vec<u8>, EQFilesError>)
        requires
            old(self).wf(),
        ensures
            final(self).wf(),
            final(self).bytes() == old(self).bytes(),
            old(self).can_read(n as int) ==> (match r {
                Ok(v) => v@ == old(self).bytes().subrange(
                    old(self).position(),
                    old(self).position() + n,
                ) && final(self).position() == old(self).position() + n,
                Err(_) => false,
            }),
            !old(self).can_read(n as int) ==> r == Err::<Vec<u8>, EQFilesError>(
                EQFilesError::UnknownError,
            ) && final(self).position() == old(self).position(),
    {
        if n <= self.data.len() - self.pos {
            let s = vstd::slice::slice_subrange(self.data.as_slice(), self.pos, self.pos + n);
            let v = vstd::slice::slice_to_vec(s);
            self.pos = self.pos + n;
            Ok(v)
        } else {
            Err(EQFilesError::UnknownError)
        }
    }
}

} // verus!
