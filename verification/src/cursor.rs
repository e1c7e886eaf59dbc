use vstd::prelude::*;
use vstd::bytes::{spec_u16_from_le_bytes, spec_u32_from_le_bytes, u16_from_le_bytes,
    u32_from_le_bytes};
use vstd::slice::slice_subrange;
use crate::errors::DecodeError;

verus! {

/// A seekable little-endian reader over an in-memory byte buffer. Every read
/// advances the position; a read past the end fails with `ShortRead` and
/// leaves the cursor where it was. The position may point past the end (a
/// seek never reads), only reads are bounds-checked.
pub struct ByteCursor {
    data: Vec<u8>,
    pos: usize,
}

/// The signed 32-bit value stored little-endian in `s` (`s` is 4 bytes).
pub open spec fn spec_i32_from_le_bytes(s: Seq<u8>) -> i32 {
    spec_u32_from_le_bytes(s) as i32
}

/// The signed 16-bit value stored little-endian in `s` (`s` is 2 bytes).
pub open spec fn spec_i16_from_le_bytes(s: Seq<u8>) -> i16 {
    spec_u16_from_le_bytes(s) as i16
}

/// The next 4-byte boundary at or after `pos`, counted from `region`.
pub open spec fn spec_align4(region: int, pos: int) -> int {
    region + ((pos - region + 3) / 4) * 4
}

/// A cursor's position is a machine word: never negative and never above
/// `usize::MAX`.
pub broadcast proof fn lemma_cursor_position_wf(c: ByteCursor)
    ensures
        0 <= #[trigger] c.position() <= usize::MAX,
        c.bytes().len() <= usize::MAX,
{
    broadcast use vstd::std_specs::vec::axiom_spec_len;
    assert(vstd::std_specs::vec::spec_vec_len(&c.data) == c.data@.len());
}

impl ByteCursor {
    /// The whole underlying buffer; reads and seeks never change it.
    pub closed spec fn bytes(&self) -> Seq<u8> {
        self.data@
    }

    /// The current read position.
    pub closed spec fn position(&self) -> int {
        self.pos as int
    }

    /// True when `n` more bytes can be read from the current position.
    pub open spec fn can_read(&self, n: int) -> bool {
        self.position() + n <= self.bytes().len()
    }

    pub fn new(data: Vec<u8>) -> (c: ByteCursor)
        ensures
            c.bytes() == data@,
            c.position() == 0,
    {
        ByteCursor { data, pos: 0 }
    }

    pub fn tell(&self) -> (p: usize)
        ensures
            p as int == self.position(),
    {
        self.pos
    }

    pub fn len(&self) -> (n: usize)
        ensures
            n as int == self.bytes().len(),
    {
        self.data.len()
    }

    pub fn seek_absolute(&mut self, p: usize)
        ensures
            final(self).bytes() == old(self).bytes(),
            final(self).position() == p as int,
    {
        self.pos = p;
    }

    /// Moves the position by `delta`; fails (and stays put) when the target
    /// would be negative or would not fit in a machine word.
    pub fn seek_relative(&mut self, delta: i64) -> (r: Result<(), DecodeError>)
        ensures
            final(self).bytes() == old(self).bytes(),
            match r {
                Ok(()) => {
                    &&& 0 <= old(self).position() + delta <= usize::MAX
                    &&& final(self).position() == old(self).position() + delta
                },
                Err(e) => {
                    &&& e == DecodeError::ShortRead
                    &&& final(self).position() == old(self).position()
                    &&& (old(self).position() + delta < 0 || old(self).position() + delta
                        > usize::MAX)
                },
            },
    {
        if delta >= 0 {
            let d: u64 = delta as u64;
            if d <= usize::MAX as u64 && self.pos <= usize::MAX - (d as usize) {
                self.pos = self.pos + (d as usize);
                Ok(())
            } else {
                Err(DecodeError::ShortRead)
            }
        } else {
            // delta < 0, so the magnitude fits in 63 bits and the negation
            // cannot overflow.
            let back: u64 = (-(delta + 1)) as u64 + 1;
            if back <= self.pos as u64 {
                self.pos = self.pos - (back as usize);
                Ok(())
            } else {
                Err(DecodeError::ShortRead)
            }
        }
    }

    /// Rounds the position up to the next 4-byte boundary counted from
    /// `region_start`. The binary format aligns each table to 4 bytes
    /// relative to the start of the data region, without padding the
    /// variable-length arrays that precede it.
    pub fn align_to_region(&mut self, region_start: usize) -> (r: Result<(), DecodeError>)
        ensures
            final(self).bytes() == old(self).bytes(),
            match r {
                Ok(()) => {
                    &&& region_start <= old(self).position()
                    &&& old(self).position() + 3 <= usize::MAX
                    &&& final(self).position() == spec_align4(
                        region_start as int,
                        old(self).position(),
                    )
                },
                Err(e) => {
                    &&& e == DecodeError::ShortRead
                    &&& final(self).position() == old(self).position()
                    &&& (region_start > old(self).position() || old(self).position() + 3
                        > usize::MAX)
                },
            },
    {
        if region_start <= self.pos && self.pos <= usize::MAX - 3 {
            let offset: usize = self.pos - region_start;
            let rounded: usize = ((offset + 3) / 4) * 4;
            assert(offset <= rounded <= offset + 3) by (nonlinear_arith)
                requires rounded == ((offset + 3) / 4) * 4 && offset + 3 <= usize::MAX;
            self.pos = region_start + rounded;
            Ok(())
        } else {
            Err(DecodeError::ShortRead)
        }
    }

    /// Reads `n` bytes into a fresh vector.
    pub fn read_exact(&mut self, n: usize) -> (r: Result<Vec<u8>, DecodeError>)
        ensures
            final(self).bytes() == old(self).bytes(),
            match r {
                Ok(v) => {
                    &&& old(self).can_read(n as int)
                    &&& v@ == old(self).bytes().subrange(old(self).position(), old(
                        self,
                    ).position() + n)
                    &&& final(self).position() == old(self).position() + n
                },
                Err(e) => {
                    &&& e == DecodeError::ShortRead
                    &&& !old(self).can_read(n as int)
                    &&& final(self).position() == old(self).position()
                },
            },
    {
        if n <= self.data.len() && self.pos <= self.data.len() - n {
            let s = slice_subrange(self.data.as_slice(), self.pos, self.pos + n);
            let v = vstd::slice::slice_to_vec(s);
            self.pos = self.pos + n;
            Ok(v)
        } else {
            Err(DecodeError::ShortRead)
        }
    }
}

/// Reads one byte.
pub fn read_u8(c: &mut ByteCursor) -> (r: Result<u8, DecodeError>)
    ensures
        final(c).bytes() == old(c).bytes(),
        match r {
            Ok(b) => {
                &&& old(c).can_read(1)
                &&& b == old(c).bytes()[old(c).position()]
                &&& final(c).position() == old(c).position() + 1
            },
            Err(e) => {
                &&& e == DecodeError::ShortRead
                &&& !old(c).can_read(1)
                &&& final(c).position() == old(c).position()
            },
        },
{
    if c.pos < c.data.len() {
        let b = c.data[c.pos];
        c.pos = c.pos + 1;
        Ok(b)
    } else {
        Err(DecodeError::ShortRead)
    }
}

/// Reads a little-endian unsigned 16-bit integer.
pub fn read_u16(c: &mut ByteCursor) -> (r: Result<u16, DecodeError>)
    ensures
        final(c).bytes() == old(c).bytes(),
        match r {
            Ok(v) => {
                &&& old(c).can_read(2)
                &&& v == spec_u16_from_le_bytes(old(c).bytes().subrange(old(c).position(), old(
                    c,
                ).position() + 2))
                &&& final(c).position() == old(c).position() + 2
            },
            Err(e) => {
                &&& e == DecodeError::ShortRead
                &&& !old(c).can_read(2)
                &&& final(c).position() == old(c).position()
            },
        },
{
    if 2 <= c.data.len() && c.pos <= c.data.len() - 2 {
        let s = slice_subrange(c.data.as_slice(), c.pos, c.pos + 2);
        let v = u16_from_le_bytes(s);
        c.pos = c.pos + 2;
        Ok(v)
    } else {
        Err(DecodeError::ShortRead)
    }
}

/// Reads a little-endian signed 16-bit integer.
pub fn read_i16(c: &mut ByteCursor) -> (r: Result<i16, DecodeError>)
    ensures
        final(c).bytes() == old(c).bytes(),
        match r {
            Ok(v) => {
                &&& old(c).can_read(2)
                &&& v == spec_i16_from_le_bytes(old(c).bytes().subrange(old(c).position(), old(
                    c,
                ).position() + 2))
                &&& final(c).position() == old(c).position() + 2
            },
            Err(e) => {
                &&& e == DecodeError::ShortRead
                &&& !old(c).can_read(2)
                &&& final(c).position() == old(c).position()
            },
        },
{
    match read_u16(c) {
        Ok(v) => Ok(v as i16),
        Err(e) => Err(e),
    }
}

/// Reads a little-endian unsigned 32-bit integer.
pub fn read_u32(c: &mut ByteCursor) -> (r: Result<u32, DecodeError>)
    ensures
        final(c).bytes() == old(c).bytes(),
        match r {
            Ok(v) => {
                &&& old(c).can_read(4)
                &&& v == spec_u32_from_le_bytes(old(c).bytes().subrange(old(c).position(), old(
                    c,
                ).position() + 4))
                &&& final(c).position() == old(c).position() + 4
            },
            Err(e) => {
                &&& e == DecodeError::ShortRead
                &&& !old(c).can_read(4)
                &&& final(c).position() == old(c).position()
            },
        },
{
    if 4 <= c.data.len() && c.pos <= c.data.len() - 4 {
        let s = slice_subrange(c.data.as_slice(), c.pos, c.pos + 4);
        let v = u32_from_le_bytes(s);
        c.pos = c.pos + 4;
        Ok(v)
    } else {
        Err(DecodeError::ShortRead)
    }
}

/// Reads a little-endian signed 32-bit integer.
pub fn read_i32(c: &mut ByteCursor) -> (r: Result<i32, DecodeError>)
    ensures
        final(c).bytes() == old(c).bytes(),
        match r {
            Ok(v) => {
                &&& old(c).can_read(4)
                &&& v == spec_i32_from_le_bytes(old(c).bytes().subrange(old(c).position(), old(
                    c,
                ).position() + 4))
                &&& final(c).position() == old(c).position() + 4
            },
            Err(e) => {
                &&& e == DecodeError::ShortRead
                &&& !old(c).can_read(4)
                &&& final(c).position() == old(c).position()
            },
        },
{
    match read_u32(c) {
        Ok(v) => Ok(v as i32),
        Err(e) => Err(e),
    }
}

/// Reads the raw bit pattern of a little-endian 32-bit float. The library
/// never interprets the pattern; callers turn it into a number.
pub fn read_f32_bits(c: &mut ByteCursor) -> (r: Result<u32, DecodeError>)
    ensures
        final(c).bytes() == old(c).bytes(),
        match r {
            Ok(v) => {
                &&& old(c).can_read(4)
                &&& v == spec_u32_from_le_bytes(old(c).bytes().subrange(old(c).position(), old(
                    c,
                ).position() + 4))
                &&& final(c).position() == old(c).position() + 4
            },
            Err(e) => {
                &&& e == DecodeError::ShortRead
                &&& !old(c).can_read(4)
                &&& final(c).position() == old(c).position()
            },
        },
{
    read_u32(c)
}

} // verus!
