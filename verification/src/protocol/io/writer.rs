//! Building a payload by appending fields to a growing buffer.
use crate::wire::{push_bytes, push_u16_be, push_u32_be, push_u64_be, u16_be, u32_be, u64_be, utf8};
use vstd::prelude::*;

verus! {

/// The bytes of a length-prefixed string field.
pub open spec fn string_field(s: Seq<char>) -> Seq<u8> {
    u16_be(utf8(s).len() as u16) + utf8(s)
}

/// The byte of a boolean field.
pub open spec fn bool_byte(b: bool) -> u8 {
    if b {
        1
    } else {
        0
    }
}

/// Helper for building binary payloads.
pub struct Writer {
    buf: Vec<u8>,
}

impl View for Writer {
    type V = Seq<u8>;

    closed spec fn view(&self) -> Seq<u8> {
        self.buf@
    }
}

impl Writer {
    pub fn new() -> (w: Self)
        ensures
            w@ == Seq::<u8>::empty(),
    {
        Writer { buf: Vec::new() }
    }

    pub fn write_u8(&mut self, value: u8)
        ensures
            final(self)@ == old(self)@.push(value),
    {
        self.buf.push(value);
    }

    pub fn write_u16(&mut self, value: u16)
        ensures
            final(self)@ == old(self)@ + u16_be(value),
    {
        push_u16_be(&mut self.buf, value);
    }

    pub fn write_u32(&mut self, value: u32)
        ensures
            final(self)@ == old(self)@ + u32_be(value),
    {
        push_u32_be(&mut self.buf, value);
    }

    pub fn write_u64(&mut self, value: u64)
        ensures
            final(self)@ == old(self)@ + u64_be(value),
    {
        push_u64_be(&mut self.buf, value);
    }

    pub fn write_bool(&mut self, value: bool)
        ensures
            final(self)@ == old(self)@.push(bool_byte(value)),
    {
        self.buf.push(if value {
            1u8
        } else {
            0u8
        });
    }

    /// Writes a length-prefixed string; its UTF-8 must fit a `u16` length.
    pub fn write_string(&mut self, s: &str)
        requires
            utf8(s@).len() <= u16::MAX,
        ensures
            final(self)@ == old(self)@ + string_field(s@),
    {
        let bytes = s.as_bytes();
        let len = bytes.len() as u16;
        push_u16_be(&mut self.buf, len);
        push_bytes(&mut self.buf, bytes);
        assert(self.buf@ =~= old(self)@ + string_field(s@));
    }

    pub fn write_bytes(&mut self, bytes: &[u8])
        ensures
            final(self)@ == old(self)@ + bytes@,
    {
        push_bytes(&mut self.buf, bytes);
    }

    pub fn position(&self) -> (pos: usize)
        ensures
            pos == self@.len(),
    {
        self.buf.len()
    }

    /// Appends two zero bytes to be filled in later; returns where they start.
    pub fn reserve_u16(&mut self) -> (pos: usize)
        ensures
            pos == old(self)@.len(),
            final(self)@ == old(self)@ + seq![0u8, 0u8],
    {
        let pos = self.buf.len();
        self.buf.push(0u8);
        self.buf.push(0u8);
        assert(self.buf@ =~= old(self)@ + seq![0u8, 0u8]);
        pos
    }

    /// Overwrites the two bytes at `pos` with the big-endian `value`.
    pub fn write_u16_at(&mut self, pos: usize, value: u16)
        requires
            pos + 2 <= old(self)@.len(),
        ensures
            final(self)@ == old(self)@.update(pos as int, u16_be(value)[0]).update(
                pos + 1,
                u16_be(value)[1],
            ),
    {
        let len = self.buf.len();
        assert(pos + 1 < len);
        self.buf.set(pos, (value >> 8u16) as u8);
        self.buf.set(pos + 1, value as u8);
    }

    pub fn into_vec(self) -> (v: Vec<u8>)
        ensures
            v@ == self@,
    {
        self.buf
    }
}

} // verus!
