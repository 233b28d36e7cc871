//! Reading fixed-width integers, booleans and length-prefixed strings with a
//! cursor that only moves past what was read.
use crate::protocol::error::ProtocolError;
use crate::wire::{be_to_u16, be_to_u32, be_to_u64, read_u16_be, read_u32_be, read_u64_be, string_from_utf8};
use vstd::prelude::*;
use vstd::utf8::{decode_utf8, valid_utf8};
use vstd::slice::{slice_subrange, slice_to_vec};

verus! {

/// The error for a read of `n` bytes at `pos` that runs past the end of `data`.
pub open spec fn too_short(data: Seq<u8>, pos: int, n: int) -> ProtocolError {
    ProtocolError::PacketTooShort { expected: (pos + n) as usize, got: data.len() as usize }
}

/// Reading one byte at `pos`: the byte and the position after it.
pub open spec fn rd_u8(data: Seq<u8>, pos: int) -> Result<(u8, int), ProtocolError> {
    if pos + 1 <= data.len() {
        Ok((data[pos], pos + 1))
    } else {
        Err(too_short(data, pos, 1))
    }
}

/// Reading a big-endian `u16` at `pos`.
pub open spec fn rd_u16(data: Seq<u8>, pos: int) -> Result<(u16, int), ProtocolError> {
    if pos + 2 <= data.len() {
        Ok((be_to_u16(data.subrange(pos, pos + 2)), pos + 2))
    } else {
        Err(too_short(data, pos, 2))
    }
}

/// Reading a big-endian `u32` at `pos`.
pub open spec fn rd_u32(data: Seq<u8>, pos: int) -> Result<(u32, int), ProtocolError> {
    if pos + 4 <= data.len() {
        Ok((be_to_u32(data.subrange(pos, pos + 4)), pos + 4))
    } else {
        Err(too_short(data, pos, 4))
    }
}

/// Reading a big-endian `u64` at `pos`.
pub open spec fn rd_u64(data: Seq<u8>, pos: int) -> Result<(u64, int), ProtocolError> {
    if pos + 8 <= data.len() {
        Ok((be_to_u64(data.subrange(pos, pos + 8)), pos + 8))
    } else {
        Err(too_short(data, pos, 8))
    }
}

/// Reading a boolean at `pos`: any non-zero byte is `true`.
pub open spec fn rd_bool(data: Seq<u8>, pos: int) -> Result<(bool, int), ProtocolError> {
    match rd_u8(data, pos) {
        Ok((b, q)) => Ok((b != 0, q)),
        Err(e) => Err(e),
    }
}

/// Reading a string at `pos`: a big-endian `u16` byte length, then that many
/// bytes of UTF-8.
pub open spec fn rd_string(data: Seq<u8>, pos: int) -> Result<(Seq<char>, int), ProtocolError> {
    match rd_u16(data, pos) {
        Err(e) => Err(e),
        Ok((len, q)) => {
            if q + len <= data.len() {
                let bytes = data.subrange(q, q + len);
                if valid_utf8(bytes) {
                    Ok((decode_utf8(bytes), q + len))
                } else {
                    Err(ProtocolError::InvalidUtf8)
                }
            } else {
                Err(too_short(data, q, len as int))
            }
        },
    }
}

/// Where the cursor stands after a string read at `pos`, whether or not it
/// succeeded: past the length once the length was read, past the bytes once
/// they were there.
pub open spec fn rd_string_cursor(data: Seq<u8>, pos: int) -> int {
    match rd_u16(data, pos) {
        Err(_) => pos,
        Ok((len, q)) => if q + len <= data.len() {
            q + len
        } else {
            q
        },
    }
}

/// Helper for reading binary data with automatic cursor advancement.
pub struct Reader<'a> {
    data: &'a [u8],
    pos: usize,
}

impl<'a> Reader<'a> {
    #[verifier::type_invariant]
    spec fn inv(&self) -> bool {
        self.pos <= self.data@.len() <= isize::MAX
    }

    /// The bytes being read.
    pub closed spec fn bytes(&self) -> Seq<u8> {
        self.data@
    }

    /// The position of the next byte to read.
    pub closed spec fn cursor(&self) -> int {
        self.pos as int
    }

    /// A reader at the start of `data`.
    pub fn new(data: &'a [u8]) -> (r: Self)
        requires
            data@.len() <= isize::MAX,
        ensures
            r.bytes() == data@,
            r.cursor() == 0,
    {
        Self { data, pos: 0 }
    }

    pub fn read_u8(&mut self) -> (res: Result<u8, ProtocolError>)
        ensures
            final(self).bytes() == old(self).bytes(),
            match rd_u8(old(self).bytes(), old(self).cursor()) {
                Ok((v, q)) => res == Ok::<u8, ProtocolError>(v) && final(self).cursor() == q,
                Err(e) => res == Err::<u8, ProtocolError>(e) && final(self).cursor() == old(
                    self,
                ).cursor(),
            },
    {
        proof {
            use_type_invariant(&*self);
        }
        if self.pos < self.data.len() {
            let value = self.data[self.pos];
            self.pos = self.pos + 1;
            Ok(value)
        } else {
            Err(ProtocolError::PacketTooShort { expected: self.pos + 1, got: self.data.len() })
        }
    }

    pub fn read_u16(&mut self) -> (res: Result<u16, ProtocolError>)
        ensures
            final(self).bytes() == old(self).bytes(),
            match rd_u16(old(self).bytes(), old(self).cursor()) {
                Ok((v, q)) => res == Ok::<u16, ProtocolError>(v) && final(self).cursor() == q,
                Err(e) => res == Err::<u16, ProtocolError>(e) && final(self).cursor() == old(
                    self,
                ).cursor(),
            },
    {
        proof {
            use_type_invariant(&*self);
        }
        if self.data.len() - self.pos >= 2 {
            let value = read_u16_be(self.data, self.pos);
            self.pos = self.pos + 2;
            Ok(value)
        } else {
            Err(ProtocolError::PacketTooShort { expected: self.pos + 2, got: self.data.len() })
        }
    }

    pub fn read_u32(&mut self) -> (res: Result<u32, ProtocolError>)
        ensures
            final(self).bytes() == old(self).bytes(),
            match rd_u32(old(self).bytes(), old(self).cursor()) {
                Ok((v, q)) => res == Ok::<u32, ProtocolError>(v) && final(self).cursor() == q,
                Err(e) => res == Err::<u32, ProtocolError>(e) && final(self).cursor() == old(
                    self,
                ).cursor(),
            },
    {
        proof {
            use_type_invariant(&*self);
        }
        if self.data.len() - self.pos >= 4 {
            let value = read_u32_be(self.data, self.pos);
            self.pos = self.pos + 4;
            Ok(value)
        } else {
            Err(ProtocolError::PacketTooShort { expected: self.pos + 4, got: self.data.len() })
        }
    }

    pub fn read_u64(&mut self) -> (res: Result<u64, ProtocolError>)
        ensures
            final(self).bytes() == old(self).bytes(),
            match rd_u64(old(self).bytes(), old(self).cursor()) {
                Ok((v, q)) => res == Ok::<u64, ProtocolError>(v) && final(self).cursor() == q,
                Err(e) => res == Err::<u64, ProtocolError>(e) && final(self).cursor() == old(
                    self,
                ).cursor(),
            },
    {
        proof {
            use_type_invariant(&*self);
        }
        if self.data.len() - self.pos >= 8 {
            let value = read_u64_be(self.data, self.pos);
            self.pos = self.pos + 8;
            Ok(value)
        } else {
            Err(ProtocolError::PacketTooShort { expected: self.pos + 8, got: self.data.len() })
        }
    }

    pub fn read_bool(&mut self) -> (res: Result<bool, ProtocolError>)
        ensures
            final(self).bytes() == old(self).bytes(),
            match rd_bool(old(self).bytes(), old(self).cursor()) {
                Ok((v, q)) => res == Ok::<bool, ProtocolError>(v) && final(self).cursor() == q,
                Err(e) => res == Err::<bool, ProtocolError>(e) && final(self).cursor() == old(
                    self,
                ).cursor(),
            },
    {
        match self.read_u8() {
            Ok(b) => Ok(b != 0),
            Err(e) => Err(e),
        }
    }

    pub fn read_string(&mut self) -> (res: Result<String, ProtocolError>)
        ensures
            final(self).bytes() == old(self).bytes(),
            final(self).cursor() == rd_string_cursor(old(self).bytes(), old(self).cursor()),
            match rd_string(old(self).bytes(), old(self).cursor()) {
                Ok((s, _)) => res matches Ok(r) && r@ == s,
                Err(e) => res == Err::<String, ProtocolError>(e),
            },
    {
        proof {
            use_type_invariant(&*self);
        }
        let len = match self.read_u16() {
            Ok(l) => l as usize,
            Err(e) => return Err(e),
        };
        proof {
            use_type_invariant(&*self);
        }
        if self.data.len() - self.pos < len {
            return Err(ProtocolError::PacketTooShort { expected: self.pos + len, got: self.data.len() });
        }
        let start = self.pos;
        let bytes = slice_subrange(self.data, start, start + len);
        self.pos = start + len;
        match string_from_utf8(slice_to_vec(bytes)) {
            Some(s) => Ok(s),
            None => Err(ProtocolError::InvalidUtf8),
        }
    }

    /// The bytes not read yet: all of them from the position on.
    pub fn remaining(&self) -> (rest: &'a [u8])
        ensures
            0 <= self.cursor() <= self.bytes().len(),
            rest@ == self.bytes().subrange(self.cursor(), self.bytes().len() as int),
            rest@.len() == self.bytes().len() - self.cursor(),
    {
        proof {
            use_type_invariant(self);
        }
        slice_subrange(self.data, self.pos, self.data.len())
    }

    /// The position of the next byte to read, never past the end of the
    /// bytes, whatever reads came before.
    pub fn position(&self) -> (pos: usize)
        ensures
            pos == self.cursor(),
            pos <= self.bytes().len(),
    {
        proof {
            use_type_invariant(self);
        }
        self.pos
    }
}

} // verus!
