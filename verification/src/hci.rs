//! The embedded host-controller command frame: a 16-bit little-endian opcode,
//! a one-byte parameter length, and the rest of the buffer as the parameter
//! bytes (a borrowed view, not truncated to the declared length).

use vstd::prelude::*;

use crate::endian::{le_u16_of, read_le_u16};
use crate::ParseError;

verus! {

/// A 16-bit command selector: the low 10 bits name the command within its
/// group (OCF), the high 6 bits name the group (OGF).
#[derive(Debug, Clone, Copy)]
pub struct Opcode(u16);

impl Opcode {
    /// The raw 16-bit value this opcode was decoded from.
    pub closed spec fn raw(self) -> u16 {
        self.0
    }

    /// The command field: the low 10 bits.
    pub fn ocf(&self) -> (r: u16)
        ensures
            r == self.raw() & 0x3ff,
            r <= 0x3ff,
    {
        proof {
            let v = self.0;
            assert(v & 0x3ff <= 0x3ff) by (bit_vector);
        }
        self.0 & 0x3ff
    }

    /// The group field: the high 6 bits.
    pub fn ogf(&self) -> (r: u8)
        ensures
            r == (self.raw() >> 10) as u8,
            r <= 0x3f,
    {
        proof {
            let v = self.0;
            assert((v >> 10) as u8 <= 0x3f) by (bit_vector);
        }
        (self.0 >> 10) as u8
    }
}

/// One embedded command: opcode, declared parameter length, and the buffer's
/// remainder from offset 3 on, borrowed from the enclosing record's data.
#[derive(Debug)]
pub struct Command<'a> {
    pub opcode: Opcode,
    /// Total length in octets of the parameters, as declared by the frame.
    /// Informational only: `params` is not cut down to it.
    pub params_len: u8,
    /// Everything from byte offset 3 to the end of the supplied buffer.
    pub params: &'a [u8],
}

impl<'a> Command<'a> {
    /// Decodes one command buffer. Fails only when the buffer cannot hold the
    /// 3-byte opcode-and-length prefix.
    pub fn from(data: &'a [u8]) -> (r: Result<Command<'a>, ParseError>)
        ensures
            r is Ok <==> data@.len() >= 3,
            r matches Ok(c) ==> {
                &&& c.opcode.raw() == le_u16_of(data@.subrange(0, 2))
                &&& c.params_len == data@[2]
                &&& c.params@ == data@.subrange(3, data@.len() as int)
            },
            r is Err ==> r == Err::<Command<'a>, ParseError>(ParseError::ShortCommandBuffer),
    {
        if data.len() < 3 {
            return Err(ParseError::ShortCommandBuffer);
        }
        let opcode = Opcode(read_le_u16(data, 0));
        let params_len = data[2];
        let params = vstd::slice::slice_subrange(data, 3, data.len());
        Ok(Command { opcode, params_len, params })
    }
}

} // verus!
