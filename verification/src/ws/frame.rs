//! Outbound frames and their encoding on the wire.

use vstd::prelude::*;
use crate::ws::bytes::{be_bytes, write_be};
use crate::ws::mask::{masked, push_masked};

verus! {

/// Opcode of a frame that carries binary data.
pub const OPCODE_BINARY: u8 = 2;

/// Opcode of a frame that closes the connection.
pub const OPCODE_CLOSE: u8 = 8;

/// The longest payload that a control frame may carry, and the longest one
/// whose length fits into the second header byte.
pub const MAX_SHORT_LEN: u8 = 125;

/// Which side of a connection an endpoint plays.
#[derive(Clone, Copy, Debug, PartialEq, Eq, Structural)]
pub enum Role {
    /// Never masks what it sends and accepts both masked and unmasked frames.
    Server,
    /// Accepts unmasked frames only, and masks what it sends if `masking` is
    /// set.
    Client { masking: bool },
}

/// One frame to be sent. The payload is borrowed, never copied into the frame.
#[derive(Clone, Copy, Debug)]
pub struct Frame<'a> {
    /// Whether this is the final fragment of a message.
    pub fin: bool,
    /// The opcode; its low four bits go on the wire.
    pub opcode: u8,
    /// The payload.
    pub data: &'a [u8],
}

/// A frame as a mathematical value.
pub struct FrameView {
    pub fin: bool,
    pub opcode: u8,
    pub data: Seq<u8>,
}

impl<'a> View for Frame<'a> {
    type V = FrameView;

    open spec fn view(&self) -> FrameView {
        FrameView { fin: self.fin, opcode: self.opcode, data: self.data@ }
    }
}

/// The first header byte: FIN in the top bit, the reserved bits zero, the
/// opcode in the low four bits.
pub open spec fn first_byte(fin: bool, opcode: u8) -> u8 {
    ((if fin { 128int } else { 0int }) + opcode % 16) as u8
}

/// The second header byte: the mask flag in the top bit, the short length
/// (or the marker 126 or 127 of an extended length) in the low seven bits.
pub open spec fn second_byte(is_masked: bool, len: nat) -> u8 {
    let flag = if is_masked { 128int } else { 0int };
    if len <= 125 {
        (flag + len) as u8
    } else if len <= 0xffff {
        (flag + 126) as u8
    } else {
        (flag + 127) as u8
    }
}

/// The bytes of the extended length: none for a payload of up to 125 bytes,
/// two for one of up to 65535 bytes, eight for a longer one.
pub open spec fn extended_len(len: nat) -> Seq<u8> {
    if len <= 125 {
        Seq::empty()
    } else if len <= 0xffff {
        be_bytes(len, 2)
    } else {
        be_bytes(len, 8)
    }
}

/// The header of a frame, up to and without the masking key.
pub open spec fn header(fin: bool, opcode: u8, is_masked: bool, len: nat) -> Seq<u8> {
    seq![first_byte(fin, opcode), second_byte(is_masked, len)] + extended_len(len)
}

/// The bytes of a frame on the wire: the header, then either the payload as
/// it is, or the masking key and the masked payload.
pub open spec fn encoded(frame: FrameView, key: Option<[u8; 4]>) -> Seq<u8> {
    match key {
        Some(key) => header(frame.fin, frame.opcode, true, frame.data.len()) + key@ + masked(
            key,
            frame.data,
        ),
        None => header(frame.fin, frame.opcode, false, frame.data.len()) + frame.data,
    }
}

/// Appends the header of a frame to `out`.
fn write_header(out: &mut Vec<u8>, fin: bool, opcode: u8, is_masked: bool, len: usize)
    ensures
        final(out)@ == old(out)@ + header(fin, opcode, is_masked, len as nat),
{
    let top: u8 = if fin { 0x80 } else { 0 };
    let low: u8 = opcode & 0x0f;
    let flag: u8 = if is_masked { 0x80 } else { 0 };
    assert(low == opcode % 16) by (bit_vector)
        requires
            low == opcode & 0x0f,
    ;
    assert((top | low) == top + low) by (bit_vector)
        requires
            top == 0x80 || top == 0,
            low < 16,
    ;
    out.push(top | low);
    if len <= 125 {
        let short: u8 = len as u8;
        assert((flag | short) == flag + short) by (bit_vector)
            requires
                flag == 0x80 || flag == 0,
                short <= 125,
        ;
        out.push(flag | short);
    } else if len <= 0xffff {
        assert((flag | 126) == flag + 126) by (bit_vector)
            requires
                flag == 0x80 || flag == 0,
        ;
        out.push(flag | 126);
        write_be(out, len as u64, 2);
    } else {
        assert((flag | 127) == flag + 127) by (bit_vector)
            requires
                flag == 0x80 || flag == 0,
        ;
        out.push(flag | 127);
        write_be(out, len as u64, 8);
    }
    assert(out@ =~= old(out)@ + header(fin, opcode, is_masked, len as nat));
}

impl<'a> Frame<'a> {
    /// A final frame that carries `data` as one binary message.
    pub fn binary(data: &'a [u8]) -> (frame: Frame<'a>)
        ensures
            frame@ == (FrameView { fin: true, opcode: OPCODE_BINARY, data: data@ }),
    {
        Frame { fin: true, opcode: OPCODE_BINARY, data }
    }

    /// Appends the frame to `out`, its payload unmasked.
    pub fn write_without_mask(&self, out: &mut Vec<u8>)
        ensures
            final(out)@ == old(out)@ + encoded(self@, None),
    {
        write_header(out, self.fin, self.opcode, false, self.data.len());
        out.extend_from_slice(self.data);
        assert(out@ =~= old(out)@ + encoded(self@, None));
    }

    /// Appends the frame to `out`, its payload masked with `mask`, which is
    /// written in front of it.
    pub fn write_with_mask(&self, out: &mut Vec<u8>, mask: [u8; 4])
        ensures
            final(out)@ == old(out)@ + encoded(self@, Some(mask)),
    {
        write_header(out, self.fin, self.opcode, true, self.data.len());
        out.extend_from_slice(mask.as_slice());
        push_masked(out, self.data, mask);
        assert(out@ =~= old(out)@ + encoded(self@, Some(mask)));
    }
}

} // verus!
