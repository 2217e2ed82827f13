//! Decoding of one frame from the bytes read so far.
//!
//! The decoder never reads by itself. It is handed the bytes of the current
//! frame that have been read up to now and answers either with the number of
//! bytes to read next, or with the outcome of the frame. Whoever owns the
//! stream reads exactly that many bytes, appends them and asks again.

use vstd::prelude::*;
use vstd::slice::{slice_subrange, slice_to_vec};
use crate::ws::bytes::{be_value, read_be};
use crate::ws::event::{close_event, on_close, outcome_view, Event, EventView, WsError};
use crate::ws::frame::{Role, MAX_SHORT_LEN, OPCODE_BINARY, OPCODE_CLOSE};
use crate::ws::mask::{masked, push_masked};

verus! {

/// What to do next with a frame that is being read.
#[derive(Debug, PartialEq, Eq)]
pub enum Step {
    /// The frame is not complete: read exactly this many bytes more.
    Need(usize),
    /// The frame is complete, or was refused.
    Done(Result<Event, WsError>),
}

/// A step as a mathematical value.
pub enum StepView {
    Need(nat),
    Done(Result<EventView, WsError>),
}

impl View for Step {
    type V = StepView;

    open spec fn view(&self) -> StepView {
        match *self {
            Step::Need(n) => StepView::Need(n as nat),
            Step::Done(outcome) => StepView::Done(outcome_view(outcome)),
        }
    }
}

/// The FIN flag: the top bit of the first header byte.
pub open spec fn fin_of(first: u8) -> bool {
    first >= 128
}

/// The three reserved bits of the first header byte, as a number.
pub open spec fn reserved_of(first: u8) -> u8 {
    (first / 16) % 8
}

/// The opcode: the low four bits of the first header byte.
pub open spec fn opcode_of(first: u8) -> u8 {
    first % 16
}

/// The mask flag: the top bit of the second header byte.
pub open spec fn mask_flag_of(second: u8) -> bool {
    second >= 128
}

/// The short length: the low seven bits of the second header byte.
pub open spec fn short_len_of(second: u8) -> u8 {
    second % 128
}

/// The masking key held by the four bytes of `input` from `at` on.
pub open spec fn key_at(input: Seq<u8>, at: int) -> [u8; 4] {
    [input[at], input[at + 1], input[at + 2], input[at + 3]]
}

/// The outcome of a complete frame with the given opcode and payload, the
/// payload already unmasked.
pub open spec fn frame_outcome(opcode: u8, payload: Seq<u8>) -> Result<EventView, WsError> {
    if opcode == OPCODE_BINARY {
        Ok(EventView::Data(payload))
    } else if opcode == OPCODE_CLOSE {
        close_event(payload)
    } else {
        Err(WsError::UnknownOpcode)
    }
}

/// The step for a frame whose header ends at `offset` and announces `len`
/// bytes of payload. The length is held against `max_payload_len` before any
/// byte of key or payload is asked for. A masked frame has its key read
/// first, in a read of its own, then its payload.
pub open spec fn payload_step(
    max_payload_len: usize,
    input: Seq<u8>,
    offset: nat,
    len: nat,
    is_masked: bool,
    opcode: u8,
) -> StepView {
    if len > max_payload_len {
        StepView::Done(Err(WsError::PayloadTooLarge))
    } else if is_masked {
        if input.len() < offset + 4 {
            StepView::Need((offset + 4 - input.len()) as nat)
        } else if input.len() < offset + 4 + len {
            StepView::Need((offset + 4 + len - input.len()) as nat)
        } else {
            StepView::Done(
                frame_outcome(
                    opcode,
                    masked(
                        key_at(input, offset as int),
                        input.subrange((offset + 4) as int, (offset + 4 + len) as int),
                    ),
                ),
            )
        }
    } else {
        if input.len() < offset + len {
            StepView::Need((offset + len - input.len()) as nat)
        } else {
            StepView::Done(frame_outcome(opcode, input.subrange(offset as int, (offset + len) as int)))
        }
    }
}

/// The step that follows from `input`, the bytes of one frame read so far,
/// for a reader in the given role that accepts payloads of up to
/// `max_payload_len` bytes.
///
/// The checks come in this order: the reserved bits must be zero; a client
/// refuses a masked frame; a control frame must be final and announce at
/// most 125 bytes; a data frame must be a final binary frame; the extended
/// length is read; the length is held against the maximum; the key and the
/// payload are read; a control frame must then be a close frame.
pub open spec fn decode(role: Role, max_payload_len: usize, input: Seq<u8>) -> StepView {
    if input.len() < 2 {
        StepView::Need((2 - input.len()) as nat)
    } else {
        let first = input[0];
        let second = input[1];
        let opcode = opcode_of(first);
        let is_masked = mask_flag_of(second);
        let short = short_len_of(second);
        if reserved_of(first) != 0 {
            StepView::Done(Err(WsError::ReservedBits))
        } else if role is Client && is_masked {
            StepView::Done(Err(WsError::UnexpectedMask))
        } else if opcode >= 8 {
            if !fin_of(first) {
                StepView::Done(Err(WsError::FragmentedControl))
            } else if short > MAX_SHORT_LEN {
                StepView::Done(Err(WsError::ControlTooLong))
            } else {
                payload_step(max_payload_len, input, 2, short as nat, is_masked, opcode)
            }
        } else if !(opcode == OPCODE_BINARY && fin_of(first)) {
            StepView::Done(Err(WsError::InvalidDataFrame))
        } else if short == 126 {
            if input.len() < 4 {
                StepView::Need((4 - input.len()) as nat)
            } else {
                payload_step(
                    max_payload_len,
                    input,
                    4,
                    be_value(input.subrange(2, 4)),
                    is_masked,
                    opcode,
                )
            }
        } else if short == 127 {
            if input.len() < 10 {
                StepView::Need((10 - input.len()) as nat)
            } else {
                payload_step(
                    max_payload_len,
                    input,
                    10,
                    be_value(input.subrange(2, 10)),
                    is_masked,
                    opcode,
                )
            }
        } else {
            payload_step(max_payload_len, input, 2, short as nat, is_masked, opcode)
        }
    }
}

/// Turns the payload of a complete frame into the frame's outcome.
fn finish(opcode: u8, payload: Vec<u8>) -> (outcome: Result<Event, WsError>)
    ensures
        outcome_view(outcome) == frame_outcome(opcode, payload@),
{
    if opcode == OPCODE_BINARY {
        Ok(Event::Data(payload))
    } else if opcode == OPCODE_CLOSE {
        on_close(payload.as_slice())
    } else {
        Err(WsError::UnknownOpcode)
    }
}

/// Decides the step for a frame whose header ends at `offset` and announces
/// `len` bytes of payload: refuses a length above `max_payload_len`, asks for
/// the bytes that are still to be read, or takes the payload out of `input`,
/// unmasked with the key in front of it where the frame is masked.
fn read_payload(
    max_payload_len: usize,
    input: &[u8],
    offset: usize,
    len: u64,
    is_masked: bool,
    opcode: u8,
) -> (step: Step)
    requires
        2 <= offset <= 10,
        offset <= input.len(),
    ensures
        step@ == payload_step(
            max_payload_len,
            input@,
            offset as nat,
            len as nat,
            is_masked,
            opcode,
        ),
{
    if len > max_payload_len as u64 {
        return Step::Done(Err(WsError::PayloadTooLarge));
    }
    let len: usize = len as usize;
    if is_masked {
        if input.len() - offset < 4 {
            return Step::Need(4 - (input.len() - offset));
        }
        let start: usize = offset + 4;
        let available: usize = input.len() - start;
        if available < len {
            return Step::Need(len - available);
        }
        let key: [u8; 4] = [input[offset], input[offset + 1], input[offset + 2], input[offset + 3]];
        assert(key == key_at(input@, offset as int));
        let mut payload: Vec<u8> = Vec::new();
        push_masked(&mut payload, slice_subrange(input, start, start + len), key);
        assert(payload@ =~= masked(key, input@.subrange(start as int, start + len)));
        Step::Done(finish(opcode, payload))
    } else {
        let available: usize = input.len() - offset;
        if available < len {
            return Step::Need(len - available);
        }
        let payload = slice_to_vec(slice_subrange(input, offset, offset + len));
        Step::Done(finish(opcode, payload))
    }
}

/// Decides the next step for the frame whose bytes read so far are `input`.
pub fn decode_frame(role: Role, max_payload_len: usize, input: &[u8]) -> (step: Step)
    ensures
        step@ == decode(role, max_payload_len, input@),
{
    if input.len() < 2 {
        return Step::Need(2 - input.len());
    }
    let first: u8 = input[0];
    let second: u8 = input[1];
    let fin: bool = first & 0x80 != 0;
    let reserved: u8 = first & 0x70;
    let opcode: u8 = first & 0x0f;
    let is_masked: bool = second & 0x80 != 0;
    let short: u8 = second & 0x7f;
    proof {
        assert((first & 0x80 != 0) == (first >= 128)) by (bit_vector);
        assert((first & 0x70 == 0) == ((first / 16) % 8 == 0)) by (bit_vector);
        assert(first & 0x0f == first % 16) by (bit_vector);
        assert((second & 0x80 != 0) == (second >= 128)) by (bit_vector);
        assert(second & 0x7f == second % 128) by (bit_vector);
    }
    if reserved != 0 {
        return Step::Done(Err(WsError::ReservedBits));
    }
    let is_client: bool = match role {
        Role::Server => false,
        Role::Client { .. } => true,
    };
    if is_client && is_masked {
        return Step::Done(Err(WsError::UnexpectedMask));
    }
    let mut offset: usize = 2;
    let mut len: u64 = short as u64;
    if opcode >= 8 {
        if !fin {
            return Step::Done(Err(WsError::FragmentedControl));
        }
        if short > MAX_SHORT_LEN {
            return Step::Done(Err(WsError::ControlTooLong));
        }
    } else {
        if !(opcode == OPCODE_BINARY && fin) {
            return Step::Done(Err(WsError::InvalidDataFrame));
        }
        if short == 126 {
            if input.len() < 4 {
                return Step::Need(4 - input.len());
            }
            len = read_be(input, 2, 2);
            offset = 4;
        } else if short == 127 {
            if input.len() < 10 {
                return Step::Need(10 - input.len());
            }
            len = read_be(input, 2, 8);
            offset = 10;
        }
    }
    read_payload(max_payload_len, input, offset, len, is_masked, opcode)
}

} // verus!
