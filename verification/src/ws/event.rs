//! What reading a frame yields: an event, or the reason why the frame was
//! refused.

use vstd::prelude::*;
use vstd::slice::{slice_subrange, slice_to_vec};
use vstd::utf8::{decode_utf8, encode_utf8, encode_utf8_decode_utf8, valid_utf8};
use crate::ws::bytes::{be_value, read_be};

verus! {

/// The status code of a close frame that carries none.
pub const CLOSE_NORMAL: u16 = 1000;

/// Why a frame was refused, or a read was not attempted.
#[derive(Clone, Copy, Debug, PartialEq, Eq, Structural)]
pub enum WsError {
    /// The connection had seen a close frame or an error before.
    ReadAfterClose,
    /// A reserved bit of the header was set.
    ReservedBits,
    /// A client received a masked frame.
    UnexpectedMask,
    /// A control frame was not final.
    FragmentedControl,
    /// A control frame announced more than 125 bytes of payload.
    ControlTooLong,
    /// A control frame other than a close frame.
    UnknownOpcode,
    /// A data frame that is not a final binary frame.
    InvalidDataFrame,
    /// The announced payload is longer than the connection accepts.
    PayloadTooLarge,
    /// The status code of a close frame is not one that may be sent.
    InvalidCloseCode,
    /// The reason of a close frame is not UTF-8.
    InvalidUtf8,
}

impl WsError {
    /// The error in words.
    pub open spec fn text(&self) -> Seq<char> {
        match *self {
            WsError::ReadAfterClose => "read after close"@,
            WsError::ReservedBits => "reserve bit must be `0`"@,
            WsError::UnexpectedMask => "expected unmasked frame"@,
            WsError::FragmentedControl => "control frame must not be fragmented"@,
            WsError::ControlTooLong => "control frame must have a payload length of 125 bytes or less"@,
            WsError::UnknownOpcode => "unknown opcode"@,
            WsError::InvalidDataFrame => "invalid data frame"@,
            WsError::PayloadTooLarge => "payload too large"@,
            WsError::InvalidCloseCode => "invalid close code"@,
            WsError::InvalidUtf8 => "invalid utf-8 payload"@,
        }
    }

    /// The error in words, for a log or a message to the user.
    pub fn message(&self) -> (text: &'static str)
        ensures
            text@ == self.text(),
    {
        match *self {
            WsError::ReadAfterClose => "read after close",
            WsError::ReservedBits => "reserve bit must be `0`",
            WsError::UnexpectedMask => "expected unmasked frame",
            WsError::FragmentedControl => "control frame must not be fragmented",
            WsError::ControlTooLong => "control frame must have a payload length of 125 bytes or less",
            WsError::UnknownOpcode => "unknown opcode",
            WsError::InvalidDataFrame => "invalid data frame",
            WsError::PayloadTooLarge => "payload too large",
            WsError::InvalidCloseCode => "invalid close code",
            WsError::InvalidUtf8 => "invalid utf-8 payload",
        }
    }
}

/// What one frame holds for the application.
#[derive(Debug, PartialEq, Eq)]
pub enum Event {
    /// The payload of a binary frame.
    Data(Vec<u8>),
    /// The peer closes the connection.
    Close { code: u16, reason: String },
}

/// An event as a mathematical value.
pub enum EventView {
    Data(Seq<u8>),
    Close { code: u16, reason: Seq<char> },
}

impl View for Event {
    type V = EventView;

    open spec fn view(&self) -> EventView {
        match *self {
            Event::Data(data) => EventView::Data(data@),
            Event::Close { code, reason } => EventView::Close { code, reason: reason@ },
        }
    }
}

/// The outcome of a read, with the event taken by its view.
pub open spec fn outcome_view(outcome: Result<Event, WsError>) -> Result<EventView, WsError> {
    match outcome {
        Ok(event) => Ok(event@),
        Err(error) => Err(error),
    }
}

/// The status codes that a close frame may carry: 1000 to 1003, 1007 to
/// 1011, 1015, and 3000 to 4999.
pub open spec fn valid_close_code(code: u16) -> bool {
    ||| 1000 <= code <= 1003
    ||| 1007 <= code <= 1011
    ||| code == 1015
    ||| 3000 <= code <= 4999
}

/// The status code of a close payload: its first two bytes in network byte
/// order, or 1000 where it has fewer than two.
pub open spec fn close_code(msg: Seq<u8>) -> u16 {
    if msg.len() >= 2 {
        be_value(msg.take(2)) as u16
    } else {
        CLOSE_NORMAL
    }
}

/// What a close payload means. The status code is checked first. The reason
/// is what follows the code, which must be UTF-8; a payload of fewer than two
/// bytes has the empty reason.
pub open spec fn close_event(msg: Seq<u8>) -> Result<EventView, WsError> {
    let code = close_code(msg);
    if !valid_close_code(code) {
        Err(WsError::InvalidCloseCode)
    } else if msg.len() < 2 {
        Ok(EventView::Close { code, reason: Seq::empty() })
    } else if valid_utf8(msg.skip(2)) {
        Ok(EventView::Close { code, reason: decode_utf8(msg.skip(2)) })
    } else {
        Err(WsError::InvalidUtf8)
    }
}

/// The error of `String::from_utf8`, declared so that the call's result can
/// be matched on. Nothing is known of what it holds.
#[verifier::external_type_specification]
#[verifier::external_body]
pub struct ExFromUtf8Error(std::string::FromUtf8Error);

/// `String::from_utf8` of the standard library, taken on trust: it succeeds
/// exactly on the byte vectors that are valid UTF-8, and the string it then
/// returns consists of the very bytes it was given.
pub assume_specification[ String::from_utf8 ](vec: Vec<u8>) -> (r: Result<
    String,
    std::string::FromUtf8Error,
>)
    ensures
        r is Ok <==> valid_utf8(vec@),
        r matches Ok(s) ==> encode_utf8(s@) == vec@,
;

/// Whether `code` may be carried by a close frame.
pub fn is_valid_close_code(code: u16) -> (valid: bool)
    ensures
        valid == valid_close_code(code),
{
    (1000 <= code && code <= 1003) || (1007 <= code && code <= 1011) || code == 1015 || (3000
        <= code && code <= 4999)
}

/// Reads the payload of a close frame.
pub fn on_close(msg: &[u8]) -> (outcome: Result<Event, WsError>)
    ensures
        outcome_view(outcome) == close_event(msg@),
{
    let code: u16 = if msg.len() >= 2 {
        assert(msg@.subrange(0, 2) == msg@.take(2));
        read_be(msg, 0, 2) as u16
    } else {
        CLOSE_NORMAL
    };
    if !is_valid_close_code(code) {
        return Err(WsError::InvalidCloseCode);
    }
    if msg.len() < 2 {
        return Ok(Event::Close { code, reason: String::new() });
    }
    let rest = slice_to_vec(slice_subrange(msg, 2, msg.len()));
    assert(rest@ == msg@.skip(2));
    match String::from_utf8(rest) {
        Ok(reason) => {
            proof {
                encode_utf8_decode_utf8(reason@);
            }
            Ok(Event::Close { code, reason })
        },
        Err(_) => Err(WsError::InvalidUtf8),
    }
}

} // verus!
