//! What holds between encoding and decoding.

use vstd::prelude::*;
use crate::ws::bytes::{
    be_bytes, be_value, lemma_be_bytes_len, lemma_be_limit_values, lemma_be_value_of_bytes,
};
use crate::ws::decode::{
    decode, fin_of, frame_outcome, key_at, mask_flag_of, opcode_of, reserved_of, short_len_of,
    StepView,
};
use crate::ws::event::{close_code, close_event, EventView, WsError};
use crate::ws::frame::{encoded, header, FrameView, Role, OPCODE_BINARY, OPCODE_CLOSE};
use crate::ws::mask::{lemma_masked_twice, masked};
use crate::ws::ws::{is_closing, mask_for, recv_step};

verus! {

/// The number of header bytes of a frame with a payload of `len` bytes, the
/// masking key not counted.
pub open spec fn header_len(len: nat) -> nat {
    if len <= 125 {
        2
    } else if len <= 0xffff {
        4
    } else {
        10
    }
}

/// The number of bytes that a frame takes on the wire.
pub open spec fn encoded_len(len: nat, is_masked: bool) -> nat {
    header_len(len) + (if is_masked { 4nat } else { 0nat }) + len
}

/// The header is as long as `header_len` says and reads back as the fields
/// that it was written from.
pub proof fn lemma_header_fields(fin: bool, opcode: u8, is_masked: bool, len: nat)
    requires
        len < 0x1_0000_0000_0000_0000,
    ensures
        header(fin, opcode, is_masked, len).len() == header_len(len),
        fin_of(header(fin, opcode, is_masked, len)[0]) == fin,
        reserved_of(header(fin, opcode, is_masked, len)[0]) == 0,
        opcode_of(header(fin, opcode, is_masked, len)[0]) == opcode % 16,
        mask_flag_of(header(fin, opcode, is_masked, len)[1]) == is_masked,
        len <= 125 ==> short_len_of(header(fin, opcode, is_masked, len)[1]) == len,
        125 < len <= 0xffff ==> short_len_of(header(fin, opcode, is_masked, len)[1]) == 126
            && be_value(header(fin, opcode, is_masked, len).subrange(2, 4)) == len,
        0xffff < len ==> short_len_of(header(fin, opcode, is_masked, len)[1]) == 127 && be_value(
            header(fin, opcode, is_masked, len).subrange(2, 10),
        ) == len,
{
    let h = header(fin, opcode, is_masked, len);
    lemma_be_limit_values();
    lemma_be_bytes_len(len, 2);
    lemma_be_bytes_len(len, 8);
    if 125 < len <= 0xffff {
        lemma_be_value_of_bytes(len, 2);
        assert(h.subrange(2, 4) =~= be_bytes(len, 2));
    } else if 0xffff < len {
        lemma_be_value_of_bytes(len, 8);
        assert(h.subrange(2, 10) =~= be_bytes(len, 8));
    }
}

/// The encoding of a frame is as long as `encoded_len` says.
pub proof fn lemma_encoded_len(frame: FrameView, key: Option<[u8; 4]>)
    requires
        frame.data.len() < 0x1_0000_0000_0000_0000,
    ensures
        encoded(frame, key).len() == encoded_len(frame.data.len(), key is Some),
{
    lemma_header_fields(frame.fin, frame.opcode, key is Some, frame.data.len());
}

/// Decoding what was encoded yields the frame's outcome: a reader that
/// accepts the payload's length, handed the whole encoding of a final binary
/// frame or of a final close frame of at most 125 bytes, unmasked or masked
/// with any key, is done and holds the outcome of the opcode and the payload
/// as they were before encoding. A masked frame must go to a server.
pub proof fn lemma_decode_encoded(
    role: Role,
    max_payload_len: usize,
    frame: FrameView,
    key: Option<[u8; 4]>,
)
    requires
        frame.fin,
        frame.opcode == OPCODE_BINARY || (frame.opcode == OPCODE_CLOSE && frame.data.len()
            <= 125),
        frame.data.len() <= max_payload_len,
        key is Some ==> role is Server,
    ensures
        decode(role, max_payload_len, encoded(frame, key)) == StepView::Done(
            frame_outcome(frame.opcode, frame.data),
        ),
{
    let len = frame.data.len();
    let is_masked = key is Some;
    let h = header(frame.fin, frame.opcode, is_masked, len);
    let bytes = encoded(frame, key);
    let offset = header_len(len);
    lemma_header_fields(frame.fin, frame.opcode, is_masked, len);
    assert(bytes[0] == h[0]);
    assert(bytes[1] == h[1]);
    if len > 125 {
        assert(bytes.subrange(2, offset as int) =~= h.subrange(2, offset as int));
    }
    match key {
        Some(k) => {
            assert(key_at(bytes, offset as int) =~= k);
            assert(bytes.subrange((offset + 4) as int, (offset + 4 + len) as int) =~= masked(
                k,
                frame.data,
            ));
            lemma_masked_twice(k, frame.data);
        },
        None => {
            assert(bytes.subrange(offset as int, (offset + len) as int) =~= frame.data);
        },
    }
}

/// Round trip: a binary frame with a payload that the reader accepts, sent
/// unmasked to any reader or masked to a server, is decoded as the data
/// event of that very payload. This holds for each of the three encodings
/// of the length.
pub proof fn lemma_roundtrip(
    role: Role,
    max_payload_len: usize,
    payload: Seq<u8>,
    key: Option<[u8; 4]>,
)
    requires
        payload.len() <= max_payload_len,
        key is Some ==> role is Server,
    ensures
        decode(
            role,
            max_payload_len,
            encoded(FrameView { fin: true, opcode: OPCODE_BINARY, data: payload }, key),
        ) == StepView::Done(Ok(EventView::Data(payload))),
{
    lemma_decode_encoded(
        role,
        max_payload_len,
        FrameView { fin: true, opcode: OPCODE_BINARY, data: payload },
        key,
    );
}

/// Masking is undone by the reader: what a client with masking enabled sends
/// for a binary frame, whatever key it drew, a server decodes as the data
/// event of the payload as it was before masking.
pub proof fn lemma_masked_roundtrip(max_payload_len: usize, payload: Seq<u8>, key: [u8; 4])
    requires
        payload.len() <= max_payload_len,
    ensures
        decode(
            Role::Server,
            max_payload_len,
            encoded(
                FrameView { fin: true, opcode: OPCODE_BINARY, data: payload },
                mask_for(Role::Client { masking: true }, key),
            ),
        ) == StepView::Done(Ok(EventView::Data(payload))),
{
    lemma_roundtrip(Role::Server, max_payload_len, payload, Some(key));
}

/// A reader never reads beyond the frame: handed the first `n` bytes of an
/// encoding that it would decode, with `n` short of the whole, it asks for
/// more bytes, at least one and no more than the encoding has left.
pub proof fn lemma_decode_prefix(
    role: Role,
    max_payload_len: usize,
    frame: FrameView,
    key: Option<[u8; 4]>,
    n: nat,
)
    requires
        frame.fin,
        frame.opcode == OPCODE_BINARY || (frame.opcode == OPCODE_CLOSE && frame.data.len()
            <= 125),
        frame.data.len() <= max_payload_len,
        key is Some ==> role is Server,
        n < encoded(frame, key).len(),
    ensures
        decode(role, max_payload_len, encoded(frame, key).take(n as int)) matches StepView::Need(
            more,
        ) && 0 < more && n + more <= encoded(frame, key).len(),
{
    let len = frame.data.len();
    let is_masked = key is Some;
    let h = header(frame.fin, frame.opcode, is_masked, len);
    let bytes = encoded(frame, key);
    let input = bytes.take(n as int);
    let offset = header_len(len);
    lemma_header_fields(frame.fin, frame.opcode, is_masked, len);
    lemma_encoded_len(frame, key);
    if n >= 2 {
        assert(input[0] == h[0]);
        assert(input[1] == h[1]);
        if len > 125 && n >= offset {
            assert(input.subrange(2, offset as int) =~= h.subrange(2, offset as int));
        }
    }
}

/// What any endpoint sends for a binary frame, whatever its role and the
/// key it drew, a server that accepts the payload's length decodes as the
/// data event of that payload.
pub proof fn lemma_sent_is_received(
    sender: Role,
    max_payload_len: usize,
    payload: Seq<u8>,
    key: [u8; 4],
)
    requires
        payload.len() <= max_payload_len,
    ensures
        decode(
            Role::Server,
            max_payload_len,
            encoded(
                FrameView { fin: true, opcode: OPCODE_BINARY, data: payload },
                mask_for(sender, key),
            ),
        ) == StepView::Done(Ok(EventView::Data(payload))),
{
    lemma_roundtrip(Role::Server, max_payload_len, payload, mask_for(sender, key));
}

/// Frames that are refused whatever else they hold: one with a reserved bit
/// set; a control frame that is not final; a control frame that announces
/// more than 125 bytes, a close frame among them; a data frame that is not a
/// final binary frame; a masked frame read by a client.
pub proof fn lemma_rejections(role: Role, max_payload_len: usize, input: Seq<u8>)
    requires
        input.len() >= 2,
    ensures
        reserved_of(input[0]) != 0 ==> decode(role, max_payload_len, input) == StepView::Done(
            Err(WsError::ReservedBits),
        ),
        opcode_of(input[0]) >= 8 && !fin_of(input[0]) ==> decode(role, max_payload_len, input)
            matches StepView::Done(Err(_)),
        opcode_of(input[0]) >= 8 && short_len_of(input[1]) > 125 ==> decode(
            role,
            max_payload_len,
            input,
        ) matches StepView::Done(Err(_)),
        opcode_of(input[0]) < 8 && !(opcode_of(input[0]) == OPCODE_BINARY && fin_of(input[0]))
            ==> decode(role, max_payload_len, input) matches StepView::Done(Err(_)),
        role is Client && mask_flag_of(input[1]) ==> decode(role, max_payload_len, input)
            matches StepView::Done(Err(_)),
{
}

/// The status codes of close frames: a payload of fewer than two bytes is a
/// close with code 1000 and the empty reason; a payload whose code is one of
/// 1004 to 1006, 1012 to 1014 or 1016 to 2999 is refused; a payload with any
/// other code from 1000 to 4999 is a close with that code, unless its
/// reason is not UTF-8.
pub proof fn lemma_close_codes(msg: Seq<u8>)
    ensures
        msg.len() < 2 ==> close_event(msg) == Ok::<EventView, WsError>(
            EventView::Close { code: 1000, reason: Seq::empty() },
        ),
        1004 <= close_code(msg) <= 1006 || 1012 <= close_code(msg) <= 1014 || 1016 <= close_code(
            msg,
        ) <= 2999 ==> close_event(msg) == Err::<EventView, WsError>(WsError::InvalidCloseCode),
        1000 <= close_code(msg) <= 1003 || 1007 <= close_code(msg) <= 1011 || close_code(msg)
            == 1015 || 3000 <= close_code(msg) <= 4999 ==> (close_event(msg) matches Ok(
            EventView::Close { code, .. },
        ) && code == close_code(msg)) || close_event(msg) == Err::<EventView, WsError>(
            WsError::InvalidUtf8,
        ),
{
}

/// The closed flag after a run of reads, one for each of `inputs`, that
/// starts from `closed`.
pub open spec fn closed_after(
    closed: bool,
    role: Role,
    max_payload_len: usize,
    inputs: Seq<Seq<u8>>,
) -> bool
    decreases inputs.len(),
{
    if inputs.len() == 0 {
        closed
    } else {
        recv_step(
            closed_after(closed, role, max_payload_len, inputs.drop_last()),
            role,
            max_payload_len,
            inputs.last(),
        ).0
    }
}

/// The closed flag is never reset: a run of reads that starts closed ends
/// closed.
pub proof fn lemma_closed_is_kept(role: Role, max_payload_len: usize, inputs: Seq<Seq<u8>>)
    ensures
        closed_after(true, role, max_payload_len, inputs),
    decreases inputs.len(),
{
    if inputs.len() > 0 {
        lemma_closed_is_kept(role, max_payload_len, inputs.drop_last());
    }
}

/// Reading after close: once a read has returned a close event or an error,
/// every later read fails with `ReadAfterClose`, whatever bytes the reads in
/// between and the read itself are handed; it asks for no byte, so the
/// stream is not touched.
pub proof fn lemma_read_after_close(
    closed: bool,
    role: Role,
    max_payload_len: usize,
    input: Seq<u8>,
    between: Seq<Seq<u8>>,
    later: Seq<u8>,
)
    requires
        is_closing(recv_step(closed, role, max_payload_len, input).1),
    ensures
        recv_step(
            closed_after(
                recv_step(closed, role, max_payload_len, input).0,
                role,
                max_payload_len,
                between,
            ),
            role,
            max_payload_len,
            later,
        ) == (true, StepView::Done(Err(WsError::ReadAfterClose))),
{
    lemma_closed_is_kept(role, max_payload_len, between);
}

} // verus!
