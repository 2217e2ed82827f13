//! One endpoint of a WebSocket connection over a byte stream.
//!
//! The endpoint owns its stream but never touches it. `send` returns the
//! bytes to write; `recv` is handed the bytes read so far and says what to
//! read next. Reading and writing are left to the owner of the endpoint.

use vstd::prelude::*;
use crate::ws::decode::{decode, decode_frame, Step, StepView};
use crate::ws::event::{Event, EventView, WsError};
use crate::ws::frame::{encoded, Frame, Role};

verus! {

/// WebSocket endpoint for both client and server.
pub struct WebSocket<IO> {
    /// The underlying byte stream over which the frames are exchanged.
    pub io: IO,
    /// Maximum allowed payload length in bytes.
    pub max_payload_len: usize,
    role: Role,
    is_closed: bool,
}

/// The key that an endpoint in `role` masks with when it is offered `key`:
/// a client with masking enabled takes it, every other endpoint sends
/// unmasked.
pub open spec fn mask_for(role: Role, key: [u8; 4]) -> Option<[u8; 4]> {
    match role {
        Role::Client { masking: true } => Some(key),
        _ => None,
    }
}

/// Whether a step ends the reading life of a connection: the step is a close
/// event or an error.
pub open spec fn is_closing(step: StepView) -> bool {
    match step {
        StepView::Need(_) => false,
        StepView::Done(Ok(EventView::Data(_))) => false,
        StepView::Done(Ok(EventView::Close { .. })) => true,
        StepView::Done(Err(_)) => true,
    }
}

/// One call of `recv` on the state of a connection: the closed flag after
/// the call and the step returned. A closed connection fails at once and
/// looks at no byte; an open one decodes and closes on a closing step.
pub open spec fn recv_step(
    closed: bool,
    role: Role,
    max_payload_len: usize,
    input: Seq<u8>,
) -> (bool, StepView) {
    if closed {
        (true, StepView::Done(Err(WsError::ReadAfterClose)))
    } else {
        let step = decode(role, max_payload_len, input);
        (is_closing(step), step)
    }
}

/// `rand::random::<u32>()`, taken on trust: four bytes from the thread's
/// random number generator. Nothing is claimed of the bytes.
#[verifier::external_body]
fn random_key() -> (key: [u8; 4]) {
    rand::random::<u32>().to_ne_bytes()
}

impl<IO> WebSocket<IO> {
    /// The role that the endpoint was made with.
    pub closed spec fn spec_role(&self) -> Role {
        self.role
    }

    /// Whether the endpoint has seen a close frame or an error.
    pub closed spec fn closed(&self) -> bool {
        self.is_closed
    }

    /// The stream that the endpoint owns.
    pub closed spec fn stream(&self) -> IO {
        self.io
    }

    /// The longest payload that the endpoint accepts.
    pub closed spec fn limit(&self) -> usize {
        self.max_payload_len
    }

    /// An open endpoint over `stream`.
    #[inline]
    pub fn new(stream: IO, max_payload_len: usize, role: Role) -> (ws: Self)
        ensures
            ws.stream() == stream,
            ws.limit() == max_payload_len,
            ws.spec_role() == role,
            !ws.closed(),
    {
        Self { io: stream, max_payload_len, role, is_closed: false }
    }

    /// The role that the endpoint was made with.
    pub fn role(&self) -> (role: Role)
        ensures
            role == self.spec_role(),
    {
        self.role
    }

    /// Whether the endpoint has seen a close frame or an error.
    pub fn is_closed(&self) -> (closed: bool)
        ensures
            closed == self.closed(),
    {
        self.is_closed
    }

    /// The stream, to read from or write to.
    pub fn io_mut(&mut self) -> (io: &mut IO)
        ensures
            *io == old(self).stream(),
            final(self).stream() == *final(io),
            final(self).limit() == old(self).limit(),
            final(self).spec_role() == old(self).spec_role(),
            final(self).closed() == old(self).closed(),
    {
        &mut self.io
    }

    /// The bytes of `frame` as this endpoint sends it when `key` is the
    /// masking key on offer.
    pub fn send_with_key(&self, frame: Frame<'_>, key: [u8; 4]) -> (bytes: Vec<u8>)
        ensures
            bytes@ == encoded(frame@, mask_for(self.spec_role(), key)),
    {
        let mut bytes: Vec<u8> = Vec::new();
        match self.role {
            Role::Server => frame.write_without_mask(&mut bytes),
            Role::Client { masking } => {
                if masking {
                    frame.write_with_mask(&mut bytes, key);
                } else {
                    frame.write_without_mask(&mut bytes);
                }
            },
        }
        bytes
    }

    /// The bytes to write to the stream in order to send `frame`. A server
    /// never masks. A client masks with a fresh random key if masking is
    /// enabled, else it sends unmasked.
    pub fn send(&self, frame: Frame<'_>) -> (bytes: Vec<u8>)
        ensures
            exists|key: [u8; 4]| bytes@ == #[trigger] encoded(frame@, mask_for(self.spec_role(), key)),
    {
        let key = random_key();
        self.send_with_key(frame, key)
    }

    /// Decodes the frame whose bytes read so far are `input`, whatever the
    /// state of the endpoint.
    pub fn recv_event(&self, input: &[u8]) -> (step: Step)
        ensures
            step@ == decode(self.spec_role(), self.limit(), input@),
    {
        decode_frame(self.role, self.max_payload_len, input)
    }

    /// The next step of reading one event, where `input` holds the bytes of
    /// the current frame read so far. A closed endpoint answers
    /// `ReadAfterClose` at once. An open one decodes, and is closed from then
    /// on if the step is a close event or an error.
    pub fn recv(&mut self, input: &[u8]) -> (step: Step)
        ensures
            (final(self).closed(), step@) == recv_step(
                old(self).closed(),
                old(self).spec_role(),
                old(self).limit(),
                input@,
            ),
            final(self).stream() == old(self).stream(),
            final(self).limit() == old(self).limit(),
            final(self).spec_role() == old(self).spec_role(),
    {
        if self.is_closed {
            return Step::Done(Err(WsError::ReadAfterClose));
        }
        let step = self.recv_event(input);
        match &step {
            Step::Need(_) => {},
            Step::Done(Ok(Event::Data(_))) => {},
            Step::Done(_) => {
                self.is_closed = true;
            },
        }
        step
    }

    /// Records that reading from the stream failed: the endpoint is closed
    /// from then on.
    pub fn fail(&mut self)
        ensures
            final(self).closed(),
            final(self).stream() == old(self).stream(),
            final(self).limit() == old(self).limit(),
            final(self).spec_role() == old(self).spec_role(),
    {
        self.is_closed = true;
    }
}

} // verus!
