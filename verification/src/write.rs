//! The write side of the tunnel: datagrams from one UDP socket go out over a
//! pool of WebSocket connections.

use vstd::prelude::*;
use vstd::slice::slice_subrange;
use crate::addr::{observe, AddrTracker, PeerAddr};
use crate::pool::{drawn, left, Pool, PoolEntry};
use crate::ws::decode::{decode, StepView};
use crate::ws::event::EventView;
use crate::ws::frame::{encoded, Frame, FrameView, Role, OPCODE_BINARY};
use crate::ws::laws::lemma_sent_is_received;
use crate::ws::ws::{mask_for, WebSocket};

verus! {

/// The size of the buffer that stages one datagram: no UDP datagram is
/// longer.
pub const MAX_DATAGRAM_SIZE: usize = 65535;

/// How long the multiplexer waits, in milliseconds, before it looks again
/// into a pool that held no live connection.
pub const BACKOFF_MILLIS: u64 = 1000;

/// A buffer for one datagram, zeroed.
pub fn datagram_buffer() -> (buf: Box<[u8; MAX_DATAGRAM_SIZE]>)
    ensures
        buf@ == Seq::new(MAX_DATAGRAM_SIZE as nat, |i: int| 0u8),
{
    let buf = Box::new([0u8; MAX_DATAGRAM_SIZE]);
    assert(buf@ =~= Seq::new(MAX_DATAGRAM_SIZE as nat, |i: int| 0u8));
    buf
}

/// One outbound connection with the buffer that stages its datagram. The
/// buffer is made once, with the connection, and is of fixed size.
pub struct WriteConnection<W> {
    write: WebSocket<W>,
    buf: Box<[u8; MAX_DATAGRAM_SIZE]>,
}

impl<W> WriteConnection<W> {
    /// The endpoint that the connection writes through.
    pub closed spec fn endpoint(&self) -> WebSocket<W> {
        self.write
    }

    /// The contents of the staging buffer.
    pub closed spec fn staged(&self) -> Seq<u8> {
        self.buf@
    }

    /// The staging buffer always holds `MAX_DATAGRAM_SIZE` bytes.
    pub proof fn lemma_staged_len(&self)
        ensures
            self.staged().len() == MAX_DATAGRAM_SIZE,
    {
    }

    /// A connection that writes through `write`, with a zeroed buffer.
    pub fn new(write: WebSocket<W>) -> (conn: Self)
        ensures
            conn.endpoint() == write,
            conn.staged() == Seq::new(MAX_DATAGRAM_SIZE as nat, |i: int| 0u8),
    {
        Self { buf: datagram_buffer(), write }
    }

    /// The staging buffer, to receive one datagram into. What is written to
    /// it is what the connection has staged afterwards.
    pub fn buffer_mut(&mut self) -> (buf: &mut [u8])
        ensures
            buf@ == old(self).staged(),
            buf@.len() == MAX_DATAGRAM_SIZE,
            final(self).staged() == final(buf)@,
            final(self).endpoint() == old(self).endpoint(),
    {
        let array: &mut [u8; MAX_DATAGRAM_SIZE] = &mut *self.buf;
        array
    }

    /// The first `size` bytes of the staging buffer.
    pub fn datagram(&self, size: usize) -> (bytes: &[u8])
        requires
            size <= MAX_DATAGRAM_SIZE,
        ensures
            bytes@ == self.staged().take(size as int),
    {
        slice_subrange(self.buf.as_slice(), 0, size)
    }

    /// The bytes to write to the stream in order to send the first `size`
    /// bytes of the staging buffer as one binary message.
    pub fn flush(&self, size: usize) -> (bytes: Vec<u8>)
        requires
            size <= MAX_DATAGRAM_SIZE,
        ensures
            exists|key: [u8; 4]|
                bytes@ == #[trigger] encoded(
                    FrameView {
                        fin: true,
                        opcode: OPCODE_BINARY,
                        data: self.staged().take(size as int),
                    },
                    mask_for(self.endpoint().spec_role(), key),
                ),
    {
        let message = Frame::binary(self.datagram(size));
        self.write.send(message)
    }

    /// The stream of the connection, to write to.
    pub fn io_mut(&mut self) -> (io: &mut W)
        ensures
            *io == old(self).endpoint().stream(),
            final(self).endpoint().stream() == *final(io),
            final(self).endpoint().limit() == old(self).endpoint().limit(),
            final(self).endpoint().spec_role() == old(self).endpoint().spec_role(),
            final(self).endpoint().closed() == old(self).endpoint().closed(),
            final(self).staged() == old(self).staged(),
    {
        self.write.io_mut()
    }
}

/// A datagram arrives as it was received: the bytes that `flush` returns for
/// the first `size` bytes staged, whatever key was drawn, are one frame that
/// a server decodes as the data event of those very bytes.
pub proof fn lemma_flushed_datagram_arrives<W>(
    conn: WriteConnection<W>,
    size: usize,
    key: [u8; 4],
    max_payload_len: usize,
)
    requires
        size <= MAX_DATAGRAM_SIZE,
        size <= max_payload_len,
    ensures
        decode(
            Role::Server,
            max_payload_len,
            encoded(
                FrameView {
                    fin: true,
                    opcode: OPCODE_BINARY,
                    data: conn.staged().take(size as int),
                },
                mask_for(conn.endpoint().spec_role(), key),
            ),
        ) == StepView::Done(Ok(EventView::Data(conn.staged().take(size as int)))),
{
    lemma_sent_is_received(
        conn.endpoint().spec_role(),
        max_payload_len,
        conn.staged().take(size as int),
        key,
    );
}

impl<W> PoolEntry for WriteConnection<W> {
    open spec fn closed(&self) -> bool {
        self.endpoint().closed()
    }

    fn is_closed(&self) -> (closed: bool) {
        self.write.is_closed()
    }
}

/// What the multiplexer does next.
pub enum Turn<W> {
    /// The pool holds no live connection: wait this many milliseconds, then
    /// look again. No datagram is read meanwhile.
    Backoff { millis: u64 },
    /// A live connection was drawn: receive one datagram, stage it in the
    /// connection and send it.
    Receive(WriteConnection<W>),
}

/// The turn that follows from a draw: to receive into the connection drawn,
/// or to back off for `BACKOFF_MILLIS` where none was.
pub open spec fn turn_for<W>(drawn: Option<WriteConnection<W>>) -> Turn<W> {
    match drawn {
        Some(conn) => Turn::Receive(conn),
        None => Turn::Backoff { millis: BACKOFF_MILLIS },
    }
}

/// The decisions of the write multiplexer: which connection takes the next
/// datagram, and where the datagrams last came from.
pub struct WritePool<W> {
    pool: Pool<WriteConnection<W>>,
    addr: AddrTracker,
}

impl<W> WritePool<W> {
    /// The connections in the pool, in the order in which they are drawn.
    pub closed spec fn connections(&self) -> Seq<WriteConnection<W>> {
        self.pool@
    }

    /// The address recorded last.
    pub closed spec fn peer(&self) -> Option<PeerAddr> {
        self.addr@
    }

    /// An empty pool that records addresses in `addr`.
    pub fn new(addr: AddrTracker) -> (pool: Self)
        ensures
            pool.connections() == Seq::<WriteConnection<W>>::empty(),
            pool.peer() == addr@,
    {
        Self { pool: Pool::new(), addr }
    }

    /// The address that the last datagram came from, if any: where the
    /// traffic that comes back is to be sent.
    pub fn peer_addr(&self) -> (last: Option<PeerAddr>)
        ensures
            last == self.peer(),
    {
        self.addr.get()
    }

    /// Whether `addr` differs from the address recorded last, so that
    /// `update_addr` would write.
    pub fn is_outdated(&self, addr: PeerAddr) -> (outdated: bool)
        ensures
            outdated == observe(self.peer(), addr).1,
    {
        self.addr.is_outdated(addr)
    }

    /// Records the source address of a datagram. The record is written only
    /// if the address differs from the one recorded last; returns whether it
    /// was written.
    pub fn update_addr(&mut self, addr: PeerAddr) -> (written: bool)
        ensures
            (final(self).peer(), written) == observe(old(self).peer(), addr),
            final(self).connections() == old(self).connections(),
    {
        self.addr.update(addr)
    }

    /// Adds a connection to the pool.
    pub fn push(&mut self, conn: WriteConnection<W>)
        ensures
            final(self).connections() == old(self).connections().push(conn),
            final(self).peer() == old(self).peer(),
    {
        self.pool.push(conn);
    }

    /// Decides one turn of the multiplexer. The first live connection of the
    /// pool is drawn for the next datagram, and the closed ones in front of
    /// it are dropped. Where no connection is live, the pool is left empty
    /// and the turn is to back off for `BACKOFF_MILLIS`.
    pub fn execute(&mut self) -> (turn: Turn<W>)
        ensures
            turn == turn_for(drawn(old(self).connections())),
            final(self).connections() == left(old(self).connections()),
            final(self).peer() == old(self).peer(),
            turn matches Turn::Receive(conn) ==> !conn.closed(),
    {
        match self.pool.acquire() {
            Some(conn) => Turn::Receive(conn),
            None => Turn::Backoff { millis: BACKOFF_MILLIS },
        }
    }
}

} // verus!
