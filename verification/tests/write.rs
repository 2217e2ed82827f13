use zia_common::addr::{AddrTracker, PeerAddr};
use zia_common::pool::PoolEntry;
use zia_common::write::{Turn, WriteConnection, WritePool, BACKOFF_MILLIS};
use zia_common::ws::{Event, Role, Step, WebSocket};
use zia_common::{datagram_buffer, MAX_DATAGRAM_SIZE};

fn connection(id: u32, role: Role) -> WriteConnection<u32> {
    WriteConnection::new(WebSocket::new(id, MAX_DATAGRAM_SIZE, role))
}

fn closed_connection(id: u32) -> WriteConnection<u32> {
    let mut ws = WebSocket::new(id, MAX_DATAGRAM_SIZE, Role::Server);
    ws.fail();
    WriteConnection::new(ws)
}

/// Puts a datagram into the buffer of `conn`, as a receive on a socket does.
fn receive(conn: &mut WriteConnection<u32>, datagram: &[u8]) -> usize {
    conn.buffer_mut()[..datagram.len()].copy_from_slice(datagram);
    datagram.len()
}

fn drawn(turn: Turn<u32>) -> WriteConnection<u32> {
    match turn {
        Turn::Receive(conn) => conn,
        Turn::Backoff { .. } => panic!("no connection was drawn"),
    }
}

fn read_one(rx: &mut WebSocket<()>, wire: &[u8]) -> (Event, usize) {
    let mut read = 0;
    loop {
        match rx.recv(&wire[..read]) {
            Step::Need(more) => {
                assert!(read + more <= wire.len());
                read += more;
            }
            Step::Done(outcome) => return (outcome.unwrap(), read),
        }
    }
}

#[test]
fn datagram_buffer_is_zeroed_and_of_full_size() {
    assert_eq!(MAX_DATAGRAM_SIZE, 65535);
    let buf = datagram_buffer();
    assert_eq!(buf.len(), MAX_DATAGRAM_SIZE);
    assert!(buf.iter().all(|&b| b == 0));
}

#[test]
fn new_connection_has_a_zeroed_buffer() {
    let conn = connection(1, Role::Server);
    assert!(!conn.is_closed());
    assert_eq!(conn.datagram(0), &[] as &[u8]);
    assert_eq!(conn.datagram(4), &[0, 0, 0, 0]);
    assert_eq!(conn.datagram(MAX_DATAGRAM_SIZE).len(), MAX_DATAGRAM_SIZE);
}

#[test]
fn buffer_holds_what_was_received_and_keeps_the_rest() {
    let mut conn = connection(1, Role::Server);
    assert_eq!(conn.buffer_mut().len(), MAX_DATAGRAM_SIZE);
    assert_eq!(receive(&mut conn, &[1, 2, 3, 4, 5]), 5);
    assert_eq!(conn.datagram(5), &[1, 2, 3, 4, 5]);
    assert_eq!(receive(&mut conn, &[9, 8]), 2);
    assert_eq!(conn.datagram(6), &[9, 8, 3, 4, 5, 0]);
    assert_eq!(receive(&mut conn, &[]), 0);
    assert_eq!(conn.datagram(3), &[9, 8, 3]);
    assert_eq!(conn.buffer_mut().len(), MAX_DATAGRAM_SIZE);
    let full = vec![0x11; MAX_DATAGRAM_SIZE];
    assert_eq!(receive(&mut conn, &full), MAX_DATAGRAM_SIZE);
    assert_eq!(conn.datagram(MAX_DATAGRAM_SIZE), &full[..]);
}

#[test]
fn flush_frames_the_staged_bytes_as_one_binary_message() {
    let mut conn = connection(1, Role::Server);
    let size = receive(&mut conn, &[7, 6, 5]);
    assert_eq!(conn.flush(size), vec![0x82, 3, 7, 6, 5]);
    assert_eq!(conn.flush(2), vec![0x82, 2, 7, 6]);
    assert_eq!(conn.flush(0), vec![0x82, 0]);
    let conn = connection(2, Role::Client { masking: false });
    assert_eq!(conn.flush(1), vec![0x82, 1, 0]);
}

#[test]
fn flush_of_a_full_buffer() {
    let mut conn = connection(1, Role::Server);
    let full: Vec<u8> = (0..MAX_DATAGRAM_SIZE).map(|i| (i % 251) as u8).collect();
    receive(&mut conn, &full);
    let wire = conn.flush(MAX_DATAGRAM_SIZE);
    assert_eq!(&wire[..4], &[0x82, 126, 0xff, 0xff]);
    assert_eq!(&wire[4..], &full[..]);
}

#[test]
fn flush_of_a_masking_client_is_unmasked_by_a_server() {
    let mut conn = connection(1, Role::Client { masking: true });
    let datagram: Vec<u8> = (0..200).map(|i| (i * 3) as u8).collect();
    let size = receive(&mut conn, &datagram);
    let wire = conn.flush(size);
    assert_eq!(wire.len(), 4 + 4 + 200);
    assert_eq!(&wire[..4], &[0x82, 0x80 | 126, 0, 200]);
    let mut rx = WebSocket::new((), MAX_DATAGRAM_SIZE, Role::Server);
    let (event, read) = read_one(&mut rx, &wire);
    assert_eq!(event, Event::Data(datagram));
    assert_eq!(read, wire.len());
}

#[test]
fn datagram_of_512_bytes_goes_out_as_one_binary_frame() {
    let mut pool = WritePool::new(AddrTracker::new());
    pool.push(connection(1, Role::Client { masking: true }));
    let datagram: Vec<u8> = (0..512).map(|i| (i * 31 + 7) as u8).collect();
    let from = PeerAddr::V4 { ip: 0x7f000001, port: 40000 };

    let mut conn = drawn(pool.execute());
    let size = receive(&mut conn, &datagram);
    assert_eq!(size, 512);
    assert!(pool.update_addr(from));
    let wire = conn.flush(size);

    let mut upstream = WebSocket::new((), MAX_DATAGRAM_SIZE, Role::Server);
    let (event, read) = read_one(&mut upstream, &wire);
    assert_eq!(event, Event::Data(datagram));
    assert_eq!(read, wire.len());
    assert_eq!(wire.len(), 2 + 2 + 4 + 512);
    assert_eq!(pool.peer_addr(), Some(from));
}

#[test]
fn empty_pool_backs_off_for_a_second() {
    assert_eq!(BACKOFF_MILLIS, 1000);
    let mut pool: WritePool<u32> = WritePool::new(AddrTracker::new());
    assert!(matches!(pool.execute(), Turn::Backoff { millis: 1000 }));
    assert!(matches!(pool.execute(), Turn::Backoff { millis: 1000 }));
}

#[test]
fn connections_take_turns_in_the_order_pushed() {
    let mut pool = WritePool::new(AddrTracker::new());
    pool.push(connection(1, Role::Server));
    pool.push(connection(2, Role::Server));
    let mut first = drawn(pool.execute());
    assert_eq!(*first.io_mut(), 1);
    let mut second = drawn(pool.execute());
    assert_eq!(*second.io_mut(), 2);
    assert!(matches!(pool.execute(), Turn::Backoff { .. }));
    pool.push(first);
    let mut again = drawn(pool.execute());
    assert_eq!(*again.io_mut(), 1);
}

#[test]
fn closed_connections_are_dropped_not_drawn() {
    let mut pool = WritePool::new(AddrTracker::new());
    assert!(closed_connection(9).is_closed());
    pool.push(closed_connection(1));
    pool.push(closed_connection(2));
    pool.push(connection(3, Role::Server));
    pool.push(closed_connection(4));
    let mut conn = drawn(pool.execute());
    assert!(!conn.is_closed());
    assert_eq!(*conn.io_mut(), 3);
    assert!(matches!(pool.execute(), Turn::Backoff { millis: 1000 }));
    pool.push(connection(5, Role::Server));
    let mut conn = drawn(pool.execute());
    assert_eq!(*conn.io_mut(), 5);
}

#[test]
fn pool_keeps_the_address_it_was_made_with() {
    let a = PeerAddr::V4 { ip: 1, port: 2 };
    let mut tracker = AddrTracker::new();
    tracker.update(a);
    let mut pool: WritePool<u32> = WritePool::new(tracker);
    assert_eq!(pool.peer_addr(), Some(a));
    assert!(!pool.is_outdated(a));
    assert!(!pool.update_addr(a));
    let fresh: WritePool<u32> = WritePool::new(AddrTracker::new());
    assert_eq!(fresh.peer_addr(), None);
}

#[test]
fn update_addr_writes_only_on_change() {
    let a = PeerAddr::V4 { ip: 0xc0a80001, port: 51820 };
    let b = PeerAddr::V4 { ip: 0xc0a80001, port: 51821 };
    let mut pool: WritePool<u32> = WritePool::new(AddrTracker::new());
    assert!(pool.is_outdated(a));
    assert!(pool.update_addr(a));
    assert!(!pool.is_outdated(a));
    assert!(!pool.update_addr(a));
    assert!(pool.is_outdated(b));
    assert!(pool.update_addr(b));
    assert_eq!(pool.peer_addr(), Some(b));
}

#[test]
fn turns_do_not_touch_the_address() {
    let a = PeerAddr::V4 { ip: 1, port: 2 };
    let mut pool = WritePool::new(AddrTracker::new());
    pool.update_addr(a);
    pool.push(connection(1, Role::Server));
    drawn(pool.execute());
    pool.execute();
    assert_eq!(pool.peer_addr(), Some(a));
}
