use zia_common::ws::event::{is_valid_close_code, on_close};
use zia_common::ws::{Event, Role, Step, WebSocket, WsError};

fn close_payload(code: u16, reason: &[u8]) -> Vec<u8> {
    let mut payload = vec![(code >> 8) as u8, (code & 0xff) as u8];
    payload.extend_from_slice(reason);
    payload
}

fn is_accepted(code: u16) -> bool {
    matches!(code, 1000..=1003 | 1007..=1011 | 1015 | 3000..=3999 | 4000..=4999)
}

#[test]
fn every_close_code_is_accepted_or_refused_as_listed() {
    for code in 0..=u16::MAX {
        let outcome = on_close(&close_payload(code, b"bye"));
        if is_accepted(code) {
            assert_eq!(outcome, Ok(Event::Close { code, reason: "bye".to_string() }), "code {}", code);
        } else {
            assert_eq!(outcome, Err(WsError::InvalidCloseCode), "code {}", code);
        }
        assert_eq!(is_valid_close_code(code), is_accepted(code));
    }
}

#[test]
fn close_codes_at_the_edges_of_the_ranges() {
    for code in [1000u16, 1003, 1007, 1011, 1015, 3000, 3999, 4000, 4999] {
        assert_eq!(on_close(&close_payload(code, b"")), Ok(Event::Close { code, reason: String::new() }));
    }
    for code in [0u16, 999, 1004, 1005, 1006, 1012, 1013, 1014, 1016, 2999, 5000, 65535] {
        assert_eq!(on_close(&close_payload(code, b"")), Err(WsError::InvalidCloseCode));
    }
}

#[test]
fn close_payload_shorter_than_two_bytes_is_a_normal_close() {
    assert_eq!(on_close(&[]), Ok(Event::Close { code: 1000, reason: String::new() }));
    assert_eq!(on_close(&[0x03]), Ok(Event::Close { code: 1000, reason: String::new() }));
    assert_eq!(on_close(&[0xff]), Ok(Event::Close { code: 1000, reason: String::new() }));
}

#[test]
fn close_code_is_read_most_significant_byte_first() {
    assert_eq!(on_close(&[0x0f, 0xa0]), Ok(Event::Close { code: 4000, reason: String::new() }));
    assert_eq!(on_close(&[0xa0, 0x0f]), Err(WsError::InvalidCloseCode));
}

#[test]
fn close_reason_is_decoded_as_utf8() {
    let reason = "going away: wartungsfenster \u{00e4}\u{20ac}\u{1f600}";
    assert_eq!(
        on_close(&close_payload(1001, reason.as_bytes())),
        Ok(Event::Close { code: 1001, reason: reason.to_string() })
    );
}

#[test]
fn close_reason_that_is_not_utf8_is_refused() {
    assert_eq!(on_close(&close_payload(1000, &[0xff])), Err(WsError::InvalidUtf8));
    assert_eq!(on_close(&close_payload(1000, &[b'a', 0xc3])), Err(WsError::InvalidUtf8));
    assert_eq!(on_close(&close_payload(1000, &[0xed, 0xa0, 0x80])), Err(WsError::InvalidUtf8));
    assert_eq!(on_close(&close_payload(1000, &[0xc0, 0x80])), Err(WsError::InvalidUtf8));
}

#[test]
fn close_code_is_checked_before_the_reason() {
    assert_eq!(on_close(&close_payload(1005, &[0xff])), Err(WsError::InvalidCloseCode));
}

#[test]
fn close_frame_through_the_reader() {
    let mut rx = WebSocket::new((), 125, Role::Client { masking: false });
    let mut wire = vec![0x88, 5];
    wire.extend(close_payload(3000, b"bye"));
    assert_eq!(rx.recv(&wire[..2]), Step::Need(5));
    assert!(!rx.is_closed());
    assert_eq!(rx.recv(&wire), Step::Done(Ok(Event::Close { code: 3000, reason: "bye".to_string() })));
    assert!(rx.is_closed());
}

#[test]
fn masked_close_frame_through_the_reader() {
    let mut rx = WebSocket::new((), 125, Role::Server);
    let wire = [0x88, 0x84, 0x01, 0x01, 0x01, 0x01, 0x02, 0xe9, b'o' ^ 1, b'k' ^ 1];
    assert_eq!(rx.recv(&wire), Step::Done(Ok(Event::Close { code: 1000, reason: "ok".to_string() })));
    assert!(rx.is_closed());
}

#[test]
fn empty_close_frame_through_the_reader() {
    let mut rx = WebSocket::new((), 125, Role::Server);
    assert_eq!(rx.recv(&[0x88, 0]), Step::Done(Ok(Event::Close { code: 1000, reason: String::new() })));
    assert!(rx.is_closed());
}

#[test]
fn refused_close_frames_close_the_connection() {
    let mut rx = WebSocket::new((), 125, Role::Server);
    assert_eq!(rx.recv(&[0x88, 2, 0x03, 0xed]), Step::Done(Err(WsError::InvalidCloseCode)));
    assert!(rx.is_closed());
    let mut rx = WebSocket::new((), 125, Role::Server);
    assert_eq!(rx.recv(&[0x88, 3, 0x03, 0xe8, 0x80]), Step::Done(Err(WsError::InvalidUtf8)));
    assert!(rx.is_closed());
    assert_eq!(rx.recv(&[0x88, 0]), Step::Done(Err(WsError::ReadAfterClose)));
}
