use zia_common::addr::{AddrTracker, PeerAddr};

fn v4(ip: u32, port: u16) -> PeerAddr {
    PeerAddr::V4 { ip, port }
}

#[test]
fn new_tracker_holds_no_address() {
    let tracker = AddrTracker::new();
    assert_eq!(tracker.get(), None);
    assert!(tracker.is_outdated(v4(0x7f000001, 8080)));
}

#[test]
fn same_address_twice_then_another_writes_on_the_change_only() {
    let a = v4(0x0a000001, 5000);
    let b = v4(0x0a000002, 5000);
    let mut tracker = AddrTracker::new();
    tracker.update(a);
    assert_eq!(tracker.get(), Some(a));
    let mut writes = 0;
    for addr in [a, a, b] {
        if tracker.update(addr) {
            writes += 1;
        }
    }
    assert_eq!(writes, 1);
    assert_eq!(tracker.get(), Some(b));
}

#[test]
fn each_observation_reports_whether_it_wrote() {
    let a = v4(0x0a000001, 5000);
    let b = v4(0x0a000002, 5000);
    let mut tracker = AddrTracker::new();
    assert!(tracker.update(a));
    assert_eq!(tracker.get(), Some(a));
    assert!(!tracker.is_outdated(a));
    assert!(!tracker.update(a));
    assert_eq!(tracker.get(), Some(a));
    assert!(tracker.is_outdated(b));
    assert!(tracker.update(b));
    assert_eq!(tracker.get(), Some(b));
    assert!(tracker.update(a));
    assert_eq!(tracker.get(), Some(a));
}

#[test]
fn addresses_differ_in_any_part() {
    let base = PeerAddr::V6 { ip: 1, port: 2, flowinfo: 3, scope_id: 4 };
    let others = [
        PeerAddr::V6 { ip: 9, port: 2, flowinfo: 3, scope_id: 4 },
        PeerAddr::V6 { ip: 1, port: 9, flowinfo: 3, scope_id: 4 },
        PeerAddr::V6 { ip: 1, port: 2, flowinfo: 9, scope_id: 4 },
        PeerAddr::V6 { ip: 1, port: 2, flowinfo: 3, scope_id: 9 },
        PeerAddr::V4 { ip: 1, port: 2 },
    ];
    for other in others {
        let mut tracker = AddrTracker::new();
        assert!(tracker.update(base));
        assert!(tracker.is_outdated(other));
        assert!(tracker.update(other));
        assert_eq!(tracker.get(), Some(other));
        assert!(!tracker.update(other));
    }
    let mut tracker = AddrTracker::new();
    assert!(tracker.update(v4(1, 2)));
    assert!(tracker.update(v4(1, 3)));
    assert!(tracker.update(v4(2, 3)));
    assert!(!tracker.update(v4(2, 3)));
}
