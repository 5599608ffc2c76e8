use quote_stream::liveness::PingMonitor;
use quote_stream::net::{IpAddress, PeerAddr};

fn client(port: u16) -> PeerAddr {
    PeerAddr { ip: IpAddress::V4(0x0a00_0001), port }
}

#[test]
fn keep_alives_at_zero_two_four_seconds_time_out_once_between_nine_and_ten() {
    let mut m = PingMonitor::new(5);
    let a = client(4000);
    let mut reports: Vec<(u64, Vec<PeerAddr>)> = Vec::new();
    for second in 0..=12u64 {
        let now = second * 1000;
        if second == 0 || second == 2 || second == 4 {
            m.update_ping(a, now);
        }
        let r = m.check_timeouts(now);
        if second <= 9 {
            assert!(m.is_client_active(&a), "inactive at {second}s");
        }
        if !r.is_empty() {
            reports.push((second, r));
        }
    }
    assert_eq!(reports, vec![(10, vec![a])]);
    assert!(!m.is_client_active(&a));
}

#[test]
fn repeated_keep_alives_within_timeout_are_never_reported() {
    let mut m = PingMonitor::new(5);
    let a = client(4001);
    for k in 0..100u64 {
        let now = k * 4000;
        m.update_ping(a, now);
        m.update_ping(a, now);
        assert!(m.check_timeouts(now + 4999).is_empty());
        assert!(m.check_timeouts(now + 5000).is_empty());
    }
    assert!(m.is_client_active(&a));
}

#[test]
fn timeout_is_reported_exactly_once_until_next_keep_alive() {
    let mut m = PingMonitor::new(5);
    let a = client(4002);
    let b = client(4003);
    m.update_ping(a, 0);
    m.update_ping(b, 3000);
    assert_eq!(m.check_timeouts(6000), vec![a]);
    assert!(m.check_timeouts(7000).is_empty());
    assert!(m.check_timeouts(60_000) == vec![b]);
    assert!(m.check_timeouts(120_000).is_empty());
    m.update_ping(a, 130_000);
    assert!(m.is_client_active(&a));
    assert!(m.check_timeouts(135_000).is_empty());
    assert_eq!(m.check_timeouts(135_001), vec![a]);
}

#[test]
fn silence_of_exactly_the_timeout_is_not_a_timeout() {
    let mut m = PingMonitor::new(1);
    let a = client(1);
    m.update_ping(a, 10_000);
    assert!(m.check_timeouts(11_000).is_empty());
    assert_eq!(m.check_timeouts(11_001), vec![a]);
}

#[test]
fn clock_reading_before_last_keep_alive_is_no_timeout() {
    let mut m = PingMonitor::new(0);
    let a = client(2);
    m.update_ping(a, 5_000);
    assert!(m.check_timeouts(4_000).is_empty());
    assert!(m.check_timeouts(5_000).is_empty());
    assert_eq!(m.check_timeouts(5_001), vec![a]);
}

#[test]
fn unknown_address_is_not_active() {
    let m = PingMonitor::new(5);
    assert!(!m.is_client_active(&client(9)));
}

#[test]
fn several_silent_clients_are_each_reported_once() {
    let mut m = PingMonitor::new(2);
    let clients: Vec<PeerAddr> = (0..10u16).map(client).collect();
    for c in &clients {
        m.update_ping(*c, 0);
    }
    m.update_ping(clients[3], 1500);
    let mut r = m.check_timeouts(3000);
    r.sort_by_key(|p| p.port);
    let expected: Vec<PeerAddr> = clients.iter().copied().filter(|c| c.port != 3).collect();
    assert_eq!(r, expected);
    assert_eq!(m.check_timeouts(3600), vec![clients[3]]);
}
