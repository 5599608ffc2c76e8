use quote_stream::command::{decode_request, is_keep_alive, parse_port, Command, ParserError, Request};
use quote_stream::net::{addr, IpAddress, PeerAddr, COMMAND_PORT, DATA_PORT};
use quote_stream::paths::{normalize_path, strip_quotes};
use quote_stream::registry::SubscriberRegistry;
use quote_stream::service::{Admission, QuoteService};
use quote_stream::ticker::Ticker;

fn host(ip: u32) -> PeerAddr {
    PeerAddr { ip: IpAddress::V4(ip), port: 40000 }
}

fn at(ip: u32, port: u16) -> PeerAddr {
    PeerAddr { ip: IpAddress::V4(ip), port }
}

#[test]
fn command_constructors_fill_every_field() {
    let c = Command::new("127.0.0.1", "55555", vec![Ticker::AAPL, Ticker::MSFT]);
    assert_eq!(c.header, "J_QUOTE");
    assert_eq!(c.connection, "udp");
    assert_eq!(c.address, "127.0.0.1");
    assert_eq!(c.port, "55555");
    assert_eq!(c.tickers, vec![Ticker::AAPL, Ticker::MSFT]);
    let p = Command::new_ping("10.0.0.2", "4000");
    assert_eq!(p.header, "PING");
    assert_eq!(p.connection, "udp");
    assert_eq!(p.address, "10.0.0.2");
    assert_eq!(p.port, "4000");
    assert!(p.tickers.is_empty());
}

#[test]
fn ports_parse_as_unsigned_sixteen_bit_numbers() {
    assert_eq!(parse_port(&"8081".to_string()), Some(8081));
    assert_eq!(parse_port(&"+80".to_string()), Some(80));
    assert_eq!(parse_port(&"0".to_string()), Some(0));
    assert_eq!(parse_port(&"65535".to_string()), Some(65535));
    assert_eq!(parse_port(&"0065535".to_string()), Some(65535));
    assert_eq!(parse_port(&"65536".to_string()), None);
    assert_eq!(parse_port(&"99999999999999999999".to_string()), None);
    assert_eq!(parse_port(&"".to_string()), None);
    assert_eq!(parse_port(&"+".to_string()), None);
    assert_eq!(parse_port(&"-1".to_string()), None);
    assert_eq!(parse_port(&"80a".to_string()), None);
    assert_eq!(parse_port(&" 80".to_string()), None);
    for p in [0u16, 1, 80, 8080, 65535] {
        assert_eq!(parse_port(&p.to_string()), Some(p));
    }
}

#[test]
fn address_text_joins_ip_and_port() {
    assert_eq!(addr("127.0.0.1", COMMAND_PORT), "127.0.0.1:8080");
    assert_eq!(addr("0.0.0.0", DATA_PORT), "0.0.0.0:8081");
    assert_eq!(addr("::1", 0), "::1:0");
    assert_eq!(addr("h", 65535), "h:65535");
}

#[test]
fn paths_lose_whitespace_and_one_pair_of_quotes() {
    assert_eq!(normalize_path("  \"C:\\data\\tickers.txt\"  "), "C:\\data\\tickers.txt");
    assert_eq!(normalize_path("tickers.txt\n"), "tickers.txt");
    assert_eq!(normalize_path("\"unterminated"), "\"unterminated");
    assert_eq!(normalize_path("\""), "\"");
    assert_eq!(normalize_path("\"\""), "");
    assert_eq!(strip_quotes("\"a b\""), "a b");
}

#[test]
fn keep_alive_datagrams_open_with_ping() {
    assert!(is_keep_alive(b"PING"));
    assert!(is_keep_alive(b"PING and more"));
    assert!(!is_keep_alive(b"PIN"));
    assert!(!is_keep_alive(b"ping"));
    assert!(!is_keep_alive(b""));
}

#[test]
fn mapped_ipv6_address_is_keyed_as_ipv4() {
    let mapped = PeerAddr { ip: IpAddress::V6(0xffff_7f00_0001), port: 9 };
    assert_eq!(mapped.canonical(), at(0x7f00_0001, 9));
    let plain6 = PeerAddr { ip: IpAddress::V6(1), port: 9 };
    assert_eq!(plain6.canonical(), plain6);
    assert_eq!(at(5, 6).canonical(), at(5, 6));
}

#[test]
fn decoding_keys_the_subscriber_by_peer_ip_and_declared_port() {
    let cmd = Command::new("192.168.1.50", "55555", vec![Ticker::NVDA]);
    match decode_request(cmd, host(0x0a00_0007)) {
        Ok(Request::Subscribe { address, tickers }) => {
            assert_eq!(address, at(0x0a00_0007, 55555));
            assert_eq!(tickers, vec![Ticker::NVDA]);
        }
        other => panic!("unexpected {other:?}"),
    }
    match decode_request(Command::new_ping("x", "7"), host(1)) {
        Ok(Request::KeepAlive { address }) => assert_eq!(address, at(1, 7)),
        other => panic!("unexpected {other:?}"),
    }
}

#[test]
fn decoding_refuses_unknown_headers_and_bad_ports() {
    let mut cmd = Command::new("1.2.3.4", "80", vec![]);
    cmd.header = "STREAM".to_string();
    assert_eq!(
        decode_request(cmd, host(1)).unwrap_err(),
        ParserError::UnknownHeader("STREAM".to_string())
    );
    let cmd = Command::new("1.2.3.4", "port", vec![Ticker::AAPL]);
    assert_eq!(
        decode_request(cmd, host(1)).unwrap_err(),
        ParserError::InvalidPort("port".to_string())
    );
}

#[test]
fn subscription_registers_and_marks_the_subscriber_seen() {
    let mut s = QuoteService::new(5);
    let (stop_tx, stop_rx) = crossbeam_channel::unbounded();
    let r = s.accept(Command::new("ignored", "5000", vec![Ticker::AAPL]), host(7), 100, stop_tx);
    match r {
        Ok(Admission::Subscribed { address, id, tickers }) => {
            assert_eq!(address, at(7, 5000));
            assert_eq!(id, 0);
            assert_eq!(tickers, vec![Ticker::AAPL]);
        }
        other => panic!("unexpected {other:?}"),
    }
    assert!(s.is_subscribed(&at(7, 5000)));
    assert!(s.is_client_active(&at(7, 5000)));
    assert!(stop_rx.try_recv().is_err());
}

#[test]
fn resubscription_replaces_and_stops_the_old_stream() {
    let mut s = QuoteService::new(5);
    let (old_tx, old_rx) = crossbeam_channel::unbounded();
    let (new_tx, new_rx) = crossbeam_channel::unbounded();
    let first = s.accept(Command::new("a", "5000", vec![Ticker::AAPL]), host(7), 0, old_tx);
    let second = s.accept(Command::new("a", "5000", vec![Ticker::MSFT]), host(7), 10, new_tx);
    assert!(matches!(first, Ok(Admission::Subscribed { id: 0, .. })));
    assert!(matches!(second, Ok(Admission::Subscribed { id: 1, .. })));
    assert_eq!(old_rx.try_recv(), Ok(()));
    assert!(new_rx.try_recv().is_err());
    // the replaced dispatcher exiting does not remove the new entry
    assert!(!s.dispatcher_exited(&at(7, 5000), 0));
    assert!(s.is_subscribed(&at(7, 5000)));
    assert!(s.dispatcher_exited(&at(7, 5000), 1));
    assert!(!s.is_subscribed(&at(7, 5000)));
    assert!(!s.dispatcher_exited(&at(7, 5000), 1));
}

#[test]
fn malformed_command_does_not_disturb_another_connection() {
    let mut s = QuoteService::new(5);
    let (bad_tx, _bad_rx) = crossbeam_channel::unbounded();
    let mut bad = Command::new("a", "5000", vec![Ticker::AAPL]);
    bad.header = "GARBAGE".to_string();
    assert!(s.accept(bad, host(1), 0, bad_tx).is_err());
    let (bad_tx, _bad_rx) = crossbeam_channel::unbounded();
    assert_eq!(
        s.accept(Command::new("a", "70000", vec![]), host(1), 0, bad_tx).unwrap_err(),
        ParserError::InvalidPort("70000".to_string())
    );
    assert!(!s.is_subscribed(&at(1, 5000)));
    assert!(!s.is_client_active(&at(1, 5000)));
    let (tx, _rx) = crossbeam_channel::unbounded();
    let good = s.accept(Command::new("b", "6000", vec![Ticker::MSFT]), host(2), 0, tx);
    assert!(matches!(good, Ok(Admission::Subscribed { id: 0, .. })));
    assert!(s.is_subscribed(&at(2, 6000)));
}

#[test]
fn keep_alive_command_only_marks_seen() {
    let mut s = QuoteService::new(5);
    let (tx, _rx) = crossbeam_channel::unbounded();
    let r = s.accept(Command::new_ping("a", "6000"), host(3), 50, tx);
    assert!(matches!(r, Ok(Admission::KeptAlive { address }) if address == at(3, 6000)));
    assert!(!s.is_subscribed(&at(3, 6000)));
    assert!(s.is_client_active(&at(3, 6000)));
}

#[test]
fn silent_subscriber_is_evicted_and_its_stream_stopped() {
    let mut s = QuoteService::new(5);
    let (tx, stop_rx) = crossbeam_channel::unbounded();
    s.accept(Command::new("a", "5000", vec![Ticker::AAPL]), host(7), 0, tx).unwrap();
    assert!(s.keep_alive_datagram(b"PING", at(7, 5000), 4000));
    assert!(!s.keep_alive_datagram(b"HELLO", at(7, 5000), 8000));
    assert!(s.evict_timeouts(9000).is_empty());
    assert_eq!(s.evict_timeouts(9001), vec![at(7, 5000)]);
    assert_eq!(stop_rx.try_recv(), Ok(()));
    assert!(!s.is_subscribed(&at(7, 5000)));
    assert!(!s.is_client_active(&at(7, 5000)));
    assert!(s.evict_timeouts(20_000).is_empty());
    assert!(!s.stop(&at(7, 5000)));
}

#[test]
fn keep_alive_from_mapped_address_matches_the_subscription() {
    let mut s = QuoteService::new(1);
    let (tx, _rx) = crossbeam_channel::unbounded();
    let mapped_host = PeerAddr { ip: IpAddress::V6(0xffff_0a00_0009), port: 1234 };
    s.accept(Command::new("a", "5000", vec![Ticker::AAPL]), mapped_host, 0, tx).unwrap();
    assert!(s.is_subscribed(&at(0x0a00_0009, 5000)));
    let source = PeerAddr { ip: IpAddress::V6(0xffff_0a00_0009), port: 5000 };
    assert!(s.keep_alive_datagram(b"PING", source, 900));
    assert!(s.evict_timeouts(1900).is_empty());
    assert_eq!(s.evict_timeouts(1901), vec![at(0x0a00_0009, 5000)]);
}

#[test]
fn stop_and_shutdown_empty_the_registry() {
    let mut s = QuoteService::new(5);
    let (a_tx, a_rx) = crossbeam_channel::unbounded();
    let (b_tx, b_rx) = crossbeam_channel::unbounded();
    s.accept(Command::new("a", "1", vec![]), host(1), 0, a_tx).unwrap();
    s.accept(Command::new("b", "2", vec![]), host(2), 0, b_tx).unwrap();
    assert!(s.stop(&at(1, 1)));
    assert_eq!(a_rx.try_recv(), Ok(()));
    assert!(!s.stop(&at(1, 1)));
    assert_eq!(s.shutdown(), vec![at(2, 2)]);
    assert_eq!(b_rx.try_recv(), Ok(()));
    assert!(!s.is_subscribed(&at(2, 2)));
    assert!(s.shutdown().is_empty());
}

#[test]
fn registry_ids_and_lengths() {
    let mut r = SubscriberRegistry::new();
    let (tx, _rx) = crossbeam_channel::unbounded();
    assert_eq!(r.register(at(1, 1), tx.clone()), 0);
    assert_eq!(r.register(at(2, 2), tx.clone()), 1);
    assert_eq!(r.register(at(1, 1), tx), 2);
    assert_eq!(r.len(), 2);
    assert_eq!(r.subscription_id(&at(1, 1)), Some(2));
    assert_eq!(r.subscription_id(&at(3, 3)), None);
    assert!(r.release(&at(2, 2), 1));
    assert_eq!(r.len(), 1);
}

#[test]
fn paths_lose_unicode_white_space_too() {
    assert_eq!(normalize_path("\u{3000}\u{a0}tickers.txt\u{2009}\t"), "tickers.txt");
    assert_eq!(normalize_path(" \u{85}\"a\"\u{205f}"), "a");
    assert_eq!(normalize_path("\u{200b}x"), "\u{200b}x");
}
