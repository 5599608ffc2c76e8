use quote_stream::dispatcher::{DispatchAction, DispatchEvent, Dispatcher};
use quote_stream::net::{IpAddress, PeerAddr};
use quote_stream::quote::{Quote, QuoteEvent};
use quote_stream::ticker::Ticker;

fn peer() -> PeerAddr {
    PeerAddr { ip: IpAddress::V4(0x7f00_0001), port: 55555 }
}

fn tick(t: Ticker, price: u64) -> Quote {
    Quote { ticker: t, price, volume: 500, timestamp: 1 }
}

#[test]
fn dispatcher_forwards_only_subscribed_symbols_in_one_cycle() {
    let mut d = Dispatcher::new(peer(), &vec![Ticker::AAPL, Ticker::MSFT]);
    let cycle = vec![
        tick(Ticker::AAPL, 1),
        tick(Ticker::MSFT, 2),
        tick(Ticker::GOOGL, 3),
        tick(Ticker::TSLA, 4),
    ];
    let mut out = Vec::new();
    for q in &cycle {
        match d.on_event(DispatchEvent::Quote(*q)) {
            DispatchAction::Forward(f) => out.push(f),
            DispatchAction::Ignore => {}
            DispatchAction::Exit => panic!("dispatcher stopped"),
        }
    }
    assert_eq!(out.len(), 2);
    assert!(out.contains(&cycle[0]));
    assert!(out.contains(&cycle[1]));
    assert!(out.iter().all(|q| q.ticker != Ticker::GOOGL && q.ticker != Ticker::TSLA));
    assert!(d.is_running());
}

#[test]
fn dispatcher_with_generator_cycle_sees_only_its_symbols() {
    let mut g = quote_stream::generator::QuoteGenerator::new(vec![
        Ticker::AAPL,
        Ticker::MSFT,
        Ticker::GOOGL,
        Ticker::TSLA,
    ]);
    let (tx, rx) = crossbeam_channel::unbounded();
    g.subscribe(tx);
    g.run_cycle();
    let mut d = Dispatcher::new(peer(), &vec![Ticker::AAPL, Ticker::MSFT]);
    let mut forwarded = Vec::new();
    while let Ok(ev) = rx.try_recv() {
        if let DispatchAction::Forward(q) = d.on_event(DispatchEvent::from_quote_event(ev)) {
            forwarded.push(q.ticker);
        }
    }
    forwarded.sort_by_key(|t| t.index());
    assert_eq!(forwarded, vec![Ticker::AAPL, Ticker::MSFT]);
}

#[test]
fn dispatcher_exits_on_stop_and_stays_stopped() {
    let mut d = Dispatcher::new(peer(), &vec![Ticker::AAPL]);
    assert_eq!(d.on_event(DispatchEvent::Stop), DispatchAction::Exit);
    assert!(!d.is_running());
    assert_eq!(d.on_event(DispatchEvent::Quote(tick(Ticker::AAPL, 1))), DispatchAction::Exit);
}

#[test]
fn dispatcher_exits_on_generator_shutdown() {
    let mut d = Dispatcher::new(peer(), &vec![Ticker::AAPL]);
    let ev = DispatchEvent::from_quote_event(QuoteEvent::Shutdown);
    assert_eq!(ev, DispatchEvent::Shutdown);
    assert_eq!(d.on_event(ev), DispatchAction::Exit);
    assert!(!d.is_running());
}

#[test]
fn dispatcher_exits_on_send_failure_or_closed_channel() {
    let mut d = Dispatcher::new(peer(), &vec![Ticker::AAPL]);
    assert_eq!(d.on_event(DispatchEvent::SendFailed), DispatchAction::Exit);
    let mut e = Dispatcher::new(peer(), &vec![Ticker::AAPL]);
    assert_eq!(e.on_event(DispatchEvent::Disconnected), DispatchAction::Exit);
    assert!(!e.is_running());
}

#[test]
fn dispatcher_with_no_symbols_forwards_nothing() {
    let mut d = Dispatcher::new(peer(), &vec![]);
    assert_eq!(d.on_event(DispatchEvent::Quote(tick(Ticker::AAPL, 1))), DispatchAction::Ignore);
    assert!(!d.wants(&Ticker::AAPL));
    assert_eq!(d.address(), peer());
}
