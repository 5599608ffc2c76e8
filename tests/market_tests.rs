use quote_stream::generator::{default_symbols, QuoteGenerator};
use quote_stream::price::{price_after_change, INITIAL_PRICE, MAX_STEP_PPM, PRICE_FLOOR, PRICE_SCALE};
use quote_stream::quote::{Quote, QuoteEvent};
use quote_stream::symbol_set::SymbolSet;
use quote_stream::ticker::{Ticker, TICKER_COUNT};

#[test]
fn ticker_positions_round_trip() {
    for i in 0..TICKER_COUNT {
        let t = Ticker::from_index(i).unwrap();
        assert_eq!(t.index(), i);
    }
    assert_eq!(Ticker::from_index(TICKER_COUNT), None);
    assert_eq!(Ticker::AAPL.index(), 0);
    assert_eq!(Ticker::UNKNOWN.index(), TICKER_COUNT - 1);
}

#[test]
fn liquid_tickers_are_the_three_majors() {
    assert!(Ticker::AAPL.is_liquid());
    assert!(Ticker::MSFT.is_liquid());
    assert!(Ticker::TSLA.is_liquid());
    assert!(!Ticker::GOOGL.is_liquid());
    assert!(!Ticker::UNKNOWN.is_liquid());
}

#[test]
fn symbol_set_holds_exactly_the_listed_tickers() {
    let s = SymbolSet::from_tickers(&vec![Ticker::AAPL, Ticker::MSFT, Ticker::AAPL]);
    assert!(s.contains(&Ticker::AAPL));
    assert!(s.contains(&Ticker::MSFT));
    assert!(!s.contains(&Ticker::GOOGL));
    assert!(!s.contains(&Ticker::TSLA));
    let empty = SymbolSet::from_tickers(&vec![]);
    assert!(!empty.contains(&Ticker::AAPL));
}

#[test]
fn price_step_is_exact() {
    // 100.0 moved by +0.5% is 100.5
    assert_eq!(price_after_change(100_000_000, 5_000), 100_500_000);
    // 100.0 moved by -1% is 99.0
    assert_eq!(price_after_change(100_000_000, -10_000), 99_000_000);
    // no move keeps the price
    assert_eq!(price_after_change(123_456_789, 0), 123_456_789);
    // rounding goes down: 0.333333 * 1.001 = 0.333666333
    assert_eq!(price_after_change(333_333, 1_000), 333_666);
}

#[test]
fn price_never_falls_below_floor() {
    assert_eq!(price_after_change(PRICE_FLOOR, -10_000), PRICE_FLOOR);
    assert_eq!(price_after_change(10_050, -10_000), PRICE_FLOOR);
    assert_eq!(price_after_change(0, 0), PRICE_FLOOR);
}

#[test]
fn price_near_the_top_is_held_at_the_largest_value() {
    assert_eq!(price_after_change(u64::MAX, 9_999), u64::MAX);
}

#[test]
fn random_walk_stays_within_bounds() {
    let mut p = INITIAL_PRICE;
    for _ in 0..2000 {
        let next = Quote::next_price(p);
        assert!(next >= PRICE_FLOOR);
        let scale = PRICE_SCALE as u128;
        let step = MAX_STEP_PPM as u128;
        assert!((next as u128) * scale <= (p as u128) * (scale + step));
        assert!((p as u128) * (scale - step) < (next as u128 + 1) * scale);
        p = next;
    }
}

#[test]
fn walk_from_the_floor_stays_at_or_above_it() {
    let mut p = PRICE_FLOOR;
    for _ in 0..500 {
        p = Quote::next_price(p);
        assert!(p >= PRICE_FLOOR);
    }
}

#[test]
fn volumes_follow_the_ticker_tier() {
    assert_eq!(Quote::volume_from_draw(&Ticker::AAPL, 0), 1000);
    assert_eq!(Quote::volume_from_draw(&Ticker::AAPL, 4999), 5999);
    assert_eq!(Quote::volume_from_draw(&Ticker::GOOGL, 0), 100);
    assert_eq!(Quote::volume_from_draw(&Ticker::GOOGL, 999), 1099);
    for _ in 0..200 {
        let q = Quote::generate_new(&Ticker::TSLA, INITIAL_PRICE);
        assert_eq!(q.ticker, Ticker::TSLA);
        assert!(q.volume >= 1000 && q.volume < 6000);
        let q = Quote::generate_new(&Ticker::JPM, INITIAL_PRICE);
        assert!(q.volume >= 100 && q.volume < 1100);
        assert!(q.timestamp > 0);
    }
}

#[test]
fn quote_from_draws_is_exact() {
    let q = Quote::from_draws(Ticker::MSFT, 200_000_000, -2_500, 42, 1_700_000_000_000);
    assert_eq!(
        q,
        Quote { ticker: Ticker::MSFT, price: 199_500_000, volume: 1042, timestamp: 1_700_000_000_000 }
    );
}

#[test]
fn generator_cycle_ticks_every_symbol_in_order() {
    let mut g = QuoteGenerator::new(default_symbols());
    assert_eq!(g.prices(), &vec![INITIAL_PRICE; 4]);
    let (tx, rx) = crossbeam_channel::unbounded();
    g.subscribe(tx);
    let ticks = g.run_cycle();
    let tickers: Vec<Ticker> = ticks.iter().map(|q| q.ticker).collect();
    assert_eq!(tickers, vec![Ticker::AAPL, Ticker::MSFT, Ticker::TSLA, Ticker::GOOGL]);
    let prices: Vec<u64> = ticks.iter().map(|q| q.price).collect();
    assert_eq!(g.prices(), &prices);
    for q in &ticks {
        assert_eq!(rx.try_recv().unwrap(), QuoteEvent::Quote(*q));
    }
    assert!(rx.try_recv().is_err());
    assert_eq!(g.client_count(), 1);
}

#[test]
fn generator_drops_closed_and_full_channels_only() {
    let mut g = QuoteGenerator::new(vec![Ticker::AAPL]);
    let (open_tx, open_rx) = crossbeam_channel::unbounded();
    let (closed_tx, closed_rx) = crossbeam_channel::unbounded();
    let (full_tx, _full_rx) = crossbeam_channel::bounded(0);
    g.subscribe(closed_tx);
    g.subscribe(open_tx);
    g.subscribe(full_tx);
    drop(closed_rx);
    let delivered = g.broadcast(QuoteEvent::Shutdown);
    assert_eq!(delivered, vec![false, true, false]);
    assert_eq!(g.client_count(), 1);
    assert_eq!(open_rx.try_recv().unwrap(), QuoteEvent::Shutdown);
    g.run_cycle();
    assert_eq!(g.client_count(), 1);
    assert!(matches!(open_rx.try_recv().unwrap(), QuoteEvent::Quote(_)));
}

#[test]
fn generator_shutdown_reaches_every_subscriber() {
    let mut g = QuoteGenerator::new(default_symbols());
    let (a_tx, a_rx) = crossbeam_channel::unbounded();
    let (b_tx, b_rx) = crossbeam_channel::unbounded();
    g.subscribe(a_tx);
    g.subscribe(b_tx);
    assert_eq!(g.shutdown(), vec![true, true]);
    assert_eq!(a_rx.try_recv().unwrap(), QuoteEvent::Shutdown);
    assert_eq!(b_rx.try_recv().unwrap(), QuoteEvent::Shutdown);
}

#[test]
fn generator_prices_stay_bounded_over_many_cycles() {
    let mut g = QuoteGenerator::new(default_symbols());
    for _ in 0..300 {
        let before = g.prices().clone();
        g.run_cycle();
        for (old, new) in before.iter().zip(g.prices().iter()) {
            assert!(*new >= PRICE_FLOOR);
            assert!((*new as u128) * 1_000_000 <= (*old as u128) * 1_010_000);
            assert!((*old as u128) * 990_000 < (*new as u128 + 1) * 1_000_000);
        }
    }
}

#[test]
fn generator_follows_each_symbol_once() {
    let g = QuoteGenerator::new(vec![Ticker::AAPL, Ticker::MSFT, Ticker::AAPL, Ticker::MSFT]);
    assert_eq!(g.symbols(), &vec![Ticker::AAPL, Ticker::MSFT]);
    assert_eq!(g.prices(), &vec![INITIAL_PRICE, INITIAL_PRICE]);
    let empty = QuoteGenerator::new(vec![]);
    assert!(empty.symbols().is_empty());
}

#[test]
fn every_live_subscriber_gets_the_same_ticks_and_late_ones_none_earlier() {
    let mut g = QuoteGenerator::new(default_symbols());
    let (a_tx, a_rx) = crossbeam_channel::unbounded();
    let (b_tx, b_rx) = crossbeam_channel::unbounded();
    let (gone_tx, gone_rx) = crossbeam_channel::unbounded();
    g.subscribe(a_tx);
    g.subscribe(gone_tx);
    g.subscribe(b_tx);
    drop(gone_rx);
    let first = g.run_cycle();
    assert_eq!(g.client_count(), 2);
    let (late_tx, late_rx) = crossbeam_channel::unbounded();
    g.subscribe(late_tx);
    let second = g.run_cycle();
    let a: Vec<QuoteEvent> = a_rx.try_iter().collect();
    let b: Vec<QuoteEvent> = b_rx.try_iter().collect();
    let late: Vec<QuoteEvent> = late_rx.try_iter().collect();
    let expected: Vec<QuoteEvent> =
        first.iter().chain(second.iter()).map(|q| QuoteEvent::Quote(*q)).collect();
    assert_eq!(a, expected);
    assert_eq!(b, expected);
    let expected_late: Vec<QuoteEvent> = second.iter().map(|q| QuoteEvent::Quote(*q)).collect();
    assert_eq!(late, expected_late);
}
