//! Quote ticks: one synthesized price, volume and timestamp for a symbol.
use rand::Rng;
use vstd::prelude::*;

use crate::price::{
    is_valid_change, lemma_price_walk_bounded, next_price_from, price_after_change,
    within_step_bound, MAX_STEP_PPM, PRICE_FLOOR,
};
use crate::ticker::{is_liquid_ticker, Ticker};

verus! {

/// Relies on `rand::Rng::random_range` over `rand::rng()`: a value drawn from
/// `[lo, hi)`; an empty range panics, which `requires` rules out.
#[verifier::external_body]
fn random_in(lo: i64, hi: i64) -> (r: i64)
    requires
        lo < hi,
    ensures
        lo <= r < hi,
{
    rand::rng().random_range(lo..hi)
}

/// Relies on `chrono::Utc::now` and `DateTime::timestamp_millis`: the wall
/// clock in milliseconds since the Unix epoch; nothing is promised of it.
#[verifier::external_body]
fn wall_clock_millis() -> (r: i64) {
    chrono::Utc::now().timestamp_millis()
}

/// One tick for a symbol. Prices are in millionths of a currency unit;
/// `timestamp` is in milliseconds since the Unix epoch.
#[derive(Clone, Copy, Debug, PartialEq, Eq, Structural)]
pub struct Quote {
    pub ticker: Ticker,
    pub price: u64,
    pub volume: u32,
    pub timestamp: u64,
}

/// The least volume of a tick for `t`.
pub open spec fn volume_base(t: Ticker) -> int {
    if is_liquid_ticker(t) {
        1000
    } else {
        100
    }
}

/// How many volumes above the base a tick for `t` can take.
pub open spec fn volume_span(t: Ticker) -> int {
    if is_liquid_ticker(t) {
        5000
    } else {
        1000
    }
}

/// A quote whose price moved by a valid step from `current_price` and whose
/// volume lies in the tier of its ticker.
pub open spec fn is_tick_of(q: Quote, ticker: Ticker, current_price: u64) -> bool {
    &&& q.ticker == ticker
    &&& exists|c: i64| is_valid_change(c) && q.price == next_price_from(current_price, c)
    &&& volume_base(ticker) <= q.volume < volume_base(ticker) + volume_span(ticker)
}

impl Quote {
    /// The volume of a tick for `ticker` that drew `draw` within its tier.
    pub fn volume_from_draw(ticker: &Ticker, draw: i64) -> (v: u32)
        requires
            0 <= draw < volume_span(*ticker),
        ensures
            v == volume_base(*ticker) + draw,
    {
        if ticker.is_liquid() {
            1000 + draw as u32
        } else {
            100 + draw as u32
        }
    }

    /// The quote for `ticker` built from the drawn price move, the drawn
    /// volume and a timestamp.
    pub fn from_draws(
        ticker: Ticker,
        current_price: u64,
        change_ppm: i64,
        volume_draw: i64,
        timestamp: u64,
    ) -> (q: Quote)
        requires
            is_valid_change(change_ppm),
            0 <= volume_draw < volume_span(ticker),
        ensures
            q.ticker == ticker,
            q.price == next_price_from(current_price, change_ppm),
            q.volume == volume_base(ticker) + volume_draw,
            q.timestamp == timestamp,
    {
        Quote {
            ticker,
            price: price_after_change(current_price, change_ppm),
            volume: Self::volume_from_draw(&ticker, volume_draw),
            timestamp,
        }
    }

    /// The next price of the random walk from `current_price`: a move drawn
    /// uniformly from `[-1%, +1%)`, held at the floor.
    pub fn next_price(current_price: u64) -> (r: u64)
        ensures
            exists|c: i64| is_valid_change(c) && r == next_price_from(current_price, c),
            current_price >= PRICE_FLOOR ==> r >= PRICE_FLOOR && within_step_bound(
                current_price,
                r,
            ),
    {
        let change = random_in(-MAX_STEP_PPM, MAX_STEP_PPM);
        proof {
            if current_price >= PRICE_FLOOR {
                lemma_price_walk_bounded(current_price, change);
            }
        }
        price_after_change(current_price, change)
    }

    /// A fresh tick for `ticker` from `current_price`, stamped with the wall
    /// clock. The clock never reads before the epoch (chrono panics there);
    /// the conversion to `u64` still maps a negative reading to 0.
    pub fn generate_new(ticker: &Ticker, current_price: u64) -> (q: Quote)
        ensures
            is_tick_of(q, *ticker, current_price),
            current_price >= PRICE_FLOOR ==> q.price >= PRICE_FLOOR && within_step_bound(
                current_price,
                q.price,
            ),
    {
        let span: i64 = if ticker.is_liquid() {
            5000
        } else {
            1000
        };
        let volume_draw = random_in(0, span);
        let change = random_in(-MAX_STEP_PPM, MAX_STEP_PPM);
        let millis = wall_clock_millis();
        let timestamp: u64 = if millis < 0 {
            0
        } else {
            millis as u64
        };
        let q = Self::from_draws(*ticker, current_price, change, volume_draw, timestamp);
        assert(is_valid_change(change) && q.price == next_price_from(current_price, change));
        proof {
            if current_price >= PRICE_FLOOR {
                lemma_price_walk_bounded(current_price, change);
            }
        }
        q
    }
}

/// A message from the tick generator to its subscribers.
#[derive(Clone, Copy, Debug, PartialEq, Eq, Structural)]
pub enum QuoteEvent {
    /// A new tick for one symbol.
    Quote(Quote),
    /// The generator is shutting down; every subscriber should stop.
    Shutdown,
}

} // verus!
