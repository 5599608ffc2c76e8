//! Prices as whole numbers of millionths of a currency unit, and the bounded
//! random walk that moves them from one tick to the next.
use vstd::prelude::*;

verus! {

/// Millionths per currency unit.
pub const PRICE_SCALE: u64 = 1_000_000;

/// The lowest price a symbol can reach (0.01).
pub const PRICE_FLOOR: u64 = 10_000;

/// The price every followed symbol starts from (100.0).
pub const INITIAL_PRICE: u64 = 100_000_000;

/// The largest relative move of one tick, in parts per million (1%).
pub const MAX_STEP_PPM: i64 = 10_000;

/// A relative move that the walk may draw: within `[-1%, +1%)`.
pub open spec fn is_valid_change(change_ppm: i64) -> bool {
    -MAX_STEP_PPM <= change_ppm < MAX_STEP_PPM
}

/// `old * (1 + change)`, rounded down to a whole millionth.
pub open spec fn walked_price(old: u64, change_ppm: i64) -> int {
    (old as int) * (PRICE_SCALE as int + change_ppm as int) / (PRICE_SCALE as int)
}

/// A raw price held at the floor from below and at the largest `u64` from
/// above.
pub open spec fn clamped_price(raw: int) -> u64 {
    if raw < PRICE_FLOOR as int {
        PRICE_FLOOR
    } else if raw > u64::MAX as int {
        u64::MAX
    } else {
        raw as u64
    }
}

/// The price after a tick that drew `change_ppm`.
pub open spec fn next_price_from(old: u64, change_ppm: i64) -> u64 {
    clamped_price(walked_price(old, change_ppm))
}

/// `new` lies within one step of `old`: at most `old * (1 + 1%)`, and above
/// `old * (1 - 1%)` less one millionth of rounding.
pub open spec fn within_step_bound(old: u64, new: u64) -> bool {
    &&& (new as int) * (PRICE_SCALE as int) <= (old as int) * (PRICE_SCALE as int
        + MAX_STEP_PPM as int)
    &&& (old as int) * (PRICE_SCALE as int - MAX_STEP_PPM as int) < (new as int + 1) * (
    PRICE_SCALE as int)
}

/// The price after a tick that drew the relative move `change_ppm`: the old
/// price scaled by `1 + change`, never below the floor.
pub fn price_after_change(current_price: u64, change_ppm: i64) -> (r: u64)
    requires
        is_valid_change(change_ppm),
    ensures
        r == next_price_from(current_price, change_ppm),
{
    let factor: u128 = (1_000_000i64 + change_ppm) as u128;
    assert((current_price as u128) * factor <= 0xffff_ffff_ffff_ffffu128 * 1_010_000u128)
        by (nonlinear_arith)
        requires
            factor <= 1_010_000,
            current_price <= 0xffff_ffff_ffff_ffffu64,
    ;
    let raw: u128 = (current_price as u128) * factor / 1_000_000u128;
    if raw < PRICE_FLOOR as u128 {
        PRICE_FLOOR
    } else if raw > u64::MAX as u128 {
        u64::MAX
    } else {
        raw as u64
    }
}

/// Successive prices of the walk stay within the step bound of the price
/// before them and never fall below the floor, whatever move is drawn.
pub proof fn lemma_price_walk_bounded(old: u64, change_ppm: i64)
    requires
        old >= PRICE_FLOOR,
        is_valid_change(change_ppm),
    ensures
        next_price_from(old, change_ppm) >= PRICE_FLOOR,
        within_step_bound(old, next_price_from(old, change_ppm)),
{
    let f: int = PRICE_SCALE as int + change_ppm as int;
    let p: int = (old as int) * f;
    let raw = walked_price(old, change_ppm);
    assert(raw == p / 1_000_000);
    assert(raw * 1_000_000 <= p < (raw + 1) * 1_000_000) by (nonlinear_arith)
        requires
            raw == p / 1_000_000,
    ;
    assert((old as int) * 990_000 <= p <= (old as int) * 1_010_000) by (nonlinear_arith)
        requires
            p == (old as int) * f,
            990_000 <= f <= 1_010_000,
            old >= 0,
    ;
    let new = next_price_from(old, change_ppm);
    if raw < PRICE_FLOOR as int {
        assert(new == PRICE_FLOOR);
    } else if raw > u64::MAX as int {
        assert(new == u64::MAX);
    } else {
        assert(new as int == raw);
    }
}

} // verus!
