//! The tick generator: it owns the price of every followed symbol, moves each
//! by one step of the random walk per cycle, and broadcasts every tick to the
//! registered subscriber channels, dropping those that cannot take it.
use crossbeam_channel::Sender;
use vstd::prelude::*;

use crate::channel::offer;
use crate::price::{lemma_price_walk_bounded, within_step_bound, INITIAL_PRICE, PRICE_FLOOR};
use crate::quote::{is_tick_of, Quote, QuoteEvent};
use crate::ticker::Ticker;

verus! {

/// The items of `s` whose flag in `keep` is set, in their order.
pub open spec fn kept<A>(s: Seq<A>, keep: Seq<bool>) -> Seq<A>
    decreases s.len(),
{
    if s.len() == 0 {
        Seq::empty()
    } else {
        let rest = kept(s.drop_last(), keep);
        if keep[s.len() - 1] {
            rest.push(s.last())
        } else {
            rest
        }
    }
}

/// Only the flags of the first `s.len()` positions matter.
proof fn lemma_kept_prefix<A>(s: Seq<A>, d1: Seq<bool>, d2: Seq<bool>)
    requires
        s.len() <= d1.len(),
        s.len() <= d2.len(),
        forall|i: int| 0 <= i < s.len() ==> d1[i] == d2[i],
    ensures
        kept(s, d1) == kept(s, d2),
    decreases s.len(),
{
    if s.len() > 0 {
        lemma_kept_prefix(s.drop_last(), d1, d2);
    }
}

/// Keeping one more item appends it when its flag is set.
proof fn lemma_kept_push<A>(s: Seq<A>, x: A, d: Seq<bool>)
    requires
        s.len() < d.len(),
    ensures
        kept(s.push(x), d) == if d[s.len() as int] {
            kept(s, d).push(x)
        } else {
            kept(s, d)
        },
{
    assert(s.push(x).drop_last() =~= s);
}

/// How many items are kept depends on the flags alone.
proof fn lemma_kept_len<A, B>(a: Seq<A>, b: Seq<B>, d: Seq<bool>)
    requires
        a.len() == b.len(),
    ensures
        kept(a, d).len() == kept(b, d).len(),
    decreases a.len(),
{
    if a.len() > 0 {
        lemma_kept_len(a.drop_last(), b.drop_last(), d);
    }
}

/// Dropping twice is dropping once, by the same flags for any two sequences
/// of one length.
proof fn lemma_kept_compose<A, B>(a: Seq<A>, b: Seq<B>, d1: Seq<bool>, d2: Seq<bool>) -> (d3: Seq<
    bool,
>)
    requires
        d1.len() == a.len(),
        b.len() == a.len(),
        d2.len() == kept(a, d1).len(),
    ensures
        d3.len() == a.len(),
        kept(kept(a, d1), d2) == kept(a, d3),
        kept(kept(b, d1), d2) == kept(b, d3),
    decreases a.len(),
{
    if a.len() == 0 {
        Seq::empty()
    } else {
        let a0 = a.drop_last();
        let x = a.last();
        let b0 = b.drop_last();
        let y = b.last();
        assert(a0.push(x) =~= a);
        assert(b0.push(y) =~= b);
        let d1p = d1.drop_last();
        lemma_kept_prefix(a0, d1, d1p);
        lemma_kept_prefix(b0, d1, d1p);
        lemma_kept_len(a0, b0, d1);
        let ka0 = kept(a0, d1);
        let kb0 = kept(b0, d1);
        lemma_kept_push(a0, x, d1);
        lemma_kept_push(b0, y, d1);
        if d1[a0.len() as int] {
            let d2p = d2.drop_last();
            let d3p = lemma_kept_compose(a0, b0, d1p, d2p);
            lemma_kept_push(ka0, x, d2);
            lemma_kept_prefix(ka0, d2, d2p);
            lemma_kept_push(kb0, y, d2);
            lemma_kept_prefix(kb0, d2, d2p);
            let d3 = d3p.push(d2.last());
            lemma_kept_push(a0, x, d3);
            lemma_kept_prefix(a0, d3, d3p);
            lemma_kept_push(b0, y, d3);
            lemma_kept_prefix(b0, d3, d3p);
            d3
        } else {
            let d3p = lemma_kept_compose(a0, b0, d1p, d2);
            let d3 = d3p.push(false);
            lemma_kept_push(a0, x, d3);
            lemma_kept_prefix(a0, d3, d3p);
            lemma_kept_push(b0, y, d3);
            lemma_kept_prefix(b0, d3, d3p);
            d3
        }
    }
}

/// Keeping every item keeps the sequence.
proof fn lemma_kept_all<A>(a: Seq<A>, d: Seq<bool>)
    requires
        a.len() <= d.len(),
        forall|i: int| 0 <= i < a.len() ==> d[i],
    ensures
        kept(a, d) == a,
    decreases a.len(),
{
    if a.len() > 0 {
        lemma_kept_all(a.drop_last(), d);
        assert(a.drop_last().push(a.last()) =~= a);
    }
}

/// Each record of `o` with `e` appended.
pub open spec fn each_pushed<T>(o: Seq<Seq<T>>, e: T) -> Seq<Seq<T>> {
    Seq::new(o.len(), |i: int| o[i].push(e))
}

/// Each record of `o` with all of `evs` appended.
pub open spec fn each_extended<T>(o: Seq<Seq<T>>, evs: Seq<T>) -> Seq<Seq<T>> {
    Seq::new(o.len(), |i: int| o[i] + evs)
}

/// The broadcast events of a run of ticks.
pub open spec fn tick_events(ticks: Seq<Quote>) -> Seq<QuoteEvent> {
    Seq::new(ticks.len(), |i: int| QuoteEvent::Quote(ticks[i]))
}

/// Appending to every record and then dropping some is dropping and then
/// appending.
proof fn lemma_kept_each_pushed<T>(o: Seq<Seq<T>>, d: Seq<bool>, e: T)
    ensures
        each_pushed(kept(o, d), e) == kept(each_pushed(o, e), d),
    decreases o.len(),
{
    if o.len() == 0 {
        assert(each_pushed(kept(o, d), e) =~= kept(each_pushed(o, e), d));
    } else {
        let o0 = o.drop_last();
        lemma_kept_each_pushed(o0, d, e);
        assert(each_pushed(o, e).drop_last() =~= each_pushed(o0, e));
        assert(o.drop_last() == o0);
        if d[o.len() - 1] {
            assert(each_pushed(kept(o0, d).push(o.last()), e) =~= each_pushed(kept(o0, d), e).push(
                o.last().push(e),
            ));
        }
    }
}

/// After a cycle, every channel that stays was offered the same events, in
/// the same order, after what it had been offered before the cycle.
pub proof fn lemma_cycle_offers_same_ticks<T>(o: Seq<Seq<T>>, evs: Seq<T>, d: Seq<bool>)
    ensures
        forall|x: int|
            0 <= x < kept(each_extended(o, evs), d).len() ==> exists|i: int|
                0 <= i < o.len() && #[trigger] kept(each_extended(o, evs), d)[x] == o[i] + evs,
    decreases o.len(),
{
    if o.len() > 0 {
        let o0 = o.drop_last();
        lemma_cycle_offers_same_ticks(o0, evs, d);
        let e = each_extended(o, evs);
        let e0 = each_extended(o0, evs);
        assert(e.drop_last() =~= e0);
        let k0 = kept(e0, d);
        assert forall|x: int| 0 <= x < kept(e, d).len() implies exists|i: int|
            0 <= i < o.len() && #[trigger] kept(e, d)[x] == o[i] + evs by {
            if x < k0.len() {
                let i = choose|i: int| 0 <= i < o0.len() && #[trigger] k0[x] == o0[i] + evs;
                assert(kept(e, d)[x] == k0[x]);
                assert(o[i] == o0[i]);
            } else {
                assert(kept(e, d)[x] == e.last());
                assert(e.last() == o[o.len() - 1] + evs);
            }
        }
    }
}

/// The distinct items of `s`, each where it first occurs.
pub open spec fn distinct<A>(s: Seq<A>) -> Seq<A>
    decreases s.len(),
{
    if s.len() == 0 {
        Seq::empty()
    } else {
        let d = distinct(s.drop_last());
        if d.contains(s.last()) {
            d
        } else {
            d.push(s.last())
        }
    }
}

/// Whether `t` is among the items of `v`.
fn listed(v: &Vec<Ticker>, t: Ticker) -> (r: bool)
    ensures
        r == v@.contains(t),
{
    let mut i: usize = 0;
    while i < v.len()
        invariant
            i <= v@.len(),
            forall|k: int| 0 <= k < i ==> v@[k] != t,
        decreases v@.len() - i,
    {
        if v[i] == t {
            return true;
        }
        i = i + 1;
    }
    false
}

/// The default symbols the generator tracks, in their iteration order.
pub fn default_symbols() -> (r: Vec<Ticker>)
    ensures
        r@ == seq![Ticker::AAPL, Ticker::MSFT, Ticker::TSLA, Ticker::GOOGL],
{
    vec![Ticker::AAPL, Ticker::MSFT, Ticker::TSLA, Ticker::GOOGL]
}

/// The generator's state: the followed symbols in a fixed order, the last
/// price of each, and the registered subscriber channels. Beside each
/// channel a ghost record keeps the events it was offered since it was
/// registered.
pub struct QuoteGenerator {
    symbols: Vec<Ticker>,
    prices: Vec<u64>,
    clients: Vec<Sender<QuoteEvent>>,
    offered: Ghost<Seq<Seq<QuoteEvent>>>,
}

impl QuoteGenerator {
    /// One price per symbol, none below the floor, one record per channel.
    pub closed spec fn well_formed(&self) -> bool {
        &&& self.symbols@.len() == self.prices@.len()
        &&& forall|i: int| 0 <= i < self.prices@.len() ==> self.prices@[i] >= PRICE_FLOOR
        &&& self.offered@.len() == self.clients@.len()
    }

    /// The followed symbols, in iteration order.
    pub closed spec fn symbols_view(&self) -> Seq<Ticker> {
        self.symbols@
    }

    /// The last price of each followed symbol, in the order of the symbols.
    pub closed spec fn prices_view(&self) -> Seq<u64> {
        self.prices@
    }

    /// The registered subscriber channels, oldest first.
    pub closed spec fn clients_view(&self) -> Seq<Sender<QuoteEvent>> {
        self.clients@
    }

    /// For each registered channel, in the same order, the events it was
    /// offered since it was registered, oldest first.
    pub closed spec fn offered_view(&self) -> Seq<Seq<QuoteEvent>> {
        self.offered@
    }

    /// There is one offer record per registered channel.
    pub proof fn lemma_one_record_per_channel(&self)
        requires
            self.well_formed(),
        ensures
            self.offered_view().len() == self.clients_view().len(),
    {
    }

    /// A generator tracking the symbols listed, each once, in the order of
    /// their first mention, each starting at the initial price, with no
    /// subscriber yet.
    pub fn new(symbols: Vec<Ticker>) -> (g: QuoteGenerator)
        ensures
            g.well_formed(),
            g.symbols_view() == distinct(symbols@),
            g.prices_view() == Seq::new(distinct(symbols@).len(), |i: int| INITIAL_PRICE),
            g.clients_view() == Seq::<Sender<QuoteEvent>>::empty(),
            g.offered_view() == Seq::<Seq<QuoteEvent>>::empty(),
    {
        let mut unique: Vec<Ticker> = Vec::new();
        let mut prices: Vec<u64> = Vec::new();
        let mut i: usize = 0;
        while i < symbols.len()
            invariant
                i <= symbols@.len(),
                unique@ == distinct(symbols@.take(i as int)),
                prices@ == Seq::new(unique@.len(), |k: int| INITIAL_PRICE),
            decreases symbols@.len() - i,
        {
            let t = symbols[i];
            assert(symbols@.take(i + 1).drop_last() =~= symbols@.take(i as int));
            if !listed(&unique, t) {
                unique.push(t);
                prices.push(INITIAL_PRICE);
            }
            i = i + 1;
            assert(prices@ =~= Seq::new(unique@.len(), |k: int| INITIAL_PRICE));
        }
        assert(symbols@.take(symbols@.len() as int) =~= symbols@);
        QuoteGenerator { symbols: unique, prices, clients: Vec::new(), offered: Ghost(Seq::empty()) }
    }

    /// Registers a subscriber channel. It has been offered nothing yet, and
    /// takes part from the next broadcast on.
    pub fn subscribe(&mut self, tx: Sender<QuoteEvent>)
        requires
            old(self).well_formed(),
        ensures
            final(self).well_formed(),
            final(self).symbols_view() == old(self).symbols_view(),
            final(self).prices_view() == old(self).prices_view(),
            final(self).clients_view() == old(self).clients_view().push(tx),
            final(self).offered_view() == old(self).offered_view().push(Seq::<QuoteEvent>::empty()),
    {
        self.clients.push(tx);
        self.offered = Ghost(self.offered@.push(Seq::empty()));
    }

    /// How many subscriber channels are registered.
    pub fn client_count(&self) -> (n: usize)
        ensures
            n == self.clients_view().len(),
    {
        self.clients.len()
    }

    /// The followed symbols.
    pub fn symbols(&self) -> (r: &Vec<Ticker>)
        ensures
            r@ == self.symbols_view(),
    {
        &self.symbols
    }

    /// The last price of each followed symbol, one per symbol, none below the
    /// floor.
    pub fn prices(&self) -> (r: &Vec<u64>)
        requires
            self.well_formed(),
        ensures
            r@ == self.prices_view(),
            r@.len() == self.symbols_view().len(),
            forall|i: int| 0 <= i < r@.len() ==> r@[i] >= PRICE_FLOOR,
    {
        &self.prices
    }

    /// Offers `event` to every registered channel, without blocking, and
    /// drops each channel that did not take it. The flags say, channel by
    /// channel, which took it: every channel was offered `event`, and the
    /// ones that took it stay, in their order.
    pub fn broadcast(&mut self, event: QuoteEvent) -> (delivered: Vec<bool>)
        requires
            old(self).well_formed(),
        ensures
            final(self).well_formed(),
            delivered@.len() == old(self).clients_view().len(),
            final(self).clients_view() == kept(old(self).clients_view(), delivered@),
            final(self).offered_view() == kept(
                each_pushed(old(self).offered_view(), event),
                delivered@,
            ),
            final(self).symbols_view() == old(self).symbols_view(),
            final(self).prices_view() == old(self).prices_view(),
    {
        let ghost orig = self.clients@;
        let ghost records = self.offered@;
        let ghost bumped = each_pushed(records, event);
        let mut delivered: Vec<bool> = Vec::new();
        let mut i: usize = 0;
        assert(bumped.take(0) =~= Seq::<Seq<QuoteEvent>>::empty());
        assert(records.skip(0) =~= records);
        assert(orig.take(0) =~= Seq::<Sender<QuoteEvent>>::empty());
        assert(orig.skip(0) =~= orig);
        while i < self.clients.len()
            invariant
                orig.len() == records.len(),
                bumped == each_pushed(records, event),
                delivered@.len() <= orig.len(),
                i as int == kept(orig.take(delivered@.len() as int), delivered@).len(),
                self.clients@ == kept(orig.take(delivered@.len() as int), delivered@)
                    + orig.skip(delivered@.len() as int),
                self.offered@ == kept(bumped.take(delivered@.len() as int), delivered@)
                    + records.skip(delivered@.len() as int),
                self.symbols@ == old(self).symbols@,
                self.prices@ == old(self).prices@,
            decreases self.clients@.len() - i,
        {
            let ghost j = delivered@.len() as int;
            let ghost prev = delivered@;
            proof {
                lemma_kept_len(orig.take(j), bumped.take(j), prev);
                assert(self.clients@[i as int] == orig[j]);
                assert(self.offered@[i as int] == records[j]);
            }
            let ok = offer(&self.clients[i], event);
            self.offered = Ghost(self.offered@.update(i as int, bumped[j]));
            delivered.push(ok);
            proof {
                assert(orig.take(j + 1) =~= orig.take(j).push(orig[j]));
                assert(bumped.take(j + 1) =~= bumped.take(j).push(bumped[j]));
                lemma_kept_prefix(orig.take(j), prev, delivered@);
                lemma_kept_push(orig.take(j), orig[j], delivered@);
                lemma_kept_prefix(bumped.take(j), prev, delivered@);
                lemma_kept_push(bumped.take(j), bumped[j], delivered@);
            }
            if ok {
                i = i + 1;
                assert(self.clients@ =~= kept(orig.take(j + 1), delivered@) + orig.skip(j + 1));
                assert(self.offered@ =~= kept(bumped.take(j + 1), delivered@) + records.skip(j + 1));
            } else {
                self.clients.remove(i);
                self.offered = Ghost(self.offered@.remove(i as int));
                assert(self.clients@ =~= kept(orig.take(j + 1), delivered@) + orig.skip(j + 1));
                assert(self.offered@ =~= kept(bumped.take(j + 1), delivered@) + records.skip(j + 1));
            }
        }
        assert(orig.take(orig.len() as int) =~= orig);
        assert(bumped.take(bumped.len() as int) =~= bumped);
        assert(self.clients@ =~= kept(orig, delivered@));
        assert(self.offered@ =~= kept(bumped, delivered@));
        proof {
            lemma_kept_len(orig, bumped, delivered@);
        }
        delivered
    }

    /// One cycle: every followed symbol, in order, moves by one step of the
    /// random walk, its new price is stored, and its tick is broadcast. The
    /// ticks are returned in the order of the symbols. Every channel that
    /// stays was offered each tick of the cycle, in order; the others were
    /// dropped at their first failed offer.
    pub fn run_cycle(&mut self) -> (ticks: Vec<Quote>)
        requires
            old(self).well_formed(),
        ensures
            final(self).well_formed(),
            final(self).symbols_view() == old(self).symbols_view(),
            final(self).prices_view().len() == old(self).prices_view().len(),
            ticks@.len() == old(self).symbols_view().len(),
            forall|i: int|
                0 <= i < ticks@.len() ==> {
                    &&& is_tick_of(#[trigger] ticks@[i], old(self).symbols_view()[i], old(self).prices_view()[i])
                    &&& final(self).prices_view()[i] == ticks@[i].price
                    &&& final(self).prices_view()[i] >= PRICE_FLOOR
                    &&& within_step_bound(old(self).prices_view()[i], final(self).prices_view()[i])
                },
            exists|d: Seq<bool>|
                {
                    &&& d.len() == old(self).clients_view().len()
                    &&& final(self).clients_view() == #[trigger] kept(old(self).clients_view(), d)
                    &&& final(self).offered_view() == kept(
                        each_extended(old(self).offered_view(), tick_events(ticks@)),
                        d,
                    )
                },
    {
        let ghost start = *self;
        let ghost mut flags: Seq<bool> = Seq::new(self.clients@.len(), |i: int| true);
        let ghost mut evs: Seq<QuoteEvent> = Seq::empty();
        proof {
            lemma_kept_all(start.clients@, flags);
            assert(each_extended(start.offered@, evs) =~= start.offered@) by {
                assert forall|i: int| 0 <= i < start.offered@.len() implies #[trigger] each_extended(
                    start.offered@,
                    evs,
                )[i] == start.offered@[i] by {
                    assert(start.offered@[i] + evs =~= start.offered@[i]);
                }
            }
            lemma_kept_all(start.offered@, flags);
        }
        let mut ticks: Vec<Quote> = Vec::new();
        let mut k: usize = 0;
        while k < self.symbols.len()
            invariant
                k <= self.symbols@.len(),
                self.symbols@ == start.symbols@,
                self.prices@.len() == start.prices@.len(),
                start.well_formed(),
                self.well_formed(),
                ticks@.len() == k,
                forall|i: int| k <= i < self.prices@.len() ==> self.prices@[i] == start.prices@[i],
                forall|i: int|
                    0 <= i < k ==> {
                        &&& is_tick_of(#[trigger] ticks@[i], start.symbols@[i], start.prices@[i])
                        &&& self.prices@[i] == ticks@[i].price
                        &&& self.prices@[i] >= PRICE_FLOOR
                        &&& within_step_bound(start.prices@[i], self.prices@[i])
                    },
                flags.len() == start.clients@.len(),
                evs == tick_events(ticks@),
                self.clients@ == kept(start.clients@, flags),
                self.offered@ == kept(each_extended(start.offered@, evs), flags),
            decreases start.symbols@.len() - k,
        {
            let symbol = self.symbols[k];
            let current = self.prices[k];
            let q = Quote::generate_new(&symbol, current);
            proof {
                let c = choose|c: i64|
                    crate::price::is_valid_change(c) && q.price == crate::price::next_price_from(
                        current,
                        c,
                    );
                lemma_price_walk_bounded(current, c);
            }
            self.prices.set(k, q.price);
            let ghost event = QuoteEvent::Quote(q);
            let delivered = self.broadcast(QuoteEvent::Quote(q));
            proof {
                let extended = each_extended(start.offered@, evs);
                let next = each_extended(start.offered@, evs.push(event));
                lemma_kept_each_pushed(extended, flags, event);
                assert(each_pushed(extended, event) =~= next) by {
                    assert forall|i: int| 0 <= i < next.len() implies #[trigger] each_pushed(
                        extended,
                        event,
                    )[i] == next[i] by {
                        assert((start.offered@[i] + evs).push(event) =~= start.offered@[i] + evs.push(
                            event,
                        ));
                    }
                }
                let d3 = lemma_kept_compose(start.clients@, next, flags, delivered@);
                flags = d3;
                evs = evs.push(event);
            }
            ticks.push(q);
            proof {
                assert(evs =~= tick_events(ticks@));
            }
            k = k + 1;
        }
        assert(flags.len() == start.clients_view().len() && self.clients_view() == kept(
            start.clients_view(),
            flags,
        ) && self.offered_view() == kept(
            each_extended(start.offered_view(), tick_events(ticks@)),
            flags,
        ));
        ticks
    }

    /// Offers every registered channel the notice that the generator is
    /// shutting down, and drops those that did not take it.
    pub fn shutdown(&mut self) -> (delivered: Vec<bool>)
        requires
            old(self).well_formed(),
        ensures
            final(self).well_formed(),
            delivered@.len() == old(self).clients_view().len(),
            final(self).clients_view() == kept(old(self).clients_view(), delivered@),
            final(self).offered_view() == kept(
                each_pushed(old(self).offered_view(), QuoteEvent::Shutdown),
                delivered@,
            ),
            final(self).symbols_view() == old(self).symbols_view(),
            final(self).prices_view() == old(self).prices_view(),
    {
        self.broadcast(QuoteEvent::Shutdown)
    }
}

} // verus!
