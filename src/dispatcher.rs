//! The per-subscriber dispatcher: it receives every broadcast event, keeps
//! the ticks of the subscribed symbols, and stops for good on a stop signal,
//! a generator shutdown, a closed channel or a failed send.
use vstd::prelude::*;

use crate::net::PeerAddr;
use crate::quote::{Quote, QuoteEvent};
use crate::symbol_set::SymbolSet;
use crate::ticker::Ticker;

verus! {

/// What a dispatcher can observe while it waits.
#[derive(Clone, Copy, Debug, PartialEq, Eq, Structural)]
pub enum DispatchEvent {
    /// A tick arrived from the generator.
    Quote(Quote),
    /// The generator announced a global shutdown.
    Shutdown,
    /// The registry asked this dispatcher to stop.
    Stop,
    /// The broadcast channel closed.
    Disconnected,
    /// Sending a forwarded tick to the subscriber failed.
    SendFailed,
}

/// What a dispatcher does in answer to an event.
#[derive(Clone, Copy, Debug, PartialEq, Eq, Structural)]
pub enum DispatchAction {
    /// Encode the tick and send it to the subscriber.
    Forward(Quote),
    /// Nothing to do; keep waiting.
    Ignore,
    /// Leave the dispatch loop.
    Exit,
}

/// The action of a dispatcher subscribed to `symbols` on `ev`, while it is
/// `running` or after it has stopped.
pub open spec fn dispatch_action(symbols: Set<Ticker>, running: bool, ev: DispatchEvent) -> DispatchAction {
    if !running {
        DispatchAction::Exit
    } else {
        match ev {
            DispatchEvent::Quote(q) => if symbols.contains(q.ticker) {
                DispatchAction::Forward(q)
            } else {
                DispatchAction::Ignore
            },
            _ => DispatchAction::Exit,
        }
    }
}

/// Whether a dispatcher is still running after `ev`.
pub open spec fn still_running(running: bool, ev: DispatchEvent) -> bool {
    running && ev is Quote
}

/// The ticks a dispatcher forwards over a run of events.
pub open spec fn forwarded(symbols: Set<Ticker>, running: bool, events: Seq<DispatchEvent>) -> Seq<
    Quote,
>
    decreases events.len(),
{
    if events.len() == 0 {
        Seq::empty()
    } else {
        let rest = forwarded(symbols, still_running(running, events[0]), events.skip(1));
        match dispatch_action(symbols, running, events[0]) {
            DispatchAction::Forward(q) => seq![q] + rest,
            _ => rest,
        }
    }
}

/// The ticks among `events` whose symbol is in `symbols`, in order.
pub open spec fn subscribed_ticks(symbols: Set<Ticker>, events: Seq<DispatchEvent>) -> Seq<Quote>
    decreases events.len(),
{
    if events.len() == 0 {
        Seq::empty()
    } else {
        let rest = subscribed_ticks(symbols, events.skip(1));
        match events[0] {
            DispatchEvent::Quote(q) => if symbols.contains(q.ticker) {
                seq![q] + rest
            } else {
                rest
            },
            _ => rest,
        }
    }
}

/// A dispatcher only ever forwards ticks of symbols it subscribed to.
pub proof fn lemma_forwards_only_subscribed(
    symbols: Set<Ticker>,
    running: bool,
    events: Seq<DispatchEvent>,
)
    ensures
        forall|i: int|
            0 <= i < forwarded(symbols, running, events).len() ==> symbols.contains(
                #[trigger] forwarded(symbols, running, events)[i].ticker,
            ),
    decreases events.len(),
{
    if events.len() > 0 {
        lemma_forwards_only_subscribed(symbols, still_running(running, events[0]), events.skip(1));
    }
}

/// While only ticks arrive, a running dispatcher forwards exactly the ticks of
/// its symbols, in the order they came.
pub proof fn lemma_forwards_every_subscribed(symbols: Set<Ticker>, events: Seq<DispatchEvent>)
    requires
        forall|i: int| 0 <= i < events.len() ==> #[trigger] events[i] is Quote,
    ensures
        forwarded(symbols, true, events) == subscribed_ticks(symbols, events),
    decreases events.len(),
{
    if events.len() > 0 {
        assert forall|i: int| 0 <= i < events.skip(1).len() implies #[trigger] events.skip(1)[i] is Quote by {
            assert(events.skip(1)[i] == events[i + 1]);
        }
        lemma_forwards_every_subscribed(symbols, events.skip(1));
    }
}

/// After a stop signal or a generator shutdown a dispatcher is no longer
/// running and forwards nothing more, whatever arrives afterwards.
pub proof fn lemma_stop_is_final(
    symbols: Set<Ticker>,
    running: bool,
    ev: DispatchEvent,
    later: Seq<DispatchEvent>,
)
    requires
        ev == DispatchEvent::Stop || ev == DispatchEvent::Shutdown,
    ensures
        dispatch_action(symbols, running, ev) == DispatchAction::Exit,
        !still_running(running, ev),
        forwarded(symbols, still_running(running, ev), later) == Seq::<Quote>::empty(),
{
    lemma_stopped_forwards_nothing(symbols, later);
}

/// A stopped dispatcher forwards nothing.
pub proof fn lemma_stopped_forwards_nothing(symbols: Set<Ticker>, events: Seq<DispatchEvent>)
    ensures
        forwarded(symbols, false, events) == Seq::<Quote>::empty(),
    decreases events.len(),
{
    if events.len() > 0 {
        lemma_stopped_forwards_nothing(symbols, events.skip(1));
    }
}

impl DispatchEvent {
    /// The event a dispatcher sees for a broadcast message.
    pub fn from_quote_event(ev: QuoteEvent) -> (r: DispatchEvent)
        ensures
            r == match ev {
                QuoteEvent::Quote(q) => DispatchEvent::Quote(q),
                QuoteEvent::Shutdown => DispatchEvent::Shutdown,
            },
    {
        match ev {
            QuoteEvent::Quote(q) => DispatchEvent::Quote(q),
            QuoteEvent::Shutdown => DispatchEvent::Shutdown,
        }
    }
}

/// The state of one subscriber's dispatcher.
pub struct Dispatcher {
    address: PeerAddr,
    symbols: SymbolSet,
    running: bool,
}

impl Dispatcher {
    /// Where the forwarded ticks go.
    pub closed spec fn address_view(&self) -> PeerAddr {
        self.address
    }

    /// The subscribed symbols.
    pub closed spec fn symbols_view(&self) -> Set<Ticker> {
        self.symbols@
    }

    /// Whether the dispatcher is still running.
    pub closed spec fn running_view(&self) -> bool {
        self.running
    }

    /// A running dispatcher for `address`, subscribed to the tickers listed.
    pub fn new(address: PeerAddr, tickers: &Vec<Ticker>) -> (d: Dispatcher)
        ensures
            d.address_view() == address,
            d.symbols_view() == tickers@.to_set(),
            d.running_view(),
    {
        Dispatcher { address, symbols: SymbolSet::from_tickers(tickers), running: true }
    }

    /// Takes one event and says what to do about it.
    pub fn on_event(&mut self, ev: DispatchEvent) -> (a: DispatchAction)
        ensures
            a == dispatch_action(old(self).symbols_view(), old(self).running_view(), ev),
            final(self).running_view() == still_running(old(self).running_view(), ev),
            final(self).symbols_view() == old(self).symbols_view(),
            final(self).address_view() == old(self).address_view(),
    {
        if !self.running {
            return DispatchAction::Exit;
        }
        match ev {
            DispatchEvent::Quote(q) => {
                if self.symbols.contains(&q.ticker) {
                    DispatchAction::Forward(q)
                } else {
                    DispatchAction::Ignore
                }
            },
            _ => {
                self.running = false;
                DispatchAction::Exit
            },
        }
    }

    /// Whether the dispatcher is still running.
    pub fn is_running(&self) -> (r: bool)
        ensures
            r == self.running_view(),
    {
        self.running
    }

    /// Where the forwarded ticks go.
    pub fn address(&self) -> (r: PeerAddr)
        ensures
            r == self.address_view(),
    {
        self.address
    }

    /// Whether ticks of `t` are forwarded.
    pub fn wants(&self, t: &Ticker) -> (r: bool)
        ensures
            r == self.symbols_view().contains(*t),
    {
        self.symbols.contains(t)
    }
}

} // verus!
