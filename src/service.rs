//! The quote service's bookkeeping: the registry of active subscriptions and
//! the liveness monitor, driven by decoded commands, keep-alives, timeout
//! scans and dispatcher exits. Both are keyed by one canonical address.
use crossbeam_channel::Sender;
use vstd::prelude::*;

use crate::command::{
    decode_request, is_keep_alive, is_keep_alive_datagram, port_of, subscriber_key, Command,
    ParserError, Request, HEADER, PING,
};
use crate::dispatcher::{dispatch_action, forwarded, lemma_stop_is_final, DispatchAction, DispatchEvent, still_running};
use crate::liveness::{after_scan, expired_set, PingMonitor};
use crate::net::{canonical_addr, PeerAddr};
use crate::quote::Quote;
use crate::registry::{next_subscription_id, SubscriberRegistry};
use crate::ticker::Ticker;

verus! {

/// What an accepted command led to.
#[derive(Clone, Debug)]
pub enum Admission {
    /// A subscription was registered for `address` under `id`; its
    /// dispatcher should forward the listed tickers.
    Subscribed { address: PeerAddr, id: u64, tickers: Vec<Ticker> },
    /// `address` was marked alive.
    KeptAlive { address: PeerAddr },
}

/// What a command with this header and port, received from `peer`, asks for:
/// whether it subscribes, and the subscriber's key; `None` when it is refused.
pub open spec fn command_target(header: Seq<char>, port: Seq<char>, peer: PeerAddr) -> Option<
    (bool, PeerAddr),
> {
    if (header == HEADER@ || header == PING@) && port_of(port) is Some {
        Some((header == HEADER@, subscriber_key(peer, port_of(port)->0)))
    } else {
        None
    }
}

/// The active subscriptions, the last-seen times and the next subscription
/// id after a command: a subscription registers its subscriber and marks it
/// seen, a keep-alive marks it seen, and a refused command changes nothing.
pub open spec fn after_command(
    streams: Map<PeerAddr, u64>,
    seen: Map<PeerAddr, u64>,
    next_id: u64,
    header: Seq<char>,
    port: Seq<char>,
    peer: PeerAddr,
    now: u64,
) -> (Map<PeerAddr, u64>, Map<PeerAddr, u64>, u64) {
    match command_target(header, port, peer) {
        None => (streams, seen, next_id),
        Some((true, a)) => (streams.insert(a, next_id), seen.insert(a, now), next_subscription_id(next_id)),
        Some((false, a)) => (streams, seen.insert(a, now), next_id),
    }
}

/// A malformed command is contained: it changes nothing, so a well-formed
/// command that follows it, from any connection, has exactly the effect it
/// would have had alone.
pub proof fn lemma_malformed_command_is_isolated(
    streams: Map<PeerAddr, u64>,
    seen: Map<PeerAddr, u64>,
    next_id: u64,
    bad_header: Seq<char>,
    bad_port: Seq<char>,
    bad_peer: PeerAddr,
    bad_now: u64,
    header: Seq<char>,
    port: Seq<char>,
    peer: PeerAddr,
    now: u64,
)
    requires
        command_target(bad_header, bad_port, bad_peer) is None,
    ensures
        after_command(streams, seen, next_id, bad_header, bad_port, bad_peer, bad_now) == (
        streams,
        seen,
        next_id,
        ),
        ({
            let (s1, n1, i1) = after_command(
                streams,
                seen,
                next_id,
                bad_header,
                bad_port,
                bad_peer,
                bad_now,
            );
            after_command(s1, n1, i1, header, port, peer, now) == after_command(
                streams,
                seen,
                next_id,
                header,
                port,
                peer,
                now,
            )
        }),
{
}

/// After an eviction or a stop the address has no active subscription, and a
/// dispatcher that receives the stop signal or a generator shutdown exits and
/// forwards nothing more.
pub proof fn lemma_stop_ends_subscription(
    streams: Map<PeerAddr, u64>,
    a: PeerAddr,
    symbols: Set<Ticker>,
    running: bool,
    ev: DispatchEvent,
    later: Seq<DispatchEvent>,
)
    requires
        ev == DispatchEvent::Stop || ev == DispatchEvent::Shutdown,
    ensures
        !streams.remove(a).contains_key(a),
        streams.remove(a).remove(a) == streams.remove(a),
        dispatch_action(symbols, running, ev) == DispatchAction::Exit,
        !still_running(running, ev),
        forwarded(symbols, still_running(running, ev), later) == Seq::<Quote>::empty(),
{
    lemma_stop_is_final(symbols, running, ev, later);
    assert(streams.remove(a).remove(a) =~= streams.remove(a));
}

/// The registry and the monitor of the quote service.
pub struct QuoteService {
    registry: SubscriberRegistry,
    monitor: PingMonitor,
}

impl QuoteService {
    /// Each subscribed address with its subscription id.
    pub closed spec fn streams_view(&self) -> Map<PeerAddr, u64> {
        self.registry@
    }

    /// Each address seen and not reported since, with when it was last seen.
    pub closed spec fn seen_view(&self) -> Map<PeerAddr, u64> {
        self.monitor@
    }

    /// The id the next subscription gets.
    pub closed spec fn next_id_view(&self) -> u64 {
        self.registry.next_id_view()
    }

    /// The keep-alive timeout, in seconds.
    pub closed spec fn timeout_view(&self) -> u64 {
        self.monitor.timeout_view()
    }

    /// The registry and the monitor are well formed.
    pub closed spec fn well_formed(&self) -> bool {
        self.registry.well_formed() && self.monitor.well_formed()
    }

    /// A service with no subscriber and a keep-alive timeout of
    /// `timeout_secs` seconds.
    pub fn new(timeout_secs: u64) -> (s: QuoteService)
        ensures
            s.well_formed(),
            s.streams_view() == Map::<PeerAddr, u64>::empty(),
            s.seen_view() == Map::<PeerAddr, u64>::empty(),
            s.next_id_view() == 0,
            s.timeout_view() == timeout_secs,
    {
        QuoteService { registry: SubscriberRegistry::new(), monitor: PingMonitor::new(timeout_secs) }
    }

    /// Handles one command received from `peer` at `now`. A subscription is
    /// registered (replacing an older one of the same subscriber, whose
    /// stop sender is signalled and dropped) with `stop` as its stop signal, and its
    /// subscriber is marked seen; a keep-alive marks its subscriber seen. A
    /// command with an unknown header or a bad port is refused and changes
    /// nothing.
    pub fn accept(&mut self, cmd: Command, peer: PeerAddr, now: u64, stop: Sender<()>) -> (r: Result<
        Admission,
        ParserError,
    >)
        requires
            old(self).well_formed(),
        ensures
            final(self).well_formed(),
            final(self).timeout_view() == old(self).timeout_view(),
            (final(self).streams_view(), final(self).seen_view(), final(self).next_id_view())
                == after_command(
                old(self).streams_view(),
                old(self).seen_view(),
                old(self).next_id_view(),
                cmd.header@,
                cmd.port@,
                peer,
                now,
            ),
            cmd.header@ != HEADER@ && cmd.header@ != PING@ ==> r == Err::<Admission, ParserError>(
                ParserError::UnknownHeader(cmd.header),
            ),
            (cmd.header@ == HEADER@ || cmd.header@ == PING@) && port_of(cmd.port@) is None ==> r
                == Err::<Admission, ParserError>(ParserError::InvalidPort(cmd.port)),
            command_target(cmd.header@, cmd.port@, peer) matches Some((true, a)) ==> (r matches Ok(
                Admission::Subscribed { address, id, tickers },
            ) && address == a && id == old(self).next_id_view() && tickers@ == cmd.tickers@),
            command_target(cmd.header@, cmd.port@, peer) matches Some((false, a)) ==> (r matches Ok(
                Admission::KeptAlive { address },
            ) && address == a),
    {
        proof {
            reveal_strlit("J_QUOTE");
            reveal_strlit("PING");
            assert(HEADER@.len() != PING@.len());
        }
        let ghost tickers = cmd.tickers@;
        match decode_request(cmd, peer) {
            Err(e) => Err(e),
            Ok(Request::Subscribe { address, tickers }) => {
                let id = self.registry.register(address, stop);
                self.monitor.update_ping(address, now);
                Ok(Admission::Subscribed { address, id, tickers })
            },
            Ok(Request::KeepAlive { address }) => {
                self.monitor.update_ping(address, now);
                Ok(Admission::KeptAlive { address })
            },
        }
    }

    /// Marks the sender of a datagram received at `now` as seen when the
    /// datagram is a keep-alive; the sender is keyed in canonical form.
    /// Returns whether it was one.
    pub fn keep_alive_datagram(&mut self, data: &[u8], source: PeerAddr, now: u64) -> (r: bool)
        requires
            old(self).well_formed(),
        ensures
            final(self).well_formed(),
            r == is_keep_alive_datagram(data@),
            final(self).seen_view() == if r {
                old(self).seen_view().insert(canonical_addr(source), now)
            } else {
                old(self).seen_view()
            },
            final(self).streams_view() == old(self).streams_view(),
            final(self).next_id_view() == old(self).next_id_view(),
            final(self).timeout_view() == old(self).timeout_view(),
    {
        if is_keep_alive(data) {
            self.monitor.update_ping(source.canonical(), now);
            true
        } else {
            false
        }
    }

    /// The timeout scan at `now`: reports every subscriber silent for longer
    /// than the timeout, once, forgets when it was seen, and stops its
    /// subscription if it has one.
    pub fn evict_timeouts(&mut self, now: u64) -> (evicted: Vec<PeerAddr>)
        requires
            old(self).well_formed(),
        ensures
            final(self).well_formed(),
            evicted@.to_set() == expired_set(old(self).seen_view(), now, old(self).timeout_view()),
            evicted@.no_duplicates(),
            final(self).seen_view() == after_scan(old(self).seen_view(), now, old(self).timeout_view()),
            final(self).streams_view() == old(self).streams_view().remove_keys(
                expired_set(old(self).seen_view(), now, old(self).timeout_view()),
            ),
            final(self).next_id_view() == old(self).next_id_view(),
            final(self).timeout_view() == old(self).timeout_view(),
    {
        let evicted = self.monitor.check_timeouts(now);
        let ghost start = self.registry@;
        let ghost scanned = self.monitor;
        let mut i: usize = 0;
        while i < evicted.len()
            invariant
                i <= evicted@.len(),
                self.monitor == scanned,
                self.registry.well_formed(),
                self.registry.next_id_view() == old(self).registry.next_id_view(),
                self.registry@ == start.remove_keys(evicted@.take(i as int).to_set()),
            decreases evicted@.len() - i,
        {
            self.registry.stop(&evicted[i]);
            proof {
                assert(evicted@.take(i + 1).to_set() =~= evicted@.take(i as int).to_set().insert(
                    evicted@[i as int],
                )) by {
                    assert(evicted@.take(i + 1) =~= evicted@.take(i as int).push(evicted@[i as int]));
                    evicted@.take(i as int).lemma_push_to_set_commute(evicted@[i as int]);
                }
                assert(self.registry@ =~= start.remove_keys(evicted@.take(i + 1).to_set()));
            }
            i = i + 1;
        }
        assert(evicted@.take(evicted@.len() as int) =~= evicted@);
        evicted
    }

    /// Removes the subscription of `address` when its dispatcher, the one
    /// registered under `id`, has exited by itself; a subscription that has
    /// since replaced it stays.
    pub fn dispatcher_exited(&mut self, address: &PeerAddr, id: u64) -> (removed: bool)
        requires
            old(self).well_formed(),
        ensures
            final(self).well_formed(),
            removed == (old(self).streams_view().contains_key(*address)
                && old(self).streams_view()[*address] == id),
            final(self).streams_view() == if removed {
                old(self).streams_view().remove(*address)
            } else {
                old(self).streams_view()
            },
            final(self).seen_view() == old(self).seen_view(),
            final(self).next_id_view() == old(self).next_id_view(),
            final(self).timeout_view() == old(self).timeout_view(),
    {
        self.registry.release(address, id)
    }

    /// Stops the subscription of `address`, if it has one.
    pub fn stop(&mut self, address: &PeerAddr) -> (found: bool)
        requires
            old(self).well_formed(),
        ensures
            final(self).well_formed(),
            found == old(self).streams_view().contains_key(*address),
            final(self).streams_view() == old(self).streams_view().remove(*address),
            final(self).seen_view() == old(self).seen_view(),
            final(self).next_id_view() == old(self).next_id_view(),
            final(self).timeout_view() == old(self).timeout_view(),
    {
        self.registry.stop(address)
    }

    /// Stops every subscription. Returns the addresses that were active.
    pub fn shutdown(&mut self) -> (stopped: Vec<PeerAddr>)
        requires
            old(self).well_formed(),
        ensures
            final(self).well_formed(),
            stopped@.to_set() == old(self).streams_view().dom(),
            final(self).streams_view() == Map::<PeerAddr, u64>::empty(),
            final(self).seen_view() == old(self).seen_view(),
            final(self).next_id_view() == old(self).next_id_view(),
            final(self).timeout_view() == old(self).timeout_view(),
    {
        self.registry.shutdown()
    }

    /// Whether `address` has an active subscription.
    pub fn is_subscribed(&self, address: &PeerAddr) -> (r: bool)
        ensures
            r == self.streams_view().contains_key(*address),
    {
        self.registry.contains(address)
    }

    /// Whether `address` was seen and not reported since.
    pub fn is_client_active(&self, address: &PeerAddr) -> (r: bool)
        ensures
            r == self.seen_view().contains_key(*address),
    {
        self.monitor.is_client_active(address)
    }
}

} // verus!
