//! The registry of active subscriptions: at most one per canonical address,
//! each with the handle that stops its dispatcher.
use crossbeam_channel::Sender;
use vstd::prelude::*;

use crate::channel::offer;
use crate::keyed::{
    find_key, has_key, keyed_view, keys_unique, lemma_keyed_empty, lemma_keyed_push,
    lemma_keyed_remove, lemma_keyed_update, lemma_keyed_view_at,
};
use crate::net::PeerAddr;

verus! {

/// An active subscription: its id and the sender of its stop signal.
struct ActiveStream {
    id: u64,
    stop: Sender<()>,
}

/// The subscription ids of a map of active streams.
spec fn ids_of(m: Map<PeerAddr, ActiveStream>) -> Map<PeerAddr, u64> {
    Map::new(|a: PeerAddr| m.contains_key(a), |a: PeerAddr| m[a].id)
}

/// The id handed out after `id`; it wraps around at the largest `u64`.
pub open spec fn next_subscription_id(id: u64) -> u64 {
    if id == u64::MAX {
        0
    } else {
        (id + 1) as u64
    }
}

proof fn lemma_ids_insert(m: Map<PeerAddr, ActiveStream>, a: PeerAddr, s: ActiveStream)
    ensures
        ids_of(m.insert(a, s)) == ids_of(m).insert(a, s.id),
{
    assert(ids_of(m.insert(a, s)) =~= ids_of(m).insert(a, s.id));
}

proof fn lemma_ids_remove(m: Map<PeerAddr, ActiveStream>, a: PeerAddr)
    ensures
        ids_of(m.remove(a)) == ids_of(m).remove(a),
{
    assert(ids_of(m.remove(a)) =~= ids_of(m).remove(a));
}

/// The active subscriptions, keyed by canonical address.
pub struct SubscriberRegistry {
    streams: Vec<(PeerAddr, ActiveStream)>,
    next_id: u64,
}

impl View for SubscriberRegistry {
    type V = Map<PeerAddr, u64>;

    /// Each active address with the id of its subscription.
    closed spec fn view(&self) -> Map<PeerAddr, u64> {
        ids_of(keyed_view(self.streams@))
    }
}

impl SubscriberRegistry {
    /// The id the next subscription gets.
    pub closed spec fn next_id_view(&self) -> u64 {
        self.next_id
    }

    /// One entry per address.
    pub closed spec fn well_formed(&self) -> bool {
        keys_unique(self.streams@)
    }

    /// An empty registry; the first subscription gets id 0.
    pub fn new() -> (r: SubscriberRegistry)
        ensures
            r.well_formed(),
            r@ == Map::<PeerAddr, u64>::empty(),
            r.next_id_view() == 0,
    {
        let r = SubscriberRegistry { streams: Vec::new(), next_id: 0 };
        proof {
            lemma_keyed_empty(r.streams@);
            assert(ids_of(keyed_view(r.streams@)) =~= Map::<PeerAddr, u64>::empty());
        }
        r
    }

    /// Registers a subscription for `address` whose dispatcher stops when
    /// `stop` fires or is dropped, and returns its id. A subscription already
    /// active for the address is replaced: its stop sender is offered a
    /// signal and then dropped, and the dispatcher sees either as a stop.
    /// The sender is opaque here, so the contract speaks of the ids alone.
    pub fn register(&mut self, address: PeerAddr, stop: Sender<()>) -> (id: u64)
        requires
            old(self).well_formed(),
        ensures
            final(self).well_formed(),
            id == old(self).next_id_view(),
            final(self)@ == old(self)@.insert(address, id),
            final(self).next_id_view() == next_subscription_id(old(self).next_id_view()),
    {
        let id = self.next_id;
        self.next_id = if self.next_id == u64::MAX {
            0
        } else {
            self.next_id + 1
        };
        let entry = ActiveStream { id, stop };
        match find_key(&self.streams, &address) {
            Some(i) => {
                proof {
                    lemma_keyed_update(self.streams@, i as int, entry);
                    lemma_ids_insert(keyed_view(self.streams@), address, entry);
                }
                let _ = offer(&self.streams[i].1.stop, ());
                self.streams.set(i, (address, entry));
            },
            None => {
                proof {
                    lemma_keyed_push(self.streams@, address, entry);
                    lemma_ids_insert(keyed_view(self.streams@), address, entry);
                }
                self.streams.push((address, entry));
            },
        }
        id
    }

    /// Removes the entry of `address`; its stop sender is offered a signal
    /// and then dropped, and the dispatcher sees either as a stop. An
    /// address with no entry is left alone: stopping twice is harmless.
    pub fn stop(&mut self, address: &PeerAddr) -> (found: bool)
        requires
            old(self).well_formed(),
        ensures
            final(self).well_formed(),
            found == old(self)@.contains_key(*address),
            final(self)@ == old(self)@.remove(*address),
            final(self).next_id_view() == old(self).next_id_view(),
    {
        match find_key(&self.streams, address) {
            Some(i) => {
                proof {
                    lemma_keyed_view_at(self.streams@, i as int);
                    lemma_keyed_remove(self.streams@, i as int);
                    lemma_ids_remove(keyed_view(self.streams@), *address);
                }
                let (_, entry) = self.streams.remove(i);
                let _ = offer(&entry.stop, ());
                true
            },
            None => {
                proof {
                    assert(ids_of(keyed_view(self.streams@)).remove(*address) =~= ids_of(
                        keyed_view(self.streams@),
                    ));
                }
                false
            },
        }
    }

    /// Removes the entry of `address` when its dispatcher, the one with
    /// subscription `id`, has exited by itself. An entry that has since been
    /// replaced by a newer subscription stays.
    pub fn release(&mut self, address: &PeerAddr, id: u64) -> (removed: bool)
        requires
            old(self).well_formed(),
        ensures
            final(self).well_formed(),
            removed == (old(self)@.contains_key(*address) && old(self)@[*address] == id),
            final(self)@ == if removed {
                old(self)@.remove(*address)
            } else {
                old(self)@
            },
            final(self).next_id_view() == old(self).next_id_view(),
    {
        match find_key(&self.streams, address) {
            Some(i) => {
                proof {
                    lemma_keyed_view_at(self.streams@, i as int);
                }
                if self.streams[i].1.id == id {
                    proof {
                        lemma_keyed_remove(self.streams@, i as int);
                        lemma_ids_remove(keyed_view(self.streams@), *address);
                    }
                    self.streams.remove(i);
                    true
                } else {
                    false
                }
            },
            None => false,
        }
    }

    /// Empties the registry; each stop sender is offered a signal and then
    /// dropped, and each dispatcher sees either as a stop. Returns the
    /// addresses that were active.
    pub fn shutdown(&mut self) -> (stopped: Vec<PeerAddr>)
        requires
            old(self).well_formed(),
        ensures
            final(self).well_formed(),
            final(self)@ == Map::<PeerAddr, u64>::empty(),
            stopped@.to_set() == old(self)@.dom(),
            final(self).next_id_view() == old(self).next_id_view(),
    {
        let ghost orig = self.streams@;
        let mut stopped: Vec<PeerAddr> = Vec::new();
        let mut i: usize = 0;
        while i < self.streams.len()
            invariant
                self.streams@ == orig,
                i <= orig.len(),
                stopped@.len() == i,
                forall|x: int| 0 <= x < i ==> stopped@[x] == #[trigger] orig[x].0,
            decreases orig.len() - i,
        {
            let _ = offer(&self.streams[i].1.stop, ());
            stopped.push(self.streams[i].0);
            i = i + 1;
        }
        proof {
            assert forall|a: PeerAddr| #[trigger] stopped@.to_set().contains(a) <==> has_key(orig, a) by {
                if has_key(orig, a) {
                    let k = choose|k: int| 0 <= k < orig.len() && #[trigger] orig[k].0 == a;
                    assert(stopped@[k] == a);
                }
                if stopped@.to_set().contains(a) {
                    assert(stopped@.contains(a));
                    let x = choose|x: int| 0 <= x < stopped@.len() && stopped@[x] == a;
                    assert(orig[x].0 == a);
                }
            }
            assert(stopped@.to_set() =~= ids_of(keyed_view(orig)).dom());
        }
        self.streams.clear();
        proof {
            lemma_keyed_empty(self.streams@);
            assert(ids_of(keyed_view(self.streams@)) =~= Map::<PeerAddr, u64>::empty());
        }
        stopped
    }

    /// Whether `address` has an active subscription.
    pub fn contains(&self, address: &PeerAddr) -> (r: bool)
        ensures
            r == self@.contains_key(*address),
    {
        match find_key(&self.streams, address) {
            Some(i) => {
                proof {
                    assert(has_key(self.streams@, *address));
                }
                true
            },
            None => false,
        }
    }

    /// The id of the active subscription of `address`, if any.
    pub fn subscription_id(&self, address: &PeerAddr) -> (r: Option<u64>)
        requires
            self.well_formed(),
        ensures
            r == if self@.contains_key(*address) {
                Some(self@[*address])
            } else {
                None::<u64>
            },
    {
        match find_key(&self.streams, address) {
            Some(i) => {
                proof {
                    lemma_keyed_view_at(self.streams@, i as int);
                }
                Some(self.streams[i].1.id)
            },
            None => None,
        }
    }

    /// How many subscriptions are active.
    pub fn len(&self) -> (n: usize)
        requires
            self.well_formed(),
        ensures
            n == self@.len(),
    {
        proof {
            lemma_keyed_len(self.streams@);
        }
        self.streams.len()
    }
}

/// With one entry per address, there are as many addresses as entries.
proof fn lemma_keyed_len(s: Seq<(PeerAddr, ActiveStream)>)
    requires
        keys_unique(s),
    ensures
        ids_of(keyed_view(s)).dom().finite(),
        ids_of(keyed_view(s)).len() == s.len(),
    decreases s.len(),
{
    if s.len() == 0 {
        lemma_keyed_empty(s);
        assert(ids_of(keyed_view(s)) =~= Map::<PeerAddr, u64>::empty());
    } else {
        let last = s.len() - 1;
        lemma_keyed_view_at(s, last);
        lemma_keyed_remove(s, last);
        let t = s.remove(last);
        lemma_keyed_len(t);
        lemma_ids_remove(keyed_view(s), s[last].0);
        let m = ids_of(keyed_view(s));
        let mt = ids_of(keyed_view(t));
        assert(mt == m.remove(s[last].0));
        assert(m.dom() =~= mt.dom().insert(s[last].0));
        assert(m.remove(s[last].0).len() == m.len() - 1);
    }
}

} // verus!
