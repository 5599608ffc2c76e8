//! The liveness monitor: the last time each subscriber was seen, and the scan
//! that reports and forgets those silent for longer than the timeout.
//!
//! Times are milliseconds on a monotonic clock whose origin the caller picks;
//! the timeout is in whole seconds.
use vstd::prelude::*;

use crate::keyed::{
    find_key, has_key, keyed_view, keys_unique, lemma_keyed_empty, lemma_keyed_push,
    lemma_keyed_update, lemma_keyed_view_at,
};
use crate::net::PeerAddr;

verus! {

/// Last seen at `last_seen`, the subscriber has been silent at `now` for
/// longer than `timeout_secs` seconds.
pub open spec fn silent_too_long(last_seen: u64, now: u64, timeout_secs: u64) -> bool {
    now > last_seen && (now - last_seen) > timeout_secs * 1000
}

/// The addresses of `seen` that are silent too long at `now`.
pub open spec fn expired_set(seen: Map<PeerAddr, u64>, now: u64, timeout_secs: u64) -> Set<
    PeerAddr,
> {
    Set::new(|a: PeerAddr| seen.contains_key(a) && silent_too_long(seen[a], now, timeout_secs))
}

/// What is left of `seen` after the scan at `now`.
pub open spec fn after_scan(seen: Map<PeerAddr, u64>, now: u64, timeout_secs: u64) -> Map<
    PeerAddr,
    u64,
> {
    Map::new(
        |a: PeerAddr| seen.contains_key(a) && !silent_too_long(seen[a], now, timeout_secs),
        |a: PeerAddr| seen[a],
    )
}

/// An operation on the monitor.
pub enum MonitorOp {
    /// A keep-alive from the address at the time.
    KeepAlive(PeerAddr, u64),
    /// A timeout scan at the time.
    Scan(u64),
}

/// The records after an operation.
pub open spec fn apply_op(seen: Map<PeerAddr, u64>, op: MonitorOp, timeout_secs: u64) -> Map<
    PeerAddr,
    u64,
> {
    match op {
        MonitorOp::KeepAlive(a, t) => seen.insert(a, t),
        MonitorOp::Scan(now) => after_scan(seen, now, timeout_secs),
    }
}

/// The addresses an operation reports as timed out.
pub open spec fn op_report(seen: Map<PeerAddr, u64>, op: MonitorOp, timeout_secs: u64) -> Set<
    PeerAddr,
> {
    match op {
        MonitorOp::KeepAlive(_, _) => Set::empty(),
        MonitorOp::Scan(now) => expired_set(seen, now, timeout_secs),
    }
}

/// The records after a run of operations.
pub open spec fn apply_ops(seen: Map<PeerAddr, u64>, ops: Seq<MonitorOp>, timeout_secs: u64) -> Map<
    PeerAddr,
    u64,
>
    decreases ops.len(),
{
    if ops.len() == 0 {
        seen
    } else {
        apply_ops(apply_op(seen, ops[0], timeout_secs), ops.skip(1), timeout_secs)
    }
}

/// Whether the operation at position `i` of a run reports `a`.
pub open spec fn reported_at(
    seen: Map<PeerAddr, u64>,
    ops: Seq<MonitorOp>,
    timeout_secs: u64,
    i: int,
    a: PeerAddr,
) -> bool {
    op_report(apply_ops(seen, ops.take(i), timeout_secs), ops[i], timeout_secs).contains(a)
}

/// No keep-alive from `a` occurs in `ops`.
pub open spec fn no_keep_alive_from(ops: Seq<MonitorOp>, a: PeerAddr) -> bool {
    forall|i: int| 0 <= i < ops.len() ==> !(#[trigger] ops[i] matches MonitorOp::KeepAlive(b, _) && b == a)
}

/// Along `ops`, `a` is never silent too long, counting from `last` and from
/// each keep-alive of `a` in turn.
pub open spec fn kept_fresh(ops: Seq<MonitorOp>, a: PeerAddr, last: u64, timeout_secs: u64) -> bool
    decreases ops.len(),
{
    if ops.len() == 0 {
        true
    } else {
        match ops[0] {
            MonitorOp::KeepAlive(b, t) => kept_fresh(
                ops.skip(1),
                a,
                if b == a {
                    t
                } else {
                    last
                },
                timeout_secs,
            ),
            MonitorOp::Scan(now) => !silent_too_long(last, now, timeout_secs) && kept_fresh(
                ops.skip(1),
                a,
                last,
                timeout_secs,
            ),
        }
    }
}

/// A prefix of the tail is the tail of a prefix.
proof fn lemma_take_skip<A>(ops: Seq<A>, i: int)
    requires
        0 < i <= ops.len(),
    ensures
        ops.skip(1).take(i - 1) == ops.take(i).skip(1),
        ops.take(i).len() > 0 && ops.take(i)[0] == ops[0],
{
    assert(ops.skip(1).take(i - 1) =~= ops.take(i).skip(1));
}

/// Keep-alives that come before the timeout elapses keep an address from ever
/// being reported: if every scan finds it seen within the timeout, no
/// operation of the run reports it.
pub proof fn lemma_keep_alive_prevents_report(
    seen: Map<PeerAddr, u64>,
    ops: Seq<MonitorOp>,
    timeout_secs: u64,
    a: PeerAddr,
    last: u64,
)
    requires
        seen.contains_key(a),
        seen[a] == last,
        kept_fresh(ops, a, last, timeout_secs),
    ensures
        forall|i: int| 0 <= i < ops.len() ==> !#[trigger] reported_at(seen, ops, timeout_secs, i, a),
    decreases ops.len(),
{
    if ops.len() > 0 {
        let next = apply_op(seen, ops[0], timeout_secs);
        let next_last = match ops[0] {
            MonitorOp::KeepAlive(b, t) => if b == a {
                t
            } else {
                last
            },
            MonitorOp::Scan(_) => last,
        };
        lemma_keep_alive_prevents_report(next, ops.skip(1), timeout_secs, a, next_last);
        assert forall|i: int| 0 <= i < ops.len() implies !#[trigger] reported_at(
            seen,
            ops,
            timeout_secs,
            i,
            a,
        ) by {
            if i == 0 {
                assert(ops.take(0) =~= Seq::<MonitorOp>::empty());
            } else {
                lemma_take_skip(ops, i);
                assert(ops.skip(1)[i - 1] == ops[i]);
                assert(!reported_at(next, ops.skip(1), timeout_secs, i - 1, a));
            }
        }
    }
}

/// Once an address has no record, runs without a keep-alive from it never
/// report it.
pub proof fn lemma_forgotten_stays_unreported(
    seen: Map<PeerAddr, u64>,
    ops: Seq<MonitorOp>,
    timeout_secs: u64,
    a: PeerAddr,
)
    requires
        !seen.contains_key(a),
        no_keep_alive_from(ops, a),
    ensures
        forall|i: int| 0 <= i < ops.len() ==> !#[trigger] reported_at(seen, ops, timeout_secs, i, a),
        !apply_ops(seen, ops, timeout_secs).contains_key(a),
    decreases ops.len(),
{
    if ops.len() > 0 {
        let next = apply_op(seen, ops[0], timeout_secs);
        assert(!(ops[0] matches MonitorOp::KeepAlive(b, _) && b == a));
        assert forall|i: int| 0 <= i < ops.skip(1).len() implies !(#[trigger] ops.skip(1)[i] matches MonitorOp::KeepAlive(b, _) && b == a) by {
            assert(ops.skip(1)[i] == ops[i + 1]);
        }
        lemma_forgotten_stays_unreported(next, ops.skip(1), timeout_secs, a);
        assert forall|i: int| 0 <= i < ops.len() implies !#[trigger] reported_at(
            seen,
            ops,
            timeout_secs,
            i,
            a,
        ) by {
            if i == 0 {
                assert(ops.take(0) =~= Seq::<MonitorOp>::empty());
            } else {
                lemma_take_skip(ops, i);
                assert(ops.skip(1)[i - 1] == ops[i]);
                assert(!reported_at(next, ops.skip(1), timeout_secs, i - 1, a));
            }
        }
    }
}

/// A timeout is reported exactly once per silence: an address that the scan
/// at `now` reports is forgotten by it, so no later scan reports it again
/// until a keep-alive from it comes.
pub proof fn lemma_timeout_reported_once(
    seen: Map<PeerAddr, u64>,
    now: u64,
    ops: Seq<MonitorOp>,
    timeout_secs: u64,
    a: PeerAddr,
)
    requires
        expired_set(seen, now, timeout_secs).contains(a),
        no_keep_alive_from(ops, a),
    ensures
        !after_scan(seen, now, timeout_secs).contains_key(a),
        forall|i: int|
            0 <= i < ops.len() ==> !#[trigger] reported_at(
                after_scan(seen, now, timeout_secs),
                ops,
                timeout_secs,
                i,
                a,
            ),
{
    lemma_forgotten_stays_unreported(after_scan(seen, now, timeout_secs), ops, timeout_secs, a);
}

/// Running a prefix and then the rest of it is running the whole prefix.
proof fn lemma_apply_ops_split(
    seen: Map<PeerAddr, u64>,
    ops: Seq<MonitorOp>,
    timeout_secs: u64,
    i: int,
    j: int,
)
    requires
        0 <= i <= j <= ops.len(),
    ensures
        apply_ops(seen, ops.take(j), timeout_secs) == apply_ops(
            apply_ops(seen, ops.take(i), timeout_secs),
            ops.skip(i).take(j - i),
            timeout_secs,
        ),
    decreases i,
{
    if i == 0 {
        assert(ops.take(0) =~= Seq::<MonitorOp>::empty());
        assert(ops.skip(0).take(j) =~= ops.take(j));
    } else {
        let s1 = apply_op(seen, ops[0], timeout_secs);
        lemma_apply_ops_split(s1, ops.skip(1), timeout_secs, i - 1, j - 1);
        lemma_take_skip(ops, j);
        lemma_take_skip(ops, i);
        assert(ops.skip(1).skip(i - 1) =~= ops.skip(i));
    }
}

/// A run without a keep-alive from `a` reports `a` at most once.
pub proof fn lemma_reported_at_most_once(
    seen: Map<PeerAddr, u64>,
    ops: Seq<MonitorOp>,
    timeout_secs: u64,
    a: PeerAddr,
)
    requires
        no_keep_alive_from(ops, a),
    ensures
        forall|i: int, j: int|
            0 <= i < j < ops.len() && #[trigger] reported_at(seen, ops, timeout_secs, i, a)
                ==> !#[trigger] reported_at(seen, ops, timeout_secs, j, a),
{
    assert forall|i: int, j: int|
        0 <= i < j < ops.len() && #[trigger] reported_at(seen, ops, timeout_secs, i, a) implies !#[trigger] reported_at(
        seen,
        ops,
        timeout_secs,
        j,
        a,
    ) by {
        let mi = apply_ops(seen, ops.take(i), timeout_secs);
        let mi1 = apply_ops(seen, ops.take(i + 1), timeout_secs);
        lemma_apply_ops_split(seen, ops, timeout_secs, i, i + 1);
        let one = ops.skip(i).take(1);
        assert(one.skip(1) =~= Seq::<MonitorOp>::empty());
        assert(one[0] == ops[i]);
        let after = apply_op(mi, ops[i], timeout_secs);
        assert(apply_ops(mi, one, timeout_secs) == apply_ops(after, one.skip(1), timeout_secs));
        assert(apply_ops(after, one.skip(1), timeout_secs) == after);
        assert(mi1 == after);
        assert(!mi1.contains_key(a));
        let rest = ops.skip(i + 1);
        assert forall|k: int| 0 <= k < rest.len() implies !(#[trigger] rest[k] matches MonitorOp::KeepAlive(b, _) && b == a) by {
            assert(rest[k] == ops[i + 1 + k]);
        }
        lemma_forgotten_stays_unreported(mi1, rest, timeout_secs, a);
        lemma_apply_ops_split(seen, ops, timeout_secs, i + 1, j);
        assert(rest[j - i - 1] == ops[j]);
        assert(!reported_at(mi1, rest, timeout_secs, j - i - 1, a));
    }
}

/// Tracks the last time each subscriber was seen.
pub struct PingMonitor {
    records: Vec<(PeerAddr, u64)>,
    timeout_secs: u64,
}

impl View for PingMonitor {
    type V = Map<PeerAddr, u64>;

    closed spec fn view(&self) -> Map<PeerAddr, u64> {
        keyed_view(self.records@)
    }
}

impl PingMonitor {
    /// The timeout, in seconds.
    pub closed spec fn timeout_view(&self) -> u64 {
        self.timeout_secs
    }

    /// One record per address.
    pub closed spec fn well_formed(&self) -> bool {
        keys_unique(self.records@)
    }

    /// A monitor with no record and a timeout of `timeout_secs` seconds.
    pub fn new(timeout_secs: u64) -> (m: PingMonitor)
        ensures
            m.well_formed(),
            m@ == Map::<PeerAddr, u64>::empty(),
            m.timeout_view() == timeout_secs,
    {
        let m = PingMonitor { records: Vec::new(), timeout_secs };
        proof {
            lemma_keyed_empty(m.records@);
        }
        m
    }

    /// Records that `addr` was seen at `now`, creating its record if it had
    /// none. Repeating it changes nothing but the time.
    pub fn update_ping(&mut self, addr: PeerAddr, now: u64)
        requires
            old(self).well_formed(),
        ensures
            final(self).well_formed(),
            final(self)@ == old(self)@.insert(addr, now),
            final(self).timeout_view() == old(self).timeout_view(),
    {
        match find_key(&self.records, &addr) {
            Some(i) => {
                proof {
                    lemma_keyed_update(self.records@, i as int, now);
                }
                self.records.set(i, (addr, now));
            },
            None => {
                proof {
                    lemma_keyed_push(self.records@, addr, now);
                }
                self.records.push((addr, now));
            },
        }
    }

    /// Reports every address silent at `now` for longer than the timeout,
    /// each once, and forgets their records.
    pub fn check_timeouts(&mut self, now: u64) -> (timed_out: Vec<PeerAddr>)
        requires
            old(self).well_formed(),
        ensures
            final(self).well_formed(),
            final(self).timeout_view() == old(self).timeout_view(),
            final(self)@ == after_scan(old(self)@, now, old(self).timeout_view()),
            timed_out@.to_set() == expired_set(old(self)@, now, old(self).timeout_view()),
            timed_out@.no_duplicates(),
    {
        let ghost orig = self.records@;
        let timeout = self.timeout_secs;
        let mut kept: Vec<(PeerAddr, u64)> = Vec::new();
        let mut timed_out: Vec<PeerAddr> = Vec::new();
        let ghost mut kept_src: Seq<int> = Seq::empty();
        let ghost mut out_src: Seq<int> = Seq::empty();
        let mut j: usize = 0;
        while j < self.records.len()
            invariant
                self.records@ == orig,
                self.timeout_secs == timeout,
                keys_unique(orig),
                j <= orig.len(),
                kept_src.len() == kept@.len(),
                out_src.len() == timed_out@.len(),
                forall|x: int|
                    0 <= x < kept@.len() ==> {
                        &&& 0 <= #[trigger] kept_src[x] < j
                        &&& orig[kept_src[x]] == kept@[x]
                        &&& !silent_too_long(kept@[x].1, now, timeout)
                    },
                forall|x: int, y: int|
                    0 <= x < y < kept@.len() ==> #[trigger] kept_src[x] < #[trigger] kept_src[y],
                forall|k: int|
                    0 <= k < j && !silent_too_long(#[trigger] orig[k].1, now, timeout)
                        ==> kept@.contains(orig[k]),
                forall|x: int|
                    0 <= x < timed_out@.len() ==> {
                        &&& 0 <= #[trigger] out_src[x] < j
                        &&& orig[out_src[x]].0 == timed_out@[x]
                        &&& silent_too_long(orig[out_src[x]].1, now, timeout)
                    },
                forall|x: int, y: int|
                    0 <= x < y < timed_out@.len() ==> #[trigger] out_src[x] < #[trigger] out_src[y],
                forall|k: int|
                    0 <= k < j && silent_too_long(#[trigger] orig[k].1, now, timeout)
                        ==> timed_out@.contains(orig[k].0),
            decreases orig.len() - j,
        {
            let entry = self.records[j];
            let silent = now > entry.1 && ((now - entry.1) as u128) > (timeout as u128) * 1000;
            if silent {
                let ghost before = timed_out@;
                timed_out.push(entry.0);
                proof {
                    out_src = out_src.push(j as int);
                    assert forall|k: int|
                        0 <= k < j + 1 && silent_too_long(#[trigger] orig[k].1, now, timeout)
                            implies timed_out@.contains(orig[k].0) by {
                        if k == j {
                            assert(timed_out@[timed_out@.len() - 1] == orig[k].0);
                        } else {
                            assert(before.contains(orig[k].0));
                            let x = choose|x: int| 0 <= x < before.len() && before[x] == orig[k].0;
                            assert(timed_out@[x] == orig[k].0);
                        }
                    }
                }
            } else {
                let ghost before = kept@;
                kept.push(entry);
                proof {
                    kept_src = kept_src.push(j as int);
                    assert forall|k: int|
                        0 <= k < j + 1 && !silent_too_long(#[trigger] orig[k].1, now, timeout)
                            implies kept@.contains(orig[k]) by {
                        if k == j {
                            assert(kept@[kept@.len() - 1] == orig[k]);
                        } else {
                            assert(before.contains(orig[k]));
                            let x = choose|x: int| 0 <= x < before.len() && before[x] == orig[k];
                            assert(kept@[x] == orig[k]);
                        }
                    }
                }
            }
            j = j + 1;
        }
        proof {
            assert(keys_unique(kept@)) by {
                assert forall|x: int, y: int|
                    0 <= x < kept@.len() && 0 <= y < kept@.len() && x != y implies #[trigger] kept@[x].0
                    != #[trigger] kept@[y].0 by {
                    if x < y {
                        assert(kept_src[x] < kept_src[y]);
                    } else {
                        assert(kept_src[y] < kept_src[x]);
                    }
                    assert(orig[kept_src[x]] == kept@[x]);
                    assert(orig[kept_src[y]] == kept@[y]);
                }
            }
            assert(timed_out@.no_duplicates()) by {
                assert forall|x: int, y: int|
                    0 <= x < timed_out@.len() && 0 <= y < timed_out@.len() && x != y implies timed_out@[x]
                    != timed_out@[y] by {
                    if x < y {
                        assert(out_src[x] < out_src[y]);
                    } else {
                        assert(out_src[y] < out_src[x]);
                    }
                    assert(orig[out_src[x]].0 == timed_out@[x]);
                    assert(orig[out_src[y]].0 == timed_out@[y]);
                }
            }
            let old_view = keyed_view(orig);
            let new_view = keyed_view(kept@);
            let target = after_scan(old_view, now, timeout);
            assert forall|a: PeerAddr| #[trigger] new_view.contains_key(a) <==> target.contains_key(a) by {
                if new_view.contains_key(a) {
                    let x = choose|x: int| 0 <= x < kept@.len() && #[trigger] kept@[x].0 == a;
                    assert(orig[kept_src[x]] == kept@[x]);
                    lemma_keyed_view_at(orig, kept_src[x]);
                }
                if target.contains_key(a) {
                    let k = choose|k: int| 0 <= k < orig.len() && #[trigger] orig[k].0 == a;
                    lemma_keyed_view_at(orig, k);
                    assert(kept@.contains(orig[k]));
                    let x = choose|x: int| 0 <= x < kept@.len() && kept@[x] == orig[k];
                    assert(kept@[x].0 == a);
                }
            }
            assert forall|a: PeerAddr| #[trigger] new_view.contains_key(a) implies new_view[a] == target[a] by {
                let x = choose|x: int| 0 <= x < kept@.len() && #[trigger] kept@[x].0 == a;
                assert(orig[kept_src[x]] == kept@[x]);
                lemma_keyed_view_at(orig, kept_src[x]);
                lemma_keyed_view_at(kept@, x);
            }
            assert(new_view =~= target);
            let expired = expired_set(old_view, now, timeout);
            assert forall|a: PeerAddr| #[trigger] timed_out@.to_set().contains(a) <==> expired.contains(a) by {
                if timed_out@.to_set().contains(a) {
                    assert(timed_out@.contains(a));
                    let x = choose|x: int| 0 <= x < timed_out@.len() && timed_out@[x] == a;
                    assert(orig[out_src[x]].0 == timed_out@[x]);
                    lemma_keyed_view_at(orig, out_src[x]);
                }
                if expired.contains(a) {
                    let k = choose|k: int| 0 <= k < orig.len() && #[trigger] orig[k].0 == a;
                    lemma_keyed_view_at(orig, k);
                    assert(timed_out@.contains(orig[k].0));
                }
            }
            assert(timed_out@.to_set() =~= expired);
        }
        self.records = kept;
        timed_out
    }

    /// Whether `addr` has a record, that is, was seen and not reported since.
    pub fn is_client_active(&self, addr: &PeerAddr) -> (r: bool)
        ensures
            r == self@.contains_key(*addr),
    {
        match find_key(&self.records, addr) {
            Some(i) => {
                proof {
                    assert(has_key(self.records@, *addr));
                }
                true
            },
            None => false,
        }
    }
}

} // verus!
