//! Vectors of address-keyed entries, viewed as maps from address to value.
//! No two entries share an address.
use vstd::prelude::*;

use crate::net::PeerAddr;

verus! {

/// No two entries share an address.
pub open spec fn keys_unique<V>(s: Seq<(PeerAddr, V)>) -> bool {
    forall|i: int, j: int|
        0 <= i < s.len() && 0 <= j < s.len() && i != j ==> #[trigger] s[i].0 != #[trigger] s[j].0
}

/// Some entry has address `a`.
pub open spec fn has_key<V>(s: Seq<(PeerAddr, V)>, a: PeerAddr) -> bool {
    exists|i: int| 0 <= i < s.len() && #[trigger] s[i].0 == a
}

/// The entries as a map from address to value.
pub open spec fn keyed_view<V>(s: Seq<(PeerAddr, V)>) -> Map<PeerAddr, V> {
    Map::new(
        |a: PeerAddr| has_key(s, a),
        |a: PeerAddr| s[choose|i: int| 0 <= i < s.len() && #[trigger] s[i].0 == a].1,
    )
}

/// An entry is what the map holds at its address.
pub proof fn lemma_keyed_view_at<V>(s: Seq<(PeerAddr, V)>, i: int)
    requires
        keys_unique(s),
        0 <= i < s.len(),
    ensures
        keyed_view(s).contains_key(s[i].0),
        keyed_view(s)[s[i].0] == s[i].1,
{
    let a = s[i].0;
    assert(has_key(s, a));
    let j = choose|j: int| 0 <= j < s.len() && #[trigger] s[j].0 == a;
    assert(i == j);
}

/// Replacing the value of entry `i` replaces the value at its address.
pub proof fn lemma_keyed_update<V>(s: Seq<(PeerAddr, V)>, i: int, v: V)
    requires
        keys_unique(s),
        0 <= i < s.len(),
    ensures
        keys_unique(s.update(i, (s[i].0, v))),
        keyed_view(s.update(i, (s[i].0, v))) == keyed_view(s).insert(s[i].0, v),
{
    let t = s.update(i, (s[i].0, v));
    assert(keys_unique(t)) by {
        assert forall|x: int, y: int|
            0 <= x < t.len() && 0 <= y < t.len() && x != y implies #[trigger] t[x].0
            != #[trigger] t[y].0 by {
            assert(t[x].0 == s[x].0);
            assert(t[y].0 == s[y].0);
        }
    }
    assert forall|a: PeerAddr| #[trigger] has_key(t, a) <==> has_key(s, a) by {
        if has_key(s, a) {
            let k = choose|k: int| 0 <= k < s.len() && #[trigger] s[k].0 == a;
            assert(t[k].0 == a);
        }
        if has_key(t, a) {
            let k = choose|k: int| 0 <= k < t.len() && #[trigger] t[k].0 == a;
            assert(s[k].0 == a);
        }
    }
    assert forall|a: PeerAddr| #[trigger] keyed_view(t).contains_key(a) implies keyed_view(t)[a]
        == keyed_view(s).insert(s[i].0, v)[a] by {
        let k = choose|k: int| 0 <= k < t.len() && #[trigger] t[k].0 == a;
        lemma_keyed_view_at(t, k);
        if k != i {
            assert(s[k] == t[k]);
            lemma_keyed_view_at(s, k);
        }
    }
    assert(keyed_view(t) =~= keyed_view(s).insert(s[i].0, v));
}

/// Appending an entry with a new address adds it to the map.
pub proof fn lemma_keyed_push<V>(s: Seq<(PeerAddr, V)>, a: PeerAddr, v: V)
    requires
        keys_unique(s),
        !has_key(s, a),
    ensures
        keys_unique(s.push((a, v))),
        keyed_view(s.push((a, v))) == keyed_view(s).insert(a, v),
{
    let t = s.push((a, v));
    assert(keys_unique(t)) by {
        assert forall|x: int, y: int|
            0 <= x < t.len() && 0 <= y < t.len() && x != y implies #[trigger] t[x].0
            != #[trigger] t[y].0 by {
            if x < s.len() && y < s.len() {
                assert(t[x] == s[x] && t[y] == s[y]);
            } else if x < s.len() {
                assert(t[x] == s[x]);
            } else {
                assert(t[y] == s[y]);
            }
        }
    }
    assert forall|b: PeerAddr| #[trigger] has_key(t, b) <==> has_key(s, b) || b == a by {
        if has_key(s, b) {
            let k = choose|k: int| 0 <= k < s.len() && #[trigger] s[k].0 == b;
            assert(t[k].0 == b);
        }
        if b == a {
            assert(t[s.len() as int].0 == a);
        }
        if has_key(t, b) {
            let k = choose|k: int| 0 <= k < t.len() && #[trigger] t[k].0 == b;
            if k < s.len() {
                assert(s[k].0 == b);
            }
        }
    }
    assert forall|b: PeerAddr| #[trigger] keyed_view(t).contains_key(b) implies keyed_view(t)[b]
        == keyed_view(s).insert(a, v)[b] by {
        let k = choose|k: int| 0 <= k < t.len() && #[trigger] t[k].0 == b;
        lemma_keyed_view_at(t, k);
        if k < s.len() {
            assert(s[k] == t[k]);
            lemma_keyed_view_at(s, k);
        }
    }
    assert(keyed_view(t) =~= keyed_view(s).insert(a, v));
}

/// Removing entry `i` removes its address from the map.
pub proof fn lemma_keyed_remove<V>(s: Seq<(PeerAddr, V)>, i: int)
    requires
        keys_unique(s),
        0 <= i < s.len(),
    ensures
        keys_unique(s.remove(i)),
        keyed_view(s.remove(i)) == keyed_view(s).remove(s[i].0),
{
    let t = s.remove(i);
    let a = s[i].0;
    assert forall|x: int| 0 <= x < t.len() implies #[trigger] t[x] == s[if x < i {
        x
    } else {
        x + 1
    }] by {}
    assert(keys_unique(t)) by {
        assert forall|x: int, y: int|
            0 <= x < t.len() && 0 <= y < t.len() && x != y implies #[trigger] t[x].0
            != #[trigger] t[y].0 by {
            let xs = if x < i {
                x
            } else {
                x + 1
            };
            let ys = if y < i {
                y
            } else {
                y + 1
            };
            assert(t[x] == s[xs]);
            assert(t[y] == s[ys]);
        }
    }
    assert forall|b: PeerAddr| #[trigger] has_key(t, b) <==> has_key(s, b) && b != a by {
        if has_key(s, b) && b != a {
            let k = choose|k: int| 0 <= k < s.len() && #[trigger] s[k].0 == b;
            assert(k != i);
            let kt = if k < i {
                k
            } else {
                k - 1
            };
            assert(t[kt] == s[k]);
        }
        if has_key(t, b) {
            let k = choose|k: int| 0 <= k < t.len() && #[trigger] t[k].0 == b;
            let ks = if k < i {
                k
            } else {
                k + 1
            };
            assert(t[k] == s[ks]);
            assert(ks != i);
        }
    }
    assert forall|b: PeerAddr| #[trigger] keyed_view(t).contains_key(b) implies keyed_view(t)[b]
        == keyed_view(s).remove(a)[b] by {
        let k = choose|k: int| 0 <= k < t.len() && #[trigger] t[k].0 == b;
        lemma_keyed_view_at(t, k);
        let ks = if k < i {
            k
        } else {
            k + 1
        };
        assert(t[k] == s[ks]);
        lemma_keyed_view_at(s, ks);
    }
    assert(keyed_view(t) =~= keyed_view(s).remove(a));
}

/// The empty vector is the empty map.
pub proof fn lemma_keyed_empty<V>(s: Seq<(PeerAddr, V)>)
    requires
        s.len() == 0,
    ensures
        keys_unique(s),
        keyed_view(s) == Map::<PeerAddr, V>::empty(),
{
    assert(keyed_view(s) =~= Map::<PeerAddr, V>::empty());
}

/// The position of the entry with address `a`, if there is one.
pub fn find_key<V>(entries: &Vec<(PeerAddr, V)>, a: &PeerAddr) -> (r: Option<usize>)
    ensures
        r matches Some(i) ==> i < entries@.len() && entries@[i as int].0 == *a,
        r is None ==> !has_key(entries@, *a),
{
    let mut i: usize = 0;
    while i < entries.len()
        invariant
            i <= entries@.len(),
            forall|k: int| 0 <= k < i ==> entries@[k].0 != *a,
        decreases entries@.len() - i,
    {
        if entries[i].0 == *a {
            return Some(i);
        }
        i = i + 1;
    }
    None
}

} // verus!
