//! A set of ticker symbols with constant-time membership.
use vstd::prelude::*;

use crate::ticker::{lemma_ticker_index, lemma_ticker_index_injective, ticker_index, Ticker, TICKER_COUNT};

verus! {

/// The symbols a subscriber asked for, one flag per ticker position.
pub struct SymbolSet {
    flags: Vec<bool>,
}

impl View for SymbolSet {
    type V = Set<Ticker>;

    open spec fn view(&self) -> Set<Ticker> {
        Set::new(|t: Ticker| self.flag_at(ticker_index(t)))
    }
}

impl SymbolSet {
    /// The flag stored at a position.
    pub closed spec fn flag_at(&self, i: nat) -> bool {
        self.flags@[i as int]
    }

    #[verifier::type_invariant]
    spec fn inv(&self) -> bool {
        self.flags@.len() == TICKER_COUNT
    }

    /// The set that holds exactly the tickers of `tickers`; repeated entries
    /// count once.
    pub fn from_tickers(tickers: &Vec<Ticker>) -> (s: SymbolSet)
        ensures
            s@ == tickers@.to_set(),
    {
        let mut flags: Vec<bool> = Vec::new();
        let mut k: usize = 0;
        while k < TICKER_COUNT
            invariant
                k <= TICKER_COUNT,
                flags@.len() == k,
                forall|i: int| 0 <= i < k ==> !flags@[i],
            decreases TICKER_COUNT - k,
        {
            flags.push(false);
            k = k + 1;
        }
        let mut j: usize = 0;
        while j < tickers.len()
            invariant
                j <= tickers@.len(),
                flags@.len() == TICKER_COUNT,
                forall|t: Ticker|
                    #[trigger] flags@[ticker_index(t) as int] <==> tickers@.take(j as int).contains(t),
            decreases tickers@.len() - j,
        {
            let t = tickers[j];
            let i = t.index();
            let ghost before = flags@;
            flags.set(i, true);
            assert forall|u: Ticker|
                #[trigger] flags@[ticker_index(u) as int] <==> tickers@.take(j + 1).contains(u) by {
                lemma_ticker_index(u);
                lemma_ticker_index_injective(t, u);
                assert(before[ticker_index(u) as int] <==> tickers@.take(j as int).contains(u));
                assert(tickers@.take(j + 1) =~= tickers@.take(j as int).push(t));
                assert(tickers@.take(j + 1)[j as int] == t);
                if tickers@.take(j as int).contains(u) {
                    let k = choose|k: int| 0 <= k < j && tickers@.take(j as int)[k] == u;
                    assert(tickers@.take(j + 1)[k] == u);
                }
            }
            j = j + 1;
        }
        assert(tickers@.take(tickers@.len() as int) =~= tickers@);
        let s = SymbolSet { flags };
        assert(s@ =~= tickers@.to_set());
        s
    }

    /// Whether `t` is in the set.
    pub fn contains(&self, t: &Ticker) -> (r: bool)
        ensures
            r == self@.contains(*t),
    {
        proof {
            use_type_invariant(self);
            lemma_ticker_index(*t);
        }
        self.flags[t.index()]
    }
}

} // verus!
