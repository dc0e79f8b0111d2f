//! The historical price table.
//!
//! For each symbol, the prices of its recorded trades in strictly ascending
//! time order. A lookup resolves "the price at or before an instant": the
//! last trade of the symbol at or before it, exactly as a descending-time
//! query with a single-row cap would against the backing store. The table
//! never interpolates and never substitutes a value of its own: an instant
//! before the first trade of a symbol, or an unknown symbol, has no price.

use vstd::prelude::*;

use crate::series::last_at_or_before;
use crate::series::lemma_last_at_or_before_take;
use crate::series::strictly_ascending;
use crate::symbols::find_key;
use crate::symbols::lemma_find_absent;
use crate::symbols::lemma_find_at;
use crate::symbols::lemma_find_push;
use crate::symbols::lemma_find_update;
use crate::symbols::spec_find;
use crate::symbols::unique_keys;

verus! {

/// Historical trade prices by symbol. Instants are microseconds since the
/// Unix epoch; prices are integer price units.
pub struct PriceStore {
    pub series: Vec<(String, Vec<(i64, u64)>)>,
}

impl PriceStore {
    /// Every symbol appears once, and every history is in strictly
    /// ascending time order.
    pub open spec fn wf(self) -> bool {
        &&& unique_keys(self.series@)
        &&& forall|i: int|
            0 <= i < self.series@.len() ==> strictly_ascending(#[trigger] self.series@[i].1@)
    }

    /// The recorded history of `sym`, if the symbol is known.
    pub open spec fn spec_history(self, sym: Seq<char>) -> Option<Seq<(i64, u64)>> {
        match spec_find(self.series@, sym) {
            None => None,
            Some(h) => Some(h@),
        }
    }

    /// The price of `sym` at or before `t`: its last recorded trade at or
    /// before `t`, if the symbol is known and has traded by then.
    pub open spec fn spec_lookup(self, sym: Seq<char>, t: int) -> Option<u64> {
        match self.spec_history(sym) {
            None => None,
            Some(h) => last_at_or_before(h, t),
        }
    }

    /// An empty table.
    pub fn new() -> (r: PriceStore)
        ensures
            r.wf(),
            r.series@.len() == 0,
    {
        PriceStore { series: Vec::new() }
    }

    /// Records a trade of `symbol` at instant `ts`. The entry is appended
    /// to the symbol's history (creating the history for a new symbol)
    /// provided it falls strictly after every trade already recorded for
    /// the symbol; otherwise nothing is recorded and the call returns
    /// false.
    pub fn add_point(&mut self, symbol: &str, ts: i64, price: u64) -> (r: bool)
        requires
            old(self).wf(),
        ensures
            final(self).wf(),
            r == (match old(self).spec_history(symbol@) {
                None => true,
                Some(h) => h.len() == 0 || h[h.len() - 1].0 < ts,
            }),
            r ==> final(self).spec_history(symbol@) == Some(
                match old(self).spec_history(symbol@) {
                    None => Seq::<(i64, u64)>::empty(),
                    Some(h) => h,
                }.push((ts, price)),
            ),
            r ==> forall|s: Seq<char>|
                s != symbol@ ==> final(self).spec_history(s) == old(self).spec_history(s),
            !r ==> *final(self) == *old(self),
    {
        match find_key(&self.series, symbol) {
            Some(i) => {
                proof {
                    lemma_find_at(self.series@, symbol@, i as int);
                }
                let ghost old_hist = self.series@[i as int].1@;
                let n: usize = self.series[i].1.len();
                if n == 0 || self.series[i].1[n - 1].0 < ts {
                    let entry = &mut self.series[i];
                    entry.1.push((ts, price));
                    proof {
                        let s2 = self.series@;
                        assert(s2 =~= old(self).series@.update(
                            i as int,
                            (old(self).series@[i as int].0, s2[i as int].1),
                        ));
                        lemma_find_update(old(self).series@, i as int, s2[i as int].1);
                        assert(s2[i as int].1@ =~= old_hist.push((ts, price)));
                        assert forall|k: int| 0 <= k < s2.len() implies strictly_ascending(
                            #[trigger] s2[k].1@,
                        ) by {
                            if k == i {
                                let h2 = s2[k].1@;
                                assert forall|a: int, b: int|
                                    0 <= a < b < h2.len() implies h2[a].0 < h2[b].0 by {
                                    if b < h2.len() - 1 {
                                        assert(old_hist[a].0 < old_hist[b].0);
                                    } else if a < h2.len() - 1 {
                                        if a < old_hist.len() - 1 {
                                            assert(old_hist[a].0 < old_hist[old_hist.len() - 1].0);
                                        }
                                    }
                                }
                            } else {
                                assert(s2[k].1 == old(self).series@[k].1);
                            }
                        }
                    }
                    true
                } else {
                    false
                }
            },
            None => {
                proof {
                    lemma_find_absent(self.series@, symbol@);
                }
                let mut hist: Vec<(i64, u64)> = Vec::new();
                hist.push((ts, price));
                let ghost hist_snap = hist;
                let key: String = symbol.to_owned();
                self.series.push((key, hist));
                proof {
                    lemma_find_push(old(self).series@, key, hist_snap);
                    assert(hist_snap@ =~= Seq::<(i64, u64)>::empty().push((ts, price)));
                    let s2 = self.series@;
                    assert forall|k: int| 0 <= k < s2.len() implies strictly_ascending(
                        #[trigger] s2[k].1@,
                    ) by {
                        if k < s2.len() - 1 {
                            assert(s2[k].1 == old(self).series@[k].1);
                        }
                    }
                }
                true
            },
        }
    }

    /// Resolves the price of `symbol` at or before `as_of`.
    pub fn lookup(&self, symbol: &str, as_of: i64) -> (r: Option<u64>)
        ensures
            r == self.spec_lookup(symbol@, as_of as int),
    {
        match find_key(&self.series, symbol) {
            None => {
                proof {
                    lemma_find_absent(self.series@, symbol@);
                }
                None
            },
            Some(i) => {
                proof {
                    lemma_find_at(self.series@, symbol@, i as int);
                }
                let hist = &self.series[i].1;
                let mut k: usize = hist.len();
                while k > 0
                    invariant
                        k <= hist@.len(),
                        forall|j: int| k <= j < hist@.len() ==> hist@[j].0 > as_of,
                        self.spec_lookup(symbol@, as_of as int) == last_at_or_before(
                            hist@,
                            as_of as int,
                        ),
                    decreases k,
                {
                    if hist[k - 1].0 <= as_of {
                        proof {
                            lemma_last_at_or_before_take(hist@, as_of as int, k as int);
                            assert(hist@.take(k as int)[k - 1] == hist@[k - 1]);
                        }
                        return Some(hist[k - 1].1);
                    }
                    k = k - 1;
                }
                proof {
                    lemma_last_at_or_before_take(hist@, as_of as int, 0);
                    assert(hist@.take(0) =~= Seq::<(i64, u64)>::empty());
                }
                None
            },
        }
    }
}

} // verus!
