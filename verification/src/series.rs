//! Time-ordered series.
//!
//! Both event feeds and per-symbol price histories are sequences of
//! `(timestamp, value)` pairs with strictly ascending timestamps. A feed is
//! consumed from the front ("the next entry strictly after now"); a price
//! history is read from the back ("the last entry at or before an instant").

use vstd::prelude::*;

verus! {

/// Timestamps grow strictly from entry to entry.
pub open spec fn strictly_ascending<T>(s: Seq<(i64, T)>) -> bool {
    forall|i: int, j: int| 0 <= i < j < s.len() ==> s[i].0 < s[j].0
}

/// The suffix of `s` strictly after instant `t`: entries are dropped from
/// the front while their timestamp is at or before `t`.
pub open spec fn drop_stale<T>(s: Seq<(i64, T)>, t: int) -> Seq<(i64, T)>
    decreases s.len(),
{
    if s.len() == 0 {
        s
    } else if s[0].0 <= t {
        drop_stale(s.skip(1), t)
    } else {
        s
    }
}

/// `drop_stale` removes exactly the stale prefix: if the first `k` entries
/// are at or before `t` and entry `k` (if any) is after `t`, the result is
/// the suffix from `k`.
pub proof fn lemma_drop_stale_skip<T>(s: Seq<(i64, T)>, t: int, k: int)
    requires
        0 <= k <= s.len(),
        forall|j: int| 0 <= j < k ==> s[j].0 <= t,
        k < s.len() ==> s[k].0 > t,
    ensures
        drop_stale(s, t) == s.skip(k),
    decreases k,
{
    if k == 0 {
        assert(s.skip(0) =~= s);
    } else {
        lemma_drop_stale_skip(s.skip(1), t, k - 1);
        assert(s.skip(1).skip(k - 1) =~= s.skip(k));
    }
}

/// A nonempty live suffix starts strictly after `t`.
pub proof fn lemma_drop_stale_head<T>(s: Seq<(i64, T)>, t: int)
    requires
        drop_stale(s, t).len() > 0,
    ensures
        drop_stale(s, t)[0].0 > t,
    decreases s.len(),
{
    if s.len() == 0 {
    } else if s[0].0 <= t {
        lemma_drop_stale_head(s.skip(1), t);
    }
}

/// The value of the last entry whose timestamp is at or before `t`, if any.
pub open spec fn last_at_or_before<T>(s: Seq<(i64, T)>, t: int) -> Option<T>
    decreases s.len(),
{
    if s.len() == 0 {
        None
    } else if s[s.len() - 1].0 <= t {
        Some(s[s.len() - 1].1)
    } else {
        last_at_or_before(s.drop_last(), t)
    }
}

/// A suffix entirely after `t` does not affect the lookup at `t`.
pub proof fn lemma_last_at_or_before_take<T>(s: Seq<(i64, T)>, t: int, k: int)
    requires
        0 <= k <= s.len(),
        forall|j: int| k <= j < s.len() ==> s[j].0 > t,
    ensures
        last_at_or_before(s, t) == last_at_or_before(s.take(k), t),
    decreases s.len() - k,
{
    if k == s.len() {
        assert(s.take(k) =~= s);
    } else {
        assert(s[s.len() - 1].0 > t);
        lemma_last_at_or_before_take(s.drop_last(), t, k);
        assert(s.drop_last().take(k) =~= s.take(k));
    }
}

/// In a strictly ascending series, any two entries in order have strictly
/// ordered timestamps; this extends the entry-to-next-entry comparison that
/// an iteration can check to arbitrary pairs.
pub proof fn lemma_ascending_pair<T>(s: Seq<(i64, T)>, i: int, j: int)
    requires
        forall|m: int| 0 <= m < s.len() - 1 ==> #[trigger] s[m].0 < s[m + 1].0,
        0 <= i < j < s.len(),
    ensures
        s[i].0 < s[j].0,
    decreases j - i,
{
    if j == i + 1 {
        assert(s[i].0 < s[i + 1].0);
    } else {
        lemma_ascending_pair(s, i, j - 1);
        assert(s[j - 1].0 < s[j - 1 + 1].0);
    }
}

/// Checks that the timestamps of `v` are strictly ascending.
pub fn check_strictly_ascending<T>(v: &Vec<(i64, T)>) -> (r: bool)
    ensures
        r == strictly_ascending(v@),
{
    let n: usize = v.len();
    if n == 0 {
        return true;
    }
    let mut i: usize = 0;
    while i < n - 1
        invariant
            n == v@.len(),
            1 <= n,
            i <= n - 1,
            forall|m: int| 0 <= m < i ==> #[trigger] v@[m].0 < v@[m + 1].0,
        decreases n - i,
    {
        if v[i].0 >= v[i + 1].0 {
            assert(!strictly_ascending(v@));
            return false;
        }
        i = i + 1;
    }
    proof {
        assert forall|a: int, b: int| 0 <= a < b < v@.len() implies v@[a].0 < v@[b].0 by {
            lemma_ascending_pair(v@, a, b);
        }
    }
    true
}

/// Finds the first entry at index `from` or later whose timestamp is
/// strictly after `now`, returning its index. Entries before it (from
/// `from` on) are stale: at or before `now`.
pub fn first_live_index<T>(v: &Vec<(i64, T)>, from: usize, now: i64) -> (r: Option<usize>)
    requires
        from <= v@.len(),
    ensures
        match r {
            Some(i) => from <= i < v@.len() && v@[i as int].0 > now && (forall|j: int|
                from <= j < i ==> v@[j].0 <= now) && drop_stale(
                v@.skip(from as int),
                now as int,
            ) == v@.skip(i as int),
            None => (forall|j: int| from <= j < v@.len() ==> v@[j].0 <= now) && drop_stale(
                v@.skip(from as int),
                now as int,
            ) == Seq::<(i64, T)>::empty(),
        },
{
    let n: usize = v.len();
    let mut i: usize = from;
    while i < n
        invariant
            from <= i <= n,
            n == v@.len(),
            forall|j: int| from <= j < i ==> v@[j].0 <= now,
        decreases n - i,
    {
        if v[i].0 > now {
            proof {
                let s = v@.skip(from as int);
                lemma_drop_stale_skip(s, now as int, i - from);
                assert(s.skip(i - from) =~= v@.skip(i as int));
            }
            return Some(i);
        }
        i = i + 1;
    }
    proof {
        let s = v@.skip(from as int);
        lemma_drop_stale_skip(s, now as int, s.len() as int);
        assert(s.skip(s.len() as int) =~= Seq::<(i64, T)>::empty());
    }
    None
}

} // verus!
