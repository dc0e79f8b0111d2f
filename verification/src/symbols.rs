//! Symbol-keyed association lists.
//!
//! Share holdings and the price table both map a ticker symbol to a value.
//! They are held as vectors of `(String, value)` pairs whose keys are
//! pairwise distinct, and specified through `spec_find`, the value at the
//! first entry whose key reads the requested symbol.

use vstd::prelude::*;

verus! {

/// No symbol occurs twice as a key.
pub open spec fn unique_keys<T>(h: Seq<(String, T)>) -> bool {
    forall|i: int, j: int| 0 <= i < j < h.len() ==> h[i].0@ != h[j].0@
}

/// The value associated with `sym`, if any: the value of the first entry
/// whose key reads `sym`.
pub open spec fn spec_find<T>(h: Seq<(String, T)>, sym: Seq<char>) -> Option<T>
    decreases h.len(),
{
    if h.len() == 0 {
        None
    } else if h[0].0@ == sym {
        Some(h[0].1)
    } else {
        spec_find(h.skip(1), sym)
    }
}

/// A prefix free of `sym` does not affect the lookup.
pub proof fn lemma_find_skip<T>(h: Seq<(String, T)>, sym: Seq<char>, k: int)
    requires
        0 <= k <= h.len(),
        forall|j: int| 0 <= j < k ==> h[j].0@ != sym,
    ensures
        spec_find(h, sym) == spec_find(h.skip(k), sym),
    decreases k,
{
    if k == 0 {
        assert(h.skip(0) =~= h);
    } else {
        assert(h[0].0@ != sym);
        lemma_find_skip(h.skip(1), sym, k - 1);
        assert(h.skip(1).skip(k - 1) =~= h.skip(k));
    }
}

/// A match at `i`, with no match before it, is the lookup's result.
pub proof fn lemma_find_at<T>(h: Seq<(String, T)>, sym: Seq<char>, i: int)
    requires
        0 <= i < h.len(),
        forall|j: int| 0 <= j < i ==> h[j].0@ != sym,
        h[i].0@ == sym,
    ensures
        spec_find(h, sym) == Some(h[i].1),
{
    lemma_find_skip(h, sym, i);
    assert(h.skip(i)[0] == h[i]);
}

/// A symbol matched by no entry is not found.
pub proof fn lemma_find_absent<T>(h: Seq<(String, T)>, sym: Seq<char>)
    requires
        forall|j: int| 0 <= j < h.len() ==> h[j].0@ != sym,
    ensures
        spec_find(h, sym) is None,
{
    lemma_find_skip(h, sym, h.len() as int);
    assert(h.skip(h.len() as int) =~= Seq::<(String, T)>::empty());
}

/// Replacing the value at entry `i` (keeping its key) changes the lookup of
/// that key to the new value and no other lookup, and keeps keys unique.
pub proof fn lemma_find_update<T>(h: Seq<(String, T)>, i: int, v: T)
    requires
        0 <= i < h.len(),
        forall|j: int| 0 <= j < i ==> h[j].0@ != h[i].0@,
    ensures
        spec_find(h.update(i, (h[i].0, v)), h[i].0@) == Some::<T>(v),
        forall|s: Seq<char>| s != h[i].0@ ==> spec_find(h.update(i, (h[i].0, v)), s)
            == spec_find(h, s),
        unique_keys(h) ==> unique_keys(h.update(i, (h[i].0, v))),
    decreases i,
{
    let h2 = h.update(i, (h[i].0, v));
    if unique_keys(h) {
        assert forall|a: int, b: int| 0 <= a < b < h2.len() implies h2[a].0@ != h2[b].0@ by {
            assert(h2[a].0 == h[a].0);
            assert(h2[b].0 == h[b].0);
        }
    }
    if i == 0 {
        assert(h2[0] == (h[0].0, v));
        assert(h2.skip(1) =~= h.skip(1));
        assert(spec_find(h2, h[0].0@) == Some::<T>(v));
        assert forall|s: Seq<char>| s != h[i].0@ implies spec_find(h2, s) == spec_find(h, s) by {
            assert(spec_find(h2, s) == spec_find(h2.skip(1), s));
            assert(spec_find(h, s) == spec_find(h.skip(1), s));
        }
    } else {
        assert(h2[0] == h[0]);
        let t = h.skip(1);
        let t2 = h2.skip(1);
        assert(t[i - 1] == h[i]);
        assert(t2 =~= t.update(i - 1, (t[i - 1].0, v)));
        lemma_find_update(t, i - 1, v);
        assert(h[0].0@ != h[i].0@);
        assert(spec_find(h2, h[i].0@) == spec_find(t2, h[i].0@));
        assert forall|s: Seq<char>| s != h[i].0@ implies spec_find(h2, s) == spec_find(h, s) by {
            if h[0].0@ == s {
                assert(spec_find(h2, s) == Some(h2[0].1));
                assert(spec_find(h, s) == Some(h[0].1));
            } else {
                assert(spec_find(h2, s) == spec_find(t2, s));
                assert(spec_find(h, s) == spec_find(t, s));
            }
        }
    }
}

/// Appending an entry under a fresh key adds exactly that association and
/// keeps keys unique.
pub proof fn lemma_find_push<T>(h: Seq<(String, T)>, key: String, v: T)
    requires
        forall|j: int| 0 <= j < h.len() ==> h[j].0@ != key@,
    ensures
        spec_find(h.push((key, v)), key@) == Some::<T>(v),
        forall|s: Seq<char>| s != key@ ==> spec_find(h.push((key, v)), s) == spec_find(h, s),
        unique_keys(h) ==> unique_keys(h.push((key, v))),
    decreases h.len(),
{
    let h2 = h.push((key, v));
    if h.len() == 0 {
        assert(h2[0] == (key, v));
        assert(h2.skip(1) =~= Seq::<(String, T)>::empty());
        assert forall|s: Seq<char>| s != key@ implies spec_find(h2, s) == spec_find(h, s) by {
            assert(spec_find(h2, s) == spec_find(h2.skip(1), s));
        }
    } else {
        assert(h2[0] == h[0]);
        assert(h2.skip(1) =~= h.skip(1).push((key, v)));
        lemma_find_push(h.skip(1), key, v);
        assert(spec_find(h2, key@) == spec_find(h2.skip(1), key@));
        assert forall|s: Seq<char>| s != key@ implies spec_find(h2, s) == spec_find(h, s) by {
            if h[0].0@ == s {
                assert(spec_find(h2, s) == Some(h2[0].1));
                assert(spec_find(h, s) == Some(h[0].1));
            } else {
                assert(spec_find(h2, s) == spec_find(h2.skip(1), s));
                assert(spec_find(h, s) == spec_find(h.skip(1), s));
            }
        }
        if unique_keys(h) {
            assert forall|a: int, b: int| 0 <= a < b < h2.len() implies h2[a].0@ != h2[b].0@ by {
                if b < h.len() {
                    assert(h2[a] == h[a] && h2[b] == h[b]);
                } else {
                    assert(h2[a] == h[a] && h2[b] == (key, v));
                }
            }
        }
    }
}

/// Finds the entry whose key reads `symbol`, returning its index.
pub fn find_key<T>(v: &Vec<(String, T)>, symbol: &str) -> (r: Option<usize>)
    ensures
        match r {
            Some(i) => i < v@.len() && v@[i as int].0@ == symbol@ && (forall|j: int|
                0 <= j < i ==> v@[j].0@ != symbol@),
            None => forall|j: int| 0 <= j < v@.len() ==> v@[j].0@ != symbol@,
        },
{
    let sym: String = symbol.to_owned();
    let n: usize = v.len();
    let mut i: usize = 0;
    while i < n
        invariant
            n == v@.len(),
            i <= n,
            sym@ == symbol@,
            forall|j: int| 0 <= j < i ==> v@[j].0@ != symbol@,
        decreases n - i,
    {
        let entry = &v[i];
        if entry.0 == sym {
            return Some(i);
        }
        i = i + 1;
    }
    None
}

} // verus!
