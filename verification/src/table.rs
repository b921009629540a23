//! An association table with `u64` keys kept in strictly increasing order.
//!
//! The world's entity collections (players, units, cities, civilizations,
//! buildings, territory) all use this table, so walking one is always in
//! key order and therefore deterministic across machines.

use vstd::prelude::*;

verus! {

/// Index of the first entry for `k` at or after `i`, or -1 if there is none.
pub open spec fn tb_find_from<V>(s: Seq<(u64, V)>, k: u64, i: int) -> int
    decreases s.len() - i,
{
    if i < 0 || i >= s.len() {
        -1
    } else if s[i].0 == k {
        i
    } else {
        tb_find_from(s, k, i + 1)
    }
}

/// Index of the entry for `k`, or -1 if there is none.
pub open spec fn tb_find<V>(s: Seq<(u64, V)>, k: u64) -> int {
    tb_find_from(s, k, 0)
}

pub open spec fn tb_contains<V>(s: Seq<(u64, V)>, k: u64) -> bool {
    tb_find(s, k) >= 0
}

/// The value bound to `k`, if any.
pub open spec fn tb_get<V>(s: Seq<(u64, V)>, k: u64) -> Option<V> {
    let i = tb_find(s, k);
    if i >= 0 {
        Some(s[i].1)
    } else {
        None
    }
}

/// Index of the first entry at or after `i` whose key is at least `k`.
pub open spec fn tb_lower_from<V>(s: Seq<(u64, V)>, k: u64, i: int) -> int
    decreases s.len() - i,
{
    if i < 0 || i >= s.len() {
        s.len() as int
    } else if s[i].0 >= k {
        i
    } else {
        tb_lower_from(s, k, i + 1)
    }
}

/// The table with `k` bound to `v`, at its sorted position.
pub open spec fn tb_insert<V>(s: Seq<(u64, V)>, k: u64, v: V) -> Seq<(u64, V)> {
    let i = tb_lower_from(s, k, 0);
    if i < s.len() && s[i].0 == k {
        s.update(i, (k, v))
    } else {
        s.insert(i, (k, v))
    }
}

/// The table without any entry for `k`.
pub open spec fn tb_remove<V>(s: Seq<(u64, V)>, k: u64) -> Seq<(u64, V)> {
    let i = tb_find(s, k);
    if i >= 0 {
        s.remove(i)
    } else {
        s
    }
}

/// Keys are strictly increasing, so each key occurs at most once.
pub open spec fn tb_wf<V>(s: Seq<(u64, V)>) -> bool {
    forall|i: int, j: int| 0 <= i < j < s.len() ==> (#[trigger] s[i]).0 < (#[trigger] s[j]).0
}

/// The keys of the table, in order.
pub open spec fn tb_keys<V>(s: Seq<(u64, V)>) -> Seq<u64> {
    s.map_values(|e: (u64, V)| e.0)
}

/// The table with every value sent through `f`, keys unchanged.
pub open spec fn tb_map_values<V, W>(s: Seq<(u64, V)>, f: spec_fn(V) -> W) -> Seq<(u64, W)> {
    s.map_values(|e: (u64, V)| (e.0, f(e.1)))
}

/// Mapping values does not move entries: a lookup lands on the same
/// index, and the value found is the mapped one.
pub proof fn lemma_tb_map_find_from<V, W>(s: Seq<(u64, V)>, f: spec_fn(V) -> W, k: u64, i: int)
    ensures
        tb_find_from(tb_map_values(s, f), k, i) == tb_find_from(s, k, i),
    decreases s.len() - i,
{
    if 0 <= i < s.len() {
        lemma_tb_map_find_from(s, f, k, i + 1);
    }
}

/// A lookup in the mapped table is the mapped lookup.
pub proof fn lemma_tb_map_get<V, W>(s: Seq<(u64, V)>, f: spec_fn(V) -> W, k: u64)
    ensures
        tb_get(tb_map_values(s, f), k) == match tb_get(s, k) {
            Some(v) => Some(f(v)),
            None => None::<W>,
        },
{
    lemma_tb_map_find_from(s, f, k, 0);
    lemma_tb_find_from(s, k, 0);
    let i = tb_find(s, k);
    if i >= 0 {
        assert(tb_map_values(s, f)[i] == (s[i].0, f(s[i].1)));
    }
}

/// Mapping values does not move the insertion point either.
pub proof fn lemma_tb_map_lower_from<V, W>(s: Seq<(u64, V)>, f: spec_fn(V) -> W, k: u64, i: int)
    ensures
        tb_lower_from(tb_map_values(s, f), k, i) == tb_lower_from(s, k, i),
    decreases s.len() - i,
{
    if 0 <= i < s.len() {
        lemma_tb_map_lower_from(s, f, k, i + 1);
    }
}

/// Inserting then mapping is mapping then inserting the mapped value.
pub proof fn lemma_tb_map_insert<V, W>(s: Seq<(u64, V)>, f: spec_fn(V) -> W, k: u64, v: V)
    ensures
        tb_map_values(tb_insert(s, k, v), f) =~= tb_insert(tb_map_values(s, f), k, f(v)),
{
    lemma_tb_map_lower_from(s, f, k, 0);
    lemma_tb_lower_from(s, k, 0);
}

/// A property of every entry survives an insert whose new entry has it.
pub proof fn lemma_tb_insert_all<V>(s: Seq<(u64, V)>, k: u64, v: V, p: spec_fn((u64, V)) -> bool)
    requires
        forall|j: int| 0 <= j < s.len() ==> p(#[trigger] s[j]),
        p((k, v)),
    ensures
        forall|j: int|
            0 <= j < tb_insert(s, k, v).len() ==> p(#[trigger] tb_insert(s, k, v)[j]),
{
    lemma_tb_lower_from(s, k, 0);
    let i = tb_lower_from(s, k, 0);
    let s2 = tb_insert(s, k, v);
    assert forall|j: int| 0 <= j < s2.len() implies p(s2[j]) by {
        if i < s.len() && s[i].0 == k {
            if j != i {
                assert(s2[j] == s[j]);
            }
        } else {
            if j < i {
                assert(s2[j] == s[j]);
            } else if j > i {
                assert(s2[j] == s[j - 1]);
            }
        }
    }
}

/// Removing then mapping is mapping then removing.
pub proof fn lemma_tb_map_remove<V, W>(s: Seq<(u64, V)>, f: spec_fn(V) -> W, k: u64)
    ensures
        tb_map_values(tb_remove(s, k), f) =~= tb_remove(tb_map_values(s, f), k),
{
    lemma_tb_map_find_from(s, f, k, 0);
    lemma_tb_find_from(s, k, 0);
}

/// Reinserting a present key is the same as overwriting it in place.
pub proof fn lemma_tb_remove_insert<V>(s: Seq<(u64, V)>, k: u64, v: V)
    requires
        tb_wf(s),
        tb_contains(s, k),
    ensures
        tb_insert(tb_remove(s, k), k, v) =~= tb_insert(s, k, v),
{
    let i = tb_find(s, k);
    lemma_tb_find_from(s, k, 0);
    lemma_tb_wf_find_is_lower(s, k);
    lemma_tb_lower_from(s, k, 0);
    let s1 = s.remove(i);
    lemma_tb_lower_from(s1, k, 0);
    let l1 = tb_lower_from(s1, k, 0);
    assert forall|m: int| 0 <= m < i implies (#[trigger] s1[m]).0 < k by {
        assert(s1[m] == s[m]);
    }
    if l1 < i {
        assert(s1[l1].0 >= k);
    }
    if l1 > i {
        if i < s1.len() {
            assert(s1[i] == s[i + 1]);
            assert(s[i].0 < s[i + 1].0);
            assert(s1[i].0 > k);
        }
    }
    assert(l1 == if i < s1.len() {
        i
    } else {
        s1.len() as int
    });
    if i < s1.len() {
        assert(s1[i] == s[i + 1]);
        assert(s1[i].0 != k);
    }
    assert(tb_insert(s1, k, v) == s1.insert(l1, (k, v)));
    assert(tb_insert(s, k, v) == s.update(i, (k, v)));
}

/// Mapping keeps the keys, so it keeps well-formedness.
pub proof fn lemma_tb_map_wf<V, W>(s: Seq<(u64, V)>, f: spec_fn(V) -> W)
    requires
        tb_wf(s),
    ensures
        tb_wf(tb_map_values(s, f)),
{
    assert forall|i: int, j: int|
        0 <= i < j < tb_map_values(s, f).len() implies (#[trigger] tb_map_values(s, f)[i]).0 < (
    #[trigger] tb_map_values(s, f)[j]).0 by {
        assert(s[i].0 < s[j].0);
    }
}

/// Taking an entry out and reinserting a new value under its key, seen
/// through a value mapping, is one in-place overwrite of the mapped table.
pub proof fn lemma_tb_update_bridge<V, W>(s: Seq<(u64, V)>, f: spec_fn(V) -> W, k: u64, v: V)
    requires
        tb_wf(s),
        tb_contains(s, k),
    ensures
        tb_map_values(tb_insert(tb_remove(s, k), k, v), f) =~= tb_insert(
            tb_map_values(s, f),
            k,
            f(v),
        ),
{
    lemma_tb_map_insert(tb_remove(s, k), f, k, v);
    lemma_tb_map_remove(s, f, k);
    lemma_tb_map_wf(s, f);
    lemma_tb_map_find_from(s, f, k, 0);
    lemma_tb_remove_insert(tb_map_values(s, f), k, f(v));
    assert(tb_insert(tb_map_values(tb_remove(s, k), f), k, f(v)) =~= tb_insert(
        tb_remove(tb_map_values(s, f), k),
        k,
        f(v),
    ));
}

/// Reinserting the value a key already has changes nothing.
pub proof fn lemma_tb_insert_existing<V>(s: Seq<(u64, V)>, k: u64)
    requires
        tb_wf(s),
        tb_contains(s, k),
    ensures
        tb_insert(s, k, tb_get(s, k)->Some_0) =~= s,
{
    lemma_tb_find_from(s, k, 0);
    lemma_tb_wf_find_is_lower(s, k);
    lemma_tb_lower_from(s, k, 0);
    let i = tb_find(s, k);
    assert(s[i] == (k, tb_get(s, k)->Some_0));
}

/// What a find result means.
pub proof fn lemma_tb_find_from<V>(s: Seq<(u64, V)>, k: u64, i: int)
    requires
        0 <= i <= s.len(),
    ensures
        tb_find_from(s, k, i) == -1 || i <= tb_find_from(s, k, i) < s.len(),
        tb_find_from(s, k, i) == -1 ==> forall|j: int| i <= j < s.len() ==> (#[trigger] s[j]).0 != k,
        tb_find_from(s, k, i) >= 0 ==> s[tb_find_from(s, k, i)].0 == k && forall|j: int|
            i <= j < tb_find_from(s, k, i) ==> (#[trigger] s[j]).0 != k,
    decreases s.len() - i,
{
    if i < s.len() && s[i].0 != k {
        lemma_tb_find_from(s, k, i + 1);
    }
}

/// A find lands exactly on the first matching index.
pub proof fn lemma_tb_find_from_exact<V>(s: Seq<(u64, V)>, k: u64, i: int, j: int)
    requires
        0 <= i <= j < s.len(),
        s[j].0 == k,
        forall|m: int| i <= m < j ==> (#[trigger] s[m]).0 != k,
    ensures
        tb_find_from(s, k, i) == j,
    decreases j - i,
{
    if i < j {
        lemma_tb_find_from_exact(s, k, i + 1, j);
    }
}

/// A find misses when no entry matches.
pub proof fn lemma_tb_find_from_miss<V>(s: Seq<(u64, V)>, k: u64, i: int)
    requires
        0 <= i,
        forall|m: int| i <= m < s.len() ==> (#[trigger] s[m]).0 != k,
    ensures
        tb_find_from(s, k, i) == -1,
    decreases s.len() - i,
{
    if i < s.len() {
        lemma_tb_find_from_miss(s, k, i + 1);
    }
}

/// What a lower-bound result means.
pub proof fn lemma_tb_lower_from<V>(s: Seq<(u64, V)>, k: u64, i: int)
    requires
        0 <= i <= s.len(),
    ensures
        i <= tb_lower_from(s, k, i) <= s.len(),
        forall|j: int| i <= j < tb_lower_from(s, k, i) ==> (#[trigger] s[j]).0 < k,
        tb_lower_from(s, k, i) < s.len() ==> s[tb_lower_from(s, k, i)].0 >= k,
    decreases s.len() - i,
{
    if i < s.len() && s[i].0 < k {
        lemma_tb_lower_from(s, k, i + 1);
    }
}

/// In a well-formed table, the lower bound lands exactly on `k`'s entry
/// when `k` is present.
pub proof fn lemma_tb_wf_find_is_lower<V>(s: Seq<(u64, V)>, k: u64)
    requires
        tb_wf(s),
    ensures
        tb_contains(s, k) ==> tb_lower_from(s, k, 0) == tb_find(s, k),
        !tb_contains(s, k) ==> (tb_lower_from(s, k, 0) == s.len() || s[tb_lower_from(s, k, 0)].0
            != k),
{
    lemma_tb_find_from(s, k, 0);
    lemma_tb_lower_from(s, k, 0);
    let f = tb_find(s, k);
    let l = tb_lower_from(s, k, 0);
    if f >= 0 {
        if l < f {
            assert(s[l].0 >= k);
            assert(s[l].0 < s[f].0);
        }
        if f < l {
            assert(s[f].0 < k);
        }
    } else {
        if l < s.len() {
            assert(s[l].0 != k);
        }
    }
}

/// Inserting keeps the keys strictly increasing.
pub proof fn lemma_tb_insert_wf<V>(s: Seq<(u64, V)>, k: u64, v: V)
    requires
        tb_wf(s),
    ensures
        tb_wf(tb_insert(s, k, v)),
{
    let i = tb_lower_from(s, k, 0);
    lemma_tb_lower_from(s, k, 0);
    let s2 = tb_insert(s, k, v);
    if i < s.len() && s[i].0 == k {
        assert forall|a: int, b: int| 0 <= a < b < s2.len() implies (#[trigger] s2[a]).0 < (
        #[trigger] s2[b]).0 by {
            assert(s[a].0 < s[b].0);
        }
    } else {
        assert(s2 == s.insert(i, (k, v)));
        assert forall|a: int, b: int| 0 <= a < b < s2.len() implies (#[trigger] s2[a]).0 < (
        #[trigger] s2[b]).0 by {
            if a < i && b == i {
                assert(s2[a] == s[a]);
                assert(s[a].0 < k);
            } else if a == i && b > i {
                assert(s2[b] == s[b - 1]);
                assert(s[b - 1].0 >= k);
                assert(s[b - 1].0 != k);
            } else if a < i && b > i {
                assert(s2[a] == s[a] && s2[b] == s[b - 1]);
                assert(a <= b - 1);
                if a == b - 1 {
                    assert(s[a].0 < k && s[b - 1].0 >= k);
                }
            } else if a > i && b > i {
                assert(s2[a] == s[a - 1] && s2[b] == s[b - 1]);
            } else {
                assert(a < i && b < i);
                assert(s2[a] == s[a] && s2[b] == s[b]);
            }
        }
    }
}

/// After an insert, `k` is bound to `v` and every other key keeps its
/// old binding.
pub proof fn lemma_tb_insert_get<V>(s: Seq<(u64, V)>, k: u64, v: V, q: u64)
    requires
        tb_wf(s),
    ensures
        tb_get(tb_insert(s, k, v), k) == Some(v),
        q != k ==> tb_get(tb_insert(s, k, v), q) == tb_get(s, q),
{
    let i = tb_lower_from(s, k, 0);
    lemma_tb_lower_from(s, k, 0);
    lemma_tb_find_from(s, k, 0);
    let s2 = tb_insert(s, k, v);
    if i < s.len() && s[i].0 == k {
        assert(s2 == s.update(i, (k, v)));
        assert forall|m: int| 0 <= m < i implies (#[trigger] s2[m]).0 != k by {
            assert(s2[m] == s[m]);
            assert(s[m].0 < k);
        }
        lemma_tb_find_from_exact(s2, k, 0, i);
        if q != k {
            let j = tb_find(s, q);
            lemma_tb_find_from(s, q, 0);
            if j >= 0 {
                assert(j != i);
                assert(s2[j].0 == q);
                assert forall|m: int| 0 <= m < j implies (#[trigger] s2[m]).0 != q by {
                    if m != i {
                        assert(s2[m] == s[m]);
                    }
                }
                lemma_tb_find_from_exact(s2, q, 0, j);
            } else {
                assert forall|m: int| 0 <= m < s2.len() implies (#[trigger] s2[m]).0 != q by {
                    if m != i {
                        assert(s2[m] == s[m]);
                    }
                }
                lemma_tb_find_from_miss(s2, q, 0);
            }
        }
    } else {
        assert(s2 == s.insert(i, (k, v)));
        assert(s2[i].0 == k);
        assert forall|m: int| 0 <= m < i implies (#[trigger] s2[m]).0 != k by {
            assert(s2[m] == s[m]);
            assert(s[m].0 < k);
        }
        lemma_tb_find_from_exact(s2, k, 0, i);
        if q != k {
            let j = tb_find(s, q);
            lemma_tb_find_from(s, q, 0);
            if j >= 0 {
                let j2 = if j < i {
                    j
                } else {
                    j + 1
                };
                assert(s2[j2].0 == q);
                assert forall|m: int| 0 <= m < j2 implies (#[trigger] s2[m]).0 != q by {
                    if m < i {
                        assert(s2[m] == s[m]);
                    } else if m > i {
                        assert(s2[m] == s[m - 1]);
                    }
                }
                lemma_tb_find_from_exact(s2, q, 0, j2);
                assert(s2[j2] == s[j]);
            } else {
                assert forall|m: int| 0 <= m < s2.len() implies (#[trigger] s2[m]).0 != q by {
                    if m < i {
                        assert(s2[m] == s[m]);
                    } else if m > i {
                        assert(s2[m] == s[m - 1]);
                    }
                }
                lemma_tb_find_from_miss(s2, q, 0);
            }
        }
    }
}

/// Removing keeps the keys strictly increasing.
pub proof fn lemma_tb_remove_wf<V>(s: Seq<(u64, V)>, k: u64)
    requires
        tb_wf(s),
    ensures
        tb_wf(tb_remove(s, k)),
{
    let i = tb_find(s, k);
    lemma_tb_find_from(s, k, 0);
    if i >= 0 {
        let s2 = s.remove(i);
        assert forall|a: int, b: int| 0 <= a < b < s2.len() implies (#[trigger] s2[a]).0 < (
        #[trigger] s2[b]).0 by {
            let a1 = if a < i {
                a
            } else {
                a + 1
            };
            let b1 = if b < i {
                b
            } else {
                b + 1
            };
            assert(s2[a] == s[a1] && s2[b] == s[b1]);
        }
    }
}

/// After a removal, `k` is absent and every other key keeps its binding.
pub proof fn lemma_tb_remove_get<V>(s: Seq<(u64, V)>, k: u64, q: u64)
    requires
        tb_wf(s),
    ensures
        tb_get(tb_remove(s, k), k) is None,
        q != k ==> tb_get(tb_remove(s, k), q) == tb_get(s, q),
{
    let i = tb_find(s, k);
    lemma_tb_find_from(s, k, 0);
    if i >= 0 {
        let s2 = s.remove(i);
        assert forall|m: int| 0 <= m < s2.len() implies (#[trigger] s2[m]).0 != k by {
            let m1 = if m < i {
                m
            } else {
                m + 1
            };
            assert(s2[m] == s[m1]);
            if m1 != i {
                assert(s[m1].0 != s[i].0);
            }
        }
        lemma_tb_find_from_miss(s2, k, 0);
        if q != k {
            let j = tb_find(s, q);
            lemma_tb_find_from(s, q, 0);
            if j >= 0 {
                let j2 = if j < i {
                    j
                } else {
                    j - 1
                };
                assert(s2[j2] == s[j]);
                assert forall|m: int| 0 <= m < j2 implies (#[trigger] s2[m]).0 != q by {
                    let m1 = if m < i {
                        m
                    } else {
                        m + 1
                    };
                    assert(s2[m] == s[m1]);
                }
                lemma_tb_find_from_exact(s2, q, 0, j2);
            } else {
                assert forall|m: int| 0 <= m < s2.len() implies (#[trigger] s2[m]).0 != q by {
                    let m1 = if m < i {
                        m
                    } else {
                        m + 1
                    };
                    assert(s2[m] == s[m1]);
                }
                lemma_tb_find_from_miss(s2, q, 0);
            }
        }
    }
}

/// An association table with keys in strictly increasing order.
pub struct Table<V> {
    pub entries: Vec<(u64, V)>,
}

impl<V> View for Table<V> {
    type V = Seq<(u64, V)>;

    open spec fn view(&self) -> Seq<(u64, V)> {
        self.entries@
    }
}

impl<V> Table<V> {
    pub open spec fn wf(&self) -> bool {
        tb_wf(self@)
    }

    pub fn new() -> (r: Self)
        ensures
            r@ == Seq::<(u64, V)>::empty(),
            r.wf(),
    {
        Table { entries: Vec::new() }
    }

    pub fn len(&self) -> (r: usize)
        ensures
            r == self@.len(),
    {
        self.entries.len()
    }

    pub fn is_empty(&self) -> (r: bool)
        ensures
            r == (self@.len() == 0),
    {
        self.entries.len() == 0
    }

    fn find_from(&self, k: u64, i: usize) -> (r: Option<usize>)
        requires
            i <= self@.len(),
        ensures
            match r {
                Some(m) => m == tb_find_from(self@, k, i as int),
                None => tb_find_from(self@, k, i as int) == -1,
            },
        decreases self@.len() - i,
    {
        if i >= self.entries.len() {
            None
        } else if self.entries[i].0 == k {
            Some(i)
        } else {
            self.find_from(k, i + 1)
        }
    }

    /// Index of the entry for `k`, if present.
    pub fn index_of(&self, k: u64) -> (r: Option<usize>)
        ensures
            match r {
                Some(m) => m == tb_find(self@, k) && m < self@.len() && self@[m as int].0 == k,
                None => tb_find(self@, k) == -1,
            },
    {
        proof {
            lemma_tb_find_from(self@, k, 0);
        }
        self.find_from(k, 0)
    }

    pub fn contains_key(&self, k: u64) -> (r: bool)
        ensures
            r == tb_contains(self@, k),
    {
        self.index_of(k).is_some()
    }

    pub fn get(&self, k: u64) -> (r: Option<&V>)
        ensures
            match r {
                Some(v) => tb_get(self@, k) == Some(*v),
                None => tb_get(self@, k) is None,
            },
    {
        match self.index_of(k) {
            Some(i) => Some(&self.entries[i].1),
            None => None,
        }
    }

    fn lower_from(&self, k: u64, i: usize) -> (r: usize)
        requires
            i <= self@.len(),
        ensures
            r == tb_lower_from(self@, k, i as int),
        decreases self@.len() - i,
    {
        if i >= self.entries.len() {
            self.entries.len()
        } else if self.entries[i].0 >= k {
            i
        } else {
            self.lower_from(k, i + 1)
        }
    }

    pub fn insert(&mut self, k: u64, v: V)
        requires
            old(self).wf(),
        ensures
            final(self)@ == tb_insert(old(self)@, k, v),
            final(self).wf(),
            tb_get(final(self)@, k) == Some(v),
            forall|q: u64| q != k ==> tb_get(final(self)@, q) == tb_get(old(self)@, q),
            final(self)@.len() == old(self)@.len() + (if tb_contains(old(self)@, k) {
                0int
            } else {
                1int
            }),
    {
        proof {
            lemma_tb_lower_from(self@, k, 0);
            lemma_tb_insert_wf(self@, k, v);
            lemma_tb_insert_get(self@, k, v, k);
            lemma_tb_wf_find_is_lower(self@, k);
            lemma_tb_find_from(self@, k, 0);
            let i = tb_lower_from(self@, k, 0);
            if i < self@.len() && self@[i].0 == k {
                lemma_tb_find_from_exact(self@, k, 0, i);
            } else {
                assert forall|m: int| 0 <= m < self@.len() implies (#[trigger] self@[m]).0
                    != k by {
                    if m < i {
                    } else if m > i {
                        assert(self@[i].0 < self@[m].0);
                    }
                }
                lemma_tb_find_from_miss(self@, k, 0);
            }
            assert forall|q: u64| q != k implies tb_get(tb_insert(old(self)@, k, v), q) == tb_get(
                old(self)@,
                q,
            ) by {
                lemma_tb_insert_get(old(self)@, k, v, q);
            }
        }
        let i = self.lower_from(k, 0);
        if i < self.entries.len() && self.entries[i].0 == k {
            self.entries[i] = (k, v);
        } else {
            self.entries.insert(i, (k, v));
        }
    }

    /// Remove `k`'s entry and hand its value out.
    pub fn remove(&mut self, k: u64) -> (r: Option<V>)
        requires
            old(self).wf(),
        ensures
            final(self)@ == tb_remove(old(self)@, k),
            final(self).wf(),
            tb_get(final(self)@, k) is None,
            forall|q: u64| q != k ==> tb_get(final(self)@, q) == tb_get(old(self)@, q),
            r == tb_get(old(self)@, k),
            final(self)@.len() == old(self)@.len() - (if tb_contains(old(self)@, k) {
                1int
            } else {
                0int
            }),
    {
        proof {
            lemma_tb_remove_wf(self@, k);
            lemma_tb_remove_get(self@, k, k);
            assert forall|q: u64| q != k implies tb_get(tb_remove(old(self)@, k), q) == tb_get(
                old(self)@,
                q,
            ) by {
                lemma_tb_remove_get(old(self)@, k, q);
            }
            lemma_tb_find_from(self@, k, 0);
        }
        match self.index_of(k) {
            Some(i) => Some(self.entries.remove(i).1),
            None => None,
        }
    }

    /// Replace the value at entry `i`, keeping its key.
    pub fn set_value_at(&mut self, i: usize, v: V)
        requires
            i < old(self)@.len(),
        ensures
            final(self)@ == old(self)@.update(i as int, (old(self)@[i as int].0, v)),
            old(self).wf() ==> final(self).wf(),
    {
        proof {
            if tb_wf(self@) {
                let s2 = self@.update(i as int, (self@[i as int].0, v));
                assert forall|a: int, b: int| 0 <= a < b < s2.len() implies (#[trigger] s2[a]).0 < (
                #[trigger] s2[b]).0 by {
                    assert(s2[a].0 == old(self)@[a].0 && s2[b].0 == old(self)@[b].0);
                }
            }
        }
        let k = self.entries[i].0;
        self.entries[i] = (k, v);
    }

    /// The keys in increasing order.
    pub fn keys(&self) -> (r: Vec<u64>)
        ensures
            r@ == tb_keys(self@),
    {
        let mut r: Vec<u64> = Vec::new();
        let mut i: usize = 0;
        while i < self.entries.len()
            invariant
                0 <= i <= self@.len(),
                r@ == tb_keys(self@).take(i as int),
            decreases self@.len() - i,
        {
            proof {
                assert(tb_keys(self@).take(i + 1 as int) =~= tb_keys(self@).take(i as int).push(
                    self@[i as int].0,
                ));
            }
            r.push(self.entries[i].0);
            i += 1;
        }
        proof {
            assert(tb_keys(self@).take(self@.len() as int) =~= tb_keys(self@));
        }
        r
    }
}

/// A set of `u64` ids, kept in strictly increasing order.
pub struct IdSet {
    pub table: Table<()>,
}

impl View for IdSet {
    type V = Seq<u64>;

    open spec fn view(&self) -> Seq<u64> {
        tb_keys(self.table@)
    }
}

impl IdSet {
    pub open spec fn wf(&self) -> bool {
        tb_wf(self.table@)
    }

    pub open spec fn spec_contains(&self, k: u64) -> bool {
        tb_contains(self.table@, k)
    }

    pub fn new() -> (r: Self)
        ensures
            r.table@ == Seq::<(u64, ())>::empty(),
            r.wf(),
    {
        IdSet { table: Table::new() }
    }

    pub fn len(&self) -> (r: usize)
        ensures
            r == self@.len(),
    {
        self.table.len()
    }

    pub fn contains(&self, k: u64) -> (r: bool)
        ensures
            r == self.spec_contains(k),
    {
        self.table.contains_key(k)
    }

    pub fn insert(&mut self, k: u64)
        requires
            old(self).wf(),
        ensures
            final(self).table@ == tb_insert(old(self).table@, k, ()),
            final(self).wf(),
            final(self).spec_contains(k),
            forall|q: u64| q != k ==> final(self).spec_contains(q) == old(self).spec_contains(q),
    {
        self.table.insert(k, ());
        proof {
            assert forall|q: u64| q != k implies self.spec_contains(q) == old(self).spec_contains(
                q,
            ) by {
                assert(tb_get(self.table@, q) == tb_get(old(self).table@, q));
            }
        }
    }

    /// The ids in increasing order.
    pub fn to_list(&self) -> (r: Vec<u64>)
        ensures
            r@ == self@,
    {
        self.table.keys()
    }

    pub fn duplicate(&self) -> (r: Self)
        ensures
            r.table@ == self.table@,
    {
        let mut v: Vec<(u64, ())> = Vec::new();
        let mut i: usize = 0;
        while i < self.table.entries.len()
            invariant
                0 <= i <= self.table@.len(),
                v@ == self.table@.take(i as int),
            decreases self.table@.len() - i,
        {
            proof {
                assert(self.table@.take(i + 1 as int) =~= self.table@.take(i as int).push(
                    self.table@[i as int],
                ));
            }
            let e = self.table.entries[i];
            v.push(e);
            i += 1;
        }
        proof {
            assert(self.table@.take(self.table@.len() as int) =~= self.table@);
        }
        IdSet { table: Table { entries: v } }
    }
}

} // verus!
