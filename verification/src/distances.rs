//! A small association table from tile positions to hex-step distances,
//! kept in insertion order so that every walk over it is deterministic.

use vstd::prelude::*;
use crate::map_position::{MapUnit, TilePosition};

verus! {

/// Index of the first entry for `p` at or after `i`, or -1 if there is none.
pub open spec fn dm_find_from(s: Seq<(TilePosition, MapUnit)>, p: TilePosition, i: int) -> int
    decreases s.len() - i,
{
    if i < 0 || i >= s.len() {
        -1
    } else if s[i].0 == p {
        i
    } else {
        dm_find_from(s, p, i + 1)
    }
}

/// Index of the entry for `p`, or -1 if there is none.
pub open spec fn dm_find(s: Seq<(TilePosition, MapUnit)>, p: TilePosition) -> int {
    dm_find_from(s, p, 0)
}

pub open spec fn dm_contains(s: Seq<(TilePosition, MapUnit)>, p: TilePosition) -> bool {
    dm_find(s, p) >= 0
}

/// The recorded distance for `p`, if any.
pub open spec fn dm_get(s: Seq<(TilePosition, MapUnit)>, p: TilePosition) -> Option<MapUnit> {
    let i = dm_find(s, p);
    if i >= 0 {
        Some(s[i].1)
    } else {
        None
    }
}

/// The table with `p` bound to `v`: overwrites the entry for `p` in place,
/// or appends a new one.
pub open spec fn dm_insert(
    s: Seq<(TilePosition, MapUnit)>,
    p: TilePosition,
    v: MapUnit,
) -> Seq<(TilePosition, MapUnit)> {
    let i = dm_find(s, p);
    if i >= 0 {
        s.update(i, (p, v))
    } else {
        s.push((p, v))
    }
}

/// No position occurs twice.
pub open spec fn dm_wf(s: Seq<(TilePosition, MapUnit)>) -> bool {
    forall|i: int, j: int| 0 <= i < j < s.len() ==> (#[trigger] s[i]).0 != (#[trigger] s[j]).0
}

/// Every entry's distance is in `[0, maxv]` and its position is in range.
pub open spec fn dm_bounded(s: Seq<(TilePosition, MapUnit)>, maxv: int) -> bool {
    forall|i: int|
        0 <= i < s.len() ==> 0 <= (#[trigger] s[i]).1 <= maxv && s[i].0.in_range()
}

/// What a find result means: a hit names the first entry for `p` from `i`
/// on; a miss means no entry for `p` from `i` on.
pub proof fn lemma_dm_find_from(s: Seq<(TilePosition, MapUnit)>, p: TilePosition, i: int)
    requires
        0 <= i <= s.len(),
    ensures
        dm_find_from(s, p, i) == -1 || i <= dm_find_from(s, p, i) < s.len(),
        dm_find_from(s, p, i) == -1 ==> forall|k: int| i <= k < s.len() ==> (#[trigger] s[k]).0 != p,
        dm_find_from(s, p, i) >= 0 ==> i <= dm_find_from(s, p, i) < s.len() && s[dm_find_from(
            s,
            p,
            i,
        )].0 == p && forall|k: int| i <= k < dm_find_from(s, p, i) ==> (#[trigger] s[k]).0 != p,
    decreases s.len() - i,
{
    if i < s.len() && s[i].0 != p {
        lemma_dm_find_from(s, p, i + 1);
    }
}

/// Inserting keeps the table free of duplicate positions.
pub proof fn lemma_dm_insert_wf(s: Seq<(TilePosition, MapUnit)>, p: TilePosition, v: MapUnit)
    requires
        dm_wf(s),
    ensures
        dm_wf(dm_insert(s, p, v)),
{
    lemma_dm_find_from(s, p, 0);
}

/// Inserting keeps every bound that the new entry also satisfies.
pub proof fn lemma_dm_insert_bounded(
    s: Seq<(TilePosition, MapUnit)>,
    p: TilePosition,
    v: MapUnit,
    maxv: int,
)
    requires
        dm_bounded(s, maxv),
        0 <= v <= maxv,
        p.in_range(),
    ensures
        dm_bounded(dm_insert(s, p, v), maxv),
{
    lemma_dm_find_from(s, p, 0);
}

/// A find lands exactly on the first matching index.
pub proof fn lemma_dm_find_from_exact(
    s: Seq<(TilePosition, MapUnit)>,
    p: TilePosition,
    i: int,
    j: int,
)
    requires
        0 <= i <= j < s.len(),
        s[j].0 == p,
        forall|k: int| i <= k < j ==> (#[trigger] s[k]).0 != p,
    ensures
        dm_find_from(s, p, i) == j,
    decreases j - i,
{
    if i < j {
        lemma_dm_find_from_exact(s, p, i + 1, j);
    }
}

/// A find misses when no entry matches.
pub proof fn lemma_dm_find_from_miss(s: Seq<(TilePosition, MapUnit)>, p: TilePosition, i: int)
    requires
        0 <= i,
        forall|k: int| i <= k < s.len() ==> (#[trigger] s[k]).0 != p,
    ensures
        dm_find_from(s, p, i) == -1,
    decreases s.len() - i,
{
    if i < s.len() {
        lemma_dm_find_from_miss(s, p, i + 1);
    }
}

/// After an insert, `p` is present with value `v` and every other
/// position keeps its old binding.
pub proof fn lemma_dm_insert_get(
    s: Seq<(TilePosition, MapUnit)>,
    p: TilePosition,
    v: MapUnit,
    q: TilePosition,
)
    requires
        dm_wf(s),
    ensures
        dm_get(dm_insert(s, p, v), p) == Some(v),
        q != p ==> dm_get(dm_insert(s, p, v), q) == dm_get(s, q),
{
    let i = dm_find(s, p);
    let s2 = dm_insert(s, p, v);
    lemma_dm_find_from(s, p, 0);
    if i >= 0 {
        assert(s2 == s.update(i, (p, v)));
        lemma_dm_find_from_exact(s2, p, 0, i);
        if q != p {
            let j = dm_find(s, q);
            lemma_dm_find_from(s, q, 0);
            if j >= 0 {
                assert(j != i);
                assert(s2[j].0 == q);
                assert forall|k: int| 0 <= k < j implies (#[trigger] s2[k]).0 != q by {
                    if k != i {
                        assert(s2[k] == s[k]);
                    }
                }
                lemma_dm_find_from_exact(s2, q, 0, j);
            } else {
                assert forall|k: int| 0 <= k < s2.len() implies (#[trigger] s2[k]).0 != q by {
                    if k != i {
                        assert(s2[k] == s[k]);
                    }
                }
                lemma_dm_find_from_miss(s2, q, 0);
            }
        }
    } else {
        assert(s2 == s.push((p, v)));
        assert(s2[s.len() as int].0 == p);
        assert forall|k: int| 0 <= k < s.len() implies (#[trigger] s2[k]).0 != p by {
            assert(s2[k] == s[k]);
        }
        lemma_dm_find_from_exact(s2, p, 0, s.len() as int);
        if q != p {
            let j = dm_find(s, q);
            lemma_dm_find_from(s, q, 0);
            if j >= 0 {
                assert(s2[j].0 == q);
                assert forall|k: int| 0 <= k < j implies (#[trigger] s2[k]).0 != q by {
                    assert(s2[k] == s[k]);
                }
                lemma_dm_find_from_exact(s2, q, 0, j);
            } else {
                assert forall|k: int| 0 <= k < s2.len() implies (#[trigger] s2[k]).0 != q by {
                    if k < s.len() {
                        assert(s2[k] == s[k]);
                    }
                }
                lemma_dm_find_from_miss(s2, q, 0);
            }
        }
    }
}

/// A property of every entry survives an insert whose new entry has it.
pub proof fn lemma_dm_insert_all(
    s: Seq<(TilePosition, MapUnit)>,
    p: TilePosition,
    v: MapUnit,
    pred: spec_fn((TilePosition, MapUnit)) -> bool,
)
    requires
        forall|j: int| 0 <= j < s.len() ==> pred(#[trigger] s[j]),
        pred((p, v)),
    ensures
        forall|j: int|
            0 <= j < dm_insert(s, p, v).len() ==> pred(#[trigger] dm_insert(s, p, v)[j]),
{
    lemma_dm_find_from(s, p, 0);
    let i = dm_find(s, p);
    let s2 = dm_insert(s, p, v);
    assert forall|j: int| 0 <= j < s2.len() implies pred(s2[j]) by {
        if i >= 0 {
            if j != i {
                assert(s2[j] == s[j]);
            }
        } else {
            if j < s.len() {
                assert(s2[j] == s[j]);
            }
        }
    }
}

/// In a well-formed table, every entry is what a lookup of its key finds.
pub proof fn lemma_dm_entry_get(s: Seq<(TilePosition, MapUnit)>, i: int)
    requires
        dm_wf(s),
        0 <= i < s.len(),
    ensures
        dm_get(s, s[i].0) == Some(s[i].1),
        dm_contains(s, s[i].0),
{
    assert forall|m: int| 0 <= m < i implies (#[trigger] s[m]).0 != s[i].0 by {}
    lemma_dm_find_from_exact(s, s[i].0, 0, i);
}

/// Whatever is in the table stays in it through an insert.
pub proof fn lemma_dm_insert_contains(
    s: Seq<(TilePosition, MapUnit)>,
    p: TilePosition,
    v: MapUnit,
    q: TilePosition,
)
    requires
        dm_wf(s),
        dm_contains(s, q),
    ensures
        dm_contains(dm_insert(s, p, v), q),
{
    lemma_dm_insert_get(s, p, v, q);
}

/// An association table from positions to distances.
pub struct Distances {
    pub entries: Vec<(TilePosition, MapUnit)>,
}

impl View for Distances {
    type V = Seq<(TilePosition, MapUnit)>;

    open spec fn view(&self) -> Seq<(TilePosition, MapUnit)> {
        self.entries@
    }
}

impl Distances {
    pub fn new() -> (r: Self)
        ensures
            r@ == Seq::<(TilePosition, MapUnit)>::empty(),
    {
        Distances { entries: Vec::new() }
    }

    pub fn len(&self) -> (r: usize)
        ensures
            r == self@.len(),
    {
        self.entries.len()
    }

    fn find_from(&self, p: TilePosition, i: usize) -> (r: Option<usize>)
        requires
            i <= self@.len(),
        ensures
            match r {
                Some(k) => k == dm_find_from(self@, p, i as int),
                None => dm_find_from(self@, p, i as int) == -1,
            },
        decreases self@.len() - i,
    {
        if i >= self.entries.len() {
            None
        } else if self.entries[i].0 == p {
            Some(i)
        } else {
            self.find_from(p, i + 1)
        }
    }

    pub fn get(&self, p: TilePosition) -> (r: Option<MapUnit>)
        ensures
            r == dm_get(self@, p),
    {
        match self.find_from(p, 0) {
            Some(k) => {
                proof {
                    lemma_dm_find_from(self@, p, 0);
                }
                Some(self.entries[k].1)
            },
            None => None,
        }
    }

    pub fn contains(&self, p: TilePosition) -> (r: bool)
        ensures
            r == dm_contains(self@, p),
    {
        self.find_from(p, 0).is_some()
    }

    pub fn duplicate(&self) -> (r: Self)
        ensures
            r@ == self@,
    {
        let mut v: Vec<(TilePosition, MapUnit)> = Vec::new();
        let mut i: usize = 0;
        while i < self.entries.len()
            invariant
                0 <= i <= self@.len(),
                v@ == self@.take(i as int),
            decreases self@.len() - i,
        {
            proof {
                assert(self@.take(i + 1 as int) =~= self@.take(i as int).push(self@[i as int]));
            }
            v.push(self.entries[i]);
            i += 1;
        }
        proof {
            assert(self@.take(self@.len() as int) =~= self@);
        }
        Distances { entries: v }
    }

    pub fn insert(&mut self, p: TilePosition, v: MapUnit)
        ensures
            final(self)@ == dm_insert(old(self)@, p, v),
    {
        let found = self.find_from(p, 0);
        match found {
            Some(k) => {
                proof {
                    lemma_dm_find_from(self@, p, 0);
                }
                self.entries[k] = (p, v);
            },
            None => {
                self.entries.push((p, v));
            },
        }
    }
}

} // verus!
