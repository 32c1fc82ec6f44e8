//! A string-keyed collection kept sorted by key, with a map view.
//!
//! Items are held in a `Vec` ordered strictly by key, so no key occurs twice
//! and listing returns items in key order. Its abstract value is the map from
//! key to item.

use vstd::prelude::*;
use crate::text;

verus! {

/// An item stored under a string key.
pub trait Keyed: View + Sized {
    /// Key of an item, given its view.
    spec fn spec_key(v: Self::V) -> Seq<char>;

    /// Key of this item.
    fn key(&self) -> (r: &str)
        ensures
            r@ == Self::spec_key(self@);

    /// An equal copy of this item.
    fn duplicate(&self) -> (r: Self)
        ensures
            r@ == self@;
}

/// Keys strictly increase along `s`.
pub open spec fn sorted_by_key<T: Keyed>(s: Seq<T::V>) -> bool {
    forall|i: int, j: int| 0 <= i < j < s.len() ==> text::seq_lt(T::spec_key(s[i]), T::spec_key(s[j]))
}

/// `s` holds an item with key `k`.
pub open spec fn has_key<T: Keyed>(s: Seq<T::V>, k: Seq<char>) -> bool {
    exists|i: int| 0 <= i < s.len() && T::spec_key(s[i]) == k
}

/// A position of `s` holding key `k` (meaningful when `has_key(s, k)`).
pub open spec fn key_index<T: Keyed>(s: Seq<T::V>, k: Seq<char>) -> int {
    choose|i: int| 0 <= i < s.len() && T::spec_key(s[i]) == k
}

/// The map from key to item of a key-sorted sequence.
pub open spec fn key_map<T: Keyed>(s: Seq<T::V>) -> Map<Seq<char>, T::V> {
    Map::new(|k: Seq<char>| has_key::<T>(s, k), |k: Seq<char>| s[key_index::<T>(s, k)])
}

/// Items sorted by key.
pub struct SortedStore<T: Keyed> {
    items: Vec<T>,
}

impl<T: Keyed> View for SortedStore<T> {
    type V = Seq<T::V>;

    closed spec fn view(&self) -> Seq<T::V> {
        self.items@.map_values(|x: T| x@)
    }
}

pub proof fn lemma_key_map_at<T: Keyed>(s: Seq<T::V>, i: int)
    requires
        sorted_by_key::<T>(s),
        0 <= i < s.len(),
    ensures
        key_map::<T>(s).contains_key(T::spec_key(s[i])),
        key_map::<T>(s)[T::spec_key(s[i])] == s[i],
{
    let k = T::spec_key(s[i]);
    assert(has_key::<T>(s, k));
    let j = key_index::<T>(s, k);
    assert(0 <= j < s.len() && T::spec_key(s[j]) == k);
    if j < i {
        assert(text::seq_lt(T::spec_key(s[j]), T::spec_key(s[i])));
        text::lemma_lt_irreflexive(k);
    } else if j > i {
        assert(text::seq_lt(T::spec_key(s[i]), T::spec_key(s[j])));
        text::lemma_lt_irreflexive(k);
    }
    assert(key_map::<T>(s)[k] == s[j]);
}

/// Two key-sorted sequences with the same map are equal.
pub proof fn lemma_sorted_unique<T: Keyed>(a: Seq<T::V>, b: Seq<T::V>)
    requires
        sorted_by_key::<T>(a),
        sorted_by_key::<T>(b),
        key_map::<T>(a) == key_map::<T>(b),
    ensures
        a == b,
    decreases a.len() + b.len(),
{
    if a.len() == 0 {
        if b.len() > 0 {
            lemma_key_map_at::<T>(b, 0);
        }
        assert(a =~= b);
    } else if b.len() == 0 {
        lemma_key_map_at::<T>(a, 0);
    } else {
        let ka = T::spec_key(a[0]);
        let kb = T::spec_key(b[0]);
        lemma_key_map_at::<T>(a, 0);
        lemma_key_map_at::<T>(b, 0);
        // the smallest keys agree
        let ia = choose|i: int| 0 <= i < a.len() && T::spec_key(a[i]) == kb;
        let ib = choose|i: int| 0 <= i < b.len() && T::spec_key(b[i]) == ka;
        if ka != kb {
            if ia > 0 {
                assert(text::seq_lt(ka, kb));
            }
            if ib > 0 {
                assert(text::seq_lt(kb, ka));
            }
            if ia > 0 && ib > 0 {
                text::lemma_lt_asymmetric(ka, kb);
            }
            if ia == 0 {
                text::lemma_lt_irreflexive(kb);
            }
            if ib == 0 {
                text::lemma_lt_irreflexive(ka);
            }
        }
        assert(ka == kb);
        let a1 = a.drop_first();
        let b1 = b.drop_first();
        assert forall|k: Seq<char>| key_map::<T>(a1).contains_key(k) <==> key_map::<T>(b1).contains_key(k) by {
            if has_key::<T>(a1, k) {
                let i = choose|i: int| 0 <= i < a1.len() && T::spec_key(a1[i]) == k;
                assert(T::spec_key(a[i + 1]) == k);
                assert(key_map::<T>(a).contains_key(k));
                let j = choose|j: int| 0 <= j < b.len() && T::spec_key(b[j]) == k;
                if j == 0 {
                    assert(text::seq_lt(ka, k));
                    text::lemma_lt_irreflexive(k);
                }
                assert(T::spec_key(b1[j - 1]) == k);
            }
            if has_key::<T>(b1, k) {
                let i = choose|i: int| 0 <= i < b1.len() && T::spec_key(b1[i]) == k;
                assert(T::spec_key(b[i + 1]) == k);
                assert(key_map::<T>(b).contains_key(k));
                let j = choose|j: int| 0 <= j < a.len() && T::spec_key(a[j]) == k;
                if j == 0 {
                    assert(text::seq_lt(kb, k));
                    text::lemma_lt_irreflexive(k);
                }
                assert(T::spec_key(a1[j - 1]) == k);
            }
        }
        assert forall|k: Seq<char>| key_map::<T>(a1).contains_key(k) implies key_map::<T>(a1)[k] == key_map::<T>(b1)[k] by {
            let i = choose|i: int| 0 <= i < a1.len() && T::spec_key(a1[i]) == k;
            let j = choose|j: int| 0 <= j < b1.len() && T::spec_key(b1[j]) == k;
            lemma_key_map_at::<T>(a, i + 1);
            lemma_key_map_at::<T>(b, j + 1);
            lemma_key_map_at::<T>(a1, i);
            lemma_key_map_at::<T>(b1, j);
        }
        assert(key_map::<T>(a1) =~= key_map::<T>(b1));
        lemma_sorted_unique::<T>(a1, b1);
        assert(a =~= seq![a[0]] + a1);
        assert(b =~= seq![b[0]] + b1);
    }
}

impl<T: Keyed> SortedStore<T> {
    /// Keys strictly increase.
    pub closed spec fn wf(&self) -> bool {
        sorted_by_key::<T>(self@)
    }

    /// The store as a map from key to item.
    pub open spec fn map(&self) -> Map<Seq<char>, T::V> {
        key_map::<T>(self@)
    }

    pub proof fn lemma_wf(&self)
        requires
            self.wf(),
        ensures
            sorted_by_key::<T>(self@),
    {
    }

    /// An empty store.
    pub fn new() -> (r: Self)
        ensures
            r.wf(),
            r@ == Seq::<T::V>::empty(),
            r.map() == Map::<Seq<char>, T::V>::empty(),
    {
        let r = SortedStore { items: Vec::new() };
        proof {
            assert(r@ =~= Seq::<T::V>::empty());
            assert(key_map::<T>(r@) =~= Map::<Seq<char>, T::V>::empty());
        }
        r
    }

    /// Number of items.
    pub fn len(&self) -> (r: usize)
        ensures
            r == self@.len(),
    {
        self.items.len()
    }

    /// Item at position `i` in key order.
    pub fn at(&self, i: usize) -> (r: &T)
        requires
            i < self@.len(),
        ensures
            r@ == self@[i as int],
    {
        &self.items[i]
    }

    /// Position at which `key` is, or would be inserted: every earlier key is smaller.
    fn position(&self, key: &str) -> (r: usize)
        requires
            self.wf(),
        ensures
            r <= self@.len(),
            forall|j: int| 0 <= j < r ==> text::seq_lt(T::spec_key(#[trigger] self@[j]), key@),
            r < self@.len() ==> !text::seq_lt(T::spec_key(self@[r as int]), key@),
    {
        let kc = text::chars_of(key);
        let mut i: usize = 0;
        while i < self.items.len()
            invariant
                i <= self.items@.len(),
                kc@ == key@,
                self@ == self.items@.map_values(|x: T| x@),
                forall|j: int| 0 <= j < i ==> text::seq_lt(T::spec_key(#[trigger] self@[j]), key@),
            decreases self.items.len() - i,
        {
            let ic = text::chars_of(self.items[i].key());
            if !text::lt(&ic, &kc) {
                return i;
            }
            i = i + 1;
        }
        i
    }

    /// The item stored under `key`, if any.
    pub fn get(&self, key: &str) -> (r: Option<&T>)
        requires
            self.wf(),
        ensures
            match r {
                Some(x) => self.map().contains_key(key@) && self.map()[key@] == x@,
                None => !self.map().contains_key(key@),
            },
    {
        let p = self.position(key);
        if p < self.items.len() && text::eq(self.items[p].key(), key) {
            proof {
                lemma_key_map_at::<T>(self@, p as int);
            }
            Some(&self.items[p])
        } else {
            proof {
                if has_key::<T>(self@, key@) {
                    let j = choose|j: int| 0 <= j < self@.len() && T::spec_key(self@[j]) == key@;
                    if j < p {
                        text::lemma_lt_irreflexive(key@);
                    } else if j > p {
                        assert(text::seq_lt(T::spec_key(self@[p as int]), key@) || T::spec_key(self@[p as int]) == key@) by {
                            text::lemma_lt_total(T::spec_key(self@[p as int]), key@);
                            if text::seq_lt(key@, T::spec_key(self@[p as int])) {
                                text::lemma_lt_asymmetric(key@, T::spec_key(self@[p as int]));
                            }
                        }
                    }
                }
            }
            None
        }
    }

    /// Whether an item is stored under `key`.
    pub fn contains(&self, key: &str) -> (r: bool)
        requires
            self.wf(),
        ensures
            r == self.map().contains_key(key@),
    {
        match self.get(key) {
            Some(_) => true,
            None => false,
        }
    }

    /// Stores `item` under its key, replacing any item with the same key.
    pub fn upsert(&mut self, item: T)
        requires
            old(self).wf(),
        ensures
            final(self).wf(),
            final(self).map() == old(self).map().insert(T::spec_key(item@), item@),
    {
        let ghost iv = item@;
        let ghost k = T::spec_key(item@);
        let ghost s0 = self@;
        let p = self.position(item.key());
        let replace = p < self.items.len() && text::eq(self.items[p].key(), item.key());
        if replace {
            self.items.set(p, item);
            proof {
                let s1 = self@;
                assert(s1 =~= s0.update(p as int, iv));
                assert(sorted_by_key::<T>(s1)) by {
                    assert forall|i: int, j: int| 0 <= i < j < s1.len() implies text::seq_lt(T::spec_key(s1[i]), T::spec_key(s1[j])) by {
                        assert(T::spec_key(s1[p as int]) == T::spec_key(s0[p as int]));
                    }
                }
                lemma_map_update::<T>(s0, s1, p as int, iv);
            }
        } else {
            self.items.insert(p, item);
            proof {
                let s1 = self@;
                assert(s1 =~= s0.insert(p as int, iv));
                // every key at or after `p` is larger than `k`
                assert forall|j: int| p <= j < s0.len() implies text::seq_lt(k, T::spec_key(#[trigger] s0[j])) by {
                    text::lemma_lt_total(T::spec_key(s0[p as int]), k);
                    if j > p {
                        assert(text::seq_lt(T::spec_key(s0[p as int]), T::spec_key(s0[j])));
                        text::lemma_lt_transitive(k, T::spec_key(s0[p as int]), T::spec_key(s0[j]));
                    }
                }
                assert(!has_key::<T>(s0, k)) by {
                    if has_key::<T>(s0, k) {
                        let j = choose|j: int| 0 <= j < s0.len() && T::spec_key(s0[j]) == k;
                        text::lemma_lt_irreflexive(k);
                        if j < p {
                            assert(text::seq_lt(T::spec_key(s0[j]), k));
                        } else {
                            assert(text::seq_lt(k, T::spec_key(s0[j])));
                        }
                    }
                }
                assert(sorted_by_key::<T>(s1)) by {
                    assert forall|i: int, j: int| 0 <= i < j < s1.len() implies text::seq_lt(T::spec_key(s1[i]), T::spec_key(s1[j])) by {
                        if i < p && j == p {
                            assert(text::seq_lt(T::spec_key(s0[i]), k));
                        } else if i < p && j > p {
                            assert(text::seq_lt(T::spec_key(s0[i]), k));
                            assert(text::seq_lt(k, T::spec_key(s0[j - 1])));
                            text::lemma_lt_transitive(T::spec_key(s0[i]), k, T::spec_key(s0[j - 1]));
                        } else if i == p && j > p {
                            assert(text::seq_lt(k, T::spec_key(s0[j - 1])));
                        } else if i > p {
                            assert(text::seq_lt(T::spec_key(s0[i - 1]), T::spec_key(s0[j - 1])));
                        } else {
                            assert(text::seq_lt(T::spec_key(s0[i]), T::spec_key(s0[j])));
                        }
                    }
                }
                lemma_map_insert::<T>(s0, s1, p as int, iv);
            }
        }
    }

    /// Removes the item stored under `key`; returns whether one was there.
    pub fn remove(&mut self, key: &str) -> (r: bool)
        requires
            old(self).wf(),
        ensures
            final(self).wf(),
            r == old(self).map().contains_key(key@),
            final(self).map() == old(self).map().remove(key@),
    {
        let ghost s0 = self@;
        let p = self.position(key);
        if p < self.items.len() && text::eq(self.items[p].key(), key) {
            self.items.remove(p);
            proof {
                let s1 = self@;
                assert(s1 =~= s0.remove(p as int));
                lemma_key_map_at::<T>(s0, p as int);
                lemma_map_remove::<T>(s0, s1, p as int);
            }
            true
        } else {
            proof {
                if has_key::<T>(s0, key@) {
                    let j = choose|j: int| 0 <= j < s0.len() && T::spec_key(s0[j]) == key@;
                    if j < p {
                        text::lemma_lt_irreflexive(key@);
                    } else if j > p {
                        text::lemma_lt_total(T::spec_key(s0[p as int]), key@);
                        if text::seq_lt(key@, T::spec_key(s0[p as int])) {
                            text::lemma_lt_asymmetric(key@, T::spec_key(s0[p as int]));
                        }
                    }
                }
                assert(key_map::<T>(s0).remove(key@) =~= key_map::<T>(s0));
            }
            false
        }
    }

    /// Copies of all items, in key order.
    pub fn list(&self) -> (r: Vec<T>)
        ensures
            r@.map_values(|x: T| x@) == self@,
    {
        let mut out: Vec<T> = Vec::new();
        let mut i: usize = 0;
        while i < self.items.len()
            invariant
                i <= self.items@.len(),
                self@ == self.items@.map_values(|x: T| x@),
                out@.map_values(|x: T| x@) == self@.take(i as int),
            decreases self.items.len() - i,
        {
            let c = self.items[i].duplicate();
            let ghost o = out@;
            out.push(c);
            proof {
                assert(self@[i as int] == self.items@[i as int]@);
                assert(out@ == o.push(c));
                assert(out@.map_values(|x: T| x@) =~= o.map_values(|x: T| x@).push(c@));
                assert(self@.take(i + 1) =~= self@.take(i as int).push(self@[i as int]));
            }
            i = i + 1;
        }
        proof {
            assert(self@.take(i as int) =~= self@);
        }
        out
    }

    /// Builds a store from a list; a later item replaces an earlier one with the same key.
    pub fn from_vec(items: Vec<T>) -> (r: Self)
        ensures
            r.wf(),
            r.map() == fold_insert::<T>(Map::empty(), items@.map_values(|x: T| x@)),
    {
        let mut r = Self::new();
        let mut items = items;
        let ghost all = items@.map_values(|x: T| x@);
        let ghost n = all.len();
        while items.len() > 0
            invariant
                r.wf(),
                n == all.len(),
                items@.len() <= n,
                items@.map_values(|x: T| x@) == all.skip(n - items@.len()),
                r.map() == fold_insert::<T>(Map::empty(), all.take(n - items@.len())),
            decreases items.len(),
        {
            let ghost before = items@;
            let ghost i = n - before.len();
            let x = items.remove(0);
            proof {
                assert(before.map_values(|y: T| y@)[0] == x@);
                assert(all[i] == x@);
                assert(items@ =~= before.drop_first());
                assert(before.map_values(|y: T| y@) == all.skip(i));
                assert(items@.map_values(|y: T| y@) =~= before.map_values(|y: T| y@).drop_first());
                assert(all.skip(i).drop_first() =~= all.skip(i + 1));
                assert(all.take(i + 1) =~= all.take(i).push(x@));
                lemma_fold_insert_push::<T>(Map::empty(), all.take(i), x@);
            }
            r.upsert(x);
        }
        proof {
            assert(all.take(n as int) =~= all);
        }
        r
    }
}

/// The map after inserting each item of `s` in order (later items win).
pub open spec fn fold_insert<T: Keyed>(m: Map<Seq<char>, T::V>, s: Seq<T::V>) -> Map<Seq<char>, T::V>
    decreases s.len(),
{
    if s.len() == 0 {
        m
    } else {
        fold_insert::<T>(m, s.drop_last()).insert(T::spec_key(s.last()), s.last())
    }
}

/// Looking a key up after inserting `s` into `m`: the last item of `s` with that
/// key when there is one, else what `m` held.
pub proof fn lemma_fold_insert_lookup<T: Keyed>(m: Map<Seq<char>, T::V>, s: Seq<T::V>, k: Seq<char>)
    ensures
        !has_key::<T>(s, k) ==> (fold_insert::<T>(m, s).contains_key(k) == m.contains_key(k)
            && (m.contains_key(k) ==> fold_insert::<T>(m, s)[k] == m[k])),
        has_key::<T>(s, k) ==> fold_insert::<T>(m, s).contains_key(k) && exists|j: int|
            0 <= j < s.len() && T::spec_key(s[j]) == k && fold_insert::<T>(m, s)[k] == s[j]
            && forall|j2: int| j < j2 < s.len() ==> T::spec_key(#[trigger] s[j2]) != k,
    decreases s.len(),
{
    if s.len() > 0 {
        let p = s.drop_last();
        let n = s.len() - 1;
        lemma_fold_insert_lookup::<T>(m, p, k);
        if T::spec_key(s.last()) == k {
            assert(T::spec_key(s[n]) == k);
        } else {
            if has_key::<T>(s, k) {
                let i = choose|i: int| 0 <= i < s.len() && T::spec_key(s[i]) == k;
                assert(p[i] == s[i]);
                assert(has_key::<T>(p, k));
                let j = choose|j: int|
                    0 <= j < p.len() && T::spec_key(p[j]) == k && fold_insert::<T>(m, p)[k] == p[j]
                    && forall|j2: int| j < j2 < p.len() ==> T::spec_key(#[trigger] p[j2]) != k;
                assert(s[j] == p[j]);
                assert forall|j2: int| j < j2 < s.len() implies T::spec_key(#[trigger] s[j2]) != k by {
                    if j2 < n {
                        assert(s[j2] == p[j2]);
                    }
                }
            } else {
                assert forall|i: int| 0 <= i < p.len() implies T::spec_key(p[i]) != k by {
                    assert(p[i] == s[i]);
                }
            }
        }
    }
}

pub proof fn lemma_fold_insert_push<T: Keyed>(m: Map<Seq<char>, T::V>, s: Seq<T::V>, x: T::V)
    ensures
        fold_insert::<T>(m, s.push(x)) == fold_insert::<T>(m, s).insert(T::spec_key(x), x),
{
    assert(s.push(x).drop_last() =~= s);
}

proof fn lemma_map_update<T: Keyed>(s0: Seq<T::V>, s1: Seq<T::V>, p: int, v: T::V)
    requires
        sorted_by_key::<T>(s0),
        sorted_by_key::<T>(s1),
        0 <= p < s0.len(),
        T::spec_key(s0[p]) == T::spec_key(v),
        s1 == s0.update(p, v),
    ensures
        key_map::<T>(s1) == key_map::<T>(s0).insert(T::spec_key(v), v),
{
    let k = T::spec_key(v);
    let m0 = key_map::<T>(s0);
    let m1 = key_map::<T>(s1);
    assert forall|q: Seq<char>| m1.contains_key(q) <==> m0.insert(k, v).contains_key(q) by {
        if has_key::<T>(s0, q) {
            let i = choose|i: int| 0 <= i < s0.len() && T::spec_key(s0[i]) == q;
            if i == p {
                assert(T::spec_key(s1[p]) == q);
            } else {
                assert(T::spec_key(s1[i]) == q);
            }
        }
        if has_key::<T>(s1, q) {
            let i = choose|i: int| 0 <= i < s1.len() && T::spec_key(s1[i]) == q;
            if i != p {
                assert(T::spec_key(s0[i]) == q);
            }
        }
    }
    assert forall|q: Seq<char>| m1.contains_key(q) implies m1[q] == m0.insert(k, v)[q] by {
        let i = choose|i: int| 0 <= i < s1.len() && T::spec_key(s1[i]) == q;
        lemma_key_map_at::<T>(s1, i);
        if i != p {
            lemma_key_map_at::<T>(s0, i);
            if q == k {
                text::lemma_lt_irreflexive(k);
                if i < p {
                    assert(text::seq_lt(T::spec_key(s1[i]), T::spec_key(s1[p])));
                } else {
                    assert(text::seq_lt(T::spec_key(s1[p]), T::spec_key(s1[i])));
                }
            }
        } else {
            assert(s1[p] == v);
        }
    }
    assert(m1 =~= m0.insert(k, v));
}

proof fn lemma_map_insert<T: Keyed>(s0: Seq<T::V>, s1: Seq<T::V>, p: int, v: T::V)
    requires
        sorted_by_key::<T>(s0),
        sorted_by_key::<T>(s1),
        0 <= p <= s0.len(),
        !has_key::<T>(s0, T::spec_key(v)),
        s1 == s0.insert(p, v),
    ensures
        key_map::<T>(s1) == key_map::<T>(s0).insert(T::spec_key(v), v),
{
    let k = T::spec_key(v);
    let m0 = key_map::<T>(s0);
    let m1 = key_map::<T>(s1);
    assert(T::spec_key(s1[p]) == k);
    assert forall|q: Seq<char>| m1.contains_key(q) <==> m0.insert(k, v).contains_key(q) by {
        if has_key::<T>(s0, q) {
            let i = choose|i: int| 0 <= i < s0.len() && T::spec_key(s0[i]) == q;
            if i < p {
                assert(T::spec_key(s1[i]) == q);
            } else {
                assert(T::spec_key(s1[i + 1]) == q);
            }
        }
        if has_key::<T>(s1, q) {
            let i = choose|i: int| 0 <= i < s1.len() && T::spec_key(s1[i]) == q;
            if i < p {
                assert(T::spec_key(s0[i]) == q);
            } else if i > p {
                assert(T::spec_key(s0[i - 1]) == q);
            }
        }
    }
    assert forall|q: Seq<char>| m1.contains_key(q) implies m1[q] == m0.insert(k, v)[q] by {
        let i = choose|i: int| 0 <= i < s1.len() && T::spec_key(s1[i]) == q;
        lemma_key_map_at::<T>(s1, i);
        if i < p {
            lemma_key_map_at::<T>(s0, i);
        } else if i > p {
            lemma_key_map_at::<T>(s0, i - 1);
        }
    }
    assert(m1 =~= m0.insert(k, v));
}

proof fn lemma_map_remove<T: Keyed>(s0: Seq<T::V>, s1: Seq<T::V>, p: int)
    requires
        sorted_by_key::<T>(s0),
        0 <= p < s0.len(),
        s1 == s0.remove(p),
    ensures
        sorted_by_key::<T>(s1),
        key_map::<T>(s1) == key_map::<T>(s0).remove(T::spec_key(s0[p])),
{
    let k = T::spec_key(s0[p]);
    let m0 = key_map::<T>(s0);
    let m1 = key_map::<T>(s1);
    assert(sorted_by_key::<T>(s1)) by {
        assert forall|i: int, j: int| 0 <= i < j < s1.len() implies text::seq_lt(T::spec_key(s1[i]), T::spec_key(s1[j])) by {
            let i0 = if i < p { i } else { i + 1 };
            let j0 = if j < p { j } else { j + 1 };
            assert(s1[i] == s0[i0]);
            assert(s1[j] == s0[j0]);
        }
    }
    assert forall|q: Seq<char>| m1.contains_key(q) <==> m0.remove(k).contains_key(q) by {
        if has_key::<T>(s0, q) && q != k {
            let i = choose|i: int| 0 <= i < s0.len() && T::spec_key(s0[i]) == q;
            if i < p {
                assert(T::spec_key(s1[i]) == q);
            } else if i > p {
                assert(T::spec_key(s1[i - 1]) == q);
            }
        }
        if has_key::<T>(s1, q) {
            let i = choose|i: int| 0 <= i < s1.len() && T::spec_key(s1[i]) == q;
            if i < p {
                assert(T::spec_key(s0[i]) == q);
                text::lemma_lt_irreflexive(q);
            } else {
                assert(T::spec_key(s0[i + 1]) == q);
                text::lemma_lt_irreflexive(q);
            }
        }
    }
    assert forall|q: Seq<char>| m1.contains_key(q) implies m1[q] == m0.remove(k)[q] by {
        let i = choose|i: int| 0 <= i < s1.len() && T::spec_key(s1[i]) == q;
        lemma_key_map_at::<T>(s1, i);
        if i < p {
            lemma_key_map_at::<T>(s0, i);
        } else {
            lemma_key_map_at::<T>(s0, i + 1);
        }
    }
    assert(m1 =~= m0.remove(k));
}

// ---------------------------------------------------------------------------
// Sorted sets of strings
// ---------------------------------------------------------------------------

impl Keyed for String {
    open spec fn spec_key(v: Seq<char>) -> Seq<char> {
        v
    }

    fn key(&self) -> (r: &str) {
        self.as_str()
    }

    fn duplicate(&self) -> (r: String) {
        self.clone()
    }
}

/// Strings strictly increase along `s` (so none occurs twice).
pub open spec fn strictly_sorted(s: Seq<Seq<char>>) -> bool {
    forall|i: int, j: int| 0 <= i < j < s.len() ==> text::seq_lt(s[i], s[j])
}

proof fn lemma_fold_insert_dom<T: Keyed>(s: Seq<T::V>)
    ensures
        forall|k: Seq<char>| fold_insert::<T>(Map::empty(), s).contains_key(k) <==> has_key::<T>(s, k),
    decreases s.len(),
{
    if s.len() > 0 {
        lemma_fold_insert_dom::<T>(s.drop_last());
        assert forall|k: Seq<char>| fold_insert::<T>(Map::empty(), s).contains_key(k) <==> has_key::<T>(s, k) by {
            if has_key::<T>(s, k) {
                let i = choose|i: int| 0 <= i < s.len() && T::spec_key(s[i]) == k;
                if i < s.len() - 1 {
                    assert(T::spec_key(s.drop_last()[i]) == k);
                }
            }
            if has_key::<T>(s.drop_last(), k) {
                let i = choose|i: int| 0 <= i < s.drop_last().len() && T::spec_key(s.drop_last()[i]) == k;
                assert(T::spec_key(s[i]) == k);
            }
        }
    }
}

/// The distinct strings of `v`, in increasing order (`sort` then `dedup`).
pub fn sorted_unique(v: Vec<String>) -> (r: Vec<String>)
    ensures
        strictly_sorted(text::strings_view(r@)),
        text::strings_view(r@).to_set() == text::strings_view(v@).to_set(),
{
    let ghost vs = v@.map_values(|x: String| x@);
    proof {
        assert(vs =~= text::strings_view(v@));
    }
    let st: SortedStore<String> = SortedStore::from_vec(v);
    proof {
        st.lemma_wf();
        lemma_fold_insert_dom::<String>(vs);
    }
    let r = st.list();
    proof {
        let rs = text::strings_view(r@);
        assert(rs =~= st@);
        assert(st.map() == fold_insert::<String>(Map::empty(), vs));
        assert forall|i: int, j: int| 0 <= i < j < rs.len() implies text::seq_lt(rs[i], rs[j]) by {
            assert(text::seq_lt(String::spec_key(st@[i]), String::spec_key(st@[j])));
        }
        assert forall|x: Seq<char>| rs.to_set().contains(x) <==> vs.to_set().contains(x) by {
            if rs.contains(x) {
                let i = choose|i: int| 0 <= i < rs.len() && rs[i] == x;
                assert(has_key::<String>(st@, x));
                assert(st.map().contains_key(x));
                assert(has_key::<String>(vs, x));
                let j = choose|j: int| 0 <= j < vs.len() && String::spec_key(vs[j]) == x;
                assert(vs[j] == x);
                assert(vs.contains(x));
            }
            if vs.contains(x) {
                let j = choose|j: int| 0 <= j < vs.len() && vs[j] == x;
                assert(has_key::<String>(vs, x));
                assert(st.map().contains_key(x));
                let i = choose|i: int| 0 <= i < st@.len() && String::spec_key(st@[i]) == x;
                assert(rs[i] == x);
            }
        }
        assert(rs.to_set() =~= vs.to_set());
    }
    r
}

/// Two strictly increasing string sequences with the same elements are equal.
pub proof fn lemma_sorted_set_unique(a: Seq<Seq<char>>, b: Seq<Seq<char>>)
    requires
        strictly_sorted(a),
        strictly_sorted(b),
        a.to_set() == b.to_set(),
    ensures
        a == b,
{
    assert(sorted_by_key::<String>(a)) by {
        assert forall|i: int, j: int| 0 <= i < j < a.len() implies text::seq_lt(String::spec_key(a[i]), String::spec_key(a[j])) by {
            assert(text::seq_lt(a[i], a[j]));
        }
    }
    assert(sorted_by_key::<String>(b)) by {
        assert forall|i: int, j: int| 0 <= i < j < b.len() implies text::seq_lt(String::spec_key(b[i]), String::spec_key(b[j])) by {
            assert(text::seq_lt(b[i], b[j]));
        }
    }
    assert forall|k: Seq<char>| key_map::<String>(a).contains_key(k) <==> key_map::<String>(b).contains_key(k) by {
        if has_key::<String>(a, k) {
            let i = choose|i: int| 0 <= i < a.len() && String::spec_key(a[i]) == k;
            assert(a[i] == k);
            assert(a.to_set().contains(k));
            assert(b.contains(k));
            let j = choose|j: int| 0 <= j < b.len() && b[j] == k;
            assert(String::spec_key(b[j]) == k);
        }
        if has_key::<String>(b, k) {
            let i = choose|i: int| 0 <= i < b.len() && String::spec_key(b[i]) == k;
            assert(b[i] == k);
            assert(b.to_set().contains(k));
            assert(a.contains(k));
            let j = choose|j: int| 0 <= j < a.len() && a[j] == k;
            assert(String::spec_key(a[j]) == k);
        }
    }
    assert forall|k: Seq<char>| key_map::<String>(a).contains_key(k) implies key_map::<String>(a)[k] == key_map::<String>(b)[k] by {
        let i = key_index::<String>(a, k);
        let j = key_index::<String>(b, k);
        assert(String::spec_key(a[i]) == k);
        assert(String::spec_key(b[j]) == k);
    }
    assert(key_map::<String>(a) =~= key_map::<String>(b));
    lemma_sorted_unique::<String>(a, b);
}

} // verus!
