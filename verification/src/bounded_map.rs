//! A hash map that keeps at most a fixed number of entries and evicts the
//! entry whose key was inserted (or last re-inserted) longest ago.

use std::collections::HashMap;
use std::collections::VecDeque;
use std::hash::Hash;
use std::borrow::Borrow;
use vstd::prelude::*;
use vstd::std_specs::hash::{obeys_key_model, contains_borrowed_key, maps_borrowed_key_to_value};
use vstd::std_specs::cmp::PartialEqSpec;
use vstd::pervasive::strictly_cloned;

verus! {

broadcast use vstd::std_specs::hash::group_hash_axioms;

/// A key type whose hashing is deterministic, whose `==` is identity and whose
/// `clone` gives an identical key: the assumption under which hash maps keep
/// their model.
pub open spec fn key_model<K: PartialEq + Clone>() -> bool {
    &&& obeys_key_model::<K>()
    &&& <K as PartialEqSpec>::obeys_eq_spec()
    &&& forall|a: K, b: K| #[trigger] a.eq_spec(&b) <==> a == b
    &&& forall|a: K, b: K| #[trigger] strictly_cloned::<K>(a, b) ==> a == b
}

/// Unsigned 64-bit integers are such keys.
pub proof fn lemma_u64_key_model()
    ensures
        key_model::<u64>(),
{
    assert(obeys_key_model::<u64>());
    assert(<u64 as PartialEqSpec>::obeys_eq_spec());
    assert forall|a: u64, b: u64| #[trigger] a.eq_spec(&b) <==> a == b by {}
    assert forall|a: u64, b: u64| #[trigger] strictly_cloned::<u64>(a, b) implies a == b by {}
}

/// `s` with every occurrence of `k` removed, order kept.
pub open spec fn seq_without<K>(s: Seq<K>, k: K) -> Seq<K>
    decreases s.len(),
{
    if s.len() == 0 {
        s
    } else if s.last() == k {
        seq_without(s.drop_last(), k)
    } else {
        seq_without(s.drop_last(), k).push(s.last())
    }
}

/// The insertion order and the entries after inserting `k` with `v`:
/// `k` moves to the newest position, and when more than `bound` keys
/// are then held, the oldest one is evicted.
pub open spec fn after_insert<K, V>(order: Seq<K>, map: Map<K, V>, bound: usize, k: K, v: V) -> (Seq<K>, Map<K, V>) {
    let o = seq_without(order, k).push(k);
    let m = map.insert(k, v);
    if bound < o.len() {
        (o.drop_first(), m.remove(o[0]))
    } else {
        (o, m)
    }
}

/// The keys in insertion order are distinct, are exactly the keys of the
/// entries, and are no more than the bound.
pub open spec fn order_matches<K, V>(order: Seq<K>, map: Map<K, V>, bound: usize) -> bool {
    &&& order.no_duplicates()
    &&& forall|x: K| #[trigger] map.contains_key(x) <==> order.contains(x)
    &&& order.len() <= bound
}

proof fn lemma_without_contains<K>(s: Seq<K>, k: K)
    ensures
        forall|x: K| #[trigger] seq_without(s, k).contains(x) <==> (s.contains(x) && x != k),
    decreases s.len(),
{
    broadcast use vstd::seq_lib::lemma_seq_contains_after_push;
    if s.len() > 0 {
        let d = s.drop_last();
        lemma_without_contains(d, k);
        assert(s =~= d.push(s.last()));
        assert forall|x: K| #[trigger] seq_without(s, k).contains(x) <==> (s.contains(x) && x != k) by {
            assert(s.contains(x) <==> (d.contains(x) || s.last() == x));
            if s.last() == k {
                assert(seq_without(s, k) == seq_without(d, k));
            } else {
                assert(seq_without(s, k) == seq_without(d, k).push(s.last()));
                assert(seq_without(d, k).push(s.last()).contains(x) <==> (seq_without(d, k).contains(x) || s.last() == x));
            }
        }
    }
}

proof fn lemma_without_no_dup<K>(s: Seq<K>, k: K)
    requires
        s.no_duplicates(),
    ensures
        seq_without(s, k).no_duplicates(),
    decreases s.len(),
{
    if s.len() > 0 {
        let d = s.drop_last();
        assert(d.no_duplicates());
        lemma_without_no_dup(d, k);
        lemma_without_contains(d, k);
        if s.last() != k {
            assert(!d.contains(s.last()));
            assert(!seq_without(d, k).contains(s.last()));
        }
    }
}

proof fn lemma_without_absent<K>(s: Seq<K>, k: K)
    requires
        !s.contains(k),
    ensures
        seq_without(s, k) == s,
    decreases s.len(),
{
    if s.len() > 0 {
        assert(!s.drop_last().contains(k)) by {
            if s.drop_last().contains(k) {
                let j = choose|j: int| 0 <= j < s.drop_last().len() && s.drop_last()[j] == k;
                assert(s[j] == k);
            }
        }
        lemma_without_absent(s.drop_last(), k);
        assert(s.last() != k) by {
            assert(s[s.len() - 1] == s.last());
        }
        assert(s.drop_last().push(s.last()) =~= s);
    }
}

proof fn lemma_without_len<K>(s: Seq<K>, k: K)
    requires
        s.no_duplicates(),
    ensures
        seq_without(s, k).len() == if s.contains(k) { s.len() - 1 } else { s.len() as int },
    decreases s.len(),
{
    if !s.contains(k) {
        lemma_without_absent(s, k);
    } else if s.len() > 0 {
        let d = s.drop_last();
        assert(d.no_duplicates());
        lemma_without_len(d, k);
        if s.last() == k {
            assert(!d.contains(k)) by {
                if d.contains(k) {
                    let j = choose|j: int| 0 <= j < d.len() && d[j] == k;
                    assert(s[j] == s[s.len() - 1]);
                }
            }
        } else {
            let j = choose|j: int| 0 <= j < s.len() && s[j] == k;
            assert(j < s.len() - 1);
            assert(d[j] == k);
        }
    }
}

/// After an insertion the keys in order still match the entries.
proof fn lemma_after_insert_keeps_order<K, V>(order: Seq<K>, map: Map<K, V>, bound: usize, k: K, v: V)
    requires
        order_matches(order, map, bound),
    ensures
        order_matches(after_insert(order, map, bound, k, v).0, after_insert(order, map, bound, k, v).1, bound),
{
    let w = seq_without(order, k);
    lemma_without_contains(order, k);
    lemma_without_no_dup(order, k);
    lemma_without_len(order, k);
    let o = w.push(k);
    let m = map.insert(k, v);
    assert(!w.contains(k));
    assert(o.no_duplicates());
    assert forall|x: K| #[trigger] m.contains_key(x) <==> o.contains(x) by {
        if o.contains(x) && x != k {
            let i = choose|i: int| 0 <= i < o.len() && o[i] == x;
            assert(i < w.len());
            assert(w.contains(x));
        }
        if x == k {
            assert(o[o.len() - 1] == k);
        }
        if w.contains(x) {
            let i = choose|i: int| 0 <= i < w.len() && w[i] == x;
            assert(o[i] == x);
        }
    }
    if bound < o.len() {
        let o2 = o.drop_first();
        let m2 = m.remove(o[0]);
        assert forall|x: K| #[trigger] m2.contains_key(x) <==> o2.contains(x) by {
            if o2.contains(x) {
                let i = choose|i: int| 0 <= i < o2.len() && o2[i] == x;
                assert(o[i + 1] == x);
                assert(o.contains(x));
                assert(x != o[0]);
            }
            if m2.contains_key(x) {
                assert(o.contains(x));
                let i = choose|i: int| 0 <= i < o.len() && o[i] == x;
                assert(i != 0);
                assert(o2[i - 1] == x);
            }
        }
    }
}

/// A bounded map never holds more entries than its bound.
pub proof fn law_entries_within_bound<K, V>(order: Seq<K>, map: Map<K, V>, bound: usize)
    requires
        order_matches(order, map, bound),
    ensures
        map.dom().finite(),
        map.dom().len() <= bound,
{
    assert(map.dom() =~= order.to_set());
    order.unique_seq_to_set();
}

/// With a bound of at least one, a value just inserted can be read back under its key.
pub proof fn law_insert_then_get<K, V>(order: Seq<K>, map: Map<K, V>, bound: usize, k: K, v: V)
    requires
        order_matches(order, map, bound),
        bound > 0,
    ensures
        after_insert(order, map, bound, k, v).1.contains_key(k),
        after_insert(order, map, bound, k, v).1[k] == v,
{
    let w = seq_without(order, k);
    lemma_without_contains(order, k);
    lemma_without_no_dup(order, k);
    let o = w.push(k);
    if bound < o.len() {
        assert(o.len() >= 2);
        assert(w.len() >= 1);
        assert(w.contains(w[0]));
        assert(o[0] == w[0]);
        assert(o[0] != k);
    }
}

/// Inserting a new key into a full map evicts exactly the least recently
/// inserted key and appends the new one.
pub proof fn law_insert_into_full_evicts_oldest<K, V>(order: Seq<K>, map: Map<K, V>, bound: usize, k: K, v: V)
    requires
        order_matches(order, map, bound),
        bound > 0,
        order.len() == bound,
        !map.contains_key(k),
    ensures
        after_insert(order, map, bound, k, v).0 == order.drop_first().push(k),
        after_insert(order, map, bound, k, v).1 == map.insert(k, v).remove(order[0]),
        !after_insert(order, map, bound, k, v).1.contains_key(order[0]),
{
    assert(!order.contains(k));
    lemma_without_absent(order, k);
    let o = order.push(k);
    assert(o.drop_first() =~= order.drop_first().push(k));
    assert(o[0] == order[0]);
}

/// The keys of a sequence of insertions.
pub open spec fn keys_of<K, V>(kvs: Seq<(K, V)>) -> Seq<K> {
    kvs.map_values(|p: (K, V)| p.0)
}

/// The distinct keys of `ks`, ordered by their last occurrence.
pub open spec fn by_last_insert<K>(ks: Seq<K>) -> Seq<K>
    decreases ks.len(),
{
    if ks.len() == 0 {
        ks
    } else {
        seq_without(by_last_insert(ks.drop_last()), ks.last()).push(ks.last())
    }
}

/// The value last inserted under each key.
pub open spec fn last_values<K, V>(kvs: Seq<(K, V)>) -> Map<K, V>
    decreases kvs.len(),
{
    if kvs.len() == 0 {
        Map::empty()
    } else {
        last_values(kvs.drop_last()).insert(kvs.last().0, kvs.last().1)
    }
}

/// The keys in order and the entries after inserting `kvs` in turn, from an
/// empty map of the given bound.
pub open spec fn inserts_from_empty<K, V>(bound: usize, kvs: Seq<(K, V)>) -> (Seq<K>, Map<K, V>)
    decreases kvs.len(),
{
    if kvs.len() == 0 {
        (Seq::empty(), Map::empty())
    } else {
        let prev = inserts_from_empty(bound, kvs.drop_last());
        after_insert(prev.0, prev.1, bound, kvs.last().0, kvs.last().1)
    }
}

/// The last `n` elements of `s`, or all of them when there are fewer.
pub open spec fn newest<K>(s: Seq<K>, n: int) -> Seq<K> {
    if s.len() <= n { s } else { s.subrange(s.len() - n, s.len() as int) }
}

proof fn lemma_without_concat<K>(a: Seq<K>, c: Seq<K>, k: K)
    ensures
        seq_without(a + c, k) == seq_without(a, k) + seq_without(c, k),
    decreases c.len(),
{
    if c.len() == 0 {
        assert(a + c =~= a);
        assert(seq_without(a, k) + seq_without(c, k) =~= seq_without(a, k));
    } else {
        lemma_without_concat(a, c.drop_last(), k);
        assert((a + c).drop_last() =~= a + c.drop_last());
        assert((a + c).last() == c.last());
        if c.last() == k {
        } else {
            assert(seq_without(a, k) + seq_without(c.drop_last(), k).push(c.last())
                =~= (seq_without(a, k) + seq_without(c.drop_last(), k)).push(c.last()));
        }
    }
}

proof fn lemma_by_last_insert_no_dup<K>(ks: Seq<K>)
    ensures
        by_last_insert(ks).no_duplicates(),
    decreases ks.len(),
{
    if ks.len() > 0 {
        let prev = by_last_insert(ks.drop_last());
        lemma_by_last_insert_no_dup(ks.drop_last());
        lemma_without_no_dup(prev, ks.last());
        lemma_without_contains(prev, ks.last());
        let w = seq_without(prev, ks.last());
        assert(!w.contains(ks.last()));
        assert forall|i: int, j: int| 0 <= i < j < w.push(ks.last()).len() implies
            w.push(ks.last())[i] != w.push(ks.last())[j] by {
            if j == w.len() {
                assert(w.contains(w[i]));
            }
        }
    }
}

/// The step: inserting `k` into the newest keys of `l` gives the newest keys of
/// `l` with `k` moved to the end.
proof fn lemma_newest_step<K, V>(l: Seq<K>, map: Map<K, V>, bound: usize, k: K, v: V)
    requires
        l.no_duplicates(),
        order_matches(newest(l, bound as int), map, bound),
    ensures
        after_insert(newest(l, bound as int), map, bound, k, v).0 == newest(seq_without(l, k).push(k), bound as int),
{
    let b = bound as int;
    let o = newest(l, b);
    let p = l.subrange(0, l.len() - o.len());
    assert(l =~= p + o);
    lemma_without_concat(p, o, k);
    lemma_without_len(o, k);
    lemma_without_contains(o, k);
    lemma_without_contains(p, k);
    let w = seq_without(o, k).push(k);
    let l2 = seq_without(l, k).push(k);
    assert(l2 =~= seq_without(p, k) + w);
    if o.contains(k) {
        assert(!p.contains(k)) by {
            if p.contains(k) {
                let i = choose|i: int| 0 <= i < p.len() && p[i] == k;
                let j = choose|j: int| 0 <= j < o.len() && o[j] == k;
                assert(l[i] == l[p.len() + j]);
            }
        }
        lemma_without_absent(p, k);
        assert(w.len() == o.len());
        assert(after_insert(o, map, bound, k, v).0 == w);
        if l.len() <= b {
            assert(p.len() == 0);
            assert(l2 =~= w);
        } else {
            assert(newest(l2, b) =~= w);
        }
    } else {
        lemma_without_absent(o, k);
        assert(w =~= o.push(k));
        if w.len() <= b {
            assert(o.len() < b);
            assert(p.len() == 0);
            assert(l2 =~= seq_without(p, k) + w);
            assert(seq_without(p, k).len() == 0);
            assert(l2 =~= w);
        } else {
            assert(o.len() == b);
            assert(after_insert(o, map, bound, k, v).0 == w.drop_first());
            assert(newest(l2, b) =~= w.drop_first());
        }
    }
}

/// What a bounded map holds after any sequence of insertions into an empty map:
/// the keys are those of the `bound` most recent distinct keys (by their last
/// insertion), ordered from least to most recent; each is held with the value
/// it was last inserted with; there are never more than `bound` entries, and
/// none at all with a bound of zero.
pub proof fn law_inserts_keep_newest_keys<K, V>(bound: usize, kvs: Seq<(K, V)>)
    ensures
        ({
            let (o, m) = inserts_from_empty(bound, kvs);
            &&& o == newest(by_last_insert(keys_of(kvs)), bound as int)
            &&& order_matches(o, m, bound)
            &&& forall|x: K| #[trigger] m.contains_key(x) <==> o.contains(x)
            &&& forall|x: K| #[trigger] m.contains_key(x) ==> m[x] == last_values(kvs)[x]
            &&& m.dom().finite() && m.dom().len() <= bound
            &&& bound == 0 ==> m.dom().len() == 0
        }),
    decreases kvs.len(),
{
    let (o, m) = inserts_from_empty(bound, kvs);
    if kvs.len() == 0 {
        assert(keys_of(kvs) =~= Seq::<K>::empty());
        assert(o =~= Seq::<K>::empty());
        assert(m.dom() =~= Set::<K>::empty());
    } else {
        let init = kvs.drop_last();
        let (k, v) = kvs.last();
        law_inserts_keep_newest_keys(bound, init);
        let (o0, m0) = inserts_from_empty(bound, init);
        let l0 = by_last_insert(keys_of(init));
        assert(keys_of(kvs).drop_last() =~= keys_of(init));
        assert(keys_of(kvs).last() == k);
        lemma_by_last_insert_no_dup(keys_of(init));
        lemma_newest_step(l0, m0, bound, k, v);
        lemma_after_insert_keeps_order(o0, m0, bound, k, v);
        let w = seq_without(o0, k).push(k);
        assert forall|x: K| #[trigger] m.contains_key(x) implies m[x] == last_values(kvs)[x] by {
            if x != k {
                assert(m0.contains_key(x));
            }
        }
    }
    law_entries_within_bound(o, m, bound);
}

/// A hash map that holds at most `bound` entries, evicting the least recently inserted key.
pub struct BoundedHashMap<K, V> {
    map: HashMap<K, V>,
    order: VecDeque<K>,
    bound: usize,
}

impl<K: Eq + Hash + Clone, V> BoundedHashMap<K, V> {
    /// The entries held.
    pub closed spec fn entries(&self) -> Map<K, V> {
        self.map@
    }

    /// The keys held, from the least to the most recently inserted.
    pub closed spec fn keys_in_order(&self) -> Seq<K> {
        self.order@
    }

    /// The largest number of entries held.
    pub closed spec fn spec_bound(&self) -> usize {
        self.bound
    }

    /// Under the key model, the keys in order match the entries.
    pub open spec fn wf(&self) -> bool {
        key_model::<K>() ==> order_matches(self.keys_in_order(), self.entries(), self.spec_bound())
    }

    /// An empty map that will hold at most `bound` entries.
    pub fn with_bound(bound: usize) -> (r: Self)
        ensures
            r.wf(),
            r.entries() == Map::<K, V>::empty(),
            r.keys_in_order() == Seq::<K>::empty(),
            r.spec_bound() == bound,
    {
        let r = BoundedHashMap { map: HashMap::new(), order: VecDeque::new(), bound };
        assert(r.order@ =~= Seq::<K>::empty());
        r
    }

    /// Inserts `value` under `key`, making `key` the most recently inserted;
    /// if more than `bound` keys are then held, the least recently inserted is evicted.
    pub fn insert(&mut self, key: K, value: V)
        requires
            old(self).wf(),
        ensures
            final(self).wf(),
            final(self).spec_bound() == old(self).spec_bound(),
            key_model::<K>() ==> (final(self).keys_in_order(), final(self).entries()) == after_insert(
                old(self).keys_in_order(),
                old(self).entries(),
                old(self).spec_bound(),
                key,
                value,
            ),
    {
        let ghost old_order = self.order@;
        let ghost old_map = self.map@;
        if self.map.contains_key(&key) {
            let n = self.order.len();
            let mut kept: VecDeque<K> = VecDeque::new();
            let mut i: usize = 0;
            while i < n
                invariant
                    n == old_order.len(),
                    i <= n,
                    self.order@ == old_order.subrange(i as int, n as int),
                    key_model::<K>() ==> kept@ == seq_without(old_order.take(i as int), key),
                    self.map@ == old_map,
                    self.bound == old(self).bound,
                decreases n - i,
            {
                let x = self.order.pop_front().unwrap();
                assert(x == old_order[i as int]);
                assert(old_order.take(i + 1).drop_last() =~= old_order.take(i as int));
                if !(x == key) {
                    kept.push_back(x);
                }
                assert(self.order@ =~= old_order.subrange(i + 1, n as int));
                i = i + 1;
            }
            assert(old_order.take(n as int) =~= old_order);
            self.order = kept;
        } else {
            proof {
                if key_model::<K>() {
                    assert(!old_order.contains(key));
                    lemma_without_absent(old_order, key);
                }
            }
        }
        assert(key_model::<K>() ==> self.order@ == seq_without(old_order, key));
        assert(self.map@ == old_map);
        let k2 = key.clone();
        assert(key_model::<K>() ==> k2 == key) by {
            if key_model::<K>() {
                assert(strictly_cloned::<K>(key, k2));
            }
        }
        self.map.insert(k2, value);
        self.order.push_back(key);
        let ghost o = seq_without(old_order, key).push(key);
        let ghost m = old_map.insert(key, value);
        assert(key_model::<K>() ==> self.order@ == o && self.map@ == m);
        if self.bound < self.order.len() {
            let oldest = self.order.pop_front();
            if let Some(oldest) = oldest {
                self.map.remove(&oldest);
                assert(key_model::<K>() ==> self.order@ == o.drop_first() && self.map@ == m.remove(o[0]));
            }
        }
        proof {
            if key_model::<K>() {
                lemma_after_insert_keeps_order(old_order, old_map, self.bound, key, value);
            }
        }
    }

    /// The value held under `key`, if any.
    pub fn get<Q>(&self, key: &Q) -> (r: Option<&V>)
        where
            Q: ?Sized + Hash + Eq,
            K: Borrow<Q>,
        ensures
            key_model::<K>() ==> match r {
                Some(v) => maps_borrowed_key_to_value(self.entries(), key, *v),
                None => !contains_borrowed_key(self.entries(), key),
            },
    {
        self.map.get(key)
    }
}

} // verus!
