//! A map from string keys to values that is walked in key order.
//!
//! The model of a map is the sequence of its entries, strictly increasing by
//! key in the order of [`key_before`].

use crate::compare::Comparable;
use crate::text::key_before;
use crate::text::key_lt;
use crate::text::lemma_key_before_irreflexive;
use crate::text::lemma_key_before_total;
use crate::text::lemma_key_before_transitive;
use vstd::prelude::*;

verus! {

/// The entries of a map, as a mathematical sequence of keys and values.
pub type Entries<T> = Seq<(Seq<char>, T)>;

/// The keys of `s` are strictly increasing, hence distinct.
pub open spec fn sorted<T>(s: Entries<T>) -> bool {
    forall|i: int, j: int| 0 <= i < j < s.len() ==> key_before(#[trigger] s[i].0, #[trigger] s[j].0)
}

/// Some entry of `s` has the key `k`.
pub open spec fn has_key<T>(s: Entries<T>, k: Seq<char>) -> bool {
    exists|i: int| 0 <= i < s.len() && #[trigger] s[i].0 == k
}

/// The place of an entry with the key `k`, where there is one.
pub open spec fn index_of<T>(s: Entries<T>, k: Seq<char>) -> int {
    choose|i: int| 0 <= i < s.len() && #[trigger] s[i].0 == k
}

/// The value under the key `k`, where there is one.
pub open spec fn value_of<T>(s: Entries<T>, k: Seq<char>) -> T {
    s[index_of(s, k)].1
}

/// The entries whose key sorts before `k`.
pub open spec fn below<T>(k: Seq<char>) -> spec_fn((Seq<char>, T)) -> bool {
    |e: (Seq<char>, T)| key_before(e.0, k)
}

/// The entries whose key sorts after `k`.
pub open spec fn above<T>(k: Seq<char>) -> spec_fn((Seq<char>, T)) -> bool {
    |e: (Seq<char>, T)| key_before(k, e.0)
}

/// `s` with `v` under the key `k`, in key order; an entry that had the key
/// is replaced.
pub open spec fn with_entry<T>(s: Entries<T>, k: Seq<char>, v: T) -> Entries<T> {
    s.filter(below(k)) + seq![(k, v)] + s.filter(above(k))
}

/// The map that holds `pairs`, entered one after the other: of two pairs with
/// one key the later one stays.
pub open spec fn collect<T>(pairs: Entries<T>) -> Entries<T>
    decreases pairs.len(),
{
    if pairs.len() == 0 {
        Seq::empty()
    } else {
        with_entry(collect(pairs.drop_last()), pairs.last().0, pairs.last().1)
    }
}

/// The entries with each value replaced by its model.
pub open spec fn models<V: View>(s: Entries<V>) -> Entries<V::V> {
    s.map_values(|e: (Seq<char>, V)| (e.0, e.1@))
}

/// Where `pred` holds of the first `p` items and of no other, filtering by it
/// keeps exactly those.
pub proof fn lemma_filter_prefix<A>(s: Seq<A>, pred: spec_fn(A) -> bool, p: int)
    requires
        0 <= p <= s.len(),
        forall|i: int| 0 <= i < p ==> pred(#[trigger] s[i]),
        forall|i: int| p <= i < s.len() ==> !pred(#[trigger] s[i]),
    ensures
        s.filter(pred) == s.take(p),
    decreases s.len(),
{
    reveal(Seq::filter);
    if s.len() == 0 {
        assert(s.take(p) =~= s);
    } else if p == s.len() {
        lemma_filter_prefix(s.drop_last(), pred, p - 1);
        assert(s.drop_last().take(p - 1) =~= s.drop_last());
        assert(s.drop_last().push(s.last()) =~= s);
        assert(s.take(p) =~= s);
    } else {
        lemma_filter_prefix(s.drop_last(), pred, p);
        assert(s.drop_last().take(p) =~= s.take(p));
    }
}

/// Where `pred` holds of the items from `p` on and of no other, filtering by
/// it keeps exactly those.
pub proof fn lemma_filter_suffix<A>(s: Seq<A>, pred: spec_fn(A) -> bool, p: int)
    requires
        0 <= p <= s.len(),
        forall|i: int| 0 <= i < p ==> !pred(#[trigger] s[i]),
        forall|i: int| p <= i < s.len() ==> pred(#[trigger] s[i]),
    ensures
        s.filter(pred) == s.skip(p),
    decreases s.len(),
{
    reveal(Seq::filter);
    if s.len() == 0 {
        assert(s.skip(p) =~= s);
    } else if p == s.len() {
        lemma_filter_suffix(s.drop_last(), pred, p - 1);
        assert(s.drop_last().skip(p - 1) =~= s.skip(p));
    } else {
        lemma_filter_suffix(s.drop_last(), pred, p);
        assert(s.drop_last().skip(p).push(s.last()) =~= s.skip(p));
    }
}

/// In a sorted map the entry under a key is the only one with that key.
pub proof fn lemma_index_of<T>(s: Entries<T>, i: int)
    requires
        sorted(s),
        0 <= i < s.len(),
    ensures
        has_key(s, s[i].0),
        index_of(s, s[i].0) == i,
        value_of(s, s[i].0) == s[i].1,
{
    let j = index_of(s, s[i].0);
    lemma_key_before_irreflexive(s[i].0);
    if j < i {
        assert(key_before(s[j].0, s[i].0));
    } else if i < j {
        assert(key_before(s[i].0, s[j].0));
    }
}

/// Around the place `p` of the key `k` in a sorted map, `with_entry` keeps
/// what stands before `p` and what stands after the entry of `k`.
pub proof fn lemma_with_entry_at<T>(s: Entries<T>, k: Seq<char>, v: T, p: int)
    requires
        sorted(s),
        0 <= p <= s.len(),
        forall|i: int| 0 <= i < p ==> key_before(#[trigger] s[i].0, k),
        forall|i: int| p <= i < s.len() ==> !key_before(#[trigger] s[i].0, k),
    ensures
        p < s.len() && s[p].0 == k ==> with_entry(s, k, v) == s.update(p, (k, v)),
        !(p < s.len() && s[p].0 == k) ==> with_entry(s, k, v) == s.insert(p, (k, v)),
        sorted(with_entry(s, k, v)),
{
    let found = p < s.len() && s[p].0 == k;
    let q = if found { p + 1 } else { p };
    lemma_key_before_irreflexive(k);
    assert forall|i: int| 0 <= i < s.len() implies (i < p <==> below::<T>(k)(#[trigger] s[i])) by {}
    assert forall|i: int| 0 <= i < s.len() implies (q <= i <==> above::<T>(k)(#[trigger] s[i])) by {
        lemma_key_before_total(s[i].0, k);
        if i < p {
        } else if found && i == p {
        } else if found {
            assert(key_before(s[p].0, s[i].0));
        } else if p < i {
            if s[i].0 == k {
                assert(key_before(s[p].0, s[i].0));
            }
        }
    }
    lemma_filter_prefix(s, below(k), p);
    lemma_filter_suffix(s, above(k), q);
    let t = with_entry(s, k, v);
    assert(t == s.take(p) + seq![(k, v)] + s.skip(q));
    if found {
        assert(t =~= s.update(p, (k, v)));
    } else {
        assert(t =~= s.insert(p, (k, v)));
    }
    assert forall|i: int, j: int| 0 <= i < j < t.len() implies key_before(
        #[trigger] t[i].0,
        #[trigger] t[j].0,
    ) by {
        if j < p {
            assert(t[i] == s[i] && t[j] == s[j]);
        } else if j == p {
            assert(t[i] == s[i]);
        } else if i < p {
            assert(t[i] == s[i]);
            let jj = j - p - 1 + q;
            assert(t[j] == s[jj]);
            assert(key_before(k, s[jj].0)) by {
                assert(above::<T>(k)(s[jj]));
            }
            lemma_key_before_transitive(s[i].0, k, s[jj].0);
        } else if i == p {
            let jj = j - p - 1 + q;
            assert(t[j] == s[jj]);
            assert(above::<T>(k)(s[jj]));
        } else {
            let ii = i - p - 1 + q;
            let jj = j - p - 1 + q;
            assert(t[i] == s[ii] && t[j] == s[jj]);
        }
    }
}

/// A key that is not at its place `p` in a sorted map is nowhere in it.
pub proof fn lemma_absent_at<T>(s: Entries<T>, k: Seq<char>, p: int)
    requires
        sorted(s),
        0 <= p <= s.len(),
        forall|i: int| 0 <= i < p ==> key_before(#[trigger] s[i].0, k),
        forall|i: int| p <= i < s.len() ==> !key_before(#[trigger] s[i].0, k),
        !(p < s.len() && s[p].0 == k),
    ensures
        !has_key(s, k),
{
    lemma_key_before_irreflexive(k);
    assert forall|i: int| 0 <= i < s.len() implies #[trigger] s[i].0 != k by {
        if i < p {
        } else if s[i].0 == k {
            assert(key_before(s[p].0, s[i].0));
        }
    }
}

/// The place of the key `k` in a sorted map: the number of keys before it.
pub open spec fn rank<T>(s: Entries<T>, k: Seq<char>) -> int {
    s.filter(below(k)).len() as int
}

/// In a sorted map the keys before `k` are the first `rank(s, k)` ones.
pub proof fn lemma_rank<T>(s: Entries<T>, k: Seq<char>)
    requires
        sorted(s),
    ensures
        0 <= rank(s, k) <= s.len(),
        forall|i: int| 0 <= i < rank(s, k) ==> key_before(#[trigger] s[i].0, k),
        forall|i: int| rank(s, k) <= i < s.len() ==> !key_before(#[trigger] s[i].0, k),
    decreases s.len(),
{
    reveal(Seq::filter);
    if s.len() > 0 {
        let r = s.drop_last();
        assert forall|i: int, j: int| 0 <= i < j < r.len() implies key_before(
            #[trigger] r[i].0,
            #[trigger] r[j].0,
        ) by {
            assert(r[i] == s[i] && r[j] == s[j]);
        }
        lemma_rank(r, k);
        let p = rank(r, k);
        assert forall|i: int| 0 <= i < p implies key_before(#[trigger] s[i].0, k) by {
            assert(s[i] == r[i]);
        }
        assert forall|i: int| p <= i < r.len() implies !key_before(#[trigger] s[i].0, k) by {
            assert(s[i] == r[i]);
        }
        if key_before(s.last().0, k) {
            assert(below::<T>(k)(s.last()));
            if p < r.len() {
                assert(key_before(s[p].0, s[s.len() - 1].0));
                lemma_key_before_transitive(s[p].0, s.last().0, k);
            }
        } else {
            assert(!below::<T>(k)(s.last()));
        }
    }
}

/// Entering a key keeps a sorted map sorted; the key is then present with
/// the value given, and every other key is as it was.
pub proof fn lemma_with_entry<T>(s: Entries<T>, k: Seq<char>, v: T)
    requires
        sorted(s),
    ensures
        sorted(with_entry(s, k, v)),
        has_key(with_entry(s, k, v), k),
        value_of(with_entry(s, k, v), k) == v,
        forall|o: Seq<char>|
            o != k ==> (#[trigger] has_key(with_entry(s, k, v), o) <==> has_key(s, o)),
        forall|o: Seq<char>|
            o != k && has_key(s, o) ==> #[trigger] value_of(with_entry(s, k, v), o) == value_of(
                s,
                o,
            ),
{
    lemma_rank(s, k);
    let p = rank(s, k);
    lemma_with_entry_at(s, k, v, p);
    let t = with_entry(s, k, v);
    let found = p < s.len() && s[p].0 == k;
    assert(t[p] == (k, v));
    lemma_index_of(t, p);
    assert forall|o: Seq<char>| o != k implies (#[trigger] has_key(t, o) <==> has_key(s, o)) by {
        if has_key(t, o) {
            let i = index_of(t, o);
            if found {
                assert(s[i].0 == o);
            } else if i < p {
                assert(s[i].0 == o);
            } else {
                assert(s[i - 1].0 == o);
            }
        }
        if has_key(s, o) {
            let i = index_of(s, o);
            if found {
                assert(t[i].0 == o);
            } else if i < p {
                assert(t[i].0 == o);
            } else {
                assert(t[i + 1].0 == o);
            }
        }
    }
    assert forall|o: Seq<char>| o != k && has_key(s, o) implies #[trigger] value_of(t, o)
        == value_of(s, o) by {
        let i = index_of(s, o);
        lemma_index_of(s, i);
        if found {
            assert(t[i] == s[i]);
            lemma_index_of(t, i);
        } else if i < p {
            assert(t[i] == s[i]);
            lemma_index_of(t, i);
        } else {
            assert(t[i + 1] == s[i]);
            lemma_index_of(t, i + 1);
        }
    }
}

/// A collected map is sorted.
pub proof fn lemma_collect_sorted<T>(pairs: Entries<T>)
    ensures
        sorted(collect(pairs)),
    decreases pairs.len(),
{
    if pairs.len() > 0 {
        lemma_collect_sorted(pairs.drop_last());
        lemma_with_entry(collect(pairs.drop_last()), pairs.last().0, pairs.last().1);
    }
}

/// What holds of the value of every pair holds of every value of the map
/// collected from the pairs.
pub proof fn lemma_collect_values<T>(pairs: Entries<T>, good: spec_fn(T) -> bool)
    requires
        forall|i: int| 0 <= i < pairs.len() ==> good((#[trigger] pairs[i]).1),
    ensures
        forall|i: int| 0 <= i < collect(pairs).len() ==> good((#[trigger] collect(pairs)[i]).1),
    decreases pairs.len(),
{
    if pairs.len() > 0 {
        let rest = collect(pairs.drop_last());
        let k = pairs.last().0;
        let v = pairs.last().1;
        assert forall|i: int| 0 <= i < pairs.drop_last().len() implies good(
            (#[trigger] pairs.drop_last()[i]).1,
        ) by {
            assert(pairs.drop_last()[i] == pairs[i]);
        }
        lemma_collect_values(pairs.drop_last(), good);
        lemma_collect_sorted(pairs.drop_last());
        lemma_rank(rest, k);
        let p = rank(rest, k);
        lemma_with_entry_at(rest, k, v, p);
        let t = collect(pairs);
        assert(good(v));
        assert forall|i: int| 0 <= i < t.len() implies good((#[trigger] t[i]).1) by {
            if p < rest.len() && rest[p].0 == k {
                if i != p {
                    assert(t[i] == rest[i]);
                }
            } else if i < p {
                assert(t[i] == rest[i]);
            } else if i > p {
                assert(t[i] == rest[i - 1]);
            }
        }
    }
}

/// What a test keeps of a sorted map is sorted: filtering never changes the
/// order of the entries.
pub proof fn lemma_filter_sorted<T>(s: Entries<T>, pred: spec_fn((Seq<char>, T)) -> bool)
    requires
        sorted(s),
    ensures
        sorted(s.filter(pred)),
    decreases s.len(),
{
    reveal(Seq::filter);
    if s.len() > 0 {
        let rest = s.drop_last();
        let last = s.last();
        assert forall|i: int, j: int| 0 <= i < j < rest.len() implies key_before(
            #[trigger] rest[i].0,
            #[trigger] rest[j].0,
        ) by {
            assert(key_before(s[i].0, s[j].0));
        }
        lemma_filter_sorted(rest, pred);
        let kept = rest.filter(pred);
        if pred(last) {
            let all = kept.push(last);
            assert forall|i: int, j: int| 0 <= i < j < all.len() implies key_before(
                #[trigger] all[i].0,
                #[trigger] all[j].0,
            ) by {
                if j < kept.len() {
                    assert(key_before(kept[i].0, kept[j].0));
                } else {
                    assert(kept.contains(kept[i]));
                    rest.lemma_filter_contains_rev(pred, kept[i]);
                    let at = choose|at: int| 0 <= at < rest.len() && rest[at] == kept[i];
                    assert(key_before(s[at].0, s[s.len() - 1].0));
                }
            }
        }
    }
}

/// Filtering and then taking models gives what taking models and then
/// filtering gives, where the two tests agree.
pub proof fn lemma_filter_map_values<A, B>(
    s: Seq<A>,
    f: spec_fn(A) -> B,
    p: spec_fn(A) -> bool,
    q: spec_fn(B) -> bool,
)
    requires
        forall|a: A| p(a) == q(#[trigger] f(a)),
    ensures
        s.filter(p).map_values(f) == s.map_values(f).filter(q),
    decreases s.len(),
{
    reveal(Seq::filter);
    if s.len() == 0 {
        assert(s.filter(p).map_values(f) =~= s.map_values(f).filter(q));
    } else {
        lemma_filter_map_values(s.drop_last(), f, p, q);
        assert(s.map_values(f).drop_last() =~= s.drop_last().map_values(f));
        assert(s.map_values(f).last() == f(s.last()));
        assert(s.filter(p).map_values(f) =~= s.map_values(f).filter(q));
    }
}

/// Entering a value and taking models gives what entering its model into the
/// models gives.
pub proof fn lemma_models_with_entry<V: View>(s: Entries<V>, k: Seq<char>, v: V)
    ensures
        models(with_entry(s, k, v)) == with_entry(models(s), k, v@),
{
    let f = |e: (Seq<char>, V)| (e.0, e.1@);
    lemma_filter_map_values(s, f, below::<V>(k), below::<V::V>(k));
    lemma_filter_map_values(s, f, above::<V>(k), above::<V::V>(k));
    assert(models(with_entry(s, k, v)) =~= with_entry(models(s), k, v@));
}

/// Taking models changes no key.
pub proof fn lemma_models_keys<V: View>(s: Entries<V>)
    ensures
        models(s).len() == s.len(),
        forall|i: int| 0 <= i < s.len() ==> #[trigger] models(s)[i] == (s[i].0, s[i].1@),
        sorted(s) == sorted(models(s)),
        forall|k: Seq<char>| #[trigger] has_key(models(s), k) == has_key(s, k),
{
    let m = models(s);
    if sorted(s) {
        assert forall|i: int, j: int| 0 <= i < j < m.len() implies key_before(
            #[trigger] m[i].0,
            #[trigger] m[j].0,
        ) by {
            assert(key_before(s[i].0, s[j].0));
        }
    }
    if sorted(m) {
        assert forall|i: int, j: int| 0 <= i < j < s.len() implies key_before(
            #[trigger] s[i].0,
            #[trigger] s[j].0,
        ) by {
            assert(key_before(m[i].0, m[j].0));
        }
    }
    assert forall|k: Seq<char>| #[trigger] has_key(m, k) == has_key(s, k) by {
        if has_key(m, k) {
            let i = index_of(m, k);
            assert(s[i].0 == k);
        }
        if has_key(s, k) {
            let i = index_of(s, k);
            assert(m[i].0 == k);
        }
    }
}

/// A map from string keys to values, kept in key order.
#[derive(Debug)]
pub struct OrderedMap<V> {
    entries: Vec<(String, V)>,
}

impl<V> View for OrderedMap<V> {
    type V = Entries<V>;

    closed spec fn view(&self) -> Entries<V> {
        self.entries@.map_values(|e: (String, V)| (e.0@, e.1))
    }
}

impl<V> OrderedMap<V> {
    #[verifier::type_invariant]
    spec fn ordered(&self) -> bool {
        sorted(self@)
    }

    /// The empty map.
    pub fn new() -> (m: Self)
        ensures
            m@ == Entries::<V>::empty(),
    {
        let m = OrderedMap { entries: Vec::new() };
        assert(m@ =~= Entries::<V>::empty());
        m
    }

    /// The number of entries. The entries of every map are sorted by key.
    pub fn len(&self) -> (n: usize)
        ensures
            n == self@.len(),
            sorted(self@),
    {
        proof {
            use_type_invariant(self);
        }
        self.entries.len()
    }

    /// Does nothing: it is here for what it states, that the entries of
    /// every map are sorted by key.
    pub fn keys_sorted(&self)
        ensures
            sorted(self@),
    {
        proof {
            use_type_invariant(self);
        }
    }

    /// Whether the map holds nothing.
    pub fn is_empty(&self) -> (r: bool)
        ensures
            r == (self@.len() == 0),
    {
        self.entries.len() == 0
    }

    /// The key of the entry at place `i` in key order.
    pub fn key(&self, i: usize) -> (k: &String)
        requires
            i < self@.len(),
        ensures
            k@ == self@[i as int].0,
    {
        &self.entries[i].0
    }

    /// The value of the entry at place `i` in key order.
    pub fn value(&self, i: usize) -> (v: &V)
        requires
            i < self@.len(),
        ensures
            *v == self@[i as int].1,
    {
        &self.entries[i].1
    }

    /// The number of keys that sort before `key`.
    fn position(&self, key: &str) -> (p: usize)
        ensures
            p <= self@.len(),
            sorted(self@),
            forall|i: int| 0 <= i < p ==> key_before(#[trigger] self@[i].0, key@),
            forall|i: int| p <= i < self@.len() ==> !key_before(#[trigger] self@[i].0, key@),
    {
        proof {
            use_type_invariant(self);
        }
        let mut lo: usize = 0;
        let mut hi: usize = self.entries.len();
        while lo < hi
            invariant
                lo <= hi <= self@.len(),
                self@.len() == self.entries@.len(),
                sorted(self@),
                forall|i: int| 0 <= i < lo ==> key_before(#[trigger] self@[i].0, key@),
                forall|i: int| hi <= i < self@.len() ==> !key_before(#[trigger] self@[i].0, key@),
            decreases hi - lo,
        {
            let mid: usize = lo + (hi - lo) / 2;
            if key_lt(self.entries[mid].0.as_str(), key) {
                assert forall|i: int| 0 <= i < mid + 1 implies key_before(
                    #[trigger] self@[i].0,
                    key@,
                ) by {
                    if i < mid {
                        assert(key_before(self@[i].0, self@[mid as int].0));
                        lemma_key_before_transitive(self@[i].0, self@[mid as int].0, key@);
                    }
                }
                lo = mid + 1;
            } else {
                assert forall|i: int| mid <= i < self@.len() implies !key_before(
                    #[trigger] self@[i].0,
                    key@,
                ) by {
                    if mid < i && key_before(self@[i].0, key@) {
                        assert(key_before(self@[mid as int].0, self@[i].0));
                        lemma_key_before_transitive(self@[mid as int].0, self@[i].0, key@);
                    }
                }
                hi = mid;
            }
        }
        lo
    }

    /// The value under `key`, if the map has that key.
    pub fn get(&self, key: &str) -> (r: Option<&V>)
        ensures
            has_key(self@, key@) ==> r == Some(&value_of(self@, key@)),
            !has_key(self@, key@) ==> r is None,
    {
        let p = self.position(key);
        if p < self.entries.len() && !key_lt(key, self.entries[p].0.as_str()) {
            proof {
                lemma_key_before_total(key@, self@[p as int].0);
                lemma_index_of(self@, p as int);
            }
            Some(&self.entries[p].1)
        } else {
            proof {
                lemma_absent_at(self@, key@, p as int);
                if p < self@.len() {
                    lemma_key_before_irreflexive(key@);
                }
            }
            None
        }
    }

    /// Whether the map has `key`.
    pub fn contains_key(&self, key: &str) -> (r: bool)
        ensures
            r == has_key(self@, key@),
    {
        self.get(key).is_some()
    }

    /// Puts `value` under `key`, in place of the value that the key had, if
    /// it had one.
    pub fn insert(&mut self, key: String, value: V)
        ensures
            final(self)@ == with_entry(old(self)@, key@, value),
            sorted(final(self)@),
    {
        let p = self.position(key.as_str());
        let replace = p < self.entries.len() && !key_lt(
            key.as_str(),
            self.entries[p].0.as_str(),
        );
        let ghost before = self@;
        let ghost k = key@;
        proof {
            lemma_with_entry_at(before, k, value, p as int);
            lemma_key_before_irreflexive(k);
            if p < before.len() {
                lemma_key_before_total(k, before[p as int].0);
            }
        }
        let mut entries: Vec<(String, V)> = Vec::new();
        core::mem::swap(&mut self.entries, &mut entries);
        if replace {
            entries.set(p, (key, value));
        } else {
            entries.insert(p, (key, value));
        }
        assert(entries@.map_values(|e: (String, V)| (e.0@, e.1)) =~= with_entry(before, k, value));
        core::mem::swap(&mut self.entries, &mut entries);
    }
}

impl<V: View> OrderedMap<V> {
    /// The entries with each value replaced by its model.
    pub open spec fn model(&self) -> Entries<V::V> {
        models(self@)
    }
}

impl<V: Comparable> Clone for OrderedMap<V> {
    fn clone(&self) -> (r: Self)
        ensures
            r.model() == self.model(),
    {
        proof {
            use_type_invariant(self);
        }
        let mut entries: Vec<(String, V)> = Vec::new();
        let mut i: usize = 0;
        while i < self.entries.len()
            invariant
                i <= self.entries.len(),
                entries.len() == i,
                forall|j: int|
                    0 <= j < i ==> (#[trigger] entries[j]).0@ == self.entries[j].0@
                        && entries[j].1@ == self.entries[j].1@,
            decreases self.entries.len() - i,
        {
            let key = self.entries[i].0.clone();
            let value = self.entries[i].1.copy();
            entries.push((key, value));
            i += 1;
        }
        let ghost shallow = entries@.map_values(|e: (String, V)| (e.0@, e.1));
        proof {
            assert(models(shallow) =~= models(self@));
            lemma_models_keys(shallow);
            lemma_models_keys(self@);
        }
        OrderedMap { entries }
    }
}

} // verus!
