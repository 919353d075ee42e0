//! What the diff of two maps is where they differ by one entry only: one
//! entry more, one entry less, or another value under one key.

use crate::compare::Comparable;
use crate::diff::absent_from;
use crate::diff::added_texts;
use crate::diff::bag_text;
use crate::diff::banner;
use crate::diff::beside;
use crate::diff::changed;
use crate::diff::child_texts;
use crate::diff::common_of;
use crate::diff::descend;
use crate::diff::entry_value;
use crate::diff::no_children;
use crate::diff::pair_maps;
use crate::diff::present_in;
use crate::diff::removed_texts;
use crate::diff::updated_of;
use crate::diff::updated_texts;
use crate::diff::Render;
use crate::diff::Sql;
use crate::ordered::has_key;
use crate::ordered::lemma_filter_prefix;
use crate::ordered::lemma_index_of;
use crate::ordered::lemma_rank;
use crate::ordered::lemma_with_entry_at;
use crate::ordered::rank;
use crate::ordered::sorted;
use crate::ordered::with_entry;
use crate::text::lemma_concat_empty;
use crate::text::lemma_concat_one;
use crate::ordered::Entries;
use vstd::prelude::*;

verus! {

/// Two maps have the same keys, place by place.
pub open spec fn same_keys<T>(a: Entries<T>, b: Entries<T>) -> bool {
    &&& a.len() == b.len()
    &&& forall|i: int| 0 <= i < a.len() ==> (#[trigger] a[i]).0 == b[i].0
}

/// The diff of two maps with the same keys: nothing is added or removed, and
/// each old value is paired with the new value at its place.
pub proof fn lemma_pair_same_keys<C: Comparable, K>(
    old: Entries<C::V>,
    new: Entries<C::V>,
    recurse: spec_fn(C::V, C::V) -> K,
)
    requires
        sorted(old),
        same_keys(old, new),
    ensures
        pair_maps::<C, K>(old, new, recurse).added.len() == 0,
        pair_maps::<C, K>(old, new, recurse).removed.len() == 0,
        common_of(old, new).len() == old.len(),
        forall|i: int|
            0 <= i < old.len() ==> #[trigger] common_of(old, new)[i] == (old[i].1, new[i].1),
        pair_maps::<C, K>(old, new, recurse).children.len() == old.len(),
        forall|i: int|
            0 <= i < old.len() ==> #[trigger] pair_maps::<C, K>(old, new, recurse).children[i]
                == recurse(old[i].1, new[i].1),
{
    assert forall|i: int| 0 <= i < new.len() implies present_in(old)(#[trigger] new[i])
        && !absent_from(old)(new[i]) by {
        assert(old[i].0 == new[i].0);
    }
    assert forall|i: int| 0 <= i < old.len() implies !absent_from(new)(#[trigger] old[i]) by {
        assert(new[i].0 == old[i].0);
    }
    lemma_filter_prefix(new, absent_from(old), 0);
    lemma_filter_prefix(new, present_in(old), new.len() as int);
    lemma_filter_prefix(old, absent_from(new), 0);
    assert(new.take(0) =~= Seq::empty());
    assert(old.take(0) =~= Seq::empty());
    assert(new.take(new.len() as int) =~= new);
    let common = common_of(old, new);
    assert(common == new.map_values(beside(old)));
    assert forall|i: int| 0 <= i < old.len() implies #[trigger] common[i] == (
        old[i].1,
        new[i].1,
    ) by {
        lemma_index_of(old, i);
        assert(old[i].0 == new[i].0);
    }
}

/// Among two maps with the same keys, no pair is updated where every old
/// value has the payload of the new one.
pub proof fn lemma_updated_none<C: Comparable>(old: Entries<C::V>, new: Entries<C::V>)
    requires
        sorted(old),
        same_keys(old, new),
        forall|i: int| 0 <= i < old.len() ==> C::same((#[trigger] old[i]).1, new[i].1),
    ensures
        updated_of::<C>(old, new).len() == 0,
{
    lemma_pair_same_keys::<C, ()>(old, new, no_children());
    let common = common_of(old, new);
    assert forall|i: int| 0 <= i < common.len() implies !changed::<C>()(#[trigger] common[i]) by {
        assert(C::same(old[i].1, new[i].1));
    }
    lemma_filter_prefix(common, changed::<C>(), 0);
    assert(common.take(0) =~= Seq::empty());
}

/// Among two maps with the same keys, where the payloads differ at one
/// place only, the pair at that place is the one that is updated.
pub proof fn lemma_updated_one<C: Comparable>(old: Entries<C::V>, new: Entries<C::V>, at: int)
    requires
        sorted(old),
        same_keys(old, new),
        0 <= at < old.len(),
        !C::same(old[at].1, new[at].1),
        forall|i: int|
            0 <= i < old.len() && i != at ==> C::same((#[trigger] old[i]).1, new[i].1),
    ensures
        updated_of::<C>(old, new) == seq![(old[at].1, new[at].1)],
{
    lemma_pair_same_keys::<C, ()>(old, new, no_children());
    let common = common_of(old, new);
    let head = common.take(at);
    let one = seq![common[at]];
    let rest = common.skip(at + 1);
    assert(common =~= (head + one) + rest);
    Seq::filter_distributes_over_add(head + one, rest, changed::<C>());
    Seq::filter_distributes_over_add(head, one, changed::<C>());
    assert forall|i: int| 0 <= i < head.len() implies !changed::<C>()(#[trigger] head[i]) by {
        assert(C::same(old[i].1, new[i].1));
    }
    assert forall|i: int| 0 <= i < rest.len() implies !changed::<C>()(#[trigger] rest[i]) by {
        assert(C::same(old[at + 1 + i].1, new[at + 1 + i].1));
    }
    lemma_filter_prefix(head, changed::<C>(), 0);
    lemma_filter_prefix(rest, changed::<C>(), 0);
    lemma_filter_prefix(one, changed::<C>(), 1);
    assert(head.take(0) =~= Seq::empty());
    assert(rest.take(0) =~= Seq::empty());
    assert(one.take(1) =~= one);
    assert(updated_of::<C>(old, new) =~= seq![(old[at].1, new[at].1)]);
}

/// Filtering keeps everything where the test holds of every item.
proof fn lemma_filter_all<A>(s: Seq<A>, pred: spec_fn(A) -> bool)
    requires
        forall|i: int| 0 <= i < s.len() ==> pred(#[trigger] s[i]),
    ensures
        s.filter(pred) == s,
{
    lemma_filter_prefix(s, pred, s.len() as int);
    assert(s.take(s.len() as int) =~= s);
}

/// Filtering keeps nothing where the test holds of no item.
proof fn lemma_filter_none<A>(s: Seq<A>, pred: spec_fn(A) -> bool)
    requires
        forall|i: int| 0 <= i < s.len() ==> !pred(#[trigger] s[i]),
    ensures
        s.filter(pred) == Seq::<A>::empty(),
{
    lemma_filter_prefix(s, pred, 0);
    assert(s.take(0) =~= Seq::empty());
}

/// Filtering a sequence with one item more keeps what it kept of the
/// sequence, and the item where the test holds of it.
proof fn lemma_filter_insert<A>(s: Seq<A>, p: int, e: A, pred: spec_fn(A) -> bool)
    requires
        0 <= p <= s.len(),
    ensures
        s.insert(p, e).filter(pred) == s.take(p).filter(pred) + seq![e].filter(pred) + s.skip(
            p,
        ).filter(pred),
        s.filter(pred) == s.take(p).filter(pred) + s.skip(p).filter(pred),
{
    let head = s.take(p);
    let one = seq![e];
    let rest = s.skip(p);
    assert(s.insert(p, e) =~= (head + one) + rest);
    assert(s =~= head + rest);
    Seq::filter_distributes_over_add(head + one, rest, pred);
    Seq::filter_distributes_over_add(head, one, pred);
    Seq::filter_distributes_over_add(head, rest, pred);
}

/// Every entry of a map has a key of the map.
proof fn lemma_own_keys<T>(m: Entries<T>)
    ensures
        forall|i: int| 0 <= i < m.len() ==> present_in(m)(#[trigger] m[i]) && !absent_from(m)(m[i]),
{
    assert forall|i: int| 0 <= i < m.len() implies present_in(m)(#[trigger] m[i]) && !absent_from(
        m,
    )(m[i]) by {
        assert(m[i].0 == m[i].0);
    }
}

/// Every key of a map is a key of the map with one entry more.
proof fn lemma_keys_stay<T>(m: Entries<T>, p: int, e: (Seq<char>, T))
    requires
        0 <= p <= m.len(),
    ensures
        forall|i: int|
            0 <= i < m.len() ==> present_in(m.insert(p, e))(#[trigger] m[i]) && !absent_from(
                m.insert(p, e),
            )(m[i]),
{
    let n = m.insert(p, e);
    assert forall|i: int| 0 <= i < m.len() implies present_in(n)(#[trigger] m[i]) && !absent_from(
        n,
    )(m[i]) by {
        if i < p {
            assert(n[i].0 == m[i].0);
        } else {
            assert(n[i + 1].0 == m[i].0);
        }
    }
}

/// Filtering a map by its own keys keeps all of it, and filtering it by the
/// keys that it lacks keeps nothing.
proof fn lemma_filter_own_keys<T>(m: Entries<T>)
    ensures
        m.filter(present_in(m)) == m,
        m.filter(absent_from(m)) == Seq::<(Seq<char>, T)>::empty(),
{
    lemma_own_keys(m);
    lemma_filter_all(m, present_in(m));
    lemma_filter_none(m, absent_from(m));
}

/// Filtering a map by the keys of the map with one entry more keeps all of
/// it, and filtering it by the keys that the larger map lacks keeps nothing.
proof fn lemma_filter_kept_keys<T>(m: Entries<T>, p: int, e: (Seq<char>, T))
    requires
        0 <= p <= m.len(),
    ensures
        m.filter(present_in(m.insert(p, e))) == m,
        m.filter(absent_from(m.insert(p, e))) == Seq::<(Seq<char>, T)>::empty(),
{
    lemma_keys_stay(m, p, e);
    lemma_filter_all(m, present_in(m.insert(p, e)));
    lemma_filter_none(m, absent_from(m.insert(p, e)));
}

/// An entry under a key that a map lacks passes the test of the keys that
/// the map lacks, and only that test.
proof fn lemma_filter_new_key<T>(m: Entries<T>, e: (Seq<char>, T))
    requires
        !has_key(m, e.0),
    ensures
        seq![e].filter(absent_from(m)) == seq![e],
        seq![e].filter(present_in(m)) == Seq::<(Seq<char>, T)>::empty(),
{
    let one = seq![e];
    assert(absent_from(m)(one[0]));
    lemma_filter_all(one, absent_from(m));
    lemma_filter_none(one, present_in(m));
}

/// Where a test holds of no item of a sequence and of one item more, the
/// sequence with that item keeps the item alone.
proof fn lemma_filter_insert_only<A>(s: Seq<A>, p: int, e: A, pred: spec_fn(A) -> bool)
    requires
        0 <= p <= s.len(),
        s.filter(pred) == Seq::<A>::empty(),
        seq![e].filter(pred) == seq![e],
    ensures
        s.insert(p, e).filter(pred) == seq![e],
{
    lemma_filter_insert(s, p, e, pred);
    let a = s.take(p).filter(pred);
    let b = s.skip(p).filter(pred);
    assert((a + b).len() == a.len() + b.len());
    assert(a =~= Seq::empty());
    assert(b =~= Seq::empty());
    assert(a + seq![e] + b =~= seq![e]);
}

/// Where a test holds of every item of a sequence and not of one item more,
/// the sequence with that item keeps the sequence.
proof fn lemma_filter_insert_but<A>(s: Seq<A>, p: int, e: A, pred: spec_fn(A) -> bool)
    requires
        0 <= p <= s.len(),
        s.filter(pred) == s,
        seq![e].filter(pred) == Seq::<A>::empty(),
    ensures
        s.insert(p, e).filter(pred) == s,
{
    lemma_filter_insert(s, p, e, pred);
    let a = s.take(p).filter(pred);
    let b = s.skip(p).filter(pred);
    assert(a + Seq::<A>::empty() + b =~= a + b);
}

/// Of a map with one entry more under a new key, the keys that the map
/// lacks are that key alone, and the keys that it has are all the others.
proof fn lemma_filter_one_more<T>(m: Entries<T>, p: int, e: (Seq<char>, T))
    requires
        0 <= p <= m.len(),
        !has_key(m, e.0),
    ensures
        m.insert(p, e).filter(absent_from(m)) == seq![e],
        m.insert(p, e).filter(present_in(m)) == m,
        m.filter(absent_from(m.insert(p, e))) == Seq::<(Seq<char>, T)>::empty(),
        m.filter(present_in(m.insert(p, e))) == m,
{
    lemma_filter_own_keys(m);
    lemma_filter_kept_keys(m, p, e);
    lemma_filter_new_key(m, e);
    lemma_filter_insert_only(m, p, e, absent_from(m));
    lemma_filter_insert_but(m, p, e, present_in(m));
}

/// Each entry of a sorted map beside the value that the map has under its
/// key is that value twice, and no such pair is changed.
proof fn lemma_self_pairs<C: Comparable>(m: Entries<C::V>)
    requires
        sorted(m),
    ensures
        m.map_values(beside(m)).len() == m.len(),
        forall|i: int|
            0 <= i < m.len() ==> #[trigger] m.map_values(beside(m))[i] == (m[i].1, m[i].1),
        m.map_values(beside(m)).filter(changed::<C>()) == Seq::<(C::V, C::V)>::empty(),
{
    let pairs = m.map_values(beside(m));
    assert forall|i: int| 0 <= i < m.len() implies #[trigger] pairs[i] == (m[i].1, m[i].1)
        && !changed::<C>()(pairs[i]) by {
        lemma_index_of(m, i);
        C::lemma_same_reflexive(m[i].1);
    }
    lemma_filter_none(pairs, changed::<C>());
}

/// The place at which a new key enters a sorted map.
pub(crate) proof fn lemma_new_key<T>(m: Entries<T>, k: Seq<char>, x: T)
    requires
        sorted(m),
        !has_key(m, k),
    ensures
        0 <= rank(m, k) <= m.len(),
        with_entry(m, k, x) == m.insert(rank(m, k), (k, x)),
        sorted(with_entry(m, k, x)),
{
    let p = rank(m, k);
    lemma_rank(m, k);
    lemma_with_entry_at(m, k, x, p);
    if p < m.len() && m[p].0 == k {
        assert(has_key(m, k));
    }
}

/// The diff of a map and the map with one entry more at the place `p`,
/// under a key that the map lacks.
proof fn lemma_pair_inserted<C: Comparable, K>(
    old: Entries<C::V>,
    p: int,
    e: (Seq<char>, C::V),
    recurse: spec_fn(C::V, C::V) -> K,
)
    requires
        0 <= p <= old.len(),
        !has_key(old, e.0),
        old.map_values(beside(old)).filter(changed::<C>()) == Seq::<(C::V, C::V)>::empty(),
    ensures
        pair_maps::<C, K>(old, old.insert(p, e), recurse).added == seq![e.1],
        pair_maps::<C, K>(old, old.insert(p, e), recurse).removed == Seq::<C::V>::empty(),
        pair_maps::<C, K>(old, old.insert(p, e), recurse).updated == Seq::<(C::V, C::V)>::empty(),
        pair_maps::<C, K>(old, old.insert(p, e), recurse).children == old.map_values(
            beside(old),
        ).map_values(descend(recurse)),
{
    let new = old.insert(p, e);
    lemma_filter_one_more(old, p, e);
    assert(seq![e].map_values(entry_value()) =~= seq![e.1]);
    assert(Seq::<(Seq<char>, C::V)>::empty().map_values(entry_value()) =~= Seq::<C::V>::empty());
}

/// The diff of a map and the same map with one more key: the value under
/// that key is added, nothing is removed or updated, and each old entry is
/// paired with itself.
pub proof fn lemma_pair_one_more<C: Comparable, K>(
    old: Entries<C::V>,
    k: Seq<char>,
    x: C::V,
    recurse: spec_fn(C::V, C::V) -> K,
)
    requires
        sorted(old),
        !has_key(old, k),
    ensures
        pair_maps::<C, K>(old, with_entry(old, k, x), recurse).added == seq![x],
        pair_maps::<C, K>(old, with_entry(old, k, x), recurse).removed.len() == 0,
        pair_maps::<C, K>(old, with_entry(old, k, x), recurse).updated.len() == 0,
        pair_maps::<C, K>(old, with_entry(old, k, x), recurse).children.len() == old.len(),
        forall|i: int|
            0 <= i < old.len() ==> #[trigger] pair_maps::<C, K>(
                old,
                with_entry(old, k, x),
                recurse,
            ).children[i] == recurse(old[i].1, old[i].1),
{
    lemma_new_key(old, k, x);
    lemma_self_pairs::<C>(old);
    lemma_pair_inserted::<C, K>(old, rank(old, k), (k, x), recurse);
}

/// Under each key of a sorted map, the map with one entry more under a new
/// key has the value that the map has.
proof fn lemma_values_stay<C: Comparable>(m: Entries<C::V>, p: int, e: (Seq<char>, C::V))
    requires
        0 <= p <= m.len(),
        sorted(m.insert(p, e)),
    ensures
        m.map_values(beside(m.insert(p, e))).len() == m.len(),
        forall|i: int|
            0 <= i < m.len() ==> #[trigger] m.map_values(beside(m.insert(p, e)))[i] == (
                m[i].1,
                m[i].1,
            ),
        m.map_values(beside(m.insert(p, e))).filter(changed::<C>()) == Seq::<
            (C::V, C::V),
        >::empty(),
{
    let n = m.insert(p, e);
    let pairs = m.map_values(beside(n));
    assert forall|i: int| 0 <= i < m.len() implies #[trigger] pairs[i] == (m[i].1, m[i].1)
        && !changed::<C>()(pairs[i]) by {
        if i < p {
            assert(n[i] == m[i]);
            lemma_index_of(n, i);
        } else {
            assert(n[i + 1] == m[i]);
            lemma_index_of(n, i + 1);
        }
        C::lemma_same_reflexive(m[i].1);
    }
    lemma_filter_none(pairs, changed::<C>());
}

/// The diff of a map with one entry more at the place `p`, under a key that
/// the smaller map lacks, and the smaller map.
proof fn lemma_pair_dropped<C: Comparable, K>(
    new: Entries<C::V>,
    p: int,
    e: (Seq<char>, C::V),
    recurse: spec_fn(C::V, C::V) -> K,
)
    requires
        0 <= p <= new.len(),
        !has_key(new, e.0),
        new.map_values(beside(new.insert(p, e))).filter(changed::<C>()) == Seq::<
            (C::V, C::V),
        >::empty(),
    ensures
        pair_maps::<C, K>(new.insert(p, e), new, recurse).removed == seq![e.1],
        pair_maps::<C, K>(new.insert(p, e), new, recurse).added == Seq::<C::V>::empty(),
        pair_maps::<C, K>(new.insert(p, e), new, recurse).updated == Seq::<(C::V, C::V)>::empty(),
        pair_maps::<C, K>(new.insert(p, e), new, recurse).children == new.map_values(
            beside(new.insert(p, e)),
        ).map_values(descend(recurse)),
{
    lemma_filter_one_more(new, p, e);
    assert(seq![e].map_values(entry_value()) =~= seq![e.1]);
    assert(Seq::<(Seq<char>, C::V)>::empty().map_values(entry_value()) =~= Seq::<C::V>::empty());
}

/// The diff of a map and the same map with one key less: the value under
/// that key is removed, nothing is added or updated, and each entry that
/// stays is paired with itself.
pub proof fn lemma_pair_one_less<C: Comparable, K>(
    new: Entries<C::V>,
    k: Seq<char>,
    x: C::V,
    recurse: spec_fn(C::V, C::V) -> K,
)
    requires
        sorted(new),
        !has_key(new, k),
    ensures
        pair_maps::<C, K>(with_entry(new, k, x), new, recurse).removed == seq![x],
        pair_maps::<C, K>(with_entry(new, k, x), new, recurse).added.len() == 0,
        pair_maps::<C, K>(with_entry(new, k, x), new, recurse).updated.len() == 0,
        pair_maps::<C, K>(with_entry(new, k, x), new, recurse).children.len() == new.len(),
        forall|i: int|
            0 <= i < new.len() ==> #[trigger] pair_maps::<C, K>(
                with_entry(new, k, x),
                new,
                recurse,
            ).children[i] == recurse(new[i].1, new[i].1),
{
    lemma_new_key(new, k, x);
    lemma_values_stay::<C>(new, rank(new, k), (k, x));
    lemma_pair_dropped::<C, K>(new, rank(new, k), (k, x), recurse);
}

/// Adding one key to a map gives one section: the banner, what creates the
/// value under the key, and the closing line; where the diff of each other
/// value with itself has no statements.
pub proof fn lemma_one_added<C: Render, CH: Sql>(
    old: Entries<C::V>,
    k: Seq<char>,
    x: C::V,
    recurse: spec_fn(C::V, C::V) -> CH::V,
)
    requires
        sorted(old),
        !has_key(old, k),
        forall|i: int|
            0 <= i < old.len() ==> CH::text(recurse((#[trigger] old[i]).1, old[i].1)).len() == 0,
    ensures
        bag_text::<C, CH>(pair_maps::<C, CH::V>(old, with_entry(old, k, x), recurse)) == banner(
            C::title(),
        ) + C::added_sql(x) + "\n"@,
{
    let b = pair_maps::<C, CH::V>(old, with_entry(old, k, x), recurse);
    lemma_pair_one_more::<C, CH::V>(old, k, x, recurse);
    lemma_concat_empty(removed_texts::<C>(b.removed));
    lemma_concat_empty(updated_texts::<C>(b.updated));
    lemma_concat_empty(child_texts::<CH>(b.children));
    added_texts::<C>(b.added).lemma_flatten_singleton();
    assert(bag_text::<C, CH>(b) =~= banner(C::title()) + C::added_sql(x) + "\n"@);
}

/// Taking one key out of a map gives one section: the banner, what drops
/// the value under the key, and the closing line; where the diff of each
/// other value with itself has no statements.
pub proof fn lemma_one_removed<C: Render, CH: Sql>(
    new: Entries<C::V>,
    k: Seq<char>,
    x: C::V,
    recurse: spec_fn(C::V, C::V) -> CH::V,
)
    requires
        sorted(new),
        !has_key(new, k),
        forall|i: int|
            0 <= i < new.len() ==> CH::text(recurse((#[trigger] new[i]).1, new[i].1)).len() == 0,
    ensures
        bag_text::<C, CH>(pair_maps::<C, CH::V>(with_entry(new, k, x), new, recurse)) == banner(
            C::title(),
        ) + C::removed_sql(x) + "\n"@,
{
    let b = pair_maps::<C, CH::V>(with_entry(new, k, x), new, recurse);
    lemma_pair_one_less::<C, CH::V>(new, k, x, recurse);
    lemma_concat_empty(added_texts::<C>(b.added));
    lemma_concat_empty(updated_texts::<C>(b.updated));
    lemma_concat_empty(child_texts::<CH>(b.children));
    removed_texts::<C>(b.removed).lemma_flatten_singleton();
    assert(bag_text::<C, CH>(b) =~= banner(C::title()) + C::removed_sql(x) + "\n"@);
}

/// Where two maps have the same keys and the same payloads, and the
/// children differ below one key only, the section of the maps is the
/// section of that child.
pub proof fn lemma_one_child<C: Render, CH: Sql>(
    old: Entries<C::V>,
    new: Entries<C::V>,
    recurse: spec_fn(C::V, C::V) -> CH::V,
    at: int,
)
    requires
        sorted(old),
        same_keys(old, new),
        0 <= at < old.len(),
        forall|i: int| 0 <= i < old.len() ==> C::same((#[trigger] old[i]).1, new[i].1),
        forall|i: int|
            0 <= i < old.len() && i != at ==> CH::text(
                recurse((#[trigger] old[i]).1, new[i].1),
            ).len() == 0,
    ensures
        bag_text::<C, CH>(pair_maps::<C, CH::V>(old, new, recurse)) == CH::text(
            recurse(old[at].1, new[at].1),
        ),
{
    let b = pair_maps::<C, CH::V>(old, new, recurse);
    lemma_pair_same_keys::<C, CH::V>(old, new, recurse);
    lemma_updated_none::<C>(old, new);
    lemma_concat_empty(added_texts::<C>(b.added));
    lemma_concat_empty(removed_texts::<C>(b.removed));
    lemma_concat_empty(updated_texts::<C>(b.updated));
    lemma_concat_one(child_texts::<CH>(b.children), at);
    assert(bag_text::<C, CH>(b) =~= CH::text(recurse(old[at].1, new[at].1)));
}

/// Where two maps have the same keys, the payloads differ under one key
/// only and the children below every other key have no statements, the
/// section is the banner, what turns the old value under that key into the
/// new one, the section of its children, and the closing line.
pub proof fn lemma_one_updated<C: Render, CH: Sql>(
    old: Entries<C::V>,
    new: Entries<C::V>,
    recurse: spec_fn(C::V, C::V) -> CH::V,
    at: int,
)
    requires
        sorted(old),
        same_keys(old, new),
        0 <= at < old.len(),
        !C::same(old[at].1, new[at].1),
        forall|i: int|
            0 <= i < old.len() && i != at ==> C::same((#[trigger] old[i]).1, new[i].1),
        forall|i: int|
            0 <= i < old.len() && i != at ==> CH::text(
                recurse((#[trigger] old[i]).1, new[i].1),
            ).len() == 0,
    ensures
        bag_text::<C, CH>(pair_maps::<C, CH::V>(old, new, recurse)) == banner(C::title())
            + C::updated_sql(old[at].1, new[at].1) + CH::text(recurse(old[at].1, new[at].1))
            + "\n"@,
{
    let b = pair_maps::<C, CH::V>(old, new, recurse);
    lemma_pair_same_keys::<C, CH::V>(old, new, recurse);
    lemma_updated_one::<C>(old, new, at);
    lemma_concat_empty(added_texts::<C>(b.added));
    lemma_concat_empty(removed_texts::<C>(b.removed));
    updated_texts::<C>(b.updated).lemma_flatten_singleton();
    lemma_concat_one(child_texts::<CH>(b.children), at);
    assert(bag_text::<C, CH>(b) =~= banner(C::title()) + C::updated_sql(old[at].1, new[at].1)
        + CH::text(recurse(old[at].1, new[at].1)) + "\n"@);
}

} // verus!
