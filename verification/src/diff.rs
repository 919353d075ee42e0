//! The differ: pairs the children of two nodes by key and sorts them into
//! what was added, removed and updated, level by level; and the emitter,
//! which writes the result as one script.

use crate::catalog::Kind;
use crate::compare::pair_views;
use crate::compare::views;
use crate::compare::Comparable;
use crate::inspect;
use crate::ordered::has_key;
use crate::ordered::index_of;
use crate::ordered::lemma_filter_map_values;
use crate::ordered::lemma_index_of;
use crate::ordered::lemma_models_keys;
use crate::ordered::models;
use crate::ordered::sorted;
use crate::ordered::value_of;
use crate::ordered::Entries;
use crate::ordered::OrderedMap;
use crate::text::concat;
use crate::text::lemma_add_assoc;
use crate::text::opt_str;
use crate::text::same_str;
use vstd::prelude::*;

verus! {

/// The entries whose key `m` lacks.
pub open spec fn absent_from<T>(m: Entries<T>) -> spec_fn((Seq<char>, T)) -> bool {
    |e: (Seq<char>, T)| !has_key(m, e.0)
}

/// The entries whose key `m` has too.
pub open spec fn present_in<T>(m: Entries<T>) -> spec_fn((Seq<char>, T)) -> bool {
    |e: (Seq<char>, T)| has_key(m, e.0)
}

/// The value of an entry.
pub open spec fn entry_value<T>() -> spec_fn((Seq<char>, T)) -> T {
    |e: (Seq<char>, T)| e.1
}

/// An entry of the new map beside the value that the old map has under its
/// key.
pub open spec fn beside<T>(old: Entries<T>) -> spec_fn((Seq<char>, T)) -> (T, T) {
    |e: (Seq<char>, T)| (value_of(old, e.0), e.1)
}

/// The values of `new` whose key `old` lacks, in the key order of `new`.
pub open spec fn added_of<T>(old: Entries<T>, new: Entries<T>) -> Seq<T> {
    new.filter(absent_from(old)).map_values(entry_value())
}

/// The values of `old` whose key `new` lacks, in the key order of `old`.
pub open spec fn removed_of<T>(old: Entries<T>, new: Entries<T>) -> Seq<T> {
    old.filter(absent_from(new)).map_values(entry_value())
}

/// For each key that both maps have, the old value and the new one, in the
/// key order of `new`.
pub open spec fn common_of<T>(old: Entries<T>, new: Entries<T>) -> Seq<(T, T)> {
    new.filter(present_in(old)).map_values(beside(old))
}

/// The pairs whose payloads differ.
pub open spec fn changed<C: Comparable>() -> spec_fn((C::V, C::V)) -> bool {
    |p: (C::V, C::V)| !C::same(p.0, p.1)
}

/// The pairs of `common_of` whose payloads differ.
pub open spec fn updated_of<C: Comparable>(old: Entries<C::V>, new: Entries<C::V>) -> Seq<
    (C::V, C::V),
> {
    common_of(old, new).filter(changed::<C>())
}

/// What `recurse` makes of a pair.
pub open spec fn descend<N, K>(recurse: spec_fn(N, N) -> K) -> spec_fn((N, N)) -> K {
    |p: (N, N)| recurse(p.0, p.1)
}

/// The model of a [`Bag`]: what was added, updated and removed at one level,
/// and the diffs of the next level.
pub struct BagView<N, K> {
    pub added: Seq<N>,
    pub updated: Seq<(N, N)>,
    pub removed: Seq<N>,
    pub children: Seq<K>,
}

impl<N, K> BagView<N, K> {
    /// The bag that holds nothing.
    pub open spec fn empty() -> Self {
        BagView {
            added: Seq::empty(),
            updated: Seq::empty(),
            removed: Seq::empty(),
            children: Seq::empty(),
        }
    }

    /// Nothing was added, updated or removed at this level. The children do
    /// not count.
    pub open spec fn is_empty(self) -> bool {
        self.added.len() == 0 && self.updated.len() == 0 && self.removed.len() == 0
    }
}

/// The diff of two maps: the values under new keys are added, those under
/// lost keys removed; the values under a common key are updated where their
/// payloads differ, and `recurse` gives a child for each of them, changed or
/// not.
pub open spec fn pair_maps<C: Comparable, K>(
    old: Entries<C::V>,
    new: Entries<C::V>,
    recurse: spec_fn(C::V, C::V) -> K,
) -> BagView<C::V, K> {
    BagView {
        added: added_of(old, new),
        updated: updated_of::<C>(old, new),
        removed: removed_of(old, new),
        children: common_of(old, new).map_values(descend(recurse)),
    }
}

/// `added_of` over one more entry of the new map.
pub proof fn lemma_added_push<T>(old: Entries<T>, new: Entries<T>, e: (Seq<char>, T))
    ensures
        added_of(old, new.push(e)) == if has_key(old, e.0) {
            added_of(old, new)
        } else {
            added_of(old, new).push(e.1)
        },
{
    new.lemma_filter_push(e, absent_from(old));
    assert(added_of(old, new.push(e)) =~= if has_key(old, e.0) {
        added_of(old, new)
    } else {
        added_of(old, new).push(e.1)
    });
}

/// `common_of` over one more entry of the new map.
pub proof fn lemma_common_push<T>(old: Entries<T>, new: Entries<T>, e: (Seq<char>, T))
    ensures
        common_of(old, new.push(e)) == if has_key(old, e.0) {
            common_of(old, new).push((value_of(old, e.0), e.1))
        } else {
            common_of(old, new)
        },
{
    new.lemma_filter_push(e, present_in(old));
    assert(common_of(old, new.push(e)) =~= if has_key(old, e.0) {
        common_of(old, new).push((value_of(old, e.0), e.1))
    } else {
        common_of(old, new)
    });
}

/// `updated_of` over one more entry of the new map.
pub proof fn lemma_updated_push<C: Comparable>(
    old: Entries<C::V>,
    new: Entries<C::V>,
    e: (Seq<char>, C::V),
)
    ensures
        updated_of::<C>(old, new.push(e)) == if has_key(old, e.0) && !C::same(
            value_of(old, e.0),
            e.1,
        ) {
            updated_of::<C>(old, new).push((value_of(old, e.0), e.1))
        } else {
            updated_of::<C>(old, new)
        },
{
    lemma_common_push(old, new, e);
    if has_key(old, e.0) {
        common_of(old, new).lemma_filter_push((value_of(old, e.0), e.1), changed::<C>());
    }
}

/// In a sorted map, the model of the value under a key is the value under
/// that key in the models.
pub proof fn lemma_models_value_of<V: View>(s: Entries<V>, k: Seq<char>)
    requires
        sorted(s),
        has_key(s, k),
    ensures
        has_key(models(s), k),
        value_of(models(s), k) == value_of(s, k)@,
{
    lemma_models_keys(s);
    let i = index_of(s, k);
    lemma_index_of(s, i);
    lemma_index_of(models(s), i);
}

/// What was added, updated and removed among the children of two nodes, and
/// the diffs of the children that both have.
#[derive(Debug)]
pub struct Bag<C, CH> {
    pub added: Vec<C>,
    pub updated: Vec<(C, C)>,
    pub removed: Vec<C>,
    pub children: Vec<CH>,
}

impl<C: View, CH: View> View for Bag<C, CH> {
    type V = BagView<C::V, CH::V>;

    open spec fn view(&self) -> BagView<C::V, CH::V> {
        BagView {
            added: views(self.added@),
            updated: pair_views(self.updated@),
            removed: views(self.removed@),
            children: views(self.children@),
        }
    }
}

impl<C: Comparable, CH: View> Bag<C, CH> {
    /// The bag that holds nothing.
    pub fn new() -> (bag: Self)
        ensures
            bag@ == BagView::<C::V, CH::V>::empty(),
            bag.children@.len() == 0,
    {
        let bag = Bag {
            added: Vec::new(),
            updated: Vec::new(),
            removed: Vec::new(),
            children: Vec::new(),
        };
        assert(bag@.added =~= Seq::empty());
        assert(bag@.updated =~= Seq::empty());
        assert(bag@.removed =~= Seq::empty());
        assert(bag@.children =~= Seq::empty());
        bag
    }

    /// Notes that `new` was added.
    pub fn add(&mut self, new: &C)
        ensures
            final(self)@ == (BagView { added: old(self)@.added.push(new@), ..old(self)@ }),
            final(self).children == old(self).children,
    {
        self.added.push(new.copy());
        assert(views(self.added@) =~= views(old(self).added@).push(new@));
    }

    /// Notes that `gone` was removed.
    pub fn remove(&mut self, gone: &C)
        ensures
            final(self)@ == (BagView { removed: old(self)@.removed.push(gone@), ..old(self)@ }),
            final(self).children == old(self).children,
    {
        self.removed.push(gone.copy());
        assert(views(self.removed@) =~= views(old(self).removed@).push(gone@));
    }

    /// Notes that `prior` became `new`.
    pub fn update(&mut self, prior: &C, new: &C)
        ensures
            final(self)@ == (BagView {
                updated: old(self)@.updated.push((prior@, new@)),
                ..old(self)@
            }),
            final(self).children == old(self).children,
    {
        self.updated.push((prior.copy(), new.copy()));
        assert(pair_views(self.updated@) =~= pair_views(old(self).updated@).push((prior@, new@)));
    }

    /// Keeps the diff of the next level for a pair of children.
    pub fn add_child(&mut self, children: CH)
        ensures
            final(self)@ == (BagView {
                children: old(self)@.children.push(children@),
                ..old(self)@
            }),
            final(self).children@ == old(self).children@.push(children),
    {
        self.children.push(children);
        assert(views(self.children@) =~= views(old(self).children@).push(children@));
    }

    /// Whether nothing was added, updated or removed at this level.
    pub fn is_empty(&self) -> (r: bool)
        ensures
            r == self@.is_empty(),
    {
        self.added.len() == 0 && self.updated.len() == 0 && self.removed.len() == 0
    }
}

/// Pairs the entries of two maps by key. The new map is walked first, in key
/// order: a value whose key the old map lacks is added; one whose key it has
/// is updated where the payloads differ, and `next` gives the diff of the
/// level below for it. The old map is walked then, and a value whose key the
/// new map lacks is removed.
pub fn iter<C: Comparable, CH: View, F: Fn(&C, &C) -> CH>(
    old: &OrderedMap<C>,
    new: &OrderedMap<C>,
    next: F,
) -> (bag: Bag<C, CH>)
    requires
        forall|i: int|
            0 <= i < common_of(old@, new@).len() ==> call_requires(
                next,
                (&(#[trigger] common_of(old@, new@)[i]).0, &common_of(old@, new@)[i].1),
            ),
    ensures
        bag@.added == added_of(old.model(), new.model()),
        bag@.updated == updated_of::<C>(old.model(), new.model()),
        bag@.removed == removed_of(old.model(), new.model()),
        bag@.children.len() == common_of(old.model(), new.model()).len(),
        bag.children@.len() == common_of(old@, new@).len(),
        forall|i: int|
            0 <= i < bag.children@.len() ==> call_ensures(
                next,
                (&common_of(old@, new@)[i].0, &common_of(old@, new@)[i].1),
                #[trigger] bag.children@[i],
            ),
{
    let mut stack: Bag<C, CH> = Bag::new();
    let n = new.len();
    let m = old.len();
    let ghost shallow = new@;
    let ghost deep = new.model();
    proof {
        lemma_models_keys(old@);
        lemma_models_keys(new@);
        reveal(Seq::filter);
        assert(shallow.take(0) =~= Seq::empty());
        assert(deep.take(0) =~= Seq::empty());
        assert(added_of(old.model(), deep.take(0)) =~= Seq::empty());
        assert(common_of(old.model(), deep.take(0)) =~= Seq::empty());
        assert(common_of(old@, shallow.take(0)) =~= Seq::empty());
        assert(updated_of::<C>(old.model(), deep.take(0)) =~= Seq::empty());
        assert(shallow.take(n as int) =~= shallow);
    }
    let mut i: usize = 0;
    while i < n
        invariant
            i <= n,
            n == new@.len(),
            shallow == new@,
            deep == new.model(),
            deep.len() == n,
            sorted(old@),
            forall|k: Seq<char>| #[trigger] has_key(old.model(), k) == has_key(old@, k),
            forall|j: int|
                0 <= j < common_of(old@, shallow).len() ==> call_requires(
                    next,
                    (&(#[trigger] common_of(old@, shallow)[j]).0, &common_of(old@, shallow)[j].1),
                ),
            common_of(old@, shallow.take(i as int)).len() <= common_of(old@, shallow).len(),
            forall|j: int|
                0 <= j < common_of(old@, shallow.take(i as int)).len() ==> common_of(
                    old@,
                    shallow,
                )[j] == #[trigger] common_of(old@, shallow.take(i as int))[j],
            stack@.added == added_of(old.model(), deep.take(i as int)),
            stack@.updated == updated_of::<C>(old.model(), deep.take(i as int)),
            stack@.removed == Seq::<C::V>::empty(),
            stack@.children.len() == common_of(old.model(), deep.take(i as int)).len(),
            stack.children@.len() == common_of(old@, shallow.take(i as int)).len(),
            forall|j: int|
                0 <= j < stack.children@.len() ==> call_ensures(
                    next,
                    (
                        &common_of(old@, shallow.take(i as int))[j].0,
                        &common_of(old@, shallow.take(i as int))[j].1,
                    ),
                    #[trigger] stack.children@[j],
                ),
        decreases n - i,
    {
        let name = new.key(i);
        let r = new.value(i);
        let ghost before = stack;
        proof {
            assert(shallow.take(i + 1) =~= shallow.take(i as int).push(shallow[i as int]));
            assert(deep.take(i + 1) =~= deep.take(i as int).push(deep[i as int]));
            lemma_added_push(old.model(), deep.take(i as int), deep[i as int]);
            lemma_common_push(old.model(), deep.take(i as int), deep[i as int]);
            lemma_common_push(old@, shallow.take(i as int), shallow[i as int]);
            lemma_updated_push::<C>(old.model(), deep.take(i as int), deep[i as int]);
            lemma_common_prefix(old@, shallow, i as int);
            lemma_common_prefix(old@, shallow, i + 1);
        }
        match old.get(name.as_str()) {
            Some(l) => {
                proof {
                    lemma_models_value_of(old@, name@);
                }
                if !l.alike(r) {
                    stack.update(l, r);
                }
                let ghost c = common_of(old@, shallow.take(i + 1));
                assert(c.last() == (*l, *r));
                assert(common_of(old@, shallow)[c.len() - 1] == c.last());
                let child = next(l, r);
                stack.add_child(child);
            },
            None => {
                stack.add(r);
            },
        }
        i += 1;
    }
    proof {
        assert(deep.take(n as int) =~= deep);
        let o = old.model();
        assert(o.take(0) =~= Seq::empty());
        assert(removed_of(o.take(0), deep) =~= Seq::empty());
        assert(o.take(m as int) =~= o);
    }
    let ghost kept = stack;
    let mut j: usize = 0;
    while j < m
        invariant
            j <= m,
            m == old@.len(),
            old.model().len() == m,
            deep == new.model(),
            forall|k: Seq<char>| #[trigger] has_key(new.model(), k) == has_key(new@, k),
            stack@.added == kept@.added,
            stack@.updated == kept@.updated,
            stack.children == kept.children,
            stack@.children == kept@.children,
            stack@.removed == old.model().take(j as int).filter(absent_from(deep)).map_values(
                entry_value(),
            ),
        decreases m - j,
    {
        let name = old.key(j);
        let l = old.value(j);
        proof {
            let o = old.model();
            assert(o.take(j + 1) =~= o.take(j as int).push(o[j as int]));
            o.take(j as int).lemma_filter_push(o[j as int], absent_from(deep));
            assert(o.take(j + 1).filter(absent_from(deep)).map_values(entry_value()) =~= if has_key(
                deep,
                o[j as int].0,
            ) {
                o.take(j as int).filter(absent_from(deep)).map_values(entry_value())
            } else {
                o.take(j as int).filter(absent_from(deep)).map_values(entry_value()).push(
                    o[j as int].1,
                )
            });
        }
        if !new.contains_key(name.as_str()) {
            stack.remove(l);
        }
        j += 1;
    }
    stack
}

/// The common pairs of a prefix of the new map begin the common pairs of the
/// whole.
pub proof fn lemma_common_prefix<T>(old: Entries<T>, new: Entries<T>, i: int)
    requires
        0 <= i <= new.len(),
    ensures
        common_of(old, new.take(i)).len() <= common_of(old, new).len(),
        forall|j: int|
            0 <= j < common_of(old, new.take(i)).len() ==> common_of(old, new)[j]
                == #[trigger] common_of(old, new.take(i))[j],
    decreases new.len() - i,
{
    if i < new.len() {
        lemma_common_prefix(old, new, i + 1);
        assert(new.take(i + 1) =~= new.take(i).push(new[i]));
        lemma_common_push(old, new.take(i), new[i]);
        let short = common_of(old, new.take(i));
        let long = common_of(old, new.take(i + 1));
        assert forall|j: int| 0 <= j < short.len() implies common_of(old, new)[j]
            == #[trigger] short[j] by {
            assert(long[j] == short[j]);
        }
    } else {
        assert(new.take(i) =~= new);
    }
}

/// The common pairs of the models are the models of the common pairs.
pub proof fn lemma_common_models<V: View>(old: Entries<V>, new: Entries<V>)
    requires
        sorted(old),
    ensures
        common_of(models(old), models(new)) == pair_views(common_of(old, new)),
{
    let f = |e: (Seq<char>, V)| (e.0, e.1@);
    lemma_models_keys(old);
    lemma_filter_map_values(new, f, present_in(old), present_in(models(old)));
    let kept = new.filter(present_in(old));
    assert(new.map_values(f) =~= models(new));
    assert(kept.map_values(f) =~= models(kept));
    assert(models(new).filter(present_in(models(old))) == models(kept));
    let deep = common_of(models(old), models(new));
    let shallow = common_of(old, new);
    assert(deep.len() == shallow.len());
    assert forall|i: int| 0 <= i < deep.len() implies #[trigger] deep[i] == (
        shallow[i].0@,
        shallow[i].1@,
    ) by {
        new.lemma_filter_pred(present_in(old), i);
        lemma_models_value_of(old, kept[i].0);
        assert(models(kept)[i] == (kept[i].0, kept[i].1@));
    }
    assert(deep =~= pair_views(shallow));
}

/// [`iter`], with the diff of the level below given as `recurse`: the result
/// is the diff of the two maps.
pub(crate) fn pair<C: Comparable, CH: View, F: Fn(&C, &C) -> CH>(
    old: &OrderedMap<C>,
    new: &OrderedMap<C>,
    next: F,
    Ghost(recurse): Ghost<spec_fn(C::V, C::V) -> CH::V>,
) -> (bag: Bag<C, CH>)
    requires
        forall|l: &C, r: &C| call_requires(next, (l, r)),
        forall|l: &C, r: &C, ch: CH| call_ensures(next, (l, r), ch) ==> ch@ == recurse(l@, r@),
    ensures
        bag@ == pair_maps::<C, CH::V>(old.model(), new.model(), recurse),
{
    old.keys_sorted();
    let bag = iter(old, new, next);
    proof {
        lemma_common_models(old@, new@);
        let shallow = common_of(old@, new@);
        let deep = common_of(old.model(), new.model());
        assert forall|i: int| 0 <= i < bag@.children.len() implies #[trigger] bag@.children[i]
            == deep.map_values(descend(recurse))[i] by {
            assert(call_ensures(next, (&shallow[i].0, &shallow[i].1), bag.children@[i]));
        }
        assert(bag@.children =~= deep.map_values(descend(recurse)));
    }
    bag
}

/// A diff that can be written as statements.
pub trait Sql: View + Sized {
    /// The statements of this diff, in the order in which they are written.
    spec fn text(v: Self::V) -> Seq<char>;

    /// Appends the statements of this diff to `output`.
    fn sql(&self, output: &mut String)
        ensures
            final(output)@ == old(output)@ + Self::text(self@),
    ;
}

impl Sql for () {
    open spec fn text(v: ()) -> Seq<char> {
        Seq::empty()
    }

    fn sql(&self, output: &mut String) {
    }
}

/// A kind of node with its statements: what creates one, what drops one, and
/// what turns one into another.
pub trait Render: Comparable {
    /// The name of the kind in the banner of its section.
    spec fn title() -> Seq<char>;

    /// The statements that create `new`.
    spec fn added_sql(new: Self::V) -> Seq<char>;

    /// The statements that drop `old`.
    spec fn removed_sql(old: Self::V) -> Seq<char>;

    /// The statements that turn `old` into `new`.
    spec fn updated_sql(old: Self::V, new: Self::V) -> Seq<char>;

    /// The name of the kind in the banner of its section.
    fn kind() -> (s: &'static str)
        ensures
            s@ == Self::title(),
    ;

    /// The statements that create this node.
    fn sql_added(&self) -> (s: String)
        ensures
            s@ == Self::added_sql(self@),
    ;

    /// The statements that drop this node.
    fn sql_removed(&self) -> (s: String)
        ensures
            s@ == Self::removed_sql(self@),
    ;

    /// The statements that turn this node into `new`.
    fn sql_updated(&self, new: &Self) -> (s: String)
        ensures
            s@ == Self::updated_sql(self@, new@),
    ;
}

/// The comment of three lines that opens a section.
pub open spec fn banner(title: Seq<char>) -> Seq<char> {
    "--\n-- "@ + title + "\n--\n"@
}

/// What creates each node of `s`.
pub open spec fn added_texts<C: Render>(s: Seq<C::V>) -> Seq<Seq<char>> {
    s.map_values(|x: C::V| C::added_sql(x))
}

/// What drops each node of `s`.
pub open spec fn removed_texts<C: Render>(s: Seq<C::V>) -> Seq<Seq<char>> {
    s.map_values(|x: C::V| C::removed_sql(x))
}

/// What turns the first of each pair of `s` into the second.
pub open spec fn updated_texts<C: Render>(s: Seq<(C::V, C::V)>) -> Seq<Seq<char>> {
    s.map_values(|p: (C::V, C::V)| C::updated_sql(p.0, p.1))
}

/// The statements of each diff of `s`.
pub open spec fn child_texts<CH: Sql>(s: Seq<CH::V>) -> Seq<Seq<char>> {
    s.map_values(|c: CH::V| CH::text(c))
}

/// The section of a bag: the banner, where anything was added, removed or
/// updated at this level; then what was added, what was removed, what was
/// updated and the children, in this order and each in the order of the bag;
/// then an empty line, where the banner was written.
pub open spec fn bag_text<C: Render, CH: Sql>(b: BagView<C::V, CH::V>) -> Seq<char> {
    (if b.is_empty() {
        Seq::empty()
    } else {
        banner(C::title())
    }) + concat(added_texts::<C>(b.added)) + concat(removed_texts::<C>(b.removed)) + concat(
        updated_texts::<C>(b.updated),
    ) + concat(child_texts::<CH>(b.children)) + (if b.is_empty() {
        Seq::empty()
    } else {
        "\n"@
    })
}

impl<C: Render, CH: Sql> Sql for Bag<C, CH> {
    open spec fn text(v: BagView<C::V, CH::V>) -> Seq<char> {
        bag_text::<C, CH>(v)
    }

    fn sql(&self, output: &mut String) {
        let ghost start = output@;
        let ghost head = if self@.is_empty() {
            Seq::<char>::empty()
        } else {
            banner(C::title())
        };
        let own = !self.is_empty();
        if own {
            output.append("--\n-- ");
            output.append(C::kind());
            output.append("\n--\n");
        }
        assert(output@ =~= start + head);

        let ghost added = added_texts::<C>(self@.added);
        assert(added.take(0) =~= Seq::empty());
        let mut i: usize = 0;
        while i < self.added.len()
            invariant
                i <= self.added.len(),
                added == added_texts::<C>(self@.added),
                output@ == start + head + concat(added.take(i as int)),
            decreases self.added.len() - i,
        {
            let s = self.added[i].sql_added();
            proof {
                assert(added.take(i + 1) =~= added.take(i as int).push(added[i as int]));
                added.take(i as int).lemma_flatten_push(added[i as int]);
            }
            output.append(s.as_str());
            i += 1;
        }
        assert(added.take(i as int) =~= added);

        let ghost removed = removed_texts::<C>(self@.removed);
        assert(removed.take(0) =~= Seq::empty());
        let mut i: usize = 0;
        while i < self.removed.len()
            invariant
                i <= self.removed.len(),
                removed == removed_texts::<C>(self@.removed),
                output@ == start + head + concat(added) + concat(removed.take(i as int)),
            decreases self.removed.len() - i,
        {
            let s = self.removed[i].sql_removed();
            proof {
                assert(removed.take(i + 1) =~= removed.take(i as int).push(removed[i as int]));
                removed.take(i as int).lemma_flatten_push(removed[i as int]);
            }
            output.append(s.as_str());
            i += 1;
        }
        assert(removed.take(i as int) =~= removed);

        let ghost updated = updated_texts::<C>(self@.updated);
        assert(updated.take(0) =~= Seq::empty());
        let mut i: usize = 0;
        while i < self.updated.len()
            invariant
                i <= self.updated.len(),
                updated == updated_texts::<C>(self@.updated),
                output@ == start + head + concat(added) + concat(removed) + concat(
                    updated.take(i as int),
                ),
            decreases self.updated.len() - i,
        {
            let s = self.updated[i].0.sql_updated(&self.updated[i].1);
            proof {
                assert(updated.take(i + 1) =~= updated.take(i as int).push(updated[i as int]));
                updated.take(i as int).lemma_flatten_push(updated[i as int]);
            }
            output.append(s.as_str());
            i += 1;
        }
        assert(updated.take(i as int) =~= updated);

        let ghost children = child_texts::<CH>(self@.children);
        assert(children.take(0) =~= Seq::empty());
        let mut i: usize = 0;
        while i < self.children.len()
            invariant
                i <= self.children.len(),
                children == child_texts::<CH>(self@.children),
                output@ == start + head + concat(added) + concat(removed) + concat(updated)
                    + concat(children.take(i as int)),
            decreases self.children.len() - i,
        {
            proof {
                assert(children.take(i + 1) =~= children.take(i as int).push(children[i as int]));
                children.take(i as int).lemma_flatten_push(children[i as int]);
            }
            self.children[i].sql(output);
            i += 1;
        }
        assert(children.take(i as int) =~= children);

        if own {
            output.append("\n");
        }
    }
}

/// The statement that sets or clears a comment, where the comment changed:
/// nothing where `old` and `new` agree; else the new comment, or `null`
/// where there is none.
pub open spec fn comment_sql(
    ty: Seq<char>,
    fullname: Seq<char>,
    old: Option<Seq<char>>,
    new: Option<Seq<char>>,
) -> Seq<char> {
    if old == new {
        Seq::empty()
    } else {
        match new {
            Some(comment) => "comment on "@ + ty + " "@ + fullname + " is '"@ + comment + "';\n"@,
            None => "comment on "@ + ty + " "@ + fullname + " is null;\n"@,
        }
    }
}

/// Whether two optional texts agree.
fn same_comment(a: Option<&str>, b: Option<&str>) -> (r: bool)
    ensures
        r == (opt_str(a) == opt_str(b)),
{
    match a {
        Some(x) => match b {
            Some(y) => same_str(x, y),
            None => false,
        },
        None => b.is_none(),
    }
}

/// Writes the statement that turns the comment `old` of the object
/// `fullname`, which is a `ty`, into `new`.
pub fn comment(ty: &str, fullname: &str, old: Option<&str>, new: Option<&str>) -> (s: String)
    ensures
        s@ == comment_sql(ty@, fullname@, opt_str(old), opt_str(new)),
{
    if same_comment(old, new) {
        return String::new();
    }
    let mut s = String::from_str("comment on ");
    s.append(ty);
    s.append(" ");
    s.append(fullname);
    match new {
        Some(comment) => {
            s.append(" is '");
            s.append(comment);
            s.append("';\n");
        },
        None => {
            s.append(" is null;\n");
        },
    }
    s
}

/// No diff below this level.
pub open spec fn no_children<N>() -> spec_fn(N, N) -> () {
    |old: N, new: N| ()
}

/// The diffs of the children of a relation: its columns, its constraints and
/// its indexes.
#[derive(Debug)]
pub struct RelationComponents {
    pub column: Bag<inspect::Column, ()>,
    pub constraint: Bag<inspect::Constraint, ()>,
    pub index: Bag<inspect::Index, ()>,
}

/// The model of [`RelationComponents`].
pub struct RelationComponentsView {
    pub column: BagView<inspect::ColumnView, ()>,
    pub constraint: BagView<inspect::ConstraintView, ()>,
    pub index: BagView<inspect::IndexView, ()>,
}

impl RelationComponentsView {
    /// The diffs that hold nothing.
    pub open spec fn empty() -> Self {
        RelationComponentsView {
            column: BagView::empty(),
            constraint: BagView::empty(),
            index: BagView::empty(),
        }
    }
}

impl View for RelationComponents {
    type V = RelationComponentsView;

    open spec fn view(&self) -> RelationComponentsView {
        RelationComponentsView {
            column: self.column@,
            constraint: self.constraint@,
            index: self.index@,
        }
    }
}

impl RelationComponents {
    /// The diffs that hold nothing.
    pub fn new() -> (r: Self)
        ensures
            r@ == RelationComponentsView::empty(),
    {
        RelationComponents { column: Bag::new(), constraint: Bag::new(), index: Bag::new() }
    }
}

impl Sql for RelationComponents {
    /// The sections of a relation: columns, constraints, indexes.
    open spec fn text(v: RelationComponentsView) -> Seq<char> {
        bag_text::<inspect::Column, ()>(v.column) + bag_text::<inspect::Constraint, ()>(
            v.constraint,
        ) + bag_text::<inspect::Index, ()>(v.index)
    }

    fn sql(&self, output: &mut String) {
        let ghost start = output@;
        let ghost column = bag_text::<inspect::Column, ()>(self@.column);
        let ghost constraint = bag_text::<inspect::Constraint, ()>(self@.constraint);
        self.column.sql(output);
        self.constraint.sql(output);
        proof {
            lemma_add_assoc(start, column, constraint);
        }
        self.index.sql(output);
        proof {
            lemma_add_assoc(
                start,
                column + constraint,
                bag_text::<inspect::Index, ()>(self@.index),
            );
        }
    }
}

/// The diffs of the children of a schema, one for each kind of object.
#[derive(Debug)]
pub struct SchemaComponents {
    pub relation: Bag<inspect::Relation, RelationComponents>,
    pub enumeration: Bag<inspect::Enum, ()>,
    pub domain: Bag<inspect::Domain, Bag<inspect::Constraint, ()>>,
    pub composite: Bag<inspect::Composite, ()>,
    pub extension: Bag<inspect::Extension, ()>,
    pub function: Bag<inspect::Function, ()>,
    pub trigger: Bag<inspect::Trigger, ()>,
}

/// The model of [`SchemaComponents`].
pub struct SchemaComponentsView {
    pub relation: BagView<inspect::RelationView, RelationComponentsView>,
    pub enumeration: BagView<inspect::EnumView, ()>,
    pub domain: BagView<inspect::DomainView, BagView<inspect::ConstraintView, ()>>,
    pub composite: BagView<inspect::CompositeView, ()>,
    pub extension: BagView<inspect::ExtensionView, ()>,
    pub function: BagView<inspect::FunctionView, ()>,
    pub trigger: BagView<inspect::TriggerView, ()>,
}

impl View for SchemaComponents {
    type V = SchemaComponentsView;

    open spec fn view(&self) -> SchemaComponentsView {
        SchemaComponentsView {
            relation: self.relation@,
            enumeration: self.enumeration@,
            domain: self.domain@,
            composite: self.composite@,
            extension: self.extension@,
            function: self.function@,
            trigger: self.trigger@,
        }
    }
}

impl Sql for SchemaComponents {
    /// The sections of a schema: relations, enums, domains, composites,
    /// extensions, functions, triggers.
    open spec fn text(v: SchemaComponentsView) -> Seq<char> {
        bag_text::<inspect::Relation, RelationComponents>(v.relation) + bag_text::<
            inspect::Enum,
            (),
        >(v.enumeration) + bag_text::<inspect::Domain, Bag<inspect::Constraint, ()>>(v.domain)
            + bag_text::<inspect::Composite, ()>(v.composite) + bag_text::<inspect::Extension, ()>(
            v.extension,
        ) + bag_text::<inspect::Function, ()>(v.function) + bag_text::<inspect::Trigger, ()>(
            v.trigger,
        )
    }

    fn sql(&self, output: &mut String) {
        let ghost start = output@;
        let ghost relation = bag_text::<inspect::Relation, RelationComponents>(self@.relation);
        let ghost enumeration = bag_text::<inspect::Enum, ()>(self@.enumeration);
        let ghost domain = bag_text::<inspect::Domain, Bag<inspect::Constraint, ()>>(self@.domain);
        let ghost composite = bag_text::<inspect::Composite, ()>(self@.composite);
        let ghost extension = bag_text::<inspect::Extension, ()>(self@.extension);
        let ghost function = bag_text::<inspect::Function, ()>(self@.function);
        self.relation.sql(output);
        self.enumeration.sql(output);
        proof {
            lemma_add_assoc(start, relation, enumeration);
        }
        self.domain.sql(output);
        proof {
            lemma_add_assoc(start, relation + enumeration, domain);
        }
        self.composite.sql(output);
        proof {
            lemma_add_assoc(start, relation + enumeration + domain, composite);
        }
        self.extension.sql(output);
        proof {
            lemma_add_assoc(start, relation + enumeration + domain + composite, extension);
        }
        self.function.sql(output);
        proof {
            lemma_add_assoc(
                start,
                relation + enumeration + domain + composite + extension,
                function,
            );
        }
        self.trigger.sql(output);
        proof {
            lemma_add_assoc(
                start,
                relation + enumeration + domain + composite + extension + function,
                bag_text::<inspect::Trigger, ()>(self@.trigger),
            );
        }
    }
}

/// The diff of the columns, constraints and indexes of two states of a
/// relation.
pub open spec fn relation_diff(
    old: inspect::RelationView,
    new: inspect::RelationView,
) -> RelationComponentsView {
    RelationComponentsView {
        column: pair_maps::<inspect::Column, ()>(old.columns, new.columns, no_children()),
        constraint: pair_maps::<inspect::Constraint, ()>(
            old.constraints,
            new.constraints,
            no_children(),
        ),
        index: pair_maps::<inspect::Index, ()>(old.indexes, new.indexes, no_children()),
    }
}

/// The diff below a relation: that of its children where its new state is an
/// ordinary table, and nothing for any other kind.
pub open spec fn table_diff() -> spec_fn(
    inspect::RelationView,
    inspect::RelationView,
) -> RelationComponentsView {
    |old: inspect::RelationView, new: inspect::RelationView|
        if new.inner.kind == Kind::OrdinaryTable {
            relation_diff(old, new)
        } else {
            RelationComponentsView::empty()
        }
}

/// The diff of the constraints of two states of a domain.
pub open spec fn constraint_diff() -> spec_fn(inspect::DomainView, inspect::DomainView) -> BagView<
    inspect::ConstraintView,
    (),
> {
    |old: inspect::DomainView, new: inspect::DomainView|
        pair_maps::<inspect::Constraint, ()>(old.constraints, new.constraints, no_children())
}

/// The diff of the children of two states of a schema, kind by kind.
pub open spec fn schema_diff() -> spec_fn(
    inspect::SchemaView,
    inspect::SchemaView,
) -> SchemaComponentsView {
    |old: inspect::SchemaView, new: inspect::SchemaView|
        SchemaComponentsView {
            relation: pair_maps::<inspect::Relation, RelationComponentsView>(
                old.relations,
                new.relations,
                table_diff(),
            ),
            enumeration: pair_maps::<inspect::Enum, ()>(old.enums, new.enums, no_children()),
            domain: pair_maps::<inspect::Domain, BagView<inspect::ConstraintView, ()>>(
                old.domains,
                new.domains,
                constraint_diff(),
            ),
            composite: pair_maps::<inspect::Composite, ()>(
                old.composites,
                new.composites,
                no_children(),
            ),
            extension: pair_maps::<inspect::Extension, ()>(
                old.extensions,
                new.extensions,
                no_children(),
            ),
            function: pair_maps::<inspect::Function, ()>(
                old.functions,
                new.functions,
                no_children(),
            ),
            trigger: pair_maps::<inspect::Trigger, ()>(old.triggers, new.triggers, no_children()),
        }
}

/// The diff of two databases: the tree of what was added, removed and
/// updated, from the schemas down.
#[derive(Debug)]
pub struct Diff {
    pub schema: Bag<inspect::Schema, SchemaComponents>,
}

/// The model of [`Diff`].
pub struct DiffView {
    pub schema: BagView<inspect::SchemaView, SchemaComponentsView>,
}

impl View for Diff {
    type V = DiffView;

    open spec fn view(&self) -> DiffView {
        DiffView { schema: self.schema@ }
    }
}

impl DiffView {
    /// The diff that turns the database `old` into `new`.
    pub open spec fn from(old: inspect::DatabaseView, new: inspect::DatabaseView) -> DiffView {
        DiffView {
            schema: pair_maps::<inspect::Schema, SchemaComponentsView>(
                old.schemas,
                new.schemas,
                schema_diff(),
            ),
        }
    }

    /// The script of this diff: one transaction around the section of the
    /// schemas.
    pub open spec fn sql(self) -> Seq<char> {
        "begin;\n\n"@ + bag_text::<inspect::Schema, SchemaComponents>(self.schema) + "commit;\n"@
    }
}

/// Pairs the entries of two maps of objects that have nothing below them.
fn leaves<C: Comparable>(old: &OrderedMap<C>, new: &OrderedMap<C>) -> (bag: Bag<C, ()>)
    ensures
        bag@ == pair_maps::<C, ()>(old.model(), new.model(), no_children()),
{
    let next = |l: &C, r: &C| -> (u: ()) {};
    pair(old, new, next, Ghost(no_children()))
}

impl Diff {
    /// Computes what turns the database `old` into `new`.
    pub fn from(old: &inspect::Database, new: &inspect::Database) -> (diff: Self)
        ensures
            diff@ == DiffView::from(old@, new@),
    {
        let schema = Self::database(old, new);
        Diff { schema }
    }

    /// Pairs the schemas of two databases and descends into each schema that
    /// both have.
    pub fn database(old: &inspect::Database, new: &inspect::Database) -> (bag: Bag<
        inspect::Schema,
        SchemaComponents,
    >)
        ensures
            bag@ == DiffView::from(old@, new@).schema,
    {
        let next = |l: &inspect::Schema, r: &inspect::Schema| -> (c: SchemaComponents)
            ensures
                c@ == schema_diff()(l@, r@),
            { Self::schema(l, r) };
        pair(&old.schemas, &new.schemas, next, Ghost(schema_diff()))
    }

    /// Pairs the children of two states of a schema, kind by kind, and
    /// descends into each table and each domain that both have.
    pub fn schema(old: &inspect::Schema, new: &inspect::Schema) -> (c: SchemaComponents)
        ensures
            c@ == schema_diff()(old@, new@),
    {
        let tables = |l: &inspect::Relation, r: &inspect::Relation| -> (c: RelationComponents)
            ensures
                c@ == table_diff()(l@, r@),
            {
                if r.inner.kind == Kind::OrdinaryTable {
                    Self::relation(l, r)
                } else {
                    RelationComponents::new()
                }
            };
        let relation = pair(&old.relations, &new.relations, tables, Ghost(table_diff()));
        let enumeration = leaves(&old.enums, &new.enums);
        let constraints = |l: &inspect::Domain, r: &inspect::Domain| -> (c: Bag<
            inspect::Constraint,
            (),
        >)
            ensures
                c@ == constraint_diff()(l@, r@),
            { Self::constraint(l, r) };
        let domain = pair(&old.domains, &new.domains, constraints, Ghost(constraint_diff()));
        let composite = leaves(&old.composites, &new.composites);
        let extension = leaves(&old.extensions, &new.extensions);
        let function = leaves(&old.functions, &new.functions);
        let trigger = leaves(&old.triggers, &new.triggers);

        SchemaComponents { relation, enumeration, domain, composite, extension, function, trigger }
    }

    /// Pairs the columns, the constraints and the indexes of two states of a
    /// relation.
    pub fn relation(old: &inspect::Relation, new: &inspect::Relation) -> (c: RelationComponents)
        ensures
            c@ == relation_diff(old@, new@),
    {
        let column = leaves(&old.columns, &new.columns);
        let constraint = leaves(&old.constraints, &new.constraints);
        let index = leaves(&old.indexes, &new.indexes);

        RelationComponents { column, constraint, index }
    }

    /// Pairs the constraints of two states of a domain.
    pub fn constraint(old: &inspect::Domain, new: &inspect::Domain) -> (bag: Bag<
        inspect::Constraint,
        (),
    >)
        ensures
            bag@ == constraint_diff()(old@, new@),
    {
        leaves(&old.constraints, &new.constraints)
    }

    /// Writes the script: `begin;`, an empty line, the sections, `commit;`.
    pub fn sql(&self) -> (s: String)
        ensures
            s@ == self@.sql(),
    {
        let mut s = String::new();

        s.append("begin;\n\n");
        self.schema.sql(&mut s);
        s.append("commit;\n");

        s
    }
}

} // verus!
