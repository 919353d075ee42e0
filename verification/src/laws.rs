//! What holds of every diff and of every script.

use crate::compare::Comparable;
use crate::diff::absent_from;
use crate::diff::added_of;
use crate::diff::added_texts;
use crate::diff::bag_text;
use crate::diff::banner;
use crate::diff::beside;
use crate::diff::changed;
use crate::diff::child_texts;
use crate::diff::common_of;
use crate::diff::constraint_diff;
use crate::diff::no_children;
use crate::diff::pair_maps;
use crate::diff::present_in;
use crate::diff::relation_diff;
use crate::diff::removed_of;
use crate::diff::removed_texts;
use crate::diff::schema_diff;
use crate::diff::table_diff;
use crate::diff::updated_texts;
use crate::diff::Bag;
use crate::diff::BagView;
use crate::diff::DiffView;
use crate::diff::RelationComponents;
use crate::diff::RelationComponentsView;
use crate::diff::Render;
use crate::diff::SchemaComponents;
use crate::diff::Sql;
use crate::inspect;
use crate::ordered::has_key;
use crate::ordered::index_of;
use crate::ordered::lemma_filter_prefix;
use crate::ordered::lemma_filter_sorted;
use crate::ordered::lemma_index_of;
use crate::ordered::sorted;
use crate::ordered::value_of;
use crate::ordered::Entries;
use crate::text::concat;
use crate::text::lemma_concat_empty;
use crate::text::lemma_concat_split;
use vstd::seq_lib::lemma_flatten_concat;
use vstd::prelude::*;

verus! {

/// The diff of a map with itself: nothing is added, removed or updated, and
/// there is a child for each entry, paired with itself.
pub proof fn lemma_pair_identical<C: Comparable, K>(
    m: Entries<C::V>,
    recurse: spec_fn(C::V, C::V) -> K,
)
    requires
        sorted(m),
    ensures
        pair_maps::<C, K>(m, m, recurse).is_empty(),
        pair_maps::<C, K>(m, m, recurse).children.len() == m.len(),
        forall|i: int|
            0 <= i < m.len() ==> #[trigger] pair_maps::<C, K>(m, m, recurse).children[i]
                == recurse(m[i].1, m[i].1),
{
    assert forall|i: int| 0 <= i < m.len() implies present_in(m)(#[trigger] m[i]) && !absent_from(
        m,
    )(m[i]) by {
        lemma_index_of(m, i);
    }
    lemma_filter_prefix(m, absent_from(m), 0);
    lemma_filter_prefix(m, present_in(m), m.len() as int);
    assert(m.take(0) =~= Seq::empty());
    assert(m.take(m.len() as int) =~= m);
    let common = common_of(m, m);
    assert(common == m.map_values(beside(m)));
    assert forall|i: int| 0 <= i < common.len() implies !changed::<C>()(#[trigger] common[i])
        && common[i] == (m[i].1, m[i].1) by {
        lemma_index_of(m, i);
        C::lemma_same_reflexive(m[i].1);
    }
    lemma_filter_prefix(common, changed::<C>(), 0);
    assert(common.take(0) =~= Seq::empty());
}

/// A bag in which nothing was added, removed or updated, and whose children
/// have no statements, has no statements.
pub proof fn lemma_quiet_bag<C: Render, CH: Sql>(b: BagView<C::V, CH::V>)
    requires
        b.is_empty(),
        forall|i: int| 0 <= i < b.children.len() ==> CH::text(#[trigger] b.children[i]).len() == 0,
    ensures
        bag_text::<C, CH>(b) == Seq::<char>::empty(),
{
    lemma_concat_empty(added_texts::<C>(b.added));
    lemma_concat_empty(removed_texts::<C>(b.removed));
    lemma_concat_empty(updated_texts::<C>(b.updated));
    lemma_concat_empty(child_texts::<CH>(b.children));
    assert(bag_text::<C, CH>(b) =~= Seq::<char>::empty());
}

/// The diff of a map with itself has no statements, where the diff of each
/// value with itself has none.
pub proof fn lemma_identical_maps<C: Render, CH: Sql>(
    m: Entries<C::V>,
    recurse: spec_fn(C::V, C::V) -> CH::V,
)
    requires
        sorted(m),
        forall|i: int|
            0 <= i < m.len() ==> CH::text(recurse((#[trigger] m[i]).1, m[i].1)).len() == 0,
    ensures
        bag_text::<C, CH>(pair_maps::<C, CH::V>(m, m, recurse)) == Seq::<char>::empty(),
{
    lemma_pair_identical::<C, CH::V>(m, recurse);
    lemma_quiet_bag::<C, CH>(pair_maps::<C, CH::V>(m, m, recurse));
}

/// The diff of a map of objects with nothing below them with itself has no
/// statements.
pub proof fn lemma_identical_leaves<C: Render>(m: Entries<C::V>)
    requires
        sorted(m),
    ensures
        bag_text::<C, ()>(pair_maps::<C, ()>(m, m, no_children())) == Seq::<char>::empty(),
{
    lemma_identical_maps::<C, ()>(m, no_children());
}

/// Nothing below a relation differs from itself.
pub proof fn lemma_identical_relation(r: inspect::RelationView)
    requires
        r.wf(),
    ensures
        RelationComponents::text(relation_diff(r, r)) == Seq::<char>::empty(),
        RelationComponents::text(table_diff()(r, r)) == Seq::<char>::empty(),
{
    lemma_identical_leaves::<inspect::Column>(r.columns);
    lemma_identical_leaves::<inspect::Constraint>(r.constraints);
    lemma_identical_leaves::<inspect::Index>(r.indexes);
    lemma_no_components();
    assert(RelationComponents::text(relation_diff(r, r)) =~= Seq::<char>::empty());
}

/// The components that hold nothing have no statements.
proof fn lemma_no_components()
    ensures
        RelationComponents::text(RelationComponentsView::empty()) == Seq::<char>::empty(),
{
    lemma_quiet_bag::<inspect::Column, ()>(BagView::empty());
    lemma_quiet_bag::<inspect::Constraint, ()>(BagView::empty());
    lemma_quiet_bag::<inspect::Index, ()>(BagView::empty());
    assert(RelationComponents::text(RelationComponentsView::empty()) =~= Seq::<char>::empty());
}

/// Nothing below a domain differs from itself.
pub proof fn lemma_identical_domain(d: inspect::DomainView)
    requires
        d.wf(),
    ensures
        Bag::<inspect::Constraint, ()>::text(constraint_diff()(d, d)) == Seq::<char>::empty(),
{
    lemma_identical_leaves::<inspect::Constraint>(d.constraints);
}

/// Nothing below a schema differs from itself.
pub proof fn lemma_identical_schema(s: inspect::SchemaView)
    requires
        s.wf(),
    ensures
        SchemaComponents::text(schema_diff()(s, s)) == Seq::<char>::empty(),
{
    assert forall|i: int| 0 <= i < s.relations.len() implies RelationComponents::text(
        table_diff()((#[trigger] s.relations[i]).1, s.relations[i].1),
    ).len() == 0 by {
        lemma_identical_relation(s.relations[i].1);
    }
    lemma_identical_maps::<inspect::Relation, RelationComponents>(s.relations, table_diff());
    lemma_identical_leaves::<inspect::Enum>(s.enums);
    assert forall|i: int| 0 <= i < s.domains.len() implies Bag::<inspect::Constraint, ()>::text(
        constraint_diff()((#[trigger] s.domains[i]).1, s.domains[i].1),
    ).len() == 0 by {
        lemma_identical_domain(s.domains[i].1);
    }
    lemma_identical_maps::<inspect::Domain, Bag<inspect::Constraint, ()>>(
        s.domains,
        constraint_diff(),
    );
    lemma_identical_leaves::<inspect::Composite>(s.composites);
    lemma_identical_leaves::<inspect::Extension>(s.extensions);
    lemma_identical_leaves::<inspect::Function>(s.functions);
    lemma_identical_leaves::<inspect::Trigger>(s.triggers);
    assert(SchemaComponents::text(schema_diff()(s, s)) =~= Seq::<char>::empty());
}

/// The script that turns a database into itself is the empty transaction.
pub proof fn lemma_identical_databases(d: inspect::DatabaseView)
    requires
        d.wf(),
    ensures
        DiffView::from(d, d).sql() == "begin;\n\ncommit;\n"@,
{
    assert forall|i: int| 0 <= i < d.schemas.len() implies SchemaComponents::text(
        schema_diff()((#[trigger] d.schemas[i]).1, d.schemas[i].1),
    ).len() == 0 by {
        lemma_identical_schema(d.schemas[i].1);
    }
    lemma_identical_maps::<inspect::Schema, SchemaComponents>(d.schemas, schema_diff());
    reveal_strlit("begin;\n\n");
    reveal_strlit("commit;\n");
    reveal_strlit("begin;\n\ncommit;\n");
    assert(DiffView::from(d, d).sql() =~= "begin;\n\ncommit;\n"@);
}

/// Every script opens the transaction first and commits it last.
pub proof fn lemma_script_is_one_transaction(d: DiffView)
    ensures
        "begin;\n\n"@.is_prefix_of(d.sql()),
        "commit;\n"@.is_suffix_of(d.sql()),
{
    let body = bag_text::<inspect::Schema, SchemaComponents>(d.schema);
    let s = d.sql();
    assert(s.subrange(0, "begin;\n\n"@.len() as int) =~= "begin;\n\n"@);
    assert(s.subrange(s.len() - "commit;\n"@.len(), s.len() as int) =~= "commit;\n"@);
}

/// `text` is `a`, `first`, `b`, `second` and `c`, one after the other.
pub open spec fn parts_are(
    text: Seq<char>,
    a: Seq<char>,
    first: Seq<char>,
    b: Seq<char>,
    second: Seq<char>,
    c: Seq<char>,
) -> bool {
    text == a + first + b + second + c
}

/// `first` stands in `text` before `second`, and the two do not overlap.
pub open spec fn precedes(text: Seq<char>, first: Seq<char>, second: Seq<char>) -> bool {
    exists|a: Seq<char>, b: Seq<char>, c: Seq<char>| #[trigger]
        parts_are(text, a, first, b, second, c)
}

/// Of two parts of a text, the earlier one precedes the later one.
pub proof fn lemma_parts_in_order(parts: Seq<Seq<char>>, i: int, j: int)
    requires
        0 <= i < j < parts.len(),
    ensures
        precedes(concat(parts), parts[i], parts[j]),
{
    let rest = parts.skip(i + 1);
    lemma_concat_split(parts, i);
    lemma_concat_split(rest, j - i - 1);
    let a = concat(parts.take(i));
    let b = concat(rest.take(j - i - 1));
    let c = concat(rest.skip(j - i));
    assert(rest[j - i - 1] == parts[j]);
    assert(concat(parts) =~= a + parts[i] + b + parts[j] + c);
    assert(parts_are(concat(parts), a, parts[i], b, parts[j], c));
}

/// What a bag writes between its banner and its closing empty line, piece
/// by piece: what creates each added node, what drops each removed node,
/// what changes each updated pair, and the section of each child.
pub open spec fn statements<C: Render, CH: Sql>(b: BagView<C::V, CH::V>) -> Seq<Seq<char>> {
    added_texts::<C>(b.added) + removed_texts::<C>(b.removed) + updated_texts::<C>(b.updated)
        + child_texts::<CH>(b.children)
}

/// The banner of a bag, where it has one.
pub open spec fn opening<C: Render, CH: Sql>(b: BagView<C::V, CH::V>) -> Seq<char> {
    if b.is_empty() {
        Seq::empty()
    } else {
        banner(C::title())
    }
}

/// The empty line that closes the section of a bag, where it has a banner.
pub open spec fn closing<C: Render, CH: Sql>(b: BagView<C::V, CH::V>) -> Seq<char> {
    if b.is_empty() {
        Seq::empty()
    } else {
        "\n"@
    }
}

/// The section of a bag is its banner, its statements in the order of
/// [`statements`], and its closing line.
pub proof fn lemma_section<C: Render, CH: Sql>(b: BagView<C::V, CH::V>)
    ensures
        bag_text::<C, CH>(b) == opening::<C, CH>(b) + concat(statements::<C, CH>(b)) + closing::<
            C,
            CH,
        >(b),
{
    let a = added_texts::<C>(b.added);
    let r = removed_texts::<C>(b.removed);
    let u = updated_texts::<C>(b.updated);
    let k = child_texts::<CH>(b.children);
    lemma_flatten_concat(a, r);
    lemma_flatten_concat(a + r, u);
    lemma_flatten_concat(a + r + u, k);
    assert(bag_text::<C, CH>(b) =~= opening::<C, CH>(b) + concat(statements::<C, CH>(b))
        + closing::<C, CH>(b));
}

/// Within one section the statements stand in the order of [`statements`]:
/// every addition before every removal, every removal before every update,
/// every update before every child, and each of these in the order of the
/// bag.
pub proof fn lemma_statement_order<C: Render, CH: Sql>(b: BagView<C::V, CH::V>, i: int, j: int)
    requires
        0 <= i < j < statements::<C, CH>(b).len(),
    ensures
        precedes(bag_text::<C, CH>(b), statements::<C, CH>(b)[i], statements::<C, CH>(b)[j]),
{
    let parts = statements::<C, CH>(b);
    lemma_section::<C, CH>(b);
    lemma_parts_in_order(parts, i, j);
    let (x, y, z) = choose|x: Seq<char>, y: Seq<char>, z: Seq<char>| #[trigger]
        parts_are(concat(parts), x, parts[i], y, parts[j], z);
    let head = opening::<C, CH>(b);
    let tail = closing::<C, CH>(b);
    assert(bag_text::<C, CH>(b) =~= (head + x) + parts[i] + y + parts[j] + (z + tail));
    assert(parts_are(bag_text::<C, CH>(b), head + x, parts[i], y, parts[j], z + tail));
}

/// What is added, what is removed and what is paired come in the order of
/// their keys: the entries of the new map whose key the old map lacks, the
/// entries of the old map whose key the new map lacks, and the entries of
/// the new map whose key the old map has are each sorted by key.
pub proof fn lemma_walk_in_key_order<T>(old: Entries<T>, new: Entries<T>)
    requires
        sorted(old),
        sorted(new),
    ensures
        sorted(new.filter(absent_from(old))),
        sorted(old.filter(absent_from(new))),
        sorted(new.filter(present_in(old))),
{
    lemma_filter_sorted(new, absent_from(old));
    lemma_filter_sorted(old, absent_from(new));
    lemma_filter_sorted(new, present_in(old));
}

/// The value under a key that only the new map has is among the added.
pub proof fn lemma_added_member<T>(old: Entries<T>, new: Entries<T>, k: Seq<char>)
    requires
        has_key(new, k),
        !has_key(old, k),
    ensures
        exists|i: int|
            0 <= i < added_of(old, new).len() && #[trigger] added_of(old, new)[i] == value_of(
                new,
                k,
            ),
{
    let at = index_of(new, k);
    new.lemma_filter_contains(absent_from(old), at);
    let kept = new.filter(absent_from(old));
    let i = choose|i: int| 0 <= i < kept.len() && kept[i] == new[at];
    assert(added_of(old, new)[i] == value_of(new, k));
}

/// The value under a key that only the old map has is among the removed.
pub proof fn lemma_removed_member<T>(old: Entries<T>, new: Entries<T>, k: Seq<char>)
    requires
        has_key(old, k),
        !has_key(new, k),
    ensures
        exists|i: int|
            0 <= i < removed_of(old, new).len() && #[trigger] removed_of(old, new)[i] == value_of(
                old,
                k,
            ),
{
    let at = index_of(old, k);
    old.lemma_filter_contains(absent_from(new), at);
    let kept = old.filter(absent_from(new));
    let i = choose|i: int| 0 <= i < kept.len() && kept[i] == old[at];
    assert(removed_of(old, new)[i] == value_of(old, k));
}

/// In the section of two maps, what creates the value of a key that only the
/// new map has stands before what drops the value of a key that only the old
/// map has.
pub proof fn lemma_add_precedes_remove<C: Render, CH: Sql>(
    old: Entries<C::V>,
    new: Entries<C::V>,
    recurse: spec_fn(C::V, C::V) -> CH::V,
    born: Seq<char>,
    gone: Seq<char>,
)
    requires
        has_key(new, born),
        !has_key(old, born),
        has_key(old, gone),
        !has_key(new, gone),
    ensures
        precedes(
            bag_text::<C, CH>(pair_maps::<C, CH::V>(old, new, recurse)),
            C::added_sql(value_of(new, born)),
            C::removed_sql(value_of(old, gone)),
        ),
{
    let b = pair_maps::<C, CH::V>(old, new, recurse);
    lemma_added_member(old, new, born);
    lemma_removed_member(old, new, gone);
    let i = choose|i: int|
        0 <= i < added_of(old, new).len() && #[trigger] added_of(old, new)[i] == value_of(
            new,
            born,
        );
    let j = choose|j: int|
        0 <= j < removed_of(old, new).len() && #[trigger] removed_of(old, new)[j] == value_of(
            old,
            gone,
        );
    lemma_statement_order::<C, CH>(b, i, b.added.len() + j);
}

} // verus!
