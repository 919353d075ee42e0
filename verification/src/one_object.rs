//! What the script is where two databases differ by one object only: the
//! section of that object, and nothing for the rest.
//!
//! The statements come in layers. Where one map of a node changes, the
//! sections below the node are the section of that map (`lemma_only_..`).
//! One entry more or less in a map gives one section with the one statement
//! that creates or drops the object (`lemma_.._added`, `lemma_.._dropped`).
//! A change below a node is all that its parent writes, where the node
//! itself stays (`lemma_inside_..`). [`lemma_column_added`] puts the three
//! together, from a column up to the whole script.

use crate::catalog;
use crate::catalog::Kind;
use crate::compare::Comparable;
use crate::diff::bag_text;
use crate::diff::banner;
use crate::diff::constraint_diff;
use crate::diff::no_children;
use crate::diff::pair_maps;
use crate::diff::relation_diff;
use crate::diff::schema_diff;
use crate::diff::table_diff;
use crate::diff::Bag;
use crate::diff::BagView;
use crate::diff::DiffView;
use crate::diff::RelationComponents;
use crate::diff::RelationComponentsView;
use crate::diff::Render;
use crate::diff::SchemaComponents;
use crate::diff::Sql;
use crate::inspect;
use crate::laws::lemma_identical_domain;
use crate::laws::lemma_identical_leaves;
use crate::laws::lemma_identical_maps;
use crate::laws::lemma_identical_relation;
use crate::laws::lemma_identical_schema;
use crate::ordered::has_key;
use crate::ordered::sorted;
use crate::ordered::with_entry;
use crate::ordered::Entries;
use crate::one_entry::lemma_new_key;
use crate::one_entry::lemma_one_added;
use crate::one_entry::lemma_one_child;
use crate::one_entry::lemma_one_removed;
use crate::one_entry::lemma_one_updated;
use crate::one_entry::same_keys;
use crate::text::key_before;
use vstd::prelude::*;

verus! {

/// Where only the columns of a relation change, the sections below it are
/// the section of its columns.
pub proof fn lemma_only_columns(r: inspect::RelationView, columns: Entries<inspect::ColumnView>)
    requires
        r.wf(),
    ensures
        RelationComponents::text(
            relation_diff(r, inspect::RelationView { columns, ..r }),
        ) == bag_text::<inspect::Column, ()>(
            pair_maps::<inspect::Column, ()>(r.columns, columns, no_children()),
        ),
{
    lemma_identical_leaves::<inspect::Constraint>(r.constraints);
    lemma_identical_leaves::<inspect::Index>(r.indexes);
    let e = Seq::<char>::empty();
    let t = bag_text::<inspect::Column, ()>(
        pair_maps::<inspect::Column, ()>(r.columns, columns, no_children()),
    );
    assert(t + e + e =~= t);
}

/// Where only the constraints of a relation change, the sections below it
/// are the section of its constraints.
pub proof fn lemma_only_constraints(
    r: inspect::RelationView,
    constraints: Entries<inspect::ConstraintView>,
)
    requires
        r.wf(),
    ensures
        RelationComponents::text(
            relation_diff(r, inspect::RelationView { constraints, ..r }),
        ) == bag_text::<inspect::Constraint, ()>(
            pair_maps::<inspect::Constraint, ()>(r.constraints, constraints, no_children()),
        ),
{
    lemma_identical_leaves::<inspect::Column>(r.columns);
    lemma_identical_leaves::<inspect::Index>(r.indexes);
    let e = Seq::<char>::empty();
    let t = bag_text::<inspect::Constraint, ()>(
        pair_maps::<inspect::Constraint, ()>(r.constraints, constraints, no_children()),
    );
    assert(e + t + e =~= t);
}

/// Where only the indexes of a relation change, the sections below it are
/// the section of its indexes.
pub proof fn lemma_only_indexes(r: inspect::RelationView, indexes: Entries<inspect::IndexView>)
    requires
        r.wf(),
    ensures
        RelationComponents::text(
            relation_diff(r, inspect::RelationView { indexes, ..r }),
        ) == bag_text::<inspect::Index, ()>(
            pair_maps::<inspect::Index, ()>(r.indexes, indexes, no_children()),
        ),
{
    lemma_identical_leaves::<inspect::Column>(r.columns);
    lemma_identical_leaves::<inspect::Constraint>(r.constraints);
    let e = Seq::<char>::empty();
    let t = bag_text::<inspect::Index, ()>(
        pair_maps::<inspect::Index, ()>(r.indexes, indexes, no_children()),
    );
    assert(e + e + t =~= t);
}

/// The section of each kind of object of a schema that is as it was is
/// empty.
proof fn lemma_schema_sections_quiet(s: inspect::SchemaView)
    requires
        s.wf(),
    ensures
        bag_text::<inspect::Relation, RelationComponents>(
            pair_maps::<inspect::Relation, RelationComponentsView>(
                s.relations,
                s.relations,
                table_diff(),
            ),
        ) == Seq::<char>::empty(),
        bag_text::<inspect::Enum, ()>(
            pair_maps::<inspect::Enum, ()>(s.enums, s.enums, no_children()),
        ) == Seq::<char>::empty(),
        bag_text::<inspect::Domain, Bag<inspect::Constraint, ()>>(
            pair_maps::<inspect::Domain, BagView<inspect::ConstraintView, ()>>(
                s.domains,
                s.domains,
                constraint_diff(),
            ),
        ) == Seq::<char>::empty(),
        bag_text::<inspect::Composite, ()>(
            pair_maps::<inspect::Composite, ()>(s.composites, s.composites, no_children()),
        ) == Seq::<char>::empty(),
        bag_text::<inspect::Extension, ()>(
            pair_maps::<inspect::Extension, ()>(s.extensions, s.extensions, no_children()),
        ) == Seq::<char>::empty(),
        bag_text::<inspect::Function, ()>(
            pair_maps::<inspect::Function, ()>(s.functions, s.functions, no_children()),
        ) == Seq::<char>::empty(),
        bag_text::<inspect::Trigger, ()>(
            pair_maps::<inspect::Trigger, ()>(s.triggers, s.triggers, no_children()),
        ) == Seq::<char>::empty(),
{
    assert forall|i: int| 0 <= i < s.relations.len() implies RelationComponents::text(
        table_diff()((#[trigger] s.relations[i]).1, s.relations[i].1),
    ).len() == 0 by {
        lemma_identical_relation(s.relations[i].1);
    }
    lemma_identical_maps::<inspect::Relation, RelationComponents>(s.relations, table_diff());
    lemma_identical_leaves::<inspect::Enum>(s.enums);
    assert forall|i: int| 0 <= i < s.domains.len() implies Bag::<inspect::Constraint, ()>::text(
        constraint_diff()((#[trigger] s.domains[i]).1, s.domains[i].1),
    ).len() == 0 by {
        lemma_identical_domain(s.domains[i].1);
    }
    lemma_identical_maps::<inspect::Domain, Bag<inspect::Constraint, ()>>(
        s.domains,
        constraint_diff(),
    );
    lemma_identical_leaves::<inspect::Composite>(s.composites);
    lemma_identical_leaves::<inspect::Extension>(s.extensions);
    lemma_identical_leaves::<inspect::Function>(s.functions);
    lemma_identical_leaves::<inspect::Trigger>(s.triggers);
}

/// Where only the relations of a schema change, the sections below it are the section of its
/// relations.
pub proof fn lemma_only_relations(s: inspect::SchemaView, relations: Entries<inspect::RelationView>)
    requires
        s.wf(),
    ensures
        SchemaComponents::text(
            schema_diff()(s, inspect::SchemaView { relations, ..s }),
        ) == bag_text::<inspect::Relation, RelationComponents>(
            pair_maps::<inspect::Relation, RelationComponentsView>(
                s.relations,
                relations,
                table_diff(),
            ),
        ),
{
    lemma_schema_sections_quiet(s);
    let e = Seq::<char>::empty();
    let t = bag_text::<inspect::Relation, RelationComponents>(
        pair_maps::<inspect::Relation, RelationComponentsView>(
            s.relations,
            relations,
            table_diff(),
        ),
    );
    assert(t + e + e + e + e + e + e =~= t);
}

/// Where only the enums of a schema change, the sections below it are the section of its
/// enums.
pub proof fn lemma_only_enums(s: inspect::SchemaView, enums: Entries<inspect::EnumView>)
    requires
        s.wf(),
    ensures
        SchemaComponents::text(
            schema_diff()(s, inspect::SchemaView { enums, ..s }),
        ) == bag_text::<inspect::Enum, ()>(
            pair_maps::<inspect::Enum, ()>(s.enums, enums, no_children()),
        ),
{
    lemma_schema_sections_quiet(s);
    let e = Seq::<char>::empty();
    let t = bag_text::<inspect::Enum, ()>(
        pair_maps::<inspect::Enum, ()>(s.enums, enums, no_children()),
    );
    assert(e + t + e + e + e + e + e =~= t);
}

/// Where only the domains of a schema change, the sections below it are the section of its
/// domains.
pub proof fn lemma_only_domains(s: inspect::SchemaView, domains: Entries<inspect::DomainView>)
    requires
        s.wf(),
    ensures
        SchemaComponents::text(
            schema_diff()(s, inspect::SchemaView { domains, ..s }),
        ) == bag_text::<inspect::Domain, Bag<inspect::Constraint, ()>>(
            pair_maps::<inspect::Domain, BagView<inspect::ConstraintView, ()>>(
                s.domains,
                domains,
                constraint_diff(),
            ),
        ),
{
    lemma_schema_sections_quiet(s);
    let e = Seq::<char>::empty();
    let t = bag_text::<inspect::Domain, Bag<inspect::Constraint, ()>>(
        pair_maps::<inspect::Domain, BagView<inspect::ConstraintView, ()>>(
            s.domains,
            domains,
            constraint_diff(),
        ),
    );
    assert(e + e + t + e + e + e + e =~= t);
}

/// Where only the composite types of a schema change, the sections below it are the section of its
/// composite types.
pub proof fn lemma_only_composites(
    s: inspect::SchemaView,
    composites: Entries<inspect::CompositeView>,
)
    requires
        s.wf(),
    ensures
        SchemaComponents::text(
            schema_diff()(s, inspect::SchemaView { composites, ..s }),
        ) == bag_text::<inspect::Composite, ()>(
            pair_maps::<inspect::Composite, ()>(s.composites, composites, no_children()),
        ),
{
    lemma_schema_sections_quiet(s);
    let e = Seq::<char>::empty();
    let t = bag_text::<inspect::Composite, ()>(
        pair_maps::<inspect::Composite, ()>(s.composites, composites, no_children()),
    );
    assert(e + e + e + t + e + e + e =~= t);
}

/// Where only the extensions of a schema change, the sections below it are the section of its
/// extensions.
pub proof fn lemma_only_extensions(
    s: inspect::SchemaView,
    extensions: Entries<inspect::ExtensionView>,
)
    requires
        s.wf(),
    ensures
        SchemaComponents::text(
            schema_diff()(s, inspect::SchemaView { extensions, ..s }),
        ) == bag_text::<inspect::Extension, ()>(
            pair_maps::<inspect::Extension, ()>(s.extensions, extensions, no_children()),
        ),
{
    lemma_schema_sections_quiet(s);
    let e = Seq::<char>::empty();
    let t = bag_text::<inspect::Extension, ()>(
        pair_maps::<inspect::Extension, ()>(s.extensions, extensions, no_children()),
    );
    assert(e + e + e + e + t + e + e =~= t);
}

/// Where only the functions of a schema change, the sections below it are the section of its
/// functions.
pub proof fn lemma_only_functions(s: inspect::SchemaView, functions: Entries<inspect::FunctionView>)
    requires
        s.wf(),
    ensures
        SchemaComponents::text(
            schema_diff()(s, inspect::SchemaView { functions, ..s }),
        ) == bag_text::<inspect::Function, ()>(
            pair_maps::<inspect::Function, ()>(s.functions, functions, no_children()),
        ),
{
    lemma_schema_sections_quiet(s);
    let e = Seq::<char>::empty();
    let t = bag_text::<inspect::Function, ()>(
        pair_maps::<inspect::Function, ()>(s.functions, functions, no_children()),
    );
    assert(e + e + e + e + e + t + e =~= t);
}

/// Where only the triggers of a schema change, the sections below it are the section of its
/// triggers.
pub proof fn lemma_only_triggers(s: inspect::SchemaView, triggers: Entries<inspect::TriggerView>)
    requires
        s.wf(),
    ensures
        SchemaComponents::text(
            schema_diff()(s, inspect::SchemaView { triggers, ..s }),
        ) == bag_text::<inspect::Trigger, ()>(
            pair_maps::<inspect::Trigger, ()>(s.triggers, triggers, no_children()),
        ),
{
    lemma_schema_sections_quiet(s);
    let e = Seq::<char>::empty();
    let t = bag_text::<inspect::Trigger, ()>(
        pair_maps::<inspect::Trigger, ()>(s.triggers, triggers, no_children()),
    );
    assert(e + e + e + e + e + e + t =~= t);
}

/// A schema with one relation more: its sections are the section that
/// creates it.
pub proof fn lemma_relation_added(s: inspect::SchemaView, k: Seq<char>, x: inspect::RelationView)
    requires
        s.wf(),
        !has_key(s.relations, k),
    ensures
        SchemaComponents::text(
            schema_diff()(s, inspect::SchemaView { relations: with_entry(s.relations, k, x), ..s }),
        ) == banner(inspect::Relation::title()) + inspect::Relation::added_sql(x) + "\n"@,
{
    lemma_only_relations(s, with_entry(s.relations, k, x));
    assert forall|i: int| 0 <= i < s.relations.len() implies RelationComponents::text(
        table_diff()((#[trigger] s.relations[i]).1, s.relations[i].1),
    ).len() == 0 by {
        lemma_identical_relation(s.relations[i].1);
    }
    lemma_one_added::<inspect::Relation, RelationComponents>(s.relations, k, x, table_diff());
}

/// A schema with one relation less: its sections are the section that
/// drops it.
pub proof fn lemma_relation_dropped(s: inspect::SchemaView, k: Seq<char>, x: inspect::RelationView)
    requires
        s.wf(),
        !has_key(s.relations, k),
        x.wf(),
    ensures
        SchemaComponents::text(
            schema_diff()(inspect::SchemaView { relations: with_entry(s.relations, k, x), ..s }, s),
        ) == banner(inspect::Relation::title()) + inspect::Relation::removed_sql(x) + "\n"@,
{
    let larger = inspect::SchemaView { relations: with_entry(s.relations, k, x), ..s };
    lemma_new_key(s.relations, k, x);
    assert(larger.wf());
    lemma_only_relations(larger, s.relations);
    assert(inspect::SchemaView { relations: s.relations, ..larger } == s);
    assert forall|i: int| 0 <= i < s.relations.len() implies RelationComponents::text(
        table_diff()((#[trigger] s.relations[i]).1, s.relations[i].1),
    ).len() == 0 by {
        lemma_identical_relation(s.relations[i].1);
    }
    lemma_one_removed::<inspect::Relation, RelationComponents>(s.relations, k, x, table_diff());
}

/// A schema with one enum more: its sections are the section that
/// creates it.
pub proof fn lemma_enum_added(s: inspect::SchemaView, k: Seq<char>, x: inspect::EnumView)
    requires
        s.wf(),
        !has_key(s.enums, k),
    ensures
        SchemaComponents::text(
            schema_diff()(s, inspect::SchemaView { enums: with_entry(s.enums, k, x), ..s }),
        ) == banner(inspect::Enum::title()) + inspect::Enum::added_sql(x) + "\n"@,
{
    lemma_only_enums(s, with_entry(s.enums, k, x));
    lemma_one_added::<inspect::Enum, ()>(s.enums, k, x, no_children());
}

/// A schema with one enum less: its sections are the section that
/// drops it.
pub proof fn lemma_enum_dropped(s: inspect::SchemaView, k: Seq<char>, x: inspect::EnumView)
    requires
        s.wf(),
        !has_key(s.enums, k),
    ensures
        SchemaComponents::text(
            schema_diff()(inspect::SchemaView { enums: with_entry(s.enums, k, x), ..s }, s),
        ) == banner(inspect::Enum::title()) + inspect::Enum::removed_sql(x) + "\n"@,
{
    let larger = inspect::SchemaView { enums: with_entry(s.enums, k, x), ..s };
    lemma_new_key(s.enums, k, x);
    assert(larger.wf());
    lemma_only_enums(larger, s.enums);
    assert(inspect::SchemaView { enums: s.enums, ..larger } == s);
    lemma_one_removed::<inspect::Enum, ()>(s.enums, k, x, no_children());
}

/// A schema with one domain more: its sections are the section that
/// creates it.
pub proof fn lemma_domain_added(s: inspect::SchemaView, k: Seq<char>, x: inspect::DomainView)
    requires
        s.wf(),
        !has_key(s.domains, k),
    ensures
        SchemaComponents::text(
            schema_diff()(s, inspect::SchemaView { domains: with_entry(s.domains, k, x), ..s }),
        ) == banner(inspect::Domain::title()) + inspect::Domain::added_sql(x) + "\n"@,
{
    lemma_only_domains(s, with_entry(s.domains, k, x));
    assert forall|i: int| 0 <= i < s.domains.len() implies Bag::<inspect::Constraint, ()>::text(
        constraint_diff()((#[trigger] s.domains[i]).1, s.domains[i].1),
    ).len() == 0 by {
        lemma_identical_domain(s.domains[i].1);
    }
    lemma_one_added::<inspect::Domain, Bag<inspect::Constraint, ()>>(
        s.domains,
        k,
        x,
        constraint_diff(),
    );
}

/// A schema with one domain less: its sections are the section that
/// drops it.
pub proof fn lemma_domain_dropped(s: inspect::SchemaView, k: Seq<char>, x: inspect::DomainView)
    requires
        s.wf(),
        !has_key(s.domains, k),
        x.wf(),
    ensures
        SchemaComponents::text(
            schema_diff()(inspect::SchemaView { domains: with_entry(s.domains, k, x), ..s }, s),
        ) == banner(inspect::Domain::title()) + inspect::Domain::removed_sql(x) + "\n"@,
{
    let larger = inspect::SchemaView { domains: with_entry(s.domains, k, x), ..s };
    lemma_new_key(s.domains, k, x);
    assert(larger.wf());
    lemma_only_domains(larger, s.domains);
    assert(inspect::SchemaView { domains: s.domains, ..larger } == s);
    assert forall|i: int| 0 <= i < s.domains.len() implies Bag::<inspect::Constraint, ()>::text(
        constraint_diff()((#[trigger] s.domains[i]).1, s.domains[i].1),
    ).len() == 0 by {
        lemma_identical_domain(s.domains[i].1);
    }
    lemma_one_removed::<inspect::Domain, Bag<inspect::Constraint, ()>>(
        s.domains,
        k,
        x,
        constraint_diff(),
    );
}

/// A schema with one composite more: its sections are the section that
/// creates it.
pub proof fn lemma_composite_added(s: inspect::SchemaView, k: Seq<char>, x: inspect::CompositeView)
    requires
        s.wf(),
        !has_key(s.composites, k),
    ensures
        SchemaComponents::text(
            schema_diff()(
                s,
                inspect::SchemaView { composites: with_entry(s.composites, k, x), ..s },
            ),
        ) == banner(inspect::Composite::title()) + inspect::Composite::added_sql(x) + "\n"@,
{
    lemma_only_composites(s, with_entry(s.composites, k, x));
    lemma_one_added::<inspect::Composite, ()>(s.composites, k, x, no_children());
}

/// A schema with one composite less: its sections are the section that
/// drops it.
pub proof fn lemma_composite_dropped(
    s: inspect::SchemaView,
    k: Seq<char>,
    x: inspect::CompositeView,
)
    requires
        s.wf(),
        !has_key(s.composites, k),
    ensures
        SchemaComponents::text(
            schema_diff()(
                inspect::SchemaView { composites: with_entry(s.composites, k, x), ..s },
                s,
            ),
        ) == banner(inspect::Composite::title()) + inspect::Composite::removed_sql(x) + "\n"@,
{
    let larger = inspect::SchemaView { composites: with_entry(s.composites, k, x), ..s };
    lemma_new_key(s.composites, k, x);
    assert(larger.wf());
    lemma_only_composites(larger, s.composites);
    assert(inspect::SchemaView { composites: s.composites, ..larger } == s);
    lemma_one_removed::<inspect::Composite, ()>(s.composites, k, x, no_children());
}

/// A schema with one extension more: its sections are the section that
/// creates it.
pub proof fn lemma_extension_added(s: inspect::SchemaView, k: Seq<char>, x: inspect::ExtensionView)
    requires
        s.wf(),
        !has_key(s.extensions, k),
    ensures
        SchemaComponents::text(
            schema_diff()(
                s,
                inspect::SchemaView { extensions: with_entry(s.extensions, k, x), ..s },
            ),
        ) == banner(inspect::Extension::title()) + inspect::Extension::added_sql(x) + "\n"@,
{
    lemma_only_extensions(s, with_entry(s.extensions, k, x));
    lemma_one_added::<inspect::Extension, ()>(s.extensions, k, x, no_children());
}

/// A schema with one extension less: its sections are the section that
/// drops it.
pub proof fn lemma_extension_dropped(
    s: inspect::SchemaView,
    k: Seq<char>,
    x: inspect::ExtensionView,
)
    requires
        s.wf(),
        !has_key(s.extensions, k),
    ensures
        SchemaComponents::text(
            schema_diff()(
                inspect::SchemaView { extensions: with_entry(s.extensions, k, x), ..s },
                s,
            ),
        ) == banner(inspect::Extension::title()) + inspect::Extension::removed_sql(x) + "\n"@,
{
    let larger = inspect::SchemaView { extensions: with_entry(s.extensions, k, x), ..s };
    lemma_new_key(s.extensions, k, x);
    assert(larger.wf());
    lemma_only_extensions(larger, s.extensions);
    assert(inspect::SchemaView { extensions: s.extensions, ..larger } == s);
    lemma_one_removed::<inspect::Extension, ()>(s.extensions, k, x, no_children());
}

/// A schema with one function more: its sections are the section that
/// creates it.
pub proof fn lemma_function_added(s: inspect::SchemaView, k: Seq<char>, x: inspect::FunctionView)
    requires
        s.wf(),
        !has_key(s.functions, k),
    ensures
        SchemaComponents::text(
            schema_diff()(s, inspect::SchemaView { functions: with_entry(s.functions, k, x), ..s }),
        ) == banner(inspect::Function::title()) + inspect::Function::added_sql(x) + "\n"@,
{
    lemma_only_functions(s, with_entry(s.functions, k, x));
    lemma_one_added::<inspect::Function, ()>(s.functions, k, x, no_children());
}

/// A schema with one function less: its sections are the section that
/// drops it.
pub proof fn lemma_function_dropped(s: inspect::SchemaView, k: Seq<char>, x: inspect::FunctionView)
    requires
        s.wf(),
        !has_key(s.functions, k),
    ensures
        SchemaComponents::text(
            schema_diff()(inspect::SchemaView { functions: with_entry(s.functions, k, x), ..s }, s),
        ) == banner(inspect::Function::title()) + inspect::Function::removed_sql(x) + "\n"@,
{
    let larger = inspect::SchemaView { functions: with_entry(s.functions, k, x), ..s };
    lemma_new_key(s.functions, k, x);
    assert(larger.wf());
    lemma_only_functions(larger, s.functions);
    assert(inspect::SchemaView { functions: s.functions, ..larger } == s);
    lemma_one_removed::<inspect::Function, ()>(s.functions, k, x, no_children());
}

/// A schema with one trigger more: its sections are the section that
/// creates it.
pub proof fn lemma_trigger_added(s: inspect::SchemaView, k: Seq<char>, x: inspect::TriggerView)
    requires
        s.wf(),
        !has_key(s.triggers, k),
    ensures
        SchemaComponents::text(
            schema_diff()(s, inspect::SchemaView { triggers: with_entry(s.triggers, k, x), ..s }),
        ) == banner(inspect::Trigger::title()) + inspect::Trigger::added_sql(x) + "\n"@,
{
    lemma_only_triggers(s, with_entry(s.triggers, k, x));
    lemma_one_added::<inspect::Trigger, ()>(s.triggers, k, x, no_children());
}

/// A schema with one trigger less: its sections are the section that
/// drops it.
pub proof fn lemma_trigger_dropped(s: inspect::SchemaView, k: Seq<char>, x: inspect::TriggerView)
    requires
        s.wf(),
        !has_key(s.triggers, k),
    ensures
        SchemaComponents::text(
            schema_diff()(inspect::SchemaView { triggers: with_entry(s.triggers, k, x), ..s }, s),
        ) == banner(inspect::Trigger::title()) + inspect::Trigger::removed_sql(x) + "\n"@,
{
    let larger = inspect::SchemaView { triggers: with_entry(s.triggers, k, x), ..s };
    lemma_new_key(s.triggers, k, x);
    assert(larger.wf());
    lemma_only_triggers(larger, s.triggers);
    assert(inspect::SchemaView { triggers: s.triggers, ..larger } == s);
    lemma_one_removed::<inspect::Trigger, ()>(s.triggers, k, x, no_children());
}

/// A relation with one column more: the sections below it are the section
/// that adds it.
pub proof fn lemma_column_added_to(r: inspect::RelationView, k: Seq<char>, x: inspect::ColumnView)
    requires
        r.wf(),
        !has_key(r.columns, k),
    ensures
        RelationComponents::text(
            relation_diff(r, inspect::RelationView { columns: with_entry(r.columns, k, x), ..r }),
        ) == banner(inspect::Column::title()) + inspect::Column::added_sql(x) + "\n"@,
{
    lemma_only_columns(r, with_entry(r.columns, k, x));
    lemma_one_added::<inspect::Column, ()>(r.columns, k, x, no_children());
}

/// A relation with one column less: the sections below it are the section
/// that drops it.
pub proof fn lemma_column_dropped_from(
    r: inspect::RelationView,
    k: Seq<char>,
    x: inspect::ColumnView,
)
    requires
        r.wf(),
        !has_key(r.columns, k),
    ensures
        RelationComponents::text(
            relation_diff(inspect::RelationView { columns: with_entry(r.columns, k, x), ..r }, r),
        ) == banner(inspect::Column::title()) + inspect::Column::removed_sql(x) + "\n"@,
{
    let larger = inspect::RelationView { columns: with_entry(r.columns, k, x), ..r };
    lemma_new_key(r.columns, k, x);
    lemma_only_columns(larger, r.columns);
    assert(inspect::RelationView { columns: r.columns, ..larger } == r);
    lemma_one_removed::<inspect::Column, ()>(r.columns, k, x, no_children());
}

/// A relation with one constraint more: the sections below it are the section
/// that adds it.
pub proof fn lemma_constraint_added_to(
    r: inspect::RelationView,
    k: Seq<char>,
    x: inspect::ConstraintView,
)
    requires
        r.wf(),
        !has_key(r.constraints, k),
    ensures
        RelationComponents::text(
            relation_diff(
                r,
                inspect::RelationView { constraints: with_entry(r.constraints, k, x), ..r },
            ),
        ) == banner(inspect::Constraint::title()) + inspect::Constraint::added_sql(x) + "\n"@,
{
    lemma_only_constraints(r, with_entry(r.constraints, k, x));
    lemma_one_added::<inspect::Constraint, ()>(r.constraints, k, x, no_children());
}

/// A relation with one constraint less: the sections below it are the section
/// that drops it.
pub proof fn lemma_constraint_dropped_from(
    r: inspect::RelationView,
    k: Seq<char>,
    x: inspect::ConstraintView,
)
    requires
        r.wf(),
        !has_key(r.constraints, k),
    ensures
        RelationComponents::text(
            relation_diff(
                inspect::RelationView { constraints: with_entry(r.constraints, k, x), ..r },
                r,
            ),
        ) == banner(inspect::Constraint::title()) + inspect::Constraint::removed_sql(x) + "\n"@,
{
    let larger = inspect::RelationView { constraints: with_entry(r.constraints, k, x), ..r };
    lemma_new_key(r.constraints, k, x);
    lemma_only_constraints(larger, r.constraints);
    assert(inspect::RelationView { constraints: r.constraints, ..larger } == r);
    lemma_one_removed::<inspect::Constraint, ()>(r.constraints, k, x, no_children());
}

/// A relation with one index more: the sections below it are the section
/// that adds it.
pub proof fn lemma_index_added_to(r: inspect::RelationView, k: Seq<char>, x: inspect::IndexView)
    requires
        r.wf(),
        !has_key(r.indexes, k),
    ensures
        RelationComponents::text(
            relation_diff(r, inspect::RelationView { indexes: with_entry(r.indexes, k, x), ..r }),
        ) == banner(inspect::Index::title()) + inspect::Index::added_sql(x) + "\n"@,
{
    lemma_only_indexes(r, with_entry(r.indexes, k, x));
    lemma_one_added::<inspect::Index, ()>(r.indexes, k, x, no_children());
}

/// A relation with one index less: the sections below it are the section
/// that drops it.
pub proof fn lemma_index_dropped_from(r: inspect::RelationView, k: Seq<char>, x: inspect::IndexView)
    requires
        r.wf(),
        !has_key(r.indexes, k),
    ensures
        RelationComponents::text(
            relation_diff(inspect::RelationView { indexes: with_entry(r.indexes, k, x), ..r }, r),
        ) == banner(inspect::Index::title()) + inspect::Index::removed_sql(x) + "\n"@,
{
    let larger = inspect::RelationView { indexes: with_entry(r.indexes, k, x), ..r };
    lemma_new_key(r.indexes, k, x);
    lemma_only_indexes(larger, r.indexes);
    assert(inspect::RelationView { indexes: r.indexes, ..larger } == r);
    lemma_one_removed::<inspect::Index, ()>(r.indexes, k, x, no_children());
}

/// A database with one schema more: the script creates that schema and does
/// nothing else.
pub proof fn lemma_schema_added(old: inspect::DatabaseView, k: Seq<char>, s: inspect::SchemaView)
    requires
        old.wf(),
        !has_key(old.schemas, k),
    ensures
        DiffView::from(old, inspect::DatabaseView { schemas: with_entry(old.schemas, k, s) }).sql()
            == "begin;\n\n"@ + (banner(inspect::Schema::title()) + inspect::Schema::added_sql(s)
            + "\n"@) + "commit;\n"@,
{
    assert forall|i: int| 0 <= i < old.schemas.len() implies SchemaComponents::text(
        schema_diff()((#[trigger] old.schemas[i]).1, old.schemas[i].1),
    ).len() == 0 by {
        lemma_identical_schema(old.schemas[i].1);
    }
    lemma_one_added::<inspect::Schema, SchemaComponents>(old.schemas, k, s, schema_diff());
}

/// A database with one schema less: the script drops that schema and does
/// nothing else.
pub proof fn lemma_schema_dropped(new: inspect::DatabaseView, k: Seq<char>, s: inspect::SchemaView)
    requires
        new.wf(),
        !has_key(new.schemas, k),
    ensures
        DiffView::from(inspect::DatabaseView { schemas: with_entry(new.schemas, k, s) }, new).sql()
            == "begin;\n\n"@ + (banner(inspect::Schema::title()) + inspect::Schema::removed_sql(s)
            + "\n"@) + "commit;\n"@,
{
    assert forall|i: int| 0 <= i < new.schemas.len() implies SchemaComponents::text(
        schema_diff()((#[trigger] new.schemas[i]).1, new.schemas[i].1),
    ).len() == 0 by {
        lemma_identical_schema(new.schemas[i].1);
    }
    lemma_one_removed::<inspect::Schema, SchemaComponents>(new.schemas, k, s, schema_diff());
}

/// The map with another value at the place `at`, under the key that stood
/// there.
pub open spec fn replaced<T>(m: Entries<T>, at: int, value: T) -> Entries<T> {
    m.update(at, (m[at].0, value))
}

/// A map with another value at one place has the keys that it had.
proof fn lemma_replaced_keys<T>(m: Entries<T>, at: int, value: T)
    requires
        0 <= at < m.len(),
    ensures
        same_keys(m, replaced(m, at, value)),
{
}

/// A sorted map with another value at one place is sorted.
proof fn lemma_replaced_sorted<T>(m: Entries<T>, at: int, value: T)
    requires
        sorted(m),
        0 <= at < m.len(),
    ensures
        sorted(replaced(m, at, value)),
{
    let n = replaced(m, at, value);
    assert forall|i: int, j: int| 0 <= i < j < n.len() implies key_before(
        #[trigger] n[i].0,
        #[trigger] n[j].0,
    ) by {
        assert(n[i].0 == m[i].0 && n[j].0 == m[j].0);
        assert(key_before(m[i].0, m[j].0));
    }
}

/// Where one schema of a database changes below itself only, its name and
/// comment staying, the script is the sections of that schema.
pub proof fn lemma_inside_schema(old: inspect::DatabaseView, at: int, s: inspect::SchemaView)
    requires
        old.wf(),
        0 <= at < old.schemas.len(),
        inspect::Schema::same(old.schemas[at].1, s),
    ensures
        DiffView::from(old, inspect::DatabaseView { schemas: replaced(old.schemas, at, s) }).sql()
            == "begin;\n\n"@ + SchemaComponents::text(schema_diff()(old.schemas[at].1, s))
            + "commit;\n"@,
{
    let new = replaced(old.schemas, at, s);
    lemma_replaced_keys(old.schemas, at, s);
    assert forall|i: int| 0 <= i < old.schemas.len() implies inspect::Schema::same(
        (#[trigger] old.schemas[i]).1,
        new[i].1,
    ) by {}
    assert forall|i: int| 0 <= i < old.schemas.len() && i != at implies SchemaComponents::text(
        schema_diff()((#[trigger] old.schemas[i]).1, new[i].1),
    ).len() == 0 by {
        lemma_identical_schema(old.schemas[i].1);
    }
    lemma_one_child::<inspect::Schema, SchemaComponents>(old.schemas, new, schema_diff(), at);
}

/// Where one relation of a schema changes below itself only, its kind,
/// name, comment and definition staying, the sections of the schema are the
/// sections of that relation.
pub proof fn lemma_inside_relation(s: inspect::SchemaView, at: int, r: inspect::RelationView)
    requires
        s.wf(),
        0 <= at < s.relations.len(),
        inspect::Relation::same(s.relations[at].1, r),
    ensures
        SchemaComponents::text(
            schema_diff()(s, inspect::SchemaView { relations: replaced(s.relations, at, r), ..s }),
        ) == RelationComponents::text(table_diff()(s.relations[at].1, r)),
{
    let new = replaced(s.relations, at, r);
    lemma_only_relations(s, new);
    lemma_replaced_keys(s.relations, at, r);
    assert forall|i: int| 0 <= i < s.relations.len() implies inspect::Relation::same(
        (#[trigger] s.relations[i]).1,
        new[i].1,
    ) by {}
    assert forall|i: int| 0 <= i < s.relations.len() && i != at implies RelationComponents::text(
        table_diff()((#[trigger] s.relations[i]).1, new[i].1),
    ).len() == 0 by {
        lemma_identical_relation(s.relations[i].1);
    }
    lemma_one_child::<inspect::Relation, RelationComponents>(s.relations, new, table_diff(), at);
}

/// Where one domain of a schema changes below itself only, its record
/// staying, the sections of the schema are the section of the constraints of
/// that domain.
pub proof fn lemma_inside_domain(s: inspect::SchemaView, at: int, d: inspect::DomainView)
    requires
        s.wf(),
        0 <= at < s.domains.len(),
        inspect::Domain::same(s.domains[at].1, d),
    ensures
        SchemaComponents::text(
            schema_diff()(s, inspect::SchemaView { domains: replaced(s.domains, at, d), ..s }),
        ) == Bag::<inspect::Constraint, ()>::text(constraint_diff()(s.domains[at].1, d)),
{
    let new = replaced(s.domains, at, d);
    lemma_only_domains(s, new);
    lemma_replaced_keys(s.domains, at, d);
    assert forall|i: int| 0 <= i < s.domains.len() implies inspect::Domain::same(
        (#[trigger] s.domains[i]).1,
        new[i].1,
    ) by {}
    assert forall|i: int| 0 <= i < s.domains.len() && i != at implies Bag::<
        inspect::Constraint,
        (),
    >::text(constraint_diff()((#[trigger] s.domains[i]).1, new[i].1)).len() == 0 by {
        lemma_identical_domain(s.domains[i].1);
    }
    lemma_one_child::<inspect::Domain, Bag<inspect::Constraint, ()>>(
        s.domains,
        new,
        constraint_diff(),
        at,
    );
}

/// A domain with one constraint more: the section of its constraints adds
/// that constraint.
pub proof fn lemma_constraint_added_to_domain(
    d: inspect::DomainView,
    k: Seq<char>,
    x: inspect::ConstraintView,
)
    requires
        d.wf(),
        !has_key(d.constraints, k),
    ensures
        Bag::<inspect::Constraint, ()>::text(
            constraint_diff()(
                d,
                inspect::DomainView { constraints: with_entry(d.constraints, k, x), ..d },
            ),
        ) == banner(inspect::Constraint::title()) + inspect::Constraint::added_sql(x) + "\n"@,
{
    lemma_one_added::<inspect::Constraint, ()>(d.constraints, k, x, no_children());
}

/// A domain with one constraint less: the section of its constraints drops
/// that constraint.
pub proof fn lemma_constraint_dropped_from_domain(
    d: inspect::DomainView,
    k: Seq<char>,
    x: inspect::ConstraintView,
)
    requires
        d.wf(),
        !has_key(d.constraints, k),
    ensures
        Bag::<inspect::Constraint, ()>::text(
            constraint_diff()(
                inspect::DomainView { constraints: with_entry(d.constraints, k, x), ..d },
                d,
            ),
        ) == banner(inspect::Constraint::title()) + inspect::Constraint::removed_sql(x) + "\n"@,
{
    lemma_one_removed::<inspect::Constraint, ()>(d.constraints, k, x, no_children());
}

/// A table with one column more, in a database that is otherwise as it
/// was: the script adds that column and does nothing else.
pub proof fn lemma_column_added(
    old: inspect::DatabaseView,
    schema: int,
    relation: int,
    k: Seq<char>,
    c: inspect::ColumnView,
)
    requires
        old.wf(),
        0 <= schema < old.schemas.len(),
        0 <= relation < old.schemas[schema].1.relations.len(),
        old.schemas[schema].1.relations[relation].1.inner.kind == Kind::OrdinaryTable,
        !has_key(old.schemas[schema].1.relations[relation].1.columns, k),
    ensures
        ({
            let s = old.schemas[schema].1;
            let r = s.relations[relation].1;
            let table = inspect::RelationView { columns: with_entry(r.columns, k, c), ..r };
            let within = inspect::SchemaView {
                relations: replaced(s.relations, relation, table),
                ..s
            };
            let new = inspect::DatabaseView { schemas: replaced(old.schemas, schema, within) };
            DiffView::from(old, new).sql() == "begin;\n\n"@ + (banner(inspect::Column::title())
                + inspect::Column::added_sql(c) + "\n"@) + "commit;\n"@
        }),
{
    let s = old.schemas[schema].1;
    let r = s.relations[relation].1;
    let table = inspect::RelationView { columns: with_entry(r.columns, k, c), ..r };
    let within = inspect::SchemaView { relations: replaced(s.relations, relation, table), ..s };
    assert(s.wf());
    assert(r.wf());
    lemma_one_added::<inspect::Column, ()>(r.columns, k, c, no_children());
    lemma_only_columns(r, table.columns);
    lemma_inside_relation(s, relation, table);
    lemma_inside_schema(old, schema, within);
}

/// A table with one column less, in a database that is otherwise as it
/// was: the script drops that column and does nothing else.
pub proof fn lemma_column_dropped(
    new: inspect::DatabaseView,
    schema: int,
    relation: int,
    k: Seq<char>,
    c: inspect::ColumnView,
)
    requires
        new.wf(),
        0 <= schema < new.schemas.len(),
        0 <= relation < new.schemas[schema].1.relations.len(),
        new.schemas[schema].1.relations[relation].1.inner.kind == Kind::OrdinaryTable,
        !has_key(new.schemas[schema].1.relations[relation].1.columns, k),
    ensures
        ({
            let s = new.schemas[schema].1;
            let r = s.relations[relation].1;
            let table = inspect::RelationView { columns: with_entry(r.columns, k, c), ..r };
            let within = inspect::SchemaView {
                relations: replaced(s.relations, relation, table),
                ..s
            };
            let old = inspect::DatabaseView { schemas: replaced(new.schemas, schema, within) };
            DiffView::from(old, new).sql() == "begin;\n\n"@ + (banner(inspect::Column::title())
                + inspect::Column::removed_sql(c) + "\n"@) + "commit;\n"@
        }),
{
    let s = new.schemas[schema].1;
    let r = s.relations[relation].1;
    let table = inspect::RelationView { columns: with_entry(r.columns, k, c), ..r };
    let within = inspect::SchemaView { relations: replaced(s.relations, relation, table), ..s };
    let old = inspect::DatabaseView { schemas: replaced(new.schemas, schema, within) };
    assert(s.wf());
    assert(r.wf());
    lemma_new_key(r.columns, k, c);
    assert(table.wf());
    lemma_replaced_sorted(s.relations, relation, table);
    assert(within.wf()) by {
        assert forall|i: int| 0 <= i < within.relations.len() implies (
        #[trigger] within.relations[i]).1.wf() by {
            if i != relation {
                assert(within.relations[i] == s.relations[i]);
            }
        }
    }
    lemma_replaced_sorted(new.schemas, schema, within);
    assert(old.wf()) by {
        assert forall|i: int| 0 <= i < old.schemas.len() implies (
        #[trigger] old.schemas[i]).1.wf() by {
            if i != schema {
                assert(old.schemas[i] == new.schemas[i]);
            }
        }
    }
    lemma_one_removed::<inspect::Column, ()>(r.columns, k, c, no_children());
    lemma_only_columns(table, r.columns);
    assert(inspect::RelationView { columns: r.columns, ..table } == r);
    lemma_inside_relation(within, relation, r);
    assert(replaced(within.relations, relation, r) =~= s.relations);
    assert(inspect::SchemaView { relations: s.relations, ..within } == s);
    lemma_inside_schema(old, schema, s);
    assert(replaced(old.schemas, schema, s) =~= new.schemas);
}

/// A schema whose comment alone changes, in a database that is otherwise
/// as it was: the script sets the new comment and does nothing else.
pub proof fn lemma_schema_comment_changed(old: inspect::DatabaseView, at: int, comment: Seq<char>)
    requires
        old.wf(),
        0 <= at < old.schemas.len(),
        comment != old.schemas[at].1.inner.comment,
    ensures
        ({
            let s = old.schemas[at].1;
            let noted = inspect::SchemaView {
                inner: catalog::SchemaView { comment, ..s.inner },
                ..s
            };
            let new = inspect::DatabaseView { schemas: replaced(old.schemas, at, noted) };
            DiffView::from(old, new).sql() == "begin;\n\n"@ + (banner(inspect::Schema::title()) + (
            "comment on "@ + "schema"@ + " "@ + s.inner.name + " is '"@ + comment + "';\n"@)
                + "\n"@) + "commit;\n"@
        }),
{
    let s = old.schemas[at].1;
    let noted = inspect::SchemaView {
        inner: catalog::SchemaView { comment, ..s.inner },
        ..s
    };
    let new = replaced(old.schemas, at, noted);
    lemma_replaced_keys(old.schemas, at, noted);
    assert forall|i: int| 0 <= i < old.schemas.len() && i != at implies inspect::Schema::same(
        (#[trigger] old.schemas[i]).1,
        new[i].1,
    ) && SchemaComponents::text(schema_diff()(old.schemas[i].1, new[i].1)).len() == 0 by {
        lemma_identical_schema(old.schemas[i].1);
    }
    lemma_identical_schema(s);
    assert(schema_diff()(s, noted) == schema_diff()(s, s));
    lemma_one_updated::<inspect::Schema, SchemaComponents>(old.schemas, new, schema_diff(), at);
    let set = inspect::Schema::updated_sql(s, noted);
    assert(set + Seq::<char>::empty() =~= set);
}

} // verus!
