//! The statements of each kind of object: what creates it, what drops it and
//! what turns one state of it into another.

use crate::catalog::kind_text;
use crate::catalog::ColumnView as FieldView;
use crate::catalog::Kind;
use crate::catalog::Persistence;
use crate::diff::comment;
use crate::diff::comment_sql;
use crate::diff::Render;
use crate::inspect::Column;
use crate::inspect::ColumnView;
use crate::inspect::Composite;
use crate::inspect::CompositeView;
use crate::inspect::Constraint;
use crate::inspect::ConstraintView;
use crate::inspect::Domain;
use crate::inspect::DomainView;
use crate::inspect::Enum;
use crate::inspect::EnumView;
use crate::inspect::Extension;
use crate::inspect::ExtensionView;
use crate::inspect::Function;
use crate::inspect::FunctionView;
use crate::inspect::Index;
use crate::inspect::IndexView;
use crate::inspect::Relation;
use crate::inspect::RelationView;
use crate::inspect::Schema;
use crate::inspect::SchemaView;
use crate::inspect::Trigger;
use crate::inspect::TriggerView;
use crate::ordered::lemma_models_keys;
use crate::ordered::Entries;
use crate::text::as_deref;
use crate::text::concat;
use crate::text::contains_text;
use crate::text::join;
use crate::text::lemma_concat_empty;
use crate::text::qualified;
use crate::text::qualify;
use crate::text::texts;
use crate::text::trim_end;
use crate::text::trim_end_char;
use crate::text::trim_end_str;
use crate::text::trim_end_text;
use vstd::prelude::*;

verus! {

impl Render for Schema {
    open spec fn title() -> Seq<char> {
        "Schema"@
    }

    /// `create schema`, then the comment of the schema.
    open spec fn added_sql(new: SchemaView) -> Seq<char> {
        "create schema "@ + new.fullname() + ";\n"@ + comment_sql(
            "schema"@,
            new.fullname(),
            None,
            Some(new.inner.comment),
        )
    }

    open spec fn removed_sql(old: SchemaView) -> Seq<char> {
        "drop schema "@ + old.fullname() + ";\n"@
    }

    /// Only the comment of a schema can change.
    open spec fn updated_sql(old: SchemaView, new: SchemaView) -> Seq<char> {
        comment_sql("schema"@, old.fullname(), Some(old.inner.comment), Some(new.inner.comment))
    }

    fn kind() -> (s: &'static str) {
        "Schema"
    }

    fn sql_added(&self) -> (s: String) {
        let fullname = self.fullname();
        let mut sql = String::from_str("create schema ");
        sql.append(fullname.as_str());
        sql.append(";\n");
        let note = comment("schema", fullname.as_str(), None, Some(self.inner.comment.as_str()));
        sql.append(note.as_str());
        sql
    }

    fn sql_removed(&self) -> (s: String) {
        let fullname = self.fullname();
        let mut sql = String::from_str("drop schema ");
        sql.append(fullname.as_str());
        sql.append(";\n");
        sql
    }

    fn sql_updated(&self, new: &Self) -> (s: String) {
        let fullname = self.fullname();
        comment(
            "schema",
            fullname.as_str(),
            Some(self.inner.comment.as_str()),
            Some(new.inner.comment.as_str()),
        )
    }
}

/// The word that follows `create` for the persistence of a table.
pub open spec fn persistence_text(persistence: Persistence) -> Seq<char> {
    match persistence {
        Persistence::Permanent => Seq::empty(),
        Persistence::Unlogged => " unlogged"@,
        Persistence::Temporary => " temporary"@,
    }
}

/// The line of a column in `create table`: its name, its type, `primary key`
/// where it applies, and a comma.
pub open spec fn column_line(column: ColumnView) -> Seq<char> {
    "\n  "@ + column.inner.name + " "@ + column.inner.ty + (if column.inner.is_primary {
        " primary key"@
    } else {
        Seq::empty()
    }) + ","@
}

/// The lines of the columns of a table, in key order.
pub open spec fn column_lines(columns: Entries<ColumnView>) -> Seq<Seq<char>> {
    columns.map_values(|e: (Seq<char>, ColumnView)| column_line(e.1))
}

/// `create table` with one line for each column, the commas at the end cut
/// off, and the comment of the table.
pub open spec fn create_table_sql(new: RelationView) -> Seq<char> {
    trim_end(
        "create"@ + persistence_text(new.inner.persistence) + " table "@ + new.fullname() + "("@
            + concat(column_lines(new.columns)),
        ',',
    ) + "\n);\n"@ + comment_sql("table"@, new.fullname(), None, new.inner.comment)
}

/// `create view` or `create materialized view` with the definition of the
/// view; nothing where the definition is not known.
pub open spec fn create_view_sql(new: RelationView) -> Seq<char> {
    match new.inner.definition {
        Some(definition) => "create "@ + kind_text(new.inner.kind) + " "@ + new.fullname() + " as "@
            + definition + "\n"@,
        None => Seq::empty(),
    }
}

/// Builds the line of a column in `create table`.
fn line_of(column: &Column) -> (line: String)
    ensures
        line@ == column_line(column@),
{
    let mut line = String::from_str("\n  ");
    line.append(column.inner.name.as_str());
    line.append(" ");
    line.append(column.inner.ty.as_str());
    if column.inner.is_primary {
        line.append(" primary key");
    }
    line.append(",");
    assert(line@ =~= column_line(column@));
    line
}

impl Relation {
    /// Writes `create table` for this relation, with its comment.
    pub fn create_table(&self) -> (s: String)
        ensures
            s@ == create_table_sql(self@),
    {
        let fullname = self.fullname();
        let mut sql = String::from_str("create");
        match self.inner.persistence {
            Persistence::Permanent => {},
            Persistence::Unlogged => {
                sql.append(" unlogged");
            },
            Persistence::Temporary => {
                sql.append(" temporary");
            },
        }
        assert(sql@ =~= "create"@ + persistence_text(self@.inner.persistence));
        sql.append(" table ");
        sql.append(fullname.as_str());
        sql.append("(");
        let ghost head = sql@;
        let ghost lines = column_lines(self@.columns);
        let n = self.columns.len();
        proof {
            lemma_models_keys(self.columns@);
            assert(lines.take(0) =~= Seq::empty());
        }
        let mut i: usize = 0;
        while i < n
            invariant
                i <= n,
                n == self.columns@.len(),
                lines == column_lines(self@.columns),
                lines.len() == n,
                forall|j: int|
                    0 <= j < n ==> #[trigger] lines[j] == column_line(self.columns@[j].1@),
                sql@ == head + concat(lines.take(i as int)),
            decreases n - i,
        {
            let line = line_of(self.columns.value(i));
            proof {
                assert(lines.take(i + 1) =~= lines.take(i as int).push(lines[i as int]));
                lines.take(i as int).lemma_flatten_push(lines[i as int]);
            }
            sql.append(line.as_str());
            i += 1;
        }
        assert(lines.take(n as int) =~= lines);
        let mut sql = String::from_str(trim_end_char(sql.as_str(), ','));
        sql.append("\n);\n");
        let note = comment("table", fullname.as_str(), None, as_deref(&self.inner.comment));
        sql.append(note.as_str());
        sql
    }

    /// Writes `create view` or `create materialized view` for this relation.
    pub fn create_view(&self) -> (s: String)
        ensures
            s@ == create_view_sql(self@),
    {
        match &self.inner.definition {
            Some(definition) => {
                let fullname = self.fullname();
                let mut sql = String::from_str("create ");
                sql.append(self.inner.kind.name());
                sql.append(" ");
                sql.append(fullname.as_str());
                sql.append(" as ");
                sql.append(definition.as_str());
                sql.append("\n");
                sql
            },
            None => String::new(),
        }
    }
}

impl Render for Relation {
    open spec fn title() -> Seq<char> {
        "Relation"@
    }

    /// A table and a view are created; nothing is written for a relation of
    /// another kind.
    open spec fn added_sql(new: RelationView) -> Seq<char> {
        match new.inner.kind {
            Kind::OrdinaryTable => create_table_sql(new),
            Kind::View | Kind::MaterializedView => create_view_sql(new),
            _ => Seq::empty(),
        }
    }

    open spec fn removed_sql(old: RelationView) -> Seq<char> {
        "drop "@ + kind_text(old.inner.kind) + " "@ + old.fullname() + ";\n"@
    }

    /// A view is dropped and created again with the new definition, where
    /// there is one; a relation of any other kind is left as it is. The
    /// change of the comment follows in both cases.
    open spec fn updated_sql(old: RelationView, new: RelationView) -> Seq<char> {
        (if old.inner.kind == Kind::View {
            Self::removed_sql(old) + (match new.inner.definition {
                Some(definition) => "create view "@ + old.fullname() + " as "@ + definition + "\n"@,
                None => Seq::empty(),
            })
        } else {
            Seq::empty()
        }) + comment_sql(
            kind_text(old.inner.kind),
            old.fullname(),
            old.inner.comment,
            new.inner.comment,
        )
    }

    fn kind() -> (s: &'static str) {
        "Relation"
    }

    fn sql_added(&self) -> (s: String) {
        match self.inner.kind {
            Kind::OrdinaryTable => self.create_table(),
            Kind::View | Kind::MaterializedView => self.create_view(),
            _ => String::new(),
        }
    }

    fn sql_removed(&self) -> (s: String) {
        let fullname = self.fullname();
        let mut sql = String::from_str("drop ");
        sql.append(self.inner.kind.name());
        sql.append(" ");
        sql.append(fullname.as_str());
        sql.append(";\n");
        sql
    }

    fn sql_updated(&self, new: &Self) -> (s: String) {
        let fullname = self.fullname();
        let mut sql = String::new();
        if self.inner.kind == Kind::View {
            let mut again = self.sql_removed();
            match &new.inner.definition {
                Some(definition) => {
                    let mut create = String::from_str("create view ");
                    create.append(fullname.as_str());
                    create.append(" as ");
                    create.append(definition.as_str());
                    create.append("\n");
                    again.append(create.as_str());
                },
                None => {},
            }
            sql.append(again.as_str());
        }
        let note = comment(
            self.inner.kind.name(),
            fullname.as_str(),
            as_deref(&self.inner.comment),
            as_deref(&new.inner.comment),
        );
        sql.append(note.as_str());
        sql
    }
}

/// A label of an enum inside single quotes.
pub open spec fn label(element: Seq<char>) -> Seq<char> {
    "'"@ + element + "'"@
}

/// The labels of an enum, each inside single quotes.
pub open spec fn labels(elements: Seq<Seq<char>>) -> Seq<Seq<char>> {
    elements.map_values(|e: Seq<char>| label(e))
}

/// The statement that takes the label `element` out of the catalog. There is
/// no DDL for it: the row of the label is deleted.
pub open spec fn drop_label_sql(new: EnumView, element: Seq<char>) -> Seq<char> {
    "delete from pg_enum e using pg_type t, pg_namespace n where e.enumtypid = t.oid and t.typname = '"@
        + new.inner.name + "' and t.typnamespace = n.oid and n.nspname = '"@ + new.parent
        + "' and enumlabel = '"@ + element + "';\n"@
}

/// The statement that adds the label at place `x` of `new`: after the label
/// before it, where there is one; else before the label after it, where
/// there is one; else with no place given.
pub open spec fn add_label_sql(new: EnumView, x: int) -> Seq<char> {
    let elements = new.inner.elements;
    let head = "alter type "@ + new.fullname() + " add value '"@ + elements[x] + "'"@;
    if x > 0 {
        head + " after '"@ + elements[x - 1] + "';\n"@
    } else if x + 1 < elements.len() {
        head + " before '"@ + elements[x + 1] + "';\n"@
    } else {
        head + ";\n"@
    }
}

/// For each label of `old`, in order: what drops it, where `new` lacks it.
pub open spec fn dropped_labels(old: EnumView, new: EnumView) -> Seq<Seq<char>> {
    old.inner.elements.map_values(
        |e: Seq<char>|
            if new.inner.elements.contains(e) {
                Seq::empty()
            } else {
                drop_label_sql(new, e)
            },
    )
}

/// For each label of `new`, in order: what adds it, where `old` lacks it.
pub open spec fn added_labels(old: EnumView, new: EnumView) -> Seq<Seq<char>> {
    Seq::new(
        new.inner.elements.len(),
        |x: int|
            if old.inner.elements.contains(new.inner.elements[x]) {
                Seq::empty()
            } else {
                add_label_sql(new, x)
            },
    )
}

/// Writes the statement that adds the label at place `x` of `new`.
fn add_label(new: &Enum, fullname: &str, x: usize) -> (s: String)
    requires
        x < new@.inner.elements.len(),
        fullname@ == new@.fullname(),
    ensures
        s@ == add_label_sql(new@, x as int),
{
    let elements = &new.inner.elements;
    assert(forall|j: int| 0 <= j < elements@.len() ==> texts(elements@)[j] == elements@[j]@);
    let mut s = String::from_str("alter type ");
    s.append(fullname);
    s.append(" add value '");
    s.append(elements[x].as_str());
    s.append("'");
    if x > 0 {
        s.append(" after '");
        s.append(elements[x - 1].as_str());
        s.append("';\n");
    } else if x + 1 < elements.len() {
        s.append(" before '");
        s.append(elements[x + 1].as_str());
        s.append("';\n");
    } else {
        s.append(";\n");
    }
    s
}

impl Render for Enum {
    open spec fn title() -> Seq<char> {
        "Enum"@
    }

    open spec fn added_sql(new: EnumView) -> Seq<char> {
        "create type "@ + new.fullname() + " as enum("@ + join(labels(new.inner.elements), ", "@)
            + ");\n"@
    }

    open spec fn removed_sql(old: EnumView) -> Seq<char> {
        "drop type "@ + old.fullname() + ";\n"@
    }

    /// The labels that `new` lacks are dropped, then the labels that `old`
    /// lacks are added, each at its place.
    open spec fn updated_sql(old: EnumView, new: EnumView) -> Seq<char> {
        concat(dropped_labels(old, new)) + concat(added_labels(old, new))
    }

    fn kind() -> (s: &'static str) {
        "Enum"
    }

    fn sql_added(&self) -> (s: String) {
        let fullname = self.fullname();
        let elements = &self.inner.elements;
        let ghost quoted = labels(self@.inner.elements);
        let mut joined = String::new();
        let mut i: usize = 0;
        while i < elements.len()
            invariant
                i <= elements.len(),
                elements == &self.inner.elements,
                quoted == labels(self@.inner.elements),
                quoted.len() == elements.len(),
                forall|j: int|
                    0 <= j < elements.len() ==> #[trigger] quoted[j] == label(elements[j]@),
                joined@ == join(quoted.take(i as int), ", "@),
            decreases elements.len() - i,
        {
            proof {
                assert(quoted.take(i + 1).drop_last() =~= quoted.take(i as int));
                assert(quoted.take(i + 1).last() == quoted[i as int]);
            }
            if i > 0 {
                joined.append(", ");
            }
            joined.append("'");
            joined.append(elements[i].as_str());
            joined.append("'");
            assert(joined@ =~= join(quoted.take(i + 1), ", "@));
            i += 1;
        }
        assert(quoted.take(i as int) =~= quoted);
        let mut sql = String::from_str("create type ");
        sql.append(fullname.as_str());
        sql.append(" as enum(");
        sql.append(joined.as_str());
        sql.append(");\n");
        sql
    }

    fn sql_removed(&self) -> (s: String) {
        let fullname = self.fullname();
        let mut sql = String::from_str("drop type ");
        sql.append(fullname.as_str());
        sql.append(";\n");
        sql
    }

    fn sql_updated(&self, new: &Self) -> (s: String) {
        let fullname = new.fullname();
        let old_elements = &self.inner.elements;
        let new_elements = &new.inner.elements;
        let ghost dropped = dropped_labels(self@, new@);
        let ghost added = added_labels(self@, new@);
        let mut sql = String::new();
        assert(dropped.take(0) =~= Seq::empty());
        let mut i: usize = 0;
        while i < old_elements.len()
            invariant
                i <= old_elements.len(),
                old_elements == &self.inner.elements,
                new_elements == &new.inner.elements,
                dropped == dropped_labels(self@, new@),
                sql@ == concat(dropped.take(i as int)),
            decreases old_elements.len() - i,
        {
            proof {
                assert(dropped.take(i + 1) =~= dropped.take(i as int).push(dropped[i as int]));
                dropped.take(i as int).lemma_flatten_push(dropped[i as int]);
            }
            if !contains_text(new_elements, &old_elements[i]) {
                let mut stmt = String::from_str(
                    "delete from pg_enum e using pg_type t, pg_namespace n where e.enumtypid = t.oid and t.typname = '",
                );
                stmt.append(new.inner.name.as_str());
                stmt.append("' and t.typnamespace = n.oid and n.nspname = '");
                stmt.append(new.parent.as_str());
                stmt.append("' and enumlabel = '");
                stmt.append(old_elements[i].as_str());
                stmt.append("';\n");
                sql.append(stmt.as_str());
            }
            i += 1;
        }
        assert(dropped.take(i as int) =~= dropped);
        assert(added.take(0) =~= Seq::empty());
        let mut x: usize = 0;
        while x < new_elements.len()
            invariant
                x <= new_elements.len(),
                old_elements == &self.inner.elements,
                new_elements == &new.inner.elements,
                fullname@ == new@.fullname(),
                added == added_labels(self@, new@),
                sql@ == concat(dropped) + concat(added.take(x as int)),
            decreases new_elements.len() - x,
        {
            proof {
                assert(added.take(x + 1) =~= added.take(x as int).push(added[x as int]));
                added.take(x as int).lemma_flatten_push(added[x as int]);
            }
            if !contains_text(old_elements, &new_elements[x]) {
                let stmt = add_label(new, fullname.as_str(), x);
                sql.append(stmt.as_str());
            }
            x += 1;
        }
        assert(added.take(x as int) =~= added);
        sql
    }
}

/// The definitions of the constraints of a domain, in key order, each after
/// a space.
pub open spec fn constraint_clauses(constraints: Entries<ConstraintView>) -> Seq<Seq<char>> {
    constraints.map_values(|e: (Seq<char>, ConstraintView)| " "@ + e.1.inner.definition)
}

/// `set not null` or `drop not null` on a domain, where the flag changed.
pub open spec fn domain_notnull_sql(old: DomainView, new: DomainView) -> Seq<char> {
    if old.inner.is_notnull != new.inner.is_notnull {
        if new.inner.is_notnull {
            "alter domain "@ + new.fullname() + " set not null;\n"@
        } else {
            "alter domain "@ + new.fullname() + " drop not null;\n"@
        }
    } else {
        Seq::empty()
    }
}

/// `set default` on a domain, where the new state has a default; `drop
/// default`, where only the old one had.
pub open spec fn domain_default_sql(old: DomainView, new: DomainView) -> Seq<char> {
    match new.inner.default {
        Some(default) => "alter domain "@ + new.fullname() + " set default "@ + default + ";\n"@,
        None => if old.inner.default is Some {
            "alter domain "@ + new.fullname() + " drop default;\n"@
        } else {
            Seq::empty()
        },
    }
}

impl Render for Domain {
    open spec fn title() -> Seq<char> {
        "Domain"@
    }

    open spec fn added_sql(new: DomainView) -> Seq<char> {
        "create domain "@ + new.fullname() + " as "@ + new.inner.ty + concat(
            constraint_clauses(new.constraints),
        ) + ";\n"@
    }

    open spec fn removed_sql(old: DomainView) -> Seq<char> {
        "drop domain "@ + old.fullname() + ";\n"@
    }

    /// The change of the not-null flag, then that of the default. The
    /// constraints are children and have statements of their own.
    open spec fn updated_sql(old: DomainView, new: DomainView) -> Seq<char> {
        domain_notnull_sql(old, new) + domain_default_sql(old, new)
    }

    fn kind() -> (s: &'static str) {
        "Domain"
    }

    fn sql_added(&self) -> (s: String) {
        let fullname = self.fullname();
        let mut sql = String::from_str("create domain ");
        sql.append(fullname.as_str());
        sql.append(" as ");
        sql.append(self.inner.ty.as_str());
        let ghost head = sql@;
        let ghost clauses = constraint_clauses(self@.constraints);
        let n = self.constraints.len();
        proof {
            lemma_models_keys(self.constraints@);
            assert(clauses.take(0) =~= Seq::empty());
        }
        let mut i: usize = 0;
        while i < n
            invariant
                i <= n,
                n == self.constraints@.len(),
                clauses.len() == n,
                forall|j: int|
                    0 <= j < n ==> #[trigger] clauses[j] == " "@
                        + self.constraints@[j].1@.inner.definition,
                sql@ == head + concat(clauses.take(i as int)),
            decreases n - i,
        {
            let mut clause = String::from_str(" ");
            clause.append(self.constraints.value(i).inner.definition.as_str());
            proof {
                assert(clauses.take(i + 1) =~= clauses.take(i as int).push(clauses[i as int]));
                clauses.take(i as int).lemma_flatten_push(clauses[i as int]);
            }
            sql.append(clause.as_str());
            i += 1;
        }
        assert(clauses.take(n as int) =~= clauses);
        sql.append(";\n");
        sql
    }

    fn sql_removed(&self) -> (s: String) {
        let fullname = self.fullname();
        let mut sql = String::from_str("drop domain ");
        sql.append(fullname.as_str());
        sql.append(";\n");
        sql
    }

    fn sql_updated(&self, new: &Self) -> (s: String) {
        let fullname = new.fullname();
        let mut sql = String::new();
        if self.inner.is_notnull != new.inner.is_notnull {
            let mut flag = String::from_str("alter domain ");
            flag.append(fullname.as_str());
            if new.inner.is_notnull {
                flag.append(" set not null;\n");
            } else {
                flag.append(" drop not null;\n");
            }
            sql.append(flag.as_str());
        }
        assert(sql@ =~= domain_notnull_sql(self@, new@));
        match &new.inner.default {
            Some(default) => {
                let mut set = String::from_str("alter domain ");
                set.append(fullname.as_str());
                set.append(" set default ");
                set.append(default.as_str());
                set.append(";\n");
                sql.append(set.as_str());
            },
            None => {
                if self.inner.default.is_some() {
                    let mut drop = String::from_str("alter domain ");
                    drop.append(fullname.as_str());
                    drop.append(" drop default;\n");
                    sql.append(drop.as_str());
                }
            },
        }
        sql
    }
}

/// The line of a field in `create type`: its name, its type and a comma.
pub open spec fn field_line(field: FieldView) -> Seq<char> {
    "  "@ + field.name + " "@ + field.ty + ",\n"@
}

/// The lines of the fields of a composite type, in order.
pub open spec fn field_lines(fields: Seq<FieldView>) -> Seq<Seq<char>> {
    fields.map_values(|f: FieldView| field_line(f))
}

impl Render for Composite {
    open spec fn title() -> Seq<char> {
        "Composite"@
    }

    /// `create type` with one line for each field, the comma and line break
    /// after the last one cut off.
    open spec fn added_sql(new: CompositeView) -> Seq<char> {
        trim_end_text(
            "create type "@ + new.fullname() + " as (\n"@ + concat(field_lines(new.inner.fields)),
            ",\n"@,
        ) + "\n);\n"@
    }

    open spec fn removed_sql(old: CompositeView) -> Seq<char> {
        "drop type "@ + old.fullname() + ";\n"@
    }

    /// A composite type is dropped and created again.
    open spec fn updated_sql(old: CompositeView, new: CompositeView) -> Seq<char> {
        Self::removed_sql(old) + Self::added_sql(new)
    }

    fn kind() -> (s: &'static str) {
        "Composite"
    }

    fn sql_added(&self) -> (s: String) {
        let fullname = self.fullname();
        let fields = &self.inner.fields;
        let mut sql = String::from_str("create type ");
        sql.append(fullname.as_str());
        sql.append(" as (\n");
        let ghost head = sql@;
        let ghost lines = field_lines(self@.inner.fields);
        assert(lines.take(0) =~= Seq::empty());
        let mut i: usize = 0;
        while i < fields.len()
            invariant
                i <= fields.len(),
                fields == &self.inner.fields,
                lines == field_lines(self@.inner.fields),
                sql@ == head + concat(lines.take(i as int)),
            decreases fields.len() - i,
        {
            let mut line = String::from_str("  ");
            line.append(fields[i].name.as_str());
            line.append(" ");
            line.append(fields[i].ty.as_str());
            line.append(",\n");
            proof {
                assert(lines.take(i + 1) =~= lines.take(i as int).push(lines[i as int]));
                lines.take(i as int).lemma_flatten_push(lines[i as int]);
            }
            sql.append(line.as_str());
            i += 1;
        }
        assert(lines.take(i as int) =~= lines);
        let mut sql = String::from_str(trim_end_str(sql.as_str(), ",\n"));
        sql.append("\n);\n");
        sql
    }

    fn sql_removed(&self) -> (s: String) {
        let fullname = self.fullname();
        let mut sql = String::from_str("drop type ");
        sql.append(fullname.as_str());
        sql.append(";\n");
        sql
    }

    fn sql_updated(&self, new: &Self) -> (s: String) {
        let mut sql = self.sql_removed();
        let create = new.sql_added();
        sql.append(create.as_str());
        sql
    }
}

/// `alter table .. alter column ..`, the start of every change of a column.
pub open spec fn alter_column(column: ColumnView) -> Seq<char> {
    "alter table "@ + qualified(column.schema, column.relation) + " alter column \""@
        + column.inner.name + "\""@
}

/// `set default` on a column, where the new state has a default; `drop
/// default`, where only the old one had.
pub open spec fn column_default_sql(old: ColumnView, new: ColumnView) -> Seq<char> {
    match new.inner.default {
        Some(default) => alter_column(old) + " set default "@ + default + ";\n"@,
        None => if old.inner.default is Some {
            alter_column(old) + " drop default;\n"@
        } else {
            Seq::empty()
        },
    }
}

/// `set not null` or `drop not null` on a column, where the flag changed.
pub open spec fn column_notnull_sql(old: ColumnView, new: ColumnView) -> Seq<char> {
    if old.inner.is_notnull != new.inner.is_notnull {
        if new.inner.is_notnull {
            alter_column(old) + " set not null;\n"@
        } else {
            alter_column(old) + " drop not null;\n"@
        }
    } else {
        Seq::empty()
    }
}

/// The change of the type of a column, with a cast of what it holds, where
/// the type changed.
pub open spec fn column_type_sql(old: ColumnView, new: ColumnView) -> Seq<char> {
    if old.inner.ty != new.inner.ty {
        alter_column(old) + " type "@ + new.inner.ty + " using \""@ + old.inner.name + "\"::"@
            + new.inner.ty + ";\n"@
    } else {
        Seq::empty()
    }
}

impl Column {
    /// Writes the start of every change of this column.
    fn alter(&self) -> (s: String)
        ensures
            s@ == alter_column(self@),
    {
        let parent = qualify(self.schema.as_str(), self.relation.as_str());
        let mut s = String::from_str("alter table ");
        s.append(parent.as_str());
        s.append(" alter column \"");
        s.append(self.inner.name.as_str());
        s.append("\"");
        s
    }
}

impl Render for Column {
    open spec fn title() -> Seq<char> {
        "Column"@
    }

    /// `add column`, then the comment of the column.
    open spec fn added_sql(new: ColumnView) -> Seq<char> {
        "alter table "@ + qualified(new.schema, new.relation) + " add column \""@ + new.inner.name
            + "\" "@ + new.inner.ty + ";\n"@ + comment_sql(
            "column"@,
            new.fullname(),
            None,
            new.inner.comment,
        )
    }

    open spec fn removed_sql(old: ColumnView) -> Seq<char> {
        "alter table "@ + qualified(old.schema, old.relation) + " drop column \""@ + old.inner.name
            + "\";\n"@
    }

    /// The changes of the default, of the comment, of the not-null flag and
    /// of the type, in this order.
    open spec fn updated_sql(old: ColumnView, new: ColumnView) -> Seq<char> {
        column_default_sql(old, new) + comment_sql(
            "column"@,
            old.fullname(),
            old.inner.comment,
            new.inner.comment,
        ) + column_notnull_sql(old, new) + column_type_sql(old, new)
    }

    fn kind() -> (s: &'static str) {
        "Column"
    }

    fn sql_added(&self) -> (s: String) {
        let parent = qualify(self.schema.as_str(), self.relation.as_str());
        let fullname = self.fullname();
        let mut sql = String::from_str("alter table ");
        sql.append(parent.as_str());
        sql.append(" add column \"");
        sql.append(self.inner.name.as_str());
        sql.append("\" ");
        sql.append(self.inner.ty.as_str());
        sql.append(";\n");
        let note = comment("column", fullname.as_str(), None, as_deref(&self.inner.comment));
        sql.append(note.as_str());
        sql
    }

    fn sql_removed(&self) -> (s: String) {
        let parent = qualify(self.schema.as_str(), self.relation.as_str());
        let mut sql = String::from_str("alter table ");
        sql.append(parent.as_str());
        sql.append(" drop column \"");
        sql.append(self.inner.name.as_str());
        sql.append("\";\n");
        sql
    }

    fn sql_updated(&self, new: &Self) -> (s: String) {
        let fullname = self.fullname();
        let mut sql = String::new();
        match &new.inner.default {
            Some(default) => {
                let mut set = self.alter();
                set.append(" set default ");
                set.append(default.as_str());
                set.append(";\n");
                sql.append(set.as_str());
            },
            None => {
                if self.inner.default.is_some() {
                    let mut drop = self.alter();
                    drop.append(" drop default;\n");
                    sql.append(drop.as_str());
                }
            },
        }
        assert(sql@ =~= column_default_sql(self@, new@));

        let note = comment(
            "column",
            fullname.as_str(),
            as_deref(&self.inner.comment),
            as_deref(&new.inner.comment),
        );
        sql.append(note.as_str());

        let ghost before = sql@;
        if self.inner.is_notnull != new.inner.is_notnull {
            let mut flag = self.alter();
            if new.inner.is_notnull {
                flag.append(" set not null;\n");
            } else {
                flag.append(" drop not null;\n");
            }
            sql.append(flag.as_str());
        }
        assert(sql@ =~= before + column_notnull_sql(self@, new@));

        let ghost before = sql@;
        if self.inner.ty != new.inner.ty {
            let mut ty = self.alter();
            ty.append(" type ");
            ty.append(new.inner.ty.as_str());
            ty.append(" using \"");
            ty.append(self.inner.name.as_str());
            ty.append("\"::");
            ty.append(new.inner.ty.as_str());
            ty.append(";\n");
            sql.append(ty.as_str());
        }
        assert(sql@ =~= before + column_type_sql(self@, new@));
        sql
    }
}

impl Render for Extension {
    open spec fn title() -> Seq<char> {
        "Extension"@
    }

    open spec fn added_sql(new: ExtensionView) -> Seq<char> {
        "create extension \""@ + new.inner.name + "\";\n"@
    }

    open spec fn removed_sql(old: ExtensionView) -> Seq<char> {
        "drop extension \""@ + old.inner.name + "\";\n"@
    }

    /// An extension is brought to the new version.
    open spec fn updated_sql(old: ExtensionView, new: ExtensionView) -> Seq<char> {
        "alter extension \""@ + old.inner.name + "\" update to '"@ + new.inner.version + "';\n"@
    }

    fn kind() -> (s: &'static str) {
        "Extension"
    }

    fn sql_added(&self) -> (s: String) {
        let mut sql = String::from_str("create extension \"");
        sql.append(self.inner.name.as_str());
        sql.append("\";\n");
        sql
    }

    fn sql_removed(&self) -> (s: String) {
        let mut sql = String::from_str("drop extension \"");
        sql.append(self.inner.name.as_str());
        sql.append("\";\n");
        sql
    }

    fn sql_updated(&self, new: &Self) -> (s: String) {
        let mut sql = String::from_str("alter extension \"");
        sql.append(self.inner.name.as_str());
        sql.append("\" update to '");
        sql.append(new.inner.version.as_str());
        sql.append("';\n");
        sql
    }
}

impl Render for Function {
    open spec fn title() -> Seq<char> {
        "Function"@
    }

    /// The definition of the function as it is, without the line breaks at
    /// its end, and a semicolon.
    open spec fn added_sql(new: FunctionView) -> Seq<char> {
        trim_end(new.inner.definition, '\n') + ";\n"@
    }

    open spec fn removed_sql(old: FunctionView) -> Seq<char> {
        "drop function "@ + old.fullname() + ";\n"@
    }

    /// A function is dropped and created again.
    open spec fn updated_sql(old: FunctionView, new: FunctionView) -> Seq<char> {
        Self::removed_sql(old) + Self::added_sql(new)
    }

    fn kind() -> (s: &'static str) {
        "Function"
    }

    fn sql_added(&self) -> (s: String) {
        let mut sql = String::from_str(trim_end_char(self.inner.definition.as_str(), '\n'));
        sql.append(";\n");
        sql
    }

    fn sql_removed(&self) -> (s: String) {
        let fullname = self.fullname();
        let mut sql = String::from_str("drop function ");
        sql.append(fullname.as_str());
        sql.append(";\n");
        sql
    }

    fn sql_updated(&self, new: &Self) -> (s: String) {
        let mut sql = self.sql_removed();
        let create = new.sql_added();
        sql.append(create.as_str());
        sql
    }
}

impl Render for Trigger {
    open spec fn title() -> Seq<char> {
        "Trigger"@
    }

    open spec fn added_sql(new: TriggerView) -> Seq<char> {
        "create or replace trigger \""@ + new.inner.name + "\" "@ + new.inner.timing + " "@
            + new.inner.event + " on \""@ + new.parent + "\".\""@ + new.inner.table
            + "\" for each "@ + new.inner.orientation + " "@ + new.inner.action + ";\n"@
    }

    open spec fn removed_sql(old: TriggerView) -> Seq<char> {
        "drop trigger \""@ + old.inner.name + "\" on \""@ + old.parent + "\".\""@ + old.inner.table
            + "\";\n"@
    }

    /// A trigger is replaced by its new state.
    open spec fn updated_sql(old: TriggerView, new: TriggerView) -> Seq<char> {
        Self::added_sql(new)
    }

    fn kind() -> (s: &'static str) {
        "Trigger"
    }

    fn sql_added(&self) -> (s: String) {
        let mut sql = String::from_str("create or replace trigger \"");
        sql.append(self.inner.name.as_str());
        sql.append("\" ");
        sql.append(self.inner.timing.as_str());
        sql.append(" ");
        sql.append(self.inner.event.as_str());
        sql.append(" on \"");
        sql.append(self.parent.as_str());
        sql.append("\".\"");
        sql.append(self.inner.table.as_str());
        sql.append("\" for each ");
        sql.append(self.inner.orientation.as_str());
        sql.append(" ");
        sql.append(self.inner.action.as_str());
        sql.append(";\n");
        sql
    }

    fn sql_removed(&self) -> (s: String) {
        let mut sql = String::from_str("drop trigger \"");
        sql.append(self.inner.name.as_str());
        sql.append("\" on \"");
        sql.append(self.parent.as_str());
        sql.append("\".\"");
        sql.append(self.inner.table.as_str());
        sql.append("\";\n");
        sql
    }

    fn sql_updated(&self, new: &Self) -> (s: String) {
        new.sql_added()
    }
}

impl Render for Constraint {
    open spec fn title() -> Seq<char> {
        "Constraint"@
    }

    open spec fn added_sql(new: ConstraintView) -> Seq<char> {
        "alter "@ + new.parent_type + " "@ + new.parent_name + " add constraint \""@
            + new.inner.name + "\" "@ + new.inner.definition + ";\n"@
    }

    open spec fn removed_sql(old: ConstraintView) -> Seq<char> {
        "alter "@ + old.parent_type + " "@ + old.parent_name + " drop constraint \""@
            + old.inner.name + "\";\n"@
    }

    /// A constraint is dropped and added again.
    open spec fn updated_sql(old: ConstraintView, new: ConstraintView) -> Seq<char> {
        Self::removed_sql(old) + Self::added_sql(new)
    }

    fn kind() -> (s: &'static str) {
        "Constraint"
    }

    fn sql_added(&self) -> (s: String) {
        let mut sql = String::from_str("alter ");
        sql.append(self.parent_type.as_str());
        sql.append(" ");
        sql.append(self.parent_name.as_str());
        sql.append(" add constraint \"");
        sql.append(self.inner.name.as_str());
        sql.append("\" ");
        sql.append(self.inner.definition.as_str());
        sql.append(";\n");
        sql
    }

    fn sql_removed(&self) -> (s: String) {
        let mut sql = String::from_str("alter ");
        sql.append(self.parent_type.as_str());
        sql.append(" ");
        sql.append(self.parent_name.as_str());
        sql.append(" drop constraint \"");
        sql.append(self.inner.name.as_str());
        sql.append("\";\n");
        sql
    }

    fn sql_updated(&self, new: &Self) -> (s: String) {
        let mut sql = self.sql_removed();
        let create = new.sql_added();
        sql.append(create.as_str());
        sql
    }
}

impl Render for Index {
    open spec fn title() -> Seq<char> {
        "Index"@
    }

    /// The definition of the index as it is, and a semicolon.
    open spec fn added_sql(new: IndexView) -> Seq<char> {
        new.inner.definition + ";\n"@
    }

    /// `drop index` with the name of the index, not qualified.
    open spec fn removed_sql(old: IndexView) -> Seq<char> {
        "drop index "@ + old.inner.name + ";\n"@
    }

    /// An index is dropped and created again.
    open spec fn updated_sql(old: IndexView, new: IndexView) -> Seq<char> {
        Self::removed_sql(old) + Self::added_sql(new)
    }

    fn kind() -> (s: &'static str) {
        "Index"
    }

    fn sql_added(&self) -> (s: String) {
        let mut sql = self.inner.definition.clone();
        sql.append(";\n");
        sql
    }

    fn sql_removed(&self) -> (s: String) {
        let mut sql = String::from_str("drop index ");
        sql.append(self.inner.name.as_str());
        sql.append(";\n");
        sql
    }

    fn sql_updated(&self, new: &Self) -> (s: String) {
        let mut sql = self.sql_removed();
        let create = new.sql_added();
        sql.append(create.as_str());
        sql
    }
}

/// Two states of an enum with the same labels, in whatever order, need no
/// statement.
pub proof fn lemma_enum_reordered(old: EnumView, new: EnumView)
    requires
        forall|e: Seq<char>| old.inner.elements.contains(e) <==> new.inner.elements.contains(e),
    ensures
        Enum::updated_sql(old, new) == Seq::<char>::empty(),
{
    let dropped = dropped_labels(old, new);
    let added = added_labels(old, new);
    assert forall|i: int| 0 <= i < dropped.len() implies (#[trigger] dropped[i]).len() == 0 by {
        assert(old.inner.elements.contains(old.inner.elements[i]));
    }
    assert forall|i: int| 0 <= i < added.len() implies (#[trigger] added[i]).len() == 0 by {
        assert(new.inner.elements.contains(new.inner.elements[i]));
    }
    lemma_concat_empty(dropped);
    lemma_concat_empty(added);
    assert(Enum::updated_sql(old, new) =~= Seq::<char>::empty());
}

/// A view whose new state has a definition is dropped, created again with
/// that definition, and given its new comment where the comment changed.
pub proof fn lemma_view_recreated(old: RelationView, new: RelationView, definition: Seq<char>)
    requires
        old.inner.kind == Kind::View,
        new.inner.definition == Some(definition),
    ensures
        Relation::updated_sql(old, new) == ("drop "@ + "view"@ + " "@ + old.fullname() + ";\n"@ + (
        "create view "@ + old.fullname() + " as "@ + definition + "\n"@)) + comment_sql(
            "view"@,
            old.fullname(),
            old.inner.comment,
            new.inner.comment,
        ),
{
}

/// A materialized view is never created again: only its comment is set,
/// where the comment changed.
pub proof fn lemma_materialized_view_kept(old: RelationView, new: RelationView)
    requires
        old.inner.kind == Kind::MaterializedView,
    ensures
        Relation::updated_sql(old, new) == comment_sql(
            "materialized view"@,
            old.fullname(),
            old.inner.comment,
            new.inner.comment,
        ),
{
    let note = comment_sql(
        "materialized view"@,
        old.fullname(),
        old.inner.comment,
        new.inner.comment,
    );
    assert(Seq::<char>::empty() + note =~= note);
}

/// A column whose default, comment, not-null flag and type all change gets
/// four statements: the default first, then the comment, then the flag, then
/// the type.
pub proof fn lemma_column_changes_in_order(
    old: ColumnView,
    new: ColumnView,
    default: Seq<char>,
    comment: Seq<char>,
)
    requires
        new.inner.default == Some(default),
        new.inner.comment == Some(comment),
        old.inner.comment != new.inner.comment,
        old.inner.is_notnull != new.inner.is_notnull,
        old.inner.ty != new.inner.ty,
    ensures
        Column::updated_sql(old, new) == (alter_column(old) + " set default "@ + default + ";\n"@)
            + ("comment on "@ + "column"@ + " "@ + old.fullname() + " is '"@ + comment + "';\n"@)
            + (alter_column(old) + (if new.inner.is_notnull {
            " set not null;\n"@
        } else {
            " drop not null;\n"@
        })) + (alter_column(old) + " type "@ + new.inner.ty + " using \""@ + old.inner.name
            + "\"::"@ + new.inner.ty + ";\n"@),
{
}

} // verus!
