use pgdiff::catalog;
use pgdiff::diff::comment;
use pgdiff::diff::Render;
use pgdiff::inspect;

fn schema_record(name: &str, comment: &str) -> catalog::Schema {
    catalog::Schema {
        name: name.to_string(),
        oid: 2200,
        relations: 0,
        comment: comment.to_string(),
    }
}

fn schema(name: &str, comment: &str) -> inspect::Schema {
    inspect::Schema::new(
        schema_record(name, comment),
        vec![],
        vec![],
        vec![],
        vec![],
        vec![],
        vec![],
        vec![],
    )
}

fn relation_record(name: &str, kind: catalog::Kind) -> catalog::Relation {
    catalog::Relation {
        name: name.to_string(),
        persistence: catalog::Persistence::Permanent,
        kind,
        oid: 16384,
        comment: None,
        definition: None,
        schema: "public".to_string(),
    }
}

fn column_record(name: &str, ty: &str) -> catalog::Column {
    catalog::Column {
        is_primary: false,
        name: name.to_string(),
        oid: 23,
        len: None,
        default: None,
        is_notnull: false,
        comment: None,
        ty: ty.to_string(),
    }
}

fn column(name: &str, ty: &str) -> inspect::Column {
    inspect::Column::new(
        &relation_record("t", catalog::Kind::OrdinaryTable),
        column_record(name, ty),
    )
}

fn table(columns: Vec<catalog::Column>) -> inspect::Relation {
    inspect::Relation::new(
        relation_record("t", catalog::Kind::OrdinaryTable),
        columns,
        vec![],
        vec![],
    )
}

fn enumeration(elements: &[&str]) -> inspect::Enum {
    inspect::Enum::new(
        &schema_record("public", ""),
        catalog::Enum {
            name: "mood".to_string(),
            elements: elements.iter().map(|e| e.to_string()).collect(),
            description: None,
        },
    )
}

fn constraint_record(name: &str, definition: &str) -> catalog::Constraint {
    catalog::Constraint {
        oid: 1,
        ty: catalog::ConstraintType::Check,
        name: name.to_string(),
        definition: definition.to_string(),
    }
}

fn domain(
    constraints: Vec<catalog::Constraint>,
    is_notnull: bool,
    default: Option<&str>,
) -> inspect::Domain {
    inspect::Domain::new(
        &schema_record("public", ""),
        catalog::Domain {
            oid: 7,
            name: "positive".to_string(),
            ty: "int4".to_string(),
            constraints,
            description: None,
            is_notnull,
            default: default.map(|d| d.to_string()),
        },
    )
}

fn function(definition: &str) -> inspect::Function {
    inspect::Function::new(
        &schema_record("public", ""),
        catalog::Function {
            oid: 9,
            name: "f".to_string(),
            language: "sql".to_string(),
            definition: definition.to_string(),
            arguments: "".to_string(),
            return_type: "int4".to_string(),
        },
    )
}

fn trigger(action: &str) -> inspect::Trigger {
    inspect::Trigger::new(
        &schema_record("public", ""),
        catalog::Trigger {
            action: action.to_string(),
            event: "INSERT".to_string(),
            name: "audit".to_string(),
            orientation: "ROW".to_string(),
            table: "t".to_string(),
            timing: "BEFORE".to_string(),
        },
    )
}

fn extension(version: &str) -> inspect::Extension {
    inspect::Extension::new(
        &schema_record("public", ""),
        catalog::Extension {
            oid: 3,
            name: "hstore".to_string(),
            version: version.to_string(),
            description: None,
        },
    )
}

fn index(definition: &str) -> inspect::Index {
    inspect::Index::new(
        &relation_record("t", catalog::Kind::OrdinaryTable),
        catalog::Index { oid: 4, name: "t_a_idx".to_string(), definition: definition.to_string() },
    )
}

fn composite(fields: Vec<catalog::Column>) -> inspect::Composite {
    inspect::Composite::new(
        &schema_record("public", ""),
        catalog::Composite { name: "pair".to_string(), fields, description: None },
    )
}

#[test]
fn comment_is_empty_when_nothing_changes() {
    assert_eq!(comment("table", "\"public\".\"t\"", Some("x"), Some("x")), "");
    assert_eq!(comment("table", "\"public\".\"t\"", None, None), "");
}

#[test]
fn comment_sets_the_new_text() {
    assert_eq!(
        comment("table", "\"public\".\"t\"", None, Some("hello")),
        "comment on table \"public\".\"t\" is 'hello';\n"
    );
    assert_eq!(
        comment("column", "\"public\".\"t\".\"a\"", Some("old"), Some("new")),
        "comment on column \"public\".\"t\".\"a\" is 'new';\n"
    );
}

#[test]
fn comment_is_cleared_with_null() {
    assert_eq!(
        comment("view", "\"public\".\"v\"", Some("old"), None),
        "comment on view \"public\".\"v\" is null;\n"
    );
}

#[test]
fn schema_statements() {
    let s = schema("app", "main");
    assert_eq!(s.sql_added(), "create schema app;\ncomment on schema app is 'main';\n");
    assert_eq!(s.sql_removed(), "drop schema app;\n");
    assert_eq!(s.sql_updated(&schema("app", "other")), "comment on schema app is 'other';\n");
    assert_eq!(s.sql_updated(&schema("app", "main")), "");
}

#[test]
fn schema_without_comment_still_sets_it() {
    assert_eq!(schema("app", "").sql_added(), "create schema app;\ncomment on schema app is '';\n");
}

#[test]
fn table_is_created_with_its_columns_in_key_order() {
    let mut id = column_record("id", "int4");
    id.is_primary = true;
    let t = table(vec![column_record("name", "text"), id]);
    assert_eq!(
        t.sql_added(),
        "create table \"public\".\"t\"(\n  id int4 primary key,\n  name text\n);\n"
    );
    assert_eq!(t.create_table(), t.sql_added());
}

#[test]
fn table_without_columns() {
    assert_eq!(table(vec![]).sql_added(), "create table \"public\".\"t\"(\n);\n");
}

#[test]
fn table_persistence_and_comment() {
    let mut record = relation_record("t", catalog::Kind::OrdinaryTable);
    record.persistence = catalog::Persistence::Unlogged;
    record.comment = Some("log".to_string());
    let t = inspect::Relation::new(record, vec![column_record("a", "int4")], vec![], vec![]);
    assert_eq!(
        t.sql_added(),
        "create unlogged table \"public\".\"t\"(\n  a int4\n);\ncomment on table \"public\".\"t\" is 'log';\n"
    );
    let mut record = relation_record("t", catalog::Kind::OrdinaryTable);
    record.persistence = catalog::Persistence::Temporary;
    let t = inspect::Relation::new(record, vec![], vec![], vec![]);
    assert_eq!(t.sql_added(), "create temporary table \"public\".\"t\"(\n);\n");
}

#[test]
fn table_loses_every_comma_at_the_end() {
    let t = table(vec![column_record("a", "int4,,")]);
    assert_eq!(t.sql_added(), "create table \"public\".\"t\"(\n  a int4\n);\n");
}

#[test]
fn view_is_created_from_its_definition() {
    let mut record = relation_record("v", catalog::Kind::View);
    record.definition = Some(" SELECT 1;".to_string());
    let v = inspect::Relation::new(record, vec![], vec![], vec![]);
    assert_eq!(v.sql_added(), "create view \"public\".\"v\" as  SELECT 1;\n");
    let mut record = relation_record("m", catalog::Kind::MaterializedView);
    record.definition = Some("select 2".to_string());
    let m = inspect::Relation::new(record, vec![], vec![], vec![]);
    assert_eq!(m.sql_added(), "create materialized view \"public\".\"m\" as select 2\n");
    assert_eq!(m.create_view(), m.sql_added());
}

#[test]
fn view_without_definition_and_other_kinds_create_nothing() {
    let v = inspect::Relation::new(
        relation_record("v", catalog::Kind::View),
        vec![],
        vec![],
        vec![],
    );
    assert_eq!(v.sql_added(), "");
    let f = inspect::Relation::new(
        relation_record("f", catalog::Kind::ForeignTable),
        vec![],
        vec![],
        vec![],
    );
    assert_eq!(f.sql_added(), "");
    let s = inspect::Relation::new(
        relation_record("s", catalog::Kind::Sequence),
        vec![],
        vec![],
        vec![],
    );
    assert_eq!(s.sql_added(), "");
}

#[test]
fn relation_is_dropped_by_its_kind() {
    assert_eq!(table(vec![]).sql_removed(), "drop table \"public\".\"t\";\n");
    let v = inspect::Relation::new(
        relation_record("v", catalog::Kind::View),
        vec![],
        vec![],
        vec![],
    );
    assert_eq!(v.sql_removed(), "drop view \"public\".\"v\";\n");
    let m = inspect::Relation::new(
        relation_record("m", catalog::Kind::MaterializedView),
        vec![],
        vec![],
        vec![],
    );
    assert_eq!(m.sql_removed(), "drop materialized view \"public\".\"m\";\n");
    let f = inspect::Relation::new(
        relation_record("f", catalog::Kind::ForeignTable),
        vec![],
        vec![],
        vec![],
    );
    assert_eq!(f.sql_removed(), "drop foreign table \"public\".\"f\";\n");
}

#[test]
fn kind_names() {
    assert_eq!(catalog::Kind::OrdinaryTable.name(), "table");
    assert_eq!(catalog::Kind::Index.name(), "index");
    assert_eq!(catalog::Kind::Sequence.name(), "sequence");
    assert_eq!(catalog::Kind::ToastTable.name(), "TOAST table");
    assert_eq!(catalog::Kind::View.name(), "view");
    assert_eq!(catalog::Kind::MaterializedView.name(), "materialized view");
    assert_eq!(catalog::Kind::CompositeType.name(), "composite type");
    assert_eq!(catalog::Kind::ForeignTable.name(), "foreign table");
    assert_eq!(catalog::Kind::PartitionedTable.name(), "partitioned table");
    assert_eq!(catalog::Kind::PartitionedIndex.name(), "partitioned index");
}

#[test]
fn changed_view_is_recreated_and_commented() {
    let mut old = relation_record("v", catalog::Kind::View);
    old.definition = Some("select 1".to_string());
    let mut new = relation_record("v", catalog::Kind::View);
    new.definition = Some("select 2".to_string());
    new.comment = Some("two".to_string());
    let old = inspect::Relation::new(old, vec![], vec![], vec![]);
    let new = inspect::Relation::new(new, vec![], vec![], vec![]);
    assert_eq!(
        old.sql_updated(&new),
        "drop view \"public\".\"v\";\ncreate view \"public\".\"v\" as select 2\ncomment on view \"public\".\"v\" is 'two';\n"
    );
}

#[test]
fn view_that_lost_its_definition_is_only_dropped() {
    let mut old = relation_record("v", catalog::Kind::View);
    old.definition = Some("select 1".to_string());
    let new = relation_record("v", catalog::Kind::View);
    let old = inspect::Relation::new(old, vec![], vec![], vec![]);
    let new = inspect::Relation::new(new, vec![], vec![], vec![]);
    assert_eq!(old.sql_updated(&new), "drop view \"public\".\"v\";\n");
}

#[test]
fn changed_materialized_view_only_gets_its_comment() {
    let mut old = relation_record("m", catalog::Kind::MaterializedView);
    old.definition = Some("select 1".to_string());
    let mut new = relation_record("m", catalog::Kind::MaterializedView);
    new.definition = Some("select 2".to_string());
    let old_view = inspect::Relation::new(old.clone(), vec![], vec![], vec![]);
    let new_view = inspect::Relation::new(new.clone(), vec![], vec![], vec![]);
    assert_eq!(old_view.sql_updated(&new_view), "");
    new.comment = Some("fresh".to_string());
    let new_view = inspect::Relation::new(new, vec![], vec![], vec![]);
    assert_eq!(
        old_view.sql_updated(&new_view),
        "comment on materialized view \"public\".\"m\" is 'fresh';\n"
    );
}

#[test]
fn changed_table_comment() {
    let mut old = relation_record("t", catalog::Kind::OrdinaryTable);
    old.comment = Some("was".to_string());
    let new = relation_record("t", catalog::Kind::OrdinaryTable);
    let old = inspect::Relation::new(old, vec![], vec![], vec![]);
    let new = inspect::Relation::new(new, vec![], vec![], vec![]);
    assert_eq!(old.sql_updated(&new), "comment on table \"public\".\"t\" is null;\n");
}

#[test]
fn enum_is_created_with_its_labels() {
    assert_eq!(
        enumeration(&["sad", "ok", "happy"]).sql_added(),
        "create type \"public\".\"mood\" as enum('sad', 'ok', 'happy');\n"
    );
    assert_eq!(
        enumeration(&["only"]).sql_added(),
        "create type \"public\".\"mood\" as enum('only');\n",
    );
    assert_eq!(enumeration(&[]).sql_added(), "create type \"public\".\"mood\" as enum();\n");
    assert_eq!(enumeration(&["a"]).sql_removed(), "drop type \"public\".\"mood\";\n");
}

#[test]
fn enum_label_is_added_after_the_label_before_it() {
    let old = enumeration(&["sad", "happy"]);
    let new = enumeration(&["sad", "ok", "happy"]);
    assert_eq!(
        old.sql_updated(&new),
        "alter type \"public\".\"mood\" add value 'ok' after 'sad';\n"
    );
}

#[test]
fn first_enum_label_is_added_before_the_label_after_it() {
    let old = enumeration(&["ok", "happy"]);
    let new = enumeration(&["sad", "ok", "happy"]);
    assert_eq!(
        old.sql_updated(&new),
        "alter type \"public\".\"mood\" add value 'sad' before 'ok';\n"
    );
}

#[test]
fn lone_enum_label_is_added_without_a_place() {
    let old = enumeration(&[]);
    let new = enumeration(&["sad"]);
    assert_eq!(old.sql_updated(&new), "alter type \"public\".\"mood\" add value 'sad';\n");
}

#[test]
fn enum_labels_are_dropped_before_others_are_added() {
    let old = enumeration(&["a", "b", "c"]);
    let new = enumeration(&["b", "d", "e"]);
    assert_eq!(
        old.sql_updated(&new),
        "delete from pg_enum e using pg_type t, pg_namespace n where e.enumtypid = t.oid and t.typname = 'mood' and t.typnamespace = n.oid and n.nspname = 'public' and enumlabel = 'a';\n\
delete from pg_enum e using pg_type t, pg_namespace n where e.enumtypid = t.oid and t.typname = 'mood' and t.typnamespace = n.oid and n.nspname = 'public' and enumlabel = 'c';\n\
alter type \"public\".\"mood\" add value 'd' after 'b';\n\
alter type \"public\".\"mood\" add value 'e' after 'd';\n"
    );
}

#[test]
fn reordered_enum_needs_no_statement() {
    let old = enumeration(&["sad", "ok", "happy"]);
    let new = enumeration(&["happy", "sad", "ok"]);
    assert_eq!(old.sql_updated(&new), "");
    assert!(old != new);
}

#[test]
fn domain_is_created_with_its_constraints_in_key_order() {
    let d = domain(
        vec![
            constraint_record("z_check", "CHECK (VALUE < 10)"),
            constraint_record("a_check", "CHECK (VALUE > 0)"),
        ],
        false,
        None,
    );
    assert_eq!(
        d.sql_added(),
        "create domain \"public\".\"positive\" as int4 CHECK (VALUE > 0) CHECK (VALUE < 10);\n"
    );
    assert_eq!(
        domain(vec![], false, None).sql_added(),
        "create domain \"public\".\"positive\" as int4;\n",
    );
    assert_eq!(d.sql_removed(), "drop domain \"public\".\"positive\";\n");
}

#[test]
fn domain_changes() {
    let plain = domain(vec![], false, None);
    assert_eq!(plain.sql_updated(&domain(vec![], false, None)), "");
    assert_eq!(
        plain.sql_updated(&domain(vec![], true, None)),
        "alter domain \"public\".\"positive\" set not null;\n"
    );
    assert_eq!(
        domain(vec![], true, None).sql_updated(&plain),
        "alter domain \"public\".\"positive\" drop not null;\n"
    );
    assert_eq!(
        plain.sql_updated(&domain(vec![], false, Some("1"))),
        "alter domain \"public\".\"positive\" set default 1;\n"
    );
    assert_eq!(
        domain(vec![], false, Some("1")).sql_updated(&plain),
        "alter domain \"public\".\"positive\" drop default;\n"
    );
    assert_eq!(
        domain(vec![], false, Some("1")).sql_updated(&domain(vec![], true, Some("1"))),
        "alter domain \"public\".\"positive\" set not null;\nalter domain \"public\".\"positive\" set default 1;\n"
    );
}

#[test]
fn composite_statements() {
    let c = composite(vec![column_record("x", "int4"), column_record("y", "text")]);
    assert_eq!(c.sql_added(), "create type \"public\".\"pair\" as (\n  x int4,\n  y text\n);\n");
    assert_eq!(c.sql_removed(), "drop type \"public\".\"pair\";\n");
    let d = composite(vec![column_record("x", "int8")]);
    assert_eq!(
        c.sql_updated(&d),
        "drop type \"public\".\"pair\";\ncreate type \"public\".\"pair\" as (\n  x int8\n);\n"
    );
    assert_eq!(composite(vec![]).sql_added(), "create type \"public\".\"pair\" as (\n\n);\n");
}

#[test]
fn column_is_added_with_its_comment() {
    let mut record = column_record("b", "text");
    record.comment = Some("note".to_string());
    let c = inspect::Column::new(&relation_record("t", catalog::Kind::OrdinaryTable), record);
    assert_eq!(
        c.sql_added(),
        "alter table \"public\".\"t\" add column \"b\" text;\ncomment on column \"public\".\"t\".\"b\" is 'note';\n"
    );
    assert_eq!(
        column("b", "text").sql_added(),
        "alter table \"public\".\"t\" add column \"b\" text;\n",
    );
    assert_eq!(
        column("b", "text").sql_removed(),
        "alter table \"public\".\"t\" drop column \"b\";\n",
    );
}

#[test]
fn column_changes_come_in_a_fixed_order() {
    let mut old = column_record("a", "int4");
    old.comment = Some("was".to_string());
    old.default = Some("0".to_string());
    let mut new = column_record("a", "int8");
    new.comment = Some("is".to_string());
    new.default = Some("1".to_string());
    new.is_notnull = true;
    let relation = relation_record("t", catalog::Kind::OrdinaryTable);
    let old = inspect::Column::new(&relation, old);
    let new = inspect::Column::new(&relation, new);
    assert_eq!(
        old.sql_updated(&new),
        "alter table \"public\".\"t\" alter column \"a\" set default 1;\n\
comment on column \"public\".\"t\".\"a\" is 'is';\n\
alter table \"public\".\"t\" alter column \"a\" set not null;\n\
alter table \"public\".\"t\" alter column \"a\" type int8 using \"a\"::int8;\n"
    );
    assert_eq!(
        new.sql_updated(&new),
        "alter table \"public\".\"t\" alter column \"a\" set default 1;\n"
    );
}

#[test]
fn column_default_and_flag_are_dropped() {
    let mut old = column_record("a", "int4");
    old.default = Some("0".to_string());
    old.is_notnull = true;
    let new = column_record("a", "int4");
    let relation = relation_record("t", catalog::Kind::OrdinaryTable);
    let old = inspect::Column::new(&relation, old);
    let new = inspect::Column::new(&relation, new);
    assert_eq!(
        old.sql_updated(&new),
        "alter table \"public\".\"t\" alter column \"a\" drop default;\nalter table \"public\".\"t\" alter column \"a\" drop not null;\n"
    );
    assert_eq!(new.sql_updated(&new), "");
}

#[test]
fn extension_statements() {
    assert_eq!(extension("1.0").sql_added(), "create extension \"hstore\";\n");
    assert_eq!(extension("1.0").sql_removed(), "drop extension \"hstore\";\n");
    assert_eq!(
        extension("1.0").sql_updated(&extension("1.8")),
        "alter extension \"hstore\" update to '1.8';\n"
    );
}

#[test]
fn function_statements() {
    let f = function("CREATE FUNCTION f() RETURNS int AS 'select 1' LANGUAGE sql\n\n");
    assert_eq!(f.sql_added(), "CREATE FUNCTION f() RETURNS int AS 'select 1' LANGUAGE sql;\n");
    assert_eq!(f.sql_removed(), "drop function \"public\".\"f\";\n");
    let g = function("CREATE FUNCTION f() RETURNS int AS 'select 2' LANGUAGE sql\n");
    assert_eq!(
        f.sql_updated(&g),
        "drop function \"public\".\"f\";\nCREATE FUNCTION f() RETURNS int AS 'select 2' LANGUAGE sql;\n"
    );
    assert_eq!(function("\n\n").sql_added(), ";\n");
}

#[test]
fn trigger_statements() {
    let t = trigger("EXECUTE FUNCTION log()");
    assert_eq!(
        t.sql_added(),
        "create or replace trigger \"audit\" BEFORE INSERT on \"public\".\"t\" for each ROW EXECUTE FUNCTION log();\n"
    );
    assert_eq!(t.sql_removed(), "drop trigger \"audit\" on \"public\".\"t\";\n");
    let u = trigger("EXECUTE FUNCTION log2()");
    assert_eq!(t.sql_updated(&u), u.sql_added());
}

#[test]
fn constraint_statements() {
    let c = inspect::Constraint::new(
        "table",
        "\"public\".\"t\"",
        constraint_record("t_pk", "PRIMARY KEY (id)"),
    );
    assert_eq!(
        c.sql_added(),
        "alter table \"public\".\"t\" add constraint \"t_pk\" PRIMARY KEY (id);\n",
    );
    assert_eq!(c.sql_removed(), "alter table \"public\".\"t\" drop constraint \"t_pk\";\n");
    let d = inspect::Constraint::new(
        "domain",
        "\"public\".\"positive\"",
        constraint_record("positive_check", "CHECK (VALUE > 0)"),
    );
    assert_eq!(
        c.sql_updated(&d),
        "alter table \"public\".\"t\" drop constraint \"t_pk\";\nalter domain \"public\".\"positive\" add constraint \"positive_check\" CHECK (VALUE > 0);\n"
    );
}

#[test]
fn index_statements() {
    let i = index("CREATE INDEX t_a_idx ON public.t USING btree (a)");
    assert_eq!(i.sql_added(), "CREATE INDEX t_a_idx ON public.t USING btree (a);\n");
    assert_eq!(i.sql_removed(), "drop index t_a_idx;\n");
    let j = index("CREATE INDEX t_a_idx ON public.t USING hash (a)");
    assert_eq!(
        i.sql_updated(&j),
        "drop index t_a_idx;\nCREATE INDEX t_a_idx ON public.t USING hash (a);\n"
    );
}

#[test]
fn banner_names() {
    assert_eq!(<inspect::Schema as Render>::kind(), "Schema");
    assert_eq!(<inspect::Relation as Render>::kind(), "Relation");
    assert_eq!(<inspect::Enum as Render>::kind(), "Enum");
    assert_eq!(<inspect::Domain as Render>::kind(), "Domain");
    assert_eq!(<inspect::Composite as Render>::kind(), "Composite");
    assert_eq!(<inspect::Column as Render>::kind(), "Column");
    assert_eq!(<inspect::Extension as Render>::kind(), "Extension");
    assert_eq!(<inspect::Function as Render>::kind(), "Function");
    assert_eq!(<inspect::Trigger as Render>::kind(), "Trigger");
    assert_eq!(<inspect::Constraint as Render>::kind(), "Constraint");
    assert_eq!(<inspect::Index as Render>::kind(), "Index");
}
