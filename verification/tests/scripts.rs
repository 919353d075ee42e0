use pgdiff::catalog;
use pgdiff::diff::Diff;
use pgdiff::inspect;

fn schema_record(name: &str, comment: &str) -> catalog::Schema {
    catalog::Schema {
        name: name.to_string(),
        oid: 2200,
        relations: 0,
        comment: comment.to_string(),
    }
}

fn relation_record(name: &str, kind: catalog::Kind, definition: Option<&str>) -> catalog::Relation {
    catalog::Relation {
        name: name.to_string(),
        persistence: catalog::Persistence::Permanent,
        kind,
        oid: 16384,
        comment: None,
        definition: definition.map(|d| d.to_string()),
        schema: "public".to_string(),
    }
}

fn column_record(name: &str, ty: &str) -> catalog::Column {
    catalog::Column {
        is_primary: false,
        name: name.to_string(),
        oid: 23,
        len: None,
        default: None,
        is_notnull: false,
        comment: None,
        ty: ty.to_string(),
    }
}

fn constraint_record(name: &str, definition: &str) -> catalog::Constraint {
    catalog::Constraint {
        oid: 1,
        ty: catalog::ConstraintType::Check,
        name: name.to_string(),
        definition: definition.to_string(),
    }
}

fn index_record(name: &str, definition: &str) -> catalog::Index {
    catalog::Index { oid: 4, name: name.to_string(), definition: definition.to_string() }
}

fn enum_record(name: &str, elements: &[&str]) -> catalog::Enum {
    catalog::Enum {
        name: name.to_string(),
        elements: elements.iter().map(|e| e.to_string()).collect(),
        description: None,
    }
}

fn domain_record(
    name: &str,
    constraints: Vec<catalog::Constraint>,
    is_notnull: bool,
) -> catalog::Domain {
    catalog::Domain {
        oid: 7,
        name: name.to_string(),
        ty: "int4".to_string(),
        constraints,
        description: None,
        is_notnull,
        default: None,
    }
}

fn composite_record(name: &str, fields: Vec<catalog::Column>) -> catalog::Composite {
    catalog::Composite { name: name.to_string(), fields, description: None }
}

fn extension_record(name: &str, version: &str) -> catalog::Extension {
    catalog::Extension {
        oid: 3,
        name: name.to_string(),
        version: version.to_string(),
        description: None,
    }
}

fn function_record(name: &str, definition: &str) -> catalog::Function {
    catalog::Function {
        oid: 9,
        name: name.to_string(),
        language: "sql".to_string(),
        definition: definition.to_string(),
        arguments: "".to_string(),
        return_type: "int4".to_string(),
    }
}

fn trigger_record(name: &str, action: &str) -> catalog::Trigger {
    catalog::Trigger {
        action: action.to_string(),
        event: "INSERT".to_string(),
        name: name.to_string(),
        orientation: "ROW".to_string(),
        table: "users".to_string(),
        timing: "BEFORE".to_string(),
    }
}

fn table(name: &str, columns: Vec<catalog::Column>) -> inspect::Relation {
    inspect::Relation::new(
        relation_record(name, catalog::Kind::OrdinaryTable, None),
        columns,
        vec![],
        vec![],
    )
}

fn empty_schema(name: &str, comment: &str) -> inspect::Schema {
    inspect::Schema::new(
        schema_record(name, comment),
        vec![],
        vec![],
        vec![],
        vec![],
        vec![],
        vec![],
        vec![],
    )
}

fn schema_of(relations: Vec<inspect::Relation>) -> inspect::Schema {
    inspect::Schema::new(
        schema_record("public", ""),
        relations,
        vec![],
        vec![],
        vec![],
        vec![],
        vec![],
        vec![],
    )
}

fn script(old: Vec<inspect::Schema>, new: Vec<inspect::Schema>) -> String {
    Diff::from(&inspect::Database::new(old), &inspect::Database::new(new)).sql()
}

fn old_database() -> inspect::Database {
    let users = inspect::Relation::new(
        relation_record("users", catalog::Kind::OrdinaryTable, None),
        vec![
            {
                let mut id = column_record("id", "int4");
                id.is_primary = true;
                id
            },
            column_record("name", "text"),
            column_record("legacy", "text"),
        ],
        vec![
            constraint_record("users_pkey", "PRIMARY KEY (id)"),
            constraint_record("users_old", "CHECK (true)"),
        ],
        vec![index_record("users_name_idx", "CREATE INDEX users_name_idx ON public.users USING btree (name)")],
    );
    let report = inspect::Relation::new(
        relation_record("report", catalog::Kind::View, Some("select 1")),
        vec![],
        vec![],
        vec![],
    );
    let old_table = table("old_table", vec![column_record("a", "int4")]);
    let public = inspect::Schema::new(
        schema_record("public", ""),
        vec![users, report, old_table],
        vec![enum_record("mood", &["sad", "happy"]), enum_record("old_enum", &["x"])],
        vec![domain_record("positive", vec![constraint_record("positive_check", "CHECK (VALUE > 0)")], false)],
        vec![
            composite_record("pair", vec![column_record("x", "int4"), column_record("y", "text")]),
        ],
        vec![extension_record("hstore", "1.0")],
        vec![function_record("f", "CREATE FUNCTION f() RETURNS int4 AS 'select 1' LANGUAGE sql\n")],
        vec![trigger_record("audit", "EXECUTE FUNCTION log()")],
    );
    inspect::Database::new(vec![public, empty_schema("legacy", "")])
}

fn new_database() -> inspect::Database {
    let users = inspect::Relation::new(
        relation_record("users", catalog::Kind::OrdinaryTable, None),
        vec![
            {
                let mut id = column_record("id", "int4");
                id.is_primary = true;
                id
            },
            {
                let mut name = column_record("name", "varchar");
                name.is_notnull = true;
                name
            },
            column_record("email", "text"),
        ],
        vec![
            constraint_record("users_pkey", "PRIMARY KEY (id)"),
            constraint_record("users_email", "UNIQUE (email)"),
        ],
        vec![index_record("users_name_idx", "CREATE INDEX users_name_idx ON public.users USING hash (name)")],
    );
    let report = inspect::Relation::new(
        relation_record("report", catalog::Kind::View, Some("select 2")),
        vec![],
        vec![],
        vec![],
    );
    let posts = table("posts", vec![column_record("id", "int4"), column_record("body", "text")]);
    let public = inspect::Schema::new(
        schema_record("public", "main"),
        vec![posts, report, users],
        vec![enum_record("mood", &["sad", "ok", "happy"]), enum_record("size", &["s", "m"])],
        vec![domain_record(
            "positive",
            vec![constraint_record("positive_check", "CHECK (VALUE >= 1)")],
            true,
        )],
        vec![composite_record("pair", vec![column_record("x", "int8")])],
        vec![extension_record("hstore", "1.8")],
        vec![function_record("f", "CREATE FUNCTION f() RETURNS int4 AS 'select 2' LANGUAGE sql\n")],
        vec![trigger_record("audit", "EXECUTE FUNCTION log2()")],
    );
    inspect::Database::new(vec![empty_schema("extra", "more"), public])
}

#[test]
fn diff() {
    let actual = Diff::from(&old_database(), &new_database()).sql();
    let expected = "begin;\n\n\
--\n-- Schema\n--\n\
create schema extra;\n\
comment on schema extra is 'more';\n\
drop schema legacy;\n\
comment on schema public is 'main';\n\
--\n-- Relation\n--\n\
create table \"public\".\"posts\"(\n  body text,\n  id int4\n);\n\
drop table \"public\".\"old_table\";\n\
drop view \"public\".\"report\";\n\
create view \"public\".\"report\" as select 2\n\
--\n-- Column\n--\n\
alter table \"public\".\"users\" add column \"email\" text;\n\
alter table \"public\".\"users\" drop column \"legacy\";\n\
alter table \"public\".\"users\" alter column \"name\" set not null;\n\
alter table \"public\".\"users\" alter column \"name\" type varchar using \"name\"::varchar;\n\
\n\
--\n-- Constraint\n--\n\
alter table \"public\".\"users\" add constraint \"users_email\" UNIQUE (email);\n\
alter table \"public\".\"users\" drop constraint \"users_old\";\n\
\n\
--\n-- Index\n--\n\
drop index users_name_idx;\n\
CREATE INDEX users_name_idx ON public.users USING hash (name);\n\
\n\
\n\
--\n-- Enum\n--\n\
create type \"public\".\"size\" as enum('s', 'm');\n\
drop type \"public\".\"old_enum\";\n\
alter type \"public\".\"mood\" add value 'ok' after 'sad';\n\
\n\
--\n-- Domain\n--\n\
alter domain \"public\".\"positive\" set not null;\n\
--\n-- Constraint\n--\n\
alter domain \"public\".\"positive\" drop constraint \"positive_check\";\n\
alter domain \"public\".\"positive\" add constraint \"positive_check\" CHECK (VALUE >= 1);\n\
\n\
\n\
--\n-- Composite\n--\n\
drop type \"public\".\"pair\";\n\
create type \"public\".\"pair\" as (\n  x int8\n);\n\
\n\
--\n-- Extension\n--\n\
alter extension \"hstore\" update to '1.8';\n\
\n\
--\n-- Function\n--\n\
drop function \"public\".\"f\";\n\
CREATE FUNCTION f() RETURNS int4 AS 'select 2' LANGUAGE sql;\n\
\n\
--\n-- Trigger\n--\n\
create or replace trigger \"audit\" BEFORE INSERT on \"public\".\"users\" for each ROW EXECUTE FUNCTION log2();\n\
\n\
\n\
commit;\n";
    assert_eq!(actual, expected);
}

#[test]
fn syntax() {
    let script = Diff::from(&old_database(), &new_database()).sql();
    assert!(script.starts_with("begin;\n\n"));
    assert!(script.ends_with("commit;\n"));
    let body = script.trim_start_matches("begin;\n\n").trim_end_matches("commit;\n");
    assert!(!body.contains("begin;"));
    assert!(!body.contains("commit;"));
    assert_eq!(script.lines().next(), Some("begin;"));
    assert_eq!(script.lines().last(), Some("commit;"));
    assert!(script.is_ascii());
    assert!(!script.contains('\r'));
}

#[test]
fn database_against_itself_gives_the_bare_transaction() {
    assert_eq!(Diff::from(&old_database(), &old_database()).sql(), "begin;\n\ncommit;\n");
    assert_eq!(Diff::from(&new_database(), &new_database()).sql(), "begin;\n\ncommit;\n");
    let db = new_database();
    assert_eq!(Diff::from(&db, &db.clone()).sql(), "begin;\n\ncommit;\n");
}

#[test]
fn dropped_schema_is_the_only_statement() {
    let out = script(
        vec![empty_schema("a", ""), empty_schema("b", "")],
        vec![empty_schema("a", "")],
    );
    assert_eq!(out, "begin;\n\n--\n-- Schema\n--\ndrop schema b;\n\ncommit;\n");
}

#[test]
fn added_table_is_the_only_statement() {
    let out = script(
        vec![schema_of(vec![table("a", vec![column_record("x", "int4")])])],
        vec![schema_of(vec![
            table("a", vec![column_record("x", "int4")]),
            table("b", vec![column_record("y", "text")]),
        ])],
    );
    assert_eq!(
        out,
        "begin;\n\n--\n-- Relation\n--\ncreate table \"public\".\"b\"(\n  y text\n);\n\ncommit;\n",
    );
}

#[test]
fn dropped_column_is_the_only_statement() {
    let out = script(
        vec![schema_of(vec![table("t", vec![column_record("a", "int4"), column_record("b", "text")])])],
        vec![schema_of(vec![table("t", vec![column_record("a", "int4")])])],
    );
    assert_eq!(
        out,
        "begin;\n\n--\n-- Column\n--\nalter table \"public\".\"t\" drop column \"b\";\n\ncommit;\n"
    );
}

#[test]
fn changed_schema_comment_is_the_only_statement() {
    let tables = || vec![table("t", vec![column_record("a", "int4")])];
    let old = inspect::Schema::new(
        schema_record("public", "was"),
        tables(),
        vec![],
        vec![],
        vec![],
        vec![],
        vec![],
        vec![],
    );
    let new = inspect::Schema::new(
        schema_record("public", "is"),
        tables(),
        vec![],
        vec![],
        vec![],
        vec![],
        vec![],
        vec![],
    );
    assert_eq!(
        script(vec![old], vec![new]),
        "begin;\n\n--\n-- Schema\n--\ncomment on schema public is 'is';\n\ncommit;\n"
    );
}

#[test]
fn reordered_enum_gives_an_empty_section() {
    let with = |elements: &[&str]| {
        inspect::Schema::new(
            schema_record("public", ""),
            vec![],
            vec![enum_record("mood", elements)],
            vec![],
            vec![],
            vec![],
            vec![],
            vec![],
        )
    };
    assert_eq!(
        script(vec![with(&["a", "b"])], vec![with(&["b", "a"])]),
        "begin;\n\n--\n-- Enum\n--\n\ncommit;\n"
    );
}

#[test]
fn columns_of_a_view_are_not_compared() {
    let view = |columns: Vec<catalog::Column>| {
        schema_of(vec![inspect::Relation::new(
            relation_record("v", catalog::Kind::View, Some("select 1")),
            columns,
            vec![],
            vec![],
        )])
    };
    let out = script(
        vec![view(vec![column_record("a", "int4")])],
        vec![view(vec![column_record("b", "int4")])],
    );
    assert_eq!(out, "begin;\n\ncommit;\n");
}

#[test]
fn sections_of_a_schema_come_in_a_fixed_order() {
    let old = empty_schema("public", "");
    let new = inspect::Schema::new(
        schema_record("public", ""),
        vec![table("t", vec![])],
        vec![enum_record("mood", &["a"])],
        vec![domain_record("positive", vec![], false)],
        vec![composite_record("pair", vec![column_record("x", "int4")])],
        vec![extension_record("hstore", "1.0")],
        vec![function_record("f", "create function f")],
        vec![trigger_record("audit", "EXECUTE FUNCTION log()")],
    );
    let out = script(vec![old], vec![new]);
    let order = [
        "-- Relation",
        "-- Enum",
        "-- Domain",
        "-- Composite",
        "-- Extension",
        "-- Function",
        "-- Trigger",
    ];
    let places: Vec<usize> = order.iter().map(|b| out.find(b).unwrap()).collect();
    for w in places.windows(2) {
        assert!(w[0] < w[1]);
    }
    assert_eq!(
        out,
        "begin;\n\n\
--\n-- Relation\n--\ncreate table \"public\".\"t\"(\n);\n\n\
--\n-- Enum\n--\ncreate type \"public\".\"mood\" as enum('a');\n\n\
--\n-- Domain\n--\ncreate domain \"public\".\"positive\" as int4;\n\n\
--\n-- Composite\n--\ncreate type \"public\".\"pair\" as (\n  x int4\n);\n\n\
--\n-- Extension\n--\ncreate extension \"hstore\";\n\n\
--\n-- Function\n--\ncreate function f;\n\n\
--\n-- Trigger\n--\ncreate or replace trigger \"audit\" BEFORE INSERT on \"public\".\"users\" for each ROW EXECUTE FUNCTION log();\n\n\
commit;\n"
    );
}

#[test]
fn additions_come_before_removals_before_updates_before_children() {
    let old = vec![
        empty_schema("gone", ""),
        inspect::Schema::new(
            schema_record("kept", "was"),
            vec![table("t", vec![])],
            vec![],
            vec![],
            vec![],
            vec![],
            vec![],
            vec![],
        ),
    ];
    let new = vec![
        inspect::Schema::new(
            schema_record("kept", "is"),
            vec![table("t", vec![column_record("a", "int4")])],
            vec![],
            vec![],
            vec![],
            vec![],
            vec![],
            vec![],
        ),
        empty_schema("born", "x"),
    ];
    assert_eq!(
        script(old, new),
        "begin;\n\n--\n-- Schema\n--\n\
create schema born;\ncomment on schema born is 'x';\n\
drop schema gone;\n\
comment on schema kept is 'is';\n\
--\n-- Column\n--\nalter table \"public\".\"t\" add column \"a\" int4;\n\n\
\n\
commit;\n"
    );
}
