use pgdiff::catalog;
use pgdiff::diff::Diff;
use pgdiff::inspect;

fn schema_record(name: &str, comment: &str) -> catalog::Schema {
    catalog::Schema { name: name.to_string(), oid: 1, relations: 0, comment: comment.to_string() }
}

fn relation_record(
    schema: &str,
    name: &str,
    kind: catalog::Kind,
    definition: Option<&str>,
) -> catalog::Relation {
    catalog::Relation {
        name: name.to_string(),
        persistence: catalog::Persistence::Permanent,
        kind,
        oid: 10,
        comment: None,
        definition: definition.map(|d| d.to_string()),
        schema: schema.to_string(),
    }
}

fn column_record(name: &str, ty: &str) -> catalog::Column {
    catalog::Column {
        is_primary: false,
        name: name.to_string(),
        oid: 23,
        len: None,
        default: None,
        is_notnull: false,
        comment: None,
        ty: ty.to_string(),
    }
}

fn enum_record(name: &str, elements: &[&str]) -> catalog::Enum {
    catalog::Enum {
        name: name.to_string(),
        elements: elements.iter().map(|e| e.to_string()).collect(),
        description: None,
    }
}

fn table(schema: &str, name: &str, columns: Vec<catalog::Column>) -> inspect::Relation {
    inspect::Relation::new(
        relation_record(schema, name, catalog::Kind::OrdinaryTable, None),
        columns,
        vec![],
        vec![],
    )
}

fn view(schema: &str, name: &str, definition: &str) -> inspect::Relation {
    inspect::Relation::new(
        relation_record(schema, name, catalog::Kind::View, Some(definition)),
        vec![],
        vec![],
        vec![],
    )
}

fn schema_with(
    name: &str,
    comment: &str,
    relations: Vec<inspect::Relation>,
    enums: Vec<catalog::Enum>,
) -> inspect::Schema {
    inspect::Schema::new(
        schema_record(name, comment),
        relations,
        enums,
        vec![],
        vec![],
        vec![],
        vec![],
        vec![],
    )
}

fn script(old: Vec<inspect::Schema>, new: Vec<inspect::Schema>) -> String {
    let old = inspect::Database::new(old);
    let new = inspect::Database::new(new);
    Diff::from(&old, &new).sql()
}

#[test]
fn empty_databases_give_the_bare_transaction() {
    assert_eq!(script(vec![], vec![]), "begin;\n\ncommit;\n");
}

#[test]
fn added_schema_is_created_with_its_comment() {
    let out = script(vec![], vec![schema_with("s", "hi", vec![], vec![])]);
    assert_eq!(
        out,
        "begin;\n\n--\n-- Schema\n--\ncreate schema s;\ncomment on schema s is 'hi';\n\ncommit;\n"
    );
}

#[test]
fn added_column_is_the_only_statement() {
    let old = schema_with(
        "public",
        "",
        vec![table("public", "t", vec![column_record("a", "int")])],
        vec![],
    );
    let new = schema_with(
        "public",
        "",
        vec![table("public", "t", vec![column_record("a", "int"), column_record("b", "text")])],
        vec![],
    );
    let out = script(vec![old], vec![new]);
    assert_eq!(
        out,
        "begin;\n\n--\n-- Column\n--\nalter table \"public\".\"t\" add column \"b\" text;\n\ncommit;\n"
    );
    assert!(!out.contains("\"a\""));
}

#[test]
fn dropped_enum_label_is_deleted_from_the_catalog() {
    let old = schema_with("public", "", vec![], vec![enum_record("mood", &["sad", "ok", "happy"])]);
    let new = schema_with("public", "", vec![], vec![enum_record("mood", &["sad", "happy"])]);
    let out = script(vec![old], vec![new]);
    assert_eq!(
        out,
        "begin;\n\n--\n-- Enum\n--\ndelete from pg_enum e using pg_type t, pg_namespace n where e.enumtypid = t.oid and t.typname = 'mood' and t.typnamespace = n.oid and n.nspname = 'public' and enumlabel = 'ok';\n\ncommit;\n"
    );
}

#[test]
fn changed_column_type_is_altered_with_a_cast() {
    let old = schema_with(
        "public",
        "",
        vec![table("public", "t", vec![column_record("a", "int")])],
        vec![],
    );
    let new = schema_with(
        "public",
        "",
        vec![table("public", "t", vec![column_record("a", "bigint")])],
        vec![],
    );
    let out = script(vec![old], vec![new]);
    assert_eq!(
        out,
        "begin;\n\n--\n-- Column\n--\nalter table \"public\".\"t\" alter column \"a\" type bigint using \"a\"::bigint;\n\ncommit;\n"
    );
}

#[test]
fn changed_view_is_dropped_and_created_again() {
    let old = schema_with("public", "", vec![view("public", "v", "select 1")], vec![]);
    let new = schema_with("public", "", vec![view("public", "v", "select 2")], vec![]);
    let out = script(vec![old], vec![new]);
    assert_eq!(
        out,
        "begin;\n\n--\n-- Relation\n--\ndrop view \"public\".\"v\";\ncreate view \"public\".\"v\" as select 2\n\ncommit;\n"
    );
}
