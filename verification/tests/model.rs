use pgdiff::catalog;
use pgdiff::inspect;
use pgdiff::inspect::make_key;
use pgdiff::ordered::OrderedMap;

fn schema_record(name: &str, comment: &str) -> catalog::Schema {
    catalog::Schema {
        name: name.to_string(),
        oid: 2200,
        relations: 0,
        comment: comment.to_string(),
    }
}

fn relation_record(name: &str, kind: catalog::Kind) -> catalog::Relation {
    catalog::Relation {
        name: name.to_string(),
        persistence: catalog::Persistence::Permanent,
        kind,
        oid: 16384,
        comment: None,
        definition: None,
        schema: "public".to_string(),
    }
}

fn column_record(name: &str, ty: &str) -> catalog::Column {
    catalog::Column {
        is_primary: false,
        name: name.to_string(),
        oid: 23,
        len: None,
        default: None,
        is_notnull: false,
        comment: None,
        ty: ty.to_string(),
    }
}

fn constraint_record(name: &str, definition: &str) -> catalog::Constraint {
    catalog::Constraint {
        oid: 1,
        ty: catalog::ConstraintType::Check,
        name: name.to_string(),
        definition: definition.to_string(),
    }
}

fn index_record(name: &str) -> catalog::Index {
    catalog::Index {
        oid: 4,
        name: name.to_string(),
        definition: format!("CREATE INDEX {} ON t (a)", name),
    }
}

fn keys<V>(map: &OrderedMap<V>) -> Vec<String> {
    (0..map.len()).map(|i| map.key(i).clone()).collect()
}

#[test]
fn keys_join_names_with_dots() {
    assert_eq!(make_key("public", "t"), "public.t");
    assert_eq!(make_key("public.t", "a"), "public.t.a");
    assert_eq!(make_key("", ""), ".");
}

#[test]
fn relation_keys_its_children() {
    let r = inspect::Relation::new(
        relation_record("t", catalog::Kind::OrdinaryTable),
        vec![column_record("b", "text"), column_record("a", "int4")],
        vec![constraint_record("t_pkey", "PRIMARY KEY (a)")],
        vec![index_record("t_b_idx"), index_record("t_a_idx")],
    );
    assert_eq!(keys(&r.columns), vec!["public.t.a", "public.t.b"]);
    assert_eq!(keys(&r.constraints), vec!["public.t.t_pkey"]);
    assert_eq!(keys(&r.indexes), vec!["public.t.t_a_idx", "public.t.t_b_idx"]);
    let a = r.columns.get("public.t.a").unwrap();
    assert_eq!(a.schema, "public");
    assert_eq!(a.relation, "t");
    assert_eq!(a.inner.ty, "int4");
    let c = r.constraints.get("public.t.t_pkey").unwrap();
    assert_eq!(c.parent_type, "table");
    assert_eq!(c.parent_name, "\"public\".\"t\"");
    let i = r.indexes.get("public.t.t_a_idx").unwrap();
    assert_eq!(i.relation, "t");
}

#[test]
fn constraints_of_a_view_name_its_kind() {
    let r = inspect::Relation::new(
        relation_record("v", catalog::Kind::MaterializedView),
        vec![],
        vec![constraint_record("c", "CHECK (true)")],
        vec![],
    );
    assert_eq!(r.constraints.value(0).parent_type, "materialized view");
}

#[test]
fn later_record_with_the_same_name_stays() {
    let r = inspect::Relation::new(
        relation_record("t", catalog::Kind::OrdinaryTable),
        vec![column_record("a", "int4"), column_record("a", "int8")],
        vec![],
        vec![],
    );
    assert_eq!(r.columns.len(), 1);
    assert_eq!(r.columns.value(0).inner.ty, "int8");
}

#[test]
fn domain_keys_its_constraints() {
    let d = inspect::Domain::new(
        &schema_record("public", ""),
        catalog::Domain {
            oid: 7,
            name: "positive".to_string(),
            ty: "int4".to_string(),
            constraints: vec![
                constraint_record("z", "CHECK (VALUE < 9)"),
                constraint_record("a", "CHECK (VALUE > 0)"),
            ],
            description: None,
            is_notnull: false,
            default: None,
        },
    );
    assert_eq!(keys(&d.constraints), vec!["public.positive.a", "public.positive.z"]);
    let c = d.constraints.value(0);
    assert_eq!(c.parent_type, "domain");
    assert_eq!(c.parent_name, "\"public\".\"positive\"");
    assert_eq!(d.parent, "public");
    assert_eq!(d.inner.constraints.len(), 2);
}

#[test]
fn schema_keys_its_objects() {
    let s = inspect::Schema::new(
        schema_record("app", "main"),
        vec![
            inspect::Relation::new(
                relation_record("t", catalog::Kind::OrdinaryTable),
                vec![],
                vec![],
                vec![],
            ),
            inspect::Relation::new(
                relation_record("a", catalog::Kind::View),
                vec![],
                vec![],
                vec![],
            ),
        ],
        vec![catalog::Enum { name: "mood".to_string(), elements: vec![], description: None }],
        vec![],
        vec![catalog::Composite { name: "pair".to_string(), fields: vec![], description: None }],
        vec![catalog::Extension { oid: 1, name: "hstore".to_string(), version: "1".to_string(), description: None }],
        vec![catalog::Function {
            oid: 2,
            name: "f".to_string(),
            language: "sql".to_string(),
            definition: "".to_string(),
            arguments: "".to_string(),
            return_type: "int4".to_string(),
        }],
        vec![catalog::Trigger {
            action: "a".to_string(),
            event: "e".to_string(),
            name: "trg".to_string(),
            orientation: "ROW".to_string(),
            table: "t".to_string(),
            timing: "BEFORE".to_string(),
        }],
    );
    assert_eq!(keys(&s.relations), vec!["app.a", "app.t"]);
    assert_eq!(keys(&s.enums), vec!["app.mood"]);
    assert_eq!(keys(&s.domains), Vec::<String>::new());
    assert_eq!(keys(&s.composites), vec!["app.pair"]);
    assert_eq!(keys(&s.extensions), vec!["app.hstore"]);
    assert_eq!(keys(&s.functions), vec!["app.f"]);
    assert_eq!(keys(&s.triggers), vec!["app.trg"]);
    assert_eq!(s.enums.value(0).parent, "app");
    assert_eq!(s.triggers.value(0).parent, "app");
}

#[test]
fn database_keys_its_schemas_by_name() {
    let make = |name: &str| {
        inspect::Schema::new(
            schema_record(name, ""),
            vec![],
            vec![],
            vec![],
            vec![],
            vec![],
            vec![],
            vec![],
        )
    };
    let db = inspect::Database::new(vec![make("public"), make("app"), make("zoo")]);
    assert_eq!(keys(&db.schemas), vec!["app", "public", "zoo"]);
    let copy = db.clone();
    assert_eq!(keys(&copy.schemas), vec!["app", "public", "zoo"]);
}

#[test]
fn full_names() {
    let schema = schema_record("public", "");
    let relation = relation_record("t", catalog::Kind::OrdinaryTable);
    let s = inspect::Schema::new(
        schema_record("public", ""),
        vec![],
        vec![],
        vec![],
        vec![],
        vec![],
        vec![],
        vec![],
    );
    assert_eq!(s.fullname(), "public");
    let r = inspect::Relation::new(
        relation_record("t", catalog::Kind::OrdinaryTable),
        vec![],
        vec![],
        vec![],
    );
    assert_eq!(r.fullname(), "\"public\".\"t\"");
    let c = inspect::Column::new(&relation, column_record("a", "int4"));
    assert_eq!(c.fullname(), "\"public\".\"t\".\"a\"");
    let e = inspect::Enum::new(
        &schema,
        catalog::Enum { name: "mood".to_string(), elements: vec![], description: None },
    );
    assert_eq!(e.fullname(), "\"public\".\"mood\"");
    let d = inspect::Domain::new(
        &schema,
        catalog::Domain {
            oid: 1,
            name: "d".to_string(),
            ty: "int4".to_string(),
            constraints: vec![],
            description: None,
            is_notnull: false,
            default: None,
        },
    );
    assert_eq!(d.fullname(), "\"public\".\"d\"");
    let p = inspect::Composite::new(
        &schema,
        catalog::Composite { name: "pair".to_string(), fields: vec![], description: None },
    );
    assert_eq!(p.fullname(), "\"public\".\"pair\"");
    let x = inspect::Extension::new(
        &schema,
        catalog::Extension {
            oid: 1,
            name: "hstore".to_string(),
            version: "1".to_string(),
            description: None,
        },
    );
    assert_eq!(x.fullname(), "\"public\".\"hstore\"");
    let f = inspect::Function::new(
        &schema,
        catalog::Function {
            oid: 2,
            name: "f".to_string(),
            language: "sql".to_string(),
            definition: "".to_string(),
            arguments: "".to_string(),
            return_type: "int4".to_string(),
        },
    );
    assert_eq!(f.fullname(), "\"public\".\"f\"");
    let t = inspect::Trigger::new(
        &schema,
        catalog::Trigger {
            action: "a".to_string(),
            event: "e".to_string(),
            name: "trg".to_string(),
            orientation: "ROW".to_string(),
            table: "t".to_string(),
            timing: "BEFORE".to_string(),
        },
    );
    assert_eq!(t.fullname(), "\"public\".\"trg\"");
    let k = inspect::Constraint::new(
        "table",
        "\"public\".\"t\"",
        constraint_record("pk", "PRIMARY KEY (a)"),
    );
    assert_eq!(k.fullname(), "\"\"public\".\"t\"\".\"pk\"");
    let i = inspect::Index::new(&relation, index_record("t_a_idx"));
    assert_eq!(i.fullname(), "t_a_idx");
}

#[test]
fn equality_is_by_payload_and_ignores_children() {
    let with = inspect::Relation::new(
        relation_record("t", catalog::Kind::OrdinaryTable),
        vec![column_record("a", "int4")],
        vec![],
        vec![],
    );
    let without = inspect::Relation::new(
        relation_record("t", catalog::Kind::OrdinaryTable),
        vec![],
        vec![],
        vec![],
    );
    assert!(with == without);
    let mut other = relation_record("t", catalog::Kind::OrdinaryTable);
    other.oid = 99;
    other.persistence = catalog::Persistence::Unlogged;
    assert!(with == inspect::Relation::new(other, vec![], vec![], vec![]));
    let mut commented = relation_record("t", catalog::Kind::OrdinaryTable);
    commented.comment = Some("c".to_string());
    assert!(with != inspect::Relation::new(commented, vec![], vec![], vec![]));
    assert!(with != inspect::Relation::new(relation_record("t", catalog::Kind::View), vec![], vec![], vec![]));
    let mut defined = relation_record("t", catalog::Kind::OrdinaryTable);
    defined.definition = Some("select 1".to_string());
    assert!(with != inspect::Relation::new(defined, vec![], vec![], vec![]));
}

#[test]
fn schema_equality_is_name_and_comment() {
    let make = |name: &str, comment: &str, relations: Vec<inspect::Relation>| {
        inspect::Schema::new(
            schema_record(name, comment),
            relations,
            vec![],
            vec![],
            vec![],
            vec![],
            vec![],
            vec![],
        )
    };
    let t = inspect::Relation::new(
        relation_record("t", catalog::Kind::OrdinaryTable),
        vec![],
        vec![],
        vec![],
    );
    assert!(make("s", "c", vec![t]) == make("s", "c", vec![]));
    assert!(make("s", "c", vec![]) != make("s", "d", vec![]));
    assert!(make("s", "c", vec![]) != make("r", "c", vec![]));
}

#[test]
fn column_equality_reads_six_fields() {
    let relation = relation_record("t", catalog::Kind::OrdinaryTable);
    let base = || column_record("a", "int4");
    let c = |r: catalog::Column| inspect::Column::new(&relation, r);
    let mut other = base();
    other.oid = 1;
    other.len = Some(4);
    assert!(c(base()) == c(other));
    let mut x = base();
    x.is_primary = true;
    assert!(c(base()) != c(x));
    let mut x = base();
    x.name = "b".to_string();
    assert!(c(base()) != c(x));
    let mut x = base();
    x.ty = "int8".to_string();
    assert!(c(base()) != c(x));
    let mut x = base();
    x.default = Some("0".to_string());
    assert!(c(base()) != c(x));
    let mut x = base();
    x.is_notnull = true;
    assert!(c(base()) != c(x));
    let mut x = base();
    x.comment = Some("".to_string());
    assert!(c(base()) != c(x));
}

#[test]
fn records_are_equal_field_by_field() {
    assert!(column_record("a", "int4") == column_record("a", "int4"));
    let mut other = column_record("a", "int4");
    other.oid = 1;
    assert!(column_record("a", "int4") != other);
    let e = |elements: &[&str]| catalog::Enum {
        name: "mood".to_string(),
        elements: elements.iter().map(|x| x.to_string()).collect(),
        description: None,
    };
    assert!(e(&["a", "b"]) == e(&["a", "b"]));
    assert!(e(&["a", "b"]) != e(&["b", "a"]));
    assert!(e(&["a", "b"]) != e(&["a"]));
    let copy = e(&["a", "b"]).clone();
    assert!(copy == e(&["a", "b"]));
}

#[test]
fn copies_keep_everything() {
    let r = inspect::Relation::new(
        relation_record("t", catalog::Kind::OrdinaryTable),
        vec![column_record("b", "text"), column_record("a", "int4")],
        vec![constraint_record("t_pkey", "PRIMARY KEY (a)")],
        vec![index_record("t_a_idx")],
    );
    let copy = r.clone();
    assert_eq!(keys(&copy.columns), keys(&r.columns));
    assert_eq!(copy.columns.value(1).inner.ty, "text");
    assert_eq!(copy.constraints.value(0).inner.definition, "PRIMARY KEY (a)");
    assert_eq!(copy.indexes.value(0).inner.name, "t_a_idx");
    assert_eq!(copy.inner, r.inner);
}
