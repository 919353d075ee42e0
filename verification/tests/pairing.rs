use pgdiff::catalog;
use pgdiff::diff::iter;
use pgdiff::diff::Bag;
use pgdiff::diff::Sql;
use pgdiff::inspect;
use pgdiff::ordered::OrderedMap;

fn relation_record() -> catalog::Relation {
    catalog::Relation {
        name: "t".to_string(),
        persistence: catalog::Persistence::Permanent,
        kind: catalog::Kind::OrdinaryTable,
        oid: 1,
        comment: None,
        definition: None,
        schema: "public".to_string(),
    }
}

fn column(name: &str, ty: &str) -> inspect::Column {
    inspect::Column::new(
        &relation_record(),
        catalog::Column {
            is_primary: false,
            name: name.to_string(),
            oid: 23,
            len: None,
            default: None,
            is_notnull: false,
            comment: None,
            ty: ty.to_string(),
        },
    )
}

fn columns(list: &[(&str, &str)]) -> OrderedMap<inspect::Column> {
    let mut map = OrderedMap::new();
    for (name, ty) in list {
        map.insert(format!("public.t.{}", name), column(name, ty));
    }
    map
}

fn names(list: &[inspect::Column]) -> Vec<String> {
    list.iter().map(|c| c.inner.name.clone()).collect()
}

#[test]
fn iter_sorts_entries_into_added_updated_removed() {
    let old = columns(
        &[("gone2", "int4"), ("same", "int4"), ("changed", "int4"), ("gone1", "text")],
    );
    let new = columns(&[("new2", "int4"), ("changed", "int8"), ("same", "int4"), ("new1", "text")]);
    let bag: Bag<inspect::Column, ()> = iter(
        &old,
        &new,
        |_: &inspect::Column,
        _: &inspect::Column| (),
    );
    assert_eq!(names(&bag.added), vec!["new1", "new2"]);
    assert_eq!(names(&bag.removed), vec!["gone1", "gone2"]);
    assert_eq!(bag.updated.len(), 1);
    assert_eq!(bag.updated[0].0.inner.ty, "int4");
    assert_eq!(bag.updated[0].1.inner.ty, "int8");
    assert_eq!(bag.children.len(), 2);
    assert!(!bag.is_empty());
}

#[test]
fn iter_gives_a_child_for_each_common_key_in_the_order_of_the_new_map() {
    let old = columns(&[("b", "int4"), ("a", "int4"), ("c", "int4"), ("only_old", "int4")]);
    let new = columns(&[("c", "int8"), ("only_new", "int4"), ("a", "int4"), ("b", "int4")]);
    let bag: Bag<inspect::Column, String> = iter(&old, &new, |l: &inspect::Column, r: &inspect::Column| {
        format!("{}:{}>{}", l.inner.name, l.inner.ty, r.inner.ty)
    });
    assert_eq!(bag.children, vec!["a:int4>int4", "b:int4>int4", "c:int4>int8"]);
    assert_eq!(bag.updated.len(), 1);
}

#[test]
fn iter_on_equal_maps_finds_nothing() {
    let old = columns(&[("a", "int4"), ("b", "text")]);
    let new = columns(&[("b", "text"), ("a", "int4")]);
    let bag: Bag<inspect::Column, ()> = iter(
        &old,
        &new,
        |_: &inspect::Column,
        _: &inspect::Column| (),
    );
    assert!(bag.is_empty());
    assert_eq!(bag.children.len(), 2);
    let mut out = String::from("x");
    bag.sql(&mut out);
    assert_eq!(out, "x");
}

#[test]
fn iter_on_empty_maps() {
    let empty = columns(&[]);
    let some = columns(&[("a", "int4")]);
    let bag: Bag<inspect::Column, ()> = iter(
        &empty,
        &empty,
        |_: &inspect::Column,
        _: &inspect::Column| (),
    );
    assert!(bag.is_empty());
    assert_eq!(bag.children.len(), 0);
    let bag: Bag<inspect::Column, ()> = iter(
        &empty,
        &some,
        |_: &inspect::Column,
        _: &inspect::Column| (),
    );
    assert_eq!(names(&bag.added), vec!["a"]);
    let bag: Bag<inspect::Column, ()> = iter(
        &some,
        &empty,
        |_: &inspect::Column,
        _: &inspect::Column| (),
    );
    assert_eq!(names(&bag.removed), vec!["a"]);
}

#[test]
fn bag_methods_fill_the_bag() {
    let mut bag: Bag<inspect::Column, ()> = Bag::new();
    assert!(bag.is_empty());
    bag.add_child(());
    assert!(bag.is_empty());
    bag.add(&column("a", "int4"));
    assert!(!bag.is_empty());
    bag.remove(&column("b", "int4"));
    bag.update(&column("c", "int4"), &column("c", "int8"));
    assert_eq!(names(&bag.added), vec!["a"]);
    assert_eq!(names(&bag.removed), vec!["b"]);
    assert_eq!(bag.updated.len(), 1);
    assert_eq!(bag.children.len(), 1);
}

#[test]
fn section_writes_additions_then_removals_then_updates_then_children() {
    let mut inner: Bag<inspect::Column, ()> = Bag::new();
    inner.add(&column("z", "int4"));
    let mut bag: Bag<inspect::Column, Bag<inspect::Column, ()>> = Bag::new();
    bag.add_child(inner);
    bag.update(&column("u", "int4"), &column("u", "int8"));
    bag.remove(&column("r2", "int4"));
    bag.remove(&column("r1", "int4"));
    bag.add(&column("b", "int4"));
    bag.add(&column("a", "text"));
    let mut out = String::new();
    bag.sql(&mut out);
    assert_eq!(
        out,
        "--\n-- Column\n--\n\
alter table \"public\".\"t\" add column \"b\" int4;\n\
alter table \"public\".\"t\" add column \"a\" text;\n\
alter table \"public\".\"t\" drop column \"r2\";\n\
alter table \"public\".\"t\" drop column \"r1\";\n\
alter table \"public\".\"t\" alter column \"u\" type int8 using \"u\"::int8;\n\
--\n-- Column\n--\n\
alter table \"public\".\"t\" add column \"z\" int4;\n\
\n\
\n"
    );
}

#[test]
fn section_without_own_changes_has_no_banner() {
    let mut inner: Bag<inspect::Column, ()> = Bag::new();
    inner.remove(&column("z", "int4"));
    let mut bag: Bag<inspect::Column, Bag<inspect::Column, ()>> = Bag::new();
    bag.add_child(Bag::new());
    bag.add_child(inner);
    let mut out = String::from("-- start\n");
    bag.sql(&mut out);
    assert_eq!(
        out,
        "-- start\n--\n-- Column\n--\nalter table \"public\".\"t\" drop column \"z\";\n\n"
    );
}
