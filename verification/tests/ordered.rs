use pgdiff::ordered::OrderedMap;
use pgdiff::text::key_lt;
use pgdiff::text::qualify;
use pgdiff::text::quote;
use pgdiff::text::same_str;
use pgdiff::text::trim_end_char;
use pgdiff::text::trim_end_str;

fn keys(map: &OrderedMap<u32>) -> Vec<String> {
    (0..map.len()).map(|i| map.key(i).clone()).collect()
}

#[test]
fn new_map_is_empty() {
    let map: OrderedMap<u32> = OrderedMap::new();
    assert_eq!(map.len(), 0);
    assert!(map.is_empty());
    assert!(map.get("a").is_none());
    assert!(!map.contains_key("a"));
}

#[test]
fn entries_are_walked_in_key_order() {
    let mut map: OrderedMap<u32> = OrderedMap::new();
    for (i, k) in ["public.t", "public.a", "public.z", "app.t", "public.ab"].iter().enumerate() {
        map.insert(k.to_string(), i as u32);
    }
    assert_eq!(keys(&map), vec!["app.t", "public.a", "public.ab", "public.t", "public.z"]);
    assert_eq!(*map.value(0), 3);
    assert_eq!(*map.value(4), 2);
    assert!(!map.is_empty());
    map.keys_sorted();
}

#[test]
fn key_order_is_by_bytes() {
    let mut map: OrderedMap<u32> = OrderedMap::new();
    for k in ["b", "B", "a", "", "é", "ab", "a.b", "aB", "z"] {
        map.insert(k.to_string(), 0);
    }
    let mut expected: Vec<String> =
        ["b", "B", "a", "", "é", "ab", "a.b", "aB", "z"].iter().map(|k| k.to_string()).collect();
    expected.sort();
    assert_eq!(keys(&map), expected);
    assert_eq!(keys(&map), vec!["", "B", "a", "a.b", "aB", "ab", "b", "z", "é"]);
}

#[test]
fn inserting_a_present_key_replaces_its_value() {
    let mut map: OrderedMap<u32> = OrderedMap::new();
    map.insert("k".to_string(), 1);
    map.insert("j".to_string(), 5);
    map.insert("k".to_string(), 2);
    assert_eq!(map.len(), 2);
    assert_eq!(map.get("k"), Some(&2));
    assert_eq!(map.get("j"), Some(&5));
    assert_eq!(map.get("l"), None);
    assert!(map.contains_key("j"));
    assert!(!map.contains_key(""));
}

#[test]
fn lookup_finds_every_key_of_a_larger_map() {
    let mut map: OrderedMap<u32> = OrderedMap::new();
    for i in 0..200u32 {
        map.insert(format!("key{}", (i * 37) % 200), i);
    }
    assert_eq!(map.len(), 200);
    for i in 0..200u32 {
        assert_eq!(map.get(&format!("key{}", (i * 37) % 200)), Some(&i));
    }
    assert!(map.get("key200").is_none());
    let ks = keys(&map);
    for w in ks.windows(2) {
        assert!(w[0] < w[1]);
    }
}

#[test]
fn key_lt_is_the_order_of_strings() {
    let samples = ["", "a", "A", "ab", "b", "a.b", "é", "e", "zz", "z", "\u{10000}", "\u{ffff}"];
    for x in samples {
        for y in samples {
            assert_eq!(key_lt(x, y), x < y, "{:?} {:?}", x, y);
        }
    }
}

#[test]
fn same_str_compares_texts() {
    assert!(same_str("", ""));
    assert!(same_str("abc", "abc"));
    assert!(!same_str("abc", "abd"));
    assert!(!same_str("abc", "ab"));
    assert!(same_str("é", "é"));
}

#[test]
fn quoting() {
    assert_eq!(quote("t"), "\"t\"");
    assert_eq!(quote(""), "\"\"");
    assert_eq!(qualify("public", "t"), "\"public\".\"t\"");
}

#[test]
fn trailing_characters_are_cut() {
    assert_eq!(trim_end_char("a,b,,", ','), "a,b");
    assert_eq!(trim_end_char(",,", ','), "");
    assert_eq!(trim_end_char("", ','), "");
    assert_eq!(trim_end_char("abc", ','), "abc");
    assert_eq!(trim_end_char("é\n\n", '\n'), "é");
}

#[test]
fn trailing_texts_are_cut() {
    assert_eq!(trim_end_str("a,\nb,\n,\n", ",\n"), "a,\nb");
    assert_eq!(trim_end_str("a,\n", ",\n"), "a");
    assert_eq!(trim_end_str("a\n", ",\n"), "a\n");
    assert_eq!(trim_end_str(",\n", ",\n"), "");
    assert_eq!(trim_end_str("abc", ""), "abc");
    assert_eq!(trim_end_str("", ",\n"), "");
    assert_eq!(trim_end_str("é,\n,\n", ",\n"), "é");
}
