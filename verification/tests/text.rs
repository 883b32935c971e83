use mikebom_operator::text::{option_text_eq, push_decimal, text_before, text_eq};
use mikebom_operator::text_map::{TextMap, TextSet};

#[test]
fn texts_are_ordered_by_code_point() {
    assert!(text_before("", "a"));
    assert!(text_before("a", "ab"));
    assert!(text_before("ab", "b"));
    assert!(!text_before("b", "ab"));
    assert!(!text_before("a", "a"));
    assert!(text_before("z", "\u{e9}"));
    assert!(text_before("\u{ffff}", "\u{10000}"));
    for (a, b) in [("zeta:1", "alpha:1"), ("a\u{10000}", "a\u{ffff}"), ("x", "x")] {
        assert_eq!(text_before(a, b), a < b);
        assert_eq!(text_before(b, a), b < a);
    }
}

#[test]
fn texts_are_compared_in_full() {
    assert!(text_eq("Running", "Running"));
    assert!(!text_eq("Running", "running"));
    assert!(!text_eq("Run", "Running"));
    assert!(option_text_eq(&Some("a".to_string()), "a"));
    assert!(!option_text_eq(&Some("b".to_string()), "a"));
    assert!(!option_text_eq(&None, ""));
}

#[test]
fn numbers_are_written_in_decimal() {
    for n in [0usize, 7, 10, 99, 100, 12345, usize::MAX] {
        let mut out = "n=".to_string();
        push_decimal(&mut out, n);
        assert_eq!(out, format!("n={n}"));
    }
}

#[test]
fn map_keeps_the_last_value_and_the_order_of_keys() {
    let mut map: TextMap<u32> = TextMap::new();
    assert_eq!(map.len(), 0);
    map.insert("m".to_string(), 1);
    map.insert("z".to_string(), 2);
    map.insert("a".to_string(), 3);
    map.insert("m".to_string(), 4);
    assert_eq!(map.len(), 3);
    assert_eq!(map.get("m"), Some(&4));
    assert_eq!(map.get("b"), None);
    assert!(map.contains_key("z"));
    assert!(!map.contains_key("zz"));
    assert_eq!(map.into_values(), vec![3, 4, 2]);
}

#[test]
fn map_hands_out_its_keys_in_order() {
    let mut map: TextMap<u32> = TextMap::new();
    map.insert("b".to_string(), 1);
    map.insert("a".to_string(), 1);
    assert_eq!(map.key_at(0), "a");
    assert_eq!(map.key_at(1), "b");
    assert_eq!(map.into_keys(), vec!["a".to_string(), "b".to_string()]);
}

#[test]
fn set_holds_each_text_once() {
    let mut set = TextSet::new();
    set.insert("b".to_string());
    set.insert("a".to_string());
    set.insert("b".to_string());
    assert_eq!(set.len(), 2);
    assert!(set.contains("a"));
    assert!(!set.contains("c"));
    assert_eq!(set.into_vec(), vec!["a".to_string(), "b".to_string()]);
}
