use oparl_cache::listing::{
    contains_id, decode_listing, listing_value, merge_listing, push_unique, read_listing,
    write_listing,
};
use oparl_cache::value::Value;

fn ids(list: &[&str]) -> Vec<String> {
    list.iter().map(|s| s.to_string()).collect()
}

#[test]
fn merge_puts_fresh_first_and_drops_duplicates() {
    assert_eq!(merge_listing(&ids(&["B", "C"]), &ids(&["A", "B"])), ids(&["B", "C", "A"]));
    assert_eq!(merge_listing(&ids(&[]), &ids(&["A", "B"])), ids(&["A", "B"]));
    assert_eq!(merge_listing(&ids(&["A", "B"]), &ids(&[])), ids(&["A", "B"]));
    assert_eq!(merge_listing(&ids(&["A", "A", "B"]), &ids(&["C", "A", "C"])), ids(&["A", "B", "C"]));
    assert_eq!(merge_listing(&ids(&[]), &ids(&[])), ids(&[]));
}

#[test]
fn merge_is_stable_when_repeated() {
    let once = merge_listing(&ids(&["1", "2", "4", "5"]), &ids(&["0", "1", "3", "4"]));
    assert_eq!(once, ids(&["1", "2", "4", "5", "0", "3"]));
    assert_eq!(merge_listing(&once, &once), once);
}

#[test]
fn push_unique_keeps_first() {
    let mut list = ids(&["a", "b"]);
    push_unique(&mut list, "a".to_string());
    assert_eq!(list, ids(&["a", "b"]));
    push_unique(&mut list, "c".to_string());
    assert_eq!(list, ids(&["a", "b", "c"]));
    assert!(contains_id(&list, "c"));
    assert!(!contains_id(&list, "d"));
}

#[test]
fn listings_are_lists_of_texts() {
    let value = listing_value(&ids(&["x", "y"]));
    assert_eq!(
        value,
        Value::List(vec![Value::Text("x".to_string()), Value::Text("y".to_string())])
    );
    assert_eq!(decode_listing(&value), Some(ids(&["x", "y"])));
    assert_eq!(decode_listing(&Value::List(vec![Value::Null])), None);
    assert_eq!(decode_listing(&Value::Text("x".to_string())), None);
    assert_eq!(decode_listing(&Value::List(vec![])), Some(ids(&[])));
}

#[test]
fn stored_listings_are_read_back() {
    let text = write_listing(&ids(&["https://example.com/1", "https://example.com/2"]));
    assert_eq!(text, "[\n    \"https://example.com/1\",\n    \"https://example.com/2\"\n]");
    assert_eq!(
        read_listing(Some(&text)),
        Some(ids(&["https://example.com/1", "https://example.com/2"]))
    );
    assert_eq!(read_listing(None), None);
    assert_eq!(read_listing(Some("no json")), None);
    assert_eq!(read_listing(Some("{\"a\": 1}")), None);
    assert_eq!(read_listing(Some("[1, 2]")), None);
}
