use std::collections::HashMap;

use oparl_cache::external_list::{
    ExternalList, ExternalListLinks, ExternalListPagination, ListState, Pull,
};
use oparl_cache::url::Url;
use oparl_cache::value::Value;

fn text(s: &str) -> Value {
    Value::Text(s.to_string())
}

fn object(entries: Vec<(&str, Value)>) -> Value {
    Value::Record(entries.into_iter().map(|(k, v)| (k.to_string(), v)).collect())
}

fn item(id: &str) -> Value {
    object(vec![("id", text(id))])
}

fn page(items: Vec<Value>, next: Option<&str>) -> Value {
    let links = match next {
        Some(next) => object(vec![("next", text(next))]),
        None => object(vec![]),
    };
    object(vec![("data", Value::List(items)), ("links", links)])
}

/// Reads a list to its end against canned pages; a missing page fails.
fn drain(list: &mut ExternalList, pages: &HashMap<String, Value>) -> (Vec<String>, Vec<String>) {
    let mut ids = Vec::new();
    let mut fetched = Vec::new();
    loop {
        match list.next() {
            Pull::Item(value) => ids.push(value.get_text("id").unwrap().to_string()),
            Pull::Fetch(url) => {
                fetched.push(url.clone());
                match pages.get(&url) {
                    Some(page) => list.deliver(page),
                    None => list.fail(),
                }
            }
            Pull::End => return (ids, fetched),
        }
    }
}

/// Check whether iterating over a simple external list with an empty returns the right object ids
#[test]
fn external_list() {
    let expected_ids =
        ["http://oparl.tld/0", "http://oparl.tld/1", "http://oparl.tld/2", "http://oparl.tld/3"];
    let mut pages: HashMap<String, Value> = HashMap::new();
    pages.insert(
        "http://oparl.tld/list".to_string(),
        page(
            vec![item("http://oparl.tld/0"), item("http://oparl.tld/1")],
            Some("http://oparl.tld/list?page=2"),
        ),
    );
    // Empty pages are allowed
    pages.insert(
        "http://oparl.tld/list?page=2".to_string(),
        page(vec![], Some("http://oparl.tld/list?page=2")),
    );
    pages.insert(
        "http://oparl.tld/list?page=2".to_string(),
        page(vec![item("http://oparl.tld/2"), item("http://oparl.tld/3")], None),
    );

    let mut list = ExternalList::new(&Url::parse("http://oparl.tld/list").unwrap());

    let (ids, _) = drain(&mut list, &pages);
    assert_eq!(ids, expected_ids);
}

/// An empty first page with a link is followed, and the items come in page order
#[test]
fn empty_pages_are_followed() {
    let mut pages: HashMap<String, Value> = HashMap::new();
    pages.insert(
        "http://oparl.tld/list".to_string(),
        page(vec![], Some("http://oparl.tld/list?page=2")),
    );
    pages.insert(
        "http://oparl.tld/list?page=2".to_string(),
        page(vec![item("http://oparl.tld/0"), item("http://oparl.tld/1")], Some("http://oparl.tld/list?page=3")),
    );
    pages.insert(
        "http://oparl.tld/list?page=3".to_string(),
        page(vec![], Some("http://oparl.tld/list?page=4")),
    );
    pages.insert(
        "http://oparl.tld/list?page=4".to_string(),
        page(vec![item("http://oparl.tld/2")], None),
    );
    let mut list = ExternalList::new(&Url::parse("http://oparl.tld/list").unwrap());
    assert_eq!(list.state(), ListState::NotStarted);
    let (ids, fetched) = drain(&mut list, &pages);
    assert_eq!(ids, ["http://oparl.tld/0", "http://oparl.tld/1", "http://oparl.tld/2"]);
    assert_eq!(
        fetched,
        [
            "http://oparl.tld/list",
            "http://oparl.tld/list?page=2",
            "http://oparl.tld/list?page=3",
            "http://oparl.tld/list?page=4"
        ]
    );
    assert_eq!(list.state(), ListState::Exhausted);
    // An exhausted list stays exhausted
    assert_eq!(list.next(), Pull::End);
}

/// The states that a list goes through
#[test]
fn list_states() {
    let mut list = ExternalList::new(&Url::parse("http://oparl.tld/list").unwrap());
    assert_eq!(list.state(), ListState::NotStarted);
    assert_eq!(list.next(), Pull::Fetch("http://oparl.tld/list".to_string()));
    assert_eq!(list.state(), ListState::FetchingNextPage);
    list.deliver(&page(vec![item("a"), item("b")], Some("http://oparl.tld/next")));
    assert_eq!(list.state(), ListState::HasBufferedItems);
    assert_eq!(list.next(), Pull::Item(item("a")));
    assert_eq!(list.state(), ListState::HasBufferedItems);
    assert_eq!(list.next(), Pull::Item(item("b")));
    assert_eq!(list.state(), ListState::FetchingNextPage);
    assert_eq!(list.next(), Pull::Fetch("http://oparl.tld/next".to_string()));
    list.deliver(&page(vec![], None));
    assert_eq!(list.state(), ListState::Exhausted);
    assert_eq!(list.next(), Pull::End);
}

/// A page that cannot be fetched ends the list; what was handed out stays
#[test]
fn transport_failure_ends_the_list() {
    let mut pages: HashMap<String, Value> = HashMap::new();
    pages.insert(
        "http://oparl.tld/list".to_string(),
        page(vec![item("http://oparl.tld/0")], Some("http://oparl.tld/gone")),
    );
    let mut list = ExternalList::new(&Url::parse("http://oparl.tld/list").unwrap());
    let (ids, fetched) = drain(&mut list, &pages);
    assert_eq!(ids, ["http://oparl.tld/0"]);
    assert_eq!(fetched, ["http://oparl.tld/list", "http://oparl.tld/gone"]);
    assert_eq!(list.state(), ListState::Errored);
    assert_eq!(list.next(), Pull::End);
}

/// A link that is no URL, or data that is no list, is as good as none
#[test]
fn odd_pages() {
    let mut list = ExternalList::new(&Url::parse("http://oparl.tld/list").unwrap());
    list.next();
    list.deliver(&page(vec![item("a")], Some("not a url")));
    assert_eq!(list.next(), Pull::Item(item("a")));
    assert_eq!(list.next(), Pull::End);

    let mut list = ExternalList::new(&Url::parse("http://oparl.tld/list").unwrap());
    list.next();
    list.deliver(&object(vec![("data", text("none"))]));
    assert_eq!(list.state(), ListState::Exhausted);

    // A page that was not asked for changes nothing
    let mut list = ExternalList::new(&Url::parse("http://oparl.tld/list").unwrap());
    list.next();
    list.deliver(&page(vec![item("a")], None));
    list.deliver(&page(vec![item("b")], None));
    assert_eq!(list.next(), Pull::Item(item("a")));
    assert_eq!(list.next(), Pull::End);
}

/// The two empty parts of a page
#[test]
fn page_parts_hold_nothing() {
    assert_eq!(ExternalListPagination {}, ExternalListPagination {});
    assert_eq!(ExternalListLinks {}, ExternalListLinks {});
    assert_eq!(std::mem::size_of::<ExternalListPagination>(), 0);
    assert_eq!(std::mem::size_of::<ExternalListLinks>(), 0);
}
