use oparl_cache::cacher::this_sync;
use oparl_cache::codec::{decode, encode, is_readable, MAX_DEPTH, MAX_DIGIT_RUN};
use oparl_cache::file_storage::{
    join, FileStorage, CACHED_SERVERS_FILE, CACHE_STATUS_FILE, FILE_EXTENSION,
};
use oparl_cache::ledger::{read_ledger, write_ledger, LedgerError, SyncLedgerEntry};
use oparl_cache::schema::{SchemaCatalog, SchemaLoadFailure};
use oparl_cache::servers::{read_servers, register_server, write_servers};
use oparl_cache::text::{decimal_text, take_last_segment};
use oparl_cache::url::{is_filter_name, Url};
use oparl_cache::value::Value;

fn url(s: &str) -> Url {
    Url::parse(s).unwrap()
}

fn storage() -> FileStorage {
    FileStorage::with_schema(SchemaCatalog::new(), "/var/cache/oparl/".to_string())
}

#[test]
fn names_and_overrides() {
    let mut storage = storage();
    assert_eq!(CACHE_STATUS_FILE, "cache_status.json");
    assert_eq!(CACHED_SERVERS_FILE, "cached_servers.json");
    assert_eq!(FILE_EXTENSION, ".json");
    assert_eq!(storage.get_cache_dir(), "/var/cache/oparl/");
    assert_eq!(storage.get_cache_status_file(), "cache_status.json");
    assert_eq!(storage.get_cached_servers_file(), "cached_servers.json");
    assert_eq!(storage.get_schema().len(), 0);
    assert_eq!(storage.cached_servers_path(), "/var/cache/oparl/cached_servers.json");
    assert_eq!(
        storage.cache_status_path(&url("http://localhost:8080/oparl/v1.0/")),
        "/var/cache/oparl/http:localhost:8080/oparl/v1.0/cache_status.json"
    );
    assert_eq!(
        storage.cache_status_path(&url("http://localhost:8080/")),
        "/var/cache/oparl/http:localhost:8080/cache_status.json"
    );
    storage.override_cache_status_file("status.json");
    storage.override_cached_servers_file("servers.json");
    assert_eq!(storage.get_cache_status_file(), "status.json");
    assert_eq!(storage.cached_servers_path(), "/var/cache/oparl/servers.json");
    assert_eq!(
        storage.cache_status_path(&url("https://example.com/api")),
        "/var/cache/oparl/https:example.com/api/status.json"
    );
}

#[test]
fn a_storage_wants_a_whole_schema() {
    let texts = vec!["{\"title\": \"Paper\"}".to_string()];
    assert!(matches!(
        FileStorage::new(&texts, "/tmp/x".to_string()),
        Err(SchemaLoadFailure::Incomplete)
    ));
    let texts = vec!["nothing".to_string()];
    assert!(matches!(
        FileStorage::new(&texts, "/tmp/x".to_string()),
        Err(SchemaLoadFailure::Malformed)
    ));
    let texts: Vec<String> =
        (0..12).map(|n| format!("{{\"title\": \"T{}\", \"properties\": {{}}}}", n)).collect();
    let storage = FileStorage::new(&texts, "/tmp/x".to_string()).ok().unwrap();
    assert_eq!(storage.get_schema().len(), 12);
    assert_eq!(storage.get_cache_dir(), "/tmp/x");
}

#[test]
fn paths_are_joined_like_paths() {
    assert_eq!(join("/tmp/cache", "a/b.json"), "/tmp/cache/a/b.json");
    assert_eq!(join("/tmp/cache/", "a/b.json"), "/tmp/cache/a/b.json");
    assert_eq!(join("", "a/b.json"), "a/b.json");
    assert_eq!(join("/tmp/cache", "/etc/servers.json"), "/etc/servers.json");
    assert_eq!(join("/tmp/cache", ""), "/tmp/cache/");
}

#[test]
fn cache_paths() {
    let storage = storage();
    let path = |at: &str| storage.url_to_path(&url(at), FILE_EXTENSION);
    assert_eq!(path("https://example.tld/api?id=3"), "/var/cache/oparl/https:example.tld/api?id=3.json");
    assert_eq!(
        path("https://example.tld/api?modified_since=1&id=3&created_until=2&b=a+b%2F"),
        "/var/cache/oparl/https:example.tld/api?id=3&b=a+b%2F.json"
    );
    assert_eq!(path("https://example.tld/api?"), "/var/cache/oparl/https:example.tld/api.json");
    assert_eq!(path("https://example.tld:444/a//b/"), "/var/cache/oparl/https:example.tld:444/a//b.json");
    assert_eq!(path("https://example.tld:443/a"), "/var/cache/oparl/https:example.tld/a.json");
    assert_eq!(path("mailto:someone@example.tld"), "/var/cache/oparl/mailto/someone@example.tld.json");
    assert_eq!(path("http://[::1]:65535/x#frag"), "/var/cache/oparl/http:[::1]:65535/x.json");
}

#[test]
fn filter_names() {
    assert!(is_filter_name("modified_since"));
    assert!(is_filter_name("modified_until"));
    assert!(is_filter_name("created_since"));
    assert!(is_filter_name("created_until"));
    assert!(!is_filter_name("modified"));
    assert!(!is_filter_name("page"));
    assert!(!is_filter_name(""));
}

#[test]
fn urls_are_parsed_into_parts() {
    let parsed = url("HTTPS://User@Example.TLD:8443/a/b/?x=1&y=a%20b#top");
    assert_eq!(parsed.as_str(), "https://User@example.tld:8443/a/b/?x=1&y=a%20b#top");
    assert_eq!(parsed.scheme, "https");
    assert_eq!(parsed.host, Some("example.tld".to_string()));
    assert_eq!(parsed.port, Some(8443));
    assert_eq!(parsed.path, "/a/b/");
    assert_eq!(
        parsed.pairs,
        vec![("x".to_string(), "1".to_string()), ("y".to_string(), "a b".to_string())]
    );
    assert_eq!(parsed.kept_query(), parsed.pairs);
    assert_eq!(parsed.host_folder(), "https:example.tld:8443");
    assert_eq!(parsed.copy(), parsed);
    assert_eq!(Url::parse("no url"), None);
    assert_eq!(Url::parse("/relative/path"), None);
    assert_eq!(Url::parse(""), None);
}

#[test]
fn pairs_are_appended_to_the_query() {
    let list = url("https://example.com/list");
    let filtered = list.with_pair("modified_since", "1969-07-21T02:56:00+00:00").unwrap();
    assert_eq!(
        filtered.as_str(),
        "https://example.com/list?modified_since=1969-07-21T02%3A56%3A00%2B00%3A00"
    );
    assert_eq!(filtered.cache_path(".json"), list.cache_path(".json"));
    let more = url("https://example.com/list?page=2#here").with_pair("a b", "c&d").unwrap();
    assert_eq!(more.as_str(), "https://example.com/list?page=2&a+b=c%26d#here");
}

#[test]
fn text_helpers() {
    assert_eq!(take_last_segment("https://schema.oparl.org/1.0/Paper"), "Paper");
    assert_eq!(take_last_segment("Paper"), "Paper");
    assert_eq!(take_last_segment("a/b/"), "");
    assert_eq!(take_last_segment(""), "");
    assert_eq!(decimal_text(0), "0");
    assert_eq!(decimal_text(7), "7");
    assert_eq!(decimal_text(80), "80");
    assert_eq!(decimal_text(8080), "8080");
    assert_eq!(decimal_text(65535), "65535");
}

#[test]
fn json_is_read_and_written() {
    let value = decode("{\"b\": [1, -2.5, true, null, \"x\"], \"a\": {}}").unwrap();
    assert_eq!(
        value,
        Value::Record(vec![
            (
                "b".to_string(),
                Value::List(vec![
                    Value::Number(true, 1, 0),
                    Value::Number(false, 25, -1),
                    Value::Bool(true),
                    Value::Null,
                    Value::Text("x".to_string()),
                ])
            ),
            ("a".to_string(), Value::Record(vec![])),
        ])
    );
    assert_eq!(
        encode(&value).unwrap(),
        "{\n    \"b\": [\n        1,\n        -2.5,\n        true,\n        null,\n        \"x\"\n    ],\n    \"a\": {}\n}"
    );
    assert_eq!(decode(&encode(&value).unwrap()), Some(value));
    assert_eq!(decode("{"), None);
    assert_eq!(decode(""), None);
}

#[test]
fn long_runs_of_digits_are_not_read() {
    assert_eq!(MAX_DIGIT_RUN, 32767);
    let zeros = "0".repeat(MAX_DIGIT_RUN - 1);
    let longest = format!("[1.{}]", zeros);
    assert!(is_readable(&longest));
    assert_eq!(
        decode(&longest),
        Some(Value::List(vec![Value::Number(true, 10000000000000000000, -19)]))
    );
    let fraction = format!("0.{}1", zeros);
    assert!(is_readable(&fraction));
    assert_eq!(decode(&fraction), Some(Value::Number(true, 1, -32767)));
    let too_long = format!("0.{}0", "0".repeat(MAX_DIGIT_RUN));
    assert!(!is_readable(&too_long));
    assert_eq!(decode(&too_long), None);
    let in_a_text = format!("\"{}\"", "7".repeat(MAX_DIGIT_RUN + 1));
    assert_eq!(decode(&in_a_text), None);
    // Runs that something parts are counted each for itself
    let parted = format!("[{}]", vec!["1234567890"; 5000].join(","));
    assert!(is_readable(&parted));
    assert!(decode(&parted).is_some());
    assert!(is_readable("äöü €"));
}

#[test]
fn deep_values_are_not_written() {
    assert_eq!(MAX_DEPTH, 513);
    // The deepest texts that are read hold values that can be written
    let lists = decode(&format!("{}{}", "[".repeat(513), "]".repeat(513))).unwrap();
    assert!(lists.nests_within(MAX_DEPTH));
    assert!(encode(&lists).is_some());
    let records = decode(&format!("{}1{}", "{\"a\":".repeat(512), "}".repeat(512))).unwrap();
    assert!(encode(&records).is_some());
    assert_eq!(decode(&format!("{}{}", "[".repeat(514), "]".repeat(514))), None);
    let mut value = Value::Null;
    assert!(value.nests_within(0));
    for depth in 1..=MAX_DEPTH {
        value = if depth % 2 == 0 {
            Value::List(vec![Value::Bool(true), value])
        } else {
            Value::Record(vec![("k".to_string(), value)])
        };
        assert!(value.nests_within(depth));
        assert!(!value.nests_within(depth - 1));
    }
    let text = encode(&value).unwrap();
    assert!(text.ends_with("\n}"));
    assert!(text.contains(&format!("\n{}\"k\": null\n", " ".repeat(4 * MAX_DEPTH))));
    let deeper = Value::List(vec![value]);
    assert_eq!(encode(&deeper), None);
    assert_eq!(encode(&Value::List(vec![])), Some("[]".to_string()));
}

#[test]
fn a_path_with_a_given_query() {
    let at = url("https://example.tld/api/?modified_since=1");
    assert_eq!(at.kept_query_text(), "");
    assert_eq!(at.path_with_query("", ".json"), "https:example.tld/api.json");
    assert_eq!(at.path_with_query("page=2", ".json"), "https:example.tld/api?page=2.json");
    assert_eq!(at.path_with_query("page=2", ""), "https:example.tld/api?page=2");
    assert_eq!(url("https://example.tld/api?a=b c&created_since=0").kept_query_text(), "a=b+c");
}

#[test]
fn the_ledger_is_read_and_written() {
    let entries = vec![
        SyncLedgerEntry { url: url("https://example.com/a"), last_sync: Some("t1".to_string()) },
        SyncLedgerEntry { url: url("https://example.com/b"), last_sync: None },
    ];
    let text = write_ledger(&entries);
    assert_eq!(
        text,
        "[\n    {\n        \"url\": \"https://example.com/a\",\n        \"last_sync\": \"t1\"\n    },\n    {\n        \"url\": \"https://example.com/b\",\n        \"last_sync\": null\n    }\n]"
    );
    assert_eq!(read_ledger(Some(&text)), Ok(entries));
    assert_eq!(read_ledger(None), Ok(vec![]));
    assert_eq!(read_ledger(Some("[]")), Ok(vec![]));
    assert_eq!(
        read_ledger(Some("[{\"url\": \"https://example.com/a\"}]")),
        Ok(vec![SyncLedgerEntry { url: url("https://example.com/a"), last_sync: None }])
    );
    assert_eq!(read_ledger(Some("{}")), Err(LedgerError::Malformed));
    assert_eq!(read_ledger(Some("[")), Err(LedgerError::Malformed));
    assert_eq!(read_ledger(Some("[{\"last_sync\": \"t\"}]")), Err(LedgerError::Malformed));
    assert_eq!(read_ledger(Some("[{\"url\": \"nowhere\"}]")), Err(LedgerError::Malformed));
    assert_eq!(
        read_ledger(Some("[{\"url\": \"https://example.com/a\", \"last_sync\": 5}]")),
        Err(LedgerError::Malformed)
    );
}

#[test]
fn the_servers_are_read_and_written() {
    let mut servers = read_servers(None).unwrap();
    assert_eq!(servers, vec![]);
    assert!(register_server(&mut servers, &url("http://example1.com/")));
    assert!(register_server(&mut servers, &url("http://example2.com/")));
    assert!(!register_server(&mut servers, &url("http://example2.com")));
    assert_eq!(servers, vec![url("http://example1.com/"), url("http://example2.com/")]);
    let text = write_servers(&servers).unwrap();
    assert_eq!(text, "[\n  \"http://example1.com/\",\n  \"http://example2.com/\"\n]");
    assert_eq!(read_servers(Some(&text)), Ok(servers));
    assert_eq!(read_servers(Some("[\"nowhere\"]")), Err(LedgerError::Malformed));
    assert_eq!(read_servers(Some("[1]")), Err(LedgerError::Malformed));
    assert_eq!(read_servers(Some("{")), Err(LedgerError::Malformed));
}

#[test]
fn the_time_of_a_crawl_is_written_with_its_offset() {
    let stamp = this_sync().unwrap();
    // 2017-03-04T05:06:07+01:00
    assert_eq!(stamp.len(), 25);
    assert_eq!(&stamp[4..5], "-");
    assert_eq!(&stamp[10..11], "T");
    assert_eq!(&stamp[13..14], ":");
    assert!(stamp[..4].parse::<u32>().unwrap() >= 2024);
}
