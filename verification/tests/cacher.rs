use std::collections::HashMap;

use oparl_cache::cacher::{Command, CrawlFailure, Event, ListCrawl};
use oparl_cache::codec::{decode, encode};
use oparl_cache::coordinator::{Decision, Message, WorkItem};
use oparl_cache::decompose::DecomposeError;
use oparl_cache::file_storage::{Action, FileStorage, FILE_EXTENSION};
use oparl_cache::run::{CacheRun, RunError, RunPhase, Summary};
use oparl_cache::schema::SchemaCatalog;
use oparl_cache::servers::read_servers;
use oparl_cache::url::Url;
use oparl_cache::value::Value;

fn text(s: &str) -> Value {
    Value::Text(s.to_string())
}

fn object(entries: Vec<(&str, Value)>) -> Value {
    Value::Record(entries.into_iter().map(|(k, v)| (k.to_string(), v)).collect())
}

fn array(items: Vec<Value>) -> Value {
    Value::List(items)
}

/// The document of one type: its title and its property definitions.
fn type_document(title: &str, properties: Vec<(&str, Value)>) -> Value {
    object(vec![("title", text(title)), ("type", text("object")), ("properties", object(properties))])
}

fn string_property() -> Value {
    object(vec![("type", text("string"))])
}

fn embedded_property() -> Value {
    object(vec![("type", text("object"))])
}

fn embedded_list_property() -> Value {
    object(vec![("type", text("array")), ("items", embedded_property())])
}

fn list_reference_property() -> Value {
    object(vec![("type", text("string")), ("references", text("externalList"))])
}

/// A schema of twelve types with the properties that the tests touch.
fn schema() -> SchemaCatalog {
    let documents = vec![
        type_document("System", vec![("id", string_property()), ("body", list_reference_property())]),
        type_document(
            "Body",
            vec![
                ("id", string_property()),
                ("legislativeTerm", embedded_list_property()),
                ("organization", list_reference_property()),
                ("person", list_reference_property()),
                ("meeting", list_reference_property()),
                ("paper", list_reference_property()),
                ("web", string_property()),
                ("location", embedded_property()),
            ],
        ),
        type_document("LegislativeTerm", vec![("id", string_property()), ("name", string_property())]),
        type_document("Organization", vec![("id", string_property())]),
        type_document("Person", vec![("id", string_property())]),
        type_document("Membership", vec![("id", string_property())]),
        type_document("Meeting", vec![("id", string_property())]),
        type_document("AgendaItem", vec![("id", string_property())]),
        type_document(
            "Paper",
            vec![
                ("id", string_property()),
                ("mainFile", embedded_property()),
                ("auxiliaryFile", embedded_list_property()),
                ("key", string_property()),
            ],
        ),
        type_document("Consultation", vec![("id", string_property())]),
        type_document("File", vec![("id", string_property()), ("accessUrl", string_property())]),
        type_document("Location", vec![("id", string_property()), ("geojson", embedded_property())]),
    ];
    SchemaCatalog::load(&documents, 12).unwrap()
}

fn storage() -> FileStorage {
    FileStorage::with_schema(schema(), "/tmp/cache-rust".to_string())
}

fn url(s: &str) -> Url {
    Url::parse(s).unwrap()
}

/// A server that answers from canned responses, and the files of a cache.
struct World {
    responses: HashMap<String, String>,
    files: HashMap<String, String>,
    discovered: Vec<String>,
    fetched: Vec<String>,
    lost: Vec<bool>,
}

impl World {
    fn new() -> World {
        World {
            responses: HashMap::new(),
            files: HashMap::new(),
            discovered: Vec::new(),
            fetched: Vec::new(),
            lost: Vec::new(),
        }
    }

    fn with_response(mut self, at: &str, response: Value) -> World {
        self.add_response(at, response);
        self
    }

    fn add_response(&mut self, at: &str, response: Value) {
        self.responses.insert(url(at).as_str().to_string(), encode(&response).unwrap());
    }

    fn perform(&mut self, actions: Vec<Action>) {
        for action in actions {
            match action {
                Action::Write { path, content } => {
                    self.files.insert(path, content);
                }
                Action::Discover { url } => self.discovered.push(url.as_str().to_string()),
            }
        }
    }

    fn stored(&self, storage: &FileStorage, at: &str) -> Value {
        let path = storage.url_to_path(&url(at), FILE_EXTENSION);
        decode(self.files.get(&path).unwrap()).unwrap()
    }
}

fn work_item(at: &str, last_sync: Option<String>) -> WorkItem {
    WorkItem { key: url(at).cache_path(""), url: url(at), last_sync }
}

/// Crawls one collection to its end and gives the time that it reports.
fn parse_external_list(
    storage: &FileStorage,
    world: &mut World,
    at: &str,
    last_sync: Option<String>,
    this_sync: &str,
) -> (String, Option<String>) {
    let (mut crawl, mut command) =
        ListCrawl::begin(storage, work_item(at, last_sync), this_sync.to_string());
    loop {
        let event = match command {
            Command::Fetch { url } => {
                world.fetched.push(url.clone());
                Event::Page(world.responses.get(&url).cloned())
            }
            Command::Perform { actions, .. } => {
                world.perform(actions);
                Event::Performed(true)
            }
            Command::ReadListing { path } => Event::Previous(world.files.get(&path).cloned()),
            Command::WriteListing { path, content, previous_lost } => {
                world.lost.push(previous_lost);
                world.files.insert(path, content);
                Event::Stored(true)
            }
            Command::Done { key, outcome } => return (key, outcome.ok()),
        };
        command = crawl.step(storage, event);
    }
}

/// Assert that an embedded object will be properly extracted from a parent object
#[test]
fn parse_object_and_extract_embedded_object() {
    let file = object(vec![
        ("id", text("http://localhost:8080/oparl/v1.0/file/2")),
        ("type", text("https://schema.oparl.org/1.0/File")),
        ("accessUrl", text("http://localhost:8080/fileaccess/access/2")),
        ("created", text("2016-05-02T19:53:08+02:00")),
        ("modified", text("2016-05-02T19:53:08+02:00")),
    ]);
    let input = object(vec![
        ("id", text("http://localhost:8080/oparl/v1.0/paper/2")),
        ("type", text("https://schema.oparl.org/1.0/Paper")),
        ("auxiliaryFile", array(vec![file.copy()])),
        ("created", text("2016-05-02T00:00:00+02:00")),
        ("modified", text("2016-05-02T00:00:00+02:00")),
    ]);

    // The same object with the embedded object replaced by its id
    let expected_output = object(vec![
        ("id", text("http://localhost:8080/oparl/v1.0/paper/2")),
        ("type", text("https://schema.oparl.org/1.0/Paper")),
        ("auxiliaryFile", array(vec![text("http://localhost:8080/oparl/v1.0/file/2")])),
        ("created", text("2016-05-02T00:00:00+02:00")),
        ("modified", text("2016-05-02T00:00:00+02:00")),
    ]);

    let storage = storage();
    let stored = storage.parse_object(&input);

    assert_eq!(stored.result.unwrap(), expected_output);
    let discovered = stored.actions.iter().any(|action| matches!(action, Action::Discover { .. }));
    assert_eq!(discovered, false);

    let mut world = World::new();
    world.perform(stored.actions);
    assert_eq!(world.files.len(), 2);
    assert_eq!(world.stored(&storage, "http://localhost:8080/oparl/v1.0/file/2"), file);
    assert_eq!(world.stored(&storage, "http://localhost:8080/oparl/v1.0/paper/2"), expected_output);
}

/// Assert that parse_object ignores embedded geojson objects
#[test]
fn parse_object_ignore_geojson() {
    let input = object(vec![
        ("id", text("https://example.com")),
        ("type", text("https://schema.oparl.org/1.0/Paper")),
        ("geojson", object(vec![("this", text("should not be touched"))])),
    ]);
    let expected_output = input.copy();

    let storage = storage();
    let stored = storage.parse_object(&input);

    assert_eq!(stored.result.unwrap(), expected_output);
    let discovered = stored.actions.iter().any(|action| matches!(action, Action::Discover { .. }));
    assert_eq!(discovered, false);
}

/// A geometry payload where the schema has an embedded object stays in its place
#[test]
fn parse_object_keeps_geometry_feature() {
    let feature = object(vec![
        ("type", text("Feature")),
        ("id", text("https://example.com/feature")),
        ("geometry", object(vec![("type", text("Point")), ("coordinates", array(vec![]))])),
    ]);
    let input = object(vec![
        ("id", text("https://example.com/location/1")),
        ("type", text("https://schema.oparl.org/1.0/Location")),
        ("geojson", feature),
    ]);
    let storage = storage();
    let stored = storage.parse_object(&input);
    assert_eq!(stored.result.unwrap(), input);
    assert_eq!(stored.actions.len(), 1);
    assert_eq!(
        stored.actions[0],
        Action::Write {
            path: "/tmp/cache-rust/https:example.com/location/1.json".to_string(),
            content: encode(&input).unwrap(),
        }
    );
}

/// Assert that all links to external lists are extracted from objects
#[test]
fn parse_object_find_external_list() {
    let term = object(vec![
        ("id", text("http://localhost:8080/oparl/v1.0/legislativeterm/0")),
        ("type", text("https://schema.oparl.org/1.0/LegislativeTerm")),
        ("name", text("Unknown")),
    ]);
    let rest = |first: Value| {
        object(vec![
            ("id", text("http://localhost:8080/oparl/v1.0/body/0")),
            ("type", text("https://schema.oparl.org/1.0/Body")),
            ("legislativeTerm", array(vec![first])),
            ("organization", text("http://localhost:8080/oparl/v1.0/body/0/list/organization")),
            ("person", text("http://localhost:8080/oparl/v1.0/body/0/list/person")),
            ("meeting", text("http://localhost:8080/oparl/v1.0/body/0/list/meeting")),
            ("paper", text("http://localhost:8080/oparl/v1.0/body/0/list/paper")),
            ("web", text("http://localhost:8080/")),
            ("created", text("2016-09-29T14:31:50+02:00")),
            ("modified", text("2016-09-29T14:42:52+02:00")),
        ])
    };
    let input = rest(term);
    let expected_output = rest(text("http://localhost:8080/oparl/v1.0/legislativeterm/0"));

    let expected_lists = vec![
        url("http://localhost:8080/oparl/v1.0/body/0/list/organization"),
        url("http://localhost:8080/oparl/v1.0/body/0/list/person"),
        url("http://localhost:8080/oparl/v1.0/body/0/list/meeting"),
        url("http://localhost:8080/oparl/v1.0/body/0/list/paper"),
    ];

    let storage = storage();
    let stored = storage.parse_object(&input);

    assert_eq!(stored.result.unwrap(), expected_output);
    let results: Vec<Url> = stored
        .actions
        .into_iter()
        .filter_map(|action| match action {
            Action::Discover { url } => Some(url),
            Action::Write { .. } => None,
        })
        .collect();
    assert_eq!(results, expected_lists);
}

fn test_parse_external_list(with_modified: bool) {
    let list = "http://localhost:8080/oparl/v1.0/body/0/list/paper";
    let time = "1969-07-21T02:56:00+00:00".to_string();

    let url_with_time1;
    let url_with_time2;
    if with_modified {
        url_with_time1 = url(list).with_pair("modified_since", &time).unwrap();
        url_with_time2 = url(list)
            .with_pair("id", "3")
            .unwrap()
            .with_pair("modified_since", &time)
            .unwrap();
    } else {
        url_with_time1 = url(list);
        url_with_time2 = url(list).with_pair("id", "3").unwrap();
    }

    let next = if with_modified {
        "http://localhost:8080/oparl/v1.0/body/0/list/paper?id=3&modified_since=1969-07-21T02%3A56%3A00%2B00%3A00"
    } else {
        "http://localhost:8080/oparl/v1.0/body/0/list/paper?id=3"
    };

    let page1 = object(vec![("data", array(vec![])), ("links", object(vec![("next", text(next))]))]);
    let page2 = object(vec![("data", array(vec![])), ("links", object(vec![]))]);

    let mut world = World::new();
    world.add_response(url_with_time1.as_str(), page1);
    world.add_response(url_with_time2.as_str(), page2);

    let storage = storage();
    let modified = if with_modified { Some(time) } else { None };

    let returned = parse_external_list(&storage, &mut world, list, modified, "2017-01-01T00:00:00+00:00");

    assert_eq!(returned.0, url(list).cache_path(""));
    assert_eq!(returned.1, Some("2017-01-01T00:00:00+00:00".to_string()));
    assert_eq!(world.discovered.is_empty(), true);
    assert_eq!(world.fetched, vec![url_with_time1.as_str().to_string(), next.to_string()]);
}

/// Runs test_parse_external_list with different configurations
#[test]
fn cacher_run_test_parse_external_list() {
    test_parse_external_list(false);
    test_parse_external_list(true);
}

/// Helper for test_url_to_path
fn for_one(url_text: &str, query_string: &str, path: &str, storage: &FileStorage) {
    let x = url(&(url_text.to_string() + query_string));
    assert_eq!(
        format!("{}/{}", storage.get_cache_dir(), path),
        storage.url_to_path(&x, FILE_EXTENSION)
    );
    let y = url(&(url_text.to_string() + "/" + query_string));
    assert_eq!(
        format!("{}/{}", storage.get_cache_dir(), path),
        storage.url_to_path(&y, FILE_EXTENSION)
    );
}

/// Assert that the url to path transformation works as indended
#[test]
fn cacher_test_url_to_path() {
    let storage = storage();

    let cache_status_file = "http:localhost:8080/oparl/v1.0/cache-status.json";
    assert_eq!(
        format!("{}/{}", storage.get_cache_dir(), cache_status_file),
        storage.url_to_path(&url("http://localhost:8080/oparl/v1.0"), "") + "/cache-status.json"
    );
    for_one(
        "https://example.tld:8080/oparl/v1.0/paper/1",
        "",
        "https:example.tld:8080/oparl/v1.0/paper/1.json",
        &storage,
    );
    for_one(
        "https://example.tld/oparl/v1.0/paper/1",
        "",
        "https:example.tld/oparl/v1.0/paper/1.json",
        &storage,
    );
    for_one("https://example.tld/oparl/v1.0", "", "https:example.tld/oparl/v1.0.json", &storage);
    for_one("https://example.tld", "", "https:example.tld/.json", &storage);
    for_one(
        "https://example.tld/api",
        "?modified_until=2016-05-03T00%3A00%3A00%2B02%3A00",
        "https:example.tld/api.json",
        &storage,
    );
}

fn paper(id: &str, key: &str) -> Value {
    object(vec![
        ("id", text(id)),
        ("type", text("https://schema.oparl.org/1.0/Paper")),
        ("key", text(key)),
    ])
}

fn page(items: Vec<Value>, next: Option<&str>) -> Value {
    let links = match next {
        Some(next) => object(vec![("next", text(next))]),
        None => object(vec![]),
    };
    object(vec![("data", array(items)), ("links", links)])
}

fn listing(world: &World, storage: &FileStorage, at: &str) -> Vec<String> {
    match world.stored(storage, at) {
        Value::List(items) => {
            items.iter().map(|item| item.as_text().unwrap().to_string()).collect()
        }
        _ => panic!("no listing"),
    }
}

/// Assert that incremental updates on external lists work
#[test]
fn test_parse_external_list_incremental() {
    let storage = storage();
    let list_url = "https://example.com/list";

    // Add the before-update state
    let mut world = World::new()
        .with_response(
            list_url,
            page(
                vec![
                    paper("https://example.com/0", "old value"),
                    paper("https://example.com/1", "old value"),
                ],
                Some("https://example.com/list/next_page"),
            ),
        )
        .with_response(
            &(list_url.to_string() + "/next_page"),
            page(
                vec![
                    paper("https://example.com/3", "old value"),
                    paper("https://example.com/4", "old value"),
                ],
                None,
            ),
        );

    let (_, update) =
        parse_external_list(&storage, &mut world, list_url, None, "2017-03-04T05:06:07+01:00");
    let timestamp = update.unwrap();

    let url_modified = url(list_url).with_pair("modified_since", &timestamp).unwrap();
    let url2_modified =
        url(&(list_url.to_string() + "/next_page")).with_pair("modified_since", &timestamp).unwrap();

    // Now that we know the update timestamp, we can add the updated response
    world.add_response(
        url_modified.as_str(),
        page(
            vec![
                paper("https://example.com/1", "new value"),
                paper("https://example.com/2", "new value"),
            ],
            Some(url2_modified.as_str()),
        ),
    );
    world.add_response(
        url2_modified.as_str(),
        page(
            vec![
                paper("https://example.com/4", "new value"),
                paper("https://example.com/5", "new value"),
            ],
            None,
        ),
    );

    parse_external_list(&storage, &mut world, list_url, Some(timestamp), "2017-03-05T05:06:07+01:00");

    let expected_list = vec![
        "https://example.com/1",
        "https://example.com/2",
        "https://example.com/4",
        "https://example.com/5",
        "https://example.com/0",
        "https://example.com/3",
    ];

    assert_eq!(listing(&world, &storage, "https://example.com/list"), expected_list);

    let get_key =
        |at: &str| world.stored(&storage, at).get_text("key").unwrap().to_string();

    assert_eq!(get_key("https://example.com/0"), "old value");
    assert_eq!(get_key("https://example.com/1"), "new value");
    assert_eq!(get_key("https://example.com/2"), "new value");
    assert_eq!(get_key("https://example.com/3"), "old value");
    assert_eq!(get_key("https://example.com/4"), "new value");
    assert_eq!(get_key("https://example.com/5"), "new value");
}

/// A prior listing [A, B] and a fresh fetch of [B, C] merge to [B, C, A]
#[test]
fn incremental_merge_puts_fresh_ids_first() {
    let storage = storage();
    let list_url = "https://example.com/list";
    let mut world = World::new().with_response(
        list_url,
        page(
            vec![paper("https://example.com/A", "old"), paper("https://example.com/B", "old")],
            None,
        ),
    );
    let (_, update) = parse_external_list(&storage, &mut world, list_url, None, "t1");
    assert_eq!(update, Some("t1".to_string()));
    assert_eq!(
        listing(&world, &storage, list_url),
        vec!["https://example.com/A", "https://example.com/B"]
    );

    world.add_response(
        "https://example.com/list?modified_since=t1",
        page(
            vec![paper("https://example.com/B", "new"), paper("https://example.com/C", "new")],
            None,
        ),
    );
    let (_, update) =
        parse_external_list(&storage, &mut world, list_url, Some("t1".to_string()), "t2");
    assert_eq!(update, Some("t2".to_string()));
    assert_eq!(
        listing(&world, &storage, list_url),
        vec!["https://example.com/B", "https://example.com/C", "https://example.com/A"]
    );
    let key = |at: &str| world.stored(&storage, at).get_text("key").unwrap().to_string();
    assert_eq!(key("https://example.com/A"), "old");
    assert_eq!(key("https://example.com/B"), "new");
    assert_eq!(key("https://example.com/C"), "new");
}

/// A full crawl discards the listing of the crawl before
#[test]
fn full_crawl_discards_previous_listing() {
    let storage = storage();
    let list_url = "https://example.com/list";
    let mut world = World::new()
        .with_response(list_url, page(vec![paper("https://example.com/A", "old")], None));
    parse_external_list(&storage, &mut world, list_url, None, "t1");
    world.add_response(list_url, page(vec![paper("https://example.com/B", "new")], None));
    parse_external_list(&storage, &mut world, list_url, None, "t2");
    assert_eq!(listing(&world, &storage, list_url), vec!["https://example.com/B"]);
    assert_eq!(world.lost, vec![false, false]);
}

/// A stored listing that is no listing counts as absent
#[test]
fn corrupt_previous_listing_counts_as_absent() {
    let storage = storage();
    let list_url = "https://example.com/list";
    let mut world = World::new().with_response(
        "https://example.com/list?modified_since=t1",
        page(vec![paper("https://example.com/B", "new")], None),
    );
    let path = storage.url_to_path(&url(list_url), FILE_EXTENSION);
    world.files.insert(path, "{\"not\": \"a listing\"".to_string());
    let (_, update) =
        parse_external_list(&storage, &mut world, list_url, Some("t1".to_string()), "t2");
    assert_eq!(update, Some("t2".to_string()));
    assert_eq!(listing(&world, &storage, list_url), vec!["https://example.com/B"]);
    assert_eq!(world.lost, vec![true]);
}

/// Items that do not decompose are skipped, and the crawl goes on
#[test]
fn items_that_do_not_decompose_are_skipped() {
    let storage = storage();
    let list_url = "https://example.com/list";
    let unknown = object(vec![
        ("id", text("https://example.com/x")),
        ("type", text("https://schema.oparl.org/1.0/Unheard")),
    ]);
    let untyped = object(vec![("id", text("https://example.com/y"))]);
    let mut world = World::new().with_response(
        list_url,
        page(vec![unknown, paper("https://example.com/A", "v"), untyped], None),
    );
    let (_, update) = parse_external_list(&storage, &mut world, list_url, None, "t1");
    assert_eq!(update, Some("t1".to_string()));
    assert_eq!(listing(&world, &storage, list_url), vec!["https://example.com/A"]);
    assert_eq!(world.files.len(), 2);
}

/// A page that cannot be fetched ends the crawl of its collection as failed
#[test]
fn transport_failure_fails_the_collection() {
    let storage = storage();
    let list_url = "https://example.com/list";
    let mut world = World::new().with_response(
        list_url,
        page(vec![paper("https://example.com/A", "v")], Some("https://example.com/list?page=2")),
    );
    let (key, update) = parse_external_list(&storage, &mut world, list_url, None, "t1");
    assert_eq!(key, "https:example.com/list");
    assert_eq!(update, None);
    // The item of the first page stays stored, the listing is not written
    assert_eq!(world.files.len(), 1);
    assert_eq!(world.stored(&storage, "https://example.com/A"), paper("https://example.com/A", "v"));
}

/// The failures of a crawl, each with what gives it
#[test]
fn crawl_failures() {
    let storage = storage();
    // A page that does not come
    let (mut crawl, _) =
        ListCrawl::begin(&storage, work_item("https://example.com/list", None), "t".to_string());
    assert_eq!(
        crawl.step(&storage, Event::Page(None)),
        Command::Done {
            key: "https:example.com/list".to_string(),
            outcome: Err(CrawlFailure::Transport)
        }
    );
    // A page that is no JSON
    let (mut crawl, _) =
        ListCrawl::begin(&storage, work_item("https://example.com/list", None), "t".to_string());
    assert_eq!(
        crawl.step(&storage, Event::Page(Some("<html>".to_string()))),
        Command::Done {
            key: "https:example.com/list".to_string(),
            outcome: Err(CrawlFailure::Transport)
        }
    );
    // Something that the crawl does not wait for
    let (mut crawl, _) =
        ListCrawl::begin(&storage, work_item("https://example.com/list", None), "t".to_string());
    assert_eq!(
        crawl.step(&storage, Event::Previous(None)),
        Command::Done {
            key: "https:example.com/list".to_string(),
            outcome: Err(CrawlFailure::OutOfTurn)
        }
    );
    // A listing that cannot be written
    let (mut crawl, _) =
        ListCrawl::begin(&storage, work_item("https://example.com/list", None), "t".to_string());
    let body = encode(&page(vec![], None)).unwrap();
    assert!(matches!(
        crawl.step(&storage, Event::Page(Some(body))),
        Command::WriteListing { .. }
    ));
    assert_eq!(
        crawl.step(&storage, Event::Stored(false)),
        Command::Done {
            key: "https:example.com/list".to_string(),
            outcome: Err(CrawlFailure::CacheIo)
        }
    );
    // A crawl that has ended says so again
    let (mut crawl, _) =
        ListCrawl::begin(&storage, work_item("https://example.com/list", None), "t".to_string());
    let body = encode(&page(vec![], None)).unwrap();
    crawl.step(&storage, Event::Page(Some(body)));
    let done = Command::Done { key: "https:example.com/list".to_string(), outcome: Ok("t".to_string()) };
    assert_eq!(crawl.step(&storage, Event::Stored(true)), done);
    assert_eq!(crawl.step(&storage, Event::Stored(false)), done);
}

/// A failure to write ends the crawl of the collection as failed
#[test]
fn write_failure_fails_the_collection() {
    let storage = storage();
    let item = work_item("https://example.com/list", None);
    let (mut crawl, command) = ListCrawl::begin(&storage, item, "t1".to_string());
    assert_eq!(command, Command::Fetch { url: "https://example.com/list".to_string() });
    let body = encode(&page(vec![paper("https://example.com/A", "v")], None)).unwrap();
    let command = crawl.step(&storage, Event::Page(Some(body)));
    assert!(matches!(command, Command::Perform { failure: None, .. }));
    let command = crawl.step(&storage, Event::Performed(false));
    assert_eq!(
        command,
        Command::Done {
            key: "https:example.com/list".to_string(),
            outcome: Err(CrawlFailure::CacheIo)
        }
    );
    // A crawl that was given up stays given up
    assert_eq!(
        crawl.step(&storage, Event::Stored(true)),
        Command::Done {
            key: "https:example.com/list".to_string(),
            outcome: Err(CrawlFailure::OutOfTurn)
        }
    );
}

/// The errors of decomposition, each with an input that gives it
#[test]
fn decomposition_errors() {
    let storage = storage();
    let unknown = object(vec![
        ("id", text("https://example.com/x")),
        ("type", text("https://schema.oparl.org/1.0/Unheard")),
    ]);
    assert_eq!(storage.parse_object(&unknown).result, Err(DecomposeError::UnknownType));
    let untyped = object(vec![("id", text("https://example.com/y"))]);
    assert_eq!(storage.parse_object(&untyped).result, Err(DecomposeError::UnknownType));
    let without_id = object(vec![("type", text("https://schema.oparl.org/1.0/Paper"))]);
    assert_eq!(storage.parse_object(&without_id).result, Err(DecomposeError::MalformedObject));
    let bad_id = object(vec![
        ("id", text("not a url")),
        ("type", text("https://schema.oparl.org/1.0/Paper")),
    ]);
    let stored = storage.parse_object(&bad_id);
    assert_eq!(stored.result, Err(DecomposeError::MalformedObject));
    assert_eq!(stored.actions.len(), 0);
    let bad_reference = object(vec![
        ("id", text("https://example.com/body")),
        ("type", text("https://schema.oparl.org/1.0/Body")),
        ("paper", Value::Null),
    ]);
    assert_eq!(storage.parse_object(&bad_reference).result, Err(DecomposeError::MalformedObject));
    assert_eq!(storage.parse_object(&text("nothing")).result, Err(DecomposeError::UnknownType));
    // An object that is nested too deep to be written
    let mut deep = text("bottom");
    for _ in 0..513 {
        deep = array(vec![deep]);
    }
    let too_deep = object(vec![
        ("id", text("https://example.com/deep")),
        ("type", text("https://schema.oparl.org/1.0/Paper")),
        ("nest", deep),
    ]);
    let stored = storage.parse_object(&too_deep);
    assert_eq!(stored.result, Err(DecomposeError::MalformedObject));
    assert_eq!(stored.actions.len(), 0);
}

/// Decomposing a flat object again gives the same object and the same actions
#[test]
fn decomposing_a_flat_object_again_changes_nothing() {
    let storage = storage();
    let input = object(vec![
        ("id", text("http://localhost:8080/oparl/v1.0/body/0")),
        ("type", text("https://schema.oparl.org/1.0/Body")),
        ("legislativeTerm", array(vec![])),
        ("paper", text("http://localhost:8080/oparl/v1.0/body/0/list/paper")),
    ]);
    let first = storage.parse_object(&input);
    let flat = first.result.unwrap();
    assert_eq!(flat, input);
    let second = storage.parse_object(&flat);
    assert_eq!(second.result.unwrap(), flat);
    assert_eq!(second.actions, first.actions);
}

/// An object with an embedded object does not decompose a second time
#[test]
fn decomposing_a_flattened_parent_again_fails() {
    let storage = storage();
    let input = object(vec![
        ("id", text("https://example.com/paper/1")),
        ("type", text("https://schema.oparl.org/1.0/Paper")),
        (
            "mainFile",
            object(vec![
                ("id", text("https://example.com/file/1")),
                ("type", text("https://schema.oparl.org/1.0/File")),
            ]),
        ),
    ]);
    let flat = storage.parse_object(&input).result.unwrap();
    assert_eq!(flat.get_text("mainFile"), Some("https://example.com/file/1"));
    assert_eq!(storage.parse_object(&flat).result, Err(DecomposeError::UnknownType));
}

/// Caches a server: the whole run, with one worker at a time.
fn cache(
    storage: &FileStorage,
    world: &mut World,
    entrypoint: &str,
    capacity: usize,
    this_sync: &str,
) -> Result<Summary, RunError> {
    let ledger_path = storage.cache_status_path(&url(entrypoint));
    let ledger = world.files.get(&ledger_path).cloned();
    let mut run = CacheRun::begin(url(entrypoint), capacity, ledger.as_deref())?;
    let body = world.responses.get(run.get_entrypoint().as_str()).cloned();
    let actions = run.entrypoint_fetched(storage, body.as_deref())?;
    world.perform(actions);
    for found in world.discovered.drain(..) {
        run.receive(Message::List(url(&found)));
    }
    run.entrypoint_stored(true)?;

    let mut dispatched: Vec<WorkItem> = Vec::new();
    loop {
        match run.next() {
            Decision::Dispatch(item) => {
                assert!(dispatched.len() < capacity);
                dispatched.push(item);
            }
            Decision::Wait => {
                let item = dispatched.remove(0);
                let at = item.url.as_str().to_string();
                let (key, stamp) = parse_external_list(storage, world, &at, item.last_sync, this_sync);
                for found in world.discovered.drain(..) {
                    run.receive(Message::List(url(&found)));
                }
                run.receive(Message::Done { key, this_sync: stamp });
            }
            Decision::Finished => break,
        }
    }
    assert_eq!(run.phase(), RunPhase::Closing);

    let update = run.ledger_update(storage)?;
    world.files.insert(update.path, update.content);
    let servers_path = storage.cached_servers_path();
    let servers = world.files.get(&servers_path).cloned();
    let update = run.servers_update(storage, servers.as_deref())?;
    world.files.insert(update.path, update.content);
    Ok(run.summary())
}

fn mocking_server(entrypoint: &str) -> World {
    World::new().with_response(
        entrypoint,
        object(vec![
            ("id", text("http://example.com")),
            ("type", text("https://spec.oparl.org/1.0/System")),
        ]),
    )
}

fn get_cached_servers(storage: &FileStorage, files: &HashMap<String, String>) -> Vec<Url> {
    let text = files.get(&storage.cached_servers_path()).cloned();
    read_servers(text.as_deref()).unwrap()
}

/// Assert that the cached server status method returns the correct list
#[test]
fn test_cached_server_list() {
    let url1 = url("http://example1.com/");
    let url2 = url("http://example2.com/");
    let storage = storage();
    let mut files: HashMap<String, String> = HashMap::new();

    assert_eq!(get_cached_servers(&storage, &files), vec![]);

    let mut world = mocking_server(url1.as_str());
    world.files = files;
    cache(&storage, &mut world, url1.as_str(), 4, "t1").unwrap();
    files = world.files;
    assert_eq!(get_cached_servers(&storage, &files), vec![url1.copy()]);

    let mut world = mocking_server(url2.as_str());
    world.files = files;
    cache(&storage, &mut world, url2.as_str(), 4, "t2").unwrap();
    files = world.files;
    assert_eq!(get_cached_servers(&storage, &files), vec![url1.copy(), url2.copy()]);

    let mut world = mocking_server(url2.as_str());
    world.files = files;
    cache(&storage, &mut world, url2.as_str(), 4, "t3").unwrap();
    files = world.files;
    assert_eq!(get_cached_servers(&storage, &files), vec![url1.copy(), url2.copy()]);
}

fn paper_with_file(id: &str) -> Value {
    object(vec![
        ("id", text(id)),
        ("type", text("https://schema.oparl.org/1.0/Paper")),
        (
            "auxiliaryFile",
            array(vec![object(vec![
                ("id", text("https://example.com/file/1")),
                ("type", text("https://schema.oparl.org/1.0/File")),
                ("accessUrl", text("https://example.com/file/1/access")),
            ])]),
        ),
    ])
}

fn flat_paper(id: &str) -> Value {
    object(vec![
        ("id", text(id)),
        ("type", text("https://schema.oparl.org/1.0/Paper")),
        ("auxiliaryFile", array(vec![text("https://example.com/file/1")])),
    ])
}

/// A system with one collection of two pages, each item with an embedded file
#[test]
fn caches_a_server_end_to_end() {
    let storage = storage();
    let entrypoint = "https://example.com/api";
    let system = object(vec![
        ("id", text("https://example.com/api")),
        ("type", text("https://schema.oparl.org/1.0/System")),
        ("body", text("https://example.com/api/list")),
    ]);
    let mut world = World::new()
        .with_response(entrypoint, system.copy())
        .with_response(
            "https://example.com/api/list",
            page(
                vec![paper_with_file("https://example.com/paper/1")],
                Some("https://example.com/api/list?page=2"),
            ),
        )
        .with_response(
            "https://example.com/api/list?page=2",
            page(vec![paper_with_file("https://example.com/paper/2")], None),
        );

    let summary = cache(&storage, &mut world, entrypoint, 2, "2017-01-01T00:00:00+00:00").unwrap();
    assert_eq!(summary, Summary { succeeded: 1, failed: 0 });

    assert_eq!(world.stored(&storage, entrypoint), system);
    assert_eq!(
        world.stored(&storage, "https://example.com/paper/1"),
        flat_paper("https://example.com/paper/1")
    );
    assert_eq!(
        world.stored(&storage, "https://example.com/paper/2"),
        flat_paper("https://example.com/paper/2")
    );
    assert_eq!(
        world.stored(&storage, "https://example.com/file/1"),
        object(vec![
            ("id", text("https://example.com/file/1")),
            ("type", text("https://schema.oparl.org/1.0/File")),
            ("accessUrl", text("https://example.com/file/1/access")),
        ])
    );
    assert_eq!(
        listing(&world, &storage, "https://example.com/api/list"),
        vec!["https://example.com/paper/1", "https://example.com/paper/2"]
    );

    // The ledger names the collection with the time of this crawl
    let ledger = decode(world.files.get("/tmp/cache-rust/https:example.com/api/cache_status.json").unwrap())
        .unwrap();
    assert_eq!(
        ledger,
        array(vec![object(vec![
            ("url", text("https://example.com/api/list")),
            ("last_sync", text("2017-01-01T00:00:00+00:00")),
        ])])
    );

    // The next run asks the collection for what has changed since
    world.add_response(
        "https://example.com/api/list?modified_since=2017-01-01T00%3A00%3A00%2B00%3A00",
        page(vec![], None),
    );
    world.fetched.clear();
    let summary = cache(&storage, &mut world, entrypoint, 2, "2017-01-02T00:00:00+00:00").unwrap();
    assert_eq!(summary, Summary { succeeded: 1, failed: 0 });
    assert_eq!(
        world.fetched,
        vec!["https://example.com/api/list?modified_since=2017-01-01T00%3A00%3A00%2B00%3A00"]
    );
    assert_eq!(
        listing(&world, &storage, "https://example.com/api/list"),
        vec!["https://example.com/paper/1", "https://example.com/paper/2"]
    );
}

/// A crawl that begins now takes the time first
#[test]
fn a_crawl_takes_its_time_before_it_fetches() {
    let storage = storage();
    let (mut crawl, command) =
        ListCrawl::start(&storage, work_item("https://example.com/list", None)).unwrap();
    assert_eq!(command, Command::Fetch { url: "https://example.com/list".to_string() });
    let body = encode(&page(vec![], None)).unwrap();
    crawl.step(&storage, Event::Page(Some(body)));
    match crawl.step(&storage, Event::Stored(true)) {
        Command::Done { key, outcome } => {
            assert_eq!(key, "https:example.com/list");
            assert_eq!(outcome.unwrap().len(), 25);
        }
        other => panic!("not done: {:?}", other),
    }
}

/// A run whose entrypoint cannot be decomposed is given up before any crawl
#[test]
fn entrypoint_failure_aborts_the_run() {
    let storage = storage();
    let entrypoint = "https://example.com/api";
    let mut world = World::new().with_response(entrypoint, object(vec![("id", text(entrypoint))]));
    assert_eq!(cache(&storage, &mut world, entrypoint, 2, "t").err(), Some(RunError::Entrypoint));
    assert_eq!(world.files.len(), 0);
    let mut world = World::new();
    assert_eq!(cache(&storage, &mut world, entrypoint, 2, "t").err(), Some(RunError::Entrypoint));
}

/// A ledger that cannot be read is fatal for the run
#[test]
fn malformed_ledger_aborts_the_run() {
    let storage = storage();
    let entrypoint = "https://example.com/api";
    let mut world = mocking_server(entrypoint);
    let path = storage.cache_status_path(&url(entrypoint));
    assert_eq!(path, "/tmp/cache-rust/https:example.com/api/cache_status.json");
    world.files.insert(path, "[{\"url\": 5}]".to_string());
    assert_eq!(cache(&storage, &mut world, entrypoint, 2, "t").err(), Some(RunError::MalformedLedger));
}

/// A collection that fails does not stop the others, and keeps its old time
#[test]
fn failed_collection_does_not_stop_the_run() {
    let storage = storage();
    let entrypoint = "https://example.com/api";
    let body = object(vec![
        ("id", text("https://example.com/body/1")),
        ("type", text("https://schema.oparl.org/1.0/Body")),
        ("paper", text("https://example.com/papers")),
        ("person", text("https://example.com/persons")),
    ]);
    let mut world = World::new()
        .with_response(
            entrypoint,
            object(vec![
                ("id", text(entrypoint)),
                ("type", text("https://schema.oparl.org/1.0/System")),
                ("body", text("https://example.com/bodies")),
            ]),
        )
        .with_response("https://example.com/bodies", page(vec![body], None))
        .with_response(
            "https://example.com/papers",
            page(vec![paper("https://example.com/paper/1", "v")], None),
        );
    let summary = cache(&storage, &mut world, entrypoint, 1, "t1").unwrap();
    assert_eq!(summary, Summary { succeeded: 2, failed: 1 });
    let ledger = decode(world.files.get(&storage.cache_status_path(&url(entrypoint))).unwrap()).unwrap();
    assert_eq!(
        ledger,
        array(vec![
            object(vec![("url", text("https://example.com/bodies")), ("last_sync", text("t1"))]),
            object(vec![("url", text("https://example.com/papers")), ("last_sync", text("t1"))]),
        ])
    );
}

#[test]
fn external_list_run_test_parse_external_list() {
    test_parse_external_list(false);
    test_parse_external_list(true);
}

/// A crawl without a URL for its first page fails at once
#[test]
fn crawl_without_first_page_fails() {
    let storage = storage();
    let item = work_item("https://example.com/list", Some("t0".to_string()));
    let (mut crawl, command) = ListCrawl::begin_with(&storage, item, "t1".to_string(), None);
    let failed = Command::Done {
        key: "https:example.com/list".to_string(),
        outcome: Err(CrawlFailure::Endpoint),
    };
    assert_eq!(command, failed);
    assert_eq!(
        crawl.step(&storage, Event::Page(None)),
        Command::Done {
            key: "https:example.com/list".to_string(),
            outcome: Err(CrawlFailure::OutOfTurn)
        }
    );
}

/// The steps of a run come in their order
#[test]
fn run_steps_out_of_turn() {
    let storage = storage();
    let entrypoint = "https://example.com/api";
    let system = encode(&object(vec![
        ("id", text(entrypoint)),
        ("type", text("https://schema.oparl.org/1.0/System")),
    ]))
    .unwrap();
    let mut run = CacheRun::begin(url(entrypoint), 1, None).unwrap();
    assert_eq!(run.phase(), RunPhase::AwaitingEntrypoint);
    assert_eq!(run.next(), Decision::Wait);
    assert_eq!(run.entrypoint_stored(true), Err(RunError::OutOfTurn));
    assert_eq!(run.ledger_update(&storage), Err(RunError::OutOfTurn));
    assert_eq!(run.servers_update(&storage, None), Err(RunError::OutOfTurn));
    // A message before the entrypoint is read is not listened to
    run.receive(Message::List(url("https://example.com/list")));

    let actions = run.entrypoint_fetched(&storage, Some(&system)).unwrap();
    assert_eq!(actions.len(), 1);
    assert_eq!(run.phase(), RunPhase::StoringEntrypoint);
    assert_eq!(run.entrypoint_fetched(&storage, Some(&system)), Err(RunError::OutOfTurn));
    assert_eq!(run.next(), Decision::Wait);
    assert_eq!(run.entrypoint_stored(true), Ok(()));
    assert_eq!(run.phase(), RunPhase::Crawling);
    assert_eq!(run.next(), Decision::Finished);
    assert_eq!(run.phase(), RunPhase::Closing);
    assert_eq!(run.next(), Decision::Finished);
    assert!(run.succeeded());
    assert_eq!(run.summary(), Summary { succeeded: 0, failed: 0 });

    let update = run.ledger_update(&storage).unwrap();
    assert_eq!(update.path, "/tmp/cache-rust/https:example.com/api/cache_status.json");
    assert_eq!(update.content, "[]");
    let update = run.servers_update(&storage, None).unwrap();
    assert_eq!(update.path, "/tmp/cache-rust/cached_servers.json");
    assert_eq!(update.content, "[\n  \"https://example.com/api\"\n]");
    assert_eq!(run.servers_update(&storage, Some("{}")), Err(RunError::MalformedServers));
    assert_eq!(
        run.servers_update(&storage, Some("[\"https://example.com/api\"]")).unwrap().content,
        "[\n  \"https://example.com/api\"\n]"
    );
}

/// A run that cannot store its entrypoint object is given up
#[test]
fn run_is_given_up_when_the_entrypoint_is_not_stored() {
    let storage = storage();
    let entrypoint = "https://example.com/api";
    let system = encode(&object(vec![
        ("id", text(entrypoint)),
        ("type", text("https://schema.oparl.org/1.0/System")),
    ]))
    .unwrap();
    let mut run = CacheRun::begin(url(entrypoint), 1, None).unwrap();
    run.entrypoint_fetched(&storage, Some(&system)).unwrap();
    assert_eq!(run.entrypoint_stored(false), Err(RunError::Entrypoint));
    assert_eq!(run.phase(), RunPhase::Aborted);
    assert_eq!(run.next(), Decision::Finished);
    assert!(!run.succeeded());
}

/// Without a time there is no crawl; with one the crawl begins at it
#[test]
fn a_crawl_begins_at_the_time_taken() {
    let storage = storage();
    assert!(ListCrawl::start_at(&storage, work_item("https://example.com/list", None), None)
        .is_none());
    let (mut crawl, command) = ListCrawl::start_at(
        &storage,
        work_item("https://example.com/list", Some("t0".to_string())),
        Some("t1".to_string()),
    )
    .unwrap();
    assert_eq!(
        command,
        Command::Fetch { url: "https://example.com/list?modified_since=t0".to_string() }
    );
    let body = encode(&page(vec![], None)).unwrap();
    assert!(matches!(
        crawl.step(&storage, Event::Page(Some(body))),
        Command::ReadListing { .. }
    ));
    assert!(matches!(
        crawl.step(&storage, Event::Previous(None)),
        Command::WriteListing { previous_lost: true, .. }
    ));
    assert_eq!(
        crawl.step(&storage, Event::Stored(true)),
        Command::Done { key: "https:example.com/list".to_string(), outcome: Ok("t1".to_string()) }
    );
}
