//! The crawl of one collection: its pages are fetched one after another,
//! each item is decomposed and stored, and the ids of the items are merged
//! into the listing of the collection.
//!
//! The crawl does no fetching, reading or writing itself. It says what is
//! to be done by a `Command` and takes what came of it as an `Event`.

use std::fmt::Write;
use vstd::prelude::*;
use vstd::string::*;
use crate::codec::{decode, decoded, pretty_json};
use crate::coordinator::{WorkItem, WorkItemView};
use crate::decompose::DecomposeError;
use crate::external_list::{
    page_items, page_link, ExternalList, ListState, ListView, Pull, PullView,
};
use crate::file_storage::{
    actions_view, stored, Action, ActionView, FileStorage, StorageView, FILE_EXTENSION,
};
use crate::listing::{
    listing_json, merge_listing, merged, push_unique, read_listing, stored_listing, write_listing,
};
use crate::optional::view_of;
use crate::url::{Url, UrlView};
use crate::value::{Json, Value};

verus! {

/// The query parameter that asks a server for what has changed since a
/// time.
pub const MODIFIED_SINCE: &'static str = "modified_since";

/// How the time of a crawl is written.
pub const SYNC_TIME_FORMAT: &'static str = "%Y-%m-%dT%H:%M:%S%Z";

/// Calls `chrono::Local::now` and writes the time out by `format`. Nothing
/// is known of the text: it depends on the clock. Trusted: that a text
/// comes for `SYNC_TIME_FORMAT`, whose items are all known to the formatter
/// and ask for nothing but date, time and offset, which the local time has.
#[verifier::external_body]
fn local_time(format: &str) -> (r: Option<String>)
    requires
        format@ == SYNC_TIME_FORMAT@,
    ensures
        r is Some,
{
    let mut text = String::new();
    match write!(text, "{}", chrono::Local::now().format(format)) {
        Ok(()) => Some(text),
        Err(_) => None,
    }
}

/// The time of a crawl that begins now, written by `SYNC_TIME_FORMAT`.
pub fn this_sync() -> (r: Option<String>)
    ensures
        r is Some,
{
    local_time(SYNC_TIME_FORMAT)
}

/// Why the crawl of a collection is given up.
#[derive(Debug, Clone, Copy, PartialEq, Eq)]
pub enum CrawlFailure {
    /// The URL of the first page could not be made.
    Endpoint,
    /// A page could not be fetched, or was no JSON.
    Transport,
    /// The cache could not be written.
    CacheIo,
    /// Something came that the crawl did not wait for.
    OutOfTurn,
}

/// What a crawl waits for.
#[derive(Debug, PartialEq, Eq)]
pub enum Phase {
    /// Nothing: the next pull on the list can be made.
    Pulling,
    /// The page that was asked for.
    AwaitingPage,
    /// Word that the actions for an item were performed. The id is that of
    /// the item, or absent where the item is skipped.
    AwaitingActions { id: Option<String> },
    /// The listing that was stored by the crawl before.
    AwaitingPrevious,
    /// Word that the listing was written.
    AwaitingStore,
    /// Nothing more: the collection was crawled to its end.
    Finished,
    /// Nothing more: the crawl was given up.
    Failed,
}

/// The content of a `Phase`.
pub enum PhaseView {
    Pulling,
    AwaitingPage,
    AwaitingActions { id: Option<Seq<char>> },
    AwaitingPrevious,
    AwaitingStore,
    Finished,
    Failed,
}

impl View for Phase {
    type V = PhaseView;

    open spec fn view(&self) -> PhaseView {
        match self {
            Phase::Pulling => PhaseView::Pulling,
            Phase::AwaitingPage => PhaseView::AwaitingPage,
            Phase::AwaitingActions { id } => PhaseView::AwaitingActions { id: view_of(*id) },
            Phase::AwaitingPrevious => PhaseView::AwaitingPrevious,
            Phase::AwaitingStore => PhaseView::AwaitingStore,
            Phase::Finished => PhaseView::Finished,
            Phase::Failed => PhaseView::Failed,
        }
    }
}

/// What a crawl asks its surroundings to do.
#[derive(Debug, PartialEq, Eq)]
pub enum Command {
    /// Fetch the page at `url` and hand back its text.
    Fetch { url: String },
    /// Perform the actions in their order and say whether all succeeded.
    /// `failure` says why the item is skipped, where it is.
    Perform { actions: Vec<Action>, failure: Option<DecomposeError> },
    /// Read the file at `path` and hand back its text, if there is one.
    ReadListing { path: String },
    /// Write `content` to the file at `path` and say whether that
    /// succeeded. `previous_lost` says that the listing of the crawl before
    /// was asked for and could not be had.
    WriteListing { path: String, content: String, previous_lost: bool },
    /// Tell the coordinator that the crawl of the collection of `key` is
    /// over: it came to its end, and began at the time given, or it failed.
    Done { key: String, outcome: Result<String, CrawlFailure> },
}

/// The content of a `Command`.
pub enum CommandView {
    Fetch { url: Seq<char> },
    Perform { actions: Seq<ActionView>, failure: Option<DecomposeError> },
    ReadListing { path: Seq<char> },
    WriteListing { path: Seq<char>, content: Seq<char>, previous_lost: bool },
    Done { key: Seq<char>, outcome: Result<Seq<char>, CrawlFailure> },
}

impl View for Command {
    type V = CommandView;

    open spec fn view(&self) -> CommandView {
        match self {
            Command::Fetch { url } => CommandView::Fetch { url: url@ },
            Command::Perform { actions, failure } => CommandView::Perform {
                actions: actions_view(actions@),
                failure: *failure,
            },
            Command::ReadListing { path } => CommandView::ReadListing { path: path@ },
            Command::WriteListing { path, content, previous_lost } => CommandView::WriteListing {
                path: path@,
                content: content@,
                previous_lost: *previous_lost,
            },
            Command::Done { key, outcome } => CommandView::Done {
                key: key@,
                outcome: match outcome {
                    Ok(stamp) => Ok(stamp@),
                    Err(failure) => Err(*failure),
                },
            },
        }
    }
}

/// What came of a command.
#[derive(Debug, PartialEq, Eq)]
pub enum Event {
    /// The text of the page that was fetched, or nothing where it could
    /// not be fetched.
    Page(Option<String>),
    /// Whether the actions were all performed.
    Performed(bool),
    /// The text of the listing that was stored before, if there is one.
    Previous(Option<String>),
    /// Whether the listing was written.
    Stored(bool),
}

/// The content of an `Event`.
pub enum EventView {
    Page(Option<Seq<char>>),
    Performed(bool),
    Previous(Option<Seq<char>>),
    Stored(bool),
}

impl View for Event {
    type V = EventView;

    open spec fn view(&self) -> EventView {
        match self {
            Event::Page(text) => EventView::Page(view_of(*text)),
            Event::Performed(ok) => EventView::Performed(*ok),
            Event::Previous(text) => EventView::Previous(view_of(*text)),
            Event::Stored(ok) => EventView::Stored(*ok),
        }
    }
}

/// The crawl of one collection.
pub struct ListCrawl {
    key: String,
    url: Url,
    last_sync: Option<String>,
    this_sync: String,
    list: ExternalList,
    fresh: Vec<String>,
    phase: Phase,
}

/// The content of a `ListCrawl`: the collection, the time of its last
/// crawl and of this one, the list of its pages, the ids found so far, and
/// what the crawl waits for.
pub struct CrawlView {
    pub key: Seq<char>,
    pub url: UrlView,
    pub last_sync: Option<Seq<char>>,
    pub this_sync: Seq<char>,
    pub list: ListView,
    pub fresh: Seq<Seq<char>>,
    pub phase: PhaseView,
}

impl CrawlView {
    /// The crawl is sound: its list is.
    pub open spec fn wf(self) -> bool {
        self.list.wf()
    }

    /// The file of the collection's listing.
    pub open spec fn listing_path(self, store: StorageView) -> Seq<char> {
        store.path_of(self.url, FILE_EXTENSION@)
    }

    /// The crawl, given up.
    pub open spec fn failing(self, failure: CrawlFailure) -> (CrawlView, CommandView) {
        (
            CrawlView { phase: PhaseView::Failed, ..self },
            CommandView::Done { key: self.key, outcome: Err(failure) },
        )
    }

    /// The crawl, come to its end.
    pub open spec fn finishing(self) -> (CrawlView, CommandView) {
        (
            CrawlView { phase: PhaseView::Finished, ..self },
            CommandView::Done { key: self.key, outcome: Ok(self.this_sync) },
        )
    }

    /// The crawl at the end of its pages, with the listing of the crawl
    /// before it, where that was asked for: the merged listing is to be
    /// written. A listing that was asked for and is not there counts as
    /// empty.
    pub open spec fn closing(self, store: StorageView, previous: Option<Option<Seq<Seq<char>>>>) -> (
        CrawlView,
        CommandView,
    ) {
        (
            CrawlView { phase: PhaseView::AwaitingStore, ..self },
            CommandView::WriteListing {
                path: self.listing_path(store),
                content: pretty_json(
                    listing_json(
                        merged(
                            self.fresh,
                            match previous {
                                Some(Some(ids)) => ids,
                                _ => Seq::empty(),
                            },
                        ),
                    ),
                    4,
                ),
                previous_lost: previous == Some(None::<Seq<Seq<char>>>),
            },
        )
    }

    /// The crawl after a pull on its list. An item is decomposed, and the
    /// actions for it are to be performed; it is skipped where it does not
    /// decompose. A page is to be fetched where the list asks for one. At
    /// the end of the list the listing of the crawl before is to be read
    /// where this crawl asked only for what has changed since; after a
    /// full crawl the ids found are the listing.
    pub open spec fn pulled(self, store: StorageView) -> (CrawlView, CommandView) {
        match self.list.pull() {
            PullView::Item(object) => (
                CrawlView {
                    list: self.list.pulled(),
                    phase: PhaseView::AwaitingActions {
                        id: match stored(store, object).1 {
                            Ok(flat) => flat.text_field("id"@),
                            Err(_) => None,
                        },
                    },
                    ..self
                },
                CommandView::Perform {
                    actions: stored(store, object).0,
                    failure: match stored(store, object).1 {
                        Ok(_) => None,
                        Err(error) => Some(error),
                    },
                },
            ),
            PullView::Fetch(url) => (
                CrawlView { list: self.list.pulled(), phase: PhaseView::AwaitingPage, ..self },
                CommandView::Fetch { url },
            ),
            PullView::End => if self.last_sync is Some {
                (
                    CrawlView { phase: PhaseView::AwaitingPrevious, ..self },
                    CommandView::ReadListing { path: self.listing_path(store) },
                )
            } else {
                self.closing(store, None)
            },
        }
    }

    /// The crawl after the page that it waited for came, as a value or not
    /// at all.
    pub open spec fn paged(self, store: StorageView, page: Option<Json>) -> (
        CrawlView,
        CommandView,
    ) {
        match page {
            Some(page) => (CrawlView {
                list: self.list.delivered(page_items(page), page_link(page)),
                phase: PhaseView::Pulling,
                ..self
            }).pulled(store),
            None => (CrawlView { list: self.list.failed(), ..self }).failing(
                CrawlFailure::Transport,
            ),
        }
    }

    /// The ids found, with one more.
    pub open spec fn found(self, id: Option<Seq<char>>) -> Seq<Seq<char>> {
        match id {
            Some(id) => if self.fresh.contains(id) {
                self.fresh
            } else {
                self.fresh.push(id)
            },
            None => self.fresh,
        }
    }

    /// The crawl after an event. A page that does not come, or is no JSON,
    /// and a write that fails end the crawl as failed. So does what the
    /// crawl did not wait for, unless the crawl is over.
    pub open spec fn stepped(self, store: StorageView, event: EventView) -> (
        CrawlView,
        CommandView,
    ) {
        match (self.phase, event) {
            (PhaseView::AwaitingPage, EventView::Page(Some(text))) => self.paged(
                store,
                decoded(text),
            ),
            (PhaseView::AwaitingPage, EventView::Page(None)) => self.paged(store, None),
            (PhaseView::AwaitingActions { id }, EventView::Performed(true)) => (CrawlView {
                fresh: self.found(id),
                phase: PhaseView::Pulling,
                ..self
            }).pulled(store),
            (PhaseView::AwaitingActions { id }, EventView::Performed(false)) => self.failing(
                CrawlFailure::CacheIo,
            ),
            (PhaseView::AwaitingPrevious, EventView::Previous(text)) => self.closing(
                store,
                Some(stored_listing(text)),
            ),
            (PhaseView::AwaitingStore, EventView::Stored(true)) => self.finishing(),
            (PhaseView::AwaitingStore, EventView::Stored(false)) => self.failing(
                CrawlFailure::CacheIo,
            ),
            (PhaseView::Finished, _) => self.finishing(),
            _ => self.failing(CrawlFailure::OutOfTurn),
        }
    }

    /// The crawl of a collection at its beginning, given the URL of its
    /// first page: the collection's own URL for a full crawl, that URL
    /// with the time of the last crawl as a filter otherwise. Without such
    /// a URL the crawl fails.
    pub open spec fn begun(
        store: StorageView,
        item: WorkItemView,
        this_sync: Seq<char>,
        first: Option<UrlView>,
    ) -> (CrawlView, CommandView) {
        let crawl = CrawlView {
            key: item.key,
            url: item.url,
            last_sync: item.last_sync,
            this_sync,
            list: ListView {
                state: ListState::NotStarted,
                link: Some(
                    match first {
                        Some(url) => url.text,
                        None => item.url.text,
                    },
                ),
                buffer: Seq::empty(),
            },
            fresh: Seq::empty(),
            phase: PhaseView::Pulling,
        };
        match first {
            Some(url) => crawl.pulled(store),
            None => crawl.failing(CrawlFailure::Endpoint),
        }
    }

    /// The URL of the first page of a crawl.
    pub open spec fn first_page(item: WorkItemView) -> Option<UrlView> {
        match item.last_sync {
            Some(stamp) => Url::extended(item.url.text, MODIFIED_SINCE@, stamp),
            None => Some(item.url),
        }
    }
}

/// A crawl says that its collection was crawled to its end only after the
/// listing was written, or again when it had said so before.
pub proof fn lemma_done_follows_the_listing(c: CrawlView, store: StorageView, event: EventView)
    requires
        c.stepped(store, event).1 is Done,
        c.stepped(store, event).1->Done_outcome is Ok,
    ensures
        c.phase is Finished || (c.phase is AwaitingStore && event == EventView::Stored(true)),
        c.stepped(store, event).1->Done_outcome == Ok::<Seq<char>, CrawlFailure>(c.this_sync),
        c.stepped(store, event).0.phase is Finished,
{
}

impl View for ListCrawl {
    type V = CrawlView;

    closed spec fn view(&self) -> CrawlView {
        CrawlView {
            key: self.key@,
            url: self.url@,
            last_sync: view_of(self.last_sync),
            this_sync: self.this_sync@,
            list: self.list@,
            fresh: self.fresh.deep_view(),
            phase: self.phase@,
        }
    }
}

impl ListCrawl {
    /// Gives the crawl up.
    fn give_up(&mut self, failure: CrawlFailure) -> (r: Command)
        ensures
            (final(self)@, r@) == old(self)@.failing(failure),
    {
        self.phase = Phase::Failed;
        Command::Done { key: self.key.clone(), outcome: Err(failure) }
    }

    /// Ends the crawl.
    fn finish(&mut self) -> (r: Command)
        ensures
            (final(self)@, r@) == old(self)@.finishing(),
    {
        self.phase = Phase::Finished;
        Command::Done { key: self.key.clone(), outcome: Ok(self.this_sync.clone()) }
    }

    /// Asks for the merged listing to be written.
    fn close(&mut self, storage: &FileStorage, previous: Option<Option<Vec<String>>>) -> (r:
        Command)
        ensures
            (final(self)@, r@) == old(self)@.closing(
                storage@,
                match previous {
                    Some(Some(ids)) => Some(Some(ids.deep_view())),
                    Some(None) => Some(None),
                    None => None,
                },
            ),
    {
        let (ids, previous_lost) = match &previous {
            Some(Some(ids)) => (merge_listing(&self.fresh, ids), false),
            Some(None) => {
                let none: Vec<String> = Vec::new();
                assert(none.deep_view() =~= Seq::<Seq<char>>::empty());
                (merge_listing(&self.fresh, &none), true)
            },
            None => {
                let none: Vec<String> = Vec::new();
                assert(none.deep_view() =~= Seq::<Seq<char>>::empty());
                (merge_listing(&self.fresh, &none), false)
            },
        };
        self.phase = Phase::AwaitingStore;
        Command::WriteListing {
            path: storage.url_to_path(&self.url, FILE_EXTENSION),
            content: write_listing(&ids),
            previous_lost,
        }
    }

    /// Pulls on the list.
    fn pull(&mut self, storage: &FileStorage) -> (r: Command)
        requires
            old(self)@.wf(),
        ensures
            final(self)@.wf(),
            (final(self)@, r@) == old(self)@.pulled(storage@),
    {
        match self.list.next() {
            Pull::Item(object) => {
                let stored = storage.parse_object(&object);
                let (id, failure) = match &stored.result {
                    Ok(flat) => (
                        match flat.get_text("id") {
                            Some(id) => Some(String::from_str(id)),
                            None => None,
                        },
                        None,
                    ),
                    Err(error) => (None, Some(*error)),
                };
                self.phase = Phase::AwaitingActions { id };
                Command::Perform { actions: stored.actions, failure }
            },
            Pull::Fetch(url) => {
                self.phase = Phase::AwaitingPage;
                Command::Fetch { url }
            },
            Pull::End => {
                if self.last_sync.is_some() {
                    self.phase = Phase::AwaitingPrevious;
                    Command::ReadListing { path: storage.url_to_path(&self.url, FILE_EXTENSION) }
                } else {
                    self.close(storage, None)
                }
            },
        }
    }

    /// Takes the page that the crawl waited for: a value, or nothing where
    /// the page could not be fetched or was no JSON.
    pub fn page_received(&mut self, storage: &FileStorage, page: Option<&Value>) -> (r: Command)
        requires
            old(self)@.wf(),
        ensures
            final(self)@.wf(),
            (final(self)@, r@) == old(self)@.paged(storage@, view_of(page)),
    {
        match page {
            Some(page) => {
                self.list.deliver(page);
                self.phase = Phase::Pulling;
                self.pull(storage)
            },
            None => {
                self.list.fail();
                self.give_up(CrawlFailure::Transport)
            },
        }
    }

    /// Begins the crawl of a collection, given the URL of its first page.
    pub fn begin_with(
        storage: &FileStorage,
        item: WorkItem,
        this_sync: String,
        first: Option<Url>,
    ) -> (r: (ListCrawl, Command))
        ensures
            r.0@.wf(),
            (r.0@, r.1@) == CrawlView::begun(storage@, item@, this_sync@, view_of(first)),
    {
        let list = match &first {
            Some(url) => ExternalList::new(url),
            None => ExternalList::new(&item.url),
        };
        let fresh: Vec<String> = Vec::new();
        assert(fresh.deep_view() =~= Seq::<Seq<char>>::empty());
        let mut crawl = ListCrawl {
            key: item.key,
            url: item.url,
            last_sync: item.last_sync,
            this_sync,
            list,
            fresh,
            phase: Phase::Pulling,
        };
        let command = match first {
            Some(_) => crawl.pull(storage),
            None => crawl.give_up(CrawlFailure::Endpoint),
        };
        (crawl, command)
    }

    /// Begins the crawl of a collection at the time `this_sync`. A
    /// collection that was crawled before is asked for what has changed
    /// since.
    pub fn begin(storage: &FileStorage, item: WorkItem, this_sync: String) -> (r: (
        ListCrawl,
        Command,
    ))
        ensures
            r.0@.wf(),
            (r.0@, r.1@) == CrawlView::begun(
                storage@,
                item@,
                this_sync@,
                CrawlView::first_page(item@),
            ),
    {
        let first = match &item.last_sync {
            Some(stamp) => item.url.with_pair(MODIFIED_SINCE, stamp.as_str()),
            None => Some(item.url.copy()),
        };
        ListCrawl::begin_with(storage, item, this_sync, first)
    }

    /// Begins the crawl of a collection now: the time is taken first, so
    /// that what changes while the pages are fetched is found by the next
    /// crawl. The crawl is begun whatever the time is.
    pub fn start(storage: &FileStorage, item: WorkItem) -> (r: Option<(ListCrawl, Command)>)
        ensures
            r is Some,
            r->Some_0.0@.wf(),
            (r->Some_0.0@, r->Some_0.1@) == CrawlView::begun(
                storage@,
                item@,
                r->Some_0.0@.this_sync,
                CrawlView::first_page(item@),
            ),
    {
        ListCrawl::start_at(storage, item, this_sync())
    }

    /// Begins the crawl of a collection at the time that was taken for it.
    /// Where no time could be had there is no crawl.
    pub fn start_at(storage: &FileStorage, item: WorkItem, stamp: Option<String>) -> (r: Option<
        (ListCrawl, Command),
    >)
        ensures
            match (r, stamp) {
                (Some((crawl, command)), Some(stamp)) => crawl@.wf() && (crawl@, command@)
                    == CrawlView::begun(storage@, item@, stamp@, CrawlView::first_page(item@)),
                (None, None) => true,
                _ => false,
            },
    {
        match stamp {
            Some(stamp) => Some(ListCrawl::begin(storage, item, stamp)),
            None => None,
        }
    }

    /// Takes what came of the last command and says what is to be done
    /// next.
    pub fn step(&mut self, storage: &FileStorage, event: Event) -> (r: Command)
        requires
            old(self)@.wf(),
        ensures
            final(self)@.wf(),
            (final(self)@, r@) == old(self)@.stepped(storage@, event@),
    {
        match event {
            Event::Page(text) => match self.phase {
                Phase::AwaitingPage => match text {
                    Some(text) => match decode(text.as_str()) {
                        Some(page) => self.page_received(storage, Some(&page)),
                        None => self.page_received(storage, None),
                    },
                    None => self.page_received(storage, None),
                },
                Phase::Finished => self.finish(),
                _ => self.give_up(CrawlFailure::OutOfTurn),
            },
            Event::Performed(ok) => match &self.phase {
                Phase::AwaitingActions { id } => {
                    if ok {
                        match id {
                            Some(id) => {
                                let id = id.clone();
                                push_unique(&mut self.fresh, id);
                            },
                            None => {},
                        }
                        self.phase = Phase::Pulling;
                        self.pull(storage)
                    } else {
                        self.give_up(CrawlFailure::CacheIo)
                    }
                },
                Phase::Finished => self.finish(),
                _ => self.give_up(CrawlFailure::OutOfTurn),
            },
            Event::Previous(text) => match self.phase {
                Phase::AwaitingPrevious => {
                    let previous = read_listing(
                        match &text {
                            Some(text) => Some(text.as_str()),
                            None => None,
                        },
                    );
                    self.close(storage, Some(previous))
                },
                Phase::Finished => self.finish(),
                _ => self.give_up(CrawlFailure::OutOfTurn),
            },
            Event::Stored(ok) => match self.phase {
                Phase::AwaitingStore => {
                    if ok {
                        self.finish()
                    } else {
                        self.give_up(CrawlFailure::CacheIo)
                    }
                },
                Phase::Finished => self.finish(),
                _ => self.give_up(CrawlFailure::OutOfTurn),
            },
        }
    }
}

} // verus!
