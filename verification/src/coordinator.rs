//! The crawl coordinator: which collections are known, which of them wait,
//! which are being crawled, and when the crawl is over.
//!
//! The coordinator owns this state alone. Workers are dispatched by what
//! `next` returns and report back by messages; nothing here blocks or
//! spawns.

use vstd::prelude::*;
use vstd::string::*;
use crate::assoc::{
    lemma_position, lemma_position_after_push, lemma_position_is, lemma_same_keys_same_position,
    position,
};
use crate::ledger::{copy_stamp, ledger_view, SyncLedgerEntry};
use crate::optional::view_of;
use crate::text::same_text;
use crate::url::{cache_path, kept_pairs, lemma_filters_leave_cache_path, Url, UrlView};

verus! {

/// Where a known collection stands.
#[derive(Debug, Clone, Copy, PartialEq, Eq)]
pub enum Status {
    /// Waiting for a worker.
    Queued,
    /// Handed to a worker that has not reported yet.
    InFlight,
    /// Crawled to its end.
    Done,
    /// Given up after a failure.
    Failed,
}

/// One known collection.
#[derive(Debug, PartialEq, Eq)]
pub struct Job {
    /// The collection's cache path, by which it is told from the others.
    pub key: String,
    pub url: Url,
    /// When the collection was last crawled to its end, if ever.
    pub last_sync: Option<String>,
    pub status: Status,
}

/// The content of a `Job`, without its key.
pub struct JobView {
    pub url: UrlView,
    pub last_sync: Option<Seq<char>>,
    pub status: Status,
}

impl View for Job {
    type V = (Seq<char>, JobView);

    open spec fn view(&self) -> (Seq<char>, JobView) {
        (
            self.key@,
            JobView {
                url: self.url@,
                last_sync: view_of(self.last_sync),
                status: self.status,
            },
        )
    }
}

/// The contents of a list of jobs.
pub open spec fn jobs_view(jobs: Seq<Job>) -> Seq<(Seq<char>, JobView)> {
    Seq::new(jobs.len(), |i: int| jobs[i]@)
}

/// A collection for a worker to crawl.
#[derive(Debug, PartialEq, Eq)]
pub struct WorkItem {
    pub key: String,
    pub url: Url,
    pub last_sync: Option<String>,
}

/// The content of a `WorkItem`.
pub struct WorkItemView {
    pub key: Seq<char>,
    pub url: UrlView,
    pub last_sync: Option<Seq<char>>,
}

impl View for WorkItem {
    type V = WorkItemView;

    open spec fn view(&self) -> WorkItemView {
        WorkItemView { key: self.key@, url: self.url@, last_sync: view_of(self.last_sync) }
    }
}

/// What the coordinator wants done next.
#[derive(Debug, PartialEq, Eq)]
pub enum Decision {
    /// Hand this collection to an idle worker.
    Dispatch(WorkItem),
    /// Wait for a message from a worker.
    Wait,
    /// Nothing waits and no worker is busy: the crawl is over.
    Finished,
}

/// What a worker tells the coordinator.
#[derive(Debug, PartialEq, Eq)]
pub enum Message {
    /// A collection was found at this URL.
    List(Url),
    /// The worker is done with the collection of this key: it was crawled
    /// to its end at the time given, or it failed.
    Done { key: String, this_sync: Option<String> },
}

/// The coordinator's state.
pub struct Coordinator {
    capacity: usize,
    jobs: Vec<Job>,
    cursor: usize,
    in_flight: usize,
}

/// The content of the coordinator's state: the size of the worker pool, the
/// known collections in the order in which they became known, how many of
/// them have been dispatched, and how many of those have not reported.
pub struct CoordinatorView {
    pub capacity: nat,
    pub jobs: Seq<(Seq<char>, JobView)>,
    pub cursor: nat,
    pub in_flight: nat,
}

/// The key of a collection: its cache path without a suffix.
pub open spec fn key_of(url: UrlView) -> Seq<char> {
    cache_path(url, Seq::empty())
}

/// How many of the jobs are in flight.
pub open spec fn count_in_flight(jobs: Seq<(Seq<char>, JobView)>) -> nat
    decreases jobs.len(),
{
    if jobs.len() == 0 {
        0
    } else {
        count_in_flight(jobs.drop_last()) + if jobs.last().1.status is InFlight {
            1nat
        } else {
            0nat
        }
    }
}

/// How many of the jobs are done or failed.
pub open spec fn count_settled(jobs: Seq<(Seq<char>, JobView)>) -> nat
    decreases jobs.len(),
{
    if jobs.len() == 0 {
        0
    } else {
        count_settled(jobs.drop_last()) + if jobs.last().1.status is Done
            || jobs.last().1.status is Failed {
            1nat
        } else {
            0nat
        }
    }
}

impl CoordinatorView {
    /// The state is sound: every job is filed under its URL's key, no key
    /// occurs twice, the jobs before the cursor have been dispatched and
    /// those from it on wait, and the workers in flight are counted and fit
    /// the pool.
    pub open spec fn wf(self) -> bool {
        &&& self.capacity >= 1
        &&& self.cursor <= self.jobs.len()
        &&& forall|i: int| 0 <= i < self.jobs.len() ==> (#[trigger] self.jobs[i]).0 == key_of(
            self.jobs[i].1.url,
        )
        &&& forall|i: int, j: int|
            0 <= i < j < self.jobs.len() ==> (#[trigger] self.jobs[i]).0 != (
            #[trigger] self.jobs[j]).0
        &&& forall|i: int|
            0 <= i < self.jobs.len() ==> ((#[trigger] self.jobs[i]).1.status is Queued <==> i
                >= self.cursor)
        &&& self.in_flight == count_in_flight(self.jobs)
        &&& self.in_flight <= self.capacity
    }

    /// Where the collection of this key stands, if it is known.
    pub open spec fn status_of(self, key: Seq<char>) -> Option<Status> {
        let at = position(self.jobs, key);
        if 0 <= at < self.jobs.len() {
            Some(self.jobs[at].1.status)
        } else {
            None
        }
    }

    /// The state after a collection was found: it is queued at the end,
    /// unless its key is known already.
    pub open spec fn enqueued(self, url: UrlView, last_sync: Option<Seq<char>>) -> Self {
        let at = position(self.jobs, key_of(url));
        if 0 <= at < self.jobs.len() {
            self
        } else {
            CoordinatorView {
                jobs: self.jobs.push(
                    (key_of(url), JobView { url, last_sync, status: Status::Queued }),
                ),
                ..self
            }
        }
    }

    /// Whether a collection waits and a worker is idle.
    pub open spec fn can_dispatch(self) -> bool {
        self.cursor < self.jobs.len() && self.in_flight < self.capacity
    }

    /// The state after the collection that has waited longest went to a
    /// worker.
    pub open spec fn dispatched(self) -> Self {
        let at = self.cursor as int;
        CoordinatorView {
            jobs: self.jobs.update(
                at,
                (self.jobs[at].0, JobView { status: Status::InFlight, ..self.jobs[at].1 }),
            ),
            cursor: self.cursor + 1,
            in_flight: self.in_flight + 1,
            ..self
        }
    }

    /// The state after a worker reported on the collection of `key`: where
    /// that collection was in flight it is done, with the time of this
    /// crawl as its last, or failed, with what it had before. A report on
    /// any other key changes nothing.
    pub open spec fn completed(self, key: Seq<char>, this_sync: Option<Seq<char>>) -> Self {
        let at = position(self.jobs, key);
        if 0 <= at < self.jobs.len() && self.jobs[at].1.status is InFlight {
            let job = self.jobs[at].1;
            CoordinatorView {
                jobs: self.jobs.update(
                    at,
                    (
                        key,
                        match this_sync {
                            Some(stamp) => JobView {
                                last_sync: Some(stamp),
                                status: Status::Done,
                                ..job
                            },
                            None => JobView { status: Status::Failed, ..job },
                        },
                    ),
                ),
                in_flight: (self.in_flight - 1) as nat,
                ..self
            }
        } else {
            self
        }
    }

    /// Whether the crawl is over: nothing waits and no worker is busy.
    pub open spec fn finished(self) -> bool {
        self.cursor == self.jobs.len() && self.in_flight == 0
    }

    /// How far the crawl has come: one for each collection that became
    /// known, one for each that was dispatched, one for each that was
    /// reported on.
    pub open spec fn progress(self) -> nat {
        self.jobs.len() + self.cursor + count_settled(self.jobs)
    }
}

/// One more job at the end counts where it is in flight, or settled.
pub proof fn lemma_count_push(jobs: Seq<(Seq<char>, JobView)>, job: (Seq<char>, JobView))
    ensures
        count_in_flight(jobs.push(job)) == count_in_flight(jobs) + if job.1.status is InFlight {
            1nat
        } else {
            0nat
        },
        count_settled(jobs.push(job)) == count_settled(jobs) + if job.1.status is Done
            || job.1.status is Failed {
            1nat
        } else {
            0nat
        },
{
    assert(jobs.push(job).drop_last() =~= jobs);
}

/// A job that takes the place of another counts in its stead.
pub proof fn lemma_count_update(
    jobs: Seq<(Seq<char>, JobView)>,
    at: int,
    job: (Seq<char>, JobView),
)
    requires
        0 <= at < jobs.len(),
    ensures
        count_in_flight(jobs.update(at, job)) + (if jobs[at].1.status is InFlight {
            1int
        } else {
            0int
        }) == count_in_flight(jobs) + (if job.1.status is InFlight {
            1int
        } else {
            0int
        }),
        count_settled(jobs.update(at, job)) + (if jobs[at].1.status is Done
            || jobs[at].1.status is Failed {
            1int
        } else {
            0int
        }) == count_settled(jobs) + (if job.1.status is Done || job.1.status is Failed {
            1int
        } else {
            0int
        }),
    decreases jobs.len(),
{
    if at == jobs.len() - 1 {
        assert(jobs.update(at, job).drop_last() =~= jobs.drop_last());
    } else {
        assert(jobs.update(at, job).drop_last() =~= jobs.drop_last().update(at, job));
        lemma_count_update(jobs.drop_last(), at, job);
    }
}

/// No more jobs are in flight or settled than there are jobs.
pub proof fn lemma_count_bounds(jobs: Seq<(Seq<char>, JobView)>)
    ensures
        count_in_flight(jobs) + count_settled(jobs) <= jobs.len(),
    decreases jobs.len(),
{
    if jobs.len() > 0 {
        lemma_count_bounds(jobs.drop_last());
    }
}

/// Finding a collection keeps the state sound, and either changes nothing
/// or is one step of progress.
pub proof fn lemma_enqueued(c: CoordinatorView, url: UrlView, last_sync: Option<Seq<char>>)
    requires
        c.wf(),
    ensures
        c.enqueued(url, last_sync).wf(),
        c.enqueued(url, last_sync) == c || c.enqueued(url, last_sync).progress() == c.progress()
            + 1,
        c.enqueued(url, last_sync).status_of(key_of(url)) is Some,
{
    let key = key_of(url);
    lemma_position(c.jobs, key);
    let after = c.enqueued(url, last_sync);
    if position(c.jobs, key) >= c.jobs.len() {
        let job = (key, JobView { url, last_sync, status: Status::Queued });
        lemma_count_push(c.jobs, job);
        lemma_position_is(after.jobs, key, c.jobs.len() as int);
    }
}

/// Dispatching keeps the state sound and is one step of progress; the
/// collection that goes out was queued and is in flight afterwards.
pub proof fn lemma_dispatched(c: CoordinatorView)
    requires
        c.wf(),
        c.can_dispatch(),
    ensures
        c.dispatched().wf(),
        c.dispatched().progress() == c.progress() + 1,
        c.status_of(c.jobs[c.cursor as int].0) == Some(Status::Queued),
        c.dispatched().status_of(c.jobs[c.cursor as int].0) == Some(Status::InFlight),
{
    let at = c.cursor as int;
    let job = (c.jobs[at].0, JobView { status: Status::InFlight, ..c.jobs[at].1 });
    lemma_count_update(c.jobs, at, job);
    lemma_position_is(c.jobs, c.jobs[at].0, at);
    lemma_position_is(c.dispatched().jobs, c.jobs[at].0, at);
}

/// A report keeps the state sound, and either changes nothing or is one
/// step of progress.
pub proof fn lemma_completed(c: CoordinatorView, key: Seq<char>, this_sync: Option<Seq<char>>)
    requires
        c.wf(),
    ensures
        c.completed(key, this_sync).wf(),
        c.completed(key, this_sync) == c || c.completed(key, this_sync).progress()
            == c.progress() + 1,
        c.status_of(key) == Some(Status::InFlight) ==> c.in_flight >= 1 && c.completed(
            key,
            this_sync,
        ).in_flight == c.in_flight - 1,
{
    let at = position(c.jobs, key);
    lemma_position(c.jobs, key);
    if 0 <= at < c.jobs.len() && c.jobs[at].1.status is InFlight {
        let after = c.completed(key, this_sync);
        lemma_count_update(c.jobs, at, after.jobs[at]);
    }
}

/// No two collections that are in flight at the same time have the same
/// cache path: every known collection has a key of its own.
pub proof fn lemma_in_flight_are_distinct(c: CoordinatorView, i: int, j: int)
    requires
        c.wf(),
        0 <= i < c.jobs.len(),
        0 <= j < c.jobs.len(),
        i != j,
    ensures
        key_of(c.jobs[i].1.url) != key_of(c.jobs[j].1.url),
{
    if i < j {
        assert(c.jobs[i].0 != c.jobs[j].0);
    } else {
        assert(c.jobs[j].0 != c.jobs[i].0);
    }
}

/// Collections whose URLs differ only in transient filters are one
/// collection to the coordinator: once one of them is known, finding the
/// other changes nothing.
pub proof fn lemma_filtered_urls_are_queued_once(
    c: CoordinatorView,
    a: UrlView,
    b: UrlView,
    stamp: Option<Seq<char>>,
)
    requires
        c.wf(),
        a.scheme == b.scheme,
        a.host == b.host,
        a.port == b.port,
        a.path == b.path,
        kept_pairs(a.pairs) == kept_pairs(b.pairs),
    ensures
        key_of(a) == key_of(b),
        c.enqueued(a, stamp).enqueued(b, None) == c.enqueued(a, stamp),
{
    lemma_filters_leave_cache_path(a, b, Seq::empty());
    lemma_enqueued(c, a, stamp);
}

/// The keys of the jobs.
pub open spec fn keys_of(jobs: Seq<(Seq<char>, JobView)>) -> Seq<Seq<char>> {
    Seq::new(jobs.len(), |i: int| jobs[i].0)
}

/// Where every collection that can be found is one of finitely many, the
/// crawl cannot make more than three steps of progress for each of them:
/// to become known, to be dispatched, to be reported on.
pub proof fn lemma_progress_is_bounded(c: CoordinatorView, universe: Set<Seq<char>>)
    requires
        c.wf(),
        universe.finite(),
        forall|i: int| 0 <= i < c.jobs.len() ==> universe.contains((#[trigger] c.jobs[i]).0),
    ensures
        c.jobs.len() <= universe.len(),
        c.progress() <= 3 * universe.len(),
{
    let keys = keys_of(c.jobs);
    assert(keys.no_duplicates()) by {
        assert forall|i: int, j: int| 0 <= i < keys.len() && 0 <= j < keys.len() && i
            != j implies keys[i] != keys[j] by {
            if i < j {
                assert(c.jobs[i].0 != c.jobs[j].0);
            } else {
                assert(c.jobs[j].0 != c.jobs[i].0);
            }
        }
    }
    keys.unique_seq_to_set();
    assert(keys.to_set().subset_of(universe)) by {
        assert forall|k: Seq<char>| keys.to_set().contains(k) implies universe.contains(k) by {
            let i = choose|i: int| 0 <= i < keys.len() && keys[i] == k;
            assert(c.jobs[i].0 == k);
        }
    }
    vstd::set_lib::lemma_len_subset(keys.to_set(), universe);
    lemma_count_bounds(c.jobs);
}

/// A crawl that is not over can go on: a collection can be dispatched, or
/// a worker is busy and will report.
pub proof fn lemma_unfinished_can_go_on(c: CoordinatorView)
    requires
        c.wf(),
        !c.finished(),
    ensures
        c.can_dispatch() || c.in_flight >= 1,
{
}

/// The state after the entries of a ledger were queued, the first `n` of
/// them, each with the time of its last crawl.
pub open spec fn seeded(
    c: CoordinatorView,
    known: Seq<(UrlView, Option<Seq<char>>)>,
    n: int,
) -> CoordinatorView
    decreases n,
{
    if n <= 0 || n > known.len() {
        c
    } else {
        seeded(c, known, n - 1).enqueued(known[n - 1].0, known[n - 1].1)
    }
}

/// The entries that a ledger holds after the crawl: the first `n` known
/// collections that have been crawled to their end at some time, each with
/// the time of its last such crawl, in the order in which they became known.
pub open spec fn ledger_of(jobs: Seq<(Seq<char>, JobView)>, n: int) -> Seq<
    (UrlView, Option<Seq<char>>),
>
    decreases n,
{
    if n <= 0 || n > jobs.len() {
        Seq::empty()
    } else if jobs[n - 1].1.last_sync is Some {
        ledger_of(jobs, n - 1).push((jobs[n - 1].1.url, jobs[n - 1].1.last_sync))
    } else {
        ledger_of(jobs, n - 1)
    }
}

impl View for Coordinator {
    type V = CoordinatorView;

    closed spec fn view(&self) -> CoordinatorView {
        CoordinatorView {
            capacity: self.capacity as nat,
            jobs: jobs_view(self.jobs@),
            cursor: self.cursor as nat,
            in_flight: self.in_flight as nat,
        }
    }
}

impl Coordinator {
    /// A coordinator for a pool of `capacity` workers, with the collections
    /// of the last run's ledger queued in their order.
    pub fn new(capacity: usize, known: &Vec<SyncLedgerEntry>) -> (r: Coordinator)
        requires
            capacity >= 1,
        ensures
            r@.wf(),
            r@ == seeded(
                CoordinatorView { capacity: capacity as nat, jobs: Seq::empty(), cursor: 0, in_flight: 0 },
                ledger_view(known@),
                known@.len() as int,
            ),
    {
        let mut r = Coordinator { capacity, jobs: Vec::new(), cursor: 0, in_flight: 0 };
        let ghost empty = CoordinatorView {
            capacity: capacity as nat,
            jobs: Seq::empty(),
            cursor: 0,
            in_flight: 0,
        };
        assert(r@.jobs =~= empty.jobs);
        let mut i: usize = 0;
        while i < known.len()
            invariant
                i <= known.len(),
                empty.wf(),
                r@ == seeded(empty, ledger_view(known@), i as int),
                r@.wf(),
            decreases known.len() - i,
        {
            r.enqueue(known[i].url.copy(), copy_stamp(&known[i].last_sync));
            i = i + 1;
        }
        r
    }

    /// The place of the job of this key, or the number of jobs where there
    /// is none.
    fn find(&self, key: &str) -> (at: usize)
        ensures
            at == position(self@.jobs, key@),
            at <= self.jobs.len(),
    {
        let mut i: usize = 0;
        while i < self.jobs.len()
            invariant
                i <= self.jobs.len(),
                forall|j: int| 0 <= j < i ==> self.jobs@[j].key@ != key@,
            decreases self.jobs.len() - i,
        {
            if same_text(self.jobs[i].key.as_str(), key) {
                proof {
                    lemma_position_is(self@.jobs, key@, i as int);
                }
                return i;
            }
            i = i + 1;
        }
        proof {
            lemma_position_is(self@.jobs, key@, self.jobs@.len() as int);
        }
        i
    }

    /// Queues a collection, with the time of its last complete crawl,
    /// unless its key is known. Says whether it was queued.
    pub fn enqueue(&mut self, url: Url, last_sync: Option<String>) -> (added: bool)
        requires
            old(self)@.wf(),
        ensures
            final(self)@.wf(),
            final(self)@ == old(self)@.enqueued(url@, view_of(last_sync)),
            added == (old(self)@.status_of(key_of(url@)) is None),
    {
        let key = url.cache_path("");
        proof {
            reveal_strlit("");
            assert(""@ =~= Seq::<char>::empty());
            lemma_enqueued(self@, url@, view_of(last_sync));
        }
        let at = self.find(key.as_str());
        if at < self.jobs.len() {
            false
        } else {
            let ghost before = self@.jobs;
            let job = Job { key, url, last_sync, status: Status::Queued };
            let ghost content = job@;
            self.jobs.push(job);
            assert(self@.jobs =~= before.push(content));
            true
        }
    }

    /// Takes note of a collection that a worker found: it is queued for a
    /// full crawl unless its key is known.
    pub fn discover(&mut self, url: Url) -> (added: bool)
        requires
            old(self)@.wf(),
        ensures
            final(self)@.wf(),
            final(self)@ == old(self)@.enqueued(url@, None),
            added == (old(self)@.status_of(key_of(url@)) is None),
    {
        self.enqueue(url, None)
    }

    /// What to do next. Where a collection waits and a worker is idle, the
    /// collection that has waited longest is dispatched. Where none can be
    /// dispatched and a worker is busy, the coordinator waits. Where
    /// nothing waits and no worker is busy, the crawl is over.
    pub fn next(&mut self) -> (r: Decision)
        requires
            old(self)@.wf(),
        ensures
            final(self)@.wf(),
            match r {
                Decision::Dispatch(item) => {
                    &&& old(self)@.can_dispatch()
                    &&& final(self)@ == old(self)@.dispatched()
                    &&& item@ == WorkItemView {
                        key: old(self)@.jobs[old(self)@.cursor as int].0,
                        url: old(self)@.jobs[old(self)@.cursor as int].1.url,
                        last_sync: old(self)@.jobs[old(self)@.cursor as int].1.last_sync,
                    }
                },
                Decision::Wait => {
                    &&& !old(self)@.can_dispatch()
                    &&& !old(self)@.finished()
                    &&& final(self)@ == old(self)@
                },
                Decision::Finished => old(self)@.finished() && final(self)@ == old(self)@,
            },
    {
        if self.cursor < self.jobs.len() && self.in_flight < self.capacity {
            proof {
                lemma_dispatched(self@);
            }
            let at = self.cursor;
            let ghost before = self@.jobs;
            let item = WorkItem {
                key: self.jobs[at].key.clone(),
                url: self.jobs[at].url.copy(),
                last_sync: copy_stamp(&self.jobs[at].last_sync),
            };
            let job = Job {
                key: self.jobs[at].key.clone(),
                url: self.jobs[at].url.copy(),
                last_sync: copy_stamp(&self.jobs[at].last_sync),
                status: Status::InFlight,
            };
            let ghost content = job@;
            self.jobs.set(at, job);
            self.cursor = self.cursor + 1;
            self.in_flight = self.in_flight + 1;
            assert(self@.jobs =~= before.update(at as int, content));
            Decision::Dispatch(item)
        } else if self.in_flight > 0 || self.cursor < self.jobs.len() {
            Decision::Wait
        } else {
            Decision::Finished
        }
    }

    /// Takes the report of a worker on the collection of `key`: crawled to
    /// its end at the time `this_sync`, or failed where that is absent. Says
    /// whether that collection was in flight; a report on any other key
    /// changes nothing.
    pub fn complete(&mut self, key: &str, this_sync: Option<String>) -> (was_in_flight: bool)
        requires
            old(self)@.wf(),
        ensures
            final(self)@.wf(),
            final(self)@ == old(self)@.completed(key@, view_of(this_sync)),
            was_in_flight == (old(self)@.status_of(key@) == Some(Status::InFlight)),
    {
        proof {
            lemma_completed(self@, key@, view_of(this_sync));
            lemma_position(self@.jobs, key@);
        }
        let at = self.find(key);
        if at >= self.jobs.len() {
            return false;
        }
        match self.jobs[at].status {
            Status::InFlight => {},
            _ => {
                return false;
            },
        }
        let ghost before = self@.jobs;
        let job = match this_sync {
            Some(stamp) => Job {
                key: self.jobs[at].key.clone(),
                url: self.jobs[at].url.copy(),
                last_sync: Some(stamp),
                status: Status::Done,
            },
            None => Job {
                key: self.jobs[at].key.clone(),
                url: self.jobs[at].url.copy(),
                last_sync: copy_stamp(&self.jobs[at].last_sync),
                status: Status::Failed,
            },
        };
        let ghost content = job@;
        self.jobs.set(at, job);
        self.in_flight = self.in_flight - 1;
        assert(self@.jobs =~= before.update(at as int, content));
        true
    }

    /// Takes a worker's message: a collection that it found, or its report.
    pub fn receive(&mut self, message: Message)
        requires
            old(self)@.wf(),
        ensures
            final(self)@.wf(),
            final(self)@ == match message {
                Message::List(url) => old(self)@.enqueued(url@, None),
                Message::Done { key, this_sync } => old(self)@.completed(key@, view_of(this_sync)),
            },
    {
        match message {
            Message::List(url) => {
                self.discover(url);
            },
            Message::Done { key, this_sync } => {
                self.complete(key.as_str(), this_sync);
            },
        }
    }

    /// Whether the crawl is over: nothing waits and no worker is busy.
    pub fn is_finished(&self) -> (r: bool)
        ensures
            r == self@.finished(),
    {
        self.cursor == self.jobs.len() && self.in_flight == 0
    }

    /// How many workers are busy.
    pub fn busy(&self) -> (n: usize)
        ensures
            n == self@.in_flight,
    {
        self.in_flight
    }

    /// How many collections have failed.
    pub fn failed(&self) -> (n: usize)
        ensures
            n == count_failed(self@.jobs, self@.jobs.len() as int),
    {
        let mut n: usize = 0;
        let mut i: usize = 0;
        while i < self.jobs.len()
            invariant
                i <= self.jobs.len(),
                n <= i,
                n == count_failed(self@.jobs, i as int),
            decreases self.jobs.len() - i,
        {
            match self.jobs[i].status {
                Status::Failed => {
                    n = n + 1;
                },
                _ => {},
            }
            i = i + 1;
        }
        n
    }

    /// How many collections were crawled to their end in this run.
    pub fn succeeded(&self) -> (n: usize)
        ensures
            n == count_done(self@.jobs, self@.jobs.len() as int),
    {
        let mut n: usize = 0;
        let mut i: usize = 0;
        while i < self.jobs.len()
            invariant
                i <= self.jobs.len(),
                n <= i,
                n == count_done(self@.jobs, i as int),
            decreases self.jobs.len() - i,
        {
            match self.jobs[i].status {
                Status::Done => {
                    n = n + 1;
                },
                _ => {},
            }
            i = i + 1;
        }
        n
    }

    /// The ledger to write after the crawl.
    pub fn ledger(&self) -> (r: Vec<SyncLedgerEntry>)
        ensures
            ledger_view(r@) == ledger_of(self@.jobs, self@.jobs.len() as int),
    {
        let mut r: Vec<SyncLedgerEntry> = Vec::new();
        let mut i: usize = 0;
        assert(ledger_view(r@) =~= Seq::empty());
        while i < self.jobs.len()
            invariant
                i <= self.jobs.len(),
                ledger_view(r@) == ledger_of(self@.jobs, i as int),
            decreases self.jobs.len() - i,
        {
            let ghost before = ledger_view(r@);
            match &self.jobs[i].last_sync {
                Some(stamp) => {
                    let entry = SyncLedgerEntry {
                        url: self.jobs[i].url.copy(),
                        last_sync: Some(stamp.clone()),
                    };
                    let ghost content = entry@;
                    r.push(entry);
                    assert(ledger_view(r@) =~= before.push(content));
                },
                None => {},
            }
            i = i + 1;
        }
        r
    }
}

/// How many of the first `n` jobs have failed.
pub open spec fn count_failed(jobs: Seq<(Seq<char>, JobView)>, n: int) -> nat
    decreases n,
{
    if n <= 0 || n > jobs.len() {
        0
    } else {
        count_failed(jobs, n - 1) + if jobs[n - 1].1.status is Failed {
            1nat
        } else {
            0nat
        }
    }
}

/// How many of the first `n` jobs are done.
pub open spec fn count_done(jobs: Seq<(Seq<char>, JobView)>, n: int) -> nat
    decreases n,
{
    if n <= 0 || n > jobs.len() {
        0
    } else {
        count_done(jobs, n - 1) + if jobs[n - 1].1.status is Done {
            1nat
        } else {
            0nat
        }
    }
}

/// What can happen to the coordinator's state.
pub enum Event {
    /// A worker found a collection.
    Found { url: UrlView },
    /// The coordinator was asked what to do next.
    Asked,
    /// A worker reported on a collection.
    Reported { key: Seq<char>, this_sync: Option<Seq<char>> },
}

/// The state after an event.
pub open spec fn after(c: CoordinatorView, event: Event) -> CoordinatorView {
    match event {
        Event::Found { url } => c.enqueued(url, None),
        Event::Asked => if c.can_dispatch() {
            c.dispatched()
        } else {
            c
        },
        Event::Reported { key, this_sync } => c.completed(key, this_sync),
    }
}

/// The state after a sequence of events.
pub open spec fn after_all(c: CoordinatorView, events: Seq<Event>) -> CoordinatorView
    decreases events.len(),
{
    if events.len() == 0 {
        c
    } else {
        after(after_all(c, events.drop_last()), events.last())
    }
}

/// How many events of a sequence changed the state.
pub open spec fn changes(c: CoordinatorView, events: Seq<Event>) -> nat
    decreases events.len(),
{
    if events.len() == 0 {
        0
    } else {
        let before = after_all(c, events.drop_last());
        changes(c, events.drop_last()) + if after(before, events.last()) != before {
            1nat
        } else {
            0nat
        }
    }
}

/// Whether every collection that the events find is one of `universe`.
pub open spec fn found_within(events: Seq<Event>, universe: Set<Seq<char>>) -> bool {
    forall|i: int|
        0 <= i < events.len() ==> match #[trigger] events[i] {
            Event::Found { url } => universe.contains(key_of(url)),
            _ => true,
        }
}

/// Whether a collection that stood at `before` can stand at `after` later:
/// an unknown collection can become queued, a queued one can go in flight,
/// one in flight can be done or fail, and there it stays.
pub open spec fn may_follow(before: Option<Status>, after: Option<Status>) -> bool {
    match (before, after) {
        (None, None) => true,
        (None, Some(Status::Queued)) => true,
        (Some(Status::Queued), Some(Status::Queued)) => true,
        (Some(Status::Queued), Some(Status::InFlight)) => true,
        (Some(Status::InFlight), Some(Status::InFlight)) => true,
        (Some(Status::InFlight), Some(Status::Done)) => true,
        (Some(Status::InFlight), Some(Status::Failed)) => true,
        (Some(Status::Done), Some(Status::Done)) => true,
        (Some(Status::Failed), Some(Status::Failed)) => true,
        _ => false,
    }
}

/// Whatever happens, no collection goes back: a collection that is known
/// stays known, one that was dispatched is never queued again, and one that
/// is done or failed stays so.
pub proof fn lemma_status_moves_forward(c: CoordinatorView, event: Event, key: Seq<char>)
    requires
        c.wf(),
    ensures
        may_follow(c.status_of(key), after(c, event).status_of(key)),
{
    lemma_position(c.jobs, key);
    match event {
        Event::Found { url } => {
            lemma_position(c.jobs, key_of(url));
            if position(c.jobs, key_of(url)) >= c.jobs.len() {
                lemma_position_after_push(
                    c.jobs,
                    (key_of(url), JobView { url, last_sync: None, status: Status::Queued }),
                    key,
                );
            }
        },
        Event::Asked => {
            if c.can_dispatch() {
                lemma_same_keys_same_position(c.dispatched().jobs, c.jobs, key);
                lemma_position_is(c.jobs, c.jobs[c.cursor as int].0, c.cursor as int);
            }
        },
        Event::Reported { key: reported, this_sync } => {
            lemma_position(c.jobs, reported);
            let at = position(c.jobs, reported);
            if 0 <= at < c.jobs.len() && c.jobs[at].1.status is InFlight {
                lemma_same_keys_same_position(
                    c.completed(reported, this_sync).jobs,
                    c.jobs,
                    key,
                );
            }
        },
    }
}

/// Whatever happens, the state stays sound.
pub proof fn lemma_after_all_wf(c: CoordinatorView, events: Seq<Event>)
    requires
        c.wf(),
    ensures
        after_all(c, events).wf(),
    decreases events.len(),
{
    if events.len() > 0 {
        lemma_after_all_wf(c, events.drop_last());
        let before = after_all(c, events.drop_last());
        match events.last() {
            Event::Found { url } => {
                lemma_enqueued(before, url, None);
            },
            Event::Asked => {
                if before.can_dispatch() {
                    lemma_dispatched(before);
                }
            },
            Event::Reported { key, this_sync } => {
                lemma_completed(before, key, this_sync);
            },
        }
    }
}

/// No collection is ever with two workers at once: whatever was found and
/// reported, and in whatever order, two jobs that are in flight are
/// collections with different cache paths, and no more jobs are in flight
/// than the pool has workers.
pub proof fn lemma_one_worker_for_each_collection(
    c: CoordinatorView,
    events: Seq<Event>,
    i: int,
    j: int,
)
    requires
        c.wf(),
        0 <= i < after_all(c, events).jobs.len(),
        0 <= j < after_all(c, events).jobs.len(),
        i != j,
        after_all(c, events).jobs[i].1.status is InFlight,
        after_all(c, events).jobs[j].1.status is InFlight,
    ensures
        key_of(after_all(c, events).jobs[i].1.url) != key_of(after_all(c, events).jobs[j].1.url),
        count_in_flight(after_all(c, events).jobs) <= c.capacity,
{
    lemma_after_all_wf(c, events);
    lemma_in_flight_are_distinct(after_all(c, events), i, j);
    lemma_capacity_stays(c, events);
}

/// The pool keeps its size.
pub proof fn lemma_capacity_stays(c: CoordinatorView, events: Seq<Event>)
    ensures
        after_all(c, events).capacity == c.capacity,
    decreases events.len(),
{
    if events.len() > 0 {
        lemma_capacity_stays(c, events.drop_last());
    }
}

/// However the crawl goes, it cannot go on for ever: where the collections
/// that can be found are finitely many, then whatever the workers find and
/// report and in whatever order, the state stays sound and changes at most
/// three times for each collection. Every change is one step of progress.
pub proof fn lemma_changes_are_bounded(
    c: CoordinatorView,
    events: Seq<Event>,
    universe: Set<Seq<char>>,
)
    requires
        c.wf(),
        universe.finite(),
        forall|i: int| 0 <= i < c.jobs.len() ==> universe.contains((#[trigger] c.jobs[i]).0),
        found_within(events, universe),
    ensures
        after_all(c, events).wf(),
        forall|i: int|
            0 <= i < after_all(c, events).jobs.len() ==> universe.contains(
                (#[trigger] after_all(c, events).jobs[i]).0,
            ),
        after_all(c, events).progress() == c.progress() + changes(c, events),
        c.progress() + changes(c, events) <= 3 * universe.len(),
    decreases events.len(),
{
    if events.len() > 0 {
        let earlier = events.drop_last();
        assert(found_within(earlier, universe)) by {
            assert forall|i: int| 0 <= i < earlier.len() implies match #[trigger] earlier[i] {
                Event::Found { url } => universe.contains(key_of(url)),
                _ => true,
            } by {
                assert(earlier[i] == events[i]);
            }
        }
        lemma_changes_are_bounded(c, earlier, universe);
        let before = after_all(c, earlier);
        let last = events.last();
        assert(last == events[events.len() - 1]);
        match last {
            Event::Found { url } => {
                lemma_enqueued(before, url, None);
                lemma_position(before.jobs, key_of(url));
            },
            Event::Asked => {
                if before.can_dispatch() {
                    lemma_dispatched(before);
                }
            },
            Event::Reported { key, this_sync } => {
                lemma_completed(before, key, this_sync);
            },
        }
        lemma_progress_is_bounded(after_all(c, events), universe);
    } else {
        lemma_progress_is_bounded(c, universe);
    }
}

} // verus!
