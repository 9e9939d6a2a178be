//! One run of the cache on a server: the ledger of the last run is loaded,
//! the entrypoint object is decomposed and stored, the collections are
//! crawled, and the ledger is written anew.

use vstd::prelude::*;
use vstd::string::*;
use crate::codec::{decode, decoded, pretty_json};
use crate::coordinator::{
    count_done, count_failed, ledger_of, seeded, Coordinator, CoordinatorView, Decision, Message,
    WorkItemView,
};
use crate::file_storage::{actions_view, stored, Action, ActionView, FileStorage, StorageView};
use crate::ledger::{ledger_json, read_ledger, stored_ledger, write_ledger};
use crate::optional::view_of;
use crate::servers::{
    read_servers, register_server, registered, stored_servers, string_list_json, texts_of,
    write_servers,
};
use crate::url::{Url, UrlView};
use crate::value::{Json, Value};

verus! {

/// How far a run has come.
#[derive(Debug, Clone, Copy, PartialEq, Eq)]
pub enum RunPhase {
    /// The entrypoint object is to be fetched.
    AwaitingEntrypoint,
    /// The entrypoint object is being stored.
    StoringEntrypoint,
    /// The collections are being crawled.
    Crawling,
    /// The crawl is over and the ledger is to be written.
    Closing,
    /// The run was given up.
    Aborted,
}

/// Why a run is given up.
#[derive(Debug, Clone, Copy, PartialEq, Eq)]
pub enum RunError {
    /// The ledger of the last run cannot be read.
    MalformedLedger,
    /// The entrypoint object could not be fetched, decomposed or stored.
    Entrypoint,
    /// The list of servers cannot be read or written.
    MalformedServers,
    /// The run is not at the step that was asked for.
    OutOfTurn,
}

/// What a run has achieved.
#[derive(Debug, Clone, Copy, PartialEq, Eq)]
pub struct Summary {
    /// How many collections were crawled to their end.
    pub succeeded: usize,
    /// How many collections failed.
    pub failed: usize,
}

/// A file to write.
#[derive(Debug, PartialEq, Eq)]
pub struct FileUpdate {
    pub path: String,
    pub content: String,
}

/// One run of the cache.
pub struct CacheRun {
    entrypoint: Url,
    coordinator: Coordinator,
    phase: RunPhase,
}

/// The content of a `CacheRun`.
pub struct RunView {
    pub entrypoint: UrlView,
    pub coordinator: CoordinatorView,
    pub phase: RunPhase,
}

/// The actions that store the entrypoint object, given the object that was
/// fetched; nothing where none was fetched or it does not decompose.
pub open spec fn entrypoint_actions(store: StorageView, object: Option<Json>) -> Option<
    Seq<ActionView>,
> {
    match object {
        Some(object) => match stored(store, object).1 {
            Ok(_) => Some(stored(store, object).0),
            Err(_) => None,
        },
        None => None,
    }
}

/// The object that a fetched text holds.
pub open spec fn fetched_object(text: Option<Seq<char>>) -> Option<Json> {
    match text {
        Some(text) => decoded(text),
        None => None,
    }
}

impl RunView {
    /// The run is sound: its coordinator is.
    pub open spec fn wf(self) -> bool {
        self.coordinator.wf()
    }

    /// The run at its beginning: the collections of the last run's ledger
    /// are queued. A ledger that cannot be read ends the run.
    pub open spec fn begun(entrypoint: UrlView, capacity: nat, ledger: Option<Seq<char>>) -> Result<
        RunView,
        RunError,
    > {
        match stored_ledger(ledger) {
            Ok(known) => Ok(
                RunView {
                    entrypoint,
                    coordinator: seeded(
                        CoordinatorView { capacity, jobs: Seq::empty(), cursor: 0, in_flight: 0 },
                        known,
                        known.len() as int,
                    ),
                    phase: RunPhase::AwaitingEntrypoint,
                },
            ),
            Err(_) => Err(RunError::MalformedLedger),
        }
    }

    /// The run after the entrypoint object came, or did not.
    pub open spec fn received(self, store: StorageView, object: Option<Json>) -> RunView {
        if self.phase is AwaitingEntrypoint {
            RunView {
                phase: if entrypoint_actions(store, object) is Some {
                    RunPhase::StoringEntrypoint
                } else {
                    RunPhase::Aborted
                },
                ..self
            }
        } else {
            self
        }
    }

    /// The run after the entrypoint object was stored, or was not.
    pub open spec fn entrypoint_stored(self, ok: bool) -> RunView {
        if self.phase is StoringEntrypoint {
            RunView {
                phase: if ok {
                    RunPhase::Crawling
                } else {
                    RunPhase::Aborted
                },
                ..self
            }
        } else {
            self
        }
    }

    /// Whether the run listens to workers.
    pub open spec fn listening(self) -> bool {
        self.phase is StoringEntrypoint || self.phase is Crawling
    }

    /// The run after a message.
    pub open spec fn informed(self, message: MessageView) -> RunView {
        if self.listening() {
            RunView {
                coordinator: match message {
                    MessageView::List(url) => self.coordinator.enqueued(url, None),
                    MessageView::Done { key, this_sync } => self.coordinator.completed(
                        key,
                        this_sync,
                    ),
                },
                ..self
            }
        } else {
            self
        }
    }

    /// The run after it was asked what to do next.
    pub open spec fn asked(self) -> RunView {
        if self.phase is Crawling {
            if self.coordinator.can_dispatch() {
                RunView { coordinator: self.coordinator.dispatched(), ..self }
            } else if self.coordinator.finished() {
                RunView { phase: RunPhase::Closing, ..self }
            } else {
                self
            }
        } else {
            self
        }
    }

    /// The ledger after the run.
    pub open spec fn ledger(self) -> Seq<(UrlView, Option<Seq<char>>)> {
        ledger_of(self.coordinator.jobs, self.coordinator.jobs.len() as int)
    }
}

/// The content of a `Message`.
pub enum MessageView {
    List(UrlView),
    Done { key: Seq<char>, this_sync: Option<Seq<char>> },
}

/// The content of a message.
pub open spec fn message_view(message: Message) -> MessageView {
    match message {
        Message::List(url) => MessageView::List(url@),
        Message::Done { key, this_sync } => MessageView::Done {
            key: key@,
            this_sync: view_of(this_sync),
        },
    }
}

impl View for CacheRun {
    type V = RunView;

    closed spec fn view(&self) -> RunView {
        RunView {
            entrypoint: self.entrypoint@,
            coordinator: self.coordinator@,
            phase: self.phase,
        }
    }
}

impl CacheRun {
    /// Begins a run on the server at `entrypoint` with a pool of `capacity`
    /// workers, given the text of the ledger of the last run, if there is
    /// one.
    pub fn begin(entrypoint: Url, capacity: usize, ledger: Option<&str>) -> (r: Result<
        CacheRun,
        RunError,
    >)
        requires
            capacity >= 1,
        ensures
            match r {
                Ok(run) => run@.wf() && RunView::begun(
                    entrypoint@,
                    capacity as nat,
                    view_of(ledger),
                ) == Ok::<RunView, RunError>(run@),
                Err(e) => RunView::begun(
                    entrypoint@,
                    capacity as nat,
                    view_of(ledger),
                ) == Err::<RunView, RunError>(e),
            },
    {
        match read_ledger(ledger) {
            Ok(known) => Ok(
                CacheRun {
                    entrypoint,
                    coordinator: Coordinator::new(capacity, &known),
                    phase: RunPhase::AwaitingEntrypoint,
                },
            ),
            Err(_) => Err(RunError::MalformedLedger),
        }
    }

    /// The entrypoint of the server.
    pub fn get_entrypoint(&self) -> (r: &Url)
        ensures
            r@ == self@.entrypoint,
    {
        &self.entrypoint
    }

    /// How far the run has come.
    pub fn phase(&self) -> (r: RunPhase)
        ensures
            r == self@.phase,
    {
        self.phase
    }

    /// Takes the entrypoint object and says what is to be done to store
    /// it. Without an object, or with one that does not decompose, the run
    /// is given up.
    pub fn entrypoint_received(&mut self, storage: &FileStorage, object: Option<&Value>) -> (r:
        Result<Vec<Action>, RunError>)
        requires
            old(self)@.wf(),
        ensures
            final(self)@.wf(),
            final(self)@ == old(self)@.received(storage@, view_of(object)),
            match r {
                Ok(actions) => old(self)@.phase is AwaitingEntrypoint && entrypoint_actions(
                    storage@,
                    view_of(object),
                ) == Some(actions_view(actions@)),
                Err(e) => if old(self)@.phase is AwaitingEntrypoint {
                    e == RunError::Entrypoint && entrypoint_actions(
                        storage@,
                        view_of(object),
                    ) is None
                } else {
                    e == RunError::OutOfTurn
                },
            },
    {
        match self.phase {
            RunPhase::AwaitingEntrypoint => {},
            _ => {
                return Err(RunError::OutOfTurn);
            },
        }
        match object {
            Some(object) => {
                let stored = storage.parse_object(object);
                match stored.result {
                    Ok(_) => {
                        self.phase = RunPhase::StoringEntrypoint;
                        Ok(stored.actions)
                    },
                    Err(_) => {
                        self.phase = RunPhase::Aborted;
                        Err(RunError::Entrypoint)
                    },
                }
            },
            None => {
                self.phase = RunPhase::Aborted;
                Err(RunError::Entrypoint)
            },
        }
    }

    /// Takes the text that was fetched from the entrypoint, or nothing
    /// where it could not be fetched.
    pub fn entrypoint_fetched(&mut self, storage: &FileStorage, text: Option<&str>) -> (r: Result<
        Vec<Action>,
        RunError,
    >)
        requires
            old(self)@.wf(),
        ensures
            final(self)@.wf(),
            final(self)@ == old(self)@.received(storage@, fetched_object(view_of(text))),
            match r {
                Ok(actions) => old(self)@.phase is AwaitingEntrypoint && entrypoint_actions(
                    storage@,
                    fetched_object(view_of(text)),
                ) == Some(actions_view(actions@)),
                Err(e) => if old(self)@.phase is AwaitingEntrypoint {
                    e == RunError::Entrypoint && entrypoint_actions(
                        storage@,
                        fetched_object(view_of(text)),
                    ) is None
                } else {
                    e == RunError::OutOfTurn
                },
            },
    {
        let object = match text {
            Some(text) => decode(text),
            None => None,
        };
        match &object {
            Some(object) => self.entrypoint_received(storage, Some(object)),
            None => self.entrypoint_received(storage, None),
        }
    }

    /// Takes word of whether the entrypoint object was stored. Where it
    /// was not, the run is given up.
    pub fn entrypoint_stored(&mut self, ok: bool) -> (r: Result<(), RunError>)
        requires
            old(self)@.wf(),
        ensures
            final(self)@.wf(),
            final(self)@ == old(self)@.entrypoint_stored(ok),
            match r {
                Ok(_) => old(self)@.phase is StoringEntrypoint && ok,
                Err(e) => if old(self)@.phase is StoringEntrypoint {
                    e == RunError::Entrypoint && !ok
                } else {
                    e == RunError::OutOfTurn
                },
            },
    {
        match self.phase {
            RunPhase::StoringEntrypoint => {
                if ok {
                    self.phase = RunPhase::Crawling;
                    Ok(())
                } else {
                    self.phase = RunPhase::Aborted;
                    Err(RunError::Entrypoint)
                }
            },
            _ => Err(RunError::OutOfTurn),
        }
    }

    /// Takes a message: a collection that was found, or the report of a
    /// worker. Before the entrypoint object is read and after the crawl
    /// nothing is listened to.
    pub fn receive(&mut self, message: Message)
        requires
            old(self)@.wf(),
        ensures
            final(self)@.wf(),
            final(self)@ == old(self)@.informed(message_view(message)),
    {
        match self.phase {
            RunPhase::StoringEntrypoint | RunPhase::Crawling => {
                self.coordinator.receive(message);
            },
            _ => {},
        }
    }

    /// What to do next in the crawl: hand a collection to a worker, wait
    /// for a message, or go on because the crawl is over. Before the crawl
    /// there is nothing to do but wait for the entrypoint object; after
    /// the crawl, and after the run was given up, the crawl is over.
    pub fn next(&mut self) -> (r: Decision)
        requires
            old(self)@.wf(),
        ensures
            final(self)@.wf(),
            final(self)@ == old(self)@.asked(),
            match r {
                Decision::Dispatch(item) => {
                    &&& old(self)@.phase is Crawling
                    &&& old(self)@.coordinator.can_dispatch()
                    &&& item@ == WorkItemView {
                        key: old(self)@.coordinator.jobs[old(self)@.coordinator.cursor as int].0,
                        url: old(self)@.coordinator.jobs[old(
                            self,
                        )@.coordinator.cursor as int].1.url,
                        last_sync: old(self)@.coordinator.jobs[old(
                            self,
                        )@.coordinator.cursor as int].1.last_sync,
                    }
                },
                Decision::Wait => {
                    ||| old(self)@.phase is AwaitingEntrypoint
                    ||| old(self)@.phase is StoringEntrypoint
                    ||| (old(self)@.phase is Crawling && !old(self)@.coordinator.can_dispatch()
                        && !old(self)@.coordinator.finished())
                },
                Decision::Finished => {
                    ||| old(self)@.phase is Closing
                    ||| old(self)@.phase is Aborted
                    ||| (old(self)@.phase is Crawling && old(self)@.coordinator.finished())
                },
            },
    {
        match self.phase {
            RunPhase::Crawling => {
                let decision = self.coordinator.next();
                match &decision {
                    Decision::Finished => {
                        self.phase = RunPhase::Closing;
                    },
                    _ => {},
                }
                decision
            },
            RunPhase::Closing | RunPhase::Aborted => Decision::Finished,
            _ => Decision::Wait,
        }
    }

    /// The ledger file as it is to be written after the crawl.
    pub fn ledger_update(&self, storage: &FileStorage) -> (r: Result<FileUpdate, RunError>)
        ensures
            match r {
                Ok(update) => {
                    &&& self@.phase is Closing
                    &&& update.path@ == storage@.ledger_path(self@.entrypoint)
                    &&& update.content@ == pretty_json(ledger_json(self@.ledger()), 4)
                },
                Err(e) => !(self@.phase is Closing) && e == RunError::OutOfTurn,
            },
    {
        match self.phase {
            RunPhase::Closing => {
                let entries = self.coordinator.ledger();
                Ok(
                    FileUpdate {
                        path: storage.cache_status_path(&self.entrypoint),
                        content: write_ledger(&entries),
                    },
                )
            },
            _ => Err(RunError::OutOfTurn),
        }
    }

    /// The list of servers as it is to be written after the crawl, given
    /// the text of the list as it is, if there is one: the entrypoint is
    /// added unless the list holds it.
    pub fn servers_update(&self, storage: &FileStorage, servers: Option<&str>) -> (r: Result<
        FileUpdate,
        RunError,
    >)
        ensures
            match r {
                Ok(update) => {
                    &&& self@.phase is Closing
                    &&& stored_servers(view_of(servers)) is Ok
                    &&& update.path@ == storage@.servers_path()
                    &&& Some(update.content@) == string_list_json(
                        texts_of(
                            registered(stored_servers(view_of(servers))->Ok_0, self@.entrypoint),
                        ),
                    )
                },
                Err(e) => if self@.phase is Closing {
                    &&& e == RunError::MalformedServers
                    &&& match stored_servers(view_of(servers)) {
                        Ok(listed) => string_list_json(
                            texts_of(registered(listed, self@.entrypoint)),
                        ) is None,
                        Err(_) => true,
                    }
                } else {
                    e == RunError::OutOfTurn
                },
            },
    {
        match self.phase {
            RunPhase::Closing => {},
            _ => {
                return Err(RunError::OutOfTurn);
            },
        }
        let mut list = match read_servers(servers) {
            Ok(list) => list,
            Err(_) => {
                return Err(RunError::MalformedServers);
            },
        };
        register_server(&mut list, &self.entrypoint);
        match write_servers(&list) {
            Some(content) => Ok(FileUpdate { path: storage.cached_servers_path(), content }),
            None => Err(RunError::MalformedServers),
        }
    }

    /// How many collections were crawled to their end in this run, and how
    /// many failed.
    pub fn summary(&self) -> (r: Summary)
        ensures
            r.succeeded == count_done(
                self@.coordinator.jobs,
                self@.coordinator.jobs.len() as int,
            ),
            r.failed == count_failed(self@.coordinator.jobs, self@.coordinator.jobs.len() as int),
    {
        Summary { succeeded: self.coordinator.succeeded(), failed: self.coordinator.failed() }
    }

    /// Whether the run succeeded: it was not given up and no collection
    /// failed.
    pub fn succeeded(&self) -> (r: bool)
        ensures
            r == (!(self@.phase is Aborted) && count_failed(
                self@.coordinator.jobs,
                self@.coordinator.jobs.len() as int,
            ) == 0),
    {
        match self.phase {
            RunPhase::Aborted => false,
            _ => self.coordinator.failed() == 0,
        }
    }
}

} // verus!
