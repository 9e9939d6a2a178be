//! The file cache: where under the cache directory each URL is stored, and
//! which files decomposing an object writes.

use vstd::prelude::*;
use vstd::string::*;
use crate::codec::{encode, encoded};
use crate::decompose::{
    decompose, effects_view, flatten_object, DecomposeError, Effect, EffectView,
};
use crate::ledger::LedgerError;
use crate::optional::view_of;
use crate::schema::{
    documents_of, loaded, CatalogView, SchemaCatalog, SchemaLoadFailure, EXPECTED_TYPES,
};
use crate::servers::{read_servers, stored_servers, urls_view};
use crate::text::{ends_with_slash, starts_with_slash};
use crate::url::{
    cache_path, kept_pairs, lemma_filters_leave_cache_path, url_parts, Url, UrlView,
};
use crate::value::{Json, Value};

verus! {

/// The name of the file that holds the sync ledger of a server.
pub const CACHE_STATUS_FILE: &'static str = "cache_status.json";

/// The name of the file that lists the servers in a cache.
pub const CACHED_SERVERS_FILE: &'static str = "cached_servers.json";

/// The suffix of the files that hold objects and listings.
pub const FILE_EXTENSION: &'static str = ".json";

/// A path under a directory: `rest` alone where it starts at the root or
/// the directory is empty, else the directory, one slash, and `rest`.
pub open spec fn joined(dir: Seq<char>, rest: Seq<char>) -> Seq<char> {
    if rest.len() > 0 && rest[0] == '/' {
        rest
    } else if dir.len() == 0 || dir.last() == '/' {
        dir + rest
    } else {
        dir + seq!['/'] + rest
    }
}

/// Joins a path to a directory.
pub fn join(dir: &str, rest: &str) -> (r: String)
    ensures
        r@ == joined(dir@, rest@),
{
    if starts_with_slash(rest) {
        String::from_str(rest)
    } else {
        let mut r = String::from_str(dir);
        if dir.unicode_len() > 0 && !ends_with_slash(dir) {
            proof {
                reveal_strlit("/");
            }
            r.append("/");
            assert(r@ =~= dir@ + seq!['/']);
        }
        r.append(rest);
        r
    }
}

/// Something to do for the cache.
#[derive(Debug, PartialEq, Eq)]
pub enum Action {
    /// Write `content` to the file at `path`.
    Write { path: String, content: String },
    /// Tell the coordinator of the collection at `url`.
    Discover { url: Url },
}

/// The content of an `Action`.
pub enum ActionView {
    Write { path: Seq<char>, content: Seq<char> },
    Discover { url: UrlView },
}

impl View for Action {
    type V = ActionView;

    open spec fn view(&self) -> ActionView {
        match self {
            Action::Write { path, content } => ActionView::Write {
                path: path@,
                content: content@,
            },
            Action::Discover { url } => ActionView::Discover { url: url@ },
        }
    }
}

/// The contents of a list of actions.
pub open spec fn actions_view(actions: Seq<Action>) -> Seq<ActionView> {
    Seq::new(actions.len(), |i: int| actions[i]@)
}

/// A cache in a directory of files, with the schema of what it stores.
pub struct FileStorage {
    schema: SchemaCatalog,
    cache_dir: String,
    cache_status_file: String,
    cached_servers_file: String,
}

/// The content of a `FileStorage`.
pub struct StorageView {
    pub schema: CatalogView,
    pub cache_dir: Seq<char>,
    pub cache_status_file: Seq<char>,
    pub cached_servers_file: Seq<char>,
}

/// The text that an effect names a URL by.
pub open spec fn effect_url(effect: EffectView) -> Seq<char> {
    match effect {
        EffectView::Store { id, object } => id,
        EffectView::Emit { url } => url,
    }
}

/// What came of turning effects into actions.
pub struct PlanView {
    /// The actions for the effects before the first for which there is
    /// none.
    pub actions: Seq<ActionView>,
    /// Whether there is an action for every effect.
    pub complete: bool,
}

impl StorageView {
    /// The file at which a URL is stored.
    pub open spec fn path_of(self, url: UrlView, suffix: Seq<char>) -> Seq<char> {
        joined(self.cache_dir, cache_path(url, suffix))
    }

    /// The file that holds the ledger of the server at `entrypoint`.
    pub open spec fn ledger_path(self, entrypoint: UrlView) -> Seq<char> {
        joined(self.path_of(entrypoint, Seq::empty()), self.cache_status_file)
    }

    /// The file that lists the servers in the cache.
    pub open spec fn servers_path(self) -> Seq<char> {
        joined(self.cache_dir, self.cached_servers_file)
    }

    /// The action that an effect asks for, given what the URL parser made
    /// of the effect's URL: to write the flat object, as JSON indented by
    /// four spaces, to the file of its id; or to report the collection.
    /// Without a URL there is no action, nor for an object that is nested
    /// too deep to be written.
    pub open spec fn action_of(self, effect: EffectView, parsed: Option<UrlView>) -> Option<
        ActionView,
    > {
        match parsed {
            None => None,
            Some(url) => match effect {
                EffectView::Store { id, object } => match encoded(object) {
                    Some(content) => Some(
                        ActionView::Write { path: self.path_of(url, FILE_EXTENSION@), content },
                    ),
                    None => None,
                },
                EffectView::Emit { url: text } => Some(ActionView::Discover { url }),
            },
        }
    }

    /// The actions for the first `n` effects, up to the first effect for
    /// which there is none.
    pub open spec fn planned(self, effects: Seq<EffectView>, n: int) -> PlanView
        decreases n,
    {
        if n <= 0 || n > effects.len() {
            PlanView { actions: Seq::empty(), complete: true }
        } else {
            let before = self.planned(effects, n - 1);
            if !before.complete {
                before
            } else {
                match self.action_of(effects[n - 1], url_parts(effect_url(effects[n - 1]))) {
                    Some(action) => PlanView {
                        actions: before.actions.push(action),
                        complete: true,
                    },
                    None => PlanView { actions: before.actions, complete: false },
                }
            }
        }
    }

    /// URLs that differ only in transient filters are stored in the same
    /// file.
    pub proof fn lemma_filters_leave_path(self, a: UrlView, b: UrlView, suffix: Seq<char>)
        requires
            a.scheme == b.scheme,
            a.host == b.host,
            a.port == b.port,
            a.path == b.path,
            kept_pairs(a.pairs) == kept_pairs(b.pairs),
        ensures
            self.path_of(a, suffix) == self.path_of(b, suffix),
    {
        lemma_filters_leave_cache_path(a, b, suffix);
    }

    /// Once there is no action for an effect among the first `k`, more
    /// effects add nothing.
    pub proof fn lemma_incomplete_stays(self, effects: Seq<EffectView>, k: int, n: int)
        requires
            0 <= k <= n <= effects.len(),
            !self.planned(effects, k).complete,
        ensures
            self.planned(effects, n) == self.planned(effects, k),
        decreases n - k,
    {
        if k < n {
            self.lemma_incomplete_stays(effects, k, n - 1);
        }
    }
}

/// What storing an object comes to: the actions, in their order, and the
/// flat object or why there is none.
#[derive(Debug, PartialEq, Eq)]
pub struct Stored {
    pub actions: Vec<Action>,
    pub result: Result<Value, DecomposeError>,
}

/// What decomposing an object and planning its effects gives. Where there
/// is no action for an effect, because its URL is none or its object is
/// nested too deep to be written, the object is malformed; else the failure
/// is that of the decomposition.
pub open spec fn stored(store: StorageView, object: Json) -> (Seq<ActionView>, Result<
    Json,
    DecomposeError,
>) {
    let outcome = flatten_object(object, store.schema);
    let plan = store.planned(outcome.effects, outcome.effects.len() as int);
    (
        plan.actions,
        if plan.complete {
            outcome.result
        } else {
            Err(DecomposeError::MalformedObject)
        },
    )
}

impl View for FileStorage {
    type V = StorageView;

    closed spec fn view(&self) -> StorageView {
        StorageView {
            schema: self.schema@,
            cache_dir: self.cache_dir@,
            cache_status_file: self.cache_status_file@,
            cached_servers_file: self.cached_servers_file@,
        }
    }
}

impl FileStorage {
    /// A cache in `cache_dir` for objects of the given schema, with the
    /// usual names for the ledger and the list of servers.
    pub fn with_schema(schema: SchemaCatalog, cache_dir: String) -> (r: FileStorage)
        ensures
            r@ == (StorageView {
                schema: schema@,
                cache_dir: cache_dir@,
                cache_status_file: CACHE_STATUS_FILE@,
                cached_servers_file: CACHED_SERVERS_FILE@,
            }),
    {
        FileStorage {
            schema,
            cache_dir,
            cache_status_file: String::from_str(CACHE_STATUS_FILE),
            cached_servers_file: String::from_str(CACHED_SERVERS_FILE),
        }
    }

    /// A cache in `cache_dir`, with the schema that the texts of the type
    /// documents define. Fails where a text is no JSON or has no title, or
    /// where the texts do not define the expected number of types.
    pub fn new(schema_texts: &Vec<String>, cache_dir: String) -> (r: Result<
        FileStorage,
        SchemaLoadFailure,
    >)
        ensures
            match documents_of(schema_texts.deep_view()) {
                None => r is Err && r->Err_0 == SchemaLoadFailure::Malformed,
                Some(documents) => match loaded(documents, EXPECTED_TYPES as int) {
                    Ok(schema) => r is Ok && r->Ok_0@ == (StorageView {
                        schema,
                        cache_dir: cache_dir@,
                        cache_status_file: CACHE_STATUS_FILE@,
                        cached_servers_file: CACHED_SERVERS_FILE@,
                    }),
                    Err(e) => r is Err && r->Err_0 == e,
                },
            },
    {
        match SchemaCatalog::from_texts(schema_texts, EXPECTED_TYPES) {
            Ok(schema) => Ok(FileStorage::with_schema(schema, cache_dir)),
            Err(e) => Err(e),
        }
    }

    /// The schema.
    pub fn get_schema(&self) -> (r: &SchemaCatalog)
        ensures
            r@ == self@.schema,
    {
        &self.schema
    }

    /// The cache directory.
    pub fn get_cache_dir(&self) -> (r: &str)
        ensures
            r@ == self@.cache_dir,
    {
        self.cache_dir.as_str()
    }

    /// The name of the ledger file.
    pub fn get_cache_status_file(&self) -> (r: &str)
        ensures
            r@ == self@.cache_status_file,
    {
        self.cache_status_file.as_str()
    }

    /// The name of the file that lists the servers.
    pub fn get_cached_servers_file(&self) -> (r: &str)
        ensures
            r@ == self@.cached_servers_file,
    {
        self.cached_servers_file.as_str()
    }

    /// Gives the ledger file another name.
    pub fn override_cache_status_file(&mut self, cache_status_file: &str)
        ensures
            final(self)@ == (StorageView { cache_status_file: cache_status_file@, ..old(self)@ }),
    {
        self.cache_status_file = String::from_str(cache_status_file);
    }

    /// Gives the file that lists the servers another name.
    pub fn override_cached_servers_file(&mut self, cached_servers_file: &str)
        ensures
            final(self)@ == (StorageView {
                cached_servers_file: cached_servers_file@,
                ..old(self)@
            }),
    {
        self.cached_servers_file = String::from_str(cached_servers_file);
    }

    /// The file at which `url` is stored: under the cache directory, in the
    /// directory of the URL's server, at the URL's path, with `suffix`.
    pub fn url_to_path(&self, url: &Url, suffix: &str) -> (r: String)
        ensures
            r@ == self@.path_of(url@, suffix@),
    {
        let relative = url.cache_path(suffix);
        join(self.cache_dir.as_str(), relative.as_str())
    }

    /// The file that holds the ledger of the server at `entrypoint`.
    pub fn cache_status_path(&self, entrypoint: &Url) -> (r: String)
        ensures
            r@ == self@.ledger_path(entrypoint@),
    {
        proof {
            reveal_strlit("");
            assert(""@ =~= Seq::<char>::empty());
        }
        let folder = self.url_to_path(entrypoint, "");
        join(folder.as_str(), self.cache_status_file.as_str())
    }

    /// The file that lists the servers in the cache.
    pub fn cached_servers_path(&self) -> (r: String)
        ensures
            r@ == self@.servers_path(),
    {
        join(self.cache_dir.as_str(), self.cached_servers_file.as_str())
    }

    /// The servers that this cache holds, given the text of the file that
    /// lists them, if there is one.
    pub fn get_cached_servers(&self, listed: Option<&str>) -> (r: Result<Vec<Url>, LedgerError>)
        ensures
            match r {
                Ok(urls) => stored_servers(
                    view_of(listed),
                ) == Ok::<Seq<UrlView>, LedgerError>(urls_view(urls@)),
                Err(e) => stored_servers(view_of(listed)) == Err::<Seq<UrlView>, LedgerError>(e),
            },
    {
        read_servers(listed)
    }

    /// The action that an effect asks for, given what the URL parser made
    /// of the effect's URL.
    pub fn action_for(&self, effect: &Effect, parsed: Option<Url>) -> (r: Option<Action>)
        ensures
            match r {
                Some(action) => self@.action_of(effect@, view_of(parsed)) == Some(action@),
                None => self@.action_of(effect@, view_of(parsed)) is None,
            },
    {
        match parsed {
            None => None,
            Some(url) => match effect {
                Effect::Store { id, object } => match encode(object) {
                    Some(content) => Some(
                        Action::Write { path: self.url_to_path(&url, FILE_EXTENSION), content },
                    ),
                    None => None,
                },
                Effect::Emit { url: text } => Some(Action::Discover { url }),
            },
        }
    }

    /// The actions for a list of effects, up to the first effect for which
    /// there is none; and whether there is one for every effect.
    pub fn plan(&self, effects: &Vec<Effect>) -> (r: (Vec<Action>, bool))
        ensures
            actions_view(r.0@) == self@.planned(
                effects_view(effects@),
                effects@.len() as int,
            ).actions,
            r.1 == self@.planned(effects_view(effects@), effects@.len() as int).complete,
    {
        let mut actions: Vec<Action> = Vec::new();
        let ghost all = effects_view(effects@);
        let mut i: usize = 0;
        assert(actions_view(actions@) =~= Seq::<ActionView>::empty());
        while i < effects.len()
            invariant
                i <= effects.len(),
                all == effects_view(effects@),
                self@.planned(all, i as int).complete,
                actions_view(actions@) == self@.planned(all, i as int).actions,
            decreases effects.len() - i,
        {
            let ghost before = actions_view(actions@);
            assert(all[i as int] == effects@[i as int]@);
            let parsed = match &effects[i] {
                Effect::Store { id, object } => Url::parse(id.as_str()),
                Effect::Emit { url } => Url::parse(url.as_str()),
            };
            match self.action_for(&effects[i], parsed) {
                Some(action) => {
                    let ghost content = action@;
                    actions.push(action);
                    assert(actions_view(actions@) =~= before.push(content));
                },
                None => {
                    proof {
                        self@.lemma_incomplete_stays(all, i + 1, all.len() as int);
                    }
                    return (actions, false);
                },
            }
            i = i + 1;
        }
        (actions, true)
    }

    /// Decomposes an object and says what is to be written and reported
    /// for it.
    pub fn parse_object(&self, object: &Value) -> (r: Stored)
        ensures
            actions_view(r.actions@) == stored(self@, object@).0,
            match r.result {
                Ok(flat) => stored(self@, object@).1 == Ok::<Json, DecomposeError>(flat@),
                Err(e) => stored(self@, object@).1 == Err::<Json, DecomposeError>(e),
            },
    {
        let decomposition = decompose(object, &self.schema);
        let (actions, complete) = self.plan(&decomposition.effects);
        Stored {
            actions,
            result: if complete {
                decomposition.result
            } else {
                Err(DecomposeError::MalformedObject)
            },
        }
    }
}

} // verus!
