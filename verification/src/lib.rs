//! File cache for a paginated, self-describing REST API.
//!
//! A server offers typed objects and paginated collections of objects. The
//! cache stores every object that can be reached from the server's
//! entrypoint as a file of its own, and for every collection the list of
//! the ids of its items. A later run asks each collection only for what has
//! changed since its last crawl.
//!
//! - `schema` says which properties of an object hold embedded objects and
//!   which refer to collections; `decompose` makes an object flat.
//! - `external_list` reads a collection page by page; `cacher` crawls one
//!   collection and merges the ids found into its `listing`.
//! - `coordinator` keeps track of the collections that are known, waiting
//!   and being crawled, and `schedule` shows that it comes to an end; `run`
//!   is one run of the cache on a server.
//! - `file_storage` and `url` say where a URL is stored, and `files` what
//!   the files hold after a crawl; `ledger` and `servers` read and write
//!   what the cache remembers between runs.
//! - `value` and `codec` are the objects themselves and their JSON text.
//! - `text`, `assoc` and `optional` hold what the others share.
//! - `counter` is a small counter that stands apart from the rest.
//!
//! The library fetches nothing and touches no file: it says what is to be
//! fetched, read and written, and takes what came of it.

pub mod assoc;
pub mod cacher;
pub mod codec;
pub mod coordinator;
pub mod counter;
pub mod decompose;
pub mod external_list;
pub mod file_storage;
pub mod files;
pub mod ledger;
pub mod listing;
pub mod optional;
pub mod run;
pub mod schedule;
pub mod schema;
pub mod servers;
pub mod text;
pub mod url;
pub mod value;
