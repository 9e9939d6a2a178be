//! The files of a cache as the actions leave them: what a crawl writes is
//! in its file afterwards, and what it does not write stays as it was.

use vstd::prelude::*;
use crate::codec::pretty_json;
use crate::decompose::{flatten_object, EffectView};
use crate::file_storage::{effect_url, stored, ActionView, StorageView, FILE_EXTENSION};
use crate::url::url_parts;
use crate::value::Json;

verus! {

/// The files of a cache: the text at each path that holds one.
pub type Files = Map<Seq<char>, Seq<char>>;

/// The files after the first `n` actions were performed in their order: a
/// write puts its content at its path, in the place of what was there; a
/// discovery writes nothing.
pub open spec fn performed(files: Files, actions: Seq<ActionView>, n: int) -> Files
    decreases n,
{
    if n <= 0 || n > actions.len() {
        files
    } else {
        match actions[n - 1] {
            ActionView::Write { path, content } => performed(files, actions, n - 1).insert(
                path,
                content,
            ),
            ActionView::Discover { url } => performed(files, actions, n - 1),
        }
    }
}

/// Whether one of the first `n` actions writes to `path`.
pub open spec fn writes_to(actions: Seq<ActionView>, n: int, path: Seq<char>) -> bool {
    exists|i: int|
        0 <= i < n && i < actions.len() && #[trigger] actions[i] is Write
            && actions[i]->Write_path == path
}

/// Whether storing an object writes to `path`.
pub open spec fn object_writes_to(store: StorageView, object: Json, path: Seq<char>) -> bool {
    writes_to(stored(store, object).0, stored(store, object).0.len() as int, path)
}

/// The files after the first `n` objects were stored one after another.
pub open spec fn objects_stored(store: StorageView, files: Files, objects: Seq<Json>, n: int) -> Files
    decreases n,
{
    if n <= 0 || n > objects.len() {
        files
    } else {
        performed(
            objects_stored(store, files, objects, n - 1),
            stored(store, objects[n - 1]).0,
            stored(store, objects[n - 1]).0.len() as int,
        )
    }
}

/// A file that no action writes to stays as it was: there or not there,
/// and with the text that it had.
pub proof fn lemma_other_files_stay(files: Files, actions: Seq<ActionView>, n: int, path: Seq<char>)
    requires
        !writes_to(actions, n, path),
    ensures
        performed(files, actions, n).contains_key(path) == files.contains_key(path),
        performed(files, actions, n)[path] == files[path],
    decreases n,
{
    if 0 < n <= actions.len() {
        assert(!writes_to(actions, n - 1, path)) by {
            if writes_to(actions, n - 1, path) {
                let i = choose|i: int|
                    0 <= i < n - 1 && i < actions.len() && #[trigger] actions[i] is Write
                        && actions[i]->Write_path == path;
                assert(0 <= i < n && actions[i] is Write && actions[i]->Write_path == path);
            }
        }
        lemma_other_files_stay(files, actions, n - 1, path);
        assert(!(actions[n - 1] is Write && actions[n - 1]->Write_path == path));
    }
}

/// The last write to a path is what the file holds afterwards.
pub proof fn lemma_last_write_is_kept(
    files: Files,
    actions: Seq<ActionView>,
    n: int,
    k: int,
)
    requires
        0 <= k < n <= actions.len(),
        actions[k] is Write,
        forall|i: int|
            k < i < n && #[trigger] actions[i] is Write ==> actions[i]->Write_path
                != actions[k]->Write_path,
    ensures
        performed(files, actions, n).contains_key(actions[k]->Write_path),
        performed(files, actions, n)[actions[k]->Write_path] == actions[k]->Write_content,
    decreases n,
{
    if k < n - 1 {
        lemma_last_write_is_kept(files, actions, n - 1, k);
        if actions[n - 1] is Write {
            assert(actions[n - 1]->Write_path != actions[k]->Write_path);
        }
    }
}

/// Where there is an action for each of the first `n` effects, the actions
/// are as many, each the action of its effect.
pub proof fn lemma_planned_pointwise(store: StorageView, effects: Seq<EffectView>, n: int)
    requires
        0 <= n <= effects.len(),
        store.planned(effects, n).complete,
    ensures
        store.planned(effects, n).actions.len() == n,
        forall|i: int|
            0 <= i < n ==> store.action_of(
                #[trigger] effects[i],
                url_parts(effect_url(effects[i])),
            ) == Some(store.planned(effects, n).actions[i]),
    decreases n,
{
    if n > 0 {
        lemma_planned_pointwise(store, effects, n - 1);
    }
}

/// The file of an object that was stored: the file of its id.
pub open spec fn file_of(store: StorageView, flat: Json) -> Seq<char> {
    store.path_of(url_parts(flat.text_field("id"@)->Some_0)->Some_0, FILE_EXTENSION@)
}

/// Storing an object ends with writing the flat object to the file of its
/// id, so that the file holds it afterwards, whatever the files were.
pub proof fn lemma_object_is_in_its_file(store: StorageView, object: Json, files: Files)
    requires
        stored(store, object).1 is Ok,
    ensures
        stored(store, object).0.len() > 0,
        stored(store, object).0.last() == (ActionView::Write {
            path: file_of(store, stored(store, object).1->Ok_0),
            content: pretty_json(stored(store, object).1->Ok_0, 4),
        }),
        performed(files, stored(store, object).0, stored(store, object).0.len() as int)[file_of(
            store,
            stored(store, object).1->Ok_0,
        )] == pretty_json(stored(store, object).1->Ok_0, 4),
        performed(
            files,
            stored(store, object).0,
            stored(store, object).0.len() as int,
        ).contains_key(file_of(store, stored(store, object).1->Ok_0)),
{
    let outcome = flatten_object(object, store.schema);
    let n = outcome.effects.len() as int;
    let actions = stored(store, object).0;
    lemma_planned_pointwise(store, outcome.effects, n);
    let flat = outcome.result->Ok_0;
    assert(outcome.effects[n - 1] == EffectView::Store {
        id: flat.text_field("id"@)->Some_0,
        object: flat,
    });
    assert(store.action_of(
        outcome.effects[n - 1],
        url_parts(effect_url(outcome.effects[n - 1])),
    ) == Some(actions[n - 1]));
    lemma_last_write_is_kept(files, actions, n, n - 1);
}

/// A file that none of the objects writes to stays as it was while the
/// objects are stored: an object that a crawl does not fetch is left as it
/// is.
pub proof fn lemma_unfetched_files_stay(
    store: StorageView,
    files: Files,
    objects: Seq<Json>,
    n: int,
    path: Seq<char>,
)
    requires
        forall|k: int| 0 <= k < n && k < objects.len() ==> !object_writes_to(
            store,
            #[trigger] objects[k],
            path,
        ),
    ensures
        objects_stored(store, files, objects, n).contains_key(path) == files.contains_key(path),
        objects_stored(store, files, objects, n)[path] == files[path],
    decreases n,
{
    if 0 < n <= objects.len() {
        lemma_unfetched_files_stay(store, files, objects, n - 1, path);
        assert(!object_writes_to(store, objects[n - 1], path));
        lemma_other_files_stay(
            objects_stored(store, files, objects, n - 1),
            stored(store, objects[n - 1]).0,
            stored(store, objects[n - 1]).0.len() as int,
            path,
        );
    }
}

/// An object that is stored is in the file of its id after all the objects
/// were stored, unless a later object writes to that file: what a crawl
/// fetches is in the cache as it was fetched.
pub proof fn lemma_fetched_objects_are_stored(
    store: StorageView,
    files: Files,
    objects: Seq<Json>,
    n: int,
    k: int,
)
    requires
        0 <= k < n <= objects.len(),
        stored(store, objects[k]).1 is Ok,
        forall|j: int| k < j < n ==> !object_writes_to(
            store,
            #[trigger] objects[j],
            file_of(store, stored(store, objects[k]).1->Ok_0),
        ),
    ensures
        objects_stored(store, files, objects, n).contains_key(
            file_of(store, stored(store, objects[k]).1->Ok_0),
        ),
        objects_stored(store, files, objects, n)[file_of(
            store,
            stored(store, objects[k]).1->Ok_0,
        )] == pretty_json(stored(store, objects[k]).1->Ok_0, 4),
    decreases n,
{
    let path = file_of(store, stored(store, objects[k]).1->Ok_0);
    if k == n - 1 {
        lemma_object_is_in_its_file(
            store,
            objects[k],
            objects_stored(store, files, objects, n - 1),
        );
    } else {
        lemma_fetched_objects_are_stored(store, files, objects, n - 1, k);
        assert(!object_writes_to(store, objects[n - 1], path));
        lemma_other_files_stay(
            objects_stored(store, files, objects, n - 1),
            stored(store, objects[n - 1]).0,
            stored(store, objects[n - 1]).0.len() as int,
            path,
        );
    }
}

} // verus!
