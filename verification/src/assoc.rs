//! Lists of named entries, searched from the front.

use vstd::prelude::*;

verus! {

/// The place of the first entry under `key`, or the number of entries where
/// there is none.
pub open spec fn position<V>(entries: Seq<(Seq<char>, V)>, key: Seq<char>) -> int
    decreases entries.len(),
{
    if entries.len() == 0 {
        0
    } else if entries[0].0 == key {
        0
    } else {
        1 + position(entries.drop_first(), key)
    }
}

/// The value of the first entry under `key`.
pub open spec fn lookup<V>(entries: Seq<(Seq<char>, V)>, key: Seq<char>) -> Option<V> {
    let at = position(entries, key);
    if 0 <= at < entries.len() {
        Some(entries[at].1)
    } else {
        None
    }
}

/// The entries with `value` under `key`: in the place of the first entry
/// under that key, or at the end where there is none.
pub open spec fn put<V>(entries: Seq<(Seq<char>, V)>, key: Seq<char>, value: V) -> Seq<
    (Seq<char>, V),
> {
    let at = position(entries, key);
    if 0 <= at < entries.len() {
        entries.update(at, (key, value))
    } else {
        entries.push((key, value))
    }
}

/// What `position` finds: an entry under `key` with none under it before, or
/// no such entry at all.
pub proof fn lemma_position<V>(entries: Seq<(Seq<char>, V)>, key: Seq<char>)
    ensures
        0 <= position(entries, key) <= entries.len(),
        position(entries, key) < entries.len() ==> entries[position(entries, key)].0 == key,
        forall|i: int| 0 <= i < position(entries, key) ==> entries[i].0 != key,
    decreases entries.len(),
{
    if entries.len() > 0 && entries[0].0 != key {
        lemma_position(entries.drop_first(), key);
        let rest = position(entries.drop_first(), key);
        assert forall|i: int| 0 <= i < 1 + rest implies entries[i].0 != key by {
            if i > 0 {
                assert(entries.drop_first()[i - 1] == entries[i]);
            }
        }
    }
}

/// A place that holds `key`, with no earlier one that does, is `position`.
pub proof fn lemma_position_is<V>(entries: Seq<(Seq<char>, V)>, key: Seq<char>, at: int)
    requires
        0 <= at <= entries.len(),
        at < entries.len() ==> entries[at].0 == key,
        forall|i: int| 0 <= i < at ==> entries[i].0 != key,
    ensures
        position(entries, key) == at,
{
    lemma_position(entries, key);
}

/// Lists with the same keys in the same places have the first entry under
/// a key in the same place.
pub proof fn lemma_same_keys_same_position<V, W>(
    a: Seq<(Seq<char>, V)>,
    b: Seq<(Seq<char>, W)>,
    key: Seq<char>,
)
    requires
        a.len() == b.len(),
        forall|i: int| 0 <= i < a.len() ==> a[i].0 == b[i].0,
    ensures
        position(a, key) == position(b, key),
{
    lemma_position(a, key);
    lemma_position_is(b, key, position(a, key));
}

/// One more entry at the end leaves the place of a key that the list holds,
/// and is the place of its own key where the list does not hold it.
pub proof fn lemma_position_after_push<V>(
    entries: Seq<(Seq<char>, V)>,
    entry: (Seq<char>, V),
    key: Seq<char>,
)
    ensures
        position(entries, key) < entries.len() ==> position(entries.push(entry), key)
            == position(entries, key),
        position(entries, key) >= entries.len() && entry.0 == key ==> position(
            entries.push(entry),
            key,
        ) == entries.len(),
        position(entries, key) >= entries.len() && entry.0 != key ==> position(
            entries.push(entry),
            key,
        ) == entries.len() + 1,
{
    lemma_position(entries, key);
    let longer = entries.push(entry);
    if position(entries, key) < entries.len() {
        lemma_position_is(longer, key, position(entries, key));
    } else if entry.0 == key {
        lemma_position_is(longer, key, entries.len() as int);
    } else {
        lemma_position_is(longer, key, (entries.len() + 1) as int);
    }
}

} // verus!
