//! Collection listings: the ids of a collection's items in the order in
//! which they were found, none of them twice; and how the ids of a new
//! crawl are merged with those of the listing before it.

use vstd::prelude::*;
use vstd::string::*;
use crate::codec::{decode, decoded, encode, pretty_json, MAX_DEPTH};
use crate::optional::view_of;
use crate::text::same_text;
use crate::value::{items_view, Json, Value};

verus! {

/// The ids of a sequence, each at the place where it first occurs.
pub open spec fn distinct(ids: Seq<Seq<char>>) -> Seq<Seq<char>>
    decreases ids.len(),
{
    if ids.len() == 0 {
        ids
    } else if distinct(ids.drop_last()).contains(ids.last()) {
        distinct(ids.drop_last())
    } else {
        distinct(ids.drop_last()).push(ids.last())
    }
}

/// The listing after a crawl: the ids that the crawl found, then the ids of
/// the listing before it that the crawl did not find, no id twice.
pub open spec fn merged(fresh: Seq<Seq<char>>, previous: Seq<Seq<char>>) -> Seq<Seq<char>> {
    distinct(fresh + previous)
}

/// `distinct` holds the ids of its argument and no others.
pub proof fn lemma_distinct_contains(ids: Seq<Seq<char>>, id: Seq<char>)
    ensures
        distinct(ids).contains(id) <==> ids.contains(id),
    decreases ids.len(),
{
    if ids.len() > 0 {
        let front = ids.drop_last();
        lemma_distinct_contains(front, id);
        lemma_distinct_contains(front, ids.last());
        if ids.contains(id) {
            let i = choose|i: int| 0 <= i < ids.len() && ids[i] == id;
            if i < ids.len() - 1 {
                assert(front[i] == id);
            }
        }
        if front.contains(id) {
            let i = choose|i: int| 0 <= i < front.len() && front[i] == id;
            assert(ids[i] == id);
        }
        if distinct(front).contains(ids.last()) {
        } else {
            let d = distinct(front);
            if d.push(ids.last()).contains(id) {
                let i = choose|i: int| 0 <= i < d.len() + 1 && d.push(ids.last())[i] == id;
                if i < d.len() {
                    assert(d[i] == id);
                } else {
                    assert(ids[ids.len() - 1] == id);
                }
            }
            if d.contains(id) {
                let i = choose|i: int| 0 <= i < d.len() && d[i] == id;
                assert(d.push(ids.last())[i] == id);
            }
            if ids.last() == id {
                assert(d.push(ids.last())[d.len() as int] == id);
            }
        }
    }
}

/// `distinct` holds no id twice.
pub proof fn lemma_distinct_no_duplicates(ids: Seq<Seq<char>>)
    ensures
        distinct(ids).no_duplicates(),
    decreases ids.len(),
{
    if ids.len() > 0 {
        lemma_distinct_no_duplicates(ids.drop_last());
    }
}

/// A sequence that holds no id twice is its own `distinct`.
pub proof fn lemma_distinct_of_distinct(ids: Seq<Seq<char>>)
    requires
        ids.no_duplicates(),
    ensures
        distinct(ids) == ids,
    decreases ids.len(),
{
    if ids.len() > 0 {
        let front = ids.drop_last();
        lemma_distinct_of_distinct(front);
        if front.contains(ids.last()) {
            let i = choose|i: int| 0 <= i < front.len() && front[i] == ids.last();
            assert(ids[i] == ids[ids.len() - 1]);
        }
        assert(front.push(ids.last()) =~= ids);
    }
}

/// The distinct ids of a sequence stand first among the distinct ids of any
/// sequence that continues it.
pub proof fn lemma_distinct_prefix(first: Seq<Seq<char>>, then: Seq<Seq<char>>)
    ensures
        distinct(first).len() <= distinct(first + then).len(),
        distinct(first + then).take(distinct(first).len() as int) == distinct(first),
    decreases then.len(),
{
    if then.len() == 0 {
        assert(first + then =~= first);
        assert(distinct(first).take(distinct(first).len() as int) =~= distinct(first));
    } else {
        assert((first + then).drop_last() =~= first + then.drop_last());
        lemma_distinct_prefix(first, then.drop_last());
        let shorter = distinct(first + then.drop_last());
        assert(shorter.push(then.last()).take(distinct(first).len() as int) =~= shorter.take(
            distinct(first).len() as int,
        ));
    }
}

/// The ids of `ids` that `seen` does not hold, in their order.
pub open spec fn without(ids: Seq<Seq<char>>, seen: Seq<Seq<char>>) -> Seq<Seq<char>>
    decreases ids.len(),
{
    if ids.len() == 0 {
        ids
    } else if seen.contains(ids.last()) {
        without(ids.drop_last(), seen)
    } else {
        without(ids.drop_last(), seen).push(ids.last())
    }
}

/// A sequence holds what one of its parts holds.
proof fn lemma_concat_contains(a: Seq<Seq<char>>, b: Seq<Seq<char>>, id: Seq<char>)
    ensures
        (a + b).contains(id) <==> a.contains(id) || b.contains(id),
{
    let both = a + b;
    if both.contains(id) {
        let i = choose|i: int| 0 <= i < both.len() && both[i] == id;
        if i < a.len() {
            assert(a[i] == id);
        } else {
            assert(b[i - a.len()] == id);
        }
    }
    if a.contains(id) {
        let i = choose|i: int| 0 <= i < a.len() && a[i] == id;
        assert(both[i] == id);
    }
    if b.contains(id) {
        let i = choose|i: int| 0 <= i < b.len() && b[i] == id;
        assert(both[i + a.len()] == id);
    }
}

/// The merged listing is the ids of the crawl, each where it was first
/// found, followed by the ids of the listing before that the crawl did not
/// find, each where it first stood.
pub proof fn lemma_merged_parts(fresh: Seq<Seq<char>>, previous: Seq<Seq<char>>)
    ensures
        merged(fresh, previous) == distinct(fresh) + distinct(without(previous, fresh)),
    decreases previous.len(),
{
    if previous.len() == 0 {
        assert(fresh + previous =~= fresh);
        assert(distinct(fresh) + distinct(without(previous, fresh)) =~= distinct(fresh));
    } else {
        let earlier = previous.drop_last();
        let last = previous.last();
        assert((fresh + previous).drop_last() =~= fresh + earlier);
        lemma_merged_parts(fresh, earlier);
        let kept = distinct(without(earlier, fresh));
        lemma_concat_contains(distinct(fresh), kept, last);
        lemma_distinct_contains(fresh, last);
        if !fresh.contains(last) {
            assert(without(previous, fresh).drop_last() =~= without(earlier, fresh));
            if !kept.contains(last) {
                assert((distinct(fresh) + kept).push(last) =~= distinct(fresh) + kept.push(last));
            }
        }
    }
}

/// The merged listing holds no id twice, holds exactly the ids of the crawl
/// and of the listing before it, and begins with the ids of the crawl in
/// their order.
pub proof fn lemma_merged(fresh: Seq<Seq<char>>, previous: Seq<Seq<char>>)
    ensures
        merged(fresh, previous).no_duplicates(),
        forall|id: Seq<char>| #[trigger]
            merged(fresh, previous).contains(id) <==> fresh.contains(id) || previous.contains(id),
        distinct(fresh).len() <= merged(fresh, previous).len(),
        merged(fresh, previous).take(distinct(fresh).len() as int) == distinct(fresh),
        fresh.no_duplicates() ==> merged(fresh, previous).take(fresh.len() as int) == fresh,
{
    lemma_distinct_no_duplicates(fresh + previous);
    assert forall|id: Seq<char>| #[trigger]
        merged(fresh, previous).contains(id) <==> fresh.contains(id) || previous.contains(
            id,
        ) by {
        lemma_distinct_contains(fresh + previous, id);
        lemma_concat_contains(fresh, previous, id);
    }
    lemma_distinct_prefix(fresh, previous);
    if fresh.no_duplicates() {
        lemma_distinct_of_distinct(fresh);
    }
}

/// Whether `ids` holds `id`.
pub fn contains_id(ids: &Vec<String>, id: &str) -> (found: bool)
    ensures
        found == ids.deep_view().contains(id@),
{
    let mut i: usize = 0;
    while i < ids.len()
        invariant
            i <= ids.len(),
            forall|j: int| 0 <= j < i ==> ids.deep_view()[j] != id@,
        decreases ids.len() - i,
    {
        assert(ids.deep_view()[i as int] == ids@[i as int]@);
        if same_text(ids[i].as_str(), id) {
            return true;
        }
        i = i + 1;
    }
    false
}

/// Appends `id` to `ids` unless it is there already.
pub fn push_unique(ids: &mut Vec<String>, id: String)
    ensures
        final(ids).deep_view() == if old(ids).deep_view().contains(id@) {
            old(ids).deep_view()
        } else {
            old(ids).deep_view().push(id@)
        },
{
    if !contains_id(ids, id.as_str()) {
        let ghost before = ids.deep_view();
        let ghost content = id@;
        ids.push(id);
        assert(ids.deep_view() =~= before.push(content));
    }
}

/// Merges the ids that a crawl found with the ids of the listing before it.
pub fn merge_listing(fresh: &Vec<String>, previous: &Vec<String>) -> (r: Vec<String>)
    ensures
        r.deep_view() == merged(fresh.deep_view(), previous.deep_view()),
{
    let mut r: Vec<String> = Vec::new();
    let ghost all = fresh.deep_view() + previous.deep_view();
    assert(r.deep_view() =~= distinct(all.take(0)));
    let mut i: usize = 0;
    while i < fresh.len()
        invariant
            i <= fresh.len(),
            all == fresh.deep_view() + previous.deep_view(),
            r.deep_view() == distinct(all.take(i as int)),
        decreases fresh.len() - i,
    {
        assert(all.take(i + 1).drop_last() =~= all.take(i as int));
        assert(all.take(i + 1).last() == fresh@[i as int]@);
        push_unique(&mut r, fresh[i].clone());
        i = i + 1;
    }
    let mut j: usize = 0;
    while j < previous.len()
        invariant
            j <= previous.len(),
            all == fresh.deep_view() + previous.deep_view(),
            r.deep_view() == distinct(all.take(fresh.len() + j)),
        decreases previous.len() - j,
    {
        assert(all.take(fresh.len() + j + 1).drop_last() =~= all.take(fresh.len() + j));
        assert(all.take(fresh.len() + j + 1).last() == previous@[j as int]@);
        push_unique(&mut r, previous[j].clone());
        j = j + 1;
    }
    assert(all.take(fresh.len() + previous.len()) =~= all);
    r
}

/// The ids of a listing as a value: a list of texts.
pub open spec fn listing_json(ids: Seq<Seq<char>>) -> Json {
    Json::List(Seq::new(ids.len(), |i: int| Json::Text(ids[i])))
}

/// A listing is nested one deep: a list of texts.
pub proof fn lemma_listing_is_shallow(ids: Seq<Seq<char>>)
    ensures
        listing_json(ids).nests_within(MAX_DEPTH as nat),
{
    let items = listing_json(ids)->List_0;
    assert forall|i: int| 0 <= i < items.len() implies (#[trigger] items[i]).nests_within(
        (MAX_DEPTH - 1) as nat,
    ) by {
        assert(items[i] == Json::Text(ids[i]));
    }
}

/// The ids that a value lists, where it is a list of texts.
pub open spec fn listing_of(value: Json) -> Option<Seq<Seq<char>>> {
    match value {
        Json::List(items) => if forall|i: int| 0 <= i < items.len() ==> items[i] is Text {
            Some(Seq::new(items.len(), |i: int| items[i]->Text_0))
        } else {
            None
        },
        _ => None,
    }
}

/// The listing that a stored text holds. A text that is absent, is no JSON
/// or is no list of texts holds no listing.
pub open spec fn stored_listing(text: Option<Seq<char>>) -> Option<Seq<Seq<char>>> {
    match text {
        Some(text) => match decoded(text) {
            Some(value) => listing_of(value),
            None => None,
        },
        None => None,
    }
}

/// A listing as a value.
pub fn listing_value(ids: &Vec<String>) -> (r: Value)
    ensures
        r@ == listing_json(ids.deep_view()),
{
    let mut items: Vec<Value> = Vec::new();
    let mut i: usize = 0;
    while i < ids.len()
        invariant
            i <= ids.len(),
            items.len() == i,
            forall|j: int| 0 <= j < i ==> items@[j]@ == Json::Text(ids@[j]@),
        decreases ids.len() - i,
    {
        items.push(Value::Text(ids[i].clone()));
        i = i + 1;
    }
    assert(items_view(items@) =~= Seq::new(
        ids.deep_view().len(),
        |i: int| Json::Text(ids.deep_view()[i]),
    ));
    Value::List(items)
}

/// The ids that a value lists, where it is a list of texts.
#[verifier::loop_isolation(false)]
pub fn decode_listing(value: &Value) -> (r: Option<Vec<String>>)
    ensures
        match r {
            Some(ids) => listing_of(value@) == Some(ids.deep_view()),
            None => listing_of(value@).is_none(),
        },
{
    match value {
        Value::List(items) => {
            let mut ids: Vec<String> = Vec::new();
            let mut i: usize = 0;
            while i < items.len()
                invariant
                    i <= items.len(),
                    ids.len() == i,
                    forall|j: int| 0 <= j < i ==> items@[j]@ == Json::Text(ids@[j]@),
                decreases items.len() - i,
            {
                match &items[i] {
                    Value::Text(id) => {
                        ids.push(id.clone());
                    },
                    _ => {
                        assert(items_view(items@)[i as int] == items@[i as int]@);
                        assert(!(items_view(items@)[i as int] is Text));
                        return None;
                    },
                }
                i = i + 1;
            }
            proof {
                let view = items_view(items@);
                assert forall|j: int| 0 <= j < view.len() implies view[j] is Text by {
                    assert(view[j] == items@[j]@);
                }
                assert(ids.deep_view() =~= Seq::new(view.len(), |i: int| view[i]->Text_0));
            }
            Some(ids)
        },
        _ => None,
    }
}

/// Reads the listing that was stored before. Where nothing was stored, or
/// what was stored is no listing, there is none.
pub fn read_listing(text: Option<&str>) -> (r: Option<Vec<String>>)
    ensures
        match r {
            Some(ids) => stored_listing(view_of(text)) == Some(ids.deep_view()),
            None => stored_listing(view_of(text)).is_none(),
        },
{
    match text {
        Some(text) => match decode(text) {
            Some(value) => decode_listing(&value),
            None => None,
        },
        None => None,
    }
}

/// Writes a listing as JSON text.
pub fn write_listing(ids: &Vec<String>) -> (r: String)
    ensures
        r@ == pretty_json(listing_json(ids.deep_view()), 4),
{
    let value = listing_value(ids);
    proof {
        lemma_listing_is_shallow(ids.deep_view());
    }
    encode(&value).unwrap()
}

} // verus!
