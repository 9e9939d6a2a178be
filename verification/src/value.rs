//! Structured values: the objects that a server sends and the cache stores.

use vstd::prelude::*;
use vstd::string::*;
use crate::assoc::{lemma_position_is, lookup};
use crate::text::same_text;

verus! {

/// A structured value. A record keeps its entries in the order in which they
/// were written.
#[derive(Debug, PartialEq, Eq)]
pub enum Value {
    Null,
    Bool(bool),
    /// A number by its sign, decimal mantissa and decimal exponent.
    Number(bool, u64, i16),
    Text(String),
    List(Vec<Value>),
    Record(Vec<(String, Value)>),
}

/// The mathematical content of a `Value`.
pub enum Json {
    Null,
    Bool(bool),
    Number(bool, u64, i16),
    Text(Seq<char>),
    List(Seq<Json>),
    Record(Seq<(Seq<char>, Json)>),
}

/// The contents of a list of values.
pub open spec fn items_view(items: Seq<Value>) -> Seq<Json>
    decreases items,
{
    Seq::new(
        items.len(),
        |i: int|
            if 0 <= i < items.len() {
                items[i].view()
            } else {
                Json::Null
            },
    )
}

/// The contents of the entries of a record.
pub open spec fn entries_view(entries: Seq<(String, Value)>) -> Seq<(Seq<char>, Json)>
    decreases entries,
{
    Seq::new(
        entries.len(),
        |i: int|
            if 0 <= i < entries.len() {
                (entries[i].0@, entries[i].1.view())
            } else {
                (Seq::empty(), Json::Null)
            },
    )
}

impl View for Value {
    type V = Json;

    open spec fn view(&self) -> Json
        decreases self,
    {
        match self {
            Value::Null => Json::Null,
            Value::Bool(b) => Json::Bool(*b),
            Value::Number(positive, mantissa, exponent) => Json::Number(
                *positive,
                *mantissa,
                *exponent,
            ),
            Value::Text(s) => Json::Text(s@),
            Value::List(items) => Json::List(items_view(items@)),
            Value::Record(entries) => Json::Record(entries_view(entries@)),
        }
    }
}

impl Json {
    /// The value under `key`, where this is a record that has one.
    pub open spec fn field(self, key: Seq<char>) -> Option<Json> {
        match self {
            Json::Record(entries) => lookup(entries, key),
            _ => None,
        }
    }

    /// The text under `key`, where this is a record that holds a text there.
    pub open spec fn text_field(self, key: Seq<char>) -> Option<Seq<char>> {
        match self.field(key) {
            Some(Json::Text(s)) => Some(s),
            _ => None,
        }
    }
}

impl Json {
    /// Whether lists and records are nested in this value at most `limit`
    /// deep: a plain value at any limit, a list or a record where the limit
    /// is above zero and what it holds is nested at most one less deep.
    pub open spec fn nests_within(self, limit: nat) -> bool
        decreases limit,
    {
        match self {
            Json::List(items) => limit > 0 && forall|i: int|
                0 <= i < items.len() ==> (#[trigger] items[i]).nests_within((limit - 1) as nat),
            Json::Record(entries) => limit > 0 && forall|i: int|
                0 <= i < entries.len() ==> (#[trigger] entries[i]).1.nests_within(
                    (limit - 1) as nat,
                ),
            _ => true,
        }
    }
}

impl Value {
    /// Whether lists and records are nested in this value at most `limit`
    /// deep.
    #[verifier::loop_isolation(false)]
    pub fn nests_within(&self, limit: usize) -> (r: bool)
        ensures
            r == self@.nests_within(limit as nat),
        decreases limit,
    {
        match self {
            Value::List(items) => {
                if limit == 0 {
                    return false;
                }
                let ghost view = items_view(items@);
                let mut i: usize = 0;
                while i < items.len()
                    invariant
                        i <= items.len(),
                        forall|j: int| 0 <= j < i ==> (#[trigger] view[j]).nests_within(
                            (limit - 1) as nat,
                        ),
                    decreases items.len() - i,
                {
                    assert(view[i as int] == items@[i as int]@);
                    if !items[i].nests_within(limit - 1) {
                        assert(!view[i as int].nests_within((limit - 1) as nat));
                        assert(self@ == Json::List(view));
                        proof {
                            let all = self@->List_0;
                            assert(all == view);
                            if self@.nests_within(limit as nat) {
                                assert(all[i as int].nests_within((limit - 1) as nat));
                            }
                        }
                        return false;
                    }
                    i = i + 1;
                }
                true
            },
            Value::Record(entries) => {
                if limit == 0 {
                    return false;
                }
                let ghost view = entries_view(entries@);
                let mut i: usize = 0;
                while i < entries.len()
                    invariant
                        i <= entries.len(),
                        forall|j: int| 0 <= j < i ==> (#[trigger] view[j]).1.nests_within(
                            (limit - 1) as nat,
                        ),
                    decreases entries.len() - i,
                {
                    assert(view[i as int].1 == entries@[i as int].1@);
                    if !entries[i].1.nests_within(limit - 1) {
                        proof {
                            let all = self@->Record_0;
                            assert(all == view);
                            if self@.nests_within(limit as nat) {
                                assert(all[i as int].1.nests_within((limit - 1) as nat));
                            }
                        }
                        return false;
                    }
                    i = i + 1;
                }
                true
            },
            _ => true,
        }
    }

    /// A copy of this value.
    #[verifier::loop_isolation(false)]
    pub fn copy(&self) -> (r: Value)
        ensures
            r@ == self@,
        decreases self,
    {
        match self {
            Value::Null => Value::Null,
            Value::Bool(b) => Value::Bool(*b),
            Value::Number(positive, mantissa, exponent) => Value::Number(
                *positive,
                *mantissa,
                *exponent,
            ),
            Value::Text(s) => Value::Text(s.clone()),
            Value::List(items) => {
                let mut copies: Vec<Value> = Vec::new();
                let mut i: usize = 0;
                while i < items.len()
                    invariant
                        i <= items.len(),
                        copies.len() == i,
                        forall|j: int| 0 <= j < i ==> copies@[j]@ == items@[j]@,
                    decreases items.len() - i,
                {
                    let c = items[i].copy();
                    copies.push(c);
                    i = i + 1;
                }
                assert(items_view(copies@) =~= items_view(items@));
                Value::List(copies)
            },
            Value::Record(entries) => {
                let mut copies: Vec<(String, Value)> = Vec::new();
                let mut i: usize = 0;
                while i < entries.len()
                    invariant
                        i <= entries.len(),
                        copies.len() == i,
                        forall|j: int|
                            0 <= j < i ==> copies@[j].0@ == entries@[j].0@ && copies@[j].1@
                                == entries@[j].1@,
                    decreases entries.len() - i,
                {
                    let c = entries[i].1.copy();
                    copies.push((entries[i].0.clone(), c));
                    i = i + 1;
                }
                assert(entries_view(copies@) =~= entries_view(entries@));
                Value::Record(copies)
            },
        }
    }

    /// The value under `key`, where this is a record that has one.
    #[verifier::loop_isolation(false)]
    pub fn get(&self, key: &str) -> (r: Option<&Value>)
        ensures
            match r {
                Some(v) => self@.field(key@) == Some(v@) && decreases_to!(self => v),
                None => self@.field(key@).is_none(),
            },
    {
        match self {
            Value::Record(entries) => {
                let mut i: usize = 0;
                while i < entries.len()
                    invariant
                        i <= entries.len(),
                        forall|j: int| 0 <= j < i ==> entries@[j].0@ != key@,
                    decreases entries.len() - i,
                {
                    if same_text(entries[i].0.as_str(), key) {
                        proof {
                            let view = entries_view(entries@);
                            assert forall|j: int| 0 <= j < i implies view[j].0 != key@ by {
                                assert(view[j].0 == entries@[j].0@);
                            }
                            assert(view[i as int].0 == entries@[i as int].0@);
                            lemma_position_is(view, key@, i as int);
                            assert(view[i as int].1 == entries@[i as int].1@);
                        }
                        return Some(&entries[i].1);
                    }
                    i = i + 1;
                }
                proof {
                    let view = entries_view(entries@);
                    assert forall|j: int| 0 <= j < view.len() implies view[j].0 != key@ by {
                        assert(view[j].0 == entries@[j].0@);
                    }
                    lemma_position_is(view, key@, view.len() as int);
                }
                None
            },
            _ => None,
        }
    }

    /// The text that this value is, where it is one.
    pub fn as_text(&self) -> (r: Option<&str>)
        ensures
            match r {
                Some(s) => self@ == Json::Text(s@),
                None => !(self@ is Text),
            },
    {
        match self {
            Value::Text(s) => Some(s.as_str()),
            _ => None,
        }
    }

    /// The text under `key`, where this is a record that holds a text there.
    pub fn get_text(&self, key: &str) -> (r: Option<&str>)
        ensures
            match r {
                Some(s) => self@.text_field(key@) == Some(s@),
                None => self@.text_field(key@).is_none(),
            },
    {
        match self.get(key) {
            Some(v) => v.as_text(),
            None => None,
        }
    }
}

} // verus!
