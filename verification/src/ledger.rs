//! The sync ledger: for each collection, when it was last crawled to its end.

use vstd::prelude::*;
use vstd::string::*;
use crate::codec::{decode, decoded, encode, pretty_json, MAX_DEPTH};
use crate::optional::view_of;
use crate::url::{url_parts, Url, UrlView};
use crate::value::{entries_view, items_view, Json, Value};

verus! {

/// A copy of a time that may be absent.
pub fn copy_stamp(stamp: &Option<String>) -> (r: Option<String>)
    ensures
        view_of(r) == view_of(*stamp),
{
    match stamp {
        Some(text) => Some(text.clone()),
        None => None,
    }
}

/// One line of the ledger: a collection and the time of its last complete
/// crawl, if there was one.
#[derive(Debug, PartialEq, Eq)]
pub struct SyncLedgerEntry {
    pub url: Url,
    pub last_sync: Option<String>,
}

impl View for SyncLedgerEntry {
    type V = (UrlView, Option<Seq<char>>);

    open spec fn view(&self) -> (UrlView, Option<Seq<char>>) {
        (self.url@, view_of(self.last_sync))
    }
}

/// The contents of a list of ledger entries.
pub open spec fn ledger_view(entries: Seq<SyncLedgerEntry>) -> Seq<(UrlView, Option<Seq<char>>)> {
    Seq::new(entries.len(), |i: int| entries[i]@)
}

/// Why a ledger or a list of servers cannot be used.
#[derive(Debug, Clone, Copy, PartialEq, Eq)]
pub enum LedgerError {
    /// The file holds something other than what was written to it.
    Malformed,
}

/// One line of the ledger as a value: a record of the collection's URL
/// under `url` and the time under `last_sync`, null where there is none.
pub open spec fn entry_json(entry: (UrlView, Option<Seq<char>>)) -> Json {
    Json::Record(
        seq![
            ("url"@, Json::Text(entry.0.text)),
            (
                "last_sync"@,
                match entry.1 {
                    Some(stamp) => Json::Text(stamp),
                    None => Json::Null,
                },
            ),
        ],
    )
}

/// The ledger as a value: the list of its lines.
pub open spec fn ledger_json(entries: Seq<(UrlView, Option<Seq<char>>)>) -> Json {
    Json::List(Seq::new(entries.len(), |i: int| entry_json(entries[i])))
}

/// A ledger is nested two deep: a list of records of plain values.
pub proof fn lemma_ledger_is_shallow(entries: Seq<(UrlView, Option<Seq<char>>)>)
    ensures
        ledger_json(entries).nests_within(MAX_DEPTH as nat),
{
    let items = ledger_json(entries)->List_0;
    assert forall|i: int| 0 <= i < items.len() implies (#[trigger] items[i]).nests_within(
        (MAX_DEPTH - 1) as nat,
    ) by {
        let fields = entry_json(entries[i])->Record_0;
        assert(items[i] == Json::Record(fields));
        assert forall|j: int| 0 <= j < fields.len() implies (#[trigger] fields[j]).1.nests_within(
            (MAX_DEPTH - 2) as nat,
        ) by {
            assert(j == 0 || j == 1);
        }
    }
}

/// The time that a line of a stored ledger holds: the text under
/// `last_sync`, or none where there is nothing or null. Anything else
/// there makes the line unreadable.
pub open spec fn stamp_of(item: Json) -> Option<Option<Seq<char>>> {
    match item.field("last_sync"@) {
        None => Some(None),
        Some(Json::Null) => Some(None),
        Some(Json::Text(stamp)) => Some(Some(stamp)),
        _ => None,
    }
}

/// The line that a value of a stored ledger holds, given what the URL
/// parser made of the text under `url`.
pub open spec fn entry_of(item: Json, parsed: Option<UrlView>) -> Option<
    (UrlView, Option<Seq<char>>),
> {
    match (parsed, stamp_of(item)) {
        (Some(url), Some(stamp)) => Some((url, stamp)),
        _ => None,
    }
}

/// The line that a value of a stored ledger holds.
pub open spec fn item_entry(item: Json) -> Option<(UrlView, Option<Seq<char>>)> {
    match item.text_field("url"@) {
        Some(text) => entry_of(item, url_parts(text)),
        None => None,
    }
}

/// The lines that the first `n` values hold, or nothing where one of them
/// holds no line.
pub open spec fn entries_of(items: Seq<Json>, n: int) -> Option<Seq<(UrlView, Option<Seq<char>>)>>
    decreases n,
{
    if n <= 0 || n > items.len() {
        Some(Seq::empty())
    } else {
        match (entries_of(items, n - 1), item_entry(items[n - 1])) {
            (Some(entries), Some(entry)) => Some(entries.push(entry)),
            _ => None,
        }
    }
}

/// The ledger that a value holds: it is a list, and each item holds a line.
pub open spec fn ledger_of_json(value: Json) -> Option<Seq<(UrlView, Option<Seq<char>>)>> {
    match value {
        Json::List(items) => entries_of(items, items.len() as int),
        _ => None,
    }
}

/// The ledger that a stored text holds. No text is an empty ledger: the
/// cache is new. A text that is no JSON or holds no ledger is malformed.
pub open spec fn stored_ledger(text: Option<Seq<char>>) -> Result<
    Seq<(UrlView, Option<Seq<char>>)>,
    LedgerError,
> {
    match text {
        None => Ok(Seq::empty()),
        Some(text) => match decoded(text) {
            Some(value) => match ledger_of_json(value) {
                Some(entries) => Ok(entries),
                None => Err(LedgerError::Malformed),
            },
            None => Err(LedgerError::Malformed),
        },
    }
}

/// Where the first `k` values hold no ledger, more values hold none.
pub proof fn lemma_entries_of_fails(items: Seq<Json>, k: int, n: int)
    requires
        0 <= k <= n <= items.len(),
        entries_of(items, k) is None,
    ensures
        entries_of(items, n) is None,
    decreases n - k,
{
    if k < n {
        lemma_entries_of_fails(items, k, n - 1);
    }
}

impl SyncLedgerEntry {
    /// A copy of this line.
    pub fn copy(&self) -> (r: SyncLedgerEntry)
        ensures
            r@ == self@,
    {
        SyncLedgerEntry { url: self.url.copy(), last_sync: copy_stamp(&self.last_sync) }
    }

    /// This line as a value.
    pub fn to_value(&self) -> (r: Value)
        ensures
            r@ == entry_json(self@),
    {
        let mut entries: Vec<(String, Value)> = Vec::new();
        entries.push((String::from_str("url"), Value::Text(self.url.text.clone())));
        entries.push(
            (
                String::from_str("last_sync"),
                match &self.last_sync {
                    Some(stamp) => Value::Text(stamp.clone()),
                    None => Value::Null,
                },
            ),
        );
        assert(entries_view(entries@) =~= entry_json(self@)->Record_0);
        Value::Record(entries)
    }

    /// Reads a line of a stored ledger, given what the URL parser made of
    /// the text under `url`.
    pub fn from_item(item: &Value, parsed: Option<Url>) -> (r: Option<SyncLedgerEntry>)
        ensures
            match r {
                Some(entry) => entry_of(item@, view_of(parsed)) == Some(entry@),
                None => entry_of(item@, view_of(parsed)) is None,
            },
    {
        let url = match parsed {
            Some(url) => url,
            None => {
                return None;
            },
        };
        let last_sync = match item.get("last_sync") {
            None => None,
            Some(Value::Null) => None,
            Some(Value::Text(stamp)) => Some(stamp.clone()),
            Some(_) => {
                return None;
            },
        };
        Some(SyncLedgerEntry { url, last_sync })
    }
}

/// The ledger as a value.
pub fn ledger_value(entries: &Vec<SyncLedgerEntry>) -> (r: Value)
    ensures
        r@ == ledger_json(ledger_view(entries@)),
{
    let mut items: Vec<Value> = Vec::new();
    let mut i: usize = 0;
    while i < entries.len()
        invariant
            i <= entries.len(),
            items.len() == i,
            forall|j: int| 0 <= j < i ==> items@[j]@ == entry_json(entries@[j]@),
        decreases entries.len() - i,
    {
        items.push(entries[i].to_value());
        i = i + 1;
    }
    assert(items_view(items@) =~= ledger_json(ledger_view(entries@))->List_0);
    Value::List(items)
}

/// Writes the ledger as JSON text.
pub fn write_ledger(entries: &Vec<SyncLedgerEntry>) -> (r: String)
    ensures
        r@ == pretty_json(ledger_json(ledger_view(entries@)), 4),
{
    let value = ledger_value(entries);
    proof {
        lemma_ledger_is_shallow(ledger_view(entries@));
    }
    encode(&value).unwrap()
}

/// The ledger that a value holds.
#[verifier::loop_isolation(false)]
pub fn decode_ledger(value: &Value) -> (r: Option<Vec<SyncLedgerEntry>>)
    ensures
        match r {
            Some(entries) => ledger_of_json(value@) == Some(ledger_view(entries@)),
            None => ledger_of_json(value@) is None,
        },
{
    match value {
        Value::List(items) => {
            let ghost all = items_view(items@);
            let mut entries: Vec<SyncLedgerEntry> = Vec::new();
            let mut i: usize = 0;
            assert(ledger_view(entries@) =~= Seq::empty());
            while i < items.len()
                invariant
                    i <= items.len(),
                    entries_of(all, i as int) == Some(ledger_view(entries@)),
                decreases items.len() - i,
            {
                let ghost before = ledger_view(entries@);
                assert(all[i as int] == items@[i as int]@);
                let entry = match items[i].get_text("url") {
                    Some(text) => SyncLedgerEntry::from_item(&items[i], Url::parse(text)),
                    None => None,
                };
                match entry {
                    Some(entry) => {
                        let ghost content = entry@;
                        entries.push(entry);
                        assert(ledger_view(entries@) =~= before.push(content));
                    },
                    None => {
                        proof {
                            lemma_entries_of_fails(all, i + 1, all.len() as int);
                        }
                        return None;
                    },
                }
                i = i + 1;
            }
            Some(entries)
        },
        _ => None,
    }
}

/// Reads the ledger of the last run. Without a text the ledger is empty.
pub fn read_ledger(text: Option<&str>) -> (r: Result<Vec<SyncLedgerEntry>, LedgerError>)
    ensures
        match r {
            Ok(entries) => stored_ledger(
                view_of(text),
            ) == Ok::<Seq<(UrlView, Option<Seq<char>>)>, LedgerError>(ledger_view(entries@)),
            Err(e) => stored_ledger(
                view_of(text),
            ) == Err::<Seq<(UrlView, Option<Seq<char>>)>, LedgerError>(e),
        },
{
    match text {
        None => {
            let entries: Vec<SyncLedgerEntry> = Vec::new();
            assert(ledger_view(entries@) =~= Seq::empty());
            Ok(entries)
        },
        Some(text) => match decode(text) {
            Some(value) => match decode_ledger(&value) {
                Some(entries) => Ok(entries),
                None => Err(LedgerError::Malformed),
            },
            None => Err(LedgerError::Malformed),
        },
    }
}

} // verus!
