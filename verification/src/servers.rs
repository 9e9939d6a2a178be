//! The list of the servers that a cache holds: the entrypoints, in the
//! order in which they were first cached, none of them twice.

use vstd::prelude::*;
use vstd::string::*;
use crate::ledger::LedgerError;
use crate::optional::view_of;
use crate::text::same_text;
use crate::url::{url_parts, Url, UrlView};

verus! {

/// What the JSON reader makes of a text as a list of strings: the strings,
/// or nothing where the text is no such list.
pub uninterp spec fn parsed_string_list(text: Seq<char>) -> Option<Seq<Seq<char>>>;

/// The JSON text that the printer writes for a list of strings, where it
/// writes one.
pub uninterp spec fn string_list_json(list: Seq<Seq<char>>) -> Option<Seq<char>>;

/// Calls `serde_json::from_str` for a `Vec<String>`. Trusted: that the
/// outcome depends on the text alone.
#[verifier::external_body]
fn parse_string_list(text: &str) -> (r: Option<Vec<String>>)
    ensures
        match r {
            Some(list) => parsed_string_list(text@) == Some(list.deep_view()),
            None => parsed_string_list(text@) is None,
        },
{
    serde_json::from_str::<Vec<String>>(text).ok()
}

/// Calls `serde_json::to_string_pretty` on a `Vec<String>`. Trusted: that
/// the outcome depends on the list alone.
#[verifier::external_body]
fn render_string_list(list: &Vec<String>) -> (r: Option<String>)
    ensures
        match r {
            Some(text) => string_list_json(list.deep_view()) == Some(text@),
            None => string_list_json(list.deep_view()) is None,
        },
{
    serde_json::to_string_pretty(list).ok()
}

/// The contents of a list of URLs.
pub open spec fn urls_view(urls: Seq<Url>) -> Seq<UrlView> {
    Seq::new(urls.len(), |i: int| urls[i]@)
}

/// The texts of a list of URLs.
pub open spec fn texts_of(urls: Seq<UrlView>) -> Seq<Seq<char>> {
    Seq::new(urls.len(), |i: int| urls[i].text)
}

/// The URLs that the first `n` texts are, or nothing where one of them is
/// no URL.
pub open spec fn urls_of(texts: Seq<Seq<char>>, n: int) -> Option<Seq<UrlView>>
    decreases n,
{
    if n <= 0 || n > texts.len() {
        Some(Seq::empty())
    } else {
        match (urls_of(texts, n - 1), url_parts(texts[n - 1])) {
            (Some(urls), Some(url)) => Some(urls.push(url)),
            _ => None,
        }
    }
}

/// The servers that a stored text lists. No text is an empty list: the
/// cache is new. A text that is no list of URLs is malformed.
pub open spec fn stored_servers(text: Option<Seq<char>>) -> Result<Seq<UrlView>, LedgerError> {
    match text {
        None => Ok(Seq::empty()),
        Some(text) => match parsed_string_list(text) {
            Some(texts) => match urls_of(texts, texts.len() as int) {
                Some(urls) => Ok(urls),
                None => Err(LedgerError::Malformed),
            },
            None => Err(LedgerError::Malformed),
        },
    }
}

/// Whether a list of servers holds the server at `entrypoint`.
pub open spec fn lists_server(servers: Seq<UrlView>, entrypoint: UrlView) -> bool {
    exists|i: int| 0 <= i < servers.len() && (#[trigger] servers[i]).text == entrypoint.text
}

/// The list after a server was cached: the server stands at its end,
/// unless the list held it already.
pub open spec fn registered(servers: Seq<UrlView>, entrypoint: UrlView) -> Seq<UrlView> {
    if lists_server(servers, entrypoint) {
        servers
    } else {
        servers.push(entrypoint)
    }
}

/// Registering a server keeps what the list held, in its order, and
/// registering it again changes nothing.
pub proof fn lemma_registered(servers: Seq<UrlView>, entrypoint: UrlView)
    ensures
        registered(servers, entrypoint).take(servers.len() as int) == servers,
        lists_server(registered(servers, entrypoint), entrypoint),
        registered(registered(servers, entrypoint), entrypoint) == registered(
            servers,
            entrypoint,
        ),
{
    let after = registered(servers, entrypoint);
    assert(after.take(servers.len() as int) =~= servers);
    if !lists_server(servers, entrypoint) {
        assert(after[servers.len() as int].text == entrypoint.text);
    }
}

/// Where the first `k` texts are not all URLs, more texts are not either.
pub proof fn lemma_urls_of_fails(texts: Seq<Seq<char>>, k: int, n: int)
    requires
        0 <= k <= n <= texts.len(),
        urls_of(texts, k) is None,
    ensures
        urls_of(texts, n) is None,
    decreases n - k,
{
    if k < n {
        lemma_urls_of_fails(texts, k, n - 1);
    }
}

/// The URLs that a list of texts holds.
pub fn urls_from(texts: &Vec<String>) -> (r: Option<Vec<Url>>)
    ensures
        match r {
            Some(urls) => urls_of(texts.deep_view(), texts@.len() as int) == Some(
                urls_view(urls@),
            ),
            None => urls_of(texts.deep_view(), texts@.len() as int) is None,
        },
{
    let ghost all = texts.deep_view();
    let mut urls: Vec<Url> = Vec::new();
    let mut i: usize = 0;
    assert(urls_view(urls@) =~= Seq::empty());
    while i < texts.len()
        invariant
            i <= texts.len(),
            all == texts.deep_view(),
            urls_of(all, i as int) == Some(urls_view(urls@)),
        decreases texts.len() - i,
    {
        let ghost before = urls_view(urls@);
        assert(all[i as int] == texts@[i as int]@);
        match Url::parse(texts[i].as_str()) {
            Some(url) => {
                let ghost content = url@;
                urls.push(url);
                assert(urls_view(urls@) =~= before.push(content));
            },
            None => {
                proof {
                    lemma_urls_of_fails(all, i + 1, all.len() as int);
                }
                return None;
            },
        }
        i = i + 1;
    }
    Some(urls)
}

/// Reads the list of servers. Without a text the list is empty.
pub fn read_servers(text: Option<&str>) -> (r: Result<Vec<Url>, LedgerError>)
    ensures
        match r {
            Ok(urls) => stored_servers(
                view_of(text),
            ) == Ok::<Seq<UrlView>, LedgerError>(urls_view(urls@)),
            Err(e) => stored_servers(view_of(text)) == Err::<Seq<UrlView>, LedgerError>(e),
        },
{
    match text {
        None => {
            let urls: Vec<Url> = Vec::new();
            assert(urls_view(urls@) =~= Seq::empty());
            Ok(urls)
        },
        Some(text) => match parse_string_list(text) {
            Some(texts) => match urls_from(&texts) {
                Some(urls) => Ok(urls),
                None => Err(LedgerError::Malformed),
            },
            None => Err(LedgerError::Malformed),
        },
    }
}

/// Puts the server at `entrypoint` at the end of the list, unless the list
/// holds it. Says whether the list grew.
pub fn register_server(servers: &mut Vec<Url>, entrypoint: &Url) -> (added: bool)
    ensures
        urls_view(final(servers)@) == registered(urls_view(old(servers)@), entrypoint@),
        added == !lists_server(urls_view(old(servers)@), entrypoint@),
{
    let mut i: usize = 0;
    while i < servers.len()
        invariant
            i <= servers.len(),
            forall|j: int| 0 <= j < i ==> urls_view(servers@)[j].text != entrypoint@.text,
        decreases servers.len() - i,
    {
        if same_text(servers[i].as_str(), entrypoint.as_str()) {
            assert(urls_view(servers@)[i as int].text == entrypoint@.text);
            return false;
        }
        i = i + 1;
    }
    let ghost before = urls_view(servers@);
    servers.push(entrypoint.copy());
    assert(urls_view(servers@) =~= before.push(entrypoint@));
    true
}

/// Writes the list of servers as JSON text: the list of their URLs.
pub fn write_servers(servers: &Vec<Url>) -> (r: Option<String>)
    ensures
        match r {
            Some(text) => string_list_json(texts_of(urls_view(servers@))) == Some(text@),
            None => string_list_json(texts_of(urls_view(servers@))) is None,
        },
{
    let mut texts: Vec<String> = Vec::new();
    let mut i: usize = 0;
    while i < servers.len()
        invariant
            i <= servers.len(),
            texts.len() == i,
            forall|j: int| 0 <= j < i ==> texts@[j]@ == servers@[j]@.text,
        decreases servers.len() - i,
    {
        texts.push(servers[i].text.clone());
        i = i + 1;
    }
    assert(texts.deep_view() =~= texts_of(urls_view(servers@)));
    render_string_list(&texts)
}

} // verus!
