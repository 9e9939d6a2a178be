//! URLs as the cache sees them: the parts of a parsed URL, and the file path
//! under the cache root that a URL is stored at.

use vstd::prelude::*;
use vstd::string::*;
use crate::optional::view_of;
use crate::text::{
    byte_length, decimal, decimal_text, ends_with_slash, fits, same_text, starts_with_slash,
    without_leading_slash, without_trailing_slash,
};

verus! {

/// A parsed absolute URL.
#[derive(Debug, PartialEq, Eq)]
pub struct Url {
    /// The URL as written out by the parser.
    pub text: String,
    /// The scheme, without the colon.
    pub scheme: String,
    /// The host, where the URL has one.
    pub host: Option<String>,
    /// The port, where the URL names one that is not the scheme's default.
    pub port: Option<u16>,
    /// The path, with its leading slash where it has one.
    pub path: String,
    /// The query's name and value pairs, decoded, in their order.
    pub pairs: Vec<(String, String)>,
}

/// What a `Url` holds, as sequences of characters.
pub struct UrlView {
    pub text: Seq<char>,
    pub scheme: Seq<char>,
    pub host: Option<Seq<char>>,
    pub port: Option<u16>,
    pub path: Seq<char>,
    pub pairs: Seq<(Seq<char>, Seq<char>)>,
}

impl View for Url {
    type V = UrlView;

    open spec fn view(&self) -> UrlView {
        UrlView {
            text: self.text@,
            scheme: self.scheme@,
            host: view_of(self.host),
            port: self.port,
            path: self.path@,
            pairs: self.pairs.deep_view(),
        }
    }
}

/// What the URL parser makes of a text: the parts of the URL, or nothing
/// where the text is no absolute URL.
pub uninterp spec fn url_parts(text: Seq<char>) -> Option<UrlView>;

/// The query string that the form encoder writes for a list of pairs.
pub uninterp spec fn form_encoded(pairs: Seq<(Seq<char>, Seq<char>)>) -> Seq<char>;

/// Calls `url::Url::parse` and copies out the parts of the result with
/// `as_str`, `scheme`, `host_str`, `port`, `path` and `query_pairs`. Trusted:
/// that the outcome depends on the text alone.
#[verifier::external_body]
fn parse_parts(text: &str) -> (r: Option<Url>)
    ensures
        match r {
            Some(u) => url_parts(text@) == Some(u@),
            None => url_parts(text@).is_none(),
        },
{
    match url::Url::parse(text) {
        Ok(u) => Some(Url {
            text: u.as_str().to_string(),
            scheme: u.scheme().to_string(),
            host: u.host_str().map(|h| h.to_string()),
            port: u.port(),
            path: u.path().to_string(),
            pairs: u.query_pairs().into_owned().collect(),
        }),
        Err(_) => None,
    }
}

/// Calls `url::form_urlencoded::Serializer` on an empty string: `extend_pairs`
/// with the pairs, then `finish`. Trusted: that the outcome depends on the
/// pairs alone.
#[verifier::external_body]
fn encode_pairs(pairs: &Vec<(String, String)>) -> (r: String)
    ensures
        r@ == form_encoded(pairs.deep_view()),
{
    url::form_urlencoded::Serializer::new(String::new()).extend_pairs(pairs).finish()
}

/// The URL that the parser writes out for a text with one more query pair
/// at the end of its query, or nothing where the text is no absolute URL.
pub uninterp spec fn url_with_pair(text: Seq<char>, name: Seq<char>, value: Seq<char>) -> Option<
    Seq<char>,
>;

/// The longest text, name or value, in bytes, that `with_pair` takes.
pub const MAX_PAIR_BYTES: usize = 0x0fff_ffff;

/// Calls `url::Url::parse_with_params` with one pair and writes the result
/// out with `as_str`. Trusted: that the outcome depends on the three texts
/// alone. The lengths are bounded because the URL type counts its bytes in
/// 32 bits.
#[verifier::external_body]
fn append_pair(text: &str, name: &str, value: &str) -> (r: Option<String>)
    requires
        byte_length(text@) <= MAX_PAIR_BYTES,
        byte_length(name@) <= MAX_PAIR_BYTES,
        byte_length(value@) <= MAX_PAIR_BYTES,
    ensures
        match r {
            Some(t) => url_with_pair(text@, name@, value@) == Some(t@),
            None => url_with_pair(text@, name@, value@).is_none(),
        },
{
    match url::Url::parse_with_params(text, [(name, value)]) {
        Ok(u) => Some(u.as_str().to_string()),
        Err(_) => None,
    }
}

/// Whether a query parameter is one of the transient filters that a cache
/// path leaves out.
pub open spec fn is_filter(name: Seq<char>) -> bool {
    ||| name == "modified_since"@
    ||| name == "modified_until"@
    ||| name == "created_since"@
    ||| name == "created_until"@
}

/// The pairs of a query that are no transient filters, in their order.
pub open spec fn kept_pairs(pairs: Seq<(Seq<char>, Seq<char>)>) -> Seq<(Seq<char>, Seq<char>)>
    decreases pairs.len(),
{
    if pairs.len() == 0 {
        pairs
    } else if is_filter(pairs.last().0) {
        kept_pairs(pairs.drop_last())
    } else {
        kept_pairs(pairs.drop_last()).push(pairs.last())
    }
}

/// The directory of a server: scheme, host and port, joined by colons.
pub open spec fn host_folder(u: UrlView) -> Seq<char> {
    u.scheme + (match u.host {
        Some(h) => seq![':'] + h,
        None => Seq::empty(),
    }) + (match u.port {
        Some(p) => seq![':'] + decimal(p as nat),
        None => Seq::empty(),
    })
}

/// The query that is kept, as text: nothing where no pair is kept, else
/// what the form encoder writes for the kept pairs.
pub open spec fn kept_query_text(u: UrlView) -> Seq<char> {
    if kept_pairs(u.pairs).len() == 0 {
        Seq::empty()
    } else {
        form_encoded(kept_pairs(u.pairs))
    }
}

/// The query as a cache path carries it: `?` and the query, or nothing for
/// an empty query.
pub open spec fn query_part(query: Seq<char>) -> Seq<char> {
    if query.len() > 0 {
        seq!['?'] + query
    } else {
        Seq::empty()
    }
}

/// The path below the cache root of a URL with a given query: the server's
/// directory, a slash, the URL's path without its leading slash and without
/// one trailing slash, the query, and the suffix.
pub open spec fn path_with_query(u: UrlView, query: Seq<char>, suffix: Seq<char>) -> Seq<char> {
    host_folder(u) + seq!['/'] + without_leading_slash(without_trailing_slash(u.path))
        + query_part(query) + suffix
}

/// The path below the cache root at which a URL is stored: its path with
/// the query that is kept.
pub open spec fn cache_path(u: UrlView, suffix: Seq<char>) -> Seq<char> {
    path_with_query(u, kept_query_text(u), suffix)
}

/// Two URLs that agree in scheme, host, port, path and in the query pairs
/// that are no transient filters are stored at the same path.
pub proof fn lemma_filters_leave_cache_path(a: UrlView, b: UrlView, suffix: Seq<char>)
    requires
        a.scheme == b.scheme,
        a.host == b.host,
        a.port == b.port,
        a.path == b.path,
        kept_pairs(a.pairs) == kept_pairs(b.pairs),
    ensures
        cache_path(a, suffix) == cache_path(b, suffix),
{
}

/// Putting a transient filter into a query, at any place, leaves the pairs
/// that are kept as they were.
pub proof fn lemma_filter_pair_is_dropped(
    pairs: Seq<(Seq<char>, Seq<char>)>,
    at: int,
    name: Seq<char>,
    value: Seq<char>,
)
    requires
        0 <= at <= pairs.len(),
        is_filter(name),
    ensures
        kept_pairs(pairs.insert(at, (name, value))) == kept_pairs(pairs),
    decreases pairs.len(),
{
    let longer = pairs.insert(at, (name, value));
    if at == pairs.len() {
        assert(longer.drop_last() =~= pairs);
    } else {
        assert(longer.last() == pairs.last());
        assert(longer.drop_last() =~= pairs.drop_last().insert(at, (name, value)));
        lemma_filter_pair_is_dropped(pairs.drop_last(), at, name, value);
    }
}

/// A URL that differs from another only by one more transient filter in its
/// query is stored at the same path.
pub proof fn lemma_filtered_url_has_same_cache_path(
    a: UrlView,
    b: UrlView,
    at: int,
    name: Seq<char>,
    value: Seq<char>,
    suffix: Seq<char>,
)
    requires
        a.scheme == b.scheme,
        a.host == b.host,
        a.port == b.port,
        a.path == b.path,
        0 <= at <= a.pairs.len(),
        is_filter(name),
        b.pairs == a.pairs.insert(at, (name, value)),
    ensures
        cache_path(a, suffix) == cache_path(b, suffix),
{
    lemma_filter_pair_is_dropped(a.pairs, at, name, value);
}

/// Whether `name` is one of the four transient filters.
pub fn is_filter_name(name: &str) -> (b: bool)
    ensures
        b == is_filter(name@),
{
    same_text(name, "modified_since") || same_text(name, "modified_until") || same_text(
        name,
        "created_since",
    ) || same_text(name, "created_until")
}

impl Url {
    /// Parses an absolute URL.
    pub fn parse(text: &str) -> (r: Option<Url>)
        ensures
            match r {
                Some(u) => url_parts(text@) == Some(u@),
                None => url_parts(text@).is_none(),
            },
    {
        parse_parts(text)
    }

    /// The URL that `text` is with one more pair at the end of its query.
    /// There is none where the text, the name or the value is longer than
    /// `MAX_PAIR_BYTES`, or where the text is no URL.
    pub open spec fn extended(text: Seq<char>, name: Seq<char>, value: Seq<char>) -> Option<
        UrlView,
    > {
        if byte_length(text) <= MAX_PAIR_BYTES && byte_length(name) <= MAX_PAIR_BYTES
            && byte_length(value) <= MAX_PAIR_BYTES {
            match url_with_pair(text, name, value) {
                Some(longer) => url_parts(longer),
                None => None,
            }
        } else {
            None
        }
    }

    /// This URL with one more pair at the end of its query.
    pub fn with_pair(&self, name: &str, value: &str) -> (r: Option<Url>)
        ensures
            match r {
                Some(u) => Url::extended(self@.text, name@, value@) == Some(u@),
                None => Url::extended(self@.text, name@, value@).is_none(),
            },
    {
        if !fits(self.text.as_str(), MAX_PAIR_BYTES) || !fits(name, MAX_PAIR_BYTES) || !fits(
            value,
            MAX_PAIR_BYTES,
        ) {
            return None;
        }
        match append_pair(self.text.as_str(), name, value) {
            Some(longer) => Url::parse(longer.as_str()),
            None => None,
        }
    }

    /// A copy of this URL.
    pub fn copy(&self) -> (r: Url)
        ensures
            r@ == self@,
    {
        let mut pairs: Vec<(String, String)> = Vec::new();
        let mut i: usize = 0;
        while i < self.pairs.len()
            invariant
                i <= self.pairs.len(),
                pairs.len() == i,
                forall|j: int| 0 <= j < i ==> pairs@[j].0@ == self.pairs@[j].0@ && pairs@[j].1@
                    == self.pairs@[j].1@,
            decreases self.pairs.len() - i,
        {
            pairs.push((self.pairs[i].0.clone(), self.pairs[i].1.clone()));
            i = i + 1;
        }
        assert(pairs.deep_view() =~= self.pairs.deep_view());
        Url {
            text: self.text.clone(),
            scheme: self.scheme.clone(),
            host: match &self.host {
                Some(h) => Some(h.clone()),
                None => None,
            },
            port: self.port,
            path: self.path.clone(),
            pairs,
        }
    }

    /// The URL as text.
    pub fn as_str(&self) -> (r: &str)
        ensures
            r@ == self@.text,
    {
        self.text.as_str()
    }

    /// The query pairs that are no transient filters, in their order.
    pub fn kept_query(&self) -> (kept: Vec<(String, String)>)
        ensures
            kept.deep_view() == kept_pairs(self@.pairs),
    {
        let mut kept: Vec<(String, String)> = Vec::new();
        let mut i: usize = 0;
        assert(self.pairs.deep_view().take(0) =~= Seq::empty());
        assert(kept.deep_view() =~= Seq::empty());
        while i < self.pairs.len()
            invariant
                i <= self.pairs.len(),
                kept.deep_view() == kept_pairs(self.pairs.deep_view().take(i as int)),
            decreases self.pairs.len() - i,
        {
            let ghost before = kept.deep_view();
            let ghost all = self.pairs.deep_view();
            assert(all.take(i + 1).drop_last() =~= all.take(i as int));
            assert(all.take(i + 1).last() == all[i as int]);
            assert(all[i as int] == (self.pairs[i as int].0@, self.pairs[i as int].1@));
            if !is_filter_name(self.pairs[i].0.as_str()) {
                let pair = (self.pairs[i].0.clone(), self.pairs[i].1.clone());
                kept.push(pair);
                assert(kept.deep_view() =~= before.push(all[i as int]));
            }
            i = i + 1;
        }
        assert(self.pairs.deep_view().take(i as int) =~= self.pairs.deep_view());
        kept
    }

    /// The directory of this URL's server below the cache root.
    pub fn host_folder(&self) -> (r: String)
        ensures
            r@ == host_folder(self@),
    {
        let mut r = self.scheme.clone();
        proof {
            reveal_strlit(":");
        }
        match &self.host {
            Some(h) => {
                r.append(":");
                r.append(h.as_str());
            },
            None => {},
        }
        match self.port {
            Some(p) => {
                r.append(":");
                let digits = decimal_text(p);
                r.append(digits.as_str());
            },
            None => {},
        }
        assert(r@ =~= host_folder(self@));
        r
    }

    /// The path below the cache root at which this URL is stored, with the
    /// given suffix.
    pub fn cache_path(&self, suffix: &str) -> (r: String)
        ensures
            r@ == cache_path(self@, suffix@),
    {
        let query = self.kept_query_text();
        self.path_with_query(query.as_str(), suffix)
    }

    /// The query that is kept, as text. The encoder is asked only where a
    /// pair is kept.
    pub fn kept_query_text(&self) -> (r: String)
        ensures
            r@ == kept_query_text(self@),
    {
        let kept = self.kept_query();
        if kept.len() == 0 {
            String::new()
        } else {
            encode_pairs(&kept)
        }
    }

    /// The path below the cache root of this URL with the given query in
    /// place of its own, and the given suffix.
    pub fn path_with_query(&self, query: &str, suffix: &str) -> (r: String)
        ensures
            r@ == path_with_query(self@, query@, suffix@),
    {
        let mut r = self.host_folder();
        proof {
            reveal_strlit("/");
            reveal_strlit("?");
        }
        r.append("/");
        let path: &str = self.path.as_str();
        let n: usize = path.unicode_len();
        let to: usize = if ends_with_slash(path) { n - 1 } else { n };
        let from: usize = if to > 0 && starts_with_slash(path) { 1 } else { 0 };
        assert(path@.subrange(from as int, to as int) =~= without_leading_slash(
            without_trailing_slash(path@),
        ));
        r.append(path.substring_char(from, to));
        if query.unicode_len() > 0 {
            r.append("?");
            r.append(query);
        }
        r.append(suffix);
        assert(r@ =~= path_with_query(self@, query@, suffix@));
        r
    }
}

} // verus!
