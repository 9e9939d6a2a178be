//! A paginated collection as a sequence of objects: the items of each page
//! in their order, page after page along the links to the next page.
//!
//! The list does no fetching itself. `next` hands out a buffered item or
//! asks for a page; the page that was fetched comes back through `deliver`,
//! a failure to fetch it through `fail`.

use vstd::prelude::*;
use vstd::string::*;
use crate::optional::view_of;
use crate::url::{url_parts, Url};
use crate::value::{items_view, Json, Value};

verus! {

/// What a page says of its place among the pages of its collection. Nothing
/// of it is read.
#[derive(Debug, Clone, Copy, PartialEq, Eq)]
pub struct ExternalListPagination {}

/// The links of a page as a type of their own. Nothing is kept in it: the
/// link to the next page is read from the page itself.
#[derive(Debug, Clone, Copy, PartialEq, Eq)]
pub struct ExternalListLinks {}

/// Where a list stands.
#[derive(Debug, Clone, Copy, PartialEq, Eq)]
pub enum ListState {
    /// No page has been asked for yet.
    NotStarted,
    /// Items of the last page wait to be handed out.
    HasBufferedItems,
    /// The items are handed out and a next page is to be fetched.
    FetchingNextPage,
    /// The last page had no link to a next one and its items are handed out.
    Exhausted,
    /// A page could not be fetched.
    Errored,
}

/// What a pull on the list gives.
#[derive(Debug, PartialEq, Eq)]
pub enum Pull {
    /// The next object of the collection.
    Item(Value),
    /// The page at this URL has to be fetched and delivered.
    Fetch(String),
    /// The collection has no more objects.
    End,
}

/// The content of a `Pull`.
pub enum PullView {
    Item(Json),
    Fetch(Seq<char>),
    End,
}

impl View for Pull {
    type V = PullView;

    open spec fn view(&self) -> PullView {
        match self {
            Pull::Item(value) => PullView::Item(value@),
            Pull::Fetch(url) => PullView::Fetch(url@),
            Pull::End => PullView::End,
        }
    }
}

/// A paginated collection that is being read.
pub struct ExternalList {
    state: ListState,
    page_link: Option<String>,
    objects: Vec<Value>,
}

/// The content of an `ExternalList`: its state, the URL of the page to
/// fetch next, and the items that wait to be handed out.
pub struct ListView {
    pub state: ListState,
    pub link: Option<Seq<char>>,
    pub buffer: Seq<Json>,
}

impl ListView {
    /// Whether a page is awaited or yet to be asked for.
    pub open spec fn fetching(self) -> bool {
        self.state is NotStarted || self.state is FetchingNextPage
    }

    /// The state fits the buffer and the link.
    pub open spec fn wf(self) -> bool {
        match self.state {
            ListState::NotStarted | ListState::FetchingNextPage => self.buffer.len() == 0
                && self.link is Some,
            ListState::HasBufferedItems => self.buffer.len() > 0,
            ListState::Exhausted | ListState::Errored => self.buffer.len() == 0
                && self.link is None,
        }
    }

    /// The state in which a list with this buffer and link is, once a page
    /// has been delivered.
    pub open spec fn settled(link: Option<Seq<char>>, buffer: Seq<Json>) -> ListView {
        ListView {
            state: if buffer.len() > 0 {
                ListState::HasBufferedItems
            } else if link is Some {
                ListState::FetchingNextPage
            } else {
                ListState::Exhausted
            },
            link,
            buffer,
        }
    }

    /// What a pull gives: the first buffered item; without one, the request
    /// for the next page; without a next page, the end.
    pub open spec fn pull(self) -> PullView {
        if self.buffer.len() > 0 {
            PullView::Item(self.buffer[0])
        } else {
            match self.link {
                Some(url) => PullView::Fetch(url),
                None => PullView::End,
            }
        }
    }

    /// The list after a pull.
    pub open spec fn pulled(self) -> ListView {
        if self.buffer.len() > 0 {
            ListView::settled(self.link, self.buffer.drop_first())
        } else if self.link is Some {
            ListView { state: ListState::FetchingNextPage, ..self }
        } else {
            self
        }
    }

    /// The list after a page was delivered: its items are buffered and its
    /// link to the next page, if any, is what is fetched next. A page that
    /// was not awaited changes nothing.
    pub open spec fn delivered(self, items: Seq<Json>, next: Option<Seq<char>>) -> ListView {
        if self.fetching() {
            ListView::settled(next, items)
        } else {
            self
        }
    }

    /// The list after a page could not be fetched.
    pub open spec fn failed(self) -> ListView {
        if self.fetching() {
            ListView { state: ListState::Errored, link: None, buffer: Seq::empty() }
        } else {
            self
        }
    }
}

/// The items of a page: the list under `data`, or none where `data` is no
/// list.
pub open spec fn page_items(page: Json) -> Seq<Json> {
    match page.field("data"@) {
        Some(Json::List(items)) => items,
        _ => Seq::empty(),
    }
}

/// The text under `next` in the record under `links` of a page.
pub open spec fn page_next(page: Json) -> Option<Seq<char>> {
    match page.field("links"@) {
        Some(links) => links.text_field("next"@),
        None => None,
    }
}

/// The URL of the page after a page: the text under `links`, `next`, as
/// the URL parser writes it out; none where there is no such text or it is
/// no URL.
pub open spec fn page_link(page: Json) -> Option<Seq<char>> {
    match page_next(page) {
        Some(text) => match url_parts(text) {
            Some(url) => Some(url.text),
            None => None,
        },
        None => None,
    }
}

/// An empty page that links to a next page does not end the list: the next
/// pull asks for that page. A page ends the list only where it has neither
/// items nor a link.
pub proof fn lemma_empty_page_is_followed(list: ListView, next: Option<Seq<char>>)
    requires
        list.wf(),
        list.fetching(),
    ensures
        list.delivered(Seq::empty(), next).wf(),
        next is Some ==> list.delivered(Seq::empty(), next).pull() == PullView::Fetch(next->Some_0),
        next is None <==> list.delivered(Seq::empty(), next).pull() == PullView::End,
{
}

/// After a page was delivered, the pulls hand out its items in their order
/// before anything else.
pub proof fn lemma_items_come_in_order(list: ListView, items: Seq<Json>, n: int)
    requires
        0 <= n < items.len(),
    ensures
        pulled_times(ListView::settled(list.link, items), n).buffer == items.skip(n),
        pulled_times(ListView::settled(list.link, items), n).pull() == PullView::Item(items[n]),
        pulled_times(ListView::settled(list.link, items), n).link == list.link,
    decreases n,
{
    if n > 0 {
        lemma_items_come_in_order(list, items, n - 1);
        assert(items.skip(n - 1).drop_first() =~= items.skip(n));
    } else {
        assert(items.skip(0) =~= items);
    }
}

/// The list after `n` pulls.
pub open spec fn pulled_times(list: ListView, n: int) -> ListView
    decreases n,
{
    if n <= 0 {
        list
    } else {
        pulled_times(list, n - 1).pulled()
    }
}

/// A list that is exhausted or has failed does not start again: it hands
/// out nothing, and neither a pull nor a page changes it.
pub proof fn lemma_ended_list_stays_ended(list: ListView, items: Seq<Json>, next: Option<Seq<char>>)
    requires
        list.wf(),
        list.state is Exhausted || list.state is Errored,
    ensures
        list.pull() == PullView::End,
        list.pulled() == list,
        list.delivered(items, next) == list,
        list.failed() == list,
{
}

/// The items of a sequence of pages, page after page.
pub open spec fn all_items(pages: Seq<(Seq<Json>, Option<Seq<char>>)>) -> Seq<Json>
    decreases pages.len(),
{
    if pages.len() == 0 {
        Seq::empty()
    } else {
        pages[0].0 + all_items(pages.drop_first())
    }
}

/// What a list hands out when it is pulled on until it ends, where the pages
/// that it asks for come as `pages`, each by its items and its link to the
/// next page. A page that is asked for and does not come ends the list.
pub open spec fn drained(list: ListView, pages: Seq<(Seq<Json>, Option<Seq<char>>)>) -> Seq<Json>
    decreases pages.len(), list.buffer.len(),
{
    match list.pull() {
        PullView::Item(item) => seq![item] + drained(list.pulled(), pages),
        PullView::Fetch(_) => if pages.len() > 0 {
            drained(list.pulled().delivered(pages[0].0, pages[0].1), pages.drop_first())
        } else {
            Seq::empty()
        },
        PullView::End => Seq::empty(),
    }
}

/// A list hands out what it has buffered and then all the items of all the
/// pages that follow, in the order of the pages, where every page but the
/// last links to a next page. An empty page with a link is followed like
/// any other.
pub proof fn lemma_every_page_is_handed_out(
    list: ListView,
    pages: Seq<(Seq<Json>, Option<Seq<char>>)>,
)
    requires
        list.wf(),
        pages.len() > 0 ==> list.link is Some,
        forall|i: int| 0 <= i < pages.len() - 1 ==> (#[trigger] pages[i]).1 is Some,
    ensures
        drained(list, pages) == list.buffer + all_items(pages),
    decreases pages.len(), list.buffer.len(),
{
    if list.buffer.len() > 0 {
        lemma_every_page_is_handed_out(list.pulled(), pages);
        assert(seq![list.buffer[0]] + (list.buffer.drop_first() + all_items(pages))
            =~= list.buffer + all_items(pages));
    } else if list.link is Some && pages.len() > 0 {
        let rest = pages.drop_first();
        let next = list.pulled().delivered(pages[0].0, pages[0].1);
        assert forall|i: int| 0 <= i < rest.len() - 1 implies (#[trigger] rest[i]).1 is Some by {
            assert(rest[i] == pages[i + 1]);
        }
        if rest.len() > 0 {
            assert(pages[0].1 is Some);
        }
        lemma_every_page_is_handed_out(next, rest);
        assert(list.buffer + all_items(pages) =~= pages[0].0 + all_items(rest));
    } else {
        assert(list.buffer + all_items(pages) =~= Seq::<Json>::empty());
    }
}

impl View for ExternalList {
    type V = ListView;

    closed spec fn view(&self) -> ListView {
        ListView {
            state: self.state,
            link: view_of(self.page_link),
            buffer: items_view(self.objects@),
        }
    }
}

impl ExternalList {
    /// The collection at `url`, before its first page is asked for.
    pub fn new(url: &Url) -> (r: ExternalList)
        ensures
            r@.wf(),
            r@ == (ListView {
                state: ListState::NotStarted,
                link: Some(url@.text),
                buffer: Seq::empty(),
            }),
    {
        let r = ExternalList {
            state: ListState::NotStarted,
            page_link: Some(url.text.clone()),
            objects: Vec::new(),
        };
        assert(r@.buffer =~= Seq::<Json>::empty());
        r
    }

    /// Where the list stands.
    pub fn state(&self) -> (s: ListState)
        ensures
            s == self@.state,
    {
        self.state
    }

    /// Sets the state that fits the buffer and the link.
    fn settle(&mut self)
        ensures
            final(self)@ == ListView::settled(old(self)@.link, old(self)@.buffer),
            final(self)@.wf(),
    {
        if self.objects.len() > 0 {
            self.state = ListState::HasBufferedItems;
        } else if self.page_link.is_some() {
            self.state = ListState::FetchingNextPage;
        } else {
            self.state = ListState::Exhausted;
        }
    }

    /// Pulls on the list.
    pub fn next(&mut self) -> (r: Pull)
        requires
            old(self)@.wf(),
        ensures
            final(self)@.wf(),
            r@ == old(self)@.pull(),
            final(self)@ == old(self)@.pulled(),
    {
        if self.objects.len() > 0 {
            let ghost before = self@.buffer;
            let item = self.objects.remove(0);
            assert(self@.buffer =~= before.drop_first());
            assert(item@ == before[0]);
            self.settle();
            Pull::Item(item)
        } else {
            match &self.page_link {
                Some(url) => {
                    let url = url.clone();
                    self.state = ListState::FetchingNextPage;
                    Pull::Fetch(url)
                },
                None => Pull::End,
            }
        }
    }

    /// Takes the items of the page that was fetched, and the URL of the
    /// page after it.
    pub fn deliver_page(&mut self, items: Vec<Value>, next: Option<Url>)
        requires
            old(self)@.wf(),
        ensures
            final(self)@.wf(),
            final(self)@ == old(self)@.delivered(
                items_view(items@),
                match next {
                    Some(url) => Some(url@.text),
                    None => None,
                },
            ),
    {
        match self.state {
            ListState::NotStarted | ListState::FetchingNextPage => {
                self.objects = items;
                self.page_link = match next {
                    Some(url) => Some(url.text),
                    None => None,
                };
                self.settle();
            },
            _ => {},
        }
    }

    /// Takes the page that was fetched: its items are the list under
    /// `data`, and the page after it is at the URL under `links`, `next`.
    #[verifier::loop_isolation(false)]
    pub fn deliver(&mut self, page: &Value)
        requires
            old(self)@.wf(),
        ensures
            final(self)@.wf(),
            final(self)@ == old(self)@.delivered(page_items(page@), page_link(page@)),
    {
        let mut items: Vec<Value> = Vec::new();
        assert(items_view(items@) =~= Seq::<Json>::empty());
        match page.get("data") {
            Some(Value::List(data)) => {
                let mut i: usize = 0;
                while i < data.len()
                    invariant
                        i <= data.len(),
                        items.len() == i,
                        forall|j: int| 0 <= j < i ==> items@[j]@ == data@[j]@,
                    decreases data.len() - i,
                {
                    items.push(data[i].copy());
                    i = i + 1;
                }
                assert(items_view(items@) =~= items_view(data@));
            },
            _ => {},
        }
        let next = match page.get("links") {
            Some(links) => match links.get_text("next") {
                Some(text) => Url::parse(text),
                None => None,
            },
            None => None,
        };
        self.deliver_page(items, next);
    }

    /// Takes note that the page could not be fetched: the list has ended.
    pub fn fail(&mut self)
        requires
            old(self)@.wf(),
        ensures
            final(self)@.wf(),
            final(self)@ == old(self)@.failed(),
    {
        match self.state {
            ListState::NotStarted | ListState::FetchingNextPage => {
                self.state = ListState::Errored;
                self.page_link = None;
                self.objects = Vec::new();
                assert(self@.buffer =~= Seq::<Json>::empty());
            },
            _ => {},
        }
    }
}

} // verus!
