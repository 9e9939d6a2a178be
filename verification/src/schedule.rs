//! Crawls from their beginning to their end: that a crawl comes to its end
//! whatever the collections refer to, as long as they are finitely many.

use vstd::prelude::*;
use crate::assoc::{lemma_position, lemma_position_is, position};
use crate::coordinator::{
    count_in_flight, count_settled, key_of, lemma_completed, lemma_count_bounds, lemma_count_push,
    lemma_dispatched, lemma_enqueued, lemma_progress_is_bounded, CoordinatorView, JobView, Status,
};
use crate::url::UrlView;

verus! {

/// The state after the first `n` of the collections that a worker found
/// were taken note of.
pub open spec fn noted(c: CoordinatorView, found: Seq<UrlView>, n: int) -> CoordinatorView
    decreases n,
{
    if n <= 0 || n > found.len() {
        c
    } else {
        noted(c, found, n - 1).enqueued(found[n - 1], None)
    }
}

/// The state after a worker has crawled a collection: what it found was
/// taken note of, and then its report.
pub open spec fn crawled(
    c: CoordinatorView,
    key: Seq<char>,
    found: Seq<UrlView>,
    this_sync: Option<Seq<char>>,
) -> CoordinatorView {
    noted(c, found, found.len() as int).completed(key, this_sync)
}

/// A world for a crawl to run in: what a crawl of each collection finds,
/// how it ends, and which of the workers that are busy is the next to
/// report.
pub struct World {
    pub refers: spec_fn(Seq<char>) -> Seq<UrlView>,
    pub outcome: spec_fn(Seq<char>) -> Option<Seq<char>>,
    pub pick: spec_fn(CoordinatorView) -> int,
}

impl World {
    /// Every collection refers only to collections of `universe`, and
    /// `pick` picks a collection that is in flight where there is one.
    pub open spec fn fits(self, universe: Set<Seq<char>>) -> bool {
        &&& forall|key: Seq<char>, i: int|
            0 <= i < (self.refers)(key).len() ==> universe.contains(
                key_of(#[trigger] (self.refers)(key)[i]),
            )
        &&& forall|c: CoordinatorView|
            c.wf() && c.in_flight >= 1 ==> 0 <= #[trigger] (self.pick)(c) < c.jobs.len()
                && c.jobs[(self.pick)(c)].1.status is InFlight
    }

    /// One turn of the crawl: a collection is dispatched where that can be
    /// done; else the worker that is picked finishes its crawl; and where
    /// no worker is busy, nothing happens any more.
    pub open spec fn turn(self, c: CoordinatorView) -> CoordinatorView {
        if c.can_dispatch() {
            c.dispatched()
        } else if c.in_flight >= 1 {
            let key = c.jobs[(self.pick)(c)].0;
            crawled(c, key, (self.refers)(key), (self.outcome)(key))
        } else {
            c
        }
    }

    /// The state after `n` turns.
    pub open spec fn turns(self, c: CoordinatorView, n: nat) -> CoordinatorView
        decreases n,
    {
        if n == 0 {
            c
        } else {
            self.turn(self.turns(c, (n - 1) as nat))
        }
    }
}

/// Whether every known collection is one of `universe`.
pub open spec fn within(c: CoordinatorView, universe: Set<Seq<char>>) -> bool {
    forall|i: int| 0 <= i < c.jobs.len() ==> universe.contains((#[trigger] c.jobs[i]).0)
}

/// How many collections have been dispatched or reported on, each counted
/// for both.
pub open spec fn handled(c: CoordinatorView) -> nat {
    c.cursor + count_settled(c.jobs)
}

/// Taking note of what a worker found keeps the state sound and within the
/// universe, keeps the collections that were known in their places, and
/// dispatches and settles nothing.
pub proof fn lemma_noted(
    c: CoordinatorView,
    found: Seq<UrlView>,
    n: int,
    universe: Set<Seq<char>>,
)
    requires
        c.wf(),
        within(c, universe),
        forall|i: int| 0 <= i < found.len() ==> universe.contains(key_of(#[trigger] found[i])),
    ensures
        noted(c, found, n).wf(),
        within(noted(c, found, n), universe),
        noted(c, found, n).cursor == c.cursor,
        noted(c, found, n).in_flight == c.in_flight,
        noted(c, found, n).capacity == c.capacity,
        count_settled(noted(c, found, n).jobs) == count_settled(c.jobs),
        noted(c, found, n).jobs.len() >= c.jobs.len(),
        forall|i: int| 0 <= i < c.jobs.len() ==> noted(c, found, n).jobs[i] == c.jobs[i],
    decreases n,
{
    if 0 < n <= found.len() {
        lemma_noted(c, found, n - 1, universe);
        let before = noted(c, found, n - 1);
        let url = found[n - 1];
        lemma_enqueued(before, url, None);
        lemma_position(before.jobs, key_of(url));
        if position(before.jobs, key_of(url)) >= before.jobs.len() {
            lemma_count_push(
                before.jobs,
                (key_of(url), JobView { url, last_sync: None, status: Status::Queued }),
            );
        }
    }
}

/// Where a crawl is not over, a turn handles one more collection, and the
/// state stays sound and within the universe. Where it is over, a turn
/// changes nothing.
pub proof fn lemma_turn(world: World, c: CoordinatorView, universe: Set<Seq<char>>)
    requires
        c.wf(),
        within(c, universe),
        world.fits(universe),
    ensures
        world.turn(c).wf(),
        within(world.turn(c), universe),
        c.finished() ==> world.turn(c) == c,
        !c.finished() ==> handled(world.turn(c)) == handled(c) + 1,
{
    if c.can_dispatch() {
        lemma_dispatched(c);
    } else if c.in_flight >= 1 {
        let at = (world.pick)(c);
        let key = c.jobs[at].0;
        let found = (world.refers)(key);
        lemma_noted(c, found, found.len() as int, universe);
        let after = noted(c, found, found.len() as int);
        assert(after.jobs[at] == c.jobs[at]);
        assert forall|i: int| 0 <= i < at implies after.jobs[i].0 != key by {
            assert(after.jobs[i].0 != after.jobs[at].0);
        }
        lemma_position_is(after.jobs, key, at);
        lemma_completed(after, key, (world.outcome)(key));
        let done = after.completed(key, (world.outcome)(key));
        assert(done != after);
        assert(done.jobs.len() == after.jobs.len());
        assert forall|i: int| 0 <= i < done.jobs.len() implies universe.contains(
            (#[trigger] done.jobs[i]).0,
        ) by {
            assert(done.jobs[i].0 == after.jobs[i].0);
        }
    }
}

/// After a number of turns the state is sound and within the universe, and
/// the crawl is over or as many more collections have been handled.
pub proof fn lemma_turns(world: World, c: CoordinatorView, n: nat, universe: Set<Seq<char>>)
    requires
        c.wf(),
        within(c, universe),
        world.fits(universe),
    ensures
        world.turns(c, n).wf(),
        within(world.turns(c, n), universe),
        world.turns(c, n).finished() || handled(world.turns(c, n)) == handled(c) + n,
    decreases n,
{
    if n > 0 {
        lemma_turns(world, c, (n - 1) as nat, universe);
        lemma_turn(world, world.turns(c, (n - 1) as nat), universe);
    }
}

/// The crawl terminates. Where the collections that can be found are
/// finitely many, then whatever they refer to, however their crawls end
/// and in whatever order the workers report, two turns for each collection
/// bring the crawl to its end: nothing waits and no worker is busy.
pub proof fn lemma_crawl_comes_to_its_end(
    world: World,
    c: CoordinatorView,
    universe: Set<Seq<char>>,
)
    requires
        c.wf(),
        universe.finite(),
        within(c, universe),
        world.fits(universe),
    ensures
        world.turns(c, 2 * universe.len()).finished(),
{
    let n = 2 * universe.len();
    lemma_turns(world, c, n, universe);
    let end = world.turns(c, n);
    if !end.finished() {
        lemma_progress_is_bounded(end, universe);
        lemma_count_bounds(end.jobs);
        assert(handled(end) >= 2 * universe.len());
        assert(end.cursor <= end.jobs.len());
        assert(count_settled(end.jobs) <= end.jobs.len());
        assert(end.jobs.len() <= universe.len());
        assert(end.cursor == end.jobs.len());
        assert(count_settled(end.jobs) == end.jobs.len());
        assert(count_in_flight(end.jobs) == 0);
    }
}

} // verus!
