//! Draining a page-based listing into one complete collection.
//!
//! A [`Collector`] is the transient state of one list operation. It never
//! performs a fetch itself: the caller fetches the page that the collector
//! names, reports what came back with [`Collector::step`], and repeats until
//! the step is no longer [`Step::Fetch`]. Pages are therefore fetched one
//! after the other, and each decision rests on all pages seen so far. The
//! page counter has 32 bits: [`Collector::has_room`] tells whether the page
//! that is due can still be named.

use vstd::prelude::*;

verus! {

/// One page of a listing, as the remote served it.
#[derive(Debug, PartialEq, Eq, Clone, Hash)]
pub struct Page<T> {
    /// The items on this page, in the remote's order.
    pub items: Vec<T>,
    /// The size of the whole collection, as reported with this page.
    pub total_entries: u32,
}

/// What one page fetch came to.
#[derive(Debug, PartialEq, Eq, Clone, Hash)]
pub enum Fetched<T, E> {
    /// The remote served the page.
    Page(Page<T>),
    /// The remote knows no such page: the listing has ended.
    NotFound,
    /// The fetch failed for any other reason.
    Failed(E),
}

/// What to do after a page fetch has been reported.
#[derive(Debug, PartialEq, Eq, Clone, Hash)]
pub enum Step<T, E> {
    /// Fetch the page that the collector names, and report it.
    Fetch(Collector<T>),
    /// The listing is complete: these are its items, in the order in which
    /// the pages delivered them.
    Done(Vec<T>),
    /// The listing failed; what had been accumulated is discarded.
    Failed(E),
}

/// The state of a list operation between two page fetches.
#[derive(Debug, PartialEq, Eq, Clone, Hash)]
pub struct Collector<T> {
    /// The number of pages that have been taken in.
    taken: u32,
    per_page: u32,
    total: Option<usize>,
    items: Vec<T>,
}

/// The mathematical content of a [`Collector`].
pub ghost struct CollectorState<T> {
    /// The number of the page to fetch next, counted from 1.
    pub page: nat,
    /// The fixed page size.
    pub per_page: nat,
    /// The size of the whole collection as the first page reported it.
    pub total: Option<nat>,
    /// The items of all pages reported so far.
    pub items: Seq<T>,
}

/// The mathematical content of a [`Fetched`].
pub ghost enum Event<T, E> {
    Page { items: Seq<T>, total_entries: nat },
    NotFound,
    Failed(E),
}

/// The mathematical content of a [`Step`].
pub ghost enum Outcome<T, E> {
    Fetch(CollectorState<T>),
    Done(Seq<T>),
    Failed(E),
}

/// The state in which every list operation starts: the first page is due,
/// nothing is accumulated and the total is not yet known.
pub open spec fn initial<T>(per_page: nat) -> CollectorState<T> {
    CollectorState { page: 1, per_page, total: None, items: Seq::empty() }
}

/// The total that governs termination once `event` has been seen: the one
/// recorded earlier, or else the one that a served page reports.
pub open spec fn expected_total<T, E>(state: CollectorState<T>, event: Event<T, E>) -> Option<nat> {
    match (state.total, event) {
        (Some(total), _) => Some(total),
        (None, Event::Page { total_entries, .. }) => Some(total_entries),
        (None, _) => None,
    }
}

/// The aggregation rule. A served page is appended; the listing is complete
/// as soon as the number of accumulated items equals the expected total, and
/// otherwise the next page is due. A missing page ends the listing with what
/// has been accumulated. Any other failure ends it with that failure.
pub open spec fn advance<T, E>(state: CollectorState<T>, event: Event<T, E>) -> Outcome<T, E> {
    match event {
        Event::Page { items, total_entries } => {
            let all = state.items + items;
            if Some(all.len()) == expected_total(state, event) {
                Outcome::Done(all)
            } else {
                Outcome::Fetch(
                    CollectorState {
                        page: state.page + 1,
                        per_page: state.per_page,
                        total: expected_total(state, event),
                        items: all,
                    },
                )
            }
        },
        Event::NotFound => Outcome::Done(state.items),
        Event::Failed(error) => Outcome::Failed(error),
    }
}

impl<T, E> View for Fetched<T, E> {
    type V = Event<T, E>;

    open spec fn view(&self) -> Event<T, E> {
        match *self {
            Fetched::Page(page) => Event::Page {
                items: page.items@,
                total_entries: page.total_entries as nat,
            },
            Fetched::NotFound => Event::NotFound,
            Fetched::Failed(error) => Event::Failed(error),
        }
    }
}

impl<T, E> View for Step<T, E> {
    type V = Outcome<T, E>;

    open spec fn view(&self) -> Outcome<T, E> {
        match *self {
            Step::Fetch(collector) => Outcome::Fetch(collector@),
            Step::Done(items) => Outcome::Done(items@),
            Step::Failed(error) => Outcome::Failed(error),
        }
    }
}

impl<T> View for Collector<T> {
    type V = CollectorState<T>;

    closed spec fn view(&self) -> CollectorState<T> {
        CollectorState {
            page: self.taken as nat + 1,
            per_page: self.per_page as nat,
            total: match self.total {
                Some(total) => Some(total as nat),
                None => None,
            },
            items: self.items@,
        }
    }
}

impl<T> Collector<T> {
    /// Starts a list operation that fetches pages of `per_page` items.
    pub fn new(per_page: u32) -> (collector: Self)
        ensures
            collector@ == initial::<T>(per_page as nat),
    {
        Collector { taken: 0, per_page, total: None, items: Vec::new() }
    }

    /// Tells whether the number of the page that is due still fits the
    /// page counter, so that the page can be asked for.
    pub fn has_room(&self) -> (room: bool)
        ensures
            room == (self@.page <= u32::MAX),
    {
        self.taken < u32::MAX
    }

    /// The number of the page to fetch next, counted from 1.
    pub fn page(&self) -> (page: u32)
        requires
            self@.page <= u32::MAX,
        ensures
            page == self@.page,
    {
        self.taken + 1
    }

    /// The number of items to ask for per page.
    pub fn per_page(&self) -> (per_page: u32)
        ensures
            per_page == self@.per_page,
    {
        self.per_page
    }

    /// Takes in what fetching page `self.page()` came to and decides how the
    /// list operation goes on, by the rule [`advance`].
    pub fn step<E>(self, fetched: Fetched<T, E>) -> (step: Step<T, E>)
        requires
            self@.page <= u32::MAX,
        ensures
            step@ == advance(self@, fetched@),
    {
        match fetched {
            Fetched::Page(page) => {
                let total: usize = match self.total {
                    Some(total) => total,
                    None => page.total_entries as usize,
                };
                let mut items = self.items;
                let mut fresh = page.items;
                items.append(&mut fresh);
                if items.len() == total {
                    Step::Done(items)
                } else {
                    Step::Fetch(
                        Collector {
                            taken: self.taken + 1,
                            per_page: self.per_page,
                            total: Some(total),
                            items,
                        },
                    )
                }
            },
            Fetched::NotFound => Step::Done(self.items),
            Fetched::Failed(error) => Step::Failed(error),
        }
    }
}

/// The items that a remote holding `all` serves as page `page`, counted
/// from 1, in pages of `per_page` items: what is left of `all` from the end
/// of the page before, up to `per_page` items.
pub open spec fn page_of<T>(all: Seq<T>, per_page: nat, page: nat) -> Seq<T> {
    let start: int = if (page - 1) * per_page <= all.len() {
        (page - 1) * per_page
    } else {
        all.len() as int
    };
    let end: int = if page * per_page <= all.len() {
        (page * per_page) as int
    } else {
        all.len() as int
    };
    all.subrange(start, end)
}

/// What a remote that holds `all`, and does not change meanwhile, answers
/// to the fetch of page `page`.
pub open spec fn served<T, E>(all: Seq<T>, per_page: nat, page: nat) -> Event<T, E> {
    Event::Page { items: page_of(all, per_page, page), total_entries: all.len() }
}

/// Where a list operation stands after `fetches` page fetches against a
/// remote that holds `all` and does not change meanwhile.
pub open spec fn drain<T, E>(all: Seq<T>, per_page: nat, fetches: nat) -> Outcome<T, E>
    decreases fetches,
{
    if fetches == 0 {
        Outcome::Fetch(initial(per_page))
    } else {
        match drain::<T, E>(all, per_page, (fetches - 1) as nat) {
            Outcome::Fetch(state) => advance(state, served(all, per_page, state.page)),
            ended => ended,
        }
    }
}

/// The state of a list operation against an unchanging remote while it is
/// still under way: after `fetches` full pages the next page is due.
pub open spec fn under_way<T>(all: Seq<T>, per_page: nat, fetches: nat) -> CollectorState<T> {
    CollectorState {
        page: fetches + 1,
        per_page,
        total: if fetches == 0 {
            None
        } else {
            Some(all.len())
        },
        items: all.take((fetches * per_page) as int),
    }
}

/// As long as the pages fetched so far do not hold the whole collection,
/// the list operation asks for the next page.
pub proof fn lemma_drain_under_way<T, E>(all: Seq<T>, per_page: nat, fetches: nat)
    requires
        per_page >= 1,
        fetches == 0 || fetches * per_page < all.len(),
    ensures
        drain::<T, E>(all, per_page, fetches) == Outcome::<T, E>::Fetch(
            under_way(all, per_page, fetches),
        ),
    decreases fetches,
{
    if fetches == 0 {
        assert(all.take(0) =~= Seq::<T>::empty());
    } else {
        let before = (fetches - 1) as nat;
        assert(before * per_page + per_page == fetches * per_page) by (nonlinear_arith)
            requires
                before + 1 == fetches,
        ;
        lemma_drain_under_way::<T, E>(all, per_page, before);
        let state = under_way(all, per_page, before);
        assert(state.items + page_of(all, per_page, fetches) =~= all.take((fetches * per_page) as int));
    }
}

/// A list operation against an unchanging remote collects everything, in
/// the remote's order, and fetches no page more than it takes: if `fetches`
/// pages are the fewest that hold all of `all` (one page for an empty
/// collection), the operation is complete with `all` after exactly
/// `fetches` page fetches, and asks for a further page after each fetch
/// before the last.
pub proof fn lemma_drain_collects_all<T, E>(all: Seq<T>, per_page: nat, fetches: nat)
    requires
        per_page >= 1,
        fetches >= 1,
        all.len() <= fetches * per_page,
        fetches == 1 || (fetches - 1) * per_page < all.len(),
    ensures
        drain::<T, E>(all, per_page, fetches) == Outcome::<T, E>::Done(all),
        forall|earlier: nat|
            earlier < fetches ==> #[trigger] drain::<T, E>(all, per_page, earlier) is Fetch,
{
    let before = (fetches - 1) as nat;
    assert(before * per_page + per_page == fetches * per_page) by (nonlinear_arith)
        requires
            before + 1 == fetches,
    ;
    lemma_drain_under_way::<T, E>(all, per_page, before);
    let state = under_way(all, per_page, before);
    assert(state.items + page_of(all, per_page, fetches) =~= all);
    assert forall|earlier: nat| earlier < fetches implies #[trigger] drain::<T, E>(
        all,
        per_page,
        earlier,
    ) is Fetch by {
        if earlier > 0 {
            assert(earlier * per_page <= before * per_page) by (nonlinear_arith)
                requires
                    earlier <= before,
                    per_page >= 0,
            ;
        }
        lemma_drain_under_way::<T, E>(all, per_page, earlier);
    }
}

/// A listing whose first page the remote does not know is empty, and this
/// is a success.
pub proof fn lemma_missing_first_page<T, E>(per_page: nat)
    ensures
        advance(initial::<T>(per_page), Event::<T, E>::NotFound) == Outcome::<T, E>::Done(
            Seq::empty(),
        ),
{
}

/// A failure other than a missing page ends the listing with that failure,
/// whatever had been accumulated.
pub proof fn lemma_failure_discards<T, E>(state: CollectorState<T>, error: E)
    ensures
        advance(state, Event::<T, E>::Failed(error)) == Outcome::<T, E>::Failed(error),
{
}

} // verus!
