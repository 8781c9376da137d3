//! Lazy pagination as a state machine.
//!
//! A `Pager` holds the items of the page it was last given and knows where
//! the following page is to be had. It never transfers anything: `step` takes
//! what happened (`Event`) and answers with what to do next (`Action`). The
//! caller hands out the items, performs the fetches and reports their outcome.

use vstd::prelude::*;
use std::collections::VecDeque;
use crate::request::{Request, RequestView};

verus! {

/// One batch of results, with the address of the batch that follows.
#[derive(Clone, Debug, PartialEq, Eq)]
pub struct Page<T> {
    pub items: Vec<T>,
    pub next: Option<String>,
}

/// A page over the characters of its link.
pub struct PageView<T> {
    pub items: Seq<T>,
    pub next: Option<Seq<char>>,
}

impl<T> View for Page<T> {
    type V = PageView<T>;

    open spec fn view(&self) -> PageView<T> {
        PageView {
            items: self.items@,
            next: match self.next {
                Some(link) => Some(link@),
                None => None,
            },
        }
    }
}

/// Where a page is to be had.
#[derive(Clone, Debug, PartialEq, Eq)]
pub enum Target {
    /// The request that opens a listing.
    First(Request),
    /// The address that an earlier page gave for its successor.
    Link(String),
}

/// A target over the characters of its strings.
pub enum TargetView {
    First(RequestView),
    Link(Seq<char>),
}

impl View for Target {
    type V = TargetView;

    open spec fn view(&self) -> TargetView {
        match *self {
            Target::First(request) => TargetView::First(request@),
            Target::Link(link) => TargetView::Link(link@),
        }
    }
}

impl Target {
    /// A second copy of the target.
    pub fn duplicate(&self) -> (copy: Target)
        ensures
            copy@ == self@,
    {
        match self {
            Target::First(request) => Target::First(
                Request {
                    method: request.method,
                    route: request.route.clone(),
                    per_page: request.per_page,
                    all_states: request.all_states,
                },
            ),
            Target::Link(link) => Target::Link(link.clone()),
        }
    }
}

/// What the caller reports to the pager. `E` is the caller's error type.
pub enum Event<T, E> {
    /// The consumer wants the next item.
    Demand,
    /// The fetch that the pager asked for brought this page.
    Fetched(Page<T>),
    /// The fetch that the pager asked for failed.
    Failed(E),
}

/// An event over the view of its page.
pub enum EventView<T, E> {
    Demand,
    Fetched(PageView<T>),
    Failed(E),
}

impl<T, E> View for Event<T, E> {
    type V = EventView<T, E>;

    open spec fn view(&self) -> EventView<T, E> {
        match *self {
            Event::Demand => EventView::Demand,
            Event::Fetched(page) => EventView::Fetched(page@),
            Event::Failed(error) => EventView::Failed(error),
        }
    }
}

/// What the pager asks of the caller.
#[derive(Debug, PartialEq, Eq)]
pub enum Action<T, E> {
    /// Hand this item to the consumer.
    Yield(T),
    /// Fetch the page at this target and report the outcome.
    Fetch(Target),
    /// The sequence has ended.
    Finish,
    /// The sequence is abandoned; hand this error to the consumer.
    Abort(E),
}

/// An action over the view of its target.
pub enum ActionView<T, E> {
    Yield(T),
    Fetch(TargetView),
    Finish,
    Abort(E),
}

impl<T, E> View for Action<T, E> {
    type V = ActionView<T, E>;

    open spec fn view(&self) -> ActionView<T, E> {
        match *self {
            Action::Yield(item) => ActionView::Yield(item),
            Action::Fetch(target) => ActionView::Fetch(target@),
            Action::Finish => ActionView::Finish,
            Action::Abort(error) => ActionView::Abort(error),
        }
    }
}

/// The state of a walk through a paged listing.
#[derive(Debug)]
pub enum Pager<T> {
    /// Items at hand, and where the following page is, if there is one.
    Buffered { pending: VecDeque<T>, next: Option<Target> },
    /// A fetch was asked for and its outcome has not been reported.
    Awaiting { target: Target },
}

/// A pager over sequences.
pub enum PagerView<T> {
    Buffered { pending: Seq<T>, next: Option<TargetView> },
    Awaiting { target: TargetView },
}

impl<T> View for Pager<T> {
    type V = PagerView<T>;

    open spec fn view(&self) -> PagerView<T> {
        match *self {
            Pager::Buffered { pending, next } => PagerView::Buffered {
                pending: pending@,
                next: match next {
                    Some(target) => Some(target@),
                    None => None,
                },
            },
            Pager::Awaiting { target } => PagerView::Awaiting { target: target@ },
        }
    }
}

/// The link of a page as a target.
pub open spec fn link_target(next: Option<Seq<char>>) -> Option<TargetView> {
    match next {
        Some(link) => Some(TargetView::Link(link)),
        None => None,
    }
}

/// The pager that holds the items of `page` and follows its link.
pub open spec fn holding<T>(page: PageView<T>) -> PagerView<T> {
    PagerView::Buffered { pending: page.items, next: link_target(page.next) }
}

/// The pager that has fetched nothing yet and will open with `request`.
pub open spec fn unstarted<T>(request: RequestView) -> PagerView<T> {
    PagerView::Buffered { pending: Seq::empty(), next: Some(TargetView::First(request)) }
}

/// The pager that has nothing left to give.
pub open spec fn exhausted<T>() -> PagerView<T> {
    PagerView::Buffered { pending: Seq::empty(), next: None }
}

/// The state after `page` has arrived. A page counts only while the pager
/// waits for one; an unsolicited page is dropped.
pub open spec fn arrive<T>(state: PagerView<T>, page: PageView<T>) -> PagerView<T> {
    match state {
        PagerView::Awaiting { .. } => holding(page),
        PagerView::Buffered { .. } => state,
    }
}

/// The answer to a demand for the next item: the first pending item where
/// there is one; else a fetch of the following page; else the end. While a
/// fetch is outstanding the pager asks for it again.
pub open spec fn demand<T, E>(state: PagerView<T>) -> (PagerView<T>, ActionView<T, E>) {
    match state {
        PagerView::Awaiting { target } => (state, ActionView::Fetch(target)),
        PagerView::Buffered { pending, next } => if pending.len() > 0 {
            (
                PagerView::Buffered { pending: pending.drop_first(), next },
                ActionView::Yield(pending[0]),
            )
        } else {
            match next {
                Some(target) => (PagerView::Awaiting { target }, ActionView::Fetch(target)),
                None => (state, ActionView::Finish),
            }
        },
    }
}

/// The transition function. A failure abandons the sequence at once; a page
/// that arrives is taken in and the interrupted demand is answered from it.
pub open spec fn step<T, E>(state: PagerView<T>, event: EventView<T, E>) -> (
    PagerView<T>,
    ActionView<T, E>,
) {
    match event {
        EventView::Demand => demand(state),
        EventView::Fetched(page) => demand(arrive(state, page)),
        EventView::Failed(error) => (exhausted(), ActionView::Abort(error)),
    }
}

/// How a walk ended.
pub enum Ending<E> {
    /// The consumer had what it wanted and stopped asking.
    Satisfied,
    /// The pager asked for a page and the remote side had none to give.
    Stalled,
    /// The pager reported the end of the sequence.
    Finished,
    /// A fetch failed and the pager handed the error on.
    Aborted(E),
}

/// What a consumer saw of a walk: the items it was handed, the fetches that
/// were made for it, and how the walk ended.
pub struct Transcript<T, E> {
    pub items: Seq<T>,
    pub fetches: Seq<TargetView>,
    pub ending: Ending<E>,
}

/// The transcript of a walk that hands out `items` and makes `fetches`, and
/// then goes on as `rest` says.
pub open spec fn followed_by<T, E>(
    items: Seq<T>,
    fetches: Seq<TargetView>,
    rest: Transcript<T, E>,
) -> Transcript<T, E> {
    Transcript { items: items + rest.items, fetches: fetches + rest.fetches, ending: rest.ending }
}

/// The number of items at hand.
pub open spec fn pending_len<T>(state: PagerView<T>) -> nat {
    match state {
        PagerView::Buffered { pending, .. } => pending.len(),
        PagerView::Awaiting { .. } => 0,
    }
}

/// A walk for a consumer that asks for items one by one and stops after
/// `wanted` of them. Every fetch that the pager asks for is answered with
/// the next entry of `remote`, a page or an error; the walk stalls where
/// `remote` has none left.
pub open spec fn consume<T, E>(
    state: PagerView<T>,
    remote: Seq<Result<PageView<T>, E>>,
    wanted: nat,
) -> Transcript<T, E>
    decreases remote.len(), pending_len(state),
{
    if wanted == 0 {
        Transcript { items: Seq::empty(), fetches: Seq::empty(), ending: Ending::Satisfied }
    } else {
        let (after, action) = demand::<T, E>(state);
        match action {
            ActionView::Yield(item) => followed_by(
                seq![item],
                Seq::empty(),
                consume(after, remote, (wanted - 1) as nat),
            ),
            ActionView::Fetch(target) => if remote.len() == 0 {
                Transcript { items: Seq::empty(), fetches: seq![target], ending: Ending::Stalled }
            } else {
                match remote[0] {
                    Ok(page) => followed_by(
                        Seq::empty(),
                        seq![target],
                        consume(arrive(after, page), remote.drop_first(), wanted),
                    ),
                    Err(error) => Transcript {
                        items: Seq::empty(),
                        fetches: seq![target],
                        ending: Ending::Aborted(error),
                    },
                }
            },
            ActionView::Finish => Transcript {
                items: Seq::empty(),
                fetches: Seq::empty(),
                ending: Ending::Finished,
            },
            ActionView::Abort(error) => Transcript {
                items: Seq::empty(),
                fetches: Seq::empty(),
                ending: Ending::Aborted(error),
            },
        }
    }
}

/// A remote side that serves these pages, one per fetch.
pub open spec fn served<T, E>(pages: Seq<PageView<T>>) -> Seq<Result<PageView<T>, E>> {
    pages.map_values(|page: PageView<T>| Ok::<PageView<T>, E>(page))
}

/// Every page but the last names a successor.
pub open spec fn linked<T>(pages: Seq<PageView<T>>) -> bool {
    forall|i: int| 0 <= i < pages.len() - 1 ==> (#[trigger] pages[i]).next is Some
}

/// Every page but the last names a successor, and the last names none.
pub open spec fn chained<T>(pages: Seq<PageView<T>>) -> bool {
    linked(pages) && pages.len() > 0 && pages.last().next is None
}

/// The items of all pages, page after page.
pub open spec fn all_items<T>(pages: Seq<PageView<T>>) -> Seq<T>
    decreases pages.len(),
{
    if pages.len() == 0 {
        Seq::empty()
    } else {
        pages[0].items + all_items(pages.drop_first())
    }
}

/// The links that lead from each of the first `count` pages to the next.
pub open spec fn links<T>(pages: Seq<PageView<T>>, count: nat) -> Seq<TargetView> {
    Seq::new(count, |i: int| TargetView::Link(pages[i].next->0))
}

/// The links that lead from each page of a chain to the one after it.
pub open spec fn onward_links<T>(pages: Seq<PageView<T>>) -> Seq<TargetView> {
    links(pages, (pages.len() - 1) as nat)
}

/// A walk with `pending` at hand and the link of `pages[0]` to follow, served
/// the pages after `pages[0]` and then `tail`, hands out what is pending and
/// the items of those pages, fetches along the links between them, and goes
/// on from the link of the last page with what `tail` serves.
proof fn lemma_walk_through<T, E>(
    pending: Seq<T>,
    pages: Seq<PageView<T>>,
    tail: Seq<Result<PageView<T>, E>>,
    wanted: nat,
)
    requires
        pages.len() > 0,
        linked(pages),
        wanted > pending.len() + all_items(pages.drop_first()).len(),
    ensures
        consume(
            PagerView::Buffered { pending, next: link_target(pages[0].next) },
            served(pages.drop_first()) + tail,
            wanted,
        ) == followed_by(
            pending + all_items(pages.drop_first()),
            onward_links(pages),
            consume(
                PagerView::Buffered { pending: Seq::empty(), next: link_target(pages.last().next) },
                tail,
                (wanted - pending.len() - all_items(pages.drop_first()).len()) as nat,
            ),
        ),
    decreases pages.len(), pending.len(),
{
    let state = PagerView::Buffered { pending, next: link_target(pages[0].next) };
    let rest = pages.drop_first();
    let remote = served::<T, E>(rest) + tail;
    let seen = consume(state, remote, wanted);
    let left = (wanted - pending.len() - all_items(rest).len()) as nat;
    let last = PagerView::Buffered {
        pending: Seq::<T>::empty(),
        next: link_target(pages.last().next),
    };
    let goal = followed_by(pending + all_items(rest), onward_links(pages), consume(last, tail, left));
    if pending.len() > 0 {
        lemma_walk_through(pending.drop_first(), pages, tail, (wanted - 1) as nat);
        assert(seen.items =~= goal.items);
    } else if pages.len() > 1 {
        assert(remote.drop_first() =~= served::<T, E>(rest.drop_first()) + tail);
        lemma_walk_through(rest[0].items, rest, tail, wanted);
        assert(onward_links(pages) =~= seq![TargetView::Link(pages[0].next->0)] + onward_links(
            rest,
        ));
        assert(seen.fetches =~= goal.fetches);
    }
}

/// A consumer that wants no more than is at hand gets it without a fetch.
proof fn lemma_walk_within_buffer<T, E>(
    pending: Seq<T>,
    next: Option<TargetView>,
    remote: Seq<Result<PageView<T>, E>>,
    wanted: nat,
)
    requires
        wanted <= pending.len(),
    ensures
        consume(PagerView::Buffered { pending, next }, remote, wanted) == (Transcript::<T, E> {
            items: pending.take(wanted as int),
            fetches: Seq::empty(),
            ending: Ending::Satisfied,
        }),
    decreases wanted,
{
    let seen = consume(PagerView::Buffered { pending, next }, remote, wanted);
    if wanted > 0 {
        lemma_walk_within_buffer(pending.drop_first(), next, remote, (wanted - 1) as nat);
    }
    assert(seen.items =~= pending.take(wanted as int));
}

/// Pagination is complete. A listing opened with `request` and served the
/// pages of a chain hands out every item of every page, in their order, to a
/// consumer that wants more than there is. It makes one fetch per page: the
/// opening request, then each link in turn. After the last page, which names
/// no successor, it reports the end, whatever else the remote side could
/// have served.
pub proof fn lemma_pagination_complete<T, E>(
    request: RequestView,
    pages: Seq<PageView<T>>,
    unasked: Seq<Result<PageView<T>, E>>,
    wanted: nat,
)
    requires
        chained(pages),
        wanted > all_items(pages).len(),
    ensures
        consume(unstarted(request), served(pages) + unasked, wanted) == (Transcript::<T, E> {
            items: all_items(pages),
            fetches: seq![TargetView::First(request)] + onward_links(pages),
            ending: Ending::Finished,
        }),
        consume(unstarted(request), served(pages) + unasked, wanted).fetches.len() == pages.len(),
{
    let remote = served::<T, E>(pages) + unasked;
    let seen = consume(unstarted(request), remote, wanted);
    assert(remote.drop_first() =~= served::<T, E>(pages.drop_first()) + unasked);
    lemma_walk_through(pages[0].items, pages, unasked, wanted);
}

/// The same for a walk that starts from a page already fetched: it hands out
/// the items of that page and of the pages after it, and fetches only what
/// the links name.
pub proof fn lemma_pager_stream_complete<T, E>(
    pages: Seq<PageView<T>>,
    unasked: Seq<Result<PageView<T>, E>>,
    wanted: nat,
)
    requires
        chained(pages),
        wanted > all_items(pages).len(),
    ensures
        consume(holding(pages[0]), served(pages.drop_first()) + unasked, wanted) == (Transcript::<
            T,
            E,
        > { items: all_items(pages), fetches: onward_links(pages), ending: Ending::Finished }),
{
    let seen = consume(holding(pages[0]), served::<T, E>(pages.drop_first()) + unasked, wanted);
    lemma_walk_through(pages[0].items, pages, unasked, wanted);
}

/// Fetching follows demand. A consumer that stops within the first page has
/// caused the opening request and no other fetch, whatever the page links to
/// and whatever the remote side would have served next.
pub proof fn lemma_fetch_on_demand<T, E>(
    request: RequestView,
    first: PageView<T>,
    unasked: Seq<Result<PageView<T>, E>>,
    wanted: nat,
)
    requires
        1 <= wanted <= first.items.len(),
    ensures
        consume(unstarted(request), seq![Ok(first)] + unasked, wanted) == (Transcript::<T, E> {
            items: first.items.take(wanted as int),
            fetches: seq![TargetView::First(request)],
            ending: Ending::Satisfied,
        }),
{
    let remote = seq![Ok::<PageView<T>, E>(first)] + unasked;
    lemma_walk_within_buffer(first.items, link_target(first.next), remote.drop_first(), wanted);
    let seen = consume(unstarted::<T>(request), remote, wanted);
}

/// A failed fetch ends the walk at once. Where the remote side serves
/// `pages`, each with a link to the next, and then fails, the consumer gets
/// the items of those pages and then the error. The failed fetch is the last
/// one: nothing is tried again, and what the remote side could have served
/// afterwards is never asked for.
pub proof fn lemma_failure_ends_walk<T, E>(
    request: RequestView,
    pages: Seq<PageView<T>>,
    error: E,
    unasked: Seq<Result<PageView<T>, E>>,
    wanted: nat,
)
    requires
        forall|i: int| 0 <= i < pages.len() ==> (#[trigger] pages[i]).next is Some,
        wanted > all_items(pages).len(),
    ensures
        consume(unstarted(request), served(pages) + seq![Err(error)] + unasked, wanted) == (
        Transcript::<T, E> {
            items: all_items(pages),
            fetches: seq![TargetView::First(request)] + links(pages, pages.len()),
            ending: Ending::Aborted(error),
        }),
{
    let tail = seq![Err::<PageView<T>, E>(error)] + unasked;
    let remote = served::<T, E>(pages) + seq![Err::<PageView<T>, E>(error)] + unasked;
    let seen = consume(unstarted(request), remote, wanted);
    if pages.len() == 0 {
    } else {
        assert(remote.drop_first() =~= served::<T, E>(pages.drop_first()) + tail);
        lemma_walk_through(pages[0].items, pages, tail, wanted);
        assert(seen.fetches =~= seq![TargetView::First(request)] + links(pages, pages.len()));
    }
}

/// A failure is final: the pager hands the error on, and every later demand
/// is answered with the end of the sequence.
pub proof fn lemma_failure_is_final<T, E>(state: PagerView<T>, error: E)
    ensures
        step(state, EventView::Failed(error)) == (exhausted::<T>(), ActionView::<T, E>::Abort(error)),
        demand::<T, E>(exhausted()) == (exhausted::<T>(), ActionView::<T, E>::Finish),
{
}

/// The end is final: a pager that has reported the end reports it again on
/// every later demand, and a page that arrives late does not revive it.
pub proof fn lemma_end_is_final<T, E>(state: PagerView<T>, late: PageView<T>)
    requires
        demand::<T, E>(state).1 is Finish,
    ensures
        demand::<T, E>(state).0 == state,
        step::<T, E>(state, EventView::Demand) == (state, ActionView::<T, E>::Finish),
        step::<T, E>(state, EventView::Fetched(late)) == (state, ActionView::<T, E>::Finish),
{
}

/// The buffer holds the rest of one page and no more: a step never leaves
/// more items at hand than were at hand before or came with the page that
/// just arrived.
pub proof fn lemma_buffer_holds_one_page<T, E>(state: PagerView<T>, event: EventView<T, E>)
    ensures
        pending_len(step(state, event).0) <= pending_len(state) || (event matches EventView::Fetched(
            page,
        ) && pending_len(step(state, event).0) <= page.items.len()),
{
}

/// An item at hand is handed out before anything is fetched.
pub proof fn lemma_items_before_fetch<T, E>(pending: Seq<T>, next: Option<TargetView>)
    requires
        pending.len() > 0,
    ensures
        demand::<T, E>(PagerView::Buffered { pending, next }) == (
            PagerView::Buffered { pending: pending.drop_first(), next },
            ActionView::<T, E>::Yield(pending[0]),
        ),
{
}

/// Moves the items of a vector into a queue, keeping their order.
fn into_queue<T>(items: Vec<T>) -> (queue: VecDeque<T>)
    ensures
        queue@ == items@,
{
    let mut items = items;
    let mut queue: VecDeque<T> = VecDeque::new();
    let ghost all = items@;
    while items.len() > 0
        invariant
            items@ + queue@ == all,
        decreases items.len(),
    {
        match items.pop() {
            Some(item) => {
                queue.push_front(item);
            },
            None => {},
        }
    }
    queue
}

/// Starts a walk from a page that has already been fetched.
pub fn pager_stream<T>(start: Page<T>) -> (pager: Pager<T>)
    ensures
        pager@ == holding(start@),
{
    let Page { items, next } = start;
    let next = match next {
        Some(link) => Some(Target::Link(link)),
        None => None,
    };
    Pager::Buffered { pending: into_queue(items), next }
}

impl<T> Pager<T> {
    /// Starts a walk that opens with `request`.
    pub fn open(request: Request) -> (pager: Pager<T>)
        ensures
            pager@ == unstarted::<T>(request@),
    {
        Pager::Buffered { pending: VecDeque::new(), next: Some(Target::First(request)) }
    }

    /// Takes in a page that arrived.
    pub fn arrive(self, page: Page<T>) -> (pager: Pager<T>)
        ensures
            pager@ == arrive(self@, page@),
    {
        match self {
            Pager::Awaiting { .. } => pager_stream(page),
            other => other,
        }
    }

    /// Answers a demand for the next item.
    pub fn demand<E>(self) -> (next: (Pager<T>, Action<T, E>))
        ensures
            (next.0@, next.1@) == demand::<T, E>(self@),
    {
        match self {
            Pager::Awaiting { target } => {
                let again = target.duplicate();
                (Pager::Awaiting { target }, Action::Fetch(again))
            },
            Pager::Buffered { pending, next } => {
                let mut pending = pending;
                match pending.pop_front() {
                    Some(item) => (Pager::Buffered { pending, next }, Action::Yield(item)),
                    None => match next {
                        Some(target) => {
                            let asked = target.duplicate();
                            (Pager::Awaiting { target }, Action::Fetch(asked))
                        },
                        None => (Pager::Buffered { pending, next: None }, Action::Finish),
                    },
                }
            },
        }
    }

    /// Takes an event and says what to do next.
    pub fn step<E>(self, event: Event<T, E>) -> (next: (Pager<T>, Action<T, E>))
        ensures
            (next.0@, next.1@) == step(self@, event@),
    {
        match event {
            Event::Demand => self.demand(),
            Event::Fetched(page) => self.arrive(page).demand(),
            Event::Failed(error) => (
                Pager::Buffered { pending: VecDeque::new(), next: None },
                Action::Abort(error),
            ),
        }
    }
}

} // verus!
