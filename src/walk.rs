//! The decisions of the catalog walk, as a state machine.
//!
//! The catalog is listed newest first, one page at a time. For each item the
//! walk asks whether a sync record exists; the first item that has one ends
//! the walk, since everything after it is older. Every other item is
//! downloaded, and recorded when the download succeeded; a failed download
//! is passed over. The caller performs each action and reports the outcome
//! as the next event.

use vstd::prelude::*;
use crate::path::view_opt;

verus! {

/// The position of the walk inside one page of the listing.
pub struct PageCursor {
    pub ids: Vec<String>,
    pub pos: usize,
    pub next: Option<String>,
}

pub struct CursorModel {
    pub ids: Seq<Seq<char>>,
    pub pos: int,
    pub next: Option<Seq<char>>,
}

pub open spec fn ids_view(ids: Seq<String>) -> Seq<Seq<char>> {
    ids.map_values(|s: String| s@)
}

impl View for PageCursor {
    type V = CursorModel;

    open spec fn view(&self) -> CursorModel {
        CursorModel { ids: ids_view(self.ids@), pos: self.pos as int, next: view_opt(self.next) }
    }
}

pub enum WalkState {
    /// Waiting for a page of the listing.
    Fetching,
    /// Waiting to learn whether the current item has a sync record.
    Checking(PageCursor),
    /// Waiting for the current item's download.
    Downloading(PageCursor),
    /// Waiting for the current item's sync record to be written.
    Saving(PageCursor),
    /// The walk ended normally.
    Done,
    /// The walk ended on a fatal error.
    Failed,
}

pub enum StateModel {
    Fetching,
    Checking(CursorModel),
    Downloading(CursorModel),
    Saving(CursorModel),
    Done,
    Failed,
}

impl View for WalkState {
    type V = StateModel;

    open spec fn view(&self) -> StateModel {
        match self {
            WalkState::Fetching => StateModel::Fetching,
            WalkState::Checking(c) => StateModel::Checking(c@),
            WalkState::Downloading(c) => StateModel::Downloading(c@),
            WalkState::Saving(c) => StateModel::Saving(c@),
            WalkState::Done => StateModel::Done,
            WalkState::Failed => StateModel::Failed,
        }
    }
}

/// What the caller reports after performing an action.
pub enum WalkEvent {
    /// A page was fetched and parsed: its item identifiers, newest first, and
    /// the link to the next page.
    PageLoaded { ids: Vec<String>, next: Option<String> },
    /// The page could not be fetched or parsed.
    PageFailed,
    /// Whether the current item has a sync record.
    RecordChecked(bool),
    /// Whether the current item's download and extraction succeeded.
    DownloadFinished(bool),
    /// Whether the current item's sync record was written.
    RecordSaved(bool),
}

pub enum EventModel {
    PageLoaded { ids: Seq<Seq<char>>, next: Option<Seq<char>> },
    PageFailed,
    RecordChecked(bool),
    DownloadFinished(bool),
    RecordSaved(bool),
}

impl View for WalkEvent {
    type V = EventModel;

    open spec fn view(&self) -> EventModel {
        match self {
            WalkEvent::PageLoaded { ids, next } => EventModel::PageLoaded {
                ids: ids_view(ids@),
                next: view_opt(*next),
            },
            WalkEvent::PageFailed => EventModel::PageFailed,
            WalkEvent::RecordChecked(b) => EventModel::RecordChecked(*b),
            WalkEvent::DownloadFinished(b) => EventModel::DownloadFinished(*b),
            WalkEvent::RecordSaved(b) => EventModel::RecordSaved(*b),
        }
    }
}

/// What the caller is to do next.
pub enum WalkAction {
    /// Fetch the page of the listing at this URL.
    FetchPage(String),
    /// Look up the sync record of this item.
    CheckRecord(String),
    /// Download and extract this item.
    Download(String),
    /// Write the sync record of this item.
    SaveRecord(String),
    /// The walk is over and succeeded.
    Finish,
    /// The walk is over and failed.
    Abort,
}

pub enum ActionModel {
    FetchPage(Seq<char>),
    CheckRecord(Seq<char>),
    Download(Seq<char>),
    SaveRecord(Seq<char>),
    Finish,
    Abort,
}

impl View for WalkAction {
    type V = ActionModel;

    open spec fn view(&self) -> ActionModel {
        match self {
            WalkAction::FetchPage(u) => ActionModel::FetchPage(u@),
            WalkAction::CheckRecord(i) => ActionModel::CheckRecord(i@),
            WalkAction::Download(i) => ActionModel::Download(i@),
            WalkAction::SaveRecord(i) => ActionModel::SaveRecord(i@),
            WalkAction::Finish => ActionModel::Finish,
            WalkAction::Abort => ActionModel::Abort,
        }
    }
}

pub open spec fn in_page(c: CursorModel) -> bool {
    0 <= c.pos < c.ids.len()
}

/// Once a page is used up: follow its next link, or end.
pub open spec fn after_page(next: Option<Seq<char>>) -> (StateModel, ActionModel) {
    match next {
        Some(u) => (StateModel::Fetching, ActionModel::FetchPage(u)),
        None => (StateModel::Done, ActionModel::Finish),
    }
}

/// Moves on to the item after the current one.
pub open spec fn advance(c: CursorModel) -> (StateModel, ActionModel) {
    if c.pos + 1 < c.ids.len() {
        (
            StateModel::Checking(CursorModel { ids: c.ids, pos: c.pos + 1, next: c.next }),
            ActionModel::CheckRecord(c.ids[c.pos + 1]),
        )
    } else {
        after_page(c.next)
    }
}

/// The transition of the walk on an event; an event that the state does not
/// wait for ends it in failure.
pub open spec fn next_state(s: StateModel, e: EventModel) -> (StateModel, ActionModel) {
    match s {
        StateModel::Fetching => match e {
            EventModel::PageLoaded { ids, next } => if ids.len() > 0 {
                (
                    StateModel::Checking(CursorModel { ids, pos: 0, next }),
                    ActionModel::CheckRecord(ids[0]),
                )
            } else {
                after_page(next)
            },
            _ => (StateModel::Failed, ActionModel::Abort),
        },
        StateModel::Checking(c) => match e {
            EventModel::RecordChecked(known) => if !in_page(c) {
                (StateModel::Failed, ActionModel::Abort)
            } else if known {
                (StateModel::Done, ActionModel::Finish)
            } else {
                (StateModel::Downloading(c), ActionModel::Download(c.ids[c.pos]))
            },
            _ => (StateModel::Failed, ActionModel::Abort),
        },
        StateModel::Downloading(c) => match e {
            EventModel::DownloadFinished(ok) => if !in_page(c) {
                (StateModel::Failed, ActionModel::Abort)
            } else if ok {
                (StateModel::Saving(c), ActionModel::SaveRecord(c.ids[c.pos]))
            } else {
                advance(c)
            },
            _ => (StateModel::Failed, ActionModel::Abort),
        },
        StateModel::Saving(c) => match e {
            EventModel::RecordSaved(ok) => if ok && in_page(c) {
                advance(c)
            } else {
                (StateModel::Failed, ActionModel::Abort)
            },
            _ => (StateModel::Failed, ActionModel::Abort),
        },
        StateModel::Done => (StateModel::Done, ActionModel::Finish),
        StateModel::Failed => (StateModel::Failed, ActionModel::Abort),
    }
}

/// The walk's first state and action: fetch the first page of the listing.
pub fn start(listing_url: String) -> (r: (WalkState, WalkAction))
    ensures
        r.0@ == StateModel::Fetching,
        r.1@ == ActionModel::FetchPage(listing_url@),
{
    (WalkState::Fetching, WalkAction::FetchPage(listing_url))
}

fn id_at(ids: &Vec<String>, pos: usize) -> (r: String)
    requires
        pos < ids@.len(),
    ensures
        r@ == ids_view(ids@)[pos as int],
{
    ids[pos].clone()
}

fn page_end(next: Option<String>) -> (r: (WalkState, WalkAction))
    ensures
        (r.0@, r.1@) == after_page(view_opt(next)),
{
    match next {
        Some(u) => (WalkState::Fetching, WalkAction::FetchPage(u)),
        None => (WalkState::Done, WalkAction::Finish),
    }
}

fn advance_cursor(c: PageCursor) -> (r: (WalkState, WalkAction))
    ensures
        (r.0@, r.1@) == advance(c@),
{
    let PageCursor { ids, pos, next } = c;
    if pos < ids.len() && pos + 1 < ids.len() {
        let id = id_at(&ids, pos + 1);
        let r = (WalkState::Checking(PageCursor { ids, pos: pos + 1, next }), WalkAction::CheckRecord(id));
        r
    } else {
        page_end(next)
    }
}

/// Applies one event to the walk: its next state and the action to perform.
pub fn step(state: WalkState, event: WalkEvent) -> (r: (WalkState, WalkAction))
    ensures
        (r.0@, r.1@) == next_state(state@, event@),
{
    match state {
        WalkState::Fetching => match event {
            WalkEvent::PageLoaded { ids, next } => {
                if ids.len() > 0 {
                    let id = id_at(&ids, 0);
                    (WalkState::Checking(PageCursor { ids, pos: 0, next }), WalkAction::CheckRecord(id))
                } else {
                    page_end(next)
                }
            },
            _ => (WalkState::Failed, WalkAction::Abort),
        },
        WalkState::Checking(c) => match event {
            WalkEvent::RecordChecked(known) => {
                if c.pos >= c.ids.len() {
                    (WalkState::Failed, WalkAction::Abort)
                } else if known {
                    (WalkState::Done, WalkAction::Finish)
                } else {
                    let id = id_at(&c.ids, c.pos);
                    (WalkState::Downloading(c), WalkAction::Download(id))
                }
            },
            _ => (WalkState::Failed, WalkAction::Abort),
        },
        WalkState::Downloading(c) => match event {
            WalkEvent::DownloadFinished(ok) => {
                if c.pos >= c.ids.len() {
                    (WalkState::Failed, WalkAction::Abort)
                } else if ok {
                    let id = id_at(&c.ids, c.pos);
                    (WalkState::Saving(c), WalkAction::SaveRecord(id))
                } else {
                    advance_cursor(c)
                }
            },
            _ => (WalkState::Failed, WalkAction::Abort),
        },
        WalkState::Saving(c) => match event {
            WalkEvent::RecordSaved(ok) => {
                if ok && c.pos < c.ids.len() {
                    advance_cursor(c)
                } else {
                    (WalkState::Failed, WalkAction::Abort)
                }
            },
            _ => (WalkState::Failed, WalkAction::Abort),
        },
        WalkState::Done => (WalkState::Done, WalkAction::Finish),
        WalkState::Failed => (WalkState::Failed, WalkAction::Abort),
    }
}

/// The actions that the walk emits from `s` on the events `events`, in order.
pub open spec fn run_actions(s: StateModel, events: Seq<EventModel>) -> Seq<ActionModel>
    decreases events.len(),
{
    if events.len() == 0 {
        seq![]
    } else {
        let (s2, a) = next_state(s, events[0]);
        seq![a] + run_actions(s2, events.drop_first())
    }
}

pub open spec fn downloads_nothing(actions: Seq<ActionModel>) -> bool {
    forall|i: int| 0 <= i < actions.len() ==> !(#[trigger] actions[i] is Download)
}

/// A finished walk stays finished and downloads nothing, whatever it is told.
pub proof fn lemma_done_is_final(events: Seq<EventModel>)
    ensures
        downloads_nothing(run_actions(StateModel::Done, events)),
    decreases events.len(),
{
    if events.len() > 0 {
        lemma_done_is_final(events.drop_first());
        let acts = run_actions(StateModel::Done, events);
        let tail = run_actions(StateModel::Done, events.drop_first());
        assert(acts == seq![ActionModel::Finish] + tail);
        assert forall|i: int| 0 <= i < acts.len() implies !(#[trigger] acts[i] is Download) by {
            if i > 0 {
                assert(acts[i] == tail[i - 1]);
            }
        }
    }
}

/// An item is downloaded only right after the walk learnt that it has no sync
/// record, and the download is of that very item.
pub proof fn lemma_download_needs_missing_record(s: StateModel, e: EventModel)
    ensures
        next_state(s, e).1 matches ActionModel::Download(id) ==> {
            &&& s matches StateModel::Checking(c)
            &&& in_page(c)
            &&& id == c.ids[c.pos]
            &&& e == EventModel::RecordChecked(false)
        },
{
}

/// Once the walk finds an item with a sync record, it downloads neither that
/// item nor any item after it, on this page or on a later one.
pub proof fn lemma_recorded_item_ends_walk(c: CursorModel, rest: Seq<EventModel>)
    requires
        in_page(c),
    ensures
        downloads_nothing(
            run_actions(StateModel::Checking(c), seq![EventModel::RecordChecked(true)] + rest),
        ),
{
    let events = seq![EventModel::RecordChecked(true)] + rest;
    assert(events.drop_first() =~= rest);
    lemma_done_is_final(rest);
    let acts = run_actions(StateModel::Checking(c), events);
    let tail = run_actions(StateModel::Done, rest);
    assert(acts == seq![ActionModel::Finish] + tail);
    assert forall|i: int| 0 <= i < acts.len() implies !(#[trigger] acts[i] is Download) by {
        if i > 0 {
            assert(acts[i] == tail[i - 1]);
        }
    }
}

/// One page of a listing as the server returns it: item identifiers, newest
/// first, and the link to the next page.
pub type PageModel = (Seq<Seq<char>>, Option<Seq<char>>);

/// The outcome of a simulated walk.
pub struct WalkRun {
    pub downloads: Seq<Seq<char>>,
    pub store: Set<Seq<char>>,
    pub finished: bool,
}

/// How a catalog served from `catalog` (pages by URL), with downloads failing
/// for the items in `failing`, and a sync store holding `store`, answer an
/// action; also the store afterwards.
pub open spec fn respond(
    catalog: Map<Seq<char>, PageModel>,
    failing: Set<Seq<char>>,
    store: Set<Seq<char>>,
    a: ActionModel,
) -> (EventModel, Set<Seq<char>>) {
    match a {
        ActionModel::FetchPage(u) => if catalog.contains_key(u) {
            (EventModel::PageLoaded { ids: catalog[u].0, next: catalog[u].1 }, store)
        } else {
            (EventModel::PageFailed, store)
        },
        ActionModel::CheckRecord(id) => (EventModel::RecordChecked(store.contains(id)), store),
        ActionModel::Download(id) => (EventModel::DownloadFinished(!failing.contains(id)), store),
        ActionModel::SaveRecord(id) => (EventModel::RecordSaved(true), store.insert(id)),
        _ => (EventModel::PageFailed, store),
    }
}

/// At most `fuel` steps of the walk from state `s` with pending action `a`,
/// against the catalog and store above.
pub open spec fn simulate(
    catalog: Map<Seq<char>, PageModel>,
    failing: Set<Seq<char>>,
    s: StateModel,
    a: ActionModel,
    store: Set<Seq<char>>,
    fuel: nat,
) -> WalkRun
    decreases fuel,
{
    if fuel == 0 || a is Finish || a is Abort {
        WalkRun { downloads: seq![], store, finished: a is Finish }
    } else {
        let (e, store2) = respond(catalog, failing, store, a);
        let (s2, a2) = next_state(s, e);
        let rest = simulate(catalog, failing, s2, a2, store2, (fuel - 1) as nat);
        let here = match a {
            ActionModel::Download(id) => seq![id],
            _ => Seq::<Seq<char>>::empty(),
        };
        WalkRun { downloads: here + rest.downloads, store: rest.store, finished: rest.finished }
    }
}

/// A walk only adds sync records.
pub proof fn lemma_store_only_grows(
    catalog: Map<Seq<char>, PageModel>,
    failing: Set<Seq<char>>,
    s: StateModel,
    a: ActionModel,
    store: Set<Seq<char>>,
    fuel: nat,
)
    ensures
        store.subset_of(simulate(catalog, failing, s, a, store, fuel).store),
    decreases fuel,
{
    if !(fuel == 0 || a is Finish || a is Abort) {
        let (e, store2) = respond(catalog, failing, store, a);
        let (s2, a2) = next_state(s, e);
        lemma_store_only_grows(catalog, failing, s2, a2, store2, (fuel - 1) as nat);
    }
}

/// Walking an unchanged catalog a second time downloads nothing, writes no
/// sync record, and ends normally after the first page, provided the first
/// walk ran to its end and the newest item's download did not fail.
pub proof fn lemma_second_walk_downloads_nothing(
    catalog: Map<Seq<char>, PageModel>,
    failing: Set<Seq<char>>,
    url: Seq<char>,
    store: Set<Seq<char>>,
    fuel1: nat,
    fuel2: nat,
)
    requires
        catalog.contains_key(url),
        catalog[url].0.len() > 0,
        !failing.contains(catalog[url].0[0]),
        simulate(catalog, failing, StateModel::Fetching, ActionModel::FetchPage(url), store, fuel1).finished,
    ensures
        simulate(
            catalog,
            failing,
            StateModel::Fetching,
            ActionModel::FetchPage(url),
            simulate(catalog, failing, StateModel::Fetching, ActionModel::FetchPage(url), store, fuel1).store,
            fuel2,
        ).downloads.len() == 0,
        simulate(
            catalog,
            failing,
            StateModel::Fetching,
            ActionModel::FetchPage(url),
            simulate(catalog, failing, StateModel::Fetching, ActionModel::FetchPage(url), store, fuel1).store,
            fuel2,
        ).store == simulate(catalog, failing, StateModel::Fetching, ActionModel::FetchPage(url), store, fuel1).store,
        fuel2 >= 2 ==> simulate(
            catalog,
            failing,
            StateModel::Fetching,
            ActionModel::FetchPage(url),
            simulate(catalog, failing, StateModel::Fetching, ActionModel::FetchPage(url), store, fuel1).store,
            fuel2,
        ).finished,
{
    let ids = catalog[url].0;
    let next = catalog[url].1;
    let newest = ids[0];
    let c = CursorModel { ids, pos: 0, next };
    let first = simulate(catalog, failing, StateModel::Fetching, ActionModel::FetchPage(url), store, fuel1);
    assert(fuel1 > 0);
    let r1 = simulate(catalog, failing, StateModel::Checking(c), ActionModel::CheckRecord(newest), store, (fuel1 - 1) as nat);
    assert(first.store == r1.store && first.finished == r1.finished);
    assert(fuel1 > 1);
    if store.contains(newest) {
        let r2 = simulate(catalog, failing, StateModel::Done, ActionModel::Finish, store, (fuel1 - 2) as nat);
        assert(r1.store == r2.store);
        assert(first.store.contains(newest));
    } else {
        let r2 = simulate(catalog, failing, StateModel::Downloading(c), ActionModel::Download(newest), store, (fuel1 - 2) as nat);
        assert(r1.store == r2.store && r1.finished == r2.finished);
        assert(fuel1 > 2);
        let r3 = simulate(catalog, failing, StateModel::Saving(c), ActionModel::SaveRecord(newest), store, (fuel1 - 3) as nat);
        assert(r2.store == r3.store && r2.finished == r3.finished);
        assert(fuel1 > 3);
        let (s4, a4) = advance(c);
        let saved = store.insert(newest);
        let r4 = simulate(catalog, failing, s4, a4, saved, (fuel1 - 4) as nat);
        assert(r3.store == r4.store);
        lemma_store_only_grows(catalog, failing, s4, a4, saved, (fuel1 - 4) as nat);
        assert(first.store.contains(newest));
    }
    let again = simulate(catalog, failing, StateModel::Fetching, ActionModel::FetchPage(url), first.store, fuel2);
    if fuel2 > 0 {
        let g1 = simulate(catalog, failing, StateModel::Checking(c), ActionModel::CheckRecord(newest), first.store, (fuel2 - 1) as nat);
        assert(again.downloads =~= g1.downloads);
        assert(again.store == g1.store && again.finished == g1.finished);
        if fuel2 > 1 {
            let g2 = simulate(catalog, failing, StateModel::Done, ActionModel::Finish, first.store, (fuel2 - 2) as nat);
            assert(g1.downloads =~= g2.downloads);
            assert(g1.store == g2.store && g1.finished == g2.finished);
        }
    }
}

/// Against a real sync store: when the walk reaches an item that has a sync
/// record, it downloads nothing more, neither that item nor any later one.
pub proof fn lemma_recorded_item_downloads_nothing(
    catalog: Map<Seq<char>, PageModel>,
    failing: Set<Seq<char>>,
    c: CursorModel,
    store: Set<Seq<char>>,
    fuel: nat,
)
    requires
        in_page(c),
        store.contains(c.ids[c.pos]),
    ensures
        simulate(
            catalog,
            failing,
            StateModel::Checking(c),
            ActionModel::CheckRecord(c.ids[c.pos]),
            store,
            fuel,
        ).downloads.len() == 0,
{
    if fuel > 0 {
        let r = simulate(catalog, failing, StateModel::Done, ActionModel::Finish, store, (fuel - 1) as nat);
        assert(r.downloads.len() == 0);
    }
}

} // verus!
