use vstd::prelude::*;
use crate::command::{edge_command, edge_for, DatabaseCommand, UserType};
use crate::error::Error;
use crate::manager::{follower_ids, following_ids};
use crate::snapshot::{describes, snapshot_of, user_snapshot, Account};

verus! {

/// The cursor that asks the remote API for the first page of a listing.
pub const START_CURSOR: i64 = -1;

/// What one call of a paged endpoint gave, classified.
pub enum PageResponse {
    /// A page of records, and the cursor of the page after it.
    Page { users: Vec<Account>, next_cursor: i64 },
    /// The remote API asked for no calls before `retry_at`.
    RateLimited { retry_at: i32 },
    /// Any other failure of the call.
    TransportFailure,
}

/// The model of a `PageResponse`.
pub enum PageEvent {
    Page { users: Seq<Account>, next_cursor: i64 },
    RateLimited { retry_at: i32 },
    TransportFailure,
}

impl View for PageResponse {
    type V = PageEvent;

    open spec fn view(&self) -> PageEvent {
        match self {
            PageResponse::Page { users, next_cursor } => PageEvent::Page {
                users: users@,
                next_cursor: *next_cursor,
            },
            PageResponse::RateLimited { retry_at } => PageEvent::RateLimited { retry_at: *retry_at },
            PageResponse::TransportFailure => PageEvent::TransportFailure,
        }
    }
}

/// Where a walk stands.
#[derive(Debug, Clone, Copy, PartialEq, Eq, Structural)]
pub enum WalkPhase {
    /// More pages are to be fetched.
    Walking,
    /// An empty page ended the walk: the only successful end.
    Finished,
    /// A call failed; the walk delivers nothing more.
    Failed { error: Error },
}

/// What the caller of a walker is to do next.
#[derive(Debug, Clone, Copy, PartialEq, Eq, Structural)]
pub enum WalkStep {
    /// Call the endpoint with this cursor and hand the response back.
    Fetch { cursor: i64 },
    /// The walk ended normally.
    Done,
    /// The walk ended in failure.
    Failed { error: Error },
}

/// Drives one paged listing to its end, one response at a time.
pub struct PageWalker {
    kind: UserType,
    page_size: i32,
    cursor: i64,
    phase: WalkPhase,
    delivered: Ghost<Seq<Account>>,
}

/// The model of a `PageWalker`: `delivered` holds every record handed on so
/// far, in the order handed on.
pub struct WalkerView {
    pub kind: UserType,
    pub page_size: i32,
    pub cursor: i64,
    pub phase: WalkPhase,
    pub delivered: Seq<Account>,
}

impl View for PageWalker {
    type V = WalkerView;

    closed spec fn view(&self) -> WalkerView {
        WalkerView {
            kind: self.kind,
            page_size: self.page_size,
            cursor: self.cursor,
            phase: self.phase,
            delivered: self.delivered@,
        }
    }
}

/// A walk that has fetched nothing yet.
pub open spec fn initial_walk(kind: UserType, page_size: i32) -> WalkerView {
    WalkerView {
        kind,
        page_size,
        cursor: START_CURSOR,
        phase: WalkPhase::Walking,
        delivered: Seq::empty(),
    }
}

/// The walk after one response. A non-empty page is delivered and moves the
/// cursor on; an empty page ends the walk; a rate limit or another failure
/// ends it in failure. An ended walk no longer changes.
pub open spec fn walk_step(w: WalkerView, e: PageEvent) -> WalkerView {
    if w.phase != WalkPhase::Walking {
        w
    } else {
        match e {
            PageEvent::Page { users, next_cursor } => if users.len() == 0 {
                WalkerView { phase: WalkPhase::Finished, ..w }
            } else {
                WalkerView { cursor: next_cursor, delivered: w.delivered + users, ..w }
            },
            PageEvent::RateLimited { retry_at } => WalkerView {
                phase: WalkPhase::Failed { error: Error::RateLimited { retry_at } },
                ..w
            },
            PageEvent::TransportFailure => WalkerView {
                phase: WalkPhase::Failed { error: Error::TransportError },
                ..w
            },
        }
    }
}

/// The walk after each of `events` in turn.
pub open spec fn walk_all(w: WalkerView, events: Seq<PageEvent>) -> WalkerView
    decreases events.len(),
{
    if events.len() == 0 {
        w
    } else {
        walk_all(walk_step(w, events[0]), events.drop_first())
    }
}

/// What the walk `w` asks of its caller.
pub open spec fn step_of(w: WalkerView) -> WalkStep {
    match w.phase {
        WalkPhase::Walking => WalkStep::Fetch { cursor: w.cursor },
        WalkPhase::Finished => WalkStep::Done,
        WalkPhase::Failed { error } => WalkStep::Failed { error },
    }
}

/// `cmds` stores each of `users` in order: its snapshot, then its edge in
/// the listing `kind`.
pub open spec fn page_commands(kind: UserType, users: Seq<Account>, cmds: Seq<DatabaseCommand>) -> bool {
    &&& cmds.len() == 2 * users.len()
    &&& forall|i: int|
        0 <= i < users.len() ==> {
            &&& (cmds[2 * i] matches DatabaseCommand::StoreSnapshot(s) && describes(s, #[trigger] users[i]))
            &&& cmds[2 * i + 1] == edge_command(kind, users[i].id)
        }
}

/// The snapshots in `cmds` of the records `users` are all taken at `now`.
pub open spec fn snapshots_at(users: Seq<Account>, now: i64, cmds: Seq<DatabaseCommand>) -> bool {
    forall|i: int|
        0 <= i < users.len() ==> cmds[2 * i] == DatabaseCommand::StoreSnapshot(
            snapshot_of(#[trigger] users[i], now),
        )
}

/// The commands that the walk sends on a response received at `now`: the
/// commands that store a non-empty page, with snapshots taken at `now`, one
/// `FailedSession` on a failure, and none otherwise.
pub open spec fn emits(w: WalkerView, e: PageEvent, now: i64, cmds: Seq<DatabaseCommand>) -> bool {
    if w.phase != WalkPhase::Walking {
        cmds.len() == 0
    } else {
        match e {
            PageEvent::Page { users, .. } => page_commands(w.kind, users, cmds) && snapshots_at(
                users,
                now,
                cmds,
            ),
            _ => cmds == seq![DatabaseCommand::FailedSession],
        }
    }
}

impl PageWalker {
    /// A walker over the listing `kind`, asking for `page_size` records a
    /// page.
    pub fn new(kind: UserType, page_size: i32) -> (w: PageWalker)
        ensures
            w@ == initial_walk(kind, page_size),
    {
        PageWalker {
            kind,
            page_size,
            cursor: START_CURSOR,
            phase: WalkPhase::Walking,
            delivered: Ghost(Seq::empty()),
        }
    }

    pub fn kind(&self) -> (k: UserType)
        ensures
            k == self@.kind,
    {
        self.kind
    }

    pub fn page_size(&self) -> (n: i32)
        ensures
            n == self@.page_size,
    {
        self.page_size
    }

    /// What the caller is to do next.
    pub fn next_step(&self) -> (s: WalkStep)
        ensures
            s == step_of(self@),
    {
        match self.phase {
            WalkPhase::Walking => WalkStep::Fetch { cursor: self.cursor },
            WalkPhase::Finished => WalkStep::Done,
            WalkPhase::Failed { error } => WalkStep::Failed { error },
        }
    }

    /// Takes the response to the last `Fetch`, received at `now` (seconds
    /// since the Unix epoch), and returns the commands to send, in order,
    /// and what to do next.
    pub fn on_response(&mut self, response: PageResponse, now: i64) -> (r: (
        Vec<DatabaseCommand>,
        WalkStep,
    ))
        ensures
            final(self)@ == walk_step(old(self)@, response@),
            emits(old(self)@, response@, now, r.0@),
            r.1 == step_of(final(self)@),
    {
        let mut cmds: Vec<DatabaseCommand> = Vec::new();
        if self.phase != WalkPhase::Walking {
            return (cmds, self.next_step());
        }
        match response {
            PageResponse::Page { users, next_cursor } => {
                if users.len() == 0 {
                    self.phase = WalkPhase::Finished;
                } else {
                    let ghost page = users@;
                    let kind = self.kind;
                    for user in it: users.into_iter()
                        invariant
                            it.seq() == page,
                            cmds.len() == 2 * it.index(),
                            forall|i: int|
                                0 <= i < it.index() ==> {
                                    &&& cmds[2 * i] == DatabaseCommand::StoreSnapshot(
                                        snapshot_of(#[trigger] page[i], now),
                                    )
                                    &&& cmds[2 * i + 1] == edge_command(kind, page[i].id)
                                },
                    {
                        let id = user.id;
                        let s = user_snapshot(user, now);
                        cmds.push(DatabaseCommand::StoreSnapshot(s));
                        cmds.push(edge_for(kind, id));
                    }
                    self.delivered = Ghost(self.delivered@ + page);
                    self.cursor = next_cursor;
                }
            },
            PageResponse::RateLimited { retry_at } => {
                cmds.push(DatabaseCommand::FailedSession);
                self.phase = WalkPhase::Failed { error: Error::RateLimited { retry_at } };
            },
            PageResponse::TransportFailure => {
                cmds.push(DatabaseCommand::FailedSession);
                self.phase = WalkPhase::Failed { error: Error::TransportError };
            },
        }
        (cmds, self.next_step())
    }
}

/// The responses of a walk that receives `pages` in turn, the page at `i`
/// naming `cursors[i]` as the cursor after it.
pub open spec fn page_events(pages: Seq<Seq<Account>>, cursors: Seq<i64>) -> Seq<PageEvent> {
    Seq::new(
        pages.len(),
        |i: int| PageEvent::Page { users: pages[i], next_cursor: cursors[i] },
    )
}

/// A walk that has ended stays as it is, whatever responses follow.
pub proof fn lemma_ended_walk_is_stable(w: WalkerView, events: Seq<PageEvent>)
    requires
        w.phase != WalkPhase::Walking,
    ensures
        walk_all(w, events) == w,
    decreases events.len(),
{
    if events.len() > 0 {
        lemma_ended_walk_is_stable(walk_step(w, events[0]), events.drop_first());
    }
}

proof fn lemma_walk_pages_from(w: WalkerView, pages: Seq<Seq<Account>>, cursors: Seq<i64>)
    requires
        w.phase == WalkPhase::Walking,
        pages.len() >= 1,
        cursors.len() == pages.len(),
        pages.last().len() == 0,
        forall|i: int| 0 <= i < pages.len() - 1 ==> (#[trigger] pages[i]).len() > 0,
    ensures
        walk_all(w, page_events(pages, cursors)).delivered == w.delivered + pages.drop_last().flatten(),
        walk_all(w, page_events(pages, cursors)).phase == WalkPhase::Finished,
    decreases pages.len(),
{
    let events = page_events(pages, cursors);
    let w1 = walk_step(w, events[0]);
    if pages.len() == 1 {
        assert(pages.drop_last() =~= Seq::<Seq<Account>>::empty());
        assert(w.delivered + Seq::<Seq<Account>>::empty().flatten() =~= w.delivered);
        lemma_ended_walk_is_stable(w1, events.drop_first());
    } else {
        let rest = pages.drop_first();
        assert(events.drop_first() =~= page_events(rest, cursors.drop_first()));
        assert forall|i: int| 0 <= i < rest.len() - 1 implies (#[trigger] rest[i]).len() > 0 by {
            assert(rest[i] == pages[i + 1]);
        }
        lemma_walk_pages_from(w1, rest, cursors.drop_first());
        assert(rest.drop_last() =~= pages.drop_last().drop_first());
        assert(pages.drop_last().flatten() == pages[0] + rest.drop_last().flatten());
        assert(w.delivered + pages[0] + rest.drop_last().flatten()
            =~= w.delivered + pages.drop_last().flatten());
    }
}

/// A walk whose responses are pages of which only the last is empty
/// delivers exactly the records of all pages, page after page and in page
/// order, and ends normally.
pub proof fn lemma_walk_delivers_all_pages(
    kind: UserType,
    page_size: i32,
    pages: Seq<Seq<Account>>,
    cursors: Seq<i64>,
)
    requires
        pages.len() >= 1,
        cursors.len() == pages.len(),
        pages.last().len() == 0,
        forall|i: int| 0 <= i < pages.len() - 1 ==> (#[trigger] pages[i]).len() > 0,
    ensures
        walk_all(initial_walk(kind, page_size), page_events(pages, cursors)).delivered
            == pages.drop_last().flatten(),
        step_of(walk_all(initial_walk(kind, page_size), page_events(pages, cursors)))
            == WalkStep::Done,
{
    let w = initial_walk(kind, page_size);
    lemma_walk_pages_from(w, pages, cursors);
    assert(w.delivered + pages.drop_last().flatten() =~= pages.drop_last().flatten());
}

/// A rate limit on the first call ends the walk in failure with that rate
/// limit, before any record is delivered: the only command sent is
/// `FailedSession`.
pub proof fn lemma_first_call_rate_limited(
    kind: UserType,
    page_size: i32,
    retry_at: i32,
    now: i64,
    cmds: Seq<DatabaseCommand>,
)
    requires
        emits(initial_walk(kind, page_size), PageEvent::RateLimited { retry_at }, now, cmds),
    ensures
        walk_step(initial_walk(kind, page_size), PageEvent::RateLimited { retry_at }).delivered.len()
            == 0,
        step_of(walk_step(initial_walk(kind, page_size), PageEvent::RateLimited { retry_at }))
            == (WalkStep::Failed { error: Error::RateLimited { retry_at } }),
        cmds == seq![DatabaseCommand::FailedSession],
{
}

/// A rate limit or another failure on any call ends the walk in failure,
/// classified, and leaves the records delivered before it as they were,
/// whatever responses follow.
pub proof fn lemma_failure_keeps_delivered(w: WalkerView, e: PageEvent, later: Seq<PageEvent>)
    requires
        w.phase == WalkPhase::Walking,
        !(e is Page),
    ensures
        walk_all(w, seq![e] + later).delivered == w.delivered,
        e matches PageEvent::RateLimited { retry_at } ==> step_of(walk_all(w, seq![e] + later))
            == (WalkStep::Failed { error: Error::RateLimited { retry_at } }),
        e is TransportFailure ==> step_of(walk_all(w, seq![e] + later))
            == (WalkStep::Failed { error: Error::TransportError }),
{
    let events = seq![e] + later;
    assert(events[0] == e);
    assert(events.drop_first() =~= later);
    lemma_ended_walk_is_stable(walk_step(w, e), later);
}

/// The commands of consecutive pages, in order, store the records of both
/// pages in order: over a whole walk, the commands sent store exactly the
/// records delivered.
pub proof fn lemma_page_commands_concat(
    kind: UserType,
    u1: Seq<Account>,
    c1: Seq<DatabaseCommand>,
    u2: Seq<Account>,
    c2: Seq<DatabaseCommand>,
)
    requires
        page_commands(kind, u1, c1),
        page_commands(kind, u2, c2),
    ensures
        page_commands(kind, u1 + u2, c1 + c2),
{
    let u = u1 + u2;
    let c = c1 + c2;
    assert forall|i: int| 0 <= i < u.len() implies {
        &&& (c[2 * i] matches DatabaseCommand::StoreSnapshot(s) && describes(s, #[trigger] u[i]))
        &&& c[2 * i + 1] == edge_command(kind, u[i].id)
    } by {
        if i >= u1.len() {
            let k = i - u1.len();
            assert(u[i] == u2[k]);
            assert(c[2 * i] == c2[2 * k]);
            assert(c[2 * i + 1] == c2[2 * k + 1]);
        } else {
            assert(u[i] == u1[i]);
        }
    }
}

/// The ids of the accounts in `users`.
pub open spec fn ids_of(users: Seq<Account>) -> Set<u64> {
    Set::new(|id: u64| exists|i: int| 0 <= i < users.len() && #[trigger] users[i].id == id)
}

/// The commands that store a page of the followers listing record exactly
/// the page's accounts as followers and none as followed, and report no
/// failure; the commands of a page of the following listing record exactly
/// its accounts as followed and none as followers.
pub proof fn lemma_page_edges(kind: UserType, users: Seq<Account>, cmds: Seq<DatabaseCommand>)
    requires
        page_commands(kind, users, cmds),
    ensures
        !cmds.contains(DatabaseCommand::FailedSession),
        kind == UserType::Followers ==> follower_ids(cmds) == ids_of(users)
            && following_ids(cmds).is_empty(),
        kind == UserType::Following ==> following_ids(cmds) == ids_of(users)
            && follower_ids(cmds).is_empty(),
{
    assert forall|j: int| 0 <= j < cmds.len() implies (#[trigger] cmds[j] is StoreSnapshot
        || cmds[j] == edge_command(kind, users[j / 2].id)) by {
        let i = j / 2;
        assert(j == 2 * i || j == 2 * i + 1);
        assert(users[i] == users[i]);
    }
    assert forall|id: u64| ids_of(users).contains(id) implies cmds.contains(edge_command(kind, id)) by {
        let i = choose|i: int| 0 <= i < users.len() && #[trigger] users[i].id == id;
        assert(cmds[2 * i + 1] == edge_command(kind, id));
    }
    assert forall|id: u64| cmds.contains(edge_command(kind, id)) implies ids_of(users).contains(id) by {
        let j = choose|j: int| 0 <= j < cmds.len() && cmds[j] == edge_command(kind, id);
        let i = j / 2;
        assert(j == 2 * i || j == 2 * i + 1);
        assert(users[i].id == id);
    }
    if kind == UserType::Followers {
        assert(follower_ids(cmds) =~= ids_of(users));
        assert(following_ids(cmds) =~= Set::empty());
    } else {
        assert(following_ids(cmds) =~= ids_of(users));
        assert(follower_ids(cmds) =~= Set::empty());
    }
}

} // verus!
