use vstd::prelude::*;
use crate::command::{DatabaseCommand, UserType};
use crate::error::Error;
use crate::manager::{
    follower_ids, following_ids, initial_manager, lemma_manager_records, manager_all, DbManager,
    ManagerView,
};
use crate::snapshot::Account;
use crate::walker::{ids_of, lemma_page_edges, page_commands};

verus! {

/// Where a session stands. `Started` is the only state that changes.
#[derive(Debug, Clone, Copy, PartialEq, Eq, Structural)]
pub enum SessionState {
    Started,
    Finished,
    Failed,
}

/// One run of the collection, as stored. Times are in seconds since the
/// Unix epoch. A session is not copied: one value stands for the one
/// session row.
#[derive(Debug)]
pub struct Session {
    id: i64,
    start_time: i64,
    finish_time: Option<i64>,
    state: SessionState,
    follower_count: u64,
    following_count: u64,
}

/// The model of a `Session`.
pub struct SessionView {
    pub id: i64,
    pub start_time: i64,
    pub finish_time: Option<i64>,
    pub state: SessionState,
    pub follower_count: u64,
    pub following_count: u64,
}

impl View for Session {
    type V = SessionView;

    closed spec fn view(&self) -> SessionView {
        SessionView {
            id: self.id,
            start_time: self.start_time,
            finish_time: self.finish_time,
            state: self.state,
            follower_count: self.follower_count,
            following_count: self.following_count,
        }
    }
}

/// The session update that the storage is to apply.
#[derive(Debug, Clone, Copy, PartialEq, Eq, Structural)]
pub enum SessionOp {
    /// Mark the session finished, with its finish time and counts.
    Finalize { session_id: i64, finish_time: i64, follower_count: u64, following_count: u64 },
    /// Mark the session failed, with its finish time.
    Fail { session_id: i64, finish_time: i64 },
}

/// A session has a finish time exactly when it has ended, and counts only
/// once it has finished.
pub open spec fn session_wf(s: SessionView) -> bool {
    &&& (s.state == SessionState::Started) == (s.finish_time is None)
    &&& s.state != SessionState::Finished ==> s.follower_count == 0 && s.following_count == 0
}

/// A session created at `start_time` under the id `id`.
pub open spec fn started_session(id: i64, start_time: i64) -> SessionView {
    SessionView {
        id,
        start_time,
        finish_time: None,
        state: SessionState::Started,
        follower_count: 0,
        following_count: 0,
    }
}

/// The session after an attempt to finish it: only a started session
/// finishes.
pub open spec fn session_finish(s: SessionView, finish_time: i64, followers: u64, following: u64) -> SessionView {
    if s.state == SessionState::Started {
        SessionView {
            finish_time: Some(finish_time),
            state: SessionState::Finished,
            follower_count: followers,
            following_count: following,
            ..s
        }
    } else {
        s
    }
}

/// The session after an attempt to fail it: only a started session fails.
pub open spec fn session_fail(s: SessionView, finish_time: i64) -> SessionView {
    if s.state == SessionState::Started {
        SessionView { finish_time: Some(finish_time), state: SessionState::Failed, ..s }
    } else {
        s
    }
}

/// The first failure of two outcomes, if any.
pub open spec fn first_failure(a: Result<(), Error>, b: Result<(), Error>) -> Result<(), Error> {
    if a is Err {
        a
    } else {
        b
    }
}

/// How a run ends: a failure anywhere, or one that a pipeline reported to
/// the manager, fails the session; otherwise it finishes with the numbers of
/// distinct followers and followed accounts that the manager recorded.
pub open spec fn concluded(s: SessionView, outcome: Result<(), Error>, m: ManagerView, finish_time: i64) -> SessionView {
    if outcome is Err || m.failed {
        session_fail(s, finish_time)
    } else {
        session_finish(
            s,
            finish_time,
            m.followers.to_set().len() as u64,
            m.following.to_set().len() as u64,
        )
    }
}

/// The storage update that ends a run, if the session has not ended yet.
pub open spec fn conclusion_op(s: SessionView, outcome: Result<(), Error>, m: ManagerView, finish_time: i64) -> Option<SessionOp> {
    if s.state != SessionState::Started {
        None
    } else if outcome is Err || m.failed {
        Some(SessionOp::Fail { session_id: s.id, finish_time })
    } else {
        Some(
            SessionOp::Finalize {
                session_id: s.id,
                finish_time,
                follower_count: m.followers.to_set().len() as u64,
                following_count: m.following.to_set().len() as u64,
            },
        )
    }
}

/// Combines two outcomes: the first failure wins. Neither cancels the
/// other; both are known before they are combined.
pub fn combine_outcomes(a: Result<(), Error>, b: Result<(), Error>) -> (r: Result<(), Error>)
    ensures
        r == first_failure(a, b),
{
    match a {
        Err(e) => Err(e),
        Ok(()) => b,
    }
}

impl Session {
    /// A session that storage created at `start_time` under `id`.
    pub fn start(id: i64, start_time: i64) -> (s: Session)
        ensures
            s@ == started_session(id, start_time),
            session_wf(s@),
    {
        Session {
            id,
            start_time,
            finish_time: None,
            state: SessionState::Started,
            follower_count: 0,
            following_count: 0,
        }
    }

    pub fn id(&self) -> (id: i64)
        ensures
            id == self@.id,
    {
        self.id
    }

    pub fn start_time(&self) -> (t: i64)
        ensures
            t == self@.start_time,
    {
        self.start_time
    }

    pub fn finish_time(&self) -> (t: Option<i64>)
        ensures
            t == self@.finish_time,
    {
        self.finish_time
    }

    pub fn state(&self) -> (st: SessionState)
        ensures
            st == self@.state,
    {
        self.state
    }

    pub fn follower_count(&self) -> (n: u64)
        ensures
            n == self@.follower_count,
    {
        self.follower_count
    }

    pub fn following_count(&self) -> (n: u64)
        ensures
            n == self@.following_count,
    {
        self.following_count
    }

    /// Marks a started session finished, with its finish time and counts,
    /// and says whether it did. An ended session is left as it is.
    pub fn finish(&mut self, finish_time: i64, followers: u64, following: u64) -> (applied: bool)
        requires
            session_wf(old(self)@),
        ensures
            session_wf(final(self)@),
            final(self)@ == session_finish(old(self)@, finish_time, followers, following),
            applied == (old(self)@.state == SessionState::Started),
    {
        if self.state != SessionState::Started {
            return false;
        }
        self.finish_time = Some(finish_time);
        self.state = SessionState::Finished;
        self.follower_count = followers;
        self.following_count = following;
        true
    }

    /// Marks a started session failed, with its finish time, and says
    /// whether it did. An ended session is left as it is.
    pub fn fail(&mut self, finish_time: i64) -> (applied: bool)
        requires
            session_wf(old(self)@),
        ensures
            session_wf(final(self)@),
            final(self)@ == session_fail(old(self)@, finish_time),
            applied == (old(self)@.state == SessionState::Started),
    {
        if self.state != SessionState::Started {
            return false;
        }
        self.finish_time = Some(finish_time);
        self.state = SessionState::Failed;
        true
    }

    /// Ends the session at `finish_time` after the run whose combined
    /// outcome is `outcome` and whose rows `manager` wrote, and returns the
    /// storage update to apply; none if the session had ended already.
    pub fn conclude(&mut self, outcome: Result<(), Error>, manager: &DbManager, finish_time: i64) -> (op: Option<SessionOp>)
        requires
            session_wf(old(self)@),
            manager.wf(),
        ensures
            session_wf(final(self)@),
            final(self)@ == concluded(old(self)@, outcome, manager@, finish_time),
            op == conclusion_op(old(self)@, outcome, manager@, finish_time),
    {
        if self.state != SessionState::Started {
            return None;
        }
        if outcome.is_err() || manager.failed() {
            self.fail(finish_time);
            Some(SessionOp::Fail { session_id: self.id, finish_time })
        } else {
            let followers = manager.follower_count();
            let following = manager.following_count();
            self.finish(finish_time, followers, following);
            Some(
                SessionOp::Finalize {
                    session_id: self.id,
                    finish_time,
                    follower_count: followers,
                    following_count: following,
                },
            )
        }
    }
}

/// A run in which neither pipeline nor the storage failed, and whose
/// manager received `cmds` with no `FailedSession` among them, finishes the
/// session with the numbers of distinct accounts that the commands record as
/// followers and as followed.
pub proof fn lemma_clean_run_finishes(
    s: SessionView,
    cmds: Seq<DatabaseCommand>,
    followers: Result<(), Error>,
    following: Result<(), Error>,
    storage: Result<(), Error>,
    finish_time: i64,
)
    requires
        s.state == SessionState::Started,
        followers is Ok,
        following is Ok,
        storage is Ok,
        !cmds.contains(DatabaseCommand::FailedSession),
    ensures
        ({
            let r = concluded(
                s,
                first_failure(first_failure(followers, following), storage),
                manager_all(initial_manager(s.id), cmds),
                finish_time,
            );
            &&& r.state == SessionState::Finished
            &&& r.finish_time == Some(finish_time)
            &&& r.follower_count == follower_ids(cmds).len() as u64
            &&& r.following_count == following_ids(cmds).len() as u64
        }),
{
    lemma_manager_records(s.id, cmds);
}

/// A run in which either pipeline reported a rate limit fails the session,
/// and from then on nothing changes it: it cannot be finished, failed again
/// or concluded.
pub proof fn lemma_rate_limited_run_fails(
    s: SessionView,
    followers: Result<(), Error>,
    following: Result<(), Error>,
    storage: Result<(), Error>,
    m: ManagerView,
    finish_time: i64,
)
    requires
        s.state == SessionState::Started,
        followers matches Err(Error::RateLimited { .. }) || following matches Err(
            Error::RateLimited { .. },
        ),
    ensures
        ({
            let r = concluded(s, first_failure(first_failure(followers, following), storage), m, finish_time);
            &&& r.state == SessionState::Failed
            &&& r.finish_time == Some(finish_time)
            &&& forall|t: i64, a: u64, b: u64| #[trigger] session_finish(r, t, a, b) == r
            &&& forall|t: i64| #[trigger] session_fail(r, t) == r
            &&& forall|o: Result<(), Error>, m2: ManagerView, t: i64|
                #[trigger] concluded(r, o, m2, t) == r && conclusion_op(r, o, m2, t) is None
        }),
{
}

/// A run whose followers walk sent the commands `a`, storing the records
/// `followers`, whose following walk sent the commands `b`, storing the
/// records `following`, and whose manager received the two streams in any
/// interleaving `cmds`, finishes the session, when nothing failed, with the
/// numbers of distinct accounts that each walk delivered.
pub proof fn lemma_clean_run_counts_observed(
    s: SessionView,
    followers: Seq<Account>,
    a: Seq<DatabaseCommand>,
    following: Seq<Account>,
    b: Seq<DatabaseCommand>,
    cmds: Seq<DatabaseCommand>,
    finish_time: i64,
)
    requires
        s.state == SessionState::Started,
        page_commands(UserType::Followers, followers, a),
        page_commands(UserType::Following, following, b),
        forall|x: DatabaseCommand| #[trigger] cmds.contains(x) <==> (a.contains(x) || b.contains(x)),
    ensures
        ({
            let r = concluded(s, Ok(()), manager_all(initial_manager(s.id), cmds), finish_time);
            &&& r.state == SessionState::Finished
            &&& r.follower_count == ids_of(followers).len() as u64
            &&& r.following_count == ids_of(following).len() as u64
        }),
{
    lemma_page_edges(UserType::Followers, followers, a);
    lemma_page_edges(UserType::Following, following, b);
    assert(follower_ids(cmds) =~= follower_ids(a).union(follower_ids(b)));
    assert(following_ids(cmds) =~= following_ids(a).union(following_ids(b)));
    assert(follower_ids(cmds) =~= ids_of(followers));
    assert(following_ids(cmds) =~= ids_of(following));
    lemma_clean_run_finishes(s, cmds, Ok(()), Ok(()), Ok(()), finish_time);
}

} // verus!
