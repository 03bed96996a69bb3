use std::collections::HashSet;
use vstd::prelude::*;
use crate::command::DatabaseCommand;
use crate::snapshot::UserSnapshot;

verus! {

/// One statement for the storage to run, tagged with the session it
/// belongs to.
#[derive(Debug, Clone, PartialEq, Eq)]
pub enum StoreOp {
    InsertSnapshot { session_id: i64, snapshot: UserSnapshot },
    InsertFollower { session_id: i64, user_id: u64 },
    InsertFollowing { session_id: i64, user_id: u64 },
}

/// The single writer of one session's rows. It takes the commands of both
/// fetch pipelines one at a time and says which statement each one calls
/// for; a row that it has written already is not written again.
pub struct DbManager {
    session_id: i64,
    snapshots: HashSet<u64>,
    followers: HashSet<u64>,
    following: HashSet<u64>,
    failed: bool,
    snapshot_rows: Ghost<Seq<u64>>,
    follower_rows: Ghost<Seq<u64>>,
    following_rows: Ghost<Seq<u64>>,
}

/// The model of a `DbManager`: the account ids of the snapshot, follower
/// and following rows written for the session, in the order written, and
/// whether a pipeline reported a failure.
pub struct ManagerView {
    pub session_id: i64,
    pub snapshots: Seq<u64>,
    pub followers: Seq<u64>,
    pub following: Seq<u64>,
    pub failed: bool,
}

impl View for DbManager {
    type V = ManagerView;

    closed spec fn view(&self) -> ManagerView {
        ManagerView {
            session_id: self.session_id,
            snapshots: self.snapshot_rows@,
            followers: self.follower_rows@,
            following: self.following_rows@,
            failed: self.failed,
        }
    }
}

/// No row is written twice.
pub open spec fn manager_wf(m: ManagerView) -> bool {
    &&& m.snapshots.no_duplicates()
    &&& m.followers.no_duplicates()
    &&& m.following.no_duplicates()
}

/// A manager of session `session_id` that has written nothing.
pub open spec fn initial_manager(session_id: i64) -> ManagerView {
    ManagerView {
        session_id,
        snapshots: Seq::empty(),
        followers: Seq::empty(),
        following: Seq::empty(),
        failed: false,
    }
}

/// The statement that command `c` calls for: an insert of a row not yet
/// written, else none.
pub open spec fn manager_op(m: ManagerView, c: DatabaseCommand) -> Option<StoreOp> {
    match c {
        DatabaseCommand::StoreSnapshot(s) => if m.snapshots.contains(s.user_id) {
            None
        } else {
            Some(StoreOp::InsertSnapshot { session_id: m.session_id, snapshot: s })
        },
        DatabaseCommand::StoreFollower(id) => if m.followers.contains(id) {
            None
        } else {
            Some(StoreOp::InsertFollower { session_id: m.session_id, user_id: id })
        },
        DatabaseCommand::StoreFollowing(id) => if m.following.contains(id) {
            None
        } else {
            Some(StoreOp::InsertFollowing { session_id: m.session_id, user_id: id })
        },
        DatabaseCommand::FailedSession => None,
    }
}

/// The manager after command `c`.
pub open spec fn manager_step(m: ManagerView, c: DatabaseCommand) -> ManagerView {
    match c {
        DatabaseCommand::StoreSnapshot(s) => if m.snapshots.contains(s.user_id) {
            m
        } else {
            ManagerView { snapshots: m.snapshots.push(s.user_id), ..m }
        },
        DatabaseCommand::StoreFollower(id) => if m.followers.contains(id) {
            m
        } else {
            ManagerView { followers: m.followers.push(id), ..m }
        },
        DatabaseCommand::StoreFollowing(id) => if m.following.contains(id) {
            m
        } else {
            ManagerView { following: m.following.push(id), ..m }
        },
        DatabaseCommand::FailedSession => ManagerView { failed: true, ..m },
    }
}

/// The manager after each of `cmds` in turn.
pub open spec fn manager_all(m: ManagerView, cmds: Seq<DatabaseCommand>) -> ManagerView
    decreases cmds.len(),
{
    if cmds.len() == 0 {
        m
    } else {
        manager_step(manager_all(m, cmds.drop_last()), cmds.last())
    }
}

impl DbManager {
    /// A manager of session `session_id` that has written nothing.
    pub fn new(session_id: i64) -> (m: DbManager)
        ensures
            m@ == initial_manager(session_id),
            m.wf(),
    {
        let m = DbManager {
            session_id,
            snapshots: HashSet::new(),
            followers: HashSet::new(),
            following: HashSet::new(),
            failed: false,
            snapshot_rows: Ghost(Seq::empty()),
            follower_rows: Ghost(Seq::empty()),
            following_rows: Ghost(Seq::empty()),
        };
        proof {
            assert(m.snapshots@ =~= m.snapshot_rows@.to_set());
            assert(m.followers@ =~= m.follower_rows@.to_set());
            assert(m.following@ =~= m.following_rows@.to_set());
        }
        m
    }

    /// No row is written twice, and each set holds exactly the ids of the
    /// rows written.
    pub closed spec fn wf(&self) -> bool {
        &&& manager_wf(self@)
        &&& self.snapshots@ == self.snapshot_rows@.to_set()
        &&& self.followers@ == self.follower_rows@.to_set()
        &&& self.following@ == self.following_rows@.to_set()
    }

    /// Takes one command and returns the statement to run for it, if any.
    /// A snapshot or edge already written for this session calls for none;
    /// `FailedSession` is recorded here and calls for none.
    pub fn apply(&mut self, cmd: DatabaseCommand) -> (op: Option<StoreOp>)
        requires
            old(self).wf(),
        ensures
            final(self).wf(),
            final(self)@ == manager_step(old(self)@, cmd),
            op == manager_op(old(self)@, cmd),
    {
        broadcast use vstd::std_specs::hash::group_hash_axioms;

        match cmd {
            DatabaseCommand::StoreSnapshot(s) => {
                proof {
                    lemma_push_to_set(self.snapshot_rows@, s.user_id);
                }
                if self.snapshots.insert(s.user_id) {
                    self.snapshot_rows = Ghost(self.snapshot_rows@.push(s.user_id));
                    Some(StoreOp::InsertSnapshot { session_id: self.session_id, snapshot: s })
                } else {
                    assert(self.snapshots@ =~= self.snapshot_rows@.to_set());
                    None
                }
            },
            DatabaseCommand::StoreFollower(id) => {
                proof {
                    lemma_push_to_set(self.follower_rows@, id);
                }
                if self.followers.insert(id) {
                    self.follower_rows = Ghost(self.follower_rows@.push(id));
                    Some(StoreOp::InsertFollower { session_id: self.session_id, user_id: id })
                } else {
                    assert(self.followers@ =~= self.follower_rows@.to_set());
                    None
                }
            },
            DatabaseCommand::StoreFollowing(id) => {
                proof {
                    lemma_push_to_set(self.following_rows@, id);
                }
                if self.following.insert(id) {
                    self.following_rows = Ghost(self.following_rows@.push(id));
                    Some(StoreOp::InsertFollowing { session_id: self.session_id, user_id: id })
                } else {
                    assert(self.following@ =~= self.following_rows@.to_set());
                    None
                }
            },
            DatabaseCommand::FailedSession => {
                self.failed = true;
                None
            },
        }
    }

    pub fn session_id(&self) -> (id: i64)
        ensures
            id == self@.session_id,
    {
        self.session_id
    }

    /// Whether a pipeline reported a failure.
    pub fn failed(&self) -> (b: bool)
        ensures
            b == self@.failed,
    {
        self.failed
    }

    /// The number of distinct followers recorded.
    pub fn follower_count(&self) -> (n: u64)
        requires
            self.wf(),
        ensures
            n == self@.followers.to_set().len(),
    {
        broadcast use vstd::std_specs::hash::group_hash_axioms;

        self.followers.len() as u64
    }

    /// The number of distinct followed accounts recorded.
    pub fn following_count(&self) -> (n: u64)
        requires
            self.wf(),
        ensures
            n == self@.following.to_set().len(),
    {
        broadcast use vstd::std_specs::hash::group_hash_axioms;

        self.following.len() as u64
    }
}

/// The accounts that `cmds` record as followers.
pub open spec fn follower_ids(cmds: Seq<DatabaseCommand>) -> Set<u64> {
    Set::new(|id: u64| cmds.contains(DatabaseCommand::StoreFollower(id)))
}

/// The accounts that `cmds` record as followed.
pub open spec fn following_ids(cmds: Seq<DatabaseCommand>) -> Set<u64> {
    Set::new(|id: u64| cmds.contains(DatabaseCommand::StoreFollowing(id)))
}

proof fn lemma_push_to_set(ids: Seq<u64>, id: u64)
    ensures
        ids.push(id).to_set() =~= ids.to_set().insert(id),
{
    let pushed = ids.push(id);
    assert forall|y: u64| pushed.contains(y) <==> (ids.contains(y) || y == id) by {
        if pushed.contains(y) {
            let i = choose|i: int| 0 <= i < pushed.len() && pushed[i] == y;
            if i < ids.len() {
                assert(ids[i] == y);
            }
        }
        if ids.contains(y) {
            let i = choose|i: int| 0 <= i < ids.len() && ids[i] == y;
            assert(pushed[i] == y);
        }
        if y == id {
            assert(pushed[ids.len() as int] == y);
        }
    }
}

/// Each command keeps every row written at most once.
pub proof fn lemma_step_keeps_wf(m: ManagerView, c: DatabaseCommand)
    requires
        manager_wf(m),
    ensures
        manager_wf(manager_step(m, c)),
{
}

proof fn lemma_written_once(ids: Seq<u64>, id: u64)
    requires
        ids.no_duplicates(),
        ids.contains(id),
    ensures
        ids.to_multiset().count(id) == 1,
{
    broadcast use vstd::seq_lib::group_to_multiset_ensures;

    ids.lemma_multiset_has_no_duplicates();
    let i = choose|i: int| 0 <= i < ids.len() && ids[i] == id;
    assert(ids.to_multiset().count(id) > 0) by {
        assert(ids.remove(i).to_multiset() =~= ids.to_multiset().remove(ids[i]));
        assert(ids.to_multiset().len() == ids.len());
        assert(ids.remove(i).to_multiset().len() == ids.remove(i).len());
    }
}

/// Storing the same snapshot twice writes exactly one snapshot row for its
/// account in the session: the second command calls for no statement and
/// changes nothing.
pub proof fn lemma_snapshot_stored_once(m: ManagerView, s: UserSnapshot)
    requires
        manager_wf(m),
    ensures
        manager_op(manager_step(m, DatabaseCommand::StoreSnapshot(s)), DatabaseCommand::StoreSnapshot(s))
            is None,
        manager_step(manager_step(m, DatabaseCommand::StoreSnapshot(s)), DatabaseCommand::StoreSnapshot(s))
            == manager_step(m, DatabaseCommand::StoreSnapshot(s)),
        manager_step(
            manager_step(m, DatabaseCommand::StoreSnapshot(s)),
            DatabaseCommand::StoreSnapshot(s),
        ).snapshots.to_multiset().count(s.user_id) == 1,
{
    let m1 = manager_step(m, DatabaseCommand::StoreSnapshot(s));
    assert(m1.snapshots.contains(s.user_id)) by {
        if !m.snapshots.contains(s.user_id) {
            assert(m1.snapshots[m.snapshots.len() as int] == s.user_id);
        }
    }
    lemma_step_keeps_wf(m, DatabaseCommand::StoreSnapshot(s));
    lemma_written_once(m1.snapshots, s.user_id);
}

/// Recording the same follower edge twice writes exactly one follower row
/// for that account in the session; the same holds of following edges.
pub proof fn lemma_edge_stored_once(m: ManagerView, c: DatabaseCommand)
    requires
        manager_wf(m),
        c is StoreFollower || c is StoreFollowing,
    ensures
        manager_op(manager_step(m, c), c) is None,
        manager_step(manager_step(m, c), c) == manager_step(m, c),
        c matches DatabaseCommand::StoreFollower(id) ==> manager_step(
            manager_step(m, c),
            c,
        ).followers.to_multiset().count(id) == 1,
        c matches DatabaseCommand::StoreFollowing(id) ==> manager_step(
            manager_step(m, c),
            c,
        ).following.to_multiset().count(id) == 1,
{
    let m1 = manager_step(m, c);
    lemma_step_keeps_wf(m, c);
    match c {
        DatabaseCommand::StoreFollower(id) => {
            assert(m1.followers.contains(id)) by {
                if !m.followers.contains(id) {
                    assert(m1.followers[m.followers.len() as int] == id);
                }
            }
            lemma_written_once(m1.followers, id);
        },
        DatabaseCommand::StoreFollowing(id) => {
            assert(m1.following.contains(id)) by {
                if !m.following.contains(id) {
                    assert(m1.following[m.following.len() as int] == id);
                }
            }
            lemma_written_once(m1.following, id);
        },
        _ => {},
    }
}

/// After any commands, a manager that started empty has written each row
/// at most once, has a follower row for exactly the accounts that the
/// commands record as followers and a following row for exactly those
/// recorded as followed, and has seen a failure exactly when the commands
/// hold `FailedSession`.
pub proof fn lemma_manager_records(session_id: i64, cmds: Seq<DatabaseCommand>)
    ensures
        manager_wf(manager_all(initial_manager(session_id), cmds)),
        manager_all(initial_manager(session_id), cmds).session_id == session_id,
        manager_all(initial_manager(session_id), cmds).followers.to_set() == follower_ids(cmds),
        manager_all(initial_manager(session_id), cmds).following.to_set() == following_ids(cmds),
        manager_all(initial_manager(session_id), cmds).failed == cmds.contains(
            DatabaseCommand::FailedSession,
        ),
    decreases cmds.len(),
{
    let m0 = initial_manager(session_id);
    if cmds.len() == 0 {
        assert(m0.followers.to_set() =~= follower_ids(cmds));
        assert(m0.following.to_set() =~= following_ids(cmds));
    } else {
        let prev = cmds.drop_last();
        let c = cmds.last();
        lemma_manager_records(session_id, prev);
        let m = manager_all(m0, prev);
        lemma_step_keeps_wf(m, c);
        let m1 = manager_step(m, c);
        assert(cmds =~= prev.push(c));
        assert forall|x: DatabaseCommand| cmds.contains(x) <==> (prev.contains(x) || x == c) by {
            if cmds.contains(x) {
                let i = choose|i: int| 0 <= i < cmds.len() && cmds[i] == x;
                if i < prev.len() {
                    assert(prev[i] == x);
                }
            }
            if prev.contains(x) {
                let i = choose|i: int| 0 <= i < prev.len() && prev[i] == x;
                assert(cmds[i] == x);
            }
            if x == c {
                assert(cmds[cmds.len() - 1] == x);
            }
        }
        match c {
            DatabaseCommand::StoreFollower(id) => lemma_push_to_set(m.followers, id),
            DatabaseCommand::StoreFollowing(id) => lemma_push_to_set(m.following, id),
            _ => {},
        }
        assert(m1.followers.to_set() =~= follower_ids(cmds));
        assert(m1.following.to_set() =~= following_ids(cmds));
    }
}

} // verus!
