//! The user directory: records keyed by identity, looked up by external
//! identifier or by role, each carrying its queue of pending commands.

use vstd::prelude::*;

use crate::identity::{identity_of, ObjectId};
use crate::user::{Role, User, UserView};

verus! {

/// Failures of directory operations.
#[derive(Clone, Copy, Debug, PartialEq, Eq, Structural)]
pub enum DirectoryError {
    /// No record matches the given identity or external identifier.
    NoSuchUser,
    /// A record with the identity to insert is already present.
    DuplicateIdentity,
}

/// A stored user, under its identity.
#[derive(Debug)]
pub struct UserRecord {
    pub id: ObjectId,
    pub user: User,
}

/// The mathematical value of a stored user.
pub struct RecordView {
    pub id: Seq<u8>,
    pub user: UserView,
}

impl UserRecord {
    pub open spec fn view(&self) -> RecordView {
        RecordView { id: self.id@, user: self.user@ }
    }

    /// A copy of this record.
    pub fn duplicate(&self) -> (r: UserRecord)
        ensures
            r@ == self@,
    {
        UserRecord { id: self.id, user: self.user.duplicate() }
    }
}

/// The record that a user is stored as.
pub open spec fn record_of(u: UserView) -> RecordView {
    RecordView { id: identity_of(u.telegram_id), user: u }
}

/// The records that a roster of users is stored as, in order.
pub open spec fn records_of(users: Seq<UserView>) -> Seq<RecordView> {
    users.map_values(|u: UserView| record_of(u))
}

/// No two records share an identity.
pub open spec fn ids_distinct(d: Seq<RecordView>) -> bool {
    forall|i: int, j: int| 0 <= i < d.len() && 0 <= j < d.len() && i != j ==> d[i].id != d[j].id
}

/// Every record is stored under the identity of its external identifier, and
/// no two records share an identity.
pub open spec fn directory_wf(d: Seq<RecordView>) -> bool {
    &&& forall|i: int| 0 <= i < d.len() ==> #[trigger] d[i].id == identity_of(d[i].user.telegram_id)
    &&& ids_distinct(d)
}

/// Some record has the external identifier `t`.
pub open spec fn has_user(d: Seq<RecordView>, t: i64) -> bool {
    exists|i: int| 0 <= i < d.len() && #[trigger] d[i].user.telegram_id == t
}

/// Some record has the identity `id`.
pub open spec fn has_id(d: Seq<RecordView>, id: Seq<u8>) -> bool {
    exists|i: int| 0 <= i < d.len() && #[trigger] d[i].id == id
}

/// The identity found for external identifier `t`, if any record has it.
pub open spec fn lookup(d: Seq<RecordView>, t: i64) -> Option<Seq<u8>> {
    if has_user(d, t) {
        Some(identity_of(t))
    } else {
        None
    }
}

/// The external identifiers of the records whose role is `role`.
pub open spec fn ids_with_role(d: Seq<RecordView>, role: Role) -> Set<i64> {
    Set::new(
        |t: i64|
            exists|i: int|
                0 <= i < d.len() && #[trigger] d[i].user.telegram_id == t && d[i].user.role == role,
    )
}

/// The queue of the record with external identifier `t` (empty if none has it).
pub open spec fn queue_of(d: Seq<RecordView>, t: i64) -> Seq<String> {
    if has_user(d, t) {
        d[choose|i: int| 0 <= i < d.len() && #[trigger] d[i].user.telegram_id == t].user.commands_queue
    } else {
        seq![]
    }
}

/// A record with its queue replaced by `q`.
pub open spec fn with_record_queue(r: RecordView, q: Seq<String>) -> RecordView {
    RecordView {
        id: r.id,
        user: UserView { telegram_id: r.user.telegram_id, role: r.user.role, commands_queue: q },
    }
}

/// The directory with the queue of the record under identity `id` replaced by `q`.
pub open spec fn with_queue(d: Seq<RecordView>, id: Seq<u8>, q: Seq<String>) -> Seq<RecordView> {
    d.map_values(|r: RecordView| if r.id == id { with_record_queue(r, q) } else { r })
}

/// The position of the record with identity `id` in `records`, if any.
fn find_id(records: &Vec<UserRecord>, id: &ObjectId) -> (r: Option<usize>)
    ensures
        match r {
            Some(j) => j < records@.len() && records@[j as int].id@ == id@,
            None => forall|j: int| 0 <= j < records@.len() ==> records@[j].id@ != id@,
        },
{
    let mut i: usize = 0;
    while i < records.len()
        invariant
            i <= records@.len(),
            forall|j: int| 0 <= j < i ==> records@[j].id@ != id@,
        decreases records@.len() - i,
    {
        if records[i].id.same_as(id) {
            return Some(i);
        }
        i = i + 1;
    }
    None
}

/// The position of the record with external identifier `t` in `records`, if any.
fn find_telegram_id(records: &Vec<UserRecord>, t: i64) -> (r: Option<usize>)
    ensures
        match r {
            Some(j) => j < records@.len() && records@[j as int].user.telegram_id == t,
            None => forall|j: int| 0 <= j < records@.len() ==> records@[j].user.telegram_id != t,
        },
{
    let mut i: usize = 0;
    while i < records.len()
        invariant
            i <= records@.len(),
            forall|j: int| 0 <= j < i ==> records@[j].user.telegram_id != t,
        decreases records@.len() - i,
    {
        if records[i].user.telegram_id == t {
            return Some(i);
        }
        i = i + 1;
    }
    None
}

/// The set of user records.
pub struct Directory {
    records: Vec<UserRecord>,
}

impl Directory {
    pub closed spec fn view(&self) -> Seq<RecordView> {
        self.records@.map_values(|r: UserRecord| r@)
    }

    pub open spec fn wf(&self) -> bool {
        directory_wf(self@)
    }

    /// An empty directory.
    pub fn new() -> (r: Directory)
        ensures
            r@ == Seq::<RecordView>::empty(),
            r.wf(),
    {
        let r = Directory { records: Vec::new() };
        assert(r@ =~= Seq::<RecordView>::empty());
        r
    }

    /// A copy of this directory.
    pub fn duplicate(&self) -> (r: Directory)
        ensures
            r@ == self@,
    {
        let mut records: Vec<UserRecord> = Vec::new();
        let mut i: usize = 0;
        while i < self.records.len()
            invariant
                i <= self.records@.len(),
                records@.len() == i,
                forall|j: int| 0 <= j < i ==> #[trigger] records@[j]@ == self.records@[j]@,
            decreases self.records@.len() - i,
        {
            records.push(self.records[i].duplicate());
            i = i + 1;
        }
        let r = Directory { records };
        assert(r@ =~= self@);
        r
    }

    /// The identity of the user with external identifier `telegram_id`, if
    /// the directory holds one.
    pub fn get_user_id_by_telegram_id(&self, telegram_id: i64) -> (r: Option<ObjectId>)
        requires
            self.wf(),
        ensures
            r is Some <==> lookup(self@, telegram_id) is Some,
            r is Some ==> lookup(self@, telegram_id) == Some(r->0@),
    {
        match find_telegram_id(&self.records, telegram_id) {
            Some(j) => {
                assert(self@[j as int].user.telegram_id == telegram_id);
                assert(self@[j as int].id == self.records@[j as int].id@);
                Some(self.records[j].id)
            },
            None => {
                assert(!has_user(self@, telegram_id)) by {
                    if has_user(self@, telegram_id) {
                        let k = choose|k: int| 0 <= k < self@.len() && #[trigger] self@[k].user.telegram_id == telegram_id;
                        assert(self.records@[k].user.telegram_id == telegram_id);
                    }
                }
                None
            },
        }
    }

    /// The external identifiers of all users with role `role`, each once, in
    /// no promised order.
    pub fn get_telegram_ids_by_role(&self, role: Role) -> (r: Vec<i64>)
        requires
            self.wf(),
        ensures
            r@.to_set() == ids_with_role(self@, role),
            r@.no_duplicates(),
    {
        let mut r: Vec<i64> = Vec::new();
        let mut i: usize = 0;
        assert(r@.to_set() =~= ids_with_role(self@.subrange(0, 0), role));
        while i < self.records.len()
            invariant
                i <= self.records@.len(),
                directory_wf(self@),
                r@.no_duplicates(),
                r@.to_set() == ids_with_role(self@.subrange(0, i as int), role),
            decreases self.records@.len() - i,
        {
            let t = self.records[i].user.telegram_id;
            let ghost pre = self@.subrange(0, i as int);
            let ghost next = self@.subrange(0, i + 1);
            assert(next[i as int] == self@[i as int]);
            if self.records[i].user.role == role {
                assert(!r@.contains(t)) by {
                    if r@.contains(t) {
                        assert(r@.to_set().contains(t));
                        let j = choose|j: int|
                            0 <= j < pre.len() && #[trigger] pre[j].user.telegram_id == t && pre[j].user.role == role;
                        assert(self@[j].id == self@[i as int].id);
                    }
                }
                let ghost old_r = r@;
                r.push(t);
                assert(r@ == old_r.push(t));
                assert(r@.to_set() =~= ids_with_role(next, role)) by {
                    assert forall|x: i64| ids_with_role(next, role).contains(x) implies r@.to_set().contains(x) by {
                        let j = choose|j: int|
                            0 <= j < next.len() && #[trigger] next[j].user.telegram_id == x && next[j].user.role == role;
                        if j < i {
                            assert(pre[j] == next[j]);
                            assert(ids_with_role(pre, role).contains(x));
                            assert(old_r.to_set().contains(x));
                            let k = choose|k: int| 0 <= k < old_r.len() && old_r[k] == x;
                            assert(r@[k] == x);
                        } else {
                            assert(r@[r@.len() - 1] == x);
                        }
                    }
                    assert forall|x: i64| r@.to_set().contains(x) implies ids_with_role(next, role).contains(x) by {
                        if x != t {
                            assert(old_r.contains(x)) by {
                                let k = choose|k: int| 0 <= k < r@.len() && r@[k] == x;
                                assert(old_r[k] == x);
                            }
                            assert(old_r.to_set().contains(x));
                            assert(ids_with_role(pre, role).contains(x));
                            let j = choose|j: int|
                                0 <= j < pre.len() && #[trigger] pre[j].user.telegram_id == x && pre[j].user.role == role;
                            assert(next[j] == pre[j]);
                        } else {
                            assert(next[i as int].user.telegram_id == x);
                        }
                    }
                }
            } else {
                assert(r@.to_set() =~= ids_with_role(next, role)) by {
                    assert forall|x: i64| ids_with_role(next, role).contains(x) implies r@.to_set().contains(x) by {
                        let j = choose|j: int|
                            0 <= j < next.len() && #[trigger] next[j].user.telegram_id == x && next[j].user.role == role;
                        assert(pre[j] == next[j]);
                        assert(ids_with_role(pre, role).contains(x));
                    }
                    assert forall|x: i64| r@.to_set().contains(x) implies ids_with_role(next, role).contains(x) by {
                        assert(ids_with_role(pre, role).contains(x));
                        let j = choose|j: int|
                            0 <= j < pre.len() && #[trigger] pre[j].user.telegram_id == x && pre[j].user.role == role;
                        assert(next[j] == pre[j]);
                    }
                }
            }
            i = i + 1;
        }
        assert(self@.subrange(0, i as int) =~= self@);
        r
    }

    /// The external identifiers of all cantors, each once, in no promised order.
    pub fn get_cantors_telegram_user_ids(&self) -> (r: Vec<i64>)
        requires
            self.wf(),
        ensures
            r@.to_set() == ids_with_role(self@, Role::Cantor),
            r@.no_duplicates(),
    {
        self.get_telegram_ids_by_role(Role::Cantor)
    }

    /// Replaces the queue of the user under identity `user_id` with `commands`.
    pub fn queue_commands(&mut self, user_id: &ObjectId, commands: Vec<String>) -> (r: Result<(), DirectoryError>)
        requires
            old(self).wf(),
        ensures
            final(self).wf(),
            r is Ok <==> has_id(old(self)@, user_id@),
            r is Ok ==> final(self)@ == with_queue(old(self)@, user_id@, commands@),
            r is Err ==> r == Err::<(), DirectoryError>(DirectoryError::NoSuchUser) && final(self)@ == old(self)@,
    {
        match find_id(&self.records, user_id) {
            None => {
                assert(!has_id(self@, user_id@)) by {
                    if has_id(self@, user_id@) {
                        let k = choose|k: int| 0 <= k < self@.len() && #[trigger] self@[k].id == user_id@;
                        assert(self.records@[k].id@ == user_id@);
                    }
                }
                Err(DirectoryError::NoSuchUser)
            },
            Some(j) => {
                let ghost before = self@;
                assert(before[j as int].id == user_id@);
                let record = UserRecord {
                    id: self.records[j].id,
                    user: User {
                        telegram_id: self.records[j].user.telegram_id,
                        role: self.records[j].user.role,
                        commands_queue: commands,
                    },
                };
                self.records.set(j, record);
                assert(self@ =~= with_queue(before, user_id@, commands@)) by {
                    assert forall|k: int| 0 <= k < before.len() && k != j implies before[k].id != user_id@ by {
                        assert(before[k].id != before[j as int].id);
                    }
                    assert forall|k: int| 0 <= k < before.len() && k != j implies self@[k] == before[k] by {
                        assert(self.records@[k] == old(self).records@[k]);
                    }
                }
                Ok(())
            },
        }
    }

    /// Takes out the queue of the user with external identifier
    /// `user_telegram_id`: returns the queued commands, in order, and leaves
    /// that user's queue empty. The caller applies them within the same write
    /// transaction, which it commits only if every one of them succeeds.
    pub fn execute_commands_queue(&mut self, user_telegram_id: i64) -> (r: Result<Vec<String>, DirectoryError>)
        requires
            old(self).wf(),
        ensures
            final(self).wf(),
            r is Ok <==> has_user(old(self)@, user_telegram_id),
            r is Ok ==> r->Ok_0@ == queue_of(old(self)@, user_telegram_id)
                && final(self)@ == with_queue(old(self)@, identity_of(user_telegram_id), seq![]),
            r is Err ==> r == Err::<Vec<String>, DirectoryError>(DirectoryError::NoSuchUser) && final(self)@ == old(self)@,
    {
        match find_telegram_id(&self.records, user_telegram_id) {
            None => {
                assert(!has_user(self@, user_telegram_id)) by {
                    if has_user(self@, user_telegram_id) {
                        let k = choose|k: int| 0 <= k < self@.len() && #[trigger] self@[k].user.telegram_id == user_telegram_id;
                        assert(self.records@[k].user.telegram_id == user_telegram_id);
                    }
                }
                Err(DirectoryError::NoSuchUser)
            },
            Some(j) => {
                let ghost before = self@;
                let ghost id = identity_of(user_telegram_id);
                assert(before[j as int].user.telegram_id == user_telegram_id);
                assert(before[j as int].id == id);
                let ghost c = choose|i: int| 0 <= i < before.len() && #[trigger] before[i].user.telegram_id == user_telegram_id;
                assert(before[c].id == id);
                assert(c == j);
                let queue = self.records[j].user.commands_queue.clone();
                assert(queue@ =~= before[j as int].user.commands_queue);
                let record = UserRecord {
                    id: self.records[j].id,
                    user: User {
                        telegram_id: self.records[j].user.telegram_id,
                        role: self.records[j].user.role,
                        commands_queue: Vec::new(),
                    },
                };
                self.records.set(j, record);
                assert(self@ =~= with_queue(before, id, seq![])) by {
                    assert forall|k: int| 0 <= k < before.len() && k != j implies before[k].id != id by {
                        assert(before[k].id != before[j as int].id);
                    }
                    assert forall|k: int| 0 <= k < before.len() && k != j implies self@[k] == before[k] by {
                        assert(self.records@[k] == old(self).records@[k]);
                    }
                    assert(self@[j as int].user.commands_queue =~= Seq::<String>::empty());
                }
                Ok(queue)
            },
        }
    }

    /// Inserts a record for each user of `users`, under the user's identity.
    /// Fails, inserting nothing, if an identity to insert is already present or
    /// occurs twice among `users`.
    pub fn add_users(&mut self, users: &Vec<User>) -> (r: Result<(), DirectoryError>)
        requires
            old(self).wf(),
        ensures
            final(self).wf(),
            r is Ok <==> ids_distinct(old(self)@ + records_of(users@.map_values(|u: User| u@))),
            r is Ok ==> final(self)@ == old(self)@ + records_of(users@.map_values(|u: User| u@)),
            r is Err ==> r == Err::<(), DirectoryError>(DirectoryError::DuplicateIdentity) && final(self)@ == old(self)@,
    {
        let ghost all = self@ + records_of(users@.map_values(|u: User| u@));
        let ghost m = self@.len();
        let mut added: Vec<UserRecord> = Vec::new();
        let mut i: usize = 0;
        while i < users.len()
            invariant
                i <= users@.len(),
                m == self@.len(),
                self.wf(),
                all == self@ + records_of(users@.map_values(|u: User| u@)),
                added@.len() == i,
                forall|k: int| 0 <= k < i ==> (#[trigger] added@[k])@ == all[m + k],
                ids_distinct(all.subrange(0, m + i)),
            decreases users@.len() - i,
        {
            let id = users[i].id();
            let ghost cur = all.subrange(0, m + i);
            assert(all[m + i] == record_of(users@[i as int]@));
            match find_id(&self.records, &id) {
                Some(j) => {
                    assert(all[j as int] == self@[j as int]);
                    assert(all[j as int].id == all[m + i].id);
                    return Err(DirectoryError::DuplicateIdentity);
                },
                None => {},
            }
            match find_id(&added, &id) {
                Some(k) => {
                    assert(all[m + k].id == all[m + i].id);
                    return Err(DirectoryError::DuplicateIdentity);
                },
                None => {},
            }
            let ghost next = all.subrange(0, m + i + 1);
            assert forall|a: int, b: int| 0 <= a < next.len() && 0 <= b < next.len() && a != b implies next[a].id != next[b].id by {
                if a < m + i && b < m + i {
                    assert(cur[a] == next[a] && cur[b] == next[b]);
                } else if a == m + i && b < m {
                    assert(self.records@[b].id@ != id@);
                } else if b == m + i && a < m {
                    assert(self.records@[a].id@ != id@);
                } else if a == m + i {
                    assert(added@[b - m].id@ != id@);
                } else {
                    assert(added@[a - m].id@ != id@);
                }
            }
            added.push(UserRecord { id, user: users[i].duplicate() });
            i = i + 1;
        }
        assert(all.subrange(0, m + i) =~= all);
        let ghost before = self@;
        let mut n: usize = 0;
        while n < added.len()
            invariant
                n <= added@.len(),
                added@.len() == users@.len(),
                m == before.len(),
                forall|k: int| 0 <= k < added@.len() ==> (#[trigger] added@[k])@ == all[m + k],
                all == before + records_of(users@.map_values(|u: User| u@)),
                self@ == all.subrange(0, m + n),
            decreases added@.len() - n,
        {
            let ghost prev = self.records@;
            let ghost prev_view = self@;
            assert(self@.len() == prev.len());
            assert(prev.len() == m + n);
            let rec = added[n].duplicate();
            self.records.push(rec);
            assert(self.records@ == prev.push(rec));
            assert(self@ =~= all.subrange(0, m + n + 1)) by {
                assert forall|k: int| 0 <= k < m + n implies self@[k] == all[k] by {
                    assert(self.records@[k] == prev[k]);
                    assert(prev_view[k] == prev[k]@);
                    assert(prev_view[k] == all[k]);
                }
                assert(self@[m + n] == rec@);
            }
            n = n + 1;
        }
        assert(all.subrange(0, m + n) =~= all);
        assert forall|k: int| 0 <= k < all.len() implies #[trigger] all[k].id == identity_of(all[k].user.telegram_id) by {
            if k >= m {
                assert(all[k] == record_of(users@[k - m]@));
            } else {
                assert(all[k] == before[k]);
            }
        }
        Ok(())
    }
}

/// The set of external identifiers in `roster` whose role is `role`.
pub open spec fn roster_ids_with_role(roster: Seq<UserView>, role: Role) -> Set<i64> {
    Set::new(
        |t: i64| exists|i: int| 0 <= i < roster.len() && #[trigger] roster[i].telegram_id == t && roster[i].role == role,
    )
}

/// In a well-formed directory at most one record has a given external identifier.
pub proof fn lemma_unique_record(d: Seq<RecordView>, i: int, j: int)
    requires
        directory_wf(d),
        0 <= i < d.len(),
        0 <= j < d.len(),
        d[i].user.telegram_id == d[j].user.telegram_id,
    ensures
        i == j,
{
    assert(d[i].id == identity_of(d[i].user.telegram_id));
    assert(d[j].id == identity_of(d[j].user.telegram_id));
}

/// After bootstrapping an empty directory with `roster`, looking up an external
/// identifier gives the identity of the one record that has it when the roster
/// holds it, and nothing otherwise.
pub proof fn lemma_bootstrap_lookup(roster: Seq<UserView>, t: i64)
    requires
        ids_distinct(Seq::<RecordView>::empty() + records_of(roster)),
    ensures
        ({
            let d = Seq::<RecordView>::empty() + records_of(roster);
            &&& lookup(d, t) == if (exists|i: int| 0 <= i < roster.len() && #[trigger] roster[i].telegram_id == t) {
                Some(identity_of(t))
            } else {
                None::<Seq<u8>>
            }
            &&& forall|i: int, j: int|
                0 <= i < d.len() && 0 <= j < d.len() && d[i].user.telegram_id == t && d[j].user.telegram_id == t ==> i == j
        }),
{
    let d = Seq::<RecordView>::empty() + records_of(roster);
    assert(d =~= records_of(roster));
    if exists|i: int| 0 <= i < roster.len() && #[trigger] roster[i].telegram_id == t {
        let i = choose|i: int| 0 <= i < roster.len() && #[trigger] roster[i].telegram_id == t;
        assert(d[i].user.telegram_id == t);
    } else {
        assert(!has_user(d, t)) by {
            if has_user(d, t) {
                let k = choose|k: int| 0 <= k < d.len() && #[trigger] d[k].user.telegram_id == t;
                assert(roster[k].telegram_id == t);
            }
        }
    }
    assert forall|i: int, j: int|
        0 <= i < d.len() && 0 <= j < d.len() && d[i].user.telegram_id == t && d[j].user.telegram_id == t implies i == j by {
        assert(d[i].id == identity_of(t));
        assert(d[j].id == identity_of(t));
    }
}

/// After bootstrapping an empty directory with `roster`, the role index gives
/// exactly the external identifiers that the roster lists with that role.
pub proof fn lemma_bootstrap_role_index(roster: Seq<UserView>, role: Role)
    ensures
        ids_with_role(Seq::<RecordView>::empty() + records_of(roster), role) == roster_ids_with_role(roster, role),
{
    let d = Seq::<RecordView>::empty() + records_of(roster);
    assert(d =~= records_of(roster));
    assert forall|t: i64| ids_with_role(d, role).contains(t) implies roster_ids_with_role(roster, role).contains(t) by {
        let k = choose|k: int| 0 <= k < d.len() && #[trigger] d[k].user.telegram_id == t && d[k].user.role == role;
        assert(roster[k].telegram_id == t);
    }
    assert forall|t: i64| roster_ids_with_role(roster, role).contains(t) implies ids_with_role(d, role).contains(t) by {
        let k = choose|k: int| 0 <= k < roster.len() && #[trigger] roster[k].telegram_id == t && roster[k].role == role;
        assert(d[k].user.telegram_id == t);
    }
    assert(ids_with_role(d, role) =~= roster_ids_with_role(roster, role));
}

/// Queuing twice before any execution keeps only the second queue: it
/// replaces the first rather than extending it.
pub proof fn lemma_queue_replaces(d: Seq<RecordView>, id: Seq<u8>, a: Seq<String>, b: Seq<String>)
    ensures
        with_queue(with_queue(d, id, a), id, b) == with_queue(d, id, b),
        has_id(with_queue(d, id, a), id) == has_id(d, id),
{
    let d1 = with_queue(d, id, a);
    assert(with_queue(d1, id, b) =~= with_queue(d, id, b));
    if has_id(d, id) {
        let k = choose|k: int| 0 <= k < d.len() && #[trigger] d[k].id == id;
        assert(d1[k].id == id);
    }
    if has_id(d1, id) {
        let k = choose|k: int| 0 <= k < d1.len() && #[trigger] d1[k].id == id;
        assert(d[k].id == id);
    }
}

/// Draining the queue of a user whose queue is empty hands out no command and
/// leaves the directory as it was.
pub proof fn lemma_drain_empty_is_noop(d: Seq<RecordView>, t: i64)
    requires
        directory_wf(d),
        has_user(d, t),
        queue_of(d, t) == Seq::<String>::empty(),
    ensures
        with_queue(d, identity_of(t), seq![]) == d,
{
    let c = choose|i: int| 0 <= i < d.len() && #[trigger] d[i].user.telegram_id == t;
    assert forall|k: int| 0 <= k < d.len() implies #[trigger] with_queue(d, identity_of(t), seq![])[k] == d[k] by {
        if d[k].id == identity_of(t) {
            assert(d[c].id == identity_of(t));
            assert(d[k].id == d[c].id);
            assert(k == c);
            assert(d[k].user.commands_queue =~= Seq::<String>::empty());
        }
    }
    assert(with_queue(d, identity_of(t), seq![]) =~= d);
}

} // verus!
