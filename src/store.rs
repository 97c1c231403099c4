//! The store: the committed directory, guarded by a readers-writer discipline.
//! Any number of read transactions may be open together while no write
//! transaction is; a write transaction excludes every other transaction.

use vstd::prelude::*;

use crate::directory::{
    directory_wf, has_id, ids_distinct, ids_with_role, queue_of, records_of, with_queue, Directory,
    DirectoryError, RecordView,
};
use crate::identity::ObjectId;
use crate::read_transaction::{ReadTransaction, ReadTransactionMethods};
use crate::user::{Role, User};
use crate::write_transaction::WriteTransaction;

verus! {

/// Failures of a whole transaction on the store.
#[derive(Clone, Copy, Debug, PartialEq, Eq, Structural)]
pub enum StoreError {
    /// The transaction could not begin: another one excludes it.
    Busy,
    /// The directory refused the operation; the transaction was dropped.
    Directory(DirectoryError),
}

/// The mathematical value of the store.
pub struct StoreView {
    pub directory: Seq<RecordView>,
    pub readers: nat,
    pub writing: bool,
}

/// The committed directory is well formed, and a write is never open together
/// with a read.
pub open spec fn store_wf(s: StoreView) -> bool {
    &&& directory_wf(s.directory)
    &&& s.writing ==> s.readers == 0
}

/// A read transaction may begin.
pub open spec fn can_begin_read(s: StoreView) -> bool {
    !s.writing
}

/// A write transaction may begin: the store is quiescent.
pub open spec fn can_begin_write(s: StoreView) -> bool {
    !s.writing && s.readers == 0
}

/// The store once a read transaction has begun.
pub open spec fn after_begin_read(s: StoreView) -> StoreView {
    StoreView { readers: s.readers + 1, ..s }
}

/// The store once a write transaction has begun.
pub open spec fn after_begin_write(s: StoreView) -> StoreView {
    StoreView { writing: true, ..s }
}

/// The store once the open write transaction has been dropped.
pub open spec fn after_abort(s: StoreView) -> StoreView {
    StoreView { writing: false, ..s }
}

/// The store once the open write transaction has installed `d`.
pub open spec fn after_commit(s: StoreView, d: Seq<RecordView>) -> StoreView {
    StoreView { directory: d, writing: false, ..s }
}

pub struct Store {
    directory: Directory,
    readers: u64,
    writing: bool,
}

impl Store {
    pub closed spec fn view(&self) -> StoreView {
        StoreView { directory: self.directory@, readers: self.readers as nat, writing: self.writing }
    }

    pub open spec fn wf(&self) -> bool {
        store_wf(self@)
    }

    /// A store with an empty directory and no open transaction.
    pub fn new() -> (r: Store)
        ensures
            r.wf(),
            r@.directory == Seq::<RecordView>::empty(),
            r@.readers == 0,
            !r@.writing,
    {
        Store { directory: Directory::new(), readers: 0, writing: false }
    }

    /// Opens a read transaction if no write transaction is open (and the
    /// count of readers has room); returns whether it did.
    pub fn try_begin_read(&mut self) -> (r: bool)
        requires
            old(self).wf(),
        ensures
            final(self).wf(),
            r == (can_begin_read(old(self)@) && old(self)@.readers < u64::MAX),
            r ==> final(self)@ == after_begin_read(old(self)@),
            !r ==> final(self)@ == old(self)@,
    {
        if self.writing || self.readers == u64::MAX {
            false
        } else {
            self.readers = self.readers + 1;
            true
        }
    }

    /// The view of an open read transaction.
    pub fn read(&self) -> (r: ReadTransaction<'_>)
        requires
            self.wf(),
            self@.readers > 0,
        ensures
            r.directory@ == self@.directory,
            directory_wf(r.directory@),
    {
        ReadTransaction { directory: &self.directory }
    }

    /// Closes one open read transaction.
    pub fn end_read(&mut self)
        requires
            old(self).wf(),
            old(self)@.readers > 0,
        ensures
            final(self).wf(),
            final(self)@ == (StoreView { readers: (old(self)@.readers - 1) as nat, ..old(self)@ }),
    {
        self.readers = self.readers - 1;
    }

    /// Opens the write transaction if the store is quiescent: it starts from
    /// the committed directory.
    pub fn try_begin_write(&mut self) -> (r: Option<WriteTransaction>)
        requires
            old(self).wf(),
        ensures
            final(self).wf(),
            r is Some == can_begin_write(old(self)@),
            r is Some ==> final(self)@ == after_begin_write(old(self)@) && r->0@ == old(self)@.directory,
            r is None ==> final(self)@ == old(self)@,
    {
        if self.writing || self.readers != 0 {
            None
        } else {
            self.writing = true;
            Some(WriteTransaction { directory: self.directory.duplicate() })
        }
    }

    /// Installs what the open write transaction holds and closes it.
    pub fn commit(&mut self, transaction: WriteTransaction)
        requires
            old(self).wf(),
            old(self)@.writing,
            directory_wf(transaction@),
        ensures
            final(self).wf(),
            final(self)@ == after_commit(old(self)@, transaction@),
    {
        self.directory = transaction.directory;
        self.writing = false;
    }

    /// Drops the open write transaction: nothing it did is kept.
    pub fn abort(&mut self, _transaction: WriteTransaction)
        requires
            old(self).wf(),
            old(self)@.writing,
        ensures
            final(self).wf(),
            final(self)@ == after_abort(old(self)@),
    {
        self.writing = false;
    }

    /// Inserts a record for each of `users` in one write transaction,
    /// committed only if the directory takes them all.
    pub fn add_users(&mut self, users: &Vec<User>) -> (r: Result<(), StoreError>)
        requires
            old(self).wf(),
        ensures
            final(self).wf(),
            final(self)@.readers == old(self)@.readers,
            final(self)@.writing == old(self)@.writing,
            r == Err::<(), StoreError>(StoreError::Busy) <==> !can_begin_write(old(self)@),
            can_begin_write(old(self)@) ==> (r is Ok <==> ids_distinct(
                old(self)@.directory + records_of(users@.map_values(|u: User| u@)),
            )),
            r is Ok ==> final(self)@.directory == old(self)@.directory + records_of(users@.map_values(|u: User| u@)),
            r is Err ==> final(self)@.directory == old(self)@.directory,
            r is Err && can_begin_write(old(self)@) ==> r == Err::<(), StoreError>(
                StoreError::Directory(DirectoryError::DuplicateIdentity),
            ),
    {
        match self.try_begin_write() {
            None => Err(StoreError::Busy),
            Some(mut transaction) => match transaction.add_users(users) {
                Ok(()) => {
                    self.commit(transaction);
                    Ok(())
                },
                Err(e) => {
                    self.abort(transaction);
                    Err(StoreError::Directory(e))
                },
            },
        }
    }

    /// Replaces the queue of the user under identity `user_id` with `commands`
    /// in one write transaction.
    pub fn queue_commands(&mut self, user_id: &ObjectId, commands: Vec<String>) -> (r: Result<(), StoreError>)
        requires
            old(self).wf(),
        ensures
            final(self).wf(),
            final(self)@.readers == old(self)@.readers,
            final(self)@.writing == old(self)@.writing,
            r == Err::<(), StoreError>(StoreError::Busy) <==> !can_begin_write(old(self)@),
            can_begin_write(old(self)@) ==> (r is Ok <==> has_id(old(self)@.directory, user_id@)),
            r is Ok ==> final(self)@.directory == with_queue(old(self)@.directory, user_id@, commands@),
            r is Err ==> final(self)@.directory == old(self)@.directory,
            r is Err && can_begin_write(old(self)@) ==> r == Err::<(), StoreError>(
                StoreError::Directory(DirectoryError::NoSuchUser),
            ),
    {
        match self.try_begin_write() {
            None => Err(StoreError::Busy),
            Some(mut transaction) => match transaction.queue_commands(user_id, commands) {
                Ok(()) => {
                    self.commit(transaction);
                    Ok(())
                },
                Err(e) => {
                    self.abort(transaction);
                    Err(StoreError::Directory(e))
                },
            },
        }
    }

    /// The external identifiers of all cantors, read in one read transaction.
    pub fn get_cantors_telegram_user_ids(&mut self) -> (r: Result<Vec<i64>, StoreError>)
        requires
            old(self).wf(),
        ensures
            final(self).wf(),
            final(self)@ == old(self)@,
            r is Err <==> !(can_begin_read(old(self)@) && old(self)@.readers < u64::MAX),
            r is Err ==> r == Err::<Vec<i64>, StoreError>(StoreError::Busy),
            r is Ok ==> r->Ok_0@.to_set() == ids_with_role(old(self)@.directory, Role::Cantor)
                && r->Ok_0@.no_duplicates(),
    {
        if !self.try_begin_read() {
            return Err(StoreError::Busy);
        }
        let cantors = self.read().get_cantors_telegram_user_ids();
        self.end_read();
        Ok(cantors)
    }
}

/// Readers and the writer exclude each other: while a write transaction is open
/// no other transaction may begin; while reads are open a write may not begin,
/// but further reads may; every transition keeps this so.
pub proof fn lemma_isolation(s: StoreView)
    requires
        store_wf(s),
    ensures
        s.writing ==> !can_begin_read(s) && !can_begin_write(s),
        s.readers > 0 ==> !can_begin_write(s),
        !s.writing ==> can_begin_read(s),
        can_begin_read(s) ==> store_wf(after_begin_read(s)),
        can_begin_write(s) ==> store_wf(after_begin_write(s)),
        s.writing ==> store_wf(after_abort(s)),
{
}

/// A drain whose transaction is aborted (because a command failed) leaves every
/// user's committed queue whole, whatever the transaction did meanwhile.
pub proof fn lemma_aborted_drain_keeps_queue(s: StoreView, t: i64)
    requires
        store_wf(s),
        can_begin_write(s),
    ensures
        after_abort(after_begin_write(s)).directory == s.directory,
        queue_of(after_abort(after_begin_write(s)).directory, t) == queue_of(s.directory, t),
{
}

} // verus!
