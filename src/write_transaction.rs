//! The read-write view of the store: a working copy of the directory that is
//! installed on commit and dropped on abort.

use vstd::prelude::*;

use crate::directory::{
    directory_wf, has_id, has_user, ids_distinct, queue_of, records_of, with_queue, Directory,
    DirectoryError, RecordView,
};
use crate::identity::{identity_of, ObjectId};
use crate::read_transaction::ReadTransactionMethods;
use crate::user::User;

verus! {

/// A write transaction over the directory.
pub struct WriteTransaction {
    pub directory: Directory,
}

impl WriteTransaction {
    pub open spec fn view(&self) -> Seq<RecordView> {
        self.directory@
    }

    /// Replaces the queue of the user under identity `user_id` with the parsed
    /// `commands`. Fails, changing nothing, if no user has that identity.
    pub fn queue_commands(&mut self, user_id: &ObjectId, commands: Vec<String>) -> (r: Result<(), DirectoryError>)
        requires
            directory_wf(old(self)@),
        ensures
            directory_wf(final(self)@),
            r is Ok <==> has_id(old(self)@, user_id@),
            r is Ok ==> final(self)@ == with_queue(old(self)@, user_id@, commands@),
            r is Err ==> r == Err::<(), DirectoryError>(DirectoryError::NoSuchUser) && final(self)@ == old(self)@,
    {
        self.directory.queue_commands(user_id, commands)
    }

    /// Takes out the queue of the user with external identifier
    /// `user_telegram_id`, in order, leaving it empty; the caller applies the
    /// commands within this transaction and commits only if all succeed.
    /// Fails with `NoSuchUser`, changing nothing, if no user has that identifier.
    pub fn execute_commands_queue(&mut self, user_telegram_id: i64) -> (r: Result<Vec<String>, DirectoryError>)
        requires
            directory_wf(old(self)@),
        ensures
            directory_wf(final(self)@),
            r is Ok <==> has_user(old(self)@, user_telegram_id),
            r is Ok ==> r->Ok_0@ == queue_of(old(self)@, user_telegram_id)
                && final(self)@ == with_queue(old(self)@, identity_of(user_telegram_id), seq![]),
            r is Err ==> r == Err::<Vec<String>, DirectoryError>(DirectoryError::NoSuchUser) && final(self)@ == old(self)@,
    {
        self.directory.execute_commands_queue(user_telegram_id)
    }

    /// Inserts a record for each of `users` under its identity; fails with
    /// `DuplicateIdentity`, inserting nothing, if an identity would repeat.
    pub fn add_users(&mut self, users: &Vec<User>) -> (r: Result<(), DirectoryError>)
        requires
            directory_wf(old(self)@),
        ensures
            directory_wf(final(self)@),
            r is Ok <==> ids_distinct(old(self)@ + records_of(users@.map_values(|u: User| u@))),
            r is Ok ==> final(self)@ == old(self)@ + records_of(users@.map_values(|u: User| u@)),
            r is Err ==> r == Err::<(), DirectoryError>(DirectoryError::DuplicateIdentity) && final(self)@ == old(self)@,
    {
        self.directory.add_users(users)
    }
}

impl ReadTransactionMethods for WriteTransaction {
    open spec fn records(&self) -> Seq<RecordView> {
        self.directory@
    }

    fn get_user_id_by_telegram_id(&self, telegram_id: i64) -> (r: Option<ObjectId>) {
        self.directory.get_user_id_by_telegram_id(telegram_id)
    }

    fn get_cantors_telegram_user_ids(&self) -> (r: Vec<i64>) {
        self.directory.get_cantors_telegram_user_ids()
    }
}

} // verus!
