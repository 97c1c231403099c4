//! The read-only view of the store.

use vstd::prelude::*;

use crate::directory::{directory_wf, ids_with_role, lookup, Directory, RecordView};
use crate::identity::ObjectId;
use crate::user::Role;

verus! {

/// What a read transaction offers: indexed lookups, no mutation.
pub trait ReadTransactionMethods {
    /// The records seen by this transaction.
    spec fn records(&self) -> Seq<RecordView>;

    /// The identity of the user with external identifier `telegram_id`, if any.
    fn get_user_id_by_telegram_id(&self, telegram_id: i64) -> (r: Option<ObjectId>)
        requires
            directory_wf(self.records()),
        ensures
            r is Some <==> lookup(self.records(), telegram_id) is Some,
            r is Some ==> lookup(self.records(), telegram_id) == Some(r->0@),
    ;

    /// The external identifiers of all cantors, each once, in no promised order.
    fn get_cantors_telegram_user_ids(&self) -> (r: Vec<i64>)
        requires
            directory_wf(self.records()),
        ensures
            r@.to_set() == ids_with_role(self.records(), Role::Cantor),
            r@.no_duplicates(),
    ;
}

/// A read transaction: a shared view of the committed directory.
pub struct ReadTransaction<'a> {
    pub directory: &'a Directory,
}

impl<'a> ReadTransactionMethods for ReadTransaction<'a> {
    open spec fn records(&self) -> Seq<RecordView> {
        self.directory@
    }

    fn get_user_id_by_telegram_id(&self, telegram_id: i64) -> (r: Option<ObjectId>) {
        self.directory.get_user_id_by_telegram_id(telegram_id)
    }

    fn get_cantors_telegram_user_ids(&self) -> (r: Vec<i64>) {
        self.directory.get_cantors_telegram_user_ids()
    }
}

} // verus!
