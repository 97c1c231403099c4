//! User records: external identifier, role and queue of pending commands.

use vstd::prelude::*;

use crate::identity::{decimal_bytes, identity_of, to_be_bytes, xxh3_128, ObjectId};

verus! {

/// The two kinds of participant.
#[derive(Clone, Copy, Debug, PartialEq, Eq, Structural)]
pub enum Role {
    Cantor,
    Offerer,
}

/// A participant, with the commands submitted and not yet applied. Each
/// command is held in its serialized form.
#[derive(Debug)]
pub struct User {
    pub telegram_id: i64,
    pub role: Role,
    pub commands_queue: Vec<String>,
}

/// The mathematical value of a user.
pub struct UserView {
    pub telegram_id: i64,
    pub role: Role,
    pub commands_queue: Seq<String>,
}

impl User {
    pub open spec fn view(&self) -> UserView {
        UserView {
            telegram_id: self.telegram_id,
            role: self.role,
            commands_queue: self.commands_queue@,
        }
    }

    /// The identity of the user with the given external identifier: the
    /// XXH3-128 hash of its decimal text, in big-endian order.
    pub fn id_from_telegram_id(telegram_id: i64) -> (r: ObjectId)
        ensures
            r@ == identity_of(telegram_id),
    {
        let source = decimal_bytes(telegram_id);
        let hash = xxh3_128(&source);
        ObjectId { value: to_be_bytes(hash) }
    }

    /// The identity under which this user is stored.
    pub fn id(&self) -> (r: ObjectId)
        ensures
            r@ == identity_of(self.telegram_id),
    {
        User::id_from_telegram_id(self.telegram_id)
    }

    /// A copy of this user.
    pub fn duplicate(&self) -> (r: User)
        ensures
            r@ == self@,
    {
        let queue = self.commands_queue.clone();
        assert(queue@ =~= self.commands_queue@);
        User { telegram_id: self.telegram_id, role: self.role, commands_queue: queue }
    }
}

} // verus!
