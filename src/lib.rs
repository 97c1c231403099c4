//! Relay of requests between offerers and cantors, with a per-user durable
//! queue of parsed commands kept in a transactional user directory.

pub mod identity;
pub mod user;
pub mod directory;
pub mod read_transaction;
pub mod write_transaction;
pub mod store;
pub mod relay;
