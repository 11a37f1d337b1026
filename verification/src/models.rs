//! Records exchanged with the durable store.
//!
//! Identifiers are plain 128-bit values (wide enough to carry a store UUID
//! whole) and timestamps are seconds since the
//! epoch; the adapter that talks to the store converts its own identifier
//! and time types to these before anything here sees them.

use vstd::prelude::*;

verus! {

/// A registered account, as the durable store returns it.
#[derive(Clone, PartialEq, Eq, Debug)]
pub struct User {
    pub id: u128,
    pub username: String,
    pub password_hash: String,
    pub created_at: i64,
}

/// A named channel grouping the connections whose messages are mutually
/// visible.
#[derive(Clone, PartialEq, Eq, Debug)]
pub struct ChatRoom {
    pub id: u128,
    pub name: String,
    pub created_at: i64,
}

/// A durable chat message. Immutable once created: the store assigns `id`
/// and `created_at` when it persists the record.
#[derive(Clone, PartialEq, Eq, Debug)]
pub struct Message {
    pub id: u128,
    pub room_id: u128,
    pub user_id: u128,
    pub content: String,
    pub created_at: i64,
}

} // verus!
