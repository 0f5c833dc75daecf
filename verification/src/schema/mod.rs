//! Rows of the durable store, as this crate sees them.  The store itself is
//! an external collaborator; times are carried as plain timestamps.

use vstd::prelude::*;

verus! {

/// A row of the user table.
#[derive(Debug, Clone, PartialEq)]
pub struct User {
    pub id: i32,
    pub username: String,
    pub email: String,
    pub phone: String,
    pub avatar: String,
    pub location: String,
    pub age: i32,
    pub gender: i32,
    pub password_hash: String,
}

/// A row of the message table.  `send_time` is set by the store when the
/// row is written; `read_time` stays empty until the recipient reads it.
#[derive(Debug, Clone, PartialEq)]
pub struct Message {
    pub id: i32,
    pub from_user: i32,
    pub to_user: i32,
    pub quote_id: Option<i32>,
    pub message: String,
    pub message_type: i32,
    pub send_time: i64,
    pub read_time: Option<i64>,
}

/// A row of the friend table: one direction of a friendship edge.
#[derive(Debug, Clone, Copy, PartialEq, Eq, Structural)]
pub struct Friend {
    pub id: i32,
    pub user_id: i32,
    pub friend_user_id: i32,
}

/// The fields written when a new user row is inserted.
#[derive(Debug, Clone, PartialEq)]
pub struct NewUser {
    pub username: String,
    pub email: String,
    pub password_hash: String,
}

} // verus!
