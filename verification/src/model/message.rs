//! Message-facing request bodies and the relay's own message types.

use vstd::prelude::*;
use crate::model::page_offset;

verus! {

/// A message as presented to API clients.  Times are timestamps (seconds
/// or an equivalent fixed unit) rather than a calendar representation.
#[derive(Debug, Clone, PartialEq)]
pub struct Message {
    pub id: i32,
    pub quote_id: Option<i32>,
    pub send_time: i64,
    pub read_time: Option<i64>,
    pub from_user: i32,
    pub to_user: i32,
    pub message_type: i32,
    pub message: String,
}

/// Query parameters of the paged history endpoint.
#[derive(Debug, Clone, PartialEq)]
pub struct HistoryPageModel {
    pub page: Option<i32>,
}

impl HistoryPageModel {
    /// Row offset at which the requested page of history starts.
    pub fn offset(&self) -> (r: i64)
        ensures
            r == page_offset(self.page),
    {
        match self.page {
            None => 0,
            Some(p) => 10 * ((p as i64) - 1),
        }
    }
}

/// Body of the send-message endpoint.
#[derive(Debug, Clone, PartialEq)]
pub struct SendMessageModel {
    pub quote_id: Option<i32>,
    pub to_user: i32,
    pub message_type: i32,
    pub message: String,
}

/// The delivery copy of a persisted message, pushed to the recipient's live
/// connection.  Constructed only from an already stored message row.
#[derive(Debug, Clone, PartialEq)]
pub struct StreamMessage {
    pub id: i32,
    pub user_id: i32,
    pub quote_id: Option<i32>,
    pub send_time: i64,
    pub message_type: i32,
    pub message: String,
}

/// Registration request a session sends to the relay directory when its
/// transport is up: install `addr` as the live connection of `user_id`.
#[derive(Debug, Clone, Copy, PartialEq, Eq, Structural)]
pub struct Connect {
    pub user_id: i32,
    pub addr: u64,
}

/// Deregistration request a session sends to the relay directory when it
/// terminates.
#[derive(Debug, Clone, Copy, PartialEq, Eq, Structural)]
pub struct Disconnect {
    pub user_id: i32,
}

} // verus!
