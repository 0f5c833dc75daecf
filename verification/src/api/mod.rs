//! Decision logic of the API handlers.
//!
//! Each handler's single-step reads and writes against the store, and the
//! HTTP plumbing around them, are collaborators outside this crate; what is
//! here is every decision those handlers make on the values involved.

pub mod message;
pub mod user;

use vstd::prelude::*;
use crate::model::ResultModel;

verus! {

/// The response every guarded endpoint gives an unauthenticated caller.
pub open spec fn is_not_logged_in_response<T>(e: ResultModel<T>) -> bool {
    &&& e.success == false
    &&& e.code == 401
    &&& e.data is None
    &&& e.message matches Some(m) && m@ == "Not logged in."@
}

/// Gate shared by the guarded endpoints: an authenticated caller passes its
/// user id through, an unauthenticated one is turned away.
pub fn require_login<T>(identity: Option<i32>) -> (r: Result<i32, ResultModel<T>>)
    ensures
        match identity {
            Some(u) => r == Ok::<i32, ResultModel<T>>(u),
            None => r matches Err(e) && is_not_logged_in_response(e),
        },
{
    match identity {
        Some(u) => Ok(u),
        None => Err(ResultModel {
            success: false,
            code: 401,
            data: None,
            message: Some("Not logged in.".to_owned()),
        }),
    }
}

/// The user id a session credential names: the whole string read as one
/// signed 32-bit decimal number.
pub open spec fn spec_user_id(s: Seq<char>) -> Option<i32> {
    match crate::wire::spec_parse_i32(s, 0) {
        Some((v, j)) => if j == s.len() {
            Some(v as i32)
        } else {
            None
        },
        None => None,
    }
}

/// Read an authenticated identity back from its string form.
pub fn parse_user_id(s: &str) -> (r: Option<i32>)
    ensures
        r == spec_user_id(s@),
{
    let len = s.unicode_len();
    match crate::wire::parse_i32_at(s, len, 0) {
        Some((v, j)) => if j == len {
            Some(v)
        } else {
            None
        },
        None => None,
    }
}

} // verus!
