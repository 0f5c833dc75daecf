//! Request and response bodies shared by the API handlers.

pub mod message;
pub mod user;

use vstd::prelude::*;

verus! {

/// Envelope for every API response: a success flag, an HTTP-like status
/// code, an optional payload and an optional human-readable message.
#[derive(Debug, Clone, PartialEq)]
pub struct ResultModel<T> {
    pub success: bool,
    pub code: u16,
    pub data: Option<T>,
    pub message: Option<String>,
}

/// A user-directory search: a pattern and an optional 1-based page number.
#[derive(Debug, Clone, PartialEq)]
pub struct SearchModel {
    pub patterns: String,
    pub page: Option<i32>,
}

/// Row offset of a 1-based page of ten entries; a missing page means the
/// first one.
pub open spec fn page_offset(page: Option<i32>) -> int {
    match page {
        Option::None => 0,
        Option::Some(p) => 10 * (p - 1),
    }
}

impl SearchModel {
    /// Row offset at which the requested page of results starts.
    pub fn offset(&self) -> (r: i64)
        ensures
            r == page_offset(self.page),
    {
        match self.page {
            None => 0,
            Some(p) => 10 * ((p as i64) - 1),
        }
    }
}

} // verus!
