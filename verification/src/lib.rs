//! Core of a chat backend: the real-time message relay.
//!
//! The relay keeps a process-wide directory of currently connected users
//! (`api::message::MessageStreamServer`), one session object per live duplex
//! connection (`api::message::MessageStreamSession`), and the integration
//! point that pushes a freshly persisted message to its recipient's live
//! connection if one exists.  The wire frame sent to a client is built and
//! checked by `wire`.  The request-level decision logic of the surrounding
//! CRUD handlers (validation, pagination, login and password outcomes) lives
//! in `api`; the HTTP server, the database and the transport itself are
//! collaborators outside this crate.

pub mod api;
pub mod model;
pub mod schema;
pub mod wire;
