//! The core of a transactional write-session manager over a remote, branch-versioned store,
//! together with the cursors of its streaming file adapters.
//!
//! Nothing here performs I/O. Every operation that involves the remote store is split into the
//! decision, taken here, and the remote call, made by the caller: a function either says which
//! remote call to make next, or takes the outcome of the call just made and records it.

pub mod errors;
pub mod facade;
pub mod gate;
pub mod listing;
pub mod pathwalk;
pub mod rfile;
pub mod session;
pub mod transactions;
