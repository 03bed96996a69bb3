//! Collects the follower and following lists of one account from a paged
//! remote API and records a snapshot of every account seen, under one
//! session.
//!
//! The library holds the decisions of that run as verified state machines:
//! the page walker that drives one paged listing, the persistence manager
//! that is the single writer of the storage, and the session lifecycle.
//! The caller performs the network and storage work that they ask for.

pub mod command;
pub mod error;
pub mod manager;
pub mod session;
pub mod snapshot;
pub mod walker;
