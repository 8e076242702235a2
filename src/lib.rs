//! An event-sourced account aggregate: commands are decided by a small state
//! machine, the resulting events are folded into the aggregate and stored in an
//! event log together with an outbox, from which a relay delivers them to a bus at
//! least once.

use vstd::prelude::*;

pub mod aggregate;
pub mod command;
pub mod error;
pub mod event;
mod ids;
pub mod machine;
pub mod order;
pub mod repository;
pub mod service;
pub mod services;

verus! {

} // verus!
