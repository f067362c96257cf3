//! A guild treasury governed by share-weighted proposals: members admit
//! applicants, kick misbehaving members, and leave with a proportional part of
//! the bank. Every transition is atomic, and its effect on the state, the
//! currency transfers it asks of the host and the events it records are stated
//! in its contract.
use vstd::prelude::*;

pub mod types;
pub mod accounts;
pub mod period;
pub mod ledger;
pub mod guild;
pub mod registry;
pub mod proposals;
pub mod voting;
pub mod processing;
pub mod exit;
pub mod laws;

pub use guild::Module;
pub use types::{AccountId, Config, Error, Event, Member, Proposal, Transfer, Vote};

verus! {

} // verus!
