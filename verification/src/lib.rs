//! A privacy-preserving group voting platform: a factory deploys
//! organizations, an organization manages membership and spawns ballots, and
//! a ballot collects secret votes and publishes an aggregate tally.
//!
//! Every contract is modelled as a pure reducer: each handler takes the
//! persisted state together with the incoming call's context and returns the
//! new state and the outgoing messages, or an error when the call must abort
//! with no state change.

pub mod addr;
pub mod ballot;
pub mod codec;
pub mod events;
pub mod factory;
pub mod members;
pub mod organization;
pub mod process;
pub mod tally;
