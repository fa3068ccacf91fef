//! Coordinator for a decentralized inference marketplace: miner staking and
//! epoch rewards, per-model rosters, committee sampling, a commit-reveal
//! protocol per inference request, and a queue of deferred payout and slash
//! tasks.
use vstd::prelude::*;

pub mod agent;
pub mod dao;
pub mod error;
pub mod executor;
pub mod hash;
pub mod inference;
pub mod miner;
pub mod registry;
pub mod resolve;
pub mod state;
pub mod task;

verus! {

} // verus!
