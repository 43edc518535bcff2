//! Verified core of a volunteer-compute orchestration platform.
//!
//! A central scheduler leases shards of work to untrusted agents, each agent
//! runs its shard inside a resource-capped sandbox, and a validator re-runs a
//! sample of the results to maintain a trust score per agent.  This crate
//! holds the decision logic of those subsystems — policy gating, the
//! per-project task queue, dispatch, sandbox accounting, the validator's
//! comparison rules and the reputation ledger — as verified functions over
//! plain values.  Network, database and process plumbing stay outside and
//! hand these functions their inputs.

pub mod agent;
pub mod bpsw;
pub mod demo;
pub mod dispatch;
pub mod models;
pub mod policy;
pub mod queue;
pub mod registry;
pub mod reputation;
pub mod sandbox;
pub mod sql;
pub mod text;
pub mod validator;
