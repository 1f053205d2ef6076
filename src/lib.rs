//! The `eth` query facade of a layer-2 node: the filter registry and its polling
//! protocol, the log range limit, block resolution, the follower node's reconciliation of
//! local and main-node transactions, and the preparation of simulated calls.
//!
//! The chain data store is passed to each operation as a `ChainStore`, the state it holds
//! at the time of the call. Work that only the node can do (asking the main node, running
//! the sandbox, submitting) is left to the caller, which hands the outcome back.

pub mod types;
pub mod store;
pub mod logs;
pub mod poll;
pub mod filters;
pub mod replica;
pub mod namespace;
pub mod execution;
pub mod laws;
