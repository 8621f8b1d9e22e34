//! The decisions behind a vote checker for validator accounts.
//!
//! Given a list of accounts and a list of slots, the checker asks an RPC node
//! for the block of each slot and reports which accounts have no vote
//! transaction in it. This crate holds what that takes besides the network and
//! the terminal.

pub mod accounts;
pub mod backoff;
pub mod block;
pub mod json;
pub mod laws;
pub mod leaders;
pub mod monitor;
pub mod pacing;
pub mod rpc;
pub mod slots;
pub mod text;
pub mod voted_slot;
