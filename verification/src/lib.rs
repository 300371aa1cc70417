//! Core of a peer-to-peer barter/sale exchange: the trade lifecycle state
//! machine, the commitment-transaction ledger that tracks on-chain payments
//! against trades, the decision logic of the asynchronous verification loop
//! that reconciles ledger state with observed blockchain state, and the
//! reputation aggregator.
//!
//! All state lives in an in-memory [`store::Store`]; callers (an RPC server,
//! a background task) drive it through the operations of the business
//! controllers and hand in the current time and chain observations as plain
//! values.

pub mod chain;
pub mod ctx;
pub mod dup;
pub mod error;
pub mod hashing;
pub mod laws;
pub mod numfmt;
pub mod puzzles;
pub mod review;
pub mod rpc;
pub mod signing;
pub mod spend;
pub mod status;
pub mod store;
pub mod table;
pub mod trade;
pub mod transaction;
pub mod user;
pub mod verify;
