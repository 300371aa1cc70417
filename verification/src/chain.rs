//! The data the remote chain node hands back, as plain values.
//!
//! The node itself is queried outside the core (it is network I/O); the
//! verification logic consumes these records as arguments and is verified
//! for every value they can take.

use vstd::prelude::*;

verus! {

/// A request to broadcast a serialized spend bundle.
#[derive(Debug, Clone)]
pub struct PushTxRequest {
    pub spend_bundle: String,
}

/// The node's answer to a broadcast request.
#[derive(Debug, Clone)]
pub struct PushTxResponse {
    pub success: bool,
    pub status: String,
}

/// One unspent (or spent) coin of a puzzle hash.
#[derive(Debug, Clone)]
pub struct CoinRecord {
    pub coin_id: String,
    pub puzzle_hash: String,
    pub amount: u64,
    pub spent: bool,
}

/// The puzzle and solution that spent a coin.
#[derive(Debug, Clone)]
pub struct PuzzleAndSolution {
    pub puzzle_reveal: String,
    pub solution: String,
}

/// What the wallet knows of one transaction.
#[derive(Debug, Clone)]
pub struct TransactionRecord {
    pub transaction_id: String,
    pub confirmed: bool,
    pub confirmed_at_height: Option<u64>,
    pub amount: u64,
    pub fee_amount: u64,
    pub to_address: String,
    pub sent_to: bool,
}

/// The node's view of the chain.
#[derive(Debug, Clone)]
pub struct BlockchainState {
    pub peak_height: Option<u64>,
    pub sync_mode: bool,
    pub difficulty: Option<u64>,
    pub network: Option<String>,
}

/// Everything one verification step observed about one external
/// transaction id: whether it still sits in the mempool, and the wallet's
/// record of it if the lookup succeeded.
#[derive(Debug, Clone)]
pub struct ChainObservation {
    pub in_mempool: bool,
    pub record: Option<TransactionRecord>,
}

} // verus!
