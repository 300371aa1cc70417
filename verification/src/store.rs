//! The authoritative state of the exchange core, and its invariants.
//!
//! A [`Store`] plays the role of the relational store: tables are vectors,
//! fresh ids come from per-table counters, and the conditional updates of
//! the business controllers are the only mutations that preserve
//! [`Store::wf`]. Callers must not write fields directly.

use vstd::prelude::*;

use crate::review::TradeReview;
use crate::status::TradeStatus;
use crate::trade::Trade;
use crate::transaction::{single_active_per_slot, ExchangeConfig, TradeTransaction};
use crate::user::UserRecord;

verus! {

/// All state the core owns.
#[derive(Debug)]
pub struct Store {
    pub trades: Vec<Trade>,
    pub next_trade_id: i64,
    pub transactions: Vec<TradeTransaction>,
    pub next_tx_id: i64,
    pub reviews: Vec<TradeReview>,
    pub next_review_id: i64,
    pub users: Vec<UserRecord>,
    pub next_user_id: i64,
    pub config: Vec<ExchangeConfig>,
    pub next_config_id: i32,
}

/// Ids are at least 1, strictly increasing along the table, and below the
/// table's next-id counter.
pub open spec fn trade_ids_ok(trades: Seq<Trade>, next: i64) -> bool {
    &&& 1 <= next
    &&& forall|i: int| 0 <= i < trades.len() ==> 1 <= (#[trigger] trades[i]).id < next
    &&& forall|i: int, j: int|
        0 <= i < j < trades.len() ==> (#[trigger] trades[i]).id < (#[trigger] trades[j]).id
}

pub open spec fn tx_ids_ok(txs: Seq<TradeTransaction>, next: i64) -> bool {
    &&& 1 <= next
    &&& forall|i: int| 0 <= i < txs.len() ==> 1 <= (#[trigger] txs[i]).id < next
    &&& forall|i: int, j: int|
        0 <= i < j < txs.len() ==> (#[trigger] txs[i]).id < (#[trigger] txs[j]).id
}

pub open spec fn review_ids_ok(reviews: Seq<TradeReview>, next: i64) -> bool {
    &&& 1 <= next
    &&& forall|i: int| 0 <= i < reviews.len() ==> 1 <= (#[trigger] reviews[i]).id < next
    &&& forall|i: int, j: int|
        0 <= i < j < reviews.len() ==> (#[trigger] reviews[i]).id < (#[trigger] reviews[j]).id
}

pub open spec fn user_ids_ok(users: Seq<UserRecord>, next: i64) -> bool {
    &&& 1 <= next
    &&& forall|i: int| 0 <= i < users.len() ==> 1 <= (#[trigger] users[i]).id < next
    &&& forall|i: int, j: int|
        0 <= i < j < users.len() ==> (#[trigger] users[i]).id < (#[trigger] users[j]).id
}

/// A trade's party fields agree with its status: a Proposal has no acceptor
/// yet; in Matched, Committed and Escrow an acceptor is set; an acceptor is
/// never the proposer. (A trade cancelled or completed while still a
/// Proposal keeps its empty acceptor, so those two states admit either.)
pub open spec fn trade_parties_ok(t: Trade) -> bool {
    &&& t.status == TradeStatus::Proposal ==> t.acceptor_id is None
    &&& (t.status == TradeStatus::Matched || t.status == TradeStatus::Committed || t.status
        == TradeStatus::Escrow) ==> t.acceptor_id is Some
    &&& t.acceptor_id matches Some(a) ==> a != t.proposer_id
}

/// A ledger row in Mempool state carries the external id and mempool-entry
/// time that put it there.
pub open spec fn mempool_fields_ok(t: TradeTransaction) -> bool {
    t.status == crate::status::TxStatus::Mempool ==> t.tx_id is Some && t.mempool_at is Some
}

/// A review's stored overall score is the weighted sum of four scores of
/// 0 to 5, so it lies between 0 and 500 hundredths.
pub open spec fn review_scores_ok(r: TradeReview) -> bool {
    0 <= r.overall_score_centi <= 500
}

/// Configuration keys are unique, so a key denotes one value.
pub open spec fn config_keys_ok(cfg: Seq<ExchangeConfig>) -> bool {
    forall|i: int, j: int|
        0 <= i < j < cfg.len() ==> (#[trigger] cfg[i]).key@ != (#[trigger] cfg[j]).key@
}

/// Under `trade_ids_ok`, a trade id occurs in at most one row.
pub proof fn lemma_trade_id_unique(trades: Seq<Trade>, next: i64, i: int, j: int)
    requires
        trade_ids_ok(trades, next),
        0 <= i < trades.len(),
        0 <= j < trades.len(),
        trades[i].id == trades[j].id,
    ensures
        i == j,
{
    if i < j {
        assert(trades[i].id < trades[j].id);
    } else if j < i {
        assert(trades[j].id < trades[i].id);
    }
}

/// Under `tx_ids_ok`, a ledger row id occurs in at most one row.
pub proof fn lemma_tx_id_unique(txs: Seq<TradeTransaction>, next: i64, i: int, j: int)
    requires
        tx_ids_ok(txs, next),
        0 <= i < txs.len(),
        0 <= j < txs.len(),
        txs[i].id == txs[j].id,
    ensures
        i == j,
{
    if i < j {
        assert(txs[i].id < txs[j].id);
    } else if j < i {
        assert(txs[j].id < txs[i].id);
    }
}

/// Under `user_ids_ok`, a user id occurs in at most one row.
pub proof fn lemma_user_id_unique(users: Seq<UserRecord>, next: i64, i: int, j: int)
    requires
        user_ids_ok(users, next),
        0 <= i < users.len(),
        0 <= j < users.len(),
        users[i].id == users[j].id,
    ensures
        i == j,
{
    if i < j {
        assert(users[i].id < users[j].id);
    } else if j < i {
        assert(users[j].id < users[i].id);
    }
}

/// Under `review_ids_ok`, ids grow at least as fast as indices, so the
/// table never outgrows the id space.
pub proof fn lemma_review_id_lower(reviews: Seq<TradeReview>, next: i64, k: int)
    requires
        review_ids_ok(reviews, next),
        0 <= k < reviews.len(),
    ensures
        reviews[k].id >= k + 1,
    decreases k,
{
    if k > 0 {
        lemma_review_id_lower(reviews, next, k - 1);
        assert(reviews[k - 1].id < reviews[k].id);
    }
}

/// Under `trade_ids_ok`, ids grow at least as fast as indices.
pub proof fn lemma_trade_id_lower(trades: Seq<Trade>, next: i64, k: int)
    requires
        trade_ids_ok(trades, next),
        0 <= k < trades.len(),
    ensures
        trades[k].id >= k + 1,
    decreases k,
{
    if k > 0 {
        lemma_trade_id_lower(trades, next, k - 1);
        assert(trades[k - 1].id < trades[k].id);
    }
}

/// A well-formed trades table has fewer rows than its id counter.
pub proof fn lemma_trade_len_bound(trades: Seq<Trade>, next: i64)
    requires
        trade_ids_ok(trades, next),
    ensures
        trades.len() < next,
{
    if trades.len() > 0 {
        lemma_trade_id_lower(trades, next, trades.len() - 1);
    }
}

/// A well-formed review table has fewer rows than its id counter.
pub proof fn lemma_review_len_bound(reviews: Seq<TradeReview>, next: i64)
    requires
        review_ids_ok(reviews, next),
    ensures
        reviews.len() < next,
{
    if reviews.len() > 0 {
        lemma_review_id_lower(reviews, next, reviews.len() - 1);
    }
}

impl Store {
    /// The trades table and its id counter.
    pub open spec fn trade_part(self) -> (Seq<Trade>, i64) {
        (self.trades@, self.next_trade_id)
    }

    /// The ledger table and its id counter.
    pub open spec fn tx_part(self) -> (Seq<TradeTransaction>, i64) {
        (self.transactions@, self.next_tx_id)
    }

    /// The reviews table and its id counter.
    pub open spec fn review_part(self) -> (Seq<TradeReview>, i64) {
        (self.reviews@, self.next_review_id)
    }

    /// The users table and its id counter.
    pub open spec fn user_part(self) -> (Seq<UserRecord>, i64) {
        (self.users@, self.next_user_id)
    }

    /// The configuration table and its id counter.
    pub open spec fn config_part(self) -> (Seq<ExchangeConfig>, i32) {
        (self.config@, self.next_config_id)
    }

    /// Well-formedness: every invariant the operations preserve.
    pub open spec fn wf(&self) -> bool {
        &&& trade_ids_ok(self.trades@, self.next_trade_id)
        &&& forall|i: int|
            0 <= i < self.trades@.len() ==> trade_parties_ok(#[trigger] self.trades@[i])
        &&& tx_ids_ok(self.transactions@, self.next_tx_id)
        &&& single_active_per_slot(self.transactions@)
        &&& forall|i: int|
            0 <= i < self.transactions@.len() ==> mempool_fields_ok(
                #[trigger] self.transactions@[i],
            )
        &&& review_ids_ok(self.reviews@, self.next_review_id)
        &&& forall|i: int|
            0 <= i < self.reviews@.len() ==> review_scores_ok(#[trigger] self.reviews@[i])
        &&& user_ids_ok(self.users@, self.next_user_id)
        &&& config_keys_ok(self.config@)
    }

    /// An empty store.
    pub fn new() -> (s: Store)
        ensures
            s.wf(),
            s.trades@.len() == 0,
            s.transactions@.len() == 0,
            s.reviews@.len() == 0,
            s.users@.len() == 0,
            s.config@.len() == 0,
            s.next_trade_id == 1,
            s.next_tx_id == 1,
            s.next_review_id == 1,
            s.next_user_id == 1,
            s.next_config_id == 1,
    {
        Store {
            trades: Vec::new(),
            next_trade_id: 1,
            transactions: Vec::new(),
            next_tx_id: 1,
            reviews: Vec::new(),
            next_review_id: 1,
            users: Vec::new(),
            next_user_id: 1,
            config: Vec::new(),
            next_config_id: 1,
        }
    }
}

} // verus!
