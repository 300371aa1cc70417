//! The commitment ledger: one `TradeTransaction` per attempted on-chain
//! payment, keyed by (trade, paying user, purpose).
//!
//! The ledger enforces that at most one transaction per key is in an active
//! (Pending or Mempool) state, and drives
//! Pending → Mempool → Confirmed / Failed transitions.

use vstd::prelude::*;

use crate::ctx::Ctx;
use crate::error::Error;
use crate::numfmt::{spec_dec_signed, spec_parse_cents};
use crate::status::{CommitStatus, Role, TradeStatus, TxStatus, TxType};
use crate::store::Store;
use crate::table::{mapped_where, some_row};
use crate::trade::{is_participant, sel_participant, sel_trade};

verus! {

/// One attempted on-chain payment tied to a trade and a paying user.
/// Amounts are integer mojos, timestamps integer unix seconds.
#[derive(Debug, Clone)]
pub struct TradeTransaction {
    pub id: i64,
    pub trade_id: i64,
    pub user_id: i64,
    pub tx_type: TxType,
    /// External (on-chain) transaction identifier; absent until the payer's
    /// wallet reports a broadcast.
    pub tx_id: Option<String>,
    pub coin_id: Option<String>,
    pub puzzle_hash: Option<String>,
    pub from_address: Option<String>,
    pub to_address: Option<String>,
    pub amount_mojos: i64,
    pub status: TxStatus,
    pub confirmations: Option<i32>,
    pub error_message: Option<String>,
    pub retry_count: Option<i32>,
    pub created_at: u64,
    pub mempool_at: Option<u64>,
    pub confirmed_at: Option<u64>,
}

/// Payload for creating a Pending ledger entry.
#[derive(Debug, Clone)]
pub struct TradeTransactionForCreate {
    pub trade_id: i64,
    pub tx_type: TxType,
    pub tx_id: Option<String>,
    pub from_address: Option<String>,
    pub to_address: Option<String>,
    pub amount_mojos: i64,
}

/// A process-wide key/value setting (exchange wallet address, commitment
/// fee).
#[derive(Debug, Clone)]
pub struct ExchangeConfig {
    pub id: i32,
    pub key: String,
    pub value: String,
    pub description: Option<String>,
}

/// What a participant needs in order to pay its commitment fee.
#[derive(Debug, Clone)]
pub struct CommitmentDetails {
    pub trade_id: i64,
    pub exchange_wallet_address: String,
    /// Fee in integer cents; the payer's wallet converts to mojos at the
    /// live price.
    pub commitment_fee_cents: u64,
    pub user_role: Role,
    pub user_commit_status: CommitStatus,
    pub other_commit_status: CommitStatus,
    /// Deterministic reference string the payer attaches to the on-chain
    /// payment.
    pub memo: String,
}

/// Whether two ledger rows occupy the same (trade, user, type) slot.
pub open spec fn same_slot(a: TradeTransaction, b: TradeTransaction) -> bool {
    a.trade_id == b.trade_id && a.user_id == b.user_id && a.tx_type == b.tx_type
}

/// Whether `t` occupies the slot (trade_id, user_id, tx_type).
pub open spec fn in_slot(t: TradeTransaction, trade_id: i64, user_id: i64, tx_type: TxType) -> bool {
    t.trade_id == trade_id && t.user_id == user_id && t.tx_type == tx_type
}

/// An active row: one that holds its slot (Pending or Mempool).
pub open spec fn tx_active(t: TradeTransaction) -> bool {
    t.status.spec_is_active()
}

/// No two distinct active rows share a slot: the single-writer guarantee
/// that prevents double payment.
pub open spec fn single_active_per_slot(txs: Seq<TradeTransaction>) -> bool {
    forall|i: int, j: int|
        0 <= i < txs.len() && 0 <= j < txs.len() && i != j && tx_active(#[trigger] txs[i])
            && tx_active(#[trigger] txs[j]) ==> !same_slot(txs[i], txs[j])
}

/// Fresh Pending row for payload `tc` paid by `user_id`, under id `id` at
/// time `now`.
pub open spec fn fresh_transaction(tc: TradeTransactionForCreate, user_id: i64, id: i64, now: u64) -> TradeTransaction {
    (TradeTransaction {
        id,
        trade_id: tc.trade_id,
        user_id,
        tx_type: tc.tx_type,
        tx_id: tc.tx_id,
        coin_id: None,
        puzzle_hash: None,
        from_address: tc.from_address,
        to_address: tc.to_address,
        amount_mojos: tc.amount_mojos,
        status: TxStatus::Pending,
        confirmations: None,
        error_message: None,
        retry_count: None,
        created_at: now,
        mempool_at: None,
        confirmed_at: None,
    })
}

impl TradeTransaction {
    /// A field-by-field copy, equal to the original.
    pub fn duplicate(&self) -> (r: TradeTransaction)
        ensures
            r == *self,
    {
        TradeTransaction {
            id: self.id,
            trade_id: self.trade_id,
            user_id: self.user_id,
            tx_type: self.tx_type,
            tx_id: crate::dup::dup_opt_string(&self.tx_id),
            coin_id: crate::dup::dup_opt_string(&self.coin_id),
            puzzle_hash: crate::dup::dup_opt_string(&self.puzzle_hash),
            from_address: crate::dup::dup_opt_string(&self.from_address),
            to_address: crate::dup::dup_opt_string(&self.to_address),
            amount_mojos: self.amount_mojos,
            status: self.status,
            confirmations: self.confirmations,
            error_message: crate::dup::dup_opt_string(&self.error_message),
            retry_count: self.retry_count,
            created_at: self.created_at,
            mempool_at: self.mempool_at,
            confirmed_at: self.confirmed_at,
        }
    }
}

/// Selects the ledger rows of one trade.
pub open spec fn sel_tx_of_trade(trade_id: i64) -> spec_fn(TradeTransaction) -> bool {
    (|t: TradeTransaction| t.trade_id == trade_id)
}

/// Selects a slot's rows that block a new payment attempt: anything not
/// Failed or Refunded (a Confirmed payment blocks a second one too).
pub open spec fn sel_blocking(trade_id: i64, user_id: i64, tx_type: TxType) -> spec_fn(TradeTransaction) -> bool {
    (|t: TradeTransaction| in_slot(t, trade_id, user_id, tx_type) && !(t.status == TxStatus::Failed
        || t.status == TxStatus::Refunded))
}

/// Selects the row a payer's broadcast report touches: their own row, still
/// Pending.
pub open spec fn sel_submit(id: i64, uid: i64) -> spec_fn(TradeTransaction) -> bool {
    (|t: TradeTransaction| t.id == id && t.user_id == uid && t.status == TxStatus::Pending)
}

/// The row transform of a broadcast report: record the external id and move
/// to Mempool.
pub open spec fn apply_submit(tx_id: String, now: u64) -> spec_fn(TradeTransaction) -> TradeTransaction {
    (|t: TradeTransaction| TradeTransaction {
        tx_id: Some(tx_id),
        status: TxStatus::Mempool,
        mempool_at: Some(now),
        ..t
    })
}

/// Selects the active rows carrying external transaction id `tx_id`.
pub open spec fn sel_external_active(tx_id: Seq<char>) -> spec_fn(TradeTransaction) -> bool {
    (|t: TradeTransaction| (t.tx_id matches Some(x) && x@ == tx_id) && tx_active(t))
}

/// The row transform of a confirmation observed on chain.
pub open spec fn apply_confirm(coin_id: String, confirmations: i32, now: u64) -> spec_fn(TradeTransaction) -> TradeTransaction {
    (|t: TradeTransaction| TradeTransaction {
        status: TxStatus::Confirmed,
        coin_id: Some(coin_id),
        confirmations: Some(confirmations),
        confirmed_at: Some(now),
        ..t
    })
}

/// The row transform of a failure report.
pub open spec fn apply_fail(message: String) -> spec_fn(TradeTransaction) -> TradeTransaction {
    (|t: TradeTransaction| TradeTransaction {
        status: TxStatus::Failed,
        error_message: Some(message),
        ..t
    })
}

/// The configured value under `key`, if any; well defined because the
/// store keeps configuration keys unique.
pub open spec fn spec_config_value(cfgs: Seq<ExchangeConfig>, key: Seq<char>) -> Option<Seq<char>> {
    if exists|i: int| 0 <= i < cfgs.len() && (#[trigger] cfgs[i]).key@ == key {
        let i = choose|i: int| 0 <= i < cfgs.len() && (#[trigger] cfgs[i]).key@ == key;
        Some(cfgs[i].value@)
    } else {
        None
    }
}

/// The deterministic payment reference for (trade, payer).
pub open spec fn commitment_memo_spec(trade_id: i64, user_id: i64) -> Seq<char> {
    "DTREX-COMMIT-"@ + spec_dec_signed(trade_id as int) + "-"@ + spec_dec_signed(user_id as int)
}

/// With unique keys, the row holding `key` determines the configured value.
pub proof fn lemma_config_value_present(cfgs: Seq<ExchangeConfig>, key: Seq<char>, i: int)
    requires
        crate::store::config_keys_ok(cfgs),
        0 <= i < cfgs.len(),
        cfgs[i].key@ == key,
    ensures
        spec_config_value(cfgs, key) == Some(cfgs[i].value@),
{
    assert(exists|j: int| 0 <= j < cfgs.len() && (#[trigger] cfgs[j]).key@ == key) by {
        assert(cfgs[i].key@ == key);
    }
    let j = choose|j: int| 0 <= j < cfgs.len() && (#[trigger] cfgs[j]).key@ == key;
    if j != i {
        if j < i {
            assert(cfgs[j].key@ != cfgs[i].key@);
        } else {
            assert(cfgs[i].key@ != cfgs[j].key@);
        }
    }
}

/// Find the row of configuration key `key`.
fn find_config(cfgs: &Vec<ExchangeConfig>, key: &String) -> (r: Option<usize>)
    ensures
        match r {
            Some(i) => i < cfgs@.len() && cfgs@[i as int].key@ == key@,
            None => forall|k: int| 0 <= k < cfgs@.len() ==> (#[trigger] cfgs@[k]).key@ != key@,
        },
{
    let mut i: usize = 0;
    while i < cfgs.len()
        invariant
            i <= cfgs@.len(),
            forall|k: int| 0 <= k < i ==> (#[trigger] cfgs@[k]).key@ != key@,
        decreases cfgs@.len() - i,
    {
        if cfgs[i].key.eq(key) {
            return Some(i);
        }
        i = i + 1;
    }
    None
}

/// Find the index of the ledger row with internal id `id`.
fn find_tx(txs: &Vec<TradeTransaction>, id: i64) -> (r: Option<usize>)
    ensures
        match r {
            Some(i) => i < txs@.len() && txs@[i as int].id == id,
            None => forall|k: int| 0 <= k < txs@.len() ==> (#[trigger] txs@[k]).id != id,
        },
{
    let mut i: usize = 0;
    while i < txs.len()
        invariant
            i <= txs@.len(),
            forall|k: int| 0 <= k < i ==> (#[trigger] txs@[k]).id != id,
        decreases txs@.len() - i,
    {
        if txs[i].id == id {
            return Some(i);
        }
        i = i + 1;
    }
    None
}

/// Whether some trade row has id `trade_id` with `uid` as a participant.
fn trade_participant_exists(store: &Store, trade_id: i64, uid: i64) -> (r: bool)
    ensures
        r == some_row(store.trades@, sel_participant(trade_id, uid)),
{
    let mut i: usize = 0;
    while i < store.trades.len()
        invariant
            i <= store.trades@.len(),
            forall|k: int|
                0 <= k < i ==> !sel_participant(trade_id, uid)(#[trigger] store.trades@[k]),
        decreases store.trades@.len() - i,
    {
        let t = &store.trades[i];
        if t.id == trade_id {
            let participant = t.proposer_id == uid || (match t.acceptor_id {
                Some(a) => a == uid,
                None => false,
            });
            if participant {
                proof {
                    assert(sel_participant(trade_id, uid)(store.trades@[i as int]));
                }
                return true;
            }
        }
        i = i + 1;
    }
    false
}

/// The business controller of the commitment ledger and the exchange
/// configuration.
pub struct TransactionBmc;

impl TransactionBmc {
    /// The configured exchange wallet address; `Config` error when it is
    /// absent or empty.
    pub fn get_exchange_wallet(_ctx: &Ctx, store: &Store) -> (r: Result<String, Error>)
        requires
            store.wf(),
        ensures
            match r {
                Ok(w) => spec_config_value(store.config@, "exchange_wallet_address"@) == Some(w@)
                    && w@.len() > 0,
                Err(e) => (e matches Error::Config(_)) && (match spec_config_value(
                    store.config@,
                    "exchange_wallet_address"@,
                ) {
                    Some(v) => v.len() == 0,
                    None => true,
                }),
            },
    {
        let key = String::from_str("exchange_wallet_address");
        match find_config(&store.config, &key) {
            Some(i) => {
                proof {
                    lemma_config_value_present(store.config@, key@, i as int);
                }
                let row = &store.config[i];
                if row.value.as_str().is_empty() {
                    Err(
                        Error::Config(
                            String::from_str("Exchange wallet address not configured"),
                        ),
                    )
                } else {
                    Ok(row.value.clone())
                }
            },
            None => Err(Error::Config(String::from_str("Exchange wallet address not configured"))),
        }
    }

    /// The configured commitment fee, in integer cents. Defaults to 100
    /// (one dollar) when unset; `Config` error when the stored text does
    /// not denote an amount in range.
    pub fn get_commitment_fee_cents(_ctx: &Ctx, store: &Store) -> (r: Result<u64, Error>)
        requires
            store.wf(),
        ensures
            match r {
                Ok(c) => match spec_config_value(store.config@, "commitment_fee_usd"@) {
                    Some(v) => spec_parse_cents(v) == Some(c as int),
                    None => c == 100,
                },
                Err(e) => (e matches Error::Config(_)) && (match spec_config_value(
                    store.config@,
                    "commitment_fee_usd"@,
                ) {
                    Some(v) => match spec_parse_cents(v) {
                        Some(c) => c > u64::MAX,
                        None => true,
                    },
                    None => false,
                }),
            },
    {
        let key = String::from_str("commitment_fee_usd");
        match find_config(&store.config, &key) {
            Some(i) => {
                proof {
                    lemma_config_value_present(store.config@, key@, i as int);
                }
                match crate::numfmt::parse_cents(store.config[i].value.as_str()) {
                    Some(c) => Ok(c),
                    None => Err(Error::Config(String::from_str("Invalid commitment fee value"))),
                }
            },
            None => Ok(100),
        }
    }

    /// Set (insert or update) the exchange wallet address.
    pub fn set_exchange_wallet(_ctx: &Ctx, store: &mut Store, address: &str) -> (r: Result<
        (),
        Error,
    >)
        requires
            old(store).wf(),
            old(store).next_config_id < i32::MAX,
        ensures
            final(store).wf(),
            r == Ok::<(), Error>(()),
            spec_config_value(final(store).config@, "exchange_wallet_address"@) == Some(
                address@,
            ),
            forall|k: Seq<char>|
                k != "exchange_wallet_address"@ ==> #[trigger] spec_config_value(
                    final(store).config@,
                    k,
                ) == spec_config_value(old(store).config@, k),
            final(store).trade_part() == old(store).trade_part(),
            final(store).tx_part() == old(store).tx_part(),
            final(store).review_part() == old(store).review_part(),
            final(store).user_part() == old(store).user_part(),
            old(store).next_config_id <= final(store).next_config_id <= old(store).next_config_id
                + 1,
    {
        Self::upsert_config(
            store,
            String::from_str("exchange_wallet_address"),
            address.to_owned(),
            String::from_str("XCH address where commitment fees are sent"),
        );
        Ok(())
    }

    /// Set (insert or update) the commitment fee, given as a decimal
    /// dollars string.
    pub fn set_commitment_fee(_ctx: &Ctx, store: &mut Store, fee: &str) -> (r: Result<(), Error>)
        requires
            old(store).wf(),
            old(store).next_config_id < i32::MAX,
        ensures
            final(store).wf(),
            r == Ok::<(), Error>(()),
            spec_config_value(final(store).config@, "commitment_fee_usd"@) == Some(fee@),
            forall|k: Seq<char>|
                k != "commitment_fee_usd"@ ==> #[trigger] spec_config_value(
                    final(store).config@,
                    k,
                ) == spec_config_value(old(store).config@, k),
            final(store).trade_part() == old(store).trade_part(),
            final(store).tx_part() == old(store).tx_part(),
            final(store).review_part() == old(store).review_part(),
            final(store).user_part() == old(store).user_part(),
            old(store).next_config_id <= final(store).next_config_id <= old(store).next_config_id
                + 1,
    {
        Self::upsert_config(
            store,
            String::from_str("commitment_fee_usd"),
            fee.to_owned(),
            String::from_str("Commitment fee in USD"),
        );
        Ok(())
    }

    /// Insert or update one configuration key.
    fn upsert_config(store: &mut Store, key: String, value: String, description: String)
        requires
            old(store).wf(),
            old(store).next_config_id < i32::MAX,
        ensures
            final(store).wf(),
            spec_config_value(final(store).config@, key@) == Some(value@),
            forall|k: Seq<char>|
                k != key@ ==> #[trigger] spec_config_value(final(store).config@, k)
                    == spec_config_value(old(store).config@, k),
            final(store).trade_part() == old(store).trade_part(),
            final(store).tx_part() == old(store).tx_part(),
            final(store).review_part() == old(store).review_part(),
            final(store).user_part() == old(store).user_part(),
            old(store).next_config_id <= final(store).next_config_id <= old(store).next_config_id
                + 1,
    {
        let ghost pre = store.config@;
        match find_config(&store.config, &key) {
            Some(i) => {
                let row = store.config.remove(i);
                let updated = ExchangeConfig { value, ..row };
                store.config.insert(i, updated);
                proof {
                    let post = store.config@;
                    assert(post =~= pre.update(
                        i as int,
                        ExchangeConfig { value: updated.value, ..pre[i as int] },
                    ));
                    assert forall|k: int| 0 <= k < post.len() implies (#[trigger] post[k]).key@
                        == pre[k].key@ by {}
                    assert(crate::store::config_keys_ok(post));
                    lemma_config_value_present(post, key@, i as int);
                    assert forall|k: Seq<char>| k != key@ implies #[trigger] spec_config_value(
                        post,
                        k,
                    ) == spec_config_value(pre, k) by {
                        lemma_config_value_frame(pre, post, k);
                    }
                }
            },
            None => {
                let id = store.next_config_id;
                store.next_config_id = id + 1;
                store.config.push(
                    ExchangeConfig { id, key, value, description: Some(description) },
                );
                proof {
                    let post = store.config@;
                    assert(post.last().key@ == key@);
                    assert forall|a: int, b: int|
                        0 <= a < b < post.len() implies (#[trigger] post[a]).key@ != (
                    #[trigger] post[b]).key@ by {
                        if b == post.len() - 1 {
                            assert(pre[a].key@ != key@);
                        }
                    }
                    lemma_config_value_present(post, key@, post.len() - 1);
                    assert forall|k: Seq<char>| k != key@ implies #[trigger] spec_config_value(
                        post,
                        k,
                    ) == spec_config_value(pre, k) by {
                        lemma_config_value_frame(pre, post, k);
                    }
                }
            },
        }
    }
}

/// Selects the row of trade `id` when `uid` participates and its status
/// allows commitment (Matched or Committed).
pub open spec fn sel_commitable(id: i64, uid: i64) -> spec_fn(crate::trade::Trade) -> bool {
    (|t: crate::trade::Trade| t.id == id && is_participant(t, uid) && (t.status
        == TradeStatus::Matched || t.status == TradeStatus::Committed))
}

/// If the only ledger row carrying internal id `id` fails `sel`, and `sel`
/// implies carrying `id`, then no row at all is selected.
pub proof fn lemma_no_other_tx_row(txs: Seq<TradeTransaction>, next: i64, idx: int, sel: spec_fn(TradeTransaction) -> bool, id: i64)
    requires
        crate::store::tx_ids_ok(txs, next),
        0 <= idx < txs.len(),
        txs[idx].id == id,
        !sel(txs[idx]),
        forall|t: TradeTransaction| #[trigger] sel(t) ==> t.id == id,
    ensures
        !some_row(txs, sel),
{
    assert forall|k: int| 0 <= k < txs.len() implies !sel(#[trigger] txs[k]) by {
        if sel(txs[k]) {
            crate::store::lemma_tx_id_unique(txs, next, k, idx);
        }
    }
}

/// Updating the single ledger row carrying `id` in place realises the
/// conditional update `mapped_where` when `sel` selects only rows carrying
/// `id`.
pub proof fn lemma_update_single_tx_row(pre: Seq<TradeTransaction>, post: Seq<TradeTransaction>, next: i64, idx: int, sel: spec_fn(TradeTransaction) -> bool, f: spec_fn(TradeTransaction) -> TradeTransaction)
    requires
        crate::store::tx_ids_ok(pre, next),
        0 <= idx < pre.len(),
        sel(pre[idx]),
        forall|t: TradeTransaction| #[trigger] sel(t) ==> t.id == pre[idx].id,
        post == pre.update(idx, f(pre[idx])),
    ensures
        mapped_where(pre, post, sel, f),
{
    assert forall|k: int| 0 <= k < pre.len() implies #[trigger] post[k] == (if sel(pre[k]) {
        f(pre[k])
    } else {
        pre[k]
    }) by {
        if k != idx && sel(pre[k]) {
            crate::store::lemma_tx_id_unique(pre, next, k, idx);
        }
    }
}

/// Whether a blocking row occupies the slot (trade, user, type).
fn blocking_exists(store: &Store, trade_id: i64, uid: i64, tx_type: TxType) -> (r: bool)
    ensures
        r == some_row(store.transactions@, sel_blocking(trade_id, uid, tx_type)),
{
    let mut i: usize = 0;
    while i < store.transactions.len()
        invariant
            i <= store.transactions@.len(),
            forall|k: int|
                0 <= k < i ==> !sel_blocking(trade_id, uid, tx_type)(
                    #[trigger] store.transactions@[k],
                ),
        decreases store.transactions@.len() - i,
    {
        let t = &store.transactions[i];
        if t.trade_id == trade_id && t.user_id == uid && t.tx_type == tx_type && !(t.status
            == TxStatus::Failed || t.status == TxStatus::Refunded) {
            proof {
                assert(sel_blocking(trade_id, uid, tx_type)(store.transactions@[i as int]));
            }
            return true;
        }
        i = i + 1;
    }
    false
}

/// Build the deterministic payment reference for (trade, payer).
fn build_memo(trade_id: i64, user_id: i64) -> (r: String)
    ensures
        r@ == commitment_memo_spec(trade_id, user_id),
{
    let m = String::from_str("DTREX-COMMIT-").concat(
        crate::numfmt::i64_to_string(trade_id).as_str(),
    ).concat("-").concat(crate::numfmt::i64_to_string(user_id).as_str());
    proof {
        assert(m@ =~= commitment_memo_spec(trade_id, user_id));
    }
    m
}

/// A usable exchange wallet is configured: the key is present and its
/// value non-empty.
pub open spec fn wallet_configured(cfgs: Seq<ExchangeConfig>) -> bool {
    match spec_config_value(cfgs, "exchange_wallet_address"@) {
        Some(v) => v.len() > 0,
        None => false,
    }
}

/// The commitment-fee configuration is usable: the key is absent (the
/// one-dollar default applies) or its value denotes an amount of cents
/// that fits in a `u64`.
pub open spec fn fee_configured_ok(cfgs: Seq<ExchangeConfig>) -> bool {
    match spec_config_value(cfgs, "commitment_fee_usd"@) {
        Some(v) => match spec_parse_cents(v) {
            Some(c) => c <= u64::MAX,
            None => false,
        },
        None => true,
    }
}

/// What a successful commitment-details answer `d` says, as a function of
/// the store, the caller and the trade: the trade's row exists, the caller
/// sits on one of its sides, commitment is allowed, and the destination,
/// fee, roles, statuses and memo all derive from the store. The answer is
/// determined by (store, caller, trade): see
/// [`crate::laws::lemma_commitment_details_agree`].
pub open spec fn details_ok(store: Store, uid: i64, trade_id: i64, d: CommitmentDetails) -> bool {
    &&& exists|i: int|
        0 <= i < store.trades@.len() && {
            let t = #[trigger] store.trades@[i];
            &&& t.id == trade_id
            &&& is_participant(t, uid)
            &&& (t.status == TradeStatus::Matched || t.status == TradeStatus::Committed)
            &&& d.user_role == (if t.proposer_id == uid {
                Role::Proposer
            } else {
                Role::Acceptor
            })
            &&& d.user_commit_status == (if t.proposer_id == uid {
                t.proposer_commit_status
            } else {
                t.acceptor_commit_status
            })
            &&& d.other_commit_status == (if t.proposer_id == uid {
                t.acceptor_commit_status
            } else {
                t.proposer_commit_status
            })
        }
    &&& d.trade_id == trade_id
    &&& spec_config_value(store.config@, "exchange_wallet_address"@) == Some(
        d.exchange_wallet_address@,
    )
    &&& d.exchange_wallet_address@.len() > 0
    &&& (match spec_config_value(store.config@, "commitment_fee_usd"@) {
        Some(v) => spec_parse_cents(v) == Some(d.commitment_fee_cents as int),
        None => d.commitment_fee_cents == 100,
    })
    &&& d.memo@ == commitment_memo_spec(trade_id, uid)
}

impl TransactionBmc {
    /// Everything a participant needs in order to pay the commitment fee of a trade
    /// in Matched or Committed state: destination wallet, fee, both sides'
    /// commitment progress, and the deterministic payment memo.
    ///
    /// The result is a function of the store, the caller and the trade id
    /// alone, so repeated calls without an intervening mutation agree.
    pub fn get_commitment_details(ctx: &Ctx, store: &Store, trade_id: i64) -> (r: Result<
        CommitmentDetails,
        Error,
    >)
        requires
            store.wf(),
        ensures
            match r {
                Ok(d) => details_ok(*store, ctx.spec_user_id(), trade_id, d),
                Err(e) => match e {
                    Error::NotFoundMsg(_) => !some_row(store.trades@, sel_trade(trade_id)),
                    Error::Auth(_) => some_row(store.trades@, sel_trade(trade_id)) && !some_row(
                        store.trades@,
                        sel_participant(trade_id, ctx.spec_user_id()),
                    ),
                    Error::InvalidState(_) => some_row(
                        store.trades@,
                        sel_participant(trade_id, ctx.spec_user_id()),
                    ) && !some_row(store.trades@, sel_commitable(trade_id, ctx.spec_user_id())),
                    Error::Config(_) => some_row(
                        store.trades@,
                        sel_commitable(trade_id, ctx.spec_user_id()),
                    ) && (!wallet_configured(store.config@) || !fee_configured_ok(
                        store.config@,
                    )),
                    _ => false,
                },
            },
    {
        let uid = ctx.user_id();
        let idx = match crate::trade::find_trade(&store.trades, trade_id) {
            Some(i) => i,
            None => {
                return Err(Error::NotFoundMsg(String::from_str("Trade not found")));
            },
        };
        let t = &store.trades[idx];
        let is_proposer = t.proposer_id == uid;
        let is_acceptor = match t.acceptor_id {
            Some(a) => a == uid,
            None => false,
        };
        if !is_proposer && !is_acceptor {
            proof {
                crate::trade::lemma_no_other_row(
                    store.trades@,
                    store.next_trade_id,
                    idx as int,
                    sel_participant(trade_id, uid as i64),
                    trade_id,
                );
                assert(sel_trade(trade_id)(store.trades@[idx as int]));
            }
            return Err(Error::Auth(String::from_str("Not a participant in this trade")));
        }
        if !(t.status == TradeStatus::Matched || t.status == TradeStatus::Committed) {
            proof {
                crate::trade::lemma_no_other_row(
                    store.trades@,
                    store.next_trade_id,
                    idx as int,
                    sel_commitable(trade_id, uid as i64),
                    trade_id,
                );
                assert(sel_participant(trade_id, uid as i64)(store.trades@[idx as int]));
            }
            return Err(
                Error::InvalidState(
                    String::from_str("Trade status does not allow commitment. Must be 'matched'."),
                ),
            );
        }
        proof {
            assert(sel_commitable(trade_id, uid as i64)(store.trades@[idx as int]));
        }
        let exchange_wallet = match Self::get_exchange_wallet(ctx, store) {
            Ok(w) => w,
            Err(e) => {
                return Err(e);
            },
        };
        let fee_cents = match Self::get_commitment_fee_cents(ctx, store) {
            Ok(f) => f,
            Err(e) => {
                return Err(e);
            },
        };
        let memo = build_memo(trade_id, uid);
        let d = CommitmentDetails {
            trade_id,
            exchange_wallet_address: exchange_wallet,
            commitment_fee_cents: fee_cents,
            user_role: if is_proposer {
                Role::Proposer
            } else {
                Role::Acceptor
            },
            user_commit_status: if is_proposer {
                t.proposer_commit_status
            } else {
                t.acceptor_commit_status
            },
            other_commit_status: if is_proposer {
                t.acceptor_commit_status
            } else {
                t.proposer_commit_status
            },
            memo,
        };
        Ok(d)
    }

    /// Create a Pending ledger entry for a payment the caller is about to
    /// make. Fails `Auth` unless the caller participates in the trade, and
    /// `InvalidState` when a transaction of the same type already occupies
    /// the (trade, caller) slot — the single-writer guarantee against
    /// double payment.
    pub fn create(ctx: &Ctx, store: &mut Store, tx: TradeTransactionForCreate, now: u64) -> (r:
        Result<i64, Error>)
        requires
            old(store).wf(),
            old(store).next_tx_id < i64::MAX,
        ensures
            final(store).wf(),
            r == Ok::<i64, Error>(old(store).next_tx_id) <==> (some_row(
                old(store).trades@,
                sel_participant(tx.trade_id, ctx.spec_user_id()),
            ) && !some_row(
                old(store).transactions@,
                sel_blocking(tx.trade_id, ctx.spec_user_id(), tx.tx_type),
            )),
            (r matches Err(e) && e matches Error::Auth(_)) <==> !some_row(
                old(store).trades@,
                sel_participant(tx.trade_id, ctx.spec_user_id()),
            ),
            (r matches Err(e) && e matches Error::InvalidState(_)) <==> (some_row(
                old(store).trades@,
                sel_participant(tx.trade_id, ctx.spec_user_id()),
            ) && some_row(
                old(store).transactions@,
                sel_blocking(tx.trade_id, ctx.spec_user_id(), tx.tx_type),
            )),
            r matches Ok(_) ==> final(store).transactions@ == old(store).transactions@.push(
                fresh_transaction(tx, ctx.spec_user_id(), old(store).next_tx_id, now),
            ) && final(store).next_tx_id == old(store).next_tx_id + 1,
            !(r matches Ok(_)) ==> *final(store) == *old(store),
            final(store).trade_part() == old(store).trade_part(),
            final(store).review_part() == old(store).review_part(),
            final(store).user_part() == old(store).user_part(),
            final(store).config_part() == old(store).config_part(),
    {
        let uid = ctx.user_id();
        if !trade_participant_exists(store, tx.trade_id, uid) {
            return Err(Error::Auth(String::from_str("Not a participant in this trade")));
        }
        if blocking_exists(store, tx.trade_id, uid, tx.tx_type) {
            return Err(
                Error::InvalidState(
                    String::from_str("A transaction of this type already exists for this trade"),
                ),
            );
        }
        let ghost pre = store.transactions@;
        let id = store.next_tx_id;
        store.next_tx_id = id + 1;
        let row = TradeTransaction {
            id,
            trade_id: tx.trade_id,
            user_id: uid,
            tx_type: tx.tx_type,
            tx_id: tx.tx_id,
            coin_id: None,
            puzzle_hash: None,
            from_address: tx.from_address,
            to_address: tx.to_address,
            amount_mojos: tx.amount_mojos,
            status: TxStatus::Pending,
            confirmations: None,
            error_message: None,
            retry_count: None,
            created_at: now,
            mempool_at: None,
            confirmed_at: None,
        };
        store.transactions.push(row);
        proof {
            let post = store.transactions@;
            let fresh = fresh_transaction(tx, uid as i64, id, now);
            assert(post =~= pre.push(fresh));
            assert forall|a: int, b: int|
                0 <= a < post.len() && 0 <= b < post.len() && a != b && tx_active(
                    #[trigger] post[a],
                ) && tx_active(#[trigger] post[b]) implies !same_slot(post[a], post[b]) by {
                if a == post.len() - 1 {
                    assert(!sel_blocking(tx.trade_id, uid as i64, tx.tx_type)(pre[b]));
                } else if b == post.len() - 1 {
                    assert(!sel_blocking(tx.trade_id, uid as i64, tx.tx_type)(pre[a]));
                }
            }
        }
        Ok(id)
    }

    /// Record the external transaction id the payer's wallet reports after
    /// broadcasting, moving the caller's Pending entry to Mempool. Fails
    /// `NotFoundMsg` when the entry is absent, not the caller's, or already
    /// past Pending.
    pub fn submit_tx_id(ctx: &Ctx, store: &mut Store, transaction_id: i64, tx_id: String, now: u64) -> (r: Result<(), Error>)
        requires
            old(store).wf(),
        ensures
            final(store).wf(),
            r == Ok::<(), Error>(()) <==> some_row(
                old(store).transactions@,
                sel_submit(transaction_id, ctx.spec_user_id()),
            ),
            (r matches Err(e) ==> e matches Error::NotFoundMsg(_)),
            r == Ok::<(), Error>(()) ==> mapped_where(
                old(store).transactions@,
                final(store).transactions@,
                sel_submit(transaction_id, ctx.spec_user_id()),
                apply_submit(tx_id, now),
            ),
            !(r == Ok::<(), Error>(())) ==> *final(store) == *old(store),
            final(store).next_tx_id == old(store).next_tx_id,
            final(store).trade_part() == old(store).trade_part(),
            final(store).review_part() == old(store).review_part(),
            final(store).user_part() == old(store).user_part(),
            final(store).config_part() == old(store).config_part(),
    {
        let uid = ctx.user_id();
        let ghost pre = store.transactions@;
        let ghost sel = sel_submit(transaction_id, uid as i64);
        let idx = match find_tx(&store.transactions, transaction_id) {
            Some(i) => i,
            None => {
                return Err(
                    Error::NotFoundMsg(
                        String::from_str("Transaction not found or already submitted"),
                    ),
                );
            },
        };
        let t_ref = &store.transactions[idx];
        if !(t_ref.user_id == uid) || !(t_ref.status == TxStatus::Pending) {
            proof {
                lemma_no_other_tx_row(pre, store.next_tx_id, idx as int, sel, transaction_id);
            }
            return Err(
                Error::NotFoundMsg(String::from_str("Transaction not found or already submitted")),
            );
        }
        proof {
            assert(sel(pre[idx as int]));
        }
        let row = store.transactions.remove(idx);
        let updated = TradeTransaction {
            tx_id: Some(tx_id),
            status: TxStatus::Mempool,
            mempool_at: Some(now),
            ..row
        };
        store.transactions.insert(idx, updated);
        proof {
            let post = store.transactions@;
            assert(post =~= pre.update(idx as int, apply_submit(updated.tx_id.unwrap(), now)(pre[idx as int])));
            lemma_update_single_tx_row(
                pre,
                post,
                store.next_tx_id,
                idx as int,
                sel,
                apply_submit(updated.tx_id.unwrap(), now),
            );
        }
        Ok(())
    }

    /// Mark every active ledger row carrying external id `tx_id` as
    /// Confirmed, recording the observed coin and confirmation count.
    /// System-scoped: no per-user check. Fails `NotFoundMsg` when no active
    /// row carries the id — in particular when it was already confirmed, so
    /// a second confirmation of the same id is rejected rather than
    /// double-counted.
    pub fn confirm(_ctx: &Ctx, store: &mut Store, tx_id: &str, coin_id: String, confirmations: i32, now: u64) -> (r: Result<(), Error>)
        requires
            old(store).wf(),
        ensures
            final(store).wf(),
            mapped_where(
                old(store).transactions@,
                final(store).transactions@,
                sel_external_active(tx_id@),
                apply_confirm(coin_id, confirmations, now),
            ),
            r == Ok::<(), Error>(()) <==> some_row(
                old(store).transactions@,
                sel_external_active(tx_id@),
            ),
            (r matches Err(e) ==> e matches Error::NotFoundMsg(_)),
            final(store).next_tx_id == old(store).next_tx_id,
            final(store).trade_part() == old(store).trade_part(),
            final(store).review_part() == old(store).review_part(),
            final(store).user_part() == old(store).user_part(),
            final(store).config_part() == old(store).config_part(),
    {
        let key: String = tx_id.to_owned();
        let mut found = false;
        let mut i: usize = 0;
        while i < store.transactions.len()
            invariant
                i <= store.transactions@.len(),
                store.transactions@.len() == old(store).transactions@.len(),
                key@ == tx_id@,
                forall|k: int|
                    0 <= k < i ==> #[trigger] store.transactions@[k] == (if sel_external_active(
                        tx_id@,
                    )(old(store).transactions@[k]) {
                        apply_confirm(coin_id, confirmations, now)(old(store).transactions@[k])
                    } else {
                        old(store).transactions@[k]
                    }),
                forall|k: int|
                    i <= k < store.transactions@.len() ==> #[trigger] store.transactions@[k] == old(
                        store,
                    ).transactions@[k],
                found <==> exists|k: int|
                    0 <= k < i && sel_external_active(tx_id@)(
                        #[trigger] old(store).transactions@[k],
                    ),
                store.next_tx_id == old(store).next_tx_id,
                store.trade_part() == old(store).trade_part(),
                store.review_part() == old(store).review_part(),
                store.user_part() == old(store).user_part(),
                store.config_part() == old(store).config_part(),
            decreases store.transactions@.len() - i,
        {
            let t_ref = &store.transactions[i];
            let id_matches = match &t_ref.tx_id {
                Some(x) => x.eq(&key),
                None => false,
            };
            let row_selected = id_matches && (t_ref.status == TxStatus::Pending || t_ref.status
                == TxStatus::Mempool);
            if row_selected {
                let ghost mid = store.transactions@;
                let row = store.transactions.remove(i);
                let updated = TradeTransaction {
                    status: TxStatus::Confirmed,
                    coin_id: Some(coin_id.clone()),
                    confirmations: Some(confirmations),
                    confirmed_at: Some(now),
                    ..row
                };
                store.transactions.insert(i, updated);
                found = true;
                proof {
                    assert(store.transactions@ =~= mid.update(
                        i as int,
                        apply_confirm(coin_id, confirmations, now)(mid[i as int]),
                    ));
                }
            }
            i = i + 1;
        }
        proof {
            let pre = old(store).transactions@;
            let post = store.transactions@;
            assert forall|a: int| 0 <= a < post.len() implies (#[trigger] post[a]).id
                == pre[a].id by {}
            assert forall|a: int, b: int|
                0 <= a < post.len() && 0 <= b < post.len() && a != b && tx_active(
                    #[trigger] post[a],
                ) && tx_active(#[trigger] post[b]) implies !same_slot(post[a], post[b]) by {
                assert(post[a] == pre[a] && post[b] == pre[b]);
            }
        }
        if found {
            Ok(())
        } else {
            Err(Error::NotFoundMsg(String::from_str("Transaction not found or already confirmed")))
        }
    }

    /// Mark every active ledger row carrying external id `tx_id` as Failed
    /// with the given message. System-scoped. The transition applies only
    /// to Pending and Mempool rows; settled rows and unknown ids are left
    /// untouched, and the call still answers `Ok` — its callers (the stale
    /// cleanup, failure reports arriving late) treat an already-settled
    /// entry as nothing left to do.
    pub fn fail(_ctx: &Ctx, store: &mut Store, tx_id: &str, error_message: String) -> (r: Result<
        (),
        Error,
    >)
        requires
            old(store).wf(),
        ensures
            final(store).wf(),
            r == Ok::<(), Error>(()),
            mapped_where(
                old(store).transactions@,
                final(store).transactions@,
                sel_external_active(tx_id@),
                apply_fail(error_message),
            ),
            final(store).next_tx_id == old(store).next_tx_id,
            final(store).trade_part() == old(store).trade_part(),
            final(store).review_part() == old(store).review_part(),
            final(store).user_part() == old(store).user_part(),
            final(store).config_part() == old(store).config_part(),
    {
        let key: String = tx_id.to_owned();
        let mut i: usize = 0;
        while i < store.transactions.len()
            invariant
                i <= store.transactions@.len(),
                store.transactions@.len() == old(store).transactions@.len(),
                key@ == tx_id@,
                forall|k: int|
                    0 <= k < i ==> #[trigger] store.transactions@[k] == (if sel_external_active(
                        tx_id@,
                    )(old(store).transactions@[k]) {
                        apply_fail(error_message)(old(store).transactions@[k])
                    } else {
                        old(store).transactions@[k]
                    }),
                forall|k: int|
                    i <= k < store.transactions@.len() ==> #[trigger] store.transactions@[k] == old(
                        store,
                    ).transactions@[k],
                store.next_tx_id == old(store).next_tx_id,
                store.trade_part() == old(store).trade_part(),
                store.review_part() == old(store).review_part(),
                store.user_part() == old(store).user_part(),
                store.config_part() == old(store).config_part(),
            decreases store.transactions@.len() - i,
        {
            let t_ref = &store.transactions[i];
            let id_matches = match &t_ref.tx_id {
                Some(x) => x.eq(&key),
                None => false,
            };
            let row_selected = id_matches && (t_ref.status == TxStatus::Pending || t_ref.status
                == TxStatus::Mempool);
            if row_selected {
                let ghost mid = store.transactions@;
                let row = store.transactions.remove(i);
                let updated = TradeTransaction {
                    status: TxStatus::Failed,
                    error_message: Some(error_message.clone()),
                    ..row
                };
                store.transactions.insert(i, updated);
                proof {
                    assert(store.transactions@ =~= mid.update(
                        i as int,
                        apply_fail(error_message)(mid[i as int]),
                    ));
                }
            }
            i = i + 1;
        }
        proof {
            let pre = old(store).transactions@;
            let post = store.transactions@;
            assert forall|a: int| 0 <= a < post.len() implies (#[trigger] post[a]).id
                == pre[a].id by {}
            assert forall|a: int, b: int|
                0 <= a < post.len() && 0 <= b < post.len() && a != b && tx_active(
                    #[trigger] post[a],
                ) && tx_active(#[trigger] post[b]) implies !same_slot(post[a], post[b]) by {
                assert(post[a] == pre[a] && post[b] == pre[b]);
            }
        }
        Ok(())
    }
}

/// Selects the ledger rows awaiting verification: those in Mempool.
pub open spec fn sel_mempool() -> spec_fn(TradeTransaction) -> bool {
    (|t: TradeTransaction| t.status == TxStatus::Mempool)
}

/// The mempool-entry time a row is ordered by (0 when unset; rows handed to
/// the verification loop always carry one).
pub open spec fn mem_key(t: TradeTransaction) -> int {
    match t.mempool_at {
        Some(v) => v as int,
        None => 0,
    }
}

/// Sorted by mempool-entry time, oldest first: the FIFO fairness order of
/// the verification loop.
pub open spec fn sorted_by_mempool(s: Seq<TradeTransaction>) -> bool {
    forall|i: int, j: int| 0 <= i < j < s.len() ==> mem_key(#[trigger] s[i]) <= mem_key(#[trigger] s[j])
}

/// The mempool-entry time of `t`, as ordered.
fn mem_key_exec(t: &TradeTransaction) -> (r: u64)
    ensures
        r as int == mem_key(*t),
{
    match t.mempool_at {
        Some(v) => v,
        None => 0,
    }
}

/// Insert `x` into a run kept sorted by mempool-entry time.
fn sorted_insert(out: &mut Vec<TradeTransaction>, x: TradeTransaction)
    requires
        sorted_by_mempool(old(out)@),
    ensures
        final(out)@.to_multiset() == old(out)@.to_multiset().insert(x),
        sorted_by_mempool(final(out)@),
{
    let kx = mem_key_exec(&x);
    let mut j: usize = 0;
    while j < out.len() && mem_key_exec(&out[j]) <= kx
        invariant
            j <= out@.len(),
            out@ == old(out)@,
            kx as int == mem_key(x),
            forall|k: int| 0 <= k < j ==> mem_key(#[trigger] out@[k]) <= mem_key(x),
        decreases out@.len() - j,
    {
        j = j + 1;
    }
    let ghost pre = out@;
    let ghost pos = j as int;
    out.insert(j, x);
    proof {
        vstd::seq_lib::to_multiset_insert(pre, pos, x);
        pre.insert_ensures(pos, x);
        assert forall|a: int, b: int|
            0 <= a < b < out@.len() implies mem_key(#[trigger] out@[a]) <= mem_key(
            #[trigger] out@[b]) by {
            if b < pos {
                assert(out@[a] == pre[a] && out@[b] == pre[b]);
            } else if b == pos {
                assert(out@[a] == pre[a] && out@[b] == x);
                assert(mem_key(pre[a]) <= mem_key(x));
            } else {
                // b lands right of the insertion point, so pre[b - 1] is a
                // suffix element, larger than x and everything before it.
                assert(out@[b] == pre[b - 1]);
                assert(pos < pre.len());
                assert(mem_key(pre[pos]) > mem_key(x));
                if b - 1 > pos {
                    assert(mem_key(pre[pos]) <= mem_key(pre[b - 1]));
                }
                if a < pos {
                    assert(out@[a] == pre[a]);
                    assert(mem_key(pre[a]) <= mem_key(x));
                } else if a == pos {
                    assert(out@[a] == x);
                } else {
                    assert(out@[a] == pre[a - 1]);
                    assert(mem_key(pre[a - 1]) <= mem_key(pre[b - 1]));
                }
            }
        }
    }
}

/// Sorted by creation time, newest first: the order a trade's ledger
/// listing comes back in.
pub open spec fn sorted_by_created_desc(s: Seq<TradeTransaction>) -> bool {
    forall|i: int, j: int|
        0 <= i < j < s.len() ==> (#[trigger] s[i]).created_at >= (#[trigger] s[j]).created_at
}

/// Insert `x` into a run kept sorted by creation time, newest first.
fn sorted_insert_created_desc(out: &mut Vec<TradeTransaction>, x: TradeTransaction)
    requires
        sorted_by_created_desc(old(out)@),
    ensures
        final(out)@.to_multiset() == old(out)@.to_multiset().insert(x),
        sorted_by_created_desc(final(out)@),
{
    let kx = x.created_at;
    let mut j: usize = 0;
    while j < out.len() && out[j].created_at >= kx
        invariant
            j <= out@.len(),
            out@ == old(out)@,
            kx == x.created_at,
            forall|k: int| 0 <= k < j ==> (#[trigger] out@[k]).created_at >= x.created_at,
        decreases out@.len() - j,
    {
        j = j + 1;
    }
    let ghost pre = out@;
    let ghost pos = j as int;
    out.insert(j, x);
    proof {
        vstd::seq_lib::to_multiset_insert(pre, pos, x);
        pre.insert_ensures(pos, x);
        assert forall|a: int, b: int|
            0 <= a < b < out@.len() implies (#[trigger] out@[a]).created_at >= (
        #[trigger] out@[b]).created_at by {
            if b < pos {
                assert(out@[a] == pre[a] && out@[b] == pre[b]);
            } else if b == pos {
                assert(out@[a] == pre[a] && out@[b] == x);
            } else {
                // b lands right of the insertion point, so pre[b - 1] is a
                // suffix element, older than x and everything before it.
                assert(out@[b] == pre[b - 1]);
                assert(pos < pre.len());
                assert(pre[pos].created_at < x.created_at);
                if b - 1 > pos {
                    assert(pre[pos].created_at >= pre[b - 1].created_at);
                }
                if a < pos {
                    assert(out@[a] == pre[a]);
                    assert(pre[a].created_at >= x.created_at);
                } else if a == pos {
                    assert(out@[a] == x);
                } else {
                    assert(out@[a] == pre[a - 1]);
                    assert(pre[a - 1].created_at >= pre[b - 1].created_at);
                }
            }
        }
    }
}

impl TransactionBmc {
    /// List a trade's ledger rows, newest creation first; only a
    /// participant may see them.
    pub fn list_for_trade(ctx: &Ctx, store: &Store, trade_id: i64) -> (r: Result<
        Vec<TradeTransaction>,
        Error,
    >)
        requires
            store.wf(),
        ensures
            match r {
                Ok(v) => {
                    &&& some_row(store.trades@, sel_participant(trade_id, ctx.spec_user_id()))
                    &&& v@.to_multiset() == store.transactions@.filter(
                        sel_tx_of_trade(trade_id),
                    ).to_multiset()
                    &&& sorted_by_created_desc(v@)
                },
                Err(e) => (e matches Error::Auth(_)) && !some_row(
                    store.trades@,
                    sel_participant(trade_id, ctx.spec_user_id()),
                ),
            },
    {
        let uid = ctx.user_id();
        if !trade_participant_exists(store, trade_id, uid) {
            return Err(Error::Auth(String::from_str("Not a participant in this trade")));
        }
        let mut out: Vec<TradeTransaction> = Vec::new();
        let mut i: usize = 0;
        proof {
            reveal(Seq::filter);
            assert(store.transactions@.subrange(0, 0) =~= Seq::<TradeTransaction>::empty());
        }
        while i < store.transactions.len()
            invariant
                i <= store.transactions@.len(),
                sorted_by_created_desc(out@),
                out@.to_multiset() == store.transactions@.subrange(0, i as int).filter(
                    sel_tx_of_trade(trade_id),
                ).to_multiset(),
            decreases store.transactions@.len() - i,
        {
            proof {
                crate::table::lemma_filter_prefix_step(
                    store.transactions@,
                    i as int,
                    sel_tx_of_trade(trade_id),
                );
            }
            let ghost prefix_filtered = store.transactions@.subrange(0, i as int).filter(
                sel_tx_of_trade(trade_id),
            );
            if store.transactions[i].trade_id == trade_id {
                sorted_insert_created_desc(&mut out, store.transactions[i].duplicate());
                proof {
                    prefix_filtered.to_multiset_ensures();
                    assert(prefix_filtered.push(store.transactions@[i as int]).to_multiset()
                        =~= prefix_filtered.to_multiset().insert(
                        store.transactions@[i as int],
                    ));
                }
            }
            i = i + 1;
        }
        proof {
            assert(store.transactions@.subrange(0, store.transactions@.len() as int)
                =~= store.transactions@);
        }
        Ok(out)
    }

    /// List every Mempool-status row, ordered by mempool-entry time oldest
    /// first, so the verification loop treats payments fairly (FIFO).
    /// System-scoped.
    pub fn list_pending_verification(_ctx: &Ctx, store: &Store) -> (r: Result<
        Vec<TradeTransaction>,
        Error,
    >)
        requires
            store.wf(),
        ensures
            match r {
                Ok(v) => {
                    &&& v@.to_multiset() == store.transactions@.filter(
                        sel_mempool(),
                    ).to_multiset()
                    &&& sorted_by_mempool(v@)
                },
                Err(_) => false,
            },
    {
        let mut out: Vec<TradeTransaction> = Vec::new();
        let mut i: usize = 0;
        proof {
            reveal(Seq::filter);
            assert(store.transactions@.subrange(0, 0) =~= Seq::<TradeTransaction>::empty());
        }
        while i < store.transactions.len()
            invariant
                i <= store.transactions@.len(),
                sorted_by_mempool(out@),
                out@.to_multiset() == store.transactions@.subrange(0, i as int).filter(
                    sel_mempool(),
                ).to_multiset(),
            decreases store.transactions@.len() - i,
        {
            proof {
                crate::table::lemma_filter_prefix_step(
                    store.transactions@,
                    i as int,
                    sel_mempool(),
                );
            }
            let ghost prefix_filtered = store.transactions@.subrange(0, i as int).filter(
                sel_mempool(),
            );
            if store.transactions[i].status == TxStatus::Mempool {
                sorted_insert(&mut out, store.transactions[i].duplicate());
                proof {
                    prefix_filtered.to_multiset_ensures();
                    assert(prefix_filtered.push(store.transactions@[i as int]).to_multiset()
                        =~= prefix_filtered.to_multiset().insert(store.transactions@[i as int]));
                }
            }
            i = i + 1;
        }
        proof {
            assert(store.transactions@.subrange(0, store.transactions@.len() as int)
                =~= store.transactions@);
        }
        Ok(out)
    }
}

/// Two configuration tables that agree on which rows hold key `k`, and on
/// those rows' values, configure `k` alike. Stated for the two shapes the
/// upsert produces.
proof fn lemma_config_value_frame(pre: Seq<ExchangeConfig>, post: Seq<ExchangeConfig>, k: Seq<char>)
    requires
        crate::store::config_keys_ok(pre),
        pre.len() <= post.len(),
        post.len() <= pre.len() + 1,
        forall|i: int| 0 <= i < pre.len() ==> (#[trigger] post[i]).key@ == pre[i].key@,
        forall|i: int|
            0 <= i < pre.len() && (#[trigger] pre[i]).key@ == k ==> post[i].value@
                == pre[i].value@,
        post.len() == pre.len() + 1 ==> post.last().key@ != k,
    ensures
        spec_config_value(post, k) == spec_config_value(pre, k),
{
    if exists|i: int| 0 <= i < pre.len() && (#[trigger] pre[i]).key@ == k {
        let i = choose|i: int| 0 <= i < pre.len() && (#[trigger] pre[i]).key@ == k;
        assert(post[i].key@ == k);
        assert(exists|j: int| 0 <= j < post.len() && (#[trigger] post[j]).key@ == k) by {
            assert(post[i].key@ == k);
        }
        let jpost = choose|j: int| 0 <= j < post.len() && (#[trigger] post[j]).key@ == k;
        assert(jpost < pre.len()) by {
            if jpost == pre.len() {
                assert(post.last().key@ != k);
            }
        }
        assert(pre[jpost].key@ == k);
        assert(jpost == i) by {
            if jpost < i {
                assert(pre[jpost].key@ != pre[i].key@);
            } else if i < jpost {
                assert(pre[i].key@ != pre[jpost].key@);
            }
        }
        assert(spec_config_value(post, k) == Some(post[i].value@));
        assert(spec_config_value(pre, k) == Some(pre[choose|j: int|
            0 <= j < pre.len() && (#[trigger] pre[j]).key@ == k].value@));
        let jpre = choose|j: int| 0 <= j < pre.len() && (#[trigger] pre[j]).key@ == k;
        assert(jpre == i) by {
            if jpre < i {
                assert(pre[jpre].key@ != pre[i].key@);
            } else if i < jpre {
                assert(pre[i].key@ != pre[jpre].key@);
            }
        }
    } else {
        if exists|j: int| 0 <= j < post.len() && (#[trigger] post[j]).key@ == k {
            let j = choose|j: int| 0 <= j < post.len() && (#[trigger] post[j]).key@ == k;
            if j < pre.len() {
                assert(pre[j].key@ == k);
            }
        }
    }
}

} // verus!
