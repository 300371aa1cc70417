//! The verification loop's decision logic and its stale-entry cleanup.
//!
//! A background task periodically fetches the Mempool-status ledger rows,
//! queries the chain for each external transaction id, and hands the
//! observation back here; the decision of what the observation means and
//! the resulting ledger transition are verified. One row's failure never
//! touches the others: each row is processed by its own call.

use vstd::prelude::*;

use crate::chain::ChainObservation;
use crate::ctx::Ctx;
use crate::error::Error;
use crate::status::TxStatus;
use crate::store::Store;
use crate::table::{mapped_where, some_row};
use crate::transaction::{
    apply_confirm, apply_fail, sel_external_active, tx_active, TradeTransaction, TransactionBmc,
};

verus! {

/// Confirmations demanded before a payment counts as final.
pub const MIN_CONFIRMATIONS: u64 = 6;

/// Seconds a Pending entry with an external id may wait before cleanup
/// declares it failed.
pub const STALE_PENDING_SECS: u64 = 86400;

/// What one verification step decides about one transaction.
#[derive(Debug, Clone, Copy, PartialEq, Eq, Structural)]
pub enum VerifyDecision {
    /// The payment left the mempool and has enough confirmations: mark it
    /// Confirmed with this confirmation count.
    Confirm { confirmations: u64 },
    /// Anything else — still in the mempool, confirmed but short of the
    /// threshold, or a failed lookup — leaves the row as it is; the next
    /// tick retries.
    Leave,
}

/// The verification rule. A transaction still in the mempool waits; a
/// confirmed one counts `height_now - confirmed_height` confirmations and
/// graduates at `MIN_CONFIRMATIONS`; an unconfirmed or unknown one is left
/// alone — a lookup failure is never reason to mark a payment failed.
pub open spec fn decision_spec(obs: ChainObservation, current_height: u64) -> VerifyDecision {
    if obs.in_mempool {
        VerifyDecision::Leave
    } else {
        match obs.record {
            None => VerifyDecision::Leave,
            Some(rec) => {
                if rec.confirmed {
                    match rec.confirmed_at_height {
                        Some(h) => {
                            let c = if current_height > h {
                                current_height - h
                            } else {
                                0
                            };
                            if c >= MIN_CONFIRMATIONS {
                                VerifyDecision::Confirm { confirmations: c as u64 }
                            } else {
                                VerifyDecision::Leave
                            }
                        },
                        None => VerifyDecision::Leave,
                    }
                } else {
                    VerifyDecision::Leave
                }
            },
        }
    }
}

/// Decide what one chain observation means for one transaction.
pub fn verification_decision(obs: &ChainObservation, current_height: u64) -> (r: VerifyDecision)
    ensures
        r == decision_spec(*obs, current_height),
{
    if obs.in_mempool {
        return VerifyDecision::Leave;
    }
    match &obs.record {
        None => VerifyDecision::Leave,
        Some(rec) => {
            if rec.confirmed {
                match rec.confirmed_at_height {
                    Some(h) => {
                        let c = if current_height > h {
                            current_height - h
                        } else {
                            0
                        };
                        if c >= MIN_CONFIRMATIONS {
                            VerifyDecision::Confirm { confirmations: c }
                        } else {
                            VerifyDecision::Leave
                        }
                    },
                    None => VerifyDecision::Leave,
                }
            } else {
                VerifyDecision::Leave
            }
        },
    }
}

/// The confirmation count as stored: clamped into `i32`.
pub open spec fn clamp_confirmations(c: u64) -> i32 {
    if c > i32::MAX as u64 {
        i32::MAX
    } else {
        c as i32
    }
}

/// Apply one chain observation to the ledger: on a `Confirm` decision the
/// matching active rows are marked Confirmed (with the coin reference left
/// empty — this observation path does not carry one) and `Ok(true)` comes
/// back, or `NotFoundMsg` when no active row carries the id; on `Leave`
/// the store is untouched and `Ok(false)` comes back.
pub fn verify_single_transaction(ctx: &Ctx, store: &mut Store, tx_id: &str, obs: &ChainObservation, current_height: u64, now: u64) -> (r: Result<bool, Error>)
    requires
        old(store).wf(),
    ensures
        final(store).wf(),
        decision_spec(*obs, current_height) matches VerifyDecision::Confirm { confirmations }
            ==> ({
            &&& exists|empty_coin: String|
                empty_coin@ == Seq::<char>::empty() && mapped_where(
                    old(store).transactions@,
                    final(store).transactions@,
                    sel_external_active(tx_id@),
                    #[trigger] crate::transaction::apply_confirm(
                        empty_coin,
                        clamp_confirmations(confirmations),
                        now,
                    ),
                )
            &&& (r == Ok::<bool, Error>(true) <==> some_row(
                old(store).transactions@,
                sel_external_active(tx_id@),
            ))
            &&& (r matches Err(e) ==> e matches Error::NotFoundMsg(_))
        }),
        decision_spec(*obs, current_height) == VerifyDecision::Leave ==> r == Ok::<bool, Error>(
            false,
        ) && *final(store) == *old(store),
        final(store).next_tx_id == old(store).next_tx_id,
        final(store).trade_part() == old(store).trade_part(),
        final(store).review_part() == old(store).review_part(),
        final(store).user_part() == old(store).user_part(),
        final(store).config_part() == old(store).config_part(),
{
    match verification_decision(obs, current_height) {
        VerifyDecision::Confirm { confirmations } => {
            let clamped: i32 = if confirmations > (i32::MAX as u64) {
                i32::MAX
            } else {
                confirmations as i32
            };
            let empty_coin = String::new();
            let ghost coin_snapshot: String = empty_coin;
            let outcome = TransactionBmc::confirm(ctx, store, tx_id, empty_coin, clamped, now);
            proof {
                assert(outcome == Ok::<(), Error>(()) <==> some_row(
                    old(store).transactions@,
                    sel_external_active(tx_id@),
                ));
                match decision_spec(*obs, current_height) {
                    VerifyDecision::Confirm { confirmations: c } => {
                        assert(clamped == clamp_confirmations(c));
                        assert(coin_snapshot@ == Seq::<char>::empty() && mapped_where(
                            old(store).transactions@,
                            store.transactions@,
                            sel_external_active(tx_id@),
                            apply_confirm(coin_snapshot, clamp_confirmations(c), now),
                        ));
                        assert(exists|empty_coin: String|
                            empty_coin@ == Seq::<char>::empty() && mapped_where(
                                old(store).transactions@,
                                store.transactions@,
                                sel_external_active(tx_id@),
                                #[trigger] apply_confirm(empty_coin, clamp_confirmations(c), now),
                            ));
                    },
                    VerifyDecision::Leave => {},
                }
            }
            match outcome {
                Ok(u) => {
                    proof {
                        assert(outcome == Ok::<(), Error>(u));
                        assert(u == ());
                    }
                    Ok(true)
                },
                Err(e) => Err(e),
            }
        },
        VerifyDecision::Leave => Ok(false),
    }
}

/// Selects the stale Pending rows: broadcast was reported (an external id
/// is recorded) but the entry never reached the mempool within
/// `STALE_PENDING_SECS`. Entries without an external id are never touched.
pub open spec fn sel_stale(now: u64) -> spec_fn(TradeTransaction) -> bool {
    (|t: TradeTransaction| t.status == TxStatus::Pending && t.tx_id is Some && t.created_at
        + STALE_PENDING_SECS < now)
}

/// The fixed explanation written on entries the cleanup fails.
pub fn stale_message() -> (r: &'static str)
    ensures
        r@ == "Transaction did not appear in mempool within 24 hours"@,
{
    "Transaction did not appear in mempool within 24 hours"
}

/// Mark every stale Pending entry Failed with the fixed message. Runs on
/// its own schedule, independent of the verification loop.
pub fn cleanup_stale_transactions(store: &mut Store, now: u64) -> (r: Result<(), Error>)
    requires
        old(store).wf(),
    ensures
        final(store).wf(),
        r == Ok::<(), Error>(()),
        exists|msg: String|
            msg@ == "Transaction did not appear in mempool within 24 hours"@ && mapped_where(
                old(store).transactions@,
                final(store).transactions@,
                sel_stale(now),
                apply_fail(msg),
            ),
        final(store).next_tx_id == old(store).next_tx_id,
        final(store).trade_part() == old(store).trade_part(),
        final(store).review_part() == old(store).review_part(),
        final(store).user_part() == old(store).user_part(),
        final(store).config_part() == old(store).config_part(),
{
    let message: String = String::from_str(stale_message());
    let mut i: usize = 0;
    while i < store.transactions.len()
        invariant
            i <= store.transactions@.len(),
            store.transactions@.len() == old(store).transactions@.len(),
            message@ == "Transaction did not appear in mempool within 24 hours"@,
            forall|k: int|
                0 <= k < i ==> #[trigger] store.transactions@[k] == (if sel_stale(now)(
                    old(store).transactions@[k],
                ) {
                    apply_fail(message)(old(store).transactions@[k])
                } else {
                    old(store).transactions@[k]
                }),
            forall|k: int|
                i <= k < store.transactions@.len() ==> #[trigger] store.transactions@[k] == old(
                    store,
                ).transactions@[k],
            store.next_tx_id == old(store).next_tx_id,
            store.trade_part() == old(store).trade_part(),
            store.review_part() == old(store).review_part(),
            store.user_part() == old(store).user_part(),
            store.config_part() == old(store).config_part(),
        decreases store.transactions@.len() - i,
    {
        let t_ref = &store.transactions[i];
        let has_external = t_ref.tx_id.is_some();
        let stale = t_ref.status == TxStatus::Pending && has_external && now
            > STALE_PENDING_SECS && t_ref.created_at < now - STALE_PENDING_SECS;
        proof {
            assert(stale == sel_stale(now)(store.transactions@[i as int]));
        }
        if stale {
            let ghost mid = store.transactions@;
            let row = store.transactions.remove(i);
            let updated = TradeTransaction {
                status: TxStatus::Failed,
                error_message: Some(message.clone()),
                ..row
            };
            store.transactions.insert(i, updated);
            proof {
                assert(store.transactions@ =~= mid.update(
                    i as int,
                    apply_fail(message)(mid[i as int]),
                ));
            }
        }
        i = i + 1;
    }
    proof {
        let pre = old(store).transactions@;
        let post = store.transactions@;
        assert(message@ == "Transaction did not appear in mempool within 24 hours"@ && mapped_where(
            pre,
            post,
            sel_stale(now),
            apply_fail(message),
        ));
        assert forall|a: int| 0 <= a < post.len() implies (#[trigger] post[a]).id == pre[a].id by {}
        assert forall|a: int, b: int|
            0 <= a < post.len() && 0 <= b < post.len() && a != b && tx_active(#[trigger] post[a])
                && tx_active(#[trigger] post[b]) implies !crate::transaction::same_slot(
            post[a],
            post[b],
        ) by {
            assert(post[a] == pre[a] && post[b] == pre[b]);
        }
    }
    Ok(())
}

} // verus!
