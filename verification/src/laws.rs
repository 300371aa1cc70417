//! The system-wide laws, each proved from what the operations' contracts
//! and the store's invariants state.

use vstd::prelude::*;

use crate::status::TradeStatus;
use crate::store::Store;
use crate::table::{mapped_where, some_row};
use crate::transaction::{
    apply_confirm, details_ok, in_slot, sel_external_active, single_active_per_slot, tx_active,
    CommitmentDetails, TradeTransaction,
};

verus! {

/// A trade's acceptor is recorded exactly when it has moved past Proposal:
/// unset while the trade is a Proposal, set in Matched, Committed and
/// Escrow. (Cancelled and Completed are excluded: both are reachable
/// directly from a Proposal, whose empty acceptor they keep.)
pub proof fn lemma_acceptor_set_iff_not_proposal(store: Store, i: int)
    requires
        store.wf(),
        0 <= i < store.trades@.len(),
        !store.trades@[i].status.spec_is_terminal(),
    ensures
        store.trades@[i].acceptor_id is Some <==> store.trades@[i].status != TradeStatus::Proposal,
{
}

/// An acceptor, once recorded, is never overwritten: the only transition
/// that writes the acceptor field is a successful accept, and it touches
/// only rows still in Proposal state — which, in a well-formed store, have
/// no acceptor yet.
pub proof fn lemma_accept_never_overwrites(store: Store, post: Seq<crate::trade::Trade>, trade_id: i64, uid: i64, p: crate::trade::TradeAcceptParams, now: u64)
    requires
        store.wf(),
        mapped_where(
            store.trades@,
            post,
            crate::trade::sel_proposal(trade_id),
            crate::trade::apply_accept(uid, p, now),
        ),
    ensures
        forall|i: int|
            0 <= i < store.trades@.len() && (#[trigger] store.trades@[i]).acceptor_id is Some
                ==> post[i].acceptor_id == store.trades@[i].acceptor_id,
{
    assert forall|i: int|
        0 <= i < store.trades@.len() && (#[trigger] store.trades@[i]).acceptor_id is Some implies
        post[i].acceptor_id == store.trades@[i].acceptor_id by {
        assert(crate::store::trade_parties_ok(store.trades@[i]));
    }
}

/// Selects a slot's active rows: those holding the (trade, user, type)
/// slot in Pending or Mempool state.
pub open spec fn sel_active_slot(trade_id: i64, user_id: i64, tx_type: crate::status::TxType) -> spec_fn(TradeTransaction) -> bool {
    (|t: TradeTransaction| in_slot(t, trade_id, user_id, tx_type) && tx_active(t))
}

/// In a ledger where no two distinct active rows share a slot, each slot
/// holds at most one active row.
pub proof fn lemma_at_most_one_active(txs: Seq<TradeTransaction>, trade_id: i64, user_id: i64, tx_type: crate::status::TxType)
    requires
        single_active_per_slot(txs),
    ensures
        txs.filter(sel_active_slot(trade_id, user_id, tx_type)).len() <= 1,
    decreases txs.len(),
{
    reveal(Seq::filter);
    let sel = sel_active_slot(trade_id, user_id, tx_type);
    if txs.len() > 0 {
        let prefix = txs.drop_last();
        assert(single_active_per_slot(prefix)) by {
            assert(forall|i: int|
                0 <= i < prefix.len() ==> #[trigger] prefix[i] == txs[i]);
        }
        lemma_at_most_one_active(prefix, trade_id, user_id, tx_type);
        if sel(txs.last()) {
            // The last row holds the slot actively, so no earlier row may:
            // the slot's filtered prefix is empty.
            assert forall|i: int| 0 <= i < prefix.len() implies !sel(#[trigger] prefix[i]) by {
                if sel(prefix[i]) {
                    assert(tx_active(txs[i]) && tx_active(txs[txs.len() - 1]));
                    assert(!crate::transaction::same_slot(txs[i], txs[txs.len() - 1]));
                }
            }
            prefix.lemma_all_neg_filter_empty(sel);
        }
    }
}

/// In a well-formed store, at most one commitment payment per
/// (trade, payer, purpose) is underway at a time.
pub proof fn lemma_store_at_most_one_active(store: Store, trade_id: i64, user_id: i64, tx_type: crate::status::TxType)
    requires
        store.wf(),
    ensures
        store.transactions@.filter(sel_active_slot(trade_id, user_id, tx_type)).len() <= 1,
{
    lemma_at_most_one_active(store.transactions@, trade_id, user_id, tx_type);
}

/// A confirmation is not repeatable: once the rows carrying an external id
/// have been confirmed, no active row carries that id, so a second
/// `confirm` of the same id matches nothing and fails `NotFoundMsg` —
/// confirmations are never double-counted.
pub proof fn lemma_confirm_second_time_not_found(pre: Seq<TradeTransaction>, post: Seq<TradeTransaction>, tx_id: Seq<char>, coin_id: String, confirmations: i32, now: u64)
    requires
        mapped_where(
            pre,
            post,
            sel_external_active(tx_id),
            apply_confirm(coin_id, confirmations, now),
        ),
    ensures
        !some_row(post, sel_external_active(tx_id)),
{
    assert forall|i: int| 0 <= i < post.len() implies !sel_external_active(tx_id)(
        #[trigger] post[i],
    ) by {
        if sel_external_active(tx_id)(pre[i]) {
            assert(post[i] == apply_confirm(coin_id, confirmations, now)(pre[i]));
        } else {
            assert(post[i] == pre[i]);
        }
    }
}

/// Commitment details are a function of (store, caller, trade): any two
/// answers that a well-formed store admits agree on every observable
/// field, so repeated reads without an intervening mutation are identical.
pub proof fn lemma_commitment_details_agree(store: Store, uid: i64, trade_id: i64, d1: CommitmentDetails, d2: CommitmentDetails)
    requires
        store.wf(),
        details_ok(store, uid, trade_id, d1),
        details_ok(store, uid, trade_id, d2),
    ensures
        d1.trade_id == d2.trade_id,
        d1.exchange_wallet_address@ == d2.exchange_wallet_address@,
        d1.commitment_fee_cents == d2.commitment_fee_cents,
        d1.user_role == d2.user_role,
        d1.user_commit_status == d2.user_commit_status,
        d1.other_commit_status == d2.other_commit_status,
        d1.memo@ == d2.memo@,
{
    let i1 = choose|i: int|
        0 <= i < store.trades@.len() && {
            let t = #[trigger] store.trades@[i];
            &&& t.id == trade_id
            &&& crate::trade::is_participant(t, uid)
            &&& (t.status == TradeStatus::Matched || t.status == TradeStatus::Committed)
            &&& d1.user_role == (if t.proposer_id == uid {
                crate::status::Role::Proposer
            } else {
                crate::status::Role::Acceptor
            })
            &&& d1.user_commit_status == (if t.proposer_id == uid {
                t.proposer_commit_status
            } else {
                t.acceptor_commit_status
            })
            &&& d1.other_commit_status == (if t.proposer_id == uid {
                t.acceptor_commit_status
            } else {
                t.proposer_commit_status
            })
        };
    let i2 = choose|i: int|
        0 <= i < store.trades@.len() && {
            let t = #[trigger] store.trades@[i];
            &&& t.id == trade_id
            &&& crate::trade::is_participant(t, uid)
            &&& (t.status == TradeStatus::Matched || t.status == TradeStatus::Committed)
            &&& d2.user_role == (if t.proposer_id == uid {
                crate::status::Role::Proposer
            } else {
                crate::status::Role::Acceptor
            })
            &&& d2.user_commit_status == (if t.proposer_id == uid {
                t.proposer_commit_status
            } else {
                t.acceptor_commit_status
            })
            &&& d2.other_commit_status == (if t.proposer_id == uid {
                t.acceptor_commit_status
            } else {
                t.proposer_commit_status
            })
        };
    crate::store::lemma_trade_id_unique(store.trades@, store.next_trade_id, i1, i2);
}

} // verus!
