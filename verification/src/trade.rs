//! The trade entity and its state machine.
//!
//! A trade is proposed by one user, accepted by another, committed, shipped
//! and completed; proposer or admin may cancel or delete it along the way.
//! Every mutation goes through [`TradeBmc`], whose conditional updates double
//! as the authorization check: when no row matches the id + ownership +
//! status predicate the caller learns only `NotFound`.

use vstd::prelude::*;

use crate::ctx::Ctx;
use crate::error::Error;
use crate::status::{CommitStatus, OfferType, TradeStatus, TradeType};
use crate::store::Store;
use crate::table::{mapped_where, removed_where, some_row};

verus! {

/// A proposed and negotiated exchange. Monetary values are integer cents,
/// crypto amounts integer mojos, timestamps integer unix seconds.
#[derive(Debug, Clone)]
pub struct Trade {
    pub id: i64,
    pub proposer_id: i64,
    pub acceptor_id: Option<i64>,
    pub status: TradeStatus,
    // Proposer's item
    pub proposer_item_title: String,
    pub proposer_item_description: String,
    pub proposer_item_condition: Option<String>,
    pub proposer_item_value_cents: u64,
    pub proposer_item_category: Option<String>,
    // Acceptor's offer
    pub acceptor_item_title: Option<String>,
    pub acceptor_item_description: Option<String>,
    pub acceptor_item_condition: Option<String>,
    pub acceptor_item_value_cents: Option<u64>,
    pub acceptor_xch_offer: Option<i64>,
    // XCH involvement
    pub xch_amount: Option<i64>,
    pub trade_type: TradeType,
    // Commitment
    pub proposer_commit_status: CommitStatus,
    pub acceptor_commit_status: CommitStatus,
    pub proposer_commitment_tx: Option<String>,
    pub acceptor_commitment_tx: Option<String>,
    pub commitment_memo: Option<String>,
    pub committed_at: Option<u64>,
    // Escrow
    pub escrow_coin_id: Option<String>,
    pub escrow_puzzle_hash: Option<String>,
    pub escrow_start_date: Option<u64>,
    pub escrow_end_date: Option<u64>,
    // Shipping
    pub proposer_tracking_number: Option<String>,
    pub proposer_tracking_carrier: Option<String>,
    pub proposer_shipped_at: Option<u64>,
    pub proposer_received_at: Option<u64>,
    pub acceptor_tracking_number: Option<String>,
    pub acceptor_tracking_carrier: Option<String>,
    pub acceptor_shipped_at: Option<u64>,
    pub acceptor_received_at: Option<u64>,
    // Completion
    pub completed_at: Option<u64>,
    pub final_blockchain_hash: Option<String>,
    pub created_at: u64,
    pub updated_at: u64,
}

/// Payload for creating a trade proposal.
#[derive(Debug, Clone)]
pub struct TradeForCreate {
    pub item_title: String,
    pub item_description: String,
    pub item_condition: Option<String>,
    pub item_value_cents: u64,
    pub item_category: Option<String>,
}

/// Payload for accepting a proposal with a counter-offer.
#[derive(Debug, Clone)]
pub struct TradeAcceptParams {
    pub trade_id: i64,
    pub offer_type: OfferType,
    pub item_title: Option<String>,
    pub item_description: Option<String>,
    pub item_condition: Option<String>,
    pub item_value_cents: Option<u64>,
    pub xch_amount: Option<i64>,
}

/// Partial update of a trade's mutable fields.
#[derive(Debug, Clone)]
pub struct TradeForUpdate {
    pub status: Option<TradeStatus>,
    pub acceptor_id: Option<i64>,
    pub proposer_tracking_number: Option<String>,
    pub proposer_tracking_carrier: Option<String>,
    pub acceptor_tracking_number: Option<String>,
    pub acceptor_tracking_carrier: Option<String>,
}

/// Whether `uid` is the proposer or the (already set) acceptor of `t`.
pub open spec fn is_participant(t: Trade, uid: i64) -> bool {
    t.proposer_id == uid || t.acceptor_id == Some(uid)
}

/// The trade `tc` creates for `proposer_id` under a fresh `id` at time `now`.
pub open spec fn fresh_trade(tc: TradeForCreate, proposer_id: i64, id: i64, now: u64) -> Trade {
    (Trade {
        id,
        proposer_id,
        acceptor_id: None,
        status: TradeStatus::Proposal,
        proposer_item_title: tc.item_title,
        proposer_item_description: tc.item_description,
        proposer_item_condition: tc.item_condition,
        proposer_item_value_cents: tc.item_value_cents,
        proposer_item_category: tc.item_category,
        acceptor_item_title: None,
        acceptor_item_description: None,
        acceptor_item_condition: None,
        acceptor_item_value_cents: None,
        acceptor_xch_offer: None,
        xch_amount: None,
        trade_type: TradeType::ItemForItem,
        proposer_commit_status: CommitStatus::Pending,
        acceptor_commit_status: CommitStatus::Pending,
        proposer_commitment_tx: None,
        acceptor_commitment_tx: None,
        commitment_memo: None,
        committed_at: None,
        escrow_coin_id: None,
        escrow_puzzle_hash: None,
        escrow_start_date: None,
        escrow_end_date: None,
        proposer_tracking_number: None,
        proposer_tracking_carrier: None,
        proposer_shipped_at: None,
        proposer_received_at: None,
        acceptor_tracking_number: None,
        acceptor_tracking_carrier: None,
        acceptor_shipped_at: None,
        acceptor_received_at: None,
        completed_at: None,
        final_blockchain_hash: None,
        created_at: now,
        updated_at: now,
    })
}

/// The trade `t` after `acceptor_id` accepts it with offer `p` at time `now`.
pub open spec fn accepted_trade(t: Trade, acceptor_id: i64, p: TradeAcceptParams, now: u64) -> Trade {
    (Trade {
        acceptor_id: Some(acceptor_id),
        status: TradeStatus::Matched,
        acceptor_item_title: p.item_title,
        acceptor_item_description: p.item_description,
        acceptor_item_condition: p.item_condition,
        acceptor_item_value_cents: p.item_value_cents,
        acceptor_xch_offer: p.xch_amount,
        trade_type: p.offer_type.spec_trade_type(),
        updated_at: now,
        ..t
    })
}

/// `t` with only its status and update time changed.
pub open spec fn with_status(t: Trade, status: TradeStatus, now: u64) -> Trade {
    (Trade { status, updated_at: now, ..t })
}

/// Selects the row of trade `id`.
pub open spec fn sel_trade(id: i64) -> spec_fn(Trade) -> bool {
    (|t: Trade| t.id == id)
}

/// Selects the row of trade `id` when it is still a Proposal.
pub open spec fn sel_proposal(id: i64) -> spec_fn(Trade) -> bool {
    (|t: Trade| t.id == id && t.status == TradeStatus::Proposal)
}

/// Selects the row of trade `id` when it is a Proposal proposed by `uid`.
pub open spec fn sel_own_proposal(id: i64, uid: i64) -> spec_fn(Trade) -> bool {
    (|t: Trade| t.id == id && t.status == TradeStatus::Proposal && t.proposer_id == uid)
}

/// Selects the row of trade `id` when `uid` participates in it.
pub open spec fn sel_participant(id: i64, uid: i64) -> spec_fn(Trade) -> bool {
    (|t: Trade| t.id == id && is_participant(t, uid))
}

/// The row transform of a successful accept.
pub open spec fn apply_accept(uid: i64, p: TradeAcceptParams, now: u64) -> spec_fn(Trade) -> Trade {
    (|t: Trade| accepted_trade(t, uid, p, now))
}

/// Selects every open proposal, for the public listing.
pub open spec fn sel_proposals() -> spec_fn(Trade) -> bool {
    (|t: Trade| t.status == TradeStatus::Proposal)
}

/// Selects the trades `uid` participates in.
pub open spec fn sel_my_trades(uid: i64) -> spec_fn(Trade) -> bool {
    (|t: Trade| is_participant(t, uid))
}

/// The row transform of a status update.
pub open spec fn apply_status(status: TradeStatus, now: u64) -> spec_fn(Trade) -> Trade {
    (|t: Trade| with_status(t, status, now))
}

/// Which source states a status update may move a trade out of, per target:
/// commit from Matched or Committed, escrow from Committed, complete from
/// any non-terminal state; no other target is reachable this way.
pub open spec fn spec_status_transition_ok(from: TradeStatus, to: TradeStatus) -> bool {
    match to {
        TradeStatus::Committed => from == TradeStatus::Matched || from == TradeStatus::Committed,
        TradeStatus::Escrow => from == TradeStatus::Committed,
        TradeStatus::Completed => !from.spec_is_terminal(),
        _ => false,
    }
}

#[verifier::when_used_as_spec(spec_status_transition_ok)]
pub fn status_transition_ok(from: TradeStatus, to: TradeStatus) -> (r: bool)
    ensures
        r == spec_status_transition_ok(from, to),
{
    match to {
        TradeStatus::Committed => from == TradeStatus::Matched || from == TradeStatus::Committed,
        TradeStatus::Escrow => from == TradeStatus::Committed,
        TradeStatus::Completed => !from.is_terminal(),
        _ => false,
    }
}

/// Selects the row a participant-scoped status update touches.
pub open spec fn sel_status_update(id: i64, uid: i64, to: TradeStatus) -> spec_fn(Trade) -> bool {
    (|t: Trade| t.id == id && is_participant(t, uid) && spec_status_transition_ok(t.status, to))
}

/// Selects the row a participant-scoped tracking update touches: the trade
/// must not be terminal.
pub open spec fn sel_tracking(id: i64, uid: i64) -> spec_fn(Trade) -> bool {
    (|t: Trade| t.id == id && is_participant(t, uid) && !t.status.spec_is_terminal())
}

/// The row transform of adding tracking: it fills the calling side's
/// tracking fields and stamps that side's shipped time.
pub open spec fn with_tracking(t: Trade, uid: i64, number: String, carrier: String, now: u64) -> Trade {
    if t.proposer_id == uid {
        (Trade {
            proposer_tracking_number: Some(number),
            proposer_tracking_carrier: Some(carrier),
            proposer_shipped_at: Some(now),
            updated_at: now,
            ..t
        })
    } else {
        (Trade {
            acceptor_tracking_number: Some(number),
            acceptor_tracking_carrier: Some(carrier),
            acceptor_shipped_at: Some(now),
            updated_at: now,
            ..t
        })
    }
}

/// Selects the row a proposer's own cancel touches: their trade, still in
/// Proposal or Matched.
pub open spec fn sel_cancel(id: i64, uid: i64) -> spec_fn(Trade) -> bool {
    (|t: Trade| t.id == id && t.proposer_id == uid && (t.status == TradeStatus::Proposal
        || t.status == TradeStatus::Matched))
}

/// Selects the row an admin cancel touches: any open (Proposal, Matched or
/// Committed) trade.
pub open spec fn sel_admin_cancel(id: i64) -> spec_fn(Trade) -> bool {
    (|t: Trade| t.id == id && (t.status == TradeStatus::Proposal || t.status
        == TradeStatus::Matched || t.status == TradeStatus::Committed))
}

/// Selects the row an admin delete removes: a Proposal or a Cancelled trade.
pub open spec fn sel_admin_delete(id: i64) -> spec_fn(Trade) -> bool {
    (|t: Trade| t.id == id && (t.status == TradeStatus::Proposal || t.status
        == TradeStatus::Cancelled))
}

/// If the only row carrying `id` fails `sel`, and `sel` implies carrying
/// `id`, then no row at all is selected.
pub proof fn lemma_no_other_row(trades: Seq<Trade>, next: i64, idx: int, sel: spec_fn(Trade) -> bool, id: i64)
    requires
        crate::store::trade_ids_ok(trades, next),
        0 <= idx < trades.len(),
        trades[idx].id == id,
        !sel(trades[idx]),
        forall|t: Trade| #[trigger] sel(t) ==> t.id == id,
    ensures
        !some_row(trades, sel),
{
    assert forall|k: int| 0 <= k < trades.len() implies !sel(#[trigger] trades[k]) by {
        if sel(trades[k]) {
            crate::store::lemma_trade_id_unique(trades, next, k, idx);
        }
    }
}

/// Updating the single row carrying `id` in place realises the conditional
/// update `mapped_where` when `sel` selects only rows carrying `id`.
pub proof fn lemma_update_single_row(pre: Seq<Trade>, post: Seq<Trade>, next: i64, idx: int, sel: spec_fn(Trade) -> bool, f: spec_fn(Trade) -> Trade)
    requires
        crate::store::trade_ids_ok(pre, next),
        0 <= idx < pre.len(),
        sel(pre[idx]),
        forall|t: Trade| #[trigger] sel(t) ==> t.id == pre[idx].id,
        post == pre.update(idx, f(pre[idx])),
    ensures
        mapped_where(pre, post, sel, f),
{
    assert forall|k: int| 0 <= k < pre.len() implies #[trigger] post[k] == (if sel(pre[k]) {
        f(pre[k])
    } else {
        pre[k]
    }) by {
        if k != idx && sel(pre[k]) {
            crate::store::lemma_trade_id_unique(pre, next, k, idx);
        }
    }
}

impl Trade {
    /// A field-by-field copy, equal to the original.
    pub fn duplicate(&self) -> (r: Trade)
        ensures
            r == *self,
    {
        Trade {
            id: self.id,
            proposer_id: self.proposer_id,
            acceptor_id: self.acceptor_id,
            status: self.status,
            proposer_item_title: self.proposer_item_title.clone(),
            proposer_item_description: self.proposer_item_description.clone(),
            proposer_item_condition: crate::dup::dup_opt_string(&self.proposer_item_condition),
            proposer_item_value_cents: self.proposer_item_value_cents,
            proposer_item_category: crate::dup::dup_opt_string(&self.proposer_item_category),
            acceptor_item_title: crate::dup::dup_opt_string(&self.acceptor_item_title),
            acceptor_item_description: crate::dup::dup_opt_string(&self.acceptor_item_description),
            acceptor_item_condition: crate::dup::dup_opt_string(&self.acceptor_item_condition),
            acceptor_item_value_cents: self.acceptor_item_value_cents,
            acceptor_xch_offer: self.acceptor_xch_offer,
            xch_amount: self.xch_amount,
            trade_type: self.trade_type,
            proposer_commit_status: self.proposer_commit_status,
            acceptor_commit_status: self.acceptor_commit_status,
            proposer_commitment_tx: crate::dup::dup_opt_string(&self.proposer_commitment_tx),
            acceptor_commitment_tx: crate::dup::dup_opt_string(&self.acceptor_commitment_tx),
            commitment_memo: crate::dup::dup_opt_string(&self.commitment_memo),
            committed_at: self.committed_at,
            escrow_coin_id: crate::dup::dup_opt_string(&self.escrow_coin_id),
            escrow_puzzle_hash: crate::dup::dup_opt_string(&self.escrow_puzzle_hash),
            escrow_start_date: self.escrow_start_date,
            escrow_end_date: self.escrow_end_date,
            proposer_tracking_number: crate::dup::dup_opt_string(&self.proposer_tracking_number),
            proposer_tracking_carrier: crate::dup::dup_opt_string(&self.proposer_tracking_carrier),
            proposer_shipped_at: self.proposer_shipped_at,
            proposer_received_at: self.proposer_received_at,
            acceptor_tracking_number: crate::dup::dup_opt_string(&self.acceptor_tracking_number),
            acceptor_tracking_carrier: crate::dup::dup_opt_string(&self.acceptor_tracking_carrier),
            acceptor_shipped_at: self.acceptor_shipped_at,
            acceptor_received_at: self.acceptor_received_at,
            completed_at: self.completed_at,
            final_blockchain_hash: crate::dup::dup_opt_string(&self.final_blockchain_hash),
            created_at: self.created_at,
            updated_at: self.updated_at,
        }
    }
}

/// The page `[offset, offset + limit)` of a listing, clamped to its length.
pub open spec fn page(s: Seq<Trade>, limit: usize, offset: usize) -> Seq<Trade> {
    let off = if offset > s.len() {
        s.len() as int
    } else {
        offset as int
    };
    let end = if off + limit > s.len() {
        s.len() as int
    } else {
        off + limit
    };
    s.subrange(off, end)
}

/// The timestamp a trade listing is ordered by: update time for a user's
/// own listing, creation time for the public one.
pub open spec fn trade_order_key(t: Trade, by_updated: bool) -> u64 {
    if by_updated {
        t.updated_at
    } else {
        t.created_at
    }
}

/// Sorted by the chosen timestamp, newest first.
pub open spec fn sorted_trades_desc(s: Seq<Trade>, by_updated: bool) -> bool {
    forall|i: int, j: int|
        0 <= i < j < s.len() ==> trade_order_key(#[trigger] s[i], by_updated) >= trade_order_key(
            #[trigger] s[j],
            by_updated,
        )
}

/// The chosen ordering timestamp of a trade.
fn trade_order_key_exec(t: &Trade, by_updated: bool) -> (r: u64)
    ensures
        r == trade_order_key(*t, by_updated),
{
    if by_updated {
        t.updated_at
    } else {
        t.created_at
    }
}

/// Insert `x` into a run kept sorted by the chosen timestamp, newest
/// first.
fn sorted_insert_trade_desc(out: &mut Vec<Trade>, x: Trade, by_updated: bool)
    requires
        sorted_trades_desc(old(out)@, by_updated),
    ensures
        final(out)@.to_multiset() == old(out)@.to_multiset().insert(x),
        sorted_trades_desc(final(out)@, by_updated),
{
    let kx = trade_order_key_exec(&x, by_updated);
    let mut j: usize = 0;
    while j < out.len() && trade_order_key_exec(&out[j], by_updated) >= kx
        invariant
            j <= out@.len(),
            out@ == old(out)@,
            kx == trade_order_key(x, by_updated),
            forall|k: int|
                0 <= k < j ==> trade_order_key(#[trigger] out@[k], by_updated) >= trade_order_key(
                    x,
                    by_updated,
                ),
        decreases out@.len() - j,
    {
        j = j + 1;
    }
    let ghost pre = out@;
    let ghost pos = j as int;
    out.insert(j, x);
    proof {
        vstd::seq_lib::to_multiset_insert(pre, pos, x);
        pre.insert_ensures(pos, x);
        assert forall|a: int, b: int|
            0 <= a < b < out@.len() implies trade_order_key(#[trigger] out@[a], by_updated)
            >= trade_order_key(#[trigger] out@[b], by_updated) by {
            if b < pos {
                assert(out@[a] == pre[a] && out@[b] == pre[b]);
            } else if b == pos {
                assert(out@[a] == pre[a] && out@[b] == x);
            } else {
                // b lands right of the insertion point, so pre[b - 1] is a
                // suffix element, older than x and everything before it.
                assert(out@[b] == pre[b - 1]);
                assert(pos < pre.len());
                assert(trade_order_key(pre[pos], by_updated) < trade_order_key(x, by_updated));
                if b - 1 > pos {
                    assert(trade_order_key(pre[pos], by_updated) >= trade_order_key(
                        pre[b - 1],
                        by_updated,
                    ));
                }
                if a < pos {
                    assert(out@[a] == pre[a]);
                    assert(trade_order_key(pre[a], by_updated) >= trade_order_key(x, by_updated));
                } else if a == pos {
                    assert(out@[a] == x);
                } else {
                    assert(out@[a] == pre[a - 1]);
                    assert(trade_order_key(pre[a - 1], by_updated) >= trade_order_key(
                        pre[b - 1],
                        by_updated,
                    ));
                }
            }
        }
    }
}

/// Collect the rows passing `sel`-shaped checks, sorted newest first by
/// the chosen timestamp: the shared body of the two listings. The caller
/// names the selector through `want_proposals`/`uid`.
fn collect_sorted_trades(trades: &Vec<Trade>, want_proposals: bool, uid: i64, by_updated: bool) -> (r: Vec<Trade>)
    ensures
        want_proposals ==> r@.to_multiset() == trades@.filter(sel_proposals()).to_multiset(),
        !want_proposals ==> r@.to_multiset() == trades@.filter(sel_my_trades(uid)).to_multiset(),
        sorted_trades_desc(r@, by_updated),
{
    let mut out: Vec<Trade> = Vec::new();
    let mut i: usize = 0;
    proof {
        reveal(Seq::filter);
        assert(trades@.subrange(0, 0) =~= Seq::<Trade>::empty());
    }
    while i < trades.len()
        invariant
            i <= trades@.len(),
            sorted_trades_desc(out@, by_updated),
            want_proposals ==> out@.to_multiset() == trades@.subrange(0, i as int).filter(
                sel_proposals(),
            ).to_multiset(),
            !want_proposals ==> out@.to_multiset() == trades@.subrange(0, i as int).filter(
                sel_my_trades(uid),
            ).to_multiset(),
        decreases trades@.len() - i,
    {
        proof {
            crate::table::lemma_filter_prefix_step(trades@, i as int, sel_proposals());
            crate::table::lemma_filter_prefix_step(trades@, i as int, sel_my_trades(uid));
        }
        let t = &trades[i];
        let selected = if want_proposals {
            t.status == TradeStatus::Proposal
        } else {
            t.proposer_id == uid || (match t.acceptor_id {
                Some(a) => a == uid,
                None => false,
            })
        };
        if selected {
            let ghost prop_prefix = trades@.subrange(0, i as int).filter(sel_proposals());
            let ghost my_prefix = trades@.subrange(0, i as int).filter(sel_my_trades(uid));
            sorted_insert_trade_desc(&mut out, t.duplicate(), by_updated);
            proof {
                prop_prefix.to_multiset_ensures();
                my_prefix.to_multiset_ensures();
                assert(prop_prefix.push(trades@[i as int]).to_multiset()
                    =~= prop_prefix.to_multiset().insert(trades@[i as int]));
                assert(my_prefix.push(trades@[i as int]).to_multiset()
                    =~= my_prefix.to_multiset().insert(trades@[i as int]));
            }
        }
        i = i + 1;
    }
    proof {
        assert(trades@.subrange(0, trades@.len() as int) =~= trades@);
    }
    out
}

/// Find the index of the row of trade `id`, scanning in table order.
pub(crate) fn find_trade(trades: &Vec<Trade>, id: i64) -> (r: Option<usize>)
    ensures
        match r {
            Some(i) => i < trades@.len() && trades@[i as int].id == id,
            None => forall|k: int| 0 <= k < trades@.len() ==> (#[trigger] trades@[k]).id != id,
        },
{
    let mut i: usize = 0;
    while i < trades.len()
        invariant
            i <= trades@.len(),
            forall|k: int| 0 <= k < i ==> (#[trigger] trades@[k]).id != id,
        decreases trades@.len() - i,
    {
        if trades[i].id == id {
            return Some(i);
        }
        i = i + 1;
    }
    None
}

/// The trade state machine's operations, each a single conditional
/// update against the store.
pub struct TradeBmc;

impl TradeBmc {
    /// Create a new trade proposal owned by the caller; returns its id.
    pub fn create(ctx: &Ctx, store: &mut Store, trade_c: TradeForCreate, now: u64) -> (r: Result<
        i64,
        Error,
    >)
        requires
            old(store).wf(),
            old(store).next_trade_id < i64::MAX,
        ensures
            final(store).wf(),
            r == Ok::<i64, Error>(old(store).next_trade_id),
            final(store).trades@ == old(store).trades@.push(
                fresh_trade(trade_c, ctx.spec_user_id(), old(store).next_trade_id, now),
            ),
            final(store).next_trade_id == old(store).next_trade_id + 1,
            final(store).tx_part() == old(store).tx_part(),
            final(store).review_part() == old(store).review_part(),
            final(store).user_part() == old(store).user_part(),
            final(store).config_part() == old(store).config_part(),
    {
        let id = store.next_trade_id;
        store.next_trade_id = id + 1;
        let t = Trade {
            id,
            proposer_id: ctx.user_id(),
            acceptor_id: None,
            status: TradeStatus::Proposal,
            proposer_item_title: trade_c.item_title,
            proposer_item_description: trade_c.item_description,
            proposer_item_condition: trade_c.item_condition,
            proposer_item_value_cents: trade_c.item_value_cents,
            proposer_item_category: trade_c.item_category,
            acceptor_item_title: None,
            acceptor_item_description: None,
            acceptor_item_condition: None,
            acceptor_item_value_cents: None,
            acceptor_xch_offer: None,
            xch_amount: None,
            trade_type: TradeType::ItemForItem,
            proposer_commit_status: CommitStatus::Pending,
            acceptor_commit_status: CommitStatus::Pending,
            proposer_commitment_tx: None,
            acceptor_commitment_tx: None,
            commitment_memo: None,
            committed_at: None,
            escrow_coin_id: None,
            escrow_puzzle_hash: None,
            escrow_start_date: None,
            escrow_end_date: None,
            proposer_tracking_number: None,
            proposer_tracking_carrier: None,
            proposer_shipped_at: None,
            proposer_received_at: None,
            acceptor_tracking_number: None,
            acceptor_tracking_carrier: None,
            acceptor_shipped_at: None,
            acceptor_received_at: None,
            completed_at: None,
            final_blockchain_hash: None,
            created_at: now,
            updated_at: now,
        };
        store.trades.push(t);
        Ok(id)
    }

    /// Get a trade by id; only a participant may see it.
    pub fn get<'a>(ctx: &Ctx, store: &'a Store, id: i64) -> (r: Result<&'a Trade, Error>)
        requires
            store.wf(),
        ensures
            match r {
                Ok(t) => exists|i: int|
                    0 <= i < store.trades@.len() && sel_participant(id, ctx.spec_user_id())(
                        #[trigger] store.trades@[i],
                    ) && *t == store.trades@[i],
                Err(e) => e == Error::NotFound && !some_row(
                    store.trades@,
                    sel_participant(id, ctx.spec_user_id()),
                ),
            },
    {
        let uid = ctx.user_id();
        match find_trade(&store.trades, id) {
            Some(i) => {
                let t = &store.trades[i];
                let participant = t.proposer_id == uid || (match t.acceptor_id {
                    Some(a) => a == uid,
                    None => false,
                });
                if participant {
                    Ok(t)
                } else {
                    proof {
                        assert forall|k: int|
                            0 <= k < store.trades@.len() implies !sel_participant(id, uid as i64)(
                            #[trigger] store.trades@[k],
                        ) by {
                            if store.trades@[k].id == id {
                                crate::store::lemma_trade_id_unique(
                                    store.trades@,
                                    store.next_trade_id,
                                    k,
                                    i as int,
                                );
                            }
                        }
                    }
                    Err(Error::NotFound)
                }
            },
            None => Err(Error::NotFound),
        }
    }

    /// Get a trade by id without an ownership check. Open proposals are
    /// public; a trade in any other state is visible only to its
    /// participants through [`TradeBmc::get`], so here it answers
    /// `NotFound` like an absent one.
    pub fn get_public<'a>(store: &'a Store, id: i64) -> (r: Result<&'a Trade, Error>)
        requires
            store.wf(),
        ensures
            match r {
                Ok(t) => exists|i: int|
                    0 <= i < store.trades@.len() && sel_proposal(id)(#[trigger] store.trades@[i])
                        && *t == store.trades@[i],
                Err(e) => e == Error::NotFound && !some_row(store.trades@, sel_proposal(id)),
            },
    {
        match find_trade(&store.trades, id) {
            Some(i) => {
                if store.trades[i].status == TradeStatus::Proposal {
                    proof {
                        assert(sel_proposal(id)(store.trades@[i as int]));
                    }
                    Ok(&store.trades[i])
                } else {
                    proof {
                        lemma_no_other_row(
                            store.trades@,
                            store.next_trade_id,
                            i as int,
                            sel_proposal(id),
                            id,
                        );
                    }
                    Err(Error::NotFound)
                }
            },
            None => Err(Error::NotFound),
        }
    }

    /// Accept the proposal `p.trade_id` with the counter-offer `p`. Fails
    /// `NotFound` unless the trade exists and is still a Proposal, and
    /// `BadRequest` when the caller tries to accept their own proposal.
    pub fn accept(ctx: &Ctx, store: &mut Store, p: TradeAcceptParams, now: u64) -> (r: Result<
        (),
        Error,
    >)
        requires
            old(store).wf(),
        ensures
            final(store).wf(),
            r == Ok::<(), Error>(()) <==> some_row(old(store).trades@, sel_proposal(p.trade_id))
                && !some_row(
                old(store).trades@,
                sel_own_proposal(p.trade_id, ctx.spec_user_id()),
            ),
            r == Err::<(), Error>(Error::NotFound) <==> !some_row(
                old(store).trades@,
                sel_proposal(p.trade_id),
            ),
            r == Err::<(), Error>(Error::BadRequest) <==> some_row(
                old(store).trades@,
                sel_own_proposal(p.trade_id, ctx.spec_user_id()),
            ),
            r == Ok::<(), Error>(()) ==> mapped_where(
                old(store).trades@,
                final(store).trades@,
                sel_proposal(p.trade_id),
                apply_accept(ctx.spec_user_id(), p, now),
            ),
            r != Ok::<(), Error>(()) ==> *final(store) == *old(store),
            final(store).next_trade_id == old(store).next_trade_id,
            final(store).tx_part() == old(store).tx_part(),
            final(store).review_part() == old(store).review_part(),
            final(store).user_part() == old(store).user_part(),
            final(store).config_part() == old(store).config_part(),
    {
        let uid = ctx.user_id();
        let ghost pre = store.trades@;
        let idx = match find_trade(&store.trades, p.trade_id) {
            Some(i) => i,
            None => {
                return Err(Error::NotFound);
            },
        };
        if !(store.trades[idx].status == TradeStatus::Proposal) {
            proof {
                assert forall|k: int| 0 <= k < pre.len() implies !sel_proposal(p.trade_id)(
                    #[trigger] pre[k],
                ) by {
                    if pre[k].id == p.trade_id {
                        crate::store::lemma_trade_id_unique(
                            pre,
                            store.next_trade_id,
                            k,
                            idx as int,
                        );
                    }
                }
            }
            return Err(Error::NotFound);
        }
        if store.trades[idx].proposer_id == uid {
            proof {
                assert(sel_own_proposal(p.trade_id, uid as i64)(pre[idx as int]));
            }
            return Err(Error::BadRequest);
        }
        proof {
            assert(sel_proposal(p.trade_id)(pre[idx as int]));
            assert forall|k: int|
                0 <= k < pre.len() implies !sel_own_proposal(p.trade_id, uid as i64)(
                #[trigger] pre[k],
            ) by {
                if pre[k].id == p.trade_id {
                    crate::store::lemma_trade_id_unique(pre, store.next_trade_id, k, idx as int);
                }
            }
        }
        let t = store.trades.remove(idx);
        let updated = Trade {
            acceptor_id: Some(uid),
            status: TradeStatus::Matched,
            acceptor_item_title: p.item_title,
            acceptor_item_description: p.item_description,
            acceptor_item_condition: p.item_condition,
            acceptor_item_value_cents: p.item_value_cents,
            acceptor_xch_offer: p.xch_amount,
            trade_type: p.offer_type.trade_type(),
            updated_at: now,
            ..t
        };
        store.trades.insert(idx, updated);
        proof {
            let post = store.trades@;
            assert(post =~= pre.update(idx as int, accepted_trade(pre[idx as int], uid as i64, p, now)));
            lemma_update_single_row(
                pre,
                post,
                store.next_trade_id,
                idx as int,
                sel_proposal(p.trade_id),
                apply_accept(uid as i64, p, now),
            );
        }
        Ok(())
    }

    /// Move a trade the caller participates in to `status`, when the state
    /// machine allows the transition; fails `NotFound` otherwise.
    pub fn update_status(ctx: &Ctx, store: &mut Store, id: i64, status: TradeStatus, now: u64) -> (r: Result<(), Error>)
        requires
            old(store).wf(),
        ensures
            final(store).wf(),
            r == Ok::<(), Error>(()) <==> some_row(
                old(store).trades@,
                sel_status_update(id, ctx.spec_user_id(), status),
            ),
            r == Err::<(), Error>(Error::NotFound) <==> !some_row(
                old(store).trades@,
                sel_status_update(id, ctx.spec_user_id(), status),
            ),
            r == Ok::<(), Error>(()) ==> mapped_where(
                old(store).trades@,
                final(store).trades@,
                sel_status_update(id, ctx.spec_user_id(), status),
                apply_status(status, now),
            ),
            r != Ok::<(), Error>(()) ==> *final(store) == *old(store),
            final(store).next_trade_id == old(store).next_trade_id,
            final(store).tx_part() == old(store).tx_part(),
            final(store).review_part() == old(store).review_part(),
            final(store).user_part() == old(store).user_part(),
            final(store).config_part() == old(store).config_part(),
    {
        let uid = ctx.user_id();
        let ghost pre = store.trades@;
        let ghost sel = sel_status_update(id, uid as i64, status);
        let idx = match find_trade(&store.trades, id) {
            Some(i) => i,
            None => {
                return Err(Error::NotFound);
            },
        };
        let t_ref = &store.trades[idx];
        let participant = t_ref.proposer_id == uid || (match t_ref.acceptor_id {
            Some(a) => a == uid,
            None => false,
        });
        if !participant || !status_transition_ok(t_ref.status, status) {
            proof {
                lemma_no_other_row(pre, store.next_trade_id, idx as int, sel, id);
            }
            return Err(Error::NotFound);
        }
        proof {
            assert(sel(pre[idx as int]));
        }
        let t = store.trades.remove(idx);
        let updated = Trade { status, updated_at: now, ..t };
        store.trades.insert(idx, updated);
        proof {
            let post = store.trades@;
            assert(post =~= pre.update(idx as int, with_status(pre[idx as int], status, now)));
            lemma_update_single_row(
                pre,
                post,
                store.next_trade_id,
                idx as int,
                sel,
                apply_status(status, now),
            );
        }
        Ok(())
    }

    /// Record shipment tracking for the caller's side of a non-terminal
    /// trade they participate in; stamps that side's shipped time.
    pub fn add_tracking(ctx: &Ctx, store: &mut Store, trade_id: i64, tracking_number: String, carrier: String, now: u64) -> (r: Result<(), Error>)
        requires
            old(store).wf(),
        ensures
            final(store).wf(),
            r == Ok::<(), Error>(()) <==> some_row(
                old(store).trades@,
                sel_tracking(trade_id, ctx.spec_user_id()),
            ),
            r == Err::<(), Error>(Error::NotFound) <==> !some_row(
                old(store).trades@,
                sel_tracking(trade_id, ctx.spec_user_id()),
            ),
            r == Ok::<(), Error>(()) ==> mapped_where(
                old(store).trades@,
                final(store).trades@,
                sel_tracking(trade_id, ctx.spec_user_id()),
                (|t: Trade| with_tracking(t, ctx.spec_user_id(), tracking_number, carrier, now)),
            ),
            r != Ok::<(), Error>(()) ==> *final(store) == *old(store),
            final(store).next_trade_id == old(store).next_trade_id,
            final(store).tx_part() == old(store).tx_part(),
            final(store).review_part() == old(store).review_part(),
            final(store).user_part() == old(store).user_part(),
            final(store).config_part() == old(store).config_part(),
    {
        let uid = ctx.user_id();
        let ghost pre = store.trades@;
        let ghost sel = sel_tracking(trade_id, uid as i64);
        let idx = match find_trade(&store.trades, trade_id) {
            Some(i) => i,
            None => {
                return Err(Error::NotFound);
            },
        };
        let t_ref = &store.trades[idx];
        let participant = t_ref.proposer_id == uid || (match t_ref.acceptor_id {
            Some(a) => a == uid,
            None => false,
        });
        if !participant || t_ref.status.is_terminal() {
            proof {
                lemma_no_other_row(pre, store.next_trade_id, idx as int, sel, trade_id);
            }
            return Err(Error::NotFound);
        }
        proof {
            assert(sel(pre[idx as int]));
        }
        let t = store.trades.remove(idx);
        let updated = if t.proposer_id == uid {
            Trade {
                proposer_tracking_number: Some(tracking_number),
                proposer_tracking_carrier: Some(carrier),
                proposer_shipped_at: Some(now),
                updated_at: now,
                ..t
            }
        } else {
            Trade {
                acceptor_tracking_number: Some(tracking_number),
                acceptor_tracking_carrier: Some(carrier),
                acceptor_shipped_at: Some(now),
                updated_at: now,
                ..t
            }
        };
        store.trades.insert(idx, updated);
        proof {
            let post = store.trades@;
            assert(post =~= pre.update(
                idx as int,
                with_tracking(pre[idx as int], uid as i64, tracking_number, carrier, now),
            ));
            lemma_update_single_row(
                pre,
                post,
                store.next_trade_id,
                idx as int,
                sel,
                (|t: Trade| with_tracking(t, uid as i64, tracking_number, carrier, now)),
            );
        }
        Ok(())
    }

    /// Cancel the caller's own trade while it is still in Proposal or
    /// Matched; fails `NotFound` otherwise.
    pub fn cancel(ctx: &Ctx, store: &mut Store, id: i64, now: u64) -> (r: Result<(), Error>)
        requires
            old(store).wf(),
        ensures
            final(store).wf(),
            r == Ok::<(), Error>(()) <==> some_row(
                old(store).trades@,
                sel_cancel(id, ctx.spec_user_id()),
            ),
            r == Err::<(), Error>(Error::NotFound) <==> !some_row(
                old(store).trades@,
                sel_cancel(id, ctx.spec_user_id()),
            ),
            r == Ok::<(), Error>(()) ==> mapped_where(
                old(store).trades@,
                final(store).trades@,
                sel_cancel(id, ctx.spec_user_id()),
                apply_status(TradeStatus::Cancelled, now),
            ),
            r != Ok::<(), Error>(()) ==> *final(store) == *old(store),
            final(store).next_trade_id == old(store).next_trade_id,
            final(store).tx_part() == old(store).tx_part(),
            final(store).review_part() == old(store).review_part(),
            final(store).user_part() == old(store).user_part(),
            final(store).config_part() == old(store).config_part(),
    {
        let uid = ctx.user_id();
        let ghost pre = store.trades@;
        let ghost sel = sel_cancel(id, uid as i64);
        let idx = match find_trade(&store.trades, id) {
            Some(i) => i,
            None => {
                return Err(Error::NotFound);
            },
        };
        let t_ref = &store.trades[idx];
        let open_state = t_ref.status == TradeStatus::Proposal || t_ref.status
            == TradeStatus::Matched;
        if !(t_ref.proposer_id == uid) || !open_state {
            proof {
                lemma_no_other_row(pre, store.next_trade_id, idx as int, sel, id);
            }
            return Err(Error::NotFound);
        }
        proof {
            assert(sel(pre[idx as int]));
        }
        let t = store.trades.remove(idx);
        let updated = Trade { status: TradeStatus::Cancelled, updated_at: now, ..t };
        store.trades.insert(idx, updated);
        proof {
            let post = store.trades@;
            assert(post =~= pre.update(
                idx as int,
                with_status(pre[idx as int], TradeStatus::Cancelled, now),
            ));
            lemma_update_single_row(
                pre,
                post,
                store.next_trade_id,
                idx as int,
                sel,
                apply_status(TradeStatus::Cancelled, now),
            );
        }
        Ok(())
    }

    /// Cancel any open trade (Proposal, Matched or Committed) without an
    /// ownership check; for administrators. A Completed or Cancelled trade
    /// fails `NotFound`.
    pub fn admin_cancel(store: &mut Store, id: i64, now: u64) -> (r: Result<(), Error>)
        requires
            old(store).wf(),
        ensures
            final(store).wf(),
            r == Ok::<(), Error>(()) <==> some_row(old(store).trades@, sel_admin_cancel(id)),
            r == Err::<(), Error>(Error::NotFound) <==> !some_row(
                old(store).trades@,
                sel_admin_cancel(id),
            ),
            r == Ok::<(), Error>(()) ==> mapped_where(
                old(store).trades@,
                final(store).trades@,
                sel_admin_cancel(id),
                apply_status(TradeStatus::Cancelled, now),
            ),
            r != Ok::<(), Error>(()) ==> *final(store) == *old(store),
            final(store).next_trade_id == old(store).next_trade_id,
            final(store).tx_part() == old(store).tx_part(),
            final(store).review_part() == old(store).review_part(),
            final(store).user_part() == old(store).user_part(),
            final(store).config_part() == old(store).config_part(),
    {
        let ghost pre = store.trades@;
        let ghost sel = sel_admin_cancel(id);
        let idx = match find_trade(&store.trades, id) {
            Some(i) => i,
            None => {
                return Err(Error::NotFound);
            },
        };
        let t_ref = &store.trades[idx];
        let open_state = t_ref.status == TradeStatus::Proposal || t_ref.status
            == TradeStatus::Matched || t_ref.status == TradeStatus::Committed;
        if !open_state {
            proof {
                lemma_no_other_row(pre, store.next_trade_id, idx as int, sel, id);
            }
            return Err(Error::NotFound);
        }
        proof {
            assert(sel(pre[idx as int]));
        }
        let t = store.trades.remove(idx);
        let updated = Trade { status: TradeStatus::Cancelled, updated_at: now, ..t };
        store.trades.insert(idx, updated);
        proof {
            let post = store.trades@;
            assert(post =~= pre.update(
                idx as int,
                with_status(pre[idx as int], TradeStatus::Cancelled, now),
            ));
            lemma_update_single_row(
                pre,
                post,
                store.next_trade_id,
                idx as int,
                sel,
                apply_status(TradeStatus::Cancelled, now),
            );
        }
        Ok(())
    }

    /// Remove the caller's own trade while it is still a Proposal; fails
    /// `NotFound` otherwise.
    pub fn delete(ctx: &Ctx, store: &mut Store, id: i64) -> (r: Result<(), Error>)
        requires
            old(store).wf(),
        ensures
            final(store).wf(),
            r == Ok::<(), Error>(()) <==> some_row(
                old(store).trades@,
                sel_own_proposal(id, ctx.spec_user_id()),
            ),
            r == Err::<(), Error>(Error::NotFound) <==> !some_row(
                old(store).trades@,
                sel_own_proposal(id, ctx.spec_user_id()),
            ),
            removed_where(
                old(store).trades@,
                final(store).trades@,
                sel_own_proposal(id, ctx.spec_user_id()),
            ),
            r != Ok::<(), Error>(()) ==> *final(store) == *old(store),
            final(store).next_trade_id == old(store).next_trade_id,
            final(store).tx_part() == old(store).tx_part(),
            final(store).review_part() == old(store).review_part(),
            final(store).user_part() == old(store).user_part(),
            final(store).config_part() == old(store).config_part(),
    {
        let uid = ctx.user_id();
        let ghost pre = store.trades@;
        let ghost sel = sel_own_proposal(id, uid as i64);
        let idx = match find_trade(&store.trades, id) {
            Some(i) => i,
            None => {
                proof {
                    crate::table::lemma_remove_none_selected(pre, sel);
                }
                return Err(Error::NotFound);
            },
        };
        let t_ref = &store.trades[idx];
        if !(t_ref.proposer_id == uid) || !(t_ref.status == TradeStatus::Proposal) {
            proof {
                lemma_no_other_row(pre, store.next_trade_id, idx as int, sel, id);
                crate::table::lemma_remove_none_selected(pre, sel);
            }
            return Err(Error::NotFound);
        }
        proof {
            assert(sel(pre[idx as int]));
            assert forall|k: int| 0 <= k < pre.len() && k != idx as int implies !sel(
                #[trigger] pre[k],
            ) by {
                if sel(pre[k]) {
                    crate::store::lemma_trade_id_unique(pre, store.next_trade_id, k, idx as int);
                }
            }
            crate::table::lemma_remove_single_selected(pre, idx as int, sel);
        }
        let _removed = store.trades.remove(idx);
        proof {
            pre.remove_ensures(idx as int);
        }
        Ok(())
    }

    /// Remove any trade that is a Proposal or Cancelled, without an
    /// ownership check; for administrators.
    pub fn admin_delete(store: &mut Store, id: i64) -> (r: Result<(), Error>)
        requires
            old(store).wf(),
        ensures
            final(store).wf(),
            r == Ok::<(), Error>(()) <==> some_row(old(store).trades@, sel_admin_delete(id)),
            r == Err::<(), Error>(Error::NotFound) <==> !some_row(
                old(store).trades@,
                sel_admin_delete(id),
            ),
            removed_where(old(store).trades@, final(store).trades@, sel_admin_delete(id)),
            r != Ok::<(), Error>(()) ==> *final(store) == *old(store),
            final(store).next_trade_id == old(store).next_trade_id,
            final(store).tx_part() == old(store).tx_part(),
            final(store).review_part() == old(store).review_part(),
            final(store).user_part() == old(store).user_part(),
            final(store).config_part() == old(store).config_part(),
    {
        let ghost pre = store.trades@;
        let ghost sel = sel_admin_delete(id);
        let idx = match find_trade(&store.trades, id) {
            Some(i) => i,
            None => {
                proof {
                    crate::table::lemma_remove_none_selected(pre, sel);
                }
                return Err(Error::NotFound);
            },
        };
        let t_ref = &store.trades[idx];
        if !(t_ref.status == TradeStatus::Proposal || t_ref.status == TradeStatus::Cancelled) {
            proof {
                lemma_no_other_row(pre, store.next_trade_id, idx as int, sel, id);
                crate::table::lemma_remove_none_selected(pre, sel);
            }
            return Err(Error::NotFound);
        }
        proof {
            assert(sel(pre[idx as int]));
            assert forall|k: int| 0 <= k < pre.len() && k != idx as int implies !sel(
                #[trigger] pre[k],
            ) by {
                if sel(pre[k]) {
                    crate::store::lemma_trade_id_unique(pre, store.next_trade_id, k, idx as int);
                }
            }
            crate::table::lemma_remove_single_selected(pre, idx as int, sel);
        }
        let _removed = store.trades.remove(idx);
        proof {
            pre.remove_ensures(idx as int);
        }
        Ok(())
    }

    /// List open proposals ordered by creation time, newest first, paged
    /// by `limit` and `offset`. Readable without authentication.
    pub fn list_proposals(store: &Store, limit: usize, offset: usize) -> (r: Vec<Trade>)
        ensures
            exists|full: Seq<Trade>|
                {
                    &&& full.to_multiset() == store.trades@.filter(sel_proposals()).to_multiset()
                    &&& sorted_trades_desc(full, false)
                    &&& r@ == #[trigger] page(full, limit, offset)
                },
    {
        let sorted = collect_sorted_trades(&store.trades, true, 0, false);
        let len = sorted.len();
        let off = if offset > len {
            len
        } else {
            offset
        };
        let end = if limit > len - off {
            len
        } else {
            off + limit
        };
        let mut out: Vec<Trade> = Vec::new();
        let mut j = off;
        while j < end
            invariant
                off <= j <= end <= sorted@.len(),
                out@ == sorted@.subrange(off as int, j as int),
            decreases end - j,
        {
            out.push(sorted[j].duplicate());
            proof {
                assert(out@ =~= sorted@.subrange(off as int, j + 1));
            }
            j = j + 1;
        }
        proof {
            assert(out@ =~= page(sorted@, limit, offset));
        }
        out
    }

    /// List the trades the caller participates in, ordered by update time,
    /// most recently touched first.
    pub fn list_my_trades(ctx: &Ctx, store: &Store) -> (r: Vec<Trade>)
        ensures
            r@.to_multiset() == store.trades@.filter(
                sel_my_trades(ctx.spec_user_id()),
            ).to_multiset(),
            sorted_trades_desc(r@, true),
    {
        let uid = ctx.user_id();
        collect_sorted_trades(&store.trades, false, uid, true)
    }
}

} // verus!
