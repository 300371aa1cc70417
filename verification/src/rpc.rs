//! The typed service surface behind the exchange's RPC methods: the
//! parameter validation and admin gating the endpoints perform before
//! handing work to the business controllers. Decoding JSON into these
//! typed calls, and encoding the answers, happens outside the core.

use vstd::prelude::*;

use crate::ctx::Ctx;
use crate::error::Error;
use crate::status::TxType;
use crate::store::Store;
use crate::table::{mapped_where, some_row};
use crate::trade::{apply_status, sel_admin_cancel, sel_admin_delete, TradeBmc};
use crate::transaction::{
    commitment_memo_spec, details_ok, sel_blocking, sel_commitable, spec_config_value,
    TradeTransactionForCreate, TransactionBmc,
};
use crate::user::{apply_admin, sel_user_row, UserBmc};

verus! {

/// The smallest commitment payment the endpoint accepts, in mojos.
pub const MIN_COMMITMENT_MOJOS: i64 = 1000;

/// The largest commitment payment the endpoint accepts (ten XCH), in
/// mojos.
pub const MAX_COMMITMENT_MOJOS: i64 = 10_000_000_000_000;

/// What a payer gets back after a Pending commitment entry is created.
#[derive(Debug, Clone)]
pub struct PendingCommitment {
    pub transaction_id: i64,
    pub to_address: String,
    pub amount_mojos: i64,
    pub memo: String,
}

/// A plausibly-shaped XCH address: the "xch1" prefix and 62 characters.
pub open spec fn valid_xch_address(s: Seq<char>) -> bool {
    s.len() == 62 && s[0] == 'x' && s[1] == 'c' && s[2] == 'h' && s[3] == '1'
}

/// Whether an address has the expected XCH shape.
pub fn check_xch_address(s: &str) -> (r: bool)
    ensures
        r == valid_xch_address(s@),
{
    if s.unicode_len() != 62 {
        return false;
    }
    s.get_char(0) == 'x' && s.get_char(1) == 'c' && s.get_char(2) == 'h' && s.get_char(3) == '1'
}

/// Create the Pending ledger entry for a commitment-fee payment: validates
/// the amount, reads the commitment details for the destination, and
/// records the entry; the payer's wallet then broadcasts and reports the
/// external id. Fails `BadRequest` on an out-of-range amount, and
/// otherwise as the details lookup and the ledger's single-writer rule
/// dictate.
pub fn commitment_create_pending(ctx: &Ctx, store: &mut Store, trade_id: i64, from_address: Option<String>, amount_mojos: i64, now: u64) -> (r: Result<PendingCommitment, Error>)
    requires
        old(store).wf(),
        old(store).next_tx_id < i64::MAX,
    ensures
        final(store).wf(),
        r == Err::<PendingCommitment, Error>(Error::BadRequest) <==> (amount_mojos
            < MIN_COMMITMENT_MOJOS || amount_mojos > MAX_COMMITMENT_MOJOS),
        (amount_mojos < MIN_COMMITMENT_MOJOS || amount_mojos > MAX_COMMITMENT_MOJOS)
            ==> *final(store) == *old(store),
        MIN_COMMITMENT_MOJOS <= amount_mojos <= MAX_COMMITMENT_MOJOS ==> ((r matches Ok(_)) <==> (
        some_row(old(store).trades@, sel_commitable(trade_id, ctx.spec_user_id()))
            && crate::transaction::wallet_configured(old(store).config@)
            && crate::transaction::fee_configured_ok(old(store).config@) && !some_row(
            old(store).transactions@,
            sel_blocking(trade_id, ctx.spec_user_id(), TxType::CommitmentFee),
        ))),
        match r {
            Err(_) => true,
            Ok(p) => {
            &&& exists|d: crate::transaction::CommitmentDetails|
                #[trigger] details_ok(*old(store), ctx.spec_user_id(), trade_id, d)
                    && p.to_address@ == d.exchange_wallet_address@
            &&& p.transaction_id == old(store).next_tx_id
            &&& p.amount_mojos == amount_mojos
            &&& p.memo@ == commitment_memo_spec(trade_id, ctx.spec_user_id())
            &&& final(store).transactions@.len() == old(store).transactions@.len() + 1
            &&& final(store).transactions@.last().trade_id == trade_id
            &&& final(store).transactions@.last().user_id == ctx.spec_user_id()
            &&& final(store).transactions@.last().tx_type == TxType::CommitmentFee
            &&& final(store).transactions@.last().status == crate::status::TxStatus::Pending
            &&& final(store).transactions@.last().amount_mojos == amount_mojos
            &&& final(store).transactions@.last().from_address == from_address
            &&& (final(store).transactions@.last().to_address matches Some(a) && a@
                == p.to_address@)
            &&& final(store).transactions@.last().tx_id is None
            &&& final(store).transactions@.last().created_at == now
            &&& final(store).transactions@.subrange(0, old(store).transactions@.len() as int)
                == old(store).transactions@
            },
        },
        (r matches Err(_)) ==> *final(store) == *old(store),
        (r matches Err(e) && e matches Error::NotFoundMsg(_)) ==> !some_row(
            old(store).trades@,
            crate::trade::sel_trade(trade_id),
        ),
        (r matches Err(e) && e matches Error::InvalidState(_)) ==> (!some_row(
            old(store).trades@,
            sel_commitable(trade_id, ctx.spec_user_id()),
        ) || some_row(
            old(store).transactions@,
            sel_blocking(trade_id, ctx.spec_user_id(), TxType::CommitmentFee),
        )),
        final(store).trade_part() == old(store).trade_part(),
        final(store).review_part() == old(store).review_part(),
        final(store).user_part() == old(store).user_part(),
        final(store).config_part() == old(store).config_part(),
{
    if amount_mojos < MIN_COMMITMENT_MOJOS {
        return Err(Error::BadRequest);
    }
    if amount_mojos > MAX_COMMITMENT_MOJOS {
        return Err(Error::BadRequest);
    }
    let uid = ctx.user_id();
    let details = match TransactionBmc::get_commitment_details(ctx, store, trade_id) {
        Ok(d) => d,
        Err(e) => {
            proof {
                // A commitable row carries the trade id and a participant,
                // so each failure of the details lookup refutes one of the
                // success conditions.
                if some_row(store.trades@, sel_commitable(trade_id, uid as i64)) {
                    let k = choose|k: int|
                        0 <= k < store.trades@.len() && sel_commitable(trade_id, uid as i64)(
                            #[trigger] store.trades@[k],
                        );
                    assert(crate::trade::sel_trade(trade_id)(store.trades@[k]));
                    assert(crate::trade::sel_participant(trade_id, uid as i64)(
                        store.trades@[k],
                    ));
                }
            }
            return Err(e);
        },
    };
    proof {
        let k = choose|k: int|
            0 <= k < store.trades@.len() && {
                let t = #[trigger] store.trades@[k];
                &&& t.id == trade_id
                &&& crate::trade::is_participant(t, uid as i64)
                &&& (t.status == crate::status::TradeStatus::Matched || t.status
                    == crate::status::TradeStatus::Committed)
            };
        assert(sel_commitable(trade_id, uid as i64)(store.trades@[k]));
        assert(crate::trade::sel_participant(trade_id, uid as i64)(store.trades@[k]));
    }
    let to_address = details.exchange_wallet_address;
    let to_address_copy = to_address.clone();
    let tx = TradeTransactionForCreate {
        trade_id,
        tx_type: TxType::CommitmentFee,
        tx_id: None,
        from_address,
        to_address: Some(to_address),
        amount_mojos,
    };
    let transaction_id = match TransactionBmc::create(ctx, store, tx, now) {
        Ok(id) => id,
        Err(e) => {
            return Err(e);
        },
    };
    Ok(
        PendingCommitment {
            transaction_id,
            to_address: to_address_copy,
            amount_mojos,
            memo: details.memo,
        },
    )
}

/// Set the exchange wallet address and the commitment fee; for
/// administrators. The address must have the XCH shape; a missing fee
/// defaults to one dollar.
pub fn config_set_exchange_wallet(ctx: &Ctx, store: &mut Store, wallet_address: &str, commitment_fee: Option<&str>) -> (r: Result<(), Error>)
    requires
        old(store).wf(),
        old(store).next_config_id < i32::MAX - 1,
    ensures
        final(store).wf(),
        !ctx.spec_is_admin() ==> (r matches Err(e) && e matches Error::Auth(_)) && *final(store)
            == *old(store),
        ctx.spec_is_admin() && !valid_xch_address(wallet_address@) ==> r == Err::<(), Error>(
            Error::BadRequest,
        ) && *final(store) == *old(store),
        ctx.spec_is_admin() && valid_xch_address(wallet_address@) ==> {
            &&& r == Ok::<(), Error>(())
            &&& spec_config_value(final(store).config@, "exchange_wallet_address"@) == Some(
                wallet_address@,
            )
            &&& spec_config_value(final(store).config@, "commitment_fee_usd"@) == Some(
                match commitment_fee {
                    Some(f) => f@,
                    None => "1"@,
                },
            )
            &&& forall|k: Seq<char>|
                k != "exchange_wallet_address"@ && k != "commitment_fee_usd"@
                    ==> #[trigger] spec_config_value(final(store).config@, k)
                    == spec_config_value(old(store).config@, k)
        },
        final(store).trade_part() == old(store).trade_part(),
        final(store).tx_part() == old(store).tx_part(),
        final(store).review_part() == old(store).review_part(),
        final(store).user_part() == old(store).user_part(),
{
    if !ctx.is_admin() {
        return Err(Error::Auth(String::from_str("Admin access required")));
    }
    if !check_xch_address(wallet_address) {
        return Err(Error::BadRequest);
    }
    let r = TransactionBmc::set_exchange_wallet(ctx, store, wallet_address);
    match r {
        Ok(()) => {},
        Err(e) => {
            return Err(e);
        },
    }
    let fee = match commitment_fee {
        Some(f) => f,
        None => "1",
    };
    let fee_result = TransactionBmc::set_commitment_fee(ctx, store, fee);
    proof {
        reveal_strlit("exchange_wallet_address");
        reveal_strlit("commitment_fee_usd");
        assert("exchange_wallet_address"@.len() == 23);
        assert("commitment_fee_usd"@.len() == 18);
    }
    match fee_result {
        Ok(()) => Ok(()),
        Err(e) => Err(e),
    }
}

/// Cancel any open trade; for administrators.
pub fn admin_cancel_trade(ctx: &Ctx, store: &mut Store, id: i64, now: u64) -> (r: Result<
    (),
    Error,
>)
    requires
        old(store).wf(),
    ensures
        final(store).wf(),
        !ctx.spec_is_admin() ==> (r matches Err(e) && e matches Error::Auth(_)) && *final(store)
            == *old(store),
        ctx.spec_is_admin() ==> {
            &&& (r == Ok::<(), Error>(()) <==> some_row(
                old(store).trades@,
                sel_admin_cancel(id),
            ))
            &&& (r == Err::<(), Error>(Error::NotFound) <==> !some_row(
                old(store).trades@,
                sel_admin_cancel(id),
            ))
            &&& (r == Ok::<(), Error>(()) ==> mapped_where(
                old(store).trades@,
                final(store).trades@,
                sel_admin_cancel(id),
                apply_status(crate::status::TradeStatus::Cancelled, now),
            ))
            &&& (r != Ok::<(), Error>(()) ==> *final(store) == *old(store))
        },
        final(store).next_trade_id == old(store).next_trade_id,
        final(store).tx_part() == old(store).tx_part(),
        final(store).review_part() == old(store).review_part(),
        final(store).user_part() == old(store).user_part(),
        final(store).config_part() == old(store).config_part(),
{
    if !ctx.is_admin() {
        return Err(Error::Auth(String::from_str("Admin access required")));
    }
    TradeBmc::admin_cancel(store, id, now)
}

/// Remove any Proposal or Cancelled trade; for administrators.
pub fn admin_delete_trade(ctx: &Ctx, store: &mut Store, id: i64) -> (r: Result<(), Error>)
    requires
        old(store).wf(),
    ensures
        final(store).wf(),
        !ctx.spec_is_admin() ==> (r matches Err(e) && e matches Error::Auth(_)) && *final(store)
            == *old(store),
        ctx.spec_is_admin() ==> {
            &&& (r == Ok::<(), Error>(()) <==> some_row(
                old(store).trades@,
                sel_admin_delete(id),
            ))
            &&& crate::table::removed_where(
                old(store).trades@,
                final(store).trades@,
                sel_admin_delete(id),
            )
            &&& (r != Ok::<(), Error>(()) ==> *final(store) == *old(store))
        },
        final(store).next_trade_id == old(store).next_trade_id,
        final(store).tx_part() == old(store).tx_part(),
        final(store).review_part() == old(store).review_part(),
        final(store).user_part() == old(store).user_part(),
        final(store).config_part() == old(store).config_part(),
{
    if !ctx.is_admin() {
        return Err(Error::Auth(String::from_str("Admin access required")));
    }
    TradeBmc::admin_delete(store, id)
}

/// Grant or revoke another user's admin flag; for administrators, who may
/// not revoke their own.
pub fn admin_set_user_admin(ctx: &Ctx, store: &mut Store, user_id: i64, is_admin: bool) -> (r:
    Result<(), Error>)
    requires
        old(store).wf(),
    ensures
        final(store).wf(),
        !ctx.spec_is_admin() ==> (r matches Err(e) && e matches Error::Auth(_)) && *final(store)
            == *old(store),
        ctx.spec_is_admin() && user_id == ctx.spec_user_id() && !is_admin ==> (r matches Err(e)
            && e matches Error::Auth(_)) && *final(store) == *old(store),
        ctx.spec_is_admin() && !(user_id == ctx.spec_user_id() && !is_admin) ==> r == Ok::<
            (),
            Error,
        >(()) && mapped_where(
            old(store).users@,
            final(store).users@,
            sel_user_row(user_id),
            apply_admin(is_admin),
        ),
        final(store).next_user_id == old(store).next_user_id,
        final(store).trade_part() == old(store).trade_part(),
        final(store).tx_part() == old(store).tx_part(),
        final(store).review_part() == old(store).review_part(),
        final(store).config_part() == old(store).config_part(),
{
    if !ctx.is_admin() {
        return Err(Error::Auth(String::from_str("Admin access required")));
    }
    if user_id == ctx.user_id() && !is_admin {
        return Err(Error::Auth(String::from_str("Cannot remove your own admin status")));
    }
    UserBmc::set_admin_status(store, user_id, is_admin)
}

} // verus!
