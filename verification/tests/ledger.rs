use dtrex::chain::{ChainObservation, TransactionRecord};
use dtrex::ctx::Ctx;
use dtrex::error::Error;
use dtrex::status::{CommitStatus, OfferType, Role, TxStatus, TxType};
use dtrex::store::Store;
use dtrex::trade::{TradeAcceptParams, TradeBmc, TradeForCreate};
use dtrex::transaction::{TradeTransactionForCreate, TransactionBmc};
use dtrex::verify::{cleanup_stale_transactions, verify_single_transaction};

fn matched_trade(store: &mut Store, proposer: &Ctx, acceptor: &Ctx, now: u64) -> i64 {
    let id = TradeBmc::create(
        proposer,
        store,
        TradeForCreate {
            item_title: String::from("bike"),
            item_description: String::from("red bike"),
            item_condition: None,
            item_value_cents: 10000,
            item_category: None,
        },
        now,
    )
    .unwrap();
    TradeBmc::accept(
        acceptor,
        store,
        TradeAcceptParams {
            trade_id: id,
            offer_type: OfferType::Xch,
            item_title: None,
            item_description: None,
            item_condition: None,
            item_value_cents: None,
            xch_amount: Some(2_000_000),
        },
        now + 1,
    )
    .unwrap();
    id
}

fn fee_entry(trade_id: i64, mojos: i64) -> TradeTransactionForCreate {
    TradeTransactionForCreate {
        trade_id,
        tx_type: TxType::CommitmentFee,
        tx_id: None,
        from_address: None,
        to_address: None,
        amount_mojos: mojos,
    }
}

fn record(height: u64) -> TransactionRecord {
    TransactionRecord {
        transaction_id: String::from("abc"),
        confirmed: true,
        confirmed_at_height: Some(height),
        amount: 2000,
        fee_amount: 0,
        to_address: String::from("xch1dest"),
        sent_to: true,
    }
}

#[test]
fn pending_entry_confirms_at_six_confirmations() {
    let alice = Ctx::new(1, String::from("alice"));
    let bob = Ctx::new(2, String::from("bob"));
    let system = Ctx::root_ctx();
    let mut store = Store::new();
    let trade = matched_trade(&mut store, &alice, &bob, 1000);
    let entry = TransactionBmc::create(&bob, &mut store, fee_entry(trade, 2000), 1010).unwrap();
    TransactionBmc::submit_tx_id(&bob, &mut store, entry, String::from("abc"), 1020).unwrap();
    assert_eq!(store.transactions[0].status, TxStatus::Mempool);
    let obs = ChainObservation { in_mempool: false, record: Some(record(100)) };
    let confirmed =
        verify_single_transaction(&system, &mut store, "abc", &obs, 106, 1030).unwrap();
    assert!(confirmed);
    assert_eq!(store.transactions[0].status, TxStatus::Confirmed);
    assert_eq!(store.transactions[0].confirmations, Some(6));
}

#[test]
fn four_confirmations_leave_entry_in_mempool() {
    let alice = Ctx::new(1, String::from("alice"));
    let bob = Ctx::new(2, String::from("bob"));
    let system = Ctx::root_ctx();
    let mut store = Store::new();
    let trade = matched_trade(&mut store, &alice, &bob, 1000);
    let entry = TransactionBmc::create(&bob, &mut store, fee_entry(trade, 2000), 1010).unwrap();
    TransactionBmc::submit_tx_id(&bob, &mut store, entry, String::from("abc"), 1020).unwrap();
    let obs = ChainObservation { in_mempool: false, record: Some(record(100)) };
    let confirmed =
        verify_single_transaction(&system, &mut store, "abc", &obs, 104, 1030).unwrap();
    assert!(!confirmed);
    assert_eq!(store.transactions[0].status, TxStatus::Mempool);
}

#[test]
fn mempool_presence_defers_the_decision() {
    let alice = Ctx::new(1, String::from("alice"));
    let bob = Ctx::new(2, String::from("bob"));
    let system = Ctx::root_ctx();
    let mut store = Store::new();
    let trade = matched_trade(&mut store, &alice, &bob, 1000);
    let entry = TransactionBmc::create(&bob, &mut store, fee_entry(trade, 2000), 1010).unwrap();
    TransactionBmc::submit_tx_id(&bob, &mut store, entry, String::from("abc"), 1020).unwrap();
    let obs = ChainObservation { in_mempool: true, record: Some(record(100)) };
    let confirmed =
        verify_single_transaction(&system, &mut store, "abc", &obs, 200, 1030).unwrap();
    assert!(!confirmed);
    assert_eq!(store.transactions[0].status, TxStatus::Mempool);
}

#[test]
fn stale_pending_entry_is_failed_with_the_fixed_message() {
    let alice = Ctx::new(1, String::from("alice"));
    let bob = Ctx::new(2, String::from("bob"));
    let mut store = Store::new();
    let trade = matched_trade(&mut store, &alice, &bob, 1000);
    let created_at = 50_000u64;
    let mut entry = fee_entry(trade, 2000);
    entry.tx_id = Some(String::from("xyz"));
    TransactionBmc::create(&bob, &mut store, entry, created_at).unwrap();
    // 25 hours later the entry is still Pending.
    let now = created_at + 25 * 3600;
    cleanup_stale_transactions(&mut store, now).unwrap();
    assert_eq!(store.transactions[0].status, TxStatus::Failed);
    assert_eq!(
        store.transactions[0].error_message,
        Some(String::from("Transaction did not appear in mempool within 24 hours"))
    );
}

#[test]
fn cleanup_ignores_entries_without_an_external_id() {
    let alice = Ctx::new(1, String::from("alice"));
    let bob = Ctx::new(2, String::from("bob"));
    let mut store = Store::new();
    let trade = matched_trade(&mut store, &alice, &bob, 1000);
    TransactionBmc::create(&bob, &mut store, fee_entry(trade, 2000), 1000).unwrap();
    cleanup_stale_transactions(&mut store, 1000 + 48 * 3600).unwrap();
    assert_eq!(store.transactions[0].status, TxStatus::Pending);
}

#[test]
fn second_active_entry_per_slot_is_rejected() {
    let alice = Ctx::new(1, String::from("alice"));
    let bob = Ctx::new(2, String::from("bob"));
    let mut store = Store::new();
    let trade = matched_trade(&mut store, &alice, &bob, 1000);
    TransactionBmc::create(&bob, &mut store, fee_entry(trade, 2000), 1010).unwrap();
    let r = TransactionBmc::create(&bob, &mut store, fee_entry(trade, 2000), 1020);
    assert!(matches!(r, Err(Error::InvalidState(_))));
    // The proposer's slot is independent.
    assert!(TransactionBmc::create(&alice, &mut store, fee_entry(trade, 2000), 1030).is_ok());
    // An outsider may not pay at all.
    let eve = Ctx::new(9, String::from("eve"));
    assert!(matches!(
        TransactionBmc::create(&eve, &mut store, fee_entry(trade, 2000), 1040),
        Err(Error::Auth(_))
    ));
}

#[test]
fn confirm_twice_fails_the_second_time() {
    let alice = Ctx::new(1, String::from("alice"));
    let bob = Ctx::new(2, String::from("bob"));
    let system = Ctx::root_ctx();
    let mut store = Store::new();
    let trade = matched_trade(&mut store, &alice, &bob, 1000);
    let entry = TransactionBmc::create(&bob, &mut store, fee_entry(trade, 2000), 1010).unwrap();
    TransactionBmc::submit_tx_id(&bob, &mut store, entry, String::from("abc"), 1020).unwrap();
    TransactionBmc::confirm(&system, &mut store, "abc", String::from("coin1"), 6, 1030).unwrap();
    assert_eq!(store.transactions[0].status, TxStatus::Confirmed);
    assert_eq!(store.transactions[0].confirmations, Some(6));
    let again = TransactionBmc::confirm(&system, &mut store, "abc", String::from("coin2"), 7, 1040);
    assert!(matches!(again, Err(Error::NotFoundMsg(_))));
    // The first confirmation's record is untouched.
    assert_eq!(store.transactions[0].confirmations, Some(6));
    assert_eq!(store.transactions[0].coin_id, Some(String::from("coin1")));
}

#[test]
fn submit_is_owner_scoped_and_single_shot() {
    let alice = Ctx::new(1, String::from("alice"));
    let bob = Ctx::new(2, String::from("bob"));
    let mut store = Store::new();
    let trade = matched_trade(&mut store, &alice, &bob, 1000);
    let entry = TransactionBmc::create(&bob, &mut store, fee_entry(trade, 2000), 1010).unwrap();
    assert!(matches!(
        TransactionBmc::submit_tx_id(&alice, &mut store, entry, String::from("abc"), 1020),
        Err(Error::NotFoundMsg(_))
    ));
    TransactionBmc::submit_tx_id(&bob, &mut store, entry, String::from("abc"), 1020).unwrap();
    assert!(matches!(
        TransactionBmc::submit_tx_id(&bob, &mut store, entry, String::from("def"), 1030),
        Err(Error::NotFoundMsg(_))
    ));
    assert_eq!(store.transactions[0].tx_id, Some(String::from("abc")));
}

#[test]
fn fail_marks_active_entries_and_tolerates_unknown_ids() {
    let alice = Ctx::new(1, String::from("alice"));
    let bob = Ctx::new(2, String::from("bob"));
    let system = Ctx::root_ctx();
    let mut store = Store::new();
    let trade = matched_trade(&mut store, &alice, &bob, 1000);
    let entry = TransactionBmc::create(&bob, &mut store, fee_entry(trade, 2000), 1010).unwrap();
    TransactionBmc::submit_tx_id(&bob, &mut store, entry, String::from("abc"), 1020).unwrap();
    TransactionBmc::fail(&system, &mut store, "abc", String::from("rejected by node")).unwrap();
    assert_eq!(store.transactions[0].status, TxStatus::Failed);
    assert_eq!(store.transactions[0].error_message, Some(String::from("rejected by node")));
    // Unknown external ids are a quiet no-op.
    TransactionBmc::fail(&system, &mut store, "nope", String::from("x")).unwrap();
}

#[test]
fn pending_verification_lists_mempool_entries_oldest_first() {
    let alice = Ctx::new(1, String::from("alice"));
    let bob = Ctx::new(2, String::from("bob"));
    let system = Ctx::root_ctx();
    let mut store = Store::new();
    let trade = matched_trade(&mut store, &alice, &bob, 1000);
    let e_bob = TransactionBmc::create(&bob, &mut store, fee_entry(trade, 2000), 1010).unwrap();
    let e_alice =
        TransactionBmc::create(&alice, &mut store, fee_entry(trade, 3000), 1011).unwrap();
    // Bob broadcasts later than Alice even though his entry is older.
    TransactionBmc::submit_tx_id(&bob, &mut store, e_bob, String::from("b1"), 500_000).unwrap();
    TransactionBmc::submit_tx_id(&alice, &mut store, e_alice, String::from("a1"), 400_000)
        .unwrap();
    let list = TransactionBmc::list_pending_verification(&system, &store).unwrap();
    assert_eq!(list.len(), 2);
    assert_eq!(list[0].tx_id, Some(String::from("a1")));
    assert_eq!(list[1].tx_id, Some(String::from("b1")));
    // list_for_trade is participant-scoped and newest-entry first.
    let eve = Ctx::new(9, String::from("eve"));
    assert!(matches!(
        TransactionBmc::list_for_trade(&eve, &store, trade),
        Err(Error::Auth(_))
    ));
    let rows = TransactionBmc::list_for_trade(&bob, &store, trade).unwrap();
    assert_eq!(rows.len(), 2);
    assert_eq!(rows[0].id, e_alice);
    assert_eq!(rows[1].id, e_bob);
}

#[test]
fn commitment_details_are_complete_and_repeatable() {
    let alice = Ctx::new(1, String::from("alice"));
    let bob = Ctx::new(2, String::from("bob"));
    let admin = Ctx::new_with_admin(10, String::from("root"), true);
    let mut store = Store::new();
    let trade = matched_trade(&mut store, &alice, &bob, 1000);
    // Without a configured wallet the details are unavailable.
    assert!(matches!(
        TransactionBmc::get_commitment_details(&bob, &store, trade),
        Err(Error::Config(_))
    ));
    TransactionBmc::set_exchange_wallet(&admin, &mut store, "xch1exchangewallet").unwrap();
    TransactionBmc::set_commitment_fee(&admin, &mut store, "2.50").unwrap();
    let d1 = TransactionBmc::get_commitment_details(&bob, &store, trade).unwrap();
    assert_eq!(d1.trade_id, trade);
    assert_eq!(d1.exchange_wallet_address, String::from("xch1exchangewallet"));
    assert_eq!(d1.commitment_fee_cents, 250);
    assert_eq!(d1.user_role, Role::Acceptor);
    assert_eq!(d1.user_commit_status, CommitStatus::Pending);
    assert_eq!(d1.other_commit_status, CommitStatus::Pending);
    assert_eq!(d1.memo, format!("DTREX-COMMIT-{}-{}", trade, 2));
    // Idempotent: a second read with no intervening mutation agrees.
    let d2 = TransactionBmc::get_commitment_details(&bob, &store, trade).unwrap();
    assert_eq!(d1.exchange_wallet_address, d2.exchange_wallet_address);
    assert_eq!(d1.commitment_fee_cents, d2.commitment_fee_cents);
    assert_eq!(d1.user_role, d2.user_role);
    assert_eq!(d1.memo, d2.memo);
    // The proposer sees the mirrored role and memo.
    let d3 = TransactionBmc::get_commitment_details(&alice, &store, trade).unwrap();
    assert_eq!(d3.user_role, Role::Proposer);
    assert_eq!(d3.memo, format!("DTREX-COMMIT-{}-{}", trade, 1));
    // Outsiders are turned away; a fresh proposal is not commitable.
    let eve = Ctx::new(9, String::from("eve"));
    assert!(matches!(
        TransactionBmc::get_commitment_details(&eve, &store, trade),
        Err(Error::Auth(_))
    ));
    assert!(matches!(
        TransactionBmc::get_commitment_details(&bob, &store, 999),
        Err(Error::NotFoundMsg(_))
    ));
}

#[test]
fn default_fee_is_one_dollar_and_bad_fee_text_is_rejected() {
    let alice = Ctx::new(1, String::from("alice"));
    let bob = Ctx::new(2, String::from("bob"));
    let admin = Ctx::new_with_admin(10, String::from("root"), true);
    let mut store = Store::new();
    let trade = matched_trade(&mut store, &alice, &bob, 1000);
    TransactionBmc::set_exchange_wallet(&admin, &mut store, "xch1exchangewallet").unwrap();
    let d = TransactionBmc::get_commitment_details(&bob, &store, trade).unwrap();
    assert_eq!(d.commitment_fee_cents, 100);
    TransactionBmc::set_commitment_fee(&admin, &mut store, "not-a-number").unwrap();
    assert!(matches!(
        TransactionBmc::get_commitment_details(&bob, &store, trade),
        Err(Error::Config(_))
    ));
}
