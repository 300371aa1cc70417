use dtrex::ctx::Ctx;
use dtrex::error::Error;
use dtrex::review::{ReviewBmc, ReviewForCreate};
use dtrex::status::{OfferType, TradeStatus};
use dtrex::store::Store;
use dtrex::trade::{TradeAcceptParams, TradeBmc, TradeForCreate};
use dtrex::user::{UserBmc, UserForCreate};

fn completed_trade(store: &mut Store, proposer: &Ctx, acceptor: &Ctx, now: u64) -> i64 {
    let id = TradeBmc::create(
        proposer,
        store,
        TradeForCreate {
            item_title: String::from("bike"),
            item_description: String::from("red bike"),
            item_condition: None,
            item_value_cents: 10000,
            item_category: None,
        },
        now,
    )
    .unwrap();
    TradeBmc::accept(
        acceptor,
        store,
        TradeAcceptParams {
            trade_id: id,
            offer_type: OfferType::Item,
            item_title: Some(String::from("lamp")),
            item_description: Some(String::from("desk lamp")),
            item_condition: None,
            item_value_cents: Some(9000),
            xch_amount: None,
        },
        now + 1,
    )
    .unwrap();
    TradeBmc::update_status(proposer, store, id, TradeStatus::Completed, now + 2).unwrap();
    id
}

fn review(trade_id: i64, t: i16, p: i16, v: i16, s: i16) -> ReviewForCreate {
    ReviewForCreate {
        trade_id,
        timeliness: t,
        packaging: p,
        value_honesty: v,
        state_accuracy: s,
        comment: None,
    }
}

#[test]
fn review_updates_the_reviewees_reputation() {
    let mut store = Store::new();
    let alice_id = UserBmc::create(
        &mut store,
        UserForCreate { username: String::from("alice"), pwd_clear: String::from("SECRET-REDACTED") },
    )
    .unwrap();
    let bob_id = UserBmc::create(
        &mut store,
        UserForCreate { username: String::from("bob"), pwd_clear: String::from("SECRET-REDACTED") },
    )
    .unwrap();
    let alice = Ctx::new(alice_id, String::from("alice"));
    let bob = Ctx::new(bob_id, String::from("bob"));
    let trade = completed_trade(&mut store, &alice, &bob, 1000);
    // 20%*5 + 25%*4 + 30%*3 + 25%*2 = 3.40, kept as 340 hundredths.
    ReviewBmc::create(&alice, &mut store, review(trade, 5, 4, 3, 2), 2000).unwrap();
    let bob_row = store.users.iter().find(|u| u.id == bob_id).unwrap();
    assert_eq!(bob_row.reputation_score_centi, 340);
    assert_eq!(bob_row.total_trades, 1);
    // The acceptor reviews the proposer on the same trade.
    ReviewBmc::create(&bob, &mut store, review(trade, 5, 5, 5, 5), 2001).unwrap();
    let alice_row = store.users.iter().find(|u| u.id == alice_id).unwrap();
    assert_eq!(alice_row.reputation_score_centi, 500);
    assert_eq!(alice_row.total_trades, 1);
    // A second completed trade moves the average and the distinct count.
    let trade2 = completed_trade(&mut store, &alice, &bob, 3000);
    ReviewBmc::create(&alice, &mut store, review(trade2, 1, 1, 1, 1), 4000).unwrap();
    let bob_row = store.users.iter().find(|u| u.id == bob_id).unwrap();
    // (340 + 100) / 2 = 220 hundredths.
    assert_eq!(bob_row.reputation_score_centi, 220);
    assert_eq!(bob_row.total_trades, 2);
    let reviews = ReviewBmc::get_for_user(&store, bob_id);
    assert_eq!(reviews.len(), 2);
    assert_eq!(reviews[0].trade_id, trade2);
    assert_eq!(reviews[1].trade_id, trade);
}

#[test]
fn review_requires_a_completed_trade_of_the_caller() {
    let mut store = Store::new();
    let alice = Ctx::new(1, String::from("alice"));
    let bob = Ctx::new(2, String::from("bob"));
    let eve = Ctx::new(9, String::from("eve"));
    let id = TradeBmc::create(
        &alice,
        &mut store,
        TradeForCreate {
            item_title: String::from("bike"),
            item_description: String::from("red bike"),
            item_condition: None,
            item_value_cents: 100,
            item_category: None,
        },
        1000,
    )
    .unwrap();
    // Not completed yet.
    assert_eq!(
        ReviewBmc::create(&alice, &mut store, review(id, 5, 5, 5, 5), 1100),
        Err(Error::NotFound)
    );
    TradeBmc::accept(
        &bob,
        &mut store,
        TradeAcceptParams {
            trade_id: id,
            offer_type: OfferType::Xch,
            item_title: None,
            item_description: None,
            item_condition: None,
            item_value_cents: None,
            xch_amount: Some(1_000_000),
        },
        1200,
    )
    .unwrap();
    TradeBmc::update_status(&alice, &mut store, id, TradeStatus::Completed, 1300).unwrap();
    // Outsiders may not review.
    assert_eq!(
        ReviewBmc::create(&eve, &mut store, review(id, 5, 5, 5, 5), 1400),
        Err(Error::NotFound)
    );
    // Out-of-range scores are rejected.
    assert_eq!(
        ReviewBmc::create(&alice, &mut store, review(id, 6, 5, 5, 5), 1500),
        Err(Error::BadRequest)
    );
    assert!(ReviewBmc::create(&alice, &mut store, review(id, 5, 5, 5, 5), 1600).is_ok());
}

#[test]
fn user_stats_count_participations_and_completions() {
    let mut store = Store::new();
    let alice = Ctx::new(1, String::from("alice"));
    let bob = Ctx::new(2, String::from("bob"));
    completed_trade(&mut store, &alice, &bob, 1000);
    TradeBmc::create(
        &alice,
        &mut store,
        TradeForCreate {
            item_title: String::from("lamp"),
            item_description: String::from("desk lamp"),
            item_condition: None,
            item_value_cents: 40,
            item_category: None,
        },
        2000,
    )
    .unwrap();
    let stats = UserBmc::get_user_stats(&store, 1).unwrap();
    assert_eq!(stats.total_trades, 2);
    assert_eq!(stats.completed_trades, 1);
    let stats = UserBmc::get_user_stats(&store, 2).unwrap();
    assert_eq!(stats.total_trades, 1);
    assert_eq!(stats.completed_trades, 1);
}

#[test]
fn admin_flag_can_be_granted_and_revoked() {
    let mut store = Store::new();
    let id = UserBmc::create(
        &mut store,
        UserForCreate { username: String::from("carol"), pwd_clear: String::from("SECRET-REDACTED") },
    )
    .unwrap();
    UserBmc::set_admin_status(&mut store, id, true).unwrap();
    assert!(store.users[0].is_admin);
    UserBmc::set_admin_status(&mut store, id, false).unwrap();
    assert!(!store.users[0].is_admin);
    // A missing user is a quiet no-op.
    UserBmc::set_admin_status(&mut store, 999, true).unwrap();
}
