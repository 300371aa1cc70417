use dtrex::ctx::Ctx;
use dtrex::error::Error;
use dtrex::status::{OfferType, TradeStatus, TradeType};
use dtrex::store::Store;
use dtrex::trade::{TradeAcceptParams, TradeBmc, TradeForCreate};

fn item(title: &str, cents: u64) -> TradeForCreate {
    TradeForCreate {
        item_title: String::from(title),
        item_description: String::from("a described item"),
        item_condition: Some(String::from("good")),
        item_value_cents: cents,
        item_category: None,
    }
}

fn xch_offer(trade_id: i64, mojos: i64) -> TradeAcceptParams {
    TradeAcceptParams {
        trade_id,
        offer_type: OfferType::Xch,
        item_title: None,
        item_description: None,
        item_condition: None,
        item_value_cents: None,
        xch_amount: Some(mojos),
    }
}

#[test]
fn accept_with_xch_offer_matches_trade() {
    let alice = Ctx::new(1, String::from("alice"));
    let bob = Ctx::new(2, String::from("bob"));
    let mut store = Store::new();
    let id = TradeBmc::create(&alice, &mut store, item("bike", 100), 1000).unwrap();
    TradeBmc::accept(&bob, &mut store, xch_offer(id, 5_000_000_000_000), 1010).unwrap();
    let t = TradeBmc::get(&alice, &store, id).unwrap();
    assert_eq!(t.status, TradeStatus::Matched);
    assert_eq!(t.trade_type, TradeType::ItemForXch);
    assert_eq!(t.acceptor_id, Some(2));
    assert_eq!(t.acceptor_xch_offer, Some(5_000_000_000_000));
}

#[test]
fn accept_own_proposal_fails() {
    let alice = Ctx::new(1, String::from("alice"));
    let mut store = Store::new();
    let id = TradeBmc::create(&alice, &mut store, item("bike", 100), 1000).unwrap();
    let r = TradeBmc::accept(&alice, &mut store, xch_offer(id, 1_000_000), 1010);
    assert_eq!(r, Err(Error::BadRequest));
    let t = TradeBmc::get(&alice, &store, id).unwrap();
    assert_eq!(t.status, TradeStatus::Proposal);
    assert_eq!(t.acceptor_id, None);
}

#[test]
fn second_accept_fails_and_keeps_acceptor() {
    let alice = Ctx::new(1, String::from("alice"));
    let bob = Ctx::new(2, String::from("bob"));
    let carol = Ctx::new(3, String::from("carol"));
    let mut store = Store::new();
    let id = TradeBmc::create(&alice, &mut store, item("bike", 100), 1000).unwrap();
    TradeBmc::accept(&bob, &mut store, xch_offer(id, 1_000_000), 1010).unwrap();
    let r = TradeBmc::accept(&carol, &mut store, xch_offer(id, 2_000_000), 1020);
    assert_eq!(r, Err(Error::NotFound));
    let t = TradeBmc::get(&alice, &store, id).unwrap();
    assert_eq!(t.acceptor_id, Some(2));
}

#[test]
fn get_hides_trades_from_non_participants() {
    let alice = Ctx::new(1, String::from("alice"));
    let bob = Ctx::new(2, String::from("bob"));
    let mallory = Ctx::new(9, String::from("mallory"));
    let mut store = Store::new();
    let id = TradeBmc::create(&alice, &mut store, item("bike", 100), 1000).unwrap();
    assert_eq!(TradeBmc::get(&mallory, &store, id).err(), Some(Error::NotFound));
    assert!(TradeBmc::get_public(&store, id).is_ok());
    assert_eq!(TradeBmc::get_public(&store, 77).err(), Some(Error::NotFound));
    // Once accepted the trade is no longer an open proposal, so the public
    // lookup hides it; its participants still see it.
    TradeBmc::accept(&bob, &mut store, xch_offer(id, 1_000_000), 1010).unwrap();
    assert_eq!(TradeBmc::get_public(&store, id).err(), Some(Error::NotFound));
    assert!(TradeBmc::get(&bob, &store, id).is_ok());
}

#[test]
fn commit_and_complete_follow_the_state_machine() {
    let alice = Ctx::new(1, String::from("alice"));
    let bob = Ctx::new(2, String::from("bob"));
    let mut store = Store::new();
    let id = TradeBmc::create(&alice, &mut store, item("bike", 100), 1000).unwrap();
    // A Proposal cannot be committed.
    let r = TradeBmc::update_status(&alice, &mut store, id, TradeStatus::Committed, 1005);
    assert_eq!(r, Err(Error::NotFound));
    TradeBmc::accept(&bob, &mut store, xch_offer(id, 1_000_000), 1010).unwrap();
    TradeBmc::update_status(&alice, &mut store, id, TradeStatus::Committed, 1020).unwrap();
    assert_eq!(TradeBmc::get(&alice, &store, id).unwrap().status, TradeStatus::Committed);
    TradeBmc::update_status(&bob, &mut store, id, TradeStatus::Completed, 1030).unwrap();
    assert_eq!(TradeBmc::get(&alice, &store, id).unwrap().status, TradeStatus::Completed);
    // Terminal: no further completion.
    let r = TradeBmc::update_status(&bob, &mut store, id, TradeStatus::Completed, 1040);
    assert_eq!(r, Err(Error::NotFound));
}

#[test]
fn add_tracking_stamps_the_callers_side() {
    let alice = Ctx::new(1, String::from("alice"));
    let bob = Ctx::new(2, String::from("bob"));
    let mut store = Store::new();
    let id = TradeBmc::create(&alice, &mut store, item("bike", 100), 1000).unwrap();
    TradeBmc::accept(&bob, &mut store, xch_offer(id, 1_000_000), 1010).unwrap();
    TradeBmc::add_tracking(
        &bob,
        &mut store,
        id,
        String::from("TRK123"),
        String::from("postal"),
        1020,
    )
    .unwrap();
    let t = TradeBmc::get(&alice, &store, id).unwrap();
    assert_eq!(t.acceptor_tracking_number, Some(String::from("TRK123")));
    assert_eq!(t.acceptor_shipped_at, Some(1020));
    assert_eq!(t.proposer_tracking_number, None);
}

#[test]
fn cancel_is_proposer_scoped() {
    let alice = Ctx::new(1, String::from("alice"));
    let bob = Ctx::new(2, String::from("bob"));
    let mut store = Store::new();
    let id = TradeBmc::create(&alice, &mut store, item("bike", 100), 1000).unwrap();
    TradeBmc::accept(&bob, &mut store, xch_offer(id, 1_000_000), 1010).unwrap();
    // The acceptor may not cancel.
    assert_eq!(TradeBmc::cancel(&bob, &mut store, id, 1020), Err(Error::NotFound));
    TradeBmc::cancel(&alice, &mut store, id, 1030).unwrap();
    assert_eq!(TradeBmc::get(&alice, &store, id).unwrap().status, TradeStatus::Cancelled);
}

#[test]
fn admin_cancel_on_committed_trade_cancels_and_on_completed_fails() {
    let alice = Ctx::new(1, String::from("alice"));
    let bob = Ctx::new(2, String::from("bob"));
    let mut store = Store::new();
    let id = TradeBmc::create(&alice, &mut store, item("bike", 100), 1000).unwrap();
    TradeBmc::accept(&bob, &mut store, xch_offer(id, 1_000_000), 1010).unwrap();
    TradeBmc::update_status(&alice, &mut store, id, TradeStatus::Committed, 1020).unwrap();
    TradeBmc::admin_cancel(&mut store, id, 1030).unwrap();
    assert_eq!(TradeBmc::get(&alice, &store, id).unwrap().status, TradeStatus::Cancelled);

    let id2 = TradeBmc::create(&alice, &mut store, item("lamp", 40), 1100).unwrap();
    TradeBmc::accept(&bob, &mut store, xch_offer(id2, 1_000_000), 1110).unwrap();
    TradeBmc::update_status(&bob, &mut store, id2, TradeStatus::Completed, 1120).unwrap();
    assert!(matches!(
        TradeBmc::admin_cancel(&mut store, id2, 1130),
        Err(Error::NotFound)
    ));
}

#[test]
fn delete_removes_only_own_proposals() {
    let alice = Ctx::new(1, String::from("alice"));
    let bob = Ctx::new(2, String::from("bob"));
    let mut store = Store::new();
    let id = TradeBmc::create(&alice, &mut store, item("bike", 100), 1000).unwrap();
    assert_eq!(TradeBmc::delete(&bob, &mut store, id), Err(Error::NotFound));
    TradeBmc::delete(&alice, &mut store, id).unwrap();
    assert_eq!(TradeBmc::get_public(&store, id).err(), Some(Error::NotFound));
}

#[test]
fn admin_delete_takes_proposals_and_cancelled_trades() {
    let alice = Ctx::new(1, String::from("alice"));
    let bob = Ctx::new(2, String::from("bob"));
    let mut store = Store::new();
    let id = TradeBmc::create(&alice, &mut store, item("bike", 100), 1000).unwrap();
    TradeBmc::accept(&bob, &mut store, xch_offer(id, 1_000_000), 1010).unwrap();
    assert_eq!(TradeBmc::admin_delete(&mut store, id), Err(Error::NotFound));
    TradeBmc::cancel(&alice, &mut store, id, 1020).unwrap();
    TradeBmc::admin_delete(&mut store, id).unwrap();
    assert_eq!(TradeBmc::get_public(&store, id).err(), Some(Error::NotFound));
}

#[test]
fn proposal_listing_is_paged_newest_first() {
    let alice = Ctx::new(1, String::from("alice"));
    let bob = Ctx::new(2, String::from("bob"));
    let mut store = Store::new();
    let a = TradeBmc::create(&alice, &mut store, item("one", 10), 1000).unwrap();
    let b = TradeBmc::create(&alice, &mut store, item("two", 20), 1001).unwrap();
    let c = TradeBmc::create(&alice, &mut store, item("three", 30), 1002).unwrap();
    // An accepted trade leaves the proposal listing.
    TradeBmc::accept(&bob, &mut store, xch_offer(b, 1_000), 1003).unwrap();
    let page = TradeBmc::list_proposals(&store, 10, 0);
    let ids: Vec<i64> = page.iter().map(|t| t.id).collect();
    assert_eq!(ids, vec![c, a]);
    let page = TradeBmc::list_proposals(&store, 1, 1);
    assert_eq!(page.len(), 1);
    assert_eq!(page[0].id, a);
    let mine = TradeBmc::list_my_trades(&bob, &store);
    assert_eq!(mine.len(), 1);
    assert_eq!(mine[0].id, b);
}
