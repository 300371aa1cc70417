use dtrex::ctx::Ctx;
use dtrex::error::Error;
use dtrex::rpc::{
    admin_cancel_trade, admin_delete_trade, admin_set_user_admin, commitment_create_pending,
    config_set_exchange_wallet,
};
use dtrex::status::{OfferType, TradeStatus};
use dtrex::store::Store;
use dtrex::trade::{TradeAcceptParams, TradeBmc, TradeForCreate};
use dtrex::user::{UserBmc, UserForCreate};

fn sample_address() -> String {
    let mut a = String::from("xch1");
    while a.len() < 62 {
        a.push('q');
    }
    a
}

fn matched_trade(store: &mut Store, proposer: &Ctx, acceptor: &Ctx) -> i64 {
    let id = TradeBmc::create(
        proposer,
        store,
        TradeForCreate {
            item_title: String::from("bike"),
            item_description: String::from("red bike"),
            item_condition: None,
            item_value_cents: 10000,
            item_category: None,
        },
        1000,
    )
    .unwrap();
    TradeBmc::accept(
        acceptor,
        store,
        TradeAcceptParams {
            trade_id: id,
            offer_type: OfferType::Xch,
            item_title: None,
            item_description: None,
            item_condition: None,
            item_value_cents: None,
            xch_amount: Some(2_000_000),
        },
        1001,
    )
    .unwrap();
    id
}

#[test]
fn wallet_configuration_is_admin_gated_and_validated() {
    let admin = Ctx::new_with_admin(10, String::from("root"), true);
    let user = Ctx::new(1, String::from("alice"));
    let mut store = Store::new();
    let addr = sample_address();
    assert!(matches!(
        config_set_exchange_wallet(&user, &mut store, &addr, None),
        Err(Error::Auth(_))
    ));
    assert_eq!(
        config_set_exchange_wallet(&admin, &mut store, "xch1tooshort", None),
        Err(Error::BadRequest)
    );
    assert_eq!(config_set_exchange_wallet(&admin, &mut store, &addr, Some("3.25")), Ok(()));
    // The configured values show up in the commitment details.
    let bob = Ctx::new(2, String::from("bob"));
    let trade = matched_trade(&mut store, &user, &bob);
    let d = dtrex::transaction::TransactionBmc::get_commitment_details(&bob, &store, trade)
        .unwrap();
    assert_eq!(d.exchange_wallet_address, addr);
    assert_eq!(d.commitment_fee_cents, 325);
}

#[test]
fn pending_commitment_creation_validates_the_amount() {
    let admin = Ctx::new_with_admin(10, String::from("root"), true);
    let alice = Ctx::new(1, String::from("alice"));
    let bob = Ctx::new(2, String::from("bob"));
    let mut store = Store::new();
    let addr = sample_address();
    config_set_exchange_wallet(&admin, &mut store, &addr, None).unwrap();
    let trade = matched_trade(&mut store, &alice, &bob);
    assert_eq!(
        commitment_create_pending(&bob, &mut store, trade, None, 999, 2000).err(),
        Some(Error::BadRequest)
    );
    assert_eq!(
        commitment_create_pending(&bob, &mut store, trade, None, 10_000_000_000_001, 2000).err(),
        Some(Error::BadRequest)
    );
    let p = commitment_create_pending(&bob, &mut store, trade, None, 2000, 2000).unwrap();
    assert_eq!(p.amount_mojos, 2000);
    assert_eq!(p.to_address, addr);
    assert_eq!(p.memo, format!("DTREX-COMMIT-{}-{}", trade, 2));
    assert_eq!(store.transactions.len(), 1);
    // The single-writer rule still applies through this path.
    assert!(matches!(
        commitment_create_pending(&bob, &mut store, trade, None, 2000, 2001),
        Err(Error::InvalidState(_))
    ));
}

#[test]
fn admin_trade_actions_are_gated() {
    let admin = Ctx::new_with_admin(10, String::from("root"), true);
    let alice = Ctx::new(1, String::from("alice"));
    let bob = Ctx::new(2, String::from("bob"));
    let mut store = Store::new();
    let trade = matched_trade(&mut store, &alice, &bob);
    assert!(matches!(
        admin_cancel_trade(&alice, &mut store, trade, 2000),
        Err(Error::Auth(_))
    ));
    admin_cancel_trade(&admin, &mut store, trade, 2000).unwrap();
    assert_eq!(TradeBmc::get(&alice, &store, trade).unwrap().status, TradeStatus::Cancelled);
    assert!(matches!(
        admin_delete_trade(&bob, &mut store, trade),
        Err(Error::Auth(_))
    ));
    admin_delete_trade(&admin, &mut store, trade).unwrap();
    assert_eq!(TradeBmc::get_public(&store, trade).err(), Some(Error::NotFound));
}

#[test]
fn admins_cannot_revoke_their_own_flag() {
    let mut store = Store::new();
    let id = UserBmc::create(
        &mut store,
        UserForCreate { username: String::from("root"), pwd_clear: String::from("SECRET-REDACTED") },
    )
    .unwrap();
    UserBmc::set_admin_status(&mut store, id, true).unwrap();
    let admin = Ctx::new_with_admin(id, String::from("root"), true);
    assert!(matches!(
        admin_set_user_admin(&admin, &mut store, id, false),
        Err(Error::Auth(_))
    ));
    let other = UserBmc::create(
        &mut store,
        UserForCreate { username: String::from("carol"), pwd_clear: String::from("SECRET-REDACTED") },
    )
    .unwrap();
    admin_set_user_admin(&admin, &mut store, other, true).unwrap();
    assert!(store.users.iter().find(|u| u.id == other).unwrap().is_admin);
}
