//! Users as the core sees them: identity, admin flag and the aggregate
//! reputation maintained by the review machinery. Registration, passwords
//! and tokens are resolved upstream.

use vstd::prelude::*;
use crate::error::Error;
use crate::status::TradeStatus;
use crate::store::Store;
use crate::table::mapped_where;
use crate::trade::{is_participant, sel_my_trades};

verus! {

/// Public identity of a user.
#[derive(Debug, Clone)]
pub struct User {
    pub id: i64,
    pub username: String,
}

/// Payload for creating a user. The clear-text password is consumed by the
/// (out-of-core) credential store; the core keeps none of it.
#[derive(Debug, Clone)]
pub struct UserForCreate {
    pub username: String,
    pub pwd_clear: String,
}

/// A user row with the fields the core reads and writes: the admin flag and
/// the reputation aggregate recomputed on every review.
#[derive(Debug, Clone)]
pub struct UserRecord {
    pub id: i64,
    pub username: String,
    pub is_admin: bool,
    /// Average review score in integer hundredths (e.g. 450 = 4.50).
    pub reputation_score_centi: i64,
    /// Number of distinct completed trades the user has been reviewed on.
    pub total_trades: i64,
}

/// Trade-count statistics of one user.
#[derive(Debug, Clone, PartialEq, Eq, Structural)]
pub struct UserStats {
    pub total_trades: i64,
    pub completed_trades: i64,
}

/// Selects the user row of `uid`.
pub open spec fn sel_user_row(uid: i64) -> spec_fn(UserRecord) -> bool {
    (|u: UserRecord| u.id == uid)
}

/// The row transform of an admin-flag update.
pub open spec fn apply_admin(is_admin: bool) -> spec_fn(UserRecord) -> UserRecord {
    (|u: UserRecord| UserRecord { is_admin, ..u })
}

/// Selects the completed trades `uid` participates in.
pub open spec fn sel_my_completed(uid: i64) -> spec_fn(crate::trade::Trade) -> bool {
    (|t: crate::trade::Trade| is_participant(t, uid) && t.status == TradeStatus::Completed)
}

/// The fresh user row `uc` creates: a plain member with an empty
/// reputation. The clear-text password is not retained.
pub open spec fn fresh_user(uc: UserForCreate, id: i64) -> UserRecord {
    (UserRecord {
        id,
        username: uc.username,
        is_admin: false,
        reputation_score_centi: 0,
        total_trades: 0,
    })
}

/// Find the index of the user row with id `id`.
pub(crate) fn find_user(users: &Vec<UserRecord>, id: i64) -> (r: Option<usize>)
    ensures
        match r {
            Some(i) => i < users@.len() && users@[i as int].id == id,
            None => forall|k: int| 0 <= k < users@.len() ==> (#[trigger] users@[k]).id != id,
        },
{
    let mut i: usize = 0;
    while i < users.len()
        invariant
            i <= users@.len(),
            forall|k: int| 0 <= k < i ==> (#[trigger] users@[k]).id != id,
        decreases users@.len() - i,
    {
        if users[i].id == id {
            return Some(i);
        }
        i = i + 1;
    }
    None
}

/// The business controller of users as the core sees them.
pub struct UserBmc;

impl UserBmc {
    /// Create a user; returns the fresh id. Credential handling happens
    /// upstream.
    pub fn create(store: &mut Store, user_c: UserForCreate) -> (r: Result<i64, Error>)
        requires
            old(store).wf(),
            old(store).next_user_id < i64::MAX,
        ensures
            final(store).wf(),
            r == Ok::<i64, Error>(old(store).next_user_id),
            final(store).users@ == old(store).users@.push(
                fresh_user(user_c, old(store).next_user_id),
            ),
            final(store).next_user_id == old(store).next_user_id + 1,
            final(store).trade_part() == old(store).trade_part(),
            final(store).tx_part() == old(store).tx_part(),
            final(store).review_part() == old(store).review_part(),
            final(store).config_part() == old(store).config_part(),
    {
        let id = store.next_user_id;
        store.next_user_id = id + 1;
        store.users.push(
            UserRecord {
                id,
                username: user_c.username,
                is_admin: false,
                reputation_score_centi: 0,
                total_trades: 0,
            },
        );
        Ok(id)
    }

    /// Set a user's admin flag; a missing user changes nothing.
    pub fn set_admin_status(store: &mut Store, user_id: i64, is_admin: bool) -> (r: Result<
        (),
        Error,
    >)
        requires
            old(store).wf(),
        ensures
            final(store).wf(),
            r == Ok::<(), Error>(()),
            mapped_where(
                old(store).users@,
                final(store).users@,
                sel_user_row(user_id),
                apply_admin(is_admin),
            ),
            final(store).next_user_id == old(store).next_user_id,
            final(store).trade_part() == old(store).trade_part(),
            final(store).tx_part() == old(store).tx_part(),
            final(store).review_part() == old(store).review_part(),
            final(store).config_part() == old(store).config_part(),
    {
        let ghost pre = store.users@;
        match find_user(&store.users, user_id) {
            Some(i) => {
                let row = store.users.remove(i);
                let updated = UserRecord { is_admin, ..row };
                store.users.insert(i, updated);
                proof {
                    let post = store.users@;
                    assert(post =~= pre.update(
                        i as int,
                        apply_admin(is_admin)(pre[i as int]),
                    ));
                    assert forall|k: int| 0 <= k < pre.len() implies #[trigger] post[k] == (
                    if sel_user_row(user_id)(pre[k]) {
                        apply_admin(is_admin)(pre[k])
                    } else {
                        pre[k]
                    }) by {
                        if k != i as int && sel_user_row(user_id)(pre[k]) {
                            crate::store::lemma_user_id_unique(
                                pre,
                                store.next_user_id,
                                k,
                                i as int,
                            );
                        }
                    }
                }
            },
            None => {},
        }
        Ok(())
    }

    /// How many trades `user_id` participates in, and how many of those
    /// completed.
    pub fn get_user_stats(store: &Store, user_id: i64) -> (r: Result<UserStats, Error>)
        requires
            store.wf(),
        ensures
            match r {
                Ok(s) => s.total_trades == store.trades@.filter(sel_my_trades(user_id)).len()
                    && s.completed_trades == store.trades@.filter(sel_my_completed(user_id)).len(),
                Err(_) => false,
            },
    {
        let mut total: usize = 0;
        let mut completed: usize = 0;
        let mut i: usize = 0;
        proof {
            reveal(Seq::filter);
            assert(store.trades@.subrange(0, 0) =~= Seq::<crate::trade::Trade>::empty());
        }
        while i < store.trades.len()
            invariant
                store.wf(),
                i <= store.trades@.len(),
                total == store.trades@.subrange(0, i as int).filter(sel_my_trades(user_id)).len(),
                completed == store.trades@.subrange(0, i as int).filter(
                    sel_my_completed(user_id),
                ).len(),
                total <= i,
                completed <= i,
            decreases store.trades@.len() - i,
        {
            proof {
                crate::table::lemma_filter_prefix_step(
                    store.trades@,
                    i as int,
                    sel_my_trades(user_id),
                );
                crate::table::lemma_filter_prefix_step(
                    store.trades@,
                    i as int,
                    sel_my_completed(user_id),
                );
            }
            let t = &store.trades[i];
            let participant = t.proposer_id == user_id || (match t.acceptor_id {
                Some(a) => a == user_id,
                None => false,
            });
            if participant {
                total = total + 1;
                if t.status == TradeStatus::Completed {
                    completed = completed + 1;
                }
            }
            i = i + 1;
        }
        proof {
            assert(store.trades@.subrange(0, store.trades@.len() as int) =~= store.trades@);
            crate::store::lemma_trade_len_bound(store.trades@, store.next_trade_id);
        }
        Ok(UserStats { total_trades: total as i64, completed_trades: completed as i64 })
    }
}

} // verus!

