//! Post-completion ratings and the reputation aggregate they feed.
//!
//! A rating can only be filed against a Completed trade by one of its
//! participants; once stored it is immutable, and the rated user's running
//! average score and distinct-trade count are recomputed in the same
//! operation.

use vstd::prelude::*;

use crate::ctx::Ctx;
use crate::error::Error;
use crate::status::TradeStatus;
use crate::store::Store;
use crate::table::{mapped_where, some_row};
use crate::trade::is_participant;
use crate::user::UserRecord;

verus! {

/// A rating of one participant of a completed trade by the other.
/// Immutable after creation. The overall score is the fixed weighted sum
/// 20% timeliness + 25% packaging + 30% value-honesty + 25% state-accuracy,
/// kept exactly in integer hundredths.
#[derive(Debug, Clone)]
pub struct TradeReview {
    pub id: i64,
    pub trade_id: i64,
    pub reviewer_id: i64,
    pub reviewee_id: i64,
    pub timeliness_score: i16,
    pub packaging_score: i16,
    pub value_honesty_score: i16,
    pub state_accuracy_score: i16,
    /// Weighted overall score in integer hundredths of a point.
    pub overall_score_centi: i64,
    pub comment: Option<String>,
    pub created_at: u64,
}

/// Payload for filing a review of a trade. Scores run from 0 to 5.
#[derive(Debug, Clone)]
pub struct ReviewForCreate {
    pub trade_id: i64,
    pub timeliness: i16,
    pub packaging: i16,
    pub value_honesty: i16,
    pub state_accuracy: i16,
    pub comment: Option<String>,
}

/// The weighted overall score of a review, in hundredths:
/// 20% timeliness + 25% packaging + 30% value-honesty + 25% state-accuracy.
pub open spec fn overall_centi(timeliness: i16, packaging: i16, value_honesty: i16, state_accuracy: i16) -> int {
    20 * timeliness + 25 * packaging + 30 * value_honesty + 25 * state_accuracy
}

/// Selects the reviews of one reviewee.
pub open spec fn sel_reviewee(uid: i64) -> spec_fn(TradeReview) -> bool {
    (|r: TradeReview| r.reviewee_id == uid)
}

/// Selects the row of trade `id` when `uid` participates and the trade is
/// Completed: the only trades that may be reviewed.
pub open spec fn sel_reviewable(id: i64, uid: i64) -> spec_fn(crate::trade::Trade) -> bool {
    (|t: crate::trade::Trade| t.id == id && is_participant(t, uid) && t.status
        == TradeStatus::Completed)
}

/// Selects the one degenerate reviewable row: the caller's own Completed
/// trade that never recorded an acceptor (reachable by completing a
/// Proposal directly), leaving no other party to rate.
pub open spec fn sel_reviewable_no_acceptor(id: i64, uid: i64) -> spec_fn(crate::trade::Trade) -> bool {
    (|t: crate::trade::Trade| t.id == id && is_participant(t, uid) && t.status
        == TradeStatus::Completed && t.proposer_id == uid && t.acceptor_id is None)
}

/// The sum of the overall scores of a run of reviews, in hundredths.
pub open spec fn sum_centi(rs: Seq<TradeReview>) -> int
    decreases rs.len(),
{
    if rs.len() == 0 {
        0
    } else {
        sum_centi(rs.drop_last()) + rs.last().overall_score_centi
    }
}

/// The trade a review is about.
pub open spec fn proj_trade_id() -> spec_fn(TradeReview) -> i64 {
    (|r: TradeReview| r.trade_id)
}

/// The distinct trades a run of reviews covers.
pub open spec fn trade_id_set(rs: Seq<TradeReview>) -> Set<i64> {
    rs.map_values(proj_trade_id()).to_set()
}

/// The reputation aggregate of `uid` over `reviews`: average overall score
/// in hundredths (0 when unreviewed, rounded toward zero) and distinct
/// reviewed-trade count.
pub open spec fn reputation_of(reviews: Seq<TradeReview>, uid: i64) -> (int, int) {
    let mine = reviews.filter(sel_reviewee(uid));
    let avg = if mine.len() == 0 {
        0
    } else {
        sum_centi(mine) / (mine.len() as int)
    };
    (avg, trade_id_set(mine).len() as int)
}

/// The fresh review row `rc` files.
pub open spec fn fresh_review(rc: ReviewForCreate, reviewer_id: i64, reviewee_id: i64, overall: i64, id: i64, now: u64) -> TradeReview {
    (TradeReview {
        id,
        trade_id: rc.trade_id,
        reviewer_id,
        reviewee_id,
        timeliness_score: rc.timeliness,
        packaging_score: rc.packaging,
        value_honesty_score: rc.value_honesty,
        state_accuracy_score: rc.state_accuracy,
        overall_score_centi: overall,
        comment: rc.comment,
        created_at: now,
    })
}

/// Selects the user row of `uid`.
pub open spec fn sel_user(uid: i64) -> spec_fn(UserRecord) -> bool {
    (|u: UserRecord| u.id == uid)
}

/// The row transform of a reputation recomputation.
pub open spec fn apply_reputation(avg: i64, total: i64) -> spec_fn(UserRecord) -> UserRecord {
    (|u: UserRecord| UserRecord { reputation_score_centi: avg, total_trades: total, ..u })
}

/// Whether all four scores of a payload are in range (0 to 5).
pub open spec fn scores_in_range(rc: ReviewForCreate) -> bool {
    &&& 0 <= rc.timeliness <= 5
    &&& 0 <= rc.packaging <= 5
    &&& 0 <= rc.value_honesty <= 5
    &&& 0 <= rc.state_accuracy <= 5
}

/// The business controller of reviews and the reputation aggregate.
pub struct ReviewBmc;

impl ReviewBmc {
    /// File a rating of the other party of a Completed trade the caller
    /// participated in, then recompute that party's reputation.
    /// Scores outside 0 to 5 are rejected up front as invalid parameters
    /// (`BadRequest`), which keeps every stored overall score in the 0-500
    /// hundredth range the reputation average is bounded by; a trade
    /// completed without an acceptor leaves no other party to rate and is
    /// also `BadRequest`; `NotFound` comes back unless a Completed trade
    /// of the caller's carries the id.
    pub fn create(ctx: &Ctx, store: &mut Store, review: ReviewForCreate, now: u64) -> (r: Result<
        i64,
        Error,
    >)
        requires
            old(store).wf(),
            old(store).next_review_id < i64::MAX,
        ensures
            final(store).wf(),
            !scores_in_range(review) ==> r == Err::<i64, Error>(Error::BadRequest) && *final(store)
                == *old(store),
            scores_in_range(review) ==> ((r matches Err(e) && e == Error::NotFound) <==> !some_row(
                old(store).trades@,
                sel_reviewable(review.trade_id, ctx.spec_user_id()),
            )),
            scores_in_range(review) ==> ((r matches Err(e) && e == Error::BadRequest) <==> some_row(
                old(store).trades@,
                sel_reviewable_no_acceptor(review.trade_id, ctx.spec_user_id()),
            )),
            scores_in_range(review) ==> ((r matches Ok(_)) <==> (some_row(
                old(store).trades@,
                sel_reviewable(review.trade_id, ctx.spec_user_id()),
            ) && !some_row(
                old(store).trades@,
                sel_reviewable_no_acceptor(review.trade_id, ctx.spec_user_id()),
            ))),
            (r matches Ok(_)) ==> exists|i: int|
                0 <= i < old(store).trades@.len() && {
                    let t = #[trigger] old(store).trades@[i];
                    &&& sel_reviewable(review.trade_id, ctx.spec_user_id())(t)
                    &&& {
                        let reviewee = if t.proposer_id == ctx.spec_user_id() {
                            t.acceptor_id.unwrap()
                        } else {
                            t.proposer_id
                        };
                        &&& (t.proposer_id == ctx.spec_user_id() ==> t.acceptor_id is Some)
                        &&& final(store).reviews@ == old(store).reviews@.push(
                            fresh_review(
                                review,
                                ctx.spec_user_id(),
                                reviewee,
                                (overall_centi(
                                    review.timeliness,
                                    review.packaging,
                                    review.value_honesty,
                                    review.state_accuracy,
                                )) as i64,
                                old(store).next_review_id,
                                now,
                            ),
                        )
                        &&& mapped_where(
                            old(store).users@,
                            final(store).users@,
                            sel_user(reviewee),
                            apply_reputation(
                                reputation_of(final(store).reviews@, reviewee).0 as i64,
                                reputation_of(final(store).reviews@, reviewee).1 as i64,
                            ),
                        )
                    }
                },
            (r matches Ok(id) ==> id == old(store).next_review_id && final(store).next_review_id
                == old(store).next_review_id + 1),
            !(r matches Ok(_)) ==> *final(store) == *old(store),
            final(store).trade_part() == old(store).trade_part(),
            final(store).tx_part() == old(store).tx_part(),
            final(store).config_part() == old(store).config_part(),
    {
        if !(0 <= review.timeliness && review.timeliness <= 5 && 0 <= review.packaging
            && review.packaging <= 5 && 0 <= review.value_honesty && review.value_honesty <= 5 && 0
            <= review.state_accuracy && review.state_accuracy <= 5) {
            return Err(Error::BadRequest);
        }
        let uid = ctx.user_id();
        let ghost pre_trades = store.trades@;
        let idx = match crate::trade::find_trade(&store.trades, review.trade_id) {
            Some(i) => i,
            None => {
                return Err(Error::NotFound);
            },
        };
        let t = &store.trades[idx];
        let participant = t.proposer_id == uid || (match t.acceptor_id {
            Some(a) => a == uid,
            None => false,
        });
        if !participant || !(t.status == TradeStatus::Completed) {
            proof {
                crate::trade::lemma_no_other_row(
                    pre_trades,
                    store.next_trade_id,
                    idx as int,
                    sel_reviewable(review.trade_id, uid as i64),
                    review.trade_id,
                );
                crate::trade::lemma_no_other_row(
                    pre_trades,
                    store.next_trade_id,
                    idx as int,
                    sel_reviewable_no_acceptor(review.trade_id, uid as i64),
                    review.trade_id,
                );
            }
            return Err(Error::NotFound);
        }
        proof {
            assert(sel_reviewable(review.trade_id, uid as i64)(pre_trades[idx as int]));
        }
        let reviewee = if t.proposer_id == uid {
            match t.acceptor_id {
                Some(a) => {
                    proof {
                        crate::trade::lemma_no_other_row(
                            pre_trades,
                            store.next_trade_id,
                            idx as int,
                            sel_reviewable_no_acceptor(review.trade_id, uid as i64),
                            review.trade_id,
                        );
                    }
                    a
                },
                None => {
                    proof {
                        assert(sel_reviewable_no_acceptor(review.trade_id, uid as i64)(
                            pre_trades[idx as int],
                        ));
                    }
                    return Err(Error::BadRequest);
                },
            }
        } else {
            proof {
                crate::trade::lemma_no_other_row(
                    pre_trades,
                    store.next_trade_id,
                    idx as int,
                    sel_reviewable_no_acceptor(review.trade_id, uid as i64),
                    review.trade_id,
                );
            }
            t.proposer_id
        };
        let overall: i64 = 20 * (review.timeliness as i64) + 25 * (review.packaging as i64) + 30
            * (review.value_honesty as i64) + 25 * (review.state_accuracy as i64);
        let id = store.next_review_id;
        store.next_review_id = id + 1;
        let row = TradeReview {
            id,
            trade_id: review.trade_id,
            reviewer_id: uid,
            reviewee_id: reviewee,
            timeliness_score: review.timeliness,
            packaging_score: review.packaging,
            value_honesty_score: review.value_honesty,
            state_accuracy_score: review.state_accuracy,
            overall_score_centi: overall,
            comment: review.comment,
            created_at: now,
        };
        store.reviews.push(row);
        Self::update_reputation(store, reviewee);
        Ok(id)
    }

    /// The ratings filed about `user_id`, ordered by creation time, newest
    /// first.
    pub fn get_for_user(store: &Store, user_id: i64) -> (r: Vec<TradeReview>)
        ensures
            r@.to_multiset() == store.reviews@.filter(sel_reviewee(user_id)).to_multiset(),
            sorted_reviews_desc(r@),
    {
        let mut out: Vec<TradeReview> = Vec::new();
        let mut i: usize = 0;
        proof {
            reveal(Seq::filter);
            assert(store.reviews@.subrange(0, 0) =~= Seq::<TradeReview>::empty());
        }
        while i < store.reviews.len()
            invariant
                i <= store.reviews@.len(),
                sorted_reviews_desc(out@),
                out@.to_multiset() == store.reviews@.subrange(0, i as int).filter(
                    sel_reviewee(user_id),
                ).to_multiset(),
            decreases store.reviews@.len() - i,
        {
            proof {
                crate::table::lemma_filter_prefix_step(
                    store.reviews@,
                    i as int,
                    sel_reviewee(user_id),
                );
            }
            let ghost prefix = store.reviews@.subrange(0, i as int).filter(
                sel_reviewee(user_id),
            );
            if store.reviews[i].reviewee_id == user_id {
                sorted_insert_review_desc(&mut out, store.reviews[i].duplicate());
                proof {
                    prefix.to_multiset_ensures();
                    assert(prefix.push(store.reviews@[i as int]).to_multiset()
                        =~= prefix.to_multiset().insert(store.reviews@[i as int]));
                }
            }
            i = i + 1;
        }
        proof {
            assert(store.reviews@.subrange(0, store.reviews@.len() as int) =~= store.reviews@);
        }
        out
    }

    /// Recompute one user's reputation aggregate from every review about
    /// them. A missing user row leaves the store unchanged.
    fn update_reputation(store: &mut Store, user_id: i64)
        requires
            old(store).wf(),
        ensures
            final(store).wf(),
            mapped_where(
                old(store).users@,
                final(store).users@,
                sel_user(user_id),
                apply_reputation(
                    reputation_of(old(store).reviews@, user_id).0 as i64,
                    reputation_of(old(store).reviews@, user_id).1 as i64,
                ),
            ),
            final(store).next_user_id == old(store).next_user_id,
            final(store).trade_part() == old(store).trade_part(),
            final(store).tx_part() == old(store).tx_part(),
            final(store).review_part() == old(store).review_part(),
            final(store).config_part() == old(store).config_part(),
    {
        let mut sum: u128 = 0;
        let mut seen: Vec<i64> = Vec::new();
        let mut count: usize = 0;
        let mut i: usize = 0;
        proof {
            reveal(Seq::filter);
            assert(store.reviews@.subrange(0, 0) =~= Seq::<TradeReview>::empty());
            assert(store.reviews@.subrange(0, 0).filter(sel_reviewee(user_id)).map_values(
                proj_trade_id(),
            ) =~= Seq::<i64>::empty());
            assert(trade_id_set(store.reviews@.subrange(0, 0).filter(sel_reviewee(user_id)))
                =~= Seq::<i64>::empty().to_set());
            assert(seen@.to_set() =~= Seq::<i64>::empty().to_set());
        }
        while i < store.reviews.len()
            invariant
                i <= store.reviews@.len(),
                old(store).wf(),
                *store == *old(store),
                count <= i,
                seen@.len() <= count,
                count == store.reviews@.subrange(0, i as int).filter(sel_reviewee(user_id)).len(),
                sum as int == sum_centi(
                    store.reviews@.subrange(0, i as int).filter(sel_reviewee(user_id)),
                ),
                sum <= count * 500,
                seen@.no_duplicates(),
                seen@.to_set() == trade_id_set(
                    store.reviews@.subrange(0, i as int).filter(sel_reviewee(user_id)),
                ),
            decreases store.reviews@.len() - i,
        {
            let ghost prefix = store.reviews@.subrange(0, i as int).filter(sel_reviewee(user_id));
            proof {
                crate::table::lemma_filter_prefix_step(
                    store.reviews@,
                    i as int,
                    sel_reviewee(user_id),
                );
            }
            let rev = &store.reviews[i];
            if rev.reviewee_id == user_id {
                proof {
                    assert(crate::store::review_scores_ok(store.reviews@[i as int]));
                    assert(prefix.push(store.reviews@[i as int]).drop_last() =~= prefix);
                    assert(prefix.push(store.reviews@[i as int]).map_values(proj_trade_id())
                        =~= prefix.map_values(proj_trade_id()).push(
                        store.reviews@[i as int].trade_id,
                    ));
                    Seq::lemma_to_set_insert_commutes(
                        prefix.map_values(proj_trade_id()),
                        store.reviews@[i as int].trade_id,
                    );
                    assert(prefix.map_values(proj_trade_id()) + seq![
                        store.reviews@[i as int].trade_id,
                    ] =~= prefix.map_values(proj_trade_id()).push(
                        store.reviews@[i as int].trade_id,
                    ));
                }
                sum = sum + (rev.overall_score_centi as u128);
                count = count + 1;
                if !seen_contains(&seen, rev.trade_id) {
                    let ghost seen_pre = seen@;
                    seen.push(rev.trade_id);
                    proof {
                        Seq::lemma_to_set_insert_commutes(
                            seen_pre,
                            store.reviews@[i as int].trade_id,
                        );
                        assert(seen_pre + seq![store.reviews@[i as int].trade_id]
                            =~= seen_pre.push(store.reviews@[i as int].trade_id));
                    }
                } else {
                    proof {
                        assert(seen@.to_set().contains(store.reviews@[i as int].trade_id));
                        assert(seen@.to_set().insert(store.reviews@[i as int].trade_id)
                            =~= seen@.to_set());
                    }
                }
            }
            i = i + 1;
        }
        proof {
            assert(store.reviews@.subrange(0, store.reviews@.len() as int) =~= store.reviews@);
        }
        let avg: i64 = if count == 0 {
            0
        } else {
            proof {
                assert(sum as int / (count as int) <= 500) by (nonlinear_arith)
                    requires
                        sum as int <= (count as int) * 500,
                        count as int >= 1,
                        sum as int >= 0,
                ;
            }
            (sum / (count as u128)) as i64
        };
        let ghost mine = store.reviews@.filter(sel_reviewee(user_id));
        proof {
            crate::store::lemma_review_len_bound(store.reviews@, store.next_review_id);
        }
        let total: i64 = count_set_size(&seen);
        proof {
            seen@.unique_seq_to_set();
        }
        let ghost pre_users = store.users@;
        match crate::user::find_user(&store.users, user_id) {
            Some(u_idx) => {
                let urow = store.users.remove(u_idx);
                let updated = UserRecord {
                    reputation_score_centi: avg,
                    total_trades: total,
                    ..urow
                };
                store.users.insert(u_idx, updated);
                proof {
                    let post = store.users@;
                    assert(post =~= pre_users.update(
                        u_idx as int,
                        apply_reputation(avg, total)(pre_users[u_idx as int]),
                    ));
                    assert forall|k: int|
                        0 <= k < pre_users.len() implies #[trigger] post[k] == (if sel_user(
                        user_id,
                    )(pre_users[k]) {
                        apply_reputation(avg, total)(pre_users[k])
                    } else {
                        pre_users[k]
                    }) by {
                        if k != u_idx as int && sel_user(user_id)(pre_users[k]) {
                            crate::store::lemma_user_id_unique(
                                pre_users,
                                store.next_user_id,
                                k,
                                u_idx as int,
                            );
                        }
                    }
                }
            },
            None => {},
        }
    }
}

/// Whether a vector of ids contains `x`.
fn seen_contains(v: &Vec<i64>, x: i64) -> (r: bool)
    ensures
        r == v@.contains(x),
{
    let mut i: usize = 0;
    while i < v.len()
        invariant
            i <= v@.len(),
            forall|k: int| 0 <= k < i ==> v@[k] != x,
        decreases v@.len() - i,
    {
        if v[i] == x {
            return true;
        }
        i = i + 1;
    }
    false
}

/// The length of an id vector small enough to count in an `i64`.
fn count_set_size(v: &Vec<i64>) -> (r: i64)
    requires
        v@.len() <= i64::MAX,
    ensures
        r == v@.len(),
{
    v.len() as i64
}

/// Sorted by creation time, newest first: the order ratings come back in.
pub open spec fn sorted_reviews_desc(s: Seq<TradeReview>) -> bool {
    forall|i: int, j: int|
        0 <= i < j < s.len() ==> (#[trigger] s[i]).created_at >= (#[trigger] s[j]).created_at
}

/// Insert `x` into a run kept sorted by creation time, newest first.
fn sorted_insert_review_desc(out: &mut Vec<TradeReview>, x: TradeReview)
    requires
        sorted_reviews_desc(old(out)@),
    ensures
        final(out)@.to_multiset() == old(out)@.to_multiset().insert(x),
        sorted_reviews_desc(final(out)@),
{
    let kx = x.created_at;
    let mut j: usize = 0;
    while j < out.len() && out[j].created_at >= kx
        invariant
            j <= out@.len(),
            out@ == old(out)@,
            kx == x.created_at,
            forall|k: int| 0 <= k < j ==> (#[trigger] out@[k]).created_at >= x.created_at,
        decreases out@.len() - j,
    {
        j = j + 1;
    }
    let ghost pre = out@;
    let ghost pos = j as int;
    out.insert(j, x);
    proof {
        vstd::seq_lib::to_multiset_insert(pre, pos, x);
        pre.insert_ensures(pos, x);
        assert forall|a: int, b: int|
            0 <= a < b < out@.len() implies (#[trigger] out@[a]).created_at >= (
        #[trigger] out@[b]).created_at by {
            if b < pos {
                assert(out@[a] == pre[a] && out@[b] == pre[b]);
            } else if b == pos {
                assert(out@[a] == pre[a] && out@[b] == x);
            } else {
                // b lands right of the insertion point, so pre[b - 1] is a
                // suffix element, older than x and everything before it.
                assert(out@[b] == pre[b - 1]);
                assert(pos < pre.len());
                assert(pre[pos].created_at < x.created_at);
                if b - 1 > pos {
                    assert(pre[pos].created_at >= pre[b - 1].created_at);
                }
                if a < pos {
                    assert(out@[a] == pre[a]);
                    assert(pre[a].created_at >= x.created_at);
                } else if a == pos {
                    assert(out@[a] == x);
                } else {
                    assert(out@[a] == pre[a - 1]);
                    assert(pre[a - 1].created_at >= pre[b - 1].created_at);
                }
            }
        }
    }
}

impl TradeReview {
    /// A field-by-field copy, equal to the original.
    pub fn duplicate(&self) -> (r: TradeReview)
        ensures
            r == *self,
    {
        TradeReview {
            id: self.id,
            trade_id: self.trade_id,
            reviewer_id: self.reviewer_id,
            reviewee_id: self.reviewee_id,
            timeliness_score: self.timeliness_score,
            packaging_score: self.packaging_score,
            value_honesty_score: self.value_honesty_score,
            state_accuracy_score: self.state_accuracy_score,
            overall_score_centi: self.overall_score_centi,
            comment: crate::dup::dup_opt_string(&self.comment),
            created_at: self.created_at,
        }
    }
}

} // verus!
