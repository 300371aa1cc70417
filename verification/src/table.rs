//! Spec vocabulary for table-shaped sequences: conditional row updates,
//! row removal, and the lemmas that connect them to `Seq::filter`.

use vstd::prelude::*;

verus! {

/// Some row of the table is selected by `sel` — the shape of a conditional
/// statement's "rows affected > 0".
pub open spec fn some_row<A>(rows: Seq<A>, sel: spec_fn(A) -> bool) -> bool {
    exists|i: int| 0 <= i < rows.len() && sel(#[trigger] rows[i])
}

/// `post` is `pre` with `f` applied to every row selected by `sel` and all
/// other rows unchanged — the shape of a conditional SQL `UPDATE`.
pub open spec fn mapped_where<A>(pre: Seq<A>, post: Seq<A>, sel: spec_fn(A) -> bool, f: spec_fn(A) -> A) -> bool {
    &&& post.len() == pre.len()
    &&& forall|i: int|
        0 <= i < pre.len() ==> #[trigger] post[i] == (if sel(pre[i]) {
            f(pre[i])
        } else {
            pre[i]
        })
}

/// `post` is `pre` with the rows selected by `sel` removed — the shape of a
/// conditional SQL `DELETE`.
pub open spec fn removed_where<A>(pre: Seq<A>, post: Seq<A>, sel: spec_fn(A) -> bool) -> bool {
    post == pre.filter((|a: A| !sel(a)))
}

/// A sequence each of whose elements passes `pred` filters to itself.
pub proof fn lemma_filter_all_pass<A>(s: Seq<A>, pred: spec_fn(A) -> bool)
    requires
        forall|i: int| 0 <= i < s.len() ==> pred(#[trigger] s[i]),
    ensures
        s.filter(pred) == s,
    decreases s.len(),
{
    reveal(Seq::filter);
    if s.len() > 0 {
        lemma_filter_all_pass(s.drop_last(), pred);
        assert(s.drop_last().push(s.last()) =~= s);
    }
}

/// Removing the single selected row at `idx` from a table none of whose
/// other rows is selected yields exactly `filter(!sel)`.
pub proof fn lemma_remove_single_selected<A>(pre: Seq<A>, idx: int, sel: spec_fn(A) -> bool)
    requires
        0 <= idx < pre.len(),
        sel(pre[idx]),
        forall|i: int| 0 <= i < pre.len() && i != idx ==> !sel(#[trigger] pre[i]),
    ensures
        removed_where(pre, pre.remove(idx), sel),
{
    let keep = (|a: A| !sel(a));
    let left = pre.subrange(0, idx);
    let mid = pre.subrange(idx, idx + 1);
    let right = pre.subrange(idx + 1, pre.len() as int);
    assert(pre =~= left + mid + right);
    Seq::filter_distributes_over_add(left + mid, right, keep);
    Seq::filter_distributes_over_add(left, mid, keep);
    lemma_filter_all_pass(left, keep);
    lemma_filter_all_pass(right, keep);
    reveal(Seq::filter);
    assert(mid.len() == 1);
    assert(mid.last() == pre[idx]);
    assert(mid.drop_last() =~= Seq::<A>::empty());
    assert(mid.drop_last().filter(keep) == mid.drop_last());
    assert(mid.filter(keep) =~= Seq::<A>::empty());
    assert(pre.remove(idx) =~= left + right);
    assert(pre.filter(keep) =~= pre.remove(idx));
}

/// If no row is selected, a conditional delete leaves the table unchanged.
pub proof fn lemma_remove_none_selected<A>(pre: Seq<A>, sel: spec_fn(A) -> bool)
    requires
        forall|i: int| 0 <= i < pre.len() ==> !sel(#[trigger] pre[i]),
    ensures
        removed_where(pre, pre, sel),
{
    lemma_filter_all_pass(pre, (|a: A| !sel(a)));
}

/// One step of a forward filtering collection loop: extending the scanned
/// prefix by one element extends the filtered prefix by that element when it
/// passes.
pub proof fn lemma_filter_prefix_step<A>(s: Seq<A>, i: int, pred: spec_fn(A) -> bool)
    requires
        0 <= i < s.len(),
    ensures
        s.subrange(0, i + 1).filter(pred) == (if pred(s[i]) {
            s.subrange(0, i).filter(pred).push(s[i])
        } else {
            s.subrange(0, i).filter(pred)
        }),
{
    reveal(Seq::filter);
    let ext = s.subrange(0, i + 1);
    assert(ext.drop_last() =~= s.subrange(0, i));
    assert(ext.last() == s[i]);
}

} // verus!
