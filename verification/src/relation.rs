//! Facts about choosing rows of a relation.

use vstd::prelude::*;

verus! {

/// The first row that satisfies `pred`, if any does.
pub open spec fn first_match<A>(rows: Seq<A>, pred: spec_fn(A) -> bool) -> Option<A> {
    let found = rows.filter(pred);
    if found.len() > 0 {
        Some(found[0])
    } else {
        None
    }
}

/// Whether some row satisfies `pred`.
pub open spec fn any_match<A>(rows: Seq<A>, pred: spec_fn(A) -> bool) -> bool {
    exists|i: int| 0 <= i < rows.len() && pred(#[trigger] rows[i])
}

/// Choosing among one row more either keeps that row or does not.
pub proof fn lemma_filter_step<A>(rows: Seq<A>, pred: spec_fn(A) -> bool, i: int)
    requires
        0 <= i < rows.len(),
    ensures
        rows.take(i + 1).filter(pred) == if pred(rows[i]) {
            rows.take(i).filter(pred).push(rows[i])
        } else {
            rows.take(i).filter(pred)
        },
{
    reveal(Seq::filter);
    assert(rows.take(i + 1).drop_last() =~= rows.take(i));
    assert(rows.take(i + 1).last() == rows[i]);
}

/// Nothing is chosen among no rows.
pub proof fn lemma_filter_none<A>(rows: Seq<A>, pred: spec_fn(A) -> bool)
    ensures
        rows.take(0).filter(pred) == Seq::<A>::empty(),
{
    reveal(Seq::filter);
    assert(rows.take(0).len() == 0);
    assert(rows.take(0).filter(pred) =~= Seq::<A>::empty());
}

/// What is chosen among the first rows stays in front when more rows follow.
pub proof fn lemma_filter_prefix<A>(rows: Seq<A>, pred: spec_fn(A) -> bool, n: int, m: int)
    requires
        0 <= n <= m <= rows.len(),
    ensures
        rows.take(n).filter(pred).len() <= rows.take(m).filter(pred).len(),
        forall|k: int|
            0 <= k < rows.take(n).filter(pred).len() ==> rows.take(m).filter(pred)[k]
                == #[trigger] rows.take(n).filter(pred)[k],
    decreases m - n,
{
    if n < m {
        lemma_filter_prefix(rows, pred, n, m - 1);
        lemma_filter_step(rows, pred, m - 1);
    }
}

/// Every chosen row satisfies `pred` and is one of the rows; every row that
/// satisfies `pred` is chosen.
pub proof fn lemma_filter_members<A>(rows: Seq<A>, pred: spec_fn(A) -> bool)
    ensures
        forall|x: A| #[trigger] rows.filter(pred).contains(x) <==> (rows.contains(x) && pred(x)),
    decreases rows.len(),
{
    reveal(Seq::filter);
    if rows.len() > 0 {
        let head = rows.drop_last();
        let last = rows.last();
        lemma_filter_members(head, pred);
        assert forall|x: A| #[trigger]
            rows.filter(pred).contains(x) <==> (rows.contains(x) && pred(x)) by {
            let out = rows.filter(pred);
            let sub = head.filter(pred);
            assert(out == if pred(last) {
                sub.push(last)
            } else {
                sub
            });
            if out.contains(x) {
                let k = choose|k: int| 0 <= k < out.len() && out[k] == x;
                if pred(last) && k == sub.len() {
                    assert(rows[rows.len() - 1] == x);
                } else {
                    assert(0 <= k < sub.len());
                    assert(sub[k] == x);
                    assert(sub.contains(x));
                    assert(head.contains(x) && pred(x));
                    let j = choose|j: int| 0 <= j < head.len() && head[j] == x;
                    assert(rows[j] == x);
                }
            }
            if rows.contains(x) && pred(x) {
                let j = choose|j: int| 0 <= j < rows.len() && rows[j] == x;
                if j == rows.len() - 1 {
                    assert(out[sub.len() as int] == x);
                } else {
                    assert(head[j] == x);
                    assert(head.contains(x));
                    assert(sub.contains(x));
                    let k = choose|k: int| 0 <= k < sub.len() && sub[k] == x;
                    assert(out[k] == x);
                }
            }
        }
    }
}

/// Where no row before `i` satisfies `pred`, nothing is chosen before `i`.
pub proof fn lemma_filter_skipped<A>(rows: Seq<A>, pred: spec_fn(A) -> bool, i: int)
    requires
        0 <= i <= rows.len(),
        forall|j: int| 0 <= j < i ==> !pred(#[trigger] rows[j]),
    ensures
        rows.take(i).filter(pred).len() == 0,
    decreases i,
{
    if i == 0 {
        lemma_filter_none(rows, pred);
    } else {
        lemma_filter_skipped(rows, pred, i - 1);
        lemma_filter_step(rows, pred, i - 1);
    }
}

/// The first row that satisfies `pred` is the first match.
pub proof fn lemma_first_match_at<A>(rows: Seq<A>, pred: spec_fn(A) -> bool, i: int)
    requires
        0 <= i < rows.len(),
        pred(rows[i]),
        forall|j: int| 0 <= j < i ==> !pred(#[trigger] rows[j]),
    ensures
        first_match(rows, pred) == Some(rows[i]),
        any_match(rows, pred),
{
    lemma_filter_skipped(rows, pred, i);
    lemma_filter_step(rows, pred, i);
    lemma_filter_prefix(rows, pred, i + 1, rows.len() as int);
    assert(rows.take(rows.len() as int) =~= rows);
    assert(rows.take(i + 1).filter(pred)[0] == rows[i]);
}

/// Where no row satisfies `pred` there is no first match.
pub proof fn lemma_first_match_none<A>(rows: Seq<A>, pred: spec_fn(A) -> bool)
    requires
        forall|j: int| 0 <= j < rows.len() ==> !pred(#[trigger] rows[j]),
    ensures
        first_match(rows, pred).is_none(),
        !any_match(rows, pred),
{
    lemma_filter_skipped(rows, pred, rows.len() as int);
    assert(rows.take(rows.len() as int) =~= rows);
}

/// There is a first match exactly where some row satisfies `pred`, and the
/// first match satisfies `pred`.
pub proof fn lemma_first_match_is_some<A>(rows: Seq<A>, pred: spec_fn(A) -> bool)
    ensures
        first_match(rows, pred).is_some() <==> any_match(rows, pred),
        first_match(rows, pred).is_some() ==> pred(first_match(rows, pred).unwrap())
            && rows.contains(first_match(rows, pred).unwrap()),
{
    lemma_filter_members(rows, pred);
    let found = rows.filter(pred);
    if found.len() > 0 {
        assert(found.contains(found[0]));
        let j = choose|j: int| 0 <= j < rows.len() && rows[j] == found[0];
        assert(pred(rows[j]));
    }
    if any_match(rows, pred) {
        let i = choose|i: int| 0 <= i < rows.len() && pred(#[trigger] rows[i]);
        assert(rows.contains(rows[i]));
        assert(found.contains(rows[i]));
    }
}

/// No two rows have the same key.
pub open spec fn distinct_by<A, K>(rows: Seq<A>, key: spec_fn(A) -> K) -> bool {
    forall|i: int, j: int|
        0 <= i < j < rows.len() ==> key(#[trigger] rows[i]) != key(#[trigger] rows[j])
}

/// The row at `i` is the first whose key is that of an earlier row.
pub open spec fn first_repeat<A, K>(rows: Seq<A>, key: spec_fn(A) -> K, i: int) -> bool {
    &&& 0 <= i < rows.len()
    &&& distinct_by(rows.take(i), key)
    &&& exists|j: int| 0 <= j < i && key(#[trigger] rows[j]) == key(rows[i])
}

/// Rows chosen among rows of different keys have different keys.
pub proof fn lemma_filter_distinct<A, K>(
    rows: Seq<A>,
    pred: spec_fn(A) -> bool,
    key: spec_fn(A) -> K,
)
    requires
        distinct_by(rows, key),
    ensures
        distinct_by(rows.filter(pred), key),
    decreases rows.len(),
{
    reveal(Seq::filter);
    if rows.len() > 0 {
        let head = rows.drop_last();
        let last = rows.last();
        assert(distinct_by(head, key)) by {
            assert forall|i: int, j: int| 0 <= i < j < head.len() implies key(
                #[trigger] head[i],
            ) != key(#[trigger] head[j]) by {
                assert(head[i] == rows[i] && head[j] == rows[j]);
            }
        }
        lemma_filter_distinct(head, pred, key);
        lemma_filter_members(head, pred);
        let sub = head.filter(pred);
        let out = rows.filter(pred);
        assert forall|i: int, j: int| 0 <= i < j < out.len() implies key(#[trigger] out[i]) != key(
            #[trigger] out[j],
        ) by {
            if j < sub.len() {
                assert(out[i] == sub[i] && out[j] == sub[j]);
            } else {
                assert(out[j] == last);
                assert(out[i] == sub[i]);
                assert(sub.contains(sub[i]));
                let k = choose|k: int| 0 <= k < head.len() && head[k] == sub[i];
                assert(rows[k] == sub[i] && rows[rows.len() - 1] == last);
            }
        }
    }
}

/// A row of a new key behind rows of different keys leaves the keys
/// different.
pub proof fn lemma_push_distinct<A, K>(rows: Seq<A>, row: A, key: spec_fn(A) -> K)
    requires
        distinct_by(rows, key),
        forall|i: int| 0 <= i < rows.len() ==> key(#[trigger] rows[i]) != key(row),
    ensures
        distinct_by(rows.push(row), key),
{
    let out = rows.push(row);
    assert forall|i: int, j: int| 0 <= i < j < out.len() implies key(#[trigger] out[i]) != key(
        #[trigger] out[j],
    ) by {
        assert(out[i] == rows[i]);
        if j < rows.len() {
            assert(out[j] == rows[j]);
        }
    }
}

} // verus!
