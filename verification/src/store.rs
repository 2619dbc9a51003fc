//! A model of the durable store's upsert semantics: append-only record
//! types insert and ignore conflicts on their key; the asset ledger merges
//! field-wise by UTXO identifier; account aggregates merge additively by
//! address. Creation and deletion of a UTXO can be processed by different
//! workers in either order, so the correctness of the pipeline rests on the
//! laws proved here: applying a batch twice changes nothing, and a create
//! and a delete of the same key commute.

use vstd::prelude::*;
use vstd::seq_lib::*;

use crate::records::{Account, AccountV, AssetStatus, Assets, AssetsV, Block, BlockV, Call, CallV,
    Coinbase, CoinbaseV, Contract, ContractV, Transaction, TransactionV};
use crate::model::clone_opt_string;

verus! {

/// Whether some row carries key `k`.
pub open spec fn has_key<R>(rows: Seq<R>, key: spec_fn(R) -> Seq<char>, k: Seq<char>) -> bool {
    exists|i: int| 0 <= i < rows.len() && key(#[trigger] rows[i]) == k
}

/// The first row carrying key `k`, by position.
pub open spec fn index_of_key<R>(rows: Seq<R>, key: spec_fn(R) -> Seq<char>, k: Seq<char>) -> Option<
    int,
>
    decreases rows.len(),
{
    if rows.len() == 0 {
        None
    } else if key(rows.first()) == k {
        Some(0)
    } else {
        match index_of_key(rows.drop_first(), key, k) {
            Some(j) => Some(j + 1),
            None => None,
        }
    }
}

pub proof fn lemma_index_of_key_props<R>(rows: Seq<R>, key: spec_fn(R) -> Seq<char>, k: Seq<char>)
    ensures
        match index_of_key(rows, key, k) {
            Some(j) => 0 <= j < rows.len() && key(rows[j]) == k && (forall|m: int|
                0 <= m < j ==> key(#[trigger] rows[m]) != k),
            None => forall|m: int| 0 <= m < rows.len() ==> key(#[trigger] rows[m]) != k,
        },
    decreases rows.len(),
{
    if rows.len() > 0 && key(rows.first()) != k {
        lemma_index_of_key_props(rows.drop_first(), key, k);
        assert forall|m: int| 1 <= m < rows.len() implies rows.drop_first()[m - 1] == rows[m] by {}
    }
}

/// An update that keeps the row's key in place leaves every lookup where it
/// was.
pub proof fn lemma_index_of_key_update<R>(
    rows: Seq<R>,
    key: spec_fn(R) -> Seq<char>,
    k: Seq<char>,
    j: int,
    v: R,
)
    requires
        0 <= j < rows.len(),
        key(v) == key(rows[j]),
    ensures
        index_of_key(rows.update(j, v), key, k) == index_of_key(rows, key, k),
    decreases rows.len(),
{
    if rows.len() > 0 {
        if j == 0 {
            assert(rows.update(j, v).first() == v);
            assert(rows.update(j, v).drop_first() =~= rows.drop_first());
        } else {
            assert(rows.update(j, v).first() == rows.first());
            assert(rows.update(j, v).drop_first() =~= rows.drop_first().update(j - 1, v));
            lemma_index_of_key_update(rows.drop_first(), key, k, j - 1, v);
        }
    }
}

/// Appending a row of another key leaves every lookup unchanged.
pub proof fn lemma_index_of_key_push_other<R>(
    rows: Seq<R>,
    key: spec_fn(R) -> Seq<char>,
    k: Seq<char>,
    r: R,
)
    requires
        key(r) != k,
    ensures
        index_of_key(rows.push(r), key, k) == index_of_key(rows, key, k),
    decreases rows.len(),
{
    if rows.len() == 0 {
        assert(rows.push(r).len() == 1);
        assert(rows.push(r).first() == r);
        assert(rows.push(r).drop_first() =~= Seq::<R>::empty());
        assert(index_of_key(Seq::<R>::empty(), key, k) is None);
        assert(index_of_key(rows.push(r), key, k) is None);
        assert(index_of_key(rows, key, k) is None);
    } else {
        assert(rows.push(r).first() == rows.first());
        assert(rows.push(r).drop_first() =~= rows.drop_first().push(r));
        lemma_index_of_key_push_other(rows.drop_first(), key, k, r);
        if key(rows.first()) == k {
            assert(index_of_key(rows.push(r), key, k) == Some(0int));
            assert(index_of_key(rows, key, k) == Some(0int));
        } else {
            assert(index_of_key(rows.push(r), key, k) == (match index_of_key(
                rows.drop_first().push(r),
                key,
                k,
            ) {
                Some(j) => Some(j + 1),
                None => None::<int>,
            }));
            assert(index_of_key(rows, key, k) == (match index_of_key(rows.drop_first(), key, k) {
                Some(j) => Some(j + 1),
                None => None::<int>,
            }));
        }
    }
}

/// Appending a row with a fresh key makes it the one found.
pub proof fn lemma_index_of_key_push_new<R>(rows: Seq<R>, key: spec_fn(R) -> Seq<char>, r: R)
    requires
        index_of_key(rows, key, key(r)) is None,
    ensures
        index_of_key(rows.push(r), key, key(r)) == Some(rows.len() as int),
    decreases rows.len(),
{
    if rows.len() == 0 {
        assert(rows.push(r).first() == r);
    } else {
        assert(rows.push(r).first() == rows.first());
        assert(rows.push(r).drop_first() =~= rows.drop_first().push(r));
        lemma_index_of_key_push_new(rows.drop_first(), key, r);
    }
}

/// Insert unless the key is already present: the conflict-ignore upsert of
/// the append-only record types.
pub open spec fn insert_ignore<R>(rows: Seq<R>, key: spec_fn(R) -> Seq<char>, r: R) -> Seq<R> {
    if has_key(rows, key, key(r)) {
        rows
    } else {
        rows.push(r)
    }
}

/// A batch of conflict-ignore upserts, applied in order.
pub open spec fn apply_ignore<R>(rows: Seq<R>, key: spec_fn(R) -> Seq<char>, recs: Seq<R>) -> Seq<R>
    decreases recs.len(),
{
    if recs.len() == 0 {
        rows
    } else {
        insert_ignore(apply_ignore(rows, key, recs.drop_last()), key, recs.last())
    }
}

/// After a batch of conflict-ignore upserts, every record's key is present.
pub proof fn lemma_apply_ignore_has_keys<R>(
    rows: Seq<R>,
    key: spec_fn(R) -> Seq<char>,
    recs: Seq<R>,
)
    ensures
        forall|j: int|
            0 <= j < recs.len() ==> has_key(apply_ignore(rows, key, recs), key, key(
                #[trigger] recs[j],
            )),
    decreases recs.len(),
{
    if recs.len() > 0 {
        lemma_apply_ignore_has_keys(rows, key, recs.drop_last());
        let mid = apply_ignore(rows, key, recs.drop_last());
        let last = recs.last();
        let out = apply_ignore(rows, key, recs);
        assert forall|j: int| 0 <= j < recs.len() implies has_key(out, key, key(#[trigger] recs[j]))
        by {
            if j < recs.len() - 1 {
                assert(recs.drop_last()[j] == recs[j]);
                assert(has_key(mid, key, key(recs[j])));
                if !has_key(mid, key, key(last)) {
                    let i = choose|i: int|
                        0 <= i < mid.len() && key(#[trigger] mid[i]) == key(recs[j]);
                    assert(key(mid.push(last)[i]) == key(recs[j]));
                }
            } else {
                if has_key(mid, key, key(last)) {
                    let i = choose|i: int| 0 <= i < mid.len() && key(#[trigger] mid[i]) == key(last);
                    assert(key(out[i]) == key(last));
                } else {
                    assert(out == mid.push(last));
                    assert(key(out[mid.len() as int]) == key(last));
                }
            }
        }
    }
}

/// A batch whose keys are all present does nothing.
pub proof fn lemma_apply_ignore_noop<R>(rows: Seq<R>, key: spec_fn(R) -> Seq<char>, recs: Seq<R>)
    requires
        forall|j: int| 0 <= j < recs.len() ==> has_key(rows, key, key(#[trigger] recs[j])),
    ensures
        apply_ignore(rows, key, recs) == rows,
    decreases recs.len(),
{
    if recs.len() > 0 {
        assert forall|j: int|
            0 <= j < recs.drop_last().len() implies has_key(rows, key, key(
            #[trigger] recs.drop_last()[j],
        )) by {
            assert(recs.drop_last()[j] == recs[j]);
        }
        lemma_apply_ignore_noop(rows, key, recs.drop_last());
        assert(has_key(rows, key, key(recs.last())));
    }
}

/// Idempotence of the conflict-ignore upsert: applying the same batch twice
/// yields the row set of applying it once.
pub proof fn lemma_apply_ignore_twice<R>(rows: Seq<R>, key: spec_fn(R) -> Seq<char>, recs: Seq<R>)
    ensures
        apply_ignore(apply_ignore(rows, key, recs), key, recs) == apply_ignore(rows, key, recs),
{
    lemma_apply_ignore_has_keys(rows, key, recs);
    lemma_apply_ignore_noop(apply_ignore(rows, key, recs), key, recs);
}

/// The merge upsert: an incoming record merges into the row of its key, or
/// is inserted whole where no row exists yet (insert-or-update, never
/// insert-then-require-prior-row).
pub open spec fn upsert_merge<R>(
    rows: Seq<R>,
    key: spec_fn(R) -> Seq<char>,
    merge: spec_fn(R, R) -> R,
    r: R,
) -> Seq<R> {
    match index_of_key(rows, key, key(r)) {
        Some(j) => rows.update(j, merge(rows[j], r)),
        None => rows.push(r),
    }
}

/// A batch of merge upserts, applied in order.
pub open spec fn apply_merge<R>(
    rows: Seq<R>,
    key: spec_fn(R) -> Seq<char>,
    merge: spec_fn(R, R) -> R,
    recs: Seq<R>,
) -> Seq<R>
    decreases recs.len(),
{
    if recs.len() == 0 {
        rows
    } else {
        upsert_merge(apply_merge(rows, key, merge, recs.drop_last()), key, merge, recs.last())
    }
}


/// A key-stable merge: the merged row keeps the key of the existing one.
pub open spec fn key_stable<R>(key: spec_fn(R) -> Seq<char>, merge: spec_fn(R, R) -> R) -> bool {
    forall|x: R, r: R| key(#[trigger] merge(x, r)) == key(x)
}

/// The records of a batch that target key `k`.
pub open spec fn key_is<R>(key: spec_fn(R) -> Seq<char>, k: Seq<char>) -> spec_fn(R) -> bool {
    |r: R| key(r) == k
}

pub open spec fn recs_for_key<R>(recs: Seq<R>, key: spec_fn(R) -> Seq<char>, k: Seq<char>) -> Seq<
    R,
> {
    recs.filter(key_is(key, k))
}

/// A row after absorbing a batch of same-key records, oldest first.
pub open spec fn fold_merge<R>(x: R, merge: spec_fn(R, R) -> R, rs: Seq<R>) -> R
    decreases rs.len(),
{
    if rs.len() == 0 {
        x
    } else {
        merge(fold_merge(x, merge, rs.drop_last()), rs.last())
    }
}

/// The row a batch of same-key records builds from nothing: the first
/// record inserted whole, the rest merged in.
pub open spec fn fold_first<R>(merge: spec_fn(R, R) -> R, rs: Seq<R>) -> R
    recommends
        rs.len() > 0,
{
    fold_merge(rs.first(), merge, rs.drop_first())
}

pub proof fn lemma_fold_merge_push<R>(x: R, merge: spec_fn(R, R) -> R, rs: Seq<R>, r: R)
    ensures
        fold_merge(x, merge, rs.push(r)) == merge(fold_merge(x, merge, rs), r),
{
    assert(rs.push(r).drop_last() =~= rs);
    assert(rs.push(r).last() == r);
}

pub proof fn lemma_fold_first_push<R>(merge: spec_fn(R, R) -> R, rs: Seq<R>, r: R)
    requires
        rs.len() > 0,
    ensures
        fold_first(merge, rs.push(r)) == merge(fold_first(merge, rs), r),
{
    assert(rs.push(r).first() == rs.first());
    assert(rs.push(r).drop_first() =~= rs.drop_first().push(r));
    lemma_fold_merge_push(rs.first(), merge, rs.drop_first(), r);
}

/// A longer row set with the same keys along the shorter one's prefix finds
/// every key of the shorter at the same place.
pub proof fn lemma_index_prefix_preserved<R>(
    a: Seq<R>,
    b: Seq<R>,
    key: spec_fn(R) -> Seq<char>,
    k: Seq<char>,
)
    requires
        a.len() <= b.len(),
        forall|p: int| 0 <= p < a.len() ==> key(#[trigger] b[p]) == key(a[p]),
        index_of_key(a, key, k) is Some,
    ensures
        index_of_key(b, key, k) == index_of_key(a, key, k),
    decreases a.len(),
{
    assert(a.len() > 0);
    assert(key(b.first()) == key(a.first()));
    if key(a.first()) == k {
    } else {
        assert forall|p: int|
            0 <= p < a.drop_first().len() implies key(#[trigger] b.drop_first()[p]) == key(
            a.drop_first()[p],
        ) by {
            assert(b.drop_first()[p] == b[p + 1]);
            assert(a.drop_first()[p] == a[p + 1]);
        }
        assert(index_of_key(a, key, k) == (match index_of_key(a.drop_first(), key, k) {
            Some(t) => Some(t + 1),
            None => None::<int>,
        }));
        assert(index_of_key(b, key, k) == (match index_of_key(b.drop_first(), key, k) {
            Some(t) => Some(t + 1),
            None => None::<int>,
        }));
        match index_of_key(a, key, k) {
            Some(j) => {
                assert(index_of_key(a.drop_first(), key, k) == Some(j - 1));
                lemma_index_prefix_preserved(a.drop_first(), b.drop_first(), key, k);
            },
            None => {
                assert(false);
            },
        }
    }
}

/// A nonempty key-filtered batch names at least one record with that key.
pub proof fn lemma_recs_for_key_nonempty<R>(
    recs: Seq<R>,
    key: spec_fn(R) -> Seq<char>,
    k: Seq<char>,
)
    requires
        recs_for_key(recs, key, k).len() > 0,
    ensures
        exists|j: int| 0 <= j < recs.len() && key(#[trigger] recs[j]) == k,
{
    let filtered = recs_for_key(recs, key, k);
    let e = filtered[0];
    assert(filtered.contains(e));
    recs.lemma_filter_contains_rev(key_is(key, k), e);
    recs.lemma_filter_pred(key_is(key, k), 0);
    assert(key(e) == k);
    let j = choose|j: int| 0 <= j < recs.len() && recs[j] == e;
    assert(key(recs[j]) == k);
}

pub proof fn lemma_recs_for_key_push<R>(
    pre: Seq<R>,
    key: spec_fn(R) -> Seq<char>,
    r: R,
    k2: Seq<char>,
)
    ensures
        recs_for_key(pre.push(r), key, k2) == (if key(r) == k2 {
            recs_for_key(pre, key, k2).push(r)
        } else {
            recs_for_key(pre, key, k2)
        }),
{
    pre.lemma_filter_push(r, key_is(key, k2));
    assert(key_is(key, k2)(r) == (key(r) == k2));
}

/// How a batch of merge upserts transforms the row set, position by
/// position: the row that leads its key absorbs the key's records in
/// order; every other existing row is untouched; and each key new to the
/// set gains exactly one row, holding its records folded from the first.
pub proof fn lemma_apply_merge_positions<R>(
    rows: Seq<R>,
    key: spec_fn(R) -> Seq<char>,
    merge: spec_fn(R, R) -> R,
    recs: Seq<R>,
)
    requires
        key_stable(key, merge),
    ensures
        apply_merge(rows, key, merge, recs).len() >= rows.len(),
        forall|p: int|
            0 <= p < rows.len() ==> key(#[trigger] apply_merge(rows, key, merge, recs)[p]) == key(
                rows[p],
            ),
        forall|p: int|
            0 <= p < rows.len() ==> #[trigger] apply_merge(rows, key, merge, recs)[p] == (
            if index_of_key(rows, key, key(rows[p])) == Some(p) {
                fold_merge(rows[p], merge, recs_for_key(recs, key, key(rows[p])))
            } else {
                rows[p]
            }),
        forall|p: int|
            rows.len() <= p < apply_merge(rows, key, merge, recs).len() ==> {
                &&& index_of_key(rows, key, key(#[trigger] apply_merge(rows, key, merge, recs)[p]))
                    is None
                &&& recs_for_key(recs, key, key(apply_merge(rows, key, merge, recs)[p])).len() > 0
                &&& apply_merge(rows, key, merge, recs)[p] == fold_first(
                    merge,
                    recs_for_key(recs, key, key(apply_merge(rows, key, merge, recs)[p])),
                )
                &&& index_of_key(
                    apply_merge(rows, key, merge, recs),
                    key,
                    key(apply_merge(rows, key, merge, recs)[p]),
                ) == Some(p)
            },
        forall|j: int|
            0 <= j < recs.len() ==> index_of_key(
                apply_merge(rows, key, merge, recs),
                key,
                key(#[trigger] recs[j]),
            ) is Some,
    decreases recs.len(),
{
    if recs.len() == 0 {
        assert(apply_merge(rows, key, merge, recs) == rows);
        assert forall|p: int|
            0 <= p < rows.len() implies #[trigger] apply_merge(rows, key, merge, recs)[p] == (
        if index_of_key(rows, key, key(rows[p])) == Some(p) {
            fold_merge(rows[p], merge, recs_for_key(recs, key, key(rows[p])))
        } else {
            rows[p]
        }) by {
            assert(recs_for_key(recs, key, key(rows[p])).len() == 0);
        }
    } else {
        let pre = recs.drop_last();
        let last = recs.last();
        let mid = apply_merge(rows, key, merge, pre);
        let out = apply_merge(rows, key, merge, recs);
        lemma_apply_merge_positions(rows, key, merge, pre);
        assert(recs =~= pre.push(last));
        assert(out == upsert_merge(mid, key, merge, last));
        let k = key(last);
        lemma_index_of_key_props(mid, key, k);
        match index_of_key(mid, key, k) {
            Some(i) => {
                assert(0 <= i < mid.len());
                assert(key(mid[i]) == k);
                let merged = merge(mid[i], last);
                assert(key(merged) == k);
                assert(out == mid.update(i, merged));
                assert(out.len() == mid.len());
                assert forall|k2: Seq<char>|
                    #[trigger] index_of_key(out, key, k2) == index_of_key(mid, key, k2) by {
                    lemma_index_of_key_update(mid, key, k2, i, merged);
                }
                // Where the updated position lies relative to the original rows.
                if i < rows.len() {
                    assert(key(rows[i]) == k);
                    lemma_index_of_key_props(rows, key, k);
                    match index_of_key(rows, key, k) {
                        Some(q) => {
                            lemma_index_prefix_preserved(rows, mid, key, k);
                            assert(q == i);
                        },
                        None => {
                            assert(key(rows[i]) != k);
                            assert(false);
                        },
                    }
                }
                // Keys along the original prefix are unchanged.
                assert forall|p: int|
                    0 <= p < rows.len() implies key(#[trigger] out[p]) == key(rows[p]) by {
                    if p == i {
                        assert(out[p] == merged);
                    } else {
                        assert(out[p] == mid[p]);
                    }
                }
                // The fold at each original position.
                assert forall|p: int|
                    0 <= p < rows.len() implies #[trigger] out[p] == (if index_of_key(
                    rows,
                    key,
                    key(rows[p]),
                ) == Some(p) {
                    fold_merge(rows[p], merge, recs_for_key(recs, key, key(rows[p])))
                } else {
                    rows[p]
                }) by {
                    let kp = key(rows[p]);
                    lemma_recs_for_key_push(pre, key, last, kp);
                    if index_of_key(rows, key, kp) == Some(p) {
                        if p == i {
                            assert(kp == k);
                            assert(mid[i] == fold_merge(
                                rows[i],
                                merge,
                                recs_for_key(pre, key, k),
                            ));
                            lemma_fold_merge_push(rows[i], merge, recs_for_key(pre, key, k), last);
                            assert(out[p] == fold_merge(rows[p], merge, recs_for_key(recs, key, kp)));
                        } else {
                            assert(out[p] == mid[p]);
                            if kp == k {
                                lemma_index_prefix_preserved(rows, mid, key, k);
                                assert(index_of_key(mid, key, k) == Some(p));
                                assert(false);
                            }
                            assert(recs_for_key(recs, key, kp) == recs_for_key(pre, key, kp));
                        }
                    } else {
                        if p == i {
                            assert(i < rows.len());
                            assert(index_of_key(rows, key, k) == Some(i));
                            assert(kp == key(rows[i]));
                            assert(kp == k);
                            assert(false);
                        }
                        assert(out[p] == mid[p]);
                        assert(out[p] == rows[p]);
                    }
                }
                // New rows beyond the original prefix.
                assert forall|p: int|
                    rows.len() <= p < out.len() implies {
                    &&& index_of_key(rows, key, key(#[trigger] out[p])) is None
                    &&& recs_for_key(recs, key, key(out[p])).len() > 0
                    &&& out[p] == fold_first(merge, recs_for_key(recs, key, key(out[p])))
                    &&& index_of_key(out, key, key(out[p])) == Some(p)
                } by {
                    if p == i {
                        let kp = key(out[p]);
                        assert(out[p] == merged);
                        assert(kp == k);
                        assert(mid[i] == fold_first(merge, recs_for_key(pre, key, k)));
                        assert(recs_for_key(pre, key, k).len() > 0);
                        lemma_recs_for_key_push(pre, key, last, k);
                        lemma_fold_first_push(merge, recs_for_key(pre, key, k), last);
                        assert(out[p] == fold_first(merge, recs_for_key(recs, key, k)));
                        assert(index_of_key(mid, key, k) == Some(i));
                    } else {
                        assert(out[p] == mid[p]);
                        let kp = key(mid[p]);
                        if kp == k {
                            assert(index_of_key(mid, key, kp) == Some(p));
                            assert(index_of_key(mid, key, k) == Some(i));
                            assert(false);
                        }
                        lemma_recs_for_key_push(pre, key, last, kp);
                        assert(recs_for_key(recs, key, kp) == recs_for_key(pre, key, kp));
                    }
                }
                // Every record's key is present.
                assert forall|j: int|
                    0 <= j < recs.len() implies index_of_key(out, key, key(#[trigger] recs[j]))
                    is Some by {
                    if j < recs.len() - 1 {
                        assert(recs[j] == pre[j]);
                        assert(index_of_key(mid, key, key(pre[j])) is Some);
                    } else {
                        assert(recs[j] == last);
                        assert(index_of_key(mid, key, k) == Some(i));
                    }
                }
            },
            None => {
                assert(out == mid.push(last));
                assert(out.len() == mid.len() + 1);
                // k is new to mid, hence new to the original rows and absent
                // from the earlier records.
                lemma_index_of_key_props(rows, key, k);
                match index_of_key(rows, key, k) {
                    Some(_) => {
                        lemma_index_prefix_preserved(rows, mid, key, k);
                        assert(false);
                    },
                    None => {},
                }
                if recs_for_key(pre, key, k).len() > 0 {
                    lemma_recs_for_key_nonempty(pre, key, k);
                    let j = choose|j: int| 0 <= j < pre.len() && key(#[trigger] pre[j]) == k;
                    assert(index_of_key(mid, key, key(pre[j])) is Some);
                    assert(false);
                }
                assert(recs_for_key(pre, key, k).len() == 0);
                lemma_recs_for_key_push(pre, key, last, k);
                assert(recs_for_key(recs, key, k) =~= seq![last]);
                // Lookups of other keys pass over the appended row.
                assert forall|k2: Seq<char>|
                    k2 != k implies #[trigger] index_of_key(out, key, k2) == index_of_key(
                    mid,
                    key,
                    k2,
                ) by {
                    lemma_index_of_key_push_other(mid, key, k2, last);
                }
                lemma_index_of_key_push_new(mid, key, last);
                assert(index_of_key(out, key, k) == Some(mid.len() as int));
                assert forall|p: int|
                    0 <= p < rows.len() implies key(#[trigger] out[p]) == key(rows[p]) by {
                    assert(out[p] == mid[p]);
                }
                assert forall|p: int|
                    0 <= p < rows.len() implies #[trigger] out[p] == (if index_of_key(
                    rows,
                    key,
                    key(rows[p]),
                ) == Some(p) {
                    fold_merge(rows[p], merge, recs_for_key(recs, key, key(rows[p])))
                } else {
                    rows[p]
                }) by {
                    let kp = key(rows[p]);
                    assert(out[p] == mid[p]);
                    assert(kp != k);
                    lemma_recs_for_key_push(pre, key, last, kp);
                    assert(recs_for_key(recs, key, kp) == recs_for_key(pre, key, kp));
                }
                assert forall|p: int|
                    rows.len() <= p < out.len() implies {
                    &&& index_of_key(rows, key, key(#[trigger] out[p])) is None
                    &&& recs_for_key(recs, key, key(out[p])).len() > 0
                    &&& out[p] == fold_first(merge, recs_for_key(recs, key, key(out[p])))
                    &&& index_of_key(out, key, key(out[p])) == Some(p)
                } by {
                    if p == mid.len() as int {
                        assert(out[p] == last);
                        assert(key(out[p]) == k);
                        assert(fold_first(merge, seq![last]) == last) by {
                            assert(seq![last].first() == last);
                            assert(seq![last].drop_first() =~= Seq::<R>::empty());
                        }
                    } else {
                        assert(out[p] == mid[p]);
                        let kp = key(mid[p]);
                        assert(index_of_key(mid, key, kp) == Some(p));
                        if kp == k {
                            assert(index_of_key(mid, key, k) is None);
                            assert(false);
                        }
                        lemma_recs_for_key_push(pre, key, last, kp);
                        assert(recs_for_key(recs, key, kp) == recs_for_key(pre, key, kp));
                    }
                }
                assert forall|j: int|
                    0 <= j < recs.len() implies index_of_key(out, key, key(#[trigger] recs[j]))
                    is Some by {
                    if j < recs.len() - 1 {
                        assert(recs[j] == pre[j]);
                        assert(index_of_key(mid, key, key(pre[j])) is Some);
                        if key(pre[j]) == k {
                            assert(false);
                        }
                    } else {
                        assert(recs[j] == last);
                    }
                }
            },
        }
    }
}

/// Replaying a batch of merge upserts changes nothing, for any merge whose
/// same-key folds are idempotent: the second pass finds every key present
/// and folds each row back onto itself.
pub proof fn lemma_apply_merge_replay<R>(
    rows: Seq<R>,
    key: spec_fn(R) -> Seq<char>,
    merge: spec_fn(R, R) -> R,
    recs: Seq<R>,
)
    requires
        key_stable(key, merge),
        forall|x: R, rs: Seq<R>|
            #[trigger] fold_merge(fold_merge(x, merge, rs), merge, rs) == fold_merge(x, merge, rs),
        forall|rs: Seq<R>|
            rs.len() > 0 ==> #[trigger] fold_merge(fold_first(merge, rs), merge, rs) == fold_first(
                merge,
                rs,
            ),
    ensures
        apply_merge(apply_merge(rows, key, merge, recs), key, merge, recs) == apply_merge(
            rows,
            key,
            merge,
            recs,
        ),
{
    let t = apply_merge(rows, key, merge, recs);
    let out = apply_merge(t, key, merge, recs);
    lemma_apply_merge_positions(rows, key, merge, recs);
    lemma_apply_merge_positions(t, key, merge, recs);
    assert(out.len() == t.len()) by {
        if out.len() > t.len() {
            let p = t.len() as int;
            let kp = key(out[p]);
            assert(index_of_key(t, key, kp) is None);
            assert(recs_for_key(recs, key, kp).len() > 0);
            lemma_recs_for_key_nonempty(recs, key, kp);
            let j = choose|j: int| 0 <= j < recs.len() && key(#[trigger] recs[j]) == kp;
            assert(index_of_key(t, key, key(recs[j])) is Some);
            assert(false);
        }
    }
    assert forall|p: int| 0 <= p < t.len() implies out[p] == t[p] by {
        let kp = key(t[p]);
        if index_of_key(t, key, kp) == Some(p) {
            assert(out[p] == fold_merge(t[p], merge, recs_for_key(recs, key, kp)));
            if p < rows.len() {
                assert(key(rows[p]) == kp);
                if index_of_key(rows, key, kp) == Some(p) {
                    assert(t[p] == fold_merge(rows[p], merge, recs_for_key(recs, key, kp)));
                    assert(fold_merge(
                        fold_merge(rows[p], merge, recs_for_key(recs, key, kp)),
                        merge,
                        recs_for_key(recs, key, kp),
                    ) == fold_merge(rows[p], merge, recs_for_key(recs, key, kp)));
                } else {
                    lemma_index_of_key_props(rows, key, kp);
                    match index_of_key(rows, key, kp) {
                        Some(_) => {
                            lemma_index_prefix_preserved(rows, t, key, kp);
                            assert(false);
                        },
                        None => {
                            assert(key(rows[p]) == kp);
                            assert(false);
                        },
                    }
                }
            } else {
                assert(t[p] == fold_first(merge, recs_for_key(recs, key, kp)));
                assert(recs_for_key(recs, key, kp).len() > 0);
                assert(fold_merge(
                    fold_first(merge, recs_for_key(recs, key, kp)),
                    merge,
                    recs_for_key(recs, key, kp),
                ) == fold_first(merge, recs_for_key(recs, key, kp)));
            }
        } else {
            assert(out[p] == t[p]);
        }
    }
    assert(out =~= t);
}

/// The asset ledger is keyed by the UTXO identifier.
pub open spec fn asset_key() -> spec_fn(AssetsV) -> Seq<char> {
    |a: AssetsV| a.assets_utxo_id
}

/// The field-wise merge of the asset ledger: a delete-transition overwrites
/// the lifecycle fields (status, deleting transaction, height of the state
/// change); a create-transition overwrites the provenance fields (asset,
/// owner, amount, creating transaction, creation height). The two field
/// sets are disjoint, which is what lets a create and a delete of the same
/// key arrive in either order.
pub open spec fn asset_merge() -> spec_fn(AssetsV, AssetsV) -> AssetsV {
    |x: AssetsV, r: AssetsV|
        if r.asset_status is Delete {
            AssetsV {
                assets_id: x.assets_id,
                assets_utxo_id: x.assets_utxo_id,
                assets_owner: x.assets_owner,
                amount: x.amount,
                block_height: r.block_height,
                create_height: x.create_height,
                delete_tx_hash: r.delete_tx_hash,
                create_tx_hash: x.create_tx_hash,
                asset_status: AssetStatus::Delete,
            }
        } else {
            AssetsV {
                assets_id: r.assets_id,
                assets_utxo_id: x.assets_utxo_id,
                assets_owner: r.assets_owner,
                amount: r.amount,
                block_height: x.block_height,
                create_height: r.create_height,
                delete_tx_hash: x.delete_tx_hash,
                create_tx_hash: r.create_tx_hash,
                asset_status: x.asset_status,
            }
        }
}

/// One asset-ledger upsert.
pub open spec fn apply_asset(rows: Seq<AssetsV>, r: AssetsV) -> Seq<AssetsV> {
    upsert_merge(rows, asset_key(), asset_merge(), r)
}

/// A batch of asset-ledger upserts.
pub open spec fn apply_assets(rows: Seq<AssetsV>, recs: Seq<AssetsV>) -> Seq<AssetsV> {
    apply_merge(rows, asset_key(), asset_merge(), recs)
}

/// The most recent create-transition of a same-key batch, if any.
pub open spec fn last_create(rs: Seq<AssetsV>) -> Option<AssetsV>
    decreases rs.len(),
{
    if rs.len() == 0 {
        None
    } else if !(rs.last().asset_status is Delete) {
        Some(rs.last())
    } else {
        last_create(rs.drop_last())
    }
}

/// The most recent delete-transition of a same-key batch, if any.
pub open spec fn last_delete(rs: Seq<AssetsV>) -> Option<AssetsV>
    decreases rs.len(),
{
    if rs.len() == 0 {
        None
    } else if rs.last().asset_status is Delete {
        Some(rs.last())
    } else {
        last_delete(rs.drop_last())
    }
}

/// The row a base row becomes after a same-key batch: provenance fields
/// from the last create, lifecycle fields from the last delete, the rest
/// from the base.
pub open spec fn asset_combine(x: AssetsV, lc: Option<AssetsV>, ld: Option<AssetsV>) -> AssetsV {
    AssetsV {
        assets_id: match lc {
            Some(c) => c.assets_id,
            None => x.assets_id,
        },
        assets_utxo_id: x.assets_utxo_id,
        assets_owner: match lc {
            Some(c) => c.assets_owner,
            None => x.assets_owner,
        },
        amount: match lc {
            Some(c) => c.amount,
            None => x.amount,
        },
        block_height: match ld {
            Some(d) => d.block_height,
            None => x.block_height,
        },
        create_height: match lc {
            Some(c) => c.create_height,
            None => x.create_height,
        },
        delete_tx_hash: match ld {
            Some(d) => d.delete_tx_hash,
            None => x.delete_tx_hash,
        },
        create_tx_hash: match lc {
            Some(c) => c.create_tx_hash,
            None => x.create_tx_hash,
        },
        asset_status: match ld {
            Some(_) => AssetStatus::Delete,
            None => x.asset_status,
        },
    }
}

/// Folding a same-key batch writes exactly the last create's and the last
/// delete's fields.
pub proof fn lemma_asset_fold_char(x: AssetsV, rs: Seq<AssetsV>)
    ensures
        fold_merge(x, asset_merge(), rs) == asset_combine(x, last_create(rs), last_delete(rs)),
    decreases rs.len(),
{
    if rs.len() == 0 {
        assert(fold_merge(x, asset_merge(), rs) =~= asset_combine(
            x,
            last_create(rs),
            last_delete(rs),
        ));
    } else {
        lemma_asset_fold_char(x, rs.drop_last());
        assert(fold_merge(x, asset_merge(), rs) =~= asset_combine(
            x,
            last_create(rs),
            last_delete(rs),
        ));
    }
}

pub proof fn lemma_last_create_cons(rs: Seq<AssetsV>)
    requires
        rs.len() > 0,
    ensures
        last_create(rs) == (match last_create(rs.drop_first()) {
            Some(c) => Some(c),
            None => if !(rs.first().asset_status is Delete) {
                Some(rs.first())
            } else {
                None
            },
        }),
    decreases rs.len(),
{
    if rs.len() == 1 {
        assert(rs.drop_first() =~= Seq::<AssetsV>::empty());
        assert(rs.last() == rs.first());
    } else {
        assert(rs.drop_first().len() > 0);
        assert(rs.drop_first().last() == rs.last());
        assert(rs.drop_first().drop_last() =~= rs.drop_last().drop_first());
        assert(rs.drop_last().first() == rs.first());
        assert(rs.drop_last().len() > 0);
        lemma_last_create_cons(rs.drop_last());
    }
}

pub proof fn lemma_last_delete_cons(rs: Seq<AssetsV>)
    requires
        rs.len() > 0,
    ensures
        last_delete(rs) == (match last_delete(rs.drop_first()) {
            Some(d) => Some(d),
            None => if rs.first().asset_status is Delete {
                Some(rs.first())
            } else {
                None
            },
        }),
    decreases rs.len(),
{
    if rs.len() == 1 {
        assert(rs.drop_first() =~= Seq::<AssetsV>::empty());
        assert(rs.last() == rs.first());
    } else {
        assert(rs.drop_first().len() > 0);
        assert(rs.drop_first().last() == rs.last());
        assert(rs.drop_first().drop_last() =~= rs.drop_last().drop_first());
        assert(rs.drop_last().first() == rs.first());
        assert(rs.drop_last().len() > 0);
        lemma_last_delete_cons(rs.drop_last());
    }
}

/// Idempotence of the asset ledger: applying the same batch of transitions
/// twice leaves the row set of applying it once — the second pass rewrites
/// every field with the value it already holds.
pub proof fn lemma_apply_assets_twice(rows: Seq<AssetsV>, recs: Seq<AssetsV>)
    ensures
        apply_assets(apply_assets(rows, recs), recs) == apply_assets(rows, recs),
{
    let merge = asset_merge();
    assert forall|x: AssetsV, rs: Seq<AssetsV>|
        #[trigger] fold_merge(fold_merge(x, merge, rs), merge, rs) == fold_merge(x, merge, rs) by {
        lemma_asset_fold_char(x, rs);
        lemma_asset_fold_char(fold_merge(x, merge, rs), rs);
        assert(asset_combine(
            asset_combine(x, last_create(rs), last_delete(rs)),
            last_create(rs),
            last_delete(rs),
        ) =~= asset_combine(x, last_create(rs), last_delete(rs)));
    }
    assert forall|rs: Seq<AssetsV>|
        rs.len() > 0 implies #[trigger] fold_merge(fold_first(merge, rs), merge, rs) == fold_first(
        merge,
        rs,
    ) by {
        let f1 = fold_first(merge, rs);
        lemma_asset_fold_char(rs.first(), rs.drop_first());
        lemma_asset_fold_char(f1, rs);
        lemma_last_create_cons(rs);
        lemma_last_delete_cons(rs);
        assert(asset_combine(f1, last_create(rs), last_delete(rs)) =~= f1);
    }
    lemma_apply_merge_replay(rows, asset_key(), merge, recs);
}

/// Commutativity of the UTXO lifecycle: a "create" and a "delete" for the
/// same key reach the same final row set in either order — the row ends
/// Deleted, with the deleting transaction from the delete and owner, amount
/// and provenance from the create.
pub proof fn lemma_asset_create_delete_commute(rows: Seq<AssetsV>, c: AssetsV, d: AssetsV)
    requires
        c.assets_utxo_id == d.assets_utxo_id,
        c.asset_status is Alive,
        d.asset_status is Delete,
    ensures
        apply_asset(apply_asset(rows, c), d) == apply_asset(apply_asset(rows, d), c),
{
    let key = asset_key();
    let merge = asset_merge();
    let k = c.assets_utxo_id;
    lemma_index_of_key_props(rows, key, k);
    match index_of_key(rows, key, k) {
        Some(j) => {
            let x = rows[j];
            assert(key(merge(x, c)) == k);
            assert(key(merge(x, d)) == k);
            lemma_index_of_key_update(rows, key, k, j, merge(x, c));
            lemma_index_of_key_update(rows, key, k, j, merge(x, d));
            let lhs1 = rows.update(j, merge(x, c));
            let rhs1 = rows.update(j, merge(x, d));
            assert(apply_asset(rows, c) == lhs1);
            assert(apply_asset(rows, d) == rhs1);
            assert(index_of_key(lhs1, key, k) == Some(j));
            assert(index_of_key(rhs1, key, k) == Some(j));
            assert(apply_asset(lhs1, d) == lhs1.update(j, merge(merge(x, c), d)));
            assert(apply_asset(rhs1, c) == rhs1.update(j, merge(merge(x, d), c)));
            assert(merge(merge(x, c), d) =~= merge(merge(x, d), c));
            assert(lhs1.update(j, merge(merge(x, c), d)) =~= rhs1.update(
                j,
                merge(merge(x, d), c),
            ));
        },
        None => {
            assert(apply_asset(rows, c) == rows.push(c));
            assert(apply_asset(rows, d) == rows.push(d));
            lemma_index_of_key_push_new(rows, key, c);
            lemma_index_of_key_push_new(rows, key, d);
            let n = rows.len() as int;
            assert(index_of_key(rows.push(c), key, k) == Some(n));
            assert(index_of_key(rows.push(d), key, k) == Some(n));
            assert(apply_asset(rows.push(c), d) == rows.push(c).update(n, merge(c, d)));
            assert(apply_asset(rows.push(d), c) == rows.push(d).update(n, merge(d, c)));
            assert(merge(c, d) =~= merge(d, c));
            assert(rows.push(c).update(n, merge(c, d)) =~= rows.push(d).update(n, merge(d, c)));
        },
    }
}

/// Account aggregates are keyed by the address.
pub open spec fn account_key() -> spec_fn(AccountV) -> Seq<char> {
    |a: AccountV| a.account_hash
}

/// Saturating addition: the aggregates' counters never wrap.
pub open spec fn sat_add(a: u64, b: u64) -> u64 {
    if a + b > u64::MAX {
        u64::MAX
    } else {
        (a + b) as u64
    }
}

/// The additive merge of the account aggregates: counters accumulate, the
/// descriptive fields keep their first-seen values.
pub open spec fn account_merge() -> spec_fn(AccountV, AccountV) -> AccountV {
    |x: AccountV, a: AccountV|
        AccountV {
            account_hash: x.account_hash,
            account_code: x.account_code,
            account_name: x.account_name,
            account_type: x.account_type,
            verified: x.verified,
            gas_used: sat_add(x.gas_used, a.gas_used),
            transactions_count: x.transactions_count,
            token_transfers_count: x.token_transfers_count,
            sender_count: sat_add(x.sender_count, a.sender_count),
            recever_count: sat_add(x.recever_count, a.recever_count),
            decompiled: x.decompiled,
        }
}

/// A batch of account-aggregate upserts.
pub open spec fn apply_accounts(rows: Seq<AccountV>, recs: Seq<AccountV>) -> Seq<AccountV> {
    apply_merge(rows, account_key(), account_merge(), recs)
}

/// A delta that adds nothing to any counter.
pub open spec fn zero_delta(a: AccountV) -> bool {
    a.gas_used == 0 && a.sender_count == 0 && a.recever_count == 0
}

/// Merging a zero delta returns the row unchanged.
pub proof fn lemma_zero_delta_merge(x: AccountV, a: AccountV)
    requires
        zero_delta(a),
    ensures
        account_merge()(x, a) == x,
{
    assert(account_merge()(x, a) =~= x);
}

/// Folding counter-free deltas changes nothing.
pub proof fn lemma_zero_fold(x: AccountV, rs: Seq<AccountV>)
    requires
        forall|i: int| 0 <= i < rs.len() ==> zero_delta(#[trigger] rs[i]),
    ensures
        fold_merge(x, account_merge(), rs) == x,
    decreases rs.len(),
{
    if rs.len() > 0 {
        assert forall|i: int|
            0 <= i < rs.drop_last().len() implies zero_delta(#[trigger] rs.drop_last()[i]) by {
            assert(rs.drop_last()[i] == rs[i]);
        }
        lemma_zero_fold(x, rs.drop_last());
        lemma_zero_delta_merge(x, rs.last());
    }
}

/// Idempotence of the account aggregates holds only of counter-free
/// deltas: the additive merge makes a second application of any real
/// contribution count again.
pub proof fn lemma_apply_accounts_twice(rows: Seq<AccountV>, recs: Seq<AccountV>)
    requires
        forall|j: int| 0 <= j < recs.len() ==> zero_delta(#[trigger] recs[j]),
    ensures
        apply_accounts(apply_accounts(rows, recs), recs) == apply_accounts(rows, recs),
{
    let key = account_key();
    let merge = account_merge();
    let t = apply_accounts(rows, recs);
    let out = apply_accounts(t, recs);
    lemma_apply_merge_positions(rows, key, merge, recs);
    lemma_apply_merge_positions(t, key, merge, recs);
    assert(out.len() == t.len()) by {
        if out.len() > t.len() {
            let p = t.len() as int;
            let kp = key(out[p]);
            assert(index_of_key(t, key, kp) is None);
            assert(recs_for_key(recs, key, kp).len() > 0);
            lemma_recs_for_key_nonempty(recs, key, kp);
            let j = choose|j: int| 0 <= j < recs.len() && key(#[trigger] recs[j]) == kp;
            assert(index_of_key(t, key, key(recs[j])) is Some);
            assert(false);
        }
    }
    assert forall|p: int| 0 <= p < t.len() implies out[p] == t[p] by {
        let kp = key(t[p]);
        if index_of_key(t, key, kp) == Some(p) {
            assert(out[p] == fold_merge(t[p], merge, recs_for_key(recs, key, kp)));
            assert forall|i: int|
                0 <= i < recs_for_key(recs, key, kp).len() implies zero_delta(
                #[trigger] recs_for_key(recs, key, kp)[i],
            ) by {
                let e = recs_for_key(recs, key, kp)[i];
                assert(recs_for_key(recs, key, kp).contains(e));
                recs.lemma_filter_contains_rev(key_is(key, kp), e);
                let j = choose|j: int| 0 <= j < recs.len() && recs[j] == e;
                assert(zero_delta(recs[j]));
            }
            lemma_zero_fold(t[p], recs_for_key(recs, key, kp));
        } else {
            assert(out[p] == t[p]);
        }
    }
    assert(out =~= t);
}

/// The first position carrying `k` is the first match.
pub proof fn lemma_index_of_key_first_match<R>(
    rows: Seq<R>,
    key: spec_fn(R) -> Seq<char>,
    k: Seq<char>,
    i: int,
)
    requires
        0 <= i < rows.len(),
        key(rows[i]) == k,
        forall|t: int| 0 <= t < i ==> key(#[trigger] rows[t]) != k,
    ensures
        index_of_key(rows, key, k) == Some(i),
    decreases i,
{
    if i == 0 {
    } else {
        assert(key(rows.first()) != k);
        assert forall|t: int| 0 <= t < i - 1 implies key(#[trigger] rows.drop_first()[t]) != k by {
            assert(rows.drop_first()[t] == rows[t + 1]);
        }
        assert(rows.drop_first()[i - 1] == rows[i]);
        lemma_index_of_key_first_match(rows.drop_first(), key, k, i - 1);
    }
}

/// Saturating addition, executably.
pub fn sat_add_u64(a: u64, b: u64) -> (r: u64)
    ensures
        r == sat_add(a, b),
{
    if b > u64::MAX - a {
        u64::MAX
    } else {
        a + b
    }
}

/// The merged asset row, executably.
fn merge_asset_row(x: &Assets, r: &Assets) -> (out: Assets)
    ensures
        out@ == asset_merge()(x@, r@),
{
    let out = match r.asset_status {
        AssetStatus::Delete => Assets {
            assets_id: x.assets_id.clone(),
            assets_utxo_id: x.assets_utxo_id.clone(),
            assets_owner: x.assets_owner.clone(),
            amount: x.amount,
            block_height: r.block_height,
            create_height: x.create_height,
            delete_tx_hash: r.delete_tx_hash.clone(),
            create_tx_hash: x.create_tx_hash.clone(),
            asset_status: AssetStatus::Delete,
        },
        AssetStatus::Alive => Assets {
            assets_id: r.assets_id.clone(),
            assets_utxo_id: x.assets_utxo_id.clone(),
            assets_owner: r.assets_owner.clone(),
            amount: r.amount,
            block_height: x.block_height,
            create_height: r.create_height,
            delete_tx_hash: x.delete_tx_hash.clone(),
            create_tx_hash: r.create_tx_hash.clone(),
            asset_status: x.asset_status,
        },
    };
    proof {
        assert(out@ =~= asset_merge()(x@, r@));
    }
    out
}

/// The merged account row, executably.
fn merge_account_row(x: &Account, a: &Account) -> (out: Account)
    ensures
        out@ == account_merge()(x@, a@),
{
    let out = Account {
        account_hash: x.account_hash.clone(),
        account_code: clone_opt_string(&x.account_code),
        account_name: clone_opt_string(&x.account_name),
        account_type: x.account_type,
        verified: x.verified,
        gas_used: sat_add_u64(x.gas_used, a.gas_used),
        transactions_count: x.transactions_count,
        token_transfers_count: x.token_transfers_count,
        sender_count: sat_add_u64(x.sender_count, a.sender_count),
        recever_count: sat_add_u64(x.recever_count, a.recever_count),
        decompiled: x.decompiled,
    };
    proof {
        assert(out@ =~= account_merge()(x@, a@));
    }
    out
}

/// The position of the row keyed `k` in the account set.
fn account_index(rows: &Vec<Account>, k: &String) -> (r: Option<usize>)
    ensures
        match (r, index_of_key(rows.deep_view(), account_key(), k@)) {
            (Some(u), Some(j)) => u as int == j && 0 <= j < rows.deep_view().len(),
            (None, None) => true,
            _ => false,
        },
{
    let ghost dv = rows.deep_view();
    let n = rows.len();
    for i in 0..n
        invariant
            n == rows.len(),
            dv == rows.deep_view(),
            forall|t: int| 0 <= t < i ==> account_key()(#[trigger] dv[t]) != k@,
    {
        proof {
            assert(rows@[i as int].deep_view() == dv[i as int]);
        }
        if rows[i].account_hash == *k {
            proof {
                assert(account_key()(dv[i as int]) == k@);
                lemma_index_of_key_first_match(dv, account_key(), k@, i as int);
            }
            return Some(i);
        }
        proof {
            assert(account_key()(dv[i as int]) != k@);
        }
    }
    proof {
        lemma_index_of_key_props(dv, account_key(), k@);
    }
    None
}

/// The position of the row keyed `k` in the asset set.
fn asset_index(rows: &Vec<Assets>, k: &String) -> (r: Option<usize>)
    ensures
        match (r, index_of_key(rows.deep_view(), asset_key(), k@)) {
            (Some(u), Some(j)) => u as int == j && 0 <= j < rows.deep_view().len(),
            (None, None) => true,
            _ => false,
        },
{
    let ghost dv = rows.deep_view();
    let n = rows.len();
    for i in 0..n
        invariant
            n == rows.len(),
            dv == rows.deep_view(),
            forall|t: int| 0 <= t < i ==> asset_key()(#[trigger] dv[t]) != k@,
    {
        proof {
            assert(rows@[i as int].deep_view() == dv[i as int]);
        }
        if rows[i].assets_utxo_id == *k {
            proof {
                assert(asset_key()(dv[i as int]) == k@);
                lemma_index_of_key_first_match(dv, asset_key(), k@, i as int);
            }
            return Some(i);
        }
        proof {
            assert(asset_key()(dv[i as int]) != k@);
        }
    }
    proof {
        lemma_index_of_key_props(dv, asset_key(), k@);
    }
    None
}

/// Applies a batch of merge upserts to an asset row set in place.
fn apply_asset_records(rows: &mut Vec<Assets>, records: &Vec<Assets>)
    ensures
        final(rows).deep_view() == apply_assets(old(rows).deep_view(), records.deep_view()),
{
    let ghost rv = records.deep_view();
    proof {
        assert(rv.take(0) =~= Seq::<AssetsV>::empty());
    }
    let n = records.len();
    for i in 0..n
        invariant
            n == records.len(),
            rv == records.deep_view(),
            rows.deep_view() == apply_merge(old(rows).deep_view(), asset_key(), asset_merge(), rv.take(i as int)),
    {
        let ghost pre = rows.deep_view();
        let ghost pre_seq = rows@;
        proof {
            assert(records@[i as int].deep_view() == rv[i as int]);
        }
        let rec = &records[i];
        match asset_index(rows, &rec.assets_utxo_id) {
            Some(j) => {
                let merged = merge_asset_row(&rows[j], rec);
                rows.set(j, merged);
                proof {
                    assert(rows@ == pre_seq.update(j as int, merged));
                    assert(rows.deep_view() =~= pre.update(j as int, merged@)) by {
                        assert forall|t: int| 0 <= t < pre.len() implies rows.deep_view()[t]
                            == pre.update(j as int, merged@)[t] by {
                            if t == j as int {
                                assert(rows@[t] == merged);
                            } else {
                                assert(rows@[t] == pre_seq[t]);
                            }
                        }
                    }
                    assert(asset_key()(rv[i as int]) == rec.assets_utxo_id@);
                    assert(upsert_merge(pre, asset_key(), asset_merge(), rv[i as int]) == pre.update(
                        j as int,
                        asset_merge()(pre[j as int], rv[i as int]),
                    ));
                    assert(merged@ == asset_merge()(pre[j as int], rv[i as int]));
                }
            },
            None => {
                rows.push(rec.clone());
                proof {
                    assert(rows.deep_view() =~= pre.push(rv[i as int]));
                    assert(asset_key()(rv[i as int]) == rec.assets_utxo_id@);
                    assert(upsert_merge(pre, asset_key(), asset_merge(), rv[i as int]) == pre.push(
                        rv[i as int],
                    ));
                }
            },
        }
        proof {
            assert(rv.take(i as int + 1).drop_last() =~= rv.take(i as int));
            assert(rv.take(i as int + 1).last() == rv[i as int]);
            assert(rows.deep_view() == apply_merge(
                old(rows).deep_view(),
                asset_key(),
                asset_merge(),
                rv.take(i as int + 1),
            ));
        }
    }
    proof {
        assert(rv.take(n as int) =~= rv);
    }
}

/// Applies a batch of additive upserts to an account row set in place.
pub fn apply_account_records(rows: &mut Vec<Account>, records: &Vec<Account>)
    ensures
        final(rows).deep_view() == apply_accounts(old(rows).deep_view(), records.deep_view()),
{
    let ghost rv = records.deep_view();
    proof {
        assert(rv.take(0) =~= Seq::<AccountV>::empty());
    }
    let n = records.len();
    for i in 0..n
        invariant
            n == records.len(),
            rv == records.deep_view(),
            rows.deep_view() == apply_merge(old(rows).deep_view(), account_key(), account_merge(), rv.take(i as int)),
    {
        let ghost pre = rows.deep_view();
        let ghost pre_seq = rows@;
        proof {
            assert(records@[i as int].deep_view() == rv[i as int]);
        }
        let rec = &records[i];
        match account_index(rows, &rec.account_hash) {
            Some(j) => {
                let merged = merge_account_row(&rows[j], rec);
                rows.set(j, merged);
                proof {
                    assert(rows@ == pre_seq.update(j as int, merged));
                    assert(rows.deep_view() =~= pre.update(j as int, merged@)) by {
                        assert forall|t: int| 0 <= t < pre.len() implies rows.deep_view()[t]
                            == pre.update(j as int, merged@)[t] by {
                            if t == j as int {
                                assert(rows@[t] == merged);
                            } else {
                                assert(rows@[t] == pre_seq[t]);
                            }
                        }
                    }
                    assert(account_key()(rv[i as int]) == rec.account_hash@);
                    assert(upsert_merge(pre, account_key(), account_merge(), rv[i as int])
                        == pre.update(j as int, account_merge()(pre[j as int], rv[i as int])));
                    assert(merged@ == account_merge()(pre[j as int], rv[i as int]));
                }
            },
            None => {
                rows.push(rec.clone());
                proof {
                    assert(rows.deep_view() =~= pre.push(rv[i as int]));
                    assert(account_key()(rv[i as int]) == rec.account_hash@);
                    assert(upsert_merge(pre, account_key(), account_merge(), rv[i as int])
                        == pre.push(rv[i as int]));
                }
            },
        }
        proof {
            assert(rv.take(i as int + 1).drop_last() =~= rv.take(i as int));
            assert(rv.take(i as int + 1).last() == rv[i as int]);
            assert(rows.deep_view() == apply_merge(
                old(rows).deep_view(),
                account_key(),
                account_merge(),
                rv.take(i as int + 1),
            ));
        }
    }
    proof {
        assert(rv.take(n as int) =~= rv);
    }
}

/// The record keys of the append-only tables.
pub open spec fn block_key() -> spec_fn(BlockV) -> Seq<char> {
    |b: BlockV| b.id
}

pub open spec fn coinbase_key() -> spec_fn(CoinbaseV) -> Seq<char> {
    |c: CoinbaseV| c.id
}

pub open spec fn transaction_key() -> spec_fn(TransactionV) -> Seq<char> {
    |t: TransactionV| t.id
}

pub open spec fn contract_key() -> spec_fn(ContractV) -> Seq<char> {
    |c: ContractV| c.contract_hash
}

pub open spec fn call_key() -> spec_fn(CallV) -> Seq<char> {
    |c: CallV| c.transaction_id
}

fn blocks_contain(rows: &Vec<Block>, k: &String) -> (r: bool)
    ensures
        r == has_key(rows.deep_view(), block_key(), k@),
{
    let ghost dv = rows.deep_view();
    let n = rows.len();
    for i in 0..n
        invariant
            n == rows.len(),
            dv == rows.deep_view(),
            forall|t: int| 0 <= t < i ==> block_key()(#[trigger] dv[t]) != k@,
    {
        proof {
            assert(rows@[i as int].deep_view() == dv[i as int]);
        }
        if rows[i].id == *k {
            proof {
                assert(block_key()(dv[i as int]) == k@);
            }
            return true;
        }
    }
    false
}

fn coinbases_contain(rows: &Vec<Coinbase>, k: &String) -> (r: bool)
    ensures
        r == has_key(rows.deep_view(), coinbase_key(), k@),
{
    let ghost dv = rows.deep_view();
    let n = rows.len();
    for i in 0..n
        invariant
            n == rows.len(),
            dv == rows.deep_view(),
            forall|t: int| 0 <= t < i ==> coinbase_key()(#[trigger] dv[t]) != k@,
    {
        proof {
            assert(rows@[i as int].deep_view() == dv[i as int]);
        }
        if rows[i].id == *k {
            proof {
                assert(coinbase_key()(dv[i as int]) == k@);
            }
            return true;
        }
    }
    false
}

fn transactions_contain(rows: &Vec<Transaction>, k: &String) -> (r: bool)
    ensures
        r == has_key(rows.deep_view(), transaction_key(), k@),
{
    let ghost dv = rows.deep_view();
    let n = rows.len();
    for i in 0..n
        invariant
            n == rows.len(),
            dv == rows.deep_view(),
            forall|t: int| 0 <= t < i ==> transaction_key()(#[trigger] dv[t]) != k@,
    {
        proof {
            assert(rows@[i as int].deep_view() == dv[i as int]);
        }
        if rows[i].id == *k {
            proof {
                assert(transaction_key()(dv[i as int]) == k@);
            }
            return true;
        }
    }
    false
}

fn contracts_contain(rows: &Vec<Contract>, k: &String) -> (r: bool)
    ensures
        r == has_key(rows.deep_view(), contract_key(), k@),
{
    let ghost dv = rows.deep_view();
    let n = rows.len();
    for i in 0..n
        invariant
            n == rows.len(),
            dv == rows.deep_view(),
            forall|t: int| 0 <= t < i ==> contract_key()(#[trigger] dv[t]) != k@,
    {
        proof {
            assert(rows@[i as int].deep_view() == dv[i as int]);
        }
        if rows[i].contract_hash == *k {
            proof {
                assert(contract_key()(dv[i as int]) == k@);
            }
            return true;
        }
    }
    false
}

fn calls_contain(rows: &Vec<Call>, k: &String) -> (r: bool)
    ensures
        r == has_key(rows.deep_view(), call_key(), k@),
{
    let ghost dv = rows.deep_view();
    let n = rows.len();
    for i in 0..n
        invariant
            n == rows.len(),
            dv == rows.deep_view(),
            forall|t: int| 0 <= t < i ==> call_key()(#[trigger] dv[t]) != k@,
    {
        proof {
            assert(rows@[i as int].deep_view() == dv[i as int]);
        }
        if rows[i].transaction_id == *k {
            proof {
                assert(call_key()(dv[i as int]) == k@);
            }
            return true;
        }
    }
    false
}

/// The greatest height among the stored blocks, zero when there are none:
/// the checkpoint the fetcher resumes from.
pub open spec fn spec_max_height(rows: Seq<BlockV>) -> u64
    decreases rows.len(),
{
    if rows.len() == 0 {
        0
    } else {
        let m = spec_max_height(rows.drop_last());
        if rows.last().height > m {
            rows.last().height
        } else {
            m
        }
    }
}

/// An in-memory model of the durable store: one row set per record type,
/// each governed by its table's conflict rule.
pub struct Store {
    pub blocks: Vec<Block>,
    pub coinbases: Vec<Coinbase>,
    pub transactions: Vec<Transaction>,
    pub contracts: Vec<Contract>,
    pub calls: Vec<Call>,
    pub assets: Vec<Assets>,
    pub accounts: Vec<Account>,
}

#[verifier::ext_equal]
pub ghost struct StoreV {
    pub blocks: Seq<BlockV>,
    pub coinbases: Seq<CoinbaseV>,
    pub transactions: Seq<TransactionV>,
    pub contracts: Seq<ContractV>,
    pub calls: Seq<CallV>,
    pub assets: Seq<AssetsV>,
    pub accounts: Seq<AccountV>,
}

impl View for Store {
    type V = StoreV;

    open spec fn view(&self) -> StoreV {
        StoreV {
            blocks: self.blocks.deep_view(),
            coinbases: self.coinbases.deep_view(),
            transactions: self.transactions.deep_view(),
            contracts: self.contracts.deep_view(),
            calls: self.calls.deep_view(),
            assets: self.assets.deep_view(),
            accounts: self.accounts.deep_view(),
        }
    }
}

impl Store {
    /// An empty store.
    pub fn new() -> (r: Store)
        ensures
            r@.blocks == Seq::<BlockV>::empty(),
            r@.coinbases == Seq::<CoinbaseV>::empty(),
            r@.transactions == Seq::<TransactionV>::empty(),
            r@.contracts == Seq::<ContractV>::empty(),
            r@.calls == Seq::<CallV>::empty(),
            r@.assets == Seq::<AssetsV>::empty(),
            r@.accounts == Seq::<AccountV>::empty(),
    {
        let r = Store {
            blocks: Vec::new(),
            coinbases: Vec::new(),
            transactions: Vec::new(),
            contracts: Vec::new(),
            calls: Vec::new(),
            assets: Vec::new(),
            accounts: Vec::new(),
        };
        proof {
            assert(r@.blocks =~= Seq::<BlockV>::empty());
            assert(r@.coinbases =~= Seq::<CoinbaseV>::empty());
            assert(r@.transactions =~= Seq::<TransactionV>::empty());
            assert(r@.contracts =~= Seq::<ContractV>::empty());
            assert(r@.calls =~= Seq::<CallV>::empty());
            assert(r@.assets =~= Seq::<AssetsV>::empty());
            assert(r@.accounts =~= Seq::<AccountV>::empty());
        }
        r
    }

    /// Block rows insert and ignore conflicts on their id.
    pub fn batch_insert_block(&mut self, records: &Vec<Block>)
        ensures
            final(self)@.blocks == apply_ignore(
                old(self)@.blocks,
                block_key(),
                records.deep_view(),
            ),
            final(self)@.coinbases == old(self)@.coinbases,
            final(self)@.transactions == old(self)@.transactions,
            final(self)@.contracts == old(self)@.contracts,
            final(self)@.calls == old(self)@.calls,
            final(self)@.assets == old(self)@.assets,
            final(self)@.accounts == old(self)@.accounts,
    {
        let ghost rv = records.deep_view();
        proof {
            assert(rv.take(0) =~= Seq::<BlockV>::empty());
        }
        let n = records.len();
        for i in 0..n
            invariant
                n == records.len(),
                rv == records.deep_view(),
                self@.blocks == apply_ignore(old(self)@.blocks, block_key(), rv.take(i as int)),
                self@.coinbases == old(self)@.coinbases,
                self@.transactions == old(self)@.transactions,
                self@.contracts == old(self)@.contracts,
                self@.calls == old(self)@.calls,
                self@.assets == old(self)@.assets,
                self@.accounts == old(self)@.accounts,
        {
            let ghost pre = self@.blocks;
            proof {
                assert(records@[i as int].deep_view() == rv[i as int]);
                assert(block_key()(rv[i as int]) == records@[i as int].id@);
            }
            let rec = &records[i];
            if !blocks_contain(&self.blocks, &rec.id) {
                self.blocks.push(rec.clone());
                proof {
                    assert(self@.blocks =~= pre.push(rv[i as int]));
                }
            }
            proof {
                assert(rv.take(i as int + 1).drop_last() =~= rv.take(i as int));
                assert(rv.take(i as int + 1).last() == rv[i as int]);
                assert(self@.blocks == apply_ignore(
                    old(self)@.blocks,
                    block_key(),
                    rv.take(i as int + 1),
                ));
            }
        }
        proof {
            assert(rv.take(n as int) =~= rv);
        }
    }

    /// Coinbase rows insert and ignore conflicts on their id.
    pub fn batch_insert_coinbase(&mut self, records: &Vec<Coinbase>)
        ensures
            final(self)@.coinbases == apply_ignore(
                old(self)@.coinbases,
                coinbase_key(),
                records.deep_view(),
            ),
            final(self)@.blocks == old(self)@.blocks,
            final(self)@.transactions == old(self)@.transactions,
            final(self)@.contracts == old(self)@.contracts,
            final(self)@.calls == old(self)@.calls,
            final(self)@.assets == old(self)@.assets,
            final(self)@.accounts == old(self)@.accounts,
    {
        let ghost rv = records.deep_view();
        proof {
            assert(rv.take(0) =~= Seq::<CoinbaseV>::empty());
        }
        let n = records.len();
        for i in 0..n
            invariant
                n == records.len(),
                rv == records.deep_view(),
                self@.coinbases == apply_ignore(
                    old(self)@.coinbases,
                    coinbase_key(),
                    rv.take(i as int),
                ),
                self@.blocks == old(self)@.blocks,
                self@.transactions == old(self)@.transactions,
                self@.contracts == old(self)@.contracts,
                self@.calls == old(self)@.calls,
                self@.assets == old(self)@.assets,
                self@.accounts == old(self)@.accounts,
        {
            let ghost pre = self@.coinbases;
            proof {
                assert(records@[i as int].deep_view() == rv[i as int]);
                assert(coinbase_key()(rv[i as int]) == records@[i as int].id@);
            }
            let rec = &records[i];
            if !coinbases_contain(&self.coinbases, &rec.id) {
                self.coinbases.push(rec.clone());
                proof {
                    assert(self@.coinbases =~= pre.push(rv[i as int]));
                }
            }
            proof {
                assert(rv.take(i as int + 1).drop_last() =~= rv.take(i as int));
                assert(rv.take(i as int + 1).last() == rv[i as int]);
                assert(self@.coinbases == apply_ignore(
                    old(self)@.coinbases,
                    coinbase_key(),
                    rv.take(i as int + 1),
                ));
            }
        }
        proof {
            assert(rv.take(n as int) =~= rv);
        }
    }

    /// Transaction rows insert and ignore conflicts on their id.
    pub fn batch_insert_transactions(&mut self, records: &Vec<Transaction>)
        ensures
            final(self)@.transactions == apply_ignore(
                old(self)@.transactions,
                transaction_key(),
                records.deep_view(),
            ),
            final(self)@.blocks == old(self)@.blocks,
            final(self)@.coinbases == old(self)@.coinbases,
            final(self)@.contracts == old(self)@.contracts,
            final(self)@.calls == old(self)@.calls,
            final(self)@.assets == old(self)@.assets,
            final(self)@.accounts == old(self)@.accounts,
    {
        let ghost rv = records.deep_view();
        proof {
            assert(rv.take(0) =~= Seq::<TransactionV>::empty());
        }
        let n = records.len();
        for i in 0..n
            invariant
                n == records.len(),
                rv == records.deep_view(),
                self@.transactions == apply_ignore(
                    old(self)@.transactions,
                    transaction_key(),
                    rv.take(i as int),
                ),
                self@.blocks == old(self)@.blocks,
                self@.coinbases == old(self)@.coinbases,
                self@.contracts == old(self)@.contracts,
                self@.calls == old(self)@.calls,
                self@.assets == old(self)@.assets,
                self@.accounts == old(self)@.accounts,
        {
            let ghost pre = self@.transactions;
            proof {
                assert(records@[i as int].deep_view() == rv[i as int]);
                assert(transaction_key()(rv[i as int]) == records@[i as int].id@);
            }
            let rec = &records[i];
            if !transactions_contain(&self.transactions, &rec.id) {
                self.transactions.push(rec.clone());
                proof {
                    assert(self@.transactions =~= pre.push(rv[i as int]));
                }
            }
            proof {
                assert(rv.take(i as int + 1).drop_last() =~= rv.take(i as int));
                assert(rv.take(i as int + 1).last() == rv[i as int]);
                assert(self@.transactions == apply_ignore(
                    old(self)@.transactions,
                    transaction_key(),
                    rv.take(i as int + 1),
                ));
            }
        }
        proof {
            assert(rv.take(n as int) =~= rv);
        }
    }

    /// Contract rows insert and ignore conflicts on the contract identifier.
    pub fn batch_insert_contracts(&mut self, records: &Vec<Contract>)
        ensures
            final(self)@.contracts == apply_ignore(
                old(self)@.contracts,
                contract_key(),
                records.deep_view(),
            ),
            final(self)@.blocks == old(self)@.blocks,
            final(self)@.coinbases == old(self)@.coinbases,
            final(self)@.transactions == old(self)@.transactions,
            final(self)@.calls == old(self)@.calls,
            final(self)@.assets == old(self)@.assets,
            final(self)@.accounts == old(self)@.accounts,
    {
        let ghost rv = records.deep_view();
        proof {
            assert(rv.take(0) =~= Seq::<ContractV>::empty());
        }
        let n = records.len();
        for i in 0..n
            invariant
                n == records.len(),
                rv == records.deep_view(),
                self@.contracts == apply_ignore(
                    old(self)@.contracts,
                    contract_key(),
                    rv.take(i as int),
                ),
                self@.blocks == old(self)@.blocks,
                self@.coinbases == old(self)@.coinbases,
                self@.transactions == old(self)@.transactions,
                self@.calls == old(self)@.calls,
                self@.assets == old(self)@.assets,
                self@.accounts == old(self)@.accounts,
        {
            let ghost pre = self@.contracts;
            proof {
                assert(records@[i as int].deep_view() == rv[i as int]);
                assert(contract_key()(rv[i as int]) == records@[i as int].contract_hash@);
            }
            let rec = &records[i];
            if !contracts_contain(&self.contracts, &rec.contract_hash) {
                self.contracts.push(rec.clone());
                proof {
                    assert(self@.contracts =~= pre.push(rv[i as int]));
                }
            }
            proof {
                assert(rv.take(i as int + 1).drop_last() =~= rv.take(i as int));
                assert(rv.take(i as int + 1).last() == rv[i as int]);
                assert(self@.contracts == apply_ignore(
                    old(self)@.contracts,
                    contract_key(),
                    rv.take(i as int + 1),
                ));
            }
        }
        proof {
            assert(rv.take(n as int) =~= rv);
        }
    }

    /// Call rows insert and ignore conflicts on the transaction id.
    pub fn batch_insert_calls(&mut self, records: &Vec<Call>)
        ensures
            final(self)@.calls == apply_ignore(old(self)@.calls, call_key(), records.deep_view()),
            final(self)@.blocks == old(self)@.blocks,
            final(self)@.coinbases == old(self)@.coinbases,
            final(self)@.transactions == old(self)@.transactions,
            final(self)@.contracts == old(self)@.contracts,
            final(self)@.assets == old(self)@.assets,
            final(self)@.accounts == old(self)@.accounts,
    {
        let ghost rv = records.deep_view();
        proof {
            assert(rv.take(0) =~= Seq::<CallV>::empty());
        }
        let n = records.len();
        for i in 0..n
            invariant
                n == records.len(),
                rv == records.deep_view(),
                self@.calls == apply_ignore(old(self)@.calls, call_key(), rv.take(i as int)),
                self@.blocks == old(self)@.blocks,
                self@.coinbases == old(self)@.coinbases,
                self@.transactions == old(self)@.transactions,
                self@.contracts == old(self)@.contracts,
                self@.assets == old(self)@.assets,
                self@.accounts == old(self)@.accounts,
        {
            let ghost pre = self@.calls;
            proof {
                assert(records@[i as int].deep_view() == rv[i as int]);
                assert(call_key()(rv[i as int]) == records@[i as int].transaction_id@);
            }
            let rec = &records[i];
            if !calls_contain(&self.calls, &rec.transaction_id) {
                self.calls.push(rec.clone());
                proof {
                    assert(self@.calls =~= pre.push(rv[i as int]));
                }
            }
            proof {
                assert(rv.take(i as int + 1).drop_last() =~= rv.take(i as int));
                assert(rv.take(i as int + 1).last() == rv[i as int]);
                assert(self@.calls == apply_ignore(
                    old(self)@.calls,
                    call_key(),
                    rv.take(i as int + 1),
                ));
            }
        }
        proof {
            assert(rv.take(n as int) =~= rv);
        }
    }

    /// Asset rows merge field-wise by UTXO identifier; an update that
    /// targets a not-yet-inserted key inserts the row whole.
    pub fn batch_insert_assets(&mut self, records: &Vec<Assets>)
        ensures
            final(self)@.assets == apply_assets(old(self)@.assets, records.deep_view()),
            final(self)@.blocks == old(self)@.blocks,
            final(self)@.coinbases == old(self)@.coinbases,
            final(self)@.transactions == old(self)@.transactions,
            final(self)@.contracts == old(self)@.contracts,
            final(self)@.calls == old(self)@.calls,
            final(self)@.accounts == old(self)@.accounts,
    {
        apply_asset_records(&mut self.assets, records);
    }

    /// Account rows merge additively by address.
    pub fn batch_insert_accounts(&mut self, records: &Vec<Account>)
        ensures
            final(self)@.accounts == apply_accounts(old(self)@.accounts, records.deep_view()),
            final(self)@.blocks == old(self)@.blocks,
            final(self)@.coinbases == old(self)@.coinbases,
            final(self)@.transactions == old(self)@.transactions,
            final(self)@.contracts == old(self)@.contracts,
            final(self)@.calls == old(self)@.calls,
            final(self)@.assets == old(self)@.assets,
    {
        apply_account_records(&mut self.accounts, records);
    }

    /// The checkpoint: the greatest stored block height, zero when the
    /// store is empty.
    pub fn get_last_block_height(&self) -> (r: u64)
        ensures
            r == spec_max_height(self@.blocks),
    {
        let ghost dv = self@.blocks;
        let mut m: u64 = 0;
        proof {
            assert(dv.take(0) =~= Seq::<BlockV>::empty());
        }
        let n = self.blocks.len();
        for i in 0..n
            invariant
                n == self.blocks.len(),
                dv == self@.blocks,
                m == spec_max_height(dv.take(i as int)),
        {
            proof {
                assert(self.blocks@[i as int].deep_view() == dv[i as int]);
                assert(dv.take(i as int + 1).drop_last() =~= dv.take(i as int));
                assert(dv.take(i as int + 1).last() == dv[i as int]);
            }
            if self.blocks[i].height > m {
                m = self.blocks[i].height;
            }
        }
        proof {
            assert(dv.take(n as int) =~= dv);
        }
        m
    }
}

} // verus!
