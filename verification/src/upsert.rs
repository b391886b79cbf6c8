//! Taking items into a keyed table: an item is merged into the row that
//! holds its key, or makes a new row under the next number. What follows
//! for the table is proved here once, for every table that works this way.

use crate::rows::{
    distinct_by, has_key, keyed, lemma_keyed_position, lemma_position, lemma_position_is,
    lemma_position_same_keys, numbered_ok, position, refers_into,
};
use vstd::prelude::*;

verus! {

/// How a table takes an item in: which row already holds it, what that row
/// becomes, and what row the item makes under a fresh number.
#[verifier::reject_recursive_types(T)]
#[verifier::reject_recursive_types(P)]
pub struct Upsert<T, P> {
    pub holds: spec_fn(T, P) -> bool,
    pub merge: spec_fn(T, P) -> T,
    pub create: spec_fn(int, P) -> T,
}

/// The test for being the row that holds `item`.
pub open spec fn held_by<T, P>(holds: spec_fn(T, P) -> bool, item: P) -> spec_fn(T) -> bool {
    |r: T| holds(r, item)
}

/// `rows` and the counter `seq` after `item` went in: merged into the first
/// row that holds it, or added at the end under the number after `seq`.
pub open spec fn put<T, P>(rows: Seq<T>, seq: int, item: P, how: Upsert<T, P>) -> (Seq<T>, int) {
    let at = position(rows, held_by(how.holds, item));
    if at < rows.len() {
        (rows.update(at, (how.merge)(rows[at], item)), seq)
    } else {
        (rows.push((how.create)(seq + 1, item)), seq + 1)
    }
}

/// The number of the row that holds `item` once `item` went in.
pub open spec fn put_id<T, P>(
    rows: Seq<T>,
    seq: int,
    item: P,
    holds: spec_fn(T, P) -> bool,
    id: spec_fn(T) -> i64,
) -> i64 {
    let at = position(rows, held_by(holds, item));
    if at < rows.len() {
        id(rows[at])
    } else {
        (seq + 1) as i64
    }
}

/// `rows` and `seq` after every item of `items` went in, one after another.
pub open spec fn put_all<T, P>(rows: Seq<T>, seq: int, items: Seq<P>, how: Upsert<T, P>) -> (
    Seq<T>,
    int,
)
    decreases items.len(),
{
    if items.len() == 0 {
        (rows, seq)
    } else {
        let (r, n) = put_all(rows, seq, items.drop_last(), how);
        put(r, n, items.last(), how)
    }
}

/// Whether `how` goes by the key: a row holds an item exactly when it has
/// the item's key, merging an item into the row that holds it keeps the
/// row's number and key, and a new row has the number it was made under and
/// the item's key.
pub open spec fn fits<T, P, K>(
    how: Upsert<T, P>,
    id: spec_fn(T) -> i64,
    key: spec_fn(T) -> K,
    item_key: spec_fn(P) -> K,
) -> bool {
    &&& forall|r: T, p: P| #[trigger] (how.holds)(r, p) <==> key(r) == item_key(p)
    &&& forall|r: T, p: P|
        key(r) == item_key(p) ==> id(#[trigger] (how.merge)(r, p)) == id(r) && key(
            (how.merge)(r, p),
        ) == key(r)
    &&& forall|n: int, p: P| key(#[trigger] (how.create)(n, p)) == item_key(p)
    &&& forall|n: int, p: P| 0 <= n <= i64::MAX ==> id(#[trigger] (how.create)(n, p)) == n
}

/// Taking one item in keeps a numbered table in order, moves the counter by
/// as much as the table grew, leaves every number in the table, and leaves
/// the item's key in the table.
pub proof fn lemma_put_numbered<T, P, K>(
    rows: Seq<T>,
    seq: int,
    item: P,
    how: Upsert<T, P>,
    id: spec_fn(T) -> i64,
    key: spec_fn(T) -> K,
    item_key: spec_fn(P) -> K,
)
    requires
        numbered_ok(rows, id, key, seq),
        fits(how, id, key, item_key),
        has_key(rows, key, item_key(item)) || seq < i64::MAX,
    ensures
        numbered_ok(put(rows, seq, item, how).0, id, key, put(rows, seq, item, how).1),
        put(rows, seq, item, how).0.len() - rows.len() == put(rows, seq, item, how).1 - seq,
        has_key(rows, key, item_key(item)) ==> put(rows, seq, item, how).1 == seq,
        !has_key(rows, key, item_key(item)) ==> put(rows, seq, item, how).1 == seq + 1,
        has_key(put(rows, seq, item, how).0, key, item_key(item)),
        has_key(put(rows, seq, item, how).0, id, put_id(rows, seq, item, how.holds, id)),
        forall|k: K| has_key(rows, key, k) ==> has_key(put(rows, seq, item, how).0, key, k),
        forall|k: i64| has_key(rows, id, k) ==> has_key(put(rows, seq, item, how).0, id, k),
{
    let held = held_by(how.holds, item);
    let at = position(rows, held);
    let out = put(rows, seq, item, how).0;
    lemma_position(rows, held);
    if at < rows.len() {
        assert(held(rows[at]));
        assert(key(rows[at]) == item_key(item));
        let merged = (how.merge)(rows[at], item);
        assert(id(merged) == id(rows[at]) && key(merged) == key(rows[at]));
        assert(key(out[at]) == item_key(item));
        assert(id(out[at]) == put_id(rows, seq, item, how.holds, id));
        assert forall|i: int, j: int| 0 <= i < j < out.len() implies id(out[i]) != id(out[j])
            && key(out[i]) != key(out[j]) by {
            assert(id(out[i]) == id(rows[i]) && key(out[i]) == key(rows[i]));
            assert(id(out[j]) == id(rows[j]) && key(out[j]) == key(rows[j]));
        }
        assert forall|i: int| 0 <= i < out.len() implies id(#[trigger] out[i]) <= seq by {
            assert(id(out[i]) == id(rows[i]));
        }
        assert forall|k: K| has_key(rows, key, k) implies has_key(out, key, k) by {
            let i = choose|i: int| 0 <= i < rows.len() && key(#[trigger] rows[i]) == k;
            assert(key(out[i]) == key(rows[i]));
        }
        assert forall|k: i64| has_key(rows, id, k) implies has_key(out, id, k) by {
            let i = choose|i: int| 0 <= i < rows.len() && id(#[trigger] rows[i]) == k;
            assert(id(out[i]) == id(rows[i]));
        }
    } else {
        assert forall|i: int| 0 <= i < rows.len() implies key(#[trigger] rows[i]) != item_key(
            item,
        ) by {
            assert(!held(rows[i]));
        }
        assert(!has_key(rows, key, item_key(item)));
        let made = (how.create)(seq + 1, item);
        assert(id(made) == seq + 1 && key(made) == item_key(item));
        assert(out[rows.len() as int] == made);
        assert(id(out[rows.len() as int]) == put_id(rows, seq, item, how.holds, id));
        assert forall|i: int, j: int| 0 <= i < j < out.len() implies id(out[i]) != id(out[j])
            && key(out[i]) != key(out[j]) by {
            assert(out[i] == rows[i]);
            if j < rows.len() {
                assert(out[j] == rows[j]);
            }
        }
        assert forall|i: int| 0 <= i < out.len() implies id(#[trigger] out[i]) <= seq + 1 by {
            if i < rows.len() {
                assert(out[i] == rows[i]);
            }
        }
        assert forall|k: K| has_key(rows, key, k) implies has_key(out, key, k) by {
            let i = choose|i: int| 0 <= i < rows.len() && key(#[trigger] rows[i]) == k;
            assert(out[i] == rows[i]);
        }
        assert forall|k: i64| has_key(rows, id, k) implies has_key(out, id, k) by {
            let i = choose|i: int| 0 <= i < rows.len() && id(#[trigger] rows[i]) == k;
            assert(out[i] == rows[i]);
        }
    }
}

/// Taking one item in keeps every row pointing into `target`, where merging
/// keeps a row's pointer and a new row points at `aim`, which is there.
pub proof fn lemma_put_refers<T, P, U, L>(
    rows: Seq<T>,
    seq: int,
    item: P,
    how: Upsert<T, P>,
    link: spec_fn(T) -> L,
    target: Seq<U>,
    target_key: spec_fn(U) -> L,
    aim: L,
)
    requires
        refers_into(rows, link, target, target_key),
        has_key(target, target_key, aim),
        forall|r: T| link(#[trigger] (how.merge)(r, item)) == link(r),
        link((how.create)(seq + 1, item)) == aim,
    ensures
        refers_into(put(rows, seq, item, how).0, link, target, target_key),
{
    let at = position(rows, held_by(how.holds, item));
    let out = put(rows, seq, item, how).0;
    lemma_position(rows, held_by(how.holds, item));
    assert forall|i: int| 0 <= i < out.len() implies has_key(
        target,
        target_key,
        link(#[trigger] out[i]),
    ) by {
        if at < rows.len() {
            if i == at {
                assert(link(out[i]) == link(rows[at]));
            } else {
                assert(out[i] == rows[i]);
            }
            assert(has_key(target, target_key, link(rows[i])));
        } else if i < rows.len() {
            assert(out[i] == rows[i]);
            assert(has_key(target, target_key, link(rows[i])));
        } else {
            assert(link(out[i]) == aim);
        }
    }
}

/// The counter never falls, and rises by at most one for each item: what
/// a part of the items leaves it at, all of them leave it at or above.
pub proof fn lemma_put_all_grows<T, P>(
    rows: Seq<T>,
    seq: int,
    items: Seq<P>,
    how: Upsert<T, P>,
    k: int,
)
    requires
        0 <= k <= items.len(),
    ensures
        seq <= put_all(rows, seq, items.take(k), how).1 <= put_all(rows, seq, items, how).1,
        put_all(rows, seq, items, how).1 <= seq + items.len(),
        put_all(rows, seq, items, how).0.len() - rows.len() == put_all(rows, seq, items, how).1
            - seq,
    decreases items.len(),
{
    if items.len() == 0 {
        assert(items.take(k) =~= items);
    } else {
        let front = items.drop_last();
        lemma_position(put_all(rows, seq, front, how).0, held_by(how.holds, items.last()));
        if k == items.len() {
            assert(items.take(k) =~= items);
            lemma_put_all_grows(rows, seq, front, how, front.len() as int);
        } else {
            assert(front.take(k) =~= items.take(k));
            lemma_put_all_grows(rows, seq, front, how, k);
        }
    }
}

/// Two ways of taking items in that go by the same key leave the counter at
/// the same number and every place of the table under the same key,
/// whatever else they write into the rows.
pub proof fn lemma_put_all_alike<T, P, K>(
    rows: Seq<T>,
    seq: int,
    items: Seq<P>,
    how: Upsert<T, P>,
    other: Upsert<T, P>,
    id: spec_fn(T) -> i64,
    key: spec_fn(T) -> K,
    item_key: spec_fn(P) -> K,
)
    requires
        fits(how, id, key, item_key),
        fits(other, id, key, item_key),
    ensures
        put_all(rows, seq, items, how).1 == put_all(rows, seq, items, other).1,
        put_all(rows, seq, items, how).0.len() == put_all(rows, seq, items, other).0.len(),
        forall|i: int|
            0 <= i < put_all(rows, seq, items, how).0.len() ==> key(
                #[trigger] put_all(rows, seq, items, how).0[i],
            ) == key(put_all(rows, seq, items, other).0[i]),
    decreases items.len(),
{
    if items.len() > 0 {
        let front = items.drop_last();
        let last = items.last();
        lemma_put_all_alike(rows, seq, front, how, other, id, key, item_key);
        let (a, n) = put_all(rows, seq, front, how);
        let (b, m) = put_all(rows, seq, front, other);
        lemma_held_is_keyed(a, last, how, id, key, item_key);
        lemma_held_is_keyed(b, last, other, id, key, item_key);
        assert forall|i: int| 0 <= i < a.len() implies key(#[trigger] b[i]) == key(a[i]) by {
            assert(key(a[i]) == key(b[i]));
        }
        lemma_position_same_keys(a, b, key, item_key(last));
        lemma_put_others(a, n, last, how, id, key, item_key);
        lemma_put_others(b, m, last, other, id, key, item_key);
        let x = put(a, n, last, how).0;
        let y = put(b, m, last, other).0;
        assert forall|i: int| 0 <= i < x.len() implies key(#[trigger] x[i]) == key(y[i]) by {
            if i < a.len() {
                assert(key(x[i]) == key(a[i]));
                assert(key(y[i]) == key(b[i]));
            } else {
                assert(x[i] == (how.create)(n + 1, last));
                assert(y[i] == (other.create)(m + 1, last));
            }
        }
    }
}

/// Taking items in, one after another, keeps a numbered table in order,
/// moves the counter by as much as the table grew, and leaves in the table
/// every number and key that was there and the key of every item.
pub proof fn lemma_put_all_numbered<T, P, K>(
    rows: Seq<T>,
    seq: int,
    items: Seq<P>,
    how: Upsert<T, P>,
    id: spec_fn(T) -> i64,
    key: spec_fn(T) -> K,
    item_key: spec_fn(P) -> K,
)
    requires
        numbered_ok(rows, id, key, seq),
        fits(how, id, key, item_key),
        put_all(rows, seq, items, how).1 <= i64::MAX,
    ensures
        numbered_ok(put_all(rows, seq, items, how).0, id, key, put_all(rows, seq, items, how).1),
        seq <= put_all(rows, seq, items, how).1 <= seq + items.len(),
        put_all(rows, seq, items, how).0.len() - rows.len() == put_all(rows, seq, items, how).1
            - seq,
        forall|k: K| has_key(rows, key, k) ==> has_key(put_all(rows, seq, items, how).0, key, k),
        forall|k: i64| has_key(rows, id, k) ==> has_key(put_all(rows, seq, items, how).0, id, k),
        forall|i: int|
            0 <= i < items.len() ==> has_key(
                put_all(rows, seq, items, how).0,
                key,
                item_key(#[trigger] items[i]),
            ),
    decreases items.len(),
{
    if items.len() > 0 {
        let front = items.drop_last();
        lemma_put_all_grows(rows, seq, items, how, front.len() as int);
        assert(items.take(front.len() as int) =~= front);
        lemma_put_all_numbered(rows, seq, front, how, id, key, item_key);
        let (r, n) = put_all(rows, seq, front, how);
        lemma_held_is_keyed(r, items.last(), how, id, key, item_key);
        lemma_put_numbered(r, n, items.last(), how, id, key, item_key);
        let out = put_all(rows, seq, items, how).0;
        assert forall|i: int| 0 <= i < items.len() implies has_key(
            out,
            key,
            item_key(#[trigger] items[i]),
        ) by {
            if i < front.len() {
                assert(front[i] == items[i]);
                assert(has_key(r, key, item_key(front[i])));
            }
        }
    }
}

/// Taking items in keeps every row pointing into `target`, where merging
/// keeps a row's pointer and every new row points at `aim`, which is there.
pub proof fn lemma_put_all_refers<T, P, U, L>(
    rows: Seq<T>,
    seq: int,
    items: Seq<P>,
    how: Upsert<T, P>,
    link: spec_fn(T) -> L,
    target: Seq<U>,
    target_key: spec_fn(U) -> L,
    aim: L,
)
    requires
        refers_into(rows, link, target, target_key),
        has_key(target, target_key, aim),
        forall|r: T, p: P| link(#[trigger] (how.merge)(r, p)) == link(r),
        forall|n: int, p: P| link(#[trigger] (how.create)(n, p)) == aim,
    ensures
        refers_into(put_all(rows, seq, items, how).0, link, target, target_key),
    decreases items.len(),
{
    if items.len() > 0 {
        lemma_put_all_refers(rows, seq, items.drop_last(), how, link, target, target_key, aim);
        let (r, n) = put_all(rows, seq, items.drop_last(), how);
        lemma_put_refers(r, n, items.last(), how, link, target, target_key, aim);
    }
}

/// Where merging keeps a row's pointer and every new row points at `aim`,
/// taking items in leaves the rows that were there pointing where they
/// pointed, and every row that came pointing at `aim`.
pub proof fn lemma_put_all_links<T, P, L>(
    rows: Seq<T>,
    seq: int,
    items: Seq<P>,
    how: Upsert<T, P>,
    link: spec_fn(T) -> L,
    aim: L,
)
    requires
        forall|r: T, p: P| link(#[trigger] (how.merge)(r, p)) == link(r),
        forall|n: int, p: P| link(#[trigger] (how.create)(n, p)) == aim,
    ensures
        put_all(rows, seq, items, how).0.len() >= rows.len(),
        forall|i: int|
            0 <= i < rows.len() ==> link(#[trigger] put_all(rows, seq, items, how).0[i]) == link(
                rows[i],
            ),
        forall|i: int|
            rows.len() <= i < put_all(rows, seq, items, how).0.len() ==> link(
                #[trigger] put_all(rows, seq, items, how).0[i],
            ) == aim,
    decreases items.len(),
{
    if items.len() > 0 {
        let front = items.drop_last();
        let last = items.last();
        lemma_put_all_links(rows, seq, front, how, link, aim);
        let (r, n) = put_all(rows, seq, front, how);
        lemma_position(r, held_by(how.holds, last));
        let at = position(r, held_by(how.holds, last));
        let out = put(r, n, last, how).0;
        assert forall|i: int| 0 <= i < out.len() implies link(#[trigger] out[i]) == if i
            < rows.len() {
            link(rows[i])
        } else {
            aim
        } by {
            if at < r.len() {
                if i == at {
                    assert(out[i] == (how.merge)(r[at], last));
                } else {
                    assert(out[i] == r[i]);
                }
                assert(link(out[i]) == link(r[i]));
            } else if i < r.len() {
                assert(out[i] == r[i]);
            } else {
                assert(out[i] == (how.create)(n + 1, last));
            }
        }
    }
}

/// Rows that point into a table still do after the table took an item in.
pub proof fn lemma_refers_after_put<T, P, U, K>(
    rows: Seq<U>,
    link: spec_fn(U) -> i64,
    target: Seq<T>,
    seq: int,
    item: P,
    how: Upsert<T, P>,
    id: spec_fn(T) -> i64,
    key: spec_fn(T) -> K,
    item_key: spec_fn(P) -> K,
)
    requires
        refers_into(rows, link, target, id),
        numbered_ok(target, id, key, seq),
        fits(how, id, key, item_key),
        has_key(target, key, item_key(item)) || seq < i64::MAX,
    ensures
        refers_into(rows, link, put(target, seq, item, how).0, id),
{
    lemma_put_numbered(target, seq, item, how, id, key, item_key);
    assert forall|i: int| 0 <= i < rows.len() implies has_key(
        put(target, seq, item, how).0,
        id,
        link(#[trigger] rows[i]),
    ) by {
        assert(has_key(target, id, link(rows[i])));
    }
}

/// Where `how` goes by the key, the row that holds an item is the first row
/// with the item's key.
pub proof fn lemma_held_is_keyed<T, P, K>(
    rows: Seq<T>,
    item: P,
    how: Upsert<T, P>,
    id: spec_fn(T) -> i64,
    key: spec_fn(T) -> K,
    item_key: spec_fn(P) -> K,
)
    requires
        fits(how, id, key, item_key),
    ensures
        0 <= position(rows, held_by(how.holds, item)) <= rows.len(),
        position(rows, held_by(how.holds, item)) == position(rows, keyed(key, item_key(item))),
        position(rows, held_by(how.holds, item)) < rows.len() <==> has_key(
            rows,
            key,
            item_key(item),
        ),
        position(rows, held_by(how.holds, item)) < rows.len() ==> key(
            rows[position(rows, held_by(how.holds, item))],
        ) == item_key(item),
{
    let held = held_by(how.holds, item);
    let at = position(rows, keyed(key, item_key(item)));
    lemma_keyed_position(rows, key, item_key(item));
    assert forall|j: int| 0 <= j < at implies !held(#[trigger] rows[j]) by {
        assert(key(rows[j]) != item_key(item));
        assert((how.holds)(rows[j], item) <==> key(rows[j]) == item_key(item));
    }
    if at < rows.len() {
        assert((how.holds)(rows[at], item) <==> key(rows[at]) == item_key(item));
        assert(held(rows[at]));
    }
    lemma_position_is(rows, held, at);
}

/// Taking an item in changes no row but the one with the item's key, and
/// no row's number or key.
pub proof fn lemma_put_others<T, P, K>(
    rows: Seq<T>,
    seq: int,
    item: P,
    how: Upsert<T, P>,
    id: spec_fn(T) -> i64,
    key: spec_fn(T) -> K,
    item_key: spec_fn(P) -> K,
)
    requires
        fits(how, id, key, item_key),
    ensures
        put(rows, seq, item, how).0.len() >= rows.len(),
        forall|i: int|
            0 <= i < rows.len() && key(#[trigger] rows[i]) != item_key(item) ==> put(
                rows,
                seq,
                item,
                how,
            ).0[i] == rows[i],
        forall|i: int|
            0 <= i < rows.len() ==> key(#[trigger] put(rows, seq, item, how).0[i]) == key(rows[i])
                && id(put(rows, seq, item, how).0[i]) == id(rows[i]),
{
    lemma_held_is_keyed(rows, item, how, id, key, item_key);
    let at = position(rows, held_by(how.holds, item));
    let out = put(rows, seq, item, how).0;
    if at < rows.len() {
        let merged = (how.merge)(rows[at], item);
        assert(id(merged) == id(rows[at]) && key(merged) == key(rows[at]));
        assert forall|i: int| 0 <= i < rows.len() implies key(#[trigger] out[i]) == key(rows[i])
            && id(out[i]) == id(rows[i]) by {
            if i != at {
                assert(out[i] == rows[i]);
            }
        }
    } else {
        assert forall|i: int| 0 <= i < rows.len() implies key(#[trigger] out[i]) == key(rows[i])
            && id(out[i]) == id(rows[i]) by {
            assert(out[i] == rows[i]);
        }
    }
}

/// The row that holds an item keeps its number when the item comes again.
pub proof fn lemma_put_id_stable<T, P, K>(
    rows: Seq<T>,
    seq: int,
    item: P,
    how: Upsert<T, P>,
    id: spec_fn(T) -> i64,
    key: spec_fn(T) -> K,
    item_key: spec_fn(P) -> K,
)
    requires
        fits(how, id, key, item_key),
        0 <= seq,
        has_key(rows, key, item_key(item)) || seq < i64::MAX,
    ensures
        has_key(put(rows, seq, item, how).0, key, item_key(item)),
        put_id(put(rows, seq, item, how).0, put(rows, seq, item, how).1, item, how.holds, id)
            == put_id(rows, seq, item, how.holds, id),
{
    lemma_held_is_keyed(rows, item, how, id, key, item_key);
    lemma_put_others(rows, seq, item, how, id, key, item_key);
    let held = held_by(how.holds, item);
    let at = position(rows, held);
    let out = put(rows, seq, item, how).0;
    lemma_position(rows, held);
    if at < rows.len() {
        assert(key(out[at]) == key(rows[at]));
    } else {
        let made = (how.create)(seq + 1, item);
        assert(id(made) == seq + 1 && key(made) == item_key(item));
        assert(out[at] == made);
    }
    assert(key(out[at]) == item_key(item));
    assert((how.holds)(out[at], item) <==> key(out[at]) == item_key(item));
    assert forall|j: int| 0 <= j < at implies !held(#[trigger] out[j]) by {
        assert(!held(rows[j]));
        assert(key(out[j]) == key(rows[j]));
        assert((how.holds)(rows[j], item) <==> key(rows[j]) == item_key(item));
        assert((how.holds)(out[j], item) <==> key(out[j]) == item_key(item));
    }
    lemma_position_is(out, held, at);
}

/// Taking items in changes no row whose key is none of theirs, and no row's
/// number or key.
pub proof fn lemma_put_all_others<T, P, K>(
    rows: Seq<T>,
    seq: int,
    items: Seq<P>,
    how: Upsert<T, P>,
    id: spec_fn(T) -> i64,
    key: spec_fn(T) -> K,
    item_key: spec_fn(P) -> K,
)
    requires
        fits(how, id, key, item_key),
    ensures
        put_all(rows, seq, items, how).0.len() >= rows.len(),
        forall|i: int|
            0 <= i < rows.len() && !has_key(items, item_key, key(#[trigger] rows[i])) ==> put_all(
                rows,
                seq,
                items,
                how,
            ).0[i] == rows[i],
        forall|i: int|
            0 <= i < rows.len() ==> key(#[trigger] put_all(rows, seq, items, how).0[i]) == key(
                rows[i],
            ) && id(put_all(rows, seq, items, how).0[i]) == id(rows[i]),
    decreases items.len(),
{
    if items.len() > 0 {
        let front = items.drop_last();
        lemma_put_all_others(rows, seq, front, how, id, key, item_key);
        let (r, n) = put_all(rows, seq, front, how);
        lemma_put_others(r, n, items.last(), how, id, key, item_key);
        let out = put_all(rows, seq, items, how).0;
        assert forall|i: int|
            0 <= i < rows.len() && !has_key(items, item_key, key(#[trigger] rows[i])) implies out[i]
            == rows[i] by {
            assert(items[items.len() - 1] == items.last());
            assert(key(rows[i]) != item_key(items.last()));
            if has_key(front, item_key, key(rows[i])) {
                let j = choose|j: int| 0 <= j < front.len() && item_key(#[trigger] front[j]) == key(rows[i]);
                assert(items[j] == front[j]);
            }
            assert(r[i] == rows[i]);
        }
        assert forall|i: int| 0 <= i < rows.len() implies key(#[trigger] out[i]) == key(rows[i])
            && id(out[i]) == id(rows[i]) by {
            assert(key(r[i]) == key(rows[i]));
        }
    }
}

/// Whether merging an item a second time changes nothing: into a row it
/// was merged into, and into the row it made.
pub open spec fn merges_settle<T, P>(how: Upsert<T, P>) -> bool {
    &&& forall|r: T, p: P| #[trigger] (how.merge)((how.merge)(r, p), p) == (how.merge)(r, p)
    &&& forall|n: int, p: P| (how.merge)(#[trigger] (how.create)(n, p), p) == (how.create)(n, p)
}

/// Whether every row that has the key of one of `items` would stay as it is
/// if that item were merged into it.
pub open spec fn settled<T, P, K>(
    rows: Seq<T>,
    items: Seq<P>,
    how: Upsert<T, P>,
    key: spec_fn(T) -> K,
    item_key: spec_fn(P) -> K,
) -> bool {
    forall|r: int, i: int|
        #![trigger rows[r], items[i]]
        0 <= r < rows.len() && 0 <= i < items.len() && key(rows[r]) == item_key(items[i]) ==> (
        how.merge)(rows[r], items[i]) == rows[r]
}

/// After items with distinct keys went in, every one of them is settled.
pub proof fn lemma_put_all_settles<T, P, K>(
    rows: Seq<T>,
    seq: int,
    items: Seq<P>,
    how: Upsert<T, P>,
    id: spec_fn(T) -> i64,
    key: spec_fn(T) -> K,
    item_key: spec_fn(P) -> K,
)
    requires
        numbered_ok(rows, id, key, seq),
        fits(how, id, key, item_key),
        merges_settle(how),
        put_all(rows, seq, items, how).1 <= i64::MAX,
        distinct_by(items, item_key),
    ensures
        settled(put_all(rows, seq, items, how).0, items, how, key, item_key),
    decreases items.len(),
{
    if items.len() > 0 {
        let front = items.drop_last();
        let last = items.last();
        assert forall|i: int, j: int| 0 <= i < j < front.len() implies item_key(front[i])
            != item_key(front[j]) by {
            assert(front[i] == items[i] && front[j] == items[j]);
        }
        lemma_put_all_grows(rows, seq, items, how, front.len() as int);
        assert(items.take(front.len() as int) =~= front);
        lemma_put_all_settles(rows, seq, front, how, id, key, item_key);
        lemma_put_all_numbered(rows, seq, front, how, id, key, item_key);
        let (r, n) = put_all(rows, seq, front, how);
        lemma_held_is_keyed(r, last, how, id, key, item_key);
        lemma_put_others(r, n, last, how, id, key, item_key);
        lemma_position(r, held_by(how.holds, last));
        let at = position(r, held_by(how.holds, last));
        let out = put(r, n, last, how).0;
        assert forall|x: int, i: int|
            #![trigger out[x], items[i]]
            0 <= x < out.len() && 0 <= i < items.len() && key(out[x]) == item_key(
                items[i],
            ) implies (how.merge)(out[x], items[i]) == out[x] by {
            if i < front.len() {
                assert(front[i] == items[i]);
                assert(items[items.len() - 1] == last);
                assert(item_key(items[i]) != item_key(last));
                if x < r.len() {
                    assert(key(out[x]) == key(r[x]));
                    assert(out[x] == r[x]);
                    assert((how.merge)(r[x], front[i]) == r[x]);
                } else {
                    assert(out[x] == (how.create)(n + 1, last));
                    assert(key((how.create)(n + 1, last)) == item_key(last));
                }
            } else {
                assert(items[i] == last);
                if x < r.len() {
                    assert(key(out[x]) == key(r[x]));
                    if at < r.len() {
                        if x != at {
                            assert(key(r[x]) != key(r[at]));
                        }
                        assert(out[x] == (how.merge)(r[at], last));
                    } else {
                        assert(has_key(r, key, item_key(last)));
                    }
                } else {
                    assert(out[x] == (how.create)(n + 1, last));
                }
            }
        }
    }
}

/// Items that are all in the table and settled change nothing when they go
/// in again.
pub proof fn lemma_put_all_settled_noop<T, P, K>(
    rows: Seq<T>,
    seq: int,
    items: Seq<P>,
    how: Upsert<T, P>,
    id: spec_fn(T) -> i64,
    key: spec_fn(T) -> K,
    item_key: spec_fn(P) -> K,
)
    requires
        fits(how, id, key, item_key),
        settled(rows, items, how, key, item_key),
        forall|i: int| 0 <= i < items.len() ==> has_key(rows, key, item_key(#[trigger] items[i])),
    ensures
        put_all(rows, seq, items, how) == (rows, seq),
    decreases items.len(),
{
    if items.len() > 0 {
        let front = items.drop_last();
        let last = items.last();
        assert forall|r: int, i: int|
            #![trigger rows[r], front[i]]
            0 <= r < rows.len() && 0 <= i < front.len() && key(rows[r]) == item_key(
                front[i],
            ) implies (how.merge)(rows[r], front[i]) == rows[r] by {
            assert(front[i] == items[i]);
        }
        assert forall|i: int| 0 <= i < front.len() implies has_key(
            rows,
            key,
            item_key(#[trigger] front[i]),
        ) by {
            assert(front[i] == items[i]);
        }
        lemma_put_all_settled_noop(rows, seq, front, how, id, key, item_key);
        assert(items[items.len() - 1] == last);
        lemma_held_is_keyed(rows, last, how, id, key, item_key);
        let at = position(rows, held_by(how.holds, last));
        assert((how.merge)(rows[at], items[items.len() - 1]) == rows[at]);
        assert(rows.update(at, rows[at]) =~= rows);
    }
}

/// Items with distinct keys that went in change nothing when they go in
/// again at once.
pub proof fn lemma_put_all_idempotent<T, P, K>(
    rows: Seq<T>,
    seq: int,
    items: Seq<P>,
    how: Upsert<T, P>,
    id: spec_fn(T) -> i64,
    key: spec_fn(T) -> K,
    item_key: spec_fn(P) -> K,
)
    requires
        numbered_ok(rows, id, key, seq),
        fits(how, id, key, item_key),
        merges_settle(how),
        put_all(rows, seq, items, how).1 <= i64::MAX,
        distinct_by(items, item_key),
    ensures
        put_all(
            put_all(rows, seq, items, how).0,
            put_all(rows, seq, items, how).1,
            items,
            how,
        ) == put_all(rows, seq, items, how),
{
    lemma_put_all_numbered(rows, seq, items, how, id, key, item_key);
    lemma_put_all_settles(rows, seq, items, how, id, key, item_key);
    let (r, n) = put_all(rows, seq, items, how);
    lemma_put_all_settled_noop(r, n, items, how, id, key, item_key);
}

/// An item that went in changes nothing when it goes in again at once.
pub proof fn lemma_put_idempotent<T, P, K>(
    rows: Seq<T>,
    seq: int,
    item: P,
    how: Upsert<T, P>,
    id: spec_fn(T) -> i64,
    key: spec_fn(T) -> K,
    item_key: spec_fn(P) -> K,
)
    requires
        numbered_ok(rows, id, key, seq),
        fits(how, id, key, item_key),
        merges_settle(how),
        put(rows, seq, item, how).1 <= i64::MAX,
    ensures
        put(put(rows, seq, item, how).0, put(rows, seq, item, how).1, item, how) == put(
            rows,
            seq,
            item,
            how,
        ),
{
    let one = seq![item];
    let none = one.drop_last();
    assert(none.len() == 0);
    assert(one.last() == item);
    assert(put_all(rows, seq, none, how) == (rows, seq));
    assert(put_all(rows, seq, one, how) == put(rows, seq, item, how));
    lemma_put_all_idempotent(rows, seq, one, how, id, key, item_key);
    let (r, n) = put(rows, seq, item, how);
    assert(put_all(r, n, none, how) == (r, n));
    assert(put_all(r, n, one, how) == put(r, n, item, how));
}

/// Items that are all in the table add no row and move no counter when
/// they go in, whenever that is.
pub proof fn lemma_put_all_again<T, P, K>(
    rows: Seq<T>,
    seq: int,
    items: Seq<P>,
    how: Upsert<T, P>,
    id: spec_fn(T) -> i64,
    key: spec_fn(T) -> K,
    item_key: spec_fn(P) -> K,
)
    requires
        fits(how, id, key, item_key),
        forall|i: int| 0 <= i < items.len() ==> has_key(rows, key, item_key(#[trigger] items[i])),
    ensures
        put_all(rows, seq, items, how).1 == seq,
        put_all(rows, seq, items, how).0.len() == rows.len(),
    decreases items.len(),
{
    if items.len() > 0 {
        let front = items.drop_last();
        let last = items.last();
        assert forall|i: int| 0 <= i < front.len() implies has_key(
            rows,
            key,
            item_key(#[trigger] front[i]),
        ) by {
            assert(front[i] == items[i]);
        }
        lemma_put_all_again(rows, seq, front, how, id, key, item_key);
        lemma_put_all_others(rows, seq, front, how, id, key, item_key);
        let (r, n) = put_all(rows, seq, front, how);
        assert(items[items.len() - 1] == last);
        assert(has_key(rows, key, item_key(last)));
        let w = choose|w: int| 0 <= w < rows.len() && key(#[trigger] rows[w]) == item_key(last);
        assert(key(r[w]) == key(rows[w]));
        assert(has_key(r, key, item_key(last)));
        lemma_held_is_keyed(r, last, how, id, key, item_key);
    }
}

/// The rows that items make when none of their keys is in the table.
pub open spec fn made_rows<T, P>(seq: int, items: Seq<P>, how: Upsert<T, P>) -> Seq<T> {
    Seq::new(items.len(), |i: int| (how.create)(seq + 1 + i, items[i]))
}

/// Items with distinct keys, none of them in the table, each make one row
/// at the end of the table, in their order and under the next numbers.
pub proof fn lemma_put_all_fresh<T, P, K>(
    rows: Seq<T>,
    seq: int,
    items: Seq<P>,
    how: Upsert<T, P>,
    id: spec_fn(T) -> i64,
    key: spec_fn(T) -> K,
    item_key: spec_fn(P) -> K,
)
    requires
        fits(how, id, key, item_key),
        distinct_by(items, item_key),
        forall|i: int| 0 <= i < items.len() ==> !has_key(rows, key, item_key(#[trigger] items[i])),
    ensures
        put_all(rows, seq, items, how) == (rows + made_rows(seq, items, how), seq + items.len()),
    decreases items.len(),
{
    if items.len() == 0 {
        assert(rows + made_rows(seq, items, how) =~= rows);
    } else {
        let front = items.drop_last();
        let last = items.last();
        assert forall|i: int, j: int| 0 <= i < j < front.len() implies item_key(front[i])
            != item_key(front[j]) by {
            assert(front[i] == items[i] && front[j] == items[j]);
        }
        assert forall|i: int| 0 <= i < front.len() implies !has_key(
            rows,
            key,
            item_key(#[trigger] front[i]),
        ) by {
            assert(front[i] == items[i]);
        }
        lemma_put_all_fresh(rows, seq, front, how, id, key, item_key);
        let r = rows + made_rows(seq, front, how);
        let n = seq + front.len();
        assert(items[items.len() - 1] == last);
        assert forall|x: int| 0 <= x < r.len() implies key(#[trigger] r[x]) != item_key(last) by {
            if x < rows.len() {
                assert(r[x] == rows[x]);
            } else {
                let i = x - rows.len();
                assert(r[x] == (how.create)(seq + 1 + i, front[i]));
                assert(key((how.create)(seq + 1 + i, front[i])) == item_key(front[i]));
                assert(front[i] == items[i]);
            }
        }
        assert(!has_key(r, key, item_key(last)));
        lemma_held_is_keyed(r, last, how, id, key, item_key);
        assert(r.push((how.create)(n + 1, last)) =~= rows + made_rows(seq, items, how)) by {
            let want = rows + made_rows(seq, items, how);
            let got = r.push((how.create)(n + 1, last));
            assert(got.len() == want.len());
            assert forall|x: int| 0 <= x < got.len() implies got[x] == want[x] by {
                if x < rows.len() {
                } else if x < r.len() {
                    let i = x - rows.len();
                    assert(front[i] == items[i]);
                } else {
                }
            }
        }
    }
}

} // verus!
