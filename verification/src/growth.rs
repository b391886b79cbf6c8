//! Adding to a table only what it lacks: an item goes in unless a row that
//! is there stands in its way.

use crate::rows::{distinct_by, has_key, lemma_position, lemma_position_is, position};
use vstd::prelude::*;

verus! {

/// The test for standing in the way of `item`.
pub open spec fn clashing<T>(clash: spec_fn(T, T) -> bool, item: T) -> spec_fn(T) -> bool {
    |r: T| clash(r, item)
}

/// `rows` with `item` at the end, unless a row stands in its way.
pub open spec fn absorb_one<T>(rows: Seq<T>, item: T, clash: spec_fn(T, T) -> bool) -> Seq<T> {
    if position(rows, clashing(clash, item)) < rows.len() {
        rows
    } else {
        rows.push(item)
    }
}

/// `rows` after each of `items` in turn went in unless a row stood in its
/// way.
pub open spec fn absorb<T>(rows: Seq<T>, items: Seq<T>, clash: spec_fn(T, T) -> bool) -> Seq<T>
    decreases items.len(),
{
    if items.len() == 0 {
        rows
    } else {
        absorb_one(absorb(rows, items.drop_last(), clash), items.last(), clash)
    }
}

/// What was there stays where it was, as it was.
pub proof fn lemma_absorb_keeps<T>(rows: Seq<T>, items: Seq<T>, clash: spec_fn(T, T) -> bool)
    ensures
        rows.is_prefix_of(absorb(rows, items, clash)),
        absorb(rows, items, clash).len() <= rows.len() + items.len(),
    decreases items.len(),
{
    if items.len() > 0 {
        lemma_absorb_keeps(rows, items.drop_last(), clash);
    }
}

/// After items went in, each of them finds a row in its way, where each
/// stands in its own way.
pub proof fn lemma_absorb_covers<T>(rows: Seq<T>, items: Seq<T>, clash: spec_fn(T, T) -> bool)
    requires
        forall|i: int| 0 <= i < items.len() ==> clash(#[trigger] items[i], items[i]),
    ensures
        forall|i: int|
            0 <= i < items.len() ==> position(
                absorb(rows, items, clash),
                clashing(clash, #[trigger] items[i]),
            ) < absorb(rows, items, clash).len(),
    decreases items.len(),
{
    if items.len() > 0 {
        let front = items.drop_last();
        let last = items.last();
        assert forall|i: int| 0 <= i < front.len() implies clash(#[trigger] front[i], front[i]) by {
            assert(front[i] == items[i]);
        }
        lemma_absorb_covers(rows, front, clash);
        let r = absorb(rows, front, clash);
        let out = absorb(rows, items, clash);
        assert forall|i: int| 0 <= i < items.len() implies position(
            out,
            clashing(clash, #[trigger] items[i]),
        ) < out.len() by {
            let way = clashing(clash, items[i]);
            lemma_position(out, way);
            if i < front.len() {
                assert(front[i] == items[i]);
                lemma_position(r, way);
                let at = position(r, way);
                assert(out[at] == r[at]);
                assert(way(out[at]));
            } else {
                assert(items[i] == last);
                lemma_position(r, way);
                let at = position(r, way);
                if at < r.len() {
                    assert(out[at] == r[at]);
                    assert(way(out[at]));
                } else {
                    assert(out[r.len() as int] == last);
                    assert(way(out[r.len() as int]));
                }
            }
        }
    }
}

/// Items that each find a row in their way change nothing.
pub proof fn lemma_absorb_nothing<T>(rows: Seq<T>, items: Seq<T>, clash: spec_fn(T, T) -> bool)
    requires
        forall|i: int|
            0 <= i < items.len() ==> position(rows, clashing(clash, #[trigger] items[i]))
                < rows.len(),
    ensures
        absorb(rows, items, clash) == rows,
    decreases items.len(),
{
    if items.len() > 0 {
        let front = items.drop_last();
        assert forall|i: int| 0 <= i < front.len() implies position(
            rows,
            clashing(clash, #[trigger] front[i]),
        ) < rows.len() by {
            assert(front[i] == items[i]);
        }
        lemma_absorb_nothing(rows, front, clash);
        assert(items[items.len() - 1] == items.last());
    }
}

/// Items that went in change nothing when they, or items that the same rows
/// stand in the way of, go in again.
pub proof fn lemma_absorb_twice<T>(
    rows: Seq<T>,
    items: Seq<T>,
    again: Seq<T>,
    clash: spec_fn(T, T) -> bool,
)
    requires
        items.len() == again.len(),
        forall|i: int| 0 <= i < items.len() ==> clash(#[trigger] items[i], items[i]),
        forall|i: int, r: T|
            0 <= i < items.len() ==> (#[trigger] clash(r, items[i]) <==> clash(r, again[i])),
    ensures
        absorb(absorb(rows, items, clash), again, clash) == absorb(rows, items, clash),
{
    lemma_absorb_covers(rows, items, clash);
    let out = absorb(rows, items, clash);
    assert forall|i: int| 0 <= i < again.len() implies position(
        out,
        clashing(clash, #[trigger] again[i]),
    ) < out.len() by {
        let way = clashing(clash, items[i]);
        lemma_position(out, way);
        let at = position(out, way);
        assert(way(out[at]));
        assert(clash(out[at], items[i]) <==> clash(out[at], again[i]));
        let other = clashing(clash, again[i]);
        lemma_position(out, other);
        if position(out, other) >= out.len() {
            assert(!other(out[at]));
        }
    }
    lemma_absorb_nothing(out, again, clash);
}

/// Keys that were apart stay apart, where rows with the same key stand in
/// each other's way.
pub proof fn lemma_absorb_distinct<T, K>(
    rows: Seq<T>,
    items: Seq<T>,
    clash: spec_fn(T, T) -> bool,
    key: spec_fn(T) -> K,
)
    requires
        distinct_by(rows, key),
        forall|a: T, b: T| key(a) == key(b) ==> #[trigger] clash(a, b),
    ensures
        distinct_by(absorb(rows, items, clash), key),
    decreases items.len(),
{
    if items.len() > 0 {
        let front = items.drop_last();
        let last = items.last();
        lemma_absorb_distinct(rows, front, clash, key);
        let r = absorb(rows, front, clash);
        let out = absorb(rows, items, clash);
        let way = clashing(clash, last);
        lemma_position(r, way);
        if position(r, way) >= r.len() {
            assert forall|i: int, j: int| 0 <= i < j < out.len() implies key(out[i]) != key(
                out[j],
            ) by {
                assert(out[i] == r[i]);
                if j < r.len() {
                    assert(out[j] == r[j]);
                } else {
                    assert(!way(r[i]));
                    assert(key(r[i]) == key(last) ==> clash(r[i], last));
                }
            }
        }
    }
}

/// Every key that was there is still there.
pub proof fn lemma_absorb_has<T, K>(
    rows: Seq<T>,
    items: Seq<T>,
    clash: spec_fn(T, T) -> bool,
    key: spec_fn(T) -> K,
)
    ensures
        forall|k: K| has_key(rows, key, k) ==> has_key(absorb(rows, items, clash), key, k),
{
    lemma_absorb_keeps(rows, items, clash);
    let out = absorb(rows, items, clash);
    assert forall|k: K| has_key(rows, key, k) implies has_key(out, key, k) by {
        let i = choose|i: int| 0 <= i < rows.len() && key(#[trigger] rows[i]) == k;
        assert(out[i] == rows[i]);
    }
}

/// Puts each of `items` in turn at the end of `rows` unless a row stands in
/// its way.
pub fn absorb_rows<T: DeepView, F: Fn(&T, &T) -> bool>(
    rows: &mut Vec<T>,
    items: Vec<T>,
    f: F,
    Ghost(clash): Ghost<spec_fn(T::V, T::V) -> bool>,
)
    requires
        forall|x: &T, y: &T| #[trigger] f.requires((x, y)),
        forall|x: &T, y: &T, b: bool| #[trigger]
            f.ensures((x, y), b) ==> b == clash(x.deep_view(), y.deep_view()),
    ensures
        final(rows).deep_view() == absorb(old(rows).deep_view(), items.deep_view(), clash),
{
    let ghost before = rows.deep_view();
    let ghost all = items.deep_view();
    let mut rest = items;
    let ghost mut k: int = 0;
    proof {
        assert(all.take(0) =~= Seq::<T::V>::empty());
        assert(rest.deep_view() =~= all.skip(0));
    }
    while rest.len() > 0
        invariant
            forall|x: &T, y: &T| #[trigger] f.requires((x, y)),
            forall|x: &T, y: &T, b: bool| #[trigger]
                f.ensures((x, y), b) ==> b == clash(x.deep_view(), y.deep_view()),
            0 <= k <= all.len(),
            rest.len() == all.len() - k,
            rest.deep_view() =~= all.skip(k),
            rows.deep_view() == absorb(before, all.take(k), clash),
        decreases rest.len(),
    {
        let ghost prior_rest = rest.deep_view();
        let item = rest.remove(0);
        proof {
            assert(item.deep_view() == prior_rest[0]);
            assert(rest.deep_view() =~= prior_rest.remove(0));
            assert(rest.deep_view() =~= all.skip(k + 1));
        }
        let mut j: usize = 0;
        while j < rows.len()
            invariant
                forall|x: &T, y: &T| #[trigger] f.requires((x, y)),
                forall|x: &T, y: &T, b: bool| #[trigger]
                    f.ensures((x, y), b) ==> b == clash(x.deep_view(), y.deep_view()),
                j <= rows.len(),
                forall|i: int| 0 <= i < j ==> !clash(#[trigger] rows.deep_view()[i], item.deep_view()),
            ensures
                j <= rows.len(),
                j < rows.len() ==> clash(rows.deep_view()[j as int], item.deep_view()),
                forall|i: int| 0 <= i < j ==> !clash(#[trigger] rows.deep_view()[i], item.deep_view()),
            decreases rows.len() - j,
        {
            if f(&rows[j], &item) {
                break;
            }
            j += 1;
        }
        proof {
            lemma_position_is(rows.deep_view(), clashing(clash, item.deep_view()), j as int);
            assert(all.take(k + 1).drop_last() =~= all.take(k));
            assert(all.take(k + 1).last() == item.deep_view());
        }
        if j >= rows.len() {
            let ghost prior = rows.deep_view();
            rows.push(item);
            proof {
                assert(rows.deep_view() =~= prior.push(item.deep_view()));
            }
        }
        proof {
            k = k + 1;
        }
    }
    proof {
        assert(all.take(k) =~= all);
    }
}

} // verus!
