//! Helpers shared by every table: finding, selecting, removing, ordering and
//! paging the rows of a vector, each stated over the rows' views.

use vstd::prelude::*;

verus! {

/// Index of the first element of `s` that satisfies `p`, or `s.len()` when
/// no element does.
pub open spec fn position<T>(s: Seq<T>, p: spec_fn(T) -> bool) -> int
    decreases s.len(),
{
    if s.len() == 0 {
        0
    } else if p(s[0]) {
        0
    } else {
        1 + position(s.drop_first(), p)
    }
}

/// `position` lies within bounds, lands on a match when it is an index, and
/// passes over nothing that matches.
pub proof fn lemma_position<T>(s: Seq<T>, p: spec_fn(T) -> bool)
    ensures
        0 <= position(s, p) <= s.len(),
        position(s, p) < s.len() ==> p(s[position(s, p)]),
        forall|j: int| 0 <= j < position(s, p) ==> !p(#[trigger] s[j]),
    decreases s.len(),
{
    if s.len() > 0 && !p(s[0]) {
        let rest = s.drop_first();
        lemma_position(rest, p);
        assert forall|j: int| 0 <= j < position(s, p) implies !p(#[trigger] s[j]) by {
            if j > 0 {
                assert(s[j] == rest[j - 1]);
            }
        }
    }
}

/// An index whose element matches, with no match before it, is the position.
pub proof fn lemma_position_is<T>(s: Seq<T>, p: spec_fn(T) -> bool, i: int)
    requires
        0 <= i <= s.len(),
        i < s.len() ==> p(s[i]),
        forall|j: int| 0 <= j < i ==> !p(#[trigger] s[j]),
    ensures
        position(s, p) == i,
    decreases s.len(),
{
    if s.len() > 0 && i > 0 {
        assert(!p(s[0]));
        let rest = s.drop_first();
        assert forall|j: int| 0 <= j < i - 1 implies !p(#[trigger] rest[j]) by {
            assert(rest[j] == s[j + 1]);
        }
        lemma_position_is(rest, p, i - 1);
    }
}

/// Whether no two elements of `s` have the same key.
pub open spec fn distinct_by<T, K>(s: Seq<T>, key: spec_fn(T) -> K) -> bool {
    forall|i: int, j: int|
        #![trigger s[i], s[j]]
        0 <= i < j < s.len() ==> key(s[i]) != key(s[j])
}

/// Whether some element of `s` has the key `k`.
pub open spec fn has_key<T, K>(s: Seq<T>, key: spec_fn(T) -> K, k: K) -> bool {
    exists|i: int| 0 <= i < s.len() && key(#[trigger] s[i]) == k
}

/// The test for having the key `k`.
pub open spec fn keyed<T, K>(key: spec_fn(T) -> K, k: K) -> spec_fn(T) -> bool {
    |x: T| key(x) == k
}

/// The test for not having the key `k`.
pub open spec fn not_keyed<T, K>(key: spec_fn(T) -> K, k: K) -> spec_fn(T) -> bool {
    |x: T| key(x) != k
}

/// Whether every element of `s` points, through `link`, at the key of some
/// element of `target`.
pub open spec fn refers_into<T, U, K>(
    s: Seq<T>,
    link: spec_fn(T) -> K,
    target: Seq<U>,
    key: spec_fn(U) -> K,
) -> bool {
    forall|i: int| 0 <= i < s.len() ==> has_key(target, key, link(#[trigger] s[i]))
}

/// The position of a key is an index exactly when some element has the key.
pub proof fn lemma_keyed_position<T, K>(s: Seq<T>, key: spec_fn(T) -> K, k: K)
    ensures
        0 <= position(s, keyed(key, k)) <= s.len(),
        position(s, keyed(key, k)) < s.len() <==> has_key(s, key, k),
        position(s, keyed(key, k)) < s.len() ==> key(s[position(s, keyed(key, k))]) == k,
        forall|j: int| 0 <= j < position(s, keyed(key, k)) ==> key(#[trigger] s[j]) != k,
{
    lemma_position(s, keyed(key, k));
    let at = position(s, keyed(key, k));
    if at < s.len() {
        assert(keyed(key, k)(s[at]));
    }
    if has_key(s, key, k) {
        let i = choose|i: int| 0 <= i < s.len() && key(#[trigger] s[i]) == k;
        assert(keyed(key, k)(s[i]));
        if at > i {
            assert(!keyed(key, k)(s[i]));
        }
    }
    assert forall|j: int| 0 <= j < at implies key(#[trigger] s[j]) != k by {
        assert(!keyed(key, k)(s[j]));
    }
}

/// A filtered sequence holds exactly the elements that pass, and keeps keys
/// apart that were apart.
pub proof fn lemma_filter_keys<T, K>(s: Seq<T>, keep: spec_fn(T) -> bool, key: spec_fn(T) -> K)
    ensures
        forall|i: int| 0 <= i < s.filter(keep).len() ==> keep(#[trigger] s.filter(keep)[i]),
        forall|i: int|
            0 <= i < s.filter(keep).len() ==> has_key(s, key, key(#[trigger] s.filter(keep)[i])),
        forall|i: int|
            0 <= i < s.len() && keep(s[i]) ==> has_key(s.filter(keep), key, key(#[trigger] s[i])),
        distinct_by(s, key) ==> distinct_by(s.filter(keep), key),
        s.filter(keep).len() <= s.len(),
        forall|i: int| 0 <= i < s.filter(keep).len() ==> s.contains(#[trigger] s.filter(keep)[i]),
    decreases s.len(),
{
    reveal(Seq::filter);
    let out = s.filter(keep);
    if s.len() > 0 {
        let front = s.drop_last();
        let last = s.last();
        lemma_filter_keys(front, keep, key);
        let sub = front.filter(keep);
        assert forall|i: int| 0 <= i < out.len() implies s.contains(#[trigger] out[i]) by {
            if i < sub.len() {
                assert(front.contains(sub[i]));
                let j = choose|j: int| 0 <= j < front.len() && front[j] == sub[i];
                assert(s[j] == front[j]);
            } else {
                assert(out[i] == s[s.len() - 1]);
            }
        }
        assert forall|i: int| 0 <= i < out.len() implies has_key(s, key, key(#[trigger] out[i])) by {
            if i < sub.len() {
                assert(has_key(front, key, key(sub[i])));
                let j = choose|j: int| 0 <= j < front.len() && key(#[trigger] front[j]) == key(sub[i]);
                assert(s[j] == front[j]);
            } else {
                assert(out[i] == s[s.len() - 1]);
            }
        }
        assert forall|i: int| 0 <= i < s.len() && keep(s[i]) implies has_key(
            out,
            key,
            key(#[trigger] s[i]),
        ) by {
            if i < front.len() {
                assert(front[i] == s[i]);
                assert(has_key(sub, key, key(front[i])));
                let j = choose|j: int| 0 <= j < sub.len() && key(#[trigger] sub[j]) == key(front[i]);
                assert(out[j] == sub[j]);
            } else {
                assert(out[out.len() - 1] == last);
            }
        }
        if distinct_by(s, key) {
            assert forall|i: int, j: int| 0 <= i < j < front.len() implies key(front[i]) != key(
                front[j],
            ) by {
                assert(front[i] == s[i] && front[j] == s[j]);
            }
            assert(distinct_by(front, key));
            assert forall|i: int, j: int| 0 <= i < j < out.len() implies key(out[i]) != key(
                out[j],
            ) by {
                if j < sub.len() {
                    assert(out[i] == sub[i] && out[j] == sub[j]);
                } else {
                    assert(out[j] == last);
                    assert(out[i] == sub[i]);
                    assert(has_key(front, key, key(sub[i])));
                    let m = choose|m: int| 0 <= m < front.len() && key(#[trigger] front[m]) == key(sub[i]);
                    assert(s[m] == front[m]);
                    assert(s[s.len() - 1] == last);
                }
            }
        }
    }
}

/// Filtering by `q` what was filtered by `p` is filtering by `q` alone
/// where `q` allows only what `p` allows, and leaves nothing where `q`
/// allows only what `p` refuses.
pub proof fn lemma_filter_twice<T>(s: Seq<T>, p: spec_fn(T) -> bool, q: spec_fn(T) -> bool)
    ensures
        (forall|x: T| #[trigger] q(x) ==> p(x)) ==> s.filter(p).filter(q) == s.filter(q),
        (forall|x: T| #[trigger] q(x) ==> !p(x)) ==> s.filter(p).filter(q).len() == 0,
    decreases s.len(),
{
    reveal(Seq::filter);
    if s.len() > 0 {
        let front = s.drop_last();
        let last = s.last();
        lemma_filter_twice(front, p, q);
        front.filter(p).lemma_filter_push(last, q);
        if forall|x: T| #[trigger] q(x) ==> p(x) {
            if q(last) {
                assert(p(last));
            }
        }
        if forall|x: T| #[trigger] q(x) ==> !p(x) {
            if p(last) {
                assert(!q(last));
            }
        }
    }
}

/// A sequence whose elements all pass is its own filter.
pub proof fn lemma_filter_all<T>(s: Seq<T>, p: spec_fn(T) -> bool)
    requires
        forall|i: int| 0 <= i < s.len() ==> p(#[trigger] s[i]),
    ensures
        s.filter(p) == s,
    decreases s.len(),
{
    reveal(Seq::filter);
    if s.len() > 0 {
        let front = s.drop_last();
        assert forall|i: int| 0 <= i < front.len() implies p(#[trigger] front[i]) by {
            assert(front[i] == s[i]);
        }
        lemma_filter_all(front, p);
        assert(p(s[s.len() - 1]));
        assert(front.push(s.last()) =~= s);
    }
}

/// A sequence none of whose elements passes has an empty filter.
pub proof fn lemma_filter_none<T>(s: Seq<T>, p: spec_fn(T) -> bool)
    requires
        forall|i: int| 0 <= i < s.len() ==> !p(#[trigger] s[i]),
    ensures
        s.filter(p) == Seq::<T>::empty(),
    decreases s.len(),
{
    reveal(Seq::filter);
    if s.len() > 0 {
        let front = s.drop_last();
        assert forall|i: int| 0 <= i < front.len() implies !p(#[trigger] front[i]) by {
            assert(front[i] == s[i]);
        }
        lemma_filter_none(front, p);
        assert(!p(s[s.len() - 1]));
    } else {
        assert(s =~= Seq::<T>::empty());
    }
}

/// `rows` with the rows that have the key `k` replaced by `more`, which
/// come last: the rows of other keys in their order, then `more`.
#[verifier::opaque]
pub open spec fn replaced<T, K>(rows: Seq<T>, more: Seq<T>, key: spec_fn(T) -> K, k: K) -> Seq<T> {
    rows.filter(not_keyed(key, k)) + more
}

/// What a replacement leaves: the rows of other keys are those that were
/// there, and the rows of the key are the new ones.
pub proof fn lemma_replaced_part<T, K>(rows: Seq<T>, more: Seq<T>, key: spec_fn(T) -> K, k: K)
    requires
        forall|i: int| 0 <= i < more.len() ==> key(#[trigger] more[i]) == k,
    ensures
        replaced(rows, more, key, k).filter(not_keyed(key, k)) == rows.filter(not_keyed(key, k)),
        replaced(rows, more, key, k).filter(keyed(key, k)) == more,
        replaced(rows, more, key, k).len() == rows.filter(not_keyed(key, k)).len() + more.len(),
{
    reveal(replaced);
    let kept = rows.filter(not_keyed(key, k));
    lemma_filter_keys(rows, not_keyed(key, k), key);
    Seq::filter_distributes_over_add(kept, more, not_keyed(key, k));
    Seq::filter_distributes_over_add(kept, more, keyed(key, k));
    assert forall|i: int| 0 <= i < kept.len() implies not_keyed(key, k)(#[trigger] kept[i])
        && !keyed(key, k)(kept[i]) by {}
    assert forall|i: int| 0 <= i < more.len() implies !not_keyed(key, k)(#[trigger] more[i])
        && keyed(key, k)(more[i]) by {}
    lemma_filter_all(kept, not_keyed(key, k));
    lemma_filter_none(more, not_keyed(key, k));
    lemma_filter_none(kept, keyed(key, k));
    lemma_filter_all(more, keyed(key, k));
    assert(kept + Seq::<T>::empty() =~= kept);
    assert(Seq::<T>::empty() + more =~= more);
}

/// Replacing the rows of a key gives the same whatever rows of that key
/// were there.
pub proof fn lemma_replaced_same<T, K>(
    a: Seq<T>,
    b: Seq<T>,
    more: Seq<T>,
    key: spec_fn(T) -> K,
    k: K,
)
    requires
        a.filter(not_keyed(key, k)) == b.filter(not_keyed(key, k)),
    ensures
        replaced(a, more, key, k) == replaced(b, more, key, k),
{
    reveal(replaced);
}

/// Replacing the rows of a key twice leaves what the second replacement
/// alone would leave: as many rows as after the first where as many rows
/// are put in, and the rows of the key are each time the rows put in.
pub proof fn lemma_replaced_twice<T, K>(
    rows: Seq<T>,
    first: Seq<T>,
    second: Seq<T>,
    key: spec_fn(T) -> K,
    k: K,
)
    requires
        forall|i: int| 0 <= i < first.len() ==> key(#[trigger] first[i]) == k,
        forall|i: int| 0 <= i < second.len() ==> key(#[trigger] second[i]) == k,
    ensures
        replaced(replaced(rows, first, key, k), second, key, k) == replaced(rows, second, key, k),
        replaced(rows, first, key, k).filter(keyed(key, k)) == first,
        replaced(rows, second, key, k).filter(keyed(key, k)) == second,
        first.len() == second.len() ==> replaced(rows, second, key, k).len() == replaced(
            rows,
            first,
            key,
            k,
        ).len(),
{
    lemma_replaced_part(rows, first, key, k);
    lemma_replaced_part(rows, second, key, k);
    lemma_replaced_same(replaced(rows, first, key, k), rows, second, key, k);
}

/// Something passes exactly when the filter is not empty.
pub proof fn lemma_filter_nonempty<T>(s: Seq<T>, p: spec_fn(T) -> bool)
    ensures
        s.filter(p).len() > 0 <==> position(s, p) < s.len(),
{
    lemma_position(s, p);
    lemma_filter_keys(s, p, |x: T| x);
    let at = position(s, p);
    if at < s.len() {
        assert(p(s[at]));
        assert(has_key(s.filter(p), |x: T| x, (|x: T| x)(s[at])));
    }
    if s.filter(p).len() > 0 {
        let x = s.filter(p)[0];
        assert(p(x));
        assert(s.contains(x));
        let j = choose|j: int| 0 <= j < s.len() && s[j] == x;
        if at >= s.len() {
            assert(!p(s[j]));
        }
    }
}

/// Two sequences of one length that pass a test at the same places have as
/// many elements that pass.
pub proof fn lemma_filter_len_alike<T>(a: Seq<T>, b: Seq<T>, p: spec_fn(T) -> bool)
    requires
        a.len() == b.len(),
        forall|i: int| 0 <= i < a.len() ==> p(#[trigger] a[i]) == p(b[i]),
    ensures
        a.filter(p).len() == b.filter(p).len(),
    decreases a.len(),
{
    reveal(Seq::filter);
    if a.len() > 0 {
        let x = a.drop_last();
        let y = b.drop_last();
        assert forall|i: int| 0 <= i < x.len() implies p(#[trigger] x[i]) == p(y[i]) by {
            assert(x[i] == a[i] && y[i] == b[i]);
            assert(p(a[i]) == p(b[i]));
        }
        lemma_filter_len_alike(x, y, p);
        assert(p(a[a.len() - 1]) == p(b[a.len() - 1]));
    }
}

/// Where no key occurs twice, a key that occurs is the key of exactly one
/// element.
pub proof fn lemma_one_with_key<T, K>(s: Seq<T>, key: spec_fn(T) -> K, k: K)
    requires
        distinct_by(s, key),
    ensures
        has_key(s, key, k) ==> s.filter(keyed(key, k)).len() == 1,
        !has_key(s, key, k) ==> s.filter(keyed(key, k)).len() == 0,
    decreases s.len(),
{
    reveal(Seq::filter);
    if s.len() > 0 {
        let front = s.drop_last();
        let last = s.last();
        assert forall|i: int, j: int| 0 <= i < j < front.len() implies key(front[i]) != key(
            front[j],
        ) by {
            assert(front[i] == s[i] && front[j] == s[j]);
        }
        lemma_one_with_key(front, key, k);
        if has_key(front, key, k) {
            let i = choose|i: int| 0 <= i < front.len() && key(#[trigger] front[i]) == k;
            assert(s[i] == front[i]);
            assert(s[s.len() - 1] == last);
            assert(key(s[i]) != key(s[s.len() - 1]));
            assert(has_key(s, key, k));
        } else if key(last) == k {
            assert(key(s[s.len() - 1]) == k);
        } else {
            if has_key(s, key, k) {
                let i = choose|i: int| 0 <= i < s.len() && key(#[trigger] s[i]) == k;
                if i < front.len() {
                    assert(front[i] == s[i]);
                }
            }
        }
    }
}

/// A numbered table that is in order stays in order when rows leave.
pub proof fn lemma_filter_numbered<T, K>(
    s: Seq<T>,
    keep: spec_fn(T) -> bool,
    id: spec_fn(T) -> i64,
    key: spec_fn(T) -> K,
    seq: int,
)
    requires
        numbered_ok(s, id, key, seq),
    ensures
        numbered_ok(s.filter(keep), id, key, seq),
{
    lemma_filter_keys(s, keep, id);
    lemma_filter_keys(s, keep, key);
    let out = s.filter(keep);
    assert forall|i: int| 0 <= i < out.len() implies id(#[trigger] out[i]) <= seq by {
        assert(s.contains(out[i]));
        let j = choose|j: int| 0 <= j < s.len() && s[j] == out[i];
        assert(id(s[j]) <= seq);
    }
}

/// Rows that point into a table still do after rows left both, where the
/// rows that stay point only at rows that stay.
pub proof fn lemma_filter_refers<T, U, L>(
    s: Seq<T>,
    keep: spec_fn(T) -> bool,
    link: spec_fn(T) -> L,
    target: Seq<U>,
    keep_target: spec_fn(U) -> bool,
    target_key: spec_fn(U) -> L,
)
    requires
        refers_into(s, link, target, target_key),
        forall|i: int, j: int|
            #![trigger s[i], target[j]]
            0 <= i < s.len() && 0 <= j < target.len() && keep(s[i]) && target_key(target[j])
                == link(s[i]) ==> keep_target(target[j]),
    ensures
        refers_into(s.filter(keep), link, target.filter(keep_target), target_key),
{
    lemma_filter_keys(s, keep, link);
    lemma_filter_keys(target, keep_target, target_key);
    let out = s.filter(keep);
    assert forall|x: int| 0 <= x < out.len() implies has_key(
        target.filter(keep_target),
        target_key,
        link(#[trigger] out[x]),
    ) by {
        assert(s.contains(out[x]));
        let i = choose|i: int| 0 <= i < s.len() && s[i] == out[x];
        assert(has_key(target, target_key, link(s[i])));
        let j = choose|j: int| 0 <= j < target.len() && target_key(#[trigger] target[j]) == link(s[i]);
        assert(keep(out[x]));
        assert(keep_target(target[j]));
    }
}

/// `s` with the first element that has the key `k`, if there is one,
/// changed by `change`.
pub open spec fn changed<T, K>(
    s: Seq<T>,
    key: spec_fn(T) -> K,
    k: K,
    change: spec_fn(T) -> T,
) -> Seq<T> {
    let at = position(s, keyed(key, k));
    if at < s.len() {
        s.update(at, change(s[at]))
    } else {
        s
    }
}

/// Changing an element in a way that keeps what `other` reads keeps what
/// `other` reads of every element.
pub proof fn lemma_changed_keeps<T, K, L>(
    s: Seq<T>,
    key: spec_fn(T) -> K,
    k: K,
    change: spec_fn(T) -> T,
    other: spec_fn(T) -> L,
)
    requires
        forall|x: T| other(#[trigger] change(x)) == other(x),
    ensures
        changed(s, key, k, change).len() == s.len(),
        forall|i: int|
            0 <= i < s.len() ==> other(#[trigger] changed(s, key, k, change)[i]) == other(s[i]),
        distinct_by(s, other) ==> distinct_by(changed(s, key, k, change), other),
        forall|l: L| has_key(s, other, l) ==> has_key(changed(s, key, k, change), other, l),
        forall|l: L| has_key(changed(s, key, k, change), other, l) ==> has_key(s, other, l),
{
    let out = changed(s, key, k, change);
    lemma_position(s, keyed(key, k));
    let at = position(s, keyed(key, k));
    assert forall|i: int| 0 <= i < s.len() implies other(#[trigger] out[i]) == other(s[i]) by {
        if at < s.len() && i == at {
            assert(out[i] == change(s[at]));
        }
    }
    if distinct_by(s, other) {
        assert forall|i: int, j: int| 0 <= i < j < out.len() implies other(out[i]) != other(
            out[j],
        ) by {
            assert(other(out[i]) == other(s[i]) && other(out[j]) == other(s[j]));
        }
    }
    assert forall|l: L| has_key(s, other, l) implies has_key(out, other, l) by {
        let i = choose|i: int| 0 <= i < s.len() && other(#[trigger] s[i]) == l;
        assert(other(out[i]) == other(s[i]));
    }
    assert forall|l: L| has_key(out, other, l) implies has_key(s, other, l) by {
        let i = choose|i: int| 0 <= i < out.len() && other(#[trigger] out[i]) == l;
        assert(other(out[i]) == other(s[i]));
    }
}

/// Changing every element in a way that keeps what `other` reads keeps
/// what `other` reads of every element.
pub proof fn lemma_mapped_keeps<T, L>(s: Seq<T>, change: spec_fn(T) -> T, other: spec_fn(T) -> L)
    requires
        forall|x: T| other(#[trigger] change(x)) == other(x),
    ensures
        distinct_by(s, other) ==> distinct_by(s.map_values(change), other),
        forall|l: L| has_key(s, other, l) ==> has_key(s.map_values(change), other, l),
        forall|l: L| has_key(s.map_values(change), other, l) ==> has_key(s, other, l),
{
    let out = s.map_values(change);
    if distinct_by(s, other) {
        assert forall|i: int, j: int| 0 <= i < j < out.len() implies other(out[i]) != other(
            out[j],
        ) by {
            assert(out[i] == change(s[i]) && out[j] == change(s[j]));
            assert(other(s[i]) != other(s[j]));
        }
    }
    assert forall|l: L| has_key(s, other, l) implies has_key(out, other, l) by {
        let i = choose|i: int| 0 <= i < s.len() && other(#[trigger] s[i]) == l;
        assert(out[i] == change(s[i]));
    }
    assert forall|l: L| has_key(out, other, l) implies has_key(s, other, l) by {
        let i = choose|i: int| 0 <= i < out.len() && other(#[trigger] out[i]) == l;
        assert(out[i] == change(s[i]));
        assert(other(s[i]) == l);
    }
}

/// Rows that point into a table still do when the table keeps all its keys.
pub proof fn lemma_refers_kept<T, U, L>(
    s: Seq<T>,
    link: spec_fn(T) -> L,
    target: Seq<U>,
    after: Seq<U>,
    target_key: spec_fn(U) -> L,
)
    requires
        refers_into(s, link, target, target_key),
        forall|l: L| has_key(target, target_key, l) ==> has_key(after, target_key, l),
    ensures
        refers_into(s, link, after, target_key),
{
    assert forall|i: int| 0 <= i < s.len() implies has_key(
        after,
        target_key,
        link(#[trigger] s[i]),
    ) by {
        assert(has_key(target, target_key, link(s[i])));
    }
}

/// Two runs of rows with distinct keys, no key of the one in the other,
/// make one run with distinct keys; and where both point into a table, so
/// does the whole.
pub proof fn lemma_joined<T, K, U, L>(
    rows: Seq<T>,
    more: Seq<T>,
    key: spec_fn(T) -> K,
    link: spec_fn(T) -> L,
    target: Seq<U>,
    target_key: spec_fn(U) -> L,
)
    requires
        distinct_by(rows, key),
        distinct_by(more, key),
        forall|i: int, j: int|
            #![trigger rows[i], more[j]]
            0 <= i < rows.len() && 0 <= j < more.len() ==> key(rows[i]) != key(more[j]),
        refers_into(rows, link, target, target_key),
        refers_into(more, link, target, target_key),
    ensures
        distinct_by(rows + more, key),
        refers_into(rows + more, link, target, target_key),
{
    let out = rows + more;
    assert forall|i: int, j: int| 0 <= i < j < out.len() implies key(out[i]) != key(out[j]) by {
        if j < rows.len() {
            assert(out[i] == rows[i] && out[j] == rows[j]);
        } else if i < rows.len() {
            assert(out[i] == rows[i] && out[j] == more[j - rows.len()]);
        } else {
            assert(out[i] == more[i - rows.len()] && out[j] == more[j - rows.len()]);
        }
    }
    assert forall|i: int| 0 <= i < out.len() implies has_key(
        target,
        target_key,
        link(#[trigger] out[i]),
    ) by {
        if i < rows.len() {
            assert(out[i] == rows[i]);
            assert(has_key(target, target_key, link(rows[i])));
        } else {
            assert(out[i] == more[i - rows.len()]);
            assert(has_key(target, target_key, link(more[i - rows.len()])));
        }
    }
}

/// `s` without the later occurrences of what occurs more than once.
pub open spec fn first_of_each<T>(s: Seq<T>) -> Seq<T>
    decreases s.len(),
{
    if s.len() == 0 {
        s
    } else {
        let front = first_of_each(s.drop_last());
        if front.contains(s.last()) {
            front
        } else {
            front.push(s.last())
        }
    }
}

/// Two sequences of the same length whose elements have the same keys,
/// place by place, find every key at the same place.
pub proof fn lemma_position_same_keys<T, K>(s: Seq<T>, t: Seq<T>, key: spec_fn(T) -> K, k: K)
    requires
        s.len() == t.len(),
        forall|i: int| 0 <= i < s.len() ==> key(#[trigger] t[i]) == key(s[i]),
    ensures
        position(t, keyed(key, k)) == position(s, keyed(key, k)),
{
    lemma_keyed_position(s, key, k);
    let at = position(s, keyed(key, k));
    assert forall|j: int| 0 <= j < at implies !keyed(key, k)(#[trigger] t[j]) by {
        assert(key(t[j]) == key(s[j]));
    }
    if at < s.len() {
        assert(key(t[at]) == key(s[at]));
        assert(keyed(key, k)(t[at]));
    }
    lemma_position_is(t, keyed(key, k), at);
}

/// Whether the rows of a numbered table are in order: the counter is a
/// number that can be handed out, no number and no key occurs twice, and no
/// row has a number beyond the counter.
pub open spec fn numbered_ok<T, K>(
    rows: Seq<T>,
    id: spec_fn(T) -> i64,
    key: spec_fn(T) -> K,
    seq: int,
) -> bool {
    &&& 0 <= seq <= i64::MAX
    &&& distinct_by(rows, id)
    &&& distinct_by(rows, key)
    &&& forall|i: int| 0 <= i < rows.len() ==> id(#[trigger] rows[i]) <= seq
}

/// Where `x` goes in `s`, already ordered: in front of the first element
/// that `x` must precede.
pub open spec fn insert_ordered<T>(s: Seq<T>, x: T, before: spec_fn(T, T) -> bool) -> Seq<T> {
    s.insert(position(s, |e: T| before(x, e)), x)
}

/// `s` ordered by `before`, elements that neither precedes the other keeping
/// the order they had in `s`.
pub open spec fn ordered_by<T>(s: Seq<T>, before: spec_fn(T, T) -> bool) -> Seq<T>
    decreases s.len(),
{
    if s.len() == 0 {
        s
    } else {
        insert_ordered(ordered_by(s.drop_last(), before), s.last(), before)
    }
}

/// Whether `before` can be ordered by: nothing comes before itself, and
/// coming before carries over.
pub open spec fn sortable<T>(before: spec_fn(T, T) -> bool) -> bool {
    &&& forall|a: T| !#[trigger] before(a, a)
    &&& forall|a: T, b: T, c: T| #[trigger] before(a, b) && #[trigger] before(b, c) ==> before(a, c)
}

/// Whether no element of `s` stands behind one that it comes before.
pub open spec fn in_order<T>(s: Seq<T>, before: spec_fn(T, T) -> bool) -> bool {
    forall|i: int, j: int| #![trigger s[i], s[j]] 0 <= i < j < s.len() ==> !before(s[j], s[i])
}

/// Ordering keeps every element, each as often as it was there, and leaves
/// no element behind one that it comes before.
pub proof fn lemma_ordered_by<T>(s: Seq<T>, before: spec_fn(T, T) -> bool)
    requires
        sortable(before),
    ensures
        ordered_by(s, before).len() == s.len(),
        ordered_by(s, before).to_multiset() == s.to_multiset(),
        in_order(ordered_by(s, before), before),
    decreases s.len(),
{
    if s.len() > 0 {
        let front = s.drop_last();
        let x = s.last();
        lemma_ordered_by(front, before);
        let r = ordered_by(front, before);
        let goes = |e: T| before(x, e);
        lemma_position(r, goes);
        let k = position(r, goes);
        let out = r.insert(k, x);
        assert(ordered_by(s, before) == out);
        vstd::seq_lib::to_multiset_insert(r, k, x);
        assert(front.push(x) =~= s);
        vstd::seq_lib::to_multiset_build(front, x);
        assert forall|i: int, j: int| 0 <= i < j < out.len() implies !before(out[j], out[i]) by {
            if j < k {
                assert(out[i] == r[i] && out[j] == r[j]);
            } else if j == k {
                assert(out[j] == x && out[i] == r[i]);
                assert(!goes(r[i]));
            } else if i < k {
                assert(out[i] == r[i] && out[j] == r[j - 1]);
            } else if i == k {
                assert(out[i] == x && out[j] == r[j - 1]);
                assert(goes(r[k]));
                if j - 1 > k {
                    assert(!before(r[j - 1], r[k]));
                }
                if before(r[j - 1], x) {
                    assert(before(x, r[k]));
                    assert(before(r[j - 1], r[k]));
                }
            } else {
                assert(out[i] == r[i - 1] && out[j] == r[j - 1]);
            }
        }
    }
}

/// What is ordered holds exactly what was there.
pub proof fn lemma_ordered_by_holds<T>(s: Seq<T>, before: spec_fn(T, T) -> bool)
    requires
        sortable(before),
    ensures
        forall|x: T| #[trigger] ordered_by(s, before).contains(x) <==> s.contains(x),
{
    lemma_ordered_by(s, before);
    assert forall|x: T| #[trigger] ordered_by(s, before).contains(x) <==> s.contains(x) by {
        vstd::seq_lib::to_multiset_contains(ordered_by(s, before), x);
        vstd::seq_lib::to_multiset_contains(s, x);
    }
}

/// A window of what is in order is in order, holds only what was there,
/// and is no longer than a limit that is not negative.
pub proof fn lemma_page<T>(s: Seq<T>, before: spec_fn(T, T) -> bool, limit: i64, offset: i64)
    ensures
        in_order(s, before) ==> in_order(page(s, limit, offset), before),
        forall|i: int|
            0 <= i < page(s, limit, offset).len() ==> s.contains(#[trigger] page(s, limit, offset)[i]),
        page(s, limit, offset).len() <= s.len(),
        limit >= 0 ==> page(s, limit, offset).len() <= limit,
{
    let out = page(s, limit, offset);
    let start = if offset < 0 {
        0
    } else if offset > s.len() {
        s.len() as int
    } else {
        offset as int
    };
    assert forall|i: int| 0 <= i < out.len() implies s.contains(#[trigger] out[i]) by {
        assert(out[i] == s[start + i]);
    }
    if in_order(s, before) {
        assert forall|i: int, j: int| 0 <= i < j < out.len() implies !before(out[j], out[i]) by {
            assert(out[i] == s[start + i] && out[j] == s[start + j]);
        }
    }
}

/// The window of `s` that a query with the given limit and offset returns: a
/// negative offset skips nothing, a negative limit keeps everything.
pub open spec fn page<T>(s: Seq<T>, limit: i64, offset: i64) -> Seq<T> {
    let start = if offset < 0 {
        0
    } else if offset > s.len() {
        s.len() as int
    } else {
        offset as int
    };
    let end = if limit < 0 || start + limit > s.len() {
        s.len() as int
    } else {
        start + limit
    };
    s.subrange(start, end)
}

/// Whether cloning a `T` keeps its view.
pub open spec fn clone_keeps_view<T: DeepView + Clone>() -> bool {
    forall|a: T, b: T| #[trigger] cloned::<T>(a, b) ==> b.deep_view() == a.deep_view()
}

/// Mapping one element more of `s` adds its image at the end.
pub proof fn lemma_map_step<A, B>(s: Seq<A>, f: spec_fn(A) -> B, i: int)
    requires
        0 <= i < s.len(),
    ensures
        s.take(i + 1).map_values(f) == s.take(i).map_values(f).push(f(s[i])),
{
    assert(s.take(i + 1).map_values(f) =~= s.take(i).map_values(f).push(f(s[i])));
}

/// The view of a vector that got one row more at its end.
pub proof fn lemma_pushed<T: DeepView>(before: Vec<T>, after: Vec<T>, x: T)
    requires
        after@ == before@.push(x),
    ensures
        after.deep_view() == before.deep_view().push(x.deep_view()),
{
    assert(after.deep_view() =~= before.deep_view().push(x.deep_view()));
}

/// A copy of an optional text.
pub fn clone_text(o: &Option<String>) -> (r: Option<String>)
    ensures
        r.deep_view() == o.deep_view(),
{
    match o {
        Some(s) => Some(s.clone()),
        None => None,
    }
}

/// A copy of every row of `rows`, in order.
pub fn clone_all<T: DeepView + Clone>(rows: &Vec<T>) -> (r: Vec<T>)
    requires
        clone_keeps_view::<T>(),
    ensures
        r.deep_view() == rows.deep_view(),
{
    let mut out: Vec<T> = Vec::new();
    let mut i: usize = 0;
    while i < rows.len()
        invariant
            clone_keeps_view::<T>(),
            i <= rows.len(),
            out.deep_view() =~= rows.deep_view().take(i as int),
        decreases rows.len() - i,
    {
        let copy = rows[i].clone();
        let ghost prior = out.deep_view();
        proof {
            assert(cloned::<T>(rows[i as int], copy));
        }
        out.push(copy);
        proof {
            assert(out.deep_view() =~= prior.push(copy.deep_view()));
            assert(rows.deep_view().take(i as int + 1) =~= prior.push(rows.deep_view()[i as int]));
        }
        i += 1;
    }
    proof {
        assert(rows.deep_view().take(i as int) =~= rows.deep_view());
    }
    out
}

/// The texts of `texts`, each once, in the order of their first
/// occurrence.
pub fn distinct_texts(texts: &Vec<String>) -> (r: Vec<String>)
    ensures
        r.deep_view() == first_of_each(texts.deep_view()),
{
    let ghost all = texts.deep_view();
    let mut out: Vec<String> = Vec::new();
    let mut i: usize = 0;
    proof {
        assert(all.take(0) =~= Seq::<Seq<char>>::empty());
        assert(out.deep_view() =~= first_of_each(all.take(0)));
    }
    while i < texts.len()
        invariant
            i <= texts.len(),
            all == texts.deep_view(),
            out.deep_view() == first_of_each(all.take(i as int)),
        decreases texts.len() - i,
    {
        let t = &texts[i];
        let mut j: usize = 0;
        let mut seen = false;
        while j < out.len()
            invariant_except_break
                !seen,
                forall|k: int| 0 <= k < j ==> out.deep_view()[k] != t@,
            invariant
                j <= out.len(),
            ensures
                j <= out.len(),
                seen ==> j < out.len() && out.deep_view()[j as int] == t@,
                !seen ==> forall|k: int| 0 <= k < out.len() ==> out.deep_view()[k] != t@,
            decreases out.len() - j,
        {
            if out[j] == *t {
                seen = true;
                break;
            }
            j += 1;
        }
        proof {
            assert(all.take(i as int + 1).drop_last() =~= all.take(i as int));
            assert(all.take(i as int + 1).last() == t@);
            if seen {
                assert(out.deep_view().contains(t@));
            } else {
                assert(!out.deep_view().contains(t@));
            }
        }
        if !seen {
            let copy = t.clone();
            let ghost prior = out;
            out.push(copy);
            proof {
                lemma_pushed(prior, out, copy);
            }
        }
        i += 1;
    }
    proof {
        assert(all.take(i as int) =~= all);
    }
    out
}

/// Whether no two rows of `rows` have the same key.
pub fn all_distinct<T: DeepView, K, F: Fn(&T, &T) -> bool>(
    rows: &Vec<T>,
    f: F,
    Ghost(key): Ghost<spec_fn(T::V) -> K>,
) -> (r: bool)
    requires
        forall|x: &T, y: &T| #[trigger] f.requires((x, y)),
        forall|x: &T, y: &T, b: bool| #[trigger]
            f.ensures((x, y), b) ==> b == (key(x.deep_view()) == key(y.deep_view())),
    ensures
        r == distinct_by(rows.deep_view(), key),
{
    let mut j: usize = 0;
    while j < rows.len()
        invariant
            forall|x: &T, y: &T| #[trigger] f.requires((x, y)),
            forall|x: &T, y: &T, b: bool| #[trigger]
                f.ensures((x, y), b) ==> b == (key(x.deep_view()) == key(y.deep_view())),
            j <= rows.len(),
            forall|a: int, b: int|
                #![trigger rows.deep_view()[a], rows.deep_view()[b]]
                0 <= a < b < j ==> key(rows.deep_view()[a]) != key(rows.deep_view()[b]),
        decreases rows.len() - j,
    {
        let mut i: usize = 0;
        while i < j
            invariant
                forall|x: &T, y: &T| #[trigger] f.requires((x, y)),
                forall|x: &T, y: &T, b: bool| #[trigger]
                    f.ensures((x, y), b) ==> b == (key(x.deep_view()) == key(y.deep_view())),
                i <= j,
                j < rows.len(),
                forall|a: int|
                    0 <= a < i ==> key(#[trigger] rows.deep_view()[a]) != key(
                        rows.deep_view()[j as int],
                    ),
            decreases j - i,
        {
            if f(&rows[i], &rows[j]) {
                proof {
                    assert(key(rows.deep_view()[i as int]) == key(rows.deep_view()[j as int]));
                }
                return false;
            }
            i += 1;
        }
        j += 1;
    }
    true
}

/// Whether every row of `rows` points at a row of `targets`.
pub fn all_refer<T: DeepView, U: DeepView, L, F: Fn(&T, &U) -> bool>(
    rows: &Vec<T>,
    targets: &Vec<U>,
    f: F,
    Ghost(link): Ghost<spec_fn(T::V) -> L>,
    Ghost(target_key): Ghost<spec_fn(U::V) -> L>,
) -> (r: bool)
    requires
        forall|x: &T, y: &U| #[trigger] f.requires((x, y)),
        forall|x: &T, y: &U, b: bool| #[trigger]
            f.ensures((x, y), b) ==> b == (link(x.deep_view()) == target_key(y.deep_view())),
    ensures
        r == refers_into(rows.deep_view(), link, targets.deep_view(), target_key),
{
    let mut i: usize = 0;
    while i < rows.len()
        invariant
            forall|x: &T, y: &U| #[trigger] f.requires((x, y)),
            forall|x: &T, y: &U, b: bool| #[trigger]
                f.ensures((x, y), b) ==> b == (link(x.deep_view()) == target_key(y.deep_view())),
            i <= rows.len(),
            forall|a: int|
                0 <= a < i ==> has_key(
                    targets.deep_view(),
                    target_key,
                    link(#[trigger] rows.deep_view()[a]),
                ),
        decreases rows.len() - i,
    {
        let mut j: usize = 0;
        let mut found = false;
        while j < targets.len()
            invariant_except_break
                !found,
                forall|b: int|
                    0 <= b < j ==> target_key(#[trigger] targets.deep_view()[b]) != link(
                        rows.deep_view()[i as int],
                    ),
            invariant
                forall|x: &T, y: &U| #[trigger] f.requires((x, y)),
                forall|x: &T, y: &U, b: bool| #[trigger]
                    f.ensures((x, y), b) ==> b == (link(x.deep_view()) == target_key(
                        y.deep_view(),
                    )),
                i < rows.len(),
                j <= targets.len(),
            ensures
                found ==> has_key(
                    targets.deep_view(),
                    target_key,
                    link(rows.deep_view()[i as int]),
                ),
                !found ==> forall|b: int|
                    0 <= b < targets.len() ==> target_key(#[trigger] targets.deep_view()[b])
                        != link(rows.deep_view()[i as int]),
            decreases targets.len() - j,
        {
            if f(&rows[i], &targets[j]) {
                found = true;
                proof {
                    assert(target_key(targets.deep_view()[j as int]) == link(
                        rows.deep_view()[i as int],
                    ));
                }
                break;
            }
            j += 1;
        }
        if !found {
            proof {
                assert(!has_key(targets.deep_view(), target_key, link(rows.deep_view()[i as int])));
            }
            return false;
        }
        i += 1;
    }
    true
}

/// Whether the view of every row of `rows` satisfies `p`.
pub fn all_hold<T: DeepView, F: Fn(&T) -> bool>(
    rows: &Vec<T>,
    f: F,
    Ghost(p): Ghost<spec_fn(T::V) -> bool>,
) -> (r: bool)
    requires
        forall|x: &T| #[trigger] f.requires((x,)),
        forall|x: &T, b: bool| #[trigger] f.ensures((x,), b) ==> b == p(x.deep_view()),
    ensures
        r == forall|i: int| 0 <= i < rows.len() ==> p(#[trigger] rows.deep_view()[i]),
{
    let mut i: usize = 0;
    while i < rows.len()
        invariant
            forall|x: &T| #[trigger] f.requires((x,)),
            forall|x: &T, b: bool| #[trigger] f.ensures((x,), b) ==> b == p(x.deep_view()),
            i <= rows.len(),
            forall|a: int| 0 <= a < i ==> p(#[trigger] rows.deep_view()[a]),
        decreases rows.len() - i,
    {
        if !f(&rows[i]) {
            proof {
                assert(!p(rows.deep_view()[i as int]));
            }
            return false;
        }
        i += 1;
    }
    true
}

/// First index of `rows` whose view satisfies `p`, or `rows.len()`.
pub fn find_row<T: DeepView, F: Fn(&T) -> bool>(
    rows: &Vec<T>,
    f: F,
    Ghost(p): Ghost<spec_fn(T::V) -> bool>,
) -> (r: usize)
    requires
        forall|x: &T| #[trigger] f.requires((x,)),
        forall|x: &T, b: bool| #[trigger] f.ensures((x,), b) ==> b == p(x.deep_view()),
    ensures
        r as int == position(rows.deep_view(), p),
        r <= rows.len(),
{
    let mut i: usize = 0;
    while i < rows.len()
        invariant
            i <= rows.len(),
            forall|x: &T| #[trigger] f.requires((x,)),
            forall|x: &T, b: bool| #[trigger] f.ensures((x,), b) ==> b == p(x.deep_view()),
            forall|j: int| 0 <= j < i ==> !p(#[trigger] rows.deep_view()[j]),
        decreases rows.len() - i,
    {
        if f(&rows[i]) {
            proof {
                lemma_position_is(rows.deep_view(), p, i as int);
            }
            return i;
        }
        i += 1;
    }
    proof {
        lemma_position_is(rows.deep_view(), p, i as int);
    }
    i
}

/// Drops from `rows` every row whose view fails `keep`.
pub fn retain_rows<T: DeepView, F: Fn(&T) -> bool>(
    rows: &mut Vec<T>,
    f: F,
    Ghost(keep): Ghost<spec_fn(T::V) -> bool>,
)
    requires
        forall|x: &T| #[trigger] f.requires((x,)),
        forall|x: &T, b: bool| #[trigger] f.ensures((x,), b) ==> b == keep(x.deep_view()),
    ensures
        final(rows).deep_view() == old(rows).deep_view().filter(keep),
{
    let ghost before = rows.deep_view();
    let mut i: usize = 0;
    let ghost mut k: int = 0;
    proof {
        reveal(Seq::filter);
        assert(before.take(0).filter(keep) =~= Seq::<T::V>::empty());
        assert(rows.deep_view() =~= before.take(0).filter(keep) + before.skip(0));
    }
    while i < rows.len()
        invariant
            forall|x: &T| #[trigger] f.requires((x,)),
            forall|x: &T, b: bool| #[trigger] f.ensures((x,), b) ==> b == keep(x.deep_view()),
            0 <= k <= before.len(),
            i as int == before.take(k).filter(keep).len(),
            rows.len() - i == before.len() - k,
            rows.deep_view() =~= before.take(k).filter(keep) + before.skip(k),
        decreases rows.len() - i,
    {
        let ghost head = before.take(k).filter(keep);
        proof {
            assert(rows.deep_view()[i as int] == before.skip(k)[0]);
            before.lemma_take_succ_push(k);
            before.take(k).lemma_filter_push(before[k], keep);
        }
        if f(&rows[i]) {
            proof {
                assert(rows.deep_view() =~= before.take(k + 1).filter(keep) + before.skip(k + 1));
            }
            i += 1;
        } else {
            let ghost prior = rows.deep_view();
            rows.remove(i);
            proof {
                assert(rows.deep_view() =~= prior.remove(i as int));
                assert(rows.deep_view() =~= before.take(k + 1).filter(keep) + before.skip(k + 1));
            }
        }
        proof {
            k = k + 1;
        }
    }
    proof {
        assert(before.take(k) =~= before);
        assert(rows.deep_view() =~= before.filter(keep));
    }
}

/// Copies of the rows of `rows` whose view satisfies `p`, in their order.
pub fn select_rows<T: DeepView + Clone, F: Fn(&T) -> bool>(
    rows: &Vec<T>,
    f: F,
    Ghost(p): Ghost<spec_fn(T::V) -> bool>,
) -> (r: Vec<T>)
    requires
        clone_keeps_view::<T>(),
        forall|x: &T| #[trigger] f.requires((x,)),
        forall|x: &T, b: bool| #[trigger] f.ensures((x,), b) ==> b == p(x.deep_view()),
    ensures
        r.deep_view() == rows.deep_view().filter(p),
{
    let mut out: Vec<T> = Vec::new();
    let mut i: usize = 0;
    proof {
        reveal(Seq::filter);
        assert(rows.deep_view().take(0).filter(p) =~= Seq::<T::V>::empty());
        assert(out.deep_view() =~= rows.deep_view().take(0).filter(p));
    }
    while i < rows.len()
        invariant
            clone_keeps_view::<T>(),
            forall|x: &T| #[trigger] f.requires((x,)),
            forall|x: &T, b: bool| #[trigger] f.ensures((x,), b) ==> b == p(x.deep_view()),
            i <= rows.len(),
            out.deep_view() =~= rows.deep_view().take(i as int).filter(p),
        decreases rows.len() - i,
    {
        proof {
            rows.deep_view().lemma_take_succ_push(i as int);
            rows.deep_view().take(i as int).lemma_filter_push(rows.deep_view()[i as int], p);
        }
        if f(&rows[i]) {
            let copy = rows[i].clone();
            let ghost prior = out.deep_view();
            proof {
                assert(cloned::<T>(rows[i as int], copy));
            }
            out.push(copy);
            proof {
                assert(out.deep_view() =~= prior.push(copy.deep_view()));
            }
        }
        i += 1;
    }
    proof {
        assert(rows.deep_view().take(i as int) =~= rows.deep_view());
    }
    out
}

/// `rows` ordered by `before`, equal neighbours keeping their order.
pub fn sort_rows<T: DeepView, F: Fn(&T, &T) -> bool>(
    rows: Vec<T>,
    f: F,
    Ghost(before): Ghost<spec_fn(T::V, T::V) -> bool>,
) -> (r: Vec<T>)
    requires
        forall|x: &T, y: &T| #[trigger] f.requires((x, y)),
        forall|x: &T, y: &T, b: bool| #[trigger]
            f.ensures((x, y), b) ==> b == before(x.deep_view(), y.deep_view()),
    ensures
        r.deep_view() == ordered_by(rows.deep_view(), before),
{
    let ghost all = rows.deep_view();
    let mut rest = rows;
    let mut out: Vec<T> = Vec::new();
    let ghost mut k: int = 0;
    proof {
        assert(all.take(0) =~= Seq::<T::V>::empty());
        assert(out.deep_view() =~= ordered_by(all.take(0), before));
        assert(rest.deep_view() =~= all.skip(0));
    }
    while rest.len() > 0
        invariant
            forall|x: &T, y: &T| #[trigger] f.requires((x, y)),
            forall|x: &T, y: &T, b: bool| #[trigger]
                f.ensures((x, y), b) ==> b == before(x.deep_view(), y.deep_view()),
            0 <= k <= all.len(),
            rest.len() == all.len() - k,
            rest.deep_view() =~= all.skip(k),
            out.deep_view() =~= ordered_by(all.take(k), before),
        decreases rest.len(),
    {
        let ghost prior_rest = rest.deep_view();
        let x = rest.remove(0);
        proof {
            assert(x.deep_view() == prior_rest[0]);
            assert(x.deep_view() == all[k]);
            assert(rest.deep_view() =~= prior_rest.remove(0));
            assert(rest.deep_view() =~= all.skip(k + 1));
        }
        let ghost goes_before = |e: T::V| before(x.deep_view(), e);
        let mut j: usize = 0;
        while j < out.len()
            invariant
                forall|a: &T, b: &T| #[trigger] f.requires((a, b)),
                forall|a: &T, c: &T, b: bool| #[trigger]
                    f.ensures((a, c), b) ==> b == before(a.deep_view(), c.deep_view()),
                j <= out.len(),
                forall|i: int| 0 <= i < j ==> !before(x.deep_view(), #[trigger] out.deep_view()[i]),
            ensures
                j <= out.len(),
                j < out.len() ==> before(x.deep_view(), out.deep_view()[j as int]),
                forall|i: int| 0 <= i < j ==> !before(x.deep_view(), #[trigger] out.deep_view()[i]),
            decreases out.len() - j,
        {
            if f(&x, &out[j]) {
                break;
            }
            j += 1;
        }
        proof {
            lemma_position_is(out.deep_view(), goes_before, j as int);
        }
        let ghost prior_out = out.deep_view();
        out.insert(j, x);
        proof {
            assert(out.deep_view() =~= prior_out.insert(j as int, x.deep_view()));
            assert(all.take(k + 1).drop_last() =~= all.take(k));
            assert(all.take(k + 1).last() == all[k]);
            k = k + 1;
        }
    }
    proof {
        assert(all.take(k) =~= all);
    }
    out
}

/// The window of `rows` that the given limit and offset select.
pub fn page_rows<T: DeepView>(rows: Vec<T>, limit: i64, offset: i64) -> (r: Vec<T>)
    ensures
        r.deep_view() == page(rows.deep_view(), limit, offset),
{
    let ghost all = rows.deep_view();
    let mut rows = rows;
    let len = rows.len();
    let start: usize = if offset < 0 {
        0
    } else if offset as u64 > len as u64 {
        len
    } else {
        offset as usize
    };
    let end: usize = if limit < 0 || limit as u64 > (len - start) as u64 {
        len
    } else {
        start + limit as usize
    };
    rows.truncate(end);
    proof {
        assert(rows.deep_view() =~= all.subrange(0, end as int));
    }
    let tail = rows.split_off(start);
    proof {
        assert(tail.deep_view() =~= all.subrange(start as int, end as int));
    }
    tail
}

} // verus!
