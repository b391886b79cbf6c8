//! Payments of the first provider: merging a payment into the store, and
//! reading payments back.

use crate::clock::utc_now;
use crate::error::{Rule, StoreError};
use crate::records::naver::{
    NaverHeader, NaverHeaderView, NaverItemRow, NaverItemRowView, NaverLatestPayment,
    NaverLatestPaymentView, NaverPayment, NaverPaymentItem, NaverPaymentItemView,
    NaverPaymentListItem, NaverPaymentListItemView, NaverPaymentRow, NaverPaymentRowView,
    NaverPaymentView,
};
use crate::records::owner::User;
use crate::rows::{
    clone_text, distinct_by, find_row, has_key, keyed, lemma_keyed_position, lemma_map_step,
    lemma_pushed, ordered_by, page, page_rows, position, select_rows, sort_rows, sortable,
};
use crate::text::{lemma_text_order, text_before, text_is, text_lt};
use crate::upsert::{
    fits, held_by, lemma_held_is_keyed, lemma_put_all_again, lemma_put_all_fresh,
    lemma_put_all_idempotent, lemma_put_all_numbered, lemma_put_all_others,
    lemma_put_all_refers, lemma_put_id_stable, lemma_put_idempotent, lemma_put_numbered,
    lemma_put_others, lemma_put_refers, lemma_refers_after_put, made_rows, merges_settle, put,
    put_all, put_id, Upsert,
};
use crate::store::{
    naver_item_id, naver_item_key, naver_item_parent, naver_row_id, naver_row_key,
    naver_row_owner, by_user_id, Store, StoreView,
};
use crate::rows::{lemma_filter_keys, lemma_ordered_by, lemma_ordered_by_holds, lemma_page};
use crate::rows::clone_all;
use crate::upsert::{lemma_put_all_alike, lemma_put_all_grows};
use crate::rows::{lemma_filter_all, lemma_filter_len_alike, lemma_filter_none, lemma_one_with_key};
use crate::upsert::lemma_put_all_links;
use crate::rows::lemma_position_is;
use vstd::prelude::*;

verus! {

/// The stored header `old` after a payment with the header `h` came in
/// again at `now`: the status, the merchant's name and every amount are
/// taken from `h`; everything else stays as it was stored, the time of
/// creation and the identifier among it.
pub open spec fn naver_header_merged(
    old: NaverPaymentRowView,
    h: NaverHeaderView,
    now: Seq<char>,
) -> NaverPaymentRowView {
    NaverPaymentRowView {
        header: NaverHeaderView {
            status_code: h.status_code,
            status_text: h.status_text,
            status_color: h.status_color,
            merchant_name: h.merchant_name,
            total_amount: h.total_amount,
            discount_amount: h.discount_amount,
            cup_deposit_amount: h.cup_deposit_amount,
            rest_amount: h.rest_amount,
            pay_easycard_amount: h.pay_easycard_amount,
            pay_easybank_amount: h.pay_easybank_amount,
            pay_reward_point_amount: h.pay_reward_point_amount,
            pay_charge_point_amount: h.pay_charge_point_amount,
            pay_giftcard_amount: h.pay_giftcard_amount,
            benefit_expected_amount: h.benefit_expected_amount,
            benefit_amount: h.benefit_amount,
            ..old.header
        },
        updated_at: now,
        ..old
    }
}

/// The row that the header `h` makes for the owner `user` under the
/// identifier `id`.
pub open spec fn naver_header_created(
    id: int,
    user: Seq<char>,
    h: NaverHeaderView,
    now: Seq<char>,
) -> NaverPaymentRowView {
    NaverPaymentRowView { id: id as i64, user_id: user, header: h, created_at: now, updated_at: now }
}

/// Whether a stored payment is the one of the owner `p.0` that the header
/// `p.1` names.
pub open spec fn naver_header_holds() -> spec_fn(
    NaverPaymentRowView,
    (Seq<char>, NaverHeaderView),
) -> bool {
    |r: NaverPaymentRowView, p: (Seq<char>, NaverHeaderView)|
        r.user_id == p.0 && r.header.pay_id == p.1.pay_id
}

/// How the header table takes in a header of an owner at `now`.
pub open spec fn naver_header_upsert(now: Seq<char>) -> Upsert<
    NaverPaymentRowView,
    (Seq<char>, NaverHeaderView),
> {
    Upsert {
        holds: naver_header_holds(),
        merge: |r: NaverPaymentRowView, p: (Seq<char>, NaverHeaderView)|
            naver_header_merged(r, p.1, now),
        create: |id: int, p: (Seq<char>, NaverHeaderView)| naver_header_created(id, p.0, p.1, now),
    }
}

/// The stored line `old` after the line `item` came in again at `now`:
/// every field of the line is taken from `item`; the stored identifier and
/// the time of creation stay.
pub open spec fn naver_item_merged(
    old: NaverItemRowView,
    item: NaverPaymentItemView,
    now: Seq<char>,
) -> NaverItemRowView {
    NaverItemRowView {
        item: NaverPaymentItemView { id: old.item.id, ..item },
        updated_at: now,
        ..old
    }
}

/// The row that the line `item` makes for the payment `payment_id` under
/// the identifier `id`.
pub open spec fn naver_item_created(
    id: int,
    payment_id: i64,
    item: NaverPaymentItemView,
    now: Seq<char>,
) -> NaverItemRowView {
    NaverItemRowView {
        payment_id,
        item: NaverPaymentItemView { id: id as i64, ..item },
        created_at: now,
        updated_at: now,
    }
}

/// Whether a stored line is the line of the payment `payment_id` with the
/// line number of `p`.
pub open spec fn naver_item_holds(payment_id: i64) -> spec_fn(
    NaverItemRowView,
    NaverPaymentItemView,
) -> bool {
    |r: NaverItemRowView, p: NaverPaymentItemView|
        r.payment_id == payment_id && r.item.line_no == p.line_no
}

/// How the line table takes in a line of the payment `payment_id` at `now`.
pub open spec fn naver_item_upsert(payment_id: i64, now: Seq<char>) -> Upsert<
    NaverItemRowView,
    NaverPaymentItemView,
> {
    Upsert {
        holds: naver_item_holds(payment_id),
        merge: |r: NaverItemRowView, p: NaverPaymentItemView| naver_item_merged(r, p, now),
        create: |id: int, p: NaverPaymentItemView| naver_item_created(id, payment_id, p, now),
    }
}

/// Whether a payment can be merged in: its owner exists, and the store has
/// an identifier left for the payment where it is new to the owner, and
/// one for every line that is new to the payment. That is so exactly when
/// the two counters, after the merge, are numbers that can be handed out.
pub open spec fn naver_sync_allowed(s: StoreView, user: Seq<char>, p: NaverPaymentView) -> bool {
    &&& has_key(s.users, by_user_id(), user)
    &&& naver_synced(s, user, p, Seq::empty()).naver_payment_seq <= i64::MAX
    &&& naver_synced(s, user, p, Seq::empty()).naver_item_seq <= i64::MAX
}

/// Why a payment that cannot be merged in is refused: its owner does not
/// exist, or else no identifier is left.
pub open spec fn naver_sync_refused(s: StoreView, user: Seq<char>, p: NaverPaymentView) -> StoreError {
    if !has_key(s.users, by_user_id(), user) {
        StoreError::Constraint(Rule::OwnerMissing)
    } else {
        StoreError::Constraint(Rule::NoIdentifierLeft)
    }
}

/// The identifier under which the payment of `user` that `h` names is
/// stored once it has been merged in.
pub open spec fn naver_payment_pk(s: StoreView, user: Seq<char>, h: NaverHeaderView) -> i64 {
    put_id(
        s.naver_payments,
        s.naver_payment_seq,
        (user, h),
        naver_header_holds(),
        naver_row_id(),
    )
}

/// The owner and provider identifier that a header of an owner goes by.
pub open spec fn naver_header_key() -> spec_fn((Seq<char>, NaverHeaderView)) -> (
    Seq<char>,
    Seq<char>,
) {
    |p: (Seq<char>, NaverHeaderView)| (p.0, p.1.pay_id)
}

/// The payment and line number that a line of the payment `payment_id`
/// goes by.
pub open spec fn naver_line_key(payment_id: i64) -> spec_fn(NaverPaymentItemView) -> (i64, i32) {
    |p: NaverPaymentItemView| (payment_id, p.line_no)
}

/// The store after the payment `p` of `user` was merged in at `now`: the
/// header goes in under (owner, provider identifier), then each line in
/// turn under (payment, line number). Nothing else changes, and no line is
/// ever taken away.
pub open spec fn naver_synced(
    s: StoreView,
    user: Seq<char>,
    p: NaverPaymentView,
    now: Seq<char>,
) -> StoreView {
    let (payments, payment_seq) = put(
        s.naver_payments,
        s.naver_payment_seq,
        (user, p.header),
        naver_header_upsert(now),
    );
    let pk = naver_payment_pk(s, user, p.header);
    let (items, item_seq) = put_all(
        s.naver_items,
        s.naver_item_seq,
        p.items,
        naver_item_upsert(pk, now),
    );
    StoreView {
        naver_payments: payments,
        naver_payment_seq: payment_seq,
        naver_items: items,
        naver_item_seq: item_seq,
        ..s
    }
}

/// Writes the status, the merchant's name and the amounts of `h` into
/// `row`.
fn merge_naver_header(row: &mut NaverPaymentRow, h: NaverHeader, now: String)
    ensures
        final(row)@ == naver_header_merged(old(row)@, h@, now@),
{
    row.header.status_code = h.status_code;
    row.header.status_text = h.status_text;
    row.header.status_color = h.status_color;
    row.header.merchant_name = h.merchant_name;
    row.header.total_amount = h.total_amount;
    row.header.discount_amount = h.discount_amount;
    row.header.cup_deposit_amount = h.cup_deposit_amount;
    row.header.rest_amount = h.rest_amount;
    row.header.pay_easycard_amount = h.pay_easycard_amount;
    row.header.pay_easybank_amount = h.pay_easybank_amount;
    row.header.pay_reward_point_amount = h.pay_reward_point_amount;
    row.header.pay_charge_point_amount = h.pay_charge_point_amount;
    row.header.pay_giftcard_amount = h.pay_giftcard_amount;
    row.header.benefit_expected_amount = h.benefit_expected_amount;
    row.header.benefit_amount = h.benefit_amount;
    row.updated_at = now;
}

/// Writes every field of `item` but its identifier into `row`.
fn merge_naver_item(row: &mut NaverItemRow, item: NaverPaymentItem, now: String)
    ensures
        final(row)@ == naver_item_merged(old(row)@, item@, now@),
{
    let id = row.item.id;
    row.item = item;
    row.item.id = id;
    row.updated_at = now;
}

/// Merges each line of `items` into `table` as a line of the payment `pk`,
/// as far as identifiers are left: where they run out, the answer is no
/// and `table` is left half done, for the caller to throw away.
fn put_naver_items(
    table: &mut Vec<NaverItemRow>,
    seq: &mut i64,
    pk: i64,
    items: &Vec<NaverPaymentItem>,
    now: &String,
) -> (done: bool)
    requires
        0 <= *old(seq),
    ensures
        done <==> put_all(
            old(table).deep_view(),
            *old(seq) as int,
            items.deep_view(),
            naver_item_upsert(pk, now@),
        ).1 <= i64::MAX,
        done ==> (final(table).deep_view(), *final(seq) as int) == put_all(
            old(table).deep_view(),
            *old(seq) as int,
            items.deep_view(),
            naver_item_upsert(pk, now@),
        ),
{
    let ghost how = naver_item_upsert(pk, now@);
    let ghost rows0 = table.deep_view();
    let ghost seq0 = *seq as int;
    let ghost all = items.deep_view();
    let mut k: usize = 0;
    proof {
        assert(all.take(0) =~= Seq::<NaverPaymentItemView>::empty());
    }
    while k < items.len()
        invariant
            k <= items.len(),
            all == items.deep_view(),
            how == naver_item_upsert(pk, now@),
            rows0 == old(table).deep_view(),
            seq0 == *old(seq),
            0 <= seq0 <= *seq,
            (table.deep_view(), *seq as int) == put_all(rows0, seq0, all.take(k as int), how),
        decreases items.len() - k,
    {
        let item = items[k].clone();
        let line_no = item.line_no;
        let ghost before = table.deep_view();
        let ghost held = held_by(naver_item_holds(pk), item@);
        let at = find_row(
            table,
            |r: &NaverItemRow| -> (b: bool)
                ensures b == (r@.payment_id == pk && r@.item.line_no == line_no)
            {
                r.payment_id == pk && r.item.line_no == line_no
            },
            Ghost(held),
        );
        proof {
            assert(all.take(k as int + 1).drop_last() =~= all.take(k as int));
            assert(all.take(k as int + 1).last() == item@);
        }
        if at < table.len() {
            merge_naver_item(&mut table[at], item, now.clone());
            proof {
                assert(table.deep_view() =~= before.update(
                    at as int,
                    naver_item_merged(before[at as int], item@, now@),
                ));
            }
        } else {
            if *seq >= i64::MAX {
                proof {
                    assert(put_all(rows0, seq0, all.take(k as int + 1), how).1 == *seq + 1);
                    lemma_put_all_grows(rows0, seq0, all, how, k as int + 1);
                }
                return false;
            }
            *seq = *seq + 1;
            let mut made = item;
            made.id = *seq;
            let row = NaverItemRow {
                payment_id: pk,
                item: made,
                created_at: now.clone(),
                updated_at: now.clone(),
            };
            table.push(row);
            proof {
                assert(table.deep_view() =~= before.push(
                    naver_item_created(*seq as int, pk, item@, now@),
                ));
            }
        }
        k += 1;
    }
    proof {
        assert(all.take(k as int) =~= all);
    }
    true
}

/// Whatever the time of a merge, it leaves the two counters at the same
/// numbers: the counter of headers one up where the payment is new to the
/// owner, and where it is, and the counter of lines one up for every line
/// that is new to the payment.
pub proof fn lemma_naver_counters(s: StoreView, user: Seq<char>, p: NaverPaymentView, now: Seq<char>)
    ensures
        naver_synced(s, user, p, now).naver_payment_seq == naver_synced(
            s,
            user,
            p,
            Seq::empty(),
        ).naver_payment_seq,
        naver_synced(s, user, p, now).naver_item_seq == naver_synced(
            s,
            user,
            p,
            Seq::empty(),
        ).naver_item_seq,
        naver_synced(s, user, p, now).naver_payment_seq == if has_key(
            s.naver_payments,
            naver_row_key(),
            (user, p.header.pay_id),
        ) {
            s.naver_payment_seq
        } else {
            s.naver_payment_seq + 1
        },
        s.naver_item_seq <= naver_synced(s, user, p, now).naver_item_seq <= s.naver_item_seq
            + p.items.len(),
{
    let pk = naver_payment_pk(s, user, p.header);
    lemma_naver_upserts_fit(pk, now);
    lemma_naver_upserts_fit(pk, Seq::empty());
    lemma_held_is_keyed(
        s.naver_payments,
        (user, p.header),
        naver_header_upsert(now),
        naver_row_id(),
        naver_row_key(),
        naver_header_key(),
    );
    lemma_put_all_alike(
        s.naver_items,
        s.naver_item_seq,
        p.items,
        naver_item_upsert(pk, now),
        naver_item_upsert(pk, Seq::empty()),
        naver_item_id(),
        naver_item_key(),
        naver_line_key(pk),
    );
    lemma_put_all_grows(
        s.naver_items,
        s.naver_item_seq,
        p.items,
        naver_item_upsert(pk, now),
        p.items.len() as int,
    );
}

/// The two tables of the first provider stay in order when a payment that
/// may be merged in is merged in.
pub proof fn lemma_naver_synced_wf(s: StoreView, user: Seq<char>, p: NaverPaymentView, now: Seq<char>)
    requires
        s.wf(),
        naver_sync_allowed(s, user, p),
    ensures
        naver_synced(s, user, p, now).wf(),
        has_key(
            naver_synced(s, user, p, now).naver_payments,
            naver_row_key(),
            (user, p.header.pay_id),
        ),
        has_key(
            naver_synced(s, user, p, now).naver_payments,
            naver_row_id(),
            naver_payment_pk(s, user, p.header),
        ),
{
    lemma_naver_counters(s, user, p, now);
    let head = naver_header_upsert(now);
    let pk = naver_payment_pk(s, user, p.header);
    let lines = naver_item_upsert(pk, now);
    let out = naver_synced(s, user, p, now);
    assert(fits(head, naver_row_id(), naver_row_key(), naver_header_key()));
    assert(fits(lines, naver_item_id(), naver_item_key(), naver_line_key(pk)));
    lemma_put_numbered(
        s.naver_payments,
        s.naver_payment_seq,
        (user, p.header),
        head,
        naver_row_id(),
        naver_row_key(),
        naver_header_key(),
    );
    
    lemma_put_refers(
        s.naver_payments,
        s.naver_payment_seq,
        (user, p.header),
        head,
        naver_row_owner(),
        s.users,
        by_user_id(),
        user,
    );
    lemma_refers_after_put(
        s.naver_items,
        naver_item_parent(),
        s.naver_payments,
        s.naver_payment_seq,
        (user, p.header),
        head,
        naver_row_id(),
        naver_row_key(),
        naver_header_key(),
    );
    lemma_put_all_numbered(
        s.naver_items,
        s.naver_item_seq,
        p.items,
        lines,
        naver_item_id(),
        naver_item_key(),
        naver_line_key(pk),
    );
    lemma_put_all_refers(
        s.naver_items,
        s.naver_item_seq,
        p.items,
        lines,
        naver_item_parent(),
        out.naver_payments,
        naver_row_id(),
        pk,
    );
}

/// The line number of a line.
pub open spec fn naver_line_no() -> spec_fn(NaverPaymentItemView) -> i32 {
    |p: NaverPaymentItemView| p.line_no
}

/// What the two upserts of the first provider have in common with every
/// table that goes by a key.
proof fn lemma_naver_upserts_fit(pk: i64, now: Seq<char>)
    ensures
        fits(naver_header_upsert(now), naver_row_id(), naver_row_key(), naver_header_key()),
        fits(naver_item_upsert(pk, now), naver_item_id(), naver_item_key(), naver_line_key(pk)),
        merges_settle(naver_header_upsert(now)),
        merges_settle(naver_item_upsert(pk, now)),
{
    let head = naver_header_upsert(now);
    assert forall|r: NaverPaymentRowView, p: (Seq<char>, NaverHeaderView)| #[trigger]
        (head.merge)((head.merge)(r, p), p) == (head.merge)(r, p) by {}
    assert forall|n: int, p: (Seq<char>, NaverHeaderView)|
        (head.merge)(#[trigger] (head.create)(n, p), p) == (head.create)(n, p) by {}
    let lines = naver_item_upsert(pk, now);
    assert forall|r: NaverItemRowView, p: NaverPaymentItemView| #[trigger]
        (lines.merge)((lines.merge)(r, p), p) == (lines.merge)(r, p) by {}
    assert forall|n: int, p: NaverPaymentItemView|
        (lines.merge)(#[trigger] (lines.create)(n, p), p) == (lines.create)(n, p) by {}
}

/// A payment keeps its identifier when it is merged in again.
proof fn lemma_naver_pk_stable(s: StoreView, user: Seq<char>, p: NaverPaymentView, now: Seq<char>)
    requires
        s.wf(),
        naver_sync_allowed(s, user, p),
    ensures
        naver_payment_pk(naver_synced(s, user, p, now), user, p.header) == naver_payment_pk(
            s,
            user,
            p.header,
        ),
{
    lemma_naver_counters(s, user, p, now);
    lemma_naver_upserts_fit(0, now);
    lemma_put_id_stable(
        s.naver_payments,
        s.naver_payment_seq,
        (user, p.header),
        naver_header_upsert(now),
        naver_row_id(),
        naver_row_key(),
        naver_header_key(),
    );
}

/// Merging the same payment in twice at the same time leaves the store as
/// merging it in once, where the payment has each line number once.
pub proof fn lemma_naver_sync_idempotent(
    s: StoreView,
    user: Seq<char>,
    p: NaverPaymentView,
    now: Seq<char>,
)
    requires
        s.wf(),
        naver_sync_allowed(s, user, p),
        distinct_by(p.items, naver_line_no()),
    ensures
        naver_synced(naver_synced(s, user, p, now), user, p, now) == naver_synced(s, user, p, now),
{
    lemma_naver_counters(s, user, p, now);
    let pk = naver_payment_pk(s, user, p.header);
    let once = naver_synced(s, user, p, now);
    lemma_naver_upserts_fit(pk, now);
    lemma_naver_pk_stable(s, user, p, now);
    lemma_put_idempotent(
        s.naver_payments,
        s.naver_payment_seq,
        (user, p.header),
        naver_header_upsert(now),
        naver_row_id(),
        naver_row_key(),
        naver_header_key(),
    );
    assert forall|i: int, j: int| 0 <= i < j < p.items.len() implies naver_line_key(pk)(p.items[i])
        != naver_line_key(pk)(p.items[j]) by {
        assert(naver_line_no()(p.items[i]) != naver_line_no()(p.items[j]));
    }
    lemma_put_all_idempotent(
        s.naver_items,
        s.naver_item_seq,
        p.items,
        naver_item_upsert(pk, now),
        naver_item_id(),
        naver_item_key(),
        naver_line_key(pk),
    );
}

/// Merging a payment in again, at whatever time, adds no header row and no
/// line row, and hands out no identifier.
pub proof fn lemma_naver_resync_adds_nothing(
    s: StoreView,
    user: Seq<char>,
    p: NaverPaymentView,
    now: Seq<char>,
    later: Seq<char>,
)
    requires
        s.wf(),
        naver_sync_allowed(s, user, p),
    ensures
        ({
            let once = naver_synced(s, user, p, now);
            let twice = naver_synced(once, user, p, later);
            &&& twice.naver_payments.len() == once.naver_payments.len()
            &&& twice.naver_items.len() == once.naver_items.len()
            &&& twice.naver_payment_seq == once.naver_payment_seq
            &&& twice.naver_item_seq == once.naver_item_seq
        }),
{
    lemma_naver_counters(s, user, p, now);
    let pk = naver_payment_pk(s, user, p.header);
    let once = naver_synced(s, user, p, now);
    lemma_naver_upserts_fit(pk, now);
    lemma_naver_upserts_fit(pk, later);
    lemma_naver_pk_stable(s, user, p, now);
    lemma_naver_synced_wf(s, user, p, now);
    lemma_held_is_keyed(
        once.naver_payments,
        (user, p.header),
        naver_header_upsert(later),
        naver_row_id(),
        naver_row_key(),
        naver_header_key(),
    );
    lemma_put_all_numbered(
        s.naver_items,
        s.naver_item_seq,
        p.items,
        naver_item_upsert(pk, now),
        naver_item_id(),
        naver_item_key(),
        naver_line_key(pk),
    );
    lemma_put_all_again(
        once.naver_items,
        once.naver_item_seq,
        p.items,
        naver_item_upsert(pk, later),
        naver_item_id(),
        naver_item_key(),
        naver_line_key(pk),
    );
}

/// Merging in a payment that the owner did not have adds exactly one header
/// row, under the next identifier, and exactly one line row for each line,
/// where the payment has each line number once; no line row that was there
/// belongs to the new payment.
pub proof fn lemma_naver_first_sync(s: StoreView, user: Seq<char>, p: NaverPaymentView, now: Seq<char>)
    requires
        s.wf(),
        naver_sync_allowed(s, user, p),
        !has_key(s.naver_payments, naver_row_key(), (user, p.header.pay_id)),
        distinct_by(p.items, naver_line_no()),
    ensures
        ({
            let once = naver_synced(s, user, p, now);
            let pk = (s.naver_payment_seq + 1) as i64;
            &&& naver_payment_pk(s, user, p.header) == pk
            &&& once.naver_payments == s.naver_payments.push(
                naver_header_created(s.naver_payment_seq + 1, user, p.header, now),
            )
            &&& once.naver_items == s.naver_items + made_rows(
                s.naver_item_seq,
                p.items,
                naver_item_upsert(pk, now),
            )
            &&& once.naver_items.len() == s.naver_items.len() + p.items.len()
            &&& forall|i: int|
                0 <= i < s.naver_items.len() ==> (#[trigger] s.naver_items[i]).payment_id != pk
        }),
{
    lemma_naver_counters(s, user, p, now);
    let pk = (s.naver_payment_seq + 1) as i64;
    lemma_naver_upserts_fit(pk, now);
    lemma_held_is_keyed(
        s.naver_payments,
        (user, p.header),
        naver_header_upsert(now),
        naver_row_id(),
        naver_row_key(),
        naver_header_key(),
    );
    assert(naver_payment_pk(s, user, p.header) == pk);
    assert forall|i: int| 0 <= i < s.naver_items.len() implies (#[trigger] s.naver_items[i]).payment_id
        != pk by {
        let parent = naver_item_parent()(s.naver_items[i]);
        assert(has_key(s.naver_payments, naver_row_id(), parent));
        let j = choose|j: int|
            0 <= j < s.naver_payments.len() && naver_row_id()(#[trigger] s.naver_payments[j])
                == parent;
        assert(naver_row_id()(s.naver_payments[j]) <= s.naver_payment_seq);
    }
    assert forall|i: int| 0 <= i < p.items.len() implies !has_key(
        s.naver_items,
        naver_item_key(),
        naver_line_key(pk)(#[trigger] p.items[i]),
    ) by {
        if has_key(s.naver_items, naver_item_key(), naver_line_key(pk)(p.items[i])) {
            let j = choose|j: int|
                0 <= j < s.naver_items.len() && naver_item_key()(#[trigger] s.naver_items[j])
                    == naver_line_key(pk)(p.items[i]);
            assert(s.naver_items[j].payment_id == pk);
        }
    }
    assert forall|i: int, j: int| 0 <= i < j < p.items.len() implies naver_line_key(pk)(p.items[i])
        != naver_line_key(pk)(p.items[j]) by {
        assert(naver_line_no()(p.items[i]) != naver_line_no()(p.items[j]));
    }
    lemma_put_all_fresh(
        s.naver_items,
        s.naver_item_seq,
        p.items,
        naver_item_upsert(pk, now),
        naver_item_id(),
        naver_item_key(),
        naver_line_key(pk),
    );
}

/// Merging a payment in touches no header row of another owner or of
/// another payment, and no line row of another payment.
pub proof fn lemma_naver_sync_leaves_others(
    s: StoreView,
    user: Seq<char>,
    p: NaverPaymentView,
    now: Seq<char>,
)
    requires
        s.wf(),
        naver_sync_allowed(s, user, p),
    ensures
        ({
            let once = naver_synced(s, user, p, now);
            let pk = naver_payment_pk(s, user, p.header);
            &&& once.naver_payments.len() >= s.naver_payments.len()
            &&& once.naver_items.len() >= s.naver_items.len()
            &&& forall|i: int|
                0 <= i < s.naver_payments.len() && ((#[trigger] s.naver_payments[i]).user_id != user
                    || s.naver_payments[i].header.pay_id != p.header.pay_id)
                    ==> once.naver_payments[i] == s.naver_payments[i]
            &&& forall|i: int|
                0 <= i < s.naver_items.len() && (#[trigger] s.naver_items[i]).payment_id != pk
                    ==> once.naver_items[i] == s.naver_items[i]
        }),
{
    lemma_naver_counters(s, user, p, now);
    let pk = naver_payment_pk(s, user, p.header);
    let once = naver_synced(s, user, p, now);
    lemma_naver_upserts_fit(pk, now);
    lemma_put_others(
        s.naver_payments,
        s.naver_payment_seq,
        (user, p.header),
        naver_header_upsert(now),
        naver_row_id(),
        naver_row_key(),
        naver_header_key(),
    );
    assert forall|i: int|
        0 <= i < s.naver_payments.len() && ((#[trigger] s.naver_payments[i]).user_id != user
            || s.naver_payments[i].header.pay_id != p.header.pay_id) implies once.naver_payments[i]
        == s.naver_payments[i] by {
        assert(naver_row_key()(s.naver_payments[i]) != naver_header_key()((user, p.header)));
    }
    lemma_put_all_others(
        s.naver_items,
        s.naver_item_seq,
        p.items,
        naver_item_upsert(pk, now),
        naver_item_id(),
        naver_item_key(),
        naver_line_key(pk),
    );
    assert forall|i: int|
        0 <= i < s.naver_items.len() && (#[trigger] s.naver_items[i]).payment_id
            != pk implies once.naver_items[i] == s.naver_items[i] by {
        let k = naver_item_key()(s.naver_items[i]);
        if has_key(p.items, naver_line_key(pk), k) {
            let j = choose|j: int|
                0 <= j < p.items.len() && naver_line_key(pk)(#[trigger] p.items[j]) == k;
            assert(false);
        }
    }
}

/// The same provider identifier merged in under two owners makes two
/// header rows with two identifiers, and the second merge leaves the first
/// owner's header row and lines as they were.
pub proof fn lemma_naver_two_owners(
    s: StoreView,
    first: Seq<char>,
    second: Seq<char>,
    p: NaverPaymentView,
    now: Seq<char>,
    later: Seq<char>,
)
    requires
        s.wf(),
        first != second,
        naver_sync_allowed(s, first, p),
        naver_sync_allowed(naver_synced(s, first, p, now), second, p),
    ensures
        ({
            let once = naver_synced(s, first, p, now);
            let twice = naver_synced(once, second, p, later);
            let pk1 = naver_payment_pk(s, first, p.header);
            let pk2 = naver_payment_pk(once, second, p.header);
            &&& pk1 != pk2
            &&& has_key(twice.naver_payments, naver_row_key(), (first, p.header.pay_id))
            &&& has_key(twice.naver_payments, naver_row_key(), (second, p.header.pay_id))
            &&& has_key(twice.naver_payments, naver_row_id(), pk1)
            &&& has_key(twice.naver_payments, naver_row_id(), pk2)
            &&& forall|i: int|
                0 <= i < once.naver_payments.len() && (#[trigger] once.naver_payments[i]).user_id
                    == first ==> twice.naver_payments[i] == once.naver_payments[i]
            &&& forall|i: int|
                0 <= i < once.naver_items.len() && (#[trigger] once.naver_items[i]).payment_id
                    == pk1 ==> twice.naver_items[i] == once.naver_items[i]
        }),
{
    let once = naver_synced(s, first, p, now);
    let twice = naver_synced(once, second, p, later);
    let pk1 = naver_payment_pk(s, first, p.header);
    let pk2 = naver_payment_pk(once, second, p.header);
    lemma_naver_synced_wf(s, first, p, now);
    lemma_naver_synced_wf(once, second, p, later);
    lemma_naver_sync_leaves_others(once, second, p, later);
    lemma_naver_upserts_fit(pk1, now);
    lemma_naver_upserts_fit(pk2, later);
    // The first owner's row is in `once`, and the second merge leaves it.
    let a = choose|a: int|
        0 <= a < once.naver_payments.len() && naver_row_id()(#[trigger] once.naver_payments[a])
            == pk1;
    lemma_naver_pk_stable(s, first, p, now);
    lemma_held_is_keyed(
        once.naver_payments,
        (first, p.header),
        naver_header_upsert(now),
        naver_row_id(),
        naver_row_key(),
        naver_header_key(),
    );
    let f = position(once.naver_payments, held_by(naver_header_holds(), (first, p.header)));
    assert(naver_row_key()(once.naver_payments[f]) == (first, p.header.pay_id));
    assert(once.naver_payments[f].id == pk1);
    assert(twice.naver_payments[f] == once.naver_payments[f]);
    assert(naver_row_key()(twice.naver_payments[f]) == (first, p.header.pay_id));
    assert(naver_row_id()(twice.naver_payments[f]) == pk1);
    // The second owner's row is another row, so it has another identifier.
    lemma_naver_pk_stable(once, second, p, later);
    lemma_held_is_keyed(
        twice.naver_payments,
        (second, p.header),
        naver_header_upsert(later),
        naver_row_id(),
        naver_row_key(),
        naver_header_key(),
    );
    let g = position(twice.naver_payments, held_by(naver_header_holds(), (second, p.header)));
    assert(naver_row_key()(twice.naver_payments[g]) == (second, p.header.pay_id));
    assert(twice.naver_payments[g].id == pk2);
    assert(f != g);
    if f < g {
        assert(naver_row_id()(twice.naver_payments[f]) != naver_row_id()(twice.naver_payments[g]));
    } else {
        assert(naver_row_id()(twice.naver_payments[g]) != naver_row_id()(twice.naver_payments[f]));
    }
}

/// Merging a payment in a second time is always accepted, whenever that is,
/// and adds nothing: the payment keeps its identifier, the owner has one
/// header row for it and no more, and the payment has as many line rows
/// after the second merge as after the first, never twice as many. Where
/// the payment was new to the owner and has each line number once, it has
/// one line row for each of its lines; and where the second merge is made
/// at the time of the first and each line number comes once, the store is
/// the same after it.
pub proof fn lemma_naver_sync_again(
    s: StoreView,
    user: Seq<char>,
    p: NaverPaymentView,
    now: Seq<char>,
    later: Seq<char>,
)
    requires
        s.wf(),
        naver_sync_allowed(s, user, p),
    ensures
        ({
            let once = naver_synced(s, user, p, now);
            let twice = naver_synced(once, user, p, later);
            let pk = naver_payment_pk(s, user, p.header);
            let mine = keyed(naver_row_key(), (user, p.header.pay_id));
            &&& naver_sync_allowed(once, user, p)
            &&& naver_payment_pk(once, user, p.header) == pk
            &&& once.naver_payments.filter(mine).len() == 1
            &&& twice.naver_payments.filter(mine).len() == 1
            &&& twice.naver_payments.len() == once.naver_payments.len()
            &&& twice.naver_items.len() == once.naver_items.len()
            &&& twice.naver_items.filter(naver_line_of(pk)).len() == once.naver_items.filter(
                naver_line_of(pk),
            ).len()
            &&& (!has_key(s.naver_payments, naver_row_key(), (user, p.header.pay_id)) && distinct_by(
                p.items,
                naver_line_no(),
            ) ==> once.naver_items.filter(naver_line_of(pk)).len() == p.items.len())
            &&& (later == now && distinct_by(p.items, naver_line_no()) ==> twice == once)
        }),
{
    let once = naver_synced(s, user, p, now);
    let twice = naver_synced(once, user, p, later);
    let pk = naver_payment_pk(s, user, p.header);
    let mine = keyed(naver_row_key(), (user, p.header.pay_id));
    lemma_naver_counters(s, user, p, now);
    lemma_naver_synced_wf(s, user, p, now);
    lemma_naver_pk_stable(s, user, p, now);
    lemma_naver_upserts_fit(pk, now);
    lemma_naver_upserts_fit(pk, later);
    lemma_naver_upserts_fit(pk, Seq::empty());
    // The second merge needs no identifier.
    lemma_put_all_numbered(
        s.naver_items,
        s.naver_item_seq,
        p.items,
        naver_item_upsert(pk, now),
        naver_item_id(),
        naver_item_key(),
        naver_line_key(pk),
    );
    lemma_naver_counters(once, user, p, Seq::empty());
    lemma_put_all_again(
        once.naver_items,
        once.naver_item_seq,
        p.items,
        naver_item_upsert(pk, Seq::empty()),
        naver_item_id(),
        naver_item_key(),
        naver_line_key(pk),
    );
    assert(naver_sync_allowed(once, user, p));
    lemma_naver_synced_wf(once, user, p, later);
    lemma_naver_resync_adds_nothing(s, user, p, now, later);
    lemma_one_with_key(once.naver_payments, naver_row_key(), (user, p.header.pay_id));
    lemma_one_with_key(twice.naver_payments, naver_row_key(), (user, p.header.pay_id));
    // The lines of the payment stand at the same places after the second merge.
    lemma_put_all_others(
        once.naver_items,
        once.naver_item_seq,
        p.items,
        naver_item_upsert(pk, later),
        naver_item_id(),
        naver_item_key(),
        naver_line_key(pk),
    );
    assert forall|i: int| 0 <= i < once.naver_items.len() implies naver_line_of(pk)(
        #[trigger] once.naver_items[i],
    ) == naver_line_of(pk)(twice.naver_items[i]) by {
        assert(naver_item_key()(twice.naver_items[i]) == naver_item_key()(once.naver_items[i]));
    }
    lemma_filter_len_alike(once.naver_items, twice.naver_items, naver_line_of(pk));
    if !has_key(s.naver_payments, naver_row_key(), (user, p.header.pay_id)) && distinct_by(
        p.items,
        naver_line_no(),
    ) {
        lemma_naver_first_sync(s, user, p, now);
        let made = made_rows(s.naver_item_seq, p.items, naver_item_upsert(pk, now));
        assert forall|i: int| 0 <= i < s.naver_items.len() implies !naver_line_of(pk)(
            #[trigger] s.naver_items[i],
        ) by {}
        assert forall|i: int| 0 <= i < made.len() implies naver_line_of(pk)(#[trigger] made[i]) by {}
        lemma_filter_none(s.naver_items, naver_line_of(pk));
        lemma_filter_all(made, naver_line_of(pk));
        Seq::filter_distributes_over_add(s.naver_items, made, naver_line_of(pk));
    }
    if later == now && distinct_by(p.items, naver_line_no()) {
        lemma_naver_sync_idempotent(s, user, p, now);
    }
}

/// The same provider identifier merged in under two owners leaves each
/// owner with one header row for it, and every line row that the second
/// merge adds belongs to the second owner's payment.
pub proof fn lemma_naver_two_owners_rows(
    s: StoreView,
    first: Seq<char>,
    second: Seq<char>,
    p: NaverPaymentView,
    now: Seq<char>,
    later: Seq<char>,
)
    requires
        s.wf(),
        first != second,
        naver_sync_allowed(s, first, p),
        naver_sync_allowed(naver_synced(s, first, p, now), second, p),
    ensures
        ({
            let once = naver_synced(s, first, p, now);
            let twice = naver_synced(once, second, p, later);
            let pk2 = naver_payment_pk(once, second, p.header);
            &&& twice.naver_payments.filter(
                keyed(naver_row_key(), (first, p.header.pay_id)),
            ).len() == 1
            &&& twice.naver_payments.filter(
                keyed(naver_row_key(), (second, p.header.pay_id)),
            ).len() == 1
            &&& twice.naver_items.len() >= once.naver_items.len()
            &&& forall|i: int|
                once.naver_items.len() <= i < twice.naver_items.len() ==> (
                #[trigger] twice.naver_items[i]).payment_id == pk2
        }),
{
    let once = naver_synced(s, first, p, now);
    let twice = naver_synced(once, second, p, later);
    let pk2 = naver_payment_pk(once, second, p.header);
    lemma_naver_two_owners(s, first, second, p, now, later);
    lemma_naver_synced_wf(s, first, p, now);
    lemma_naver_synced_wf(once, second, p, later);
    lemma_one_with_key(twice.naver_payments, naver_row_key(), (first, p.header.pay_id));
    lemma_one_with_key(twice.naver_payments, naver_row_key(), (second, p.header.pay_id));
    lemma_put_all_links(
        once.naver_items,
        once.naver_item_seq,
        p.items,
        naver_item_upsert(pk2, later),
        naver_item_parent(),
        pk2,
    );
    assert forall|i: int| once.naver_items.len() <= i < twice.naver_items.len() implies (
    #[trigger] twice.naver_items[i]).payment_id == pk2 by {
        assert(naver_item_parent()(twice.naver_items[i]) == pk2);
    }
}

/// Merges the payment `payment` of the owner `user_id` into the store, as
/// of the time `now`.
///
/// The header is stored under (owner, provider identifier): a new row the
/// first time, and after that only the status, the merchant's name and the
/// amounts are overwritten. Each line is stored under (payment, line
/// number), and overwritten in full when it comes again. The merge is
/// refused, and nothing changes, when the owner is unknown or the store has
/// no identifier left for a payment or a line that is new.
pub fn save_naver_payment_at(
    store: &mut Store,
    user_id: &str,
    payment: NaverPayment,
    now: &str,
) -> (r: Result<(), StoreError>)
    requires
        old(store).wf(),
    ensures
        final(store).wf(),
        r is Ok <==> naver_sync_allowed(old(store)@, user_id@, payment@),
        r is Ok ==> final(store)@ == naver_synced(old(store)@, user_id@, payment@, now@),
        r matches Err(e) ==> e == naver_sync_refused(old(store)@, user_id@, payment@)
            && final(store)@ == old(store)@,
{
    let user = user_id.to_owned();
    let now = now.to_owned();
    let ghost s0 = store@;
    let ghost p = payment@;
    let owner = find_row(
        &store.users,
        |u: &User| -> (b: bool)
            ensures b == (u@.id == user@)
        {
            u.id == user
        },
        Ghost(keyed(by_user_id(), user@)),
    );
    proof {
        lemma_keyed_position(s0.users, by_user_id(), user@);
        lemma_naver_counters(s0, user@, p, now@);
    }
    if owner >= store.users.len() {
        return Err(StoreError::Constraint(Rule::OwnerMissing));
    }
    let NaverPayment { header, items } = payment;
    let ghost held = held_by(naver_header_holds(), (user@, header@));
    let at = find_row(
        &store.naver_payments,
        |r: &NaverPaymentRow| -> (b: bool)
            ensures b == (r@.user_id == user@ && r@.header.pay_id == header@.pay_id)
        {
            r.user_id == user && r.header.pay_id == header.pay_id
        },
        Ghost(held),
    );
    proof {
        lemma_naver_upserts_fit(0, now@);
        lemma_held_is_keyed(
            s0.naver_payments,
            (user@, p.header),
            naver_header_upsert(now@),
            naver_row_id(),
            naver_row_key(),
            naver_header_key(),
        );
    }
    if at >= store.naver_payments.len() && store.naver_payment_seq >= i64::MAX {
        return Err(StoreError::Constraint(Rule::NoIdentifierLeft));
    }
    let pk: i64 = if at < store.naver_payments.len() {
        store.naver_payments[at].id
    } else {
        store.naver_payment_seq + 1
    };
    proof {
        assert(pk == naver_payment_pk(s0, user@, p.header));
    }
    let mut lines = clone_all(&store.naver_items);
    let mut line_seq = store.naver_item_seq;
    let done = put_naver_items(&mut lines, &mut line_seq, pk, &items, &now);
    if !done {
        return Err(StoreError::Constraint(Rule::NoIdentifierLeft));
    }
    proof {
        lemma_naver_synced_wf(s0, user@, p, now@);
    }
    if at < store.naver_payments.len() {
        merge_naver_header(&mut store.naver_payments[at], header, now.clone());
        proof {
            assert(store.naver_payments.deep_view() =~= s0.naver_payments.update(
                at as int,
                naver_header_merged(s0.naver_payments[at as int], p.header, now@),
            ));
        }
    } else {
        store.naver_payment_seq = pk;
        let row = NaverPaymentRow {
            id: pk,
            user_id: user.clone(),
            header,
            created_at: now.clone(),
            updated_at: now.clone(),
        };
        store.naver_payments.push(row);
        proof {
            assert(store.naver_payments.deep_view() =~= s0.naver_payments.push(
                naver_header_created(pk as int, user@, p.header, now@),
            ));
        }
    }
    store.naver_items = lines;
    store.naver_item_seq = line_seq;
    proof {
        assert(store@ =~= naver_synced(s0, user@, p, now@));
    }
    Ok(())
}

/// Merges the payment `payment` of the owner `user_id` into the store, as
/// of the current time.
pub fn save_naver_payment(store: &mut Store, user_id: &str, payment: NaverPayment) -> (r: Result<
    (),
    StoreError,
>)
    requires
        old(store).wf(),
    ensures
        final(store).wf(),
        r is Ok <==> naver_sync_allowed(old(store)@, user_id@, payment@),
        r is Ok ==> exists|now: Seq<char>|
            final(store)@ == naver_synced(old(store)@, user_id@, payment@, now),
        r matches Err(e) ==> e == naver_sync_refused(old(store)@, user_id@, payment@)
            && final(store)@ == old(store)@,
{
    let now = utc_now();
    save_naver_payment_at(store, user_id, payment, now.as_str())
}

/// Whether a payment with this status is shown in listings: only payments
/// that went through are.
pub open spec fn naver_status_shown(code: Option<Seq<char>>) -> bool {
    ||| code == Some("PURCHASE_CONFIRMED"@)
    ||| code == Some("PAYMENT_COMPLETED"@)
    ||| code == Some("DELIVERED"@)
    ||| code == Some("PURCHASE_CONFIRM_EXTENDED"@)
}

/// Whether a payment for this kind of service is shown in listings:
/// bookings and contents are not.
pub open spec fn naver_service_shown(service: Option<Seq<char>>) -> bool {
    service != Some("BOOKING"@) && service != Some("CONTENTS"@)
}

/// The test for being a payment of `user` that listings show.
pub open spec fn naver_listed(user: Seq<char>) -> spec_fn(NaverPaymentRowView) -> bool {
    |r: NaverPaymentRowView|
        r.user_id == user && naver_status_shown(r.header.status_code) && naver_service_shown(
            r.header.service_type,
        )
}

/// The test for being a payment of `user`.
pub open spec fn naver_owned(user: Seq<char>) -> spec_fn(NaverPaymentRowView) -> bool {
    |r: NaverPaymentRowView| r.user_id == user
}

/// The order of listings: the later payment first.
pub open spec fn naver_newest_first() -> spec_fn(NaverPaymentRowView, NaverPaymentRowView) -> bool {
    |a: NaverPaymentRowView, b: NaverPaymentRowView| text_lt(b.header.paid_at, a.header.paid_at)
}

/// The test for being a line of the payment `pk`.
pub open spec fn naver_line_of(pk: i64) -> spec_fn(NaverItemRowView) -> bool {
    |r: NaverItemRowView| r.payment_id == pk
}

/// The order of lines: by line number.
pub open spec fn naver_by_line() -> spec_fn(NaverItemRowView, NaverItemRowView) -> bool {
    |a: NaverItemRowView, b: NaverItemRowView| a.item.line_no < b.item.line_no
}

/// The lines of the payment `pk`, by line number.
pub open spec fn naver_lines(items: Seq<NaverItemRowView>, pk: i64) -> Seq<NaverPaymentItemView> {
    ordered_by(items.filter(naver_line_of(pk)), naver_by_line()).map_values(
        |r: NaverItemRowView| r.item,
    )
}

/// What a listing shows of the stored payment `r` with the lines `lines`.
pub open spec fn naver_list_item(
    r: NaverPaymentRowView,
    lines: Seq<NaverPaymentItemView>,
) -> NaverPaymentListItemView {
    NaverPaymentListItemView {
        id: r.id,
        pay_id: r.header.pay_id,
        external_id: r.header.external_id,
        service_type: r.header.service_type,
        status_code: r.header.status_code,
        status_text: r.header.status_text,
        status_color: r.header.status_color,
        paid_at: r.header.paid_at,
        purchaser_name: r.header.purchaser_name,
        merchant_name: r.header.merchant_name,
        product_name: r.header.product_name,
        product_count: r.header.product_count,
        total_amount: r.header.total_amount,
        discount_amount: r.header.discount_amount,
        items: lines,
    }
}

/// The limit of a listing where none is given.
pub const LIST_LIMIT: i64 = 100;

/// The window of the payments of `user` that listings show, the later
/// payment first, each with its lines by line number.
pub open spec fn naver_listing(
    s: StoreView,
    user: Seq<char>,
    limit: Option<i64>,
    offset: Option<i64>,
) -> Seq<NaverPaymentListItemView> {
    page(
        ordered_by(s.naver_payments.filter(naver_listed(user)), naver_newest_first()),
        match limit {
            Some(n) => n,
            None => LIST_LIMIT,
        },
        match offset {
            Some(n) => n,
            None => 0,
        },
    ).map_values(|r: NaverPaymentRowView| naver_list_item(r, naver_lines(s.naver_items, r.id)))
}

/// The newest payment of `user`, if there is any.
pub open spec fn naver_latest(s: StoreView, user: Seq<char>) -> Option<NaverLatestPaymentView> {
    let rows = ordered_by(s.naver_payments.filter(naver_owned(user)), naver_newest_first());
    if rows.len() == 0 {
        None
    } else {
        Some(NaverLatestPaymentView { pay_id: rows[0].header.pay_id, paid_at: rows[0].header.paid_at })
    }
}

/// Whether listings show a payment with this status and kind of service.
fn naver_shown(status: &Option<String>, service: &Option<String>) -> (r: bool)
    ensures
        r == (naver_status_shown(status.deep_view()) && naver_service_shown(service.deep_view())),
{
    (text_is(status, "PURCHASE_CONFIRMED") || text_is(status, "PAYMENT_COMPLETED") || text_is(
        status,
        "DELIVERED",
    ) || text_is(status, "PURCHASE_CONFIRM_EXTENDED")) && !text_is(service, "BOOKING") && !text_is(
        service,
        "CONTENTS",
    )
}

/// The lines of the payment `pk`, by line number.
fn naver_lines_of(table: &Vec<NaverItemRow>, pk: i64) -> (r: Vec<NaverPaymentItem>)
    ensures
        r.deep_view() == naver_lines(table.deep_view(), pk),
{
    let picked = select_rows(
        table,
        |r: &NaverItemRow| -> (b: bool)
            ensures b == (r@.payment_id == pk)
        {
            r.payment_id == pk
        },
        Ghost(naver_line_of(pk)),
    );
    let sorted = sort_rows(
        picked,
        |a: &NaverItemRow, b: &NaverItemRow| -> (r: bool)
            ensures r == (a@.item.line_no < b@.item.line_no)
        {
            a.item.line_no < b.item.line_no
        },
        Ghost(naver_by_line()),
    );
    let mut out: Vec<NaverPaymentItem> = Vec::new();
    let mut i: usize = 0;
    while i < sorted.len()
        invariant
            i <= sorted.len(),
            out.deep_view() =~= sorted.deep_view().take(i as int).map_values(
                |r: NaverItemRowView| r.item,
            ),
        decreases sorted.len() - i,
    {
        let line = sorted[i].item.clone();
        let ghost prior = out;
        out.push(line);
        proof {
            lemma_pushed(prior, out, line);
            lemma_map_step(sorted.deep_view(), |r: NaverItemRowView| r.item, i as int);
        }
        i += 1;
    }
    proof {
        assert(sorted.deep_view().take(i as int) =~= sorted.deep_view());
    }
    out
}

/// The payments of the owner `user_id` that listings show, the later
/// payment first, from `offset` on and at most `limit` of them, each with
/// its lines by line number. Without a limit at most 100 are returned; a
/// negative limit returns all, a negative offset skips none.
pub fn list_naver_payments(
    store: &Store,
    user_id: &str,
    limit: Option<i64>,
    offset: Option<i64>,
) -> (r: Vec<NaverPaymentListItem>)
    ensures
        r.deep_view() == naver_listing(store@, user_id@, limit, offset),
{
    let user = user_id.to_owned();
    let limit = match limit {
        Some(n) => n,
        None => LIST_LIMIT,
    };
    let offset = match offset {
        Some(n) => n,
        None => 0,
    };
    let picked = select_rows(
        &store.naver_payments,
        |r: &NaverPaymentRow| -> (b: bool)
            ensures b == naver_listed(user@)(r@)
        {
            r.user_id == user && naver_shown(&r.header.status_code, &r.header.service_type)
        },
        Ghost(naver_listed(user@)),
    );
    let sorted = sort_rows(
        picked,
        |a: &NaverPaymentRow, b: &NaverPaymentRow| -> (r: bool)
            ensures r == text_lt(b@.header.paid_at, a@.header.paid_at)
        {
            text_before(b.header.paid_at.as_str(), a.header.paid_at.as_str())
        },
        Ghost(naver_newest_first()),
    );
    let paged = page_rows(sorted, limit, offset);
    let mut out: Vec<NaverPaymentListItem> = Vec::new();
    let mut i: usize = 0;
    while i < paged.len()
        invariant
            i <= paged.len(),
            out.deep_view() =~= paged.deep_view().take(i as int).map_values(
                |r: NaverPaymentRowView| naver_list_item(r, naver_lines(store@.naver_items, r.id)),
            ),
        decreases paged.len() - i,
    {
        let row = &paged[i];
        let lines = naver_lines_of(&store.naver_items, row.id);
        let ghost prior = out;
        let shown =
            NaverPaymentListItem {
                id: row.id,
                pay_id: row.header.pay_id.clone(),
                external_id: clone_text(&row.header.external_id),
                service_type: clone_text(&row.header.service_type),
                status_code: clone_text(&row.header.status_code),
                status_text: clone_text(&row.header.status_text),
                status_color: clone_text(&row.header.status_color),
                paid_at: row.header.paid_at.clone(),
                purchaser_name: clone_text(&row.header.purchaser_name),
                merchant_name: row.header.merchant_name.clone(),
                product_name: clone_text(&row.header.product_name),
                product_count: row.header.product_count,
                total_amount: row.header.total_amount,
                discount_amount: row.header.discount_amount,
                items: lines,
            };
        out.push(shown);
        proof {
            lemma_pushed(prior, out, shown);
            lemma_map_step(
                paged.deep_view(),
                |r: NaverPaymentRowView| naver_list_item(r, naver_lines(store@.naver_items, r.id)),
                i as int,
            );
        }
        i += 1;
    }
    proof {
        assert(paged.deep_view().take(i as int) =~= paged.deep_view());
    }
    out
}

/// The newest payment of the owner `user_id`, if the owner has any.
pub fn get_last_naver_payment(store: &Store, user_id: &str) -> (r: Option<NaverLatestPayment>)
    ensures
        r.deep_view() == naver_latest(store@, user_id@),
{
    let user = user_id.to_owned();
    let picked = select_rows(
        &store.naver_payments,
        |r: &NaverPaymentRow| -> (b: bool)
            ensures b == (r@.user_id == user@)
        {
            r.user_id == user
        },
        Ghost(naver_owned(user@)),
    );
    let sorted = sort_rows(
        picked,
        |a: &NaverPaymentRow, b: &NaverPaymentRow| -> (r: bool)
            ensures r == text_lt(b@.header.paid_at, a@.header.paid_at)
        {
            text_before(b.header.paid_at.as_str(), a.header.paid_at.as_str())
        },
        Ghost(naver_newest_first()),
    );
    if sorted.len() == 0 {
        None
    } else {
        Some(
            NaverLatestPayment {
                pay_id: sorted[0].header.pay_id.clone(),
                paid_at: sorted[0].header.paid_at.clone(),
            },
        )
    }
}

/// The orders of listings can be ordered by: the later payment first, and
/// lines by their number.
pub proof fn lemma_naver_orders()
    ensures
        sortable(naver_newest_first()),
        sortable(naver_by_line()),
{
    lemma_text_order();
}

/// Whether `shown` is what a listing shows of some stored payment of `user`
/// that listings show, with the lines of that payment.
pub open spec fn naver_listed_from(s: StoreView, user: Seq<char>, shown: NaverPaymentListItemView) -> bool {
    exists|k: int|
        0 <= k < s.naver_payments.len() && naver_listed(user)(s.naver_payments[k])
            && #[trigger] naver_list_item(
            s.naver_payments[k],
            naver_lines(s.naver_items, s.naver_payments[k].id),
        ) == shown
}

/// A listing shows only payments of the owner that listings show, each
/// with the identifier it is stored under, no payment behind one that was
/// paid earlier, and no more than a limit that is not negative.
pub proof fn lemma_naver_listing(s: StoreView, user: Seq<char>, limit: Option<i64>, offset: Option<i64>)
    ensures
        ({
            let shown = naver_listing(s, user, limit, offset);
            &&& forall|i: int, j: int|
                #![trigger shown[i], shown[j]]
                0 <= i < j < shown.len() ==> !text_lt(shown[i].paid_at, shown[j].paid_at)
            &&& forall|i: int| 0 <= i < shown.len() ==> naver_listed_from(s, user, #[trigger] shown[i])
            &&& (limit matches Some(n) ==> n >= 0 ==> shown.len() <= n)
            &&& (limit is None ==> shown.len() <= LIST_LIMIT)
        }),
{
    let n = match limit {
        Some(n) => n,
        None => LIST_LIMIT,
    };
    let m = match offset {
        Some(n) => n,
        None => 0,
    };
    let picked = s.naver_payments.filter(naver_listed(user));
    let sorted = ordered_by(picked, naver_newest_first());
    let paged = page(sorted, n, m);
    let show = |r: NaverPaymentRowView| naver_list_item(r, naver_lines(s.naver_items, r.id));
    let shown = naver_listing(s, user, limit, offset);
    lemma_text_order();
    lemma_ordered_by(picked, naver_newest_first());
    lemma_ordered_by_holds(picked, naver_newest_first());
    lemma_page(sorted, naver_newest_first(), n, m);
    lemma_filter_keys(s.naver_payments, naver_listed(user), naver_row_id());
    assert(shown == paged.map_values(show));
    assert forall|i: int, j: int|
        #![trigger shown[i], shown[j]]
        0 <= i < j < shown.len() implies !text_lt(shown[i].paid_at, shown[j].paid_at) by {
        assert(!naver_newest_first()(paged[j], paged[i]));
    }
    assert forall|i: int| 0 <= i < shown.len() implies naver_listed_from(
        s,
        user,
        #[trigger] shown[i],
    ) by {
        let r = paged[i];
        assert(sorted.contains(r));
        assert(picked.contains(r));
        let x = choose|x: int| 0 <= x < picked.len() && picked[x] == r;
        assert(naver_listed(user)(picked[x]));
        assert(s.naver_payments.contains(picked[x]));
        let k = choose|k: int| 0 <= k < s.naver_payments.len() && s.naver_payments[k] == r;
        assert(naver_list_item(s.naver_payments[k], naver_lines(s.naver_items, s.naver_payments[k].id))
            == shown[i]);
    }
}

/// What was merged in can be read back: the stored header of the payment
/// has the status, the merchant's name and the total handed in, and is the
/// header handed in where the payment was new; and where listings show it,
/// a listing of the owner without a limit shows it, with as many lines as
/// were handed in where the payment was new and has each line number once.
pub proof fn lemma_naver_sync_listed(s: StoreView, user: Seq<char>, p: NaverPaymentView, now: Seq<char>)
    requires
        s.wf(),
        naver_sync_allowed(s, user, p),
    ensures
        ({
            let once = naver_synced(s, user, p, now);
            let at = position(once.naver_payments, keyed(naver_row_key(), (user, p.header.pay_id)));
            let row = once.naver_payments[at];
            let fresh = !has_key(s.naver_payments, naver_row_key(), (user, p.header.pay_id));
            let shown = naver_list_item(row, naver_lines(once.naver_items, row.id));
            &&& 0 <= at < once.naver_payments.len()
            &&& row.id == naver_payment_pk(s, user, p.header)
            &&& row.user_id == user
            &&& row.header.pay_id == p.header.pay_id
            &&& row.header.status_code == p.header.status_code
            &&& row.header.status_text == p.header.status_text
            &&& row.header.merchant_name == p.header.merchant_name
            &&& row.header.total_amount == p.header.total_amount
            &&& row.updated_at == now
            &&& (fresh ==> row.header == p.header && row.created_at == now)
            &&& (naver_listed(user)(row) ==> naver_listing(once, user, Some(-1i64), None).contains(
                shown,
            ))
            &&& (fresh && distinct_by(p.items, naver_line_no()) ==> shown.items.len()
                == p.items.len())
        }),
{
    let once = naver_synced(s, user, p, now);
    let mine = keyed(naver_row_key(), (user, p.header.pay_id));
    let at = position(once.naver_payments, mine);
    let pk = naver_payment_pk(s, user, p.header);
    lemma_naver_counters(s, user, p, now);
    lemma_naver_synced_wf(s, user, p, now);
    lemma_naver_upserts_fit(pk, now);
    lemma_keyed_position(once.naver_payments, naver_row_key(), (user, p.header.pay_id));
    lemma_keyed_position(s.naver_payments, naver_row_key(), (user, p.header.pay_id));
    lemma_held_is_keyed(
        s.naver_payments,
        (user, p.header),
        naver_header_upsert(now),
        naver_row_id(),
        naver_row_key(),
        naver_header_key(),
    );
    let was = position(s.naver_payments, held_by(naver_header_holds(), (user, p.header)));
    assert(mine(once.naver_payments[was]));
    assert forall|j: int| 0 <= j < was implies !mine(#[trigger] once.naver_payments[j]) by {
        assert(once.naver_payments[j] == s.naver_payments[j]);
        assert(naver_row_key()(s.naver_payments[j]) != (user, p.header.pay_id));
    }
    lemma_position_is(once.naver_payments, mine, was);
    let row = once.naver_payments[at];
    let show = |r: NaverPaymentRowView| naver_list_item(r, naver_lines(once.naver_items, r.id));
    if naver_listed(user)(row) {
        let picked = once.naver_payments.filter(naver_listed(user));
        let sorted = ordered_by(picked, naver_newest_first());
        lemma_text_order();
        lemma_filter_keys(once.naver_payments, naver_listed(user), naver_row_id());
        assert(has_key(picked, naver_row_id(), naver_row_id()(once.naver_payments[at])));
        let x = choose|x: int|
            0 <= x < picked.len() && naver_row_id()(#[trigger] picked[x]) == row.id;
        assert(once.naver_payments.contains(picked[x]));
        let y = choose|y: int| 0 <= y < once.naver_payments.len() && once.naver_payments[y] == picked[x];
        if y < at {
            assert(naver_row_id()(once.naver_payments[y]) != naver_row_id()(once.naver_payments[at]));
        } else if at < y {
            assert(naver_row_id()(once.naver_payments[at]) != naver_row_id()(once.naver_payments[y]));
        }
        assert(picked[x] == row);
        assert(picked.contains(row));
        lemma_ordered_by(picked, naver_newest_first());
        lemma_ordered_by_holds(picked, naver_newest_first());
        assert(sorted.contains(row));
        assert(page(sorted, -1i64, 0i64) =~= sorted);
        let z = choose|z: int| 0 <= z < sorted.len() && sorted[z] == row;
        let listing = naver_listing(once, user, Some(-1i64), None);
        assert(listing == sorted.map_values(show));
        assert(listing[z] == show(row));
    }
    if !has_key(s.naver_payments, naver_row_key(), (user, p.header.pay_id)) && distinct_by(
        p.items,
        naver_line_no(),
    ) {
        lemma_naver_sync_again(s, user, p, now, now);
        let lines = once.naver_items.filter(naver_line_of(pk));
        lemma_naver_orders();
        lemma_ordered_by(lines, naver_by_line());
    }
}

} // verus!
