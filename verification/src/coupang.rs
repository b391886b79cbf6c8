//! Orders of the second provider: merging an order into the store, and
//! reading orders back.

use crate::clock::utc_now;
use crate::error::{Rule, StoreError};
use crate::records::coupang::{
    CoupangHeader, CoupangHeaderView, CoupangItemRow, CoupangItemRowView, CoupangLatestPayment,
    CoupangLatestPaymentView, CoupangPayment, CoupangPaymentItem, CoupangPaymentItemView,
    CoupangPaymentListItem, CoupangPaymentListItemView, CoupangPaymentRow, CoupangPaymentRowView,
    CoupangPaymentView,
};
use crate::naver::LIST_LIMIT;
use crate::records::owner::User;
use crate::rows::{
    clone_text, distinct_by, find_row, has_key, keyed, lemma_keyed_position, lemma_map_step,
    lemma_pushed, ordered_by, page, page_rows, position, select_rows, sort_rows, sortable,
};
use crate::text::{lemma_text_order, text_before, text_is, text_lt};
use crate::upsert::{
    fits, held_by, lemma_held_is_keyed, lemma_put_all_again, lemma_put_all_fresh,
    lemma_put_all_idempotent, lemma_put_all_numbered, lemma_put_all_others,
    lemma_put_all_refers, lemma_put_id_stable, lemma_put_idempotent, lemma_put_numbered,
    lemma_put_others, lemma_put_refers, lemma_refers_after_put, made_rows, merges_settle, put,
    put_all, put_id, Upsert,
};
use crate::store::{
    coupang_item_id, coupang_item_key, coupang_item_parent, coupang_row_id, coupang_row_key,
    coupang_row_owner, by_user_id, Store, StoreView,
};
use crate::rows::{lemma_filter_keys, lemma_ordered_by, lemma_ordered_by_holds, lemma_page};
use crate::rows::clone_all;
use crate::upsert::{lemma_put_all_alike, lemma_put_all_grows};
use crate::rows::{lemma_filter_all, lemma_filter_len_alike, lemma_filter_none, lemma_one_with_key};
use crate::upsert::lemma_put_all_links;
use crate::rows::lemma_position_is;
use vstd::prelude::*;

verus! {

/// The stored header `old` after an order with the header `h` came in
/// again at `now`: the status, the merchant's name and every amount are
/// taken from `h`; everything else stays as it was stored, the time of
/// creation and the identifier among it.
pub open spec fn coupang_header_merged(
    old: CoupangPaymentRowView,
    h: CoupangHeaderView,
    now: Seq<char>,
) -> CoupangPaymentRowView {
    CoupangPaymentRowView {
        header: CoupangHeaderView {
            status_code: h.status_code,
            status_text: h.status_text,
            status_color: h.status_color,
            merchant_name: h.merchant_name,
            total_amount: h.total_amount,
            total_order_amount: h.total_order_amount,
            total_cancel_amount: h.total_cancel_amount,
            discount_amount: h.discount_amount,
            rest_amount: h.rest_amount,
            pay_rocket_balance_amount: h.pay_rocket_balance_amount,
            pay_card_amount: h.pay_card_amount,
            pay_coupon_amount: h.pay_coupon_amount,
            pay_coupang_cash_amount: h.pay_coupang_cash_amount,
            pay_rocket_bank_amount: h.pay_rocket_bank_amount,
            wow_instant_discount: h.wow_instant_discount,
            reward_cash_amount: h.reward_cash_amount,
            ..old.header
        },
        updated_at: now,
        ..old
    }
}

/// The row that the header `h` makes for the owner `user` under the
/// identifier `id`.
pub open spec fn coupang_header_created(
    id: int,
    user: Seq<char>,
    h: CoupangHeaderView,
    now: Seq<char>,
) -> CoupangPaymentRowView {
    CoupangPaymentRowView { id: id as i64, user_id: user, header: h, created_at: now, updated_at: now }
}

/// Whether a stored order is the one of the owner `p.0` that the header
/// `p.1` names.
pub open spec fn coupang_header_holds() -> spec_fn(
    CoupangPaymentRowView,
    (Seq<char>, CoupangHeaderView),
) -> bool {
    |r: CoupangPaymentRowView, p: (Seq<char>, CoupangHeaderView)|
        r.user_id == p.0 && r.header.order_id == p.1.order_id
}

/// How the header table takes in a header of an owner at `now`.
pub open spec fn coupang_header_upsert(now: Seq<char>) -> Upsert<
    CoupangPaymentRowView,
    (Seq<char>, CoupangHeaderView),
> {
    Upsert {
        holds: coupang_header_holds(),
        merge: |r: CoupangPaymentRowView, p: (Seq<char>, CoupangHeaderView)|
            coupang_header_merged(r, p.1, now),
        create: |id: int, p: (Seq<char>, CoupangHeaderView)| coupang_header_created(id, p.0, p.1, now),
    }
}

/// The stored line `old` after the line `item` came in again at `now`:
/// every field of the line is taken from `item`; the stored identifier and
/// the time of creation stay.
pub open spec fn coupang_item_merged(
    old: CoupangItemRowView,
    item: CoupangPaymentItemView,
    now: Seq<char>,
) -> CoupangItemRowView {
    CoupangItemRowView {
        item: CoupangPaymentItemView { id: old.item.id, ..item },
        updated_at: now,
        ..old
    }
}

/// The row that the line `item` makes for the order `payment_id` under
/// the identifier `id`.
pub open spec fn coupang_item_created(
    id: int,
    payment_id: i64,
    item: CoupangPaymentItemView,
    now: Seq<char>,
) -> CoupangItemRowView {
    CoupangItemRowView {
        payment_id,
        item: CoupangPaymentItemView { id: id as i64, ..item },
        created_at: now,
        updated_at: now,
    }
}

/// Whether a stored line is the line of the order `payment_id` with the
/// line number of `p`.
pub open spec fn coupang_item_holds(payment_id: i64) -> spec_fn(
    CoupangItemRowView,
    CoupangPaymentItemView,
) -> bool {
    |r: CoupangItemRowView, p: CoupangPaymentItemView|
        r.payment_id == payment_id && r.item.line_no == p.line_no
}

/// How the line table takes in a line of the order `payment_id` at `now`.
pub open spec fn coupang_item_upsert(payment_id: i64, now: Seq<char>) -> Upsert<
    CoupangItemRowView,
    CoupangPaymentItemView,
> {
    Upsert {
        holds: coupang_item_holds(payment_id),
        merge: |r: CoupangItemRowView, p: CoupangPaymentItemView| coupang_item_merged(r, p, now),
        create: |id: int, p: CoupangPaymentItemView| coupang_item_created(id, payment_id, p, now),
    }
}

/// Whether an order can be merged in: its owner exists, and the store has
/// an identifier left for the order where it is new to the owner, and
/// one for every line that is new to the order. That is so exactly when
/// the two counters, after the merge, are numbers that can be handed out.
pub open spec fn coupang_sync_allowed(s: StoreView, user: Seq<char>, p: CoupangPaymentView) -> bool {
    &&& has_key(s.users, by_user_id(), user)
    &&& coupang_synced(s, user, p, Seq::empty()).coupang_payment_seq <= i64::MAX
    &&& coupang_synced(s, user, p, Seq::empty()).coupang_item_seq <= i64::MAX
}

/// Why an order that cannot be merged in is refused: its owner does not
/// exist, or else no identifier is left.
pub open spec fn coupang_sync_refused(s: StoreView, user: Seq<char>, p: CoupangPaymentView) -> StoreError {
    if !has_key(s.users, by_user_id(), user) {
        StoreError::Constraint(Rule::OwnerMissing)
    } else {
        StoreError::Constraint(Rule::NoIdentifierLeft)
    }
}

/// The identifier under which the order of `user` that `h` names is
/// stored once it has been merged in.
pub open spec fn coupang_payment_pk(s: StoreView, user: Seq<char>, h: CoupangHeaderView) -> i64 {
    put_id(
        s.coupang_payments,
        s.coupang_payment_seq,
        (user, h),
        coupang_header_holds(),
        coupang_row_id(),
    )
}

/// The owner and provider identifier that a header of an owner goes by.
pub open spec fn coupang_header_key() -> spec_fn((Seq<char>, CoupangHeaderView)) -> (
    Seq<char>,
    Seq<char>,
) {
    |p: (Seq<char>, CoupangHeaderView)| (p.0, p.1.order_id)
}

/// The order and line number that a line of the order `payment_id`
/// goes by.
pub open spec fn coupang_line_key(payment_id: i64) -> spec_fn(CoupangPaymentItemView) -> (i64, i32) {
    |p: CoupangPaymentItemView| (payment_id, p.line_no)
}

/// The store after the order `p` of `user` was merged in at `now`: the
/// header goes in under (owner, provider identifier), then each line in
/// turn under (order, line number). Nothing else changes, and no line is
/// ever taken away.
pub open spec fn coupang_synced(
    s: StoreView,
    user: Seq<char>,
    p: CoupangPaymentView,
    now: Seq<char>,
) -> StoreView {
    let (payments, payment_seq) = put(
        s.coupang_payments,
        s.coupang_payment_seq,
        (user, p.header),
        coupang_header_upsert(now),
    );
    let pk = coupang_payment_pk(s, user, p.header);
    let (items, item_seq) = put_all(
        s.coupang_items,
        s.coupang_item_seq,
        p.items,
        coupang_item_upsert(pk, now),
    );
    StoreView {
        coupang_payments: payments,
        coupang_payment_seq: payment_seq,
        coupang_items: items,
        coupang_item_seq: item_seq,
        ..s
    }
}

/// Writes the status, the merchant's name and the amounts of `h` into
/// `row`.
fn merge_coupang_header(row: &mut CoupangPaymentRow, h: CoupangHeader, now: String)
    ensures
        final(row)@ == coupang_header_merged(old(row)@, h@, now@),
{
    row.header.status_code = h.status_code;
    row.header.status_text = h.status_text;
    row.header.status_color = h.status_color;
    row.header.merchant_name = h.merchant_name;
    row.header.total_amount = h.total_amount;
    row.header.total_order_amount = h.total_order_amount;
    row.header.total_cancel_amount = h.total_cancel_amount;
    row.header.discount_amount = h.discount_amount;
    row.header.rest_amount = h.rest_amount;
    row.header.pay_rocket_balance_amount = h.pay_rocket_balance_amount;
    row.header.pay_card_amount = h.pay_card_amount;
    row.header.pay_coupon_amount = h.pay_coupon_amount;
    row.header.pay_coupang_cash_amount = h.pay_coupang_cash_amount;
    row.header.pay_rocket_bank_amount = h.pay_rocket_bank_amount;
    row.header.wow_instant_discount = h.wow_instant_discount;
    row.header.reward_cash_amount = h.reward_cash_amount;
    row.updated_at = now;
}

/// Writes every field of `item` but its identifier into `row`.
fn merge_coupang_item(row: &mut CoupangItemRow, item: CoupangPaymentItem, now: String)
    ensures
        final(row)@ == coupang_item_merged(old(row)@, item@, now@),
{
    let id = row.item.id;
    row.item = item;
    row.item.id = id;
    row.updated_at = now;
}

/// Merges each line of `items` into `table` as a line of the order `pk`,
/// as far as identifiers are left: where they run out, the answer is no
/// and `table` is left half done, for the caller to throw away.
fn put_coupang_items(
    table: &mut Vec<CoupangItemRow>,
    seq: &mut i64,
    pk: i64,
    items: &Vec<CoupangPaymentItem>,
    now: &String,
) -> (done: bool)
    requires
        0 <= *old(seq),
    ensures
        done <==> put_all(
            old(table).deep_view(),
            *old(seq) as int,
            items.deep_view(),
            coupang_item_upsert(pk, now@),
        ).1 <= i64::MAX,
        done ==> (final(table).deep_view(), *final(seq) as int) == put_all(
            old(table).deep_view(),
            *old(seq) as int,
            items.deep_view(),
            coupang_item_upsert(pk, now@),
        ),
{
    let ghost how = coupang_item_upsert(pk, now@);
    let ghost rows0 = table.deep_view();
    let ghost seq0 = *seq as int;
    let ghost all = items.deep_view();
    let mut k: usize = 0;
    proof {
        assert(all.take(0) =~= Seq::<CoupangPaymentItemView>::empty());
    }
    while k < items.len()
        invariant
            k <= items.len(),
            all == items.deep_view(),
            how == coupang_item_upsert(pk, now@),
            rows0 == old(table).deep_view(),
            seq0 == *old(seq),
            0 <= seq0 <= *seq,
            (table.deep_view(), *seq as int) == put_all(rows0, seq0, all.take(k as int), how),
        decreases items.len() - k,
    {
        let item = items[k].clone();
        let line_no = item.line_no;
        let ghost before = table.deep_view();
        let ghost held = held_by(coupang_item_holds(pk), item@);
        let at = find_row(
            table,
            |r: &CoupangItemRow| -> (b: bool)
                ensures b == (r@.payment_id == pk && r@.item.line_no == line_no)
            {
                r.payment_id == pk && r.item.line_no == line_no
            },
            Ghost(held),
        );
        proof {
            assert(all.take(k as int + 1).drop_last() =~= all.take(k as int));
            assert(all.take(k as int + 1).last() == item@);
        }
        if at < table.len() {
            merge_coupang_item(&mut table[at], item, now.clone());
            proof {
                assert(table.deep_view() =~= before.update(
                    at as int,
                    coupang_item_merged(before[at as int], item@, now@),
                ));
            }
        } else {
            if *seq >= i64::MAX {
                proof {
                    assert(put_all(rows0, seq0, all.take(k as int + 1), how).1 == *seq + 1);
                    lemma_put_all_grows(rows0, seq0, all, how, k as int + 1);
                }
                return false;
            }
            *seq = *seq + 1;
            let mut made = item;
            made.id = *seq;
            let row = CoupangItemRow {
                payment_id: pk,
                item: made,
                created_at: now.clone(),
                updated_at: now.clone(),
            };
            table.push(row);
            proof {
                assert(table.deep_view() =~= before.push(
                    coupang_item_created(*seq as int, pk, item@, now@),
                ));
            }
        }
        k += 1;
    }
    proof {
        assert(all.take(k as int) =~= all);
    }
    true
}

/// Whatever the time of a merge, it leaves the two counters at the same
/// numbers: the counter of headers one up where the order is new to the
/// owner, and where it is, and the counter of lines one up for every line
/// that is new to the order.
pub proof fn lemma_coupang_counters(s: StoreView, user: Seq<char>, p: CoupangPaymentView, now: Seq<char>)
    ensures
        coupang_synced(s, user, p, now).coupang_payment_seq == coupang_synced(
            s,
            user,
            p,
            Seq::empty(),
        ).coupang_payment_seq,
        coupang_synced(s, user, p, now).coupang_item_seq == coupang_synced(
            s,
            user,
            p,
            Seq::empty(),
        ).coupang_item_seq,
        coupang_synced(s, user, p, now).coupang_payment_seq == if has_key(
            s.coupang_payments,
            coupang_row_key(),
            (user, p.header.order_id),
        ) {
            s.coupang_payment_seq
        } else {
            s.coupang_payment_seq + 1
        },
        s.coupang_item_seq <= coupang_synced(s, user, p, now).coupang_item_seq <= s.coupang_item_seq
            + p.items.len(),
{
    let pk = coupang_payment_pk(s, user, p.header);
    lemma_coupang_upserts_fit(pk, now);
    lemma_coupang_upserts_fit(pk, Seq::empty());
    lemma_held_is_keyed(
        s.coupang_payments,
        (user, p.header),
        coupang_header_upsert(now),
        coupang_row_id(),
        coupang_row_key(),
        coupang_header_key(),
    );
    lemma_put_all_alike(
        s.coupang_items,
        s.coupang_item_seq,
        p.items,
        coupang_item_upsert(pk, now),
        coupang_item_upsert(pk, Seq::empty()),
        coupang_item_id(),
        coupang_item_key(),
        coupang_line_key(pk),
    );
    lemma_put_all_grows(
        s.coupang_items,
        s.coupang_item_seq,
        p.items,
        coupang_item_upsert(pk, now),
        p.items.len() as int,
    );
}

/// The two tables of the second provider stay in order when an order that
/// may be merged in is merged in.
pub proof fn lemma_coupang_synced_wf(s: StoreView, user: Seq<char>, p: CoupangPaymentView, now: Seq<char>)
    requires
        s.wf(),
        coupang_sync_allowed(s, user, p),
    ensures
        coupang_synced(s, user, p, now).wf(),
        has_key(
            coupang_synced(s, user, p, now).coupang_payments,
            coupang_row_key(),
            (user, p.header.order_id),
        ),
        has_key(
            coupang_synced(s, user, p, now).coupang_payments,
            coupang_row_id(),
            coupang_payment_pk(s, user, p.header),
        ),
{
    lemma_coupang_counters(s, user, p, now);
    let head = coupang_header_upsert(now);
    let pk = coupang_payment_pk(s, user, p.header);
    let lines = coupang_item_upsert(pk, now);
    let out = coupang_synced(s, user, p, now);
    assert(fits(head, coupang_row_id(), coupang_row_key(), coupang_header_key()));
    assert(fits(lines, coupang_item_id(), coupang_item_key(), coupang_line_key(pk)));
    lemma_put_numbered(
        s.coupang_payments,
        s.coupang_payment_seq,
        (user, p.header),
        head,
        coupang_row_id(),
        coupang_row_key(),
        coupang_header_key(),
    );
    
    lemma_put_refers(
        s.coupang_payments,
        s.coupang_payment_seq,
        (user, p.header),
        head,
        coupang_row_owner(),
        s.users,
        by_user_id(),
        user,
    );
    lemma_refers_after_put(
        s.coupang_items,
        coupang_item_parent(),
        s.coupang_payments,
        s.coupang_payment_seq,
        (user, p.header),
        head,
        coupang_row_id(),
        coupang_row_key(),
        coupang_header_key(),
    );
    lemma_put_all_numbered(
        s.coupang_items,
        s.coupang_item_seq,
        p.items,
        lines,
        coupang_item_id(),
        coupang_item_key(),
        coupang_line_key(pk),
    );
    lemma_put_all_refers(
        s.coupang_items,
        s.coupang_item_seq,
        p.items,
        lines,
        coupang_item_parent(),
        out.coupang_payments,
        coupang_row_id(),
        pk,
    );
}

/// The line number of a line.
pub open spec fn coupang_line_no() -> spec_fn(CoupangPaymentItemView) -> i32 {
    |p: CoupangPaymentItemView| p.line_no
}

/// What the two upserts of the second provider have in common with every
/// table that goes by a key.
proof fn lemma_coupang_upserts_fit(pk: i64, now: Seq<char>)
    ensures
        fits(coupang_header_upsert(now), coupang_row_id(), coupang_row_key(), coupang_header_key()),
        fits(coupang_item_upsert(pk, now), coupang_item_id(), coupang_item_key(), coupang_line_key(pk)),
        merges_settle(coupang_header_upsert(now)),
        merges_settle(coupang_item_upsert(pk, now)),
{
    let head = coupang_header_upsert(now);
    assert forall|r: CoupangPaymentRowView, p: (Seq<char>, CoupangHeaderView)| #[trigger]
        (head.merge)((head.merge)(r, p), p) == (head.merge)(r, p) by {}
    assert forall|n: int, p: (Seq<char>, CoupangHeaderView)|
        (head.merge)(#[trigger] (head.create)(n, p), p) == (head.create)(n, p) by {}
    let lines = coupang_item_upsert(pk, now);
    assert forall|r: CoupangItemRowView, p: CoupangPaymentItemView| #[trigger]
        (lines.merge)((lines.merge)(r, p), p) == (lines.merge)(r, p) by {}
    assert forall|n: int, p: CoupangPaymentItemView|
        (lines.merge)(#[trigger] (lines.create)(n, p), p) == (lines.create)(n, p) by {}
}

/// An order keeps its identifier when it is merged in again.
proof fn lemma_coupang_pk_stable(s: StoreView, user: Seq<char>, p: CoupangPaymentView, now: Seq<char>)
    requires
        s.wf(),
        coupang_sync_allowed(s, user, p),
    ensures
        coupang_payment_pk(coupang_synced(s, user, p, now), user, p.header) == coupang_payment_pk(
            s,
            user,
            p.header,
        ),
{
    lemma_coupang_counters(s, user, p, now);
    lemma_coupang_upserts_fit(0, now);
    lemma_put_id_stable(
        s.coupang_payments,
        s.coupang_payment_seq,
        (user, p.header),
        coupang_header_upsert(now),
        coupang_row_id(),
        coupang_row_key(),
        coupang_header_key(),
    );
}

/// Merging the same order in twice at the same time leaves the store as
/// merging it in once, where the order has each line number once.
pub proof fn lemma_coupang_sync_idempotent(
    s: StoreView,
    user: Seq<char>,
    p: CoupangPaymentView,
    now: Seq<char>,
)
    requires
        s.wf(),
        coupang_sync_allowed(s, user, p),
        distinct_by(p.items, coupang_line_no()),
    ensures
        coupang_synced(coupang_synced(s, user, p, now), user, p, now) == coupang_synced(s, user, p, now),
{
    lemma_coupang_counters(s, user, p, now);
    let pk = coupang_payment_pk(s, user, p.header);
    let once = coupang_synced(s, user, p, now);
    lemma_coupang_upserts_fit(pk, now);
    lemma_coupang_pk_stable(s, user, p, now);
    lemma_put_idempotent(
        s.coupang_payments,
        s.coupang_payment_seq,
        (user, p.header),
        coupang_header_upsert(now),
        coupang_row_id(),
        coupang_row_key(),
        coupang_header_key(),
    );
    assert forall|i: int, j: int| 0 <= i < j < p.items.len() implies coupang_line_key(pk)(p.items[i])
        != coupang_line_key(pk)(p.items[j]) by {
        assert(coupang_line_no()(p.items[i]) != coupang_line_no()(p.items[j]));
    }
    lemma_put_all_idempotent(
        s.coupang_items,
        s.coupang_item_seq,
        p.items,
        coupang_item_upsert(pk, now),
        coupang_item_id(),
        coupang_item_key(),
        coupang_line_key(pk),
    );
}

/// Merging an order in again, at whatever time, adds no header row and no
/// line row, and hands out no identifier.
pub proof fn lemma_coupang_resync_adds_nothing(
    s: StoreView,
    user: Seq<char>,
    p: CoupangPaymentView,
    now: Seq<char>,
    later: Seq<char>,
)
    requires
        s.wf(),
        coupang_sync_allowed(s, user, p),
    ensures
        ({
            let once = coupang_synced(s, user, p, now);
            let twice = coupang_synced(once, user, p, later);
            &&& twice.coupang_payments.len() == once.coupang_payments.len()
            &&& twice.coupang_items.len() == once.coupang_items.len()
            &&& twice.coupang_payment_seq == once.coupang_payment_seq
            &&& twice.coupang_item_seq == once.coupang_item_seq
        }),
{
    lemma_coupang_counters(s, user, p, now);
    let pk = coupang_payment_pk(s, user, p.header);
    let once = coupang_synced(s, user, p, now);
    lemma_coupang_upserts_fit(pk, now);
    lemma_coupang_upserts_fit(pk, later);
    lemma_coupang_pk_stable(s, user, p, now);
    lemma_coupang_synced_wf(s, user, p, now);
    lemma_held_is_keyed(
        once.coupang_payments,
        (user, p.header),
        coupang_header_upsert(later),
        coupang_row_id(),
        coupang_row_key(),
        coupang_header_key(),
    );
    lemma_put_all_numbered(
        s.coupang_items,
        s.coupang_item_seq,
        p.items,
        coupang_item_upsert(pk, now),
        coupang_item_id(),
        coupang_item_key(),
        coupang_line_key(pk),
    );
    lemma_put_all_again(
        once.coupang_items,
        once.coupang_item_seq,
        p.items,
        coupang_item_upsert(pk, later),
        coupang_item_id(),
        coupang_item_key(),
        coupang_line_key(pk),
    );
}

/// Merging in an order that the owner did not have adds exactly one header
/// row, under the next identifier, and exactly one line row for each line,
/// where the order has each line number once; no line row that was there
/// belongs to the new order.
pub proof fn lemma_coupang_first_sync(s: StoreView, user: Seq<char>, p: CoupangPaymentView, now: Seq<char>)
    requires
        s.wf(),
        coupang_sync_allowed(s, user, p),
        !has_key(s.coupang_payments, coupang_row_key(), (user, p.header.order_id)),
        distinct_by(p.items, coupang_line_no()),
    ensures
        ({
            let once = coupang_synced(s, user, p, now);
            let pk = (s.coupang_payment_seq + 1) as i64;
            &&& coupang_payment_pk(s, user, p.header) == pk
            &&& once.coupang_payments == s.coupang_payments.push(
                coupang_header_created(s.coupang_payment_seq + 1, user, p.header, now),
            )
            &&& once.coupang_items == s.coupang_items + made_rows(
                s.coupang_item_seq,
                p.items,
                coupang_item_upsert(pk, now),
            )
            &&& once.coupang_items.len() == s.coupang_items.len() + p.items.len()
            &&& forall|i: int|
                0 <= i < s.coupang_items.len() ==> (#[trigger] s.coupang_items[i]).payment_id != pk
        }),
{
    lemma_coupang_counters(s, user, p, now);
    let pk = (s.coupang_payment_seq + 1) as i64;
    lemma_coupang_upserts_fit(pk, now);
    lemma_held_is_keyed(
        s.coupang_payments,
        (user, p.header),
        coupang_header_upsert(now),
        coupang_row_id(),
        coupang_row_key(),
        coupang_header_key(),
    );
    assert(coupang_payment_pk(s, user, p.header) == pk);
    assert forall|i: int| 0 <= i < s.coupang_items.len() implies (#[trigger] s.coupang_items[i]).payment_id
        != pk by {
        let parent = coupang_item_parent()(s.coupang_items[i]);
        assert(has_key(s.coupang_payments, coupang_row_id(), parent));
        let j = choose|j: int|
            0 <= j < s.coupang_payments.len() && coupang_row_id()(#[trigger] s.coupang_payments[j])
                == parent;
        assert(coupang_row_id()(s.coupang_payments[j]) <= s.coupang_payment_seq);
    }
    assert forall|i: int| 0 <= i < p.items.len() implies !has_key(
        s.coupang_items,
        coupang_item_key(),
        coupang_line_key(pk)(#[trigger] p.items[i]),
    ) by {
        if has_key(s.coupang_items, coupang_item_key(), coupang_line_key(pk)(p.items[i])) {
            let j = choose|j: int|
                0 <= j < s.coupang_items.len() && coupang_item_key()(#[trigger] s.coupang_items[j])
                    == coupang_line_key(pk)(p.items[i]);
            assert(s.coupang_items[j].payment_id == pk);
        }
    }
    assert forall|i: int, j: int| 0 <= i < j < p.items.len() implies coupang_line_key(pk)(p.items[i])
        != coupang_line_key(pk)(p.items[j]) by {
        assert(coupang_line_no()(p.items[i]) != coupang_line_no()(p.items[j]));
    }
    lemma_put_all_fresh(
        s.coupang_items,
        s.coupang_item_seq,
        p.items,
        coupang_item_upsert(pk, now),
        coupang_item_id(),
        coupang_item_key(),
        coupang_line_key(pk),
    );
}

/// Merging an order in touches no header row of another owner or of
/// another order, and no line row of another order.
pub proof fn lemma_coupang_sync_leaves_others(
    s: StoreView,
    user: Seq<char>,
    p: CoupangPaymentView,
    now: Seq<char>,
)
    requires
        s.wf(),
        coupang_sync_allowed(s, user, p),
    ensures
        ({
            let once = coupang_synced(s, user, p, now);
            let pk = coupang_payment_pk(s, user, p.header);
            &&& once.coupang_payments.len() >= s.coupang_payments.len()
            &&& once.coupang_items.len() >= s.coupang_items.len()
            &&& forall|i: int|
                0 <= i < s.coupang_payments.len() && ((#[trigger] s.coupang_payments[i]).user_id != user
                    || s.coupang_payments[i].header.order_id != p.header.order_id)
                    ==> once.coupang_payments[i] == s.coupang_payments[i]
            &&& forall|i: int|
                0 <= i < s.coupang_items.len() && (#[trigger] s.coupang_items[i]).payment_id != pk
                    ==> once.coupang_items[i] == s.coupang_items[i]
        }),
{
    lemma_coupang_counters(s, user, p, now);
    let pk = coupang_payment_pk(s, user, p.header);
    let once = coupang_synced(s, user, p, now);
    lemma_coupang_upserts_fit(pk, now);
    lemma_put_others(
        s.coupang_payments,
        s.coupang_payment_seq,
        (user, p.header),
        coupang_header_upsert(now),
        coupang_row_id(),
        coupang_row_key(),
        coupang_header_key(),
    );
    assert forall|i: int|
        0 <= i < s.coupang_payments.len() && ((#[trigger] s.coupang_payments[i]).user_id != user
            || s.coupang_payments[i].header.order_id != p.header.order_id) implies once.coupang_payments[i]
        == s.coupang_payments[i] by {
        assert(coupang_row_key()(s.coupang_payments[i]) != coupang_header_key()((user, p.header)));
    }
    lemma_put_all_others(
        s.coupang_items,
        s.coupang_item_seq,
        p.items,
        coupang_item_upsert(pk, now),
        coupang_item_id(),
        coupang_item_key(),
        coupang_line_key(pk),
    );
    assert forall|i: int|
        0 <= i < s.coupang_items.len() && (#[trigger] s.coupang_items[i]).payment_id
            != pk implies once.coupang_items[i] == s.coupang_items[i] by {
        let k = coupang_item_key()(s.coupang_items[i]);
        if has_key(p.items, coupang_line_key(pk), k) {
            let j = choose|j: int|
                0 <= j < p.items.len() && coupang_line_key(pk)(#[trigger] p.items[j]) == k;
            assert(false);
        }
    }
}

/// The same provider identifier merged in under two owners makes two
/// header rows with two identifiers, and the second merge leaves the first
/// owner's header row and lines as they were.
pub proof fn lemma_coupang_two_owners(
    s: StoreView,
    first: Seq<char>,
    second: Seq<char>,
    p: CoupangPaymentView,
    now: Seq<char>,
    later: Seq<char>,
)
    requires
        s.wf(),
        first != second,
        coupang_sync_allowed(s, first, p),
        coupang_sync_allowed(coupang_synced(s, first, p, now), second, p),
    ensures
        ({
            let once = coupang_synced(s, first, p, now);
            let twice = coupang_synced(once, second, p, later);
            let pk1 = coupang_payment_pk(s, first, p.header);
            let pk2 = coupang_payment_pk(once, second, p.header);
            &&& pk1 != pk2
            &&& has_key(twice.coupang_payments, coupang_row_key(), (first, p.header.order_id))
            &&& has_key(twice.coupang_payments, coupang_row_key(), (second, p.header.order_id))
            &&& has_key(twice.coupang_payments, coupang_row_id(), pk1)
            &&& has_key(twice.coupang_payments, coupang_row_id(), pk2)
            &&& forall|i: int|
                0 <= i < once.coupang_payments.len() && (#[trigger] once.coupang_payments[i]).user_id
                    == first ==> twice.coupang_payments[i] == once.coupang_payments[i]
            &&& forall|i: int|
                0 <= i < once.coupang_items.len() && (#[trigger] once.coupang_items[i]).payment_id
                    == pk1 ==> twice.coupang_items[i] == once.coupang_items[i]
        }),
{
    let once = coupang_synced(s, first, p, now);
    let twice = coupang_synced(once, second, p, later);
    let pk1 = coupang_payment_pk(s, first, p.header);
    let pk2 = coupang_payment_pk(once, second, p.header);
    lemma_coupang_synced_wf(s, first, p, now);
    lemma_coupang_synced_wf(once, second, p, later);
    lemma_coupang_sync_leaves_others(once, second, p, later);
    lemma_coupang_upserts_fit(pk1, now);
    lemma_coupang_upserts_fit(pk2, later);
    // The first owner's row is in `once`, and the second merge leaves it.
    let a = choose|a: int|
        0 <= a < once.coupang_payments.len() && coupang_row_id()(#[trigger] once.coupang_payments[a])
            == pk1;
    lemma_coupang_pk_stable(s, first, p, now);
    lemma_held_is_keyed(
        once.coupang_payments,
        (first, p.header),
        coupang_header_upsert(now),
        coupang_row_id(),
        coupang_row_key(),
        coupang_header_key(),
    );
    let f = position(once.coupang_payments, held_by(coupang_header_holds(), (first, p.header)));
    assert(coupang_row_key()(once.coupang_payments[f]) == (first, p.header.order_id));
    assert(once.coupang_payments[f].id == pk1);
    assert(twice.coupang_payments[f] == once.coupang_payments[f]);
    assert(coupang_row_key()(twice.coupang_payments[f]) == (first, p.header.order_id));
    assert(coupang_row_id()(twice.coupang_payments[f]) == pk1);
    // The second owner's row is another row, so it has another identifier.
    lemma_coupang_pk_stable(once, second, p, later);
    lemma_held_is_keyed(
        twice.coupang_payments,
        (second, p.header),
        coupang_header_upsert(later),
        coupang_row_id(),
        coupang_row_key(),
        coupang_header_key(),
    );
    let g = position(twice.coupang_payments, held_by(coupang_header_holds(), (second, p.header)));
    assert(coupang_row_key()(twice.coupang_payments[g]) == (second, p.header.order_id));
    assert(twice.coupang_payments[g].id == pk2);
    assert(f != g);
    if f < g {
        assert(coupang_row_id()(twice.coupang_payments[f]) != coupang_row_id()(twice.coupang_payments[g]));
    } else {
        assert(coupang_row_id()(twice.coupang_payments[g]) != coupang_row_id()(twice.coupang_payments[f]));
    }
}

/// Merging an order in a second time is always accepted, whenever that is,
/// and adds nothing: the order keeps its identifier, the owner has one
/// header row for it and no more, and the order has as many line rows
/// after the second merge as after the first, never twice as many. Where
/// the order was new to the owner and has each line number once, it has
/// one line row for each of its lines; and where the second merge is made
/// at the time of the first and each line number comes once, the store is
/// the same after it.
pub proof fn lemma_coupang_sync_again(
    s: StoreView,
    user: Seq<char>,
    p: CoupangPaymentView,
    now: Seq<char>,
    later: Seq<char>,
)
    requires
        s.wf(),
        coupang_sync_allowed(s, user, p),
    ensures
        ({
            let once = coupang_synced(s, user, p, now);
            let twice = coupang_synced(once, user, p, later);
            let pk = coupang_payment_pk(s, user, p.header);
            let mine = keyed(coupang_row_key(), (user, p.header.order_id));
            &&& coupang_sync_allowed(once, user, p)
            &&& coupang_payment_pk(once, user, p.header) == pk
            &&& once.coupang_payments.filter(mine).len() == 1
            &&& twice.coupang_payments.filter(mine).len() == 1
            &&& twice.coupang_payments.len() == once.coupang_payments.len()
            &&& twice.coupang_items.len() == once.coupang_items.len()
            &&& twice.coupang_items.filter(coupang_line_of(pk)).len() == once.coupang_items.filter(
                coupang_line_of(pk),
            ).len()
            &&& (!has_key(s.coupang_payments, coupang_row_key(), (user, p.header.order_id)) && distinct_by(
                p.items,
                coupang_line_no(),
            ) ==> once.coupang_items.filter(coupang_line_of(pk)).len() == p.items.len())
            &&& (later == now && distinct_by(p.items, coupang_line_no()) ==> twice == once)
        }),
{
    let once = coupang_synced(s, user, p, now);
    let twice = coupang_synced(once, user, p, later);
    let pk = coupang_payment_pk(s, user, p.header);
    let mine = keyed(coupang_row_key(), (user, p.header.order_id));
    lemma_coupang_counters(s, user, p, now);
    lemma_coupang_synced_wf(s, user, p, now);
    lemma_coupang_pk_stable(s, user, p, now);
    lemma_coupang_upserts_fit(pk, now);
    lemma_coupang_upserts_fit(pk, later);
    lemma_coupang_upserts_fit(pk, Seq::empty());
    // The second merge needs no identifier.
    lemma_put_all_numbered(
        s.coupang_items,
        s.coupang_item_seq,
        p.items,
        coupang_item_upsert(pk, now),
        coupang_item_id(),
        coupang_item_key(),
        coupang_line_key(pk),
    );
    lemma_coupang_counters(once, user, p, Seq::empty());
    lemma_put_all_again(
        once.coupang_items,
        once.coupang_item_seq,
        p.items,
        coupang_item_upsert(pk, Seq::empty()),
        coupang_item_id(),
        coupang_item_key(),
        coupang_line_key(pk),
    );
    assert(coupang_sync_allowed(once, user, p));
    lemma_coupang_synced_wf(once, user, p, later);
    lemma_coupang_resync_adds_nothing(s, user, p, now, later);
    lemma_one_with_key(once.coupang_payments, coupang_row_key(), (user, p.header.order_id));
    lemma_one_with_key(twice.coupang_payments, coupang_row_key(), (user, p.header.order_id));
    // The lines of the order stand at the same places after the second merge.
    lemma_put_all_others(
        once.coupang_items,
        once.coupang_item_seq,
        p.items,
        coupang_item_upsert(pk, later),
        coupang_item_id(),
        coupang_item_key(),
        coupang_line_key(pk),
    );
    assert forall|i: int| 0 <= i < once.coupang_items.len() implies coupang_line_of(pk)(
        #[trigger] once.coupang_items[i],
    ) == coupang_line_of(pk)(twice.coupang_items[i]) by {
        assert(coupang_item_key()(twice.coupang_items[i]) == coupang_item_key()(once.coupang_items[i]));
    }
    lemma_filter_len_alike(once.coupang_items, twice.coupang_items, coupang_line_of(pk));
    if !has_key(s.coupang_payments, coupang_row_key(), (user, p.header.order_id)) && distinct_by(
        p.items,
        coupang_line_no(),
    ) {
        lemma_coupang_first_sync(s, user, p, now);
        let made = made_rows(s.coupang_item_seq, p.items, coupang_item_upsert(pk, now));
        assert forall|i: int| 0 <= i < s.coupang_items.len() implies !coupang_line_of(pk)(
            #[trigger] s.coupang_items[i],
        ) by {}
        assert forall|i: int| 0 <= i < made.len() implies coupang_line_of(pk)(#[trigger] made[i]) by {}
        lemma_filter_none(s.coupang_items, coupang_line_of(pk));
        lemma_filter_all(made, coupang_line_of(pk));
        Seq::filter_distributes_over_add(s.coupang_items, made, coupang_line_of(pk));
    }
    if later == now && distinct_by(p.items, coupang_line_no()) {
        lemma_coupang_sync_idempotent(s, user, p, now);
    }
}

/// The same provider identifier merged in under two owners leaves each
/// owner with one header row for it, and every line row that the second
/// merge adds belongs to the second owner's order.
pub proof fn lemma_coupang_two_owners_rows(
    s: StoreView,
    first: Seq<char>,
    second: Seq<char>,
    p: CoupangPaymentView,
    now: Seq<char>,
    later: Seq<char>,
)
    requires
        s.wf(),
        first != second,
        coupang_sync_allowed(s, first, p),
        coupang_sync_allowed(coupang_synced(s, first, p, now), second, p),
    ensures
        ({
            let once = coupang_synced(s, first, p, now);
            let twice = coupang_synced(once, second, p, later);
            let pk2 = coupang_payment_pk(once, second, p.header);
            &&& twice.coupang_payments.filter(
                keyed(coupang_row_key(), (first, p.header.order_id)),
            ).len() == 1
            &&& twice.coupang_payments.filter(
                keyed(coupang_row_key(), (second, p.header.order_id)),
            ).len() == 1
            &&& twice.coupang_items.len() >= once.coupang_items.len()
            &&& forall|i: int|
                once.coupang_items.len() <= i < twice.coupang_items.len() ==> (
                #[trigger] twice.coupang_items[i]).payment_id == pk2
        }),
{
    let once = coupang_synced(s, first, p, now);
    let twice = coupang_synced(once, second, p, later);
    let pk2 = coupang_payment_pk(once, second, p.header);
    lemma_coupang_two_owners(s, first, second, p, now, later);
    lemma_coupang_synced_wf(s, first, p, now);
    lemma_coupang_synced_wf(once, second, p, later);
    lemma_one_with_key(twice.coupang_payments, coupang_row_key(), (first, p.header.order_id));
    lemma_one_with_key(twice.coupang_payments, coupang_row_key(), (second, p.header.order_id));
    lemma_put_all_links(
        once.coupang_items,
        once.coupang_item_seq,
        p.items,
        coupang_item_upsert(pk2, later),
        coupang_item_parent(),
        pk2,
    );
    assert forall|i: int| once.coupang_items.len() <= i < twice.coupang_items.len() implies (
    #[trigger] twice.coupang_items[i]).payment_id == pk2 by {
        assert(coupang_item_parent()(twice.coupang_items[i]) == pk2);
    }
}

/// Merges the order `payment` of the owner `user_id` into the store, as
/// of the time `now`.
///
/// The header is stored under (owner, provider identifier): a new row the
/// first time, and after that only the status, the merchant's name and the
/// amounts are overwritten. Each line is stored under (order, line number),
/// and overwritten in full when it comes again. The merge is
/// refused, and nothing changes, when the owner is unknown or the store has
/// no identifier left for an order or a line that is new.
pub fn save_coupang_payment_at(
    store: &mut Store,
    user_id: &str,
    payment: CoupangPayment,
    now: &str,
) -> (r: Result<(), StoreError>)
    requires
        old(store).wf(),
    ensures
        final(store).wf(),
        r is Ok <==> coupang_sync_allowed(old(store)@, user_id@, payment@),
        r is Ok ==> final(store)@ == coupang_synced(old(store)@, user_id@, payment@, now@),
        r matches Err(e) ==> e == coupang_sync_refused(old(store)@, user_id@, payment@)
            && final(store)@ == old(store)@,
{
    let user = user_id.to_owned();
    let now = now.to_owned();
    let ghost s0 = store@;
    let ghost p = payment@;
    let owner = find_row(
        &store.users,
        |u: &User| -> (b: bool)
            ensures b == (u@.id == user@)
        {
            u.id == user
        },
        Ghost(keyed(by_user_id(), user@)),
    );
    proof {
        lemma_keyed_position(s0.users, by_user_id(), user@);
        lemma_coupang_counters(s0, user@, p, now@);
    }
    if owner >= store.users.len() {
        return Err(StoreError::Constraint(Rule::OwnerMissing));
    }
    let CoupangPayment { header, items } = payment;
    let ghost held = held_by(coupang_header_holds(), (user@, header@));
    let at = find_row(
        &store.coupang_payments,
        |r: &CoupangPaymentRow| -> (b: bool)
            ensures b == (r@.user_id == user@ && r@.header.order_id == header@.order_id)
        {
            r.user_id == user && r.header.order_id == header.order_id
        },
        Ghost(held),
    );
    proof {
        lemma_coupang_upserts_fit(0, now@);
        lemma_held_is_keyed(
            s0.coupang_payments,
            (user@, p.header),
            coupang_header_upsert(now@),
            coupang_row_id(),
            coupang_row_key(),
            coupang_header_key(),
        );
    }
    if at >= store.coupang_payments.len() && store.coupang_payment_seq >= i64::MAX {
        return Err(StoreError::Constraint(Rule::NoIdentifierLeft));
    }
    let pk: i64 = if at < store.coupang_payments.len() {
        store.coupang_payments[at].id
    } else {
        store.coupang_payment_seq + 1
    };
    proof {
        assert(pk == coupang_payment_pk(s0, user@, p.header));
    }
    let mut lines = clone_all(&store.coupang_items);
    let mut line_seq = store.coupang_item_seq;
    let done = put_coupang_items(&mut lines, &mut line_seq, pk, &items, &now);
    if !done {
        return Err(StoreError::Constraint(Rule::NoIdentifierLeft));
    }
    proof {
        lemma_coupang_synced_wf(s0, user@, p, now@);
    }
    if at < store.coupang_payments.len() {
        merge_coupang_header(&mut store.coupang_payments[at], header, now.clone());
        proof {
            assert(store.coupang_payments.deep_view() =~= s0.coupang_payments.update(
                at as int,
                coupang_header_merged(s0.coupang_payments[at as int], p.header, now@),
            ));
        }
    } else {
        store.coupang_payment_seq = pk;
        let row = CoupangPaymentRow {
            id: pk,
            user_id: user.clone(),
            header,
            created_at: now.clone(),
            updated_at: now.clone(),
        };
        store.coupang_payments.push(row);
        proof {
            assert(store.coupang_payments.deep_view() =~= s0.coupang_payments.push(
                coupang_header_created(pk as int, user@, p.header, now@),
            ));
        }
    }
    store.coupang_items = lines;
    store.coupang_item_seq = line_seq;
    proof {
        assert(store@ =~= coupang_synced(s0, user@, p, now@));
    }
    Ok(())
}

/// Merges the order `payment` of the owner `user_id` into the store, as
/// of the current time.
pub fn save_coupang_payment(store: &mut Store, user_id: &str, payment: CoupangPayment) -> (r: Result<
    (),
    StoreError,
>)
    requires
        old(store).wf(),
    ensures
        final(store).wf(),
        r is Ok <==> coupang_sync_allowed(old(store)@, user_id@, payment@),
        r is Ok ==> exists|now: Seq<char>|
            final(store)@ == coupang_synced(old(store)@, user_id@, payment@, now),
        r matches Err(e) ==> e == coupang_sync_refused(old(store)@, user_id@, payment@)
            && final(store)@ == old(store)@,
{
    let now = utc_now();
    save_coupang_payment_at(store, user_id, payment, now.as_str())
}

/// Whether an order with this status is shown in listings: cancelled
/// orders are not.
pub open spec fn coupang_status_shown(code: Option<Seq<char>>) -> bool {
    code != Some("CANCELED"@)
}

/// The test for being an order of `user` that listings show.
pub open spec fn coupang_listed(user: Seq<char>) -> spec_fn(CoupangPaymentRowView) -> bool {
    |r: CoupangPaymentRowView| r.user_id == user && coupang_status_shown(r.header.status_code)
}

/// The test for being an order of `user`.
pub open spec fn coupang_owned(user: Seq<char>) -> spec_fn(CoupangPaymentRowView) -> bool {
    |r: CoupangPaymentRowView| r.user_id == user
}

/// The order of listings: the later order first.
pub open spec fn coupang_newest_first() -> spec_fn(CoupangPaymentRowView, CoupangPaymentRowView) -> bool {
    |a: CoupangPaymentRowView, b: CoupangPaymentRowView| text_lt(b.header.ordered_at, a.header.ordered_at)
}

/// The test for being a line of the order `pk`.
pub open spec fn coupang_line_of(pk: i64) -> spec_fn(CoupangItemRowView) -> bool {
    |r: CoupangItemRowView| r.payment_id == pk
}

/// The order of lines: by line number.
pub open spec fn coupang_by_line() -> spec_fn(CoupangItemRowView, CoupangItemRowView) -> bool {
    |a: CoupangItemRowView, b: CoupangItemRowView| a.item.line_no < b.item.line_no
}

/// The lines of the order `pk`, by line number.
pub open spec fn coupang_lines(items: Seq<CoupangItemRowView>, pk: i64) -> Seq<CoupangPaymentItemView> {
    ordered_by(items.filter(coupang_line_of(pk)), coupang_by_line()).map_values(
        |r: CoupangItemRowView| r.item,
    )
}

/// What a listing shows of the stored order `r` with the lines `lines`.
pub open spec fn coupang_list_item(
    r: CoupangPaymentRowView,
    lines: Seq<CoupangPaymentItemView>,
) -> CoupangPaymentListItemView {
    CoupangPaymentListItemView {
        id: r.id,
        order_id: r.header.order_id,
        external_id: r.header.external_id,
        status_code: r.header.status_code,
        status_text: r.header.status_text,
        status_color: r.header.status_color,
        ordered_at: r.header.ordered_at,
        paid_at: r.header.paid_at,
        merchant_name: r.header.merchant_name,
        merchant_tel: r.header.merchant_tel,
        merchant_url: r.header.merchant_url,
        merchant_image_url: r.header.merchant_image_url,
        product_name: r.header.product_name,
        product_count: r.header.product_count,
        total_amount: r.header.total_amount,
        total_order_amount: r.header.total_order_amount,
        total_cancel_amount: r.header.total_cancel_amount,
        discount_amount: r.header.discount_amount,
        rest_amount: r.header.rest_amount,
        main_pay_type: r.header.main_pay_type,
        items: lines,
    }
}

/// The window of the orders of `user` that listings show, the later
/// order first, each with its lines by line number.
pub open spec fn coupang_listing(
    s: StoreView,
    user: Seq<char>,
    limit: Option<i64>,
    offset: Option<i64>,
) -> Seq<CoupangPaymentListItemView> {
    page(
        ordered_by(s.coupang_payments.filter(coupang_listed(user)), coupang_newest_first()),
        match limit {
            Some(n) => n,
            None => LIST_LIMIT,
        },
        match offset {
            Some(n) => n,
            None => 0,
        },
    ).map_values(|r: CoupangPaymentRowView| coupang_list_item(r, coupang_lines(s.coupang_items, r.id)))
}

/// The newest order of `user`, if there is any.
pub open spec fn coupang_latest(s: StoreView, user: Seq<char>) -> Option<CoupangLatestPaymentView> {
    let rows = ordered_by(s.coupang_payments.filter(coupang_owned(user)), coupang_newest_first());
    if rows.len() == 0 {
        None
    } else {
        Some(
            CoupangLatestPaymentView {
                order_id: rows[0].header.order_id,
                ordered_at: rows[0].header.ordered_at,
            },
        )
    }
}

/// The lines of the order `pk`, by line number.
fn coupang_lines_of(table: &Vec<CoupangItemRow>, pk: i64) -> (r: Vec<CoupangPaymentItem>)
    ensures
        r.deep_view() == coupang_lines(table.deep_view(), pk),
{
    let picked = select_rows(
        table,
        |r: &CoupangItemRow| -> (b: bool)
            ensures b == (r@.payment_id == pk)
        {
            r.payment_id == pk
        },
        Ghost(coupang_line_of(pk)),
    );
    let sorted = sort_rows(
        picked,
        |a: &CoupangItemRow, b: &CoupangItemRow| -> (r: bool)
            ensures r == (a@.item.line_no < b@.item.line_no)
        {
            a.item.line_no < b.item.line_no
        },
        Ghost(coupang_by_line()),
    );
    let mut out: Vec<CoupangPaymentItem> = Vec::new();
    let mut i: usize = 0;
    while i < sorted.len()
        invariant
            i <= sorted.len(),
            out.deep_view() =~= sorted.deep_view().take(i as int).map_values(
                |r: CoupangItemRowView| r.item,
            ),
        decreases sorted.len() - i,
    {
        let line = sorted[i].item.clone();
        let ghost prior = out;
        out.push(line);
        proof {
            lemma_pushed(prior, out, line);
            lemma_map_step(sorted.deep_view(), |r: CoupangItemRowView| r.item, i as int);
        }
        i += 1;
    }
    proof {
        assert(sorted.deep_view().take(i as int) =~= sorted.deep_view());
    }
    out
}

/// The orders of the owner `user_id` that listings show, the later
/// order first, from `offset` on and at most `limit` of them, each with
/// its lines by line number. Without a limit at most 100 are returned; a
/// negative limit returns all, a negative offset skips none.
pub fn list_coupang_payments(
    store: &Store,
    user_id: &str,
    limit: Option<i64>,
    offset: Option<i64>,
) -> (r: Vec<CoupangPaymentListItem>)
    ensures
        r.deep_view() == coupang_listing(store@, user_id@, limit, offset),
{
    let user = user_id.to_owned();
    let limit = match limit {
        Some(n) => n,
        None => LIST_LIMIT,
    };
    let offset = match offset {
        Some(n) => n,
        None => 0,
    };
    let picked = select_rows(
        &store.coupang_payments,
        |r: &CoupangPaymentRow| -> (b: bool)
            ensures b == coupang_listed(user@)(r@)
        {
            r.user_id == user && !text_is(&r.header.status_code, "CANCELED")
        },
        Ghost(coupang_listed(user@)),
    );
    let sorted = sort_rows(
        picked,
        |a: &CoupangPaymentRow, b: &CoupangPaymentRow| -> (r: bool)
            ensures r == text_lt(b@.header.ordered_at, a@.header.ordered_at)
        {
            text_before(b.header.ordered_at.as_str(), a.header.ordered_at.as_str())
        },
        Ghost(coupang_newest_first()),
    );
    let paged = page_rows(sorted, limit, offset);
    let mut out: Vec<CoupangPaymentListItem> = Vec::new();
    let mut i: usize = 0;
    while i < paged.len()
        invariant
            i <= paged.len(),
            out.deep_view() =~= paged.deep_view().take(i as int).map_values(
                |r: CoupangPaymentRowView| coupang_list_item(r, coupang_lines(store@.coupang_items, r.id)),
            ),
        decreases paged.len() - i,
    {
        let row = &paged[i];
        let lines = coupang_lines_of(&store.coupang_items, row.id);
        let ghost prior = out;
        let shown =
            CoupangPaymentListItem {
                id: row.id,
                order_id: row.header.order_id.clone(),
                external_id: clone_text(&row.header.external_id),
                status_code: clone_text(&row.header.status_code),
                status_text: clone_text(&row.header.status_text),
                status_color: clone_text(&row.header.status_color),
                ordered_at: row.header.ordered_at.clone(),
                paid_at: clone_text(&row.header.paid_at),
                merchant_name: row.header.merchant_name.clone(),
                merchant_tel: clone_text(&row.header.merchant_tel),
                merchant_url: clone_text(&row.header.merchant_url),
                merchant_image_url: clone_text(&row.header.merchant_image_url),
                product_name: clone_text(&row.header.product_name),
                product_count: row.header.product_count,
                total_amount: row.header.total_amount,
                total_order_amount: row.header.total_order_amount,
                total_cancel_amount: row.header.total_cancel_amount,
                discount_amount: row.header.discount_amount,
                rest_amount: row.header.rest_amount,
                main_pay_type: clone_text(&row.header.main_pay_type),
                items: lines,
            };
        out.push(shown);
        proof {
            lemma_pushed(prior, out, shown);
            lemma_map_step(
                paged.deep_view(),
                |r: CoupangPaymentRowView| coupang_list_item(r, coupang_lines(store@.coupang_items, r.id)),
                i as int,
            );
        }
        i += 1;
    }
    proof {
        assert(paged.deep_view().take(i as int) =~= paged.deep_view());
    }
    out
}

/// The newest order of the owner `user_id`, if the owner has any.
pub fn get_last_coupang_payment(store: &Store, user_id: &str) -> (r: Option<CoupangLatestPayment>)
    ensures
        r.deep_view() == coupang_latest(store@, user_id@),
{
    let user = user_id.to_owned();
    let picked = select_rows(
        &store.coupang_payments,
        |r: &CoupangPaymentRow| -> (b: bool)
            ensures b == (r@.user_id == user@)
        {
            r.user_id == user
        },
        Ghost(coupang_owned(user@)),
    );
    let sorted = sort_rows(
        picked,
        |a: &CoupangPaymentRow, b: &CoupangPaymentRow| -> (r: bool)
            ensures r == text_lt(b@.header.ordered_at, a@.header.ordered_at)
        {
            text_before(b.header.ordered_at.as_str(), a.header.ordered_at.as_str())
        },
        Ghost(coupang_newest_first()),
    );
    if sorted.len() == 0 {
        None
    } else {
        Some(
            CoupangLatestPayment {
                order_id: sorted[0].header.order_id.clone(),
                ordered_at: sorted[0].header.ordered_at.clone(),
            },
        )
    }
}

/// The orders of listings can be ordered by: the later order first, and
/// lines by their number.
pub proof fn lemma_coupang_orders()
    ensures
        sortable(coupang_newest_first()),
        sortable(coupang_by_line()),
{
    lemma_text_order();
}

/// Whether `shown` is what a listing shows of some stored order of `user`
/// that listings show, with the lines of that order.
pub open spec fn coupang_listed_from(s: StoreView, user: Seq<char>, shown: CoupangPaymentListItemView) -> bool {
    exists|k: int|
        0 <= k < s.coupang_payments.len() && coupang_listed(user)(s.coupang_payments[k])
            && #[trigger] coupang_list_item(
            s.coupang_payments[k],
            coupang_lines(s.coupang_items, s.coupang_payments[k].id),
        ) == shown
}

/// A listing shows only orders of the owner that listings show, each
/// with the identifier it is stored under, no order behind one that was
/// made earlier, and no more than a limit that is not negative.
pub proof fn lemma_coupang_listing(s: StoreView, user: Seq<char>, limit: Option<i64>, offset: Option<i64>)
    ensures
        ({
            let shown = coupang_listing(s, user, limit, offset);
            &&& forall|i: int, j: int|
                #![trigger shown[i], shown[j]]
                0 <= i < j < shown.len() ==> !text_lt(shown[i].ordered_at, shown[j].ordered_at)
            &&& forall|i: int| 0 <= i < shown.len() ==> coupang_listed_from(s, user, #[trigger] shown[i])
            &&& (limit matches Some(n) ==> n >= 0 ==> shown.len() <= n)
            &&& (limit is None ==> shown.len() <= LIST_LIMIT)
        }),
{
    let n = match limit {
        Some(n) => n,
        None => LIST_LIMIT,
    };
    let m = match offset {
        Some(n) => n,
        None => 0,
    };
    let picked = s.coupang_payments.filter(coupang_listed(user));
    let sorted = ordered_by(picked, coupang_newest_first());
    let paged = page(sorted, n, m);
    let show = |r: CoupangPaymentRowView| coupang_list_item(r, coupang_lines(s.coupang_items, r.id));
    let shown = coupang_listing(s, user, limit, offset);
    lemma_text_order();
    lemma_ordered_by(picked, coupang_newest_first());
    lemma_ordered_by_holds(picked, coupang_newest_first());
    lemma_page(sorted, coupang_newest_first(), n, m);
    lemma_filter_keys(s.coupang_payments, coupang_listed(user), coupang_row_id());
    assert(shown == paged.map_values(show));
    assert forall|i: int, j: int|
        #![trigger shown[i], shown[j]]
        0 <= i < j < shown.len() implies !text_lt(shown[i].ordered_at, shown[j].ordered_at) by {
        assert(!coupang_newest_first()(paged[j], paged[i]));
    }
    assert forall|i: int| 0 <= i < shown.len() implies coupang_listed_from(
        s,
        user,
        #[trigger] shown[i],
    ) by {
        let r = paged[i];
        assert(sorted.contains(r));
        assert(picked.contains(r));
        let x = choose|x: int| 0 <= x < picked.len() && picked[x] == r;
        assert(coupang_listed(user)(picked[x]));
        assert(s.coupang_payments.contains(picked[x]));
        let k = choose|k: int| 0 <= k < s.coupang_payments.len() && s.coupang_payments[k] == r;
        assert(coupang_list_item(s.coupang_payments[k], coupang_lines(s.coupang_items, s.coupang_payments[k].id))
            == shown[i]);
    }
}

/// What was merged in can be read back: the stored header of the order
/// has the status, the merchant's name and the total handed in, and is the
/// header handed in where the order was new; and where listings show it,
/// a listing of the owner without a limit shows it, with as many lines as
/// were handed in where the order was new and has each line number once.
pub proof fn lemma_coupang_sync_listed(s: StoreView, user: Seq<char>, p: CoupangPaymentView, now: Seq<char>)
    requires
        s.wf(),
        coupang_sync_allowed(s, user, p),
    ensures
        ({
            let once = coupang_synced(s, user, p, now);
            let at = position(once.coupang_payments, keyed(coupang_row_key(), (user, p.header.order_id)));
            let row = once.coupang_payments[at];
            let fresh = !has_key(s.coupang_payments, coupang_row_key(), (user, p.header.order_id));
            let shown = coupang_list_item(row, coupang_lines(once.coupang_items, row.id));
            &&& 0 <= at < once.coupang_payments.len()
            &&& row.id == coupang_payment_pk(s, user, p.header)
            &&& row.user_id == user
            &&& row.header.order_id == p.header.order_id
            &&& row.header.status_code == p.header.status_code
            &&& row.header.status_text == p.header.status_text
            &&& row.header.merchant_name == p.header.merchant_name
            &&& row.header.total_amount == p.header.total_amount
            &&& row.updated_at == now
            &&& (fresh ==> row.header == p.header && row.created_at == now)
            &&& (coupang_listed(user)(row) ==> coupang_listing(once, user, Some(-1i64), None).contains(
                shown,
            ))
            &&& (fresh && distinct_by(p.items, coupang_line_no()) ==> shown.items.len()
                == p.items.len())
        }),
{
    let once = coupang_synced(s, user, p, now);
    let mine = keyed(coupang_row_key(), (user, p.header.order_id));
    let at = position(once.coupang_payments, mine);
    let pk = coupang_payment_pk(s, user, p.header);
    lemma_coupang_counters(s, user, p, now);
    lemma_coupang_synced_wf(s, user, p, now);
    lemma_coupang_upserts_fit(pk, now);
    lemma_keyed_position(once.coupang_payments, coupang_row_key(), (user, p.header.order_id));
    lemma_keyed_position(s.coupang_payments, coupang_row_key(), (user, p.header.order_id));
    lemma_held_is_keyed(
        s.coupang_payments,
        (user, p.header),
        coupang_header_upsert(now),
        coupang_row_id(),
        coupang_row_key(),
        coupang_header_key(),
    );
    let was = position(s.coupang_payments, held_by(coupang_header_holds(), (user, p.header)));
    assert(mine(once.coupang_payments[was]));
    assert forall|j: int| 0 <= j < was implies !mine(#[trigger] once.coupang_payments[j]) by {
        assert(once.coupang_payments[j] == s.coupang_payments[j]);
        assert(coupang_row_key()(s.coupang_payments[j]) != (user, p.header.order_id));
    }
    lemma_position_is(once.coupang_payments, mine, was);
    let row = once.coupang_payments[at];
    let show = |r: CoupangPaymentRowView| coupang_list_item(r, coupang_lines(once.coupang_items, r.id));
    if coupang_listed(user)(row) {
        let picked = once.coupang_payments.filter(coupang_listed(user));
        let sorted = ordered_by(picked, coupang_newest_first());
        lemma_text_order();
        lemma_filter_keys(once.coupang_payments, coupang_listed(user), coupang_row_id());
        assert(has_key(picked, coupang_row_id(), coupang_row_id()(once.coupang_payments[at])));
        let x = choose|x: int|
            0 <= x < picked.len() && coupang_row_id()(#[trigger] picked[x]) == row.id;
        assert(once.coupang_payments.contains(picked[x]));
        let y = choose|y: int| 0 <= y < once.coupang_payments.len() && once.coupang_payments[y] == picked[x];
        if y < at {
            assert(coupang_row_id()(once.coupang_payments[y]) != coupang_row_id()(once.coupang_payments[at]));
        } else if at < y {
            assert(coupang_row_id()(once.coupang_payments[at]) != coupang_row_id()(once.coupang_payments[y]));
        }
        assert(picked[x] == row);
        assert(picked.contains(row));
        lemma_ordered_by(picked, coupang_newest_first());
        lemma_ordered_by_holds(picked, coupang_newest_first());
        assert(sorted.contains(row));
        assert(page(sorted, -1i64, 0i64) =~= sorted);
        let z = choose|z: int| 0 <= z < sorted.len() && sorted[z] == row;
        let listing = coupang_listing(once, user, Some(-1i64), None);
        assert(listing == sorted.map_values(show));
        assert(listing[z] == show(row));
    }
    if !has_key(s.coupang_payments, coupang_row_key(), (user, p.header.order_id)) && distinct_by(
        p.items,
        coupang_line_no(),
    ) {
        lemma_coupang_sync_again(s, user, p, now, now);
        let lines = once.coupang_items.filter(coupang_line_of(pk));
        lemma_coupang_orders();
        lemma_ordered_by(lines, coupang_by_line());
    }
}

} // verus!
