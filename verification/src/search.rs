//! The search for a product's name over the lines of both providers.

use crate::coupang::coupang_status_shown;
use crate::naver::naver_status_shown;
use crate::records::catalog::{
    SearchResponse, SearchResponseView, SearchResultItem, SearchResultItemView,
};
use crate::records::coupang::{
    CoupangItemRow, CoupangItemRowView, CoupangPaymentRow, CoupangPaymentRowView,
};
use crate::records::naver::{NaverItemRow, NaverItemRowView, NaverPaymentRow, NaverPaymentRowView};
use crate::rows::{
    clone_text, find_row, keyed, lemma_filter_keys, lemma_map_step, lemma_pushed, ordered_by,
    page, page_rows, position, select_rows, sort_rows,
};
use crate::store::{coupang_row_id, naver_row_id, Store, StoreView};
use crate::text::{holding, like, text_before, text_holds, text_is, text_lt};
use crate::rows::sortable;
use crate::text::lemma_text_order;
use vstd::prelude::*;

verus! {

/// The limit of a search where none is given.
pub const SEARCH_LIMIT: i64 = 50;

/// The index of the payment that the line `it` belongs to.
pub open spec fn naver_parent_at(payments: Seq<NaverPaymentRowView>, it: NaverItemRowView) -> int {
    position(payments, keyed(naver_row_id(), it.payment_id))
}

/// The test for being a line that a search for `query` finds: its name
/// holds `query`, read as a pattern, and its payment went through.
pub open spec fn naver_hit(payments: Seq<NaverPaymentRowView>, query: Seq<char>) -> spec_fn(
    NaverItemRowView,
) -> bool {
    |it: NaverItemRowView|
        like(holding(query), it.item.product_name) && naver_parent_at(payments, it)
            < payments.len() && naver_status_shown(
            payments[naver_parent_at(payments, it)].header.status_code,
        )
}

/// What a search returns of a line of the first provider.
pub open spec fn naver_result(payments: Seq<NaverPaymentRowView>) -> spec_fn(
    NaverItemRowView,
) -> SearchResultItemView {
    |it: NaverItemRowView|
        SearchResultItemView {
            id: it.item.id,
            provider: "naver"@,
            product_name: it.item.product_name,
            image_url: it.item.image_url,
            merchant_name: payments[naver_parent_at(payments, it)].header.merchant_name,
            paid_at: payments[naver_parent_at(payments, it)].header.paid_at,
            quantity: it.item.quantity as i64,
            unit_price: it.item.unit_price,
            line_amount: it.item.line_amount,
        }
}

/// The index of the order that the line `it` belongs to.
pub open spec fn coupang_parent_at(
    payments: Seq<CoupangPaymentRowView>,
    it: CoupangItemRowView,
) -> int {
    position(payments, keyed(coupang_row_id(), it.payment_id))
}

/// The test for being a line that a search for `query` finds: its name
/// holds `query`, read as a pattern, and its order was not cancelled.
pub open spec fn coupang_hit(payments: Seq<CoupangPaymentRowView>, query: Seq<char>) -> spec_fn(
    CoupangItemRowView,
) -> bool {
    |it: CoupangItemRowView|
        like(holding(query), it.item.product_name) && coupang_parent_at(payments, it)
            < payments.len() && coupang_status_shown(
            payments[coupang_parent_at(payments, it)].header.status_code,
        )
}

/// What a search returns of a line of the second provider.
pub open spec fn coupang_result(payments: Seq<CoupangPaymentRowView>) -> spec_fn(
    CoupangItemRowView,
) -> SearchResultItemView {
    |it: CoupangItemRowView|
        SearchResultItemView {
            id: it.item.id,
            provider: "coupang"@,
            product_name: it.item.product_name,
            image_url: it.item.image_url,
            merchant_name: payments[coupang_parent_at(payments, it)].header.merchant_name,
            paid_at: payments[coupang_parent_at(payments, it)].header.ordered_at,
            quantity: it.item.quantity as i64,
            unit_price: it.item.unit_price,
            line_amount: it.item.line_amount,
        }
}

/// The order of search results: the later payment first.
pub open spec fn result_newest_first() -> spec_fn(SearchResultItemView, SearchResultItemView) -> bool {
    |a: SearchResultItemView, b: SearchResultItemView| text_lt(b.paid_at, a.paid_at)
}

/// The lines of the first provider that a search for `query` finds, the
/// later payment first, and at most `limit` of them.
pub open spec fn naver_part(s: StoreView, query: Seq<char>, limit: i64) -> Seq<SearchResultItemView> {
    page(
        ordered_by(
            s.naver_items.filter(naver_hit(s.naver_payments, query)).map_values(
                naver_result(s.naver_payments),
            ),
            result_newest_first(),
        ),
        limit,
        0,
    )
}

/// The lines of the second provider that a search for `query` finds, the
/// later order first, and at most `limit` of them.
pub open spec fn coupang_part(s: StoreView, query: Seq<char>, limit: i64) -> Seq<
    SearchResultItemView,
> {
    page(
        ordered_by(
            s.coupang_items.filter(coupang_hit(s.coupang_payments, query)).map_values(
                coupang_result(s.coupang_payments),
            ),
            result_newest_first(),
        ),
        limit,
        0,
    )
}

/// How many lines were found, as far as the number can be told.
pub open spec fn found_total(n: nat) -> i64 {
    if n > i64::MAX {
        i64::MAX
    } else {
        n as i64
    }
}

/// What a search for `query` returns: up to `limit` lines of each provider
/// are found; of those together, the later payment first and a line of the
/// first provider before one of the second made at the same time, at most
/// `limit` are kept.
pub open spec fn products_found(s: StoreView, query: Seq<char>, limit: Option<i64>) -> SearchResponseView {
    let n = match limit {
        Some(n) => n,
        None => SEARCH_LIMIT,
    };
    let both = naver_part(s, query, n) + coupang_part(s, query, n);
    SearchResponseView {
        items: page(ordered_by(both, result_newest_first()), n, 0),
        total: found_total(both.len()),
    }
}

/// The index of the payment with the identifier `id`, or their number.
fn find_naver(rows: &Vec<NaverPaymentRow>, id: i64) -> (r: usize)
    ensures
        r as int == position(rows.deep_view(), keyed(naver_row_id(), id)),
        r <= rows.len(),
{
    find_row(
        rows,
        |p: &NaverPaymentRow| -> (b: bool)
            ensures b == (p@.id == id)
        {
            p.id == id
        },
        Ghost(keyed(naver_row_id(), id)),
    )
}

/// The index of the order with the identifier `id`, or their number.
fn find_coupang(rows: &Vec<CoupangPaymentRow>, id: i64) -> (r: usize)
    ensures
        r as int == position(rows.deep_view(), keyed(coupang_row_id(), id)),
        r <= rows.len(),
{
    find_row(
        rows,
        |p: &CoupangPaymentRow| -> (b: bool)
            ensures b == (p@.id == id)
        {
            p.id == id
        },
        Ghost(keyed(coupang_row_id(), id)),
    )
}

/// Whether a search for `query` finds the line `it`.
fn is_naver_hit(payments: &Vec<NaverPaymentRow>, query: &str, it: &NaverItemRow) -> (r: bool)
    ensures
        r == naver_hit(payments.deep_view(), query@)(it@),
{
    if !text_holds(it.item.product_name.as_str(), query) {
        return false;
    }
    let at = find_naver(payments, it.payment_id);
    if at >= payments.len() {
        return false;
    }
    let status = &payments[at].header.status_code;
    text_is(status, "PURCHASE_CONFIRMED") || text_is(status, "PAYMENT_COMPLETED") || text_is(
        status,
        "DELIVERED",
    ) || text_is(status, "PURCHASE_CONFIRM_EXTENDED")
}

/// Whether a search for `query` finds the line `it`.
fn is_coupang_hit(payments: &Vec<CoupangPaymentRow>, query: &str, it: &CoupangItemRow) -> (r: bool)
    ensures
        r == coupang_hit(payments.deep_view(), query@)(it@),
{
    if !text_holds(it.item.product_name.as_str(), query) {
        return false;
    }
    let at = find_coupang(payments, it.payment_id);
    if at >= payments.len() {
        return false;
    }
    !text_is(&payments[at].header.status_code, "CANCELED")
}

/// The order of search results, decided.
fn newer(a: &SearchResultItem, b: &SearchResultItem) -> (r: bool)
    ensures
        r == result_newest_first()(a@, b@),
{
    text_before(b.paid_at.as_str(), a.paid_at.as_str())
}

/// The lines of the first provider that a search for `query` finds.
fn search_naver(store: &Store, query: &str, limit: i64) -> (r: Vec<SearchResultItem>)
    ensures
        r.deep_view() == naver_part(store@, query@, limit),
{
    let payments = &store.naver_payments;
    let hits = select_rows(
        &store.naver_items,
        |it: &NaverItemRow| -> (b: bool)
            ensures b == naver_hit(payments.deep_view(), query@)(it@)
        {
            is_naver_hit(payments, query, it)
        },
        Ghost(naver_hit(payments.deep_view(), query@)),
    );
    let mut out: Vec<SearchResultItem> = Vec::new();
    let mut i: usize = 0;
    while i < hits.len()
        invariant
            i <= hits.len(),
            payments == &store.naver_payments,
            hits.deep_view() == store@.naver_items.filter(naver_hit(payments.deep_view(), query@)),
            out.deep_view() =~= hits.deep_view().take(i as int).map_values(
                naver_result(payments.deep_view()),
            ),
        decreases hits.len() - i,
    {
        let it = &hits[i];
        proof {
            lemma_filter_keys(
                store@.naver_items,
                naver_hit(payments.deep_view(), query@),
                |x: NaverItemRowView| x,
            );
            assert(naver_hit(payments.deep_view(), query@)(hits.deep_view()[i as int]));
        }
        let at = find_naver(payments, it.payment_id);
        let found = SearchResultItem {
            id: it.item.id,
            provider: "naver".to_owned(),
            product_name: it.item.product_name.clone(),
            image_url: clone_text(&it.item.image_url),
            merchant_name: payments[at].header.merchant_name.clone(),
            paid_at: payments[at].header.paid_at.clone(),
            quantity: it.item.quantity as i64,
            unit_price: it.item.unit_price,
            line_amount: it.item.line_amount,
        };
        let ghost prior = out;
        out.push(found);
        proof {
            lemma_pushed(prior, out, found);
            lemma_map_step(hits.deep_view(), naver_result(payments.deep_view()), i as int);
        }
        i += 1;
    }
    proof {
        assert(hits.deep_view().take(i as int) =~= hits.deep_view());
    }
    let sorted = sort_rows(
        out,
        |a: &SearchResultItem, b: &SearchResultItem| -> (r: bool)
            ensures r == result_newest_first()(a@, b@)
        {
            newer(a, b)
        },
        Ghost(result_newest_first()),
    );
    page_rows(sorted, limit, 0)
}

/// The lines of the second provider that a search for `query` finds.
fn search_coupang(store: &Store, query: &str, limit: i64) -> (r: Vec<SearchResultItem>)
    ensures
        r.deep_view() == coupang_part(store@, query@, limit),
{
    let payments = &store.coupang_payments;
    let hits = select_rows(
        &store.coupang_items,
        |it: &CoupangItemRow| -> (b: bool)
            ensures b == coupang_hit(payments.deep_view(), query@)(it@)
        {
            is_coupang_hit(payments, query, it)
        },
        Ghost(coupang_hit(payments.deep_view(), query@)),
    );
    let mut out: Vec<SearchResultItem> = Vec::new();
    let mut i: usize = 0;
    while i < hits.len()
        invariant
            i <= hits.len(),
            payments == &store.coupang_payments,
            hits.deep_view() == store@.coupang_items.filter(coupang_hit(payments.deep_view(), query@)),
            out.deep_view() =~= hits.deep_view().take(i as int).map_values(
                coupang_result(payments.deep_view()),
            ),
        decreases hits.len() - i,
    {
        let it = &hits[i];
        proof {
            lemma_filter_keys(
                store@.coupang_items,
                coupang_hit(payments.deep_view(), query@),
                |x: CoupangItemRowView| x,
            );
            assert(coupang_hit(payments.deep_view(), query@)(hits.deep_view()[i as int]));
        }
        let at = find_coupang(payments, it.payment_id);
        let found = SearchResultItem {
            id: it.item.id,
            provider: "coupang".to_owned(),
            product_name: it.item.product_name.clone(),
            image_url: clone_text(&it.item.image_url),
            merchant_name: payments[at].header.merchant_name.clone(),
            paid_at: payments[at].header.ordered_at.clone(),
            quantity: it.item.quantity as i64,
            unit_price: it.item.unit_price,
            line_amount: it.item.line_amount,
        };
        let ghost prior = out;
        out.push(found);
        proof {
            lemma_pushed(prior, out, found);
            lemma_map_step(hits.deep_view(), coupang_result(payments.deep_view()), i as int);
        }
        i += 1;
    }
    proof {
        assert(hits.deep_view().take(i as int) =~= hits.deep_view());
    }
    let sorted = sort_rows(
        out,
        |a: &SearchResultItem, b: &SearchResultItem| -> (r: bool)
            ensures r == result_newest_first()(a@, b@)
        {
            newer(a, b)
        },
        Ghost(result_newest_first()),
    );
    page_rows(sorted, limit, 0)
}

/// The lines of payments and orders whose product name holds `query`, read
/// as a pattern in which `%` stands for any run of characters and `_` for
/// any one. Up to `limit` lines are found at each provider, the later first;
/// of those together the later are kept, at most `limit`, and the total
/// says how many were found. Without a limit it is 50; a negative limit
/// sets none.
pub fn search_products(store: &Store, query: &str, limit: Option<i64>) -> (r: SearchResponse)
    ensures
        r@ == products_found(store@, query@, limit),
{
    let limit = match limit {
        Some(n) => n,
        None => SEARCH_LIMIT,
    };
    let mut both = search_naver(store, query, limit);
    let mut second = search_coupang(store, query, limit);
    let ghost first = both.deep_view();
    let ghost prior = both;
    let ghost more = second;
    both.append(&mut second);
    proof {
        assert(both.deep_view() =~= first + more.deep_view());
    }
    let total: i64 = if both.len() as u64 > i64::MAX as u64 {
        i64::MAX
    } else {
        both.len() as i64
    };
    let sorted = sort_rows(
        both,
        |a: &SearchResultItem, b: &SearchResultItem| -> (r: bool)
            ensures r == result_newest_first()(a@, b@)
        {
            newer(a, b)
        },
        Ghost(result_newest_first()),
    );
    let items = page_rows(sorted, limit, 0);
    SearchResponse { items, total }
}

/// The order of search results can be ordered by.
pub proof fn lemma_result_orders()
    ensures
        sortable(result_newest_first()),
{
    lemma_text_order();
}

} // verus!
