//! The whole content of a store as plain tables: what is written to the
//! storage file and read back from it.

use crate::error::{Rule, StoreError};
use crate::ledger::fields_ok;
use crate::records::catalog::{
    Category, ProductCategory, ProductMetaRow, ProductMetaRowView, ProductTag,
};
use crate::records::coupang::{
    CoupangItemRow, CoupangItemRowView, CoupangPaymentRow, CoupangPaymentRowView,
};
use crate::records::ledger::{
    LedgerAccount, LedgerEntryRow, LedgerEntryRowView, LedgerHistory, LedgerTag,
};
use crate::records::naver::{NaverItemRow, NaverItemRowView, NaverPaymentRow, NaverPaymentRowView};
use crate::records::owner::{Credential, User};
use crate::rows::{all_distinct, all_hold, all_refer, clone_all};
use crate::schema::{IndexDef, TableDef};
use crate::store::{
    by_account_id, by_category_id, by_entry_id, by_history_id, by_meta_id, by_user_id,
    category_name, coupang_item_id, coupang_item_key, coupang_item_parent, coupang_row_id,
    coupang_row_key, coupang_row_owner, credential_key, credential_owner, entry_account,
    entry_fields_ok, filing_category, filing_key, filing_meta, index_name, ledger_tag_entry,
    ledger_tag_key, meta_key, naver_item_id, naver_item_key, naver_item_parent, naver_row_id,
    naver_row_key, naver_row_owner, product_tag_key, product_tag_meta, rating_ok, table_name,
    Store, StoreView,
};
use vstd::prelude::*;

verus! {

/// The tables of a store, open to be filled from a storage file and to be
/// written to one. Nothing is required of them: [`restore`] accepts only
/// tables that are in order.
pub struct Tables {
    pub tables: Vec<TableDef>,
    pub indexes: Vec<IndexDef>,
    pub users: Vec<User>,
    pub credentials: Vec<Credential>,
    pub naver_payments: Vec<NaverPaymentRow>,
    pub naver_items: Vec<NaverItemRow>,
    /// The largest identifier handed out to a payment of the first provider.
    pub naver_payment_seq: i64,
    /// The largest identifier handed out to a line of such a payment.
    pub naver_item_seq: i64,
    pub coupang_payments: Vec<CoupangPaymentRow>,
    pub coupang_items: Vec<CoupangItemRow>,
    /// The largest identifier handed out to an order of the second provider.
    pub coupang_payment_seq: i64,
    /// The largest identifier handed out to a line of such an order.
    pub coupang_item_seq: i64,
    pub ledger_accounts: Vec<LedgerAccount>,
    pub ledger_entries: Vec<LedgerEntryRow>,
    pub ledger_tags: Vec<LedgerTag>,
    pub ledger_history: Vec<LedgerHistory>,
    pub categories: Vec<Category>,
    pub product_metas: Vec<ProductMetaRow>,
    pub product_tags: Vec<ProductTag>,
    pub product_categories: Vec<ProductCategory>,
}

impl Tables {
    /// The tables as plain values.
    pub open spec fn view(&self) -> StoreView {
        StoreView {
            tables: self.tables.deep_view(),
            indexes: self.indexes.deep_view(),
            users: self.users.deep_view(),
            credentials: self.credentials.deep_view(),
            naver_payments: self.naver_payments.deep_view(),
            naver_items: self.naver_items.deep_view(),
            naver_payment_seq: self.naver_payment_seq as int,
            naver_item_seq: self.naver_item_seq as int,
            coupang_payments: self.coupang_payments.deep_view(),
            coupang_items: self.coupang_items.deep_view(),
            coupang_payment_seq: self.coupang_payment_seq as int,
            coupang_item_seq: self.coupang_item_seq as int,
            ledger_accounts: self.ledger_accounts.deep_view(),
            ledger_entries: self.ledger_entries.deep_view(),
            ledger_tags: self.ledger_tags.deep_view(),
            ledger_history: self.ledger_history.deep_view(),
            categories: self.categories.deep_view(),
            product_metas: self.product_metas.deep_view(),
            product_tags: self.product_tags.deep_view(),
            product_categories: self.product_categories.deep_view(),
        }
    }
}

/// Whether a rating is absent or lies between 1 and 10.
fn rated(rating: Option<i32>) -> (r: bool)
    ensures
        r == rating_ok(rating),
{
    match rating {
        Some(n) => 1 <= n && n <= 10,
        None => true,
    }
}

/// The store that holds the tables `parts`. Refused where the tables are
/// not in order: where a key or an identifier occurs twice, a row points at
/// a row that is not there, a counter lies below an identifier that was
/// handed out, or a ledger entry or a rating breaks its rule.
pub fn restore(parts: Tables) -> (r: Result<Store, StoreError>)
    ensures
        r is Ok <==> parts@.wf(),
        r matches Ok(store) ==> store.wf() && store@ == parts@,
        r matches Err(e) ==> e == StoreError::Constraint(Rule::OutOfOrder),
{
    if !all_distinct::<TableDef, Seq<char>, _>(
        &parts.tables,
        |a: &TableDef, b: &TableDef| -> (r: bool)
            ensures r == (a@.name == b@.name)
        {
            a.name == b.name
        },
        Ghost(table_name()),
    ) {
        return Err(StoreError::Constraint(Rule::OutOfOrder));
    }
    if !all_distinct::<IndexDef, Seq<char>, _>(
        &parts.indexes,
        |a: &IndexDef, b: &IndexDef| -> (r: bool)
            ensures r == (a@.name == b@.name)
        {
            a.name == b.name
        },
        Ghost(index_name()),
    ) {
        return Err(StoreError::Constraint(Rule::OutOfOrder));
    }
    if !all_distinct::<User, Seq<char>, _>(
        &parts.users,
        |a: &User, b: &User| -> (r: bool)
            ensures r == (a@.id == b@.id)
        {
            a.id == b.id
        },
        Ghost(by_user_id()),
    ) {
        return Err(StoreError::Constraint(Rule::OutOfOrder));
    }
    if !all_distinct::<Credential, (Seq<char>, Seq<char>), _>(
        &parts.credentials,
        |a: &Credential, b: &Credential| -> (r: bool)
            ensures r == ((a@.user_id, a@.key) == (b@.user_id, b@.key))
        {
            a.user_id == b.user_id && a.key == b.key
        },
        Ghost(credential_key()),
    ) {
        return Err(StoreError::Constraint(Rule::OutOfOrder));
    }
    if !all_refer::<Credential, User, Seq<char>, _>(
        &parts.credentials,
        &parts.users,
        |a: &Credential, b: &User| -> (r: bool)
            ensures r == (a@.user_id == b@.id)
        {
            a.user_id == b.id
        },
        Ghost(credential_owner()),
        Ghost(by_user_id()),
    ) {
        return Err(StoreError::Constraint(Rule::OutOfOrder));
    }
    if parts.naver_payment_seq < 0 || parts.naver_item_seq < 0 {
        return Err(StoreError::Constraint(Rule::OutOfOrder));
    }
    if !all_distinct::<NaverPaymentRow, i64, _>(
        &parts.naver_payments,
        |a: &NaverPaymentRow, b: &NaverPaymentRow| -> (r: bool)
            ensures r == (a@.id == b@.id)
        {
            a.id == b.id
        },
        Ghost(naver_row_id()),
    ) {
        return Err(StoreError::Constraint(Rule::OutOfOrder));
    }
    if !all_distinct::<NaverPaymentRow, (Seq<char>, Seq<char>), _>(
        &parts.naver_payments,
        |a: &NaverPaymentRow, b: &NaverPaymentRow| -> (r: bool)
            ensures r == ((a@.user_id, a@.header.pay_id) == (b@.user_id, b@.header.pay_id))
        {
            a.user_id == b.user_id && a.header.pay_id == b.header.pay_id
        },
        Ghost(naver_row_key()),
    ) {
        return Err(StoreError::Constraint(Rule::OutOfOrder));
    }
    let naver_seq = parts.naver_payment_seq;
    if !all_hold(
        &parts.naver_payments,
        |a: &NaverPaymentRow| -> (r: bool)
            ensures r == (a@.id <= naver_seq)
        {
            a.id <= naver_seq
        },
        Ghost(|r: NaverPaymentRowView| r.id <= naver_seq),
    ) {
        return Err(StoreError::Constraint(Rule::OutOfOrder));
    }
    if !all_refer::<NaverPaymentRow, User, Seq<char>, _>(
        &parts.naver_payments,
        &parts.users,
        |a: &NaverPaymentRow, b: &User| -> (r: bool)
            ensures r == (a@.user_id == b@.id)
        {
            a.user_id == b.id
        },
        Ghost(naver_row_owner()),
        Ghost(by_user_id()),
    ) {
        return Err(StoreError::Constraint(Rule::OutOfOrder));
    }
    if !all_distinct::<NaverItemRow, i64, _>(
        &parts.naver_items,
        |a: &NaverItemRow, b: &NaverItemRow| -> (r: bool)
            ensures r == (a@.item.id == b@.item.id)
        {
            a.item.id == b.item.id
        },
        Ghost(naver_item_id()),
    ) {
        return Err(StoreError::Constraint(Rule::OutOfOrder));
    }
    if !all_distinct::<NaverItemRow, (i64, i32), _>(
        &parts.naver_items,
        |a: &NaverItemRow, b: &NaverItemRow| -> (r: bool)
            ensures r == ((a@.payment_id, a@.item.line_no) == (b@.payment_id, b@.item.line_no))
        {
            a.payment_id == b.payment_id && a.item.line_no == b.item.line_no
        },
        Ghost(naver_item_key()),
    ) {
        return Err(StoreError::Constraint(Rule::OutOfOrder));
    }
    let naver_line_seq = parts.naver_item_seq;
    if !all_hold(
        &parts.naver_items,
        |a: &NaverItemRow| -> (r: bool)
            ensures r == (a@.item.id <= naver_line_seq)
        {
            a.item.id <= naver_line_seq
        },
        Ghost(|r: NaverItemRowView| r.item.id <= naver_line_seq),
    ) {
        return Err(StoreError::Constraint(Rule::OutOfOrder));
    }
    if !all_refer::<NaverItemRow, NaverPaymentRow, i64, _>(
        &parts.naver_items,
        &parts.naver_payments,
        |a: &NaverItemRow, b: &NaverPaymentRow| -> (r: bool)
            ensures r == (a@.payment_id == b@.id)
        {
            a.payment_id == b.id
        },
        Ghost(naver_item_parent()),
        Ghost(naver_row_id()),
    ) {
        return Err(StoreError::Constraint(Rule::OutOfOrder));
    }
    if parts.coupang_payment_seq < 0 || parts.coupang_item_seq < 0 {
        return Err(StoreError::Constraint(Rule::OutOfOrder));
    }
    if !all_distinct::<CoupangPaymentRow, i64, _>(
        &parts.coupang_payments,
        |a: &CoupangPaymentRow, b: &CoupangPaymentRow| -> (r: bool)
            ensures r == (a@.id == b@.id)
        {
            a.id == b.id
        },
        Ghost(coupang_row_id()),
    ) {
        return Err(StoreError::Constraint(Rule::OutOfOrder));
    }
    if !all_distinct::<CoupangPaymentRow, (Seq<char>, Seq<char>), _>(
        &parts.coupang_payments,
        |a: &CoupangPaymentRow, b: &CoupangPaymentRow| -> (r: bool)
            ensures r == ((a@.user_id, a@.header.order_id) == (b@.user_id, b@.header.order_id))
        {
            a.user_id == b.user_id && a.header.order_id == b.header.order_id
        },
        Ghost(coupang_row_key()),
    ) {
        return Err(StoreError::Constraint(Rule::OutOfOrder));
    }
    let coupang_seq = parts.coupang_payment_seq;
    if !all_hold(
        &parts.coupang_payments,
        |a: &CoupangPaymentRow| -> (r: bool)
            ensures r == (a@.id <= coupang_seq)
        {
            a.id <= coupang_seq
        },
        Ghost(|r: CoupangPaymentRowView| r.id <= coupang_seq),
    ) {
        return Err(StoreError::Constraint(Rule::OutOfOrder));
    }
    if !all_refer::<CoupangPaymentRow, User, Seq<char>, _>(
        &parts.coupang_payments,
        &parts.users,
        |a: &CoupangPaymentRow, b: &User| -> (r: bool)
            ensures r == (a@.user_id == b@.id)
        {
            a.user_id == b.id
        },
        Ghost(coupang_row_owner()),
        Ghost(by_user_id()),
    ) {
        return Err(StoreError::Constraint(Rule::OutOfOrder));
    }
    if !all_distinct::<CoupangItemRow, i64, _>(
        &parts.coupang_items,
        |a: &CoupangItemRow, b: &CoupangItemRow| -> (r: bool)
            ensures r == (a@.item.id == b@.item.id)
        {
            a.item.id == b.item.id
        },
        Ghost(coupang_item_id()),
    ) {
        return Err(StoreError::Constraint(Rule::OutOfOrder));
    }
    if !all_distinct::<CoupangItemRow, (i64, i32), _>(
        &parts.coupang_items,
        |a: &CoupangItemRow, b: &CoupangItemRow| -> (r: bool)
            ensures r == ((a@.payment_id, a@.item.line_no) == (b@.payment_id, b@.item.line_no))
        {
            a.payment_id == b.payment_id && a.item.line_no == b.item.line_no
        },
        Ghost(coupang_item_key()),
    ) {
        return Err(StoreError::Constraint(Rule::OutOfOrder));
    }
    let coupang_line_seq = parts.coupang_item_seq;
    if !all_hold(
        &parts.coupang_items,
        |a: &CoupangItemRow| -> (r: bool)
            ensures r == (a@.item.id <= coupang_line_seq)
        {
            a.item.id <= coupang_line_seq
        },
        Ghost(|r: CoupangItemRowView| r.item.id <= coupang_line_seq),
    ) {
        return Err(StoreError::Constraint(Rule::OutOfOrder));
    }
    if !all_refer::<CoupangItemRow, CoupangPaymentRow, i64, _>(
        &parts.coupang_items,
        &parts.coupang_payments,
        |a: &CoupangItemRow, b: &CoupangPaymentRow| -> (r: bool)
            ensures r == (a@.payment_id == b@.id)
        {
            a.payment_id == b.id
        },
        Ghost(coupang_item_parent()),
        Ghost(coupang_row_id()),
    ) {
        return Err(StoreError::Constraint(Rule::OutOfOrder));
    }
    if !all_distinct::<LedgerAccount, Seq<char>, _>(
        &parts.ledger_accounts,
        |a: &LedgerAccount, b: &LedgerAccount| -> (r: bool)
            ensures r == (a@.id == b@.id)
        {
            a.id == b.id
        },
        Ghost(by_account_id()),
    ) {
        return Err(StoreError::Constraint(Rule::OutOfOrder));
    }
    if !all_distinct::<LedgerEntryRow, Seq<char>, _>(
        &parts.ledger_entries,
        |a: &LedgerEntryRow, b: &LedgerEntryRow| -> (r: bool)
            ensures r == (a@.id == b@.id)
        {
            a.id == b.id
        },
        Ghost(by_entry_id()),
    ) {
        return Err(StoreError::Constraint(Rule::OutOfOrder));
    }
    if !all_refer::<LedgerEntryRow, LedgerAccount, Seq<char>, _>(
        &parts.ledger_entries,
        &parts.ledger_accounts,
        |a: &LedgerEntryRow, b: &LedgerAccount| -> (r: bool)
            ensures r == (a@.account_id == b@.id)
        {
            a.account_id == b.id
        },
        Ghost(entry_account()),
        Ghost(by_account_id()),
    ) {
        return Err(StoreError::Constraint(Rule::OutOfOrder));
    }
    if !all_hold(
        &parts.ledger_entries,
        |a: &LedgerEntryRow| -> (r: bool)
            ensures r == (entry_fields_ok(a@.fields))
        {
            fields_ok(&a.fields)
        },
        Ghost(|r: LedgerEntryRowView| entry_fields_ok(r.fields)),
    ) {
        return Err(StoreError::Constraint(Rule::OutOfOrder));
    }
    if !all_distinct::<LedgerTag, (Seq<char>, Seq<char>), _>(
        &parts.ledger_tags,
        |a: &LedgerTag, b: &LedgerTag| -> (r: bool)
            ensures r == ((a@.entry_id, a@.tag) == (b@.entry_id, b@.tag))
        {
            a.entry_id == b.entry_id && a.tag == b.tag
        },
        Ghost(ledger_tag_key()),
    ) {
        return Err(StoreError::Constraint(Rule::OutOfOrder));
    }
    if !all_refer::<LedgerTag, LedgerEntryRow, Seq<char>, _>(
        &parts.ledger_tags,
        &parts.ledger_entries,
        |a: &LedgerTag, b: &LedgerEntryRow| -> (r: bool)
            ensures r == (a@.entry_id == b@.id)
        {
            a.entry_id == b.id
        },
        Ghost(ledger_tag_entry()),
        Ghost(by_entry_id()),
    ) {
        return Err(StoreError::Constraint(Rule::OutOfOrder));
    }
    if !all_distinct::<LedgerHistory, Seq<char>, _>(
        &parts.ledger_history,
        |a: &LedgerHistory, b: &LedgerHistory| -> (r: bool)
            ensures r == (a@.id == b@.id)
        {
            a.id == b.id
        },
        Ghost(by_history_id()),
    ) {
        return Err(StoreError::Constraint(Rule::OutOfOrder));
    }
    if !all_distinct::<Category, Seq<char>, _>(
        &parts.categories,
        |a: &Category, b: &Category| -> (r: bool)
            ensures r == (a@.id == b@.id)
        {
            a.id == b.id
        },
        Ghost(by_category_id()),
    ) {
        return Err(StoreError::Constraint(Rule::OutOfOrder));
    }
    if !all_distinct::<Category, Seq<char>, _>(
        &parts.categories,
        |a: &Category, b: &Category| -> (r: bool)
            ensures r == (a@.name == b@.name)
        {
            a.name == b.name
        },
        Ghost(category_name()),
    ) {
        return Err(StoreError::Constraint(Rule::OutOfOrder));
    }
    if !all_distinct::<ProductMetaRow, Seq<char>, _>(
        &parts.product_metas,
        |a: &ProductMetaRow, b: &ProductMetaRow| -> (r: bool)
            ensures r == (a@.id == b@.id)
        {
            a.id == b.id
        },
        Ghost(by_meta_id()),
    ) {
        return Err(StoreError::Constraint(Rule::OutOfOrder));
    }
    if !all_distinct::<ProductMetaRow, (Seq<char>, i64), _>(
        &parts.product_metas,
        |a: &ProductMetaRow, b: &ProductMetaRow| -> (r: bool)
            ensures r == ((a@.provider, a@.item_id) == (b@.provider, b@.item_id))
        {
            a.provider == b.provider && a.item_id == b.item_id
        },
        Ghost(meta_key()),
    ) {
        return Err(StoreError::Constraint(Rule::OutOfOrder));
    }
    if !all_hold(
        &parts.product_metas,
        |a: &ProductMetaRow| -> (r: bool)
            ensures r == (rating_ok(a@.rating))
        {
            rated(a.rating)
        },
        Ghost(|r: ProductMetaRowView| rating_ok(r.rating)),
    ) {
        return Err(StoreError::Constraint(Rule::OutOfOrder));
    }
    if !all_distinct::<ProductTag, (Seq<char>, Seq<char>), _>(
        &parts.product_tags,
        |a: &ProductTag, b: &ProductTag| -> (r: bool)
            ensures r == ((a@.meta_id, a@.tag) == (b@.meta_id, b@.tag))
        {
            a.meta_id == b.meta_id && a.tag == b.tag
        },
        Ghost(product_tag_key()),
    ) {
        return Err(StoreError::Constraint(Rule::OutOfOrder));
    }
    if !all_refer::<ProductTag, ProductMetaRow, Seq<char>, _>(
        &parts.product_tags,
        &parts.product_metas,
        |a: &ProductTag, b: &ProductMetaRow| -> (r: bool)
            ensures r == (a@.meta_id == b@.id)
        {
            a.meta_id == b.id
        },
        Ghost(product_tag_meta()),
        Ghost(by_meta_id()),
    ) {
        return Err(StoreError::Constraint(Rule::OutOfOrder));
    }
    if !all_distinct::<ProductCategory, (Seq<char>, Seq<char>), _>(
        &parts.product_categories,
        |a: &ProductCategory, b: &ProductCategory| -> (r: bool)
            ensures r == ((a@.meta_id, a@.category_id) == (b@.meta_id, b@.category_id))
        {
            a.meta_id == b.meta_id && a.category_id == b.category_id
        },
        Ghost(filing_key()),
    ) {
        return Err(StoreError::Constraint(Rule::OutOfOrder));
    }
    if !all_refer::<ProductCategory, ProductMetaRow, Seq<char>, _>(
        &parts.product_categories,
        &parts.product_metas,
        |a: &ProductCategory, b: &ProductMetaRow| -> (r: bool)
            ensures r == (a@.meta_id == b@.id)
        {
            a.meta_id == b.id
        },
        Ghost(filing_meta()),
        Ghost(by_meta_id()),
    ) {
        return Err(StoreError::Constraint(Rule::OutOfOrder));
    }
    if !all_refer::<ProductCategory, Category, Seq<char>, _>(
        &parts.product_categories,
        &parts.categories,
        |a: &ProductCategory, b: &Category| -> (r: bool)
            ensures r == (a@.category_id == b@.id)
        {
            a.category_id == b.id
        },
        Ghost(filing_category()),
        Ghost(by_category_id()),
    ) {
        return Err(StoreError::Constraint(Rule::OutOfOrder));
    }
    let store = Store {
        tables: parts.tables,
        indexes: parts.indexes,
        users: parts.users,
        credentials: parts.credentials,
        naver_payments: parts.naver_payments,
        naver_items: parts.naver_items,
        naver_payment_seq: parts.naver_payment_seq,
        naver_item_seq: parts.naver_item_seq,
        coupang_payments: parts.coupang_payments,
        coupang_items: parts.coupang_items,
        coupang_payment_seq: parts.coupang_payment_seq,
        coupang_item_seq: parts.coupang_item_seq,
        ledger_accounts: parts.ledger_accounts,
        ledger_entries: parts.ledger_entries,
        ledger_tags: parts.ledger_tags,
        ledger_history: parts.ledger_history,
        categories: parts.categories,
        product_metas: parts.product_metas,
        product_tags: parts.product_tags,
        product_categories: parts.product_categories,
    };
    Ok(store)
}

/// A copy of the tables of `store`.
pub fn snapshot(store: &Store) -> (r: Tables)
    requires
        store.wf(),
    ensures
        r@ == store@,
        r@.wf(),
{
    Tables {
        tables: clone_all(&store.tables),
        indexes: clone_all(&store.indexes),
        users: clone_all(&store.users),
        credentials: clone_all(&store.credentials),
        naver_payments: clone_all(&store.naver_payments),
        naver_items: clone_all(&store.naver_items),
        naver_payment_seq: store.naver_payment_seq,
        naver_item_seq: store.naver_item_seq,
        coupang_payments: clone_all(&store.coupang_payments),
        coupang_items: clone_all(&store.coupang_items),
        coupang_payment_seq: store.coupang_payment_seq,
        coupang_item_seq: store.coupang_item_seq,
        ledger_accounts: clone_all(&store.ledger_accounts),
        ledger_entries: clone_all(&store.ledger_entries),
        ledger_tags: clone_all(&store.ledger_tags),
        ledger_history: clone_all(&store.ledger_history),
        categories: clone_all(&store.categories),
        product_metas: clone_all(&store.product_metas),
        product_tags: clone_all(&store.product_tags),
        product_categories: clone_all(&store.product_categories),
    }
}

} // verus!
