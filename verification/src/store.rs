//! The store: every table as a sequence of rows, and what must hold of
//! them at all times.

use crate::records::catalog::{
    Category, CategoryView, ProductCategory, ProductCategoryView, ProductMetaRow,
    ProductMetaRowView, ProductTag, ProductTagView,
};
use crate::records::coupang::{
    CoupangItemRow, CoupangItemRowView, CoupangPaymentRow, CoupangPaymentRowView,
};
use crate::records::ledger::{
    EntryFieldsView, LedgerAccount, LedgerAccountView, LedgerEntryRow, LedgerEntryRowView, LedgerHistory,
    LedgerHistoryView, LedgerTag, LedgerTagView,
};
use crate::records::naver::{NaverItemRow, NaverItemRowView, NaverPaymentRow, NaverPaymentRowView};
use crate::records::owner::{Credential, CredentialView, User, UserView};
use crate::rows::{distinct_by, numbered_ok, refers_into};
use crate::schema::{ColumnDefView, IndexDef, IndexDefView, TableDef, TableDefView};
use vstd::prelude::*;

verus! {

/// The tables of the store, in the order their rows were added, and the
/// definitions of the tables and indexes that the storage file has.
pub struct Store {
    pub(crate) tables: Vec<TableDef>,
    pub(crate) indexes: Vec<IndexDef>,
    pub(crate) users: Vec<User>,
    pub(crate) credentials: Vec<Credential>,
    pub(crate) naver_payments: Vec<NaverPaymentRow>,
    pub(crate) naver_items: Vec<NaverItemRow>,
    pub(crate) naver_payment_seq: i64,
    pub(crate) naver_item_seq: i64,
    pub(crate) coupang_payments: Vec<CoupangPaymentRow>,
    pub(crate) coupang_items: Vec<CoupangItemRow>,
    pub(crate) coupang_payment_seq: i64,
    pub(crate) coupang_item_seq: i64,
    pub(crate) ledger_accounts: Vec<LedgerAccount>,
    pub(crate) ledger_entries: Vec<LedgerEntryRow>,
    pub(crate) ledger_tags: Vec<LedgerTag>,
    pub(crate) ledger_history: Vec<LedgerHistory>,
    pub(crate) categories: Vec<Category>,
    pub(crate) product_metas: Vec<ProductMetaRow>,
    pub(crate) product_tags: Vec<ProductTag>,
    pub(crate) product_categories: Vec<ProductCategory>,
}

/// What a [`Store`] holds, as plain values. The four counters are the
/// largest identifier handed out so far in each numbered table.
pub struct StoreView {
    pub tables: Seq<TableDefView>,
    pub indexes: Seq<IndexDefView>,
    pub users: Seq<UserView>,
    pub credentials: Seq<CredentialView>,
    pub naver_payments: Seq<NaverPaymentRowView>,
    pub naver_items: Seq<NaverItemRowView>,
    pub naver_payment_seq: int,
    pub naver_item_seq: int,
    pub coupang_payments: Seq<CoupangPaymentRowView>,
    pub coupang_items: Seq<CoupangItemRowView>,
    pub coupang_payment_seq: int,
    pub coupang_item_seq: int,
    pub ledger_accounts: Seq<LedgerAccountView>,
    pub ledger_entries: Seq<LedgerEntryRowView>,
    pub ledger_tags: Seq<LedgerTagView>,
    pub ledger_history: Seq<LedgerHistoryView>,
    pub categories: Seq<CategoryView>,
    pub product_metas: Seq<ProductMetaRowView>,
    pub product_tags: Seq<ProductTagView>,
    pub product_categories: Seq<ProductCategoryView>,
}

impl Store {
    /// The tables as plain values.
    pub open(crate) spec fn view(&self) -> StoreView {
        StoreView {
            tables: self.tables.deep_view(),
            indexes: self.indexes.deep_view(),
            users: self.users.deep_view(),
            credentials: self.credentials.deep_view(),
            naver_payments: self.naver_payments.deep_view(),
            naver_items: self.naver_items.deep_view(),
            naver_payment_seq: self.naver_payment_seq as int,
            naver_item_seq: self.naver_item_seq as int,
            coupang_payments: self.coupang_payments.deep_view(),
            coupang_items: self.coupang_items.deep_view(),
            coupang_payment_seq: self.coupang_payment_seq as int,
            coupang_item_seq: self.coupang_item_seq as int,
            ledger_accounts: self.ledger_accounts.deep_view(),
            ledger_entries: self.ledger_entries.deep_view(),
            ledger_tags: self.ledger_tags.deep_view(),
            ledger_history: self.ledger_history.deep_view(),
            categories: self.categories.deep_view(),
            product_metas: self.product_metas.deep_view(),
            product_tags: self.product_tags.deep_view(),
            product_categories: self.product_categories.deep_view(),
        }
    }

    /// Whether the store is one that its operations can have produced.
    pub open(crate) spec fn wf(&self) -> bool {
        self@.wf()
    }

    /// A store with no rows.
    pub fn new() -> (r: Store)
        ensures
            r.wf(),
            r@ == StoreView::empty(),
    {
        let r = Store {
            tables: Vec::new(),
            indexes: Vec::new(),
            users: Vec::new(),
            credentials: Vec::new(),
            naver_payments: Vec::new(),
            naver_items: Vec::new(),
            naver_payment_seq: 0,
            naver_item_seq: 0,
            coupang_payments: Vec::new(),
            coupang_items: Vec::new(),
            coupang_payment_seq: 0,
            coupang_item_seq: 0,
            ledger_accounts: Vec::new(),
            ledger_entries: Vec::new(),
            ledger_tags: Vec::new(),
            ledger_history: Vec::new(),
            categories: Vec::new(),
            product_metas: Vec::new(),
            product_tags: Vec::new(),
            product_categories: Vec::new(),
        };
        proof {
            assert(r@.tables =~= StoreView::empty().tables);
            assert(r@.indexes =~= StoreView::empty().indexes);
            assert(r@.users =~= StoreView::empty().users);
            assert(r@.credentials =~= StoreView::empty().credentials);
            assert(r@.naver_payments =~= StoreView::empty().naver_payments);
            assert(r@.naver_items =~= StoreView::empty().naver_items);
            assert(r@.coupang_payments =~= StoreView::empty().coupang_payments);
            assert(r@.coupang_items =~= StoreView::empty().coupang_items);
            assert(r@.ledger_accounts =~= StoreView::empty().ledger_accounts);
            assert(r@.ledger_entries =~= StoreView::empty().ledger_entries);
            assert(r@.ledger_tags =~= StoreView::empty().ledger_tags);
            assert(r@.ledger_history =~= StoreView::empty().ledger_history);
            assert(r@.categories =~= StoreView::empty().categories);
            assert(r@.product_metas =~= StoreView::empty().product_metas);
            assert(r@.product_tags =~= StoreView::empty().product_tags);
            assert(r@.product_categories =~= StoreView::empty().product_categories);
        }
        r
    }
}

impl StoreView {
    /// The store with no rows.
    pub open spec fn empty() -> StoreView {
        StoreView {
            tables: Seq::empty(),
            indexes: Seq::empty(),
            users: Seq::empty(),
            credentials: Seq::empty(),
            naver_payments: Seq::empty(),
            naver_items: Seq::empty(),
            naver_payment_seq: 0,
            naver_item_seq: 0,
            coupang_payments: Seq::empty(),
            coupang_items: Seq::empty(),
            coupang_payment_seq: 0,
            coupang_item_seq: 0,
            ledger_accounts: Seq::empty(),
            ledger_entries: Seq::empty(),
            ledger_tags: Seq::empty(),
            ledger_history: Seq::empty(),
            categories: Seq::empty(),
            product_metas: Seq::empty(),
            product_tags: Seq::empty(),
            product_categories: Seq::empty(),
        }
    }

    /// No two owners share an identifier; no owner has two credentials
    /// under one key; every credential belongs to an owner.
    pub open spec fn owners_ok(self) -> bool {
        &&& distinct_by(self.users, by_user_id())
        &&& distinct_by(self.credentials, credential_key())
        &&& refers_into(self.credentials, credential_owner(), self.users, by_user_id())
    }

    /// Payments of the first provider: identifiers are distinct and handed
    /// out already, an owner has one payment per provider identifier, a
    /// payment has one line per line number, lines belong to payments and
    /// payments to owners.
    pub open spec fn naver_ok(self) -> bool {
        &&& numbered_ok(
            self.naver_payments,
            naver_row_id(),
            naver_row_key(),
            self.naver_payment_seq,
        )
        &&& refers_into(self.naver_payments, naver_row_owner(), self.users, by_user_id())
        &&& numbered_ok(self.naver_items, naver_item_id(), naver_item_key(), self.naver_item_seq)
        &&& refers_into(self.naver_items, naver_item_parent(), self.naver_payments, naver_row_id())
    }

    /// Orders of the second provider, under the same rules as the payments
    /// of the first.
    pub open spec fn coupang_ok(self) -> bool {
        &&& numbered_ok(
            self.coupang_payments,
            coupang_row_id(),
            coupang_row_key(),
            self.coupang_payment_seq,
        )
        &&& refers_into(self.coupang_payments, coupang_row_owner(), self.users, by_user_id())
        &&& numbered_ok(
            self.coupang_items,
            coupang_item_id(),
            coupang_item_key(),
            self.coupang_item_seq,
        )
        &&& refers_into(
            self.coupang_items,
            coupang_item_parent(),
            self.coupang_payments,
            coupang_row_id(),
        )
    }

    /// The ledger: identifiers are distinct, entries belong to accounts and
    /// tags to entries, an entry has each tag once, and every entry is of a
    /// known kind and platform. History rows stand on their own.
    pub open spec fn ledger_ok(self) -> bool {
        &&& distinct_by(self.ledger_accounts, by_account_id())
        &&& distinct_by(self.ledger_entries, by_entry_id())
        &&& refers_into(self.ledger_entries, entry_account(), self.ledger_accounts, by_account_id())
        &&& forall|i: int|
            0 <= i < self.ledger_entries.len() ==> entry_fields_ok(
                (#[trigger] self.ledger_entries[i]).fields,
            )
        &&& distinct_by(self.ledger_tags, ledger_tag_key())
        &&& refers_into(self.ledger_tags, ledger_tag_entry(), self.ledger_entries, by_entry_id())
        &&& distinct_by(self.ledger_history, by_history_id())
    }

    /// Categories and notes on products: identifiers and names of
    /// categories are distinct, a product has one set of notes, the notes
    /// have each tag and each category once, ratings lie between 1 and 10,
    /// and tags and filings belong to notes and categories that exist.
    pub open spec fn catalog_ok(self) -> bool {
        &&& distinct_by(self.categories, by_category_id())
        &&& distinct_by(self.categories, category_name())
        &&& distinct_by(self.product_metas, by_meta_id())
        &&& distinct_by(self.product_metas, meta_key())
        &&& forall|i: int|
            0 <= i < self.product_metas.len() ==> rating_ok(
                (#[trigger] self.product_metas[i]).rating,
            )
        &&& distinct_by(self.product_tags, product_tag_key())
        &&& refers_into(self.product_tags, product_tag_meta(), self.product_metas, by_meta_id())
        &&& distinct_by(self.product_categories, filing_key())
        &&& refers_into(self.product_categories, filing_meta(), self.product_metas, by_meta_id())
        &&& refers_into(self.product_categories, filing_category(), self.categories, by_category_id())
    }

    /// No two tables and no two indexes have the same name.
    pub open spec fn schema_ok(self) -> bool {
        &&& distinct_by(self.tables, table_name())
        &&& distinct_by(self.indexes, index_name())
    }

    /// Everything that must hold of the tables at all times.
    pub open spec fn wf(self) -> bool {
        &&& self.schema_ok()
        &&& self.owners_ok()
        &&& self.naver_ok()
        &&& self.coupang_ok()
        &&& self.ledger_ok()
        &&& self.catalog_ok()
    }
}

/// The name of a table.
pub open spec fn table_name() -> spec_fn(TableDefView) -> Seq<char> {
    |t: TableDefView| t.name
}

/// The name of a column.
pub open spec fn column_name() -> spec_fn(ColumnDefView) -> Seq<char> {
    |c: ColumnDefView| c.name
}

/// The name of an index.
pub open spec fn index_name() -> spec_fn(IndexDefView) -> Seq<char> {
    |x: IndexDefView| x.name
}

/// The identifier of an owner.
pub open spec fn by_user_id() -> spec_fn(UserView) -> Seq<char> {
    |u: UserView| u.id
}

/// The owner and key that a credential is found by.
pub open spec fn credential_key() -> spec_fn(CredentialView) -> (Seq<char>, Seq<char>) {
    |c: CredentialView| (c.user_id, c.key)
}

/// The owner of a credential.
pub open spec fn credential_owner() -> spec_fn(CredentialView) -> Seq<char> {
    |c: CredentialView| c.user_id
}

/// The identifier that the store gave a payment of the first provider.
pub open spec fn naver_row_id() -> spec_fn(NaverPaymentRowView) -> i64 {
    |r: NaverPaymentRowView| r.id
}

/// The owner and provider identifier that such a payment is found by.
pub open spec fn naver_row_key() -> spec_fn(NaverPaymentRowView) -> (Seq<char>, Seq<char>) {
    |r: NaverPaymentRowView| (r.user_id, r.header.pay_id)
}

/// The owner of such a payment.
pub open spec fn naver_row_owner() -> spec_fn(NaverPaymentRowView) -> Seq<char> {
    |r: NaverPaymentRowView| r.user_id
}

/// The identifier that the store gave a line of such a payment.
pub open spec fn naver_item_id() -> spec_fn(NaverItemRowView) -> i64 {
    |r: NaverItemRowView| r.item.id
}

/// The payment and line number that such a line is found by.
pub open spec fn naver_item_key() -> spec_fn(NaverItemRowView) -> (i64, i32) {
    |r: NaverItemRowView| (r.payment_id, r.item.line_no)
}

/// The payment of such a line.
pub open spec fn naver_item_parent() -> spec_fn(NaverItemRowView) -> i64 {
    |r: NaverItemRowView| r.payment_id
}

/// The identifier that the store gave an order of the second provider.
pub open spec fn coupang_row_id() -> spec_fn(CoupangPaymentRowView) -> i64 {
    |r: CoupangPaymentRowView| r.id
}

/// The owner and provider identifier that such an order is found by.
pub open spec fn coupang_row_key() -> spec_fn(CoupangPaymentRowView) -> (Seq<char>, Seq<char>) {
    |r: CoupangPaymentRowView| (r.user_id, r.header.order_id)
}

/// The owner of such an order.
pub open spec fn coupang_row_owner() -> spec_fn(CoupangPaymentRowView) -> Seq<char> {
    |r: CoupangPaymentRowView| r.user_id
}

/// The identifier that the store gave a line of such an order.
pub open spec fn coupang_item_id() -> spec_fn(CoupangItemRowView) -> i64 {
    |r: CoupangItemRowView| r.item.id
}

/// The order and line number that such a line is found by.
pub open spec fn coupang_item_key() -> spec_fn(CoupangItemRowView) -> (i64, i32) {
    |r: CoupangItemRowView| (r.payment_id, r.item.line_no)
}

/// The order of such a line.
pub open spec fn coupang_item_parent() -> spec_fn(CoupangItemRowView) -> i64 {
    |r: CoupangItemRowView| r.payment_id
}

/// The identifier of a ledger account.
pub open spec fn by_account_id() -> spec_fn(LedgerAccountView) -> Seq<char> {
    |a: LedgerAccountView| a.id
}

/// The identifier of a ledger entry.
pub open spec fn by_entry_id() -> spec_fn(LedgerEntryRowView) -> Seq<char> {
    |e: LedgerEntryRowView| e.id
}

/// The account of a ledger entry.
pub open spec fn entry_account() -> spec_fn(LedgerEntryRowView) -> Seq<char> {
    |e: LedgerEntryRowView| e.account_id
}

/// The entry and word that a tag is found by.
pub open spec fn ledger_tag_key() -> spec_fn(LedgerTagView) -> (Seq<char>, Seq<char>) {
    |t: LedgerTagView| (t.entry_id, t.tag)
}

/// The entry of a tag.
pub open spec fn ledger_tag_entry() -> spec_fn(LedgerTagView) -> Seq<char> {
    |t: LedgerTagView| t.entry_id
}

/// The identifier of a history row.
pub open spec fn by_history_id() -> spec_fn(LedgerHistoryView) -> Seq<char> {
    |h: LedgerHistoryView| h.id
}

/// The entry that a history row is about.
pub open spec fn history_entry() -> spec_fn(LedgerHistoryView) -> Seq<char> {
    |h: LedgerHistoryView| h.entry_id
}

/// The identifier of a category.
pub open spec fn by_category_id() -> spec_fn(CategoryView) -> Seq<char> {
    |c: CategoryView| c.id
}

/// The name of a category.
pub open spec fn category_name() -> spec_fn(CategoryView) -> Seq<char> {
    |c: CategoryView| c.name
}

/// The identifier of a product's notes.
pub open spec fn by_meta_id() -> spec_fn(ProductMetaRowView) -> Seq<char> {
    |m: ProductMetaRowView| m.id
}

/// The provider and item that a product's notes are found by.
pub open spec fn meta_key() -> spec_fn(ProductMetaRowView) -> (Seq<char>, i64) {
    |m: ProductMetaRowView| (m.provider, m.item_id)
}

/// The notes and word that a product tag is found by.
pub open spec fn product_tag_key() -> spec_fn(ProductTagView) -> (Seq<char>, Seq<char>) {
    |t: ProductTagView| (t.meta_id, t.tag)
}

/// The notes of a product tag.
pub open spec fn product_tag_meta() -> spec_fn(ProductTagView) -> Seq<char> {
    |t: ProductTagView| t.meta_id
}

/// The notes and category that a filing is found by.
pub open spec fn filing_key() -> spec_fn(ProductCategoryView) -> (Seq<char>, Seq<char>) {
    |f: ProductCategoryView| (f.meta_id, f.category_id)
}

/// The notes of a filing.
pub open spec fn filing_meta() -> spec_fn(ProductCategoryView) -> Seq<char> {
    |f: ProductCategoryView| f.meta_id
}

/// The category of a filing.
pub open spec fn filing_category() -> spec_fn(ProductCategoryView) -> Seq<char> {
    |f: ProductCategoryView| f.category_id
}

/// Whether a ledger entry is of a known kind and, where it names one, of a
/// known platform.
pub open spec fn entry_fields_ok(f: EntryFieldsView) -> bool {
    &&& (f.kind == "income"@ || f.kind == "expense"@)
    &&& match f.platform {
        Some(p) => platform_known(p),
        None => true,
    }
}

/// Whether `p` names one of the six platforms.
pub open spec fn platform_known(p: Seq<char>) -> bool {
    ||| p == "offline"@
    ||| p == "online_shopping"@
    ||| p == "social"@
    ||| p == "app"@
    ||| p == "subscription"@
    ||| p == "etc"@
}

/// Whether a rating is absent or lies between 1 and 10.
pub open spec fn rating_ok(rating: Option<i32>) -> bool {
    match rating {
        Some(n) => 1 <= n <= 10,
        None => true,
    }
}

} // verus!
