//! The definition of the tables and indexes that the store is kept in, the
//! columns that later versions added to them, and the categories that
//! every store starts with.

use crate::schema::{
    ColumnAddition, ColumnAdditionView, ColumnDef, ColumnDefView, IndexDef, IndexDefView,
    SeedCategory, SeedCategoryView, TableDef, TableDefView,
};
use vstd::prelude::*;

verus! {

/// The column `name` with the definition `definition`.
pub open spec fn column(name: Seq<char>, definition: Seq<char>) -> ColumnDefView {
    ColumnDefView { name, definition }
}

/// Adds the column `name` with the definition `definition`.
fn add_column(columns: &mut Vec<ColumnDef>, name: &str, definition: &str)
    ensures
        final(columns).deep_view() == old(columns).deep_view().push(column(name@, definition@)),
{
    let made = ColumnDef { name: name.to_owned(), definition: definition.to_owned() };
    let ghost prior = *columns;
    columns.push(made);
    proof {
        assert(columns.deep_view() =~= prior.deep_view().push(made@));
    }
}

/// Adds the text `text`.
fn add_text(texts: &mut Vec<String>, text: &str)
    ensures
        final(texts).deep_view() == old(texts).deep_view().push(text@),
{
    let made = text.to_owned();
    let ghost prior = *texts;
    texts.push(made);
    proof {
        assert(texts.deep_view() =~= prior.deep_view().push(made@));
    }
}

/// Adds the table `table`.
fn add_table(tables: &mut Vec<TableDef>, table: TableDef)
    ensures
        final(tables).deep_view() == old(tables).deep_view().push(table@),
{
    let ghost prior = *tables;
    tables.push(table);
    proof {
        assert(tables.deep_view() =~= prior.deep_view().push(table@));
    }
}

/// The index `name` on the columns `columns` of the table `table`.
pub open spec fn index(
    name: Seq<char>,
    table: Seq<char>,
    columns: Seq<char>,
    unique: bool,
) -> IndexDefView {
    IndexDefView { name, table, columns, unique }
}

/// Adds the index `name` on the columns `columns` of the table `table`.
fn add_index(indexes: &mut Vec<IndexDef>, name: &str, table: &str, columns: &str, unique: bool)
    ensures
        final(indexes).deep_view() == old(indexes).deep_view().push(
            index(name@, table@, columns@, unique),
        ),
{
    let made = IndexDef {
        name: name.to_owned(),
        table: table.to_owned(),
        columns: columns.to_owned(),
        unique,
    };
    let ghost prior = *indexes;
    indexes.push(made);
    proof {
        assert(indexes.deep_view() =~= prior.deep_view().push(made@));
    }
}

/// The addition of the column `name` to the table `table`.
pub open spec fn addition(
    table: Seq<char>,
    name: Seq<char>,
    definition: Seq<char>,
) -> ColumnAdditionView {
    ColumnAdditionView { table, column: column(name, definition) }
}

/// Adds the addition of the column `name` to the table `table`.
fn add_addition(additions: &mut Vec<ColumnAddition>, table: &str, name: &str, definition: &str)
    ensures
        final(additions).deep_view() == old(additions).deep_view().push(
            addition(table@, name@, definition@),
        ),
{
    let made = ColumnAddition {
        table: table.to_owned(),
        column: ColumnDef { name: name.to_owned(), definition: definition.to_owned() },
    };
    let ghost prior = *additions;
    additions.push(made);
    proof {
        assert(additions.deep_view() =~= prior.deep_view().push(made@));
    }
}

/// The category `id` with the name `name` and the colour `color`.
pub open spec fn seed(id: Seq<char>, name: Seq<char>, color: Seq<char>) -> SeedCategoryView {
    SeedCategoryView { id, name, color }
}

/// Adds the category `id` with the name `name` and the colour `color`.
fn add_seed(seeds: &mut Vec<SeedCategory>, id: &str, name: &str, color: &str)
    ensures
        final(seeds).deep_view() == old(seeds).deep_view().push(seed(id@, name@, color@)),
{
    let made = SeedCategory { id: id.to_owned(), name: name.to_owned(), color: color.to_owned() };
    let ghost prior = *seeds;
    seeds.push(made);
    proof {
        assert(seeds.deep_view() =~= prior.deep_view().push(made@));
    }
}

/// Settings of the application, by key.
pub open spec fn settings_table() -> TableDefView {
    TableDefView {
        name: "tbl_setting"@,
        columns: Seq::empty()
            .push(column("id"@, "TEXT PRIMARY KEY"@))
            .push(column("key"@, "TEXT UNIQUE NOT NULL"@))
            .push(column("value"@, "TEXT"@))
            .push(column("updated_at"@, "TEXT NOT NULL DEFAULT (datetime('now'))"@)),
        constraints: Seq::empty(),
    }
}

/// Settings of the application, by key.
fn make_settings_table() -> (r: TableDef)
    ensures
        r@ == settings_table(),
{
    let mut columns: Vec<ColumnDef> = Vec::new();
    let mut constraints: Vec<String> = Vec::new();
    proof {
        assert(columns.deep_view() =~= Seq::<ColumnDefView>::empty());
        assert(constraints.deep_view() =~= Seq::<Seq<char>>::empty());
    }
    add_column(&mut columns, "id", "TEXT PRIMARY KEY");
    add_column(&mut columns, "key", "TEXT UNIQUE NOT NULL");
    add_column(&mut columns, "value", "TEXT");
    add_column(&mut columns, "updated_at", "TEXT NOT NULL DEFAULT (datetime('now'))");
    TableDef { name: "tbl_setting".to_owned(), columns, constraints }
}

/// Owners.
pub open spec fn users_table() -> TableDefView {
    TableDefView {
        name: "tbl_user"@,
        columns: Seq::empty()
            .push(column("id"@, "TEXT PRIMARY KEY"@))
            .push(column("provider"@, "TEXT NOT NULL"@))
            .push(column("alias"@, "TEXT NOT NULL"@))
            .push(column("curl"@, "TEXT NOT NULL"@))
            .push(column("created_at"@, "TEXT NOT NULL DEFAULT (datetime('now'))"@))
            .push(column("updated_at"@, "TEXT NOT NULL DEFAULT (datetime('now'))"@)),
        constraints: Seq::empty(),
    }
}

/// Owners.
fn make_users_table() -> (r: TableDef)
    ensures
        r@ == users_table(),
{
    let mut columns: Vec<ColumnDef> = Vec::new();
    let mut constraints: Vec<String> = Vec::new();
    proof {
        assert(columns.deep_view() =~= Seq::<ColumnDefView>::empty());
        assert(constraints.deep_view() =~= Seq::<Seq<char>>::empty());
    }
    add_column(&mut columns, "id", "TEXT PRIMARY KEY");
    add_column(&mut columns, "provider", "TEXT NOT NULL");
    add_column(&mut columns, "alias", "TEXT NOT NULL");
    add_column(&mut columns, "curl", "TEXT NOT NULL");
    add_column(&mut columns, "created_at", "TEXT NOT NULL DEFAULT (datetime('now'))");
    add_column(&mut columns, "updated_at", "TEXT NOT NULL DEFAULT (datetime('now'))");
    TableDef { name: "tbl_user".to_owned(), columns, constraints }
}

/// Credentials of owners.
pub open spec fn credentials_table() -> TableDefView {
    TableDefView {
        name: "tbl_credential"@,
        columns: Seq::empty()
            .push(column("id"@, "TEXT PRIMARY KEY"@))
            .push(column("user_id"@, "TEXT NOT NULL"@))
            .push(column("key"@, "TEXT NOT NULL"@))
            .push(column("value"@, "TEXT NOT NULL"@))
            .push(column("updated_at"@, "TEXT NOT NULL DEFAULT (datetime('now'))"@)),
        constraints: Seq::empty()
            .push("FOREIGN KEY(user_id) REFERENCES tbl_user(id) ON DELETE CASCADE"@)
            .push("UNIQUE(user_id, key)"@),
    }
}

/// Credentials of owners.
fn make_credentials_table() -> (r: TableDef)
    ensures
        r@ == credentials_table(),
{
    let mut columns: Vec<ColumnDef> = Vec::new();
    let mut constraints: Vec<String> = Vec::new();
    proof {
        assert(columns.deep_view() =~= Seq::<ColumnDefView>::empty());
        assert(constraints.deep_view() =~= Seq::<Seq<char>>::empty());
    }
    add_column(&mut columns, "id", "TEXT PRIMARY KEY");
    add_column(&mut columns, "user_id", "TEXT NOT NULL");
    add_column(&mut columns, "key", "TEXT NOT NULL");
    add_column(&mut columns, "value", "TEXT NOT NULL");
    add_column(&mut columns, "updated_at", "TEXT NOT NULL DEFAULT (datetime('now'))");
    add_text(&mut constraints, "FOREIGN KEY(user_id) REFERENCES tbl_user(id) ON DELETE CASCADE");
    add_text(&mut constraints, "UNIQUE(user_id, key)");
    TableDef { name: "tbl_credential".to_owned(), columns, constraints }
}

/// Payment headers of the first provider.
pub open spec fn naver_payments_table() -> TableDefView {
    TableDefView {
        name: "tbl_naver_payment"@,
        columns: Seq::empty()
            .push(column("id"@, "INTEGER PRIMARY KEY AUTOINCREMENT"@))
            .push(column("user_id"@, "TEXT NOT NULL"@))
            .push(column("pay_id"@, "TEXT NOT NULL"@))
            .push(column("external_id"@, "TEXT"@))
            .push(column("service_type"@, "TEXT"@))
            .push(column("status_code"@, "TEXT"@))
            .push(column("status_text"@, "TEXT"@))
            .push(column("status_color"@, "TEXT"@))
            .push(column("paid_at"@, "TEXT NOT NULL"@))
            .push(column("purchaser_name"@, "TEXT"@))
            .push(column("merchant_no"@, "TEXT"@))
            .push(column("merchant_name"@, "TEXT NOT NULL"@))
            .push(column("merchant_tel"@, "TEXT"@))
            .push(column("merchant_url"@, "TEXT"@))
            .push(column("merchant_image_url"@, "TEXT"@))
            .push(column("merchant_payment_id"@, "TEXT"@))
            .push(column("sub_merchant_name"@, "TEXT"@))
            .push(column("sub_merchant_url"@, "TEXT"@))
            .push(column("sub_merchant_payment_id"@, "TEXT"@))
            .push(column("is_tax_type"@, "BOOLEAN"@))
            .push(column("is_oversea_transfer"@, "BOOLEAN"@))
            .push(column("product_name"@, "TEXT"@))
            .push(column("product_count"@, "INTEGER"@))
            .push(column("product_detail_url"@, "TEXT"@))
            .push(column("order_detail_url"@, "TEXT"@))
            .push(column("total_amount"@, "INTEGER NOT NULL"@))
            .push(column("discount_amount"@, "INTEGER DEFAULT 0"@))
            .push(column("cup_deposit_amount"@, "INTEGER DEFAULT 0"@))
            .push(column("rest_amount"@, "INTEGER"@))
            .push(column("pay_easycard_amount"@, "INTEGER DEFAULT 0"@))
            .push(column("pay_easybank_amount"@, "INTEGER DEFAULT 0"@))
            .push(column("pay_reward_point_amount"@, "INTEGER DEFAULT 0"@))
            .push(column("pay_charge_point_amount"@, "INTEGER DEFAULT 0"@))
            .push(column("pay_giftcard_amount"@, "INTEGER DEFAULT 0"@))
            .push(column("benefit_type"@, "TEXT"@))
            .push(column("has_plus_membership"@, "BOOLEAN"@))
            .push(column("benefit_waiting_period"@, "INTEGER"@))
            .push(column("benefit_expected_amount"@, "INTEGER DEFAULT 0"@))
            .push(column("benefit_amount"@, "INTEGER DEFAULT 0"@))
            .push(column("is_membership"@, "BOOLEAN"@))
            .push(column("is_branch"@, "BOOLEAN"@))
            .push(column("is_last_subscription_round"@, "BOOLEAN"@))
            .push(column("is_cafe_safe_payment"@, "BOOLEAN"@))
            .push(column("merchant_country_code"@, "TEXT"@))
            .push(column("merchant_country_name"@, "TEXT"@))
            .push(column("application_completed"@, "BOOLEAN"@))
            .push(column("created_at"@, "TEXT NOT NULL DEFAULT (datetime('now'))"@))
            .push(column("updated_at"@, "TEXT NOT NULL DEFAULT (datetime('now'))"@)),
        constraints: Seq::empty()
            .push("FOREIGN KEY(user_id) REFERENCES tbl_user(id) ON DELETE CASCADE"@),
    }
}

/// Payment headers of the first provider.
fn make_naver_payments_table() -> (r: TableDef)
    ensures
        r@ == naver_payments_table(),
{
    let mut columns: Vec<ColumnDef> = Vec::new();
    let mut constraints: Vec<String> = Vec::new();
    proof {
        assert(columns.deep_view() =~= Seq::<ColumnDefView>::empty());
        assert(constraints.deep_view() =~= Seq::<Seq<char>>::empty());
    }
    add_column(&mut columns, "id", "INTEGER PRIMARY KEY AUTOINCREMENT");
    add_column(&mut columns, "user_id", "TEXT NOT NULL");
    add_column(&mut columns, "pay_id", "TEXT NOT NULL");
    add_column(&mut columns, "external_id", "TEXT");
    add_column(&mut columns, "service_type", "TEXT");
    add_column(&mut columns, "status_code", "TEXT");
    add_column(&mut columns, "status_text", "TEXT");
    add_column(&mut columns, "status_color", "TEXT");
    add_column(&mut columns, "paid_at", "TEXT NOT NULL");
    add_column(&mut columns, "purchaser_name", "TEXT");
    add_column(&mut columns, "merchant_no", "TEXT");
    add_column(&mut columns, "merchant_name", "TEXT NOT NULL");
    add_column(&mut columns, "merchant_tel", "TEXT");
    add_column(&mut columns, "merchant_url", "TEXT");
    add_column(&mut columns, "merchant_image_url", "TEXT");
    add_column(&mut columns, "merchant_payment_id", "TEXT");
    add_column(&mut columns, "sub_merchant_name", "TEXT");
    add_column(&mut columns, "sub_merchant_url", "TEXT");
    add_column(&mut columns, "sub_merchant_payment_id", "TEXT");
    add_column(&mut columns, "is_tax_type", "BOOLEAN");
    add_column(&mut columns, "is_oversea_transfer", "BOOLEAN");
    add_column(&mut columns, "product_name", "TEXT");
    add_column(&mut columns, "product_count", "INTEGER");
    add_column(&mut columns, "product_detail_url", "TEXT");
    add_column(&mut columns, "order_detail_url", "TEXT");
    add_column(&mut columns, "total_amount", "INTEGER NOT NULL");
    add_column(&mut columns, "discount_amount", "INTEGER DEFAULT 0");
    add_column(&mut columns, "cup_deposit_amount", "INTEGER DEFAULT 0");
    add_column(&mut columns, "rest_amount", "INTEGER");
    add_column(&mut columns, "pay_easycard_amount", "INTEGER DEFAULT 0");
    add_column(&mut columns, "pay_easybank_amount", "INTEGER DEFAULT 0");
    add_column(&mut columns, "pay_reward_point_amount", "INTEGER DEFAULT 0");
    add_column(&mut columns, "pay_charge_point_amount", "INTEGER DEFAULT 0");
    add_column(&mut columns, "pay_giftcard_amount", "INTEGER DEFAULT 0");
    add_column(&mut columns, "benefit_type", "TEXT");
    add_column(&mut columns, "has_plus_membership", "BOOLEAN");
    add_column(&mut columns, "benefit_waiting_period", "INTEGER");
    add_column(&mut columns, "benefit_expected_amount", "INTEGER DEFAULT 0");
    add_column(&mut columns, "benefit_amount", "INTEGER DEFAULT 0");
    add_column(&mut columns, "is_membership", "BOOLEAN");
    add_column(&mut columns, "is_branch", "BOOLEAN");
    add_column(&mut columns, "is_last_subscription_round", "BOOLEAN");
    add_column(&mut columns, "is_cafe_safe_payment", "BOOLEAN");
    add_column(&mut columns, "merchant_country_code", "TEXT");
    add_column(&mut columns, "merchant_country_name", "TEXT");
    add_column(&mut columns, "application_completed", "BOOLEAN");
    add_column(&mut columns, "created_at", "TEXT NOT NULL DEFAULT (datetime('now'))");
    add_column(&mut columns, "updated_at", "TEXT NOT NULL DEFAULT (datetime('now'))");
    add_text(&mut constraints, "FOREIGN KEY(user_id) REFERENCES tbl_user(id) ON DELETE CASCADE");
    TableDef { name: "tbl_naver_payment".to_owned(), columns, constraints }
}

/// Payment lines of the first provider.
pub open spec fn naver_items_table() -> TableDefView {
    TableDefView {
        name: "tbl_naver_payment_item"@,
        columns: Seq::empty()
            .push(column("id"@, "INTEGER PRIMARY KEY AUTOINCREMENT"@))
            .push(column("payment_id"@, "INTEGER NOT NULL"@))
            .push(column("line_no"@, "INTEGER NOT NULL"@))
            .push(column("product_name"@, "TEXT NOT NULL"@))
            .push(column("image_url"@, "TEXT"@))
            .push(column("info_url"@, "TEXT"@))
            .push(column("quantity"@, "INTEGER NOT NULL DEFAULT 1"@))
            .push(column("unit_price"@, "INTEGER"@))
            .push(column("line_amount"@, "INTEGER"@))
            .push(column("rest_amount"@, "INTEGER"@))
            .push(column("memo"@, "TEXT"@))
            .push(column("created_at"@, "TEXT NOT NULL DEFAULT (datetime('now'))"@))
            .push(column("updated_at"@, "TEXT NOT NULL DEFAULT (datetime('now'))"@)),
        constraints: Seq::empty()
            .push("FOREIGN KEY(payment_id) REFERENCES tbl_naver_payment(id) ON DELETE CASCADE"@),
    }
}

/// Payment lines of the first provider.
fn make_naver_items_table() -> (r: TableDef)
    ensures
        r@ == naver_items_table(),
{
    let mut columns: Vec<ColumnDef> = Vec::new();
    let mut constraints: Vec<String> = Vec::new();
    proof {
        assert(columns.deep_view() =~= Seq::<ColumnDefView>::empty());
        assert(constraints.deep_view() =~= Seq::<Seq<char>>::empty());
    }
    add_column(&mut columns, "id", "INTEGER PRIMARY KEY AUTOINCREMENT");
    add_column(&mut columns, "payment_id", "INTEGER NOT NULL");
    add_column(&mut columns, "line_no", "INTEGER NOT NULL");
    add_column(&mut columns, "product_name", "TEXT NOT NULL");
    add_column(&mut columns, "image_url", "TEXT");
    add_column(&mut columns, "info_url", "TEXT");
    add_column(&mut columns, "quantity", "INTEGER NOT NULL DEFAULT 1");
    add_column(&mut columns, "unit_price", "INTEGER");
    add_column(&mut columns, "line_amount", "INTEGER");
    add_column(&mut columns, "rest_amount", "INTEGER");
    add_column(&mut columns, "memo", "TEXT");
    add_column(&mut columns, "created_at", "TEXT NOT NULL DEFAULT (datetime('now'))");
    add_column(&mut columns, "updated_at", "TEXT NOT NULL DEFAULT (datetime('now'))");
    add_text(&mut constraints, "FOREIGN KEY(payment_id) REFERENCES tbl_naver_payment(id) ON DELETE CASCADE");
    TableDef { name: "tbl_naver_payment_item".to_owned(), columns, constraints }
}

/// Order headers of the second provider.
pub open spec fn coupang_payments_table() -> TableDefView {
    TableDefView {
        name: "tbl_coupang_payment"@,
        columns: Seq::empty()
            .push(column("id"@, "INTEGER PRIMARY KEY AUTOINCREMENT"@))
            .push(column("user_id"@, "TEXT NOT NULL"@))
            .push(column("order_id"@, "TEXT NOT NULL"@))
            .push(column("external_id"@, "TEXT"@))
            .push(column("status_code"@, "TEXT"@))
            .push(column("status_text"@, "TEXT"@))
            .push(column("status_color"@, "TEXT"@))
            .push(column("ordered_at"@, "TEXT NOT NULL"@))
            .push(column("paid_at"@, "TEXT"@))
            .push(column("merchant_name"@, "TEXT NOT NULL"@))
            .push(column("merchant_tel"@, "TEXT"@))
            .push(column("merchant_url"@, "TEXT"@))
            .push(column("merchant_image_url"@, "TEXT"@))
            .push(column("product_name"@, "TEXT"@))
            .push(column("product_count"@, "INTEGER"@))
            .push(column("product_detail_url"@, "TEXT"@))
            .push(column("order_detail_url"@, "TEXT"@))
            .push(column("total_amount"@, "INTEGER NOT NULL"@))
            .push(column("total_order_amount"@, "INTEGER"@))
            .push(column("total_cancel_amount"@, "INTEGER DEFAULT 0"@))
            .push(column("discount_amount"@, "INTEGER DEFAULT 0"@))
            .push(column("rest_amount"@, "INTEGER"@))
            .push(column("main_pay_type"@, "TEXT"@))
            .push(column("pay_rocket_balance_amount"@, "INTEGER DEFAULT 0"@))
            .push(column("pay_card_amount"@, "INTEGER DEFAULT 0"@))
            .push(column("pay_coupon_amount"@, "INTEGER DEFAULT 0"@))
            .push(column("pay_coupang_cash_amount"@, "INTEGER DEFAULT 0"@))
            .push(column("pay_rocket_bank_amount"@, "INTEGER DEFAULT 0"@))
            .push(column("wow_instant_discount"@, "INTEGER DEFAULT 0"@))
            .push(column("reward_cash_amount"@, "INTEGER DEFAULT 0"@))
            .push(column("created_at"@, "TEXT NOT NULL DEFAULT (datetime('now'))"@))
            .push(column("updated_at"@, "TEXT NOT NULL DEFAULT (datetime('now'))"@)),
        constraints: Seq::empty()
            .push("FOREIGN KEY(user_id) REFERENCES tbl_user(id) ON DELETE CASCADE"@),
    }
}

/// Order headers of the second provider.
fn make_coupang_payments_table() -> (r: TableDef)
    ensures
        r@ == coupang_payments_table(),
{
    let mut columns: Vec<ColumnDef> = Vec::new();
    let mut constraints: Vec<String> = Vec::new();
    proof {
        assert(columns.deep_view() =~= Seq::<ColumnDefView>::empty());
        assert(constraints.deep_view() =~= Seq::<Seq<char>>::empty());
    }
    add_column(&mut columns, "id", "INTEGER PRIMARY KEY AUTOINCREMENT");
    add_column(&mut columns, "user_id", "TEXT NOT NULL");
    add_column(&mut columns, "order_id", "TEXT NOT NULL");
    add_column(&mut columns, "external_id", "TEXT");
    add_column(&mut columns, "status_code", "TEXT");
    add_column(&mut columns, "status_text", "TEXT");
    add_column(&mut columns, "status_color", "TEXT");
    add_column(&mut columns, "ordered_at", "TEXT NOT NULL");
    add_column(&mut columns, "paid_at", "TEXT");
    add_column(&mut columns, "merchant_name", "TEXT NOT NULL");
    add_column(&mut columns, "merchant_tel", "TEXT");
    add_column(&mut columns, "merchant_url", "TEXT");
    add_column(&mut columns, "merchant_image_url", "TEXT");
    add_column(&mut columns, "product_name", "TEXT");
    add_column(&mut columns, "product_count", "INTEGER");
    add_column(&mut columns, "product_detail_url", "TEXT");
    add_column(&mut columns, "order_detail_url", "TEXT");
    add_column(&mut columns, "total_amount", "INTEGER NOT NULL");
    add_column(&mut columns, "total_order_amount", "INTEGER");
    add_column(&mut columns, "total_cancel_amount", "INTEGER DEFAULT 0");
    add_column(&mut columns, "discount_amount", "INTEGER DEFAULT 0");
    add_column(&mut columns, "rest_amount", "INTEGER");
    add_column(&mut columns, "main_pay_type", "TEXT");
    add_column(&mut columns, "pay_rocket_balance_amount", "INTEGER DEFAULT 0");
    add_column(&mut columns, "pay_card_amount", "INTEGER DEFAULT 0");
    add_column(&mut columns, "pay_coupon_amount", "INTEGER DEFAULT 0");
    add_column(&mut columns, "pay_coupang_cash_amount", "INTEGER DEFAULT 0");
    add_column(&mut columns, "pay_rocket_bank_amount", "INTEGER DEFAULT 0");
    add_column(&mut columns, "wow_instant_discount", "INTEGER DEFAULT 0");
    add_column(&mut columns, "reward_cash_amount", "INTEGER DEFAULT 0");
    add_column(&mut columns, "created_at", "TEXT NOT NULL DEFAULT (datetime('now'))");
    add_column(&mut columns, "updated_at", "TEXT NOT NULL DEFAULT (datetime('now'))");
    add_text(&mut constraints, "FOREIGN KEY(user_id) REFERENCES tbl_user(id) ON DELETE CASCADE");
    TableDef { name: "tbl_coupang_payment".to_owned(), columns, constraints }
}

/// Order lines of the second provider.
pub open spec fn coupang_items_table() -> TableDefView {
    TableDefView {
        name: "tbl_coupang_payment_item"@,
        columns: Seq::empty()
            .push(column("id"@, "INTEGER PRIMARY KEY AUTOINCREMENT"@))
            .push(column("payment_id"@, "INTEGER NOT NULL"@))
            .push(column("line_no"@, "INTEGER NOT NULL"@))
            .push(column("product_id"@, "TEXT"@))
            .push(column("vendor_item_id"@, "TEXT"@))
            .push(column("product_name"@, "TEXT NOT NULL"@))
            .push(column("image_url"@, "TEXT"@))
            .push(column("info_url"@, "TEXT"@))
            .push(column("brand_name"@, "TEXT"@))
            .push(column("quantity"@, "INTEGER NOT NULL DEFAULT 1"@))
            .push(column("unit_price"@, "INTEGER"@))
            .push(column("discounted_unit_price"@, "INTEGER"@))
            .push(column("combined_unit_price"@, "INTEGER"@))
            .push(column("line_amount"@, "INTEGER"@))
            .push(column("rest_amount"@, "INTEGER"@))
            .push(column("memo"@, "TEXT"@))
            .push(column("created_at"@, "TEXT NOT NULL DEFAULT (datetime('now'))"@))
            .push(column("updated_at"@, "TEXT NOT NULL DEFAULT (datetime('now'))"@)),
        constraints: Seq::empty()
            .push("FOREIGN KEY(payment_id) REFERENCES tbl_coupang_payment(id) ON DELETE CASCADE"@),
    }
}

/// Order lines of the second provider.
fn make_coupang_items_table() -> (r: TableDef)
    ensures
        r@ == coupang_items_table(),
{
    let mut columns: Vec<ColumnDef> = Vec::new();
    let mut constraints: Vec<String> = Vec::new();
    proof {
        assert(columns.deep_view() =~= Seq::<ColumnDefView>::empty());
        assert(constraints.deep_view() =~= Seq::<Seq<char>>::empty());
    }
    add_column(&mut columns, "id", "INTEGER PRIMARY KEY AUTOINCREMENT");
    add_column(&mut columns, "payment_id", "INTEGER NOT NULL");
    add_column(&mut columns, "line_no", "INTEGER NOT NULL");
    add_column(&mut columns, "product_id", "TEXT");
    add_column(&mut columns, "vendor_item_id", "TEXT");
    add_column(&mut columns, "product_name", "TEXT NOT NULL");
    add_column(&mut columns, "image_url", "TEXT");
    add_column(&mut columns, "info_url", "TEXT");
    add_column(&mut columns, "brand_name", "TEXT");
    add_column(&mut columns, "quantity", "INTEGER NOT NULL DEFAULT 1");
    add_column(&mut columns, "unit_price", "INTEGER");
    add_column(&mut columns, "discounted_unit_price", "INTEGER");
    add_column(&mut columns, "combined_unit_price", "INTEGER");
    add_column(&mut columns, "line_amount", "INTEGER");
    add_column(&mut columns, "rest_amount", "INTEGER");
    add_column(&mut columns, "memo", "TEXT");
    add_column(&mut columns, "created_at", "TEXT NOT NULL DEFAULT (datetime('now'))");
    add_column(&mut columns, "updated_at", "TEXT NOT NULL DEFAULT (datetime('now'))");
    add_text(&mut constraints, "FOREIGN KEY(payment_id) REFERENCES tbl_coupang_payment(id) ON DELETE CASCADE");
    TableDef { name: "tbl_coupang_payment_item".to_owned(), columns, constraints }
}

/// Ledger accounts.
pub open spec fn ledger_accounts_table() -> TableDefView {
    TableDefView {
        name: "tbl_ledger_account"@,
        columns: Seq::empty()
            .push(column("id"@, "TEXT PRIMARY KEY"@))
            .push(column("nickname"@, "TEXT NOT NULL"@))
            .push(column("password_hash"@, "TEXT"@))
            .push(column("password_expires_at"@, "TEXT"@))
            .push(column("created_at"@, "TEXT NOT NULL DEFAULT (datetime('now'))"@))
            .push(column("updated_at"@, "TEXT NOT NULL DEFAULT (datetime('now'))"@)),
        constraints: Seq::empty(),
    }
}

/// Ledger accounts.
fn make_ledger_accounts_table() -> (r: TableDef)
    ensures
        r@ == ledger_accounts_table(),
{
    let mut columns: Vec<ColumnDef> = Vec::new();
    let mut constraints: Vec<String> = Vec::new();
    proof {
        assert(columns.deep_view() =~= Seq::<ColumnDefView>::empty());
        assert(constraints.deep_view() =~= Seq::<Seq<char>>::empty());
    }
    add_column(&mut columns, "id", "TEXT PRIMARY KEY");
    add_column(&mut columns, "nickname", "TEXT NOT NULL");
    add_column(&mut columns, "password_hash", "TEXT");
    add_column(&mut columns, "password_expires_at", "TEXT");
    add_column(&mut columns, "created_at", "TEXT NOT NULL DEFAULT (datetime('now'))");
    add_column(&mut columns, "updated_at", "TEXT NOT NULL DEFAULT (datetime('now'))");
    TableDef { name: "tbl_ledger_account".to_owned(), columns, constraints }
}

/// Ledger entries.
pub open spec fn ledger_entries_table() -> TableDefView {
    TableDefView {
        name: "tbl_ledger_entry"@,
        columns: Seq::empty()
            .push(column("id"@, "TEXT PRIMARY KEY"@))
            .push(column("account_id"@, "TEXT NOT NULL"@))
            .push(column("type"@, "TEXT NOT NULL CHECK(type IN ('income', 'expense'))"@))
            .push(column("amount"@, "INTEGER NOT NULL"@))
            .push(column("date"@, "TEXT NOT NULL"@))
            .push(column("title"@, "TEXT NOT NULL"@))
            .push(column("category"@, "TEXT NOT NULL"@))
            .push(column("platform"@, "TEXT CHECK(platform IN ('offline', 'online_shopping', 'social', 'app', 'subscription', 'etc'))"@))
            .push(column("url"@, "TEXT"@))
            .push(column("merchant"@, "TEXT"@))
            .push(column("payment_method"@, "TEXT"@))
            .push(column("memo"@, "TEXT"@))
            .push(column("color"@, "TEXT"@))
            .push(column("created_at"@, "TEXT NOT NULL DEFAULT (datetime('now'))"@))
            .push(column("updated_at"@, "TEXT NOT NULL DEFAULT (datetime('now'))"@)),
        constraints: Seq::empty()
            .push("FOREIGN KEY(account_id) REFERENCES tbl_ledger_account(id) ON DELETE CASCADE"@),
    }
}

/// Ledger entries.
fn make_ledger_entries_table() -> (r: TableDef)
    ensures
        r@ == ledger_entries_table(),
{
    let mut columns: Vec<ColumnDef> = Vec::new();
    let mut constraints: Vec<String> = Vec::new();
    proof {
        assert(columns.deep_view() =~= Seq::<ColumnDefView>::empty());
        assert(constraints.deep_view() =~= Seq::<Seq<char>>::empty());
    }
    add_column(&mut columns, "id", "TEXT PRIMARY KEY");
    add_column(&mut columns, "account_id", "TEXT NOT NULL");
    add_column(&mut columns, "type", "TEXT NOT NULL CHECK(type IN ('income', 'expense'))");
    add_column(&mut columns, "amount", "INTEGER NOT NULL");
    add_column(&mut columns, "date", "TEXT NOT NULL");
    add_column(&mut columns, "title", "TEXT NOT NULL");
    add_column(&mut columns, "category", "TEXT NOT NULL");
    add_column(&mut columns, "platform", "TEXT CHECK(platform IN ('offline', 'online_shopping', 'social', 'app', 'subscription', 'etc'))");
    add_column(&mut columns, "url", "TEXT");
    add_column(&mut columns, "merchant", "TEXT");
    add_column(&mut columns, "payment_method", "TEXT");
    add_column(&mut columns, "memo", "TEXT");
    add_column(&mut columns, "color", "TEXT");
    add_column(&mut columns, "created_at", "TEXT NOT NULL DEFAULT (datetime('now'))");
    add_column(&mut columns, "updated_at", "TEXT NOT NULL DEFAULT (datetime('now'))");
    add_text(&mut constraints, "FOREIGN KEY(account_id) REFERENCES tbl_ledger_account(id) ON DELETE CASCADE");
    TableDef { name: "tbl_ledger_entry".to_owned(), columns, constraints }
}

/// Tags of ledger entries.
pub open spec fn ledger_tags_table() -> TableDefView {
    TableDefView {
        name: "tbl_ledger_tag"@,
        columns: Seq::empty()
            .push(column("id"@, "TEXT PRIMARY KEY"@))
            .push(column("entry_id"@, "TEXT NOT NULL"@))
            .push(column("tag"@, "TEXT NOT NULL"@))
            .push(column("created_at"@, "TEXT NOT NULL DEFAULT (datetime('now'))"@)),
        constraints: Seq::empty()
            .push("FOREIGN KEY(entry_id) REFERENCES tbl_ledger_entry(id) ON DELETE CASCADE"@)
            .push("UNIQUE(entry_id, tag)"@),
    }
}

/// Tags of ledger entries.
fn make_ledger_tags_table() -> (r: TableDef)
    ensures
        r@ == ledger_tags_table(),
{
    let mut columns: Vec<ColumnDef> = Vec::new();
    let mut constraints: Vec<String> = Vec::new();
    proof {
        assert(columns.deep_view() =~= Seq::<ColumnDefView>::empty());
        assert(constraints.deep_view() =~= Seq::<Seq<char>>::empty());
    }
    add_column(&mut columns, "id", "TEXT PRIMARY KEY");
    add_column(&mut columns, "entry_id", "TEXT NOT NULL");
    add_column(&mut columns, "tag", "TEXT NOT NULL");
    add_column(&mut columns, "created_at", "TEXT NOT NULL DEFAULT (datetime('now'))");
    add_text(&mut constraints, "FOREIGN KEY(entry_id) REFERENCES tbl_ledger_entry(id) ON DELETE CASCADE");
    add_text(&mut constraints, "UNIQUE(entry_id, tag)");
    TableDef { name: "tbl_ledger_tag".to_owned(), columns, constraints }
}

/// The record of changes to ledger entries.
pub open spec fn ledger_history_table() -> TableDefView {
    TableDefView {
        name: "tbl_ledger_history"@,
        columns: Seq::empty()
            .push(column("id"@, "TEXT PRIMARY KEY"@))
            .push(column("entry_id"@, "TEXT NOT NULL"@))
            .push(column("action"@, "TEXT NOT NULL CHECK(action IN ('create', 'update', 'delete'))"@))
            .push(column("snapshot_before"@, "TEXT"@))
            .push(column("snapshot_after"@, "TEXT"@))
            .push(column("created_at"@, "TEXT NOT NULL DEFAULT (datetime('now'))"@)),
        constraints: Seq::empty(),
    }
}

/// The record of changes to ledger entries.
fn make_ledger_history_table() -> (r: TableDef)
    ensures
        r@ == ledger_history_table(),
{
    let mut columns: Vec<ColumnDef> = Vec::new();
    let mut constraints: Vec<String> = Vec::new();
    proof {
        assert(columns.deep_view() =~= Seq::<ColumnDefView>::empty());
        assert(constraints.deep_view() =~= Seq::<Seq<char>>::empty());
    }
    add_column(&mut columns, "id", "TEXT PRIMARY KEY");
    add_column(&mut columns, "entry_id", "TEXT NOT NULL");
    add_column(&mut columns, "action", "TEXT NOT NULL CHECK(action IN ('create', 'update', 'delete'))");
    add_column(&mut columns, "snapshot_before", "TEXT");
    add_column(&mut columns, "snapshot_after", "TEXT");
    add_column(&mut columns, "created_at", "TEXT NOT NULL DEFAULT (datetime('now'))");
    TableDef { name: "tbl_ledger_history".to_owned(), columns, constraints }
}

/// Categories.
pub open spec fn categories_table() -> TableDefView {
    TableDefView {
        name: "tbl_category"@,
        columns: Seq::empty()
            .push(column("id"@, "TEXT PRIMARY KEY"@))
            .push(column("name"@, "TEXT UNIQUE NOT NULL"@))
            .push(column("color"@, "TEXT"@))
            .push(column("created_at"@, "TEXT NOT NULL DEFAULT (datetime('now'))"@)),
        constraints: Seq::empty(),
    }
}

/// Categories.
fn make_categories_table() -> (r: TableDef)
    ensures
        r@ == categories_table(),
{
    let mut columns: Vec<ColumnDef> = Vec::new();
    let mut constraints: Vec<String> = Vec::new();
    proof {
        assert(columns.deep_view() =~= Seq::<ColumnDefView>::empty());
        assert(constraints.deep_view() =~= Seq::<Seq<char>>::empty());
    }
    add_column(&mut columns, "id", "TEXT PRIMARY KEY");
    add_column(&mut columns, "name", "TEXT UNIQUE NOT NULL");
    add_column(&mut columns, "color", "TEXT");
    add_column(&mut columns, "created_at", "TEXT NOT NULL DEFAULT (datetime('now'))");
    TableDef { name: "tbl_category".to_owned(), columns, constraints }
}

/// Notes on products.
pub open spec fn product_metas_table() -> TableDefView {
    TableDefView {
        name: "tbl_product_meta"@,
        columns: Seq::empty()
            .push(column("id"@, "TEXT PRIMARY KEY"@))
            .push(column("provider"@, "TEXT NOT NULL"@))
            .push(column("item_id"@, "INTEGER NOT NULL"@))
            .push(column("memo"@, "TEXT"@))
            .push(column("url"@, "TEXT"@))
            .push(column("rating"@, "INTEGER CHECK(rating IS NULL OR (rating >= 1 AND rating <= 10))"@))
            .push(column("created_at"@, "TEXT NOT NULL DEFAULT (datetime('now'))"@))
            .push(column("updated_at"@, "TEXT NOT NULL DEFAULT (datetime('now'))"@)),
        constraints: Seq::empty()
            .push("UNIQUE(provider, item_id)"@),
    }
}

/// Notes on products.
fn make_product_metas_table() -> (r: TableDef)
    ensures
        r@ == product_metas_table(),
{
    let mut columns: Vec<ColumnDef> = Vec::new();
    let mut constraints: Vec<String> = Vec::new();
    proof {
        assert(columns.deep_view() =~= Seq::<ColumnDefView>::empty());
        assert(constraints.deep_view() =~= Seq::<Seq<char>>::empty());
    }
    add_column(&mut columns, "id", "TEXT PRIMARY KEY");
    add_column(&mut columns, "provider", "TEXT NOT NULL");
    add_column(&mut columns, "item_id", "INTEGER NOT NULL");
    add_column(&mut columns, "memo", "TEXT");
    add_column(&mut columns, "url", "TEXT");
    add_column(&mut columns, "rating", "INTEGER CHECK(rating IS NULL OR (rating >= 1 AND rating <= 10))");
    add_column(&mut columns, "created_at", "TEXT NOT NULL DEFAULT (datetime('now'))");
    add_column(&mut columns, "updated_at", "TEXT NOT NULL DEFAULT (datetime('now'))");
    add_text(&mut constraints, "UNIQUE(provider, item_id)");
    TableDef { name: "tbl_product_meta".to_owned(), columns, constraints }
}

/// Tags on notes.
pub open spec fn product_tags_table() -> TableDefView {
    TableDefView {
        name: "tbl_product_tag"@,
        columns: Seq::empty()
            .push(column("id"@, "TEXT PRIMARY KEY"@))
            .push(column("meta_id"@, "TEXT NOT NULL"@))
            .push(column("tag"@, "TEXT NOT NULL"@))
            .push(column("created_at"@, "TEXT NOT NULL DEFAULT (datetime('now'))"@)),
        constraints: Seq::empty()
            .push("FOREIGN KEY(meta_id) REFERENCES tbl_product_meta(id) ON DELETE CASCADE"@)
            .push("UNIQUE(meta_id, tag)"@),
    }
}

/// Tags on notes.
fn make_product_tags_table() -> (r: TableDef)
    ensures
        r@ == product_tags_table(),
{
    let mut columns: Vec<ColumnDef> = Vec::new();
    let mut constraints: Vec<String> = Vec::new();
    proof {
        assert(columns.deep_view() =~= Seq::<ColumnDefView>::empty());
        assert(constraints.deep_view() =~= Seq::<Seq<char>>::empty());
    }
    add_column(&mut columns, "id", "TEXT PRIMARY KEY");
    add_column(&mut columns, "meta_id", "TEXT NOT NULL");
    add_column(&mut columns, "tag", "TEXT NOT NULL");
    add_column(&mut columns, "created_at", "TEXT NOT NULL DEFAULT (datetime('now'))");
    add_text(&mut constraints, "FOREIGN KEY(meta_id) REFERENCES tbl_product_meta(id) ON DELETE CASCADE");
    add_text(&mut constraints, "UNIQUE(meta_id, tag)");
    TableDef { name: "tbl_product_tag".to_owned(), columns, constraints }
}

/// Filings of notes under categories.
pub open spec fn product_categories_table() -> TableDefView {
    TableDefView {
        name: "tbl_product_category"@,
        columns: Seq::empty()
            .push(column("id"@, "TEXT PRIMARY KEY"@))
            .push(column("meta_id"@, "TEXT NOT NULL"@))
            .push(column("category_id"@, "TEXT NOT NULL"@))
            .push(column("created_at"@, "TEXT NOT NULL DEFAULT (datetime('now'))"@)),
        constraints: Seq::empty()
            .push("FOREIGN KEY(meta_id) REFERENCES tbl_product_meta(id) ON DELETE CASCADE"@)
            .push("FOREIGN KEY(category_id) REFERENCES tbl_category(id) ON DELETE CASCADE"@)
            .push("UNIQUE(meta_id, category_id)"@),
    }
}

/// Filings of notes under categories.
fn make_product_categories_table() -> (r: TableDef)
    ensures
        r@ == product_categories_table(),
{
    let mut columns: Vec<ColumnDef> = Vec::new();
    let mut constraints: Vec<String> = Vec::new();
    proof {
        assert(columns.deep_view() =~= Seq::<ColumnDefView>::empty());
        assert(constraints.deep_view() =~= Seq::<Seq<char>>::empty());
    }
    add_column(&mut columns, "id", "TEXT PRIMARY KEY");
    add_column(&mut columns, "meta_id", "TEXT NOT NULL");
    add_column(&mut columns, "category_id", "TEXT NOT NULL");
    add_column(&mut columns, "created_at", "TEXT NOT NULL DEFAULT (datetime('now'))");
    add_text(&mut constraints, "FOREIGN KEY(meta_id) REFERENCES tbl_product_meta(id) ON DELETE CASCADE");
    add_text(&mut constraints, "FOREIGN KEY(category_id) REFERENCES tbl_category(id) ON DELETE CASCADE");
    add_text(&mut constraints, "UNIQUE(meta_id, category_id)");
    TableDef { name: "tbl_product_category".to_owned(), columns, constraints }
}

/// The tables of the store as this version defines them.
pub open spec fn current_tables() -> Seq<TableDefView> {
    Seq::empty()
        .push(settings_table())
        .push(users_table())
        .push(credentials_table())
        .push(naver_payments_table())
        .push(naver_items_table())
        .push(coupang_payments_table())
        .push(coupang_items_table())
        .push(ledger_accounts_table())
        .push(ledger_entries_table())
        .push(ledger_tags_table())
        .push(ledger_history_table())
        .push(categories_table())
        .push(product_metas_table())
        .push(product_tags_table())
        .push(product_categories_table())
}

/// The tables of the store as this version defines them.
pub fn tables() -> (r: Vec<TableDef>)
    ensures
        r.deep_view() == current_tables(),
{
    let mut out: Vec<TableDef> = Vec::new();
    proof {
        assert(out.deep_view() =~= Seq::<TableDefView>::empty());
    }
    add_table(&mut out, make_settings_table());
    add_table(&mut out, make_users_table());
    add_table(&mut out, make_credentials_table());
    add_table(&mut out, make_naver_payments_table());
    add_table(&mut out, make_naver_items_table());
    add_table(&mut out, make_coupang_payments_table());
    add_table(&mut out, make_coupang_items_table());
    add_table(&mut out, make_ledger_accounts_table());
    add_table(&mut out, make_ledger_entries_table());
    add_table(&mut out, make_ledger_tags_table());
    add_table(&mut out, make_ledger_history_table());
    add_table(&mut out, make_categories_table());
    add_table(&mut out, make_product_metas_table());
    add_table(&mut out, make_product_tags_table());
    add_table(&mut out, make_product_categories_table());
    out
}

/// The indexes of the store as this version defines them.
pub open spec fn current_indexes() -> Seq<IndexDefView> {
    Seq::empty()
        .push(index("idx_credential_user_id"@, "tbl_credential"@, "user_id"@, false))
        .push(index("ux_naver_payment_user_pay"@, "tbl_naver_payment"@, "user_id, pay_id"@, true))
        .push(index("ux_naver_payment_item_payment_line"@, "tbl_naver_payment_item"@, "payment_id, line_no"@, true))
        .push(index("ux_coupang_payment_user_order"@, "tbl_coupang_payment"@, "user_id, order_id"@, true))
        .push(index("ux_coupang_payment_item_payment_line"@, "tbl_coupang_payment_item"@, "payment_id, line_no"@, true))
        .push(index("idx_ledger_entry_account_id"@, "tbl_ledger_entry"@, "account_id"@, false))
        .push(index("idx_ledger_entry_date"@, "tbl_ledger_entry"@, "date"@, false))
        .push(index("idx_ledger_tag_entry_id"@, "tbl_ledger_tag"@, "entry_id"@, false))
        .push(index("idx_ledger_history_entry_id"@, "tbl_ledger_history"@, "entry_id"@, false))
        .push(index("idx_product_meta_provider_item"@, "tbl_product_meta"@, "provider, item_id"@, false))
        .push(index("idx_product_tag_meta_id"@, "tbl_product_tag"@, "meta_id"@, false))
        .push(index("idx_product_tag_tag"@, "tbl_product_tag"@, "tag"@, false))
        .push(index("idx_product_category_meta_id"@, "tbl_product_category"@, "meta_id"@, false))
        .push(index("idx_product_category_category_id"@, "tbl_product_category"@, "category_id"@, false))
}

/// The indexes of the store as this version defines them.
pub fn indexes() -> (r: Vec<IndexDef>)
    ensures
        r.deep_view() == current_indexes(),
{
    let mut out: Vec<IndexDef> = Vec::new();
    proof {
        assert(out.deep_view() =~= Seq::<IndexDefView>::empty());
    }
    add_index(&mut out, "idx_credential_user_id", "tbl_credential", "user_id", false);
    add_index(&mut out, "ux_naver_payment_user_pay", "tbl_naver_payment", "user_id, pay_id", true);
    add_index(&mut out, "ux_naver_payment_item_payment_line", "tbl_naver_payment_item", "payment_id, line_no", true);
    add_index(&mut out, "ux_coupang_payment_user_order", "tbl_coupang_payment", "user_id, order_id", true);
    add_index(&mut out, "ux_coupang_payment_item_payment_line", "tbl_coupang_payment_item", "payment_id, line_no", true);
    add_index(&mut out, "idx_ledger_entry_account_id", "tbl_ledger_entry", "account_id", false);
    add_index(&mut out, "idx_ledger_entry_date", "tbl_ledger_entry", "date", false);
    add_index(&mut out, "idx_ledger_tag_entry_id", "tbl_ledger_tag", "entry_id", false);
    add_index(&mut out, "idx_ledger_history_entry_id", "tbl_ledger_history", "entry_id", false);
    add_index(&mut out, "idx_product_meta_provider_item", "tbl_product_meta", "provider, item_id", false);
    add_index(&mut out, "idx_product_tag_meta_id", "tbl_product_tag", "meta_id", false);
    add_index(&mut out, "idx_product_tag_tag", "tbl_product_tag", "tag", false);
    add_index(&mut out, "idx_product_category_meta_id", "tbl_product_category", "meta_id", false);
    add_index(&mut out, "idx_product_category_category_id", "tbl_product_category", "category_id", false);
    out
}

/// The columns that versions after the first added to tables that a store
/// may already have.
pub open spec fn added_columns() -> Seq<ColumnAdditionView> {
    Seq::empty()
        .push(addition("tbl_coupang_payment"@, "paid_at"@, "TEXT"@))
        .push(addition("tbl_coupang_payment"@, "total_order_amount"@, "INTEGER"@))
        .push(addition("tbl_coupang_payment"@, "total_cancel_amount"@, "INTEGER DEFAULT 0"@))
        .push(addition("tbl_coupang_payment"@, "main_pay_type"@, "TEXT"@))
        .push(addition("tbl_coupang_payment"@, "pay_rocket_balance_amount"@, "INTEGER DEFAULT 0"@))
        .push(addition("tbl_coupang_payment"@, "pay_card_amount"@, "INTEGER DEFAULT 0"@))
        .push(addition("tbl_coupang_payment"@, "pay_coupon_amount"@, "INTEGER DEFAULT 0"@))
        .push(addition("tbl_coupang_payment"@, "pay_coupang_cash_amount"@, "INTEGER DEFAULT 0"@))
        .push(addition("tbl_coupang_payment"@, "pay_rocket_bank_amount"@, "INTEGER DEFAULT 0"@))
        .push(addition("tbl_coupang_payment"@, "wow_instant_discount"@, "INTEGER DEFAULT 0"@))
        .push(addition("tbl_coupang_payment"@, "reward_cash_amount"@, "INTEGER DEFAULT 0"@))
        .push(addition("tbl_coupang_payment_item"@, "product_id"@, "TEXT"@))
        .push(addition("tbl_coupang_payment_item"@, "vendor_item_id"@, "TEXT"@))
        .push(addition("tbl_coupang_payment_item"@, "brand_name"@, "TEXT"@))
        .push(addition("tbl_coupang_payment_item"@, "discounted_unit_price"@, "INTEGER"@))
        .push(addition("tbl_coupang_payment_item"@, "combined_unit_price"@, "INTEGER"@))
}

/// The columns that versions after the first added to tables that a store
/// may already have.
pub fn additions() -> (r: Vec<ColumnAddition>)
    ensures
        r.deep_view() == added_columns(),
{
    let mut out: Vec<ColumnAddition> = Vec::new();
    proof {
        assert(out.deep_view() =~= Seq::<ColumnAdditionView>::empty());
    }
    add_addition(&mut out, "tbl_coupang_payment", "paid_at", "TEXT");
    add_addition(&mut out, "tbl_coupang_payment", "total_order_amount", "INTEGER");
    add_addition(&mut out, "tbl_coupang_payment", "total_cancel_amount", "INTEGER DEFAULT 0");
    add_addition(&mut out, "tbl_coupang_payment", "main_pay_type", "TEXT");
    add_addition(&mut out, "tbl_coupang_payment", "pay_rocket_balance_amount", "INTEGER DEFAULT 0");
    add_addition(&mut out, "tbl_coupang_payment", "pay_card_amount", "INTEGER DEFAULT 0");
    add_addition(&mut out, "tbl_coupang_payment", "pay_coupon_amount", "INTEGER DEFAULT 0");
    add_addition(&mut out, "tbl_coupang_payment", "pay_coupang_cash_amount", "INTEGER DEFAULT 0");
    add_addition(&mut out, "tbl_coupang_payment", "pay_rocket_bank_amount", "INTEGER DEFAULT 0");
    add_addition(&mut out, "tbl_coupang_payment", "wow_instant_discount", "INTEGER DEFAULT 0");
    add_addition(&mut out, "tbl_coupang_payment", "reward_cash_amount", "INTEGER DEFAULT 0");
    add_addition(&mut out, "tbl_coupang_payment_item", "product_id", "TEXT");
    add_addition(&mut out, "tbl_coupang_payment_item", "vendor_item_id", "TEXT");
    add_addition(&mut out, "tbl_coupang_payment_item", "brand_name", "TEXT");
    add_addition(&mut out, "tbl_coupang_payment_item", "discounted_unit_price", "INTEGER");
    add_addition(&mut out, "tbl_coupang_payment_item", "combined_unit_price", "INTEGER");
    out
}

/// The categories that every store starts with.
pub open spec fn default_categories() -> Seq<SeedCategoryView> {
    Seq::empty()
        .push(seed("cat_food"@, "식품/음료"@, "#ef4444"@))
        .push(seed("cat_fashion"@, "의류/패션"@, "#f97316"@))
        .push(seed("cat_electronics"@, "전자제품"@, "#3b82f6"@))
        .push(seed("cat_living"@, "생활용품"@, "#22c55e"@))
        .push(seed("cat_health"@, "건강/뷰티"@, "#ec4899"@))
        .push(seed("cat_hobby"@, "취미/레저"@, "#8b5cf6"@))
        .push(seed("cat_pet"@, "반려동물"@, "#f59e0b"@))
        .push(seed("cat_etc"@, "기타"@, "#6b7280"@))
}

/// The categories that every store starts with.
pub fn seeds() -> (r: Vec<SeedCategory>)
    ensures
        r.deep_view() == default_categories(),
{
    let mut out: Vec<SeedCategory> = Vec::new();
    proof {
        assert(out.deep_view() =~= Seq::<SeedCategoryView>::empty());
    }
    add_seed(&mut out, "cat_food", "식품/음료", "#ef4444");
    add_seed(&mut out, "cat_fashion", "의류/패션", "#f97316");
    add_seed(&mut out, "cat_electronics", "전자제품", "#3b82f6");
    add_seed(&mut out, "cat_living", "생활용품", "#22c55e");
    add_seed(&mut out, "cat_health", "건강/뷰티", "#ec4899");
    add_seed(&mut out, "cat_hobby", "취미/레저", "#8b5cf6");
    add_seed(&mut out, "cat_pet", "반려동물", "#f59e0b");
    add_seed(&mut out, "cat_etc", "기타", "#6b7280");
    out
}

} // verus!
