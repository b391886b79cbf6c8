use shop_ledger::catalog::{create_category_at, list_categories};
use shop_ledger::diagnostics::{
    check_table_name, count_rows, get_table_stats, list_tables, truncate_table,
};
use shop_ledger::error::{Rule, StoreError};
use shop_ledger::layout::{additions, indexes, seeds, tables};
use shop_ledger::records::catalog::{Category, TableStat};
use shop_ledger::records::owner::{Credential, User};
use shop_ledger::schema::{
    add_column_sql, after_addition, create_index_sql, create_table_sql, ensure_schema,
    ensure_schema_at,
    is_duplicate_column, join_texts, ColumnDef, TableDef,
};
use shop_ledger::snapshot::{restore, snapshot, Tables};
use shop_ledger::store::Store;

fn empty_tables() -> Tables {
    snapshot(&Store::new())
}

fn column(name: &str, definition: &str) -> ColumnDef {
    ColumnDef { name: name.to_string(), definition: definition.to_string() }
}

fn names_of(table: &TableDef) -> Vec<&str> {
    table.columns.iter().map(|c| c.name.as_str()).collect()
}

#[test]
fn ensure_on_an_empty_store_creates_every_table_and_index() {
    let mut store = Store::new();
    ensure_schema_at(&mut store, "t1");
    let t = snapshot(&store);
    assert_eq!(t.tables.len(), 15);
    assert_eq!(t.indexes.len(), 14);
    assert_eq!(t.tables, tables());
    assert_eq!(t.indexes, indexes());
    assert_eq!(t.categories.len(), 8);
    assert_eq!(
        t.categories[0],
        Category {
            id: "cat_food".to_string(),
            name: "식품/음료".to_string(),
            color: Some("#ef4444".to_string()),
            created_at: "t1".to_string(),
        }
    );
    assert_eq!(t.categories[7].id, "cat_etc");
    assert_eq!(t.categories[7].name, "기타");
    assert_eq!(t.users.len(), 0);
}

#[test]
fn ensure_twice_yields_the_same_as_once() {
    let mut store = Store::new();
    ensure_schema_at(&mut store, "t1");
    let once = snapshot(&store);
    ensure_schema_at(&mut store, "t2");
    let twice = snapshot(&store);
    assert_eq!(once.tables, twice.tables);
    assert_eq!(once.indexes, twice.indexes);
    assert_eq!(once.categories, twice.categories);
    ensure_schema(&mut store);
    let thrice = snapshot(&store);
    assert_eq!(once.tables, thrice.tables);
    assert_eq!(once.categories, thrice.categories);
}

#[test]
fn ensure_on_an_older_store_adds_the_new_columns_and_keeps_the_rows() {
    let mut old = empty_tables();
    old.tables = vec![
        TableDef {
            name: "tbl_user".to_string(),
            columns: vec![column("id", "TEXT PRIMARY KEY"), column("legacy", "TEXT")],
            constraints: vec![],
        },
        TableDef {
            name: "tbl_coupang_payment".to_string(),
            columns: vec![
                column("id", "INTEGER PRIMARY KEY AUTOINCREMENT"),
                column("user_id", "TEXT NOT NULL"),
                column("order_id", "TEXT NOT NULL"),
                column("pay_card_amount", "INTEGER"),
            ],
            constraints: vec!["FOREIGN KEY(user_id) REFERENCES tbl_user(id)".to_string()],
        },
        TableDef {
            name: "tbl_coupang_payment_item".to_string(),
            columns: vec![column("id", "INTEGER PRIMARY KEY AUTOINCREMENT")],
            constraints: vec![],
        },
    ];
    old.users = vec![User {
        id: "u1".to_string(),
        provider: "coupang".to_string(),
        alias: "me".to_string(),
        curl: "c".to_string(),
        created_at: "t0".to_string(),
        updated_at: "t0".to_string(),
    }];
    old.credentials = vec![Credential {
        user_id: "u1".to_string(),
        key: "k".to_string(),
        value: "v".to_string(),
        updated_at: "t0".to_string(),
    }];
    old.categories = vec![Category {
        id: "mine".to_string(),
        name: "기타".to_string(),
        color: None,
        created_at: "t0".to_string(),
    }];
    let mut store = restore(old).unwrap();
    let before = snapshot(&store);
    ensure_schema_at(&mut store, "t1");
    let after = snapshot(&store);
    assert_eq!(after.tables.len(), 15);
    assert_eq!(after.tables[0], before.tables[0]);
    assert_eq!(after.tables[1].name, "tbl_coupang_payment");
    assert_eq!(after.tables[1].constraints, before.tables[1].constraints);
    assert_eq!(
        names_of(&after.tables[1]),
        vec![
            "id",
            "user_id",
            "order_id",
            "pay_card_amount",
            "paid_at",
            "total_order_amount",
            "total_cancel_amount",
            "main_pay_type",
            "pay_rocket_balance_amount",
            "pay_coupon_amount",
            "pay_coupang_cash_amount",
            "pay_rocket_bank_amount",
            "wow_instant_discount",
            "reward_cash_amount",
        ]
    );
    assert_eq!(after.tables[1].columns[3], column("pay_card_amount", "INTEGER"));
    assert_eq!(after.tables[1].columns[6], column("total_cancel_amount", "INTEGER DEFAULT 0"));
    assert_eq!(
        names_of(&after.tables[2]),
        vec![
            "id",
            "product_id",
            "vendor_item_id",
            "brand_name",
            "discounted_unit_price",
            "combined_unit_price"
        ]
    );
    assert_eq!(after.tables[3].name, "tbl_setting");
    assert_eq!(after.users, before.users);
    assert_eq!(after.credentials, before.credentials);
    assert_eq!(after.categories.len(), 8);
    assert_eq!(after.categories[0], before.categories[0]);
    assert!(after.categories.iter().all(|c| c.id != "cat_etc"));
    assert_eq!(after.categories[1].id, "cat_food");
}

#[test]
fn the_layout_has_the_columns_that_were_added_later() {
    let all = tables();
    let adds = additions();
    assert_eq!(adds.len(), 16);
    for a in &adds {
        let table = all.iter().find(|t| t.name == a.table).unwrap();
        assert!(table.columns.contains(&a.column));
    }
    assert_eq!(seeds().len(), 8);
    let names: Vec<&str> = all.iter().map(|t| t.name.as_str()).collect();
    assert_eq!(names[0], "tbl_setting");
    assert_eq!(names[14], "tbl_product_category");
    assert_eq!(all[3].columns.len(), 48);
    assert_eq!(all[5].columns.len(), 32);
}

#[test]
fn statements_are_written_out() {
    let table = TableDef {
        name: "tbl_x".to_string(),
        columns: vec![column("id", "TEXT PRIMARY KEY"), column("n", "INTEGER")],
        constraints: vec!["UNIQUE(n)".to_string()],
    };
    assert_eq!(
        create_table_sql(&table),
        "CREATE TABLE IF NOT EXISTS tbl_x (id TEXT PRIMARY KEY, n INTEGER, UNIQUE(n))"
    );
    let bare = TableDef { name: "t".to_string(), columns: vec![], constraints: vec![] };
    assert_eq!(create_table_sql(&bare), "CREATE TABLE IF NOT EXISTS t ()");
    let all = indexes();
    assert_eq!(
        create_index_sql(&all[0]),
        "CREATE INDEX IF NOT EXISTS idx_credential_user_id ON tbl_credential (user_id)"
    );
    assert_eq!(
        create_index_sql(&all[1]),
        "CREATE UNIQUE INDEX IF NOT EXISTS ux_naver_payment_user_pay ON tbl_naver_payment (user_id, pay_id)"
    );
    let adds = additions();
    assert_eq!(add_column_sql(&adds[0]), "ALTER TABLE tbl_coupang_payment ADD COLUMN paid_at TEXT");
    assert_eq!(
        add_column_sql(&adds[2]),
        "ALTER TABLE tbl_coupang_payment ADD COLUMN total_cancel_amount INTEGER DEFAULT 0"
    );
    assert_eq!(
        add_column_sql(&adds[15]),
        "ALTER TABLE tbl_coupang_payment_item ADD COLUMN combined_unit_price INTEGER"
    );
    assert_eq!(join_texts(&vec![], ", "), "");
    assert_eq!(join_texts(&vec!["a".to_string()], ", "), "a");
    assert_eq!(join_texts(&vec!["a".to_string(), "b".to_string(), "c".to_string()], "-"), "a-b-c");
}

#[test]
fn only_a_duplicate_column_is_no_failure_of_an_addition() {
    assert!(is_duplicate_column("duplicate column name: paid_at"));
    assert!(is_duplicate_column("SQL error: duplicate column name: paid_at in ALTER"));
    assert!(!is_duplicate_column("no such table: tbl_coupang_payment"));
    assert!(!is_duplicate_column("database is locked"));
    assert!(!is_duplicate_column(""));
}

#[test]
fn an_addition_fails_only_on_another_failure() {
    assert_eq!(after_addition(Ok(())), Ok(()));
    assert_eq!(after_addition(Err("duplicate column name: paid_at".to_string())), Ok(()));
    assert_eq!(
        after_addition(Err("no such table: tbl_coupang_payment".to_string())),
        Err("no such table: tbl_coupang_payment".to_string())
    );
    assert_eq!(after_addition(Err(String::new())), Err(String::new()));
}

#[test]
fn table_names_are_checked() {
    assert_eq!(check_table_name("tbl_user"), Ok(()));
    assert_eq!(check_table_name(""), Ok(()));
    assert_eq!(check_table_name("tbl user"), Err(StoreError::Validation));
    assert_eq!(check_table_name("tbl_user;"), Err(StoreError::Validation));
    assert_eq!(check_table_name("a; DROP TABLE b"), Err(StoreError::Validation));
    assert_eq!(check_table_name("tbl\tuser"), Err(StoreError::Validation));
    assert_eq!(check_table_name("tbl_user\n"), Err(StoreError::Validation));
    assert_eq!(check_table_name("tbl\u{a0}user"), Err(StoreError::Validation));
    assert_eq!(check_table_name("tbl\u{3000}user"), Err(StoreError::Validation));
    assert_eq!(check_table_name("tbl_user_가"), Ok(()));
}

#[test]
fn tables_are_listed_and_counted() {
    let mut t = empty_tables();
    t.tables = vec![
        TableDef { name: "tbl_user".to_string(), columns: vec![], constraints: vec![] },
        TableDef { name: "sqlite_sequence".to_string(), columns: vec![], constraints: vec![] },
        TableDef { name: "tbl_category".to_string(), columns: vec![], constraints: vec![] },
        TableDef { name: "sqlitex".to_string(), columns: vec![], constraints: vec![] },
        TableDef { name: "sqlite".to_string(), columns: vec![], constraints: vec![] },
        TableDef { name: "other".to_string(), columns: vec![], constraints: vec![] },
    ];
    let mut store = restore(t).unwrap();
    create_category_at(&mut store, "c1".into(), "tea".into(), None, "t").unwrap();
    create_category_at(&mut store, "c2".into(), "cup".into(), None, "t").unwrap();
    assert_eq!(list_tables(&store), vec!["other", "sqlite", "tbl_category", "tbl_user"]);
    assert_eq!(
        get_table_stats(&store),
        vec![
            TableStat { name: "other".to_string(), row_count: 0 },
            TableStat { name: "sqlite".to_string(), row_count: 0 },
            TableStat { name: "tbl_category".to_string(), row_count: 2 },
            TableStat { name: "tbl_user".to_string(), row_count: 0 },
        ]
    );
    assert_eq!(count_rows(&store, "tbl_category"), 2);
    assert_eq!(count_rows(&store, "tbl_nothing"), 0);
}

#[test]
fn truncate_empties_a_table_and_what_belongs_to_its_rows() {
    let mut store = Store::new();
    ensure_schema_at(&mut store, "t");
    shop_ledger::accounts::save_account_at(
        &mut store,
        "u1".into(),
        "naver".into(),
        "a".into(),
        "c".into(),
        vec![shop_ledger::records::owner::KeyValue { key: "k".into(), value: "v".into() }],
        "t",
    )
    .unwrap();
    assert_eq!(truncate_table(&mut store, "tbl user"), Err(StoreError::Validation));
    assert_eq!(truncate_table(&mut store, "tbl;user"), Err(StoreError::Validation));
    assert_eq!(truncate_table(&mut store, "tbl_user\t"), Err(StoreError::Validation));
    assert_eq!(truncate_table(&mut store, "tbl_user\r\n"), Err(StoreError::Validation));
    assert_eq!(truncate_table(&mut store, "tbl_nothing"), Err(StoreError::NotFound));
    assert_eq!(snapshot(&store).users.len(), 1);
    assert_eq!(truncate_table(&mut store, "tbl_setting"), Ok(()));
    assert_eq!(snapshot(&store).users.len(), 1);
    assert_eq!(snapshot(&store).credentials.len(), 1);
    assert_eq!(truncate_table(&mut store, "tbl_user"), Ok(()));
    assert_eq!(snapshot(&store).users.len(), 0);
    assert_eq!(snapshot(&store).credentials.len(), 0);
    assert_eq!(list_categories(&store).len(), 8);
    assert_eq!(truncate_table(&mut store, "tbl_category"), Ok(()));
    assert_eq!(list_categories(&store).len(), 0);
    assert_eq!(snapshot(&store).tables.len(), 15);
    let mut bare = Store::new();
    assert_eq!(truncate_table(&mut bare, "tbl_user"), Err(StoreError::NotFound));
}

#[test]
fn restore_accepts_only_tables_that_are_in_order() {
    assert!(restore(empty_tables()).is_ok());
    let user = |id: &str| User {
        id: id.to_string(),
        provider: "p".to_string(),
        alias: "a".to_string(),
        curl: "c".to_string(),
        created_at: "t".to_string(),
        updated_at: "t".to_string(),
    };
    let mut twice = empty_tables();
    twice.users = vec![user("u1"), user("u1")];
    assert!(matches!(restore(twice), Err(StoreError::Constraint(Rule::OutOfOrder))));
    let mut orphan = empty_tables();
    orphan.users = vec![user("u1")];
    orphan.credentials = vec![Credential {
        user_id: "u2".to_string(),
        key: "k".to_string(),
        value: "v".to_string(),
        updated_at: "t".to_string(),
    }];
    assert!(matches!(restore(orphan), Err(StoreError::Constraint(Rule::OutOfOrder))));
    let mut low = empty_tables();
    low.naver_payment_seq = -1;
    assert!(matches!(restore(low), Err(StoreError::Constraint(Rule::OutOfOrder))));
    let mut good = empty_tables();
    good.users = vec![user("u1"), user("u2")];
    good.naver_item_seq = 7;
    let store = restore(good).unwrap();
    assert_eq!(snapshot(&store).users.len(), 2);
    assert_eq!(snapshot(&store).naver_item_seq, 7);
}

#[test]
fn a_column_that_was_added_later_may_be_empty() {
    let adds = additions();
    for a in &adds {
        assert!(!a.column.definition.contains("NOT NULL"));
        assert!(
            a.column.definition == "TEXT"
                || a.column.definition == "INTEGER"
                || a.column.definition == "INTEGER DEFAULT 0"
        );
    }
    assert_eq!(adds.iter().filter(|a| a.table == "tbl_coupang_payment").count(), 11);
    assert_eq!(adds.iter().filter(|a| a.table == "tbl_coupang_payment_item").count(), 5);
}
