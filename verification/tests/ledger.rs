use shop_ledger::digest::hash_password;
use shop_ledger::error::{Rule, StoreError};
use shop_ledger::ledger::{
    check_password_expiry, check_password_expiry_at, create_ledger_account,
    create_ledger_account_at, create_ledger_entry, create_ledger_entry_at, delete_ledger_account,
    delete_ledger_account_at, delete_ledger_entry, delete_ledger_entry_at, get_ledger_entry,
    get_ledger_entry_at, list_ledger_accounts, list_ledger_accounts_at, list_ledger_entries,
    list_ledger_entries_at, list_ledger_history, list_ledger_history_at, update_ledger_entry,
    update_ledger_entry_at, update_ledger_password, update_ledger_password_at,
    verify_ledger_password, verify_ledger_password_at,
};
use shop_ledger::naver::save_naver_payment_at;
use shop_ledger::records::ledger::{EntryFields, HistoryAction, LedgerEntry, LedgerEntryInput};
use shop_ledger::records::naver::{NaverHeader, NaverPayment};
use shop_ledger::snapshot::snapshot;
use shop_ledger::store::Store;

fn fields(kind: &str, amount: i64, date: &str, title: &str) -> EntryFields {
    EntryFields {
        kind: kind.to_string(),
        amount,
        date: date.to_string(),
        title: title.to_string(),
        category: "food".to_string(),
        platform: Some("offline".to_string()),
        url: None,
        merchant: None,
        payment_method: None,
        memo: None,
        color: None,
    }
}

fn input(kind: &str, amount: i64, date: &str, title: &str, tags: &[&str]) -> LedgerEntryInput {
    LedgerEntryInput {
        account_id: "ignored".to_string(),
        fields: fields(kind, amount, date, title),
        tags: tags.iter().map(|t| t.to_string()).collect(),
    }
}

fn store_with_account(id: &str) -> Store {
    let mut store = Store::new();
    create_ledger_account_at(&mut store, id.to_string(), "home".to_string(), None, "t0", "t9")
        .unwrap();
    store
}

#[test]
fn password_digest_is_the_md5_in_hexadecimal() {
    assert_eq!(hash_password("abc"), "900150983cd24fb0d6963f7d28e17f72");
    assert_eq!(hash_password(""), "d41d8cd98f00b204e9800998ecf8427e");
    assert_eq!(hash_password("password"), "5f4dcc3b5aa765d61d8327deb882cf99");
    assert_ne!(hash_password("abc"), "abc");
}

#[test]
fn account_without_password_has_no_expiry() {
    let mut store = Store::new();
    let a = create_ledger_account_at(&mut store, "a1".into(), "home".into(), None, "t1", "t9")
        .unwrap();
    assert_eq!(a.id, "a1");
    assert_eq!(a.nickname, "home");
    assert_eq!(a.password_hash, None);
    assert_eq!(a.password_expires_at, None);
    assert_eq!(a.created_at, "t1");
    assert_eq!(a.updated_at, "t1");
    assert_eq!(verify_ledger_password_at(&mut store, "a1", "", "t2"), Ok(false));
}

#[test]
fn account_with_password_is_verified_until_it_lapses() {
    let mut store = Store::new();
    let a = create_ledger_account_at(
        &mut store,
        "a1".into(),
        "home".into(),
        Some("secret".into()),
        "2024-01-01T00:00:00+00:00",
        "2024-01-31T00:00:00+00:00",
    )
    .unwrap();
    assert_eq!(a.password_hash, Some(hash_password("secret")));
    assert_eq!(a.password_expires_at, Some("2024-01-31T00:00:00+00:00".to_string()));
    assert_eq!(
        verify_ledger_password_at(&mut store, "a1", "secret", "2024-01-15T00:00:00+00:00"),
        Ok(true)
    );
    assert_eq!(
        verify_ledger_password_at(&mut store, "a1", "wrong", "2024-01-15T00:00:00+00:00"),
        Ok(false)
    );
    assert_eq!(
        verify_ledger_password_at(&mut store, "a1", "secret", "2024-01-31T00:00:00+00:00"),
        Ok(true)
    );
    assert_eq!(
        verify_ledger_password_at(&mut store, "a1", "secret", "2024-02-01T00:00:00+00:00"),
        Ok(false)
    );
    let row = &snapshot(&store).ledger_accounts[0];
    assert_eq!(row.password_hash, None);
    assert_eq!(row.password_expires_at, None);
    assert_eq!(row.updated_at, "2024-02-01T00:00:00+00:00");
    assert_eq!(verify_ledger_password_at(&mut store, "a9", "x", "t"), Err(StoreError::NotFound));
}

#[test]
fn lapsed_password_stays_until_a_ledger_call_touches_it() {
    let mut store = Store::new();
    create_ledger_account_at(&mut store, "a1".into(), "n".into(), Some("pw".into()), "2024-01-01", "2024-01-31")
        .unwrap();
    create_ledger_account_at(&mut store, "a2".into(), "n".into(), Some("pw".into()), "2024-01-01", "2024-03-31")
        .unwrap();
    shop_ledger::accounts::save_account_at(
        &mut store,
        "u1".into(),
        "naver".into(),
        "a".into(),
        "c".into(),
        vec![],
        "2024-02-15",
    )
    .unwrap();
    let header = NaverHeader {
        pay_id: "p".into(),
        external_id: None,
        service_type: None,
        status_code: None,
        status_text: None,
        status_color: None,
        paid_at: "2024-02-15".into(),
        purchaser_name: None,
        merchant_no: None,
        merchant_name: "m".into(),
        merchant_tel: None,
        merchant_url: None,
        merchant_image_url: None,
        merchant_payment_id: None,
        sub_merchant_name: None,
        sub_merchant_url: None,
        sub_merchant_payment_id: None,
        is_tax_type: None,
        is_oversea_transfer: None,
        product_name: None,
        product_count: None,
        product_detail_url: None,
        order_detail_url: None,
        total_amount: 1,
        discount_amount: None,
        cup_deposit_amount: None,
        rest_amount: None,
        pay_easycard_amount: None,
        pay_easybank_amount: None,
        pay_reward_point_amount: None,
        pay_charge_point_amount: None,
        pay_giftcard_amount: None,
        benefit_type: None,
        has_plus_membership: None,
        benefit_waiting_period: None,
        benefit_expected_amount: None,
        benefit_amount: None,
        is_membership: None,
        is_branch: None,
        is_last_subscription_round: None,
        is_cafe_safe_payment: None,
        merchant_country_code: None,
        merchant_country_name: None,
        application_completed: None,
    };
    save_naver_payment_at(&mut store, "u1", NaverPayment { header, items: vec![] }, "2024-02-15")
        .unwrap();
    let untouched = snapshot(&store);
    assert_eq!(untouched.ledger_accounts[0].password_hash, Some(hash_password("pw")));
    assert_eq!(untouched.ledger_accounts[0].password_expires_at, Some("2024-01-31".to_string()));
    let listed = list_ledger_accounts_at(&mut store, "2024-02-15");
    assert_eq!(listed.len(), 2);
    let touched = snapshot(&store);
    assert_eq!(touched.ledger_accounts[0].password_hash, None);
    assert_eq!(touched.ledger_accounts[0].password_expires_at, None);
    assert_eq!(touched.ledger_accounts[0].updated_at, "2024-02-15");
    assert_eq!(touched.ledger_accounts[0].created_at, "2024-01-01");
    assert_eq!(touched.ledger_accounts[1].password_hash, Some(hash_password("pw")));
    assert_eq!(touched.ledger_accounts[1].password_expires_at, Some("2024-03-31".to_string()));
    assert_eq!(touched.ledger_accounts[1].updated_at, "2024-01-01");
}

#[test]
fn every_ledger_read_clears_lapsed_passwords() {
    let fresh = || {
        let mut store = Store::new();
        create_ledger_account_at(&mut store, "a1".into(), "n".into(), Some("pw".into()), "1", "3")
            .unwrap();
        store
    };
    let cleared = |store: &Store| snapshot(store).ledger_accounts[0].password_hash.is_none();
    let mut s = fresh();
    assert!(!cleared(&s));
    check_password_expiry_at(&mut s, "2");
    assert!(!cleared(&s));
    check_password_expiry_at(&mut s, "3");
    assert!(!cleared(&s));
    check_password_expiry_at(&mut s, "4");
    assert!(cleared(&s));
    let mut s = fresh();
    list_ledger_entries_at(&mut s, "a1", "2024", "4");
    assert!(cleared(&s));
    let mut s = fresh();
    assert_eq!(get_ledger_entry_at(&mut s, "e", "4"), None);
    assert!(cleared(&s));
    let mut s = fresh();
    assert_eq!(list_ledger_history_at(&mut s, "e", "4").len(), 0);
    assert!(cleared(&s));
    let mut s = fresh();
    create_ledger_entry_at(&mut s, "e".into(), "h".into(), "a1", input("income", 1, "d", "t", &[]), "4")
        .unwrap();
    assert!(cleared(&s));
    let mut s = fresh();
    create_ledger_account_at(&mut s, "a2".into(), "n".into(), None, "4", "9").unwrap();
    assert!(cleared(&s));
    let mut s = fresh();
    update_ledger_password_at(&mut s, "a7", "x", "4", "9");
    assert!(cleared(&s));
    let mut s = fresh();
    delete_ledger_account_at(&mut s, "a7", "4");
    assert!(cleared(&s));
    let mut s = fresh();
    let refused =
        create_ledger_entry_at(&mut s, "e".into(), "h".into(), "nobody", input("income", 1, "d", "t", &[]), "4");
    assert_eq!(refused, Err(StoreError::Constraint(Rule::AccountMissing)));
    assert!(!cleared(&s));
}

#[test]
fn password_can_be_set_again() {
    let mut store = store_with_account("a1");
    update_ledger_password_at(&mut store, "a1", "pw", "2024-01-01", "2024-01-31");
    let row = &snapshot(&store).ledger_accounts[0];
    assert_eq!(row.password_hash, Some(hash_password("pw")));
    assert_eq!(row.password_expires_at, Some("2024-01-31".to_string()));
    assert_eq!(row.updated_at, "2024-01-01");
    assert_eq!(row.created_at, "t0");
    assert_eq!(verify_ledger_password_at(&mut store, "a1", "pw", "2024-01-02"), Ok(true));
    update_ledger_password_at(&mut store, "nobody", "pw", "2024-01-03", "2024-02-01");
    assert_eq!(snapshot(&store).ledger_accounts.len(), 1);
}

#[test]
fn ledger_account_calls_with_the_clock() {
    let mut store = Store::new();
    let a = create_ledger_account(&mut store, "home".into(), Some("pw".into())).unwrap();
    assert_eq!(a.id.len(), 36);
    assert_eq!(a.password_hash, Some(hash_password("pw")));
    let expires = a.password_expires_at.clone().unwrap();
    assert!(expires > a.created_at);
    assert_eq!(verify_ledger_password(&mut store, &a.id, "pw"), Ok(true));
    assert_eq!(verify_ledger_password(&mut store, &a.id, "no"), Ok(false));
    update_ledger_password(&mut store, &a.id, "other");
    assert_eq!(verify_ledger_password(&mut store, &a.id, "other"), Ok(true));
    check_password_expiry(&mut store);
    assert_eq!(list_ledger_accounts(&mut store).len(), 1);
    let e = create_ledger_entry(&mut store, &a.id, input("expense", 5, "2024-01-01", "tea", &["x"]))
        .unwrap();
    assert_eq!(get_ledger_entry(&mut store, &e).unwrap().fields.amount, 5);
    assert_eq!(update_ledger_entry(&mut store, &e, input("income", 6, "2024-01-02", "t", &[])), Ok(()));
    assert_eq!(list_ledger_entries(&mut store, &a.id, "2024-01").len(), 1);
    assert_eq!(delete_ledger_entry(&mut store, &e), Ok(()));
    assert_eq!(delete_ledger_entry(&mut store, &e), Err(StoreError::NotFound));
    let history = list_ledger_history(&mut store, &e);
    assert_eq!(history.len(), 3);
    delete_ledger_account(&mut store, &a.id);
    assert_eq!(list_ledger_accounts(&mut store).len(), 0);
}

#[test]
fn accounts_are_listed_newest_first() {
    let mut store = Store::new();
    for (id, at) in [("a", "2"), ("b", "3"), ("c", "1")] {
        create_ledger_account_at(&mut store, id.into(), "n".into(), None, at, "9").unwrap();
    }
    let ids: Vec<String> =
        list_ledger_accounts_at(&mut store, "4").into_iter().map(|a| a.id).collect();
    assert_eq!(ids, vec!["b", "a", "c"]);
    let again = create_ledger_account_at(&mut store, "a".into(), "n".into(), None, "5", "9");
    assert_eq!(again, Err(StoreError::Constraint(Rule::IdentifierTaken)));
}

#[test]
fn create_appends_one_history_row_with_the_entry_after() {
    let mut store = store_with_account("a1");
    let given = input("expense", 1200, "2024-03-05", "lunch", &["work", "food"]);
    let id = create_ledger_entry_at(&mut store, "e1".into(), "h1".into(), "a1", given, "t1");
    assert_eq!(id, Ok("e1".to_string()));
    let tables = snapshot(&store);
    assert_eq!(tables.ledger_entries.len(), 1);
    assert_eq!(tables.ledger_tags.len(), 2);
    assert_eq!(tables.ledger_history.len(), 1);
    let h = &tables.ledger_history[0];
    assert_eq!(h.id, "h1");
    assert_eq!(h.entry_id, "e1");
    assert_eq!(h.action, HistoryAction::Create);
    assert_eq!(h.action.as_str(), "create");
    assert_eq!(h.snapshot_before, None);
    assert_eq!(h.created_at, "t1");
    let expected = LedgerEntry {
        id: "e1".to_string(),
        account_id: "a1".to_string(),
        fields: fields("expense", 1200, "2024-03-05", "lunch"),
        tags: vec!["work".to_string(), "food".to_string()],
        created_at: "t1".to_string(),
        updated_at: "t1".to_string(),
    };
    assert_eq!(h.snapshot_after, Some(expected));
}

#[test]
fn update_appends_one_history_row_with_before_and_after() {
    let mut store = store_with_account("a1");
    create_ledger_entry_at(
        &mut store,
        "e1".into(),
        "h1".into(),
        "a1",
        input("expense", 1200, "2024-03-05", "lunch", &["work", "food"]),
        "t1",
    )
    .unwrap();
    let r = update_ledger_entry_at(
        &mut store,
        "e1",
        "h2".into(),
        input("income", 50, "2024-03-06", "refund", &["food", "back"]),
        "t2",
    );
    assert_eq!(r, Ok(()));
    let tables = snapshot(&store);
    assert_eq!(tables.ledger_history.len(), 2);
    let h = &tables.ledger_history[1];
    assert_eq!(h.action, HistoryAction::Update);
    assert_eq!(h.action.as_str(), "update");
    assert_eq!(h.snapshot_before, tables.ledger_history[0].snapshot_after);
    let after = h.snapshot_after.clone().unwrap();
    assert_eq!(after.id, "e1");
    assert_eq!(after.account_id, "a1");
    assert_eq!(after.fields, fields("income", 50, "2024-03-06", "refund"));
    assert_eq!(after.tags, vec!["food".to_string(), "back".to_string()]);
    assert_eq!(after.created_at, "t1");
    assert_eq!(after.updated_at, "t2");
    assert_eq!(tables.ledger_entries.len(), 1);
    assert_eq!(tables.ledger_entries[0].fields.amount, 50);
    let tags: Vec<&str> = tables.ledger_tags.iter().map(|t| t.tag.as_str()).collect();
    assert_eq!(tags, vec!["food", "back"]);
    assert!(tables.ledger_tags.iter().all(|t| t.created_at == "t2"));
}

#[test]
fn delete_appends_one_history_row_with_the_entry_before() {
    let mut store = store_with_account("a1");
    create_ledger_entry_at(
        &mut store,
        "e1".into(),
        "h1".into(),
        "a1",
        input("expense", 1200, "2024-03-05", "lunch", &["work"]),
        "t1",
    )
    .unwrap();
    create_ledger_entry_at(
        &mut store,
        "e2".into(),
        "h2".into(),
        "a1",
        input("expense", 1, "2024-03-05", "gum", &["work"]),
        "t1",
    )
    .unwrap();
    assert_eq!(delete_ledger_entry_at(&mut store, "e1", "h3".into(), "t3"), Ok(()));
    let tables = snapshot(&store);
    assert_eq!(tables.ledger_entries.len(), 1);
    assert_eq!(tables.ledger_entries[0].id, "e2");
    assert_eq!(tables.ledger_tags.len(), 1);
    assert_eq!(tables.ledger_tags[0].entry_id, "e2");
    assert_eq!(tables.ledger_history.len(), 3);
    let h = &tables.ledger_history[2];
    assert_eq!(h.action, HistoryAction::Delete);
    assert_eq!(h.action.as_str(), "delete");
    assert_eq!(h.snapshot_before, tables.ledger_history[0].snapshot_after);
    assert_eq!(h.snapshot_after, None);
    assert_eq!(get_ledger_entry_at(&mut store, "e1", "t4"), None);
    let story = list_ledger_history_at(&mut store, "e1", "t4");
    assert_eq!(story.len(), 2);
    assert_eq!(story[0].id, "h3");
    assert_eq!(story[1].id, "h1");
}

#[test]
fn entries_that_break_a_rule_are_refused_and_change_nothing() {
    let mut store = store_with_account("a1");
    create_ledger_entry_at(
        &mut store,
        "e1".into(),
        "h1".into(),
        "a1",
        input("expense", 1, "2024-03-05", "lunch", &["a"]),
        "t1",
    )
    .unwrap();
    let before = snapshot(&store);
    let mut bad_platform = input("expense", 1, "d", "t", &[]);
    bad_platform.fields.platform = Some("moon".to_string());
    let mut no_platform = input("income", 1, "d", "t", &[]);
    no_platform.fields.platform = None;
    let cases: Vec<(&str, &str, &str, LedgerEntryInput, Rule)> = vec![
        ("e1", "h2", "a1", input("expense", 1, "d", "t", &[]), Rule::IdentifierTaken),
        ("e2", "h1", "a1", input("expense", 1, "d", "t", &[]), Rule::IdentifierTaken),
        ("e2", "h2", "a9", input("expense", 1, "d", "t", &[]), Rule::AccountMissing),
        ("e2", "h2", "a1", input("gift", 1, "d", "t", &[]), Rule::EntryFields),
        ("e2", "h2", "a1", bad_platform, Rule::EntryFields),
        ("e2", "h2", "a1", input("expense", 1, "d", "t", &["x", "y", "x"]), Rule::TagTwice),
        ("e2", "h1", "a9", input("gift", 1, "d", "t", &["x", "x"]), Rule::AccountMissing),
        ("e2", "h1", "a1", input("gift", 1, "d", "t", &["x", "x"]), Rule::EntryFields),
    ];
    for (e, h, a, given, rule) in cases {
        let r = create_ledger_entry_at(&mut store, e.into(), h.into(), a, given, "t2");
        assert_eq!(r, Err(StoreError::Constraint(rule)));
    }
    let after = snapshot(&store);
    assert_eq!(after.ledger_entries, before.ledger_entries);
    assert_eq!(after.ledger_tags, before.ledger_tags);
    assert_eq!(after.ledger_history, before.ledger_history);
    assert_eq!(
        update_ledger_entry_at(&mut store, "e9", "h2".into(), input("income", 1, "d", "t", &[]), "t"),
        Err(StoreError::NotFound)
    );
    assert_eq!(
        update_ledger_entry_at(&mut store, "e1", "h1".into(), input("income", 1, "d", "t", &[]), "t"),
        Err(StoreError::Constraint(Rule::IdentifierTaken))
    );
    assert_eq!(
        update_ledger_entry_at(&mut store, "e1", "h2".into(), input("loan", 1, "d", "t", &[]), "t"),
        Err(StoreError::Constraint(Rule::EntryFields))
    );
    assert_eq!(
        update_ledger_entry_at(&mut store, "e1", "h2".into(), input("income", 1, "d", "t", &["a", "a"]), "t"),
        Err(StoreError::Constraint(Rule::TagTwice))
    );
    assert_eq!(delete_ledger_entry_at(&mut store, "e9", "h2".into(), "t"), Err(StoreError::NotFound));
    assert_eq!(delete_ledger_entry_at(&mut store, "e1", "h1".into(), "t"), Err(StoreError::Constraint(Rule::IdentifierTaken)));
    assert_eq!(snapshot(&store).ledger_history, before.ledger_history);
    assert_eq!(
        create_ledger_entry_at(&mut store, "e2".into(), "h2".into(), "a1", no_platform, "t2"),
        Ok("e2".to_string())
    );
}

#[test]
fn entries_are_listed_by_month_newest_first_with_sorted_tags() {
    let mut store = store_with_account("a1");
    create_ledger_account_at(&mut store, "a2".into(), "n".into(), None, "t0", "t9").unwrap();
    let mut n = 0;
    let mut add = |account: &str, date: &str, title: &str, at: &str, tags: &[&str]| {
        n += 1;
        create_ledger_entry_at(
            &mut store,
            format!("e{}", n),
            format!("h{}", n),
            account,
            input("expense", 1, date, title, tags),
            at,
        )
        .unwrap();
    };
    add("a1", "2024-03-05", "one", "t1", &["pear", "apple", "fig"]);
    add("a1", "2024-03-09", "two", "t2", &[]);
    add("a1", "2024-03-05", "three", "t3", &[]);
    add("a1", "2024-04-01", "four", "t4", &[]);
    add("a2", "2024-03-07", "five", "t5", &[]);
    add("a1", "2024-03-05", "six", "t3", &[]);
    let listed = list_ledger_entries_at(&mut store, "a1", "2024-03", "t9");
    let titles: Vec<&str> = listed.iter().map(|e| e.fields.title.as_str()).collect();
    assert_eq!(titles, vec!["two", "three", "six", "one"]);
    assert_eq!(listed[3].tags, vec!["apple", "fig", "pear"]);
    assert_eq!(list_ledger_entries_at(&mut store, "a1", "2024", "t9").len(), 5);
    assert_eq!(list_ledger_entries_at(&mut store, "a1", "2024-0_-05", "t9").len(), 3);
    assert_eq!(list_ledger_entries_at(&mut store, "a1", "%-01", "t9").len(), 1);
    assert_eq!(list_ledger_entries_at(&mut store, "a1", "2025", "t9").len(), 0);
    assert_eq!(list_ledger_entries_at(&mut store, "a3", "2024", "t9").len(), 0);
    let one = get_ledger_entry_at(&mut store, "e1", "t9").unwrap();
    assert_eq!(one.tags, vec!["apple", "fig", "pear"]);
    assert_eq!(one.account_id, "a1");
    assert_eq!(one.created_at, "t1");
}

#[test]
fn deleting_an_account_removes_its_entries_and_tags_but_not_the_history() {
    let mut store = store_with_account("a1");
    create_ledger_account_at(&mut store, "a2".into(), "n".into(), None, "t0", "t9").unwrap();
    create_ledger_entry_at(&mut store, "e1".into(), "h1".into(), "a1", input("income", 1, "d", "t", &["x"]), "t1")
        .unwrap();
    create_ledger_entry_at(&mut store, "e2".into(), "h2".into(), "a2", input("income", 1, "d", "t", &["x"]), "t1")
        .unwrap();
    delete_ledger_account_at(&mut store, "a1", "t2");
    let tables = snapshot(&store);
    assert_eq!(tables.ledger_accounts.len(), 1);
    assert_eq!(tables.ledger_accounts[0].id, "a2");
    assert_eq!(tables.ledger_entries.len(), 1);
    assert_eq!(tables.ledger_entries[0].id, "e2");
    assert_eq!(tables.ledger_tags.len(), 1);
    assert_eq!(tables.ledger_tags[0].entry_id, "e2");
    assert_eq!(tables.ledger_history.len(), 2);
    assert_eq!(list_ledger_history_at(&mut store, "e1", "t3").len(), 1);
}

#[test]
fn create_ledger_account_into_an_empty_ledger_is_never_refused() {
    for round in 0..20 {
        let mut store = Store::new();
        let name = format!("book-{round}");
        let a = create_ledger_account(&mut store, name.clone(), None).unwrap();
        assert_eq!(a.nickname, name);
        assert_eq!(a.password_hash, None);
        let listed = list_ledger_accounts(&mut store);
        assert_eq!(listed.len(), 1);
        assert_eq!(listed[0].id, a.id);
    }
}
