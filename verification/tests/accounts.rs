use shop_ledger::accounts::{
    delete_user, get_user_credentials, has_users, list_users, save_account, save_account_at,
    update_account_credentials, update_account_credentials_at, update_user, update_user_at,
};
use shop_ledger::coupang::save_coupang_payment_at;
use shop_ledger::error::{Rule, StoreError};
use shop_ledger::naver::save_naver_payment_at;
use shop_ledger::records::coupang::{CoupangHeader, CoupangPayment, CoupangPaymentItem};
use shop_ledger::records::naver::{NaverHeader, NaverPayment, NaverPaymentItem};
use shop_ledger::records::owner::KeyValue;
use shop_ledger::snapshot::snapshot;
use shop_ledger::store::Store;

fn kv(key: &str, value: &str) -> KeyValue {
    KeyValue { key: key.to_string(), value: value.to_string() }
}

fn add_owner(store: &mut Store, id: &str, created: &str, headers: Vec<KeyValue>) {
    let r = save_account_at(
        store,
        id.to_string(),
        "naver".to_string(),
        format!("alias of {}", id),
        "curl".to_string(),
        headers,
        created,
    );
    assert_eq!(r, Ok(id.to_string()));
}

fn naver(pay_id: &str, lines: i32) -> NaverPayment {
    NaverPayment {
        header: NaverHeader {
            pay_id: pay_id.to_string(),
            external_id: None,
            service_type: None,
            status_code: None,
            status_text: None,
            status_color: None,
            paid_at: "2024-01-01".to_string(),
            purchaser_name: None,
            merchant_no: None,
            merchant_name: "shop".to_string(),
            merchant_tel: None,
            merchant_url: None,
            merchant_image_url: None,
            merchant_payment_id: None,
            sub_merchant_name: None,
            sub_merchant_url: None,
            sub_merchant_payment_id: None,
            is_tax_type: None,
            is_oversea_transfer: None,
            product_name: None,
            product_count: None,
            product_detail_url: None,
            order_detail_url: None,
            total_amount: 1,
            discount_amount: None,
            cup_deposit_amount: None,
            rest_amount: None,
            pay_easycard_amount: None,
            pay_easybank_amount: None,
            pay_reward_point_amount: None,
            pay_charge_point_amount: None,
            pay_giftcard_amount: None,
            benefit_type: None,
            has_plus_membership: None,
            benefit_waiting_period: None,
            benefit_expected_amount: None,
            benefit_amount: None,
            is_membership: None,
            is_branch: None,
            is_last_subscription_round: None,
            is_cafe_safe_payment: None,
            merchant_country_code: None,
            merchant_country_name: None,
            application_completed: None,
        },
        items: (1..=lines)
            .map(|n| NaverPaymentItem {
                id: 0,
                line_no: n,
                product_name: format!("item {}", n),
                image_url: None,
                info_url: None,
                quantity: 1,
                unit_price: None,
                line_amount: None,
                rest_amount: None,
                memo: None,
            })
            .collect(),
    }
}

fn coupang(order_id: &str, lines: i32) -> CoupangPayment {
    CoupangPayment {
        header: CoupangHeader {
            order_id: order_id.to_string(),
            external_id: None,
            status_code: None,
            status_text: None,
            status_color: None,
            ordered_at: "2024-01-01".to_string(),
            paid_at: None,
            merchant_name: "shop".to_string(),
            merchant_tel: None,
            merchant_url: None,
            merchant_image_url: None,
            product_name: None,
            product_count: None,
            product_detail_url: None,
            order_detail_url: None,
            total_amount: 1,
            total_order_amount: None,
            total_cancel_amount: None,
            discount_amount: None,
            rest_amount: None,
            main_pay_type: None,
            pay_rocket_balance_amount: None,
            pay_card_amount: None,
            pay_coupon_amount: None,
            pay_coupang_cash_amount: None,
            pay_rocket_bank_amount: None,
            wow_instant_discount: None,
            reward_cash_amount: None,
        },
        items: (1..=lines)
            .map(|n| CoupangPaymentItem {
                id: 0,
                line_no: n,
                product_id: None,
                vendor_item_id: None,
                product_name: format!("item {}", n),
                image_url: None,
                info_url: None,
                brand_name: None,
                quantity: 1,
                unit_price: None,
                discounted_unit_price: None,
                combined_unit_price: None,
                line_amount: None,
                rest_amount: None,
                memo: None,
            })
            .collect(),
    }
}

#[test]
fn a_new_store_has_no_users() {
    let store = Store::new();
    assert!(!has_users(&store));
    assert_eq!(list_users(&store).len(), 0);
}

#[test]
fn saved_account_is_listed_with_its_credentials() {
    let mut store = Store::new();
    add_owner(&mut store, "u1", "2024-01-01", vec![kv("cookie", "a=1"), kv("agent", "x")]);
    assert!(has_users(&store));
    let users = list_users(&store);
    assert_eq!(users.len(), 1);
    assert_eq!(users[0].id, "u1");
    assert_eq!(users[0].provider, "naver");
    assert_eq!(users[0].alias, "alias of u1");
    assert_eq!(users[0].curl, "curl");
    assert_eq!(users[0].created_at, "2024-01-01");
    assert_eq!(users[0].updated_at, "2024-01-01");
    assert_eq!(get_user_credentials(&store, "u1"), vec![kv("cookie", "a=1"), kv("agent", "x")]);
    assert_eq!(get_user_credentials(&store, "u2"), vec![]);
}

#[test]
fn a_key_given_twice_keeps_the_later_value() {
    let mut store = Store::new();
    add_owner(&mut store, "u1", "t", vec![kv("a", "1"), kv("b", "2"), kv("a", "3")]);
    assert_eq!(get_user_credentials(&store, "u1"), vec![kv("b", "2"), kv("a", "3")]);
}

#[test]
fn an_identifier_that_is_taken_is_refused() {
    let mut store = Store::new();
    add_owner(&mut store, "u1", "t1", vec![kv("a", "1")]);
    let again = save_account_at(
        &mut store,
        "u1".to_string(),
        "coupang".to_string(),
        "other".to_string(),
        "curl2".to_string(),
        vec![kv("b", "2")],
        "t2",
    );
    assert_eq!(again, Err(StoreError::Constraint(Rule::IdentifierTaken)));
    assert_eq!(list_users(&store).len(), 1);
    assert_eq!(list_users(&store)[0].provider, "naver");
    assert_eq!(get_user_credentials(&store, "u1"), vec![kv("a", "1")]);
}

#[test]
fn users_are_listed_newest_first() {
    let mut store = Store::new();
    add_owner(&mut store, "a", "2024-01-02", vec![]);
    add_owner(&mut store, "b", "2024-01-03", vec![]);
    add_owner(&mut store, "c", "2024-01-01", vec![]);
    let ids: Vec<String> = list_users(&store).into_iter().map(|u| u.id).collect();
    assert_eq!(ids, vec!["b", "a", "c"]);
}

#[test]
fn save_account_with_the_clock_hands_out_fresh_identifiers() {
    let mut store = Store::new();
    let one = save_account(&mut store, "naver".into(), "a".into(), "c".into(), vec![kv("k", "v")])
        .unwrap();
    let two = save_account(&mut store, "naver".into(), "b".into(), "c".into(), vec![]).unwrap();
    assert_ne!(one, two);
    assert_eq!(one.len(), 36);
    assert_eq!(list_users(&store).len(), 2);
    assert_eq!(get_user_credentials(&store, &one), vec![kv("k", "v")]);
}

#[test]
fn update_user_changes_the_alias_only() {
    let mut store = Store::new();
    add_owner(&mut store, "u1", "t1", vec![]);
    add_owner(&mut store, "u2", "t1", vec![]);
    let user = update_user_at(&mut store, "u2", "new name".to_string(), "t2").unwrap();
    assert_eq!(user.id, "u2");
    assert_eq!(user.alias, "new name");
    assert_eq!(user.curl, "curl");
    assert_eq!(user.created_at, "t1");
    assert_eq!(user.updated_at, "t2");
    let tables = snapshot(&store);
    assert_eq!(tables.users[0].alias, "alias of u1");
    assert_eq!(tables.users[0].updated_at, "t1");
    assert_eq!(tables.users[1].alias, "new name");
}

#[test]
fn update_of_a_missing_user_is_not_found() {
    let mut store = Store::new();
    add_owner(&mut store, "u1", "t1", vec![]);
    assert_eq!(update_user_at(&mut store, "u9", "x".to_string(), "t2"), Err(StoreError::NotFound));
    assert_eq!(update_user(&mut store, "u9", "x".to_string()), Err(StoreError::NotFound));
    assert_eq!(snapshot(&store).users[0].alias, "alias of u1");
    assert_eq!(update_user(&mut store, "u1", "y".to_string()).unwrap().alias, "y");
}

#[test]
fn credentials_are_replaced_as_a_whole() {
    let mut store = Store::new();
    add_owner(&mut store, "u1", "t1", vec![kv("a", "1"), kv("b", "2")]);
    add_owner(&mut store, "u2", "t1", vec![kv("a", "9")]);
    let r = update_account_credentials_at(
        &mut store,
        "u1",
        "curl2".to_string(),
        vec![kv("b", "20"), kv("c", "30")],
        "t2",
    );
    assert_eq!(r, Ok(()));
    assert_eq!(get_user_credentials(&store, "u1"), vec![kv("b", "20"), kv("c", "30")]);
    assert_eq!(get_user_credentials(&store, "u2"), vec![kv("a", "9")]);
    let tables = snapshot(&store);
    assert_eq!(tables.users[0].curl, "curl2");
    assert_eq!(tables.users[0].updated_at, "t2");
    assert_eq!(tables.users[1].curl, "curl");
    assert_eq!(tables.credentials.len(), 3);
    assert_eq!(update_account_credentials(&mut store, "u1", "c3".to_string(), vec![]), Ok(()));
    assert_eq!(get_user_credentials(&store, "u1"), vec![]);
}

#[test]
fn credentials_for_a_missing_owner_are_refused() {
    let mut store = Store::new();
    add_owner(&mut store, "u1", "t1", vec![kv("a", "1")]);
    let r = update_account_credentials_at(&mut store, "u9", "c".to_string(), vec![kv("a", "1")], "t");
    assert_eq!(r, Err(StoreError::Constraint(Rule::OwnerMissing)));
    let r = update_account_credentials_at(&mut store, "u9", "c".to_string(), vec![], "t");
    assert_eq!(r, Ok(()));
    assert_eq!(snapshot(&store).credentials.len(), 1);
    assert_eq!(snapshot(&store).users[0].curl, "curl");
}

#[test]
fn deleting_an_owner_removes_exactly_what_is_the_owners() {
    let mut store = Store::new();
    add_owner(&mut store, "u1", "t1", vec![kv("a", "1"), kv("b", "2")]);
    add_owner(&mut store, "u2", "t1", vec![kv("a", "9")]);
    save_naver_payment_at(&mut store, "u1", naver("pay-1", 2), "t").unwrap();
    save_naver_payment_at(&mut store, "u2", naver("pay-1", 3), "t").unwrap();
    save_naver_payment_at(&mut store, "u1", naver("pay-2", 1), "t").unwrap();
    save_coupang_payment_at(&mut store, "u1", coupang("o1", 2), "t").unwrap();
    save_coupang_payment_at(&mut store, "u2", coupang("o1", 1), "t").unwrap();
    let before = snapshot(&store);
    assert_eq!(before.naver_payments.len(), 3);
    assert_eq!(before.naver_items.len(), 6);
    delete_user(&mut store, "u1");
    let after = snapshot(&store);
    assert_eq!(after.users.len(), 1);
    assert_eq!(after.users[0], before.users[1]);
    assert_eq!(after.credentials, vec![before.credentials[2].clone()]);
    assert_eq!(after.naver_payments, vec![before.naver_payments[1].clone()]);
    assert_eq!(after.naver_items.len(), 3);
    assert!(after.naver_items.iter().all(|i| i.payment_id == 2));
    assert_eq!(after.naver_items, before.naver_items[2..5].to_vec());
    assert_eq!(after.coupang_payments, vec![before.coupang_payments[1].clone()]);
    assert_eq!(after.coupang_items, vec![before.coupang_items[2].clone()]);
    assert_eq!(after.naver_payment_seq, 3);
    assert_eq!(after.naver_item_seq, 6);
    delete_user(&mut store, "nobody");
    assert_eq!(snapshot(&store).users.len(), 1);
    save_naver_payment_at(&mut store, "u2", naver("pay-7", 1), "t").unwrap();
    assert_eq!(snapshot(&store).naver_payments[1].id, 4);
}

#[test]
fn save_account_into_a_store_without_owners_is_never_refused() {
    for round in 0..20 {
        let mut store = Store::new();
        let alias = format!("alias-{round}");
        let id = save_account(&mut store, "coupang".into(), alias.clone(), "curl".into(), vec![])
            .unwrap();
        let users = list_users(&store);
        assert_eq!(users.len(), 1);
        assert_eq!(users[0].id, id);
        assert_eq!(users[0].alias, alias);
    }
}
