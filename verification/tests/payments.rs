use shop_ledger::accounts::save_account_at;
use shop_ledger::coupang::{
    get_last_coupang_payment, list_coupang_payments, save_coupang_payment, save_coupang_payment_at,
};
use shop_ledger::error::{Rule, StoreError};
use shop_ledger::naver::{
    get_last_naver_payment, list_naver_payments, save_naver_payment, save_naver_payment_at,
};
use shop_ledger::records::coupang::{CoupangHeader, CoupangPayment, CoupangPaymentItem};
use shop_ledger::records::naver::{NaverHeader, NaverPayment, NaverPaymentItem};
use shop_ledger::snapshot::{restore, snapshot};
use shop_ledger::store::Store;

fn header(pay_id: &str, paid_at: &str, merchant: &str, total: i64) -> NaverHeader {
    NaverHeader {
        pay_id: pay_id.to_string(),
        external_id: None,
        service_type: None,
        status_code: Some("PAYMENT_COMPLETED".to_string()),
        status_text: None,
        status_color: None,
        paid_at: paid_at.to_string(),
        purchaser_name: None,
        merchant_no: None,
        merchant_name: merchant.to_string(),
        merchant_tel: None,
        merchant_url: None,
        merchant_image_url: None,
        merchant_payment_id: None,
        sub_merchant_name: None,
        sub_merchant_url: None,
        sub_merchant_payment_id: None,
        is_tax_type: None,
        is_oversea_transfer: None,
        product_name: None,
        product_count: None,
        product_detail_url: None,
        order_detail_url: None,
        total_amount: total,
        discount_amount: None,
        cup_deposit_amount: None,
        rest_amount: None,
        pay_easycard_amount: None,
        pay_easybank_amount: None,
        pay_reward_point_amount: None,
        pay_charge_point_amount: None,
        pay_giftcard_amount: None,
        benefit_type: None,
        has_plus_membership: None,
        benefit_waiting_period: None,
        benefit_expected_amount: None,
        benefit_amount: None,
        is_membership: None,
        is_branch: None,
        is_last_subscription_round: None,
        is_cafe_safe_payment: None,
        merchant_country_code: None,
        merchant_country_name: None,
        application_completed: None,
    }
}

fn line(line_no: i32, name: &str, quantity: i32) -> NaverPaymentItem {
    NaverPaymentItem {
        id: 0,
        line_no,
        product_name: name.to_string(),
        image_url: None,
        info_url: None,
        quantity,
        unit_price: Some(1000),
        line_amount: Some(1000 * quantity as i64),
        rest_amount: None,
        memo: None,
    }
}

fn order(order_id: &str, ordered_at: &str, merchant: &str, total: i64) -> CoupangHeader {
    CoupangHeader {
        order_id: order_id.to_string(),
        external_id: None,
        status_code: None,
        status_text: None,
        status_color: None,
        ordered_at: ordered_at.to_string(),
        paid_at: None,
        merchant_name: merchant.to_string(),
        merchant_tel: None,
        merchant_url: None,
        merchant_image_url: None,
        product_name: None,
        product_count: None,
        product_detail_url: None,
        order_detail_url: None,
        total_amount: total,
        total_order_amount: None,
        total_cancel_amount: None,
        discount_amount: None,
        rest_amount: None,
        main_pay_type: None,
        pay_rocket_balance_amount: None,
        pay_card_amount: None,
        pay_coupon_amount: None,
        pay_coupang_cash_amount: None,
        pay_rocket_bank_amount: None,
        wow_instant_discount: None,
        reward_cash_amount: None,
    }
}

fn order_line(line_no: i32, name: &str) -> CoupangPaymentItem {
    CoupangPaymentItem {
        id: 77,
        line_no,
        product_id: None,
        vendor_item_id: None,
        product_name: name.to_string(),
        image_url: None,
        info_url: None,
        brand_name: None,
        quantity: 1,
        unit_price: None,
        discounted_unit_price: None,
        combined_unit_price: None,
        line_amount: None,
        rest_amount: None,
        memo: None,
    }
}

fn store_with_owners(ids: &[&str]) -> Store {
    let mut store = Store::new();
    for id in ids {
        save_account_at(
            &mut store,
            id.to_string(),
            "naver".to_string(),
            "me".to_string(),
            "curl".to_string(),
            vec![],
            "2024-01-01T00:00:00+00:00",
        )
        .unwrap();
    }
    store
}

#[test]
fn sync_twice_keeps_one_header_and_its_lines() {
    let mut store = store_with_owners(&["u1"]);
    let payment = || NaverPayment {
        header: header("pay-1", "2024-02-01", "shop", 3000),
        items: vec![line(1, "tea", 1), line(2, "cup", 2)],
    };
    assert_eq!(save_naver_payment_at(&mut store, "u1", payment(), "t1"), Ok(()));
    let once = snapshot(&store);
    assert_eq!(once.naver_payments.len(), 1);
    assert_eq!(once.naver_items.len(), 2);
    assert_eq!(save_naver_payment_at(&mut store, "u1", payment(), "t2"), Ok(()));
    let twice = snapshot(&store);
    assert_eq!(twice.naver_payments.len(), 1);
    assert_eq!(twice.naver_items.len(), 2);
    assert_eq!(twice.naver_payment_seq, 1);
    assert_eq!(twice.naver_item_seq, 2);
    assert_eq!(twice.naver_payments[0].created_at, "t1");
    assert_eq!(twice.naver_payments[0].updated_at, "t2");
    assert_eq!(twice.naver_items[1].created_at, "t1");
    assert_eq!(twice.naver_items[1].updated_at, "t2");
    let listed = list_naver_payments(&store, "u1", None, None);
    assert_eq!(listed.len(), 1);
    assert_eq!(listed[0].id, 1);
    assert_eq!(listed[0].items.len(), 2);
    assert_eq!(listed[0].items[0].id, 1);
    assert_eq!(listed[0].items[1].id, 2);
    assert_eq!(listed[0].items[1].product_name, "cup");
}

#[test]
fn sync_at_the_same_time_twice_changes_nothing_the_second_time() {
    let mut store = store_with_owners(&["u1"]);
    let payment = || NaverPayment {
        header: header("pay-1", "2024-02-01", "shop", 3000),
        items: vec![line(1, "tea", 1), line(2, "cup", 2)],
    };
    save_naver_payment_at(&mut store, "u1", payment(), "t1").unwrap();
    let once = snapshot(&store);
    save_naver_payment_at(&mut store, "u1", payment(), "t1").unwrap();
    let twice = snapshot(&store);
    assert_eq!(once.naver_payments, twice.naver_payments);
    assert_eq!(once.naver_items, twice.naver_items);
}

#[test]
fn sync_for_unknown_owner_is_refused() {
    let mut store = Store::new();
    let payment = NaverPayment { header: header("pay-1", "2024-02-01", "shop", 1), items: vec![] };
    assert_eq!(
        save_naver_payment_at(&mut store, "nobody", payment, "t1"),
        Err(StoreError::Constraint(Rule::OwnerMissing))
    );
    assert_eq!(snapshot(&store).naver_payments.len(), 0);
}

#[test]
fn same_external_id_under_two_owners_makes_two_rows() {
    let mut store = store_with_owners(&["u1", "u2"]);
    let payment = |total| NaverPayment {
        header: header("pay-1", "2024-02-01", "shop", total),
        items: vec![line(1, "tea", 1)],
    };
    save_naver_payment_at(&mut store, "u1", payment(10), "t1").unwrap();
    save_naver_payment_at(&mut store, "u2", payment(20), "t2").unwrap();
    let tables = snapshot(&store);
    assert_eq!(tables.naver_payments.len(), 2);
    assert_eq!(tables.naver_payments[0].user_id, "u1");
    assert_eq!(tables.naver_payments[0].id, 1);
    assert_eq!(tables.naver_payments[0].header.total_amount, 10);
    assert_eq!(tables.naver_payments[0].updated_at, "t1");
    assert_eq!(tables.naver_payments[1].user_id, "u2");
    assert_eq!(tables.naver_payments[1].id, 2);
    assert_eq!(tables.naver_items.len(), 2);
    assert_eq!(tables.naver_items[0].payment_id, 1);
    assert_eq!(tables.naver_items[1].payment_id, 2);
    assert_eq!(list_naver_payments(&store, "u1", None, None).len(), 1);
    assert_eq!(list_naver_payments(&store, "u2", None, None)[0].total_amount, 20);
}

#[test]
fn repeated_header_overwrites_status_merchant_name_and_amounts_only() {
    let mut store = store_with_owners(&["u1"]);
    let mut first = header("pay-1", "2024-02-01", "shop", 100);
    first.external_id = Some("x1".to_string());
    first.service_type = Some("ORDER".to_string());
    first.purchaser_name = Some("kim".to_string());
    first.merchant_tel = Some("010".to_string());
    first.product_name = Some("tea".to_string());
    first.product_count = Some(1);
    first.benefit_type = Some("point".to_string());
    first.benefit_waiting_period = Some(7);
    first.merchant_country_code = Some("KR".to_string());
    first.is_membership = Some(true);
    first.discount_amount = Some(5);
    first.rest_amount = Some(6);
    first.benefit_amount = Some(7);
    first.status_text = Some("paid".to_string());
    save_naver_payment_at(&mut store, "u1", NaverPayment { header: first, items: vec![] }, "t1")
        .unwrap();
    let mut second = header("pay-1", "2025-01-01", "market", 900);
    second.external_id = Some("x2".to_string());
    second.service_type = Some("BOOKING".to_string());
    second.purchaser_name = Some("lee".to_string());
    second.merchant_tel = Some("011".to_string());
    second.product_name = Some("cup".to_string());
    second.product_count = Some(2);
    second.benefit_type = None;
    second.benefit_waiting_period = Some(9);
    second.merchant_country_code = Some("US".to_string());
    second.is_membership = Some(false);
    second.status_code = Some("DELIVERED".to_string());
    second.status_text = Some("done".to_string());
    second.status_color = Some("red".to_string());
    second.discount_amount = Some(50);
    second.cup_deposit_amount = Some(51);
    second.rest_amount = None;
    second.pay_easycard_amount = Some(52);
    second.pay_easybank_amount = Some(53);
    second.pay_reward_point_amount = Some(54);
    second.pay_charge_point_amount = Some(55);
    second.pay_giftcard_amount = Some(56);
    second.benefit_expected_amount = Some(57);
    second.benefit_amount = Some(58);
    save_naver_payment_at(&mut store, "u1", NaverPayment { header: second, items: vec![] }, "t2")
        .unwrap();
    let row = &snapshot(&store).naver_payments[0];
    assert_eq!(row.id, 1);
    assert_eq!(row.header.status_code, Some("DELIVERED".to_string()));
    assert_eq!(row.header.status_text, Some("done".to_string()));
    assert_eq!(row.header.status_color, Some("red".to_string()));
    assert_eq!(row.header.merchant_name, "market");
    assert_eq!(row.header.total_amount, 900);
    assert_eq!(row.header.discount_amount, Some(50));
    assert_eq!(row.header.cup_deposit_amount, Some(51));
    assert_eq!(row.header.rest_amount, None);
    assert_eq!(row.header.pay_easycard_amount, Some(52));
    assert_eq!(row.header.pay_easybank_amount, Some(53));
    assert_eq!(row.header.pay_reward_point_amount, Some(54));
    assert_eq!(row.header.pay_charge_point_amount, Some(55));
    assert_eq!(row.header.pay_giftcard_amount, Some(56));
    assert_eq!(row.header.benefit_expected_amount, Some(57));
    assert_eq!(row.header.benefit_amount, Some(58));
    assert_eq!(row.header.external_id, Some("x1".to_string()));
    assert_eq!(row.header.service_type, Some("ORDER".to_string()));
    assert_eq!(row.header.paid_at, "2024-02-01");
    assert_eq!(row.header.purchaser_name, Some("kim".to_string()));
    assert_eq!(row.header.merchant_tel, Some("010".to_string()));
    assert_eq!(row.header.product_name, Some("tea".to_string()));
    assert_eq!(row.header.product_count, Some(1));
    assert_eq!(row.header.benefit_type, Some("point".to_string()));
    assert_eq!(row.header.benefit_waiting_period, Some(7));
    assert_eq!(row.header.merchant_country_code, Some("KR".to_string()));
    assert_eq!(row.header.is_membership, Some(true));
    assert_eq!(row.created_at, "t1");
    assert_eq!(row.updated_at, "t2");
}

#[test]
fn repeated_line_is_overwritten_in_full_and_old_lines_stay() {
    let mut store = store_with_owners(&["u1"]);
    let mut old = line(1, "tea", 1);
    old.memo = Some("gift".to_string());
    old.rest_amount = Some(3);
    save_naver_payment_at(
        &mut store,
        "u1",
        NaverPayment { header: header("pay-1", "d", "shop", 1), items: vec![old, line(2, "cup", 1)] },
        "t1",
    )
    .unwrap();
    save_naver_payment_at(
        &mut store,
        "u1",
        NaverPayment { header: header("pay-1", "d", "shop", 1), items: vec![line(1, "green tea", 4)] },
        "t2",
    )
    .unwrap();
    let tables = snapshot(&store);
    assert_eq!(tables.naver_items.len(), 2);
    assert_eq!(tables.naver_items[0].item.id, 1);
    assert_eq!(tables.naver_items[0].item.product_name, "green tea");
    assert_eq!(tables.naver_items[0].item.quantity, 4);
    assert_eq!(tables.naver_items[0].item.memo, None);
    assert_eq!(tables.naver_items[0].item.rest_amount, None);
    assert_eq!(tables.naver_items[0].created_at, "t1");
    assert_eq!(tables.naver_items[0].updated_at, "t2");
    assert_eq!(tables.naver_items[1].item.product_name, "cup");
    assert_eq!(tables.naver_items[1].updated_at, "t1");
}

#[test]
fn a_line_number_that_comes_twice_keeps_the_later_line() {
    let mut store = store_with_owners(&["u1"]);
    save_naver_payment_at(
        &mut store,
        "u1",
        NaverPayment {
            header: header("pay-1", "d", "shop", 1),
            items: vec![line(1, "tea", 1), line(1, "cup", 2)],
        },
        "t1",
    )
    .unwrap();
    let tables = snapshot(&store);
    assert_eq!(tables.naver_items.len(), 1);
    assert_eq!(tables.naver_items[0].item.product_name, "cup");
    assert_eq!(tables.naver_item_seq, 1);
}

#[test]
fn listing_shows_completed_payments_newest_first_in_pages() {
    let mut store = store_with_owners(&["u1"]);
    let mut add = |pay_id: &str, paid_at: &str, status: Option<&str>, service: Option<&str>| {
        let mut h = header(pay_id, paid_at, "shop", 1);
        h.status_code = status.map(|s| s.to_string());
        h.service_type = service.map(|s| s.to_string());
        save_naver_payment_at(&mut store, "u1", NaverPayment { header: h, items: vec![] }, "t")
            .unwrap();
    };
    add("a", "2024-01-01", Some("PURCHASE_CONFIRMED"), None);
    add("b", "2024-03-01", Some("PAYMENT_COMPLETED"), Some("ORDER"));
    add("c", "2024-02-01", Some("DELIVERED"), None);
    add("d", "2024-04-01", Some("PURCHASE_CONFIRM_EXTENDED"), None);
    add("e", "2024-05-01", Some("CANCELLED"), None);
    add("f", "2024-06-01", None, None);
    add("g", "2024-07-01", Some("DELIVERED"), Some("BOOKING"));
    add("h", "2024-08-01", Some("DELIVERED"), Some("CONTENTS"));
    let ids = |limit, offset| -> Vec<String> {
        list_naver_payments(&store, "u1", limit, offset).into_iter().map(|p| p.pay_id).collect()
    };
    assert_eq!(ids(None, None), vec!["d", "b", "c", "a"]);
    assert_eq!(ids(Some(2), None), vec!["d", "b"]);
    assert_eq!(ids(Some(2), Some(1)), vec!["b", "c"]);
    assert_eq!(ids(Some(10), Some(3)), vec!["a"]);
    assert_eq!(ids(Some(10), Some(9)), Vec::<String>::new());
    assert_eq!(ids(Some(-1), Some(-5)), vec!["d", "b", "c", "a"]);
    assert_eq!(ids(Some(0), None), Vec::<String>::new());
    assert_eq!(list_naver_payments(&store, "u2", None, None).len(), 0);
}

#[test]
fn listing_keeps_payments_of_one_time_in_the_order_they_came() {
    let mut store = store_with_owners(&["u1"]);
    for id in ["x", "y", "z"] {
        save_naver_payment_at(
            &mut store,
            "u1",
            NaverPayment { header: header(id, "2024-01-01", "shop", 1), items: vec![] },
            "t",
        )
        .unwrap();
    }
    let ids: Vec<String> =
        list_naver_payments(&store, "u1", None, None).into_iter().map(|p| p.pay_id).collect();
    assert_eq!(ids, vec!["x", "y", "z"]);
}

#[test]
fn listing_returns_lines_by_line_number() {
    let mut store = store_with_owners(&["u1"]);
    save_naver_payment_at(
        &mut store,
        "u1",
        NaverPayment {
            header: header("pay-1", "d", "shop", 1),
            items: vec![line(3, "c", 1), line(1, "a", 1), line(2, "b", 1)],
        },
        "t1",
    )
    .unwrap();
    let listed = list_naver_payments(&store, "u1", None, None);
    let names: Vec<&str> = listed[0].items.iter().map(|i| i.product_name.as_str()).collect();
    assert_eq!(names, vec!["a", "b", "c"]);
    let ids: Vec<i64> = listed[0].items.iter().map(|i| i.id).collect();
    assert_eq!(ids, vec![2, 3, 1]);
}

#[test]
fn latest_payment_is_the_one_paid_last() {
    let mut store = store_with_owners(&["u1"]);
    assert_eq!(get_last_naver_payment(&store, "u1"), None);
    for (id, at) in [("a", "2024-01-01"), ("b", "2024-03-01"), ("c", "2024-02-01")] {
        let mut h = header(id, at, "shop", 1);
        h.status_code = None;
        save_naver_payment_at(&mut store, "u1", NaverPayment { header: h, items: vec![] }, "t")
            .unwrap();
    }
    let last = get_last_naver_payment(&store, "u1").unwrap();
    assert_eq!(last.pay_id, "b");
    assert_eq!(last.paid_at, "2024-03-01");
    assert_eq!(get_last_naver_payment(&store, "u2"), None);
}

#[test]
fn sync_with_the_clock_stores_the_payment() {
    let mut store = store_with_owners(&["u1"]);
    let payment = NaverPayment {
        header: header("pay-1", "2024-02-01", "shop", 3000),
        items: vec![line(1, "tea", 1)],
    };
    assert_eq!(save_naver_payment(&mut store, "u1", payment), Ok(()));
    let tables = snapshot(&store);
    assert_eq!(tables.naver_payments.len(), 1);
    assert!(tables.naver_payments[0].created_at.len() >= 20);
    assert_eq!(tables.naver_payments[0].created_at, tables.naver_payments[0].updated_at);
    let order = CoupangPayment { header: order("o1", "2024-02-01", "shop", 1), items: vec![] };
    assert_eq!(save_coupang_payment(&mut store, "u1", order), Ok(()));
    assert_eq!(snapshot(&store).coupang_payments.len(), 1);
}

#[test]
fn coupang_sync_twice_keeps_one_header_and_its_lines() {
    let mut store = store_with_owners(&["u1"]);
    let payment = || CoupangPayment {
        header: order("o1", "2024-02-01", "shop", 3000),
        items: vec![order_line(1, "tea"), order_line(2, "cup")],
    };
    assert_eq!(save_coupang_payment_at(&mut store, "u1", payment(), "t1"), Ok(()));
    assert_eq!(save_coupang_payment_at(&mut store, "u1", payment(), "t2"), Ok(()));
    let tables = snapshot(&store);
    assert_eq!(tables.coupang_payments.len(), 1);
    assert_eq!(tables.coupang_items.len(), 2);
    assert_eq!(tables.coupang_items[0].item.id, 1);
    assert_eq!(tables.coupang_items[1].item.id, 2);
    assert_eq!(tables.coupang_payments[0].created_at, "t1");
    assert_eq!(tables.coupang_payments[0].updated_at, "t2");
}

#[test]
fn coupang_repeated_header_overwrites_status_merchant_name_and_amounts_only() {
    let mut store = store_with_owners(&["u1"]);
    let mut first = order("o1", "2024-02-01", "shop", 100);
    first.external_id = Some("x1".to_string());
    first.paid_at = Some("2024-02-02".to_string());
    first.merchant_tel = Some("010".to_string());
    first.merchant_url = Some("http://a".to_string());
    first.product_name = Some("tea".to_string());
    first.product_detail_url = Some("http://a/p".to_string());
    first.main_pay_type = Some("CARD".to_string());
    first.pay_card_amount = Some(100);
    save_coupang_payment_at(&mut store, "u1", CoupangPayment { header: first, items: vec![] }, "t1")
        .unwrap();
    let mut second = order("o1", "2024-02-03", "market", 900);
    second.external_id = Some("x2".to_string());
    second.paid_at = None;
    second.merchant_tel = Some("011".to_string());
    second.merchant_url = None;
    second.product_name = Some("cup".to_string());
    second.product_detail_url = Some("http://b/p".to_string());
    second.main_pay_type = Some("CASH".to_string());
    second.status_code = Some("RECEIPTED".to_string());
    second.status_text = Some("got".to_string());
    second.status_color = Some("blue".to_string());
    second.total_order_amount = Some(901);
    second.total_cancel_amount = Some(902);
    second.discount_amount = Some(903);
    second.rest_amount = Some(904);
    second.pay_rocket_balance_amount = Some(905);
    second.pay_card_amount = None;
    second.pay_coupon_amount = Some(906);
    second.pay_coupang_cash_amount = Some(907);
    second.pay_rocket_bank_amount = Some(908);
    second.wow_instant_discount = Some(909);
    second.reward_cash_amount = Some(910);
    save_coupang_payment_at(
        &mut store,
        "u1",
        CoupangPayment { header: second, items: vec![] },
        "t2",
    )
    .unwrap();
    let row = &snapshot(&store).coupang_payments[0];
    assert_eq!(row.id, 1);
    assert_eq!(row.header.status_code, Some("RECEIPTED".to_string()));
    assert_eq!(row.header.status_text, Some("got".to_string()));
    assert_eq!(row.header.status_color, Some("blue".to_string()));
    assert_eq!(row.header.merchant_name, "market");
    assert_eq!(row.header.total_amount, 900);
    assert_eq!(row.header.total_order_amount, Some(901));
    assert_eq!(row.header.total_cancel_amount, Some(902));
    assert_eq!(row.header.discount_amount, Some(903));
    assert_eq!(row.header.rest_amount, Some(904));
    assert_eq!(row.header.pay_rocket_balance_amount, Some(905));
    assert_eq!(row.header.pay_card_amount, None);
    assert_eq!(row.header.pay_coupon_amount, Some(906));
    assert_eq!(row.header.pay_coupang_cash_amount, Some(907));
    assert_eq!(row.header.pay_rocket_bank_amount, Some(908));
    assert_eq!(row.header.wow_instant_discount, Some(909));
    assert_eq!(row.header.reward_cash_amount, Some(910));
    assert_eq!(row.header.external_id, Some("x1".to_string()));
    assert_eq!(row.header.ordered_at, "2024-02-01");
    assert_eq!(row.header.paid_at, Some("2024-02-02".to_string()));
    assert_eq!(row.header.merchant_tel, Some("010".to_string()));
    assert_eq!(row.header.merchant_url, Some("http://a".to_string()));
    assert_eq!(row.header.product_name, Some("tea".to_string()));
    assert_eq!(row.header.product_detail_url, Some("http://a/p".to_string()));
    assert_eq!(row.header.main_pay_type, Some("CARD".to_string()));
    assert_eq!(row.created_at, "t1");
    assert_eq!(row.updated_at, "t2");
}

#[test]
fn coupang_listing_leaves_out_cancelled_orders() {
    let mut store = store_with_owners(&["u1"]);
    for (id, at, status) in [
        ("a", "2024-01-01", None),
        ("b", "2024-03-01", Some("CANCELED")),
        ("c", "2024-02-01", Some("ORDERED")),
    ] {
        let mut h = order(id, at, "shop", 1);
        h.status_code = status.map(|s: &str| s.to_string());
        save_coupang_payment_at(&mut store, "u1", CoupangPayment { header: h, items: vec![] }, "t")
            .unwrap();
    }
    let ids: Vec<String> =
        list_coupang_payments(&store, "u1", None, None).into_iter().map(|p| p.order_id).collect();
    assert_eq!(ids, vec!["c", "a"]);
    let last = get_last_coupang_payment(&store, "u1").unwrap();
    assert_eq!(last.order_id, "b");
    assert_eq!(last.ordered_at, "2024-03-01");
}

#[test]
fn a_sync_that_needs_no_identifier_is_accepted_when_none_is_left() {
    let mut store = store_with_owners(&["u1"]);
    let payment = |names: &[&str]| NaverPayment {
        header: header("pay-1", "2024-02-01", "shop", 3000),
        items: names.iter().enumerate().map(|(i, n)| line(i as i32 + 1, n, 1)).collect(),
    };
    save_naver_payment_at(&mut store, "u1", payment(&["tea", "cup"]), "t1").unwrap();
    let mut tables = snapshot(&store);
    tables.naver_payment_seq = i64::MAX;
    tables.naver_item_seq = i64::MAX;
    let mut store = restore(tables).unwrap();
    assert_eq!(save_naver_payment_at(&mut store, "u1", payment(&["tea", "mug"]), "t2"), Ok(()));
    let after = snapshot(&store);
    assert_eq!(after.naver_payments.len(), 1);
    assert_eq!(after.naver_items.len(), 2);
    assert_eq!(after.naver_items[1].item.product_name, "mug");
    assert_eq!(after.naver_item_seq, i64::MAX);
    assert_eq!(
        save_naver_payment_at(&mut store, "u1", payment(&["tea", "mug", "pot"]), "t3"),
        Err(StoreError::Constraint(Rule::NoIdentifierLeft))
    );
    let kept = snapshot(&store);
    assert_eq!(kept.naver_payments, after.naver_payments);
    assert_eq!(kept.naver_items, after.naver_items);
    let other = NaverPayment { header: header("pay-2", "2024-02-01", "shop", 1), items: vec![] };
    assert_eq!(save_naver_payment_at(&mut store, "u1", other, "t3"), Err(StoreError::Constraint(Rule::NoIdentifierLeft)));
    assert_eq!(snapshot(&store).naver_payments, after.naver_payments);
}

#[test]
fn coupang_sync_that_needs_no_identifier_is_accepted_when_none_is_left() {
    let mut store = store_with_owners(&["u1"]);
    let payment = |names: &[&str]| CoupangPayment {
        header: order("o1", "2024-02-01", "shop", 3000),
        items: names.iter().enumerate().map(|(i, n)| order_line(i as i32 + 1, n)).collect(),
    };
    save_coupang_payment_at(&mut store, "u1", payment(&["tea"]), "t1").unwrap();
    let mut tables = snapshot(&store);
    tables.coupang_payment_seq = i64::MAX;
    tables.coupang_item_seq = i64::MAX - 1;
    let mut store = restore(tables).unwrap();
    assert_eq!(save_coupang_payment_at(&mut store, "u1", payment(&["tea", "cup"]), "t2"), Ok(()));
    assert_eq!(snapshot(&store).coupang_items[1].item.id, i64::MAX);
    assert_eq!(
        save_coupang_payment_at(&mut store, "u1", payment(&["a", "b", "c"]), "t3"),
        Err(StoreError::Constraint(Rule::NoIdentifierLeft))
    );
    let after = snapshot(&store);
    assert_eq!(after.coupang_items.len(), 2);
    assert_eq!(after.coupang_items[0].item.product_name, "tea");
    assert_eq!(after.coupang_items[0].updated_at, "t2");
}
