use shop_ledger::accounts::save_account_at;
use shop_ledger::coupang::save_coupang_payment_at;
use shop_ledger::naver::save_naver_payment_at;
use shop_ledger::records::coupang::{CoupangHeader, CoupangPayment, CoupangPaymentItem};
use shop_ledger::records::naver::{NaverHeader, NaverPayment, NaverPaymentItem};
use shop_ledger::search::search_products;
use shop_ledger::store::Store;

fn naver(pay_id: &str, paid_at: &str, status: Option<&str>, names: &[&str]) -> NaverPayment {
    NaverPayment {
        header: NaverHeader {
            pay_id: pay_id.to_string(),
            external_id: None,
            service_type: None,
            status_code: status.map(|s| s.to_string()),
            status_text: None,
            status_color: None,
            paid_at: paid_at.to_string(),
            purchaser_name: None,
            merchant_no: None,
            merchant_name: format!("naver shop {}", pay_id),
            merchant_tel: None,
            merchant_url: None,
            merchant_image_url: None,
            merchant_payment_id: None,
            sub_merchant_name: None,
            sub_merchant_url: None,
            sub_merchant_payment_id: None,
            is_tax_type: None,
            is_oversea_transfer: None,
            product_name: None,
            product_count: None,
            product_detail_url: None,
            order_detail_url: None,
            total_amount: 1,
            discount_amount: None,
            cup_deposit_amount: None,
            rest_amount: None,
            pay_easycard_amount: None,
            pay_easybank_amount: None,
            pay_reward_point_amount: None,
            pay_charge_point_amount: None,
            pay_giftcard_amount: None,
            benefit_type: None,
            has_plus_membership: None,
            benefit_waiting_period: None,
            benefit_expected_amount: None,
            benefit_amount: None,
            is_membership: None,
            is_branch: None,
            is_last_subscription_round: None,
            is_cafe_safe_payment: None,
            merchant_country_code: None,
            merchant_country_name: None,
            application_completed: None,
        },
        items: names
            .iter()
            .enumerate()
            .map(|(n, name)| NaverPaymentItem {
                id: 0,
                line_no: n as i32 + 1,
                product_name: name.to_string(),
                image_url: Some("img".to_string()),
                info_url: None,
                quantity: 2,
                unit_price: Some(10),
                line_amount: Some(20),
                rest_amount: None,
                memo: None,
            })
            .collect(),
    }
}

fn coupang(order_id: &str, ordered_at: &str, status: Option<&str>, names: &[&str]) -> CoupangPayment {
    CoupangPayment {
        header: CoupangHeader {
            order_id: order_id.to_string(),
            external_id: None,
            status_code: status.map(|s| s.to_string()),
            status_text: None,
            status_color: None,
            ordered_at: ordered_at.to_string(),
            paid_at: Some("never shown".to_string()),
            merchant_name: format!("coupang shop {}", order_id),
            merchant_tel: None,
            merchant_url: None,
            merchant_image_url: None,
            product_name: None,
            product_count: None,
            product_detail_url: None,
            order_detail_url: None,
            total_amount: 1,
            total_order_amount: None,
            total_cancel_amount: None,
            discount_amount: None,
            rest_amount: None,
            main_pay_type: None,
            pay_rocket_balance_amount: None,
            pay_card_amount: None,
            pay_coupon_amount: None,
            pay_coupang_cash_amount: None,
            pay_rocket_bank_amount: None,
            wow_instant_discount: None,
            reward_cash_amount: None,
        },
        items: names
            .iter()
            .enumerate()
            .map(|(n, name)| CoupangPaymentItem {
                id: 0,
                line_no: n as i32 + 1,
                product_id: None,
                vendor_item_id: None,
                product_name: name.to_string(),
                image_url: None,
                info_url: None,
                brand_name: None,
                quantity: 1,
                unit_price: None,
                discounted_unit_price: None,
                combined_unit_price: None,
                line_amount: None,
                rest_amount: None,
                memo: None,
            })
            .collect(),
    }
}

fn filled() -> Store {
    let mut store = Store::new();
    save_account_at(&mut store, "u1".into(), "naver".into(), "a".into(), "c".into(), vec![], "t")
        .unwrap();
    let done = Some("DELIVERED");
    save_naver_payment_at(&mut store, "u1", naver("n1", "2024-01-05", done, &["Green Tea", "cup"]), "t")
        .unwrap();
    save_naver_payment_at(&mut store, "u1", naver("n2", "2024-03-05", done, &["black tea"]), "t")
        .unwrap();
    save_naver_payment_at(&mut store, "u1", naver("n3", "2024-09-05", None, &["white tea"]), "t")
        .unwrap();
    save_naver_payment_at(&mut store, "u1", naver("n4", "2024-08-05", Some("CANCEL"), &["tea"]), "t")
        .unwrap();
    save_coupang_payment_at(&mut store, "u1", coupang("c1", "2024-02-05", None, &["TEA pot"]), "t")
        .unwrap();
    save_coupang_payment_at(&mut store, "u1", coupang("c2", "2024-03-05", Some("ORDERED"), &["teapot"]), "t")
        .unwrap();
    save_coupang_payment_at(&mut store, "u1", coupang("c3", "2024-07-05", Some("CANCELED"), &["tea"]), "t")
        .unwrap();
    store
}

#[test]
fn search_finds_lines_of_both_providers_newest_first() {
    let store = filled();
    let found = search_products(&store, "tea", None);
    assert_eq!(found.total, 4);
    let names: Vec<&str> = found.items.iter().map(|i| i.product_name.as_str()).collect();
    assert_eq!(names, vec!["black tea", "teapot", "TEA pot", "Green Tea"]);
    let first = &found.items[0];
    assert_eq!(first.provider, "naver");
    assert_eq!(first.id, 3);
    assert_eq!(first.merchant_name, "naver shop n2");
    assert_eq!(first.paid_at, "2024-03-05");
    assert_eq!(first.quantity, 2);
    assert_eq!(first.unit_price, Some(10));
    assert_eq!(first.line_amount, Some(20));
    assert_eq!(first.image_url, Some("img".to_string()));
    let second = &found.items[1];
    assert_eq!(second.provider, "coupang");
    assert_eq!(second.id, 2);
    assert_eq!(second.merchant_name, "coupang shop c2");
    assert_eq!(second.paid_at, "2024-03-05");
    assert_eq!(second.quantity, 1);
}

#[test]
fn search_keeps_at_most_the_limit_and_counts_what_was_found() {
    let store = filled();
    let found = search_products(&store, "tea", Some(1));
    assert_eq!(found.total, 2);
    assert_eq!(found.items.len(), 1);
    assert_eq!(found.items[0].product_name, "black tea");
    let found = search_products(&store, "tea", Some(3));
    assert_eq!(found.total, 4);
    assert_eq!(found.items.len(), 3);
    let found = search_products(&store, "tea", Some(0));
    assert_eq!(found.total, 0);
    assert_eq!(found.items.len(), 0);
    let found = search_products(&store, "tea", Some(-1));
    assert_eq!(found.total, 4);
    assert_eq!(found.items.len(), 4);
}

#[test]
fn search_reads_the_query_as_a_pattern() {
    let store = filled();
    assert_eq!(search_products(&store, "cup", None).total, 1);
    assert_eq!(search_products(&store, "tea_pot", None).total, 1);
    assert_eq!(search_products(&store, "t%t", None).total, 2);
    assert_eq!(search_products(&store, "", None).total, 5);
    assert_eq!(search_products(&store, "coffee", None).total, 0);
    assert_eq!(search_products(&Store::new(), "tea", None).total, 0);
}
