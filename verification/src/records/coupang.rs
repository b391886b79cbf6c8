//! Orders of the second provider: what is handed in, what is stored, and
//! what listings return.

use crate::rows::{clone_all, clone_text};
use vstd::prelude::*;

verus! {

/// The header of an order of the second provider, as the provider reports it.
#[derive(Debug, PartialEq, Eq)]
pub struct CoupangHeader {
    /// The provider's identifier of the order, unique per owner.
    pub order_id: String,
    pub external_id: Option<String>,
    pub status_code: Option<String>,
    pub status_text: Option<String>,
    pub status_color: Option<String>,
    pub ordered_at: String,
    pub paid_at: Option<String>,
    pub merchant_name: String,
    pub merchant_tel: Option<String>,
    pub merchant_url: Option<String>,
    pub merchant_image_url: Option<String>,
    pub product_name: Option<String>,
    pub product_count: Option<i32>,
    pub product_detail_url: Option<String>,
    pub order_detail_url: Option<String>,
    pub total_amount: i64,
    pub total_order_amount: Option<i64>,
    pub total_cancel_amount: Option<i64>,
    pub discount_amount: Option<i64>,
    pub rest_amount: Option<i64>,
    pub main_pay_type: Option<String>,
    pub pay_rocket_balance_amount: Option<i64>,
    pub pay_card_amount: Option<i64>,
    pub pay_coupon_amount: Option<i64>,
    pub pay_coupang_cash_amount: Option<i64>,
    pub pay_rocket_bank_amount: Option<i64>,
    pub wow_instant_discount: Option<i64>,
    pub reward_cash_amount: Option<i64>,
}

/// What a [`CoupangHeader`] holds, as plain values.
pub struct CoupangHeaderView {
    pub order_id: Seq<char>,
    pub external_id: Option<Seq<char>>,
    pub status_code: Option<Seq<char>>,
    pub status_text: Option<Seq<char>>,
    pub status_color: Option<Seq<char>>,
    pub ordered_at: Seq<char>,
    pub paid_at: Option<Seq<char>>,
    pub merchant_name: Seq<char>,
    pub merchant_tel: Option<Seq<char>>,
    pub merchant_url: Option<Seq<char>>,
    pub merchant_image_url: Option<Seq<char>>,
    pub product_name: Option<Seq<char>>,
    pub product_count: Option<i32>,
    pub product_detail_url: Option<Seq<char>>,
    pub order_detail_url: Option<Seq<char>>,
    pub total_amount: i64,
    pub total_order_amount: Option<i64>,
    pub total_cancel_amount: Option<i64>,
    pub discount_amount: Option<i64>,
    pub rest_amount: Option<i64>,
    pub main_pay_type: Option<Seq<char>>,
    pub pay_rocket_balance_amount: Option<i64>,
    pub pay_card_amount: Option<i64>,
    pub pay_coupon_amount: Option<i64>,
    pub pay_coupang_cash_amount: Option<i64>,
    pub pay_rocket_bank_amount: Option<i64>,
    pub wow_instant_discount: Option<i64>,
    pub reward_cash_amount: Option<i64>,
}

impl View for CoupangHeader {
    type V = CoupangHeaderView;

    open spec fn view(&self) -> CoupangHeaderView {
        CoupangHeaderView {
            order_id: self.order_id@,
            external_id: self.external_id.deep_view(),
            status_code: self.status_code.deep_view(),
            status_text: self.status_text.deep_view(),
            status_color: self.status_color.deep_view(),
            ordered_at: self.ordered_at@,
            paid_at: self.paid_at.deep_view(),
            merchant_name: self.merchant_name@,
            merchant_tel: self.merchant_tel.deep_view(),
            merchant_url: self.merchant_url.deep_view(),
            merchant_image_url: self.merchant_image_url.deep_view(),
            product_name: self.product_name.deep_view(),
            product_count: self.product_count,
            product_detail_url: self.product_detail_url.deep_view(),
            order_detail_url: self.order_detail_url.deep_view(),
            total_amount: self.total_amount,
            total_order_amount: self.total_order_amount,
            total_cancel_amount: self.total_cancel_amount,
            discount_amount: self.discount_amount,
            rest_amount: self.rest_amount,
            main_pay_type: self.main_pay_type.deep_view(),
            pay_rocket_balance_amount: self.pay_rocket_balance_amount,
            pay_card_amount: self.pay_card_amount,
            pay_coupon_amount: self.pay_coupon_amount,
            pay_coupang_cash_amount: self.pay_coupang_cash_amount,
            pay_rocket_bank_amount: self.pay_rocket_bank_amount,
            wow_instant_discount: self.wow_instant_discount,
            reward_cash_amount: self.reward_cash_amount,
        }
    }
}

impl DeepView for CoupangHeader {
    type V = CoupangHeaderView;

    open spec fn deep_view(&self) -> CoupangHeaderView {
        self@
    }
}

impl Clone for CoupangHeader {
    fn clone(&self) -> (r: Self)
        ensures
            r@ == self@,
    {
        CoupangHeader {
            order_id: self.order_id.clone(),
            external_id: clone_text(&self.external_id),
            status_code: clone_text(&self.status_code),
            status_text: clone_text(&self.status_text),
            status_color: clone_text(&self.status_color),
            ordered_at: self.ordered_at.clone(),
            paid_at: clone_text(&self.paid_at),
            merchant_name: self.merchant_name.clone(),
            merchant_tel: clone_text(&self.merchant_tel),
            merchant_url: clone_text(&self.merchant_url),
            merchant_image_url: clone_text(&self.merchant_image_url),
            product_name: clone_text(&self.product_name),
            product_count: self.product_count,
            product_detail_url: clone_text(&self.product_detail_url),
            order_detail_url: clone_text(&self.order_detail_url),
            total_amount: self.total_amount,
            total_order_amount: self.total_order_amount,
            total_cancel_amount: self.total_cancel_amount,
            discount_amount: self.discount_amount,
            rest_amount: self.rest_amount,
            main_pay_type: clone_text(&self.main_pay_type),
            pay_rocket_balance_amount: self.pay_rocket_balance_amount,
            pay_card_amount: self.pay_card_amount,
            pay_coupon_amount: self.pay_coupon_amount,
            pay_coupang_cash_amount: self.pay_coupang_cash_amount,
            pay_rocket_bank_amount: self.pay_rocket_bank_amount,
            wow_instant_discount: self.wow_instant_discount,
            reward_cash_amount: self.reward_cash_amount,
        }
    }
}

/// One line of an order of the second provider.
#[derive(Debug, PartialEq, Eq)]
pub struct CoupangPaymentItem {
    /// The line's own identifier in the store; ignored when handed in.
    pub id: i64,
    /// The line's number within its order.
    pub line_no: i32,
    pub product_id: Option<String>,
    pub vendor_item_id: Option<String>,
    pub product_name: String,
    pub image_url: Option<String>,
    pub info_url: Option<String>,
    pub brand_name: Option<String>,
    pub quantity: i32,
    pub unit_price: Option<i64>,
    pub discounted_unit_price: Option<i64>,
    pub combined_unit_price: Option<i64>,
    pub line_amount: Option<i64>,
    pub rest_amount: Option<i64>,
    pub memo: Option<String>,
}

/// What a [`CoupangPaymentItem`] holds, as plain values.
pub struct CoupangPaymentItemView {
    pub id: i64,
    pub line_no: i32,
    pub product_id: Option<Seq<char>>,
    pub vendor_item_id: Option<Seq<char>>,
    pub product_name: Seq<char>,
    pub image_url: Option<Seq<char>>,
    pub info_url: Option<Seq<char>>,
    pub brand_name: Option<Seq<char>>,
    pub quantity: i32,
    pub unit_price: Option<i64>,
    pub discounted_unit_price: Option<i64>,
    pub combined_unit_price: Option<i64>,
    pub line_amount: Option<i64>,
    pub rest_amount: Option<i64>,
    pub memo: Option<Seq<char>>,
}

impl View for CoupangPaymentItem {
    type V = CoupangPaymentItemView;

    open spec fn view(&self) -> CoupangPaymentItemView {
        CoupangPaymentItemView {
            id: self.id,
            line_no: self.line_no,
            product_id: self.product_id.deep_view(),
            vendor_item_id: self.vendor_item_id.deep_view(),
            product_name: self.product_name@,
            image_url: self.image_url.deep_view(),
            info_url: self.info_url.deep_view(),
            brand_name: self.brand_name.deep_view(),
            quantity: self.quantity,
            unit_price: self.unit_price,
            discounted_unit_price: self.discounted_unit_price,
            combined_unit_price: self.combined_unit_price,
            line_amount: self.line_amount,
            rest_amount: self.rest_amount,
            memo: self.memo.deep_view(),
        }
    }
}

impl DeepView for CoupangPaymentItem {
    type V = CoupangPaymentItemView;

    open spec fn deep_view(&self) -> CoupangPaymentItemView {
        self@
    }
}

impl Clone for CoupangPaymentItem {
    fn clone(&self) -> (r: Self)
        ensures
            r@ == self@,
    {
        CoupangPaymentItem {
            id: self.id,
            line_no: self.line_no,
            product_id: clone_text(&self.product_id),
            vendor_item_id: clone_text(&self.vendor_item_id),
            product_name: self.product_name.clone(),
            image_url: clone_text(&self.image_url),
            info_url: clone_text(&self.info_url),
            brand_name: clone_text(&self.brand_name),
            quantity: self.quantity,
            unit_price: self.unit_price,
            discounted_unit_price: self.discounted_unit_price,
            combined_unit_price: self.combined_unit_price,
            line_amount: self.line_amount,
            rest_amount: self.rest_amount,
            memo: clone_text(&self.memo),
        }
    }
}

/// An order of the second provider with its lines, as handed in for a sync.
#[derive(Debug, PartialEq, Eq)]
pub struct CoupangPayment {
    pub header: CoupangHeader,
    pub items: Vec<CoupangPaymentItem>,
}

/// What a [`CoupangPayment`] holds, as plain values.
pub struct CoupangPaymentView {
    pub header: CoupangHeaderView,
    pub items: Seq<CoupangPaymentItemView>,
}

impl View for CoupangPayment {
    type V = CoupangPaymentView;

    open spec fn view(&self) -> CoupangPaymentView {
        CoupangPaymentView {
            header: self.header@,
            items: self.items.deep_view(),
        }
    }
}

impl DeepView for CoupangPayment {
    type V = CoupangPaymentView;

    open spec fn deep_view(&self) -> CoupangPaymentView {
        self@
    }
}

impl Clone for CoupangPayment {
    fn clone(&self) -> (r: Self)
        ensures
            r@ == self@,
    {
        CoupangPayment {
            header: self.header.clone(),
            items: clone_all(&self.items),
        }
    }
}

/// A stored order header of the second provider.
#[derive(Debug, PartialEq, Eq)]
pub struct CoupangPaymentRow {
    /// The identifier the store gave it; its lines refer to it.
    pub id: i64,
    pub user_id: String,
    pub header: CoupangHeader,
    pub created_at: String,
    pub updated_at: String,
}

/// What a [`CoupangPaymentRow`] holds, as plain values.
pub struct CoupangPaymentRowView {
    pub id: i64,
    pub user_id: Seq<char>,
    pub header: CoupangHeaderView,
    pub created_at: Seq<char>,
    pub updated_at: Seq<char>,
}

impl View for CoupangPaymentRow {
    type V = CoupangPaymentRowView;

    open spec fn view(&self) -> CoupangPaymentRowView {
        CoupangPaymentRowView {
            id: self.id,
            user_id: self.user_id@,
            header: self.header@,
            created_at: self.created_at@,
            updated_at: self.updated_at@,
        }
    }
}

impl DeepView for CoupangPaymentRow {
    type V = CoupangPaymentRowView;

    open spec fn deep_view(&self) -> CoupangPaymentRowView {
        self@
    }
}

impl Clone for CoupangPaymentRow {
    fn clone(&self) -> (r: Self)
        ensures
            r@ == self@,
    {
        CoupangPaymentRow {
            id: self.id,
            user_id: self.user_id.clone(),
            header: self.header.clone(),
            created_at: self.created_at.clone(),
            updated_at: self.updated_at.clone(),
        }
    }
}

/// A stored order line of the second provider.
#[derive(Debug, PartialEq, Eq)]
pub struct CoupangItemRow {
    pub payment_id: i64,
    pub item: CoupangPaymentItem,
    pub created_at: String,
    pub updated_at: String,
}

/// What a [`CoupangItemRow`] holds, as plain values.
pub struct CoupangItemRowView {
    pub payment_id: i64,
    pub item: CoupangPaymentItemView,
    pub created_at: Seq<char>,
    pub updated_at: Seq<char>,
}

impl View for CoupangItemRow {
    type V = CoupangItemRowView;

    open spec fn view(&self) -> CoupangItemRowView {
        CoupangItemRowView {
            payment_id: self.payment_id,
            item: self.item@,
            created_at: self.created_at@,
            updated_at: self.updated_at@,
        }
    }
}

impl DeepView for CoupangItemRow {
    type V = CoupangItemRowView;

    open spec fn deep_view(&self) -> CoupangItemRowView {
        self@
    }
}

impl Clone for CoupangItemRow {
    fn clone(&self) -> (r: Self)
        ensures
            r@ == self@,
    {
        CoupangItemRow {
            payment_id: self.payment_id,
            item: self.item.clone(),
            created_at: self.created_at.clone(),
            updated_at: self.updated_at.clone(),
        }
    }
}

/// An order of the second provider as a listing shows it, with its lines.
#[derive(Debug, PartialEq, Eq)]
pub struct CoupangPaymentListItem {
    pub id: i64,
    pub order_id: String,
    pub external_id: Option<String>,
    pub status_code: Option<String>,
    pub status_text: Option<String>,
    pub status_color: Option<String>,
    pub ordered_at: String,
    pub paid_at: Option<String>,
    pub merchant_name: String,
    pub merchant_tel: Option<String>,
    pub merchant_url: Option<String>,
    pub merchant_image_url: Option<String>,
    pub product_name: Option<String>,
    pub product_count: Option<i32>,
    pub total_amount: i64,
    pub total_order_amount: Option<i64>,
    pub total_cancel_amount: Option<i64>,
    pub discount_amount: Option<i64>,
    pub rest_amount: Option<i64>,
    pub main_pay_type: Option<String>,
    pub items: Vec<CoupangPaymentItem>,
}

/// What a [`CoupangPaymentListItem`] holds, as plain values.
pub struct CoupangPaymentListItemView {
    pub id: i64,
    pub order_id: Seq<char>,
    pub external_id: Option<Seq<char>>,
    pub status_code: Option<Seq<char>>,
    pub status_text: Option<Seq<char>>,
    pub status_color: Option<Seq<char>>,
    pub ordered_at: Seq<char>,
    pub paid_at: Option<Seq<char>>,
    pub merchant_name: Seq<char>,
    pub merchant_tel: Option<Seq<char>>,
    pub merchant_url: Option<Seq<char>>,
    pub merchant_image_url: Option<Seq<char>>,
    pub product_name: Option<Seq<char>>,
    pub product_count: Option<i32>,
    pub total_amount: i64,
    pub total_order_amount: Option<i64>,
    pub total_cancel_amount: Option<i64>,
    pub discount_amount: Option<i64>,
    pub rest_amount: Option<i64>,
    pub main_pay_type: Option<Seq<char>>,
    pub items: Seq<CoupangPaymentItemView>,
}

impl View for CoupangPaymentListItem {
    type V = CoupangPaymentListItemView;

    open spec fn view(&self) -> CoupangPaymentListItemView {
        CoupangPaymentListItemView {
            id: self.id,
            order_id: self.order_id@,
            external_id: self.external_id.deep_view(),
            status_code: self.status_code.deep_view(),
            status_text: self.status_text.deep_view(),
            status_color: self.status_color.deep_view(),
            ordered_at: self.ordered_at@,
            paid_at: self.paid_at.deep_view(),
            merchant_name: self.merchant_name@,
            merchant_tel: self.merchant_tel.deep_view(),
            merchant_url: self.merchant_url.deep_view(),
            merchant_image_url: self.merchant_image_url.deep_view(),
            product_name: self.product_name.deep_view(),
            product_count: self.product_count,
            total_amount: self.total_amount,
            total_order_amount: self.total_order_amount,
            total_cancel_amount: self.total_cancel_amount,
            discount_amount: self.discount_amount,
            rest_amount: self.rest_amount,
            main_pay_type: self.main_pay_type.deep_view(),
            items: self.items.deep_view(),
        }
    }
}

impl DeepView for CoupangPaymentListItem {
    type V = CoupangPaymentListItemView;

    open spec fn deep_view(&self) -> CoupangPaymentListItemView {
        self@
    }
}

impl Clone for CoupangPaymentListItem {
    fn clone(&self) -> (r: Self)
        ensures
            r@ == self@,
    {
        CoupangPaymentListItem {
            id: self.id,
            order_id: self.order_id.clone(),
            external_id: clone_text(&self.external_id),
            status_code: clone_text(&self.status_code),
            status_text: clone_text(&self.status_text),
            status_color: clone_text(&self.status_color),
            ordered_at: self.ordered_at.clone(),
            paid_at: clone_text(&self.paid_at),
            merchant_name: self.merchant_name.clone(),
            merchant_tel: clone_text(&self.merchant_tel),
            merchant_url: clone_text(&self.merchant_url),
            merchant_image_url: clone_text(&self.merchant_image_url),
            product_name: clone_text(&self.product_name),
            product_count: self.product_count,
            total_amount: self.total_amount,
            total_order_amount: self.total_order_amount,
            total_cancel_amount: self.total_cancel_amount,
            discount_amount: self.discount_amount,
            rest_amount: self.rest_amount,
            main_pay_type: clone_text(&self.main_pay_type),
            items: clone_all(&self.items),
        }
    }
}

/// The newest order of an owner at the second provider.
#[derive(Debug, PartialEq, Eq)]
pub struct CoupangLatestPayment {
    pub order_id: String,
    pub ordered_at: String,
}

/// What a [`CoupangLatestPayment`] holds, as plain values.
pub struct CoupangLatestPaymentView {
    pub order_id: Seq<char>,
    pub ordered_at: Seq<char>,
}

impl View for CoupangLatestPayment {
    type V = CoupangLatestPaymentView;

    open spec fn view(&self) -> CoupangLatestPaymentView {
        CoupangLatestPaymentView {
            order_id: self.order_id@,
            ordered_at: self.ordered_at@,
        }
    }
}

impl DeepView for CoupangLatestPayment {
    type V = CoupangLatestPaymentView;

    open spec fn deep_view(&self) -> CoupangLatestPaymentView {
        self@
    }
}

impl Clone for CoupangLatestPayment {
    fn clone(&self) -> (r: Self)
        ensures
            r@ == self@,
    {
        CoupangLatestPayment {
            order_id: self.order_id.clone(),
            ordered_at: self.ordered_at.clone(),
        }
    }
}
} // verus!
