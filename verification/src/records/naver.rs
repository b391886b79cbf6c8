//! Payments of the first provider: what is handed in, what is stored, and
//! what listings return.

use crate::rows::{clone_all, clone_text};
use vstd::prelude::*;

verus! {

/// The header of a payment of the first provider, as the provider reports it.
#[derive(Debug, PartialEq, Eq)]
pub struct NaverHeader {
    /// The provider's identifier of the payment, unique per owner.
    pub pay_id: String,
    pub external_id: Option<String>,
    pub service_type: Option<String>,
    pub status_code: Option<String>,
    pub status_text: Option<String>,
    pub status_color: Option<String>,
    pub paid_at: String,
    pub purchaser_name: Option<String>,
    pub merchant_no: Option<String>,
    pub merchant_name: String,
    pub merchant_tel: Option<String>,
    pub merchant_url: Option<String>,
    pub merchant_image_url: Option<String>,
    pub merchant_payment_id: Option<String>,
    pub sub_merchant_name: Option<String>,
    pub sub_merchant_url: Option<String>,
    pub sub_merchant_payment_id: Option<String>,
    pub is_tax_type: Option<bool>,
    pub is_oversea_transfer: Option<bool>,
    pub product_name: Option<String>,
    pub product_count: Option<i32>,
    pub product_detail_url: Option<String>,
    pub order_detail_url: Option<String>,
    pub total_amount: i64,
    pub discount_amount: Option<i64>,
    pub cup_deposit_amount: Option<i64>,
    pub rest_amount: Option<i64>,
    pub pay_easycard_amount: Option<i64>,
    pub pay_easybank_amount: Option<i64>,
    pub pay_reward_point_amount: Option<i64>,
    pub pay_charge_point_amount: Option<i64>,
    pub pay_giftcard_amount: Option<i64>,
    pub benefit_type: Option<String>,
    pub has_plus_membership: Option<bool>,
    pub benefit_waiting_period: Option<i32>,
    pub benefit_expected_amount: Option<i64>,
    pub benefit_amount: Option<i64>,
    pub is_membership: Option<bool>,
    pub is_branch: Option<bool>,
    pub is_last_subscription_round: Option<bool>,
    pub is_cafe_safe_payment: Option<bool>,
    pub merchant_country_code: Option<String>,
    pub merchant_country_name: Option<String>,
    pub application_completed: Option<bool>,
}

/// What a [`NaverHeader`] holds, as plain values.
pub struct NaverHeaderView {
    pub pay_id: Seq<char>,
    pub external_id: Option<Seq<char>>,
    pub service_type: Option<Seq<char>>,
    pub status_code: Option<Seq<char>>,
    pub status_text: Option<Seq<char>>,
    pub status_color: Option<Seq<char>>,
    pub paid_at: Seq<char>,
    pub purchaser_name: Option<Seq<char>>,
    pub merchant_no: Option<Seq<char>>,
    pub merchant_name: Seq<char>,
    pub merchant_tel: Option<Seq<char>>,
    pub merchant_url: Option<Seq<char>>,
    pub merchant_image_url: Option<Seq<char>>,
    pub merchant_payment_id: Option<Seq<char>>,
    pub sub_merchant_name: Option<Seq<char>>,
    pub sub_merchant_url: Option<Seq<char>>,
    pub sub_merchant_payment_id: Option<Seq<char>>,
    pub is_tax_type: Option<bool>,
    pub is_oversea_transfer: Option<bool>,
    pub product_name: Option<Seq<char>>,
    pub product_count: Option<i32>,
    pub product_detail_url: Option<Seq<char>>,
    pub order_detail_url: Option<Seq<char>>,
    pub total_amount: i64,
    pub discount_amount: Option<i64>,
    pub cup_deposit_amount: Option<i64>,
    pub rest_amount: Option<i64>,
    pub pay_easycard_amount: Option<i64>,
    pub pay_easybank_amount: Option<i64>,
    pub pay_reward_point_amount: Option<i64>,
    pub pay_charge_point_amount: Option<i64>,
    pub pay_giftcard_amount: Option<i64>,
    pub benefit_type: Option<Seq<char>>,
    pub has_plus_membership: Option<bool>,
    pub benefit_waiting_period: Option<i32>,
    pub benefit_expected_amount: Option<i64>,
    pub benefit_amount: Option<i64>,
    pub is_membership: Option<bool>,
    pub is_branch: Option<bool>,
    pub is_last_subscription_round: Option<bool>,
    pub is_cafe_safe_payment: Option<bool>,
    pub merchant_country_code: Option<Seq<char>>,
    pub merchant_country_name: Option<Seq<char>>,
    pub application_completed: Option<bool>,
}

impl View for NaverHeader {
    type V = NaverHeaderView;

    open spec fn view(&self) -> NaverHeaderView {
        NaverHeaderView {
            pay_id: self.pay_id@,
            external_id: self.external_id.deep_view(),
            service_type: self.service_type.deep_view(),
            status_code: self.status_code.deep_view(),
            status_text: self.status_text.deep_view(),
            status_color: self.status_color.deep_view(),
            paid_at: self.paid_at@,
            purchaser_name: self.purchaser_name.deep_view(),
            merchant_no: self.merchant_no.deep_view(),
            merchant_name: self.merchant_name@,
            merchant_tel: self.merchant_tel.deep_view(),
            merchant_url: self.merchant_url.deep_view(),
            merchant_image_url: self.merchant_image_url.deep_view(),
            merchant_payment_id: self.merchant_payment_id.deep_view(),
            sub_merchant_name: self.sub_merchant_name.deep_view(),
            sub_merchant_url: self.sub_merchant_url.deep_view(),
            sub_merchant_payment_id: self.sub_merchant_payment_id.deep_view(),
            is_tax_type: self.is_tax_type,
            is_oversea_transfer: self.is_oversea_transfer,
            product_name: self.product_name.deep_view(),
            product_count: self.product_count,
            product_detail_url: self.product_detail_url.deep_view(),
            order_detail_url: self.order_detail_url.deep_view(),
            total_amount: self.total_amount,
            discount_amount: self.discount_amount,
            cup_deposit_amount: self.cup_deposit_amount,
            rest_amount: self.rest_amount,
            pay_easycard_amount: self.pay_easycard_amount,
            pay_easybank_amount: self.pay_easybank_amount,
            pay_reward_point_amount: self.pay_reward_point_amount,
            pay_charge_point_amount: self.pay_charge_point_amount,
            pay_giftcard_amount: self.pay_giftcard_amount,
            benefit_type: self.benefit_type.deep_view(),
            has_plus_membership: self.has_plus_membership,
            benefit_waiting_period: self.benefit_waiting_period,
            benefit_expected_amount: self.benefit_expected_amount,
            benefit_amount: self.benefit_amount,
            is_membership: self.is_membership,
            is_branch: self.is_branch,
            is_last_subscription_round: self.is_last_subscription_round,
            is_cafe_safe_payment: self.is_cafe_safe_payment,
            merchant_country_code: self.merchant_country_code.deep_view(),
            merchant_country_name: self.merchant_country_name.deep_view(),
            application_completed: self.application_completed,
        }
    }
}

impl DeepView for NaverHeader {
    type V = NaverHeaderView;

    open spec fn deep_view(&self) -> NaverHeaderView {
        self@
    }
}

impl Clone for NaverHeader {
    fn clone(&self) -> (r: Self)
        ensures
            r@ == self@,
    {
        NaverHeader {
            pay_id: self.pay_id.clone(),
            external_id: clone_text(&self.external_id),
            service_type: clone_text(&self.service_type),
            status_code: clone_text(&self.status_code),
            status_text: clone_text(&self.status_text),
            status_color: clone_text(&self.status_color),
            paid_at: self.paid_at.clone(),
            purchaser_name: clone_text(&self.purchaser_name),
            merchant_no: clone_text(&self.merchant_no),
            merchant_name: self.merchant_name.clone(),
            merchant_tel: clone_text(&self.merchant_tel),
            merchant_url: clone_text(&self.merchant_url),
            merchant_image_url: clone_text(&self.merchant_image_url),
            merchant_payment_id: clone_text(&self.merchant_payment_id),
            sub_merchant_name: clone_text(&self.sub_merchant_name),
            sub_merchant_url: clone_text(&self.sub_merchant_url),
            sub_merchant_payment_id: clone_text(&self.sub_merchant_payment_id),
            is_tax_type: self.is_tax_type,
            is_oversea_transfer: self.is_oversea_transfer,
            product_name: clone_text(&self.product_name),
            product_count: self.product_count,
            product_detail_url: clone_text(&self.product_detail_url),
            order_detail_url: clone_text(&self.order_detail_url),
            total_amount: self.total_amount,
            discount_amount: self.discount_amount,
            cup_deposit_amount: self.cup_deposit_amount,
            rest_amount: self.rest_amount,
            pay_easycard_amount: self.pay_easycard_amount,
            pay_easybank_amount: self.pay_easybank_amount,
            pay_reward_point_amount: self.pay_reward_point_amount,
            pay_charge_point_amount: self.pay_charge_point_amount,
            pay_giftcard_amount: self.pay_giftcard_amount,
            benefit_type: clone_text(&self.benefit_type),
            has_plus_membership: self.has_plus_membership,
            benefit_waiting_period: self.benefit_waiting_period,
            benefit_expected_amount: self.benefit_expected_amount,
            benefit_amount: self.benefit_amount,
            is_membership: self.is_membership,
            is_branch: self.is_branch,
            is_last_subscription_round: self.is_last_subscription_round,
            is_cafe_safe_payment: self.is_cafe_safe_payment,
            merchant_country_code: clone_text(&self.merchant_country_code),
            merchant_country_name: clone_text(&self.merchant_country_name),
            application_completed: self.application_completed,
        }
    }
}

/// One line of a payment of the first provider.
#[derive(Debug, PartialEq, Eq)]
pub struct NaverPaymentItem {
    /// The line's own identifier in the store; ignored when handed in.
    pub id: i64,
    /// The line's number within its payment.
    pub line_no: i32,
    pub product_name: String,
    pub image_url: Option<String>,
    pub info_url: Option<String>,
    pub quantity: i32,
    pub unit_price: Option<i64>,
    pub line_amount: Option<i64>,
    pub rest_amount: Option<i64>,
    pub memo: Option<String>,
}

/// What a [`NaverPaymentItem`] holds, as plain values.
pub struct NaverPaymentItemView {
    pub id: i64,
    pub line_no: i32,
    pub product_name: Seq<char>,
    pub image_url: Option<Seq<char>>,
    pub info_url: Option<Seq<char>>,
    pub quantity: i32,
    pub unit_price: Option<i64>,
    pub line_amount: Option<i64>,
    pub rest_amount: Option<i64>,
    pub memo: Option<Seq<char>>,
}

impl View for NaverPaymentItem {
    type V = NaverPaymentItemView;

    open spec fn view(&self) -> NaverPaymentItemView {
        NaverPaymentItemView {
            id: self.id,
            line_no: self.line_no,
            product_name: self.product_name@,
            image_url: self.image_url.deep_view(),
            info_url: self.info_url.deep_view(),
            quantity: self.quantity,
            unit_price: self.unit_price,
            line_amount: self.line_amount,
            rest_amount: self.rest_amount,
            memo: self.memo.deep_view(),
        }
    }
}

impl DeepView for NaverPaymentItem {
    type V = NaverPaymentItemView;

    open spec fn deep_view(&self) -> NaverPaymentItemView {
        self@
    }
}

impl Clone for NaverPaymentItem {
    fn clone(&self) -> (r: Self)
        ensures
            r@ == self@,
    {
        NaverPaymentItem {
            id: self.id,
            line_no: self.line_no,
            product_name: self.product_name.clone(),
            image_url: clone_text(&self.image_url),
            info_url: clone_text(&self.info_url),
            quantity: self.quantity,
            unit_price: self.unit_price,
            line_amount: self.line_amount,
            rest_amount: self.rest_amount,
            memo: clone_text(&self.memo),
        }
    }
}

/// A payment of the first provider with its lines, as handed in for a sync.
#[derive(Debug, PartialEq, Eq)]
pub struct NaverPayment {
    pub header: NaverHeader,
    pub items: Vec<NaverPaymentItem>,
}

/// What a [`NaverPayment`] holds, as plain values.
pub struct NaverPaymentView {
    pub header: NaverHeaderView,
    pub items: Seq<NaverPaymentItemView>,
}

impl View for NaverPayment {
    type V = NaverPaymentView;

    open spec fn view(&self) -> NaverPaymentView {
        NaverPaymentView {
            header: self.header@,
            items: self.items.deep_view(),
        }
    }
}

impl DeepView for NaverPayment {
    type V = NaverPaymentView;

    open spec fn deep_view(&self) -> NaverPaymentView {
        self@
    }
}

impl Clone for NaverPayment {
    fn clone(&self) -> (r: Self)
        ensures
            r@ == self@,
    {
        NaverPayment {
            header: self.header.clone(),
            items: clone_all(&self.items),
        }
    }
}

/// A stored payment header of the first provider.
#[derive(Debug, PartialEq, Eq)]
pub struct NaverPaymentRow {
    /// The identifier the store gave it; its lines refer to it.
    pub id: i64,
    pub user_id: String,
    pub header: NaverHeader,
    pub created_at: String,
    pub updated_at: String,
}

/// What a [`NaverPaymentRow`] holds, as plain values.
pub struct NaverPaymentRowView {
    pub id: i64,
    pub user_id: Seq<char>,
    pub header: NaverHeaderView,
    pub created_at: Seq<char>,
    pub updated_at: Seq<char>,
}

impl View for NaverPaymentRow {
    type V = NaverPaymentRowView;

    open spec fn view(&self) -> NaverPaymentRowView {
        NaverPaymentRowView {
            id: self.id,
            user_id: self.user_id@,
            header: self.header@,
            created_at: self.created_at@,
            updated_at: self.updated_at@,
        }
    }
}

impl DeepView for NaverPaymentRow {
    type V = NaverPaymentRowView;

    open spec fn deep_view(&self) -> NaverPaymentRowView {
        self@
    }
}

impl Clone for NaverPaymentRow {
    fn clone(&self) -> (r: Self)
        ensures
            r@ == self@,
    {
        NaverPaymentRow {
            id: self.id,
            user_id: self.user_id.clone(),
            header: self.header.clone(),
            created_at: self.created_at.clone(),
            updated_at: self.updated_at.clone(),
        }
    }
}

/// A stored payment line of the first provider.
#[derive(Debug, PartialEq, Eq)]
pub struct NaverItemRow {
    pub payment_id: i64,
    pub item: NaverPaymentItem,
    pub created_at: String,
    pub updated_at: String,
}

/// What a [`NaverItemRow`] holds, as plain values.
pub struct NaverItemRowView {
    pub payment_id: i64,
    pub item: NaverPaymentItemView,
    pub created_at: Seq<char>,
    pub updated_at: Seq<char>,
}

impl View for NaverItemRow {
    type V = NaverItemRowView;

    open spec fn view(&self) -> NaverItemRowView {
        NaverItemRowView {
            payment_id: self.payment_id,
            item: self.item@,
            created_at: self.created_at@,
            updated_at: self.updated_at@,
        }
    }
}

impl DeepView for NaverItemRow {
    type V = NaverItemRowView;

    open spec fn deep_view(&self) -> NaverItemRowView {
        self@
    }
}

impl Clone for NaverItemRow {
    fn clone(&self) -> (r: Self)
        ensures
            r@ == self@,
    {
        NaverItemRow {
            payment_id: self.payment_id,
            item: self.item.clone(),
            created_at: self.created_at.clone(),
            updated_at: self.updated_at.clone(),
        }
    }
}

/// A payment of the first provider as a listing shows it, with its lines.
#[derive(Debug, PartialEq, Eq)]
pub struct NaverPaymentListItem {
    pub id: i64,
    pub pay_id: String,
    pub external_id: Option<String>,
    pub service_type: Option<String>,
    pub status_code: Option<String>,
    pub status_text: Option<String>,
    pub status_color: Option<String>,
    pub paid_at: String,
    pub purchaser_name: Option<String>,
    pub merchant_name: String,
    pub product_name: Option<String>,
    pub product_count: Option<i32>,
    pub total_amount: i64,
    pub discount_amount: Option<i64>,
    pub items: Vec<NaverPaymentItem>,
}

/// What a [`NaverPaymentListItem`] holds, as plain values.
pub struct NaverPaymentListItemView {
    pub id: i64,
    pub pay_id: Seq<char>,
    pub external_id: Option<Seq<char>>,
    pub service_type: Option<Seq<char>>,
    pub status_code: Option<Seq<char>>,
    pub status_text: Option<Seq<char>>,
    pub status_color: Option<Seq<char>>,
    pub paid_at: Seq<char>,
    pub purchaser_name: Option<Seq<char>>,
    pub merchant_name: Seq<char>,
    pub product_name: Option<Seq<char>>,
    pub product_count: Option<i32>,
    pub total_amount: i64,
    pub discount_amount: Option<i64>,
    pub items: Seq<NaverPaymentItemView>,
}

impl View for NaverPaymentListItem {
    type V = NaverPaymentListItemView;

    open spec fn view(&self) -> NaverPaymentListItemView {
        NaverPaymentListItemView {
            id: self.id,
            pay_id: self.pay_id@,
            external_id: self.external_id.deep_view(),
            service_type: self.service_type.deep_view(),
            status_code: self.status_code.deep_view(),
            status_text: self.status_text.deep_view(),
            status_color: self.status_color.deep_view(),
            paid_at: self.paid_at@,
            purchaser_name: self.purchaser_name.deep_view(),
            merchant_name: self.merchant_name@,
            product_name: self.product_name.deep_view(),
            product_count: self.product_count,
            total_amount: self.total_amount,
            discount_amount: self.discount_amount,
            items: self.items.deep_view(),
        }
    }
}

impl DeepView for NaverPaymentListItem {
    type V = NaverPaymentListItemView;

    open spec fn deep_view(&self) -> NaverPaymentListItemView {
        self@
    }
}

impl Clone for NaverPaymentListItem {
    fn clone(&self) -> (r: Self)
        ensures
            r@ == self@,
    {
        NaverPaymentListItem {
            id: self.id,
            pay_id: self.pay_id.clone(),
            external_id: clone_text(&self.external_id),
            service_type: clone_text(&self.service_type),
            status_code: clone_text(&self.status_code),
            status_text: clone_text(&self.status_text),
            status_color: clone_text(&self.status_color),
            paid_at: self.paid_at.clone(),
            purchaser_name: clone_text(&self.purchaser_name),
            merchant_name: self.merchant_name.clone(),
            product_name: clone_text(&self.product_name),
            product_count: self.product_count,
            total_amount: self.total_amount,
            discount_amount: self.discount_amount,
            items: clone_all(&self.items),
        }
    }
}

/// The newest payment of an owner at the first provider.
#[derive(Debug, PartialEq, Eq)]
pub struct NaverLatestPayment {
    pub pay_id: String,
    pub paid_at: String,
}

/// What a [`NaverLatestPayment`] holds, as plain values.
pub struct NaverLatestPaymentView {
    pub pay_id: Seq<char>,
    pub paid_at: Seq<char>,
}

impl View for NaverLatestPayment {
    type V = NaverLatestPaymentView;

    open spec fn view(&self) -> NaverLatestPaymentView {
        NaverLatestPaymentView {
            pay_id: self.pay_id@,
            paid_at: self.paid_at@,
        }
    }
}

impl DeepView for NaverLatestPayment {
    type V = NaverLatestPaymentView;

    open spec fn deep_view(&self) -> NaverLatestPaymentView {
        self@
    }
}

impl Clone for NaverLatestPayment {
    fn clone(&self) -> (r: Self)
        ensures
            r@ == self@,
    {
        NaverLatestPayment {
            pay_id: self.pay_id.clone(),
            paid_at: self.paid_at.clone(),
        }
    }
}
} // verus!
