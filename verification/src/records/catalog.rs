//! Categories, notes on products, and what searches and counts return.

use crate::rows::{clone_all, clone_text};
use vstd::prelude::*;

verus! {

/// A category that products can be filed under.
#[derive(Debug, PartialEq, Eq)]
pub struct Category {
    pub id: String,
    pub name: String,
    pub color: Option<String>,
    pub created_at: String,
}

/// What a [`Category`] holds, as plain values.
pub struct CategoryView {
    pub id: Seq<char>,
    pub name: Seq<char>,
    pub color: Option<Seq<char>>,
    pub created_at: Seq<char>,
}

impl View for Category {
    type V = CategoryView;

    open spec fn view(&self) -> CategoryView {
        CategoryView {
            id: self.id@,
            name: self.name@,
            color: self.color.deep_view(),
            created_at: self.created_at@,
        }
    }
}

impl DeepView for Category {
    type V = CategoryView;

    open spec fn deep_view(&self) -> CategoryView {
        self@
    }
}

impl Clone for Category {
    fn clone(&self) -> (r: Self)
        ensures
            r@ == self@,
    {
        Category {
            id: self.id.clone(),
            name: self.name.clone(),
            color: clone_text(&self.color),
            created_at: self.created_at.clone(),
        }
    }
}

/// Notes on a product as handed in for saving.
#[derive(Debug, PartialEq, Eq)]
pub struct ProductMetaInput {
    pub memo: Option<String>,
    pub url: Option<String>,
    /// From 1 to 10 where given.
    pub rating: Option<i32>,
    pub tags: Vec<String>,
    pub category_ids: Vec<String>,
}

/// What a [`ProductMetaInput`] holds, as plain values.
pub struct ProductMetaInputView {
    pub memo: Option<Seq<char>>,
    pub url: Option<Seq<char>>,
    pub rating: Option<i32>,
    pub tags: Seq<Seq<char>>,
    pub category_ids: Seq<Seq<char>>,
}

impl View for ProductMetaInput {
    type V = ProductMetaInputView;

    open spec fn view(&self) -> ProductMetaInputView {
        ProductMetaInputView {
            memo: self.memo.deep_view(),
            url: self.url.deep_view(),
            rating: self.rating,
            tags: self.tags.deep_view(),
            category_ids: self.category_ids.deep_view(),
        }
    }
}

impl DeepView for ProductMetaInput {
    type V = ProductMetaInputView;

    open spec fn deep_view(&self) -> ProductMetaInputView {
        self@
    }
}

impl Clone for ProductMetaInput {
    fn clone(&self) -> (r: Self)
        ensures
            r@ == self@,
    {
        ProductMetaInput {
            memo: clone_text(&self.memo),
            url: clone_text(&self.url),
            rating: self.rating,
            tags: clone_all(&self.tags),
            category_ids: clone_all(&self.category_ids),
        }
    }
}

/// The stored notes on one product of one provider.
#[derive(Debug, PartialEq, Eq)]
pub struct ProductMetaRow {
    pub id: String,
    pub provider: String,
    pub item_id: i64,
    pub memo: Option<String>,
    pub url: Option<String>,
    pub rating: Option<i32>,
    pub created_at: String,
    pub updated_at: String,
}

/// What a [`ProductMetaRow`] holds, as plain values.
pub struct ProductMetaRowView {
    pub id: Seq<char>,
    pub provider: Seq<char>,
    pub item_id: i64,
    pub memo: Option<Seq<char>>,
    pub url: Option<Seq<char>>,
    pub rating: Option<i32>,
    pub created_at: Seq<char>,
    pub updated_at: Seq<char>,
}

impl View for ProductMetaRow {
    type V = ProductMetaRowView;

    open spec fn view(&self) -> ProductMetaRowView {
        ProductMetaRowView {
            id: self.id@,
            provider: self.provider@,
            item_id: self.item_id,
            memo: self.memo.deep_view(),
            url: self.url.deep_view(),
            rating: self.rating,
            created_at: self.created_at@,
            updated_at: self.updated_at@,
        }
    }
}

impl DeepView for ProductMetaRow {
    type V = ProductMetaRowView;

    open spec fn deep_view(&self) -> ProductMetaRowView {
        self@
    }
}

impl Clone for ProductMetaRow {
    fn clone(&self) -> (r: Self)
        ensures
            r@ == self@,
    {
        ProductMetaRow {
            id: self.id.clone(),
            provider: self.provider.clone(),
            item_id: self.item_id,
            memo: clone_text(&self.memo),
            url: clone_text(&self.url),
            rating: self.rating,
            created_at: self.created_at.clone(),
            updated_at: self.updated_at.clone(),
        }
    }
}

/// One tag on one product's notes.
#[derive(Debug, PartialEq, Eq)]
pub struct ProductTag {
    pub meta_id: String,
    pub tag: String,
    pub created_at: String,
}

/// What a [`ProductTag`] holds, as plain values.
pub struct ProductTagView {
    pub meta_id: Seq<char>,
    pub tag: Seq<char>,
    pub created_at: Seq<char>,
}

impl View for ProductTag {
    type V = ProductTagView;

    open spec fn view(&self) -> ProductTagView {
        ProductTagView {
            meta_id: self.meta_id@,
            tag: self.tag@,
            created_at: self.created_at@,
        }
    }
}

impl DeepView for ProductTag {
    type V = ProductTagView;

    open spec fn deep_view(&self) -> ProductTagView {
        self@
    }
}

impl Clone for ProductTag {
    fn clone(&self) -> (r: Self)
        ensures
            r@ == self@,
    {
        ProductTag {
            meta_id: self.meta_id.clone(),
            tag: self.tag.clone(),
            created_at: self.created_at.clone(),
        }
    }
}

/// The filing of one product's notes under one category.
#[derive(Debug, PartialEq, Eq)]
pub struct ProductCategory {
    pub meta_id: String,
    pub category_id: String,
    pub created_at: String,
}

/// What a [`ProductCategory`] holds, as plain values.
pub struct ProductCategoryView {
    pub meta_id: Seq<char>,
    pub category_id: Seq<char>,
    pub created_at: Seq<char>,
}

impl View for ProductCategory {
    type V = ProductCategoryView;

    open spec fn view(&self) -> ProductCategoryView {
        ProductCategoryView {
            meta_id: self.meta_id@,
            category_id: self.category_id@,
            created_at: self.created_at@,
        }
    }
}

impl DeepView for ProductCategory {
    type V = ProductCategoryView;

    open spec fn deep_view(&self) -> ProductCategoryView {
        self@
    }
}

impl Clone for ProductCategory {
    fn clone(&self) -> (r: Self)
        ensures
            r@ == self@,
    {
        ProductCategory {
            meta_id: self.meta_id.clone(),
            category_id: self.category_id.clone(),
            created_at: self.created_at.clone(),
        }
    }
}

/// The notes on a product with their tags and categories.
#[derive(Debug, PartialEq, Eq)]
pub struct ProductMeta {
    pub id: String,
    pub provider: String,
    pub item_id: i64,
    pub memo: Option<String>,
    pub url: Option<String>,
    pub rating: Option<i32>,
    pub tags: Vec<String>,
    pub categories: Vec<Category>,
    pub created_at: String,
    pub updated_at: String,
}

/// What a [`ProductMeta`] holds, as plain values.
pub struct ProductMetaView {
    pub id: Seq<char>,
    pub provider: Seq<char>,
    pub item_id: i64,
    pub memo: Option<Seq<char>>,
    pub url: Option<Seq<char>>,
    pub rating: Option<i32>,
    pub tags: Seq<Seq<char>>,
    pub categories: Seq<CategoryView>,
    pub created_at: Seq<char>,
    pub updated_at: Seq<char>,
}

impl View for ProductMeta {
    type V = ProductMetaView;

    open spec fn view(&self) -> ProductMetaView {
        ProductMetaView {
            id: self.id@,
            provider: self.provider@,
            item_id: self.item_id,
            memo: self.memo.deep_view(),
            url: self.url.deep_view(),
            rating: self.rating,
            tags: self.tags.deep_view(),
            categories: self.categories.deep_view(),
            created_at: self.created_at@,
            updated_at: self.updated_at@,
        }
    }
}

impl DeepView for ProductMeta {
    type V = ProductMetaView;

    open spec fn deep_view(&self) -> ProductMetaView {
        self@
    }
}

impl Clone for ProductMeta {
    fn clone(&self) -> (r: Self)
        ensures
            r@ == self@,
    {
        ProductMeta {
            id: self.id.clone(),
            provider: self.provider.clone(),
            item_id: self.item_id,
            memo: clone_text(&self.memo),
            url: clone_text(&self.url),
            rating: self.rating,
            tags: clone_all(&self.tags),
            categories: clone_all(&self.categories),
            created_at: self.created_at.clone(),
            updated_at: self.updated_at.clone(),
        }
    }
}

/// Which kinds of notes a product has.
#[derive(Debug, PartialEq, Eq)]
pub struct ProductMetaSummary {
    pub item_id: i64,
    pub has_tags: bool,
    pub has_categories: bool,
    pub has_memo: bool,
    pub has_url: bool,
    pub rating: Option<i32>,
}

/// What a [`ProductMetaSummary`] holds, as plain values.
pub struct ProductMetaSummaryView {
    pub item_id: i64,
    pub has_tags: bool,
    pub has_categories: bool,
    pub has_memo: bool,
    pub has_url: bool,
    pub rating: Option<i32>,
}

impl View for ProductMetaSummary {
    type V = ProductMetaSummaryView;

    open spec fn view(&self) -> ProductMetaSummaryView {
        ProductMetaSummaryView {
            item_id: self.item_id,
            has_tags: self.has_tags,
            has_categories: self.has_categories,
            has_memo: self.has_memo,
            has_url: self.has_url,
            rating: self.rating,
        }
    }
}

impl DeepView for ProductMetaSummary {
    type V = ProductMetaSummaryView;

    open spec fn deep_view(&self) -> ProductMetaSummaryView {
        self@
    }
}

impl Clone for ProductMetaSummary {
    fn clone(&self) -> (r: Self)
        ensures
            r@ == self@,
    {
        ProductMetaSummary {
            item_id: self.item_id,
            has_tags: self.has_tags,
            has_categories: self.has_categories,
            has_memo: self.has_memo,
            has_url: self.has_url,
            rating: self.rating,
        }
    }
}

/// One payment line found by a search over both providers.
#[derive(Debug, PartialEq, Eq)]
pub struct SearchResultItem {
    pub id: i64,
    pub provider: String,
    pub product_name: String,
    pub image_url: Option<String>,
    pub merchant_name: String,
    pub paid_at: String,
    pub quantity: i64,
    pub unit_price: Option<i64>,
    pub line_amount: Option<i64>,
}

/// What a [`SearchResultItem`] holds, as plain values.
pub struct SearchResultItemView {
    pub id: i64,
    pub provider: Seq<char>,
    pub product_name: Seq<char>,
    pub image_url: Option<Seq<char>>,
    pub merchant_name: Seq<char>,
    pub paid_at: Seq<char>,
    pub quantity: i64,
    pub unit_price: Option<i64>,
    pub line_amount: Option<i64>,
}

impl View for SearchResultItem {
    type V = SearchResultItemView;

    open spec fn view(&self) -> SearchResultItemView {
        SearchResultItemView {
            id: self.id,
            provider: self.provider@,
            product_name: self.product_name@,
            image_url: self.image_url.deep_view(),
            merchant_name: self.merchant_name@,
            paid_at: self.paid_at@,
            quantity: self.quantity,
            unit_price: self.unit_price,
            line_amount: self.line_amount,
        }
    }
}

impl DeepView for SearchResultItem {
    type V = SearchResultItemView;

    open spec fn deep_view(&self) -> SearchResultItemView {
        self@
    }
}

impl Clone for SearchResultItem {
    fn clone(&self) -> (r: Self)
        ensures
            r@ == self@,
    {
        SearchResultItem {
            id: self.id,
            provider: self.provider.clone(),
            product_name: self.product_name.clone(),
            image_url: clone_text(&self.image_url),
            merchant_name: self.merchant_name.clone(),
            paid_at: self.paid_at.clone(),
            quantity: self.quantity,
            unit_price: self.unit_price,
            line_amount: self.line_amount,
        }
    }
}

/// What a search returns: the lines kept, and how many were found.
#[derive(Debug, PartialEq, Eq)]
pub struct SearchResponse {
    pub items: Vec<SearchResultItem>,
    pub total: i64,
}

/// What a [`SearchResponse`] holds, as plain values.
pub struct SearchResponseView {
    pub items: Seq<SearchResultItemView>,
    pub total: i64,
}

impl View for SearchResponse {
    type V = SearchResponseView;

    open spec fn view(&self) -> SearchResponseView {
        SearchResponseView {
            items: self.items.deep_view(),
            total: self.total,
        }
    }
}

impl DeepView for SearchResponse {
    type V = SearchResponseView;

    open spec fn deep_view(&self) -> SearchResponseView {
        self@
    }
}

impl Clone for SearchResponse {
    fn clone(&self) -> (r: Self)
        ensures
            r@ == self@,
    {
        SearchResponse {
            items: clone_all(&self.items),
            total: self.total,
        }
    }
}

/// How many rows a table holds.
#[derive(Debug, PartialEq, Eq)]
pub struct TableStat {
    pub name: String,
    pub row_count: i64,
}

/// What a [`TableStat`] holds, as plain values.
pub struct TableStatView {
    pub name: Seq<char>,
    pub row_count: i64,
}

impl View for TableStat {
    type V = TableStatView;

    open spec fn view(&self) -> TableStatView {
        TableStatView {
            name: self.name@,
            row_count: self.row_count,
        }
    }
}

impl DeepView for TableStat {
    type V = TableStatView;

    open spec fn deep_view(&self) -> TableStatView {
        self@
    }
}

impl Clone for TableStat {
    fn clone(&self) -> (r: Self)
        ensures
            r@ == self@,
    {
        TableStat {
            name: self.name.clone(),
            row_count: self.row_count,
        }
    }
}
} // verus!
