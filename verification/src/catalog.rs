//! Categories and the notes on products: a memo, a link and a rating, with
//! tags and with the categories a product is filed under.

use crate::clock::{fresh_id, utc_now};
use crate::error::{Rule, StoreError};
use crate::records::catalog::{
    Category, CategoryView, ProductCategory, ProductCategoryView, ProductMeta, ProductMetaInput,
    ProductMetaInputView, ProductMetaRow, ProductMetaRowView, ProductMetaSummary,
    ProductMetaSummaryView, ProductMetaView, ProductTag, ProductTagView,
};
use crate::rows::{
    clone_all, clone_text, distinct_texts, find_row, first_of_each, has_key, keyed,
    lemma_filter_keys, lemma_filter_nonempty, lemma_filter_refers, lemma_joined,
    lemma_keyed_position, lemma_map_step, lemma_position_is, lemma_pushed, lemma_refers_kept,
    lemma_replaced_twice, not_keyed, ordered_by, page, page_rows, position, replaced,
    retain_rows, select_rows, sort_rows,
};
use crate::store::{
    by_category_id, by_meta_id, category_name, filing_category, filing_key, filing_meta, meta_key,
    product_tag_key, product_tag_meta, rating_ok, Store, StoreView,
};
use crate::text::{holding, like, text_before, text_holds, text_lt, texts_distinct};
use crate::rows::sortable;
use crate::text::lemma_text_order;
use vstd::prelude::*;

verus! {

/// The order of category listings: by name.
pub open spec fn category_by_name() -> spec_fn(CategoryView, CategoryView) -> bool {
    |a: CategoryView, b: CategoryView| text_lt(a.name, b.name)
}

/// The order of tags: as texts sort.
pub open spec fn tag_by_text() -> spec_fn(Seq<char>, Seq<char>) -> bool {
    |a: Seq<char>, b: Seq<char>| text_lt(a, b)
}

/// The category that is made under `id`.
pub open spec fn category_made(
    id: Seq<char>,
    name: Seq<char>,
    color: Option<Seq<char>>,
    now: Seq<char>,
) -> CategoryView {
    CategoryView { id, name, color, created_at: now }
}

/// Whether a category can be created: its identifier and its name are free.
pub open spec fn category_creatable(s: StoreView, id: Seq<char>, name: Seq<char>) -> bool {
    !has_key(s.categories, by_category_id(), id) && !has_key(s.categories, category_name(), name)
}

/// Why a category that cannot be created is refused: its identifier is
/// taken, or else its name.
pub open spec fn category_refused(s: StoreView, id: Seq<char>, name: Seq<char>) -> StoreError {
    if has_key(s.categories, by_category_id(), id) {
        StoreError::Constraint(Rule::IdentifierTaken)
    } else {
        StoreError::Constraint(Rule::NameTaken)
    }
}

/// The store after the category `id` was deleted, and with it every filing
/// under it. The notes that were filed under it stay.
pub open spec fn category_deleted(s: StoreView, id: Seq<char>) -> StoreView {
    StoreView {
        categories: s.categories.filter(not_keyed(by_category_id(), id)),
        product_categories: s.product_categories.filter(not_keyed(filing_category(), id)),
        ..s
    }
}

/// The rows that the tags `tags` of the notes `meta` make.
pub open spec fn meta_tags_made(meta: Seq<char>, tags: Seq<Seq<char>>, now: Seq<char>) -> Seq<
    ProductTagView,
> {
    tags.map_values(|t: Seq<char>| ProductTagView { meta_id: meta, tag: t, created_at: now })
}

/// The rows that file the notes `meta` under the categories `categories`.
pub open spec fn filings_made(
    meta: Seq<char>,
    categories: Seq<Seq<char>>,
    now: Seq<char>,
) -> Seq<ProductCategoryView> {
    categories.map_values(
        |c: Seq<char>| ProductCategoryView { meta_id: meta, category_id: c, created_at: now },
    )
}

/// The index of the notes on the product `item` of `provider`.
pub open spec fn meta_at(s: StoreView, provider: Seq<char>, item: i64) -> int {
    position(s.product_metas, keyed(meta_key(), (provider, item)))
}

/// The identifier of the notes on a product once they are saved: the one
/// they have, or else `fresh`.
pub open spec fn meta_id_for(s: StoreView, fresh: Seq<char>, provider: Seq<char>, item: i64) -> Seq<
    char,
> {
    if meta_at(s, provider, item) < s.product_metas.len() {
        s.product_metas[meta_at(s, provider, item)].id
    } else {
        fresh
    }
}

/// Whether notes on a product can be saved: the rating, where given, lies
/// between 1 and 10, no tag and no category comes twice, every category
/// exists, and where the product has no notes yet the identifier for them
/// is free.
pub open spec fn meta_savable(
    s: StoreView,
    fresh: Seq<char>,
    provider: Seq<char>,
    item: i64,
    input: ProductMetaInputView,
) -> bool {
    &&& rating_ok(input.rating)
    &&& input.tags.no_duplicates()
    &&& input.category_ids.no_duplicates()
    &&& forall|i: int|
        0 <= i < input.category_ids.len() ==> has_key(
            s.categories,
            by_category_id(),
            #[trigger] input.category_ids[i],
        )
    &&& (has_key(s.product_metas, meta_key(), (provider, item)) || !has_key(
        s.product_metas,
        by_meta_id(),
        fresh,
    ))
}

/// Why notes that cannot be saved are refused, the first rule that is
/// broken: the rating lies outside 1 to 10, a tag comes twice, a category
/// comes twice, a category does not exist, or the identifier for new notes
/// is taken.
pub open spec fn meta_refused(
    s: StoreView,
    fresh: Seq<char>,
    provider: Seq<char>,
    item: i64,
    input: ProductMetaInputView,
) -> StoreError {
    if !rating_ok(input.rating) {
        StoreError::Constraint(Rule::Rating)
    } else if !input.tags.no_duplicates() {
        StoreError::Constraint(Rule::TagTwice)
    } else if !input.category_ids.no_duplicates() {
        StoreError::Constraint(Rule::CategoryTwice)
    } else if !(forall|i: int|
        0 <= i < input.category_ids.len() ==> has_key(
            s.categories,
            by_category_id(),
            #[trigger] input.category_ids[i],
        )) {
        StoreError::Constraint(Rule::CategoryMissing)
    } else {
        StoreError::Constraint(Rule::IdentifierTaken)
    }
}

/// The stored notes `row` after a save of `input` at `now`.
pub open spec fn meta_edited(
    row: ProductMetaRowView,
    input: ProductMetaInputView,
    now: Seq<char>,
) -> ProductMetaRowView {
    ProductMetaRowView {
        memo: input.memo,
        url: input.url,
        rating: input.rating,
        updated_at: now,
        ..row
    }
}

/// The row that new notes make.
pub open spec fn meta_made(
    id: Seq<char>,
    provider: Seq<char>,
    item: i64,
    input: ProductMetaInputView,
    now: Seq<char>,
) -> ProductMetaRowView {
    ProductMetaRowView {
        id,
        provider,
        item_id: item,
        memo: input.memo,
        url: input.url,
        rating: input.rating,
        created_at: now,
        updated_at: now,
    }
}

/// The store after the notes on the product `item` of `provider` were
/// saved: the memo, the link and the rating are those handed in, and the
/// tags and the filings of the notes are replaced by those handed in.
pub open spec fn meta_saved(
    s: StoreView,
    fresh: Seq<char>,
    provider: Seq<char>,
    item: i64,
    input: ProductMetaInputView,
    now: Seq<char>,
) -> StoreView {
    let at = meta_at(s, provider, item);
    let id = meta_id_for(s, fresh, provider, item);
    StoreView {
        product_metas: if at < s.product_metas.len() {
            s.product_metas.update(at, meta_edited(s.product_metas[at], input, now))
        } else {
            s.product_metas.push(meta_made(fresh, provider, item, input, now))
        },
        product_tags: replaced(
            s.product_tags,
            meta_tags_made(id, input.tags, now),
            product_tag_meta(),
            id,
        ),
        product_categories: replaced(
            s.product_categories,
            filings_made(id, input.category_ids, now),
            filing_meta(),
            id,
        ),
        ..s
    }
}

/// The store after the notes on the product `item` of `provider` were
/// deleted, and with them their tags and filings.
pub open spec fn meta_deleted(s: StoreView, provider: Seq<char>, item: i64) -> StoreView {
    let id = meta_id_for(s, Seq::empty(), provider, item);
    if meta_at(s, provider, item) < s.product_metas.len() {
        StoreView {
            product_metas: s.product_metas.filter(not_keyed(meta_key(), (provider, item))),
            product_tags: s.product_tags.filter(not_keyed(product_tag_meta(), id)),
            product_categories: s.product_categories.filter(not_keyed(filing_meta(), id)),
            ..s
        }
    } else {
        s
    }
}

/// The tags of the notes `meta`, in the order they were stored.
pub open spec fn meta_tags(tags: Seq<ProductTagView>, meta: Seq<char>) -> Seq<Seq<char>> {
    tags.filter(keyed(product_tag_meta(), meta)).map_values(|t: ProductTagView| t.tag)
}

/// The test for being a category that the notes `meta` are filed under.
pub open spec fn filed_under(filings: Seq<ProductCategoryView>, meta: Seq<char>) -> spec_fn(
    CategoryView,
) -> bool {
    |c: CategoryView| has_key(filings, filing_key(), (meta, c.id))
}

/// The notes of the stored row `row` as reads return them: with their tags
/// in the order of texts and their categories by name.
pub open spec fn meta_shown(s: StoreView, row: ProductMetaRowView) -> ProductMetaView {
    ProductMetaView {
        id: row.id,
        provider: row.provider,
        item_id: row.item_id,
        memo: row.memo,
        url: row.url,
        rating: row.rating,
        tags: ordered_by(meta_tags(s.product_tags, row.id), tag_by_text()),
        categories: ordered_by(
            s.categories.filter(filed_under(s.product_categories, row.id)),
            category_by_name(),
        ),
        created_at: row.created_at,
        updated_at: row.updated_at,
    }
}

/// The notes on the product `item` of `provider`, if there are any.
pub open spec fn meta_found(s: StoreView, provider: Seq<char>, item: i64) -> Option<
    ProductMetaView,
> {
    if meta_at(s, provider, item) < s.product_metas.len() {
        Some(meta_shown(s, s.product_metas[meta_at(s, provider, item)]))
    } else {
        None
    }
}

/// The limit of a tag search where none is given.
pub const TAG_LIMIT: i64 = 20;

/// The test for holding `query`, read as a pattern.
pub open spec fn tag_holding(query: Seq<char>) -> spec_fn(Seq<char>) -> bool {
    |t: Seq<char>| like(holding(query), t)
}

/// The tags that hold `query`, read as a pattern, each once, in the order
/// of texts, and at most `limit` of them.
pub open spec fn tags_found(s: StoreView, query: Seq<char>, limit: Option<i64>) -> Seq<Seq<char>> {
    page(
        ordered_by(
            first_of_each(
                s.product_tags.map_values(|t: ProductTagView| t.tag).filter(tag_holding(query)),
            ),
            tag_by_text(),
        ),
        match limit {
            Some(n) => n,
            None => TAG_LIMIT,
        },
        0,
    )
}

/// Whether an optional text is there and not empty.
pub open spec fn filled(t: Option<Seq<char>>) -> bool {
    match t {
        Some(x) => x.len() > 0,
        None => false,
    }
}

/// Which kinds of notes the stored row `row` has.
pub open spec fn meta_summary(s: StoreView, row: ProductMetaRowView) -> ProductMetaSummaryView {
    ProductMetaSummaryView {
        item_id: row.item_id,
        has_tags: s.product_tags.filter(keyed(product_tag_meta(), row.id)).len() > 0,
        has_categories: s.product_categories.filter(keyed(filing_meta(), row.id)).len() > 0,
        has_memo: filled(row.memo),
        has_url: filled(row.url),
        rating: row.rating,
    }
}

/// The test for being notes on a product of `provider`.
pub open spec fn meta_of_provider(provider: Seq<char>) -> spec_fn(ProductMetaRowView) -> bool {
    |m: ProductMetaRowView| m.provider == provider
}

/// The categories, by name.
pub fn list_categories(store: &Store) -> (r: Vec<Category>)
    ensures
        r.deep_view() == ordered_by(store@.categories, category_by_name()),
{
    let all = clone_all(&store.categories);
    sort_rows(
        all,
        |a: &Category, b: &Category| -> (r: bool)
            ensures r == text_lt(a@.name, b@.name)
        {
            text_before(a.name.as_str(), b.name.as_str())
        },
        Ghost(category_by_name()),
    )
}

/// Whether a category with the identifier `id` is in `rows`.
fn has_category(rows: &Vec<Category>, id: &String) -> (r: bool)
    ensures
        r == has_key(rows.deep_view(), by_category_id(), id@),
{
    let at = find_row(
        rows,
        |c: &Category| -> (b: bool)
            ensures b == (c@.id == id@)
        {
            c.id == *id
        },
        Ghost(keyed(by_category_id(), id@)),
    );
    proof {
        lemma_keyed_position(rows.deep_view(), by_category_id(), id@);
    }
    at < rows.len()
}

/// Adds a category under `id` with the name `name`, as of the time `now`,
/// and returns it. Refused, with nothing changed, when the identifier or
/// the name is taken.
pub fn create_category_at(
    store: &mut Store,
    id: String,
    name: String,
    color: Option<String>,
    now: &str,
) -> (r: Result<Category, StoreError>)
    requires
        old(store).wf(),
    ensures
        final(store).wf(),
        r is Ok <==> category_creatable(old(store)@, id@, name@),
        r matches Ok(c) ==> c@ == category_made(id@, name@, color.deep_view(), now@)
            && final(store)@ == (StoreView {
            categories: old(store)@.categories.push(c@),
            ..old(store)@
        }),
        r matches Err(e) ==> e == category_refused(old(store)@, id@, name@) && final(store)@ == old(
            store,
        )@,
{
    let ghost s0 = store@;
    if has_category(&store.categories, &id) {
        return Err(StoreError::Constraint(Rule::IdentifierTaken));
    }
    let named = find_row(
        &store.categories,
        |c: &Category| -> (b: bool)
            ensures b == (c@.name == name@)
        {
            c.name == name
        },
        Ghost(keyed(category_name(), name@)),
    );
    proof {
        lemma_keyed_position(s0.categories, category_name(), name@);
    }
    if named < store.categories.len() {
        return Err(StoreError::Constraint(Rule::NameTaken));
    }
    let made = Category { id, name, color, created_at: now.to_owned() };
    let out = made.clone();
    let ghost prior = store.categories;
    store.categories.push(made);
    proof {
        lemma_pushed(prior, store.categories, made);
        let after = store@.categories;
        assert forall|i: int, j: int| 0 <= i < j < after.len() implies by_category_id()(after[i])
            != by_category_id()(after[j]) && category_name()(after[i]) != category_name()(
            after[j],
        ) by {
            assert(after[i] == s0.categories[i]);
            if j < s0.categories.len() {
                assert(after[j] == s0.categories[j]);
                assert(by_category_id()(s0.categories[i]) != by_category_id()(s0.categories[j]));
                assert(category_name()(s0.categories[i]) != category_name()(s0.categories[j]));
            } else {
                assert(by_category_id()(s0.categories[i]) != id@);
                assert(category_name()(s0.categories[i]) != name@);
            }
        }
        assert forall|k: Seq<char>| has_key(s0.categories, by_category_id(), k) implies has_key(
            after,
            by_category_id(),
            k,
        ) by {
            let w = choose|w: int|
                0 <= w < s0.categories.len() && by_category_id()(#[trigger] s0.categories[w]) == k;
            assert(after[w] == s0.categories[w]);
        }
        lemma_refers_kept(
            s0.product_categories,
            filing_category(),
            s0.categories,
            after,
            by_category_id(),
        );
        assert(store@ =~= (StoreView { categories: s0.categories.push(out@), ..s0 }));
    }
    Ok(out)
}

/// Adds a category with the name `name`, under a fresh identifier and as of
/// the current time, and returns it.
pub fn create_category(store: &mut Store, name: String, color: Option<String>) -> (r: Result<
    Category,
    StoreError,
>)
    requires
        old(store).wf(),
    ensures
        final(store).wf(),
        r matches Ok(c) ==> category_creatable(old(store)@, c@.id, name@) && c@.name == name@
            && c@.color == color.deep_view() && final(store)@ == (StoreView {
            categories: old(store)@.categories.push(c@),
            ..old(store)@
        }),
        r matches Err(e) ==> final(store)@ == old(store)@ && exists|id: Seq<char>|
            !category_creatable(old(store)@, id, name@) && e == #[trigger] category_refused(
                old(store)@,
                id,
                name@,
            ),
{
    let id = fresh_id();
    let now = utc_now();
    let ghost made = id@;
    let ghost s0 = store@;
    let r = create_category_at(store, id, name, color, now.as_str());
    proof {
        if r is Err {
            assert(!category_creatable(s0, made, name@) && r->Err_0 == category_refused(
                s0,
                made,
                name@,
            ));
        }
    }
    r
}

/// A store that is in order stays in order when a category is deleted.
pub proof fn lemma_category_deleted_wf(s: StoreView, id: Seq<char>)
    requires
        s.wf(),
    ensures
        category_deleted(s, id).wf(),
{
    let out = category_deleted(s, id);
    lemma_filter_keys(s.categories, not_keyed(by_category_id(), id), by_category_id());
    lemma_filter_keys(s.categories, not_keyed(by_category_id(), id), category_name());
    lemma_filter_keys(s.product_categories, not_keyed(filing_category(), id), filing_key());
    lemma_filter_refers(
        s.product_categories,
        not_keyed(filing_category(), id),
        filing_category(),
        s.categories,
        not_keyed(by_category_id(), id),
        by_category_id(),
    );
    assert forall|i: int| 0 <= i < out.product_categories.len() implies has_key(
        s.product_metas,
        by_meta_id(),
        filing_meta()(#[trigger] out.product_categories[i]),
    ) by {
        assert(s.product_categories.contains(out.product_categories[i]));
        let j = choose|j: int|
            0 <= j < s.product_categories.len() && s.product_categories[j]
                == out.product_categories[i];
        assert(has_key(s.product_metas, by_meta_id(), filing_meta()(s.product_categories[j])));
    }
}

/// Deletes the category `category_id`, and with it every filing under it.
/// Where there is no such category, nothing changes.
pub fn delete_category(store: &mut Store, category_id: &str)
    requires
        old(store).wf(),
    ensures
        final(store).wf(),
        final(store)@ == category_deleted(old(store)@, category_id@),
{
    let id = category_id.to_owned();
    let ghost s0 = store@;
    proof {
        lemma_category_deleted_wf(s0, id@);
    }
    retain_rows(
        &mut store.categories,
        |c: &Category| -> (b: bool)
            ensures b == (c@.id != id@)
        {
            !(c.id == id)
        },
        Ghost(not_keyed(by_category_id(), id@)),
    );
    retain_rows(
        &mut store.product_categories,
        |f: &ProductCategory| -> (b: bool)
            ensures b == (f@.category_id != id@)
        {
            !(f.category_id == id)
        },
        Ghost(not_keyed(filing_category(), id@)),
    );
    proof {
        assert(store@ =~= category_deleted(s0, id@));
    }
}

/// Notes keep their place and their identifier when they are saved again,
/// and new notes go to the end under the fresh identifier.
proof fn lemma_meta_saved_at(
    s: StoreView,
    fresh: Seq<char>,
    provider: Seq<char>,
    item: i64,
    input: ProductMetaInputView,
    now: Seq<char>,
)
    ensures
        ({
            let out = meta_saved(s, fresh, provider, item, input, now);
            &&& meta_at(out, provider, item) == meta_at(s, provider, item)
            &&& meta_at(out, provider, item) < out.product_metas.len()
            &&& out.product_metas[meta_at(out, provider, item)].id == meta_id_for(
                s,
                fresh,
                provider,
                item,
            )
            &&& meta_id_for(out, fresh, provider, item) == meta_id_for(s, fresh, provider, item)
            &&& forall|i: int|
                0 <= i < s.product_metas.len() ==> (#[trigger] out.product_metas[i]).id
                    == s.product_metas[i].id && meta_key()(out.product_metas[i]) == meta_key()(
                    s.product_metas[i],
                )
        }),
{
    let out = meta_saved(s, fresh, provider, item, input, now);
    let mine = keyed(meta_key(), (provider, item));
    lemma_keyed_position(s.product_metas, meta_key(), (provider, item));
    let at = meta_at(s, provider, item);
    assert forall|j: int| 0 <= j < at implies !mine(#[trigger] out.product_metas[j]) by {
        assert(out.product_metas[j] == s.product_metas[j]);
        assert(meta_key()(s.product_metas[j]) != (provider, item));
    }
    assert(mine(out.product_metas[at]));
    lemma_position_is(out.product_metas, mine, at);
}

/// A store that is in order stays in order when notes that can be saved
/// are saved.
pub proof fn lemma_meta_saved_wf(
    s: StoreView,
    fresh: Seq<char>,
    provider: Seq<char>,
    item: i64,
    input: ProductMetaInputView,
    now: Seq<char>,
)
    requires
        s.wf(),
        meta_savable(s, fresh, provider, item, input),
    ensures
        meta_saved(s, fresh, provider, item, input, now).wf(),
{
    reveal(replaced);
    let out = meta_saved(s, fresh, provider, item, input, now);
    let at = meta_at(s, provider, item);
    let id = meta_id_for(s, fresh, provider, item);
    lemma_meta_saved_at(s, fresh, provider, item, input, now);
    lemma_keyed_position(s.product_metas, meta_key(), (provider, item));
    let metas = out.product_metas;
    assert forall|i: int, j: int| 0 <= i < j < metas.len() implies by_meta_id()(metas[i])
        != by_meta_id()(metas[j]) && meta_key()(metas[i]) != meta_key()(metas[j]) by {
        if j < s.product_metas.len() {
            assert(by_meta_id()(s.product_metas[i]) != by_meta_id()(s.product_metas[j]));
            assert(meta_key()(s.product_metas[i]) != meta_key()(s.product_metas[j]));
        } else {
            assert(by_meta_id()(s.product_metas[i]) != fresh);
            assert(meta_key()(s.product_metas[i]) != (provider, item));
        }
    }
    assert forall|i: int| 0 <= i < metas.len() implies rating_ok((#[trigger] metas[i]).rating) by {
        if i < s.product_metas.len() && i != at {
            assert(metas[i] == s.product_metas[i]);
        }
    }
    assert forall|k: Seq<char>| has_key(s.product_metas, by_meta_id(), k) implies has_key(
        metas,
        by_meta_id(),
        k,
    ) by {
        let w = choose|w: int|
            0 <= w < s.product_metas.len() && by_meta_id()(#[trigger] s.product_metas[w]) == k;
        assert(by_meta_id()(metas[w]) == k);
    }
    assert(has_key(metas, by_meta_id(), id)) by {
        assert(by_meta_id()(metas[at]) == id);
    }
    // Tags.
    let keep_tags = not_keyed(product_tag_meta(), id);
    let kept_tags = s.product_tags.filter(keep_tags);
    let made_tags = meta_tags_made(id, input.tags, now);
    lemma_filter_keys(s.product_tags, keep_tags, product_tag_key());
    assert forall|i: int| 0 <= i < kept_tags.len() implies has_key(
        metas,
        by_meta_id(),
        product_tag_meta()(#[trigger] kept_tags[i]),
    ) by {
        assert(s.product_tags.contains(kept_tags[i]));
        let j = choose|j: int| 0 <= j < s.product_tags.len() && s.product_tags[j] == kept_tags[i];
        assert(has_key(s.product_metas, by_meta_id(), product_tag_meta()(s.product_tags[j])));
    }
    assert forall|i: int, j: int| 0 <= i < j < made_tags.len() implies product_tag_key()(
        made_tags[i],
    ) != product_tag_key()(made_tags[j]) by {
        assert(input.tags[i] != input.tags[j]);
    }
    assert forall|i: int, j: int|
        #![trigger kept_tags[i], made_tags[j]]
        0 <= i < kept_tags.len() && 0 <= j < made_tags.len() implies product_tag_key()(
        kept_tags[i],
    ) != product_tag_key()(made_tags[j]) by {
        assert(keep_tags(kept_tags[i]));
    }
    assert forall|i: int| 0 <= i < made_tags.len() implies has_key(
        metas,
        by_meta_id(),
        product_tag_meta()(#[trigger] made_tags[i]),
    ) by {}
    lemma_joined(kept_tags, made_tags, product_tag_key(), product_tag_meta(), metas, by_meta_id());
    // Filings.
    let keep_filed = not_keyed(filing_meta(), id);
    let kept_filed = s.product_categories.filter(keep_filed);
    let made_filed = filings_made(id, input.category_ids, now);
    lemma_filter_keys(s.product_categories, keep_filed, filing_key());
    assert forall|i: int| 0 <= i < kept_filed.len() implies has_key(
        metas,
        by_meta_id(),
        filing_meta()(#[trigger] kept_filed[i]),
    ) && has_key(s.categories, by_category_id(), filing_category()(kept_filed[i])) by {
        assert(s.product_categories.contains(kept_filed[i]));
        let j = choose|j: int|
            0 <= j < s.product_categories.len() && s.product_categories[j] == kept_filed[i];
        assert(has_key(s.product_metas, by_meta_id(), filing_meta()(s.product_categories[j])));
        assert(has_key(s.categories, by_category_id(), filing_category()(s.product_categories[j])));
    }
    assert forall|i: int, j: int| 0 <= i < j < made_filed.len() implies filing_key()(made_filed[i])
        != filing_key()(made_filed[j]) by {
        assert(input.category_ids[i] != input.category_ids[j]);
    }
    assert forall|i: int, j: int|
        #![trigger kept_filed[i], made_filed[j]]
        0 <= i < kept_filed.len() && 0 <= j < made_filed.len() implies filing_key()(kept_filed[i])
        != filing_key()(made_filed[j]) by {
        assert(keep_filed(kept_filed[i]));
    }
    assert forall|i: int| 0 <= i < made_filed.len() implies has_key(
        metas,
        by_meta_id(),
        filing_meta()(#[trigger] made_filed[i]),
    ) && has_key(s.categories, by_category_id(), filing_category()(made_filed[i])) by {
        assert(has_key(s.categories, by_category_id(), input.category_ids[i]));
    }
    lemma_joined(kept_filed, made_filed, filing_key(), filing_meta(), metas, by_meta_id());
    lemma_joined(
        kept_filed,
        made_filed,
        filing_key(),
        filing_category(),
        s.categories,
        by_category_id(),
    );
}

/// Saving the same notes twice leaves the tags and the filings of the
/// product as saving them once: the second save can always be made, it adds
/// no row to any table, the product's tags are the tags handed in and its
/// filings the categories handed in, and where both saves are made at the
/// same time the store is the same after the second as after the first.
pub proof fn lemma_meta_saved_twice(
    s: StoreView,
    fresh: Seq<char>,
    other: Seq<char>,
    provider: Seq<char>,
    item: i64,
    input: ProductMetaInputView,
    now: Seq<char>,
    later: Seq<char>,
)
    requires
        s.wf(),
        meta_savable(s, fresh, provider, item, input),
    ensures
        ({
            let once = meta_saved(s, fresh, provider, item, input, now);
            let twice = meta_saved(once, other, provider, item, input, later);
            let id = meta_id_for(s, fresh, provider, item);
            &&& meta_savable(once, other, provider, item, input)
            &&& twice.product_metas.len() == once.product_metas.len()
            &&& twice.product_tags.len() == once.product_tags.len()
            &&& twice.product_categories.len() == once.product_categories.len()
            &&& once.product_tags.filter(keyed(product_tag_meta(), id)) == meta_tags_made(
                id,
                input.tags,
                now,
            )
            &&& twice.product_tags.filter(keyed(product_tag_meta(), id)) == meta_tags_made(
                id,
                input.tags,
                later,
            )
            &&& once.product_categories.filter(keyed(filing_meta(), id)) == filings_made(
                id,
                input.category_ids,
                now,
            )
            &&& twice.product_categories.filter(keyed(filing_meta(), id)) == filings_made(
                id,
                input.category_ids,
                later,
            )
            &&& later == now ==> twice == once
        }),
{
    let once = meta_saved(s, fresh, provider, item, input, now);
    let twice = meta_saved(once, other, provider, item, input, later);
    let id = meta_id_for(s, fresh, provider, item);
    let at = meta_at(s, provider, item);
    lemma_keyed_position(s.product_metas, meta_key(), (provider, item));
    lemma_meta_saved_at(s, fresh, provider, item, input, now);
    assert(meta_at(once, provider, item) == at && 0 <= at < once.product_metas.len());
    assert(meta_id_for(once, other, provider, item) == id);
    assert(has_key(once.product_metas, meta_key(), (provider, item))) by {
        lemma_keyed_position(once.product_metas, meta_key(), (provider, item));
    }
    lemma_replaced_twice(
        s.product_tags,
        meta_tags_made(id, input.tags, now),
        meta_tags_made(id, input.tags, later),
        product_tag_meta(),
        id,
    );
    lemma_replaced_twice(
        s.product_categories,
        filings_made(id, input.category_ids, now),
        filings_made(id, input.category_ids, later),
        filing_meta(),
        id,
    );
    assert(twice.product_metas == once.product_metas.update(
        at,
        meta_edited(once.product_metas[at], input, later),
    ));
    assert(twice.product_tags == replaced(
        once.product_tags,
        meta_tags_made(id, input.tags, later),
        product_tag_meta(),
        id,
    ));
    assert(twice.product_categories == replaced(
        once.product_categories,
        filings_made(id, input.category_ids, later),
        filing_meta(),
        id,
    ));
    if later == now {
        let row = once.product_metas[at];
        if at < s.product_metas.len() {
            assert(row == meta_edited(s.product_metas[at], input, now));
        } else {
            assert(row == meta_made(fresh, provider, item, input, now));
        }
        assert(meta_edited(row, input, now) == row);
        assert(twice.product_metas =~= once.product_metas);
    }
}

/// Adds a row for each of the tags `tags` of the notes `meta`.
fn push_meta_tags(table: &mut Vec<ProductTag>, meta: &String, tags: &Vec<String>, now: &String)
    ensures
        final(table).deep_view() == old(table).deep_view() + meta_tags_made(
            meta@,
            tags.deep_view(),
            now@,
        ),
{
    let ghost before = table.deep_view();
    let ghost made = meta_tags_made(meta@, tags.deep_view(), now@);
    let mut i: usize = 0;
    proof {
        assert(table.deep_view() =~= before + made.take(0));
    }
    while i < tags.len()
        invariant
            i <= tags.len(),
            made == meta_tags_made(meta@, tags.deep_view(), now@),
            table.deep_view() =~= before + made.take(i as int),
        decreases tags.len() - i,
    {
        let row = ProductTag { meta_id: meta.clone(), tag: tags[i].clone(), created_at: now.clone() };
        let ghost prior = *table;
        table.push(row);
        proof {
            lemma_pushed(prior, *table, row);
            assert(row@ == made[i as int]);
            assert(made.take(i as int + 1) =~= made.take(i as int).push(made[i as int]));
        }
        i += 1;
    }
    proof {
        assert(made.take(i as int) =~= made);
    }
}

/// Adds a row that files the notes `meta` under each of `categories`.
fn push_filings(
    table: &mut Vec<ProductCategory>,
    meta: &String,
    categories: &Vec<String>,
    now: &String,
)
    ensures
        final(table).deep_view() == old(table).deep_view() + filings_made(
            meta@,
            categories.deep_view(),
            now@,
        ),
{
    let ghost before = table.deep_view();
    let ghost made = filings_made(meta@, categories.deep_view(), now@);
    let mut i: usize = 0;
    proof {
        assert(table.deep_view() =~= before + made.take(0));
    }
    while i < categories.len()
        invariant
            i <= categories.len(),
            made == filings_made(meta@, categories.deep_view(), now@),
            table.deep_view() =~= before + made.take(i as int),
        decreases categories.len() - i,
    {
        let row = ProductCategory {
            meta_id: meta.clone(),
            category_id: categories[i].clone(),
            created_at: now.clone(),
        };
        let ghost prior = *table;
        table.push(row);
        proof {
            lemma_pushed(prior, *table, row);
            assert(row@ == made[i as int]);
            assert(made.take(i as int + 1) =~= made.take(i as int).push(made[i as int]));
        }
        i += 1;
    }
    proof {
        assert(made.take(i as int) =~= made);
    }
}

/// The index in `rows` of the notes on the product `item` of `provider`,
/// or their number.
fn find_meta(rows: &Vec<ProductMetaRow>, provider: &String, item: i64) -> (r: usize)
    ensures
        r as int == position(rows.deep_view(), keyed(meta_key(), (provider@, item))),
        r <= rows.len(),
        r < rows.len() <==> has_key(rows.deep_view(), meta_key(), (provider@, item)),
{
    let at = find_row(
        rows,
        |m: &ProductMetaRow| -> (b: bool)
            ensures b == ((m@.provider, m@.item_id) == (provider@, item))
        {
            m.provider == *provider && m.item_id == item
        },
        Ghost(keyed(meta_key(), (provider@, item))),
    );
    proof {
        lemma_keyed_position(rows.deep_view(), meta_key(), (provider@, item));
    }
    at
}

/// Whether the notes `meta` are filed under the category `category`.
fn is_filed(rows: &Vec<ProductCategory>, meta: &String, category: &String) -> (r: bool)
    ensures
        r == has_key(rows.deep_view(), filing_key(), (meta@, category@)),
{
    let at = find_row(
        rows,
        |f: &ProductCategory| -> (b: bool)
            ensures b == ((f@.meta_id, f@.category_id) == (meta@, category@))
        {
            f.meta_id == *meta && f.category_id == *category
        },
        Ghost(keyed(filing_key(), (meta@, category@))),
    );
    proof {
        lemma_keyed_position(rows.deep_view(), filing_key(), (meta@, category@));
    }
    at < rows.len()
}

/// The notes of the stored row `row` as reads return them.
fn show_meta(store: &Store, row: &ProductMetaRow) -> (r: ProductMeta)
    ensures
        r@ == meta_shown(store@, row@),
{
    let picked = select_rows(
        &store.product_tags,
        |t: &ProductTag| -> (b: bool)
            ensures b == (t@.meta_id == row@.id)
        {
            t.meta_id == row.id
        },
        Ghost(keyed(product_tag_meta(), row@.id)),
    );
    let mut tags: Vec<String> = Vec::new();
    let mut i: usize = 0;
    while i < picked.len()
        invariant
            i <= picked.len(),
            tags.deep_view() =~= picked.deep_view().take(i as int).map_values(
                |t: ProductTagView| t.tag,
            ),
        decreases picked.len() - i,
    {
        let tag = picked[i].tag.clone();
        let ghost prior = tags;
        tags.push(tag);
        proof {
            lemma_pushed(prior, tags, tag);
            lemma_map_step(picked.deep_view(), |t: ProductTagView| t.tag, i as int);
        }
        i += 1;
    }
    proof {
        assert(picked.deep_view().take(i as int) =~= picked.deep_view());
    }
    let sorted_tags = sort_rows(
        tags,
        |a: &String, b: &String| -> (r: bool)
            ensures r == text_lt(a@, b@)
        {
            text_before(a.as_str(), b.as_str())
        },
        Ghost(tag_by_text()),
    );
    let filings = &store.product_categories;
    let filed = select_rows(
        &store.categories,
        |c: &Category| -> (b: bool)
            ensures b == has_key(filings.deep_view(), filing_key(), (row@.id, c@.id))
        {
            is_filed(filings, &row.id, &c.id)
        },
        Ghost(filed_under(filings.deep_view(), row@.id)),
    );
    let sorted_categories = sort_rows(
        filed,
        |a: &Category, b: &Category| -> (r: bool)
            ensures r == text_lt(a@.name, b@.name)
        {
            text_before(a.name.as_str(), b.name.as_str())
        },
        Ghost(category_by_name()),
    );
    ProductMeta {
        id: row.id.clone(),
        provider: row.provider.clone(),
        item_id: row.item_id,
        memo: clone_text(&row.memo),
        url: clone_text(&row.url),
        rating: row.rating,
        tags: sorted_tags,
        categories: sorted_categories,
        created_at: row.created_at.clone(),
        updated_at: row.updated_at.clone(),
    }
}

/// The notes on the product `item_id` of `provider`, if there are any, with
/// their tags in the order of texts and their categories by name.
pub fn get_product_meta(store: &Store, provider: &str, item_id: i64) -> (r: Option<ProductMeta>)
    ensures
        r.deep_view() == meta_found(store@, provider@, item_id),
{
    let provider = provider.to_owned();
    let at = find_meta(&store.product_metas, &provider, item_id);
    if at < store.product_metas.len() {
        Some(show_meta(store, &store.product_metas[at]))
    } else {
        None
    }
}

/// Whether every text of `ids` is the identifier of a category.
fn categories_exist(rows: &Vec<Category>, ids: &Vec<String>) -> (r: bool)
    ensures
        r == forall|i: int|
            0 <= i < ids.len() ==> has_key(
                rows.deep_view(),
                by_category_id(),
                #[trigger] ids.deep_view()[i],
            ),
{
    let mut i: usize = 0;
    while i < ids.len()
        invariant
            i <= ids.len(),
            forall|k: int|
                0 <= k < i ==> has_key(
                    rows.deep_view(),
                    by_category_id(),
                    #[trigger] ids.deep_view()[k],
                ),
        decreases ids.len() - i,
    {
        if !has_category(rows, &ids[i]) {
            proof {
                assert(!has_key(rows.deep_view(), by_category_id(), ids.deep_view()[i as int]));
            }
            return false;
        }
        i += 1;
    }
    true
}

/// Saves the notes `input` on the product `item_id` of `provider`, as of
/// the time `now`, and returns the notes as they are stored after that.
/// Where the product has no notes yet they are stored under `fresh`. The
/// tags and the filings of the notes are replaced by those handed in.
/// Refused, with nothing changed, when the notes cannot be saved.
pub fn save_product_meta_at(
    store: &mut Store,
    fresh: String,
    provider: &str,
    item_id: i64,
    input: ProductMetaInput,
    now: &str,
) -> (r: Result<ProductMeta, StoreError>)
    requires
        old(store).wf(),
    ensures
        final(store).wf(),
        r is Ok <==> meta_savable(old(store)@, fresh@, provider@, item_id, input@),
        r matches Ok(m) ==> final(store)@ == meta_saved(
            old(store)@,
            fresh@,
            provider@,
            item_id,
            input@,
            now@,
        ) && Some(m@) == meta_found(final(store)@, provider@, item_id),
        r matches Err(e) ==> e == meta_refused(old(store)@, fresh@, provider@, item_id, input@)
            && final(store)@ == old(store)@,
{
    let provider = provider.to_owned();
    let now = now.to_owned();
    let ghost s0 = store@;
    let rated = match input.rating {
        Some(n) => 1 <= n && n <= 10,
        None => true,
    };
    if !rated {
        return Err(StoreError::Constraint(Rule::Rating));
    }
    if !texts_distinct(&input.tags) {
        return Err(StoreError::Constraint(Rule::TagTwice));
    }
    if !texts_distinct(&input.category_ids) {
        return Err(StoreError::Constraint(Rule::CategoryTwice));
    }
    if !categories_exist(&store.categories, &input.category_ids) {
        return Err(StoreError::Constraint(Rule::CategoryMissing));
    }
    let at = find_meta(&store.product_metas, &provider, item_id);
    if at >= store.product_metas.len() {
        let taken = find_row(
            &store.product_metas,
            |m: &ProductMetaRow| -> (b: bool)
                ensures b == (m@.id == fresh@)
            {
                m.id == fresh
            },
            Ghost(keyed(by_meta_id(), fresh@)),
        );
        proof {
            lemma_keyed_position(s0.product_metas, by_meta_id(), fresh@);
        }
        if taken < store.product_metas.len() {
            return Err(StoreError::Constraint(Rule::IdentifierTaken));
        }
    }
    proof {
        lemma_meta_saved_wf(s0, fresh@, provider@, item_id, input@, now@);
        lemma_meta_saved_at(s0, fresh@, provider@, item_id, input@, now@);
    }
    let id: String;
    if at < store.product_metas.len() {
        id = store.product_metas[at].id.clone();
        store.product_metas[at].memo = input.memo;
        store.product_metas[at].url = input.url;
        store.product_metas[at].rating = input.rating;
        store.product_metas[at].updated_at = now.clone();
        proof {
            assert(store.product_metas.deep_view() =~= s0.product_metas.update(
                at as int,
                meta_edited(s0.product_metas[at as int], input@, now@),
            ));
        }
    } else {
        id = fresh.clone();
        let row = ProductMetaRow {
            id: fresh,
            provider: provider.clone(),
            item_id,
            memo: input.memo,
            url: input.url,
            rating: input.rating,
            created_at: now.clone(),
            updated_at: now.clone(),
        };
        let ghost prior = store.product_metas;
        store.product_metas.push(row);
        proof {
            lemma_pushed(prior, store.product_metas, row);
        }
    }
    retain_rows(
        &mut store.product_tags,
        |t: &ProductTag| -> (b: bool)
            ensures b == (t@.meta_id != id@)
        {
            !(t.meta_id == id)
        },
        Ghost(not_keyed(product_tag_meta(), id@)),
    );
    push_meta_tags(&mut store.product_tags, &id, &input.tags, &now);
    retain_rows(
        &mut store.product_categories,
        |f: &ProductCategory| -> (b: bool)
            ensures b == (f@.meta_id != id@)
        {
            !(f.meta_id == id)
        },
        Ghost(not_keyed(filing_meta(), id@)),
    );
    push_filings(&mut store.product_categories, &id, &input.category_ids, &now);
    proof {
        reveal(replaced);
        assert(store@ =~= meta_saved(s0, fresh@, provider@, item_id, input@, now@));
    }
    let shown = show_meta(store, &store.product_metas[at]);
    Ok(shown)
}

/// Saves the notes `input` on the product `item_id` of `provider`, as of
/// the current time, and returns the notes as they are stored after that.
/// Where the product has notes, they are saved whenever the rating, the
/// tags and the categories handed in keep to their rules; where it has
/// none, the fresh identifier drawn for them must be free as well.
pub fn save_product_meta(store: &mut Store, provider: &str, item_id: i64, input: ProductMetaInput) -> (r:
    Result<ProductMeta, StoreError>)
    requires
        old(store).wf(),
    ensures
        final(store).wf(),
        has_key(old(store)@.product_metas, meta_key(), (provider@, item_id)) ==> (r is Ok
            <==> meta_savable(old(store)@, Seq::empty(), provider@, item_id, input@)),
        r matches Ok(m) ==> Some(m@) == meta_found(final(store)@, provider@, item_id)
            && exists|fresh: Seq<char>, now: Seq<char>|
            meta_savable(old(store)@, fresh, provider@, item_id, input@) && final(store)@
                == meta_saved(old(store)@, fresh, provider@, item_id, input@, now),
        r matches Err(e) ==> final(store)@ == old(store)@ && exists|fresh: Seq<char>|
            !meta_savable(old(store)@, fresh, provider@, item_id, input@) && e
                == #[trigger] meta_refused(old(store)@, fresh, provider@, item_id, input@),
{
    let fresh = fresh_id();
    let now = utc_now();
    let ghost s0 = store@;
    let ghost given = input@;
    let r = save_product_meta_at(store, fresh, provider, item_id, input, now.as_str());
    proof {
        if r is Err {
            assert(!meta_savable(s0, fresh@, provider@, item_id, given) && r->Err_0 == meta_refused(
                s0,
                fresh@,
                provider@,
                item_id,
                given,
            ));
        }
        if r is Ok {
            assert(meta_savable(s0, fresh@, provider@, item_id, given) && store@ == meta_saved(
                s0,
                fresh@,
                provider@,
                item_id,
                given,
                now@,
            ));
        }
    }
    r
}

/// A store that is in order stays in order when notes are deleted.
pub proof fn lemma_meta_deleted_wf(s: StoreView, provider: Seq<char>, item: i64)
    requires
        s.wf(),
    ensures
        meta_deleted(s, provider, item).wf(),
{
    let out = meta_deleted(s, provider, item);
    let at = meta_at(s, provider, item);
    if at < s.product_metas.len() {
        let id = s.product_metas[at].id;
        let keep = not_keyed(meta_key(), (provider, item));
        lemma_keyed_position(s.product_metas, meta_key(), (provider, item));
        lemma_filter_keys(s.product_metas, keep, by_meta_id());
        lemma_filter_keys(s.product_metas, keep, meta_key());
        assert forall|i: int| 0 <= i < out.product_metas.len() implies rating_ok(
            (#[trigger] out.product_metas[i]).rating,
        ) by {
            assert(s.product_metas.contains(out.product_metas[i]));
            let j = choose|j: int|
                0 <= j < s.product_metas.len() && s.product_metas[j] == out.product_metas[i];
            assert(rating_ok(s.product_metas[j].rating));
        }
        assert forall|j: int|
            0 <= j < s.product_metas.len() && by_meta_id()(#[trigger] s.product_metas[j])
                != id implies keep(s.product_metas[j]) by {
            if j < at {
                assert(meta_key()(s.product_metas[j]) != meta_key()(s.product_metas[at]));
            } else if j > at {
                assert(meta_key()(s.product_metas[at]) != meta_key()(s.product_metas[j]));
            }
        }
        lemma_filter_keys(s.product_tags, not_keyed(product_tag_meta(), id), product_tag_key());
        lemma_filter_refers(
            s.product_tags,
            not_keyed(product_tag_meta(), id),
            product_tag_meta(),
            s.product_metas,
            keep,
            by_meta_id(),
        );
        lemma_filter_keys(s.product_categories, not_keyed(filing_meta(), id), filing_key());
        lemma_filter_refers(
            s.product_categories,
            not_keyed(filing_meta(), id),
            filing_meta(),
            s.product_metas,
            keep,
            by_meta_id(),
        );
        assert forall|i: int| 0 <= i < out.product_categories.len() implies has_key(
            s.categories,
            by_category_id(),
            filing_category()(#[trigger] out.product_categories[i]),
        ) by {
            assert(s.product_categories.contains(out.product_categories[i]));
            let j = choose|j: int|
                0 <= j < s.product_categories.len() && s.product_categories[j]
                    == out.product_categories[i];
            assert(has_key(
                s.categories,
                by_category_id(),
                filing_category()(s.product_categories[j]),
            ));
        }
    }
}

/// Deletes the notes on the product `item_id` of `provider`, and with them
/// their tags and filings. Where there are none, nothing changes.
pub fn delete_product_meta(store: &mut Store, provider: &str, item_id: i64)
    requires
        old(store).wf(),
    ensures
        final(store).wf(),
        final(store)@ == meta_deleted(old(store)@, provider@, item_id),
{
    let provider = provider.to_owned();
    let ghost s0 = store@;
    proof {
        lemma_meta_deleted_wf(s0, provider@, item_id);
    }
    let at = find_meta(&store.product_metas, &provider, item_id);
    if at < store.product_metas.len() {
        let id = store.product_metas[at].id.clone();
        retain_rows(
            &mut store.product_metas,
            |m: &ProductMetaRow| -> (b: bool)
                ensures b == ((m@.provider, m@.item_id) != (provider@, item_id))
            {
                !(m.provider == provider && m.item_id == item_id)
            },
            Ghost(not_keyed(meta_key(), (provider@, item_id))),
        );
        retain_rows(
            &mut store.product_tags,
            |t: &ProductTag| -> (b: bool)
                ensures b == (t@.meta_id != id@)
            {
                !(t.meta_id == id)
            },
            Ghost(not_keyed(product_tag_meta(), id@)),
        );
        retain_rows(
            &mut store.product_categories,
            |f: &ProductCategory| -> (b: bool)
                ensures b == (f@.meta_id != id@)
            {
                !(f.meta_id == id)
            },
            Ghost(not_keyed(filing_meta(), id@)),
        );
        proof {
            assert(store@ =~= meta_deleted(s0, provider@, item_id));
        }
    }
}

/// The tags of products that hold `query`, read as a pattern in which `%`
/// stands for any run of characters and `_` for any one, each tag once, in
/// the order of texts, and at most `limit` of them: 20 where no limit is
/// given, all where it is negative.
pub fn search_tags(store: &Store, query: &str, limit: Option<i64>) -> (r: Vec<String>)
    ensures
        r.deep_view() == tags_found(store@, query@, limit),
{
    let limit = match limit {
        Some(n) => n,
        None => TAG_LIMIT,
    };
    let mut all: Vec<String> = Vec::new();
    let mut i: usize = 0;
    while i < store.product_tags.len()
        invariant
            i <= store.product_tags.len(),
            all.deep_view() =~= store.product_tags.deep_view().take(i as int).map_values(
                |t: ProductTagView| t.tag,
            ),
        decreases store.product_tags.len() - i,
    {
        let tag = store.product_tags[i].tag.clone();
        let ghost prior = all;
        all.push(tag);
        proof {
            lemma_pushed(prior, all, tag);
            lemma_map_step(store.product_tags.deep_view(), |t: ProductTagView| t.tag, i as int);
        }
        i += 1;
    }
    proof {
        assert(store.product_tags.deep_view().take(i as int) =~= store.product_tags.deep_view());
    }
    let hits = select_rows(
        &all,
        |t: &String| -> (b: bool)
            ensures b == like(holding(query@), t@)
        {
            text_holds(t.as_str(), query)
        },
        Ghost(tag_holding(query@)),
    );
    let once = distinct_texts(&hits);
    let sorted = sort_rows(
        once,
        |a: &String, b: &String| -> (r: bool)
            ensures r == text_lt(a@, b@)
        {
            text_before(a.as_str(), b.as_str())
        },
        Ghost(tag_by_text()),
    );
    page_rows(sorted, limit, 0)
}

/// Whether an optional text is there and not empty.
fn is_filled(t: &Option<String>) -> (r: bool)
    ensures
        r == filled(t.deep_view()),
{
    match t {
        Some(x) => !x.as_str().is_empty(),
        None => false,
    }
}

/// Which kinds of notes the stored row `row` has.
fn summarize(store: &Store, row: &ProductMetaRow) -> (r: ProductMetaSummary)
    ensures
        r@ == meta_summary(store@, row@),
{
    let tagged = find_row(
        &store.product_tags,
        |t: &ProductTag| -> (b: bool)
            ensures b == (t@.meta_id == row@.id)
        {
            t.meta_id == row.id
        },
        Ghost(keyed(product_tag_meta(), row@.id)),
    );
    let filed = find_row(
        &store.product_categories,
        |f: &ProductCategory| -> (b: bool)
            ensures b == (f@.meta_id == row@.id)
        {
            f.meta_id == row.id
        },
        Ghost(keyed(filing_meta(), row@.id)),
    );
    proof {
        lemma_filter_nonempty(store@.product_tags, keyed(product_tag_meta(), row@.id));
        lemma_filter_nonempty(store@.product_categories, keyed(filing_meta(), row@.id));
    }
    ProductMetaSummary {
        item_id: row.item_id,
        has_tags: tagged < store.product_tags.len(),
        has_categories: filed < store.product_categories.len(),
        has_memo: is_filled(&row.memo),
        has_url: is_filled(&row.url),
        rating: row.rating,
    }
}

/// For each product of `provider` that has notes, which kinds of notes it
/// has, in the order the notes were first saved.
pub fn list_product_meta_summaries(store: &Store, provider: &str) -> (r: Vec<ProductMetaSummary>)
    ensures
        r.deep_view() == store@.product_metas.filter(meta_of_provider(provider@)).map_values(
            |m: ProductMetaRowView| meta_summary(store@, m),
        ),
{
    let provider = provider.to_owned();
    let picked = select_rows(
        &store.product_metas,
        |m: &ProductMetaRow| -> (b: bool)
            ensures b == (m@.provider == provider@)
        {
            m.provider == provider
        },
        Ghost(meta_of_provider(provider@)),
    );
    let mut out: Vec<ProductMetaSummary> = Vec::new();
    let mut i: usize = 0;
    while i < picked.len()
        invariant
            i <= picked.len(),
            out.deep_view() =~= picked.deep_view().take(i as int).map_values(
                |m: ProductMetaRowView| meta_summary(store@, m),
            ),
        decreases picked.len() - i,
    {
        let summary = summarize(store, &picked[i]);
        let ghost prior = out;
        out.push(summary);
        proof {
            lemma_pushed(prior, out, summary);
            lemma_map_step(
                picked.deep_view(),
                |m: ProductMetaRowView| meta_summary(store@, m),
                i as int,
            );
        }
        i += 1;
    }
    proof {
        assert(picked.deep_view().take(i as int) =~= picked.deep_view());
    }
    out
}

/// The orders of the listings of categories and tags can be ordered by.
pub proof fn lemma_catalog_orders()
    ensures
        sortable(category_by_name()),
        sortable(tag_by_text()),
{
    lemma_text_order();
}

} // verus!
