use shop_ledger::catalog::{
    create_category, create_category_at, delete_category, delete_product_meta, get_product_meta,
    list_categories, list_product_meta_summaries, save_product_meta, save_product_meta_at,
    search_tags,
};
use shop_ledger::error::{Rule, StoreError};
use shop_ledger::records::catalog::{ProductMetaInput, ProductMetaSummary};
use shop_ledger::snapshot::snapshot;
use shop_ledger::store::Store;

fn notes(memo: Option<&str>, rating: Option<i32>, tags: &[&str], cats: &[&str]) -> ProductMetaInput {
    ProductMetaInput {
        memo: memo.map(|m| m.to_string()),
        url: None,
        rating,
        tags: tags.iter().map(|t| t.to_string()).collect(),
        category_ids: cats.iter().map(|t| t.to_string()).collect(),
    }
}

fn store_with_categories() -> Store {
    let mut store = Store::new();
    for (id, name) in [("c1", "tea"), ("c2", "cups"), ("c3", "books")] {
        create_category_at(&mut store, id.into(), name.into(), Some("#fff".into()), "t0").unwrap();
    }
    store
}

#[test]
fn categories_are_listed_by_name() {
    let store = store_with_categories();
    let names: Vec<String> = list_categories(&store).into_iter().map(|c| c.name).collect();
    assert_eq!(names, vec!["books", "cups", "tea"]);
}

#[test]
fn a_category_needs_a_free_identifier_and_a_free_name() {
    let mut store = store_with_categories();
    let made = create_category_at(&mut store, "c4".into(), "pens".into(), None, "t1").unwrap();
    assert_eq!(made.id, "c4");
    assert_eq!(made.name, "pens");
    assert_eq!(made.color, None);
    assert_eq!(made.created_at, "t1");
    assert_eq!(
        create_category_at(&mut store, "c4".into(), "ink".into(), None, "t1"),
        Err(StoreError::Constraint(Rule::IdentifierTaken))
    );
    assert_eq!(
        create_category_at(&mut store, "c5".into(), "tea".into(), None, "t1"),
        Err(StoreError::Constraint(Rule::NameTaken))
    );
    assert_eq!(list_categories(&store).len(), 4);
    let fresh = create_category(&mut store, "ink".into(), Some("#000".into())).unwrap();
    assert_eq!(fresh.id.len(), 36);
    assert_eq!(fresh.color, Some("#000".to_string()));
    assert_eq!(create_category(&mut store, "ink".into(), None), Err(StoreError::Constraint(Rule::NameTaken)));
}

#[test]
fn saving_notes_twice_leaves_the_same_tags_and_filings() {
    let mut store = store_with_categories();
    let given = || notes(Some("good"), Some(7), &["green", "gift"], &["c1", "c2"]);
    let first = save_product_meta_at(&mut store, "m1".into(), "naver", 42, given(), "t1").unwrap();
    let once = snapshot(&store);
    assert_eq!(once.product_metas.len(), 1);
    assert_eq!(once.product_tags.len(), 2);
    assert_eq!(once.product_categories.len(), 2);
    let second = save_product_meta_at(&mut store, "m2".into(), "naver", 42, given(), "t2").unwrap();
    let twice = snapshot(&store);
    assert_eq!(twice.product_metas.len(), 1);
    assert_eq!(twice.product_tags.len(), 2);
    assert_eq!(twice.product_categories.len(), 2);
    assert_eq!(first.id, "m1");
    assert_eq!(second.id, "m1");
    assert_eq!(second.tags, vec!["gift", "green"]);
    assert_eq!(first.tags, second.tags);
    assert_eq!(first.categories, second.categories);
    let names: Vec<&str> = second.categories.iter().map(|c| c.name.as_str()).collect();
    assert_eq!(names, vec!["cups", "tea"]);
    assert_eq!(second.created_at, "t1");
    assert_eq!(second.updated_at, "t2");
    save_product_meta_at(&mut store, "m3".into(), "naver", 42, given(), "t2").unwrap();
    let thrice = snapshot(&store);
    assert_eq!(thrice.product_metas, twice.product_metas);
    assert_eq!(thrice.product_tags, twice.product_tags);
    assert_eq!(thrice.product_categories, twice.product_categories);
}

#[test]
fn saving_notes_replaces_tags_and_filings() {
    let mut store = store_with_categories();
    save_product_meta_at(&mut store, "m1".into(), "naver", 1, notes(None, None, &["a", "b"], &["c1"]), "t1")
        .unwrap();
    save_product_meta_at(&mut store, "m2".into(), "coupang", 1, notes(None, None, &["a"], &["c1"]), "t1")
        .unwrap();
    let saved = save_product_meta_at(
        &mut store,
        "m9".into(),
        "naver",
        1,
        notes(Some("memo"), Some(10), &["c"], &["c3", "c2"]),
        "t2",
    )
    .unwrap();
    assert_eq!(saved.id, "m1");
    assert_eq!(saved.memo, Some("memo".to_string()));
    assert_eq!(saved.rating, Some(10));
    assert_eq!(saved.tags, vec!["c"]);
    let ids: Vec<&str> = saved.categories.iter().map(|c| c.id.as_str()).collect();
    assert_eq!(ids, vec!["c3", "c2"]);
    let other = get_product_meta(&store, "coupang", 1).unwrap();
    assert_eq!(other.id, "m2");
    assert_eq!(other.tags, vec!["a"]);
    assert_eq!(other.categories.len(), 1);
    assert_eq!(get_product_meta(&store, "naver", 2), None);
    assert_eq!(get_product_meta(&store, "naver", 1), Some(saved));
}

#[test]
fn notes_that_break_a_rule_are_refused() {
    let mut store = store_with_categories();
    save_product_meta_at(&mut store, "m1".into(), "naver", 1, notes(None, Some(1), &["a"], &[]), "t1")
        .unwrap();
    let before = snapshot(&store);
    let cases = vec![
        ("m2", 2, notes(None, Some(0), &[], &[]), Rule::Rating),
        ("m2", 2, notes(None, Some(11), &[], &[]), Rule::Rating),
        ("m2", 2, notes(None, None, &["x", "x"], &[]), Rule::TagTwice),
        ("m2", 2, notes(None, None, &[], &["c1", "c1"]), Rule::CategoryTwice),
        ("m2", 2, notes(None, None, &[], &["c9"]), Rule::CategoryMissing),
        ("m1", 2, notes(None, None, &[], &[]), Rule::IdentifierTaken),
        ("m2", 1, notes(None, Some(-3), &[], &[]), Rule::Rating),
        ("m1", 2, notes(None, Some(0), &["x", "x"], &["c9", "c9"]), Rule::Rating),
        ("m1", 2, notes(None, None, &["x", "x"], &["c9", "c9"]), Rule::TagTwice),
        ("m1", 2, notes(None, None, &[], &["c9", "c9"]), Rule::CategoryTwice),
    ];
    for (id, item, given, rule) in cases {
        let r = save_product_meta_at(&mut store, id.into(), "naver", item, given, "t2");
        assert_eq!(r, Err(StoreError::Constraint(rule)));
    }
    let after = snapshot(&store);
    assert_eq!(after.product_metas, before.product_metas);
    assert_eq!(after.product_tags, before.product_tags);
    assert!(save_product_meta_at(&mut store, "m1".into(), "naver", 1, notes(None, Some(10), &[], &[]), "t")
        .is_ok());
    let made = save_product_meta(&mut store, "naver", 5, notes(None, None, &["t"], &["c1"])).unwrap();
    assert_eq!(made.id.len(), 36);
    assert_eq!(made.item_id, 5);
}

#[test]
fn notes_that_exist_are_saved_whenever_the_input_keeps_to_the_rules() {
    let mut store = store_with_categories();
    for n in 0..20 {
        let tag = format!("t{}", n);
        let saved = save_product_meta(&mut store, "naver", 9, notes(None, Some(1 + n % 10), &[&tag], &["c1"]));
        assert_eq!(saved.unwrap().tags, vec![tag]);
    }
    assert_eq!(snapshot(&store).product_metas.len(), 1);
    assert_eq!(
        save_product_meta(&mut store, "naver", 9, notes(None, Some(11), &[], &[])),
        Err(StoreError::Constraint(Rule::Rating))
    );
    assert_eq!(
        save_product_meta(&mut store, "naver", 9, notes(None, None, &[], &["c9"])),
        Err(StoreError::Constraint(Rule::CategoryMissing))
    );
    assert_eq!(get_product_meta(&store, "naver", 9).unwrap().tags, vec!["t19"]);
}

#[test]
fn deleting_a_category_removes_its_filings_only() {
    let mut store = store_with_categories();
    save_product_meta_at(&mut store, "m1".into(), "naver", 1, notes(None, None, &["a"], &["c1", "c2"]), "t1")
        .unwrap();
    delete_category(&mut store, "c1");
    let tables = snapshot(&store);
    assert_eq!(tables.categories.len(), 2);
    assert_eq!(tables.product_categories.len(), 1);
    assert_eq!(tables.product_categories[0].category_id, "c2");
    assert_eq!(tables.product_metas.len(), 1);
    assert_eq!(tables.product_tags.len(), 1);
    delete_category(&mut store, "c1");
    assert_eq!(snapshot(&store).categories.len(), 2);
}

#[test]
fn deleting_notes_removes_their_tags_and_filings() {
    let mut store = store_with_categories();
    save_product_meta_at(&mut store, "m1".into(), "naver", 1, notes(None, None, &["a", "b"], &["c1"]), "t1")
        .unwrap();
    save_product_meta_at(&mut store, "m2".into(), "naver", 2, notes(None, None, &["a"], &["c1"]), "t1")
        .unwrap();
    delete_product_meta(&mut store, "naver", 1);
    let tables = snapshot(&store);
    assert_eq!(tables.product_metas.len(), 1);
    assert_eq!(tables.product_metas[0].id, "m2");
    assert_eq!(tables.product_tags.len(), 1);
    assert_eq!(tables.product_tags[0].meta_id, "m2");
    assert_eq!(tables.product_categories.len(), 1);
    assert_eq!(tables.categories.len(), 3);
    delete_product_meta(&mut store, "naver", 1);
    delete_product_meta(&mut store, "coupang", 2);
    assert_eq!(snapshot(&store).product_metas.len(), 1);
}

#[test]
fn tags_are_searched_once_each_in_order() {
    let mut store = store_with_categories();
    save_product_meta_at(&mut store, "m1".into(), "naver", 1, notes(None, None, &["green tea", "gift"], &[]), "t")
        .unwrap();
    save_product_meta_at(&mut store, "m2".into(), "naver", 2, notes(None, None, &["Tea", "green tea"], &[]), "t")
        .unwrap();
    save_product_meta_at(&mut store, "m3".into(), "naver", 3, notes(None, None, &["black TEA", "cup"], &[]), "t")
        .unwrap();
    assert_eq!(search_tags(&store, "tea", None), vec!["Tea", "black TEA", "green tea"]);
    assert_eq!(search_tags(&store, "tea", Some(2)), vec!["Tea", "black TEA"]);
    assert_eq!(search_tags(&store, "tea", Some(0)), Vec::<String>::new());
    assert_eq!(search_tags(&store, "tea", Some(-1)).len(), 3);
    assert_eq!(search_tags(&store, "", None), vec!["Tea", "black TEA", "cup", "gift", "green tea"]);
    assert_eq!(search_tags(&store, "g_f", None), vec!["gift"]);
    assert_eq!(search_tags(&store, "n%a", None), vec!["green tea"]);
    assert_eq!(search_tags(&store, "water", None), Vec::<String>::new());
}

#[test]
fn summaries_say_which_notes_a_product_has() {
    let mut store = store_with_categories();
    let mut full = notes(Some("memo"), Some(3), &["a"], &["c1"]);
    full.url = Some("http://x".to_string());
    save_product_meta_at(&mut store, "m1".into(), "naver", 1, full, "t").unwrap();
    let mut empty = notes(Some(""), None, &[], &[]);
    empty.url = Some(String::new());
    save_product_meta_at(&mut store, "m2".into(), "naver", 2, empty, "t").unwrap();
    save_product_meta_at(&mut store, "m3".into(), "coupang", 3, notes(None, None, &[], &[]), "t")
        .unwrap();
    let listed = list_product_meta_summaries(&store, "naver");
    assert_eq!(
        listed,
        vec![
            ProductMetaSummary {
                item_id: 1,
                has_tags: true,
                has_categories: true,
                has_memo: true,
                has_url: true,
                rating: Some(3),
            },
            ProductMetaSummary {
                item_id: 2,
                has_tags: false,
                has_categories: false,
                has_memo: false,
                has_url: false,
                rating: None,
            },
        ]
    );
    assert_eq!(list_product_meta_summaries(&store, "coupang").len(), 1);
    assert_eq!(list_product_meta_summaries(&store, "other").len(), 0);
}
