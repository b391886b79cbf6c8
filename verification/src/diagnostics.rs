//! Looking at the store from outside: which tables it has, how many rows
//! each holds, and emptying a table.

use crate::error::StoreError;
use crate::records::catalog::{TableStat, TableStatView};
use crate::rows::{
    find_row, has_key, keyed, lemma_keyed_position, lemma_map_step, lemma_pushed, ordered_by,
    select_rows, sort_rows,
};
use crate::schema::{TableDef, TableDefView};
use crate::store::{table_name, Store, StoreView};
use crate::text::{
    blank, chars_of, is_blank, like, text_before, text_eq, text_lt, text_starts_with,
};
use crate::rows::sortable;
use crate::text::lemma_text_order;
use vstd::prelude::*;

verus! {

/// Whether `c` cannot stand in the name of a table: it is white space or
/// the statement separator.
pub open spec fn unsafe_char(c: char) -> bool {
    blank(c) || c == ';'
}

/// Whether `name` cannot be taken for the name of a table: it holds white
/// space or a statement separator.
pub open spec fn unsafe_name(name: Seq<char>) -> bool {
    exists|i: int| 0 <= i < name.len() && unsafe_char(#[trigger] name[i])
}

/// Whether `name` holds white space or a statement separator.
pub fn is_unsafe_name(name: &str) -> (r: bool)
    ensures
        r == unsafe_name(name@),
{
    let cs = chars_of(name);
    let mut i: usize = 0;
    while i < cs.len()
        invariant
            cs@ == name@,
            i <= cs.len(),
            forall|k: int| 0 <= k < i ==> !unsafe_char(#[trigger] name@[k]),
        decreases cs.len() - i,
    {
        if is_blank(cs[i]) || cs[i] == ';' {
            proof {
                assert(unsafe_char(name@[i as int]));
            }
            return true;
        }
        i += 1;
    }
    false
}

/// Accepts `name` as the name of a table unless it holds white space or a
/// statement separator.
pub fn check_table_name(name: &str) -> (r: Result<(), StoreError>)
    ensures
        r is Ok <==> !unsafe_name(name@),
        r matches Err(e) ==> e == StoreError::Validation,
{
    if is_unsafe_name(name) {
        Err(StoreError::Validation)
    } else {
        Ok(())
    }
}

/// The test for being the name of a table of the application, not one of
/// the storage engine's own, whose names start with `sqlite` and one more
/// character.
pub open spec fn listed_name() -> spec_fn(Seq<char>) -> bool {
    |n: Seq<char>| !like("sqlite_%"@, n)
}

/// The order of names: as texts sort.
pub open spec fn name_order() -> spec_fn(Seq<char>, Seq<char>) -> bool {
    |a: Seq<char>, b: Seq<char>| text_lt(a, b)
}

/// The names of the tables of the application, in the order of texts.
pub open spec fn table_names(s: StoreView) -> Seq<Seq<char>> {
    ordered_by(s.tables.map_values(|t: TableDefView| t.name).filter(listed_name()), name_order())
}

/// How many rows the table `name` holds: none where the store keeps no
/// rows under that name.
pub open spec fn row_count(s: StoreView, name: Seq<char>) -> nat {
    if name == "tbl_user"@ {
        s.users.len()
    } else if name == "tbl_credential"@ {
        s.credentials.len()
    } else if name == "tbl_naver_payment"@ {
        s.naver_payments.len()
    } else if name == "tbl_naver_payment_item"@ {
        s.naver_items.len()
    } else if name == "tbl_coupang_payment"@ {
        s.coupang_payments.len()
    } else if name == "tbl_coupang_payment_item"@ {
        s.coupang_items.len()
    } else if name == "tbl_ledger_account"@ {
        s.ledger_accounts.len()
    } else if name == "tbl_ledger_entry"@ {
        s.ledger_entries.len()
    } else if name == "tbl_ledger_tag"@ {
        s.ledger_tags.len()
    } else if name == "tbl_ledger_history"@ {
        s.ledger_history.len()
    } else if name == "tbl_category"@ {
        s.categories.len()
    } else if name == "tbl_product_meta"@ {
        s.product_metas.len()
    } else if name == "tbl_product_tag"@ {
        s.product_tags.len()
    } else if name == "tbl_product_category"@ {
        s.product_categories.len()
    } else {
        0
    }
}

/// A number of rows as it is reported.
pub open spec fn reported(n: nat) -> i64 {
    if n > i64::MAX {
        i64::MAX
    } else {
        n as i64
    }
}

/// The store after the table `name` was emptied: its rows are gone, and
/// with them the rows of other tables that belonged to them. Counters keep
/// their values.
pub open spec fn truncated(s: StoreView, name: Seq<char>) -> StoreView {
    if name == "tbl_user"@ {
        StoreView {
            users: Seq::empty(),
            credentials: Seq::empty(),
            naver_payments: Seq::empty(),
            naver_items: Seq::empty(),
            coupang_payments: Seq::empty(),
            coupang_items: Seq::empty(),
            ..s
        }
    } else if name == "tbl_credential"@ {
        StoreView {
            credentials: Seq::empty(),
            ..s
        }
    } else if name == "tbl_naver_payment"@ {
        StoreView {
            naver_payments: Seq::empty(),
            naver_items: Seq::empty(),
            ..s
        }
    } else if name == "tbl_naver_payment_item"@ {
        StoreView {
            naver_items: Seq::empty(),
            ..s
        }
    } else if name == "tbl_coupang_payment"@ {
        StoreView {
            coupang_payments: Seq::empty(),
            coupang_items: Seq::empty(),
            ..s
        }
    } else if name == "tbl_coupang_payment_item"@ {
        StoreView {
            coupang_items: Seq::empty(),
            ..s
        }
    } else if name == "tbl_ledger_account"@ {
        StoreView {
            ledger_accounts: Seq::empty(),
            ledger_entries: Seq::empty(),
            ledger_tags: Seq::empty(),
            ..s
        }
    } else if name == "tbl_ledger_entry"@ {
        StoreView {
            ledger_entries: Seq::empty(),
            ledger_tags: Seq::empty(),
            ..s
        }
    } else if name == "tbl_ledger_tag"@ {
        StoreView {
            ledger_tags: Seq::empty(),
            ..s
        }
    } else if name == "tbl_ledger_history"@ {
        StoreView {
            ledger_history: Seq::empty(),
            ..s
        }
    } else if name == "tbl_category"@ {
        StoreView {
            categories: Seq::empty(),
            product_categories: Seq::empty(),
            ..s
        }
    } else if name == "tbl_product_meta"@ {
        StoreView {
            product_metas: Seq::empty(),
            product_tags: Seq::empty(),
            product_categories: Seq::empty(),
            ..s
        }
    } else if name == "tbl_product_tag"@ {
        StoreView {
            product_tags: Seq::empty(),
            ..s
        }
    } else if name == "tbl_product_category"@ {
        StoreView {
            product_categories: Seq::empty(),
            ..s
        }
    } else {
        s
    }
}

/// The names of the tables of the application, in the order of texts.
pub fn list_tables(store: &Store) -> (r: Vec<String>)
    ensures
        r.deep_view() == table_names(store@),
{
    let mut names: Vec<String> = Vec::new();
    let mut i: usize = 0;
    while i < store.tables.len()
        invariant
            i <= store.tables.len(),
            names.deep_view() =~= store.tables.deep_view().take(i as int).map_values(
                |t: TableDefView| t.name,
            ),
        decreases store.tables.len() - i,
    {
        let name = store.tables[i].name.clone();
        let ghost prior = names;
        names.push(name);
        proof {
            lemma_pushed(prior, names, name);
            lemma_map_step(store.tables.deep_view(), |t: TableDefView| t.name, i as int);
        }
        i += 1;
    }
    proof {
        assert(store.tables.deep_view().take(i as int) =~= store.tables.deep_view());
        reveal_strlit("sqlite_%");
        reveal_strlit("sqlite_");
        assert("sqlite_%"@ =~= "sqlite_"@ + seq!['%']);
    }
    let listed = select_rows(
        &names,
        |n: &String| -> (b: bool)
            ensures b == !like("sqlite_%"@, n@)
        {
            !text_starts_with(n.as_str(), "sqlite_")
        },
        Ghost(listed_name()),
    );
    sort_rows(
        listed,
        |a: &String, b: &String| -> (r: bool)
            ensures r == text_lt(a@, b@)
        {
            text_before(a.as_str(), b.as_str())
        },
        Ghost(name_order()),
    )
}

/// A number of rows as it is reported.
fn report(n: usize) -> (r: i64)
    ensures
        r == reported(n as nat),
{
    if n as u64 > i64::MAX as u64 {
        i64::MAX
    } else {
        n as i64
    }
}

/// How many rows the table `name` holds.
pub fn count_rows(store: &Store, name: &str) -> (r: i64)
    ensures
        r == reported(row_count(store@, name@)),
{
    if text_eq(name, "tbl_user") {
        report(store.users.len())
    } else if text_eq(name, "tbl_credential") {
        report(store.credentials.len())
    } else if text_eq(name, "tbl_naver_payment") {
        report(store.naver_payments.len())
    } else if text_eq(name, "tbl_naver_payment_item") {
        report(store.naver_items.len())
    } else if text_eq(name, "tbl_coupang_payment") {
        report(store.coupang_payments.len())
    } else if text_eq(name, "tbl_coupang_payment_item") {
        report(store.coupang_items.len())
    } else if text_eq(name, "tbl_ledger_account") {
        report(store.ledger_accounts.len())
    } else if text_eq(name, "tbl_ledger_entry") {
        report(store.ledger_entries.len())
    } else if text_eq(name, "tbl_ledger_tag") {
        report(store.ledger_tags.len())
    } else if text_eq(name, "tbl_ledger_history") {
        report(store.ledger_history.len())
    } else if text_eq(name, "tbl_category") {
        report(store.categories.len())
    } else if text_eq(name, "tbl_product_meta") {
        report(store.product_metas.len())
    } else if text_eq(name, "tbl_product_tag") {
        report(store.product_tags.len())
    } else if text_eq(name, "tbl_product_category") {
        report(store.product_categories.len())
    } else {
        report(0)
    }
}

/// For each table of the application, in the order of texts, how many rows
/// it holds.
pub fn get_table_stats(store: &Store) -> (r: Vec<TableStat>)
    ensures
        r.deep_view() == table_names(store@).map_values(
            |n: Seq<char>| TableStatView { name: n, row_count: reported(row_count(store@, n)) },
        ),
{
    let names = list_tables(store);
    let mut out: Vec<TableStat> = Vec::new();
    let mut i: usize = 0;
    while i < names.len()
        invariant
            i <= names.len(),
            out.deep_view() =~= names.deep_view().take(i as int).map_values(
                |n: Seq<char>| TableStatView { name: n, row_count: reported(row_count(store@, n)) },
            ),
        decreases names.len() - i,
    {
        let stat = TableStat {
            name: names[i].clone(),
            row_count: count_rows(store, names[i].as_str()),
        };
        let ghost prior = out;
        out.push(stat);
        proof {
            lemma_pushed(prior, out, stat);
            lemma_map_step(
                names.deep_view(),
                |n: Seq<char>| TableStatView { name: n, row_count: reported(row_count(store@, n)) },
                i as int,
            );
        }
        i += 1;
    }
    proof {
        assert(names.deep_view().take(i as int) =~= names.deep_view());
    }
    out
}

/// A store that is in order stays in order when a table is emptied.
pub proof fn lemma_truncated_wf(s: StoreView, name: Seq<char>)
    requires
        s.wf(),
    ensures
        truncated(s, name).wf(),
{
}

/// Empties the table `name`: its rows go, and with them the rows of other
/// tables that belonged to them. Refused as invalid where the name holds
/// white space or a statement separator, and as not found where the store has no
/// table of that name; nothing changes then.
pub fn truncate_table(store: &mut Store, name: &str) -> (r: Result<(), StoreError>)
    requires
        old(store).wf(),
    ensures
        final(store).wf(),
        r is Ok <==> !unsafe_name(name@) && has_key(old(store)@.tables, table_name(), name@),
        r is Ok ==> final(store)@ == truncated(old(store)@, name@),
        r matches Err(e) ==> final(store)@ == old(store)@ && (e == StoreError::Validation
            <==> unsafe_name(name@)) && (e == StoreError::Validation || e == StoreError::NotFound),
{
    if is_unsafe_name(name) {
        return Err(StoreError::Validation);
    }
    let ghost s0 = store@;
    let at = find_row(
        &store.tables,
        |t: &TableDef| -> (b: bool)
            ensures b == (t@.name == name@)
        {
            text_eq(t.name.as_str(), name)
        },
        Ghost(keyed(table_name(), name@)),
    );
    proof {
        lemma_keyed_position(s0.tables, table_name(), name@);
        lemma_truncated_wf(s0, name@);
    }
    if at >= store.tables.len() {
        return Err(StoreError::NotFound);
    }
    if text_eq(name, "tbl_user") {
        store.users.clear();
        store.credentials.clear();
        store.naver_payments.clear();
        store.naver_items.clear();
        store.coupang_payments.clear();
        store.coupang_items.clear();
        proof {
            assert(store@.users =~= truncated(s0, name@).users);
            assert(store@.credentials =~= truncated(s0, name@).credentials);
            assert(store@.naver_payments =~= truncated(s0, name@).naver_payments);
            assert(store@.naver_items =~= truncated(s0, name@).naver_items);
            assert(store@.coupang_payments =~= truncated(s0, name@).coupang_payments);
            assert(store@.coupang_items =~= truncated(s0, name@).coupang_items);
        }
    } else if text_eq(name, "tbl_credential") {
        store.credentials.clear();
        proof {
            assert(store@.credentials =~= truncated(s0, name@).credentials);
        }
    } else if text_eq(name, "tbl_naver_payment") {
        store.naver_payments.clear();
        store.naver_items.clear();
        proof {
            assert(store@.naver_payments =~= truncated(s0, name@).naver_payments);
            assert(store@.naver_items =~= truncated(s0, name@).naver_items);
        }
    } else if text_eq(name, "tbl_naver_payment_item") {
        store.naver_items.clear();
        proof {
            assert(store@.naver_items =~= truncated(s0, name@).naver_items);
        }
    } else if text_eq(name, "tbl_coupang_payment") {
        store.coupang_payments.clear();
        store.coupang_items.clear();
        proof {
            assert(store@.coupang_payments =~= truncated(s0, name@).coupang_payments);
            assert(store@.coupang_items =~= truncated(s0, name@).coupang_items);
        }
    } else if text_eq(name, "tbl_coupang_payment_item") {
        store.coupang_items.clear();
        proof {
            assert(store@.coupang_items =~= truncated(s0, name@).coupang_items);
        }
    } else if text_eq(name, "tbl_ledger_account") {
        store.ledger_accounts.clear();
        store.ledger_entries.clear();
        store.ledger_tags.clear();
        proof {
            assert(store@.ledger_accounts =~= truncated(s0, name@).ledger_accounts);
            assert(store@.ledger_entries =~= truncated(s0, name@).ledger_entries);
            assert(store@.ledger_tags =~= truncated(s0, name@).ledger_tags);
        }
    } else if text_eq(name, "tbl_ledger_entry") {
        store.ledger_entries.clear();
        store.ledger_tags.clear();
        proof {
            assert(store@.ledger_entries =~= truncated(s0, name@).ledger_entries);
            assert(store@.ledger_tags =~= truncated(s0, name@).ledger_tags);
        }
    } else if text_eq(name, "tbl_ledger_tag") {
        store.ledger_tags.clear();
        proof {
            assert(store@.ledger_tags =~= truncated(s0, name@).ledger_tags);
        }
    } else if text_eq(name, "tbl_ledger_history") {
        store.ledger_history.clear();
        proof {
            assert(store@.ledger_history =~= truncated(s0, name@).ledger_history);
        }
    } else if text_eq(name, "tbl_category") {
        store.categories.clear();
        store.product_categories.clear();
        proof {
            assert(store@.categories =~= truncated(s0, name@).categories);
            assert(store@.product_categories =~= truncated(s0, name@).product_categories);
        }
    } else if text_eq(name, "tbl_product_meta") {
        store.product_metas.clear();
        store.product_tags.clear();
        store.product_categories.clear();
        proof {
            assert(store@.product_metas =~= truncated(s0, name@).product_metas);
            assert(store@.product_tags =~= truncated(s0, name@).product_tags);
            assert(store@.product_categories =~= truncated(s0, name@).product_categories);
        }
    } else if text_eq(name, "tbl_product_tag") {
        store.product_tags.clear();
        proof {
            assert(store@.product_tags =~= truncated(s0, name@).product_tags);
        }
    } else if text_eq(name, "tbl_product_category") {
        store.product_categories.clear();
        proof {
            assert(store@.product_categories =~= truncated(s0, name@).product_categories);
        }
    }
    proof {
        assert(store@ == truncated(s0, name@));
    }
    Ok(())
}

/// The order of the listing of tables can be ordered by.
pub proof fn lemma_name_orders()
    ensures
        sortable(name_order()),
{
    lemma_text_order();
}

} // verus!
