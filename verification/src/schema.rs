//! The tables and indexes of the store as seen from outside: what exists,
//! what a start of the application adds to it, and what it leaves alone.

use crate::clock::utc_now;
use crate::growth::{
    absorb, absorb_rows, clashing, lemma_absorb_covers, lemma_absorb_distinct, lemma_absorb_has,
    lemma_absorb_keeps, lemma_absorb_nothing, lemma_absorb_twice,
};
use crate::layout::{
    added_columns, additions, current_indexes, current_tables, default_categories, indexes, seeds,
    tables,
};
use crate::records::catalog::{Category, CategoryView};
use crate::rows::{
    changed, clone_all, find_row, has_key, keyed, lemma_changed_keeps, lemma_keyed_position,
    lemma_map_step, lemma_position, lemma_position_same_keys, lemma_pushed, lemma_refers_kept,
    position,
};
use crate::store::{
    by_category_id, category_name, column_name, filing_category, index_name, table_name, Store,
    StoreView,
};
use crate::text::{holding, like, text_holds};
use vstd::string::*;
use vstd::prelude::*;

verus! {

/// One column of a table.
#[derive(Debug, PartialEq, Eq)]
pub struct ColumnDef {
    pub name: String,
    /// Its type and what must hold of its values.
    pub definition: String,
}

/// What a [`ColumnDef`] holds, as plain values.
pub struct ColumnDefView {
    pub name: Seq<char>,
    pub definition: Seq<char>,
}

impl View for ColumnDef {
    type V = ColumnDefView;

    open spec fn view(&self) -> ColumnDefView {
        ColumnDefView {
            name: self.name@,
            definition: self.definition@,
        }
    }
}

impl DeepView for ColumnDef {
    type V = ColumnDefView;

    open spec fn deep_view(&self) -> ColumnDefView {
        self@
    }
}

impl Clone for ColumnDef {
    fn clone(&self) -> (r: Self)
        ensures
            r@ == self@,
    {
        ColumnDef {
            name: self.name.clone(),
            definition: self.definition.clone(),
        }
    }
}

/// One table: its name, its columns in order, and what must hold of its rows.
#[derive(Debug, PartialEq, Eq)]
pub struct TableDef {
    pub name: String,
    pub columns: Vec<ColumnDef>,
    pub constraints: Vec<String>,
}

/// What a [`TableDef`] holds, as plain values.
pub struct TableDefView {
    pub name: Seq<char>,
    pub columns: Seq<ColumnDefView>,
    pub constraints: Seq<Seq<char>>,
}

impl View for TableDef {
    type V = TableDefView;

    open spec fn view(&self) -> TableDefView {
        TableDefView {
            name: self.name@,
            columns: self.columns.deep_view(),
            constraints: self.constraints.deep_view(),
        }
    }
}

impl DeepView for TableDef {
    type V = TableDefView;

    open spec fn deep_view(&self) -> TableDefView {
        self@
    }
}

impl Clone for TableDef {
    fn clone(&self) -> (r: Self)
        ensures
            r@ == self@,
    {
        TableDef {
            name: self.name.clone(),
            columns: clone_all(&self.columns),
            constraints: clone_all(&self.constraints),
        }
    }
}

/// One index on the columns of a table.
#[derive(Debug, PartialEq, Eq)]
pub struct IndexDef {
    pub name: String,
    pub table: String,
    /// The names of the columns, with commas between them.
    pub columns: String,
    /// Whether no two rows may agree on the columns.
    pub unique: bool,
}

/// What a [`IndexDef`] holds, as plain values.
pub struct IndexDefView {
    pub name: Seq<char>,
    pub table: Seq<char>,
    pub columns: Seq<char>,
    pub unique: bool,
}

impl View for IndexDef {
    type V = IndexDefView;

    open spec fn view(&self) -> IndexDefView {
        IndexDefView {
            name: self.name@,
            table: self.table@,
            columns: self.columns@,
            unique: self.unique,
        }
    }
}

impl DeepView for IndexDef {
    type V = IndexDefView;

    open spec fn deep_view(&self) -> IndexDefView {
        self@
    }
}

impl Clone for IndexDef {
    fn clone(&self) -> (r: Self)
        ensures
            r@ == self@,
    {
        IndexDef {
            name: self.name.clone(),
            table: self.table.clone(),
            columns: self.columns.clone(),
            unique: self.unique,
        }
    }
}

/// A column that a later version added to a table.
#[derive(Debug, PartialEq, Eq)]
pub struct ColumnAddition {
    pub table: String,
    pub column: ColumnDef,
}

/// What a [`ColumnAddition`] holds, as plain values.
pub struct ColumnAdditionView {
    pub table: Seq<char>,
    pub column: ColumnDefView,
}

impl View for ColumnAddition {
    type V = ColumnAdditionView;

    open spec fn view(&self) -> ColumnAdditionView {
        ColumnAdditionView {
            table: self.table@,
            column: self.column@,
        }
    }
}

impl DeepView for ColumnAddition {
    type V = ColumnAdditionView;

    open spec fn deep_view(&self) -> ColumnAdditionView {
        self@
    }
}

impl Clone for ColumnAddition {
    fn clone(&self) -> (r: Self)
        ensures
            r@ == self@,
    {
        ColumnAddition {
            table: self.table.clone(),
            column: self.column.clone(),
        }
    }
}

/// A category that every store starts with.
#[derive(Debug, PartialEq, Eq)]
pub struct SeedCategory {
    pub id: String,
    pub name: String,
    pub color: String,
}

/// What a [`SeedCategory`] holds, as plain values.
pub struct SeedCategoryView {
    pub id: Seq<char>,
    pub name: Seq<char>,
    pub color: Seq<char>,
}

impl View for SeedCategory {
    type V = SeedCategoryView;

    open spec fn view(&self) -> SeedCategoryView {
        SeedCategoryView {
            id: self.id@,
            name: self.name@,
            color: self.color@,
        }
    }
}

impl DeepView for SeedCategory {
    type V = SeedCategoryView;

    open spec fn deep_view(&self) -> SeedCategoryView {
        self@
    }
}

impl Clone for SeedCategory {
    fn clone(&self) -> (r: Self)
        ensures
            r@ == self@,
    {
        SeedCategory {
            id: self.id.clone(),
            name: self.name.clone(),
            color: self.color.clone(),
        }
    }
}
/// Whether two tables have the same name.
pub open spec fn same_table() -> spec_fn(TableDefView, TableDefView) -> bool {
    |a: TableDefView, b: TableDefView| a.name == b.name
}

/// Whether two indexes have the same name.
pub open spec fn same_index() -> spec_fn(IndexDefView, IndexDefView) -> bool {
    |a: IndexDefView, b: IndexDefView| a.name == b.name
}

/// Whether two categories have the same identifier or the same name.
pub open spec fn same_category() -> spec_fn(CategoryView, CategoryView) -> bool {
    |a: CategoryView, b: CategoryView| a.id == b.id || a.name == b.name
}

/// The category that a starting category makes at `now`.
pub open spec fn seed_row(now: Seq<char>) -> spec_fn(SeedCategoryView) -> CategoryView {
    |s: SeedCategoryView|
        CategoryView { id: s.id, name: s.name, color: Some(s.color), created_at: now }
}

/// The table `t` with the column `c` at the end, unless it has a column of
/// that name.
pub open spec fn table_with_column(t: TableDefView, c: ColumnDefView) -> TableDefView {
    if has_key(t.columns, column_name(), c.name) {
        t
    } else {
        TableDefView { columns: t.columns.push(c), ..t }
    }
}

/// Giving a table the column `c` unless it has one of that name.
pub open spec fn adding(c: ColumnDefView) -> spec_fn(TableDefView) -> TableDefView {
    |t: TableDefView| table_with_column(t, c)
}

/// `tables` after the addition `a` was made: the table it names, if there,
/// has the column, and it is a new column only where the table had none of
/// that name.
pub open spec fn with_column(tables: Seq<TableDefView>, a: ColumnAdditionView) -> Seq<TableDefView> {
    changed(tables, table_name(), a.table, adding(a.column))
}

/// `tables` after each of `adds` in turn was made.
pub open spec fn with_columns(tables: Seq<TableDefView>, adds: Seq<ColumnAdditionView>) -> Seq<
    TableDefView,
>
    decreases adds.len(),
{
    if adds.len() == 0 {
        tables
    } else {
        with_column(with_columns(tables, adds.drop_last()), adds.last())
    }
}

/// The store after its schema was brought up to this version at `now`:
/// every table and index of this version that was missing is there, every
/// column that a later version added is in the table it belongs to, and
/// every starting category is there unless a category with its identifier
/// or its name was. Nothing that was there is taken away or changed, and
/// no row of any other table is touched.
pub open spec fn schema_ensured(s: StoreView, now: Seq<char>) -> StoreView {
    StoreView {
        tables: with_columns(absorb(s.tables, current_tables(), same_table()), added_columns()),
        indexes: absorb(s.indexes, current_indexes(), same_index()),
        categories: absorb(
            s.categories,
            default_categories().map_values(seed_row(now)),
            same_category(),
        ),
        ..s
    }
}

/// Whether nothing is left to do for the addition `a`: the table it names
/// is not there, or has the column.
pub open spec fn addition_done(tables: Seq<TableDefView>, a: ColumnAdditionView) -> bool {
    let at = position(tables, keyed(table_name(), a.table));
    at < tables.len() ==> has_key(tables[at].columns, column_name(), a.column.name)
}

/// Making an addition leaves every table in its place under its name, with
/// the columns it had in front of any new one, and leaves the addition
/// done; and where it was done already, nothing changes.
pub proof fn lemma_with_column(tables: Seq<TableDefView>, a: ColumnAdditionView)
    ensures
        with_column(tables, a).len() == tables.len(),
        forall|i: int|
            0 <= i < tables.len() ==> {
                &&& (#[trigger] with_column(tables, a)[i]).name == tables[i].name
                &&& with_column(tables, a)[i].constraints == tables[i].constraints
                &&& tables[i].columns.is_prefix_of(with_column(tables, a)[i].columns)
            },
        addition_done(with_column(tables, a), a),
        addition_done(tables, a) ==> with_column(tables, a) == tables,
        forall|b: ColumnAdditionView|
            addition_done(tables, b) ==> addition_done(with_column(tables, a), b),
{
    let out = with_column(tables, a);
    lemma_position(tables, keyed(table_name(), a.table));
    let at = position(tables, keyed(table_name(), a.table));
    assert forall|x: TableDefView| table_name()(#[trigger] adding(a.column)(x)) == table_name()(x) by {}
    lemma_changed_keeps(tables, table_name(), a.table, adding(a.column), table_name());
    assert forall|i: int| 0 <= i < tables.len() implies {
        &&& (#[trigger] out[i]).name == tables[i].name
        &&& out[i].constraints == tables[i].constraints
        &&& tables[i].columns.is_prefix_of(out[i].columns)
    } by {
        if at < tables.len() && i == at {
            let t = tables[at];
            assert(out[i] == table_with_column(t, a.column));
        } else {
            assert(out[i] == tables[i]);
        }
    }
    assert forall|n: Seq<char>| position(out, keyed(table_name(), n)) == position(
        tables,
        keyed(table_name(), n),
    ) by {
        lemma_position_same_keys(tables, out, table_name(), n);
    }
    if at < tables.len() {
        let t = tables[at];
        if !has_key(t.columns, column_name(), a.column.name) {
            let cols = t.columns.push(a.column);
            assert(column_name()(cols[t.columns.len() as int]) == a.column.name);
        }
        assert(has_key(out[at].columns, column_name(), a.column.name));
    }
    if addition_done(tables, a) {
        if at < tables.len() {
            assert(tables.update(at, tables[at]) =~= tables);
        }
    }
    assert forall|b: ColumnAdditionView| addition_done(tables, b) implies addition_done(out, b) by {
        let w = position(tables, keyed(table_name(), b.table));
        lemma_position(tables, keyed(table_name(), b.table));
        if w < tables.len() {
            let i = choose|i: int|
                0 <= i < tables[w].columns.len() && column_name()(#[trigger] tables[w].columns[i])
                    == b.column.name;
            assert(out[w].columns[i] == tables[w].columns[i]);
        }
    }
}

/// Making additions leaves every table in its place under its name, with
/// the columns it had in front of any new one, and leaves each of the
/// additions done.
pub proof fn lemma_with_columns(tables: Seq<TableDefView>, adds: Seq<ColumnAdditionView>)
    ensures
        with_columns(tables, adds).len() == tables.len(),
        forall|i: int|
            0 <= i < tables.len() ==> {
                &&& (#[trigger] with_columns(tables, adds)[i]).name == tables[i].name
                &&& with_columns(tables, adds)[i].constraints == tables[i].constraints
                &&& tables[i].columns.is_prefix_of(with_columns(tables, adds)[i].columns)
            },
        forall|k: int|
            0 <= k < adds.len() ==> addition_done(with_columns(tables, adds), #[trigger] adds[k]),
        forall|b: ColumnAdditionView|
            addition_done(tables, b) ==> addition_done(with_columns(tables, adds), b),
    decreases adds.len(),
{
    if adds.len() > 0 {
        let front = adds.drop_last();
        lemma_with_columns(tables, front);
        let r = with_columns(tables, front);
        lemma_with_column(r, adds.last());
        let out = with_columns(tables, adds);
        assert forall|k: int| 0 <= k < adds.len() implies addition_done(out, #[trigger] adds[k]) by {
            if k < front.len() {
                assert(front[k] == adds[k]);
            }
        }
    }
}

/// Additions that are all done change nothing.
pub proof fn lemma_with_columns_done(tables: Seq<TableDefView>, adds: Seq<ColumnAdditionView>)
    requires
        forall|k: int| 0 <= k < adds.len() ==> addition_done(tables, #[trigger] adds[k]),
    ensures
        with_columns(tables, adds) == tables,
    decreases adds.len(),
{
    if adds.len() > 0 {
        let front = adds.drop_last();
        assert forall|k: int| 0 <= k < front.len() implies addition_done(
            tables,
            #[trigger] front[k],
        ) by {
            assert(front[k] == adds[k]);
        }
        lemma_with_columns_done(tables, front);
        assert(adds[adds.len() - 1] == adds.last());
        lemma_with_column(tables, adds.last());
    }
}

/// A store that is in order stays in order when its schema is brought up
/// to this version.
pub proof fn lemma_schema_ensured_wf(s: StoreView, now: Seq<char>)
    requires
        s.wf(),
    ensures
        schema_ensured(s, now).wf(),
{
    let out = schema_ensured(s, now);
    let grown = absorb(s.tables, current_tables(), same_table());
    lemma_absorb_distinct(s.tables, current_tables(), same_table(), table_name());
    lemma_with_columns(grown, added_columns());
    assert forall|i: int, j: int| 0 <= i < j < out.tables.len() implies table_name()(out.tables[i])
        != table_name()(out.tables[j]) by {
        assert(table_name()(grown[i]) != table_name()(grown[j]));
    }
    lemma_absorb_distinct(s.indexes, current_indexes(), same_index(), index_name());
    let made = default_categories().map_values(seed_row(now));
    lemma_absorb_distinct(s.categories, made, same_category(), by_category_id());
    lemma_absorb_distinct(s.categories, made, same_category(), category_name());
    lemma_absorb_has(s.categories, made, same_category(), by_category_id());
    lemma_refers_kept(
        s.product_categories,
        filing_category(),
        s.categories,
        out.categories,
        by_category_id(),
    );
}

/// Bringing the schema up to this version a second time, whenever that is,
/// changes nothing: no table, index, column or category is added, and none
/// is changed.
pub proof fn lemma_schema_ensured_twice(s: StoreView, now: Seq<char>, later: Seq<char>)
    ensures
        schema_ensured(schema_ensured(s, now), later) == schema_ensured(s, now),
{
    let once = schema_ensured(s, now);
    let twice = schema_ensured(once, later);
    let defs = current_tables();
    let grown = absorb(s.tables, defs, same_table());
    lemma_absorb_covers(s.tables, defs, same_table());
    lemma_with_columns(grown, added_columns());
    assert forall|i: int| 0 <= i < defs.len() implies position(
        once.tables,
        clashing(same_table(), #[trigger] defs[i]),
    ) < once.tables.len() by {
        let way = clashing(same_table(), defs[i]);
        lemma_position(grown, way);
        let at = position(grown, way);
        assert(way(grown[at]));
        assert(once.tables[at].name == grown[at].name);
        assert(way(once.tables[at]));
        lemma_position(once.tables, way);
    }
    lemma_absorb_nothing(once.tables, defs, same_table());
    lemma_with_columns_done(once.tables, added_columns());
    lemma_absorb_twice(s.indexes, current_indexes(), current_indexes(), same_index());
    lemma_absorb_twice(
        s.categories,
        default_categories().map_values(seed_row(now)),
        default_categories().map_values(seed_row(later)),
        same_category(),
    );
    assert(twice.tables == once.tables);
    assert(twice.indexes == once.indexes);
    assert(twice.categories == once.categories);
}

/// Bringing the schema up to this version only adds: every table, index
/// and category that was there is still there, in its place and as it was,
/// but that a table may have got columns behind those it had; every table
/// and index of this version is there; every table that an addition names
/// has the column added; every starting category finds a category with its
/// identifier or its name; and no row of any other table is touched.
pub proof fn lemma_schema_ensured_adds(s: StoreView, now: Seq<char>)
    requires
        s.wf(),
    ensures
        ({
            let out = schema_ensured(s, now);
            &&& out == (StoreView {
                tables: out.tables,
                indexes: out.indexes,
                categories: out.categories,
                ..s
            })
            &&& s.tables.len() <= out.tables.len()
            &&& forall|i: int|
                0 <= i < s.tables.len() ==> {
                    &&& (#[trigger] out.tables[i]).name == s.tables[i].name
                    &&& out.tables[i].constraints == s.tables[i].constraints
                    &&& s.tables[i].columns.is_prefix_of(out.tables[i].columns)
                }
            &&& s.indexes.is_prefix_of(out.indexes)
            &&& s.categories.is_prefix_of(out.categories)
            &&& forall|i: int|
                0 <= i < current_tables().len() ==> has_key(
                    out.tables,
                    table_name(),
                    (#[trigger] current_tables()[i]).name,
                )
            &&& forall|i: int|
                0 <= i < current_indexes().len() ==> has_key(
                    out.indexes,
                    index_name(),
                    (#[trigger] current_indexes()[i]).name,
                )
            &&& forall|k: int, i: int|
                #![trigger added_columns()[k], out.tables[i]]
                0 <= k < added_columns().len() && 0 <= i < out.tables.len() && out.tables[i].name
                    == added_columns()[k].table ==> has_key(
                    out.tables[i].columns,
                    column_name(),
                    added_columns()[k].column.name,
                )
            &&& forall|i: int|
                0 <= i < default_categories().len() ==> has_key(
                    out.categories,
                    by_category_id(),
                    (#[trigger] default_categories()[i]).id,
                ) || has_key(out.categories, category_name(), default_categories()[i].name)
        }),
{
    let out = schema_ensured(s, now);
    let defs = current_tables();
    let grown = absorb(s.tables, defs, same_table());
    lemma_schema_ensured_wf(s, now);
    lemma_absorb_keeps(s.tables, defs, same_table());
    lemma_absorb_covers(s.tables, defs, same_table());
    lemma_with_columns(grown, added_columns());
    assert forall|i: int| 0 <= i < s.tables.len() implies {
        &&& (#[trigger] out.tables[i]).name == s.tables[i].name
        &&& out.tables[i].constraints == s.tables[i].constraints
        &&& s.tables[i].columns.is_prefix_of(out.tables[i].columns)
    } by {
        assert(grown[i] == s.tables[i]);
    }
    assert forall|i: int| 0 <= i < defs.len() implies has_key(
        out.tables,
        table_name(),
        (#[trigger] defs[i]).name,
    ) by {
        let way = clashing(same_table(), defs[i]);
        lemma_position(grown, way);
        let at = position(grown, way);
        assert(way(grown[at]));
        assert(table_name()(out.tables[at]) == defs[i].name);
    }
    lemma_absorb_keeps(s.indexes, current_indexes(), same_index());
    lemma_absorb_covers(s.indexes, current_indexes(), same_index());
    assert forall|i: int| 0 <= i < current_indexes().len() implies has_key(
        out.indexes,
        index_name(),
        (#[trigger] current_indexes()[i]).name,
    ) by {
        let way = clashing(same_index(), current_indexes()[i]);
        lemma_position(out.indexes, way);
        let at = position(out.indexes, way);
        assert(way(out.indexes[at]));
        assert(index_name()(out.indexes[at]) == current_indexes()[i].name);
    }
    assert forall|k: int, i: int|
        #![trigger added_columns()[k], out.tables[i]]
        0 <= k < added_columns().len() && 0 <= i < out.tables.len() && out.tables[i].name
            == added_columns()[k].table implies has_key(
        out.tables[i].columns,
        column_name(),
        added_columns()[k].column.name,
    ) by {
        let a = added_columns()[k];
        assert(addition_done(out.tables, a));
        lemma_keyed_position(out.tables, table_name(), a.table);
        let at = position(out.tables, keyed(table_name(), a.table));
        assert(table_name()(out.tables[i]) == a.table);
        if at < i {
            assert(table_name()(out.tables[at]) != table_name()(out.tables[i]));
        }
    }
    let made = default_categories().map_values(seed_row(now));
    lemma_absorb_keeps(s.categories, made, same_category());
    lemma_absorb_covers(s.categories, made, same_category());
    assert forall|i: int| 0 <= i < default_categories().len() implies has_key(
        out.categories,
        by_category_id(),
        (#[trigger] default_categories()[i]).id,
    ) || has_key(out.categories, category_name(), default_categories()[i].name) by {
        let way = clashing(same_category(), made[i]);
        lemma_position(out.categories, way);
        let at = position(out.categories, way);
        assert(way(out.categories[at]));
        if out.categories[at].id == made[i].id {
            assert(by_category_id()(out.categories[at]) == default_categories()[i].id);
        } else {
            assert(category_name()(out.categories[at]) == default_categories()[i].name);
        }
    }
}

/// Makes each of the additions `adds` to `tables`.
fn add_columns(tables: &mut Vec<TableDef>, adds: &Vec<ColumnAddition>)
    ensures
        final(tables).deep_view() == with_columns(old(tables).deep_view(), adds.deep_view()),
{
    let ghost before = tables.deep_view();
    let ghost all = adds.deep_view();
    let mut k: usize = 0;
    proof {
        assert(all.take(0) =~= Seq::<ColumnAdditionView>::empty());
    }
    while k < adds.len()
        invariant
            k <= adds.len(),
            all == adds.deep_view(),
            tables.deep_view() == with_columns(before, all.take(k as int)),
        decreases adds.len() - k,
    {
        let a = &adds[k];
        let ghost prior = tables.deep_view();
        let at = find_row(
            tables,
            |t: &TableDef| -> (b: bool)
                ensures b == (t@.name == a@.table)
            {
                t.name == a.table
            },
            Ghost(keyed(table_name(), a@.table)),
        );
        if at < tables.len() {
            let has = find_row(
                &tables[at].columns,
                |c: &ColumnDef| -> (b: bool)
                    ensures b == (c@.name == a@.column.name)
                {
                    c.name == a.column.name
                },
                Ghost(keyed(column_name(), a@.column.name)),
            );
            proof {
                lemma_keyed_position(prior[at as int].columns, column_name(), a@.column.name);
            }
            if has >= tables[at].columns.len() {
                let made = a.column.clone();
                let ghost columns = tables[at as int].columns;
                tables[at].columns.push(made);
                proof {
                    lemma_pushed(columns, tables[at as int].columns, made);
                    assert(tables.deep_view() =~= prior.update(
                        at as int,
                        table_with_column(prior[at as int], a@.column),
                    ));
                }
            } else {
                proof {
                    assert(tables.deep_view() =~= prior.update(
                        at as int,
                        table_with_column(prior[at as int], a@.column),
                    ));
                }
            }
        }
        proof {
            assert(all.take(k as int + 1).drop_last() =~= all.take(k as int));
            assert(all.take(k as int + 1).last() == a@);
        }
        k += 1;
    }
    proof {
        assert(all.take(k as int) =~= all);
    }
}

/// The categories that the starting categories make at `now`.
fn seed_rows(now: &String) -> (r: Vec<Category>)
    ensures
        r.deep_view() == default_categories().map_values(seed_row(now@)),
{
    let all = seeds();
    let mut out: Vec<Category> = Vec::new();
    let mut i: usize = 0;
    while i < all.len()
        invariant
            i <= all.len(),
            all.deep_view() == default_categories(),
            out.deep_view() =~= all.deep_view().take(i as int).map_values(seed_row(now@)),
        decreases all.len() - i,
    {
        let made = Category {
            id: all[i].id.clone(),
            name: all[i].name.clone(),
            color: Some(all[i].color.clone()),
            created_at: now.clone(),
        };
        let ghost prior = out;
        out.push(made);
        proof {
            lemma_pushed(prior, out, made);
            lemma_map_step(all.deep_view(), seed_row(now@), i as int);
        }
        i += 1;
    }
    proof {
        assert(all.deep_view().take(i as int) =~= all.deep_view());
    }
    out
}

/// Brings the schema up to this version, as of the time `now`: adds the
/// tables and indexes that are missing, adds to tables that were there the
/// columns that later versions brought, and adds the starting categories
/// that are missing. Safe at every start: nothing that is there is taken
/// away or changed, and a second run changes nothing.
pub fn ensure_schema_at(store: &mut Store, now: &str)
    requires
        old(store).wf(),
    ensures
        final(store).wf(),
        final(store)@ == schema_ensured(old(store)@, now@),
{
    let now = now.to_owned();
    let ghost s0 = store@;
    proof {
        lemma_schema_ensured_wf(s0, now@);
    }
    absorb_rows(
        &mut store.tables,
        tables(),
        |a: &TableDef, b: &TableDef| -> (r: bool)
            ensures r == (a@.name == b@.name)
        {
            a.name == b.name
        },
        Ghost(same_table()),
    );
    add_columns(&mut store.tables, &additions());
    absorb_rows(
        &mut store.indexes,
        indexes(),
        |a: &IndexDef, b: &IndexDef| -> (r: bool)
            ensures r == (a@.name == b@.name)
        {
            a.name == b.name
        },
        Ghost(same_index()),
    );
    absorb_rows(
        &mut store.categories,
        seed_rows(&now),
        |a: &Category, b: &Category| -> (r: bool)
            ensures r == (a@.id == b@.id || a@.name == b@.name)
        {
            a.id == b.id || a.name == b.name
        },
        Ghost(same_category()),
    );
    proof {
        assert(store@ =~= schema_ensured(s0, now@));
    }
}

/// Brings the schema up to this version, as of the current time.
pub fn ensure_schema(store: &mut Store)
    requires
        old(store).wf(),
    ensures
        final(store).wf(),
        exists|now: Seq<char>| final(store)@ == schema_ensured(old(store)@, now),
{
    let now = utc_now();
    ensure_schema_at(store, now.as_str())
}

/// `parts` in a row with `sep` between them.
pub open spec fn joined(parts: Seq<Seq<char>>, sep: Seq<char>) -> Seq<char>
    decreases parts.len(),
{
    if parts.len() == 0 {
        Seq::empty()
    } else if parts.len() == 1 {
        parts[0]
    } else {
        joined(parts.drop_last(), sep) + sep + parts.last()
    }
}

/// A column as it is written in a statement: its name, then its
/// definition.
pub open spec fn column_sql(c: ColumnDefView) -> Seq<char> {
    c.name + " "@ + c.definition
}

/// The statement that creates the table `t` unless it exists.
pub open spec fn table_sql(t: TableDefView) -> Seq<char> {
    "CREATE TABLE IF NOT EXISTS "@ + t.name + " ("@ + joined(
        t.columns.map_values(|c: ColumnDefView| column_sql(c)) + t.constraints,
        ", "@,
    ) + ")"@
}

/// The statement that creates the index `x` unless it exists.
pub open spec fn index_sql(x: IndexDefView) -> Seq<char> {
    (if x.unique {
        "CREATE UNIQUE INDEX IF NOT EXISTS "@
    } else {
        "CREATE INDEX IF NOT EXISTS "@
    }) + x.name + " ON "@ + x.table + " ("@ + x.columns + ")"@
}

/// The statement that makes the addition `a`.
pub open spec fn addition_sql(a: ColumnAdditionView) -> Seq<char> {
    "ALTER TABLE "@ + a.table + " ADD COLUMN "@ + a.column.name + " "@ + a.column.definition
}

/// `parts` in a row with `sep` between them.
pub fn join_texts(parts: &Vec<String>, sep: &str) -> (r: String)
    ensures
        r@ == joined(parts.deep_view(), sep@),
{
    let mut out = String::new();
    let mut i: usize = 0;
    proof {
        assert(parts.deep_view().take(0) =~= Seq::<Seq<char>>::empty());
    }
    while i < parts.len()
        invariant
            i <= parts.len(),
            out@ == joined(parts.deep_view().take(i as int), sep@),
        decreases parts.len() - i,
    {
        let ghost done = parts.deep_view().take(i as int);
        let ghost next = parts.deep_view().take(i as int + 1);
        proof {
            assert(next.drop_last() =~= done);
            assert(next.last() == parts.deep_view()[i as int]);
        }
        if i > 0 {
            out.append(sep);
        }
        out.append(parts[i].as_str());
        proof {
            if i == 0 {
                assert(out@ =~= next[0]);
            }
        }
        i += 1;
    }
    proof {
        assert(parts.deep_view().take(i as int) =~= parts.deep_view());
    }
    out
}

/// The statement that creates the table `t` unless it exists.
pub fn create_table_sql(t: &TableDef) -> (r: String)
    ensures
        r@ == table_sql(t@),
{
    let mut parts: Vec<String> = Vec::new();
    let mut i: usize = 0;
    while i < t.columns.len()
        invariant
            i <= t.columns.len(),
            parts.deep_view() =~= t.columns.deep_view().take(i as int).map_values(
                |c: ColumnDefView| column_sql(c),
            ),
        decreases t.columns.len() - i,
    {
        let mut text = t.columns[i].name.clone();
        text.append(" ");
        text.append(t.columns[i].definition.as_str());
        let ghost prior = parts;
        parts.push(text);
        proof {
            lemma_pushed(prior, parts, text);
            lemma_map_step(t.columns.deep_view(), |c: ColumnDefView| column_sql(c), i as int);
        }
        i += 1;
    }
    proof {
        assert(t.columns.deep_view().take(i as int) =~= t.columns.deep_view());
    }
    let mut constraints = clone_all(&t.constraints);
    let ghost columns = parts.deep_view();
    parts.append(&mut constraints);
    proof {
        assert(parts.deep_view() =~= columns + t.constraints.deep_view());
    }
    let mut out = "CREATE TABLE IF NOT EXISTS ".to_owned();
    out.append(t.name.as_str());
    out.append(" (");
    let body = join_texts(&parts, ", ");
    out.append(body.as_str());
    out.append(")");
    out
}

/// The statement that creates the index `x` unless it exists.
pub fn create_index_sql(x: &IndexDef) -> (r: String)
    ensures
        r@ == index_sql(x@),
{
    let mut out = if x.unique {
        "CREATE UNIQUE INDEX IF NOT EXISTS ".to_owned()
    } else {
        "CREATE INDEX IF NOT EXISTS ".to_owned()
    };
    out.append(x.name.as_str());
    out.append(" ON ");
    out.append(x.table.as_str());
    out.append(" (");
    out.append(x.columns.as_str());
    out.append(")");
    out
}

/// The statement that makes the addition `a`.
pub fn add_column_sql(a: &ColumnAddition) -> (r: String)
    ensures
        r@ == addition_sql(a@),
{
    let mut out = "ALTER TABLE ".to_owned();
    out.append(a.table.as_str());
    out.append(" ADD COLUMN ");
    out.append(a.column.name.as_str());
    out.append(" ");
    out.append(a.column.definition.as_str());
    out
}

/// Whether the failure that `message` reports only says that the column to
/// add is there already, which is no failure of an addition: the message
/// names a duplicate column.
pub fn is_duplicate_column(message: &str) -> (r: bool)
    ensures
        r == like(holding("duplicate column name"@), message@),
{
    text_holds(message, "duplicate column name")
}

/// What becomes of the outcome of an addition: a column that is there
/// already is no failure, and any other failure stands as it came.
pub fn after_addition(outcome: Result<(), String>) -> (r: Result<(), String>)
    ensures
        r is Ok <==> (outcome is Ok || like(holding("duplicate column name"@), outcome->Err_0@)),
        r matches Err(m) ==> outcome == Err::<(), String>(m),
{
    match outcome {
        Ok(()) => Ok(()),
        Err(message) => {
            if is_duplicate_column(message.as_str()) {
                Ok(())
            } else {
                Err(message)
            }
        },
    }
}

/// Whether `text` holds `part` somewhere, character for character.
pub open spec fn holds_text(text: Seq<char>, part: Seq<char>) -> bool {
    exists|i: int|
        0 <= i && i + part.len() <= text.len() && #[trigger] text.subrange(i, i + part.len())
            == part
}

/// Whether a column with this definition may be empty: the definition does
/// not say `NOT NULL`.
pub open spec fn nullable(definition: Seq<char>) -> bool {
    !holds_text(definition, "NOT NULL"@)
}

/// A definition shorter than eight characters does not say `NOT NULL`, and
/// `INTEGER DEFAULT 0` does not either.
proof fn lemma_nullable_definitions()
    ensures
        nullable("TEXT"@),
        nullable("INTEGER"@),
        nullable("INTEGER DEFAULT 0"@),
{
    reveal_strlit("NOT NULL");
    reveal_strlit("TEXT");
    reveal_strlit("INTEGER");
    reveal_strlit("INTEGER DEFAULT 0");
    let part = "NOT NULL"@;
    let long = "INTEGER DEFAULT 0"@;
    assert(part.len() == 8);
    assert forall|i: int| 0 <= i && i + part.len() <= long.len() implies #[trigger] long.subrange(
        i,
        i + part.len(),
    ) != part by {
        let cut = long.subrange(i, i + part.len());
        assert(cut[0] == long[i]);
        assert(cut[1] == long[i + 1]);
        assert(part[0] == 'N' && part[1] == 'O');
        assert(long[i] != 'N' || long[i + 1] != 'O');
    }
}

/// Every column that a later version added may be empty: none of their
/// definitions says `NOT NULL`, so a row that was there before the column
/// needs no value for it.
pub proof fn lemma_added_columns_nullable()
    ensures
        forall|k: int|
            0 <= k < added_columns().len() ==> nullable(
                (#[trigger] added_columns()[k]).column.definition,
            ),
{
    lemma_nullable_definitions();
    let all = added_columns();
    assert(all.len() == 16);
    assert forall|k: int| 0 <= k < all.len() implies nullable((#[trigger] all[k]).column.definition) by {
        let d = all[k].column.definition;
        assert(d == "TEXT"@ || d == "INTEGER"@ || d == "INTEGER DEFAULT 0"@);
    }
}

} // verus!
