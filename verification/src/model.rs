//! An in-memory image of the persisted state: the two relations, the next
//! ids the store would assign, and whether the schema stands. Every
//! operation of the service is given here as executable code with an exact
//! contract over a spec-level transition, so that the service's laws can be
//! stated and proved about the same functions the handlers share.

use vstd::prelude::*;
use vstd::string::*;
use vstd::pervasive::VecAdditionalExecFns;
use crate::data::{ApiError, Item, ItemData, ItemDataView, StatusMessage, Table, TableData,
    TableDataView, TableView};
use crate::idlist::{drop_matching, ids_without, join_ids, join_spec, split_ids, split_spec};
use crate::numfmt::{dec_str, row_id_matches, u64_to_string};
use crate::translate::{materialize_table, materialize_tables, select_item_in_table,
    select_item_spec, table_view_of, tables_view_of};

verus! {

/// The store: items, tables, the ids the store will assign next, and whether
/// the schema has been created.
pub struct Store {
    pub schema_ready: bool,
    pub next_item_id: i32,
    pub next_table_id: i32,
    pub items: Vec<ItemData>,
    pub tables: Vec<TableData>,
}

/// Mathematical value of a `Store`.
pub struct StoreView {
    pub schema_ready: bool,
    pub next_item_id: int,
    pub next_table_id: int,
    pub items: Seq<ItemDataView>,
    pub tables: Seq<TableDataView>,
}

impl View for Store {
    type V = StoreView;

    open spec fn view(&self) -> StoreView {
        StoreView {
            schema_ready: self.schema_ready,
            next_item_id: self.next_item_id as int,
            next_table_id: self.next_table_id as int,
            items: self.items.deep_view(),
            tables: self.tables.deep_view(),
        }
    }
}

/// Well-formedness: ids are store-assigned, so they are nonnegative, below
/// the next id to assign, and unique within each relation.
pub open spec fn store_wf(s: StoreView) -> bool {
    &&& 1 <= s.next_item_id <= i32::MAX
    &&& 1 <= s.next_table_id <= i32::MAX
    &&& forall|k: int| 0 <= k < s.items.len() ==> 0 <= (#[trigger] s.items[k]).id < s.next_item_id
    &&& forall|k: int, l: int|
        0 <= k < l < s.items.len() ==> (#[trigger] s.items[k]).id != (#[trigger] s.items[l]).id
    &&& forall|k: int| 0 <= k < s.tables.len() ==> 0 <= (#[trigger] s.tables[k]).id < s.next_table_id
    &&& forall|k: int, l: int|
        0 <= k < l < s.tables.len() ==> (#[trigger] s.tables[k]).id != (#[trigger] s.tables[l]).id
}

/// The position of the first table row whose id renders as `q`, if any.
pub open spec fn find_table_index(tables: Seq<TableDataView>, q: Seq<char>) -> Option<int>
    decreases tables.len(),
{
    if tables.len() == 0 {
        None
    } else if row_id_matches(tables[0].id, q) {
        Some(0int)
    } else {
        match find_table_index(tables.drop_first(), q) {
            Some(i) => Some(i + 1),
            None => None,
        }
    }
}

pub proof fn lemma_find_table_index_first(tables: Seq<TableDataView>, q: Seq<char>, i: int)
    requires
        0 <= i < tables.len(),
        forall|j: int| 0 <= j < i ==> !row_id_matches((#[trigger] tables[j]).id, q),
        row_id_matches(tables[i].id, q),
    ensures
        find_table_index(tables, q) == Some(i),
    decreases i,
{
    if i > 0 {
        assert(!row_id_matches(tables[0].id, q));
        assert(forall|j: int|
            0 <= j < i - 1 ==> !row_id_matches((#[trigger] tables.drop_first()[j]).id, q));
        assert(tables.drop_first()[i - 1] == tables[i]);
        lemma_find_table_index_first(tables.drop_first(), q, i - 1);
    }
}

pub proof fn lemma_find_table_index_none(tables: Seq<TableDataView>, q: Seq<char>)
    requires
        forall|j: int| 0 <= j < tables.len() ==> !row_id_matches((#[trigger] tables[j]).id, q),
    ensures
        find_table_index(tables, q) is None,
    decreases tables.len(),
{
    if tables.len() > 0 {
        assert(forall|j: int|
            0 <= j < tables.len() - 1 ==> !row_id_matches((#[trigger] tables.drop_first()[j]).id, q));
        lemma_find_table_index_none(tables.drop_first(), q);
    }
}

pub proof fn lemma_find_table_index_props(tables: Seq<TableDataView>, q: Seq<char>)
    ensures
        find_table_index(tables, q) matches Some(i) ==> 0 <= i < tables.len() && row_id_matches(
            tables[i].id,
            q,
        ),
    decreases tables.len(),
{
    if tables.len() > 0 && !row_id_matches(tables[0].id, q) {
        lemma_find_table_index_props(tables.drop_first(), q);
        if find_table_index(tables.drop_first(), q) is Some {
            let i = find_table_index(tables.drop_first(), q).unwrap();
            assert(tables.drop_first()[i] == tables[i + 1]);
        }
    }
}

/// Schema creation: afterwards the schema stands; nothing else moves.
pub open spec fn init_schema_spec(s: StoreView) -> StoreView {
    StoreView {
        schema_ready: true,
        next_item_id: s.next_item_id,
        next_table_id: s.next_table_id,
        items: s.items,
        tables: s.tables,
    }
}

pub open spec fn times_view(times: Seq<i32>) -> Seq<int> {
    Seq::new(times.len(), |i: int| times[i] as int)
}

/// The item rows an add-items call creates: sequential ids from
/// `next_item_id`, the requested names, the drawn times.
pub open spec fn new_item_rows(s: StoreView, names: Seq<Seq<char>>, times: Seq<int>) -> Seq<
    ItemDataView,
> {
    Seq::new(
        names.len(),
        |i: int|
            ItemDataView { id: s.next_item_id + i, time_to_prepare: times[i], name: names[i] },
    )
}

/// The rendered ids of those rows, in creation order.
pub open spec fn new_id_tokens(s: StoreView, n: int) -> Seq<Seq<char>> {
    Seq::new(n as nat, |i: int| dec_str((s.next_item_id + i) as nat))
}

/// Adding items: the new rows join the `item` relation; their comma-joined
/// ids are appended (after a separator) to the matching table's id list, or
/// become the list of a freshly assigned table row when no table matches.
pub open spec fn add_items_spec(
    s: StoreView,
    q: Seq<char>,
    names: Seq<Seq<char>>,
    times: Seq<int>,
) -> StoreView {
    let new_ids = join_spec(new_id_tokens(s, names.len() as int));
    let items2 = s.items + new_item_rows(s, names, times);
    match find_table_index(s.tables, q) {
        Some(i) => StoreView {
            schema_ready: s.schema_ready,
            next_item_id: s.next_item_id + names.len(),
            next_table_id: s.next_table_id,
            items: items2,
            tables: s.tables.update(
                i,
                TableDataView {
                    id: s.tables[i].id,
                    item_ids: s.tables[i].item_ids + seq![','] + new_ids,
                },
            ),
        },
        None => StoreView {
            schema_ready: s.schema_ready,
            next_item_id: s.next_item_id + names.len(),
            next_table_id: s.next_table_id + 1,
            items: items2,
            tables: s.tables.push(TableDataView { id: s.next_table_id, item_ids: new_ids }),
        },
    }
}

/// The item rows left after deleting every row whose id renders as `iq`.
pub open spec fn remove_matching_items(rows: Seq<ItemDataView>, iq: Seq<char>) -> Seq<ItemDataView>
    decreases rows.len(),
{
    if rows.len() == 0 {
        Seq::<ItemDataView>::empty()
    } else {
        let rest = remove_matching_items(rows.drop_first(), iq);
        if row_id_matches(rows[0].id, iq) {
            rest
        } else {
            seq![rows[0]] + rest
        }
    }
}

/// How many item rows such a delete removes.
pub open spec fn removed_count(rows: Seq<ItemDataView>, iq: Seq<char>) -> nat
    decreases rows.len(),
{
    if rows.len() == 0 {
        0
    } else {
        (if row_id_matches(rows[0].id, iq) {
            1nat
        } else {
            0nat
        }) + removed_count(rows.drop_first(), iq)
    }
}

/// Removing an item: the matching table's id list is filtered and re-joined
/// with commas (no table row is touched when none matches), and the item's
/// rows leave the `item` relation.
pub open spec fn remove_item_spec(s: StoreView, tq: Seq<char>, iq: Seq<char>) -> StoreView {
    let tables2 = match find_table_index(s.tables, tq) {
        Some(i) => s.tables.update(
            i,
            TableDataView {
                id: s.tables[i].id,
                item_ids: join_spec(drop_matching(split_spec(s.tables[i].item_ids), iq)),
            },
        ),
        None => s.tables,
    };
    StoreView {
        schema_ready: s.schema_ready,
        next_item_id: s.next_item_id,
        next_table_id: s.next_table_id,
        items: remove_matching_items(s.items, iq),
        tables: tables2,
    }
}

/// What fetching one table answers.
pub open spec fn get_table_spec(s: StoreView, q: Seq<char>) -> Option<TableView> {
    match find_table_index(s.tables, q) {
        Some(i) => Some(table_view_of(s.tables[i], s.items)),
        None => None,
    }
}

/// What fetching one item of one table answers.
pub open spec fn get_item_spec(s: StoreView, tq: Seq<char>, iq: Seq<char>) -> Option<
    crate::data::ItemView,
> {
    match find_table_index(s.tables, tq) {
        Some(i) => select_item_spec(s.tables[i].item_ids, iq, s.items),
        None => None,
    }
}

/// Every table, materialized, in storage order.
pub open spec fn list_tables_spec(s: StoreView) -> Seq<TableView> {
    tables_view_of(s.tables, s.items)
}

/// The position of the first stored table row whose id renders as `q`.
pub fn find_table_row(tables: &Vec<TableData>, q: &String) -> (r: Option<usize>)
    ensures
        r is Some <==> find_table_index(tables.deep_view(), q@) is Some,
        r matches Some(u) ==> u < tables.len() && find_table_index(tables.deep_view(), q@) == Some(
            u as int,
        ),
{
    let mut i: usize = 0;
    while i < tables.len()
        invariant
            i <= tables.len(),
            tables.deep_view().len() == tables.len(),
            forall|j: int|
                0 <= j < i ==> !row_id_matches((#[trigger] tables.deep_view()[j]).id, q@),
        decreases tables.len() - i,
    {
        proof {
            assert(tables.deep_view()[i as int] == tables@[i as int]@);
        }
        if crate::numfmt::id_matches_string(tables[i].id, q) {
            proof {
                lemma_find_table_index_first(tables.deep_view(), q@, i as int);
            }
            return Some(i);
        }
        i += 1;
    }
    proof {
        lemma_find_table_index_none(tables.deep_view(), q@);
    }
    None
}

proof fn lemma_remove_items_push(rows: Seq<ItemDataView>, iq: Seq<char>, p: ItemDataView)
    ensures
        remove_matching_items(rows + seq![p], iq) == remove_matching_items(rows, iq) + (
        if row_id_matches(p.id, iq) {
            Seq::<ItemDataView>::empty()
        } else {
            seq![p]
        }),
        removed_count(rows + seq![p], iq) == removed_count(rows, iq) + (
        if row_id_matches(p.id, iq) {
            1nat
        } else {
            0nat
        }),
    decreases rows.len(),
{
    let w = rows + seq![p];
    let tail = (if row_id_matches(p.id, iq) {
        Seq::<ItemDataView>::empty()
    } else {
        seq![p]
    });
    if rows.len() == 0 {
        assert(w =~= seq![p]);
        assert(w[0] == p);
        assert(w.drop_first() =~= Seq::<ItemDataView>::empty());
        assert(rows =~= Seq::<ItemDataView>::empty());
        assert(remove_matching_items(Seq::<ItemDataView>::empty(), iq)
            == Seq::<ItemDataView>::empty());
        assert(removed_count(Seq::<ItemDataView>::empty(), iq) == 0);
        assert(remove_matching_items(w, iq) =~= remove_matching_items(rows, iq) + tail);
    } else {
        lemma_remove_items_push(rows.drop_first(), iq, p);
        assert(w.drop_first() =~= rows.drop_first() + seq![p]);
        assert(w[0] == rows[0]);
        let k = remove_matching_items(rows.drop_first(), iq);
        assert(remove_matching_items(w.drop_first(), iq) == k + tail);
        if row_id_matches(rows[0].id, iq) {
            assert(remove_matching_items(w, iq) == k + tail);
            assert(remove_matching_items(rows, iq) == k);
            assert(remove_matching_items(w, iq) =~= remove_matching_items(rows, iq) + tail);
        } else {
            assert(remove_matching_items(w, iq) == seq![w[0]] + (k + tail));
            assert(remove_matching_items(rows, iq) == seq![rows[0]] + k);
            assert(seq![rows[0]] + (k + tail) =~= (seq![rows[0]] + k) + tail);
            assert(remove_matching_items(w, iq) =~= remove_matching_items(rows, iq) + tail);
        }
    }
}

impl Store {
    /// A fresh, empty store with no schema yet.
    pub fn new() -> (s: Store)
        ensures
            s@ == (StoreView {
                schema_ready: false,
                next_item_id: 1,
                next_table_id: 1,
                items: Seq::<ItemDataView>::empty(),
                tables: Seq::<TableDataView>::empty(),
            }),
            store_wf(s@),
    {
        let s = Store {
            schema_ready: false,
            next_item_id: 1,
            next_table_id: 1,
            items: Vec::new(),
            tables: Vec::new(),
        };
        proof {
            assert(s.items.deep_view() =~~= Seq::<ItemDataView>::empty());
            assert(s.tables.deep_view() =~~= Seq::<TableDataView>::empty());
        }
        s
    }

    /// Creates the schema; running it again changes nothing and raises no
    /// error.
    pub fn init_schema(&mut self)
        ensures
            final(self)@ == init_schema_spec(old(self)@),
    {
        self.schema_ready = true;
    }

    /// Fetches one table with its materialized items; a table id matching no
    /// row answers `NotFound`, never a crash.
    pub fn get_table(&self, q: &String) -> (r: Result<Table, ApiError>)
        ensures
            r matches Ok(t) ==> get_table_spec(self@, q@) == Some(t@),
            r is Err <==> get_table_spec(self@, q@) is None,
            r matches Err(e) ==> e is NotFound,
    {
        match find_table_row(&self.tables, q) {
            Some(i) => {
                proof {
                    assert(self.tables.deep_view()[i as int] == self.tables@[i as int]@);
                }
                let t = materialize_table(&self.tables[i], &self.items);
                Ok(t)
            },
            None => Err(ApiError::NotFound),
        }
    }

    /// Fetches the one item a table's id list holds under exactly `iq`; a
    /// missing table, entry or item row answers `NotFound`.
    pub fn get_item(&self, tq: &String, iq: &String) -> (r: Result<Item, ApiError>)
        ensures
            r matches Ok(it) ==> get_item_spec(self@, tq@, iq@) == Some(it@),
            r is Err <==> get_item_spec(self@, tq@, iq@) is None,
            r matches Err(e) ==> e is NotFound,
    {
        match find_table_row(&self.tables, tq) {
            Some(i) => {
                proof {
                    assert(self.tables.deep_view()[i as int] == self.tables@[i as int]@);
                }
                match select_item_in_table(&self.tables[i], iq, &self.items) {
                    Some(it) => Ok(it),
                    None => Err(ApiError::NotFound),
                }
            },
            None => Err(ApiError::NotFound),
        }
    }

    /// Every table with its items, in storage order.
    pub fn list_tables(&self) -> (r: Vec<Table>)
        ensures
            r.deep_view() == list_tables_spec(self@),
    {
        materialize_tables(&self.tables, &self.items)
    }

    /// Adds the named items with the drawn preparation times, appending the
    /// fresh ids to the matching table's id list or creating the table row.
    pub fn add_items(&mut self, table_id: &String, names: &Vec<String>, times: &Vec<i32>) -> (r:
        StatusMessage)
        requires
            store_wf(old(self)@),
            names@.len() == times@.len(),
            old(self)@.next_item_id + names@.len() <= i32::MAX,
            old(self)@.next_table_id < i32::MAX,
        ensures
            final(self)@ == add_items_spec(
                old(self)@,
                table_id@,
                names.deep_view(),
                times_view(times@),
            ),
            r.message@ == dec_str(1) + " rows inserted."@,
    {
        let ghost s0 = self@;
        let ghost nv = names.deep_view();
        let ghost tv = times_view(times@);
        let n = names.len();
        let mut tokens: Vec<String> = Vec::new();
        let mut i: usize = 0;
        proof {
            assert(self@.items =~~= s0.items + new_item_rows(s0, nv, tv).take(0));
            assert(tokens.deep_view() =~~= new_id_tokens(s0, n as int).take(0));
        }
        while i < n
            invariant
                i <= n,
                n == names@.len(),
                names@.len() == times@.len(),
                nv == names.deep_view(),
                tv == times_view(times@),
                1 <= s0.next_item_id,
                s0.next_item_id + n <= i32::MAX,
                self@.next_item_id == s0.next_item_id,
                self@.next_table_id == s0.next_table_id,
                self@.schema_ready == s0.schema_ready,
                self@.tables == s0.tables,
                self@.items == s0.items + new_item_rows(s0, nv, tv).take(i as int),
                tokens.deep_view() == new_id_tokens(s0, n as int).take(i as int),
            decreases n - i,
        {
            let id: i32 = self.next_item_id + (i as i32);
            let row = ItemData { id, time_to_prepare: times[i], name: names[i].clone() };
            proof {
                assert(names.deep_view()[i as int] == names@[i as int]@);
                assert(row@ == new_item_rows(s0, nv, tv)[i as int]);
            }
            let ghost pre_items = self.items.deep_view();
            let ghost pre_tokens = tokens.deep_view();
            let ghost rowv = row@;
            self.items.push(row);
            let token = u64_to_string(id as u64);
            let ghost tokenv = token@;
            tokens.push(token);
            proof {
                let rows = new_item_rows(s0, nv, tv);
                let toks = new_id_tokens(s0, n as int);
                assert(rows[i as int] == (ItemDataView {
                    id: s0.next_item_id + i,
                    time_to_prepare: tv[i as int],
                    name: nv[i as int],
                }));
                assert(self.items.deep_view() =~~= pre_items.push(rowv));
                assert(rows.take(i as int + 1) =~~= rows.take(i as int).push(rows[i as int]));
                assert(pre_items.push(rowv) =~~= s0.items + rows.take(i as int + 1));
                assert(self@.items =~~= s0.items + rows.take(i as int + 1));
                assert((id as u64) as nat == (s0.next_item_id + i) as nat);
                assert(toks[i as int] == dec_str((s0.next_item_id + i) as nat));
                assert(tokens.deep_view() =~~= pre_tokens.push(tokenv));
                assert(toks.take(i as int + 1) =~~= toks.take(i as int).push(toks[i as int]));
                assert(tokens.deep_view() =~~= toks.take(i as int + 1));
            }
            i += 1;
        }
        proof {
            assert(new_item_rows(s0, nv, tv).take(n as int) =~~= new_item_rows(s0, nv, tv));
            assert(new_id_tokens(s0, n as int).take(n as int) =~~= new_id_tokens(s0, n as int));
        }
        self.next_item_id = self.next_item_id + (n as i32);
        let joined = join_ids(&tokens);
        match find_table_row(&self.tables, table_id) {
            Some(k) => {
                proof {
                    assert(self.tables.deep_view()[k as int] == self.tables@[k as int]@);
                    reveal_strlit(",");
                }
                let rid = self.tables[k].id;
                let mut list = self.tables[k].item_ids.clone();
                list.append(",");
                list.append(joined.as_str());
                proof {
                    assert(","@ =~= seq![',']);
                }
                let new_row = TableData { id: rid, item_ids: list };
                self.tables.set(k, new_row);
                proof {
                    assert(final(self)@.tables =~~= add_items_spec(s0, table_id@, nv, tv).tables);
                    assert(final(self)@ == add_items_spec(s0, table_id@, nv, tv));
                }
            },
            None => {
                let new_row = TableData { id: self.next_table_id, item_ids: joined };
                self.tables.push(new_row);
                self.next_table_id = self.next_table_id + 1;
                proof {
                    assert(final(self)@.tables =~~= add_items_spec(s0, table_id@, nv, tv).tables);
                    assert(final(self)@ == add_items_spec(s0, table_id@, nv, tv));
                }
            },
        }
        let mut m = u64_to_string(1);
        m.append(" rows inserted.");
        m_to_status(m)
    }

    /// Removes the item from the matching table's id list, re-joined with
    /// commas, and deletes its rows from the `item` relation; the message
    /// reports how many rows the delete removed.
    pub fn remove_item(&mut self, tq: &String, iq: &String) -> (r: StatusMessage)
        ensures
            final(self)@ == remove_item_spec(old(self)@, tq@, iq@),
            r.message@ == dec_str(removed_count(old(self)@.items, iq@)) + " rows deleted."@,
    {
        let ghost s0 = self@;
        match find_table_row(&self.tables, tq) {
            Some(k) => {
                proof {
                    assert(self.tables.deep_view()[k as int] == self.tables@[k as int]@);
                }
                let rid = self.tables[k].id;
                let ids = split_ids(self.tables[k].item_ids.as_str());
                let remaining = ids_without(&ids, iq);
                let joined = join_ids(&remaining);
                let new_row = TableData { id: rid, item_ids: joined };
                self.tables.set(k, new_row);
                proof {
                    assert(self@.tables =~~= remove_item_spec(s0, tq@, iq@).tables);
                }
            },
            None => {},
        }
        let mut kept: Vec<ItemData> = Vec::new();
        let mut removed: usize = 0;
        let mut i: usize = 0;
        proof {
            assert(kept.deep_view() =~~= remove_matching_items(s0.items.take(0), iq@));
            assert(s0.items.take(0) =~= Seq::<ItemDataView>::empty());
        }
        while i < self.items.len()
            invariant
                i <= self.items.len(),
                self@.items == s0.items,
                s0.items.len() == self.items.len(),
                removed <= i,
                kept.deep_view() == remove_matching_items(s0.items.take(i as int), iq@),
                removed as nat == removed_count(s0.items.take(i as int), iq@),
            decreases self.items.len() - i,
        {
            let ghost prefix = s0.items.take(i as int);
            proof {
                assert(s0.items.take(i as int + 1) =~~= prefix + seq![s0.items[i as int]]);
                lemma_remove_items_push(prefix, iq@, s0.items[i as int]);
                assert(self.items.deep_view()[i as int] == self.items@[i as int]@);
            }
            let d = &self.items[i];
            if crate::numfmt::id_matches_string(d.id, iq) {
                removed = removed + 1;
            } else {
                kept.push(ItemData {
                    id: d.id,
                    time_to_prepare: d.time_to_prepare,
                    name: d.name.clone(),
                });
            }
            proof {
                assert(kept.deep_view() =~~= remove_matching_items(s0.items.take(i as int + 1), iq@));
            }
            i += 1;
        }
        proof {
            assert(s0.items.take(self.items.len() as int) =~~= s0.items);
        }
        self.items = kept;
        proof {
            assert(final(self)@ == remove_item_spec(s0, tq@, iq@));
        }
        let mut m = u64_to_string(removed as u64);
        m.append(" rows deleted.");
        m_to_status(m)
    }
}

fn m_to_status(m: String) -> (r: StatusMessage)
    ensures
        r.message == m,
{
    StatusMessage { message: m }
}

} // verus!
