//! Domain translation: raw storage rows (a table row carrying a comma-joined
//! id list, item rows carrying name and preparation time) become the API's
//! nested representation. An id resolves by comparing its text with the
//! decimal rendering of a stored item id; ids that resolve nowhere are
//! silently skipped, in keeping with the permissive read path.

use vstd::prelude::*;
use vstd::string::*;
use crate::data::{Item, ItemData, ItemDataView, ItemView, Table, TableData, TableDataView,
    TableView};
use crate::idlist::{ids_equal_to, keep_matching, split_ids, split_spec};
use crate::numfmt::{id_matches_string, row_id_matches};

verus! {

pub open spec fn item_of_row(d: ItemDataView) -> ItemView {
    ItemView { id: d.id, time_to_prepare: d.time_to_prepare, name: d.name }
}

/// The first stored row whose id renders as `id`, if any.
pub open spec fn find_item(rows: Seq<ItemDataView>, id: Seq<char>) -> Option<ItemDataView>
    decreases rows.len(),
{
    if rows.len() == 0 {
        None
    } else if row_id_matches(rows[0].id, id) {
        Some(rows[0])
    } else {
        find_item(rows.drop_first(), id)
    }
}

/// The items resolved from an id list, in the list's order; unresolved ids
/// contribute nothing.
pub open spec fn materialize_items_spec(ids: Seq<Seq<char>>, rows: Seq<ItemDataView>) -> Seq<
    ItemView,
>
    decreases ids.len(),
{
    if ids.len() == 0 {
        Seq::<ItemView>::empty()
    } else {
        let rest = materialize_items_spec(ids.drop_first(), rows);
        match find_item(rows, ids[0]) {
            Some(d) => seq![item_of_row(d)] + rest,
            None => rest,
        }
    }
}

/// The sublist of `ids` that resolves in storage, in order.
pub open spec fn resolvable_ids(ids: Seq<Seq<char>>, rows: Seq<ItemDataView>) -> Seq<Seq<char>>
    decreases ids.len(),
{
    if ids.len() == 0 {
        Seq::<Seq<char>>::empty()
    } else {
        let rest = resolvable_ids(ids.drop_first(), rows);
        if find_item(rows, ids[0]) is Some {
            seq![ids[0]] + rest
        } else {
            rest
        }
    }
}

/// A table row materialized against the stored items.
pub open spec fn table_view_of(row: TableDataView, rows: Seq<ItemDataView>) -> TableView {
    TableView { id: row.id, items: materialize_items_spec(split_spec(row.item_ids), rows) }
}

/// Every fetched table row materialized against the same item rows, in row
/// order.
pub open spec fn tables_view_of(rows: Seq<TableDataView>, items: Seq<ItemDataView>) -> Seq<
    TableView,
> {
    Seq::new(rows.len(), |i: int| table_view_of(rows[i], items))
}

/// Within one table: the first item resolved from the entries of the id list
/// equal to `item_id`.
pub open spec fn select_item_spec(
    list: Seq<char>,
    item_id: Seq<char>,
    rows: Seq<ItemDataView>,
) -> Option<ItemView> {
    let m = materialize_items_spec(keep_matching(split_spec(list), item_id), rows);
    if m.len() == 0 {
        None
    } else {
        Some(m[0])
    }
}

pub proof fn lemma_find_item_matches(rows: Seq<ItemDataView>, id: Seq<char>)
    ensures
        find_item(rows, id) matches Some(d) ==> row_id_matches(d.id, id),
    decreases rows.len(),
{
    if rows.len() > 0 && !row_id_matches(rows[0].id, id) {
        lemma_find_item_matches(rows.drop_first(), id);
    }
}

/// Fetching a table returns the items whose ids are exactly the sublist of
/// the table's id list that exists in storage, in the list's order: the
/// materialized items line up one for one with `resolvable_ids`, each one the
/// stored row of its id.
pub proof fn lemma_materialize_exact(ids: Seq<Seq<char>>, rows: Seq<ItemDataView>)
    ensures
        materialize_items_spec(ids, rows).len() == resolvable_ids(ids, rows).len(),
        forall|k: int|
            0 <= k < resolvable_ids(ids, rows).len() ==> find_item(
                rows,
                #[trigger] resolvable_ids(ids, rows)[k],
            ) is Some,
        forall|k: int|
            0 <= k < materialize_items_spec(ids, rows).len() ==> {
                &&& #[trigger] materialize_items_spec(ids, rows)[k] == item_of_row(
                    find_item(rows, resolvable_ids(ids, rows)[k]).unwrap(),
                )
                &&& row_id_matches(
                    materialize_items_spec(ids, rows)[k].id,
                    resolvable_ids(ids, rows)[k],
                )
            },
    decreases ids.len(),
{
    if ids.len() > 0 {
        lemma_materialize_exact(ids.drop_first(), rows);
        lemma_find_item_matches(rows, ids[0]);
        let m = materialize_items_spec(ids, rows);
        let rs = resolvable_ids(ids, rows);
        let mrest = materialize_items_spec(ids.drop_first(), rows);
        let rrest = resolvable_ids(ids.drop_first(), rows);
        if find_item(rows, ids[0]) is Some {
            let d = find_item(rows, ids[0]).unwrap();
            assert(m == seq![item_of_row(d)] + mrest);
            assert(rs == seq![ids[0]] + rrest);
        } else {
            assert(m == mrest);
            assert(rs == rrest);
        }
        assert forall|k: int| 0 <= k < resolvable_ids(ids, rows).len() implies find_item(
            rows,
            #[trigger] resolvable_ids(ids, rows)[k],
        ) is Some by {
            if find_item(rows, ids[0]) is Some {
                if k == 0 {
                    assert(rs[0] == ids[0]);
                } else {
                    assert(rs[k] == rrest[k - 1]);
                    assert(find_item(rows, rrest[k - 1]) is Some);
                }
            } else {
                assert(rs[k] == rrest[k]);
                assert(find_item(rows, rrest[k]) is Some);
            }
        }
        assert forall|k: int| 0 <= k < materialize_items_spec(ids, rows).len() implies {
            &&& #[trigger] materialize_items_spec(ids, rows)[k] == item_of_row(
                find_item(rows, resolvable_ids(ids, rows)[k]).unwrap(),
            )
            &&& row_id_matches(
                materialize_items_spec(ids, rows)[k].id,
                resolvable_ids(ids, rows)[k],
            )
        } by {
            if find_item(rows, ids[0]) is Some {
                let d = find_item(rows, ids[0]).unwrap();
                if k == 0 {
                    assert(m[0] == item_of_row(d));
                    assert(rs[0] == ids[0]);
                } else {
                    assert(m[k] == mrest[k - 1]);
                    assert(rs[k] == rrest[k - 1]);
                    assert(find_item(rows, rrest[k - 1]) is Some);
                    assert(mrest[k - 1] == item_of_row(find_item(rows, rrest[k - 1]).unwrap()));
                }
            } else {
                assert(m[k] == mrest[k]);
                assert(rs[k] == rrest[k]);
                assert(find_item(rows, rrest[k]) is Some);
                assert(mrest[k] == item_of_row(find_item(rows, rrest[k]).unwrap()));
            }
        }
    } else {
        assert(materialize_items_spec(ids, rows) == Seq::<ItemView>::empty());
        assert(resolvable_ids(ids, rows) == Seq::<Seq<char>>::empty());
    }
}

pub proof fn lemma_materialize_push(ids: Seq<Seq<char>>, rows: Seq<ItemDataView>, p: Seq<char>)
    ensures
        materialize_items_spec(ids + seq![p], rows) == materialize_items_spec(ids, rows) + (
        match find_item(rows, p) {
            Some(d) => seq![item_of_row(d)],
            None => Seq::<ItemView>::empty(),
        }),
    decreases ids.len(),
{
    let w = ids + seq![p];
    let tail = (match find_item(rows, p) {
        Some(d) => seq![item_of_row(d)],
        None => Seq::<ItemView>::empty(),
    });
    if ids.len() == 0 {
        assert(w =~~= seq![p]);
        assert(w[0] == p);
        assert(w.drop_first() =~~= Seq::<Seq<char>>::empty());
        assert(ids =~~= Seq::<Seq<char>>::empty());
        assert(materialize_items_spec(Seq::<Seq<char>>::empty(), rows) == Seq::<ItemView>::empty());
        assert(materialize_items_spec(w, rows) =~= materialize_items_spec(ids, rows) + tail);
    } else {
        lemma_materialize_push(ids.drop_first(), rows, p);
        assert(w.drop_first() =~~= ids.drop_first() + seq![p]);
        assert(w[0] == ids[0]);
        let k = materialize_items_spec(ids.drop_first(), rows);
        assert(materialize_items_spec(w.drop_first(), rows) == k + tail);
        match find_item(rows, ids[0]) {
            Some(d) => {
                assert(materialize_items_spec(w, rows) == seq![item_of_row(d)] + (k + tail));
                assert(materialize_items_spec(ids, rows) == seq![item_of_row(d)] + k);
                assert(seq![item_of_row(d)] + (k + tail) =~= (seq![item_of_row(d)] + k) + tail);
                assert(materialize_items_spec(w, rows) =~= materialize_items_spec(ids, rows) + tail);
            },
            None => {
                assert(materialize_items_spec(w, rows) == k + tail);
                assert(materialize_items_spec(ids, rows) == k);
                assert(materialize_items_spec(w, rows) =~= materialize_items_spec(ids, rows) + tail);
            },
        }
    }
}

pub proof fn lemma_find_first_match(rows: Seq<ItemDataView>, id: Seq<char>, i: int)
    requires
        0 <= i < rows.len(),
        forall|j: int| 0 <= j < i ==> !row_id_matches(#[trigger] rows[j].id, id),
        row_id_matches(rows[i].id, id),
    ensures
        find_item(rows, id) == Some(rows[i]),
    decreases i,
{
    if i > 0 {
        assert(!row_id_matches(rows[0].id, id));
        assert(forall|j: int|
            0 <= j < i - 1 ==> !row_id_matches(#[trigger] rows.drop_first()[j].id, id));
        assert(rows.drop_first()[i - 1] == rows[i]);
        lemma_find_first_match(rows.drop_first(), id, i - 1);
    }
}

pub proof fn lemma_find_no_match(rows: Seq<ItemDataView>, id: Seq<char>)
    requires
        forall|j: int| 0 <= j < rows.len() ==> !row_id_matches(#[trigger] rows[j].id, id),
    ensures
        find_item(rows, id) is None,
    decreases rows.len(),
{
    if rows.len() > 0 {
        assert(forall|j: int|
            0 <= j < rows.len() - 1 ==> !row_id_matches(#[trigger] rows.drop_first()[j].id, id));
        lemma_find_no_match(rows.drop_first(), id);
    }
}

/// The first stored row whose id renders as `id`, if any.
pub fn find_item_row<'a>(rows: &'a Vec<ItemData>, id: &String) -> (r: Option<&'a ItemData>)
    ensures
        r is Some <==> find_item(rows.deep_view(), id@) is Some,
        r matches Some(d) ==> find_item(rows.deep_view(), id@) == Some(d@),
{
    let mut i: usize = 0;
    while i < rows.len()
        invariant
            i <= rows.len(),
            rows.deep_view().len() == rows.len(),
            forall|j: int|
                0 <= j < i ==> !row_id_matches(#[trigger] rows.deep_view()[j].id, id@),
        decreases rows.len() - i,
    {
        proof {
            assert(rows.deep_view()[i as int] == rows@[i as int]@);
        }
        if id_matches_string(rows[i].id, id) {
            proof {
                lemma_find_first_match(rows.deep_view(), id@, i as int);
            }
            return Some(&rows[i]);
        }
        i += 1;
    }
    proof {
        lemma_find_no_match(rows.deep_view(), id@);
    }
    None
}

fn item_from_row(d: &ItemData) -> (it: Item)
    ensures
        it@ == item_of_row(d@),
{
    Item { id: d.id, time_to_prepare: d.time_to_prepare, name: d.name.clone() }
}

/// Resolves each id of the list in order against the stored items, skipping
/// ids with no matching row.
pub fn materialize_items(ids: &Vec<String>, rows: &Vec<ItemData>) -> (r: Vec<Item>)
    ensures
        r.deep_view() == materialize_items_spec(ids.deep_view(), rows.deep_view()),
{
    let mut r: Vec<Item> = Vec::new();
    let mut i: usize = 0;
    proof {
        assert(ids.deep_view().subrange(0, 0) =~~= Seq::<Seq<char>>::empty());
        assert(r.deep_view() =~= materialize_items_spec(
            ids.deep_view().subrange(0, 0),
            rows.deep_view(),
        ));
    }
    while i < ids.len()
        invariant
            i <= ids.len(),
            ids.deep_view().len() == ids.len(),
            r.deep_view() == materialize_items_spec(
                ids.deep_view().subrange(0, i as int),
                rows.deep_view(),
            ),
        decreases ids.len() - i,
    {
        let ghost prefix = ids.deep_view().subrange(0, i as int);
        proof {
            assert(ids.deep_view().subrange(0, i as int + 1) =~~= prefix + seq![
                ids.deep_view()[i as int],
            ]);
            lemma_materialize_push(prefix, rows.deep_view(), ids.deep_view()[i as int]);
        }
        let id = &ids[i];
        proof {
            assert(id@ == ids.deep_view()[i as int]);
        }
        match find_item_row(rows, id) {
            Some(d) => {
                let it = item_from_row(d);
                r.push(it);
            },
            None => {},
        }
        proof {
            assert(r.deep_view() =~= materialize_items_spec(
                ids.deep_view().subrange(0, i as int + 1),
                rows.deep_view(),
            ));
        }
        i += 1;
    }
    proof {
        assert(ids.deep_view().subrange(0, ids.len() as int) =~~= ids.deep_view());
    }
    r
}

/// Materializes one table row against the stored items.
pub fn materialize_table(row: &TableData, rows: &Vec<ItemData>) -> (t: Table)
    ensures
        t@ == table_view_of(row@, rows.deep_view()),
{
    let ids = split_ids(row.item_ids.as_str());
    let items = materialize_items(&ids, rows);
    Table { id: row.id, items }
}

/// Materializes every fetched table row against the same item rows, in row
/// order.
pub fn materialize_tables(rows: &Vec<TableData>, item_rows: &Vec<ItemData>) -> (r: Vec<Table>)
    ensures
        r.deep_view() == tables_view_of(rows.deep_view(), item_rows.deep_view()),
{
    let ghost full = tables_view_of(rows.deep_view(), item_rows.deep_view());
    let mut r: Vec<Table> = Vec::new();
    let mut i: usize = 0;
    proof {
        assert(r.deep_view() =~~= full.take(0));
    }
    while i < rows.len()
        invariant
            i <= rows.len(),
            rows.deep_view().len() == rows.len(),
            full == tables_view_of(rows.deep_view(), item_rows.deep_view()),
            r.deep_view() == full.take(i as int),
        decreases rows.len() - i,
    {
        proof {
            assert(rows.deep_view()[i as int] == rows@[i as int]@);
        }
        let t = materialize_table(&rows[i], item_rows);
        r.push(t);
        proof {
            assert(full.take(i as int + 1) =~~= full.take(i as int).push(full[i as int]));
            assert(r.deep_view() =~~= full.take(i as int + 1));
        }
        i += 1;
    }
    proof {
        assert(full.take(rows.len() as int) =~~= full);
    }
    r
}

/// Within one table row: the item the id list holds under exactly `item_id`,
/// if that entry is present and resolves.
pub fn select_item_in_table(row: &TableData, item_id: &String, rows: &Vec<ItemData>) -> (r: Option<
    Item,
>)
    ensures
        r is Some <==> select_item_spec(row@.item_ids, item_id@, rows.deep_view()) is Some,
        r matches Some(it) ==> select_item_spec(row@.item_ids, item_id@, rows.deep_view())
            == Some(it@),
{
    let ids = split_ids(row.item_ids.as_str());
    let keep = ids_equal_to(&ids, item_id);
    let mut items = materialize_items(&keep, rows);
    if items.len() == 0 {
        None
    } else {
        let it = items.remove(0);
        Some(it)
    }
}

} // verus!
