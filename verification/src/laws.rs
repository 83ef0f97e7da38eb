//! The laws of the service, stated over the spec functions that the
//! operations' contracts use, and proved once for every store and input.

use vstd::prelude::*;
use crate::data::{ItemDataView, ItemView, TableDataView};
use crate::handlers::{MAX_PREP_MINUTES, MIN_PREP_MINUTES};
use crate::idlist::{comma_free, count_matching, drop_matching, join_spec, keep_matching,
    lemma_drop_count_len, lemma_drop_matching_absent, lemma_drop_matching_comma_free,
    lemma_drop_matching_ne, lemma_keep_of_ne_empty, lemma_split_join_roundtrip,
    lemma_split_of_comma_free, lemma_split_tokens_comma_free, split_spec};
use crate::model::{add_items_spec, find_table_index, get_item_spec, get_table_spec,
    init_schema_spec, lemma_find_table_index_first, lemma_find_table_index_none,
    lemma_find_table_index_props, new_id_tokens, new_item_rows, remove_item_spec,
    remove_matching_items, store_wf, StoreView};
use crate::numfmt::{dec_str, is_digit_char, lemma_dec_str_digits, lemma_dec_str_injective,
    lemma_dec_str_len, row_id_matches};
use crate::translate::{find_item, item_of_row, lemma_find_first_match, lemma_find_item_matches,
    lemma_find_no_match, materialize_items_spec, select_item_spec, table_view_of};

verus! {

/// Schema creation is idempotent: a second run leaves exactly what the first
/// left, so it raises no error and duplicates nothing.
pub proof fn lemma_init_schema_idempotent(s: StoreView)
    ensures
        init_schema_spec(init_schema_spec(s)) == init_schema_spec(s),
{
}

/// Querying a table id that matches no stored row answers nothing to
/// materialize: the lookup is total, reports the absence, and never
/// terminates the process.
pub proof fn lemma_missing_table_not_found(s: StoreView, q: Seq<char>)
    requires
        forall|k: int| 0 <= k < s.tables.len() ==> !row_id_matches((#[trigger] s.tables[k]).id, q),
    ensures
        get_table_spec(s, q) is None,
{
    lemma_find_table_index_none(s.tables, q);
}

/// A decimal rendering holds digits only, so it is comma-free.
proof fn lemma_dec_str_comma_free(n: nat)
    ensures
        comma_free(dec_str(n)),
{
    lemma_dec_str_digits(n);
    assert forall|i: int| 0 <= i < dec_str(n).len() implies dec_str(n)[i] != ',' by {
        assert(is_digit_char(dec_str(n)[i]));
    }
}

/// Round trip: adding one item name to a table id that matches no stored
/// table, then fetching the freshly assigned table, yields exactly one item
/// carrying that name, the fresh item id, and the drawn preparation time.
pub proof fn lemma_add_then_fetch_round_trip(s: StoreView, q: Seq<char>, name: Seq<char>, t: int)
    requires
        store_wf(s),
        find_table_index(s.tables, q) is None,
        MIN_PREP_MINUTES as int <= t <= MAX_PREP_MINUTES as int,
    ensures
        ({
            let s2 = add_items_spec(s, q, seq![name], seq![t]);
            let fetched = get_table_spec(s2, dec_str(s.next_table_id as nat));
            &&& fetched is Some
            &&& fetched.unwrap().id == s.next_table_id
            &&& fetched.unwrap().items == seq![
                ItemView { id: s.next_item_id, time_to_prepare: t, name: name },
            ]
        }),
{
    let s2 = add_items_spec(s, q, seq![name], seq![t]);
    let qid = dec_str(s.next_table_id as nat);
    let tok = dec_str(s.next_item_id as nat);
    let toks = new_id_tokens(s, 1);
    let rowsn = new_item_rows(s, seq![name], seq![t]);
    assert(seq![name].len() == 1);
    assert(toks.len() == 1);
    assert(toks[0] == tok);
    assert(join_spec(toks) == tok);
    assert(rowsn.len() == 1);
    assert(rowsn[0] == (ItemDataView { id: s.next_item_id, time_to_prepare: t, name: name }));
    let new_row = TableDataView { id: s.next_table_id, item_ids: join_spec(toks) };
    assert(s2.tables == s.tables.push(new_row));
    assert(s2.items == s.items + rowsn);

    // No earlier table row renders as the fresh table id.
    assert forall|j: int| 0 <= j < s.tables.len() implies !row_id_matches(
        (#[trigger] s2.tables[j]).id,
        qid,
    ) by {
        assert(s2.tables[j] == s.tables[j]);
        if row_id_matches(s.tables[j].id, qid) {
            lemma_dec_str_injective(s.tables[j].id as nat, s.next_table_id as nat);
        }
    }
    assert(s2.tables[s.tables.len() as int] == new_row);
    assert(row_id_matches(new_row.id, qid));
    lemma_find_table_index_first(s2.tables, qid, s.tables.len() as int);
    assert(get_table_spec(s2, qid) == Some(table_view_of(new_row, s2.items)));

    // The fresh id list splits back into the one fresh token.
    lemma_dec_str_comma_free(s.next_item_id as nat);
    lemma_split_of_comma_free(tok);
    assert(split_spec(new_row.item_ids) == seq![tok]);

    // The one token resolves to the one fresh item row.
    assert forall|j: int| 0 <= j < s.items.len() implies !row_id_matches(
        (#[trigger] s2.items[j]).id,
        tok,
    ) by {
        assert(s2.items[j] == s.items[j]);
        if row_id_matches(s.items[j].id, tok) {
            lemma_dec_str_injective(s.items[j].id as nat, s.next_item_id as nat);
        }
    }
    assert(s2.items[s.items.len() as int] == rowsn[0]);
    assert(row_id_matches(rowsn[0].id, tok));
    lemma_find_first_match(s2.items, tok, s.items.len() as int);
    assert(find_item(s2.items, tok) == Some(rowsn[0]));

    let ids1 = seq![tok];
    assert(ids1.drop_first() =~~= Seq::<Seq<char>>::empty());
    assert(materialize_items_spec(Seq::<Seq<char>>::empty(), s2.items) == Seq::<ItemView>::empty());
    assert(materialize_items_spec(ids1, s2.items) == seq![item_of_row(rowsn[0])]
        + Seq::<ItemView>::empty());
    assert(materialize_items_spec(ids1, s2.items) =~~= seq![
        ItemView { id: s.next_item_id, time_to_prepare: t, name: name },
    ]);
}

/// Removing matching rows leaves a lookup for any other id unchanged.
proof fn lemma_find_after_remove(rows: Seq<ItemDataView>, iq: Seq<char>, q: Seq<char>)
    requires
        q != iq,
    ensures
        find_item(remove_matching_items(rows, iq), q) == find_item(rows, q),
    decreases rows.len(),
{
    if rows.len() > 0 {
        let rest = remove_matching_items(rows.drop_first(), iq);
        lemma_find_after_remove(rows.drop_first(), iq, q);
        if row_id_matches(rows[0].id, iq) {
            assert(!row_id_matches(rows[0].id, q));
        } else {
            if row_id_matches(rows[0].id, q) {
                assert((seq![rows[0]] + rest)[0] == rows[0]);
            } else {
                assert((seq![rows[0]] + rest)[0] == rows[0]);
                assert((seq![rows[0]] + rest).drop_first() =~~= rest);
            }
        }
    }
}

/// A list without the removed id materializes the same against the store
/// with and without that id's rows.
proof fn lemma_materialize_unaffected(ids: Seq<Seq<char>>, rows: Seq<ItemDataView>, iq: Seq<char>)
    requires
        count_matching(ids, iq) == 0,
    ensures
        materialize_items_spec(ids, remove_matching_items(rows, iq)) == materialize_items_spec(
            ids,
            rows,
        ),
    decreases ids.len(),
{
    if ids.len() > 0 {
        assert(ids[0] != iq);
        lemma_find_after_remove(rows, iq, ids[0]);
        lemma_materialize_unaffected(ids.drop_first(), rows, iq);
    }
}

/// Dropping an id that stands once in the list and deleting its rows loses
/// exactly one materialized item.
proof fn lemma_materialize_after_remove(ids: Seq<Seq<char>>, rows: Seq<ItemDataView>, iq: Seq<char>)
    requires
        count_matching(ids, iq) == 1,
        find_item(rows, iq) is Some,
    ensures
        materialize_items_spec(drop_matching(ids, iq), remove_matching_items(rows, iq)).len() + 1
            == materialize_items_spec(ids, rows).len(),
    decreases ids.len(),
{
    assert(ids.len() > 0);
    let rest = ids.drop_first();
    if ids[0] == iq {
        assert(count_matching(rest, iq) == 0);
        lemma_drop_matching_absent(rest, iq);
        assert(drop_matching(ids, iq) == rest);
        lemma_materialize_unaffected(rest, rows, iq);
    } else {
        assert(count_matching(rest, iq) == 1);
        lemma_materialize_after_remove(rest, rows, iq);
        lemma_find_after_remove(rows, iq, ids[0]);
        let dd = drop_matching(rest, iq);
        assert(drop_matching(ids, iq) == seq![ids[0]] + dd);
        assert((seq![ids[0]] + dd)[0] == ids[0]);
        assert((seq![ids[0]] + dd).drop_first() =~~= dd);
    }
}

/// The first match stays first when only indices before it are unchanged and
/// the matched row keeps its id.
proof fn lemma_find_table_index_is_first(tables: Seq<TableDataView>, q: Seq<char>)
    ensures
        find_table_index(tables, q) matches Some(i) ==> forall|j: int|
            0 <= j < i ==> !row_id_matches((#[trigger] tables[j]).id, q),
    decreases tables.len(),
{
    if tables.len() > 0 && !row_id_matches(tables[0].id, q) {
        lemma_find_table_index_is_first(tables.drop_first(), q);
        lemma_find_table_index_props(tables.drop_first(), q);
        if find_table_index(tables.drop_first(), q) is Some {
            let i = find_table_index(tables.drop_first(), q).unwrap();
            assert forall|j: int| 0 <= j < i + 1 implies !row_id_matches(
                (#[trigger] tables[j]).id,
                q,
            ) by {
                if j > 0 {
                    assert(tables.drop_first()[j - 1] == tables[j]);
                }
            }
        }
    }
}

proof fn lemma_find_table_update(
    tables: Seq<TableDataView>,
    q: Seq<char>,
    i: int,
    row2: TableDataView,
)
    requires
        find_table_index(tables, q) == Some(i),
        row2.id == tables[i].id,
    ensures
        find_table_index(tables.update(i, row2), q) == Some(i),
{
    lemma_find_table_index_props(tables, q);
    lemma_find_table_index_is_first(tables, q);
    let t2 = tables.update(i, row2);
    assert forall|j: int| 0 <= j < i implies !row_id_matches((#[trigger] t2[j]).id, q) by {
        assert(t2[j] == tables[j]);
    }
    assert(t2[i] == row2);
    assert(row_id_matches(t2[i].id, q));
    lemma_find_table_index_first(t2, q, i);
}

/// Removing an item whose id stands once in a table's id list and resolves
/// in storage shrinks that table by exactly one item, and afterwards the
/// removed id no longer resolves through the item lookup of that table.
pub proof fn lemma_remove_item_shrinks(s: StoreView, tq: Seq<char>, iq: Seq<char>)
    requires
        store_wf(s),
        find_table_index(s.tables, tq) is Some,
        count_matching(
            split_spec(s.tables[find_table_index(s.tables, tq).unwrap()].item_ids),
            iq,
        ) == 1,
        find_item(s.items, iq) is Some,
    ensures
        ({
            let s2 = remove_item_spec(s, tq, iq);
            &&& get_table_spec(s, tq) is Some
            &&& get_table_spec(s2, tq) is Some
            &&& get_table_spec(s2, tq).unwrap().items.len() + 1 == get_table_spec(
                s,
                tq,
            ).unwrap().items.len()
            &&& get_item_spec(s2, tq, iq) is None
        }),
{
    let i = find_table_index(s.tables, tq).unwrap();
    lemma_find_table_index_props(s.tables, tq);
    let list = s.tables[i].item_ids;
    let ids = split_spec(list);
    let kept_ids = drop_matching(ids, iq);
    let s2 = remove_item_spec(s, tq, iq);
    let row2 = TableDataView { id: s.tables[i].id, item_ids: join_spec(kept_ids) };
    assert(s2.tables == s.tables.update(i, row2));
    assert(s2.items == remove_matching_items(s.items, iq));
    lemma_find_table_update(s.tables, tq, i, row2);
    assert(get_table_spec(s, tq) == Some(table_view_of(s.tables[i], s.items)));
    assert(get_table_spec(s2, tq) == Some(table_view_of(row2, s2.items)));

    lemma_split_tokens_comma_free(list);
    lemma_drop_matching_comma_free(ids, iq);
    lemma_drop_matching_ne(ids, iq);
    lemma_find_item_matches(s.items, iq);
    let d = find_item(s.items, iq).unwrap();
    lemma_dec_str_len(d.id as nat);
    assert(iq.len() >= 1);

    if kept_ids.len() == 0 {
        lemma_drop_count_len(ids, iq);
        assert(ids.len() == 1);
        assert(ids[0] == iq);
        // The old table materializes its one resolvable id.
        assert(ids.drop_first() =~~= Seq::<Seq<char>>::empty());
        assert(materialize_items_spec(Seq::<Seq<char>>::empty(), s.items)
            == Seq::<ItemView>::empty());
        assert(materialize_items_spec(ids, s.items).len() == 1);
        // The new list is empty text: one empty token, which resolves nowhere.
        assert(join_spec(kept_ids) == Seq::<char>::empty());
        assert(split_spec(Seq::<char>::empty()) == seq![Seq::<char>::empty()]);
        assert forall|j: int| 0 <= j < s2.items.len() implies !row_id_matches(
            (#[trigger] s2.items[j]).id,
            Seq::<char>::empty(),
        ) by {
            if s2.items[j].id >= 0 {
                lemma_dec_str_len(s2.items[j].id as nat);
            }
        }
        lemma_find_no_match(s2.items, Seq::<char>::empty());
        let e1 = seq![Seq::<char>::empty()];
        assert(e1.drop_first() =~~= Seq::<Seq<char>>::empty());
        assert(materialize_items_spec(Seq::<Seq<char>>::empty(), s2.items)
            == Seq::<ItemView>::empty());
        assert(materialize_items_spec(e1, s2.items) == Seq::<ItemView>::empty());
        // The empty token is not the removed id, so the item lookup keeps
        // nothing and answers nothing.
        assert(Seq::<char>::empty() != iq);
        assert forall|k: int| 0 <= k < e1.len() implies #[trigger] e1[k] != iq by {
            assert(e1[k] == Seq::<char>::empty());
        }
        lemma_keep_of_ne_empty(e1, iq);
        assert(materialize_items_spec(keep_matching(split_spec(row2.item_ids), iq), s2.items)
            == Seq::<ItemView>::empty());
        assert(select_item_spec(row2.item_ids, iq, s2.items) is None);
    } else {
        lemma_split_join_roundtrip(kept_ids);
        assert(split_spec(row2.item_ids) == kept_ids);
        lemma_materialize_after_remove(ids, s.items, iq);
        lemma_keep_of_ne_empty(kept_ids, iq);
        assert(materialize_items_spec(keep_matching(split_spec(row2.item_ids), iq), s2.items)
            == Seq::<ItemView>::empty());
        assert(select_item_spec(row2.item_ids, iq, s2.items) is None);
    }
}

/// The delete keeps only stored rows: ids stay in bounds, stay unique, and
/// every kept row stood in the store before.
proof fn lemma_remove_matching_wf(rows: Seq<ItemDataView>, iq: Seq<char>, bound: int)
    requires
        forall|k: int| 0 <= k < rows.len() ==> 0 <= (#[trigger] rows[k]).id < bound,
        forall|k: int, l: int|
            0 <= k < l < rows.len() ==> (#[trigger] rows[k]).id != (#[trigger] rows[l]).id,
    ensures
        forall|k: int|
            0 <= k < remove_matching_items(rows, iq).len() ==> 0 <= (#[trigger] remove_matching_items(
                rows,
                iq,
            )[k]).id < bound,
        forall|k: int, l: int|
            0 <= k < l < remove_matching_items(rows, iq).len() ==> (#[trigger] remove_matching_items(
                rows,
                iq,
            )[k]).id != (#[trigger] remove_matching_items(rows, iq)[l]).id,
        forall|k: int|
            0 <= k < remove_matching_items(rows, iq).len() ==> exists|j: int|
                0 <= j < rows.len() && #[trigger] remove_matching_items(rows, iq)[k] == rows[j],
    decreases rows.len(),
{
    if rows.len() > 0 {
        let tail = rows.drop_first();
        assert(forall|k: int| 0 <= k < tail.len() ==> 0 <= (#[trigger] tail[k]).id < bound);
        assert forall|k: int, l: int| 0 <= k < l < tail.len() implies (#[trigger] tail[k]).id != (
        #[trigger] tail[l]).id by {
            assert(tail[k] == rows[k + 1]);
            assert(tail[l] == rows[l + 1]);
        }
        lemma_remove_matching_wf(tail, iq, bound);
        let rest = remove_matching_items(tail, iq);
        let res = remove_matching_items(rows, iq);
        assert forall|k: int| 0 <= k < res.len() implies exists|j: int|
            0 <= j < rows.len() && #[trigger] res[k] == rows[j] by {
            if row_id_matches(rows[0].id, iq) {
                assert(res[k] == rest[k]);
                let j = choose|j: int| 0 <= j < tail.len() && rest[k] == tail[j];
                assert(res[k] == rows[j + 1]);
            } else {
                if k == 0 {
                    assert(res[0] == rows[0]);
                } else {
                    assert(res[k] == rest[k - 1]);
                    let j = choose|j: int| 0 <= j < tail.len() && rest[k - 1] == tail[j];
                    assert(res[k] == rows[j + 1]);
                }
            }
        }
        assert forall|k: int| 0 <= k < res.len() implies 0 <= (#[trigger] res[k]).id < bound by {
            let j = choose|j: int| 0 <= j < rows.len() && res[k] == rows[j];
            assert(0 <= rows[j].id < bound);
        }
        assert forall|k: int, l: int| 0 <= k < l < res.len() implies (#[trigger] res[k]).id != (
        #[trigger] res[l]).id by {
            if row_id_matches(rows[0].id, iq) {
                assert(res[k] == rest[k]);
                assert(res[l] == rest[l]);
            } else {
                if k == 0 {
                    assert(res[0] == rows[0]);
                    assert(res[l] == rest[l - 1]);
                    let j = choose|j: int| 0 <= j < tail.len() && rest[l - 1] == tail[j];
                    assert(res[l] == rows[j + 1]);
                    assert(rows[0].id != rows[j + 1].id);
                } else {
                    assert(res[k] == rest[k - 1]);
                    assert(res[l] == rest[l - 1]);
                }
            }
        }
    }
}

/// Removing an item keeps the store well-formed.
pub proof fn lemma_remove_item_preserves_wf(s: StoreView, tq: Seq<char>, iq: Seq<char>)
    requires
        store_wf(s),
    ensures
        store_wf(remove_item_spec(s, tq, iq)),
{
    let s2 = remove_item_spec(s, tq, iq);
    lemma_remove_matching_wf(s.items, iq, s.next_item_id);
    match find_table_index(s.tables, tq) {
        Some(i) => {
            lemma_find_table_index_props(s.tables, tq);
            assert forall|k: int| 0 <= k < s2.tables.len() implies 0 <= (
            #[trigger] s2.tables[k]).id < s.next_table_id by {
                assert(s2.tables[k].id == s.tables[k].id);
            }
            assert forall|k: int, l: int| 0 <= k < l < s2.tables.len() implies (
            #[trigger] s2.tables[k]).id != (#[trigger] s2.tables[l]).id by {
                assert(s2.tables[k].id == s.tables[k].id);
                assert(s2.tables[l].id == s.tables[l].id);
            }
        },
        None => {},
    }
}

/// Adding items keeps the store well-formed.
pub proof fn lemma_add_items_preserves_wf(
    s: StoreView,
    q: Seq<char>,
    names: Seq<Seq<char>>,
    times: Seq<int>,
)
    requires
        store_wf(s),
        s.next_item_id + names.len() <= i32::MAX,
        s.next_table_id < i32::MAX,
    ensures
        store_wf(add_items_spec(s, q, names, times)),
{
    let s2 = add_items_spec(s, q, names, times);
    let fresh = new_item_rows(s, names, times);
    assert(s2.items == s.items + fresh);
    assert forall|k: int| 0 <= k < s2.items.len() implies 0 <= (#[trigger] s2.items[k]).id
        < s2.next_item_id by {
        if k < s.items.len() {
            assert(s2.items[k] == s.items[k]);
        } else {
            assert(s2.items[k] == fresh[k - s.items.len()]);
        }
    }
    assert forall|k: int, l: int| 0 <= k < l < s2.items.len() implies (#[trigger] s2.items[k]).id
        != (#[trigger] s2.items[l]).id by {
        if k < s.items.len() {
            assert(s2.items[k] == s.items[k]);
        } else {
            assert(s2.items[k] == fresh[k - s.items.len()]);
        }
        if l < s.items.len() {
            assert(s2.items[l] == s.items[l]);
        } else {
            assert(s2.items[l] == fresh[l - s.items.len()]);
        }
    }
    match find_table_index(s.tables, q) {
        Some(i) => {
            lemma_find_table_index_props(s.tables, q);
            assert forall|k: int| 0 <= k < s2.tables.len() implies 0 <= (
            #[trigger] s2.tables[k]).id < s2.next_table_id by {
                assert(s2.tables[k].id == s.tables[k].id);
            }
            assert forall|k: int, l: int| 0 <= k < l < s2.tables.len() implies (
            #[trigger] s2.tables[k]).id != (#[trigger] s2.tables[l]).id by {
                assert(s2.tables[k].id == s.tables[k].id);
                assert(s2.tables[l].id == s.tables[l].id);
            }
        },
        None => {
            assert forall|k: int| 0 <= k < s2.tables.len() implies 0 <= (
            #[trigger] s2.tables[k]).id < s2.next_table_id by {
                if k < s.tables.len() {
                    assert(s2.tables[k] == s.tables[k]);
                } else {
                    assert(s2.tables[k].id == s.next_table_id);
                }
            }
            assert forall|k: int, l: int| 0 <= k < l < s2.tables.len() implies (
            #[trigger] s2.tables[k]).id != (#[trigger] s2.tables[l]).id by {
                assert(s2.tables[k] == s.tables[k]);
                if l < s.tables.len() {
                    assert(s2.tables[l] == s.tables[l]);
                } else {
                    assert(s2.tables[l].id == s.next_table_id);
                }
            }
        },
    }
}

} // verus!
