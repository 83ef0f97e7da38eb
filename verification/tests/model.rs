use restaurant_orders::data::{ItemData, TableData};
use restaurant_orders::handlers::{item_response, table_response};
use restaurant_orders::idlist::{ids_equal_to, ids_without, join_ids, split_ids};
use restaurant_orders::model::Store;
use restaurant_orders::numfmt::{i64_to_string, u64_to_string};

fn seeded_store() -> Store {
    Store {
        schema_ready: true,
        next_item_id: 2000,
        next_table_id: 2000,
        items: vec![
            ItemData { id: 1001, time_to_prepare: 5, name: String::from("pizza") },
            ItemData { id: 1002, time_to_prepare: 9, name: String::from("cake") },
            ItemData { id: 1007, time_to_prepare: 5, name: String::from("pizza") },
            ItemData { id: 1008, time_to_prepare: 9, name: String::from("cake") },
        ],
        tables: vec![
            TableData { id: 1000, item_ids: String::from("1001,1002") },
            TableData { id: 1003, item_ids: String::from("1007,1008") },
        ],
    }
}

#[test]
fn model_fetches_table_in_list_order() {
    let store = seeded_store();
    let table = store.get_table(&String::from("1000")).unwrap();
    assert_eq!(table.id, 1000);
    assert_eq!(table.items.len(), 2);
    assert_eq!(table.items[0].id, 1001);
    assert_eq!(table.items[0].name, "pizza");
    assert_eq!(table.items[0].time_to_prepare, 5);
    assert_eq!(table.items[1].id, 1002);
    assert_eq!(table.items[1].name, "cake");
    assert_eq!(table.items[1].time_to_prepare, 9);
}

#[test]
fn model_skips_unresolvable_ids() {
    let mut store = seeded_store();
    store.tables.push(TableData { id: 1050, item_ids: String::from("1001,4444,1002") });
    let table = store.get_table(&String::from("1050")).unwrap();
    assert_eq!(table.items.len(), 2);
    assert_eq!(table.items[0].id, 1001);
    assert_eq!(table.items[1].id, 1002);
}

#[test]
fn model_missing_table_answers_not_found() {
    let store = seeded_store();
    let err = store.get_table(&String::from("9999999")).unwrap_err();
    assert_eq!(err.status_code(), 404);
}

#[test]
fn model_round_trip_add_then_fetch() {
    let mut store = Store::new();
    store.init_schema();
    store.init_schema();
    let message = store.add_items(
        &String::from("42"),
        &vec![String::from("pasta")],
        &vec![7],
    );
    assert_eq!(message.message, "1 rows inserted.");
    let table = store.get_table(&String::from("1")).unwrap();
    assert_eq!(table.id, 1);
    assert_eq!(table.items.len(), 1);
    assert_eq!(table.items[0].name, "pasta");
    assert!(5 <= table.items[0].time_to_prepare && table.items[0].time_to_prepare <= 15);
}

#[test]
fn model_appends_to_existing_table() {
    let mut store = seeded_store();
    let message = store.add_items(
        &String::from("1000"),
        &vec![String::from("soup")],
        &vec![11],
    );
    assert_eq!(message.message, "1 rows inserted.");
    let table = store.get_table(&String::from("1000")).unwrap();
    assert_eq!(table.items.len(), 3);
    assert_eq!(table.items[2].id, 2000);
    assert_eq!(table.items[2].name, "soup");
    assert_eq!(table.items[2].time_to_prepare, 11);
}

#[test]
fn model_remove_shrinks_and_stops_resolving() {
    let mut store = seeded_store();
    let message = store.remove_item(&String::from("1003"), &String::from("1007"));
    assert_eq!(message.message, "1 rows deleted.");
    let table = store.get_table(&String::from("1003")).unwrap();
    assert_eq!(table.items.len(), 1);
    assert_eq!(table.items[0].id, 1008);
    assert_eq!(table.items[0].name, "cake");
    let err = store.get_item(&String::from("1003"), &String::from("1007")).unwrap_err();
    assert_eq!(err.status_code(), 404);
}

#[test]
fn model_remove_on_missing_table_deletes_nothing() {
    let mut store = seeded_store();
    let message = store.remove_item(&String::from("777"), &String::from("4040"));
    assert_eq!(message.message, "0 rows deleted.");
    assert_eq!(store.tables.len(), 2);
    assert_eq!(store.items.len(), 4);
}

#[test]
fn split_and_join_restore_each_other() {
    let parts = split_ids("12,7,9");
    assert_eq!(parts, vec!["12", "7", "9"]);
    assert_eq!(join_ids(&parts), "12,7,9");
    assert_eq!(split_ids(""), vec![""]);
    assert_eq!(split_ids(",7"), vec!["", "7"]);
    assert_eq!(join_ids(&Vec::new()), "");
}

#[test]
fn filters_drop_every_occurrence_and_rejoin_with_commas() {
    let parts = split_ids("7,8,7");
    let without = ids_without(&parts, &String::from("7"));
    assert_eq!(join_ids(&without), "8");
    let kept = ids_equal_to(&parts, &String::from("7"));
    assert_eq!(kept.len(), 2);
    assert_eq!(kept[0], "7");
}

#[test]
fn decimal_rendering_is_exact() {
    assert_eq!(u64_to_string(0), "0");
    assert_eq!(u64_to_string(12345), "12345");
    assert_eq!(i64_to_string(-7), "-7");
    assert_eq!(i64_to_string(1000), "1000");
}

#[test]
fn model_add_of_no_items_creates_empty_table() {
    let mut store = Store::new();
    store.init_schema();
    let message = store.add_items(&String::from("5"), &Vec::new(), &Vec::new());
    assert_eq!(message.message, "1 rows inserted.");
    let table = store.get_table(&String::from("1")).unwrap();
    assert_eq!(table.id, 1);
    assert_eq!(table.items.len(), 0);
}

#[test]
fn model_remove_drops_every_occurrence_in_the_list() {
    let mut store = seeded_store();
    store.tables.push(TableData { id: 1060, item_ids: String::from("1007,1008,1007") });
    let message = store.remove_item(&String::from("1060"), &String::from("1007"));
    assert_eq!(message.message, "1 rows deleted.");
    let table = store.get_table(&String::from("1060")).unwrap();
    assert_eq!(table.items.len(), 1);
    assert_eq!(table.items[0].id, 1008);
}

#[test]
fn response_deciders_answer_not_found_on_empty_fetch() {
    let rows: Vec<TableData> = Vec::new();
    let items: Vec<ItemData> = Vec::new();
    let err = table_response(&rows, &items).unwrap_err();
    assert_eq!(err.status_code(), 404);
    let err2 = item_response(&rows, &String::from("7"), &items).unwrap_err();
    assert_eq!(err2.status_code(), 404);
}

#[test]
fn response_deciders_pick_the_first_fetched_row() {
    let rows = vec![TableData { id: 1000, item_ids: String::from("1001,1002") }];
    let items = vec![
        ItemData { id: 1001, time_to_prepare: 5, name: String::from("pizza") },
        ItemData { id: 1002, time_to_prepare: 9, name: String::from("cake") },
    ];
    let table = table_response(&rows, &items).unwrap();
    assert_eq!(table.id, 1000);
    assert_eq!(table.items.len(), 2);
    assert_eq!(table.items[0].name, "pizza");
    assert_eq!(table.items[1].name, "cake");
    let item = item_response(&rows, &String::from("1002"), &items).unwrap();
    assert_eq!(item.id, 1002);
    assert_eq!(item.name, "cake");
    assert_eq!(item.time_to_prepare, 9);
    let miss = item_response(&rows, &String::from("1003"), &items).unwrap_err();
    assert_eq!(miss.status_code(), 404);
}
