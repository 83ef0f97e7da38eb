use restaurant_orders::data::{ApiError, ItemRequest};
use restaurant_orders::database::{close_test_db, setup_db, setup_test_db};
use restaurant_orders::handlers::{add_item, get_all_tables, get_item_for_table,
    get_items_for_table, remove_item};

#[test]
fn should_setup_db() {
    let db_message = setup_db().unwrap();
    assert!(db_message.eq("Successfully created database tables."));
}

#[test]
fn should_get_all() {
    setup_test_db(
        "INSERT INTO restaurant_table VALUES (999, '999,1000');
                 INSERT INTO item VALUES (999, 'pizza', 5);
                 INSERT INTO item VALUES (1000, 'cake', 9);",
    );
    let data = get_all_tables().unwrap();
    assert_ne!(data.is_empty(), true);
    close_test_db(
        "
        DELETE FROM restaurant_table WHERE id = 999;
        DELETE FROM item WHERE id = 999;
        DELETE FROM item WHERE id = 1000;",
    );
}

#[test]
fn should_get_all_items_for_table() {
    setup_test_db(
        "INSERT INTO restaurant_table VALUES (1000, '1001,1002');
                 INSERT INTO item VALUES (1001, 'pizza', 5);
                 INSERT INTO item VALUES (1002, 'cake', 9);",
    );
    let table = get_items_for_table(String::from("1000")).unwrap();
    assert_eq!(table.id, 1000);
    let items = table.items;
    assert_eq!(items.len(), 2);
    let item1 = items.get(0).unwrap();
    assert_eq!(item1.id, 1001);
    assert_eq!(item1.time_to_prepare, 5);
    assert!(item1.name.eq("pizza"));
    let item2 = items.get(1).unwrap();
    assert_eq!(item2.id, 1002);
    assert_eq!(item2.time_to_prepare, 9);
    assert!(item2.name.eq("cake"));
    close_test_db(
        "
        DELETE FROM restaurant_table WHERE id = 1000;
        DELETE FROM item WHERE id = 1001;
        DELETE FROM item WHERE id = 1002;",
    );
}

#[test]
fn missing_table_answers_not_found() {
    let _ = setup_db().unwrap();
    let result = get_items_for_table(String::from("9999999"));
    match result {
        Err(e) => {
            assert!(matches!(e, ApiError::NotFound));
            assert_eq!(e.status_code(), 404);
        }
        Ok(_) => panic!("a missing table must answer not-found"),
    }
}

#[test]
fn should_add_item() {
    setup_test_db(
        "INSERT INTO restaurant_table VALUES (1001, '10003,1004');
                 INSERT INTO item VALUES (1003, 'pizza', 5);
                 INSERT INTO item VALUES (1004, 'cake', 9);",
    );
    let items = vec![String::from("pasta")];
    let request = ItemRequest { table_id: String::from("999"), items };
    let data = add_item(request).unwrap();
    assert!(data.message.eq("1 rows inserted."));
    close_test_db(
        "DELETE FROM restaurant_table WHERE id = 1001;
        DELETE FROM item WHERE id = 1003;
        DELETE FROM item WHERE id = 1004;
        DELETE FROM item WHERE name = 'pasta';
        DELETE FROM restaurant_table;",
    );
}

#[test]
fn should_get_item() {
    setup_test_db(
        "INSERT INTO restaurant_table VALUES (1002, '1005,1006');
                 INSERT INTO item VALUES (1005, 'pizza', 5);
                 INSERT INTO item VALUES (1006, 'cake', 9);",
    );
    let item = get_item_for_table(String::from("1002"), String::from("1005")).unwrap();
    assert!(item.name.eq("pizza"));
    assert_eq!(item.id, 1005);
    assert_eq!(item.time_to_prepare, 5);
    close_test_db(
        "DELETE FROM restaurant_table WHERE id = 1002;
                    DELETE FROM item WHERE id = 1005;
                    DELETE FROM item WHERE id = 1006;",
    );
}

#[test]
fn should_delete_item() {
    setup_test_db(
        "INSERT INTO restaurant_table VALUES (1003, '1007,1008');
                 INSERT INTO item VALUES (1007, 'pizza', 5);
                 INSERT INTO item VALUES (1008, 'cake', 9);",
    );
    let status_message = remove_item(String::from("1003"), String::from("1007")).unwrap();
    assert_eq!(status_message.message, "1 rows deleted.");
    let table = get_items_for_table(String::from("1003")).unwrap();
    assert_eq!(table.id, 1003);
    let items = table.items;
    assert_eq!(items.len(), 1);
    let item1 = items.get(0).unwrap();
    assert_eq!(item1.id, 1008);
    assert_eq!(item1.time_to_prepare, 9);
    assert!(item1.name.eq("cake"));
    let removed = get_item_for_table(String::from("1003"), String::from("1007"));
    match removed {
        Err(e) => assert_eq!(e.status_code(), 404),
        Ok(_) => panic!("the removed item must no longer resolve"),
    }
    close_test_db(
        "DELETE FROM restaurant_table WHERE id = 1003;
                    DELETE FROM item WHERE id = 1007;
                    DELETE FROM item WHERE id = 1008;",
    );
}

#[test]
fn added_item_prep_time_is_in_range() {
    let _ = setup_db().unwrap();
    let request = ItemRequest {
        table_id: String::from("987654"),
        items: vec![String::from("rangetest")],
    };
    let data = add_item(request).unwrap();
    assert!(data.message.eq("1 rows inserted."));
    let tables = get_all_tables().unwrap();
    let mut seen = false;
    for table in tables.iter() {
        for item in table.items.iter() {
            if item.name == "rangetest" {
                seen = true;
                assert!(5 <= item.time_to_prepare && item.time_to_prepare <= 15);
            }
        }
    }
    assert!(seen);
    close_test_db(
        "DELETE FROM item WHERE name = 'rangetest';
        DELETE FROM restaurant_table;",
    );
}
