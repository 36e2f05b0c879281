use item_cache::lookup::ItemServer;
use item_cache::lookup::LookupError;
use item_cache::record::Record;
use item_cache::store::ColumnValue;
use item_cache::store::StoreError;
use item_cache::store::fetch_result_from_rows;

fn widget_row() -> Vec<ColumnValue> {
    vec![
        ColumnValue::Int(1),
        ColumnValue::Text("x".to_string()),
        ColumnValue::Text("Widget".to_string()),
        ColumnValue::Null,
        ColumnValue::Text("d".to_string()),
    ]
}

fn plain_record(id: u64, ident: &str, name: &str) -> Record {
    Record {
        id,
        ident: ident.to_string(),
        name: name.to_string(),
        created_at: None,
        description: "plain".to_string(),
    }
}

#[test]
fn missing_identifier_maps_to_not_found() {
    let mut server = ItemServer::new(4);
    let ident = "missing".to_string();
    assert!(server.get_item_cached(&ident).is_none());
    // The store returned no row for the identifier.
    let fetched = fetch_result_from_rows(Vec::new());
    let result = server.on_store_result(ident.clone(), fetched);
    assert!(matches!(result, Err(LookupError::NotFound)));
    // The cache stays empty: the identifier was not cached.
    assert!(server.get_item_cached(&ident).is_none());
}

#[test]
fn found_row_is_returned_and_cached() {
    let mut server = ItemServer::new(4);
    let ident = "x".to_string();
    assert!(server.get_item_cached(&ident).is_none());
    let fetched = fetch_result_from_rows(vec![widget_row()]);
    let returned = server.on_store_result(ident.clone(), fetched).expect("found row succeeds");
    assert_eq!(returned.id, 1);
    assert_eq!(returned.ident, "x");
    assert_eq!(returned.name, "Widget");
    assert_eq!(returned.created_at, None);
    assert_eq!(returned.description, "d");
    // The next lookup is a pure cache hit with the identical record.
    let hit = server.get_item_cached(&ident).expect("the record is now cached");
    assert_eq!(hit.id, returned.id);
    assert_eq!(hit.ident, returned.ident);
    assert_eq!(hit.name, returned.name);
    assert_eq!(hit.created_at, returned.created_at);
    assert_eq!(hit.description, returned.description);
}

#[test]
fn repeated_hits_keep_bypassing_the_store() {
    let mut server = ItemServer::new(2);
    let ident = "x".to_string();
    let fetched = server.on_store_result(ident.clone(), Ok(Some(plain_record(5, "x", "Five"))));
    assert!(fetched.is_ok());
    // Once cached, every further lookup is answered before any store
    // fetch would be issued.
    for _ in 0..3 {
        let hit = server.get_item_cached(&ident).expect("cached identifier keeps hitting");
        assert_eq!(hit.id, 5);
    }
}

#[test]
fn not_found_does_not_pollute_the_cache() {
    let mut server = ItemServer::new(2);
    let ident = "ghost".to_string();
    let result = server.on_store_result(ident.clone(), Ok(None));
    assert!(matches!(result, Err(LookupError::NotFound)));
    assert!(server.get_item_cached(&ident).is_none());
}

#[test]
fn connection_error_maps_to_upstream() {
    let mut server = ItemServer::new(2);
    let ident = "x".to_string();
    let result = server.on_store_result(ident.clone(), Err(StoreError::Connection));
    assert!(matches!(result, Err(LookupError::Upstream(StoreError::Connection))));
    // The failure is not cached either.
    assert!(server.get_item_cached(&ident).is_none());
}

#[test]
fn query_error_maps_to_upstream() {
    let mut server = ItemServer::new(2);
    let result = server.on_store_result("x".to_string(), Err(StoreError::Query));
    assert!(matches!(result, Err(LookupError::Upstream(StoreError::Query))));
}

#[test]
fn malformed_row_maps_to_upstream() {
    let mut server = ItemServer::new(2);
    let fetched = fetch_result_from_rows(vec![vec![ColumnValue::Null]]);
    let result = server.on_store_result("x".to_string(), fetched);
    assert!(matches!(result, Err(LookupError::Upstream(StoreError::BadRow))));
}

#[test]
fn duplicate_rows_map_to_upstream() {
    let mut server = ItemServer::new(2);
    let fetched = fetch_result_from_rows(vec![widget_row(), widget_row()]);
    let result = server.on_store_result("x".to_string(), fetched);
    assert!(matches!(result, Err(LookupError::Upstream(StoreError::MultipleRows))));
}

#[test]
fn capacity_zero_server_passes_every_lookup_through() {
    let mut server = ItemServer::new(0);
    let ident = "x".to_string();
    let returned = server
        .on_store_result(ident.clone(), Ok(Some(plain_record(9, "x", "Nine"))))
        .expect("the record is still returned");
    assert_eq!(returned.id, 9);
    // With no room to retain it, the next lookup misses again.
    assert!(server.get_item_cached(&ident).is_none());
}

#[test]
fn coordinator_inherits_fifo_eviction() {
    let mut server = ItemServer::new(2);
    for (id, ident) in [(1u64, "a"), (2, "b"), (3, "c")] {
        let record = plain_record(id, ident, "Item");
        server
            .on_store_result(ident.to_string(), Ok(Some(record)))
            .expect("each fetch succeeds");
    }
    assert!(server.get_item_cached(&"a".to_string()).is_none());
    assert!(server.get_item_cached(&"b".to_string()).is_some());
    assert!(server.get_item_cached(&"c".to_string()).is_some());
}
