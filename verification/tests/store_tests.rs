use item_cache::record::Timestamp;
use item_cache::store::ColumnValue;
use item_cache::store::StoreError;
use item_cache::store::decode_row;
use item_cache::store::fetch_result_from_rows;

fn widget_row() -> Vec<ColumnValue> {
    vec![
        ColumnValue::Int(1),
        ColumnValue::Text("x".to_string()),
        ColumnValue::Text("Widget".to_string()),
        ColumnValue::Null,
        ColumnValue::Text("d".to_string()),
    ]
}

#[test]
fn decode_row_with_timestamp() {
    let row = vec![
        ColumnValue::UInt(7),
        ColumnValue::Text("gadget-7".to_string()),
        ColumnValue::Text("Gadget".to_string()),
        ColumnValue::DateTime { seconds: 1_500_000_000, nanos: 250 },
        ColumnValue::Text("a gadget".to_string()),
    ];
    let record = decode_row(row).expect("well-shaped row must decode");
    assert_eq!(record.id, 7);
    assert_eq!(record.ident, "gadget-7");
    assert_eq!(record.name, "Gadget");
    assert_eq!(record.created_at, Some(Timestamp { seconds: 1_500_000_000, nanos: 250 }));
    assert_eq!(record.description, "a gadget");
}

#[test]
fn decode_row_with_null_timestamp() {
    let record = decode_row(widget_row()).expect("null timestamp is a legal shape");
    assert_eq!(record.id, 1);
    assert_eq!(record.ident, "x");
    assert_eq!(record.name, "Widget");
    assert_eq!(record.created_at, None);
    assert_eq!(record.description, "d");
}

#[test]
fn decode_row_signed_id_is_accepted() {
    let mut row = widget_row();
    row[0] = ColumnValue::Int(31);
    assert_eq!(decode_row(row).expect("non-negative signed id decodes").id, 31);
}

#[test]
fn decode_row_negative_id_is_malformed() {
    let mut row = widget_row();
    row[0] = ColumnValue::Int(-1);
    assert!(matches!(decode_row(row), Err(StoreError::BadRow)));
}

#[test]
fn decode_row_wrong_column_count_is_malformed() {
    let mut row = widget_row();
    row.pop();
    assert!(matches!(decode_row(row), Err(StoreError::BadRow)));
}

#[test]
fn decode_row_text_id_is_malformed() {
    let mut row = widget_row();
    row[0] = ColumnValue::Text("seven".to_string());
    assert!(matches!(decode_row(row), Err(StoreError::BadRow)));
}

#[test]
fn decode_row_unmapped_value_is_malformed() {
    let mut row = widget_row();
    row[4] = ColumnValue::Other;
    assert!(matches!(decode_row(row), Err(StoreError::BadRow)));
}

#[test]
fn decode_row_null_name_is_malformed() {
    let mut row = widget_row();
    row[2] = ColumnValue::Null;
    assert!(matches!(decode_row(row), Err(StoreError::BadRow)));
}

#[test]
fn decode_row_negative_timestamp_is_malformed() {
    let mut row = widget_row();
    row[3] = ColumnValue::DateTime { seconds: -5, nanos: 0 };
    assert!(matches!(decode_row(row), Err(StoreError::BadRow)));
}

#[test]
fn decode_row_integer_timestamp_is_malformed() {
    let mut row = widget_row();
    row[3] = ColumnValue::UInt(12);
    assert!(matches!(decode_row(row), Err(StoreError::BadRow)));
}

#[test]
fn fetch_with_no_rows_finds_nothing() {
    let result = fetch_result_from_rows(Vec::new()).expect("zero rows is a clean miss");
    assert!(result.is_none());
}

#[test]
fn fetch_with_one_row_finds_the_record() {
    let result = fetch_result_from_rows(vec![widget_row()]).expect("one good row succeeds");
    let record = result.expect("the record must be present");
    assert_eq!(record.ident, "x");
    assert_eq!(record.name, "Widget");
}

#[test]
fn fetch_with_one_bad_row_is_malformed() {
    let row = vec![ColumnValue::Null];
    assert!(matches!(fetch_result_from_rows(vec![row]), Err(StoreError::BadRow)));
}

#[test]
fn fetch_with_two_rows_is_an_error() {
    let rows = vec![widget_row(), widget_row()];
    assert!(matches!(fetch_result_from_rows(rows), Err(StoreError::MultipleRows)));
}
