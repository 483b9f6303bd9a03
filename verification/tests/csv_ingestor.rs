use asset_ingest_api::ingest::csv_ingestor::{coerce_cell, infer_column_type, ColumnType};
use asset_ingest_api::ingest::{CellValue, CsvIngestor, Ingestor, Payload};
use serde_json::Value;

fn cell_json(cell: &CellValue) -> Value {
    match cell {
        CellValue::Null => Value::Null,
        CellValue::Integer(n) => Value::from(*n),
        CellValue::Float(text) => text
            .parse::<f64>()
            .map(Value::from)
            .unwrap_or_else(|_| Value::String(text.clone())),
        CellValue::Text(text) => Value::String(text.clone()),
    }
}

fn payload_json(payload: &Payload) -> Value {
    match payload {
        Payload::CsvRow(fields) => {
            let mut obj = serde_json::Map::new();
            for (header, cell) in fields {
                obj.insert(header.clone(), cell_json(cell));
            }
            Value::Object(obj)
        }
        Payload::Json(v) => v.clone(),
        Payload::ImageMetadata(_) => panic!("not a CSV payload"),
    }
}

// --- Unit tests on the type inference helpers ---

#[test]
fn infer_integer_column() {
    assert_eq!(infer_column_type(&["1", "2", "42", "0", "-7"]), ColumnType::Integer);
}

#[test]
fn infer_float_column() {
    assert_eq!(infer_column_type(&["1.5", "2.0", "3.14"]), ColumnType::Float);
}

#[test]
fn infer_integer_column_ignores_empty_cells() {
    assert_eq!(infer_column_type(&["1", "", "3"]), ColumnType::Integer);
}

#[test]
fn all_empty_column_infers_as_text() {
    assert_eq!(infer_column_type(&["", "", ""]), ColumnType::Text);
}

#[test]
fn mixed_numeric_and_text_infers_as_text() {
    assert_eq!(infer_column_type(&["42", "N/A", "100"]), ColumnType::Text);
}

#[test]
fn integers_do_not_widen_to_float() {
    assert_eq!(infer_column_type(&["1", "2", "3"]), ColumnType::Integer);
}

#[test]
fn coerce_integer_cell() {
    assert_eq!(cell_json(&coerce_cell("42", &ColumnType::Integer)), Value::from(42i64));
}

#[test]
fn coerce_negative_integer_cell() {
    assert_eq!(cell_json(&coerce_cell("-7", &ColumnType::Integer)), Value::from(-7i64));
}

#[test]
fn coerce_float_cell() {
    assert_eq!(cell_json(&coerce_cell("3.14", &ColumnType::Float)), Value::from(3.14f64));
}

#[test]
fn coerce_empty_cell_is_null_regardless_of_column_type() {
    assert_eq!(cell_json(&coerce_cell("", &ColumnType::Integer)), Value::Null);
    assert_eq!(cell_json(&coerce_cell("", &ColumnType::Float)), Value::Null);
    assert_eq!(cell_json(&coerce_cell("", &ColumnType::Text)), Value::Null);
}

#[test]
fn coerce_text_cell_stays_string() {
    assert_eq!(
        cell_json(&coerce_cell("Seattle", &ColumnType::Text)),
        Value::String("Seattle".to_string())
    );
}

// --- Integration-level tests on the full CsvIngestor::parse ---

#[test]
fn numeric_columns_are_coerced_not_stringified() {
    let csv = "name,age,city\nAlice,30,Seattle\nBob,25,Austin\n";
    let records = CsvIngestor.parse("people.csv", csv.as_bytes()).unwrap();

    assert_eq!(records.len(), 2);
    assert_eq!(payload_json(&records[0].payload)["name"], "Alice");
    assert_eq!(payload_json(&records[0].payload)["city"], "Seattle");
    assert_eq!(payload_json(&records[0].payload)["age"], 30);
    assert_eq!(payload_json(&records[1].payload)["age"], 25);
}

#[test]
fn mixed_column_stays_as_text() {
    let csv = "id,status\n1,active\n2,0\n3,inactive\n";
    let records = CsvIngestor.parse("mixed.csv", csv.as_bytes()).unwrap();

    assert_eq!(payload_json(&records[0].payload)["id"], 1);
    assert_eq!(payload_json(&records[0].payload)["status"], "active");
    assert_eq!(payload_json(&records[1].payload)["status"], "0");
}

#[test]
fn empty_cells_become_null() {
    let csv = "name,nickname\nAlice,\n";
    let records = CsvIngestor.parse("blank.csv", csv.as_bytes()).unwrap();

    assert_eq!(payload_json(&records[0].payload)["nickname"], Value::Null);
    assert_eq!(payload_json(&records[0].payload)["name"], "Alice");
}

#[test]
fn column_with_some_empty_cells_infers_type_from_non_empty() {
    let csv = "player,score\nAlice,100\nBob,\nCarol,85\n";
    let records = CsvIngestor.parse("scores.csv", csv.as_bytes()).unwrap();

    assert_eq!(payload_json(&records[0].payload)["score"], 100);
    assert_eq!(payload_json(&records[1].payload)["score"], Value::Null);
    assert_eq!(payload_json(&records[2].payload)["score"], 85);
}

#[test]
fn float_column_is_preserved_as_float() {
    let csv = "item,price\napple,0.99\nbanana,1.49\n";
    let records = CsvIngestor.parse("prices.csv", csv.as_bytes()).unwrap();

    assert_eq!(payload_json(&records[0].payload)["price"], 0.99f64);
    assert_eq!(payload_json(&records[1].payload)["price"], 1.49f64);
}

#[test]
fn header_only_csv_with_no_data_rows_is_an_error() {
    let csv = "name,age,city\n";
    let result = CsvIngestor.parse("empty.csv", csv.as_bytes());

    assert!(result.is_err());
    let err = result.unwrap_err().to_string();
    assert!(err.contains("no data rows"), "unexpected error: {err}");
}

#[test]
fn completely_empty_file_is_an_error() {
    let result = CsvIngestor.parse("empty.csv", b"");
    assert!(result.is_err());
}

#[test]
fn row_with_fewer_fields_than_headers_is_an_error() {
    let csv = "name,age,city\nAlice,30\n";
    let result = CsvIngestor.parse("ragged.csv", csv.as_bytes());
    assert!(result.is_err());
}

#[test]
fn row_with_more_fields_than_headers_is_an_error() {
    let csv = "name,age\nAlice,30,extra_field\n";
    let result = CsvIngestor.parse("ragged.csv", csv.as_bytes());
    assert!(result.is_err());
}

#[test]
fn values_containing_commas_are_handled_via_quoting() {
    let csv = "name,address\n\"Alice\",\"123 Main St, Apt 4\"\n";
    let records = CsvIngestor.parse("quoted.csv", csv.as_bytes()).unwrap();

    assert_eq!(records.len(), 1);
    assert_eq!(payload_json(&records[0].payload)["address"], "123 Main St, Apt 4");
}

#[test]
fn unicode_values_are_preserved() {
    let csv = "name,city\n\u{00c9}lodie,M\u{00fc}nchen\n";
    let records = CsvIngestor.parse("unicode.csv", csv.as_bytes()).unwrap();

    assert_eq!(payload_json(&records[0].payload)["name"], "\u{00c9}lodie");
    assert_eq!(payload_json(&records[0].payload)["city"], "M\u{00fc}nchen");
}
