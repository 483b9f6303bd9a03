use asset_ingest_api::ingest::csv_ingestor::{infer_column_type, ColumnType};
use asset_ingest_api::ingest::{
    resolve_ingestor, CellValue, CsvIngestor, ImageMetaIngestor, Ingestor, IngestorKind,
    JsonIngestor, Payload,
};
use asset_ingest_api::routes::upload::{stored_result, unreadable_file, BatchSummary, UploadProgress};
use serde_json::Value;

#[test]
fn dotless_name_spelling_json_is_sniffed_as_csv() {
    assert_eq!(resolve_ingestor("json", b"a,b\n1,2\n").unwrap(), IngestorKind::Csv);
}

#[test]
fn dotless_name_spelling_csv_is_sniffed_as_json() {
    assert_eq!(resolve_ingestor("csv", br#"{"a":1}"#).unwrap(), IngestorKind::Json);
}

#[test]
fn dotted_extension_wins_over_content() {
    assert_eq!(resolve_ingestor("data.csv", br#"{"a":1}"#).unwrap(), IngestorKind::Csv);
    assert_eq!(resolve_ingestor("data.json", b"a,b\n1,2\n").unwrap(), IngestorKind::Json);
}

#[test]
fn duplicate_csv_header_keeps_the_last_column() {
    let records = CsvIngestor.parse("dup.csv", b"a,b,a\n1,x,2\n").unwrap();
    assert_eq!(records.len(), 1);
    match &records[0].payload {
        Payload::CsvRow(fields) => {
            assert_eq!(
                fields,
                &vec![
                    ("b".to_string(), CellValue::Text("x".to_string())),
                    ("a".to_string(), CellValue::Integer(2)),
                ]
            );
        }
        _ => panic!("not a CSV payload"),
    }
}

#[test]
fn duplicate_exif_tags_keep_the_last_value() {
    let fields = vec![
        ("Make".to_string(), "A".to_string()),
        ("Model".to_string(), "X".to_string()),
        ("Make".to_string(), "B".to_string()),
    ];
    let record = ImageMetaIngestor::image_record("p.jpg", 10, Some(fields));
    match &record.payload {
        Payload::ImageMetadata(meta) => {
            assert_eq!(meta.filename, "p.jpg");
            assert_eq!(meta.size_bytes, 10);
            assert_eq!(
                meta.exif,
                Some(vec![
                    ("Model".to_string(), "X".to_string()),
                    ("Make".to_string(), "B".to_string()),
                ])
            );
        }
        _ => panic!("not an image payload"),
    }
}

#[test]
fn column_type_ignores_order_and_empty_cells() {
    assert_eq!(infer_column_type(&["3", "", "1"]), infer_column_type(&["1", "3"]));
    assert_eq!(infer_column_type(&["1", "3"]), ColumnType::Integer);
    assert_eq!(infer_column_type(&["", "2", "", "1.5"]), infer_column_type(&["1.5", "2"]));
    assert_eq!(infer_column_type(&["1.5", "2"]), ColumnType::Float);
    assert_eq!(infer_column_type(&["x", "", "1"]), infer_column_type(&["1", "x"]));
}

#[test]
fn json_array_elements_become_payloads_in_order() {
    let records = JsonIngestor.parse("a.json", br#"[{"a":1},{"b":2},3]"#).unwrap();
    let payloads: Vec<Value> = records
        .iter()
        .map(|r| match &r.payload {
            Payload::Json(v) => v.clone(),
            _ => panic!("not a JSON payload"),
        })
        .collect();
    let expected: Value = serde_json::from_str(r#"[{"a":1},{"b":2},3]"#).unwrap();
    assert_eq!(Value::Array(payloads), expected);
}

#[test]
fn upload_results_follow_file_order() {
    let first = unreadable_file("a.csv", "cut");
    let second = stored_result("b.csv", "csv_row".to_string(), Ok(BatchSummary { batch_id: 1, records_inserted: 2 }));
    let third = stored_result("c.json", "json".to_string(), Err("down".to_string()));
    let mut progress = UploadProgress::new();
    progress.add_file(first.clone());
    progress.skip_field();
    progress.add_file(second.clone());
    progress.skip_field();
    progress.add_file(third.clone());
    let summary = progress.finish().unwrap();
    assert_eq!(summary.files, vec![first, second, third]);
    assert_eq!(summary.files[1].status, "ok");
    assert_eq!(summary.files[2].error.as_deref(), Some("database error: down"));
}
