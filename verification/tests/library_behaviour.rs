use asset_ingest_api::auth::api_key_accepted;
use asset_ingest_api::config::Config;
use asset_ingest_api::error::{AppError, IngestError};
use asset_ingest_api::ingest::csv_ingestor::{coerce_cell, infer_column_type, ColumnType, CsvTable};
use asset_ingest_api::ingest::json_ingestor::JsonDocument;
use asset_ingest_api::ingest::{
    extension_of, kind_for_content, kind_for_extension_exec, resolve_ingestor, CellValue,
    CsvIngestor, ImageMetaIngestor, Ingestor, IngestorKind, JsonIngestor, Payload,
};
use asset_ingest_api::rate_limit::{ApiKeyExtractor, RateLimitRejection};
use asset_ingest_api::routes::assets::{default_limit, ListAssetsParams};
use asset_ingest_api::routes::upload::{
    prepare_file, stored_result, unreadable_file, BatchSummary, UploadProgress,
};
use asset_ingest_api::text::{
    decimal_string, is_float_literal, parse_i64, parse_u16, parse_usize, str_eq, str_starts_with,
};

fn strings(v: &[&str]) -> Vec<String> {
    v.iter().map(|s| s.to_string()).collect()
}

#[test]
fn integer_literals_follow_the_std_grammar() {
    assert_eq!(parse_i64("+5"), Some(5));
    assert_eq!(parse_i64("-7"), Some(-7));
    assert_eq!(parse_i64("007"), Some(7));
    assert_eq!(parse_i64("9223372036854775807"), Some(i64::MAX));
    assert_eq!(parse_i64("-9223372036854775808"), Some(i64::MIN));
    assert_eq!(parse_i64("9223372036854775808"), None);
    assert_eq!(parse_i64("-9223372036854775809"), None);
    for bad in ["", "+", "-", " 1", "1 ", "1_0", "1.0", "--1", "+-1", "0x10"] {
        assert_eq!(parse_i64(bad), None, "{bad:?}");
        assert_eq!(parse_i64(bad), bad.parse::<i64>().ok(), "{bad:?}");
    }
    assert_eq!(parse_u16("65535"), Some(65535));
    assert_eq!(parse_u16("65536"), None);
    assert_eq!(parse_u16("+80"), Some(80));
    assert_eq!(parse_u16("-0"), None);
    assert_eq!(parse_usize("104857600"), Some(104857600));
}

#[test]
fn float_literals_follow_the_std_grammar() {
    let accepted = [
        "1", "1.", ".5", "1.5", "1e5", "1E-5", "+.5e+3", "-2.5", "inf", "-Infinity", "NaN",
        "+iNf", "1e400", "0.99",
    ];
    for s in accepted {
        assert!(is_float_literal(s), "{s:?}");
        assert!(s.parse::<f64>().is_ok(), "{s:?}");
    }
    let refused = ["", ".", "e5", "1e", "1e+", "1.2.3", "nan1", "infin", " 1", "1_0", "+", "0x1"];
    for s in refused {
        assert!(!is_float_literal(s), "{s:?}");
        assert!(s.parse::<f64>().is_err(), "{s:?}");
    }
}

#[test]
fn decimal_rendering_matches_display() {
    for n in [0u64, 7, 10, 99, 100, 1234567890, u64::MAX] {
        assert_eq!(decimal_string(n), n.to_string());
    }
}

#[test]
fn string_helpers_compare_by_characters() {
    assert!(str_eq("abc", "abc"));
    assert!(!str_eq("abc", "abd"));
    assert!(!str_eq("abc", "ab"));
    assert!(str_starts_with("image/png", "image/"));
    assert!(!str_starts_with("application/zip", "image/"));
    assert!(!str_starts_with("img", "image/"));
}

#[test]
fn config_falls_back_to_defaults() {
    let c = Config::from_values(
        "postgres://db".to_string(),
        None,
        Some("not a number"),
        "key".to_string(),
        None,
        Some("-3"),
    );
    assert_eq!(c.port, 3000);
    assert_eq!(c.max_upload_bytes, 100 * 1024 * 1024);
    assert_eq!(c.rate_limit_per_second, 10);
    assert_eq!(c.rate_limit_burst, 20);
    assert_eq!(c.database_url, "postgres://db");
    assert_eq!(c.api_key, "key");

    let c = Config::from_values(
        "u".to_string(),
        Some("8080"),
        Some("1024"),
        "k".to_string(),
        Some("5"),
        Some("7"),
    );
    assert_eq!(c.port, 8080);
    assert_eq!(c.max_upload_bytes, 1024);
    assert_eq!(c.rate_limit_per_second, 5);
    assert_eq!(c.rate_limit_burst, 7);

    let c = Config::from_values("u".to_string(), Some("70000"), None, "k".to_string(), None, None);
    assert_eq!(c.port, 3000);
}

#[test]
fn page_window_is_clamped() {
    assert_eq!(default_limit(), 25);
    let p = ListAssetsParams::defaults();
    assert_eq!(p.page(), (25, 0));
    let p = ListAssetsParams { asset_type: None, limit: 0, offset: -5 };
    assert_eq!(p.page(), (1, 0));
    let p = ListAssetsParams { asset_type: Some("json".to_string()), limit: 1000, offset: 40 };
    assert_eq!(p.page(), (200, 40));
    let p = ListAssetsParams { asset_type: None, limit: 10, offset: 0 };
    assert_eq!(p.page(), (10, 0));
}

#[test]
fn app_errors_map_to_status_and_message() {
    let cases = [
        (AppError::UnsupportedType("a.bin".to_string()), 422, "unsupported asset type for file 'a.bin'"),
        (
            AppError::ParseError { filename: "f.csv".to_string(), reason: "bad".to_string() },
            422,
            "failed to parse file 'f.csv': bad",
        ),
        (AppError::Database("down".to_string()), 500, "database error: down"),
        (AppError::Multipart("cut".to_string()), 400, "multipart error: cut"),
        (AppError::NoFileProvided, 400, "no file provided in upload"),
        (AppError::Io("eof".to_string()), 500, "io error: eof"),
        (AppError::Unauthorized, 401, "missing or invalid API key"),
    ];
    for (err, status, message) in cases {
        assert_eq!(err.status_code(), status);
        assert_eq!(err.to_string(), message);
    }
    assert_eq!(IngestError::Malformed("x".to_string()).to_string(), "x");
}

#[test]
fn rate_limit_rejections_are_answered() {
    let (code, msg) = RateLimitRejection::TooManyRequests { wait_time: 2 }.response();
    assert_eq!((code, msg.as_str()), (429, "rate limit exceeded, retry after 2s"));
    let (code, msg) = RateLimitRejection::UnableToExtractKey.response();
    assert_eq!(code, 500);
    assert_eq!(msg, "rate limiter could not determine a key for this request");
    let (code, msg) = RateLimitRejection::Other { code: 503, msg: None }.response();
    assert_eq!((code, msg.as_str()), (503, "rate limiting error"));
    let (code, msg) =
        RateLimitRejection::Other { code: 400, msg: Some("nope".to_string()) }.response();
    assert_eq!((code, msg.as_str()), (400, "nope"));
}

#[test]
fn api_key_check_needs_the_exact_key() {
    assert!(api_key_accepted(Some("secret"), "secret"));
    assert!(!api_key_accepted(Some("secreT"), "secret"));
    assert!(!api_key_accepted(Some("secret "), "secret"));
    assert!(!api_key_accepted(None, "secret"));
    assert!(api_key_accepted(Some(""), ""));
}

#[test]
fn any_wrong_key_shares_the_invalid_bucket() {
    let e = ApiKeyExtractor { valid_key: "k".to_string() };
    let keys = [Some("a"), Some("b"), Some("K"), Some(""), None];
    for key in keys {
        assert_eq!(e.extract(key), "invalid");
    }
    assert_eq!(e.extract(Some("k")), "k");
}

#[test]
fn extension_is_what_follows_the_last_dot() {
    assert_eq!(extension_of("archive.tar.gz"), Some("gz"));
    assert_eq!(extension_of("noext"), None);
    assert_eq!(extension_of("trailing."), Some(""));
    assert_eq!(extension_of(".hidden"), Some("hidden"));
    assert_eq!(kind_for_extension_exec("csv"), Some(IngestorKind::Csv));
    assert_eq!(kind_for_extension_exec("json"), Some(IngestorKind::Json));
    assert_eq!(kind_for_extension_exec("tif"), Some(IngestorKind::ImageMeta));
    assert_eq!(kind_for_extension_exec("CSV"), None);
    assert_eq!(kind_for_extension_exec("gz"), None);
}

#[test]
fn content_decides_when_the_extension_does_not() {
    assert_eq!(kind_for_content("f", Some("image/png"), false, true).unwrap(), IngestorKind::ImageMeta);
    let err = kind_for_content("f", Some("application/zip"), true, true).unwrap_err();
    assert_eq!(err.to_string(), "file 'f' was detected as 'application/zip', which has no ingestor");
    assert_eq!(kind_for_content("f", None, true, true).unwrap(), IngestorKind::Json);
    assert_eq!(kind_for_content("f", None, false, true).unwrap(), IngestorKind::Csv);
    let err = kind_for_content("f", None, false, false).unwrap_err();
    assert_eq!(err.to_string(), "could not determine asset type for file 'f'");

    let err = resolve_ingestor("archive.zip_renamed", b"PK\x03\x04").unwrap_err();
    assert_eq!(
        err.to_string(),
        "file 'archive.zip_renamed' was detected as 'application/zip', which has no ingestor"
    );
    // The extension wins over the content.
    assert_eq!(resolve_ingestor("photo.PNG", b"a,b\n1,2\n").unwrap(), IngestorKind::ImageMeta);
    assert_eq!(resolve_ingestor("x.Json", b"\x89PNG\r\n\x1a\n").unwrap(), IngestorKind::Json);
}

#[test]
fn csv_table_errors_are_reported_with_their_place() {
    let table = CsvTable { headers: Err("boom".to_string()), rows: vec![] };
    let err = CsvIngestor::ingest_table("f.csv", &table).unwrap_err();
    assert_eq!(err.to_string(), "'f.csv': bad CSV headers: boom");

    let table = CsvTable {
        headers: Ok(strings(&["a"])),
        rows: vec![Ok(strings(&["1"])), Err("bad row".to_string()), Err("later".to_string())],
    };
    let err = CsvIngestor::ingest_table("f.csv", &table).unwrap_err();
    assert_eq!(err.to_string(), "'f.csv' row 1: bad row");

    let table = CsvTable { headers: Ok(strings(&["a"])), rows: vec![] };
    let err = CsvIngestor::ingest_table("f.csv", &table).unwrap_err();
    assert_eq!(err.to_string(), "'f.csv' contained no data rows");

    let err = CsvIngestor.parse("ragged.csv", b"name,age,city\nAlice,30\n").unwrap_err();
    assert!(err.to_string().starts_with("'ragged.csv' row 0: "), "{}", err.to_string());
}

#[test]
fn csv_table_rows_become_typed_records() {
    let table = CsvTable {
        headers: Ok(strings(&["n", "x", "t"])),
        rows: vec![Ok(strings(&["1", "1.5", "a"])), Ok(strings(&["", "2", "3"]))],
    };
    let records = CsvIngestor::ingest_table("f.csv", &table).unwrap();
    assert_eq!(records.len(), 2);
    assert_eq!(records[0].asset_type, "csv_row");
    assert_eq!(records[0].row_index, Some(0));
    assert_eq!(records[1].row_index, Some(1));
    match &records[1].payload {
        Payload::CsvRow(fields) => {
            assert_eq!(fields.len(), 3);
            assert_eq!(fields[0], ("n".to_string(), CellValue::Null));
            assert_eq!(fields[1], ("x".to_string(), CellValue::Float("2".to_string())));
            assert_eq!(fields[2], ("t".to_string(), CellValue::Text("3".to_string())));
        }
        _ => panic!("expected a CSV row"),
    }
}

#[test]
fn numeric_columns_never_fall_back_to_text() {
    let vals = ["1", "", "-2"];
    let t = infer_column_type(&vals);
    assert_eq!(t, ColumnType::Integer);
    assert_eq!(coerce_cell("-2", &t), CellValue::Integer(-2));
    assert_eq!(coerce_cell("", &t), CellValue::Null);
    // A value the column type cannot read stays text.
    assert_eq!(coerce_cell("x", &ColumnType::Integer), CellValue::Text("x".to_string()));
    assert_eq!(coerce_cell("x", &ColumnType::Float), CellValue::Text("x".to_string()));
    assert_eq!(infer_column_type(&["1", "2.5", "inf"]), ColumnType::Float);
    assert_eq!(infer_column_type(&[]), ColumnType::Text);
}

#[test]
fn json_documents_become_records_in_order() {
    let doc = JsonDocument::Array(vec![serde_json::Value::from(3), serde_json::Value::from("b")]);
    let records = JsonIngestor::records_from_document("d.json", Ok(doc)).unwrap();
    assert_eq!(records.len(), 2);
    match (&records[0].payload, &records[1].payload) {
        (Payload::Json(a), Payload::Json(b)) => {
            assert_eq!(*a, serde_json::Value::from(3));
            assert_eq!(*b, serde_json::Value::from("b"));
        }
        _ => panic!("expected JSON payloads"),
    }
    let err = JsonIngestor::records_from_document("d.json", Ok(JsonDocument::Array(vec![])))
        .unwrap_err();
    assert_eq!(err.to_string(), "'d.json' contained an empty array");
    let err = JsonIngestor::records_from_document("d.json", Err("oops".to_string())).unwrap_err();
    assert_eq!(err.to_string(), "'d.json': invalid JSON: oops");
    let records =
        JsonIngestor::records_from_document("d.json", Ok(JsonDocument::Single(serde_json::Value::Null)))
            .unwrap();
    assert_eq!(records.len(), 1);
    assert_eq!(records[0].row_index, None);

    let err = JsonIngestor.parse("broken.json", b"{not valid json").unwrap_err();
    assert!(err.to_string().starts_with("'broken.json': invalid JSON: "));
}

#[test]
fn image_records_hold_name_size_and_exif() {
    let fields = vec![("Make".to_string(), "Acme".to_string())];
    let rec = ImageMetaIngestor::image_record("a.jpg", 12, Some(fields.clone()));
    assert_eq!(rec.asset_type, "image_metadata");
    assert_eq!(rec.row_index, None);
    match &rec.payload {
        Payload::ImageMetadata(m) => {
            assert_eq!(m.filename, "a.jpg");
            assert_eq!(m.size_bytes, 12);
            assert_eq!(m.exif, Some(fields));
        }
        _ => panic!("expected image metadata"),
    }
}

#[test]
fn each_file_gets_its_own_result() {
    let prepared = prepare_file("people.csv", b"name,age\nAlice,30\n").unwrap();
    assert_eq!(prepared.asset_type, "csv_row");
    assert_eq!(prepared.records.len(), 1);

    let failed = prepare_file("mystery", &[0xDE, 0xAD, 0xBE, 0xEF, 0x00, 0xFF]).unwrap_err();
    assert_eq!(failed.status, "error");
    assert_eq!(failed.filename, "mystery");
    assert_eq!(failed.error.as_deref(), Some("could not determine asset type for file 'mystery'"));
    assert_eq!(failed.batch_id, None);

    let failed = prepare_file("empty.json", b"[]").unwrap_err();
    assert_eq!(failed.error.as_deref(), Some("'empty.json' contained an empty array"));
    assert_eq!(failed.asset_type, None);

    let ok = stored_result("people.csv", "csv_row".to_string(), Ok(BatchSummary { batch_id: 9, records_inserted: 1 }));
    assert_eq!(ok.status, "ok");
    assert_eq!(ok.batch_id, Some(9));
    assert_eq!(ok.records_inserted, Some(1));
    assert_eq!(ok.error, None);
    let db = stored_result("people.csv", "csv_row".to_string(), Err("connection reset".to_string()));
    assert_eq!(db.status, "error");
    assert_eq!(db.asset_type.as_deref(), Some("csv_row"));
    assert_eq!(db.error.as_deref(), Some("database error: connection reset"));
    let unread = unreadable_file("big.csv", "stream closed");
    assert_eq!(unread.error.as_deref(), Some("failed to read upload stream: stream closed"));

    let mut progress = UploadProgress::new();
    progress.skip_field();
    progress.add_file(db.clone());
    progress.add_file(ok.clone());
    let summary = progress.finish().unwrap();
    assert_eq!(summary.files, vec![db, ok]);

    let mut progress = UploadProgress::new();
    progress.skip_field();
    assert!(matches!(progress.finish(), Err(AppError::NoFileProvided)));
}
