use asset_ingest_api::ingest::{ImageMetaIngestor, Ingestor, Payload};
use serde_json::Value;

fn payload_json(payload: &Payload) -> Value {
    match payload {
        Payload::ImageMetadata(meta) => {
            let mut obj = serde_json::Map::new();
            obj.insert("filename".to_string(), Value::from(meta.filename.clone()));
            obj.insert("size_bytes".to_string(), Value::from(meta.size_bytes));
            let exif = match &meta.exif {
                Some(fields) => {
                    let mut m = serde_json::Map::new();
                    for (tag, value) in fields {
                        m.insert(tag.clone(), Value::from(value.clone()));
                    }
                    Value::Object(m)
                }
                None => Value::Null,
            };
            obj.insert("exif".to_string(), exif);
            Value::Object(obj)
        }
        _ => panic!("not an image payload"),
    }
}

#[test]
fn garbage_bytes_never_panic_and_still_return_a_record() {
    let garbage = b"this is not an image at all, just some bytes";
    let records = ImageMetaIngestor.parse("not-an-image.jpg", garbage).unwrap();

    assert_eq!(records.len(), 1);
    assert_eq!(records[0].asset_type, "image_metadata");
    assert_eq!(payload_json(&records[0].payload)["exif"], Value::Null);
    assert_eq!(payload_json(&records[0].payload)["size_bytes"], garbage.len());
    assert_eq!(payload_json(&records[0].payload)["filename"], "not-an-image.jpg");
}

#[test]
fn empty_byte_input_does_not_panic() {
    let records = ImageMetaIngestor.parse("empty.jpg", b"").unwrap();

    assert_eq!(records.len(), 1);
    assert_eq!(payload_json(&records[0].payload)["exif"], Value::Null);
    assert_eq!(payload_json(&records[0].payload)["size_bytes"], 0);
}

#[test]
fn filename_is_recorded_exactly_as_given() {
    let records = ImageMetaIngestor
        .parse("vacation photo (final) v2.JPG", b"\x00\x01\x02")
        .unwrap();

    assert_eq!(
        payload_json(&records[0].payload)["filename"],
        "vacation photo (final) v2.JPG"
    );
}
