use asset_ingest_api::ingest::{resolve_ingestor, Ingestor};

fn which_ingestor(ingestor: &dyn Ingestor) -> &'static str {
    // Which ingestor was selected is told by behaviour: inputs that only
    // one ingestor type would accept.
    let csv_probe = ingestor.parse("probe", b"a,b\n1,2\n");
    let json_probe = ingestor.parse("probe", b"{}");
    match (csv_probe.is_ok(), json_probe.is_ok()) {
        (true, false) => "csv",
        (false, true) => "json",
        _ => "image_or_other",
    }
}

#[test]
fn dot_csv_extension_dispatches_to_csv_ingestor() {
    let ingestor = resolve_ingestor("data.csv", b"a,b\n1,2\n").unwrap();
    assert_eq!(which_ingestor(&ingestor), "csv");
}

#[test]
fn dot_json_extension_dispatches_to_json_ingestor() {
    let ingestor = resolve_ingestor("data.json", b"{}").unwrap();
    assert_eq!(which_ingestor(&ingestor), "json");
}

#[test]
fn extension_matching_is_case_insensitive() {
    let ingestor = resolve_ingestor("DATA.CSV", b"a,b\n1,2\n").unwrap();
    assert_eq!(which_ingestor(&ingestor), "csv");
}

#[test]
fn image_extensions_dispatch_to_image_ingestor() {
    for ext in ["jpg", "jpeg", "png", "tiff", "tif"] {
        let filename = format!("photo.{ext}");
        let ingestor = resolve_ingestor(&filename, b"\xff\xd8\xff").unwrap();
        assert_eq!(
            which_ingestor(&ingestor),
            "image_or_other",
            "extension '{ext}' did not dispatch to image ingestor"
        );
    }
}

#[test]
fn no_extension_with_json_content_falls_back_to_json_sniffing() {
    let ingestor = resolve_ingestor("noextension", br#"{"a": 1}"#).unwrap();
    assert_eq!(which_ingestor(&ingestor), "json");
}

#[test]
fn unrecognized_extension_with_csv_like_content_falls_back_to_csv() {
    let ingestor = resolve_ingestor("export.dat", b"name,age\nAlice,30\n").unwrap();
    assert_eq!(which_ingestor(&ingestor), "csv");
}

#[test]
fn real_png_magic_bytes_dispatch_to_image_ingestor_even_without_extension() {
    let png_magic = b"\x89PNG\r\n\x1a\n";
    let ingestor = resolve_ingestor("noextension", png_magic).unwrap();
    assert_eq!(which_ingestor(&ingestor), "image_or_other");
}

#[test]
fn binary_format_infer_recognizes_but_we_dont_support_is_rejected() {
    let zip_magic = b"PK\x03\x04";
    let result = resolve_ingestor("archive.zip_renamed", zip_magic);
    assert!(
        result.is_err(),
        "a recognized-but-unsupported binary format should be rejected, not misrouted"
    );
}

#[test]
fn truly_unidentifiable_binary_garbage_is_rejected() {
    let garbage = [0xDE, 0xAD, 0xBE, 0xEF, 0x00, 0xFF, 0x10, 0x20];
    let result = resolve_ingestor("mystery", &garbage);
    assert!(result.is_err());
}

#[test]
fn empty_bytes_with_no_extension_dispatches_but_then_fails_to_parse() {
    let result = resolve_ingestor("noextension", b"");
    assert!(result.is_ok());
    let ingestor = result.unwrap();
    assert!(ingestor.parse("noextension", b"").is_err());
}
