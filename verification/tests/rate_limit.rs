use asset_ingest_api::rate_limit::{ApiKeyExtractor, INVALID_KEY_BUCKET};
use http::Request as HttpRequest;

fn extractor() -> ApiKeyExtractor {
    ApiKeyExtractor {
        valid_key: "correct-key".to_string(),
    }
}

fn request_with_header(name: &str, value: &str) -> HttpRequest<()> {
    HttpRequest::builder().header(name, value).body(()).unwrap()
}

fn request_without_headers() -> HttpRequest<()> {
    HttpRequest::builder().body(()).unwrap()
}

/// The key a request's `x-api-key` header holds, as the rate limiter reads it.
fn provided_key<T>(req: &HttpRequest<T>) -> Option<&str> {
    req.headers().get("x-api-key").and_then(|v| v.to_str().ok())
}

#[test]
fn valid_key_gets_its_own_bucket() {
    let req = request_with_header("x-api-key", "correct-key");
    let key = extractor().extract(provided_key(&req));
    assert_eq!(key, "correct-key");
}

#[test]
fn missing_header_falls_into_invalid_bucket() {
    let req = request_without_headers();
    let key = extractor().extract(provided_key(&req));
    assert_eq!(key, INVALID_KEY_BUCKET);
}

#[test]
fn wrong_key_falls_into_invalid_bucket() {
    let req = request_with_header("x-api-key", "wrong-key");
    let key = extractor().extract(provided_key(&req));
    assert_eq!(key, INVALID_KEY_BUCKET);
}

#[test]
fn different_wrong_keys_collapse_into_the_same_bucket() {
    let extractor = extractor();
    let req_a = request_with_header("x-api-key", "garbage-one");
    let req_b = request_with_header("x-api-key", "totally-different-garbage");

    let key_a = extractor.extract(provided_key(&req_a));
    let key_b = extractor.extract(provided_key(&req_b));

    assert_eq!(key_a, key_b);
    assert_eq!(key_a, INVALID_KEY_BUCKET);
}

#[test]
fn configuring_a_key_equal_to_the_sentinel_string_still_resolves_via_the_valid_path() {
    let extractor = ApiKeyExtractor {
        valid_key: INVALID_KEY_BUCKET.to_string(),
    };
    let req = request_with_header("x-api-key", INVALID_KEY_BUCKET);
    let key = extractor.extract(provided_key(&req));
    assert_eq!(key, INVALID_KEY_BUCKET);
}
