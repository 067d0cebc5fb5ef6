use yomu::error::YomuError;
use yomu::manifest::{
    build_url, starts_with_https, validate_body_length, validate_declared_length,
    validate_manifest, ImageAttributes, ImageDataResponse, MAX_IMAGE_BYTES,
};

fn manifest() -> ImageDataResponse {
    ImageDataResponse {
        result: "ok".to_string(),
        base_url: "https://cdn.example".to_string(),
        chapter: ImageAttributes {
            hash: "deadbeef".to_string(),
            data: vec!["a1.jpg".to_string(), "a2.jpg".to_string()],
            data_saver: vec!["s1.jpg".to_string()],
        },
    }
}

#[test]
fn page_url_is_base_data_hash_filename() {
    let m = manifest();
    assert_eq!(build_url(&m, 0), "https://cdn.example/data/deadbeef/a1.jpg");
    assert_eq!(build_url(&m, 1), "https://cdn.example/data/deadbeef/a2.jpg");
}

#[test]
fn only_secure_base_urls_pass() {
    assert!(starts_with_https(&"https://x".to_string()));
    assert!(starts_with_https(&"https://".to_string()));
    assert!(!starts_with_https(&"http://x".to_string()));
    assert!(!starts_with_https(&"ftp://x".to_string()));
    assert!(!starts_with_https(&"https:/".to_string()));
    assert!(!starts_with_https(&"".to_string()));
}

#[test]
fn manifest_validation_rejects_insecure_transport() {
    let good = manifest();
    assert!(validate_manifest(&good).is_ok());
    let mut bad = manifest();
    bad.base_url = "http://cdn.example".to_string();
    assert_eq!(validate_manifest(&bad), Err(YomuError::Validation));
}

#[test]
fn declared_length_is_checked_against_the_ceiling() {
    assert_eq!(MAX_IMAGE_BYTES, 50 * 1024 * 1024);
    assert!(validate_declared_length(None).is_ok());
    assert!(validate_declared_length(Some(0)).is_ok());
    assert!(validate_declared_length(Some(MAX_IMAGE_BYTES)).is_ok());
    assert_eq!(
        validate_declared_length(Some(MAX_IMAGE_BYTES + 1)),
        Err(YomuError::Validation)
    );
}

#[test]
fn received_bytes_are_checked_against_the_ceiling() {
    assert!(validate_body_length(0).is_ok());
    assert!(validate_body_length(MAX_IMAGE_BYTES as usize).is_ok());
    assert_eq!(
        validate_body_length(MAX_IMAGE_BYTES as usize + 1),
        Err(YomuError::Validation)
    );
}

#[test]
fn error_messages_name_their_cause() {
    assert_eq!(YomuError::Network.message(), "network error");
    assert_eq!(YomuError::Api(502).message(), "api error");
    assert_eq!(YomuError::Validation.message(), "validation error");
    assert_eq!(YomuError::Decode.message(), "image decode error");
    assert_eq!(YomuError::Build.message(), "protocol build error");
    assert_eq!(YomuError::State.message(), "invalid navigation");
}
