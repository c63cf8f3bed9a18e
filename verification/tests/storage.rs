use rhwp_edit::json::{JsonMember, JsonValue};
use rhwp_edit::storage::{compose_upload_url, upload_result_from_json, url_encode};

#[test]
fn compose_upload_url_appends_query() {
    let base = "http://host/upload";
    assert_eq!(compose_upload_url(base, None, None, false), "http://host/upload");
    assert_eq!(compose_upload_url(base, Some("abc"), None, false), "http://host/upload?file_id=abc");
    assert_eq!(compose_upload_url(base, None, Some("/folder/sub"), false), "http://host/upload?path=/folder/sub");
    assert_eq!(
        compose_upload_url(base, Some("abc"), Some("/folder"), false),
        "http://host/upload?file_id=abc&path=/folder"
    );
    assert_eq!(
        compose_upload_url(base, None, Some("/folder"), true),
        "http://host/upload?path=/folder&overwrite=true"
    );
}

#[test]
fn compose_upload_url_existing_query_uses_amp() {
    let base = "http://host/upload?token=x";
    assert_eq!(compose_upload_url(base, Some("abc"), None, false), "http://host/upload?token=x&file_id=abc");
}

#[test]
fn url_encode_keeps_slash_and_basics() {
    assert_eq!(url_encode("/내 작업/"), "/%EB%82%B4%20%EC%9E%91%EC%97%85/");
}

#[test]
fn url_encode_reserved_ascii() {
    assert_eq!(url_encode("a b&c=d?e~f.g-h_i"), "a%20b%26c%3Dd%3Fe~f.g-h_i");
}

fn member(key: &str, value: JsonValue) -> JsonMember {
    JsonMember { key: key.to_string(), value }
}

#[test]
fn upload_result_reads_minio_key_then_path() {
    let j = JsonValue::Object(vec![
        member("file_id", JsonValue::Str("f1".to_string())),
        member("path", JsonValue::Str("/docs/a.hwp".to_string())),
        member("updated", JsonValue::Bool(true)),
    ]);
    let u = upload_result_from_json(&j).unwrap();
    assert_eq!(u.file_id, "f1");
    assert_eq!(u.minio_key.as_deref(), Some("/docs/a.hwp"));
    assert!(u.updated);

    let j = JsonValue::Object(vec![
        member("file_id", JsonValue::Str("f2".to_string())),
        member("minio_key", JsonValue::Str("bucket/key".to_string())),
        member("path", JsonValue::Str("/ignored".to_string())),
    ]);
    let u = upload_result_from_json(&j).unwrap();
    assert_eq!(u.minio_key.as_deref(), Some("bucket/key"));
    assert!(!u.updated);
}

#[test]
fn upload_result_requires_file_id() {
    let j = JsonValue::Object(vec![member("path", JsonValue::Str("/x".to_string()))]);
    let e = upload_result_from_json(&j).err().unwrap();
    assert_eq!(e, "upload 응답에 file_id 없음");
    let j = JsonValue::Object(vec![member("file_id", JsonValue::Int(3))]);
    assert!(upload_result_from_json(&j).is_err());
}
