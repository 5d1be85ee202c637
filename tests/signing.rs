use s3_vectors::auth::{AwsV4Signer, Timestamp};
use s3_vectors::error::S3VectorsError;

const EMPTY_SHA256: &str = "e3b0c44298fc1c149afbf4c8996fb92427ae41e4649b934ca495991b7852b855";

fn signer(token: Option<&str>) -> AwsV4Signer {
    AwsV4Signer::new(
        "AKID".to_string(),
        "SECRET".to_string(),
        token.map(|t| t.to_string()),
        "us-east-1".to_string(),
    )
}

fn moment() -> Timestamp {
    Timestamp::new(2024, 1, 15, 12, 34, 56).unwrap()
}

fn header<'a>(headers: &'a [(String, String)], name: &str) -> Option<&'a str> {
    headers.iter().find(|(k, _)| k == name).map(|(_, v)| v.as_str())
}

#[test]
fn golden_signature_for_get_with_empty_body() {
    let out = signer(None)
        .sign_request("GET", "https://svc.us-east-1.example.com/Op", vec![], b"", &moment())
        .unwrap();
    assert_eq!(header(&out, "host"), Some("svc.us-east-1.example.com"));
    assert_eq!(header(&out, "x-amz-date"), Some("20240115T123456Z"));
    assert_eq!(header(&out, "x-amz-content-sha256"), Some(EMPTY_SHA256));
    assert_eq!(header(&out, "x-amz-security-token"), None);
    assert_eq!(
        header(&out, "authorization"),
        Some(
            "AWS4-HMAC-SHA256 Credential=AKID/20240115/us-east-1/s3vectors/aws4_request, \
             SignedHeaders=host;x-amz-content-sha256;x-amz-date, \
             Signature=35963d85c5a01f32cfd518c338dc2d870d6ae79d74eb42bd53d9c41eb123df17"
        )
    );
    assert_eq!(out.len(), 4);
}

#[test]
fn golden_signature_with_session_token_and_body() {
    let out = signer(Some("TOKEN"))
        .sign_request(
            "POST",
            "https://s3vectors.us-east-1.api.aws/CreateVectorBucket",
            vec![],
            br#"{"vectorBucketName":"my-bucket"}"#,
            &moment(),
        )
        .unwrap();
    assert_eq!(header(&out, "x-amz-security-token"), Some("TOKEN"));
    assert_eq!(
        header(&out, "authorization"),
        Some(
            "AWS4-HMAC-SHA256 Credential=AKID/20240115/us-east-1/s3vectors/aws4_request, \
             SignedHeaders=host;x-amz-content-sha256;x-amz-date;x-amz-security-token, \
             Signature=0a120634492001043e3fa3753e0e3bb9f3b6fde243f36fb1753b426bb0665ab4"
        )
    );
}

#[test]
fn golden_signature_with_port_and_caller_header() {
    let extra = vec![("X-Custom".to_string(), "  padded value  ".to_string())];
    let out = signer(None)
        .sign_request("GET", "https://svc.us-east-1.example.com:8443/Op", extra, b"", &moment())
        .unwrap();
    assert_eq!(header(&out, "host"), Some("svc.us-east-1.example.com:8443"));
    assert_eq!(header(&out, "X-Custom"), Some("  padded value  "));
    assert_eq!(
        header(&out, "authorization"),
        Some(
            "AWS4-HMAC-SHA256 Credential=AKID/20240115/us-east-1/s3vectors/aws4_request, \
             SignedHeaders=host;x-amz-content-sha256;x-amz-date;x-custom, \
             Signature=7ca5fe8e8323006d6bd8c58ac0880ef9c6f55c7eb318d54c9b787c84adc9ee61"
        )
    );
}

#[test]
fn default_port_is_left_out_of_host() {
    let out = signer(None)
        .sign_request("GET", "https://svc.us-east-1.example.com:443/Op", vec![], b"", &moment())
        .unwrap();
    assert_eq!(header(&out, "host"), Some("svc.us-east-1.example.com"));
}

#[test]
fn signing_twice_gives_identical_headers() {
    let s = signer(Some("TOKEN"));
    let a = s
        .sign_request("POST", "https://svc.example.com/Op", vec![], b"payload", &moment())
        .unwrap();
    let b = s
        .sign_request("POST", "https://svc.example.com/Op", vec![], b"payload", &moment())
        .unwrap();
    assert_eq!(a, b);
}

#[test]
fn signed_headers_in_authorization_match_header_names() {
    let extra = vec![("Content-Type".to_string(), "application/json".to_string())];
    let out = signer(None)
        .sign_request("POST", "https://svc.example.com/Op", extra, b"{}", &moment())
        .unwrap();
    let auth = header(&out, "authorization").unwrap();
    let mut names: Vec<String> = out
        .iter()
        .filter(|(k, _)| k != "authorization")
        .map(|(k, _)| k.to_lowercase())
        .collect();
    names.sort();
    let expected = format!("SignedHeaders={},", names.join(";"));
    assert!(auth.contains(&expected));
}

#[test]
fn one_changed_payload_byte_changes_hash_and_signature() {
    let s = signer(None);
    let a = s
        .sign_request("POST", "https://svc.example.com/Op", vec![], b"hello world", &moment())
        .unwrap();
    let b = s
        .sign_request("POST", "https://svc.example.com/Op", vec![], b"hello worle", &moment())
        .unwrap();
    assert_ne!(header(&a, "x-amz-content-sha256"), header(&b, "x-amz-content-sha256"));
    assert_ne!(header(&a, "authorization"), header(&b, "authorization"));
    assert_eq!(
        header(&a, "x-amz-content-sha256"),
        Some("b94d27b9934d3e08a52e52d7da7dabfac484efe37a5380ee9088f7ace2efcde9")
    );
}

#[test]
fn header_order_does_not_change_the_signature() {
    let s = signer(None);
    let h1 = vec![
        ("X-One".to_string(), "1".to_string()),
        ("x-two".to_string(), " 2 ".to_string()),
        ("Accept".to_string(), "*/*".to_string()),
    ];
    let mut h2 = h1.clone();
    h2.reverse();
    let a = s.sign_request("GET", "https://svc.example.com/Op", h1, b"", &moment()).unwrap();
    let b = s.sign_request("GET", "https://svc.example.com/Op", h2, b"", &moment()).unwrap();
    assert_eq!(header(&a, "authorization"), header(&b, "authorization"));
}

#[test]
fn caller_cannot_override_signer_headers() {
    let extra = vec![
        ("host".to_string(), "evil.example.com".to_string()),
        ("x-amz-date".to_string(), "19700101T000000Z".to_string()),
    ];
    let out = signer(None)
        .sign_request("GET", "https://svc.example.com/Op", extra, b"", &moment())
        .unwrap();
    assert_eq!(out.iter().filter(|(k, _)| k == "host").count(), 1);
    assert_eq!(header(&out, "host"), Some("svc.example.com"));
    assert_eq!(header(&out, "x-amz-date"), Some("20240115T123456Z"));
}

#[test]
fn url_without_host_is_a_signing_error() {
    let r = signer(None).sign_request("GET", "mailto:someone", vec![], b"", &moment());
    assert!(matches!(r, Err(S3VectorsError::SigningError(_))));
    let r = signer(None).sign_request("GET", "not a url", vec![], b"", &moment());
    assert!(matches!(r, Err(S3VectorsError::SigningError(_))));
}

#[test]
fn different_moments_give_different_dates() {
    let s = signer(None);
    let later = Timestamp::new(2024, 1, 15, 12, 34, 57).unwrap();
    let a = s.sign_request("GET", "https://svc.example.com/Op", vec![], b"", &moment()).unwrap();
    let b = s.sign_request("GET", "https://svc.example.com/Op", vec![], b"", &later).unwrap();
    assert_ne!(header(&a, "x-amz-date"), header(&b, "x-amz-date"));
    assert_ne!(header(&a, "authorization"), header(&b, "authorization"));
}

#[test]
fn timestamp_fields_are_range_checked_and_padded() {
    assert!(Timestamp::new(2024, 13, 1, 0, 0, 0).is_none());
    assert!(Timestamp::new(2024, 1, 0, 0, 0, 0).is_none());
    assert!(Timestamp::new(10000, 1, 1, 0, 0, 0).is_none());
    assert!(Timestamp::new(-1, 1, 1, 0, 0, 0).is_none());
    let t = Timestamp::new(987, 2, 3, 4, 5, 6).unwrap();
    assert_eq!(t.date_stamp_text(), "09870203");
    assert_eq!(t.full_stamp_text(), "09870203T040506Z");
}

#[test]
fn caller_authorization_header_is_replaced() {
    let extra = vec![("authorization".to_string(), "forged".to_string())];
    let out = signer(None)
        .sign_request("GET", "https://svc.us-east-1.example.com/Op", extra, b"", &moment())
        .unwrap();
    assert_eq!(out.iter().filter(|(k, _)| k == "authorization").count(), 1);
    assert_ne!(header(&out, "authorization"), Some("forged"));
    assert_eq!(out.len(), 4);
}

#[test]
fn signer_debug_output_hides_keys() {
    let text = signer(Some("TOKEN")).debug_string();
    assert!(!text.contains("SECRET"));
    assert!(!text.contains("TOKEN"));
    assert!(!text.contains("AKID"));
    assert!(text.contains("us-east-1"));
    assert!(text.contains("***REDACTED***"));
}

#[test]
fn signature_is_sixty_four_hex_digits() {
    let out = signer(None)
        .sign_request("POST", "https://svc.example.com/Op", vec![], b"x", &moment())
        .unwrap();
    let auth = header(&out, "authorization").unwrap();
    let sig = auth.rsplit("Signature=").next().unwrap();
    assert_eq!(sig.len(), 64);
    assert!(sig.chars().all(|c| c.is_ascii_hexdigit() && !c.is_ascii_uppercase()));
}
