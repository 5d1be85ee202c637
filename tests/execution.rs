use s3_vectors::client::{check_batch_size, check_keys, check_names, S3VectorsClient};
use s3_vectors::auth::Timestamp;
use s3_vectors::error::S3VectorsError;
use s3_vectors::retry::{next_step, Outcome, RetryConfig, RetryState, Step};
use s3_vectors::types::ServiceError;

fn reply(status: u16, error: Option<ServiceError>) -> Outcome {
    Outcome::Response { status, body: "raw".to_string(), error }
}

fn service_error(tag: Option<&str>, message: &str) -> ServiceError {
    ServiceError {
        error_type: tag.map(|t| t.to_string()),
        message: message.to_string(),
        request_id: None,
    }
}

/// Feeds outcomes to the decisions until the call ends; returns the final
/// step, the number of attempts and the waits.
fn drive(cfg: &RetryConfig, outcomes: Vec<Outcome>) -> (Step, usize, Vec<u64>) {
    let mut state = RetryState::start(cfg);
    let mut waits = Vec::new();
    for (i, o) in outcomes.into_iter().enumerate() {
        match next_step(cfg, &state, o) {
            Step::Retry { wait_ms, next } => {
                waits.push(wait_ms);
                state = next;
            }
            step => return (step, i + 1, waits),
        }
    }
    panic!("outcomes ran out before the call ended");
}

#[test]
fn rate_limit_then_success_retries_once() {
    let cfg = RetryConfig::default();
    let (step, attempts, waits) = drive(&cfg, vec![reply(429, None), reply(200, None)]);
    assert!(matches!(step, Step::Success));
    assert_eq!(attempts, 2);
    assert_eq!(waits, vec![100]);
}

#[test]
fn each_retry_is_signed_again_with_its_own_time() {
    let client = S3VectorsClient::with_credentials("us-east-1", "AKID".into(), "SECRET".into(), None);
    let first = Timestamp::new(2024, 1, 15, 12, 0, 0).unwrap();
    let second = Timestamp::new(2024, 1, 15, 12, 0, 1).unwrap();
    let a = client.sign_attempt("/ListVectorBuckets", b"{}", &first).unwrap();
    let b = client.sign_attempt("/ListVectorBuckets", b"{}", &second).unwrap();
    let auth = |h: &Vec<(String, String)>| {
        h.iter().find(|(k, _)| k == "authorization").map(|(_, v)| v.clone())
    };
    assert_ne!(auth(&a), auth(&b));
}

#[test]
fn server_errors_stop_after_max_retries_plus_one_attempts() {
    let cfg = RetryConfig::default();
    let outcomes = (0..10).map(|_| reply(500, None)).collect();
    let (step, attempts, waits) = drive(&cfg, outcomes);
    match step {
        Step::Fail(S3VectorsError::ServiceError(m)) => {
            assert_eq!(m, "Request failed with status 500: raw");
        }
        other => panic!("unexpected {:?}", other),
    }
    assert_eq!(attempts, 4);
    assert_eq!(waits, vec![100, 200, 400]);
}

#[test]
fn rate_limits_stop_with_rate_limited_and_next_backoff() {
    let cfg = RetryConfig::default();
    let outcomes = (0..10).map(|_| reply(429, None)).collect();
    let (step, attempts, _) = drive(&cfg, outcomes);
    assert!(matches!(step, Step::Fail(S3VectorsError::RateLimit(800))));
    assert_eq!(attempts, 4);
}

#[test]
fn transport_failures_are_retried_then_surfaced() {
    let cfg = RetryConfig::default();
    let outcomes = (0..5).map(|_| Outcome::Transport("connection refused".to_string())).collect();
    let (step, attempts, _) = drive(&cfg, outcomes);
    match step {
        Step::Fail(S3VectorsError::RequestError(m)) => assert_eq!(m, "connection refused"),
        other => panic!("unexpected {:?}", other),
    }
    assert_eq!(attempts, 4);
}

#[test]
fn not_found_is_returned_without_retry() {
    let cfg = RetryConfig::default();
    let e = service_error(Some("NotFoundException"), "bucket not found");
    let (step, attempts, waits) = drive(&cfg, vec![reply(404, Some(e)), reply(200, None)]);
    match step {
        Step::Fail(S3VectorsError::NotFound(m)) => assert_eq!(m, "bucket not found"),
        other => panic!("unexpected {:?}", other),
    }
    assert_eq!(attempts, 1);
    assert!(waits.is_empty());
}

#[test]
fn conflict_with_already_exists_tag_is_already_exists() {
    let cfg = RetryConfig::default();
    let state = RetryState::start(&cfg);
    let e = service_error(Some("com.amazon#AlreadyExistsException"), "exists");
    assert!(matches!(
        next_step(&cfg, &state, reply(409, Some(e))),
        Step::Fail(S3VectorsError::AlreadyExists(_))
    ));
    let e = service_error(Some("ConflictException"), "conflict");
    assert!(matches!(
        next_step(&cfg, &state, reply(409, Some(e))),
        Step::Fail(S3VectorsError::AlreadyExists(_))
    ));
    let e = service_error(Some("ValidationException"), "other");
    match next_step(&cfg, &state, reply(409, Some(e))) {
        Step::Fail(S3VectorsError::ServiceError(m)) => assert_eq!(m, "other"),
        other => panic!("unexpected {:?}", other),
    }
    let e = service_error(None, "untagged");
    assert!(matches!(
        next_step(&cfg, &state, reply(409, Some(e))),
        Step::Fail(S3VectorsError::ServiceError(_))
    ));
}

#[test]
fn other_client_errors_are_not_retried() {
    let cfg = RetryConfig::default();
    let state = RetryState::start(&cfg);
    match next_step(&cfg, &state, reply(403, None)) {
        Step::Fail(S3VectorsError::ServiceError(m)) => {
            assert_eq!(m, "Request failed with status 403: raw")
        }
        other => panic!("unexpected {:?}", other),
    }
    let e = service_error(Some("AccessDenied"), "denied");
    match next_step(&cfg, &state, reply(403, Some(e))) {
        Step::Fail(S3VectorsError::ServiceError(m)) => assert_eq!(m, "denied"),
        other => panic!("unexpected {:?}", other),
    }
}

#[test]
fn backoff_doubles_and_is_capped() {
    let cfg = RetryConfig::new(10, 100, 5000).unwrap();
    let outcomes = (0..20).map(|_| reply(503, None)).collect();
    let (_, attempts, waits) = drive(&cfg, outcomes);
    assert_eq!(attempts, 11);
    assert_eq!(waits, vec![100, 200, 400, 800, 1600, 3200, 5000, 5000, 5000, 5000]);
}

#[test]
fn retry_config_rejects_initial_above_ceiling() {
    assert!(RetryConfig::new(3, 6000, 5000).is_none());
    let cfg = RetryConfig::default();
    assert_eq!((cfg.max_retries, cfg.initial_backoff_ms, cfg.max_backoff_ms), (3, 100, 5000));
}

#[test]
fn backoff_near_the_top_of_the_range_does_not_overflow() {
    let cfg = RetryConfig::new(5, u64::MAX - 1, u64::MAX).unwrap();
    let state = RetryState::start(&cfg);
    match next_step(&cfg, &state, reply(500, None)) {
        Step::Retry { wait_ms, next } => {
            assert_eq!(wait_ms, u64::MAX - 1);
            assert_eq!(next.backoff_ms, u64::MAX);
        }
        other => panic!("unexpected {:?}", other),
    }
}

#[test]
fn missing_credentials_is_auth_required() {
    let client = S3VectorsClient::new("us-east-1");
    let now = Timestamp::new(2024, 1, 15, 12, 0, 0).unwrap();
    assert!(matches!(
        client.sign_attempt("/ListVectorBuckets", b"{}", &now),
        Err(S3VectorsError::AuthRequired(_))
    ));
}

#[test]
fn attempt_headers_target_the_region_endpoint() {
    let client =
        S3VectorsClient::with_credentials("us-west-2", "AKID".into(), "SECRET".into(), None);
    let now = Timestamp::new(2024, 1, 15, 12, 0, 0).unwrap();
    let h = client.sign_attempt("/GetIndex", b"{}", &now).unwrap();
    let host = h.iter().find(|(k, _)| k == "host").map(|(_, v)| v.as_str());
    assert_eq!(host, Some("s3vectors.us-west-2.api.aws"));
    let auth = h.iter().find(|(k, _)| k == "authorization").unwrap();
    assert!(auth.1.contains("/20240115/us-west-2/s3vectors/aws4_request"));
}

#[test]
fn preflight_checks_are_validation_errors() {
    assert!(check_names("my-bucket", Some("my_index")).is_ok());
    assert!(matches!(check_names("My-Bucket", None), Err(S3VectorsError::Validation(_))));
    assert!(matches!(check_names("my-bucket", Some("bad name")), Err(S3VectorsError::Validation(_))));
    assert!(check_batch_size(500).is_ok());
    match check_batch_size(501) {
        Err(S3VectorsError::Validation(m)) => assert_eq!(m, "Batch size 501 exceeds maximum of 500"),
        other => panic!("unexpected {:?}", other),
    }
    assert!(matches!(check_batch_size(0), Err(S3VectorsError::Validation(_))));
    assert!(check_keys(1).is_ok());
    assert!(matches!(check_keys(0), Err(S3VectorsError::Validation(_))));
}

#[test]
fn error_messages_name_their_kind() {
    assert_eq!(
        S3VectorsError::RateLimit(800).to_message(),
        "Rate limit exceeded, retry after 800ms"
    );
    assert_eq!(
        S3VectorsError::NotFound("bucket not found".into()).to_message(),
        "Resource not found: bucket not found"
    );
    assert_eq!(
        S3VectorsError::SigningError("URL has no host".into()).to_message(),
        "Signing error: URL has no host"
    );
}

