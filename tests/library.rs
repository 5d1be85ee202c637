use s3_vectors::client::S3VectorsClient;
use s3_vectors::config::Config;
use s3_vectors::document::{clean_text, ChunkingConfig, DocumentProcessor, RagConfig};
use s3_vectors::embedding_dimensions;
use s3_vectors::text::{sort_texts, str_eq, text_le_exec};
use s3_vectors::validation::{
    validate_bucket_name, validate_dimensions, validate_index_name, validate_region,
    validate_top_k,
};

#[test]
fn test_bucket_name_validation() {
    assert!(validate_bucket_name("my-vector-bucket").is_ok());
    assert!(validate_bucket_name("123").is_ok());

    assert!(validate_bucket_name("ab").is_err());
    assert!(validate_bucket_name(&"a".repeat(64)).is_err());
    assert!(validate_bucket_name("My-Bucket").is_err());
    assert!(validate_bucket_name("-bucket").is_err());
    assert!(validate_bucket_name("bucket-").is_err());
    assert!(validate_bucket_name("bucket..name").is_err());
}

#[test]
fn test_index_name_validation() {
    assert!(validate_index_name("my_index_123").is_ok());
    assert!(validate_index_name("index-name").is_ok());

    assert!(validate_index_name("").is_err());
    assert!(validate_index_name(&"a".repeat(256)).is_err());
    assert!(validate_index_name("index name").is_err());
}

#[test]
fn test_dimension_validation() {
    assert!(validate_dimensions(128).is_ok());
    assert!(validate_dimensions(4096).is_ok());

    assert!(validate_dimensions(0).is_err());
    assert!(validate_dimensions(4097).is_err());
}

#[test]
fn bucket_name_rules_at_their_edges() {
    assert!(validate_bucket_name(&"a".repeat(63)).is_ok());
    assert!(validate_bucket_name("xn--bucket").is_err());
    assert!(validate_bucket_name("bucket-s3alias").is_err());
    assert!(validate_bucket_name("buc.ket").is_err());
    assert_eq!(
        validate_bucket_name("ab").unwrap_err(),
        "Bucket name must be between 3 and 63 characters long"
    );
    // three characters but four bytes: the length rule counts bytes
    assert_eq!(
        validate_bucket_name("aé").unwrap_err(),
        "Bucket name can only contain lowercase letters, numbers, and hyphens"
    );
}

#[test]
fn index_names_accept_unicode_alphanumerics() {
    assert!(validate_index_name("índice").is_ok());
    assert!(validate_index_name(&"a".repeat(255)).is_ok());
    assert!(validate_index_name("a/b").is_err());
}

#[test]
fn top_k_and_region_limits() {
    assert!(validate_top_k(1).is_ok());
    assert!(validate_top_k(30).is_ok());
    assert!(validate_top_k(0).is_err());
    assert!(validate_top_k(31).is_err());
    assert!(validate_region("us-east-1").is_ok());
    assert!(validate_region("us-west-2").is_ok());
    assert!(validate_region("eu-west-1").is_err());
}

#[test]
fn test_config_debug_redacts_credentials() {
    let config = Config {
        aws_region: "us-east-1".to_string(),
        aws_access_key_id: Some("AKIAXXXXXXXX".to_string()),
        aws_secret_access_key: Some("secret123".to_string()),
        aws_session_token: Some("token456".to_string()),
    };
    let debug_output = config.debug_string();
    assert!(!debug_output.contains("secret123"), "Secret key should be redacted");
    assert!(!debug_output.contains("token456"), "Session token should be redacted");
    assert!(debug_output.contains("***REDACTED***"), "Should show REDACTED for sensitive fields");
    assert!(debug_output.contains("us-east-1"), "Region should be visible");
}

#[test]
fn test_get_config_returns_defaults_on_error() {
    // the configuration could not be read from the environment
    let config = Config::or_defaults(None);
    assert!(!config.aws_region.is_empty());
    assert_eq!(config.aws_region, "us-east-1");
    assert!(config.aws_access_key_id.is_none());
    assert!(config.aws_secret_access_key.is_none());
    assert!(config.aws_session_token.is_none());
}

#[test]
fn config_defaults_have_no_credentials() {
    let config = Config::or_defaults(None);
    assert_eq!(config.aws_region, "us-east-1");
    assert!(!config.has_credentials());
    assert_eq!(
        config.debug_string(),
        "Config { aws_region: \"us-east-1\", aws_access_key_id: None, \
         aws_secret_access_key: None, aws_session_token: None }"
    );
}

#[test]
fn test_s3_vectors_client_creation() {
    let client = S3VectorsClient::new("us-east-1");
    assert_eq!(client.region(), "us-east-1");
    assert_eq!(client.endpoint(), "https://s3vectors.us-east-1.api.aws");
    assert!(!client.has_signer());
}

#[test]
fn test_from_env_without_credentials() {
    let config = Config::defaults();
    let result = S3VectorsClient::from_env(&config);
    assert!(result.is_ok());
    let client = result.unwrap();
    if config.has_credentials() {
        assert!(client.has_signer());
    } else {
        assert!(!client.has_signer());
    }

    let with_keys = Config {
        aws_region: "us-west-2".to_string(),
        aws_access_key_id: Some("AKID".to_string()),
        aws_secret_access_key: Some("SECRET".to_string()),
        aws_session_token: None,
    };
    let client = S3VectorsClient::from_env(&with_keys).unwrap();
    assert!(client.has_signer());
    assert_eq!(client.endpoint(), "https://s3vectors.us-west-2.api.aws");
}

#[test]
fn region_override_replaces_configured_region() {
    let config = Config::defaults();
    let client = S3VectorsClient::from_env_with_region(&config, Some("us-west-2")).unwrap();
    assert_eq!(client.region(), "us-west-2");
    let client = S3VectorsClient::from_env_with_region(&config, None).unwrap();
    assert_eq!(client.region(), "us-east-1");
    let only_key = Config {
        aws_access_key_id: Some("AKID".to_string()),
        ..Config::defaults()
    };
    assert!(!S3VectorsClient::from_env(&only_key).unwrap().has_signer());
}

#[test]
fn test_text_chunking() {
    let processor = DocumentProcessor::with_default_config();
    let text = (0..1000).map(|i| format!("word{}", i)).collect::<Vec<_>>().join(" ");
    let chunks = processor.split_text_into_chunks(&text);
    assert!(chunks.len() > 1);
    let first_chunk_words: Vec<&str> = chunks[0].split_whitespace().collect();
    let second_chunk_words: Vec<&str> = chunks[1].split_whitespace().collect();
    let overlap_start = first_chunk_words.len() - 50;
    for i in 0..50 {
        assert_eq!(first_chunk_words[overlap_start + i], second_chunk_words[i]);
    }
}

#[test]
fn chunking_counts_and_short_texts() {
    let processor = DocumentProcessor::with_default_config();
    let text = (0..1000).map(|i| format!("w{}", i)).collect::<Vec<_>>().join("  ");
    let chunks = processor.split_text_into_chunks(&text);
    // chunks start at words 0 and 462; from 924 fewer than 100 words remain
    assert_eq!(chunks.len(), 2);
    assert!(chunks[0].starts_with("w0 w1 "));
    assert!(chunks[1].starts_with("w462 "));
    assert_eq!(chunks[1].split_whitespace().count(), 512);
    let short = "  a short\ttext ";
    assert_eq!(processor.split_text_into_chunks(short), vec![short.to_string()]);
    let small = DocumentProcessor::new(ChunkingConfig { chunk_size: 3, chunk_overlap: 1, min_chunk_size: 2 });
    assert_eq!(
        small.split_text_into_chunks("a b c d e f"),
        vec!["a b c".to_string(), "c d e".to_string(), "e f".to_string()]
    );
}

#[test]
fn document_ids_count_up() {
    let mut processor = DocumentProcessor::with_default_config();
    assert_eq!(processor.next_document_id(), "doc-0");
    assert_eq!(processor.next_document_id(), "doc-1");
}

#[test]
fn clean_text_collapses_and_strips() {
    assert_eq!(clean_text("  Hello,\n\n   world!  "), "Hello, world!");
    assert_eq!(clean_text("a@b#c"), "a b c");
    assert_eq!(clean_text("keep-this 'quoted' \"text\"?"), "keep-this 'quoted' \"text\"?");
}

#[test]
fn test_embedding_dimensions() {
    assert_eq!(embedding_dimensions(), 384);
}

#[test]
fn text_order_is_byte_order() {
    let sorted = sort_texts(vec!["b".to_string(), "a:1".to_string(), "a".to_string(), "B".to_string()]);
    assert_eq!(sorted, vec!["B", "a", "a:1", "b"]);
    assert!(text_le_exec("a-b:x", "a:y"));
    assert!(!text_le_exec("é", "z"));
    assert!(str_eq("héllo", "héllo"));
    assert!(!str_eq("hello", "hellO"));
}

#[test]
fn test_rag_config() {
    let config = RagConfig::default();
    assert_eq!(config.bucket_name, "rag-vectors-default");
    assert_eq!(config.index_name, "documents-default");
    assert_eq!(config.embedding_batch_size, 32);
}

#[test]
fn client_debug_output_hides_keys() {
    let client = S3VectorsClient::with_credentials("us-east-1", "AKID".into(), "SECRET".into(), Some("TOKEN".into()));
    let text = client.debug_string();
    assert!(!text.contains("SECRET"));
    assert!(!text.contains("TOKEN"));
    assert!(text.contains("https://s3vectors.us-east-1.api.aws"));
    assert_eq!(
        S3VectorsClient::new("us-west-2").debug_string(),
        "S3VectorsClient { endpoint: \"https://s3vectors.us-west-2.api.aws\", region: \"us-west-2\", signer: None }"
    );
}
