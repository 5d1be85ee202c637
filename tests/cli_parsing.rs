use s3_vectors::cli::{
    BucketCommand, BucketSortField, BucketSubcommands, Cli, Commands, DistanceMetricArg,
    IndexCommand, IndexSubcommands, InteractiveMode, OutputFormat, PolicyCommand,
    PolicySubcommands, RagSubcommands, VectorCommand, VectorSubcommands,
};
use s3_vectors::client::S3VectorsClient;
use s3_vectors::config::Config;
use s3_vectors::types::BucketStatus;

fn args(words: &[&str]) -> Vec<String> {
    words.iter().map(|w| w.to_string()).collect()
}

fn line(text: &str) -> Vec<String> {
    text.split_whitespace().map(|w| w.to_string()).collect()
}

#[test]
fn test_parse_create_command() {
    let cli = BucketSubcommands::try_parse_from(&args(&["test", "create", "my-bucket"])).unwrap();
    match cli {
        BucketSubcommands::Create { name, kms_key_id, tags } => {
            assert_eq!(name, "my-bucket");
            assert!(kms_key_id.is_none());
            assert!(tags.is_none());
        }
        _ => panic!("Expected Create command"),
    }
}

#[test]
fn test_parse_create_with_options() {
    let cli = BucketSubcommands::try_parse_from(&args(&[
        "test",
        "create",
        "my-bucket",
        "--kms-key-id",
        "key123",
        "--tags",
        "env=prod,team=data",
    ]))
    .unwrap();
    match cli {
        BucketSubcommands::Create { name, kms_key_id, tags } => {
            assert_eq!(name, "my-bucket");
            assert_eq!(kms_key_id, Some("key123".to_string()));
            assert_eq!(tags, Some(vec!["env=prod".to_string(), "team=data".to_string()]));
        }
        _ => panic!("Expected Create command"),
    }
}

#[test]
fn test_parse_list_command() {
    let cli = BucketSubcommands::try_parse_from(&args(&["test", "list"])).unwrap();
    match cli {
        BucketSubcommands::List { max_results, prefix } => {
            assert_eq!(max_results, 100);
            assert!(prefix.is_none());
        }
        _ => panic!("Expected List command"),
    }
}

#[test]
fn test_parse_get_command() {
    let cli = BucketSubcommands::try_parse_from(&args(&["test", "get", "my-bucket"])).unwrap();
    match cli {
        BucketSubcommands::Get { name } => assert_eq!(name, "my-bucket"),
        _ => panic!("Expected Get command"),
    }
}

#[test]
fn test_parse_delete_command() {
    let cli = BucketSubcommands::try_parse_from(&args(&["test", "delete", "my-bucket", "--force"]))
        .unwrap();
    match cli {
        BucketSubcommands::Delete { name, force } => {
            assert_eq!(name, "my-bucket");
            assert!(force);
        }
        _ => panic!("Expected Delete command"),
    }
}

#[test]
fn test_parse_query_simple() {
    let cli = BucketSubcommands::try_parse_from(&args(&["test", "query", "prod"])).unwrap();
    match cli {
        BucketSubcommands::Query { pattern, .. } => assert_eq!(pattern, Some("prod".to_string())),
        _ => panic!("Expected Query command"),
    }
}

#[test]
fn test_parse_query_with_filters() {
    let cli = BucketSubcommands::try_parse_from(&args(&[
        "test",
        "query",
        "--name-contains",
        "vec",
        "--status",
        "active",
    ]))
    .unwrap();
    match cli {
        BucketSubcommands::Query { pattern, name_contains, status, .. } => {
            assert_eq!(pattern, None);
            assert_eq!(name_contains, Some("vec".to_string()));
            assert_eq!(status, Some(BucketStatus::Active));
        }
        _ => panic!("Expected Query command"),
    }
}

#[test]
fn test_parse_query_with_date_filter() {
    let cli = BucketSubcommands::try_parse_from(&args(&[
        "test",
        "query",
        "--created-after",
        "2024-01-01",
        "--sort-by",
        "created",
    ]))
    .unwrap();
    match cli {
        BucketSubcommands::Query { created_after, sort_by, .. } => {
            assert_eq!(created_after, Some("2024-01-01".to_string()));
            assert!(matches!(sort_by, BucketSortField::Created));
        }
        _ => panic!("Expected Query command"),
    }
}

#[test]
fn test_parse_create_index_command() {
    let cli = IndexSubcommands::try_parse_from(&args(&[
        "test",
        "create",
        "my-bucket",
        "my-index",
        "--dimensions",
        "384",
    ]))
    .unwrap();
    match cli {
        IndexSubcommands::Create { bucket, name, dimensions, metric, .. } => {
            assert_eq!(bucket, "my-bucket");
            assert_eq!(name, "my-index");
            assert_eq!(dimensions, 384);
            assert_eq!(metric, DistanceMetricArg::Cosine);
        }
        _ => panic!("Expected Create command"),
    }
}

#[test]
fn test_parse_list_indexes_command() {
    let cli = IndexSubcommands::try_parse_from(&args(&["test", "list", "my-bucket"])).unwrap();
    match cli {
        IndexSubcommands::List { bucket, max_results, prefix, query: _ } => {
            assert_eq!(bucket, "my-bucket");
            assert_eq!(max_results, 100);
            assert!(prefix.is_none());
        }
        _ => panic!("Expected List command"),
    }
}

#[test]
fn test_parse_get_index_command() {
    let cli = IndexSubcommands::try_parse_from(&args(&["test", "get", "my-bucket", "my-index"]))
        .unwrap();
    match cli {
        IndexSubcommands::Get { bucket, name } => {
            assert_eq!(bucket, "my-bucket");
            assert_eq!(name, "my-index");
        }
        _ => panic!("Expected Get command"),
    }
}

#[test]
fn test_parse_delete_index_command() {
    let cli = IndexSubcommands::try_parse_from(&args(&[
        "test",
        "delete",
        "my-bucket",
        "my-index",
        "--force",
    ]))
    .unwrap();
    match cli {
        IndexSubcommands::Delete { bucket, name, force } => {
            assert_eq!(bucket, "my-bucket");
            assert_eq!(name, "my-index");
            assert!(force);
        }
        _ => panic!("Expected Delete command"),
    }
}

#[test]
fn test_parse_put_policy_command() {
    let cli = PolicySubcommands::try_parse_from(&args(&["test", "put", "my-bucket"])).unwrap();
    match cli {
        PolicySubcommands::Put { bucket, policy, file } => {
            assert_eq!(bucket, "my-bucket");
            assert!(policy.is_none());
            assert!(file.is_none());
        }
        _ => panic!("Expected Put command"),
    }
}

#[test]
fn test_parse_put_policy_with_file() {
    let cli = PolicySubcommands::try_parse_from(&args(&[
        "test",
        "put",
        "my-bucket",
        "--file",
        "policy.json",
    ]))
    .unwrap();
    match cli {
        PolicySubcommands::Put { bucket, policy, file } => {
            assert_eq!(bucket, "my-bucket");
            assert!(policy.is_none());
            assert_eq!(file, Some("policy.json".to_string()));
        }
        _ => panic!("Expected Put command"),
    }
}

#[test]
fn test_parse_get_policy_command() {
    let cli = PolicySubcommands::try_parse_from(&args(&["test", "get", "my-bucket"])).unwrap();
    match cli {
        PolicySubcommands::Get { bucket } => assert_eq!(bucket, "my-bucket"),
        _ => panic!("Expected Get command"),
    }
}

#[test]
fn test_parse_delete_policy_command() {
    let cli = PolicySubcommands::try_parse_from(&args(&["test", "delete", "my-bucket", "--force"]))
        .unwrap();
    match cli {
        PolicySubcommands::Delete { bucket, force } => {
            assert_eq!(bucket, "my-bucket");
            assert!(force);
        }
        _ => panic!("Expected Delete command"),
    }
}

#[test]
fn test_parse_put_vector_command() {
    let cli = VectorSubcommands::try_parse_from(&args(&[
        "test",
        "put",
        "my-bucket",
        "my-index",
        "key1",
        "-d",
        "0.1,0.2,0.3",
    ]))
    .unwrap();
    match cli {
        VectorSubcommands::Put { bucket, index, key, data, .. } => {
            assert_eq!(bucket, "my-bucket");
            assert_eq!(index, "my-index");
            assert_eq!(key, "key1");
            assert_eq!(data, "0.1,0.2,0.3");
        }
        _ => panic!("Expected Put command"),
    }
}

#[test]
fn test_parse_get_vectors_command() {
    let cli = VectorSubcommands::try_parse_from(&args(&[
        "test",
        "get",
        "my-bucket",
        "my-index",
        "key1,key2",
    ]))
    .unwrap();
    match cli {
        VectorSubcommands::Get { bucket, index, keys, .. } => {
            assert_eq!(bucket, "my-bucket");
            assert_eq!(index, "my-index");
            assert_eq!(keys, vec!["key1", "key2"]);
        }
        _ => panic!("Expected Get command"),
    }
}

#[test]
fn test_parse_query_command() {
    let cli = VectorSubcommands::try_parse_from(&args(&[
        "test",
        "query",
        "my-bucket",
        "my-index",
        "-q",
        "0.1,0.2,0.3",
        "--top-k",
        "10",
    ]))
    .unwrap();
    match cli {
        VectorSubcommands::Query { bucket, index, vector, top_k, .. } => {
            assert_eq!(bucket, "my-bucket");
            assert_eq!(index, "my-index");
            assert_eq!(vector, "0.1,0.2,0.3");
            assert_eq!(top_k, 10);
        }
        _ => panic!("Expected Query command"),
    }
}

#[test]
fn test_parse_delete_vectors_command() {
    let cli = VectorSubcommands::try_parse_from(&args(&[
        "test",
        "delete",
        "my-bucket",
        "my-index",
        "key1,key2",
        "--force",
    ]))
    .unwrap();
    match cli {
        VectorSubcommands::Delete { bucket, index, keys, force } => {
            assert_eq!(bucket, "my-bucket");
            assert_eq!(index, "my-index");
            assert_eq!(keys, vec!["key1", "key2"]);
            assert!(force);
        }
        _ => panic!("Expected Delete command"),
    }
}

#[test]
fn test_parse_cli_without_command() {
    let cli = Cli::try_parse_from(&args(&["s3-vectors"]), None, None).unwrap();
    assert!(cli.command.is_none());
}

#[test]
fn test_parse_cli_with_bucket_command() {
    let cli = Cli::try_parse_from(&args(&["s3-vectors", "bucket", "list"]), None, None).unwrap();
    assert!(matches!(cli.command, Some(Commands::Bucket(_))));
}

#[test]
fn test_parse_cli_with_global_options() {
    let cli = Cli::try_parse_from(
        &args(&["s3-vectors", "--region", "us-west-2", "--verbose", "bucket", "list"]),
        None,
        None,
    )
    .unwrap();
    assert_eq!(cli.region, "us-west-2");
    assert!(cli.verbose);
    assert!(matches!(cli.command, Some(Commands::Bucket(_))));
}

#[test]
fn test_output_format_display() {
    assert_eq!(OutputFormat::Json.to_string(), "json");
    assert_eq!(OutputFormat::Table.to_string(), "table");
    assert_eq!(OutputFormat::Yaml.to_string(), "yaml");
}

#[test]
fn test_parse_rag_init() {
    let cli = RagSubcommands::try_parse_from(&args(&["test", "init"])).unwrap();
    match cli {
        RagSubcommands::Init { bucket, index } => {
            assert_eq!(bucket, "rag-vectors-default");
            assert_eq!(index, "documents-default");
        }
        _ => panic!("Expected init command"),
    }
}

#[test]
fn test_parse_rag_init_with_options() {
    let cli = RagSubcommands::try_parse_from(&args(&[
        "test", "init", "--bucket", "my-bucket", "--index", "my-index",
    ]))
    .unwrap();
    match cli {
        RagSubcommands::Init { bucket, index } => {
            assert_eq!(bucket, "my-bucket");
            assert_eq!(index, "my-index");
        }
        _ => panic!("Expected init command"),
    }
}

#[test]
fn test_parse_rag_ingest() {
    let cli = RagSubcommands::try_parse_from(&args(&["test", "ingest", "--directory", "/tmp/docs"]))
        .unwrap();
    match cli {
        RagSubcommands::Ingest { directory, bucket, index } => {
            assert_eq!(directory, "/tmp/docs");
            assert_eq!(bucket, "rag-vectors-default");
            assert_eq!(index, "documents-default");
        }
        _ => panic!("Expected ingest command"),
    }
}

#[test]
fn test_parse_rag_query() {
    let cli = RagSubcommands::try_parse_from(&args(&["test", "query", "What is S3 Vectors?"]))
        .unwrap();
    match cli {
        RagSubcommands::Query { query, top_k, .. } => {
            assert_eq!(query, "What is S3 Vectors?");
            assert_eq!(top_k, 5);
        }
        _ => panic!("Expected query command"),
    }
}

#[test]
fn test_parse_rag_query_with_options() {
    let cli = RagSubcommands::try_parse_from(&args(&[
        "test",
        "query",
        "How does it work?",
        "--top-k",
        "10",
        "--bucket",
        "custom",
    ]))
    .unwrap();
    match cli {
        RagSubcommands::Query { query, top_k, bucket, .. } => {
            assert_eq!(query, "How does it work?");
            assert_eq!(top_k, 10);
            assert_eq!(bucket, "custom");
        }
        _ => panic!("Expected query command"),
    }
}

#[test]
fn test_interactive_mode_creation() {
    let client = S3VectorsClient::new("us-east-1");
    let interactive = InteractiveMode::new(client, OutputFormat::Table, false);
    assert_eq!(interactive.format(), OutputFormat::Table);
    assert!(!interactive.is_verbose());
}

#[test]
fn test_parse_bucket_list_command() {
    let parsed = Commands::try_parse_from(&line("s3-vectors bucket list")).unwrap();
    match parsed {
        Commands::Bucket(BucketCommand { command: BucketSubcommands::List { .. } }) => {}
        _ => panic!("Expected bucket list command"),
    }
}

#[test]
fn test_parse_command_args() {
    let client = S3VectorsClient::from_env(&Config::defaults()).unwrap();
    let interactive = InteractiveMode::new(client, OutputFormat::Table, false);

    let words = interactive.parse_command_args("s3-vectors bucket list").unwrap();
    assert_eq!(words, vec!["s3-vectors", "bucket", "list"]);

    let words = interactive
        .parse_command_args("s3-vectors index list my-bucket --query \"how many apples\"")
        .unwrap();
    assert_eq!(
        words,
        vec!["s3-vectors", "index", "list", "my-bucket", "--query", "how many apples"]
    );

    let words = interactive
        .parse_command_args("s3-vectors vector put bucket index key -m \"{\\\"key\\\": \\\"value\\\"}\"")
        .unwrap();
    assert_eq!(words.len(), 8);
    assert_eq!(words[7], "{\\\"key\\\": \\\"value\\\"}");

    let result = interactive.parse_command_args("s3-vectors index list --query \"unclosed");
    assert!(result.is_err());
}

#[test]
fn test_parse_index_create_command() {
    let parsed =
        Commands::try_parse_from(&line("s3-vectors index create my-bucket my-index -d 384")).unwrap();
    match parsed {
        Commands::Index(IndexCommand {
            command: IndexSubcommands::Create { bucket, name, dimensions, .. },
        }) => {
            assert_eq!(bucket, "my-bucket");
            assert_eq!(name, "my-index");
            assert_eq!(dimensions, 384);
        }
        _ => panic!("Expected index create command"),
    }
}

#[test]
fn test_parse_index_list_with_query() {
    let client = S3VectorsClient::new("us-east-1");
    let interactive = InteractiveMode::new(client, OutputFormat::Table, false);
    let words = interactive
        .parse_command_args("s3-vectors index list my-bucket --query \"document embeddings\"")
        .unwrap();
    let parsed = Commands::try_parse_from(&words).unwrap();
    match parsed {
        Commands::Index(IndexCommand { command: IndexSubcommands::List { bucket, query, .. } }) => {
            assert_eq!(bucket, "my-bucket");
            assert_eq!(query, Some("document embeddings".to_string()));
        }
        _ => panic!("Expected index list command with query"),
    }
}

#[test]
fn test_parse_vector_query_command() {
    let parsed = Commands::try_parse_from(&line(
        "s3-vectors vector query my-bucket my-index -q 0.1,0.2,0.3 -t 10",
    ))
    .unwrap();
    match parsed {
        Commands::Vector(VectorCommand {
            command: VectorSubcommands::Query { bucket, index, vector, top_k, .. },
        }) => {
            assert_eq!(bucket, "my-bucket");
            assert_eq!(index, "my-index");
            assert_eq!(vector, "0.1,0.2,0.3");
            assert_eq!(top_k, 10);
        }
        _ => panic!("Expected vector query command"),
    }
}

#[test]
fn test_invalid_command_handling() {
    let result = Commands::try_parse_from(&line("s3-vectors invalid command"));
    assert!(result.is_err());
}

#[test]
fn test_parse_policy_put_command() {
    let parsed =
        Commands::try_parse_from(&line("s3-vectors policy put my-bucket --file policy.json"))
            .unwrap();
    match parsed {
        Commands::Policy(PolicyCommand { command: PolicySubcommands::Put { bucket, file, .. } }) => {
            assert_eq!(bucket, "my-bucket");
            assert_eq!(file, Some("policy.json".to_string()));
        }
        _ => panic!("Expected policy put command"),
    }
}

#[test]
fn test_parse_vector_put_with_metadata() {
    let parsed = Commands::try_parse_from(&line(
        r#"s3-vectors vector put my-bucket my-index key1 -d 0.1,0.2,0.3 -m {"category":"test"}"#,
    ))
    .unwrap();
    match parsed {
        Commands::Vector(VectorCommand {
            command: VectorSubcommands::Put { bucket, index, key, data, metadata, .. },
        }) => {
            assert_eq!(bucket, "my-bucket");
            assert_eq!(index, "my-index");
            assert_eq!(key, "key1");
            assert_eq!(data, "0.1,0.2,0.3");
            assert_eq!(metadata, Some(r#"{"category":"test"}"#.to_string()));
        }
        _ => panic!("Expected vector put command"),
    }
}

#[test]
fn test_parse_bucket_delete_force() {
    let parsed =
        Commands::try_parse_from(&line("s3-vectors bucket delete my-bucket --force")).unwrap();
    match parsed {
        Commands::Bucket(BucketCommand { command: BucketSubcommands::Delete { name, force } }) => {
            assert_eq!(name, "my-bucket");
            assert!(force);
        }
        _ => panic!("Expected bucket delete command"),
    }
}

#[test]
fn test_parse_bucket_query_command() {
    let parsed = Commands::try_parse_from(&line(
        "s3-vectors bucket query prod --status active --created-after yesterday",
    ))
    .unwrap();
    match parsed {
        Commands::Bucket(BucketCommand {
            command: BucketSubcommands::Query { pattern, status, created_after, .. },
        }) => {
            assert_eq!(pattern, Some("prod".to_string()));
            assert_eq!(status, Some(BucketStatus::Active));
            assert_eq!(created_after, Some("yesterday".to_string()));
        }
        _ => panic!("Expected bucket query command"),
    }
}

#[test]
fn cli_takes_region_from_environment_value() {
    let cli = Cli::try_parse_from(&args(&["s3-vectors"]), Some("eu-west-1".to_string()), None)
        .unwrap();
    assert_eq!(cli.region, "eu-west-1");
    let cli = Cli::try_parse_from(&args(&["s3-vectors"]), None, None).unwrap();
    assert_eq!(cli.region, "us-east-1");
    assert_eq!(cli.output, OutputFormat::Table);
}

#[test]
fn cli_rejects_bad_numbers_and_unknown_options() {
    assert!(BucketSubcommands::try_parse_from(&args(&["t", "list", "-m", "12x"])).is_err());
    assert!(BucketSubcommands::try_parse_from(&args(&["t", "list", "-m", "4294967296"])).is_err());
    assert!(BucketSubcommands::try_parse_from(&args(&["t", "get", "b", "--bogus"])).is_err());
    assert!(IndexSubcommands::try_parse_from(&args(&["t", "create", "b", "i"])).is_err());
    assert!(Cli::try_parse_from(&args(&["s3-vectors", "-o", "xml"]), None, None).is_err());
}
