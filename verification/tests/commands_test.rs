use athenadef::aws::glue::is_missing_entity;
use athenadef::aws::s3::{metadata_url, parse_s3_url, S3UrlError};
use athenadef::cli::{log_level, Cli, Commands};
use athenadef::commands::apply::{
    apply_summary, change_positions, create_database_query, done_word, drop_table_query,
    failure_message, is_approval, needs_definition, progress_word, statements_for,
};
use athenadef::types::diff_result::DiffSummary;
use athenadef::commands::export::{
    export_query, export_summary, keeps_existing_file, tally, target_databases, ExportCounts,
    ExportOutcome,
};
use athenadef::commands::init::{may_write_config, DEFAULT_CONFIG_CONTENT};
use athenadef::types::diff_result::{DiffOperation, TableDiff};

fn diff(database: &str, table: &str, operation: DiffOperation) -> TableDiff {
    TableDiff {
        database_name: database.to_string(),
        table_name: table.to_string(),
        operation,
        text_diff: None,
        change_details: None,
    }
}

#[test]
fn test_prompt_for_confirmation_format() {
    assert!(is_approval("yes"));
    assert!(is_approval("  yes\n"));
    assert!(is_approval("\tyes\r\n"));
    assert!(!is_approval("y"));
    assert!(!is_approval("Yes"));
    assert!(!is_approval("yes please"));
    assert!(!is_approval(""));
    assert!(!is_approval("no"));
}

#[test]
fn test_apply_queries() {
    assert_eq!(create_database_query("sales"), "CREATE DATABASE IF NOT EXISTS `sales`");
    assert_eq!(drop_table_query("sales", "orders"), "DROP TABLE IF EXISTS `sales`.`orders`");
}

#[test]
fn test_apply_statements_per_operation() {
    assert_eq!(
        statements_for(&diff("sales", "orders", DiffOperation::Create)),
        vec!["CREATE DATABASE IF NOT EXISTS `sales`"]
    );
    assert_eq!(
        statements_for(&diff("sales", "orders", DiffOperation::Update)),
        vec!["DROP TABLE IF EXISTS `sales`.`orders`", "CREATE DATABASE IF NOT EXISTS `sales`"]
    );
    assert_eq!(
        statements_for(&diff("sales", "orders", DiffOperation::Delete)),
        vec!["DROP TABLE IF EXISTS `sales`.`orders`"]
    );
    assert_eq!(
        statements_for(&diff("sales", "orders", DiffOperation::NoChange)),
        Vec::<String>::new()
    );
    assert!(needs_definition(DiffOperation::Create));
    assert!(needs_definition(DiffOperation::Update));
    assert!(!needs_definition(DiffOperation::Delete));
    assert!(!needs_definition(DiffOperation::NoChange));
}

#[test]
fn test_apply_words() {
    assert_eq!(progress_word(DiffOperation::Create), "Creating...");
    assert_eq!(progress_word(DiffOperation::Update), "Modifying...");
    assert_eq!(progress_word(DiffOperation::Delete), "Destroying...");
    assert_eq!(progress_word(DiffOperation::NoChange), "");
    assert_eq!(done_word(DiffOperation::Create), "Created");
    assert_eq!(done_word(DiffOperation::Update), "Modified");
    assert_eq!(done_word(DiffOperation::Delete), "Destroyed");
    assert_eq!(done_word(DiffOperation::NoChange), "");
}

#[test]
fn test_change_positions_skip_unchanged_tables() {
    let diffs = vec![
        diff("a", "one", DiffOperation::NoChange),
        diff("a", "two", DiffOperation::Create),
        diff("a", "three", DiffOperation::NoChange),
        diff("a", "four", DiffOperation::Delete),
        diff("a", "five", DiffOperation::Update),
    ];
    assert_eq!(change_positions(&diffs), vec![1, 3, 4]);
    assert_eq!(change_positions(&vec![]), Vec::<usize>::new());
}

#[test]
fn test_target_databases_are_named_once() {
    let targets = vec![
        "salesdb.customers".to_string(),
        "mkt.*".to_string(),
        "salesdb.orders".to_string(),
        "nodot".to_string(),
        "a.b.c".to_string(),
        "*.events".to_string(),
        ".hidden".to_string(),
    ];
    assert_eq!(target_databases(&targets), vec!["salesdb", "mkt", "a", "*", ""]);
    assert_eq!(target_databases(&[]), Vec::<String>::new());
}

#[test]
fn test_export_query_quotes_the_names() {
    assert_eq!(export_query("sales", "orders"), "SHOW CREATE TABLE `sales`.`orders`");
}

#[test]
fn test_export_keeps_existing_files_unless_told_to_overwrite() {
    assert!(keeps_existing_file(true, false));
    assert!(!keeps_existing_file(true, true));
    assert!(!keeps_existing_file(false, false));
    assert!(!keeps_existing_file(false, true));
}

#[test]
fn test_export_tally_and_summary() {
    let counts = tally(&vec![
        ExportOutcome::Exported,
        ExportOutcome::Failed,
        ExportOutcome::Exported,
        ExportOutcome::Skipped,
        ExportOutcome::Exported,
    ]);
    assert_eq!(counts, ExportCounts { exported: 3, skipped: 1, errors: 1 });
    assert_eq!(export_summary(&counts), "Export complete! 3 exported, 1 skipped, 1 errors.");

    let clean = tally(&vec![ExportOutcome::Exported; 12]);
    assert_eq!(clean, ExportCounts { exported: 12, skipped: 0, errors: 0 });
    assert_eq!(export_summary(&clean), "Export complete! 12 tables exported.");

    let none = tally(&vec![]);
    assert_eq!(export_summary(&none), "Export complete! 0 tables exported.");
    assert_eq!(
        export_summary(&ExportCounts { exported: 0, skipped: 0, errors: 2 }),
        "Export complete! 0 exported, 0 skipped, 2 errors."
    );
}

#[test]
fn test_init_writes_only_where_allowed() {
    assert!(may_write_config(false, false));
    assert!(may_write_config(false, true));
    assert!(may_write_config(true, true));
    assert!(!may_write_config(true, false));
}

#[test]
fn test_init_content_includes_all_options() {
    let content = DEFAULT_CONFIG_CONTENT;
    assert!(content.starts_with("# AWS Athena Workgroup\n"));
    assert!(content.contains("workgroup: \"primary\"\n"));
    assert!(content.contains("output_location"));
    assert!(content.contains("region"));
    assert!(content.contains("query_timeout_seconds"));
    assert!(content.contains("max_concurrent_queries"));
    assert!(content.contains("databases"));
    assert!(content.contains("S3 Output Location"));
    assert!(content.contains("Query Timeout"));
    assert!(content.contains("List of databases"));
    assert!(content.ends_with("#   - marketingdb\n"));
    let settings: Vec<&str> =
        content.lines().filter(|l| !l.starts_with('#') && !l.is_empty()).collect();
    assert_eq!(settings, vec!["workgroup: \"primary\""]);
}

#[test]
fn test_commands_know_their_debug_flag_and_config() {
    let init = Commands::Init { config: "a.yaml".to_string(), debug: true, force: false };
    let plan = Commands::Plan {
        config: "b.yaml".to_string(),
        debug: false,
        target: vec!["db.*".to_string()],
        show_unchanged: false,
        json: true,
    };
    let apply = Commands::Apply {
        config: "c.yaml".to_string(),
        debug: true,
        target: vec![],
        auto_approve: false,
        dry_run: true,
    };
    let export = Commands::Export {
        config: "d.yaml".to_string(),
        debug: false,
        target: vec![],
        overwrite: false,
    };
    assert!(init.debug());
    assert!(!plan.debug());
    assert!(apply.debug());
    assert!(!export.debug());
    assert_eq!(init.config(), "a.yaml");
    assert_eq!(plan.config(), "b.yaml");
    assert_eq!(apply.config(), "c.yaml");
    assert_eq!(export.config(), "d.yaml");
    let cli = Cli { command: plan.clone() };
    assert_eq!(cli.command, plan);
    assert_eq!(log_level(true), "debug");
    assert_eq!(log_level(false), "info");
}

#[test]
fn test_s3_url_errors_and_messages() {
    assert_eq!(parse_s3_url("http://bucket/key"), Err(S3UrlError::MissingScheme));
    assert_eq!(parse_s3_url(""), Err(S3UrlError::MissingScheme));
    assert_eq!(parse_s3_url("s3://bucket"), Err(S3UrlError::MissingKey));
    assert_eq!(parse_s3_url("s3://"), Err(S3UrlError::MissingKey));
    assert_eq!(parse_s3_url("s3:///key"), Err(S3UrlError::EmptyPart));
    assert_eq!(parse_s3_url("s3://bucket/"), Err(S3UrlError::EmptyPart));
    assert_eq!(
        parse_s3_url("s3://bucket/a/b"),
        Ok(("bucket".to_string(), "a/b".to_string()))
    );
    assert_eq!(S3UrlError::MissingScheme.to_string(), "Invalid S3 URL: must start with s3://");
    assert_eq!(
        S3UrlError::MissingKey.to_string(),
        "Invalid S3 URL format: expected s3://bucket/key"
    );
    assert_eq!(
        S3UrlError::EmptyPart.to_string(),
        "Invalid S3 URL: bucket and key must not be empty"
    );
    assert_eq!(metadata_url("s3://b/q.csv"), "s3://b/q.csv.metadata");
}

#[test]
fn test_missing_entity_is_recognised() {
    assert!(is_missing_entity("ServiceError(EntityNotFoundException { message: None })"));
    assert!(is_missing_entity("EntityNotFoundException"));
    assert!(!is_missing_entity("AccessDeniedException"));
    assert!(!is_missing_entity("EntityNotFoundExceptio"));
    assert!(!is_missing_entity(""));
}

#[test]
fn test_apply_failure_messages() {
    assert_eq!(
        failure_message(&diff("sales", "orders", DiffOperation::Create), "boom"),
        "Failed to create table sales.orders. Error: boom\n\nPossible causes:\n  - Invalid SQL syntax in sales/orders.sql\n  - Insufficient AWS permissions\n  - Network connectivity issues"
    );
    assert_eq!(
        failure_message(&diff("sales", "orders", DiffOperation::Update), "boom"),
        "Failed to update table sales.orders. Error: boom\n\nPossible causes:\n  - Invalid SQL syntax in sales/orders.sql\n  - Table is locked or being accessed\n  - Insufficient AWS permissions\n  - Network connectivity issues"
    );
    assert_eq!(
        failure_message(&diff("sales", "orders", DiffOperation::Delete), "boom"),
        "Failed to delete table sales.orders. Error: boom\n\nPossible causes:\n  - Table is locked or being accessed\n  - Insufficient AWS permissions\n  - Network connectivity issues"
    );
}

#[test]
fn test_apply_summary() {
    assert_eq!(
        apply_summary(&DiffSummary { to_add: 2, to_change: 0, to_destroy: 11 }),
        "Apply complete! Resources: 2 added, 0 changed, 11 destroyed."
    );
}
