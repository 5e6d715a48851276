use athenadef::target_filter::{matches_pattern, parse_target_filter, resolve_targets};

#[test]
fn test_matches_pattern_exact() {
    assert!(matches_pattern("salesdb", "salesdb"));
    assert!(!matches_pattern("salesdb", "marketingdb"));
}

#[test]
fn test_matches_pattern_wildcard() {
    assert!(matches_pattern("salesdb", "*"));
    assert!(matches_pattern("marketingdb", "*"));
    assert!(matches_pattern("anything", "*"));
}

#[test]
fn test_matches_pattern_prefix() {
    assert!(matches_pattern("salesdb", "sales*"));
    assert!(matches_pattern("salesdb_prod", "sales*"));
    assert!(!matches_pattern("marketingdb", "sales*"));
}

#[test]
fn test_parse_target_filter_empty() {
    let filter = parse_target_filter(&[]);
    assert!(filter.matches("salesdb", "customers"));
    assert!(filter.matches("marketingdb", "leads"));
}

#[test]
fn test_parse_target_filter_specific_table() {
    let filter = parse_target_filter(&["salesdb.customers".to_string()]);
    assert!(filter.matches("salesdb", "customers"));
    assert!(!filter.matches("salesdb", "orders"));
    assert!(!filter.matches("marketingdb", "customers"));
}

#[test]
fn test_parse_target_filter_all_tables_in_database() {
    let filter = parse_target_filter(&["salesdb.*".to_string()]);
    assert!(filter.matches("salesdb", "customers"));
    assert!(filter.matches("salesdb", "orders"));
    assert!(!filter.matches("marketingdb", "customers"));
}

#[test]
fn test_parse_target_filter_table_across_databases() {
    let filter = parse_target_filter(&["*.customers".to_string()]);
    assert!(filter.matches("salesdb", "customers"));
    assert!(filter.matches("marketingdb", "customers"));
    assert!(!filter.matches("salesdb", "orders"));
}

#[test]
fn test_parse_target_filter_multiple_patterns() {
    let filter =
        parse_target_filter(&["salesdb.customers".to_string(), "marketingdb.*".to_string()]);
    assert!(filter.matches("salesdb", "customers"));
    assert!(!filter.matches("salesdb", "orders"));
    assert!(filter.matches("marketingdb", "leads"));
    assert!(filter.matches("marketingdb", "campaigns"));
}

#[test]
fn test_parse_target_filter_invalid_format() {
    // Invalid format is ignored
    let filter = parse_target_filter(&["invalid".to_string()]);
    // Since no valid pattern is left, every table is selected
    assert!(filter.matches("salesdb", "customers"));
}

#[test]
fn test_resolve_targets_cli_takes_priority() {
    let cli_targets = vec!["salesdb.customers".to_string()];
    let config_databases = Some(vec!["marketingdb".to_string()]);

    let result = resolve_targets(&cli_targets, config_databases.as_ref());
    assert_eq!(result, vec!["salesdb.customers"]);
}

#[test]
fn test_resolve_targets_uses_config_when_no_cli() {
    let cli_targets = vec![];
    let config_databases = Some(vec!["salesdb".to_string(), "marketingdb".to_string()]);

    let result = resolve_targets(&cli_targets, config_databases.as_ref());
    assert_eq!(result, vec!["salesdb.*", "marketingdb.*"]);
}

#[test]
fn test_resolve_targets_empty_when_no_config() {
    let cli_targets = vec![];
    let config_databases: Option<Vec<String>> = None;

    let result = resolve_targets(&cli_targets, config_databases.as_ref());
    assert_eq!(result, Vec::<String>::new());
}

#[test]
fn test_resolve_targets_empty_cli_and_empty_config() {
    let cli_targets = vec![];
    let config_databases = Some(vec![]);

    let result = resolve_targets(&cli_targets, config_databases.as_ref());
    assert_eq!(result, Vec::<String>::new());
}

#[test]
fn test_no_filters() {
    let filter = parse_target_filter(&[]);

    // Should match all tables
    assert!(filter.matches("db1", "table1"));
    assert!(filter.matches("db2", "table2"));
    assert!(filter.matches("any_db", "any_table"));
}

#[test]
fn test_specific_database_and_table() {
    let filter = parse_target_filter(&["db1.table1".to_string()]);

    assert!(filter.matches("db1", "table1"));
    assert!(!filter.matches("db1", "table2"));
    assert!(!filter.matches("db2", "table1"));
    assert!(!filter.matches("db2", "table2"));
}

#[test]
fn test_wildcard_table() {
    let filter = parse_target_filter(&["db1.*".to_string()]);

    assert!(filter.matches("db1", "table1"));
    assert!(filter.matches("db1", "table2"));
    assert!(filter.matches("db1", "any_table"));
    assert!(!filter.matches("db2", "table1"));
}

#[test]
fn test_wildcard_database() {
    let filter = parse_target_filter(&["*.table1".to_string()]);

    assert!(filter.matches("db1", "table1"));
    assert!(filter.matches("db2", "table1"));
    assert!(filter.matches("any_db", "table1"));
    assert!(!filter.matches("db1", "table2"));
}

#[test]
fn test_multiple_filters() {
    let filter = parse_target_filter(&["db1.table1".to_string(), "db2.table2".to_string()]);

    assert!(filter.matches("db1", "table1"));
    assert!(filter.matches("db2", "table2"));
    assert!(!filter.matches("db1", "table2"));
    assert!(!filter.matches("db2", "table1"));
    assert!(!filter.matches("db3", "table3"));
}

#[test]
fn test_mixed_specific_and_wildcard() {
    let filter = parse_target_filter(&["db1.table1".to_string(), "db2.*".to_string()]);

    assert!(filter.matches("db1", "table1"));
    assert!(!filter.matches("db1", "table2"));
    assert!(filter.matches("db2", "table1"));
    assert!(filter.matches("db2", "table2"));
    assert!(filter.matches("db2", "any_table"));
    assert!(!filter.matches("db3", "table1"));
}

#[test]
fn test_multiple_wildcard_databases() {
    let filter = parse_target_filter(&["*.users".to_string(), "*.orders".to_string()]);

    assert!(filter.matches("db1", "users"));
    assert!(filter.matches("db2", "users"));
    assert!(filter.matches("db1", "orders"));
    assert!(filter.matches("db2", "orders"));
    assert!(!filter.matches("db1", "products"));
}

#[test]
fn test_multiple_wildcard_tables_same_database() {
    let filter = parse_target_filter(&["analytics.*".to_string()]);

    assert!(filter.matches("analytics", "events"));
    assert!(filter.matches("analytics", "users"));
    assert!(filter.matches("analytics", "sessions"));
    assert!(!filter.matches("warehouse", "events"));
}

#[test]
fn test_case_sensitivity() {
    let filter = parse_target_filter(&["DB1.TABLE1".to_string()]);

    // AWS is case-sensitive for identifiers
    assert!(filter.matches("DB1", "TABLE1"));
    assert!(!filter.matches("db1", "table1"));
    assert!(!filter.matches("DB1", "table1"));
    assert!(!filter.matches("db1", "TABLE1"));
}

#[test]
fn test_underscores_in_names() {
    let filter = parse_target_filter(&["my_database.my_table".to_string()]);

    assert!(filter.matches("my_database", "my_table"));
    assert!(!filter.matches("mydatabase", "mytable"));
    assert!(!filter.matches("my_database", "mytable"));
}

#[test]
fn test_complex_filter_combination() {
    let filter = parse_target_filter(&[
        "prod_db.users".to_string(),
        "prod_db.orders".to_string(),
        "staging_db.*".to_string(),
        "*.events".to_string(),
    ]);

    // Specific tables in prod_db
    assert!(filter.matches("prod_db", "users"));
    assert!(filter.matches("prod_db", "orders"));
    assert!(!filter.matches("prod_db", "products"));

    // All tables in staging_db
    assert!(filter.matches("staging_db", "users"));
    assert!(filter.matches("staging_db", "orders"));
    assert!(filter.matches("staging_db", "products"));

    // Events table in any database
    assert!(filter.matches("prod_db", "events"));
    assert!(filter.matches("staging_db", "events"));
    assert!(filter.matches("dev_db", "events"));

    // Unmatched combinations
    assert!(!filter.matches("dev_db", "products"));
}

#[test]
fn test_empty_string_filter() {
    // Edge case: empty strings in filter list
    let filter = parse_target_filter(&["db1.table1".to_string(), "".to_string()]);

    assert!(filter.matches("db1", "table1"));
    assert!(!filter.matches("db2", "table2"));
}

#[test]
fn test_only_wildcard_filters() {
    let filter = parse_target_filter(&["*.*".to_string()]);

    // This should match everything (though it's redundant with no filter)
    assert!(filter.matches("db1", "table1"));
    assert!(filter.matches("db2", "table2"));
    assert!(filter.matches("any_db", "any_table"));
}

#[test]
fn test_duplicate_filters() {
    let filter = parse_target_filter(&[
        "db1.table1".to_string(),
        "db1.table1".to_string(),
        "db1.table1".to_string(),
    ]);

    // Duplicates shouldn't affect the result
    assert!(filter.matches("db1", "table1"));
    assert!(!filter.matches("db1", "table2"));
}

#[test]
fn test_overlapping_filters() {
    let filter = parse_target_filter(&["db1.*".to_string(), "db1.table1".to_string()]);

    // More specific filter is redundant but shouldn't cause issues
    assert!(filter.matches("db1", "table1"));
    assert!(filter.matches("db1", "table2"));
    assert!(!filter.matches("db2", "table1"));
}

#[test]
fn test_numbers_in_names() {
    let filter = parse_target_filter(&["db1.table2023".to_string(), "db2.*".to_string()]);

    assert!(filter.matches("db1", "table2023"));
    assert!(!filter.matches("db1", "table2024"));
    assert!(filter.matches("db2", "table2023"));
    assert!(filter.matches("db2", "table2024"));
}

#[test]
fn test_special_characters() {
    let filter = parse_target_filter(&["my-database.my-table".to_string()]);

    assert!(filter.matches("my-database", "my-table"));
    assert!(!filter.matches("my_database", "my_table"));
}
