use athenadef::differ::{
    detect_changes, detect_column_changes, detect_property_changes, extract_columns,
    extract_ddl_from_query_result, extract_location, extract_partitioned_by, extract_stored_as,
    normalize_sql, parse_column_definition, parse_table_key, split_column_definitions, ColumnMap,
};
use athenadef::line_diff::format_sql_diff;
use athenadef::types::diff_result::ColumnChangeType;
use athenadef::types::query_execution::{QueryExecutionStatus, QueryResult, QueryRow};

#[test]
fn test_normalize_sql() {
    let sql = r#"
            CREATE EXTERNAL TABLE customers (
                id bigint,
                name string
            )
            STORED AS PARQUET
            LOCATION 's3://bucket/customers/'
        "#;

    let normalized = normalize_sql(sql);
    // Should preserve leading whitespace on lines but trim trailing
    assert!(!normalized.ends_with('\n'));
    assert!(!normalized.ends_with(' '));

    // With minimal normalization, indentation is preserved
    let expected = "\n            CREATE EXTERNAL TABLE customers (\n                id bigint,\n                name string\n            )\n            STORED AS PARQUET\n            LOCATION 's3://bucket/customers/'";
    assert_eq!(normalized, expected);
}

#[test]
fn test_normalize_sql_empty_lines() {
    let sql = r#"
CREATE TABLE test (
    id int

)
        "#;

    let normalized = normalize_sql(sql);
    // With minimal normalization, empty lines are preserved
    assert!(normalized.contains("\n\n"));
    assert!(!normalized.ends_with('\n'));
}

#[test]
fn test_parse_table_key() {
    let (db, table) = parse_table_key("salesdb.customers").unwrap();
    assert_eq!(db, "salesdb");
    assert_eq!(table, "customers");
}

#[test]
fn test_parse_table_key_invalid() {
    let result = parse_table_key("invalid");
    assert!(result.is_err());

    let result = parse_table_key("too.many.parts");
    assert!(result.is_err());
}

#[test]
fn test_format_sql_diff() {
    let remote = "CREATE TABLE test (\n  id int\n)";
    let local = "CREATE TABLE test (\n  id bigint,\n  name string\n)";

    let diff = format_sql_diff("db.test", remote, local);

    assert!(diff.contains("--- remote: db.test"));
    assert!(diff.contains("+++ local:  db.test"));
    assert!(diff.contains("-  id int"));
    assert!(diff.contains("+  id bigint,"));
    assert!(diff.contains("+  name string"));
}

#[test]
fn test_extract_ddl_from_query_result() {

    let mut result = QueryResult::new("test-id".to_string(), QueryExecutionStatus::Succeeded);

    // Add header row
    result
        .rows
        .push(QueryRow::new(vec!["createtab_stmt".to_string()]));

    // Add data row with DDL
    result.rows.push(QueryRow::new(
        vec!["CREATE TABLE test (id int)".to_string()],
    ));

    let ddl = extract_ddl_from_query_result(&result);
    assert_eq!(ddl, Some("CREATE TABLE test (id int)".to_string()));
}

#[test]
fn differ_test_extract_ddl_from_query_result_empty() {

    let result = QueryResult::new("test-id".to_string(), QueryExecutionStatus::Succeeded);
    let ddl = extract_ddl_from_query_result(&result);
    assert_eq!(ddl, None);
}

#[test]
fn test_extract_ddl_from_query_result_only_header() {

    let mut result = QueryResult::new("test-id".to_string(), QueryExecutionStatus::Succeeded);
    result
        .rows
        .push(QueryRow::new(vec!["createtab_stmt".to_string()]));

    let ddl = extract_ddl_from_query_result(&result);
    assert_eq!(ddl, None);
}

#[test]
fn test_extract_columns() {
    let sql = r#"CREATE EXTERNAL TABLE customers (
            id bigint,
            name string,
            age int
        )
        STORED AS PARQUET
        LOCATION 's3://bucket/customers/'"#;

    let columns = extract_columns(sql);
    assert_eq!(columns.len(), 3);
    assert_eq!(columns.get("id"), Some(&"bigint".to_string()));
    assert_eq!(columns.get("name"), Some(&"string".to_string()));
    assert_eq!(columns.get("age"), Some(&"int".to_string()));
}

#[test]
fn test_extract_columns_complex_types() {
    let sql = r#"CREATE EXTERNAL TABLE test (
            id bigint,
            data struct<field1:string,field2:int>,
            items array<string>
        )
        STORED AS PARQUET"#;

    let columns = extract_columns(sql);
    assert_eq!(columns.len(), 3);
    assert!(columns.contains_key("id"));
    assert!(columns.contains_key("data"));
    assert!(columns.contains_key("items"));
}

#[test]
fn test_detect_column_changes_added() {
    let mut remote_columns = ColumnMap::new();
    remote_columns.insert("id".to_string(), "bigint".to_string());

    let mut local_columns = ColumnMap::new();
    local_columns.insert("id".to_string(), "bigint".to_string());
    local_columns.insert("name".to_string(), "string".to_string());

    let changes = detect_column_changes(&remote_columns, &local_columns);

    assert_eq!(changes.len(), 1);
    assert_eq!(changes[0].change_type, ColumnChangeType::Added);
    assert_eq!(changes[0].column_name, "name");
    assert_eq!(changes[0].old_type, None);
    assert_eq!(changes[0].new_type, Some("string".to_string()));
}

#[test]
fn test_detect_column_changes_removed() {
    let mut remote_columns = ColumnMap::new();
    remote_columns.insert("id".to_string(), "bigint".to_string());
    remote_columns.insert("old_field".to_string(), "string".to_string());

    let mut local_columns = ColumnMap::new();
    local_columns.insert("id".to_string(), "bigint".to_string());

    let changes = detect_column_changes(&remote_columns, &local_columns);

    assert_eq!(changes.len(), 1);
    assert_eq!(changes[0].change_type, ColumnChangeType::Removed);
    assert_eq!(changes[0].column_name, "old_field");
    assert_eq!(changes[0].old_type, Some("string".to_string()));
    assert_eq!(changes[0].new_type, None);
}

#[test]
fn test_detect_column_changes_type_changed() {
    let mut remote_columns = ColumnMap::new();
    remote_columns.insert("id".to_string(), "int".to_string());

    let mut local_columns = ColumnMap::new();
    local_columns.insert("id".to_string(), "bigint".to_string());

    let changes = detect_column_changes(&remote_columns, &local_columns);

    assert_eq!(changes.len(), 1);
    assert_eq!(changes[0].change_type, ColumnChangeType::TypeChanged);
    assert_eq!(changes[0].column_name, "id");
    assert_eq!(changes[0].old_type, Some("int".to_string()));
    assert_eq!(changes[0].new_type, Some("bigint".to_string()));
}

#[test]
fn test_detect_column_changes_multiple() {
    let mut remote_columns = ColumnMap::new();
    remote_columns.insert("id".to_string(), "int".to_string());
    remote_columns.insert("old_field".to_string(), "string".to_string());

    let mut local_columns = ColumnMap::new();
    local_columns.insert("id".to_string(), "bigint".to_string());
    local_columns.insert("new_field".to_string(), "string".to_string());

    let changes = detect_column_changes(&remote_columns, &local_columns);

    assert_eq!(changes.len(), 3);

    // Check that we have one of each type
    let removed = changes
        .iter()
        .filter(|c| c.change_type == ColumnChangeType::Removed)
        .count();
    let added = changes
        .iter()
        .filter(|c| c.change_type == ColumnChangeType::Added)
        .count();
    let type_changed = changes
        .iter()
        .filter(|c| c.change_type == ColumnChangeType::TypeChanged)
        .count();

    assert_eq!(removed, 1);
    assert_eq!(added, 1);
    assert_eq!(type_changed, 1);
}

#[test]
fn test_extract_location() {
    let sql = "LOCATION 's3://bucket/path/'";
    let location = extract_location(sql);
    assert_eq!(location, Some("s3://bucket/path/".to_string()));
}

#[test]
fn test_extract_location_case_insensitive() {
    let sql = "location 's3://bucket/path/'";
    let location = extract_location(sql);
    assert_eq!(location, Some("s3://bucket/path/".to_string()));
}

#[test]
fn test_extract_stored_as() {
    let sql = "STORED AS PARQUET";
    let format = extract_stored_as(sql);
    assert_eq!(format, Some("PARQUET".to_string()));
}

#[test]
fn test_extract_stored_as_case_insensitive() {
    let sql = "stored as orc";
    let format = extract_stored_as(sql);
    assert_eq!(format, Some("ORC".to_string()));
}

#[test]
fn test_extract_partitioned_by() {
    let sql = "PARTITIONED BY (year string, month string)";
    let partitions = extract_partitioned_by(sql);
    assert_eq!(partitions, Some("year string, month string".to_string()));
}

#[test]
fn test_extract_partitioned_by_case_insensitive() {
    let sql = "partitioned by (dt string)";
    let partitions = extract_partitioned_by(sql);
    assert_eq!(partitions, Some("dt string".to_string()));
}

#[test]
fn test_detect_property_changes_location() {
    let remote_sql = "CREATE TABLE test (id int) LOCATION 's3://old/path/'";
    let local_sql = "CREATE TABLE test (id int) LOCATION 's3://new/path/'";

    let changes = detect_property_changes(remote_sql, local_sql);

    assert_eq!(changes.len(), 1);
    assert_eq!(changes[0].property_name, "location");
    assert_eq!(changes[0].old_value, Some("s3://old/path/".to_string()));
    assert_eq!(changes[0].new_value, Some("s3://new/path/".to_string()));
}

#[test]
fn test_detect_property_changes_format() {
    let remote_sql = "CREATE TABLE test (id int) STORED AS PARQUET";
    let local_sql = "CREATE TABLE test (id int) STORED AS ORC";

    let changes = detect_property_changes(remote_sql, local_sql);

    assert_eq!(changes.len(), 1);
    assert_eq!(changes[0].property_name, "format");
    assert_eq!(changes[0].old_value, Some("PARQUET".to_string()));
    assert_eq!(changes[0].new_value, Some("ORC".to_string()));
}

#[test]
fn test_detect_property_changes_partitions() {
    let remote_sql = "CREATE TABLE test (id int) PARTITIONED BY (year string)";
    let local_sql = "CREATE TABLE test (id int) PARTITIONED BY (year string, month string)";

    let changes = detect_property_changes(remote_sql, local_sql);

    assert_eq!(changes.len(), 1);
    assert_eq!(changes[0].property_name, "partitions");
    assert_eq!(changes[0].old_value, Some("year string".to_string()));
    assert_eq!(
        changes[0].new_value,
        Some("year string, month string".to_string())
    );
}

#[test]
fn test_detect_changes_integration() {
    let remote_sql = r#"CREATE EXTERNAL TABLE customers (
            id int,
            name string
        )
        STORED AS PARQUET
        LOCATION 's3://old/path/'"#;

    let local_sql = r#"CREATE EXTERNAL TABLE customers (
            id bigint,
            name string,
            email string
        )
        STORED AS ORC
        LOCATION 's3://new/path/'"#;

    let changes = detect_changes(remote_sql, local_sql);

    // Should detect column changes: id type change, email added
    assert_eq!(changes.column_changes.len(), 2);

    // Should detect property changes: location and format
    assert_eq!(changes.property_changes.len(), 2);

    // Verify column changes
    let type_changes = changes
        .column_changes
        .iter()
        .filter(|c| c.change_type == ColumnChangeType::TypeChanged)
        .count();
    let additions = changes
        .column_changes
        .iter()
        .filter(|c| c.change_type == ColumnChangeType::Added)
        .count();

    assert_eq!(type_changes, 1);
    assert_eq!(additions, 1);

    // Verify property changes
    let property_names: Vec<&str> = changes
        .property_changes
        .iter()
        .map(|p| p.property_name.as_str())
        .collect();
    assert!(property_names.contains(&"location"));
    assert!(property_names.contains(&"format"));
}

#[test]
fn test_split_column_definitions_simple() {
    let input = "id bigint, name string, age int";
    let result = split_column_definitions(input);
    assert_eq!(result.len(), 3);
    assert_eq!(result[0], "id bigint");
    assert_eq!(result[1], "name string");
    assert_eq!(result[2], "age int");
}

#[test]
fn test_split_column_definitions_nested_struct() {
    let input = "id bigint, data struct<field1:string,field2:int>, name string";
    let result = split_column_definitions(input);
    assert_eq!(result.len(), 3);
    assert_eq!(result[0], "id bigint");
    assert_eq!(result[1], "data struct<field1:string,field2:int>");
    assert_eq!(result[2], "name string");
}

#[test]
fn test_split_column_definitions_nested_array() {
    let input = "id bigint, items array<string>, tags array<struct<key:string,value:string>>";
    let result = split_column_definitions(input);
    assert_eq!(result.len(), 3);
    assert_eq!(result[0], "id bigint");
    assert_eq!(result[1], "items array<string>");
    assert_eq!(result[2], "tags array<struct<key:string,value:string>>");
}

#[test]
fn test_split_column_definitions_empty() {
    let input = "";
    let result = split_column_definitions(input);
    assert_eq!(result.len(), 0);
}

#[test]
fn test_parse_column_definition_valid() {
    let input = "id bigint";
    let result = parse_column_definition(input);
    assert_eq!(result, Some(("id".to_string(), "bigint".to_string())));
}

#[test]
fn test_parse_column_definition_complex_type() {
    let input = "data struct<field1:string,field2:int>";
    let result = parse_column_definition(input);
    assert_eq!(
        result,
        Some((
            "data".to_string(),
            "struct<field1:string,field2:int>".to_string()
        ))
    );
}

#[test]
fn test_parse_column_definition_empty() {
    let input = "";
    let result = parse_column_definition(input);
    assert_eq!(result, None);
}

#[test]
fn test_parse_column_definition_no_type() {
    let input = "id";
    let result = parse_column_definition(input);
    assert_eq!(result, None);
}

#[test]
fn test_extract_columns_empty_table() {
    let sql = "CREATE EXTERNAL TABLE empty () STORED AS PARQUET";
    let columns = extract_columns(sql);
    // The parser may find '(' as a column, so we check it's empty or has only invalid entries
    // After filtering, we expect no valid columns
    assert!(columns.is_empty() || !columns.contains_key("id"));
}

#[test]
fn test_extract_columns_multiline() {
    let sql = r#"CREATE EXTERNAL TABLE test (
            id bigint,
            name string,
            created_at timestamp
        ) STORED AS PARQUET"#;
    let columns = extract_columns(sql);
    assert_eq!(columns.len(), 3);
    assert!(columns.contains_key("id"));
    assert!(columns.contains_key("name"));
    assert!(columns.contains_key("created_at"));
}

#[test]
fn test_detect_column_changes_no_changes() {
    let mut remote_columns = ColumnMap::new();
    remote_columns.insert("id".to_string(), "bigint".to_string());
    remote_columns.insert("name".to_string(), "string".to_string());

    let mut local_columns = ColumnMap::new();
    local_columns.insert("id".to_string(), "bigint".to_string());
    local_columns.insert("name".to_string(), "string".to_string());

    let changes = detect_column_changes(&remote_columns, &local_columns);
    assert_eq!(changes.len(), 0);
}

#[test]
fn test_detect_property_changes_no_changes() {
    let sql = "CREATE TABLE test (id int) LOCATION 's3://bucket/' STORED AS PARQUET";
    let changes = detect_property_changes(sql, sql);
    assert_eq!(changes.len(), 0);
}

#[test]
fn test_detect_property_changes_location_added() {
    let remote_sql = "CREATE TABLE test (id int) STORED AS PARQUET";
    let local_sql = "CREATE TABLE test (id int) LOCATION 's3://new/path/' STORED AS PARQUET";
    let changes = detect_property_changes(remote_sql, local_sql);

    let location_changes: Vec<_> = changes
        .iter()
        .filter(|c| c.property_name == "location")
        .collect();
    assert_eq!(location_changes.len(), 1);
    assert_eq!(location_changes[0].old_value, None);
    assert_eq!(
        location_changes[0].new_value,
        Some("s3://new/path/".to_string())
    );
}

#[test]
fn test_detect_property_changes_location_removed() {
    let remote_sql = "CREATE TABLE test (id int) LOCATION 's3://old/path/' STORED AS PARQUET";
    let local_sql = "CREATE TABLE test (id int) STORED AS PARQUET";
    let changes = detect_property_changes(remote_sql, local_sql);

    let location_changes: Vec<_> = changes
        .iter()
        .filter(|c| c.property_name == "location")
        .collect();
    assert_eq!(location_changes.len(), 1);
    assert_eq!(
        location_changes[0].old_value,
        Some("s3://old/path/".to_string())
    );
    assert_eq!(location_changes[0].new_value, None);
}

#[test]
fn test_extract_location_not_present() {
    let sql = "CREATE TABLE test (id int) STORED AS PARQUET";
    let location = extract_location(sql);
    assert_eq!(location, None);
}

#[test]
fn test_extract_stored_as_not_present() {
    let sql = "CREATE TABLE test (id int) LOCATION 's3://bucket/'";
    let format = extract_stored_as(sql);
    assert_eq!(format, None);
}

#[test]
fn test_extract_partitioned_by_not_present() {
    let sql = "CREATE TABLE test (id int) STORED AS PARQUET";
    let partitions = extract_partitioned_by(sql);
    assert_eq!(partitions, None);
}

#[test]
fn test_normalize_sql_already_normalized() {
    let sql = "CREATE TABLE test (\nid int\n)";
    let normalized = normalize_sql(sql);
    // With minimal normalization, structure is preserved
    assert_eq!(normalized, "CREATE TABLE test (\nid int\n)");
}

#[test]
fn test_normalize_sql_with_tabs() {
    let sql = "CREATE TABLE test (\n\t\tid int\n\t)";
    let normalized = normalize_sql(sql);
    // With minimal normalization, tabs are preserved (only trailing whitespace trimmed)
    assert_eq!(normalized, "CREATE TABLE test (\n\t\tid int\n\t)");
}

#[test]
fn test_format_sql_diff_no_changes() {
    let sql = "CREATE TABLE test (\n  id int\n)";
    let diff = format_sql_diff("db.test", sql, sql);
    // Even with no changes, we should have headers
    assert!(diff.contains("--- remote: db.test"));
    assert!(diff.contains("+++ local:  db.test"));
}

#[test]
fn test_detect_changes_no_changes() {
    let sql = r#"CREATE EXTERNAL TABLE customers (
            id bigint,
            name string
        )
        STORED AS PARQUET
        LOCATION 's3://bucket/customers/'"#;

    let changes = detect_changes(sql, sql);
    assert_eq!(changes.column_changes.len(), 0);
    assert_eq!(changes.property_changes.len(), 0);
}

#[test]
fn test_detect_changes_only_column_changes() {
    let remote_sql = "CREATE TABLE test (id int, name string)";
    let local_sql = "CREATE TABLE test (id bigint, name string, email string)";

    let changes = detect_changes(remote_sql, local_sql);
    assert!(!changes.column_changes.is_empty());
    // Property changes might be 0 if no properties detected
}

#[test]
fn test_detect_changes_only_property_changes() {
    let remote_sql = "CREATE TABLE test (id int) STORED AS PARQUET";
    let local_sql = "CREATE TABLE test (id int) STORED AS ORC";

    let changes = detect_changes(remote_sql, local_sql);
    // Column changes should be 0 or have only case-sensitivity differences
    // The important thing is property changes should be detected
    assert!(!changes.property_changes.is_empty());

    // Check that format change is detected
    let format_changes: Vec<_> = changes
        .property_changes
        .iter()
        .filter(|c| c.property_name == "format")
        .collect();
    assert_eq!(format_changes.len(), 1);
    assert_eq!(format_changes[0].old_value, Some("PARQUET".to_string()));
    assert_eq!(format_changes[0].new_value, Some("ORC".to_string()));
}
