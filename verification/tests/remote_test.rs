use athenadef::aws::athena::QueryError;
use athenadef::differ::remote::{
    build_catalog, collect_remote_definitions, local_definitions, select_tables,
    show_create_table_queries, show_create_table_query, CatalogDatabase, Listing, SkipReason,
    SkippedTable,
};
use athenadef::differ::{calculate_diff, DefinitionSet, DiffError};
use athenadef::types::diff_result::DiffOperation;
use athenadef::file_utils::SqlFile;
use athenadef::target_filter::parse_target_filter;
use athenadef::types::query_execution::{QueryExecutionStatus, QueryResult, QueryRow};

fn names(list: &[&str]) -> Vec<String> {
    list.iter().map(|n| n.to_string()).collect()
}

fn pair(database: &str, table: &str) -> (String, String) {
    (database.to_string(), table.to_string())
}

fn answer(rows: &[&[&str]]) -> QueryResult {
    let mut result = QueryResult::new("id".to_string(), QueryExecutionStatus::Succeeded);
    for row in rows {
        result.rows.push(QueryRow::new(names(row)));
    }
    result
}

#[test]
fn test_select_tables_applies_the_filter() {
    let catalog = vec![
        CatalogDatabase { name: "sales".to_string(), tables: names(&["customers", "orders"]) },
        CatalogDatabase { name: "empty".to_string(), tables: vec![] },
        CatalogDatabase { name: "mkt".to_string(), tables: names(&["leads", "customers"]) },
    ];

    assert_eq!(
        select_tables(&catalog, &None),
        vec![
            pair("sales", "customers"),
            pair("sales", "orders"),
            pair("mkt", "leads"),
            pair("mkt", "customers"),
        ]
    );
    let filter = parse_target_filter(&["*.customers".to_string(), "mkt.*".to_string()]);
    assert_eq!(
        select_tables(&catalog, &Some(filter)),
        vec![pair("sales", "customers"), pair("mkt", "leads"), pair("mkt", "customers")]
    );
    let nothing = parse_target_filter(&["nowhere.*".to_string()]);
    assert_eq!(select_tables(&catalog, &Some(nothing)), vec![]);
    let invalid = parse_target_filter(&["invalid".to_string()]);
    assert_eq!(select_tables(&catalog, &Some(invalid)).len(), 4);
}

#[test]
fn test_show_create_table_queries() {
    assert_eq!(show_create_table_query("sales", "orders"), "SHOW CREATE TABLE sales.orders");
    let tables = vec![pair("sales", "customers"), pair("mkt", "leads")];
    assert_eq!(
        show_create_table_queries(&tables),
        vec!["SHOW CREATE TABLE sales.customers", "SHOW CREATE TABLE mkt.leads"]
    );
    assert_eq!(show_create_table_queries(&vec![]), Vec::<String>::new());
}

#[test]
fn test_collect_remote_definitions_leaves_unreadable_tables_out() {
    let tables = vec![
        pair("sales", "customers"),
        pair("sales", "orders"),
        pair("mkt", "leads"),
        pair("mkt", "broken"),
    ];
    let outcomes = vec![
        Ok(answer(&[&["createtab_stmt"], &["CREATE TABLE customers (id int)"]])),
        Ok(answer(&[&["createtab_stmt"]])),
        Ok(answer(&[&["createtab_stmt"], &["CREATE TABLE leads (id int)", "ignored"]])),
        Err(QueryError::ExecutionFailed("TABLE_NOT_FOUND".to_string())),
    ];

    let collected = collect_remote_definitions(&tables, &outcomes);

    assert_eq!(collected.definitions.len(), 2);
    assert_eq!(
        collected.definitions.get("sales", "customers"),
        Some(&"CREATE TABLE customers (id int)".to_string())
    );
    assert_eq!(collected.definitions.get("sales", "orders"), None);
    assert_eq!(
        collected.definitions.get("mkt", "leads"),
        Some(&"CREATE TABLE leads (id int)".to_string())
    );
    assert_eq!(collected.definitions.get("mkt", "broken"), None);
    assert_eq!(
        collected.skipped,
        vec![
            SkippedTable {
                database_name: "sales".to_string(),
                table_name: "orders".to_string(),
                reason: SkipReason::NoDefinition,
            },
            SkippedTable {
                database_name: "mkt".to_string(),
                table_name: "broken".to_string(),
                reason: SkipReason::FetchFailed(QueryError::ExecutionFailed(
                    "TABLE_NOT_FOUND".to_string()
                )),
            },
        ]
    );
    assert_eq!(collected.skipped[0].warning(), "Could not extract DDL for sales.orders");
    assert_eq!(
        collected.skipped[1].warning(),
        "Could not fetch DDL for mkt.broken: Query execution failed: TABLE_NOT_FOUND"
    );
}

#[test]
fn test_table_whose_definition_could_not_be_fetched_counts_as_new() {
    let tables = vec![pair("sales", "orders")];
    let outcomes = vec![Err(QueryError::TimedOut(300))];
    let remote = collect_remote_definitions(&tables, &outcomes).definitions;
    let mut local = DefinitionSet::new();
    local.insert("sales".to_string(), "orders".to_string(), "CREATE TABLE orders (id int)".to_string());

    let result = calculate_diff(&local, &remote);

    assert_eq!(result.table_diffs().len(), 1);
    assert_eq!(result.table_diffs()[0].operation, DiffOperation::Create);
}

#[test]
fn test_collect_remote_definitions_with_unequal_lengths() {
    let tables = vec![pair("a", "one"), pair("a", "two")];
    let outcomes = vec![Ok(answer(&[&["h"], &["ddl one"]]))];

    let collected = collect_remote_definitions(&tables, &outcomes);
    assert_eq!(collected.definitions.len(), 1);
    assert_eq!(collected.definitions.get("a", "one"), Some(&"ddl one".to_string()));
    assert_eq!(collected.skipped, vec![]);

    let collected = collect_remote_definitions(&vec![], &outcomes);
    assert!(collected.definitions.is_empty());
}

#[test]
fn test_collect_remote_definitions_keeps_the_last_answer_for_a_table() {
    let tables = vec![pair("a", "one"), pair("a", "one")];
    let outcomes =
        vec![Ok(answer(&[&["h"], &["first"]])), Ok(answer(&[&["h"], &["second"]]))];

    let collected = collect_remote_definitions(&tables, &outcomes);
    assert_eq!(collected.definitions.len(), 1);
    assert_eq!(collected.definitions.get("a", "one"), Some(&"second".to_string()));
}

#[test]
fn test_build_catalog() {
    let listings = vec![
        ("sales".to_string(), Listing::Tables(names(&["customers"]))),
        ("mkt".to_string(), Listing::Tables(vec![])),
    ];
    assert_eq!(
        build_catalog(listings),
        Ok(vec![
            CatalogDatabase { name: "sales".to_string(), tables: names(&["customers"]) },
            CatalogDatabase { name: "mkt".to_string(), tables: vec![] },
        ])
    );
    assert_eq!(build_catalog(vec![]), Ok(vec![]));
}

#[test]
fn test_build_catalog_fails_with_the_first_failed_listing() {
    let listings = vec![
        ("sales".to_string(), Listing::Tables(names(&["customers"]))),
        ("mkt".to_string(), Listing::Failed("access denied".to_string())),
        ("ops".to_string(), Listing::Failed("throttled".to_string())),
    ];
    let error = build_catalog(listings).unwrap_err();
    assert_eq!(
        error,
        DiffError::CatalogList { database: "mkt".to_string(), reason: "access denied".to_string() }
    );
    assert_eq!(error.to_string(), "Failed to get tables from database mkt: access denied");
}

#[test]
fn test_local_definitions_apply_the_filter() {
    let file = |database: &str, table: &str, content: &str| {
        SqlFile::new(
            database.to_string(),
            table.to_string(),
            format!("{}/{}.sql", database, table),
            content.to_string(),
        )
    };
    let files = vec![
        file("sales", "customers", "one"),
        file("mkt", "leads", "two"),
        file("sales", "orders", "three"),
    ];

    let all = local_definitions(&files, &None);
    assert_eq!(all.len(), 3);
    assert_eq!(all.entry(1).table_name, "leads");
    assert_eq!(all.get("sales", "orders"), Some(&"three".to_string()));

    let filter = parse_target_filter(&["sales.*".to_string()]);
    let some = local_definitions(&files, &Some(filter));
    assert_eq!(some.len(), 2);
    assert_eq!(some.get("sales", "customers"), Some(&"one".to_string()));
    assert_eq!(some.get("mkt", "leads"), None);
}
