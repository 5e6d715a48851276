use athenadef::file_utils::{FileError, FileUtils, FoundFile, PathKind};

fn found(path: &str, kind: PathKind, content: Option<&str>) -> FoundFile {
    FoundFile { path: path.to_string(), kind, content: content.map(|c| c.to_string()) }
}

#[test]
fn test_parse_sql_file() {
    let file = FileUtils::parse_sql_file(
        "/base/testdb/testtable.sql",
        PathKind::File,
        Some("CREATE TABLE testtable (id INT);".to_string()),
    )
    .unwrap();
    assert_eq!(file.database_name, "testdb");
    assert_eq!(file.table_name, "testtable");
    assert_eq!(file.file_path, "/base/testdb/testtable.sql");
    assert_eq!(file.content, "CREATE TABLE testtable (id INT);");
    assert_eq!(file.qualified_name(), "testdb.testtable");
}

#[test]
fn test_file_errors_and_messages() {
    let missing = FileUtils::validate_sql_file_path("a/b.sql", PathKind::Missing).unwrap_err();
    assert_eq!(missing, FileError::Missing("a/b.sql".to_string()));
    assert_eq!(missing.to_string(), "File does not exist: a/b.sql");

    let not_file = FileUtils::validate_sql_file_path("a/b.sql", PathKind::Other).unwrap_err();
    assert_eq!(not_file, FileError::NotAFile("a/b.sql".to_string()));
    assert_eq!(not_file.to_string(), "Path is not a file: a/b.sql");

    let not_sql = FileUtils::validate_sql_file_path("a/b.txt", PathKind::File).unwrap_err();
    assert_eq!(not_sql, FileError::NotSql("a/b.txt".to_string()));
    assert_eq!(not_sql.to_string(), "File does not have .sql extension: a/b.txt");

    let no_database = FileUtils::extract_database_table_from_path("b.sql").unwrap_err();
    assert_eq!(no_database, FileError::NoDatabaseName("b.sql".to_string()));
    assert_eq!(no_database.to_string(), "Cannot extract database name from path: b.sql");

    let no_table = FileUtils::extract_database_table_from_path("a/..").unwrap_err();
    assert_eq!(no_table, FileError::NoTableName("a/..".to_string()));
    assert_eq!(no_table.to_string(), "Cannot extract table name from path: a/..");

    let empty = FileUtils::validate_identifier("", "table name").unwrap_err();
    assert_eq!(empty, FileError::EmptyIdentifier("table name".to_string()));
    assert_eq!(empty.to_string(), "table name cannot be empty");

    let invalid = FileUtils::validate_identifier("a b", "database name").unwrap_err();
    assert_eq!(
        invalid,
        FileError::InvalidIdentifier {
            kind: "database name".to_string(),
            identifier: "a b".to_string()
        }
    );
    assert_eq!(
        invalid.to_string(),
        "database name contains invalid characters: 'a b'. Only alphanumeric characters, underscores, and hyphens are allowed"
    );

    let unreadable = FileUtils::parse_sql_file("a/b.sql", PathKind::File, None).unwrap_err();
    assert_eq!(unreadable, FileError::Unreadable("a/b.sql".to_string()));
    assert_eq!(unreadable.to_string(), "Failed to read SQL file: a/b.sql");
}

#[test]
fn test_validate_sql_file_path_extensions() {
    let ok = |path: &str| FileUtils::validate_sql_file_path(path, PathKind::File).is_ok();
    assert!(ok("a/b.sql"));
    assert!(ok("b.sql"));
    assert!(ok("a/b.c.sql"));
    assert!(ok("a/.hidden.sql"));
    assert!(ok("a/b.sql/"));
    assert!(!ok("a/b.SQL"));
    assert!(!ok("a/.sql"));
    assert!(!ok("a/sql"));
    assert!(!ok("a/b.sql.bak"));
    assert!(!ok("a/b."));
    assert!(!ok("a.sql/.."));
    assert!(!ok(""));
}

#[test]
fn test_extract_database_table_path_forms() {
    let names = |path: &str| FileUtils::extract_database_table_from_path(path);
    let pair = |a: &str, b: &str| Ok((a.to_string(), b.to_string()));
    assert_eq!(names("db/t.sql"), pair("db", "t"));
    assert_eq!(names("./db/t.sql"), pair("db", "t"));
    assert_eq!(names("base//db/./t.sql"), pair("db", "t"));
    assert_eq!(names("db/t"), pair("db", "t"));
    assert_eq!(names("db/t.sql/"), pair("db", "t"));
    assert_eq!(names("/t.sql"), Err(FileError::NoDatabaseName("/t.sql".to_string())));
    assert_eq!(names("./t.sql"), Err(FileError::NoDatabaseName("./t.sql".to_string())));
    assert_eq!(names("../t.sql"), Err(FileError::NoDatabaseName("../t.sql".to_string())));
    assert_eq!(names(""), Err(FileError::NoDatabaseName("".to_string())));
    assert_eq!(
        names("db/a.b.sql"),
        Err(FileError::InvalidIdentifier {
            kind: "table name".to_string(),
            identifier: "a.b".to_string()
        })
    );
    assert_eq!(
        names("my db/t.sql"),
        Err(FileError::InvalidIdentifier {
            kind: "database name".to_string(),
            identifier: "my db".to_string()
        })
    );
    assert_eq!(
        names("db/.sql"),
        Err(FileError::InvalidIdentifier {
            kind: "table name".to_string(),
            identifier: ".sql".to_string()
        })
    );
}

#[test]
fn test_validate_identifier_accepts_letters_of_all_scripts() {
    assert!(FileUtils::validate_identifier("données_2024", "table name").is_ok());
    assert!(FileUtils::validate_identifier("表-1", "table name").is_ok());
    assert!(FileUtils::validate_identifier("a$b", "table name").is_err());
    assert!(FileUtils::validate_identifier("a/b", "table name").is_err());
}

#[test]
fn test_get_table_file_path_forms() {
    let path = |base: &str| FileUtils::get_table_file_path(base, "db", "t").unwrap();
    assert_eq!(path("/var/data"), "/var/data/db/t.sql");
    assert_eq!(path("/var/data/"), "/var/data/db/t.sql");
    assert_eq!(path(""), "db/t.sql");
    assert_eq!(path("."), "./db/t.sql");
    assert_eq!(
        FileUtils::get_table_file_path("/x", "", "t"),
        Err(FileError::EmptyIdentifier("database name".to_string()))
    );
    assert_eq!(
        FileUtils::get_table_file_path("/x", "db", "a.b"),
        Err(FileError::InvalidIdentifier {
            kind: "table name".to_string(),
            identifier: "a.b".to_string()
        })
    );
}

#[test]
fn test_collect_sql_files() {
    let entries = vec![
        found("base/salesdb/customers.sql", PathKind::File, Some("CREATE TABLE customers (id INT);")),
        found("base/salesdb/readme.txt", PathKind::File, Some("Some readme")),
        found("base/salesdb/nested.sql", PathKind::Other, None),
        found("base/analyticsdb/events.sql", PathKind::File, Some("CREATE TABLE events (id INT);")),
        found("base/sales db/orders.sql", PathKind::File, Some("CREATE TABLE orders (id INT);")),
        found("base/salesdb/locked.sql", PathKind::File, None),
        found("base/salesdb/gone.sql", PathKind::Missing, None),
    ];

    let scan = FileUtils::collect_sql_files(&entries);

    let keys: Vec<String> = scan.files.iter().map(|f| f.qualified_name()).collect();
    assert_eq!(keys, vec!["salesdb.customers", "analyticsdb.events"]);
    assert_eq!(scan.files[0].content, "CREATE TABLE customers (id INT);");
    assert_eq!(scan.files[1].file_path, "base/analyticsdb/events.sql");
    assert_eq!(
        scan.rejected,
        vec![
            (
                "base/sales db/orders.sql".to_string(),
                FileError::InvalidIdentifier {
                    kind: "database name".to_string(),
                    identifier: "sales db".to_string()
                }
            ),
            (
                "base/salesdb/locked.sql".to_string(),
                FileError::Unreadable("base/salesdb/locked.sql".to_string())
            ),
        ]
    );
    let empty = FileUtils::collect_sql_files(&vec![]);
    assert_eq!(empty.files.len(), 0);
    assert_eq!(empty.rejected.len(), 0);
}

#[test]
fn test_table_path_leads_back_to_its_table() {
    for base in ["", ".", "/", "/var/data", "relative/dir/", "a//b"] {
        for (database, table) in [("salesdb", "customers"), ("db-1", "t_2"), ("d", "t")] {
            let path = FileUtils::get_table_file_path(base, database, table).unwrap();
            assert_eq!(
                FileUtils::extract_database_table_from_path(&path),
                Ok((database.to_string(), table.to_string()))
            );
            assert!(FileUtils::validate_sql_file_path(&path, PathKind::File).is_ok());
        }
    }
}

#[test]
fn test_definition_compared_with_itself_shows_no_change() {
    for sql in [
        "",
        "CREATE TABLE t (id int, ID bigint, name string) STORED AS ORC LOCATION 's3://b/'",
        "CREATE TABLE t (\n  a int,\n  b struct<x:int,y:string>\n)\nPARTITIONED BY (dt string)",
    ] {
        let details = athenadef::differ::detect_changes(sql, sql);
        assert_eq!(details.column_changes, vec![]);
        assert_eq!(details.property_changes, vec![]);
    }
}
