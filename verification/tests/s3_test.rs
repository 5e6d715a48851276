use athenadef::aws::s3::parse_s3_url;

#[test]
fn test_parse_s3_url_valid() {
    let result = parse_s3_url("s3://my-bucket/path/to/file.csv");
    assert!(result.is_ok());
    let (bucket, key) = result.unwrap();
    assert_eq!(bucket, "my-bucket");
    assert_eq!(key, "path/to/file.csv");
}

#[test]
fn test_parse_s3_url_with_subdirectories() {
    let result = parse_s3_url("s3://my-bucket/a/b/c/file.csv");
    assert!(result.is_ok());
    let (bucket, key) = result.unwrap();
    assert_eq!(bucket, "my-bucket");
    assert_eq!(key, "a/b/c/file.csv");
}

#[test]
fn test_parse_s3_url_no_prefix() {
    let result = parse_s3_url("my-bucket/path/to/file.csv");
    assert!(result.is_err());
    assert!(
        result
            .unwrap_err()
            .to_string()
            .contains("must start with s3://")
    );
}

#[test]
fn test_parse_s3_url_no_key() {
    let result = parse_s3_url("s3://my-bucket");
    assert!(result.is_err());
    assert!(
        result
            .unwrap_err()
            .to_string()
            .contains("expected s3://bucket/key")
    );
}

#[test]
fn test_parse_s3_url_empty_bucket() {
    let result = parse_s3_url("s3:///path/to/file.csv");
    assert!(result.is_err());
    assert!(
        result
            .unwrap_err()
            .to_string()
            .contains("bucket and key must not be empty")
    );
}

#[test]
fn test_parse_s3_url_empty_key() {
    let result = parse_s3_url("s3://my-bucket/");
    assert!(result.is_err());
    assert!(
        result
            .unwrap_err()
            .to_string()
            .contains("bucket and key must not be empty")
    );
}

#[test]
fn test_parse_s3_url_with_query_params() {
    // S3 URLs in Athena context typically don't have query params,
    // but if they do, they should be part of the key
    let result = parse_s3_url("s3://my-bucket/path/file.csv?version=1");
    assert!(result.is_ok());
    let (bucket, key) = result.unwrap();
    assert_eq!(bucket, "my-bucket");
    assert_eq!(key, "path/file.csv?version=1");
}
