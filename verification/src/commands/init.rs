//! Writing the first configuration file.

use vstd::prelude::*;

verus! {

/// The configuration file that `init` writes.
pub const DEFAULT_CONFIG_CONTENT: &'static str = "\
    # AWS Athena Workgroup\n\
    # The Athena workgroup to use for query execution\n\
    # Default: \"primary\"\n\
    workgroup: \"primary\"\n\
    \n\
    # S3 Output Location (Optional)\n\
    # S3 path where query results will be stored\n\
    # If not specified, the workgroup's default output location will be used\n\
    # Example: \"s3://my-bucket/athena-results/\"\n\
    # output_location: \"\"\n\
    \n\
    # AWS Region (Optional)\n\
    # AWS region for Athena operations\n\
    # If not specified, uses the default AWS region from your environment\n\
    # Example: \"us-east-1\"\n\
    # region: \"\"\n\
    \n\
    # Query Timeout (Optional)\n\
    # Maximum time in seconds to wait for a query to complete\n\
    # Default: 300\n\
    # query_timeout_seconds: 300\n\
    \n\
    # Max Concurrent Queries (Optional)\n\
    # Maximum number of queries to run concurrently\n\
    # Default: 5\n\
    # max_concurrent_queries: 5\n\
    \n\
    # Databases (Optional)\n\
    # List of databases to manage\n\
    # If specified and --target is not provided, only these databases will be processed\n\
    # This is useful to avoid scanning all databases in your account\n\
    # Example:\n\
    # databases:\n\
    #   - salesdb\n\
    #   - marketingdb\n\
    ";

/// Whether `init` may write the configuration file: it may where there is
/// no file yet, and over an existing file only when forced to.
pub fn may_write_config(present: bool, force: bool) -> (allowed: bool)
    ensures
        allowed == (!present || force),
{
    !present || force
}

} // verus!
