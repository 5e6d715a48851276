//! The configuration of a run.

use crate::text::{chars_of, concat3, starts_with};
use vstd::prelude::*;

verus! {

/// The settings under which queries are sent to the warehouse.
#[derive(Debug, Clone)]
pub struct Config {
    pub workgroup: String,
    /// Where query results are stored; `None` leaves it to the workgroup.
    pub output_location: Option<String>,
    pub region: Option<String>,
    pub query_timeout_seconds: Option<u64>,
    pub max_concurrent_queries: Option<usize>,
}

/// Why a configuration is refused.
#[derive(Debug, Clone, PartialEq)]
pub enum ConfigError {
    /// The workgroup is empty.
    EmptyWorkgroup,
    /// The output location is neither empty nor an `s3://` path.
    InvalidS3Path(String),
    /// The query timeout is zero.
    ZeroTimeout,
    /// The number of concurrent queries is zero.
    ZeroMaxConcurrent,
}

impl ConfigError {
    /// The message that describes the error.
    pub open spec fn message(self) -> Seq<char> {
        match self {
            ConfigError::EmptyWorkgroup => "Workgroup cannot be empty"@,
            ConfigError::InvalidS3Path(path) => "Invalid S3 path: '"@ + path@
                + "'. S3 paths must start with 's3://' (or omit output_location to use managed storage)"@,
            ConfigError::ZeroTimeout => "Query timeout must be greater than 0 seconds"@,
            ConfigError::ZeroMaxConcurrent => "Max concurrent queries must be greater than 0"@,
        }
    }

    /// The message that describes the error.
    pub fn to_string(&self) -> (s: String)
        ensures
            s@ == self.message(),
    {
        match self {
            ConfigError::EmptyWorkgroup => "Workgroup cannot be empty".to_string(),
            ConfigError::InvalidS3Path(path) => concat3(
                "Invalid S3 path: '",
                path.as_str(),
                "'. S3 paths must start with 's3://' (or omit output_location to use managed storage)",
            ),
            ConfigError::ZeroTimeout => "Query timeout must be greater than 0 seconds".to_string(),
            ConfigError::ZeroMaxConcurrent => "Max concurrent queries must be greater than 0".to_string(),
        }
    }
}

/// The timeout of a query where the configuration gives none, in seconds.
pub const DEFAULT_QUERY_TIMEOUT_SECONDS: u64 = 300;

/// The number of concurrent queries where the configuration gives none.
pub const DEFAULT_MAX_CONCURRENT_QUERIES: usize = 5;

impl Default for Config {
    fn default() -> (c: Self)
        ensures
            c.workgroup@ == "primary"@,
            c.output_location is None,
            c.region is None,
            c.query_timeout_seconds == Some(DEFAULT_QUERY_TIMEOUT_SECONDS),
            c.max_concurrent_queries == Some(DEFAULT_MAX_CONCURRENT_QUERIES),
    {
        Config {
            workgroup: "primary".to_string(),
            output_location: None,
            region: None,
            query_timeout_seconds: Some(DEFAULT_QUERY_TIMEOUT_SECONDS),
            max_concurrent_queries: Some(DEFAULT_MAX_CONCURRENT_QUERIES),
        }
    }
}

impl Config {
    /// Whether the output location is acceptable: none, the empty text, or
    /// an `s3://` path.
    pub open spec fn location_ok(self) -> bool {
        match self.output_location {
            Some(location) => location@.len() == 0 || "s3://"@.is_prefix_of(location@),
            None => true,
        }
    }

    /// The first reason for which the configuration is refused, if any: the
    /// workgroup is looked at first, then the output location, the timeout
    /// and the number of concurrent queries.
    pub open spec fn first_fault(self) -> Option<ConfigError> {
        if self.workgroup@.len() == 0 {
            Some(ConfigError::EmptyWorkgroup)
        } else if !self.location_ok() {
            Some(ConfigError::InvalidS3Path(self.output_location->0))
        } else if self.query_timeout_seconds == Some(0u64) {
            Some(ConfigError::ZeroTimeout)
        } else if self.max_concurrent_queries == Some(0usize) {
            Some(ConfigError::ZeroMaxConcurrent)
        } else {
            None
        }
    }

    /// Checks the values of the configuration.
    pub fn validate(&self) -> (r: Result<(), ConfigError>)
        ensures
            match r {
                Ok(()) => self.first_fault() is None,
                Err(e) => self.first_fault() == Some(e),
            },
    {
        if self.workgroup.as_str().unicode_len() == 0 {
            return Err(ConfigError::EmptyWorkgroup);
        }
        match &self.output_location {
            Some(location) => {
                let chars = chars_of(location.as_str());
                if chars.len() > 0 && !starts_with(&chars, &chars_of("s3://")) {
                    return Err(ConfigError::InvalidS3Path(location.clone()));
                }
            },
            None => {},
        }
        match self.query_timeout_seconds {
            Some(timeout) => {
                if timeout == 0 {
                    return Err(ConfigError::ZeroTimeout);
                }
            },
            None => {},
        }
        match self.max_concurrent_queries {
            Some(max_concurrent) => {
                if max_concurrent == 0 {
                    return Err(ConfigError::ZeroMaxConcurrent);
                }
            },
            None => {},
        }
        Ok(())
    }

    /// The configuration with the default timeout and the default number of
    /// concurrent queries where it gives none.
    pub fn with_defaults(self) -> (c: Self)
        ensures
            c.workgroup == self.workgroup,
            c.output_location == self.output_location,
            c.region == self.region,
            c.query_timeout_seconds == Some(
                match self.query_timeout_seconds {
                    Some(timeout) => timeout,
                    None => DEFAULT_QUERY_TIMEOUT_SECONDS,
                },
            ),
            c.max_concurrent_queries == Some(
                match self.max_concurrent_queries {
                    Some(max_concurrent) => max_concurrent,
                    None => DEFAULT_MAX_CONCURRENT_QUERIES,
                },
            ),
    {
        let mut c = self;
        if c.query_timeout_seconds.is_none() {
            c.query_timeout_seconds = Some(DEFAULT_QUERY_TIMEOUT_SECONDS);
        }
        if c.max_concurrent_queries.is_none() {
            c.max_concurrent_queries = Some(DEFAULT_MAX_CONCURRENT_QUERIES);
        }
        c
    }
}

} // verus!
