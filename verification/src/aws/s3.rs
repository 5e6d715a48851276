//! Addresses of stored query results.

use crate::text::{chars_of, concat2, find_char, first_index_of, slice_of, starts_with, string_of};
use vstd::prelude::*;

verus! {

/// Why a text is not the address of a stored object.
#[derive(Debug, Clone, Copy, PartialEq, Eq, Structural)]
pub enum S3UrlError {
    /// The text does not begin with `s3://`.
    MissingScheme,
    /// No `/` separates a bucket from a key.
    MissingKey,
    /// The bucket or the key is empty.
    EmptyPart,
}

impl S3UrlError {
    /// The message that describes the error.
    pub open spec fn message(self) -> Seq<char> {
        match self {
            S3UrlError::MissingScheme => "Invalid S3 URL: must start with s3://"@,
            S3UrlError::MissingKey => "Invalid S3 URL format: expected s3://bucket/key"@,
            S3UrlError::EmptyPart => "Invalid S3 URL: bucket and key must not be empty"@,
        }
    }

    /// The message that describes the error.
    pub fn to_string(&self) -> (s: String)
        ensures
            s@ == self.message(),
    {
        match self {
            S3UrlError::MissingScheme => "Invalid S3 URL: must start with s3://".to_string(),
            S3UrlError::MissingKey => "Invalid S3 URL format: expected s3://bucket/key".to_string(),
            S3UrlError::EmptyPart => "Invalid S3 URL: bucket and key must not be empty".to_string(),
        }
    }
}

/// The bucket and the key that an address `s3://<bucket>/<key>` names: the
/// bucket ends at the first `/` after the scheme, the key is all that
/// follows.
pub open spec fn s3_parts_of(url: Seq<char>) -> Result<(Seq<char>, Seq<char>), S3UrlError> {
    if !"s3://"@.is_prefix_of(url) {
        Err(S3UrlError::MissingScheme)
    } else {
        let rest = url.skip("s3://"@.len() as int);
        let slash = first_index_of(rest, '/');
        if slash >= rest.len() {
            Err(S3UrlError::MissingKey)
        } else if slash == 0 || slash + 1 == rest.len() {
            Err(S3UrlError::EmptyPart)
        } else {
            Ok((rest.take(slash), rest.skip(slash + 1)))
        }
    }
}

/// Splits the address of a stored object into bucket and key.
pub fn parse_s3_url(s3_url: &str) -> (r: Result<(String, String), S3UrlError>)
    ensures
        match r {
            Ok((bucket, key)) => s3_parts_of(s3_url@) == Ok::<_, S3UrlError>((bucket@, key@)),
            Err(e) => s3_parts_of(s3_url@) == Err::<(Seq<char>, Seq<char>), _>(e),
        },
{
    let url = chars_of(s3_url);
    let scheme = chars_of("s3://");
    if !starts_with(&url, &scheme) {
        return Err(S3UrlError::MissingScheme);
    }
    let rest = slice_of(&url, scheme.len(), url.len());
    let slash = find_char(&rest, '/');
    if slash >= rest.len() {
        return Err(S3UrlError::MissingKey);
    }
    if slash == 0 || slash + 1 == rest.len() {
        return Err(S3UrlError::EmptyPart);
    }
    let bucket = slice_of(&rest, 0, slash);
    let key = slice_of(&rest, slash + 1, rest.len());
    Ok((string_of(&bucket), string_of(&key)))
}

/// The address of the metadata that is stored beside a query result.
pub fn metadata_url(s3_url: &str) -> (url: String)
    ensures
        url@ == s3_url@ + ".metadata"@,
{
    concat2(s3_url, ".metadata")
}

} // verus!
