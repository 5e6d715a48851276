//! The decisions of the clients of the remote services.

pub mod athena;
pub mod glue;
pub mod parallel;
pub mod s3;
