//! The decisions that the commands take, apart from their input and output.

pub mod apply;
pub mod export;
pub mod init;
