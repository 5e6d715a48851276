//! Planning of schema changes for a SQL warehouse whose tables are defined
//! by local files, one statement per table at `<database>/<table>.sql`.
//!
//! The library decides; it does not talk to anyone. Its caller reads the
//! files, asks the warehouse, keeps the time, and hands what it learned to
//! the functions here:
//!
//! - [`target_filter`] selects tables by patterns such as `salesdb.*`;
//! - [`differ`] compares local and remote definitions and decides for every
//!   table whether it is created, updated, deleted or left as it is;
//! - [`aws`] holds the decisions of the query client: what to do after each
//!   answer of the query service, and how many queries may run at once;
//! - [`file_utils`] reads the names of tables off the paths of their files;
//! - [`commands`], [`output`] and [`cli`] hold what the commands of the tool
//!   decide and report.
//!
//! Every function states what it returns in terms of the mathematical
//! content of its arguments, and Verus proves that it does. What is taken on
//! trust are the calls into the `regex` and `similar` crates, in
//! [`patterns`] and [`line_diff`], and a few functions of the standard
//! library on Unicode text, in [`text`].

pub mod aws;
pub mod cli;
pub mod commands;
pub mod differ;
pub mod file_utils;
pub mod line_diff;
pub mod output;
pub mod patterns;
pub mod target_filter;
pub mod text;
pub mod types;
