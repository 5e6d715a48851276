//! Data model shared by the planner, the query client and the filters.

pub mod config;
pub mod diff_result;
pub mod query_execution;
pub mod table_definition;
