//! Results of remote query executions.

use vstd::prelude::*;

verus! {

/// State of a query execution as last observed.
#[derive(Debug, Clone, Copy, PartialEq, Eq, Structural)]
pub enum QueryExecutionStatus {
    Queued,
    Running,
    Succeeded,
    Failed,
    Cancelled,
}

/// One row of a result set: its cells, left to right.
#[derive(Debug, Clone, PartialEq)]
pub struct QueryRow {
    pub columns: Vec<String>,
}

/// What is known of one query execution: its id, its state, the reason of a
/// failure and the rows it produced.
#[derive(Debug, Clone, PartialEq)]
pub struct QueryResult {
    pub execution_id: String,
    pub status: QueryExecutionStatus,
    pub error_message: Option<String>,
    pub rows: Vec<QueryRow>,
}

impl QueryExecutionStatus {
    /// The word under which the state is reported.
    pub open spec fn label(self) -> Seq<char> {
        match self {
            QueryExecutionStatus::Queued => "queued"@,
            QueryExecutionStatus::Running => "running"@,
            QueryExecutionStatus::Succeeded => "succeeded"@,
            QueryExecutionStatus::Failed => "failed"@,
            QueryExecutionStatus::Cancelled => "cancelled"@,
        }
    }

    /// The word under which the state is reported.
    pub fn to_string(&self) -> (s: String)
        ensures
            s@ == self.label(),
    {
        match self {
            QueryExecutionStatus::Queued => "queued".to_string(),
            QueryExecutionStatus::Running => "running".to_string(),
            QueryExecutionStatus::Succeeded => "succeeded".to_string(),
            QueryExecutionStatus::Failed => "failed".to_string(),
            QueryExecutionStatus::Cancelled => "cancelled".to_string(),
        }
    }
}

impl QueryResult {
    /// The result of an execution of which only id and state are known.
    pub fn new(execution_id: String, status: QueryExecutionStatus) -> (r: Self)
        ensures
            r.execution_id == execution_id,
            r.status == status,
            r.error_message is None,
            r.rows@.len() == 0,
    {
        Self { execution_id, status, error_message: None, rows: Vec::new() }
    }

    /// Whether the execution succeeded.
    pub fn is_success(&self) -> (b: bool)
        ensures
            b == (self.status == QueryExecutionStatus::Succeeded),
    {
        self.status == QueryExecutionStatus::Succeeded
    }

    /// Whether the execution failed.
    pub fn is_failed(&self) -> (b: bool)
        ensures
            b == (self.status == QueryExecutionStatus::Failed),
    {
        self.status == QueryExecutionStatus::Failed
    }

    /// Whether the execution has not reached a terminal state yet.
    pub fn is_running(&self) -> (b: bool)
        ensures
            b == (self.status == QueryExecutionStatus::Queued || self.status
                == QueryExecutionStatus::Running),
    {
        self.status == QueryExecutionStatus::Queued || self.status == QueryExecutionStatus::Running
    }

    /// Number of rows held.
    pub fn row_count(&self) -> (n: usize)
        ensures
            n == self.rows@.len(),
    {
        self.rows.len()
    }
}

impl QueryRow {
    /// Builds a row from its cells.
    pub fn new(columns: Vec<String>) -> (row: Self)
        ensures
            row.columns == columns,
    {
        Self { columns }
    }

    /// The cell at `index`, if the row has one there.
    pub fn get_column(&self, index: usize) -> (cell: Option<&String>)
        ensures
            index < self.columns@.len() ==> cell == Some(&self.columns@[index as int]),
            index >= self.columns@.len() ==> cell is None,
    {
        if index < self.columns.len() {
            Some(&self.columns[index])
        } else {
            None
        }
    }

    /// Number of cells in the row.
    pub fn column_count(&self) -> (n: usize)
        ensures
            n == self.columns@.len(),
    {
        self.columns.len()
    }
}

} // verus!
