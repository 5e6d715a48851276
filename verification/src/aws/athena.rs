//! The decisions of the query client: what to do after every answer of the
//! query service while a query is submitted, awaited and its result
//! fetched.
//!
//! The caller talks to the service and keeps the time. After each answer it
//! asks here what to do next, so that no decision depends on how the
//! service is reached.

use crate::text::{
    append_decimal, append_str, chars_of, concat2, decimal_of, opt_text, string_of, texts_of,
};
use crate::types::query_execution::{QueryExecutionStatus, QueryResult, QueryRow};
use vstd::prelude::*;

verus! {

/// State of an execution as the service reports it.
#[derive(Debug, Clone, Copy, PartialEq, Eq, Structural)]
pub enum RemoteState {
    Queued,
    Running,
    Succeeded,
    Failed,
    Cancelled,
    /// A state that this client does not know.
    Unknown,
}

/// Why a query did not give a result.
#[derive(Debug, PartialEq)]
pub enum QueryError {
    /// The service did not answer a request, or refused it.
    Service(String),
    /// The service accepted the query and named no execution.
    NoExecutionId,
    /// The execution failed, for the reason given.
    ExecutionFailed(String),
    /// The execution was cancelled.
    ExecutionCancelled,
    /// The execution did not end within the given number of seconds.
    TimedOut(u64),
    /// The service reported no state for the execution.
    StateUnavailable,
    /// The task that ran the query ended without an outcome.
    TaskFailed,
}

impl Clone for QueryError {
    fn clone(&self) -> (copy: Self)
        ensures
            copy == *self,
    {
        match self {
            QueryError::Service(reason) => QueryError::Service(reason.clone()),
            QueryError::NoExecutionId => QueryError::NoExecutionId,
            QueryError::ExecutionFailed(reason) => QueryError::ExecutionFailed(reason.clone()),
            QueryError::ExecutionCancelled => QueryError::ExecutionCancelled,
            QueryError::TimedOut(seconds) => QueryError::TimedOut(*seconds),
            QueryError::StateUnavailable => QueryError::StateUnavailable,
            QueryError::TaskFailed => QueryError::TaskFailed,
        }
    }
}

/// Mathematical content of a [`QueryError`].
pub ghost enum QueryErrorView {
    Service(Seq<char>),
    NoExecutionId,
    ExecutionFailed(Seq<char>),
    ExecutionCancelled,
    TimedOut(u64),
    StateUnavailable,
    TaskFailed,
}

impl View for QueryError {
    type V = QueryErrorView;

    open spec fn view(&self) -> QueryErrorView {
        match self {
            QueryError::Service(reason) => QueryErrorView::Service(reason@),
            QueryError::NoExecutionId => QueryErrorView::NoExecutionId,
            QueryError::ExecutionFailed(reason) => QueryErrorView::ExecutionFailed(reason@),
            QueryError::ExecutionCancelled => QueryErrorView::ExecutionCancelled,
            QueryError::TimedOut(seconds) => QueryErrorView::TimedOut(*seconds),
            QueryError::StateUnavailable => QueryErrorView::StateUnavailable,
            QueryError::TaskFailed => QueryErrorView::TaskFailed,
        }
    }
}

impl QueryErrorView {
    /// The message that describes the error.
    pub open spec fn message(self) -> Seq<char> {
        match self {
            QueryErrorView::Service(reason) => reason,
            QueryErrorView::NoExecutionId => "No query execution ID returned"@,
            QueryErrorView::ExecutionFailed(reason) => "Query execution failed: "@ + reason,
            QueryErrorView::ExecutionCancelled => "Query execution was cancelled"@,
            QueryErrorView::TimedOut(seconds) => "Query execution timed out after "@ + decimal_of(
                seconds as nat,
            ) + " seconds"@,
            QueryErrorView::StateUnavailable => "Query execution state not available"@,
            QueryErrorView::TaskFailed => "Task join failed"@,
        }
    }
}

impl QueryError {
    /// The message that describes the error.
    pub fn to_string(&self) -> (s: String)
        ensures
            s@ == self@.message(),
    {
        match self {
            QueryError::Service(reason) => reason.clone(),
            QueryError::NoExecutionId => "No query execution ID returned".to_string(),
            QueryError::ExecutionFailed(reason) => concat2(
                "Query execution failed: ",
                reason.as_str(),
            ),
            QueryError::ExecutionCancelled => "Query execution was cancelled".to_string(),
            QueryError::TimedOut(seconds) => {
                let mut v = chars_of("Query execution timed out after ");
                append_decimal(&mut v, *seconds);
                append_str(&mut v, " seconds");
                string_of(&v)
            },
            QueryError::StateUnavailable => "Query execution state not available".to_string(),
            QueryError::TaskFailed => "Task join failed".to_string(),
        }
    }
}

/// The id of the execution that the service started, or the error where it
/// named none.
pub fn execution_id_of(answer: Option<String>) -> (r: Result<String, QueryError>)
    ensures
        match answer {
            Some(id) => r == Ok::<String, QueryError>(id),
            None => r == Err::<String, QueryError>(QueryError::NoExecutionId),
        },
{
    match answer {
        Some(id) => Ok(id),
        None => Err(QueryError::NoExecutionId),
    }
}

/// What the service says of an execution: its state, if it reports one, and
/// the reason of the last change of state.
#[derive(Debug, Clone, PartialEq)]
pub struct StatusReport {
    pub state: Option<RemoteState>,
    pub reason: Option<String>,
}

/// What happened while a query was awaited.
#[derive(Debug, Clone, PartialEq)]
pub enum WaitEvent {
    /// The wait begins.
    Started,
    /// The clock was read: so much time has passed since the wait began.
    Clock { elapsed_seconds: u64, elapsed_nanos: u32 },
    /// The service reported on the execution.
    Status(StatusReport),
    /// The pause between two polls is over.
    Woke,
}

/// What to do next while a query is awaited.
#[derive(Debug, Clone, PartialEq)]
pub enum WaitAction {
    /// Read the clock.
    ReadClock,
    /// Ask the service for the state of the execution.
    GetStatus,
    /// Pause for the given number of seconds.
    Sleep(u64),
    /// The wait is over: the execution succeeded.
    Succeed,
    /// The wait is over, with this error.
    Fail(QueryError),
}

/// Mathematical content of a [`WaitAction`].
pub ghost enum WaitActionView {
    ReadClock,
    GetStatus,
    Sleep(u64),
    Succeed,
    Fail(QueryErrorView),
}

impl View for WaitAction {
    type V = WaitActionView;

    open spec fn view(&self) -> WaitActionView {
        match self {
            WaitAction::ReadClock => WaitActionView::ReadClock,
            WaitAction::GetStatus => WaitActionView::GetStatus,
            WaitAction::Sleep(seconds) => WaitActionView::Sleep(*seconds),
            WaitAction::Succeed => WaitActionView::Succeed,
            WaitAction::Fail(e) => WaitActionView::Fail(e@),
        }
    }
}

/// The pause between two polls, in seconds.
pub const POLL_INTERVAL_SECONDS: u64 = 2;

/// Whether more time has passed than the timeout allows.
pub open spec fn is_timed_out(
    elapsed_seconds: u64,
    elapsed_nanos: u32,
    timeout_seconds: u64,
) -> bool {
    elapsed_seconds > timeout_seconds || (elapsed_seconds == timeout_seconds && elapsed_nanos > 0)
}

/// The reason under which a failure is reported: the one the service gave,
/// or `Unknown error`.
pub open spec fn failure_reason_of(reason: Option<Seq<char>>) -> Seq<char> {
    match reason {
        Some(text) => text,
        None => "Unknown error"@,
    }
}

/// What to do after the service reported on an awaited execution: a
/// terminal state ends the wait, a missing state too; in every other state
/// the execution is polled again after a pause.
pub open spec fn action_after_status(
    state: Option<RemoteState>,
    reason: Option<Seq<char>>,
) -> WaitActionView {
    match state {
        None => WaitActionView::Fail(QueryErrorView::StateUnavailable),
        Some(RemoteState::Succeeded) => WaitActionView::Succeed,
        Some(RemoteState::Failed) => WaitActionView::Fail(
            QueryErrorView::ExecutionFailed(failure_reason_of(reason)),
        ),
        Some(RemoteState::Cancelled) => WaitActionView::Fail(QueryErrorView::ExecutionCancelled),
        Some(_) => WaitActionView::Sleep(POLL_INTERVAL_SECONDS),
    }
}

/// What is known of a [`WaitEvent`] in specifications.
pub ghost enum WaitEventView {
    Started,
    Clock { elapsed_seconds: u64, elapsed_nanos: u32 },
    Status { state: Option<RemoteState>, reason: Option<Seq<char>> },
    Woke,
}

impl View for WaitEvent {
    type V = WaitEventView;

    open spec fn view(&self) -> WaitEventView {
        match self {
            WaitEvent::Started => WaitEventView::Started,
            WaitEvent::Clock { elapsed_seconds, elapsed_nanos } => WaitEventView::Clock {
                elapsed_seconds: *elapsed_seconds,
                elapsed_nanos: *elapsed_nanos,
            },
            WaitEvent::Status(report) => WaitEventView::Status {
                state: report.state,
                reason: opt_text(report.reason),
            },
            WaitEvent::Woke => WaitEventView::Woke,
        }
    }
}

/// What to do after an event while a query is awaited with the given
/// timeout. The clock is read before every poll; once more time has passed
/// than the timeout allows, the wait ends with a timeout, whatever the
/// state of the execution.
pub open spec fn wait_action_of(timeout_seconds: u64, event: WaitEventView) -> WaitActionView {
    match event {
        WaitEventView::Started => WaitActionView::ReadClock,
        WaitEventView::Woke => WaitActionView::ReadClock,
        WaitEventView::Clock { elapsed_seconds, elapsed_nanos } => if is_timed_out(
            elapsed_seconds,
            elapsed_nanos,
            timeout_seconds,
        ) {
            WaitActionView::Fail(QueryErrorView::TimedOut(timeout_seconds))
        } else {
            WaitActionView::GetStatus
        },
        WaitEventView::Status { state, reason } => action_after_status(state, reason),
    }
}

/// Decides what to do next while a query is awaited.
pub fn next_wait_action(timeout_seconds: u64, event: &WaitEvent) -> (action: WaitAction)
    ensures
        action@ == wait_action_of(timeout_seconds, event@),
{
    match event {
        WaitEvent::Started => WaitAction::ReadClock,
        WaitEvent::Woke => WaitAction::ReadClock,
        WaitEvent::Clock { elapsed_seconds, elapsed_nanos } => {
            if *elapsed_seconds > timeout_seconds || (*elapsed_seconds == timeout_seconds
                && *elapsed_nanos > 0) {
                WaitAction::Fail(QueryError::TimedOut(timeout_seconds))
            } else {
                WaitAction::GetStatus
            }
        },
        WaitEvent::Status(report) => match report.state {
            None => WaitAction::Fail(QueryError::StateUnavailable),
            Some(RemoteState::Succeeded) => WaitAction::Succeed,
            Some(RemoteState::Failed) => {
                let reason = match &report.reason {
                    Some(text) => text.clone(),
                    None => "Unknown error".to_string(),
                };
                WaitAction::Fail(QueryError::ExecutionFailed(reason))
            },
            Some(RemoteState::Cancelled) => WaitAction::Fail(QueryError::ExecutionCancelled),
            Some(_) => WaitAction::Sleep(POLL_INTERVAL_SECONDS),
        },
    }
}

/// The status under which a reported state is recorded. A state that this
/// client does not know counts as a failure.
pub open spec fn status_of(state: RemoteState) -> QueryExecutionStatus {
    match state {
        RemoteState::Queued => QueryExecutionStatus::Queued,
        RemoteState::Running => QueryExecutionStatus::Running,
        RemoteState::Succeeded => QueryExecutionStatus::Succeeded,
        RemoteState::Failed => QueryExecutionStatus::Failed,
        RemoteState::Cancelled => QueryExecutionStatus::Cancelled,
        RemoteState::Unknown => QueryExecutionStatus::Failed,
    }
}

/// The status of an execution, from what the service reports of it.
pub fn query_status(state: Option<RemoteState>) -> (r: Result<QueryExecutionStatus, QueryError>)
    ensures
        match state {
            Some(s) => r == Ok::<QueryExecutionStatus, QueryError>(status_of(s)),
            None => r == Err::<QueryExecutionStatus, QueryError>(QueryError::StateUnavailable),
        },
{
    match state {
        None => Err(QueryError::StateUnavailable),
        Some(RemoteState::Queued) => Ok(QueryExecutionStatus::Queued),
        Some(RemoteState::Running) => Ok(QueryExecutionStatus::Running),
        Some(RemoteState::Succeeded) => Ok(QueryExecutionStatus::Succeeded),
        Some(RemoteState::Failed) => Ok(QueryExecutionStatus::Failed),
        Some(RemoteState::Cancelled) => Ok(QueryExecutionStatus::Cancelled),
        Some(RemoteState::Unknown) => Ok(QueryExecutionStatus::Failed),
    }
}

/// What to do next while the result of an execution is fetched.
#[derive(Debug, Clone, PartialEq)]
pub enum FetchAction {
    /// Ask the service why the execution failed.
    GetFailureReason,
    /// Ask the service for the page of rows behind the token, or for the
    /// first page.
    GetPage(Option<String>),
    /// The result is complete.
    Finish,
}

/// Mathematical content of a [`FetchAction`].
pub ghost enum FetchActionView {
    GetFailureReason,
    GetPage(Option<Seq<char>>),
    Finish,
}

impl View for FetchAction {
    type V = FetchActionView;

    open spec fn view(&self) -> FetchActionView {
        match self {
            FetchAction::GetFailureReason => FetchActionView::GetFailureReason,
            FetchAction::GetPage(token) => FetchActionView::GetPage(opt_text(*token)),
            FetchAction::Finish => FetchActionView::Finish,
        }
    }
}

/// What to do first for an execution of the given status: the rows of a
/// succeeded execution are fetched page by page, the reason of a failed one
/// is asked for, and of any other there is nothing more to learn.
pub open spec fn first_fetch_action_of(status: QueryExecutionStatus) -> FetchActionView {
    match status {
        QueryExecutionStatus::Succeeded => FetchActionView::GetPage(None),
        QueryExecutionStatus::Failed => FetchActionView::GetFailureReason,
        _ => FetchActionView::Finish,
    }
}

/// Begins to fetch the result of an execution, from what the service
/// reports of its state: the result starts out without rows and without
/// message.
pub fn start_fetch(execution_id: &str, state: Option<RemoteState>) -> (r: Result<
    (QueryResult, FetchAction),
    QueryError,
>)
    ensures
        match r {
            Ok((result, action)) => {
                &&& state is Some
                &&& result.execution_id@ == execution_id@
                &&& result.status == status_of(state->0)
                &&& result.error_message is None
                &&& result.rows@.len() == 0
                &&& action@ == first_fetch_action_of(result.status)
            },
            Err(e) => state is None && e == QueryError::StateUnavailable,
        },
{
    let status = match query_status(state) {
        Ok(status) => status,
        Err(e) => {
            return Err(e);
        },
    };
    let result = QueryResult::new(execution_id.to_owned(), status);
    let action = match status {
        QueryExecutionStatus::Succeeded => FetchAction::GetPage(None),
        QueryExecutionStatus::Failed => FetchAction::GetFailureReason,
        _ => FetchAction::Finish,
    };
    Ok((result, action))
}

/// Records the reason of a failure in the result, which is complete then.
pub fn record_failure_reason(result: &mut QueryResult, reason: Option<String>) -> (action:
    FetchAction)
    ensures
        final(result).error_message == reason,
        final(result).execution_id == old(result).execution_id,
        final(result).status == old(result).status,
        final(result).rows == old(result).rows,
        action == FetchAction::Finish,
{
    result.error_message = reason;
    FetchAction::Finish
}

/// The text of a cell: the empty text where the service gave none.
pub open spec fn cell_text_of(cell: Option<String>) -> Seq<char> {
    match cell {
        Some(text) => text@,
        None => Seq::<char>::empty(),
    }
}

/// The texts of the cells of a row.
pub open spec fn row_texts_of(cells: Seq<Option<String>>) -> Seq<Seq<char>> {
    cells.map_values(|cell: Option<String>| cell_text_of(cell))
}

/// The texts of the cells of a sequence of rows.
pub open spec fn row_views(rows: Seq<QueryRow>) -> Seq<Seq<Seq<char>>> {
    rows.map_values(|row: QueryRow| texts_of(row.columns@))
}

/// The texts of the cells of a page as the service delivers it.
pub open spec fn page_texts_of(page: Seq<Vec<Option<String>>>) -> Seq<Seq<Seq<char>>> {
    page.map_values(|cells: Vec<Option<String>>| row_texts_of(cells@))
}

/// The row that holds the cells the service delivered, a missing cell as
/// the empty text.
pub fn row_from_cells(cells: Vec<Option<String>>) -> (row: QueryRow)
    ensures
        texts_of(row.columns@) == row_texts_of(cells@),
{
    let mut columns: Vec<String> = Vec::new();
    let ghost goal = row_texts_of(cells@);
    let ghost all = cells@;
    for cell in it: cells.into_iter()
        invariant
            it.seq() == all,
            goal == row_texts_of(all),
            texts_of(columns@) =~= goal.take(it.index() as int),
    {
        let text = match cell {
            Some(text) => text,
            None => String::new(),
        };
        assert(goal.take(it.index() + 1) =~= goal.take(it.index() as int).push(text@));
        columns.push(text);
    }
    QueryRow::new(columns)
}

/// Adds a page of rows to the result, after the rows it holds, and says
/// what to do next: where the service named a token for a further page,
/// that page is asked for; else the result is complete.
pub fn record_page(
    result: &mut QueryResult,
    page: Vec<Vec<Option<String>>>,
    next_token: Option<String>,
) -> (action: FetchAction)
    ensures
        row_views(final(result).rows@) == row_views(old(result).rows@) + page_texts_of(page@),
        final(result).execution_id == old(result).execution_id,
        final(result).status == old(result).status,
        final(result).error_message == old(result).error_message,
        match next_token {
            Some(token) => action == FetchAction::GetPage(Some(token)),
            None => action == FetchAction::Finish,
        },
{
    let ghost start = row_views(result.rows@);
    let ghost goal = page_texts_of(page@);
    let ghost all = page@;
    for cells in it: page.into_iter()
        invariant
            it.seq() == all,
            goal == page_texts_of(all),
            result.execution_id == old(result).execution_id,
            result.status == old(result).status,
            result.error_message == old(result).error_message,
            row_views(result.rows@) =~= start + goal.take(it.index() as int),
    {
        let row = row_from_cells(cells);
        assert(row_views(result.rows@.push(row)) =~= row_views(result.rows@).push(
            texts_of(row.columns@),
        ));
        result.rows.push(row);
    }
    match next_token {
        Some(token) => FetchAction::GetPage(Some(token)),
        None => FetchAction::Finish,
    }
}

} // verus!
