//! What passes between the engine and its driver: the requests that the engine
//! makes of the cluster, the replies that come back, and the failures that end
//! a run.
use crate::text::texts;
use vstd::prelude::*;

verus! {

/// The component of the cluster that a question about a write is put to.
#[derive(Clone, Copy, Debug, PartialEq, Eq, Structural)]
pub enum Connection {
    /// The general query path.
    Querier,
    /// The component that persists the data.
    Ingester,
}

/// What a wait on a write is for.
#[derive(Clone, Copy, Debug, PartialEq, Eq, Structural)]
pub enum Awaited {
    /// The write can be read.
    Readable,
    /// The write is durable.
    Persisted,
}

/// The language of a query.
#[derive(Clone, Copy, Debug, PartialEq, Eq, Structural)]
pub enum QueryLanguage {
    Sql,
    InfluxQl,
}

/// The HTTP status with which the cluster accepts a write.
pub const WRITE_ACCEPTED: u16 = 204;

/// Where the cluster exposes its metrics: the path `/metrics` under the base
/// address of its HTTP interface.
pub fn metrics_url(http_base: &str) -> (url: String)
    ensures
        url@ == http_base@ + "/metrics"@,
{
    let mut url: String = http_base.to_owned();
    url.append("/metrics");
    url
}

/// What the driver reports to the engine: the start of the run, or the
/// cluster's reply to the request that the engine made last.
#[derive(Debug, PartialEq, Eq)]
pub enum Event {
    /// The run begins; nothing has been requested yet.
    Begin,
    /// A write came back with this HTTP status and this write token.
    Written { status: u16, token: String },
    /// The cluster said whether what was asked of a write holds.
    Checked { holds: bool },
    /// The catalog said how many Parquet files it has; `None` when it could not
    /// be asked.
    Counted { count: Option<usize> },
    /// The compaction is over; with a message when it failed.
    Compacted { error: Option<String> },
    /// A query succeeded with these rows.
    Rows { rows: Vec<String> },
    /// A query failed with this status code and message.
    QueryFailed { code: tonic::Code, message: String },
    /// The callback that was handed out has returned.
    Returned,
}

/// What an [`Event`] says.
pub enum EventView {
    Begin,
    Written { status: u16, token: Seq<char> },
    Checked { holds: bool },
    Counted { count: Option<usize> },
    Compacted { error: Option<Seq<char>> },
    Rows { rows: Seq<Seq<char>> },
    QueryFailed { code: tonic::Code, message: Seq<char> },
    Returned,
}

impl View for Event {
    type V = EventView;

    open spec fn view(&self) -> EventView {
        match *self {
            Event::Begin => EventView::Begin,
            Event::Written { status, token } => EventView::Written { status, token: token@ },
            Event::Checked { holds } => EventView::Checked { holds },
            Event::Counted { count } => EventView::Counted { count },
            Event::Compacted { error } => EventView::Compacted {
                error: match error {
                    Some(message) => Some(message@),
                    None => None,
                },
            },
            Event::Rows { rows } => EventView::Rows { rows: texts(rows@) },
            Event::QueryFailed { code, message } => EventView::QueryFailed {
                code,
                message: message@,
            },
            Event::Returned => EventView::Returned,
        }
    }
}

/// Why a run was aborted.
#[derive(Debug, PartialEq, Eq)]
pub enum Failure {
    /// The driver reported something that does not answer the request made.
    UnexpectedEvent,
    /// A write was not accepted.
    WriteRejected { status: u16 },
    /// This write did not become readable, or durable, in time.
    TimedOut { awaited: Awaited, connection: Connection, token: String },
    /// The number of Parquet files did not rise above the recorded one in
    /// time; `observed` is the last count seen.
    NoNewParquetFiles { recorded: Option<usize>, observed: usize },
    /// This write is durable although it was asserted not to be.
    AlreadyPersisted { token: String },
    /// The last write was asserted not to be durable before anything was
    /// written.
    NoDataWritten,
    /// The compaction failed.
    CompactionFailed { message: String },
    /// A query that was expected to succeed failed.
    QueryFailed { code: tonic::Code, message: String },
    /// A query did not return the expected rows; both lists are in canonical
    /// order.
    RowsDiffer { expected: Vec<String>, actual: Vec<String> },
    /// A query that was expected to fail succeeded.
    QuerySucceeded,
    /// A query failed, but not with the expected code and message.
    WrongError {
        expected_code: tonic::Code,
        expected_message: String,
        code: tonic::Code,
        message: String,
    },
    /// The run had been aborted before.
    Halted,
}

/// What a [`Failure`] says.
pub enum FailureView {
    UnexpectedEvent,
    WriteRejected { status: u16 },
    TimedOut { awaited: Awaited, connection: Connection, token: Seq<char> },
    NoNewParquetFiles { recorded: Option<usize>, observed: usize },
    AlreadyPersisted { token: Seq<char> },
    NoDataWritten,
    CompactionFailed { message: Seq<char> },
    QueryFailed { code: tonic::Code, message: Seq<char> },
    RowsDiffer { expected: Seq<Seq<char>>, actual: Seq<Seq<char>> },
    QuerySucceeded,
    WrongError {
        expected_code: tonic::Code,
        expected_message: Seq<char>,
        code: tonic::Code,
        message: Seq<char>,
    },
    Halted,
}

impl View for Failure {
    type V = FailureView;

    open spec fn view(&self) -> FailureView {
        match *self {
            Failure::UnexpectedEvent => FailureView::UnexpectedEvent,
            Failure::WriteRejected { status } => FailureView::WriteRejected { status },
            Failure::TimedOut { awaited, connection, token } => FailureView::TimedOut {
                awaited,
                connection,
                token: token@,
            },
            Failure::NoNewParquetFiles { recorded, observed } => FailureView::NoNewParquetFiles {
                recorded,
                observed,
            },
            Failure::AlreadyPersisted { token } => FailureView::AlreadyPersisted { token: token@ },
            Failure::NoDataWritten => FailureView::NoDataWritten,
            Failure::CompactionFailed { message } => FailureView::CompactionFailed {
                message: message@,
            },
            Failure::QueryFailed { code, message } => FailureView::QueryFailed {
                code,
                message: message@,
            },
            Failure::RowsDiffer { expected, actual } => FailureView::RowsDiffer {
                expected: texts(expected@),
                actual: texts(actual@),
            },
            Failure::QuerySucceeded => FailureView::QuerySucceeded,
            Failure::WrongError {
                expected_code,
                expected_message,
                code,
                message,
            } => FailureView::WrongError {
                expected_code,
                expected_message: expected_message@,
                code,
                message: message@,
            },
            Failure::Halted => FailureView::Halted,
        }
    }
}

/// What the engine asks of its driver next.
#[derive(Debug, PartialEq, Eq)]
#[allow(inconsistent_fields)]
pub enum Action<Q, M, F> {
    /// Write this line protocol to the cluster; report `Written`.
    Write { line_protocol: String },
    /// One attempt of a wait: rest `after_ms`, then ask over `connection`
    /// whether the write with this token is readable, or durable; report
    /// `Checked`. Rest and question together have `within_ms`.
    Poll { awaited: Awaited, connection: Connection, token: String, after_ms: u64, within_ms: u64 },
    /// Ask the querier at once whether the write with this token is durable;
    /// report `Checked`.
    IsPersisted { token: String },
    /// Ask the catalog at once how many Parquet files it has; report
    /// `Counted`.
    CountParquetFiles,
    /// One attempt of the wait for new Parquet files: rest `after_ms`, then ask
    /// the catalog how many it has; report `Counted`. Rest and question
    /// together have `within_ms`.
    PollParquetFiles { after_ms: u64, within_ms: u64 },
    /// Run a compaction to its end; report `Compacted`.
    Compact,
    /// Run this query; report `Rows` or `QueryFailed`.
    Query { language: QueryLanguage, text: String },
    /// Hand the rows that the query just returned to this callback; report
    /// `Returned`.
    VerifyRows { verify: Q },
    /// Fetch the metrics text and hand it, with the state, to this callback;
    /// report `Returned`.
    VerifyMetrics { verify: M },
    /// Hand the state to this callback; report `Returned`.
    RunCustom { run: F },
    /// Every step has passed: the run is over.
    Done,
    /// The step with this index has failed: the run is over, and no later step
    /// runs.
    Abort { step: usize, failure: Failure },
}

/// What an [`Action`] says.
#[allow(inconsistent_fields)]
pub enum ActionView<Q, M, F> {
    Write { line_protocol: Seq<char> },
    Poll {
        awaited: Awaited,
        connection: Connection,
        token: Seq<char>,
        after_ms: u64,
        within_ms: u64,
    },
    IsPersisted { token: Seq<char> },
    CountParquetFiles,
    PollParquetFiles { after_ms: u64, within_ms: u64 },
    Compact,
    Query { language: QueryLanguage, text: Seq<char> },
    VerifyRows { verify: Q },
    VerifyMetrics { verify: M },
    RunCustom { run: F },
    Done,
    Abort { step: nat, failure: FailureView },
}

impl<Q, M, F> View for Action<Q, M, F> {
    type V = ActionView<Q, M, F>;

    open spec fn view(&self) -> ActionView<Q, M, F> {
        match *self {
            Action::Write { line_protocol } => ActionView::Write { line_protocol: line_protocol@ },
            Action::Poll { awaited, connection, token, after_ms, within_ms } => ActionView::Poll {
                awaited,
                connection,
                token: token@,
                after_ms,
                within_ms,
            },
            Action::IsPersisted { token } => ActionView::IsPersisted { token: token@ },
            Action::CountParquetFiles => ActionView::CountParquetFiles,
            Action::PollParquetFiles { after_ms, within_ms } => ActionView::PollParquetFiles {
                after_ms,
                within_ms,
            },
            Action::Compact => ActionView::Compact,
            Action::Query { language, text } => ActionView::Query { language, text: text@ },
            Action::VerifyRows { verify } => ActionView::VerifyRows { verify },
            Action::VerifyMetrics { verify } => ActionView::VerifyMetrics { verify },
            Action::RunCustom { run } => ActionView::RunCustom { run },
            Action::Done => ActionView::Done,
            Action::Abort { step, failure } => ActionView::Abort {
                step: step as nat,
                failure: failure@,
            },
        }
    }
}

} // verus!
