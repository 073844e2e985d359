//! The steps that a test is made of.
use crate::text::literal_texts;
use vstd::prelude::*;

verus! {

/// Possible test steps that a test can perform.
///
/// A step is plain data but for three kinds that carry a callback of the test's
/// own: `Q` checks the rows of a query, `M` checks the metrics text, `F` is a
/// custom step. The engine hands a callback back to the driver when its turn
/// comes and never calls it.
pub enum Step<Q, M, F> {
    /// Writes the specified line protocol to the cluster, asserting that the
    /// data was written successfully.
    WriteLineProtocol(String),
    /// Wait for all previously written data to be readable.
    WaitForReadable,
    /// Assert that all previously written data is NOT persisted yet.
    AssertNotPersisted,
    /// Assert that the data written last is NOT persisted yet.
    AssertLastNotPersisted,
    /// Wait for all previously written data to be persisted.
    WaitForPersisted,
    /// Ask the catalog how many Parquet files it has for this cluster's
    /// namespace. Do this before a write whose persistence is of interest;
    /// after the write use `WaitForPersisted2` to see the number change.
    RecordNumParquetFiles,
    /// Wait for written data to be persisted by observing an increase in the
    /// number of Parquet files in the catalog for this cluster's namespace.
    WaitForPersisted2,
    /// Ask the ingester if it has persisted the data, for tests in which the
    /// querier does not know about the ingester.
    WaitForPersistedAccordingToIngester,
    /// Run a compaction and wait for it to finish.
    Compact,
    /// Run a SQL query and verify that the rows that come back are the
    /// expected rows, in whatever order.
    Query { sql: String, expected: Vec<&'static str> },
    /// Run a SQL query that is expected to fail, and verify that it fails with
    /// the expected error code and a message that holds the expected text.
    QueryExpectingError { sql: String, expected_error_code: tonic::Code, expected_message: String },
    /// Run a SQL query, and hand the rows to the validation function, which is
    /// expected to panic on validation failure.
    VerifiedQuery { sql: String, verify: Q },
    /// Run an InfluxQL query and verify that the rows that come back are the
    /// expected rows, in whatever order.
    InfluxQLQuery { query: String, expected: Vec<&'static str> },
    /// Run an InfluxQL query that is expected to fail, and verify that it fails
    /// with the expected error code and a message that holds the expected text.
    InfluxQLExpectingError {
        query: String,
        expected_error_code: tonic::Code,
        expected_message: String,
    },
    /// Retrieve the metrics and hand them to the validation function, which is
    /// expected to panic on validation failure.
    VerifiedMetrics(M),
    /// A custom step, for special cases that are only used once.
    Custom(F),
}

/// What a [`Step`] says.
pub enum StepView<Q, M, F> {
    WriteLineProtocol(Seq<char>),
    WaitForReadable,
    AssertNotPersisted,
    AssertLastNotPersisted,
    WaitForPersisted,
    RecordNumParquetFiles,
    WaitForPersisted2,
    WaitForPersistedAccordingToIngester,
    Compact,
    Query { sql: Seq<char>, expected: Seq<Seq<char>> },
    QueryExpectingError {
        sql: Seq<char>,
        expected_error_code: tonic::Code,
        expected_message: Seq<char>,
    },
    VerifiedQuery { sql: Seq<char>, verify: Q },
    InfluxQLQuery { query: Seq<char>, expected: Seq<Seq<char>> },
    InfluxQLExpectingError {
        query: Seq<char>,
        expected_error_code: tonic::Code,
        expected_message: Seq<char>,
    },
    VerifiedMetrics(M),
    Custom(F),
}

impl<Q, M, F> View for Step<Q, M, F> {
    type V = StepView<Q, M, F>;

    open spec fn view(&self) -> StepView<Q, M, F> {
        match *self {
            Step::WriteLineProtocol(line_protocol) => StepView::WriteLineProtocol(line_protocol@),
            Step::WaitForReadable => StepView::WaitForReadable,
            Step::AssertNotPersisted => StepView::AssertNotPersisted,
            Step::AssertLastNotPersisted => StepView::AssertLastNotPersisted,
            Step::WaitForPersisted => StepView::WaitForPersisted,
            Step::RecordNumParquetFiles => StepView::RecordNumParquetFiles,
            Step::WaitForPersisted2 => StepView::WaitForPersisted2,
            Step::WaitForPersistedAccordingToIngester => StepView::WaitForPersistedAccordingToIngester,
            Step::Compact => StepView::Compact,
            Step::Query { sql, expected } => StepView::Query {
                sql: sql@,
                expected: literal_texts(expected@),
            },
            Step::QueryExpectingError {
                sql,
                expected_error_code,
                expected_message,
            } => StepView::QueryExpectingError {
                sql: sql@,
                expected_error_code,
                expected_message: expected_message@,
            },
            Step::VerifiedQuery { sql, verify } => StepView::VerifiedQuery { sql: sql@, verify },
            Step::InfluxQLQuery { query, expected } => StepView::InfluxQLQuery {
                query: query@,
                expected: literal_texts(expected@),
            },
            Step::InfluxQLExpectingError {
                query,
                expected_error_code,
                expected_message,
            } => StepView::InfluxQLExpectingError {
                query: query@,
                expected_error_code,
                expected_message: expected_message@,
            },
            Step::VerifiedMetrics(verify) => StepView::VerifiedMetrics(verify),
            Step::Custom(run) => StepView::Custom(run),
        }
    }
}

/// What a list of steps says, step by step.
pub open spec fn step_views<Q, M, F>(steps: Seq<Step<Q, M, F>>) -> Seq<StepView<Q, M, F>> {
    steps.map_values(|step: Step<Q, M, F>| step@)
}

} // verus!
