//! The engine as a state machine over plain values: what it holds between two
//! calls, and what each reply of the cluster makes of it.
use crate::expect::is_expected_error;
use crate::poll::{elapsed_between, poll_decision_spec, PollDecision, TIMEOUT_MS};
use crate::protocol::{ActionView, Awaited, Connection, EventView, FailureView, QueryLanguage,
    WRITE_ACCEPTED};
use crate::rows::{same_rows, sorted_rows};
use crate::state::{count_increased, count_or_zero, StateView};
use crate::step::StepView;
use vstd::prelude::*;

verus! {

/// What a query that is under way is expected to bring.
pub enum ExpectationView<Q> {
    /// These rows, in whatever order.
    Rows(Seq<Seq<char>>),
    /// A failure with this code and a message that holds this text.
    Error { code: tonic::Code, message: Seq<char> },
    /// Rows, which this callback is to judge.
    Verified(Q),
}

/// What the engine is waiting for.
pub enum PhaseView<Q> {
    /// For the run to begin.
    Ready,
    /// For a write to come back.
    Writing,
    /// For the answer to an attempt of the wait on the write token with index
    /// `index`, a wait that began at `started_ms`.
    Polling { awaited: Awaited, connection: Connection, index: nat, started_ms: u64 },
    /// For the answer to whether the write token with index `index` is
    /// durable; if `all`, the tokens behind it are asked after as well.
    Asserting { index: nat, all: bool },
    /// For the count of Parquet files that is to be recorded.
    Recording,
    /// For the answer to an attempt of the wait for new Parquet files, a wait
    /// that began at `started_ms`.
    CountPolling { started_ms: u64 },
    /// For a compaction to end.
    Compacting,
    /// For the result of a query.
    Querying { expectation: ExpectationView<Q> },
    /// For a callback to return.
    InCallback,
    /// For nothing: every step has passed.
    Done,
    /// For nothing: a step has failed.
    Aborted,
}

/// The engine between two calls.
pub struct Machine<C, Q, M, F> {
    /// The state that is threaded through the steps.
    pub state: StateView<C>,
    /// The steps that have not begun yet, next first.
    pub pending: Seq<StepView<Q, M, F>>,
    /// The index of the step at hand: as many steps have passed.
    pub position: nat,
    /// What the engine is waiting for.
    pub phase: PhaseView<Q>,
}

impl<C, Q, M, F> Machine<C, Q, M, F> {
    /// The machine before the run begins.
    pub open spec fn initial(cluster: C, steps: Seq<StepView<Q, M, F>>) -> Self {
        Machine {
            state: StateView {
                cluster,
                write_tokens: Seq::<Seq<char>>::empty(),
                num_parquet_files: None,
            },
            pending: steps,
            position: 0,
            phase: PhaseView::Ready,
        }
    }

    /// The tokens of the writes made so far, oldest first.
    pub open spec fn tokens(self) -> Seq<Seq<char>> {
        self.state.write_tokens
    }

    /// A question about a write token is only under way for a token that
    /// exists.
    pub open spec fn wf(self) -> bool {
        match self.phase {
            PhaseView::Polling { index, .. } => index < self.tokens().len(),
            PhaseView::Asserting { index, .. } => index < self.tokens().len(),
            _ => true,
        }
    }

    /// The run is over, one way or the other.
    pub open spec fn finished(self) -> bool {
        self.phase is Done || self.phase is Aborted
    }

    /// The same machine, waiting for something else.
    pub open spec fn in_phase(self, phase: PhaseView<Q>) -> Self {
        Machine { phase, ..self }
    }

    /// The same machine with other state.
    pub open spec fn with_state(self, state: StateView<C>) -> Self {
        Machine { state, ..self }
    }

    /// The step at hand fails: the run is over.
    pub open spec fn abort(self, failure: FailureView) -> (Self, ActionView<Q, M, F>) {
        (self.in_phase(PhaseView::Aborted), ActionView::Abort { step: self.position, failure })
    }

    /// An attempt of the wait on the token with index `index`.
    pub open spec fn poll_token(
        self,
        awaited: Awaited,
        connection: Connection,
        index: nat,
        started_ms: u64,
        after_ms: u64,
        within_ms: u64,
    ) -> (Self, ActionView<Q, M, F>) {
        (
            self.in_phase(PhaseView::Polling { awaited, connection, index, started_ms }),
            ActionView::Poll {
                awaited,
                connection,
                token: self.tokens()[index as int],
                after_ms,
                within_ms,
            },
        )
    }

    /// The question whether the token with index `index` is durable.
    pub open spec fn assert_token(self, index: nat, all: bool) -> (Self, ActionView<Q, M, F>) {
        (
            self.in_phase(PhaseView::Asserting { index, all }),
            ActionView::IsPersisted { token: self.tokens()[index as int] },
        )
    }

    /// A query, and what it is expected to bring.
    pub open spec fn query(
        self,
        language: QueryLanguage,
        text: Seq<char>,
        expectation: ExpectationView<Q>,
    ) -> (Self, ActionView<Q, M, F>) {
        (self.in_phase(PhaseView::Querying { expectation }), ActionView::Query { language, text })
    }

    /// Begins the pending steps, in order, at the time `now_ms`: passes over
    /// the steps that have nothing to ask of the cluster, and stops at the
    /// first request, at the first failure, or at the end of the list.
    ///
    /// A wait on the tokens written, or an assertion about all of them, has
    /// nothing to ask when nothing was written. An assertion about the last
    /// write fails at once when nothing was written.
    pub open spec fn begin(self, now_ms: u64) -> (Self, ActionView<Q, M, F>)
        decreases self.pending.len(),
    {
        if self.pending.len() == 0 {
            (self.in_phase(PhaseView::Done), ActionView::Done)
        } else {
            let at_hand = Machine { pending: self.pending.drop_first(), ..self };
            let passed = Machine { position: self.position + 1, ..at_hand };
            let written = self.tokens().len();
            match self.pending[0] {
                StepView::WriteLineProtocol(line_protocol) => (
                    at_hand.in_phase(PhaseView::Writing),
                    ActionView::Write { line_protocol },
                ),
                StepView::WaitForReadable => if written == 0 {
                    passed.begin(now_ms)
                } else {
                    at_hand.poll_token(
                        Awaited::Readable,
                        Connection::Querier,
                        0,
                        now_ms,
                        0,
                        TIMEOUT_MS,
                    )
                },
                StepView::WaitForPersisted => if written == 0 {
                    passed.begin(now_ms)
                } else {
                    at_hand.poll_token(
                        Awaited::Persisted,
                        Connection::Querier,
                        0,
                        now_ms,
                        0,
                        TIMEOUT_MS,
                    )
                },
                StepView::WaitForPersistedAccordingToIngester => if written == 0 {
                    passed.begin(now_ms)
                } else {
                    at_hand.poll_token(
                        Awaited::Persisted,
                        Connection::Ingester,
                        0,
                        now_ms,
                        0,
                        TIMEOUT_MS,
                    )
                },
                StepView::AssertNotPersisted => if written == 0 {
                    passed.begin(now_ms)
                } else {
                    at_hand.assert_token(0, true)
                },
                StepView::AssertLastNotPersisted => if written == 0 {
                    at_hand.abort(FailureView::NoDataWritten)
                } else {
                    at_hand.assert_token((written - 1) as nat, false)
                },
                StepView::RecordNumParquetFiles => (
                    at_hand.in_phase(PhaseView::Recording),
                    ActionView::CountParquetFiles,
                ),
                StepView::WaitForPersisted2 => (
                    at_hand.in_phase(PhaseView::CountPolling { started_ms: now_ms }),
                    ActionView::PollParquetFiles { after_ms: 0, within_ms: TIMEOUT_MS },
                ),
                StepView::Compact => (at_hand.in_phase(PhaseView::Compacting), ActionView::Compact),
                StepView::Query { sql, expected } => at_hand.query(
                    QueryLanguage::Sql,
                    sql,
                    ExpectationView::Rows(expected),
                ),
                StepView::QueryExpectingError {
                    sql,
                    expected_error_code,
                    expected_message,
                } => at_hand.query(
                    QueryLanguage::Sql,
                    sql,
                    ExpectationView::Error { code: expected_error_code, message: expected_message },
                ),
                StepView::VerifiedQuery { sql, verify } => at_hand.query(
                    QueryLanguage::Sql,
                    sql,
                    ExpectationView::Verified(verify),
                ),
                StepView::InfluxQLQuery { query, expected } => at_hand.query(
                    QueryLanguage::InfluxQl,
                    query,
                    ExpectationView::Rows(expected),
                ),
                StepView::InfluxQLExpectingError {
                    query,
                    expected_error_code,
                    expected_message,
                } => at_hand.query(
                    QueryLanguage::InfluxQl,
                    query,
                    ExpectationView::Error { code: expected_error_code, message: expected_message },
                ),
                StepView::VerifiedMetrics(verify) => (
                    at_hand.in_phase(PhaseView::InCallback),
                    ActionView::VerifyMetrics { verify },
                ),
                StepView::Custom(run) => (
                    at_hand.in_phase(PhaseView::InCallback),
                    ActionView::RunCustom { run },
                ),
            }
        }
    }

    /// The step at hand has passed: on to the pending steps.
    pub open spec fn pass(self, now_ms: u64) -> (Self, ActionView<Q, M, F>) {
        Machine { position: self.position + 1, ..self }.begin(now_ms)
    }

    /// A write came back.
    pub open spec fn written(self, now_ms: u64, status: u16, token: Seq<char>) -> (
        Self,
        ActionView<Q, M, F>,
    ) {
        if status == WRITE_ACCEPTED {
            self.with_state(
                StateView { write_tokens: self.tokens().push(token), ..self.state },
            ).pass(now_ms)
        } else {
            self.abort(FailureView::WriteRejected { status })
        }
    }

    /// An attempt of the wait on the token with index `index` was answered.
    /// When the token has what is awaited, the wait goes on to the next token,
    /// with a budget of its own.
    pub open spec fn polled(
        self,
        awaited: Awaited,
        connection: Connection,
        index: nat,
        started_ms: u64,
        now_ms: u64,
        holds: bool,
    ) -> (Self, ActionView<Q, M, F>) {
        match poll_decision_spec(elapsed_between(started_ms, now_ms), holds) {
            PollDecision::Succeeded => if index + 1 < self.tokens().len() {
                self.poll_token(awaited, connection, index + 1, now_ms, 0, TIMEOUT_MS)
            } else {
                self.pass(now_ms)
            },
            PollDecision::Retry { after_ms, within_ms } => self.poll_token(
                awaited,
                connection,
                index,
                started_ms,
                after_ms,
                within_ms,
            ),
            PollDecision::TimedOut => self.abort(
                FailureView::TimedOut { awaited, connection, token: self.tokens()[index as int] },
            ),
        }
    }

    /// The question whether the token with index `index` is durable was
    /// answered.
    pub open spec fn asserted(self, index: nat, all: bool, now_ms: u64, holds: bool) -> (
        Self,
        ActionView<Q, M, F>,
    ) {
        if holds {
            self.abort(FailureView::AlreadyPersisted { token: self.tokens()[index as int] })
        } else if all && index + 1 < self.tokens().len() {
            self.assert_token(index + 1, true)
        } else {
            self.pass(now_ms)
        }
    }

    /// The count that is to be recorded came back.
    pub open spec fn recorded(self, now_ms: u64, count: Option<usize>) -> (
        Self,
        ActionView<Q, M, F>,
    ) {
        self.with_state(
            StateView { num_parquet_files: Some(count_or_zero(count)), ..self.state },
        ).pass(now_ms)
    }

    /// An attempt of the wait for new Parquet files was answered.
    pub open spec fn count_polled(self, started_ms: u64, now_ms: u64, count: Option<usize>) -> (
        Self,
        ActionView<Q, M, F>,
    ) {
        let recorded = self.state.num_parquet_files;
        let observed = count_or_zero(count);
        match poll_decision_spec(
            elapsed_between(started_ms, now_ms),
            count_increased(recorded, observed),
        ) {
            PollDecision::Succeeded => self.with_state(
                StateView { num_parquet_files: Some(observed), ..self.state },
            ).pass(now_ms),
            PollDecision::Retry { after_ms, within_ms } => (
                self.in_phase(PhaseView::CountPolling { started_ms }),
                ActionView::PollParquetFiles { after_ms, within_ms },
            ),
            PollDecision::TimedOut => self.abort(
                FailureView::NoNewParquetFiles { recorded, observed },
            ),
        }
    }

    /// A query succeeded with `rows`.
    pub open spec fn rows_returned(
        self,
        expectation: ExpectationView<Q>,
        now_ms: u64,
        rows: Seq<Seq<char>>,
    ) -> (Self, ActionView<Q, M, F>) {
        match expectation {
            ExpectationView::Rows(expected) => if same_rows(expected, rows) {
                self.pass(now_ms)
            } else {
                self.abort(
                    FailureView::RowsDiffer {
                        expected: sorted_rows(expected),
                        actual: sorted_rows(rows),
                    },
                )
            },
            ExpectationView::Error { .. } => self.abort(FailureView::QuerySucceeded),
            ExpectationView::Verified(verify) => (
                self.in_phase(PhaseView::InCallback),
                ActionView::VerifyRows { verify },
            ),
        }
    }

    /// A query failed with `code` and `message`.
    pub open spec fn query_failed(
        self,
        expectation: ExpectationView<Q>,
        now_ms: u64,
        code: tonic::Code,
        message: Seq<char>,
    ) -> (Self, ActionView<Q, M, F>) {
        match expectation {
            ExpectationView::Error { code: expected_code, message: expected_message } => if is_expected_error(
                expected_code,
                expected_message,
                code,
                message,
            ) {
                self.pass(now_ms)
            } else {
                self.abort(
                    FailureView::WrongError { expected_code, expected_message, code, message },
                )
            },
            _ => self.abort(FailureView::QueryFailed { code, message }),
        }
    }

    /// What the machine makes of `event`, reported at the time `now_ms`: the
    /// machine afterwards, and what it asks next.
    ///
    /// A report that does not answer what was asked aborts the run. A run that
    /// is over stays as it is, whatever is reported.
    pub open spec fn transition(self, now_ms: u64, event: EventView) -> (
        Self,
        ActionView<Q, M, F>,
    ) {
        match self.phase {
            PhaseView::Ready => match event {
                EventView::Begin => self.begin(now_ms),
                _ => self.abort(FailureView::UnexpectedEvent),
            },
            PhaseView::Writing => match event {
                EventView::Written { status, token } => self.written(now_ms, status, token),
                _ => self.abort(FailureView::UnexpectedEvent),
            },
            PhaseView::Polling { awaited, connection, index, started_ms } => match event {
                EventView::Checked { holds } => self.polled(
                    awaited,
                    connection,
                    index,
                    started_ms,
                    now_ms,
                    holds,
                ),
                _ => self.abort(FailureView::UnexpectedEvent),
            },
            PhaseView::Asserting { index, all } => match event {
                EventView::Checked { holds } => self.asserted(index, all, now_ms, holds),
                _ => self.abort(FailureView::UnexpectedEvent),
            },
            PhaseView::Recording => match event {
                EventView::Counted { count } => self.recorded(now_ms, count),
                _ => self.abort(FailureView::UnexpectedEvent),
            },
            PhaseView::CountPolling { started_ms } => match event {
                EventView::Counted { count } => self.count_polled(started_ms, now_ms, count),
                _ => self.abort(FailureView::UnexpectedEvent),
            },
            PhaseView::Compacting => match event {
                EventView::Compacted { error: None } => self.pass(now_ms),
                EventView::Compacted { error: Some(message) } => self.abort(
                    FailureView::CompactionFailed { message },
                ),
                _ => self.abort(FailureView::UnexpectedEvent),
            },
            PhaseView::Querying { expectation } => match event {
                EventView::Rows { rows } => self.rows_returned(expectation, now_ms, rows),
                EventView::QueryFailed { code, message } => self.query_failed(
                    expectation,
                    now_ms,
                    code,
                    message,
                ),
                _ => self.abort(FailureView::UnexpectedEvent),
            },
            PhaseView::InCallback => match event {
                EventView::Returned => self.pass(now_ms),
                _ => self.abort(FailureView::UnexpectedEvent),
            },
            PhaseView::Done => (self, ActionView::Done),
            PhaseView::Aborted => (
                self,
                ActionView::Abort { step: self.position, failure: FailureView::Halted },
            ),
        }
    }
}

/// What a machine begins does not depend on what it was waiting for before.
pub proof fn lemma_begin_ignores_phase<C, Q, M, F>(
    machine: Machine<C, Q, M, F>,
    phase: PhaseView<Q>,
    now_ms: u64,
)
    ensures
        machine.in_phase(phase).begin(now_ms) == machine.begin(now_ms),
        machine.in_phase(phase).pass(now_ms) == machine.pass(now_ms),
    decreases machine.pending.len(),
{
    if machine.pending.len() > 0 {
        let passed = Machine {
            position: machine.position + 1,
            pending: machine.pending.drop_first(),
            ..machine
        };
        lemma_begin_ignores_phase(passed, phase, now_ms);
        assert(passed.in_phase(phase) == Machine {
            position: machine.position + 1,
            pending: machine.pending.drop_first(),
            ..machine.in_phase(phase)
        });
    }
    let next = Machine { position: machine.position + 1, ..machine };
    if next.pending.len() > 0 {
        let passed = Machine {
            position: next.position + 1,
            pending: next.pending.drop_first(),
            ..next
        };
        lemma_begin_ignores_phase(passed, phase, now_ms);
        assert(passed.in_phase(phase) == Machine {
            position: next.position + 1,
            pending: next.pending.drop_first(),
            ..next.in_phase(phase)
        });
    }
    assert(next.in_phase(phase) == Machine {
        position: machine.position + 1,
        ..machine.in_phase(phase)
    });
}

} // verus!
