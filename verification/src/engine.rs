//! The step engine: it runs the steps of a test in order, one reply of the
//! cluster at a time.
use crate::expect::error_matches;
use crate::machine::{lemma_begin_ignores_phase, ExpectationView, Machine, PhaseView};
use crate::poll::{elapsed_since, poll_decision, PollDecision, TIMEOUT_MS};
use crate::protocol::{Action, Awaited, Connection, Event, Failure, QueryLanguage, WRITE_ACCEPTED};
use crate::rows::{lemma_same_rows_by_sorting, owned_rows, rows_equal, sort_rows};
use crate::state::{StateView, StepTestState};
use crate::step::{step_views, Step};
use crate::text::{literal_texts, texts};
use vstd::prelude::*;

verus! {

/// What a query that is under way is expected to bring.
enum Expectation<Q> {
    Rows(Vec<&'static str>),
    Error { code: tonic::Code, message: String },
    Verified(Q),
}

impl<Q> View for Expectation<Q> {
    type V = ExpectationView<Q>;

    closed spec fn view(&self) -> ExpectationView<Q> {
        match *self {
            Expectation::Rows(expected) => ExpectationView::Rows(literal_texts(expected@)),
            Expectation::Error { code, message } => ExpectationView::Error {
                code,
                message: message@,
            },
            Expectation::Verified(verify) => ExpectationView::Verified(verify),
        }
    }
}

/// What the engine is waiting for.
enum Phase<Q> {
    Ready,
    Writing,
    Polling { awaited: Awaited, connection: Connection, index: usize, started_ms: u64 },
    Asserting { index: usize, all: bool },
    Recording,
    CountPolling { started_ms: u64 },
    Compacting,
    Querying { expectation: Expectation<Q> },
    InCallback,
    Done,
    Aborted,
}

impl<Q> View for Phase<Q> {
    type V = PhaseView<Q>;

    closed spec fn view(&self) -> PhaseView<Q> {
        match *self {
            Phase::Ready => PhaseView::Ready,
            Phase::Writing => PhaseView::Writing,
            Phase::Polling { awaited, connection, index, started_ms } => PhaseView::Polling {
                awaited,
                connection,
                index: index as nat,
                started_ms,
            },
            Phase::Asserting { index, all } => PhaseView::Asserting { index: index as nat, all },
            Phase::Recording => PhaseView::Recording,
            Phase::CountPolling { started_ms } => PhaseView::CountPolling { started_ms },
            Phase::Compacting => PhaseView::Compacting,
            Phase::Querying { expectation } => PhaseView::Querying { expectation: expectation@ },
            Phase::InCallback => PhaseView::InCallback,
            Phase::Done => PhaseView::Done,
            Phase::Aborted => PhaseView::Aborted,
        }
    }
}

/// Test harness for end to end tests that are comprised of several steps.
///
/// It holds the steps and the state, and is driven from outside: see
/// [`StepTest::run`].
pub struct StepTest<C, Q, M, F> {
    /// The state that is handed from step to step.
    state: StepTestState<C>,
    /// The test steps that have not begun yet, next first.
    pending: Vec<Step<Q, M, F>>,
    /// How many steps have passed.
    position: usize,
    /// What the engine is waiting for.
    phase: Phase<Q>,
}

impl<C, Q, M, F> View for StepTest<C, Q, M, F> {
    type V = Machine<C, Q, M, F>;

    closed spec fn view(&self) -> Machine<C, Q, M, F> {
        Machine {
            state: self.state@,
            pending: step_views(self.pending@),
            position: self.position as nat,
            phase: self.phase@,
        }
    }
}

impl<C, Q, M, F> StepTest<C, Q, M, F> {
    /// The engine is sound: a question about a write token is only under way
    /// for a token that exists, and the steps can be counted.
    pub closed spec fn wf(&self) -> bool {
        &&& self@.wf()
        &&& self.position + self.pending.len() <= usize::MAX
        &&& !(self.phase is Ready || self.phase is Done || self.phase is Aborted) ==> self.position
            + self.pending.len() < usize::MAX
    }

    /// Create a new test that runs each of `steps`, in sequence, against
    /// `cluster`.
    pub fn new(cluster: C, steps: Vec<Step<Q, M, F>>) -> (test: Self)
        ensures
            test.wf(),
            test@ == Machine::initial(cluster, step_views(steps@)),
    {
        StepTest {
            state: StepTestState::new(cluster),
            pending: steps,
            position: 0,
            phase: Phase::Ready,
        }
    }

    /// The state that is handed from step to step.
    pub fn state(&self) -> (state: &StepTestState<C>)
        ensures
            state@ == self@.state,
    {
        &self.state
    }

    /// The index of the step at hand: as many steps have passed.
    pub fn position(&self) -> (position: usize)
        ensures
            position == self@.position,
    {
        self.position
    }

    /// Tells whether the engine is waiting for a callback to return.
    pub fn awaits_callback(&self) -> (awaited: bool)
        ensures
            awaited == (self@.phase is InCallback),
    {
        match self.phase {
            Phase::InCallback => true,
            _ => false,
        }
    }

    /// The state, for the callback that the engine is waiting for. What the
    /// callback makes of the state is what the run goes on with.
    pub fn state_mut(&mut self) -> (state: &mut StepTestState<C>)
        requires
            old(self).wf(),
            old(self)@.phase is InCallback,
        ensures
            state@ == old(self)@.state,
            final(self)@ == old(self)@.with_state(final(state)@),
            final(self).wf(),
    {
        &mut self.state
    }

    /// The cluster under test. Nothing but the cluster can change through it.
    pub fn cluster_mut(&mut self) -> (cluster: &mut C)
        requires
            old(self).wf(),
        ensures
            *cluster == old(self)@.state.cluster,
            final(self)@ == old(self)@.with_state(
                StateView { cluster: *final(cluster), ..old(self)@.state },
            ),
            final(self).wf(),
    {
        self.state.cluster_mut()
    }

    /// A copy of the write token with index `index`.
    fn token(&self, index: usize) -> (token: String)
        requires
            index < self@.tokens().len(),
        ensures
            token@ == self@.tokens()[index as int],
    {
        let tokens = self.state.write_tokens();
        assert(texts(tokens@)[index as int] == tokens@[index as int]@);
        tokens[index].clone()
    }

    /// How many writes have been made.
    fn token_count(&self) -> (written: usize)
        ensures
            written == self@.tokens().len(),
    {
        let tokens = self.state.write_tokens();
        assert(texts(tokens@).len() == tokens@.len());
        tokens.len()
    }

    /// The step at hand fails: the run is over.
    fn abort(&mut self, failure: Failure) -> (action: Action<Q, M, F>)
        requires
            old(self).position + old(self).pending.len() <= usize::MAX,
        ensures
            final(self).wf(),
            (final(self)@, action@) == old(self)@.abort(failure@),
    {
        self.phase = Phase::Aborted;
        Action::Abort { step: self.position, failure }
    }

    /// An attempt of the wait on the token with index `index`.
    fn poll_token(
        &mut self,
        awaited: Awaited,
        connection: Connection,
        index: usize,
        started_ms: u64,
        after_ms: u64,
        within_ms: u64,
    ) -> (action: Action<Q, M, F>)
        requires
            old(self).position + old(self).pending.len() < usize::MAX,
            index < old(self)@.tokens().len(),
        ensures
            final(self).wf(),
            (final(self)@, action@) == old(self)@.poll_token(
                awaited,
                connection,
                index as nat,
                started_ms,
                after_ms,
                within_ms,
            ),
    {
        let token = self.token(index);
        self.phase = Phase::Polling { awaited, connection, index, started_ms };
        Action::Poll { awaited, connection, token, after_ms, within_ms }
    }

    /// The question whether the token with index `index` is durable.
    fn assert_token(&mut self, index: usize, all: bool) -> (action: Action<Q, M, F>)
        requires
            old(self).position + old(self).pending.len() < usize::MAX,
            index < old(self)@.tokens().len(),
        ensures
            final(self).wf(),
            (final(self)@, action@) == old(self)@.assert_token(index as nat, all),
    {
        let token = self.token(index);
        self.phase = Phase::Asserting { index, all };
        Action::IsPersisted { token }
    }

    /// A query, and what it is expected to bring.
    fn query(&mut self, language: QueryLanguage, text: String, expectation: Expectation<Q>) -> (action:
        Action<Q, M, F>)
        requires
            old(self).position + old(self).pending.len() < usize::MAX,
        ensures
            final(self).wf(),
            (final(self)@, action@) == old(self)@.query(language, text@, expectation@),
    {
        self.phase = Phase::Querying { expectation };
        Action::Query { language, text }
    }

    /// Begins the pending steps, in order.
    fn begin(&mut self, now_ms: u64) -> (action: Action<Q, M, F>)
        requires
            old(self).position + old(self).pending.len() <= usize::MAX,
        ensures
            final(self).wf(),
            (final(self)@, action@) == old(self)@.begin(now_ms),
    {
        loop
            invariant
                self.position + self.pending.len() <= usize::MAX,
                self@.begin(now_ms) == old(self)@.begin(now_ms),
            decreases self.pending.len(),
        {
            if self.pending.len() == 0 {
                self.phase = Phase::Done;
                return Action::Done;
            }
            let ghost before = self@;
            let ghost steps = self.pending@;
            let step = self.pending.remove(0);
            assert(step_views(self.pending@) =~= step_views(steps).drop_first());
            assert(step@ == before.pending[0]);
            let written = self.token_count();
            match step {
                Step::WriteLineProtocol(line_protocol) => {
                    self.phase = Phase::Writing;
                    return Action::Write { line_protocol };
                },
                Step::WaitForReadable => {
                    if written > 0 {
                        return self.poll_token(
                            Awaited::Readable,
                            Connection::Querier,
                            0,
                            now_ms,
                            0,
                            TIMEOUT_MS,
                        );
                    }
                },
                Step::WaitForPersisted => {
                    if written > 0 {
                        return self.poll_token(
                            Awaited::Persisted,
                            Connection::Querier,
                            0,
                            now_ms,
                            0,
                            TIMEOUT_MS,
                        );
                    }
                },
                Step::WaitForPersistedAccordingToIngester => {
                    if written > 0 {
                        return self.poll_token(
                            Awaited::Persisted,
                            Connection::Ingester,
                            0,
                            now_ms,
                            0,
                            TIMEOUT_MS,
                        );
                    }
                },
                Step::AssertNotPersisted => {
                    if written > 0 {
                        return self.assert_token(0, true);
                    }
                },
                Step::AssertLastNotPersisted => {
                    if written == 0 {
                        return self.abort(Failure::NoDataWritten);
                    }
                    return self.assert_token(written - 1, false);
                },
                Step::RecordNumParquetFiles => {
                    self.phase = Phase::Recording;
                    return Action::CountParquetFiles;
                },
                Step::WaitForPersisted2 => {
                    self.phase = Phase::CountPolling { started_ms: now_ms };
                    return Action::PollParquetFiles { after_ms: 0, within_ms: TIMEOUT_MS };
                },
                Step::Compact => {
                    self.phase = Phase::Compacting;
                    return Action::Compact;
                },
                Step::Query { sql, expected } => {
                    return self.query(QueryLanguage::Sql, sql, Expectation::Rows(expected));
                },
                Step::QueryExpectingError { sql, expected_error_code, expected_message } => {
                    return self.query(
                        QueryLanguage::Sql,
                        sql,
                        Expectation::Error { code: expected_error_code, message: expected_message },
                    );
                },
                Step::VerifiedQuery { sql, verify } => {
                    return self.query(QueryLanguage::Sql, sql, Expectation::Verified(verify));
                },
                Step::InfluxQLQuery { query, expected } => {
                    return self.query(QueryLanguage::InfluxQl, query, Expectation::Rows(expected));
                },
                Step::InfluxQLExpectingError { query, expected_error_code, expected_message } => {
                    return self.query(
                        QueryLanguage::InfluxQl,
                        query,
                        Expectation::Error { code: expected_error_code, message: expected_message },
                    );
                },
                Step::VerifiedMetrics(verify) => {
                    self.phase = Phase::InCallback;
                    return Action::VerifyMetrics { verify };
                },
                Step::Custom(run) => {
                    self.phase = Phase::InCallback;
                    return Action::RunCustom { run };
                },
            }
            // the step had nothing to ask of the cluster
            self.position = self.position + 1;
        }
    }

    /// The step at hand has passed: on to the pending steps.
    fn pass(&mut self, now_ms: u64) -> (action: Action<Q, M, F>)
        requires
            old(self).position + old(self).pending.len() < usize::MAX,
        ensures
            final(self).wf(),
            (final(self)@, action@) == old(self)@.pass(now_ms),
    {
        self.position = self.position + 1;
        self.begin(now_ms)
    }

    /// Run the test: takes what the driver reports at the time `now_ms` (the
    /// start of the run, or the cluster's reply to the request made last),
    /// runs the steps as far as they go without the cluster, and returns what
    /// the driver is to do next: a request to the cluster, the end of the run,
    /// or the failure of the step at hand.
    ///
    /// `now_ms` is the reading of a clock in milliseconds; only differences
    /// between readings count.
    pub fn run(&mut self, now_ms: u64, event: Event) -> (action: Action<Q, M, F>)
        requires
            old(self).wf(),
        ensures
            final(self).wf(),
            (final(self)@, action@) == old(self)@.transition(now_ms, event@),
    {
        let mut phase = Phase::Aborted;
        core::mem::swap(&mut self.phase, &mut phase);
        proof {
            assert(self@ == old(self)@.in_phase(PhaseView::Aborted));
            lemma_begin_ignores_phase(old(self)@, PhaseView::Aborted, now_ms);
        }
        match phase {
            Phase::Ready => match event {
                Event::Begin => self.begin(now_ms),
                _ => self.abort(Failure::UnexpectedEvent),
            },
            Phase::Writing => match event {
                Event::Written { status, token } => {
                    if status == WRITE_ACCEPTED {
                        proof {
                            lemma_begin_ignores_phase(
                                old(self)@.with_state(
                                    StateView {
                                        write_tokens: old(self)@.tokens().push(token@),
                                        ..old(self)@.state
                                    },
                                ),
                                PhaseView::Aborted,
                                now_ms,
                            );
                        }
                        self.state.record_write_token(token);
                        self.pass(now_ms)
                    } else {
                        self.abort(Failure::WriteRejected { status })
                    }
                },
                _ => self.abort(Failure::UnexpectedEvent),
            },
            Phase::Polling { awaited, connection, index, started_ms } => match event {
                Event::Checked { holds } => {
                    let written = self.token_count();
                    match poll_decision(elapsed_since(started_ms, now_ms), holds) {
                        PollDecision::Succeeded => {
                            if index + 1 < written {
                                self.poll_token(awaited, connection, index + 1, now_ms, 0, TIMEOUT_MS)
                            } else {
                                self.pass(now_ms)
                            }
                        },
                        PollDecision::Retry { after_ms, within_ms } => self.poll_token(
                            awaited,
                            connection,
                            index,
                            started_ms,
                            after_ms,
                            within_ms,
                        ),
                        PollDecision::TimedOut => {
                            let token = self.token(index);
                            self.abort(Failure::TimedOut { awaited, connection, token })
                        },
                    }
                },
                _ => self.abort(Failure::UnexpectedEvent),
            },
            Phase::Asserting { index, all } => match event {
                Event::Checked { holds } => {
                    let written = self.token_count();
                    if holds {
                        let token = self.token(index);
                        self.abort(Failure::AlreadyPersisted { token })
                    } else if all && index + 1 < written {
                        self.assert_token(index + 1, true)
                    } else {
                        self.pass(now_ms)
                    }
                },
                _ => self.abort(Failure::UnexpectedEvent),
            },
            Phase::Recording => match event {
                Event::Counted { count } => {
                    self.state.record_num_parquet_files(count);
                    proof {
                        lemma_begin_ignores_phase(
                            old(self)@.with_state(self.state@),
                            PhaseView::Aborted,
                            now_ms,
                        );
                    }
                    self.pass(now_ms)
                },
                _ => self.abort(Failure::UnexpectedEvent),
            },
            Phase::CountPolling { started_ms } => match event {
                Event::Counted { count } => {
                    let recorded = self.state.num_parquet_files();
                    let elapsed: u64 = elapsed_since(started_ms, now_ms);
                    match self.state.wait_for_num_parquet_file_change(elapsed, count) {
                        PollDecision::Succeeded => {
                            proof {
                                lemma_begin_ignores_phase(
                                    old(self)@.with_state(self.state@),
                                    PhaseView::Aborted,
                                    now_ms,
                                );
                            }
                            self.pass(now_ms)
                        },
                        PollDecision::Retry { after_ms, within_ms } => {
                            self.phase = Phase::CountPolling { started_ms };
                            Action::PollParquetFiles { after_ms, within_ms }
                        },
                        PollDecision::TimedOut => {
                            let observed: usize = match count {
                                Some(count) => count,
                                None => 0,
                            };
                            self.abort(Failure::NoNewParquetFiles { recorded, observed })
                        },
                    }
                },
                _ => self.abort(Failure::UnexpectedEvent),
            },
            Phase::Compacting => match event {
                Event::Compacted { error: None } => self.pass(now_ms),
                Event::Compacted { error: Some(message) } => self.abort(
                    Failure::CompactionFailed { message },
                ),
                _ => self.abort(Failure::UnexpectedEvent),
            },
            Phase::Querying { expectation } => match event {
                Event::Rows { rows } => match expectation {
                    Expectation::Rows(expected) => {
                        let wanted: Vec<String> = sort_rows(&owned_rows(&expected));
                        let got: Vec<String> = sort_rows(&rows);
                        proof {
                            lemma_same_rows_by_sorting(literal_texts(expected@), texts(rows@));
                        }
                        if rows_equal(&wanted, &got) {
                            self.pass(now_ms)
                        } else {
                            self.abort(Failure::RowsDiffer { expected: wanted, actual: got })
                        }
                    },
                    Expectation::Error { .. } => self.abort(Failure::QuerySucceeded),
                    Expectation::Verified(verify) => {
                        self.phase = Phase::InCallback;
                        Action::VerifyRows { verify }
                    },
                },
                Event::QueryFailed { code, message } => match expectation {
                    Expectation::Error { code: expected_code, message: expected_message } => {
                        if error_matches(
                            &expected_code,
                            expected_message.as_str(),
                            &code,
                            message.as_str(),
                        ) {
                            self.pass(now_ms)
                        } else {
                            self.abort(
                                Failure::WrongError {
                                    expected_code,
                                    expected_message,
                                    code,
                                    message,
                                },
                            )
                        }
                    },
                    _ => self.abort(Failure::QueryFailed { code, message }),
                },
                _ => self.abort(Failure::UnexpectedEvent),
            },
            Phase::InCallback => match event {
                Event::Returned => self.pass(now_ms),
                _ => self.abort(Failure::UnexpectedEvent),
            },
            Phase::Done => {
                self.phase = Phase::Done;
                Action::Done
            },
            Phase::Aborted => Action::Abort { step: self.position, failure: Failure::Halted },
        }
    }
}

} // verus!
