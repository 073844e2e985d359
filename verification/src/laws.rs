//! What holds of every run of the engine.
use crate::expect::{is_expected_error, lemma_surrounded_message_matches};
use crate::machine::{lemma_begin_ignores_phase, ExpectationView, Machine, PhaseView};
use crate::poll::{elapsed_between, lemma_poll_decision_bounds, lemma_wait_times_out,
    poll_decision_spec, rests_honoured, TICK_MS, TIMEOUT_MS};
use crate::protocol::{ActionView, EventView, FailureView};
use crate::rows::{lemma_same_rows_by_sorting, same_rows, sorted_rows};
use crate::state::{count_or_zero, StateView};
use crate::text::contains_text;
use vstd::prelude::*;

verus! {

/// One report of the driver: when it came, and what it said.
pub struct Report {
    pub now_ms: u64,
    pub event: EventView,
}

impl<C, Q, M, F> Machine<C, Q, M, F> {
    /// The machine after the driver has made these reports, in order.
    pub open spec fn after(self, reports: Seq<Report>) -> Self
        decreases reports.len(),
    {
        if reports.len() == 0 {
            self
        } else {
            self.transition(reports[0].now_ms, reports[0].event).0.after(reports.drop_first())
        }
    }

    /// The step at hand is a wait on the write tokens, or a step at which the
    /// run begins such a wait.
    pub open spec fn begins_with_wait(self) -> bool {
        self.pending.len() > 0 && (self.pending[0] is WaitForReadable || self.pending[0] is WaitForPersisted
            || self.pending[0] is WaitForPersistedAccordingToIngester)
    }

    /// Report `t` of `reports`, made to this machine, answered the wait of the
    /// step at hand on the token with index `k`: the token had what was awaited,
    /// within its budget.
    pub open spec fn token_confirmed_at(self, reports: Seq<Report>, t: int, k: nat) -> bool {
        let before = self.after(reports.take(t));
        &&& 0 <= t < reports.len()
        &&& before.position == self.position
        &&& before.tokens() == self.tokens()
        &&& before.phase matches PhaseView::Polling { index, started_ms, .. }
        &&& index == k
        &&& reports[t].event == EventView::Checked { holds: true }
        &&& elapsed_between(started_ms, reports[t].now_ms) <= TIMEOUT_MS
    }
}

/// Beginning the pending steps leaves the machine sound, takes steps from the
/// front of the list only, and neither changes the state nor goes back.
pub proof fn lemma_begin_keeps_order<C, Q, M, F>(machine: Machine<C, Q, M, F>, now_ms: u64)
    ensures
        machine.begin(now_ms).0.wf(),
        machine.begin(now_ms).0.state == machine.state,
        machine.begin(now_ms).0.position >= machine.position,
        machine.begin(now_ms).0.position + machine.begin(now_ms).0.pending.len()
            <= machine.position + machine.pending.len(),
        machine.begin(now_ms).0.pending == machine.pending.skip(
            machine.pending.len() - machine.begin(now_ms).0.pending.len(),
        ),
    decreases machine.pending.len(),
{
    if machine.pending.len() > 0 {
        let passed = Machine {
            position: machine.position + 1,
            pending: machine.pending.drop_first(),
            ..machine
        };
        lemma_begin_keeps_order(passed, now_ms);
        let rest = machine.begin(now_ms).0.pending;
        assert(machine.pending.drop_first() =~= machine.pending.skip(1));
        assert(machine.pending.skip(1).skip(machine.pending.len() - 1 - rest.len())
            =~= machine.pending.skip(machine.pending.len() - rest.len()));
    } else {
        assert(machine.pending =~= machine.pending.skip(0));
    }
}

/// Every reply leaves the machine sound. The steps run strictly in order: the
/// list of pending steps only ever loses steps at its front, and the index of
/// the step at hand never goes back. The engine leaves the cluster alone. The
/// write tokens are only ever appended to, one for each write that was
/// accepted, and the recorded count of Parquet files only changes in a step
/// that records it or waits for it to rise.
pub proof fn lemma_transition_keeps_order<C, Q, M, F>(
    machine: Machine<C, Q, M, F>,
    now_ms: u64,
    event: EventView,
)
    requires
        machine.wf(),
    ensures
        machine.transition(now_ms, event).0.wf(),
        machine.transition(now_ms, event).0.position >= machine.position,
        machine.transition(now_ms, event).0.pending == machine.pending.skip(
            machine.pending.len() - machine.transition(now_ms, event).0.pending.len(),
        ),
        machine.transition(now_ms, event).0.state.cluster == machine.state.cluster,
        machine.transition(now_ms, event).0.state.num_parquet_files
            == machine.state.num_parquet_files || machine.phase is Recording || machine.phase
            is CountPolling,
        machine.transition(now_ms, event).0.tokens() == machine.tokens() || (machine.phase is Writing
            && event is Written && machine.transition(now_ms, event).0.tokens()
            == machine.tokens().push(event->Written_token)),
{
    assert(machine.pending =~= machine.pending.skip(0));
    // the run begins, or the step at hand passes, with the state as it is
    lemma_begin_keeps_order(machine, now_ms);
    lemma_begin_keeps_order(Machine { position: machine.position + 1, ..machine }, now_ms);
    // or the step at hand passes with what the reply adds to the state
    match event {
        EventView::Written { status, token } => {
            let state = StateView { write_tokens: machine.tokens().push(token), ..machine.state };
            lemma_begin_keeps_order(
                Machine { position: machine.position + 1, ..machine.with_state(state) },
                now_ms,
            );
        },
        EventView::Counted { count } => {
            let state = StateView {
                num_parquet_files: Some(count_or_zero(count)),
                ..machine.state
            };
            lemma_begin_keeps_order(
                Machine { position: machine.position + 1, ..machine.with_state(state) },
                now_ms,
            );
        },
        _ => {},
    }
}

/// A run that is over stays as it is: whatever is reported, nothing more is
/// asked of the cluster, and no later step runs.
pub proof fn lemma_finished_run_stays<C, Q, M, F>(machine: Machine<C, Q, M, F>, reports: Seq<Report>)
    requires
        machine.finished(),
    ensures
        machine.after(reports) == machine,
        forall|now_ms: u64, event: EventView|
            machine.phase is Done ==> #[trigger] machine.transition(now_ms, event)
                == (machine, ActionView::<Q, M, F>::Done),
        forall|now_ms: u64, event: EventView|
            machine.phase is Aborted ==> #[trigger] machine.transition(now_ms, event) == (
                machine,
                ActionView::<Q, M, F>::Abort { step: machine.position, failure: FailureView::Halted },
            ),
    decreases reports.len(),
{
    if reports.len() > 0 {
        lemma_finished_run_stays(machine, reports.drop_first());
    }
}

/// A run comes to a wait on the write tokens with the first token, when there is
/// one: every token will have its turn.
pub proof fn lemma_wait_begins_with_first_token<C, Q, M, F>(
    machine: Machine<C, Q, M, F>,
    now_ms: u64,
)
    requires
        machine.begins_with_wait(),
        machine.tokens().len() > 0,
    ensures
        machine.begin(now_ms).0.phase matches PhaseView::Polling { index, started_ms, .. } && index
            == 0 && started_ms == now_ms,
        machine.begin(now_ms).0.position == machine.position,
        machine.begin(now_ms).0.tokens() == machine.tokens(),
        machine.begin(now_ms).1 matches ActionView::Poll { token, .. } && token
            == machine.tokens()[0],
{
}

/// A wait on the write tokens asks after every token by itself: if the step
/// passes, then for each token from the one at hand on, some reply said that
/// this very token had what was awaited, within the token's budget.
pub proof fn lemma_wait_confirms_every_token<C, Q, M, F>(
    machine: Machine<C, Q, M, F>,
    reports: Seq<Report>,
    k: nat,
)
    requires
        machine.wf(),
        machine.phase matches PhaseView::Polling { index, .. } && index <= k,
        k < machine.tokens().len(),
        machine.after(reports).position > machine.position,
    ensures
        exists|t: int| #[trigger] machine.token_confirmed_at(reports, t, k),
    decreases reports.len(),
{
    if reports.len() == 0 {
    } else {
        let first = reports[0];
        let rest = reports.drop_first();
        let next = machine.transition(first.now_ms, first.event).0;
        lemma_transition_keeps_order(machine, first.now_ms, first.event);
        assert(reports.take(0) =~= Seq::<Report>::empty());
        assert(machine.after(reports.take(0)) == machine);
        assert(machine.after(reports) == next.after(rest));
        lemma_begin_keeps_order(
            Machine { position: machine.position + 1, ..machine },
            first.now_ms,
        );
        if next.phase is Aborted {
            lemma_finished_run_stays(next, rest);
        } else {
            let index = machine.phase->Polling_index;
            let started_ms = machine.phase->Polling_started_ms;
            let holds = first.event->Checked_holds;
            lemma_poll_decision_bounds(elapsed_between(started_ms, first.now_ms), holds);
            if next.position == machine.position && next.phase is Polling && next.phase->Polling_index
                <= k {
                lemma_wait_confirms_every_token(next, rest, k);
                let t = choose|t: int| #[trigger] next.token_confirmed_at(rest, t, k);
                assert(reports.take(t + 1).drop_first() =~= rest.take(t));
                assert(reports.take(t + 1)[0] == first);
                assert(machine.after(reports.take(t + 1)) == next.after(rest.take(t)));
                assert(reports[t + 1] == rest[t]);
                assert(machine.token_confirmed_at(reports, t + 1, k));
            } else {
                assert(index == k);
                assert(machine.token_confirmed_at(reports, 0, k));
            }
        }
    }
}

/// Of any number of writes followed by a wait on them, every token is asked
/// after by itself: if the wait passes, each token was confirmed by a reply of
/// its own.
pub proof fn lemma_wait_step_confirms_every_token<C, Q, M, F>(
    machine: Machine<C, Q, M, F>,
    now_ms: u64,
    reports: Seq<Report>,
    k: nat,
)
    requires
        machine.begins_with_wait(),
        k < machine.tokens().len(),
        machine.begin(now_ms).0.after(reports).position > machine.position,
    ensures
        exists|t: int| #[trigger] machine.begin(now_ms).0.token_confirmed_at(reports, t, k),
{
    lemma_wait_begins_with_first_token(machine, now_ms);
    lemma_begin_keeps_order(machine, now_ms);
    lemma_wait_confirms_every_token(machine.begin(now_ms).0, reports, k);
}

/// A token that does not get what is awaited within its budget fails the run,
/// and the failure names that token, what was awaited of it and where.
pub proof fn lemma_timeout_names_token<C, Q, M, F>(
    machine: Machine<C, Q, M, F>,
    now_ms: u64,
    holds: bool,
)
    requires
        machine.phase is Polling,
        poll_decision_spec(elapsed_between(machine.phase->Polling_started_ms, now_ms), holds)
            is TimedOut,
    ensures
        machine.transition(now_ms, EventView::Checked { holds }) == (
            machine.in_phase(PhaseView::Aborted),
            ActionView::<Q, M, F>::Abort {
                step: machine.position,
                failure: FailureView::TimedOut {
                    awaited: machine.phase->Polling_awaited,
                    connection: machine.phase->Polling_connection,
                    token: machine.tokens()[machine.phase->Polling_index as int],
                },
            },
        ),
{
}

/// A token that never gets what is awaited fails the run at the step of the
/// wait: while no reply confirms the token at hand, the step does not pass and
/// the wait does not go on to another token, and a reply that comes when the
/// budget is spent aborts the run.
pub proof fn lemma_wait_on_unconfirmed_token_fails<C, Q, M, F>(
    machine: Machine<C, Q, M, F>,
    reports: Seq<Report>,
)
    requires
        machine.phase is Polling,
        forall|t: int|
            0 <= t < reports.len() ==> #[trigger] reports[t].event != (EventView::Checked {
                holds: true,
            }),
    ensures
        machine.after(reports).position == machine.position,
        machine.after(reports).state == machine.state,
        machine.after(reports).phase == machine.phase || machine.after(reports).phase is Aborted,
        (exists|t: int|
            0 <= t < reports.len() && elapsed_between(
                machine.phase->Polling_started_ms,
                #[trigger] reports[t].now_ms,
            ) >= TIMEOUT_MS) ==> machine.after(reports).phase is Aborted,
    decreases reports.len(),
{
    if reports.len() > 0 {
        let first = reports[0];
        let rest = reports.drop_first();
        let next = machine.transition(first.now_ms, first.event).0;
        assert(first.event != EventView::Checked { holds: true });
        if next.phase is Aborted {
            lemma_finished_run_stays(next, rest);
        } else {
            assert(next == machine);
            assert forall|t: int| 0 <= t < rest.len() implies #[trigger] rest[t].event != (
            EventView::Checked { holds: true }) by {
                assert(rest[t] == reports[t + 1]);
            }
            lemma_wait_on_unconfirmed_token_fails(next, rest);
            if exists|t: int|
                0 <= t < reports.len() && elapsed_between(
                    machine.phase->Polling_started_ms,
                    #[trigger] reports[t].now_ms,
                ) >= TIMEOUT_MS {
                let t = choose|t: int|
                    0 <= t < reports.len() && elapsed_between(
                        machine.phase->Polling_started_ms,
                        #[trigger] reports[t].now_ms,
                    ) >= TIMEOUT_MS;
                assert(t > 0);
                assert(rest[t - 1] == reports[t]);
            }
        }
    }
}

/// An assertion about the last write, when nothing was written, fails the run
/// at once, at that step, whatever the cluster would have said: the cluster is
/// not asked.
pub proof fn lemma_assert_last_needs_a_write<C, Q, M, F>(
    machine: Machine<C, Q, M, F>,
    now_ms: u64,
)
    requires
        machine.pending.len() > 0,
        machine.pending[0] is AssertLastNotPersisted,
        machine.tokens().len() == 0,
    ensures
        machine.begin(now_ms).1 == (ActionView::<Q, M, F>::Abort {
            step: machine.position,
            failure: FailureView::NoDataWritten,
        }),
        machine.begin(now_ms).0.phase is Aborted,
        machine.begin(now_ms).0.position == machine.position,
{
}

/// The reports do not show more Parquet files than `recorded`.
pub open spec fn no_new_files(reports: Seq<Report>, recorded: usize) -> bool {
    forall|t: int|
        0 <= t < reports.len() ==> (#[trigger] reports[t].event matches EventView::Counted { count }
            ==> count_or_zero(count) <= recorded)
}

/// The wait for new Parquet files wants strictly more files than were
/// recorded: while the catalog shows no more than that, the step never
/// passes and records nothing, and a reply that comes when the budget is
/// spent fails the run.
pub proof fn lemma_wait_without_new_files_fails<C, Q, M, F>(
    machine: Machine<C, Q, M, F>,
    reports: Seq<Report>,
    recorded: usize,
)
    requires
        machine.phase is CountPolling,
        machine.state.num_parquet_files == Some(recorded),
        no_new_files(reports, recorded),
    ensures
        machine.after(reports).position == machine.position,
        machine.after(reports).state == machine.state,
        machine.after(reports).phase == machine.phase || machine.after(reports).phase is Aborted,
        (exists|t: int|
            0 <= t < reports.len() && elapsed_between(
                machine.phase->CountPolling_started_ms,
                #[trigger] reports[t].now_ms,
            ) >= TIMEOUT_MS) ==> machine.after(reports).phase is Aborted,
    decreases reports.len(),
{
    if reports.len() > 0 {
        let first = reports[0];
        let rest = reports.drop_first();
        let next = machine.transition(first.now_ms, first.event).0;
        assert(first.event matches EventView::Counted { count } ==> count_or_zero(count)
            <= recorded);
        if next.phase is Aborted {
            lemma_finished_run_stays(next, rest);
        } else {
            assert(next == machine);
            assert forall|t: int| 0 <= t < rest.len() implies (#[trigger] rest[t].event matches EventView::Counted {
                count,
            } ==> count_or_zero(count) <= recorded) by {
                assert(rest[t] == reports[t + 1]);
            }
            lemma_wait_without_new_files_fails(next, rest, recorded);
            if exists|t: int|
                0 <= t < reports.len() && elapsed_between(
                    machine.phase->CountPolling_started_ms,
                    #[trigger] reports[t].now_ms,
                ) >= TIMEOUT_MS {
                let t = choose|t: int|
                    0 <= t < reports.len() && elapsed_between(
                        machine.phase->CountPolling_started_ms,
                        #[trigger] reports[t].now_ms,
                    ) >= TIMEOUT_MS;
                assert(t > 0);
                assert(rest[t - 1] == reports[t]);
            }
        }
    }
}

/// How far into a wait that began at `started_ms` each report came.
pub open spec fn elapsed_at(reports: Seq<Report>, started_ms: u64) -> Seq<u64> {
    Seq::new(reports.len(), |t: int| elapsed_between(started_ms, reports[t].now_ms))
}

/// Recording the number of Parquet files and waiting at once for it to rise,
/// with no new data in between, must time out: when the catalog never shows
/// more files than were recorded and the driver rests as asked, the run is
/// aborted at the step of the wait with the reply after `TIMEOUT_MS / TICK_MS`
/// rests, at the latest.
pub proof fn lemma_wait_without_new_files_times_out<C, Q, M, F>(
    machine: Machine<C, Q, M, F>,
    reports: Seq<Report>,
    recorded: usize,
)
    requires
        machine.phase is CountPolling,
        machine.state.num_parquet_files == Some(recorded),
        no_new_files(reports, recorded),
        rests_honoured(elapsed_at(reports, machine.phase->CountPolling_started_ms)),
        reports.len() > TIMEOUT_MS / TICK_MS,
    ensures
        machine.after(reports).phase is Aborted,
        machine.after(reports).position == machine.position,
        machine.after(reports).state == machine.state,
{
    let started_ms = machine.phase->CountPolling_started_ms;
    let elapsed = elapsed_at(reports, started_ms);
    let k = (TIMEOUT_MS / TICK_MS) as int;
    lemma_wait_times_out(elapsed, k);
    let j = choose|j: int| 0 <= j <= k && #[trigger] elapsed[j] >= TIMEOUT_MS;
    assert(elapsed_between(started_ms, reports[j].now_ms) >= TIMEOUT_MS);
    lemma_wait_without_new_files_fails(machine, reports, recorded);
}

/// A query is judged by its rows whatever their order: it passes exactly when
/// the rows that came back are the expected rows, each as often, so that
/// expectations written in another order are met by the same results.
pub proof fn lemma_query_ignores_row_order<C, Q, M, F>(
    machine: Machine<C, Q, M, F>,
    now_ms: u64,
    expected: Seq<Seq<char>>,
    rearranged: Seq<Seq<char>>,
    rows: Seq<Seq<char>>,
)
    requires
        same_rows(expected, rearranged),
        machine.phase == (PhaseView::<Q>::Querying { expectation: ExpectationView::Rows(expected) }),
    ensures
        same_rows(expected, rows) <==> machine.transition(now_ms, EventView::Rows { rows })
            == machine.pass(now_ms),
        !same_rows(expected, rows) ==> machine.transition(now_ms, EventView::Rows { rows })
            == machine.abort(
            FailureView::RowsDiffer {
                expected: sorted_rows(expected),
                actual: sorted_rows(rows),
            },
        ),
        machine.in_phase(
            PhaseView::Querying { expectation: ExpectationView::Rows(rearranged) },
        ).transition(now_ms, EventView::Rows { rows }) == machine.transition(
            now_ms,
            EventView::Rows { rows },
        ),
{
    lemma_begin_keeps_order(Machine { position: machine.position + 1, ..machine }, now_ms);
    lemma_begin_ignores_phase(
        machine,
        PhaseView::Querying { expectation: ExpectationView::Rows(rearranged) },
        now_ms,
    );
    lemma_same_rows_by_sorting(expected, rearranged);
}

/// A query that is expected to fail passes exactly when it fails with the
/// expected code and a message that holds the expected text, whatever else
/// the message holds. With another code, or without that text, the step fails;
/// so it does when the query succeeds.
pub proof fn lemma_expected_error_decides<C, Q, M, F>(
    machine: Machine<C, Q, M, F>,
    now_ms: u64,
    expected_code: tonic::Code,
    expected_message: Seq<char>,
    code: tonic::Code,
    message: Seq<char>,
    rows: Seq<Seq<char>>,
    before: Seq<char>,
    after: Seq<char>,
)
    requires
        machine.phase == (PhaseView::<Q>::Querying {
            expectation: ExpectationView::Error { code: expected_code, message: expected_message },
        }),
    ensures
        is_expected_error(expected_code, expected_message, code, message) ==> machine.transition(
            now_ms,
            EventView::QueryFailed { code, message },
        ) == machine.pass(now_ms),
        !is_expected_error(expected_code, expected_message, code, message) ==> machine.transition(
            now_ms,
            EventView::QueryFailed { code, message },
        ) == machine.abort(
            FailureView::WrongError { expected_code, expected_message, code, message },
        ),
        !contains_text(message, expected_message) ==> machine.transition(
            now_ms,
            EventView::QueryFailed { code: expected_code, message },
        ).1 is Abort,
        machine.transition(
            now_ms,
            EventView::QueryFailed {
                code: expected_code,
                message: before + expected_message + after,
            },
        ) == machine.pass(now_ms),
        machine.transition(now_ms, EventView::Rows { rows }) == machine.abort(
            FailureView::QuerySucceeded,
        ),
{
    lemma_surrounded_message_matches(expected_code, expected_message, before, after);
}

} // verus!
