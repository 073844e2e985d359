//! The state that is threaded through the steps of a test.
use crate::poll::{poll_decision, poll_decision_spec, PollDecision};
use crate::text::texts;
use vstd::prelude::*;

verus! {

/// The state that is handed from step to step, and to custom steps.
///
/// `C` is the handle to the cluster under test. This library only carries it.
pub struct StepTestState<C> {
    /// The cluster under test.
    cluster: C,
    /// The tokens of all data written so far, oldest first.
    write_tokens: Vec<String>,
    /// How many Parquet files the catalog had for the cluster's namespace when
    /// it was last asked; `None` until it is asked for the first time.
    num_parquet_files: Option<usize>,
}

/// What a [`StepTestState`] holds.
pub struct StateView<C> {
    pub cluster: C,
    pub write_tokens: Seq<Seq<char>>,
    pub num_parquet_files: Option<usize>,
}

impl<C> View for StepTestState<C> {
    type V = StateView<C>;

    closed spec fn view(&self) -> StateView<C> {
        StateView {
            cluster: self.cluster,
            write_tokens: texts(self.write_tokens@),
            num_parquet_files: self.num_parquet_files,
        }
    }
}

/// The count that a reply of the catalog stands for: a catalog that could not
/// be asked counts as one without files.
pub open spec fn count_or_zero(sampled: Option<usize>) -> usize {
    match sampled {
        Some(count) => count,
        None => 0,
    }
}

/// `current` is more than what was recorded. Before the first recording every
/// count is more.
pub open spec fn count_increased(recorded: Option<usize>, current: usize) -> bool {
    match recorded {
        Some(count) => current > count,
        None => true,
    }
}

impl<C> StepTestState<C> {
    /// The state at the start of a test: nothing written, nothing recorded.
    pub(crate) fn new(cluster: C) -> (state: Self)
        ensures
            state@ == (StateView {
                cluster,
                write_tokens: Seq::<Seq<char>>::empty(),
                num_parquet_files: None,
            }),
    {
        let state = StepTestState { cluster, write_tokens: Vec::new(), num_parquet_files: None };
        assert(texts(state.write_tokens@) =~= Seq::<Seq<char>>::empty());
        state
    }

    /// Get a reference to the step test state's cluster.
    #[must_use]
    pub fn cluster(&self) -> (cluster: &C)
        ensures
            *cluster == self@.cluster,
    {
        &self.cluster
    }

    /// Get a mutable reference to the step test state's cluster. Nothing but
    /// the cluster can change through it.
    #[must_use]
    pub fn cluster_mut(&mut self) -> (cluster: &mut C)
        ensures
            *cluster == old(self)@.cluster,
            final(self)@ == (StateView { cluster: *final(cluster), ..old(self)@ }),
    {
        &mut self.cluster
    }

    /// Get a reference to the step test state's write tokens, oldest first.
    #[must_use]
    pub fn write_tokens(&self) -> (tokens: &[String])
        ensures
            texts(tokens@) == self@.write_tokens,
    {
        self.write_tokens.as_slice()
    }

    /// The count of Parquet files that was recorded last, if any was.
    #[must_use]
    pub fn num_parquet_files(&self) -> (recorded: Option<usize>)
        ensures
            recorded == self@.num_parquet_files,
    {
        self.num_parquet_files
    }

    /// Appends the token of a write that succeeded.
    pub(crate) fn record_write_token(&mut self, token: String)
        ensures
            final(self)@ == (StateView {
                write_tokens: old(self)@.write_tokens.push(token@),
                ..old(self)@
            }),
    {
        self.write_tokens.push(token);
        assert(texts(self.write_tokens@) =~= texts(old(self).write_tokens@).push(token@));
    }

    /// Store the number of Parquet files the catalog has for the cluster's
    /// namespace, as it was just sampled: `None` when the catalog could not be
    /// asked, which is recorded as no files. Call this before a write to be
    /// able to tell when the write has been persisted by a change in this count.
    pub fn record_num_parquet_files(&mut self, sampled: Option<usize>)
        ensures
            final(self)@ == (StateView {
                num_parquet_files: Some(count_or_zero(sampled)),
                ..old(self)@
            }),
    {
        let count: usize = match sampled {
            Some(count) => count,
            None => 0,
        };
        self.num_parquet_files = Some(count);
    }

    /// One attempt of the wait for a change in the number of Parquet files
    /// since it was last recorded, which shows that data has been persisted.
    ///
    /// `sampled` is what the catalog just said, `elapsed_ms` the time since the
    /// wait began. The wait succeeds when the count is more than the recorded
    /// one, and then records the new count; otherwise nothing changes.
    pub fn wait_for_num_parquet_file_change(&mut self, elapsed_ms: u64, sampled: Option<usize>) -> (decision:
        PollDecision)
        ensures
            decision == poll_decision_spec(
                elapsed_ms,
                count_increased(old(self)@.num_parquet_files, count_or_zero(sampled)),
            ),
            final(self)@ == if decision is Succeeded {
                StateView { num_parquet_files: Some(count_or_zero(sampled)), ..old(self)@ }
            } else {
                old(self)@
            },
    {
        let current: usize = match sampled {
            Some(count) => count,
            None => 0,
        };
        let increased: bool = match self.num_parquet_files {
            Some(count) => current > count,
            None => true,
        };
        let decision = poll_decision(elapsed_ms, increased);
        if let PollDecision::Succeeded = decision {
            self.num_parquet_files = Some(current);
        }
        decision
    }
}

} // verus!
