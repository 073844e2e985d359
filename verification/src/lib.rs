//! A step-by-step engine for end-to-end tests against an eventually consistent
//! data cluster.
//!
//! A test is an ordered list of [`Step`]s. The engine never talks to the cluster
//! itself: [`StepTest::run`] takes the cluster's reply to the previous request,
//! decides, and hands back the next request, the end of the run, or the first
//! failure. A driver performs the requests and feeds the replies back.
//!
//! What the engine does with each reply is written down once, over plain
//! values, in [`machine::Machine::transition`]; [`StepTest::run`] is proved to
//! do exactly that, and [`laws`] holds what follows for every run.
pub mod engine;
pub mod expect;
pub mod laws;
pub mod machine;
pub mod poll;
pub mod protocol;
pub mod rows;
pub mod state;
pub mod step;
pub mod text;

pub use engine::StepTest;
pub use poll::{elapsed_since, poll_decision, PollDecision, TICK_MS, TIMEOUT_MS};
pub use protocol::{metrics_url, Action, Awaited, Connection, Event, Failure, QueryLanguage,
    WRITE_ACCEPTED};
pub use state::StepTestState;
pub use step::Step;
