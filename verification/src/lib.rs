//! Small timing utilities: a stopwatch, a countdown, a running average of
//! measured intervals and a set of named timers for benchmarking.
//!
//! Every span of time is a [`Duration`], a whole number of nanoseconds.
//!
//! What the clock returns is known to no contract. An operation that stores
//! a clock reading (`new`, `reset`, `start`) has a companion that takes the
//! reading as an argument (`starting_at`, `reset_at`, `start_at`); one that
//! acts on a measured span (`remaining`, `is_finished`, `stop`) has a
//! companion that takes the span (`remaining_after`, `is_finished_after`,
//! `finish`). The contracts of the companions are exact. `elapsed` has no
//! companion: its result is the span from the stored start to some reading,
//! stated over `clock::span_between`.

pub mod average;
pub mod benchmark;
pub mod clock;
pub mod countdown;
pub mod duration;
pub mod report;
pub mod stopwatch;

pub use average::AverageTimer;
pub use average::Tally;
pub use benchmark::BenchmarkError;
pub use benchmark::BenchmarkTimer;
pub use countdown::CountdownTimer;
pub use duration::Duration;
pub use stopwatch::Timer;
