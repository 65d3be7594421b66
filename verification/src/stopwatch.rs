use vstd::prelude::*;

verus! {

#[verifier::external_type_specification]
#[verifier::external_body]
pub struct ExInstant(std::time::Instant);

/// Measures the wall-clock duration of one pipeline step, in milliseconds.
/// Durations are diagnostic only: no contract of this library depends on
/// them.
pub struct Stopwatch {
    started: std::time::Instant,
}

impl Stopwatch {
    /// Relies on std::time::Instant::now.
    #[verifier::external_body]
    pub fn start() -> Stopwatch {
        Stopwatch { started: std::time::Instant::now() }
    }

    /// Relies on Instant::elapsed and Duration::as_millis: the milliseconds
    /// since the stopwatch was started.
    #[verifier::external_body]
    pub fn finish(self) -> u128 {
        self.started.elapsed().as_millis()
    }
}

} // verus!
