//! Sources of election timeouts.
use rand::Rng;
use std::time::Duration;
use vstd::prelude::*;

verus! {

/// Chooses the duration of the next election timer.
///
/// Implementations are free to draw it at random; `may_return` says which
/// durations can come out.
pub trait MachineRng {
    /// Whether `d` is a duration that [`Self::next_election_timeout`] may
    /// return; any duration, unless an implementation says less.
    open spec fn may_return(&self, d: Duration) -> bool {
        true
    }

    fn next_election_timeout(&self) -> (d: Duration)
        ensures
            self.may_return(d),
    ;
}

/// A boxed source draws as the source in the box.
impl MachineRng for Box<dyn MachineRng> {
    open spec fn may_return(&self, d: Duration) -> bool {
        (**self).may_return(d)
    }

    fn next_election_timeout(&self) -> (d: Duration) {
        (**self).next_election_timeout()
    }
}

/// What `Duration::from_millis` returns for a number of milliseconds.
pub uninterp spec fn duration_from_millis(millis: u64) -> Duration;

/// Calls `std::time::Duration::from_millis`; its result is the duration of
/// `millis` milliseconds, named by [`duration_from_millis`].
#[verifier::external_body]
fn millis_to_duration(millis: u64) -> (d: Duration)
    ensures
        d == duration_from_millis(millis),
{
    Duration::from_millis(millis)
}

/// The thread-local random generator of `rand`.
#[verifier::external_type_specification]
#[verifier::external_body]
pub struct ExThreadRng(rand::rngs::ThreadRng);

/// Calls `rand::rng`, which hands out the thread-local generator. Nothing is
/// promised of it.
#[verifier::external_body]
fn thread_rng() -> rand::rngs::ThreadRng {
    rand::rng()
}

/// Calls `rand::Rng::random_range` with the inclusive range `low..=high`.
/// The value is random; rand documents it to lie in the range, which is
/// non-empty by `requires` (an empty range panics).
#[verifier::external_body]
fn random_in_range(rng: &mut rand::rngs::ThreadRng, low: u64, high: u64) -> (r: u64)
    requires
        low <= high,
    ensures
        low <= r <= high,
{
    rng.random_range(low..=high)
}

/// Lowest number of milliseconds drawn for an election timeout.
pub const MIN_TIMEOUT_DRAW: u64 = 150;

/// Highest number of milliseconds drawn for an election timeout.
pub const MAX_TIMEOUT_DRAW: u64 = 300;

/// Generates a random duration of `constant + factor * n` milliseconds, where
/// `n` is drawn uniformly from `150..=300` (so `150..=300` milliseconds with
/// the default parameters).
///
/// Uses the thread-local generator of `rand`.
pub struct DefaultMachineRng {
    constant: u64,
    factor: u64,
}

/// Whether `constant + factor * n` fits in a `u64` for every draw `n`.
pub open spec fn params_fit(constant: u64, factor: u64) -> bool {
    constant + factor * MAX_TIMEOUT_DRAW <= u64::MAX
}

/// The timeout of `constant + factor * n` milliseconds.
pub open spec fn drawn_timeout(constant: u64, factor: u64, n: u64) -> Duration {
    duration_from_millis((constant + factor * n) as u64)
}

impl DefaultMachineRng {
    /// The constant number of milliseconds added to every draw.
    pub closed spec fn constant(&self) -> u64 {
        self.constant
    }

    /// The factor that every draw is multiplied with.
    pub closed spec fn factor(&self) -> u64 {
        self.factor
    }

    #[verifier::type_invariant]
    spec fn fits(&self) -> bool {
        params_fit(self.constant, self.factor)
    }

    /// The generator of `150..=300` milliseconds.
    pub fn new() -> (r: DefaultMachineRng)
        ensures
            r.constant() == 0,
            r.factor() == 1,
    {
        DefaultMachineRng { constant: 0, factor: 1 }
    }

    /// The generator of `constant + factor * n` milliseconds, with `n` in
    /// `150..=300`. The largest such duration must fit in a `u64`.
    pub fn with_params(constant: u64, factor: u64) -> (r: DefaultMachineRng)
        requires
            params_fit(constant, factor),
        ensures
            r.constant() == constant,
            r.factor() == factor,
    {
        DefaultMachineRng { constant, factor }
    }
}

impl Default for DefaultMachineRng {
    fn default() -> (r: Self)
        ensures
            r.constant() == 0,
            r.factor() == 1,
    {
        Self::new()
    }
}

/// The timeout for the draw `n`: `constant + factor * n` milliseconds.
pub fn timeout_for_draw(constant: u64, factor: u64, n: u64) -> (d: Duration)
    requires
        params_fit(constant, factor),
        n <= MAX_TIMEOUT_DRAW,
    ensures
        d == drawn_timeout(constant, factor, n),
{
    assert(factor * n <= factor * MAX_TIMEOUT_DRAW) by (nonlinear_arith)
        requires
            n <= MAX_TIMEOUT_DRAW,
    ;
    millis_to_duration(constant + factor * n)
}

impl MachineRng for DefaultMachineRng {
    /// Some draw `n` in `150..=300` gives `d`.
    open spec fn may_return(&self, d: Duration) -> bool {
        exists|n: u64|
            MIN_TIMEOUT_DRAW <= n <= MAX_TIMEOUT_DRAW && d == #[trigger] drawn_timeout(
                self.constant(),
                self.factor(),
                n,
            )
    }

    fn next_election_timeout(&self) -> (d: Duration) {
        proof {
            use_type_invariant(self);
        }
        let mut rng = thread_rng();
        let n = random_in_range(&mut rng, MIN_TIMEOUT_DRAW, MAX_TIMEOUT_DRAW);
        let d = timeout_for_draw(self.constant, self.factor, n);
        assert(d == drawn_timeout(self.constant(), self.factor(), n));
        d
    }
}

} // verus!
