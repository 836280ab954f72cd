//! Bounded retry with Fibonacci backoff, as a state machine.
//!
//! The caller runs the operation and sleeps; [`RetryState`] decides, after
//! each failure, whether to try again and how long to wait first. Delays are
//! whole nanoseconds.

use vstd::prelude::*;

verus! {

/// The longest delay that fits in a `std::time::Duration`, in nanoseconds:
/// `u64::MAX` seconds and 999,999,999 nanoseconds.
pub const MAX_DELAY_NANOS: u128 = 18_446_744_073_709_551_615_999_999_999;

/// The backoff multipliers `1, 1, 2, 3, 5, 8, ...`: the first two are one and
/// each later one is the sum of the two before it.
pub open spec fn fib(n: nat) -> nat
    decreases n,
{
    if n <= 1 {
        1
    } else {
        fib((n - 1) as nat) + fib((n - 2) as nat)
    }
}

/// The wait before retry number `i + 1` when the initial delay is `d`.
pub open spec fn delay_at(d: nat, i: nat) -> nat {
    d * fib(i)
}

/// The sum of the first `k` waits when the initial delay is `d`.
pub open spec fn total_wait(d: nat, k: nat) -> nat
    decreases k,
{
    if k == 0 {
        0
    } else {
        total_wait(d, (k - 1) as nat) + delay_at(d, (k - 1) as nat)
    }
}

/// What a [`RetryState`] stands for: the policy it was made with and the
/// number of retries already granted.
pub struct RetryView {
    pub initial_delay: nat,
    pub max_retries: nat,
    pub retries: nat,
}

impl RetryView {
    /// Whether one more failure is answered with a retry.
    pub open spec fn will_retry(self) -> bool {
        self.retries < self.max_retries
    }

    /// The answer to a failure in this state.
    pub open spec fn action(self) -> RetryAction {
        if self.will_retry() {
            RetryAction::Retry {
                delay: delay_at(self.initial_delay, self.retries) as u128,
                attempt: (self.retries + 1) as usize,
            }
        } else {
            RetryAction::GiveUp
        }
    }

    /// The state that follows a failure in this state.
    pub open spec fn after_failure(self) -> RetryView {
        if self.will_retry() {
            RetryView { retries: self.retries + 1, ..self }
        } else {
            self
        }
    }

    /// Whether the delay pair of the following state can be stored. A retry
    /// advances the pair, so the delay two steps ahead has to fit.
    pub open spec fn next_delay_fits(self) -> bool {
        delay_at(self.initial_delay, self.retries + 2) <= MAX_DELAY_NANOS
    }
}

/// The decision taken after a failed attempt.
#[derive(Clone, Copy, Debug, PartialEq, Eq, Structural)]
pub enum RetryAction {
    /// Wait `delay` nanoseconds, then run the operation again. `attempt` is
    /// the number of this retry, counted from one.
    Retry { delay: u128, attempt: usize },
    /// The budget is spent: hand the last error to the caller.
    GiveUp,
}

/// The retry budget and the current position in the backoff schedule.
#[derive(Clone, Copy, Debug)]
pub struct RetryState {
    initial_delay: u128,
    max_retries: usize,
    retries: usize,
    current: u128,
    next: u128,
}

impl View for RetryState {
    type V = RetryView;

    closed spec fn view(&self) -> RetryView {
        RetryView {
            initial_delay: self.initial_delay as nat,
            max_retries: self.max_retries as nat,
            retries: self.retries as nat,
        }
    }
}

impl RetryState {
    #[verifier::type_invariant]
    closed spec fn inv(self) -> bool {
        &&& self.retries <= self.max_retries
        &&& self.current == delay_at(self.initial_delay as nat, self.retries as nat)
        &&& self.next == delay_at(self.initial_delay as nat, self.retries as nat + 1)
        &&& self.next <= MAX_DELAY_NANOS
    }

    /// Starts a schedule with no retry granted yet.
    pub fn new(initial_delay: u128, max_retries: usize) -> (state: RetryState)
        requires
            initial_delay <= MAX_DELAY_NANOS,
        ensures
            state@ == (RetryView {
                initial_delay: initial_delay as nat,
                max_retries: max_retries as nat,
                retries: 0,
            }),
    {
        proof {
            reveal_with_fuel(fib, 2);
            assert(initial_delay as nat * 1 == initial_delay as nat) by (nonlinear_arith);
        }
        RetryState { initial_delay, max_retries, retries: 0, current: initial_delay, next: initial_delay }
    }

    /// The number of retries granted so far.
    pub fn retries(&self) -> (n: usize)
        ensures
            n == self@.retries,
    {
        self.retries
    }

    /// The largest number of retries this schedule grants.
    pub fn max_retries(&self) -> (n: usize)
        ensures
            n == self@.max_retries,
    {
        self.max_retries
    }

    /// The delay before the next retry, in nanoseconds.
    pub fn current_delay(&self) -> (delay: u128)
        ensures
            delay == delay_at(self@.initial_delay, self@.retries),
            delay <= MAX_DELAY_NANOS,
    {
        proof {
            use_type_invariant(self);
            lemma_delay_monotonic(
                self.initial_delay as nat,
                self.retries as nat,
                self.retries as nat + 1,
            );
        }
        self.current
    }

    /// Whether `on_failure` may be called: either it will give up, or the
    /// delay pair of the following state can be stored.
    pub fn can_advance(&self) -> (ok: bool)
        ensures
            ok == (self@.will_retry() ==> self@.next_delay_fits()),
    {
        proof {
            use_type_invariant(self);
            lemma_delay_step(self.initial_delay as nat, self.retries as nat);
        }
        self.retries >= self.max_retries || self.current <= MAX_DELAY_NANOS - self.next
    }

    /// Records a failed attempt and decides what follows.
    ///
    /// While the budget lasts the answer is a retry after the current delay,
    /// and the schedule moves one step along the Fibonacci recurrence. Once
    /// the budget is spent the answer is to give up, and nothing changes.
    pub fn on_failure(&mut self) -> (action: RetryAction)
        requires
            old(self)@.will_retry() ==> old(self)@.next_delay_fits(),
        ensures
            action == old(self)@.action(),
            final(self)@ == old(self)@.after_failure(),
    {
        proof {
            use_type_invariant(&*self);
            lemma_delay_step(self.initial_delay as nat, self.retries as nat);
            lemma_delay_step(self.initial_delay as nat, self.retries as nat + 1);
            lemma_delay_monotonic(self.initial_delay as nat, self.retries as nat, self.retries as nat + 1);
        }
        if self.retries < self.max_retries {
            let delay = self.current;
            let sum = self.current + self.next;
            let state = RetryState {
                initial_delay: self.initial_delay,
                max_retries: self.max_retries,
                retries: self.retries + 1,
                current: self.next,
                next: sum,
            };
            *self = state;
            RetryAction::Retry { delay, attempt: self.retries }
        } else {
            RetryAction::GiveUp
        }
    }
}

/// Each delay is the sum of the two before it.
pub proof fn lemma_delay_step(d: nat, i: nat)
    ensures
        delay_at(d, i + 2) == delay_at(d, i) + delay_at(d, i + 1),
{
    assert(fib(i + 2) == fib(i) + fib(i + 1)) by {
        assert((i + 2 - 1) as nat == i + 1);
        assert((i + 2 - 2) as nat == i);
    }
    assert(d * (fib(i) + fib(i + 1)) == d * fib(i) + d * fib(i + 1)) by (nonlinear_arith);
}

/// The multipliers never shrink.
pub proof fn lemma_fib_monotonic(i: nat, j: nat)
    requires
        i <= j,
    ensures
        1 <= fib(i) <= fib(j),
    decreases j,
{
    if j <= 1 {
    } else if i == j {
        lemma_fib_monotonic(0, (j - 1) as nat);
    } else {
        lemma_fib_monotonic(i, (j - 1) as nat);
        lemma_fib_monotonic(0, (j - 2) as nat);
    }
}

/// The delays never shrink.
pub proof fn lemma_delay_monotonic(d: nat, i: nat, j: nat)
    requires
        i <= j,
    ensures
        delay_at(d, i) <= delay_at(d, j),
{
    lemma_fib_monotonic(i, j);
    assert(d * fib(i) <= d * fib(j)) by (nonlinear_arith)
        requires
            fib(i) <= fib(j),
    ;
}

/// How a run of the executor ended.
pub struct Run {
    /// Whether the last attempt succeeded. If so, its value is what the
    /// caller gets; if not, its error is.
    pub succeeded: bool,
    /// The number of times the operation was invoked.
    pub attempts: nat,
    /// The sum of the delays waited between attempts, in nanoseconds.
    pub waited: nat,
}

/// Runs an operation from state `s`, having waited `waited` so far.
/// `succeeds(i)` tells whether the attempt that follows `i` failures
/// succeeds. Every failure is answered by [`RetryView::action`].
pub open spec fn run(s: RetryView, succeeds: spec_fn(nat) -> bool, waited: nat) -> Run
    decreases s.max_retries - s.retries,
{
    if succeeds(s.retries) {
        Run { succeeded: true, attempts: s.retries + 1, waited }
    } else {
        match s.action() {
            RetryAction::Retry { delay, .. } => run(s.after_failure(), succeeds, waited + delay as nat),
            RetryAction::GiveUp => Run { succeeded: false, attempts: s.retries + 1, waited },
        }
    }
}

/// The state a fresh schedule starts in.
pub open spec fn initial_view(initial_delay: nat, max_retries: nat) -> RetryView {
    RetryView { initial_delay, max_retries, retries: 0 }
}

/// Whether the schedule can be advanced through `failures` retries without
/// a delay growing past [`MAX_DELAY_NANOS`].
pub open spec fn schedule_fits(initial_delay: nat, failures: nat) -> bool {
    &&& initial_delay <= MAX_DELAY_NANOS
    &&& failures > 0 ==> delay_at(initial_delay, failures + 1) <= MAX_DELAY_NANOS
}

proof fn lemma_run_from(d: nat, n: nat, r: nat, k: nat, succeeds: spec_fn(nat) -> bool)
    requires
        r <= k <= n,
        forall|i: nat| i < k ==> !#[trigger] succeeds(i),
        schedule_fits(d, k),
    ensures
        run(RetryView { initial_delay: d, max_retries: n, retries: r }, succeeds, total_wait(d, r))
            == run(RetryView { initial_delay: d, max_retries: n, retries: k }, succeeds, total_wait(d, k)),
    decreases k - r,
{
    if r < k {
        let s = RetryView { initial_delay: d, max_retries: n, retries: r };
        lemma_delay_monotonic(d, r, k + 1);
        assert(s.after_failure() == RetryView { initial_delay: d, max_retries: n, retries: r + 1 });
        assert(total_wait(d, r + 1) == total_wait(d, r) + delay_at(d, r));
        lemma_run_from(d, n, r + 1, k, succeeds);
    }
}

/// An operation that fails exactly `k` times and then succeeds, with `k`
/// within the budget of `n` retries, ends in success after `k + 1` attempts,
/// and the time waited is the sum of the first `k` delays of the schedule.
pub proof fn lemma_fails_then_succeeds(d: nat, n: nat, k: nat, succeeds: spec_fn(nat) -> bool)
    requires
        k <= n,
        forall|i: nat| i < k ==> !#[trigger] succeeds(i),
        succeeds(k),
        schedule_fits(d, k),
    ensures
        run(initial_view(d, n), succeeds, 0) == (Run {
            succeeded: true,
            attempts: k + 1,
            waited: total_wait(d, k),
        }),
{
    lemma_run_from(d, n, 0, k, succeeds);
}

/// An operation that fails on every attempt is given up after exactly `n`
/// retries, that is `n + 1` attempts, having waited the first `n` delays.
pub proof fn lemma_always_fails(d: nat, n: nat, succeeds: spec_fn(nat) -> bool)
    requires
        forall|i: nat| i <= n ==> !#[trigger] succeeds(i),
        schedule_fits(d, n),
    ensures
        run(initial_view(d, n), succeeds, 0) == (Run {
            succeeded: false,
            attempts: n + 1,
            waited: total_wait(d, n),
        }),
{
    lemma_run_from(d, n, 0, n, succeeds);
}

/// The total wait in closed form: the sum of the first `k` multipliers is
/// the multiplier two places on, less one.
pub proof fn lemma_total_wait_closed_form(d: nat, k: nat)
    ensures
        total_wait(d, k) + d == delay_at(d, k + 1),
    decreases k,
{
    if k == 0 {
        assert(d * 1 == d) by (nonlinear_arith);
    } else {
        lemma_total_wait_closed_form(d, (k - 1) as nat);
        lemma_delay_step(d, (k - 1) as nat);
    }
}

} // verus!
