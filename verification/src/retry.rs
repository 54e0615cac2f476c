//! Retrying an operation with exponential backoff.
//!
//! A [`Retry`] keeps count of one operation's attempts. The program runs the
//! operation, hands its outcome to [`retry_with_backoff`], and does what that
//! says: stop, or sleep, call [`Retry::advance`] and run the operation again.
use crate::error::{ErrorView, NodeError};
use crate::text::decimal_text;
use vstd::arithmetic::power2::{lemma2_to64, lemma_pow2_strictly_increases, lemma_pow2_unfold, pow2};
use vstd::prelude::*;

verus! {

/// The delay before the node's first retry, in milliseconds.
pub const BACKOFF_DELAY: u64 = 500;

/// How often the node attempts an operation.
pub const BACKOFF_MAX_RETRIES: u32 = 10;

/// The progress of an operation that is retried.
#[derive(Debug)]
pub struct Retry {
    max_attempts: u32,
    initial_delay_ms: u64,
    current_attempt: u32,
    delay_ms: u64,
}

/// How far an operation has come: what it was allowed, and how often it has
/// failed and been waited for.
pub struct RetryState {
    pub max_attempts: u32,
    pub initial_delay_ms: u64,
    pub failures: nat,
}

impl RetryState {
    /// The delay after the next failure: the first one, doubled at each
    /// failure so far.
    pub open spec fn delay_ms(self) -> nat {
        self.initial_delay_ms as nat * pow2(self.failures)
    }

    /// Whether one more failure would leave an attempt to make.
    pub open spec fn may_retry(self) -> bool {
        self.failures + 1 < self.max_attempts
    }

    /// The state once a failure has been waited for.
    pub open spec fn advanced(self) -> RetryState {
        RetryState { failures: self.failures + 1, ..self }
    }

    /// How many attempts are left to make, the one under way among them.
    /// There is always at least that one.
    pub open spec fn attempts_left(self) -> nat {
        if self.may_retry() {
            (self.max_attempts - self.failures) as nat
        } else {
            1
        }
    }
}

impl View for Retry {
    type V = RetryState;

    closed spec fn view(&self) -> RetryState {
        RetryState {
            max_attempts: self.max_attempts,
            initial_delay_ms: self.initial_delay_ms,
            failures: (self.current_attempt - 1) as nat,
        }
    }
}

/// What to do after an attempt.
#[derive(Debug)]
pub enum RetryStep {
    /// The operation has succeeded.
    Succeeded,
    /// The operation has failed for good.
    GaveUp { error: NodeError },
    /// The operation is to be run again, after a delay. The notice tells so.
    Wait { delay_ms: u64, notice: String },
}

/// What a [`RetryStep`] says, with its texts as sequences of characters.
pub enum StepView {
    Succeeded,
    GaveUp { error: ErrorView },
    Wait { delay_ms: nat, notice: Seq<char> },
}

impl View for RetryStep {
    type V = StepView;

    open spec fn view(&self) -> StepView {
        match self {
            RetryStep::Succeeded => StepView::Succeeded,
            RetryStep::GaveUp { error } => StepView::GaveUp { error: error@ },
            RetryStep::Wait { delay_ms, notice } => StepView::Wait {
                delay_ms: *delay_ms as nat,
                notice: notice@,
            },
        }
    }
}

/// The notice that an attempt has failed and another one will follow.
pub open spec fn notice_text(state: RetryState, error: ErrorView) -> Seq<char> {
    "Attempt "@ + crate::text::decimal(state.failures + 1) + "/"@ + crate::text::decimal(
        state.max_attempts as nat,
    ) + " failed, retrying in "@ + crate::text::decimal(state.delay_ms()) + "ms: "@
        + crate::error::error_text(error)
}

/// What to do in `state` when an attempt ends with `outcome`.
pub open spec fn retry_step(state: RetryState, outcome: Result<(), ErrorView>) -> StepView {
    match outcome {
        Ok(_) => StepView::Succeeded,
        Err(error) => if state.may_retry() {
            StepView::Wait { delay_ms: state.delay_ms(), notice: notice_text(state, error) }
        } else {
            StepView::GaveUp {
                error: ErrorView::Exhausted {
                    max_attempts: state.max_attempts,
                    last_error: crate::error::error_text(error),
                },
            }
        },
    }
}

/// What became of an operation: how often it was attempted, how long it was
/// waited for between attempts, and its result, once it has one.
pub struct RetryRun {
    pub attempts: nat,
    pub delays: Seq<nat>,
    pub result: Option<Result<(), ErrorView>>,
}

/// What becomes of an operation whose attempts, from `state` on, end with
/// `outcomes`.
pub open spec fn retry_run(state: RetryState, outcomes: Seq<Result<(), ErrorView>>) -> RetryRun
    decreases outcomes.len(),
{
    if outcomes.len() == 0 {
        RetryRun { attempts: 0, delays: Seq::empty(), result: None }
    } else {
        match retry_step(state, outcomes[0]) {
            StepView::Succeeded => RetryRun {
                attempts: 1,
                delays: Seq::empty(),
                result: Some(Ok(())),
            },
            StepView::GaveUp { error } => RetryRun {
                attempts: 1,
                delays: Seq::empty(),
                result: Some(Err(error)),
            },
            StepView::Wait { delay_ms, .. } => {
                let rest = retry_run(state.advanced(), outcomes.drop_first());
                RetryRun {
                    attempts: rest.attempts + 1,
                    delays: seq![delay_ms] + rest.delays,
                    result: rest.result,
                }
            },
        }
    }
}

/// The sum of all delays.
pub open spec fn total(delays: Seq<nat>) -> nat
    decreases delays.len(),
{
    if delays.len() == 0 {
        0
    } else {
        delays[0] + total(delays.drop_first())
    }
}

impl Retry {
    #[verifier::type_invariant]
    closed spec fn well_formed(self) -> bool {
        &&& self.current_attempt >= 1
        &&& self.delay_ms == self@.delay_ms()
    }

    /// An operation that has not been attempted yet.
    pub fn new(max_attempts: u32, initial_delay_ms: u64) -> (retry: Retry)
        ensures
            retry@ == (RetryState { max_attempts, initial_delay_ms, failures: 0 }),
    {
        proof {
            lemma2_to64();
            let power = pow2(0);
            assert(initial_delay_ms as nat * power == initial_delay_ms) by (nonlinear_arith)
                requires
                    power == 1,
            ;
        }
        Retry { max_attempts, initial_delay_ms, current_attempt: 1, delay_ms: initial_delay_ms }
    }

    /// The delay after the next failure.
    pub fn delay_ms(&self) -> (delay_ms: u64)
        ensures
            delay_ms == self@.delay_ms(),
            delay_ms == self@.initial_delay_ms as nat * pow2(self@.failures),
    {
        proof {
            use_type_invariant(self);
        }
        self.delay_ms
    }

    /// Goes on to the next attempt, once the delay has been waited for.
    pub fn advance(&mut self)
        requires
            old(self)@.may_retry(),
            old(self)@.delay_ms() * 2 <= u64::MAX,
        ensures
            final(self)@ == old(self)@.advanced(),
            final(self)@.max_attempts == old(self)@.max_attempts,
            final(self)@.initial_delay_ms == old(self)@.initial_delay_ms,
            final(self)@.failures == old(self)@.failures + 1,
    {
        proof {
            use_type_invariant(&*self);
            lemma_delay_doubles(self@);
        }
        *self = Retry {
            max_attempts: self.max_attempts,
            initial_delay_ms: self.initial_delay_ms,
            current_attempt: self.current_attempt + 1,
            delay_ms: self.delay_ms * 2,
        };
    }
}

/// An operation of the node's own, before its first attempt.
pub open spec fn backoff_state() -> RetryState {
    RetryState { max_attempts: BACKOFF_MAX_RETRIES, initial_delay_ms: BACKOFF_DELAY, failures: 0 }
}

/// An operation of the node's own, dialing or publishing, before its first
/// attempt.
pub fn backoff() -> (retry: Retry)
    ensures
        retry@ == backoff_state(),
        retry@ == (RetryState { max_attempts: 10, initial_delay_ms: 500, failures: 0 }),
{
    Retry::new(BACKOFF_MAX_RETRIES, BACKOFF_DELAY)
}

/// Decides what follows an attempt that ended with `outcome`: to stop once it
/// succeeded or once the last attempt failed, and to wait and try again
/// otherwise.
pub fn retry_with_backoff(retry: &Retry, outcome: Result<(), NodeError>) -> (step: RetryStep)
    ensures
        step@ == retry_step(retry@, crate::error::outcome_view(outcome)),
        match outcome {
            Ok(_) => step is Succeeded,
            Err(error) => if retry@.failures + 1 < retry@.max_attempts {
                &&& step matches RetryStep::Wait { delay_ms, notice }
                &&& delay_ms == retry@.initial_delay_ms as nat * pow2(retry@.failures)
                &&& notice@ == "Attempt "@ + crate::text::decimal(retry@.failures + 1) + "/"@
                    + crate::text::decimal(retry@.max_attempts as nat) + " failed, retrying in "@
                    + crate::text::decimal(delay_ms as nat) + "ms: "@ + crate::error::error_text(
                    error@,
                )
            } else {
                &&& step matches RetryStep::GaveUp { error: last }
                &&& last matches NodeError::Exhausted { max_attempts, last_error }
                &&& max_attempts == retry@.max_attempts
                &&& last_error@ == crate::error::error_text(error@)
            },
        },
{
    proof {
        use_type_invariant(retry);
    }
    match outcome {
        Ok(_) => RetryStep::Succeeded,
        Err(error) => {
            if retry.current_attempt >= retry.max_attempts {
                RetryStep::GaveUp {
                    error: NodeError::Exhausted {
                        max_attempts: retry.max_attempts,
                        last_error: error.message(),
                    },
                }
            } else {
                let mut notice = "Attempt ".to_string();
                notice.append(decimal_text(retry.current_attempt as u64).as_str());
                notice.append("/");
                notice.append(decimal_text(retry.max_attempts as u64).as_str());
                notice.append(" failed, retrying in ");
                notice.append(decimal_text(retry.delay_ms).as_str());
                notice.append("ms: ");
                notice.append(error.message().as_str());
                RetryStep::Wait { delay_ms: retry.delay_ms, notice }
            }
        },
    }
}

/// A failed attempt is followed by another exactly if it was not the last that
/// the operation is allowed, whatever the delays. It is waited for the first
/// delay, doubled at each failure before, and the notice tells the attempt, how
/// many there are, the delay and the error. The last one ends the operation, with
/// the number of attempts and the error.
pub proof fn lemma_failure_is_retried(state: RetryState, error: ErrorView)
    ensures
        state.may_retry() <==> state.failures + 1 < state.max_attempts,
        match retry_step(state, Err(error)) {
            StepView::Succeeded => false,
            StepView::Wait { delay_ms, notice } => {
                &&& state.failures + 1 < state.max_attempts
                &&& delay_ms == state.initial_delay_ms as nat * pow2(state.failures)
                &&& notice == "Attempt "@ + crate::text::decimal(state.failures + 1) + "/"@
                    + crate::text::decimal(state.max_attempts as nat) + " failed, retrying in "@
                    + crate::text::decimal(delay_ms) + "ms: "@ + crate::error::error_text(error)
            },
            StepView::GaveUp { error: last } => {
                &&& state.failures + 1 >= state.max_attempts
                &&& last == (ErrorView::Exhausted {
                    max_attempts: state.max_attempts,
                    last_error: crate::error::error_text(error),
                })
            },
        },
{
}

/// An attempt that succeeds ends the operation, however many were left.
pub proof fn lemma_success_is_not_retried(state: RetryState)
    ensures
        retry_step(state, Ok(())) is Succeeded,
{
}

/// Waiting for a failure counts it, and leaves what the operation is allowed as
/// it was.
pub proof fn lemma_advanced_counts_failure(state: RetryState)
    ensures
        state.advanced().failures == state.failures + 1,
        state.advanced().max_attempts == state.max_attempts,
        state.advanced().initial_delay_ms == state.initial_delay_ms,
{
}

/// Each failure doubles the delay.
pub proof fn lemma_delay_doubles(state: RetryState)
    ensures
        state.advanced().delay_ms() == 2 * state.delay_ms(),
{
    lemma_pow2_unfold(state.failures + 1);
    let initial = state.initial_delay_ms as nat;
    let power = pow2(state.failures);
    assert(initial * (2 * power) == 2 * (initial * power)) by (nonlinear_arith);
}

/// An operation is attempted no more often than it is allowed to, and no
/// attempt is made that is not needed: there is one for each outcome until the
/// result is known. It is waited for between each two attempts, and after the
/// last one while the result is not known.
pub proof fn lemma_attempts_bounded(state: RetryState, outcomes: Seq<Result<(), ErrorView>>)
    ensures
        ({
            let run = retry_run(state, outcomes);
            &&& run.attempts <= state.attempts_left()
            &&& run.attempts <= outcomes.len()
            &&& run.result is None ==> run.attempts == outcomes.len() && run.delays.len()
                == run.attempts
            &&& run.result is Some ==> run.attempts == run.delays.len() + 1
            &&& outcomes.len() >= state.attempts_left() ==> run.result is Some
        }),
    decreases outcomes.len(),
{
    if outcomes.len() > 0 && outcomes[0] is Err && state.may_retry() {
        lemma_attempts_bounded(state.advanced(), outcomes.drop_first());
    }
}

/// The delays grow exponentially: the one after the `i`th of an operation's
/// failures is the first one times two to the `i`.
pub proof fn lemma_delays_exponential(
    state: RetryState,
    outcomes: Seq<Result<(), ErrorView>>,
    i: int,
)
    requires
        0 <= i < retry_run(state, outcomes).delays.len(),
    ensures
        retry_run(state, outcomes).delays[i] == state.initial_delay_ms as nat * pow2(
            state.failures + i as nat,
        ),
    decreases outcomes.len(),
{
    if i > 0 {
        lemma_delays_exponential(state.advanced(), outcomes.drop_first(), i - 1);
    }
}

/// An operation that fails until an attempt that is still allowed succeeds has
/// succeeded, with that attempt.
pub proof fn lemma_success(state: RetryState, outcomes: Seq<Result<(), ErrorView>>, k: int)
    requires
        0 <= k < outcomes.len(),
        k < state.attempts_left(),
        outcomes[k] is Ok,
        forall|i: int| 0 <= i < k ==> outcomes[i] is Err,
    ensures
        retry_run(state, outcomes).result == Some(Ok::<(), ErrorView>(())),
        retry_run(state, outcomes).attempts == k + 1,
    decreases k,
{
    if k > 0 {
        lemma_success(state.advanced(), outcomes.drop_first(), k - 1);
    }
}

/// An operation that fails at every attempt that is allowed has failed, with
/// the number it was allowed and the last attempt's error.
pub proof fn lemma_exhaustion(state: RetryState, outcomes: Seq<Result<(), ErrorView>>)
    requires
        outcomes.len() >= state.attempts_left(),
        forall|i: int| 0 <= i < state.attempts_left() ==> outcomes[i] is Err,
    ensures
        retry_run(state, outcomes).result == Some(
            Err::<(), ErrorView>(
                ErrorView::Exhausted {
                    max_attempts: state.max_attempts,
                    last_error: crate::error::error_text(
                        outcomes[state.attempts_left() - 1]->Err_0,
                    ),
                },
            ),
        ),
        retry_run(state, outcomes).attempts == state.attempts_left(),
    decreases state.attempts_left(),
{
    if state.may_retry() {
        let rest = outcomes.drop_first();
        lemma_exhaustion(state.advanced(), rest);
    }
}

/// An operation that fails every time is attempted exactly as often as it is
/// allowed, and once if it is allowed no attempt, whatever the first delay. It is
/// waited for between each two attempts: the first delay, and then twice as long
/// each time. It ends with the number it was allowed and the last error.
pub proof fn lemma_every_allowed_attempt_is_made(
    max_attempts: u32,
    initial_delay_ms: u64,
    attempts: int,
    outcomes: Seq<Result<(), ErrorView>>,
)
    requires
        attempts == (if max_attempts >= 1 {
            max_attempts as int
        } else {
            1
        }),
        outcomes.len() >= attempts,
        forall|i: int| 0 <= i < attempts ==> outcomes[i] is Err,
    ensures
        ({
            let run = retry_run(
                RetryState { max_attempts, initial_delay_ms, failures: 0 },
                outcomes,
            );
            &&& run.attempts == attempts
            &&& run.delays.len() == attempts - 1
            &&& forall|i: int|
                0 <= i < attempts - 1 ==> #[trigger] run.delays[i] == initial_delay_ms as nat
                    * pow2(i as nat)
            &&& run.result == Some(
                Err::<(), ErrorView>(
                    ErrorView::Exhausted {
                        max_attempts,
                        last_error: crate::error::error_text(outcomes[attempts - 1]->Err_0),
                    },
                ),
            )
        }),
{
    let state = RetryState { max_attempts, initial_delay_ms, failures: 0 };
    let delays = retry_run(state, outcomes).delays;
    lemma_exhaustion(state, outcomes);
    lemma_attempts_bounded(state, outcomes);
    assert forall|i: int| 0 <= i < attempts - 1 implies #[trigger] delays[i]
        == initial_delay_ms as nat * pow2(i as nat) by {
        lemma_delays_exponential(state, outcomes, i);
    }
}

/// An operation that fails `k` times and then succeeds has succeeded with that
/// attempt, if `k` is less than the number of attempts that it is allowed,
/// whatever the first delay. Each failure was waited for: the first delay, and
/// then twice as long each time.
pub proof fn lemma_success_within_allowed_attempts(
    max_attempts: u32,
    initial_delay_ms: u64,
    outcomes: Seq<Result<(), ErrorView>>,
    k: int,
)
    requires
        0 <= k < outcomes.len(),
        k == 0 || k < max_attempts,
        outcomes[k] is Ok,
        forall|i: int| 0 <= i < k ==> outcomes[i] is Err,
    ensures
        ({
            let run = retry_run(
                RetryState { max_attempts, initial_delay_ms, failures: 0 },
                outcomes,
            );
            &&& run.result == Some(Ok::<(), ErrorView>(()))
            &&& run.attempts == k + 1
            &&& run.delays.len() == k
            &&& forall|i: int|
                0 <= i < k ==> #[trigger] run.delays[i] == initial_delay_ms as nat * pow2(i as nat)
        }),
{
    let state = RetryState { max_attempts, initial_delay_ms, failures: 0 };
    let delays = retry_run(state, outcomes).delays;
    lemma_success(state, outcomes, k);
    lemma_attempts_bounded(state, outcomes);
    assert forall|i: int| 0 <= i < k implies #[trigger] delays[i] == initial_delay_ms as nat * pow2(
        i as nat,
    ) by {
        lemma_delays_exponential(state, outcomes, i);
    }
}

/// The time an operation is waited for in all is one first delay short of the
/// delay that would come next.
pub proof fn lemma_total_delay(state: RetryState, outcomes: Seq<Result<(), ErrorView>>)
    ensures
        ({
            let delays = retry_run(state, outcomes).delays;
            total(delays) + state.delay_ms() == state.initial_delay_ms as nat * pow2(
                state.failures + delays.len(),
            )
        }),
    decreases outcomes.len(),
{
    let delays = retry_run(state, outcomes).delays;
    if outcomes.len() > 0 && outcomes[0] is Err && state.may_retry() {
        let rest = retry_run(state.advanced(), outcomes.drop_first()).delays;
        lemma_total_delay(state.advanced(), outcomes.drop_first());
        lemma_delay_doubles(state);
        assert(delays.drop_first() =~= rest);
    }
}

/// An operation whose longest delay fits in 64 bits when doubled never
/// outgrows them: the next attempt can always be gone on to.
pub proof fn lemma_delay_fits(state: RetryState)
    requires
        state.may_retry(),
        state.initial_delay_ms as nat * pow2((state.max_attempts - 1) as nat) <= u64::MAX,
    ensures
        state.delay_ms() * 2 <= u64::MAX,
{
    lemma_delay_doubles(state);
    let last = (state.max_attempts - 1) as nat;
    if state.failures + 1 < last {
        lemma_pow2_strictly_increases(state.failures + 1, last);
    }
    let initial = state.initial_delay_ms as nat;
    let reached = pow2(state.failures + 1);
    let greatest = pow2(last);
    assert(initial * reached <= initial * greatest) by (nonlinear_arith)
        requires
            reached <= greatest,
    ;
}

/// The delays of the node's own operations never outgrow 64 bits.
pub proof fn lemma_backoff_fits(state: RetryState)
    requires
        state.max_attempts == BACKOFF_MAX_RETRIES,
        state.initial_delay_ms == BACKOFF_DELAY,
        state.may_retry(),
    ensures
        state.delay_ms() * 2 <= u64::MAX,
{
    lemma2_to64();
    lemma_delay_fits(state);
}

/// An operation of the node's own that fails `k` times and then succeeds, with
/// `k` less than ten, has succeeded. It was waited for half a second times two
/// to the `k`, less half a second.
pub proof fn lemma_backoff_success(outcomes: Seq<Result<(), ErrorView>>, k: int)
    requires
        0 <= k < outcomes.len(),
        k < 10,
        outcomes[k] is Ok,
        forall|i: int| 0 <= i < k ==> outcomes[i] is Err,
    ensures
        ({
            let run = retry_run(backoff_state(), outcomes);
            &&& run.result == Some(Ok::<(), ErrorView>(()))
            &&& run.attempts == k + 1
            &&& total(run.delays) + 500 == 500 * pow2(k as nat)
        }),
{
    lemma2_to64();
    lemma_success(backoff_state(), outcomes, k);
    lemma_attempts_bounded(backoff_state(), outcomes);
    lemma_total_delay(backoff_state(), outcomes);
}

/// An operation of the node's own that fails ten times has failed, with the
/// tenth error, after 255.5 seconds of waiting.
pub proof fn lemma_backoff_exhaustion(outcomes: Seq<Result<(), ErrorView>>)
    requires
        outcomes.len() >= 10,
        forall|i: int| 0 <= i < 10 ==> outcomes[i] is Err,
    ensures
        ({
            let run = retry_run(backoff_state(), outcomes);
            &&& run.result == Some(
                Err::<(), ErrorView>(
                    ErrorView::Exhausted {
                        max_attempts: 10,
                        last_error: crate::error::error_text(outcomes[9]->Err_0),
                    },
                ),
            )
            &&& run.attempts == 10
            &&& total(run.delays) == 255_500
        }),
{
    lemma2_to64();
    lemma_exhaustion(backoff_state(), outcomes);
    lemma_attempts_bounded(backoff_state(), outcomes);
    lemma_total_delay(backoff_state(), outcomes);
}

} // verus!
