//! The consumer loop's decision core: two nested state machines and a
//! rate-limited error sink.
//!
//! The outer machine supervises the subscription: it opens the stream,
//! hands control to the inner loop, re-subscribes with a fixed backoff when
//! the stream closes, and stops on shutdown. The inner machine maps each
//! stream event to an acknowledgement action, a retry-counter update, an
//! exponential suspension, and reporting flags. The host drives both
//! machines, performing the bus calls, sleeps and handler invocations they
//! decide.
use vstd::prelude::*;

use crate::client::SubscribeError;
use crate::config::ConsumerConfig;
use crate::error::AckKind;

verus! {

/// Failures the consumer observes and reports.
#[derive(Debug, Clone)]
pub enum Error {
    SubscriptionFailed(SubscribeError),
    StreamClosed,
    InternalError(String),
    HandleMessageError(String),
}

/// How a handler failed.
#[derive(Debug, Clone, PartialEq, Eq)]
pub enum HandleMessageFailure<E> {
    /// Retrying later can fix it.
    Transient(E),
    /// Retrying cannot fix it (parse failure, unknown id, and the like);
    /// the consumer reports it and terminates the message.
    Permanent(E),
}

/// Lifts a plain error into a handler failure.
pub trait FailureKind<T, E>: Sized {
    /// Marks the error as fixable by a later retry.
    fn transient(self) -> (r: Result<T, HandleMessageFailure<E>>);

    /// Marks the error as permanent; the consumer will report it and
    /// terminate the message.
    fn permanent(self) -> (r: Result<T, HandleMessageFailure<E>>);
}

impl<T, E> FailureKind<T, E> for Result<T, E> {
    fn transient(self) -> (r: Result<T, HandleMessageFailure<E>>)
        ensures
            match self {
                Ok(t) => r == Ok::<T, HandleMessageFailure<E>>(t),
                Err(e) => r == Err::<T, HandleMessageFailure<E>>(HandleMessageFailure::Transient(e)),
            },
    {
        match self {
            Ok(t) => Ok(t),
            Err(e) => Err(HandleMessageFailure::Transient(e)),
        }
    }

    fn permanent(self) -> (r: Result<T, HandleMessageFailure<E>>)
        ensures
            match self {
                Ok(t) => r == Ok::<T, HandleMessageFailure<E>>(t),
                Err(e) => r == Err::<T, HandleMessageFailure<E>>(HandleMessageFailure::Permanent(e)),
            },
    {
        match self {
            Ok(t) => Ok(t),
            Err(e) => Err(HandleMessageFailure::Permanent(e)),
        }
    }
}

/// Maps the error inside a handler failure to another type, keeping the
/// transient/permanent kind.
pub trait FailureKindExt<T, E>: Sized {
    /// The handler result this value stands for.
    spec fn failure_view(self) -> Result<T, HandleMessageFailure<E>>;

    fn map_failure_err<E1, F: FnOnce(E) -> E1>(self, map: F) -> (r: Result<
        T,
        HandleMessageFailure<E1>,
    >)
        requires
            match self.failure_view() {
                Ok(_) => true,
                Err(f) => match f {
                    HandleMessageFailure::Transient(e) => map.requires((e,)),
                    HandleMessageFailure::Permanent(e) => map.requires((e,)),
                },
            },
        ensures
            match self.failure_view() {
                Ok(t) => r == Ok::<T, HandleMessageFailure<E1>>(t),
                Err(f) => match (f, r) {
                    (HandleMessageFailure::Transient(e), Err(HandleMessageFailure::Transient(e1)))
                        => map.ensures((e,), e1),
                    (HandleMessageFailure::Permanent(e), Err(HandleMessageFailure::Permanent(e1)))
                        => map.ensures((e,), e1),
                    _ => false,
                },
            },
    ;
}

impl<T, E> FailureKindExt<T, E> for Result<T, HandleMessageFailure<E>> {
    open spec fn failure_view(self) -> Result<T, HandleMessageFailure<E>> {
        self
    }

    fn map_failure_err<E1, F: FnOnce(E) -> E1>(self, map: F) -> (r: Result<
        T,
        HandleMessageFailure<E1>,
    >) {
        match self {
            Ok(t) => Ok(t),
            Err(HandleMessageFailure::Transient(e)) => Err(
                HandleMessageFailure::Transient(map(e)),
            ),
            Err(HandleMessageFailure::Permanent(e)) => Err(
                HandleMessageFailure::Permanent(map(e)),
            ),
        }
    }
}

/// What the consumer decided about one message.
#[derive(Debug, Clone, Copy, PartialEq, Eq)]
pub enum HandleMessageOutcome {
    /// Handled; acknowledge positively.
    Processed,
    /// Failed transiently; negatively acknowledge and retry later.
    ProcessLater,
    /// Failed permanently; terminate the message.
    WontProcess,
}

/// The outcome a handler result maps to.
pub open spec fn outcome_spec<E>(r: Result<(), HandleMessageFailure<E>>) -> HandleMessageOutcome {
    match r {
        Ok(_) => HandleMessageOutcome::Processed,
        Err(HandleMessageFailure::Transient(_)) => HandleMessageOutcome::ProcessLater,
        Err(HandleMessageFailure::Permanent(_)) => HandleMessageOutcome::WontProcess,
    }
}

/// Maps a handler result to the consumer's outcome for the message.
pub fn outcome_of<E>(r: &Result<(), HandleMessageFailure<E>>) -> (o: HandleMessageOutcome)
    ensures
        o == outcome_spec(*r),
{
    match r {
        Ok(_) => HandleMessageOutcome::Processed,
        Err(HandleMessageFailure::Transient(_)) => HandleMessageOutcome::ProcessLater,
        Err(HandleMessageFailure::Permanent(_)) => HandleMessageOutcome::WontProcess,
    }
}

pub open spec fn pow2_of(n: nat) -> int
    decreases n,
{
    if n == 0 {
        1
    } else {
        2 * pow2_of((n - 1) as nat)
    }
}

pub proof fn lemma_pow2_of_pos(n: nat)
    ensures
        pow2_of(n) >= 1,
    decreases n,
{
    if n > 0 {
        lemma_pow2_of_pos((n - 1) as nat);
    }
}

/// The suspension after the given retry count: the suspend interval
/// doubled per retry, clamped by the maximum.
pub open spec fn backoff_spec(cfg: ConsumerConfig, retry_count: nat) -> int {
    if cfg.suspend_interval * pow2_of(retry_count) <= cfg.max_suspend_interval {
        cfg.suspend_interval * pow2_of(retry_count)
    } else {
        cfg.max_suspend_interval as int
    }
}

pub proof fn lemma_backoff_bounds(cfg: ConsumerConfig, retry_count: nat)
    ensures
        0 <= backoff_spec(cfg, retry_count) <= cfg.max_suspend_interval,
{
    lemma_pow2_of_pos(retry_count);
    let s = cfg.suspend_interval as int;
    let p = pow2_of(retry_count);
    assert(s * p >= 0) by (nonlinear_arith)
        requires
            s >= 0,
            p >= 0,
    ;
    if s * p <= cfg.max_suspend_interval {
    }
}

/// Computes `backoff_spec`: the suspend interval doubled `retry_count`
/// times, clamped by the maximum.
pub fn next_suspend_interval(retry_count: u32, cfg: &ConsumerConfig) -> (r: u64)
    ensures
        r as int == backoff_spec(*cfg, retry_count as nat),
{
    let s = cfg.suspend_interval;
    let max = cfg.max_suspend_interval;
    let mut v: u64 = if s <= max {
        s
    } else {
        max
    };
    let mut i: u32 = 0;
    while i < retry_count
        invariant
            0 <= i <= retry_count,
            s == cfg.suspend_interval,
            max == cfg.max_suspend_interval,
            v as int == backoff_spec(*cfg, i as nat),
        decreases retry_count - i,
    {
        proof {
            let p = pow2_of(i as nat);
            lemma_pow2_of_pos(i as nat);
            assert(pow2_of((i + 1) as nat) == 2 * p);
            assert((s as int) * (2 * p) == 2 * ((s as int) * p)) by (nonlinear_arith);
            assert((s as int) * p <= (s as int) * (2 * p)) by (nonlinear_arith)
                requires
                    s >= 0,
                    p >= 1,
            ;
        }
        if v > max / 2 {
            v = max;
        } else {
            v = 2 * v;
        }
        i = i + 1;
    }
    v
}

/// The inner loop's mutable state: the retry counter and the pending
/// suspension in seconds, if any.
#[derive(Debug, Clone, Copy, PartialEq, Eq)]
pub struct InnerState {
    pub retry_count: u32,
    pub suspend_until: Option<u64>,
}

impl InnerState {
    /// The state the inner loop starts from.
    pub fn initial() -> (r: InnerState)
        ensures
            r.retry_count == 0,
            r.suspend_until is None,
    {
        InnerState { retry_count: 0, suspend_until: None }
    }
}

/// One event observed by the inner loop: the shutdown signal won the race,
/// the stream closed, the stream yielded a per-item error, or a message
/// arrived and the handler's result was mapped to an outcome.
#[derive(Debug, Clone, Copy, PartialEq, Eq)]
pub enum StreamEvent {
    Shutdown,
    Closed,
    ItemError,
    Item(HandleMessageOutcome),
}

/// Why the inner loop completed.
#[derive(Debug, Clone, Copy, PartialEq, Eq)]
pub enum CompletionReason {
    Shutdown,
    StreamClosed,
}

/// What one inner step asks the host to do: complete the loop, send an
/// acknowledgement, report through the rate limiter, or log locally.
#[derive(Debug, Clone, Copy, PartialEq, Eq)]
pub struct InnerStepResult {
    pub complete: Option<CompletionReason>,
    pub ack: Option<AckKind>,
    pub report: bool,
    pub log_error: bool,
}

pub open spec fn saturating_inc(n: u32) -> u32 {
    if n < u32::MAX {
        (n + 1) as u32
    } else {
        n
    }
}

/// The inner state after one step. Only a processed or transiently failed
/// message changes it: success resets the retry counter and clears the
/// suspension; a transient failure increments the counter and schedules
/// the backoff suspension.
pub open spec fn inner_step_state(st: InnerState, ev: StreamEvent, cfg: ConsumerConfig) -> InnerState {
    match ev {
        StreamEvent::Shutdown => st,
        StreamEvent::Closed => st,
        StreamEvent::ItemError => st,
        StreamEvent::Item(outcome) => match outcome {
            HandleMessageOutcome::Processed => InnerState { retry_count: 0, suspend_until: None },
            HandleMessageOutcome::ProcessLater => InnerState {
                retry_count: saturating_inc(st.retry_count),
                suspend_until: Some(
                    backoff_spec(cfg, saturating_inc(st.retry_count) as nat) as u64,
                ),
            },
            HandleMessageOutcome::WontProcess => st,
        },
    }
}

/// What one inner step asks the host to do: shutdown and stream close
/// complete the loop; a per-item error is reported and skipped; a message
/// outcome is acknowledged positively, negatively without a server-side
/// delay, or terminated.
pub open spec fn inner_step_result(st: InnerState, ev: StreamEvent, cfg: ConsumerConfig) -> InnerStepResult {
    match ev {
        StreamEvent::Shutdown => InnerStepResult {
            complete: Some(CompletionReason::Shutdown),
            ack: None,
            report: false,
            log_error: false,
        },
        StreamEvent::Closed => InnerStepResult {
            complete: Some(CompletionReason::StreamClosed),
            ack: None,
            report: false,
            log_error: false,
        },
        StreamEvent::ItemError => InnerStepResult {
            complete: None,
            ack: None,
            report: true,
            log_error: false,
        },
        StreamEvent::Item(outcome) => match outcome {
            HandleMessageOutcome::Processed => InnerStepResult {
                complete: None,
                ack: Some(AckKind::Ack),
                report: false,
                log_error: false,
            },
            HandleMessageOutcome::ProcessLater => InnerStepResult {
                complete: None,
                ack: Some(AckKind::Nak(None)),
                report: false,
                log_error: true,
            },
            HandleMessageOutcome::WontProcess => InnerStepResult {
                complete: None,
                ack: Some(AckKind::Term),
                report: true,
                log_error: false,
            },
        },
    }
}

/// Takes the pending suspension, leaving none. The host sleeps for the
/// returned seconds, racing the sleep against the shutdown signal.
pub fn take_suspend(st: &mut InnerState) -> (r: Option<u64>)
    ensures
        r == old(st).suspend_until,
        final(st).suspend_until is None,
        final(st).retry_count == old(st).retry_count,
{
    let r = st.suspend_until;
    st.suspend_until = None;
    r
}

/// Advances the inner loop by one observed event, updating the state as
/// `inner_step_state` and returning the actions of `inner_step_result`.
pub fn inner_step(ev: &StreamEvent, st: &mut InnerState, cfg: &ConsumerConfig) -> (r:
    InnerStepResult)
    ensures
        *final(st) == inner_step_state(*old(st), *ev, *cfg),
        r == inner_step_result(*old(st), *ev, *cfg),
{
    match ev {
        StreamEvent::Shutdown => InnerStepResult {
            complete: Some(CompletionReason::Shutdown),
            ack: None,
            report: false,
            log_error: false,
        },
        StreamEvent::Closed => InnerStepResult {
            complete: Some(CompletionReason::StreamClosed),
            ack: None,
            report: false,
            log_error: false,
        },
        StreamEvent::ItemError => InnerStepResult {
            complete: None,
            ack: None,
            report: true,
            log_error: false,
        },
        StreamEvent::Item(outcome) => match outcome {
            HandleMessageOutcome::Processed => {
                st.retry_count = 0;
                st.suspend_until = None;
                InnerStepResult {
                    complete: None,
                    ack: Some(AckKind::Ack),
                    report: false,
                    log_error: false,
                }
            },
            HandleMessageOutcome::ProcessLater => {
                st.retry_count = if st.retry_count < u32::MAX {
                    st.retry_count + 1
                } else {
                    st.retry_count
                };
                proof {
                    lemma_backoff_bounds(*cfg, st.retry_count as nat);
                }
                let interval = next_suspend_interval(st.retry_count, cfg);
                st.suspend_until = Some(interval);
                InnerStepResult {
                    complete: None,
                    ack: Some(AckKind::Nak(None)),
                    report: false,
                    log_error: true,
                }
            },
            HandleMessageOutcome::WontProcess => InnerStepResult {
                complete: None,
                ack: Some(AckKind::Term),
                report: true,
                log_error: false,
            },
        },
    }
}

/// A processed message is acknowledged positively and only positively, and
/// the retry counter is zero afterwards.
pub proof fn lemma_processed_resets(st: InnerState, cfg: ConsumerConfig)
    ensures
        inner_step_result(st, StreamEvent::Item(HandleMessageOutcome::Processed), cfg).ack == Some(
            AckKind::Ack,
        ),
        inner_step_state(st, StreamEvent::Item(HandleMessageOutcome::Processed), cfg).retry_count
            == 0,
{
}

/// A permanently failed message is terminated: the single acknowledgement
/// action of the step is `Term`, never the positive `Ack`, and the retry
/// counter is untouched.
pub proof fn lemma_permanent_terminates(st: InnerState, cfg: ConsumerConfig)
    ensures
        inner_step_result(st, StreamEvent::Item(HandleMessageOutcome::WontProcess), cfg).ack
            == Some(AckKind::Term),
        inner_step_result(st, StreamEvent::Item(HandleMessageOutcome::WontProcess), cfg).ack
            != Some(AckKind::Ack),
        inner_step_state(st, StreamEvent::Item(HandleMessageOutcome::WontProcess), cfg) == st,
{
}

/// A shutdown event completes the inner loop at once, whatever suspension
/// is pending, with no further acknowledgement or sleep scheduled.
pub proof fn lemma_shutdown_completes(st: InnerState, cfg: ConsumerConfig)
    ensures
        inner_step_result(st, StreamEvent::Shutdown, cfg).complete == Some(
            CompletionReason::Shutdown,
        ),
        inner_step_result(st, StreamEvent::Shutdown, cfg).ack is None,
        inner_step_state(st, StreamEvent::Shutdown, cfg) == st,
{
}

/// The inner state after a run of consecutive transient failures.
pub open spec fn run_transients(st: InnerState, cfg: ConsumerConfig, k: nat) -> InnerState
    decreases k,
{
    if k == 0 {
        st
    } else {
        inner_step_state(
            run_transients(st, cfg, (k - 1) as nat),
            StreamEvent::Item(HandleMessageOutcome::ProcessLater),
            cfg,
        )
    }
}

/// After the i-th consecutive transient failure, starting from a zero
/// retry counter, the scheduled suspension is exactly
/// `min(suspend_interval * 2^i, max_suspend_interval)` seconds.
pub proof fn lemma_transient_backoff(st: InnerState, cfg: ConsumerConfig, k: nat)
    requires
        st.retry_count == 0,
        1 <= k <= u32::MAX,
    ensures
        run_transients(st, cfg, k).retry_count == k,
        run_transients(st, cfg, k).suspend_until == Some(backoff_spec(cfg, k) as u64),
    decreases k,
{
    lemma_backoff_bounds(cfg, k);
    let prev = run_transients(st, cfg, (k - 1) as nat);
    if k > 1 {
        lemma_transient_backoff(st, cfg, (k - 1) as nat);
    } else {
        assert(prev == st);
    }
    assert(prev.retry_count == k - 1);
    assert(saturating_inc(prev.retry_count) == k);
    assert(run_transients(st, cfg, k) == inner_step_state(
        prev,
        StreamEvent::Item(HandleMessageOutcome::ProcessLater),
        cfg,
    ));
}

/// The supervisor's state: opening a subscription, running the inner loop,
/// sleeping before a new attempt, or done.
#[derive(Debug, Clone, Copy, PartialEq, Eq, Structural)]
pub enum SupervisorState {
    Subscribing,
    Running,
    Backoff,
    ShuttingDown,
}

/// One event observed by the supervisor.
#[derive(Debug, Clone)]
pub enum SupervisorEvent {
    SubscribeOk,
    SubscribeFailed(SubscribeError),
    InnerCompleted(CompletionReason),
    Slept,
}

/// What the supervisor asks the host to do next.
#[derive(Debug, Clone, Copy, PartialEq, Eq)]
pub enum SupervisorAction {
    /// Call the durable subscribe.
    OpenStream,
    /// Run the inner loop on the stream just opened.
    RunStream,
    /// Sleep for the given seconds, then report `Slept`.
    Sleep(u64),
    /// The consumer is done; end the task.
    Stop,
    /// Nothing; the event does not apply to the state.
    Idle,
}

/// What one supervisor step decides: the next state, the action to
/// perform, and an error to report through the rate limiter, if any.
pub struct SupervisorStep {
    pub state: SupervisorState,
    pub action: SupervisorAction,
    pub report: Option<Error>,
}

/// The supervisor's transition function. A successful subscribe starts the
/// inner loop; a failed subscribe and a closed stream are reported and
/// lead to a `resubscribe_interval` sleep followed by a new attempt;
/// shutdown ends the task. Events that do not apply to the state leave it
/// unchanged.
pub open spec fn supervisor_step_spec(
    st: SupervisorState,
    ev: SupervisorEvent,
    cfg: ConsumerConfig,
) -> SupervisorStep {
    match st {
        SupervisorState::Subscribing => match ev {
            SupervisorEvent::SubscribeOk => SupervisorStep {
                state: SupervisorState::Running,
                action: SupervisorAction::RunStream,
                report: None,
            },
            SupervisorEvent::SubscribeFailed(e) => SupervisorStep {
                state: SupervisorState::Backoff,
                action: SupervisorAction::Sleep(cfg.resubscribe_interval),
                report: Some(Error::SubscriptionFailed(e)),
            },
            _ => SupervisorStep { state: st, action: SupervisorAction::Idle, report: None },
        },
        SupervisorState::Running => match ev {
            SupervisorEvent::InnerCompleted(CompletionReason::Shutdown) => SupervisorStep {
                state: SupervisorState::ShuttingDown,
                action: SupervisorAction::Stop,
                report: None,
            },
            SupervisorEvent::InnerCompleted(CompletionReason::StreamClosed) => SupervisorStep {
                state: SupervisorState::Backoff,
                action: SupervisorAction::Sleep(cfg.resubscribe_interval),
                report: Some(Error::StreamClosed),
            },
            _ => SupervisorStep { state: st, action: SupervisorAction::Idle, report: None },
        },
        SupervisorState::Backoff => match ev {
            SupervisorEvent::Slept => SupervisorStep {
                state: SupervisorState::Subscribing,
                action: SupervisorAction::OpenStream,
                report: None,
            },
            _ => SupervisorStep { state: st, action: SupervisorAction::Idle, report: None },
        },
        SupervisorState::ShuttingDown => SupervisorStep {
            state: st,
            action: SupervisorAction::Stop,
            report: None,
        },
    }
}

/// Advances the supervisor by one observed event, exactly as
/// `supervisor_step_spec` describes.
pub fn supervisor_step(st: &mut SupervisorState, ev: SupervisorEvent, cfg: &ConsumerConfig) -> (r:
    (SupervisorAction, Option<Error>))
    ensures
        *final(st) == supervisor_step_spec(*old(st), ev, *cfg).state,
        r.0 == supervisor_step_spec(*old(st), ev, *cfg).action,
        r.1 == supervisor_step_spec(*old(st), ev, *cfg).report,
{
    match *st {
        SupervisorState::Subscribing => match ev {
            SupervisorEvent::SubscribeOk => {
                *st = SupervisorState::Running;
                (SupervisorAction::RunStream, None)
            },
            SupervisorEvent::SubscribeFailed(e) => {
                *st = SupervisorState::Backoff;
                (
                    SupervisorAction::Sleep(cfg.resubscribe_interval),
                    Some(Error::SubscriptionFailed(e)),
                )
            },
            _ => (SupervisorAction::Idle, None),
        },
        SupervisorState::Running => match ev {
            SupervisorEvent::InnerCompleted(CompletionReason::Shutdown) => {
                *st = SupervisorState::ShuttingDown;
                (SupervisorAction::Stop, None)
            },
            SupervisorEvent::InnerCompleted(CompletionReason::StreamClosed) => {
                *st = SupervisorState::Backoff;
                (SupervisorAction::Sleep(cfg.resubscribe_interval), Some(Error::StreamClosed))
            },
            _ => (SupervisorAction::Idle, None),
        },
        SupervisorState::Backoff => match ev {
            SupervisorEvent::Slept => {
                *st = SupervisorState::Subscribing;
                (SupervisorAction::OpenStream, None)
            },
            _ => (SupervisorAction::Idle, None),
        },
        SupervisorState::ShuttingDown => (SupervisorAction::Stop, None),
    }
}

/// A closed stream makes the supervisor sleep exactly
/// `resubscribe_interval` seconds and then open a new subscription.
pub proof fn lemma_stream_closed_resubscribes(cfg: ConsumerConfig)
    ensures
        supervisor_step_spec(
            SupervisorState::Running,
            SupervisorEvent::InnerCompleted(CompletionReason::StreamClosed),
            cfg,
        ).state == SupervisorState::Backoff,
        supervisor_step_spec(
            SupervisorState::Running,
            SupervisorEvent::InnerCompleted(CompletionReason::StreamClosed),
            cfg,
        ).action == SupervisorAction::Sleep(cfg.resubscribe_interval),
        supervisor_step_spec(SupervisorState::Backoff, SupervisorEvent::Slept, cfg).state
            == SupervisorState::Subscribing,
        supervisor_step_spec(SupervisorState::Backoff, SupervisorEvent::Slept, cfg).action
            == SupervisorAction::OpenStream,
{
}

/// Rate limiter for the telemetry sink. Every error is logged locally;
/// it is forwarded to the sink only when at least `threshold` seconds have
/// passed since the last forwarded one. Times are the host's monotonic
/// clock, in seconds.
#[derive(Debug, Clone, Copy, PartialEq, Eq, Structural)]
pub struct LogSentry {
    pub last_sent: u64,
    pub threshold: u64,
}

/// Where a fresh limiter's `last_sent` is primed: twice the sentry
/// interval in the past (clamped at zero), so that the first report is
/// forwarded whenever twice the sentry interval covers the threshold.
pub open spec fn primed_last(now: u64, sentry_interval: u64) -> int {
    let p = if 2 * (sentry_interval as int) <= u64::MAX {
        2 * (sentry_interval as int)
    } else {
        u64::MAX as int
    };
    if now >= p {
        now - p
    } else {
        0
    }
}

impl LogSentry {
    /// A fresh limiter: the threshold is the suspend interval, and
    /// `last_sent` is primed in the past.
    pub fn new(now: u64, cfg: &ConsumerConfig) -> (r: LogSentry)
        ensures
            r.threshold == cfg.suspend_interval,
            r.last_sent == primed_last(now, cfg.suspend_sentry_interval),
    {
        let prime: u64 = if cfg.suspend_sentry_interval <= u64::MAX / 2 {
            2 * cfg.suspend_sentry_interval
        } else {
            u64::MAX
        };
        let last_sent = if now >= prime {
            now - prime
        } else {
            0
        };
        LogSentry { last_sent, threshold: cfg.suspend_interval }
    }

    /// Decides one error report at time `now`: the error is always logged
    /// locally by the host; the return value says whether to forward it to
    /// the telemetry sink, and `last_sent` advances exactly when it does.
    pub fn log_notify(&mut self, now: u64) -> (forward: bool)
        requires
            now >= old(self).last_sent,
        ensures
            forward == (now - old(self).last_sent >= old(self).threshold),
            final(self).threshold == old(self).threshold,
            final(self).last_sent == if forward {
                now as int
            } else {
                old(self).last_sent as int
            },
    {
        if now - self.last_sent >= self.threshold {
            self.last_sent = now;
            true
        } else {
            false
        }
    }
}

/// How many of `n` error reports, arriving at `next`, `next + step`,
/// `next + 2*step` and so on, the limiter forwards, starting from a last
/// forwarded time of `last`.
pub open spec fn sentry_forward_count(last: int, threshold: int, next: int, step: int, n: nat) -> int
    decreases n,
{
    if n == 0 {
        0
    } else if next - last >= threshold {
        1 + sentry_forward_count(next, threshold, next + step, step, (n - 1) as nat)
    } else {
        sentry_forward_count(last, threshold, next + step, step, (n - 1) as nat)
    }
}

/// Within a steady run, when the last forwarded report lies `j` steps in
/// the past (for `j` between 1 and the period), the forwarded count among
/// the next `n` reports is `(n + j - 1) / k`, where the period `k` is the
/// threshold divided by the step, rounded up.
proof fn lemma_sentry_phase(j: int, threshold: int, next: int, step: int, n: nat, k: int)
    requires
        step >= 1,
        threshold >= 1,
        k == (threshold + step - 1) / step,
        1 <= j <= k,
    ensures
        sentry_forward_count(next - j * step, threshold, next, step, n) == (n + j - 1) / k,
    decreases n,
{
    vstd::arithmetic::div_mod::lemma_fundamental_div_mod(threshold + step - 1, step);
    vstd::arithmetic::div_mod::lemma_mod_pos_bound(threshold + step - 1, step);
    let r = (threshold + step - 1) % step;
    assert(threshold == step * (k - 1) + (r + 1)) by (nonlinear_arith)
        requires
            threshold + step - 1 == step * k + r,
    ;
    if n == 0 {
        vstd::arithmetic::div_mod::lemma_basic_div(j - 1, k);
    } else if j == k {
        // The report at `next` is forwarded: the gap is k steps, and
        // k * step covers the threshold.
        assert(next - (next - j * step) == j * step);
        assert(threshold <= k * step) by (nonlinear_arith)
            requires
                threshold == step * (k - 1) + (r + 1),
                r + 1 <= step,
        ;
        lemma_sentry_phase(1, threshold, next + step, step, (n - 1) as nat, k);
        assert(sentry_forward_count(next - j * step, threshold, next, step, n) == 1 + ((n - 1) + 1
            - 1) / k);
        let q = (n - 1) as int / k;
        let rr = (n - 1) as int % k;
        vstd::arithmetic::div_mod::lemma_fundamental_div_mod((n - 1) as int, k);
        vstd::arithmetic::div_mod::lemma_mod_pos_bound((n - 1) as int, k);
        assert((n + k - 1) as int == (q + 1) * k + rr) by (nonlinear_arith)
            requires
                (n - 1) as int == k * q + rr,
        ;
        vstd::arithmetic::div_mod::lemma_fundamental_div_mod_converse(
            (n + k - 1) as int,
            k,
            q + 1,
            rr,
        );
        assert((n + j - 1) / k == q + 1);
    } else {
        // The report at `next` is not forwarded: the gap is only j < k
        // steps, short of the threshold.
        assert(j * step <= (k - 1) * step) by (nonlinear_arith)
            requires
                j <= k - 1,
                step >= 1,
        ;
        assert((k - 1) * step < threshold) by (nonlinear_arith)
            requires
                threshold == step * (k - 1) + (r + 1),
                r + 1 >= 1,
        ;
        assert(next - (next - j * step) == j * step);
        lemma_sentry_phase(j + 1, threshold, next + step, step, (n - 1) as nat, k);
        assert(next + step - (j + 1) * step == next - j * step) by (nonlinear_arith);
    }
}

/// With errors arriving every `step` seconds and the limiter due (at least
/// `threshold` since the last forward), the number forwarded among `n`
/// reports is exactly the ceiling of `n` divided by the ceiling of
/// `threshold / step` — while the local log receives all `n`.
pub proof fn lemma_sentry_rate(last: int, threshold: int, t0: int, step: int, n: nat)
    requires
        step >= 1,
        threshold >= 1,
        t0 - last >= threshold,
        n >= 1,
    ensures
        sentry_forward_count(last, threshold, t0, step, n) == (n + (threshold + step - 1) / step
            - 1) / ((threshold + step - 1) / step),
{
    let k = (threshold + step - 1) / step;
    vstd::arithmetic::div_mod::lemma_fundamental_div_mod(threshold + step - 1, step);
    vstd::arithmetic::div_mod::lemma_mod_pos_bound(threshold + step - 1, step);
    let r = (threshold + step - 1) % step;
    assert(threshold == step * (k - 1) + (r + 1)) by (nonlinear_arith)
        requires
            threshold + step - 1 == step * k + r,
    ;
    assert(k >= 1) by (nonlinear_arith)
        requires
            threshold == step * (k - 1) + (r + 1),
            threshold >= 1,
            step >= 1,
            r + 1 <= step,
    ;
    assert(sentry_forward_count(last, threshold, t0, step, n) == 1 + sentry_forward_count(
        t0,
        threshold,
        t0 + step,
        step,
        (n - 1) as nat,
    ));
    lemma_sentry_phase(1, threshold, t0 + step, step, (n - 1) as nat, k);
    let q = (n - 1) as int / k;
    let rr = (n - 1) as int % k;
    vstd::arithmetic::div_mod::lemma_fundamental_div_mod((n - 1) as int, k);
    vstd::arithmetic::div_mod::lemma_mod_pos_bound((n - 1) as int, k);
    assert((n + k - 1) as int == (q + 1) * k + rr) by (nonlinear_arith)
        requires
            (n - 1) as int == k * q + rr,
    ;
    vstd::arithmetic::div_mod::lemma_fundamental_div_mod_converse((n + k - 1) as int, k, q + 1, rr);
}

/// A fresh limiter is due at once: once the clock has passed the priming
/// window (twice the sentry interval) and that window covers the
/// threshold, any report from then on clears the threshold.
pub proof fn lemma_fresh_sentry_first_due(now: u64, cfg: ConsumerConfig, t0: int)
    requires
        cfg.suspend_interval <= 2 * cfg.suspend_sentry_interval,
        2 * cfg.suspend_sentry_interval <= u64::MAX,
        now >= 2 * cfg.suspend_sentry_interval,
        t0 >= now,
    ensures
        t0 - primed_last(now, cfg.suspend_sentry_interval) >= cfg.suspend_interval,
{
}

/// The telemetry rate law for a fresh limiter: with errors arriving every
/// `step` seconds from `t0` on, the number forwarded among `n` reports is
/// exactly the ceiling of `n` over the ceiling of `threshold / step`,
/// while the local log receives all `n`. The priming premise holds by
/// `lemma_fresh_sentry_first_due`.
pub proof fn lemma_fresh_sentry_rate(now: u64, cfg: ConsumerConfig, t0: int, step: int, n: nat)
    requires
        step >= 1,
        cfg.suspend_interval >= 1,
        cfg.suspend_interval <= 2 * cfg.suspend_sentry_interval,
        2 * cfg.suspend_sentry_interval <= u64::MAX,
        now >= 2 * cfg.suspend_sentry_interval,
        t0 >= now,
        n >= 1,
    ensures
        sentry_forward_count(
            primed_last(now, cfg.suspend_sentry_interval),
            cfg.suspend_interval as int,
            t0,
            step,
            n,
        ) == (n + (cfg.suspend_interval + step - 1) / step - 1) / ((cfg.suspend_interval + step
            - 1) / step),
{
    lemma_fresh_sentry_first_due(now, cfg, t0);
    lemma_sentry_rate(
        primed_last(now, cfg.suspend_sentry_interval),
        cfg.suspend_interval as int,
        t0,
        step,
        n,
    );
}

/// Shutdown of the inner loop ends the supervisor: the terminal state is
/// reached and only `Stop` is ever asked for again.
pub proof fn lemma_shutdown_terminal(cfg: ConsumerConfig, ev: SupervisorEvent)
    ensures
        supervisor_step_spec(
            SupervisorState::Running,
            SupervisorEvent::InnerCompleted(CompletionReason::Shutdown),
            cfg,
        ).state == SupervisorState::ShuttingDown,
        supervisor_step_spec(SupervisorState::ShuttingDown, ev, cfg).state
            == SupervisorState::ShuttingDown,
        supervisor_step_spec(SupervisorState::ShuttingDown, ev, cfg).action
            == SupervisorAction::Stop,
{
}

} // verus!
