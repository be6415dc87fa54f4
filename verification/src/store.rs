//! The durable store adapter: what a store can answer, and the policy for
//! trying again while it is busy.
//!
//! The store itself is not here. An operation on it is handed in as a
//! function, and so is the pause between two attempts.

use vstd::prelude::*;

verus! {

/// The delay after the first busy answer, in milliseconds. The delay after
/// the `n`-th busy answer is `n` times this.
pub const BASE_DELAY_MS: u64 = 100;

/// Why a store operation failed.
#[derive(Debug, Clone, Copy, PartialEq, Eq, Structural)]
pub enum StoreError {
    /// The store is busy or locked. Trying again may succeed.
    Busy,
    /// Any other fault. Trying again is pointless.
    Other,
}

/// What to do with the answer to an attempt.
#[derive(Debug, Clone, Copy, PartialEq, Eq, Structural)]
pub enum RetryDecision {
    /// Hand the answer to the caller.
    Return,
    /// Pause for so many milliseconds, then try again.
    PauseThenRetry(u64),
    /// Pause for so many milliseconds, then hand the busy answer to the
    /// caller: that was the last attempt.
    PauseThenGiveUp(u64),
}

/// The pause after the attempt number `attempt`, counted from zero.
pub open spec fn backoff_ms(attempt: int) -> int {
    BASE_DELAY_MS * (attempt + 1)
}

/// The retry policy. Only a busy store is tried again, and only while
/// attempts are left; every busy answer is followed by a pause that grows
/// linearly with the number of the attempt.
pub open spec fn decision(busy: bool, attempt: u32, max_attempts: u32) -> RetryDecision {
    if !busy {
        RetryDecision::Return
    } else if attempt + 1 < max_attempts {
        RetryDecision::PauseThenRetry(backoff_ms(attempt as int) as u64)
    } else {
        RetryDecision::PauseThenGiveUp(backoff_ms(attempt as int) as u64)
    }
}

/// Whether an answer says that the store was busy.
pub open spec fn is_busy<T>(outcome: Result<T, StoreError>) -> bool {
    outcome matches Err(e) && e == StoreError::Busy
}

/// Applies the retry policy to the answer of the attempt number `attempt`,
/// counted from zero, out of `max_attempts`.
pub fn retry_decision<T>(outcome: &Result<T, StoreError>, attempt: u32, max_attempts: u32) -> (d:
    RetryDecision)
    requires
        attempt < max_attempts,
    ensures
        d == decision(is_busy(*outcome), attempt, max_attempts),
{
    match outcome {
        Err(StoreError::Busy) => {
            let delay: u64 = BASE_DELAY_MS * ((attempt as u64) + 1);
            if attempt + 1 < max_attempts {
                RetryDecision::PauseThenRetry(delay)
            } else {
                RetryDecision::PauseThenGiveUp(delay)
            }
        },
        _ => RetryDecision::Return,
    }
}

/// Runs `operation` until it answers with something other than `Busy`, at
/// most `max_retries` times, and returns the last answer. After each busy
/// answer it calls `pause` with the delay in milliseconds: 100 after the
/// first, 200 after the second, and so on.
///
/// An answer other than `Busy` is returned at once, so an error that is not
/// transient is never tried again. When every attempt found the store busy,
/// the result is the last `Busy`. What this makes of a given run of answers
/// is stated by `retried` and computed by `retry_trace`.
pub fn execute_with_retry<T, F, P>(operation: F, pause: P, max_retries: u32) -> (r: Result<
    T,
    StoreError,
>) where F: Fn() -> Result<T, StoreError>, P: Fn(u64)
    requires
        max_retries > 0,
        call_requires(operation, ()),
        forall|attempt: int|
            0 <= attempt < max_retries ==> call_requires(
                pause,
                (#[trigger] backoff_ms(attempt) as u64,),
            ),
    ensures
        call_ensures(operation, (), r),
{
    let mut attempt: u32 = 0;
    loop
        invariant
            attempt < max_retries,
            call_requires(operation, ()),
            forall|attempt: int|
                0 <= attempt < max_retries ==> call_requires(
                    pause,
                    (#[trigger] backoff_ms(attempt) as u64,),
                ),
        decreases max_retries - attempt,
    {
        let outcome = operation();
        match retry_decision(&outcome, attempt, max_retries) {
            RetryDecision::Return => {
                return outcome;
            },
            RetryDecision::PauseThenRetry(delay) => {
                assert(delay == backoff_ms(attempt as int) as u64);
                pause(delay);
                attempt += 1;
            },
            RetryDecision::PauseThenGiveUp(delay) => {
                assert(delay == backoff_ms(attempt as int) as u64);
                pause(delay);
                return outcome;
            },
        }
    }
}

/// How many of the answers from position `from` on, and before position
/// `limit`, say without a break that the store was busy.
pub open spec fn busy_run<T>(answers: Seq<Result<T, StoreError>>, from: int, limit: int) -> int
    decreases limit - from,
{
    if from < 0 || from >= limit || from >= answers.len() || !is_busy(answers[from]) {
        0
    } else {
        1 + busy_run(answers, from + 1, limit)
    }
}

/// The pauses after `count` busy answers: 100, 200, and so on, in
/// milliseconds.
pub open spec fn backoffs(count: int) -> Seq<u64> {
    Seq::new(count as nat, |i: int| backoff_ms(i) as u64)
}

/// What the retry policy makes of a run of answers.
#[derive(Debug, PartialEq, Eq)]
pub struct RetryTrace {
    /// The position of the answer that is handed to the caller.
    pub returned: usize,
    /// The pauses that were made, in their order.
    pub pauses: Vec<u64>,
}

/// The mathematical content of a `RetryTrace`.
pub struct TraceView {
    pub returned: int,
    pub pauses: Seq<u64>,
}

impl View for RetryTrace {
    type V = TraceView;

    open spec fn view(&self) -> TraceView {
        TraceView { returned: self.returned as int, pauses: self.pauses@ }
    }
}

/// What `execute_with_retry` does when the store answers with `answers`, one
/// after the other, and `max_attempts` attempts are allowed. With `busy` the
/// number of busy answers at the start, cut at `max_attempts`: every one of
/// them is followed by its pause; if attempts are left after them, the next
/// answer is the one returned, and `None` says that the run of answers ends
/// before that one; if none is left, the last busy answer is returned.
pub open spec fn retried<T>(answers: Seq<Result<T, StoreError>>, max_attempts: u32) -> Option<
    TraceView,
> {
    let busy = busy_run(answers, 0, max_attempts as int);
    if busy == max_attempts {
        Some(TraceView { returned: busy - 1, pauses: backoffs(busy) })
    } else if busy < answers.len() {
        Some(TraceView { returned: busy, pauses: backoffs(busy) })
    } else {
        None
    }
}

/// The view of an optional trace.
pub open spec fn trace_of(t: Option<RetryTrace>) -> Option<TraceView> {
    match t {
        Some(trace) => Some(trace@),
        None => None,
    }
}

/// A run of busy answers from the start counts as far as it has been seen,
/// plus what follows.
proof fn lemma_busy_run_split<T>(answers: Seq<Result<T, StoreError>>, k: int, limit: int)
    requires
        0 <= k <= limit,
        k <= answers.len(),
        forall|j: int| 0 <= j < k ==> is_busy(#[trigger] answers[j]),
    ensures
        busy_run(answers, 0, limit) == k + busy_run(answers, k, limit),
    decreases k,
{
    if k > 0 {
        lemma_busy_run_split(answers, k - 1, limit);
        assert(is_busy(answers[k - 1]));
    }
}

/// Applies the retry policy to a run of answers: which answer is handed to
/// the caller, and which pauses are made on the way. `None` says that the
/// policy asks for an answer beyond the end of the run.
pub fn retry_trace<T>(answers: &Vec<Result<T, StoreError>>, max_retries: u32) -> (trace: Option<
    RetryTrace,
>)
    requires
        max_retries > 0,
    ensures
        trace_of(trace) == retried(answers@, max_retries),
{
    let mut pauses: Vec<u64> = Vec::new();
    let mut attempt: u32 = 0;
    loop
        invariant
            attempt < max_retries,
            attempt <= answers@.len(),
            forall|j: int| 0 <= j < attempt ==> is_busy(#[trigger] answers@[j]),
            pauses@ == backoffs(attempt as int),
        decreases max_retries - attempt,
    {
        let at: usize = attempt as usize;
        if at >= answers.len() {
            proof {
                lemma_busy_run_split(answers@, attempt as int, max_retries as int);
            }
            return None;
        }
        proof {
            lemma_busy_run_split(answers@, attempt as int, max_retries as int);
        }
        match retry_decision(&answers[at], attempt, max_retries) {
            RetryDecision::Return => {
                return Some(RetryTrace { returned: at, pauses });
            },
            RetryDecision::PauseThenRetry(delay) => {
                pauses.push(delay);
                attempt += 1;
                assert(pauses@ =~= backoffs(attempt as int));
            },
            RetryDecision::PauseThenGiveUp(delay) => {
                pauses.push(delay);
                assert(pauses@ =~= backoffs(attempt as int + 1));
                assert(busy_run(answers@, attempt as int + 1, max_retries as int) == 0);
                assert(busy_run(answers@, attempt as int, max_retries as int) == 1);
                return Some(RetryTrace { returned: at, pauses });
            },
        }
    }
}

} // verus!
