//! When a failed attempt is made again, and how long to wait before it.

use std::time::SystemTime;

use vstd::prelude::*;

use crate::time::Duration;
use crate::types::{DownloadError, ErrorView};

verus! {

/// `std::time::SystemTime` of the standard library: a reading of the wall clock.
#[verifier::external_type_specification]
#[verifier::external_body]
pub struct ExSystemTime(SystemTime);

/// `SystemTime::now` of the standard library: reads the wall clock. Nothing is said of
/// the reading.
pub assume_specification[ SystemTime::now ]() -> SystemTime
;

/// `SystemTime::duration_since` of the standard library, counted from the Unix epoch:
/// nothing where the clock stands before the epoch. Nothing is said of the span.
#[verifier::external_body]
fn since_epoch(time: SystemTime) -> Option<core::time::Duration> {
    time.duration_since(SystemTime::UNIX_EPOCH).ok()
}

/// `Duration::subsec_nanos` of the standard library: always less than one second.
pub assume_specification[ core::time::Duration::subsec_nanos ](
    span: &core::time::Duration,
) -> (nanos: u32)
    ensures
        nanos < 1_000_000_000,
;

/// The errors after which another attempt may succeed: the server is overloaded, the
/// request took too long, or the connection broke.
pub open spec fn retryable(error: ErrorView) -> bool {
    match error {
        ErrorView::HttpStatus { code, .. } => code == 429 || code == 503,
        ErrorView::Timeout => true,
        ErrorView::ConnectionFailed(_) => true,
        _ => false,
    }
}

/// Determine whether a `DownloadError` should trigger a retry.
pub fn is_retryable(error: &DownloadError) -> (r: bool)
    ensures
        r == retryable(error@),
{
    match error {
        DownloadError::HttpStatus { code, .. } => *code == 429 || *code == 503,
        DownloadError::Timeout => true,
        DownloadError::ConnectionFailed(_) => true,
        _ => false,
    }
}

/// The smaller of `n` and the largest `u64`.
pub open spec fn capped(n: nat) -> nat {
    if n <= u64::MAX {
        n
    } else {
        u64::MAX as nat
    }
}

/// What the base delay is multiplied by before the retry that follows attempt number
/// `attempt`, counted from zero.
pub open spec fn backoff_factor(attempt: u32) -> nat {
    if attempt < 64 {
        vstd::arithmetic::power2::pow2(attempt as nat)
    } else {
        u64::MAX as nat
    }
}

/// The delay before jitter, in milliseconds. The base delay counts in whole
/// milliseconds, of which the low 64 bits are taken.
pub open spec fn backoff_millis(attempt: u32, base_delay: Duration) -> nat {
    capped((base_delay@ / 1_000_000) % 0x1_0000_0000_0000_0000 * backoff_factor(attempt))
}

/// The jitter in milliseconds that `nanos`, the sub-second part of the clock, gives:
/// less than half of `base`, and zero where half of `base` is zero.
pub open spec fn jitter_millis(attempt: u32, base: nat, nanos: nat) -> nat {
    let range = base / 2;
    if range > 0 {
        ((nanos * 6364136223846793005 + attempt) as nat % 0x1_0000_0000_0000_0000) % range
    } else {
        0
    }
}

/// The delay with its jitter, in milliseconds.
pub open spec fn delay_millis(attempt: u32, base_delay: Duration, nanos: nat) -> nat {
    let base = backoff_millis(attempt, base_delay);
    capped(base + jitter_millis(attempt, base, nanos))
}

/// The wait before the next attempt, where the clock's sub-second part is `nanos`: the
/// span that the server named, or else `base_delay * 2^attempt` with up to half of it
/// added.
pub fn backoff_at(
    attempt: u32,
    base_delay: Duration,
    retry_after: Option<Duration>,
    nanos: u32,
) -> (delay: Duration)
    ensures
        match retry_after {
            Some(named) => delay == named,
            None => delay@ == delay_millis(attempt, base_delay, nanos as nat) * 1_000_000,
        },
{
    if let Some(named) = retry_after {
        return named;
    }
    let factor: u64 = if attempt < 64 {
        proof {
            vstd::bits::lemma_u64_pow2_no_overflow(attempt as nat);
            vstd::bits::lemma_u64_shl_is_mul(1, attempt as u64);
        }
        1u64 << (attempt as u64)
    } else {
        u64::MAX
    };
    let millis: u128 = base_delay.as_millis() % 0x1_0000_0000_0000_0000;
    assert(millis * factor <= u64::MAX * u64::MAX) by (nonlinear_arith)
        requires
            millis <= u64::MAX,
            factor <= u64::MAX,
    ;
    let product: u128 = millis * factor as u128;
    let base: u64 = if product <= u64::MAX as u128 {
        product as u64
    } else {
        u64::MAX
    };
    let range = base / 2;
    let jitter: u64 = if range > 0 {
        let seed: u128 = (nanos as u128 * 6364136223846793005 + attempt as u128)
            % 0x1_0000_0000_0000_0000;
        seed as u64 % range
    } else {
        0
    };
    Duration::from_millis(base.saturating_add(jitter))
}

/// The sub-second part of the wall clock in nanoseconds: zero where the clock stands
/// before the Unix epoch.
fn clock_nanos() -> (nanos: u32)
    ensures
        nanos < 1_000_000_000,
{
    match since_epoch(SystemTime::now()) {
        Some(span) => span.subsec_nanos(),
        None => 0,
    }
}

/// Compute backoff delay with jitter.
///
/// delay = base_delay * 2^attempt + jitter (0..50% of delay)
///
/// The jitter comes from the wall clock, so that only its range is known beforehand.
pub fn compute_backoff(attempt: u32, base_delay: Duration, retry_after: Option<Duration>) -> (delay:
    Duration)
    ensures
        waits(attempt, base_delay, retry_after, delay),
{
    let nanos = clock_nanos();
    let delay = backoff_at(attempt, base_delay, retry_after, nanos);
    assert(retry_after is None ==> (nanos as nat) < 1_000_000_000 && delay@ == delay_millis(
        attempt,
        base_delay,
        nanos as nat,
    ) * 1_000_000);
    delay
}

/// The waits that may come before the next attempt: the span that the server named, or
/// else one that some reading of the clock gives.
pub open spec fn waits(
    attempt: u32,
    base_delay: Duration,
    retry_after: Option<Duration>,
    delay: Duration,
) -> bool {
    match retry_after {
        Some(named) => delay == named,
        None => exists|nanos: nat|
            nanos < 1_000_000_000 && delay@ == #[trigger] delay_millis(attempt, base_delay, nanos)
                * 1_000_000,
    }
}

/// The delay lies between `base_delay * 2^attempt` and one and a half times that,
/// whatever the clock reads.
pub proof fn delay_within_half(attempt: u32, base_delay: Duration, nanos: nat)
    ensures
        backoff_millis(attempt, base_delay) <= delay_millis(attempt, base_delay, nanos),
        2 * delay_millis(attempt, base_delay, nanos) <= 3 * backoff_millis(attempt, base_delay),
        backoff_millis(attempt, base_delay) > 0 ==> 2 * delay_millis(attempt, base_delay, nanos) < 3
            * backoff_millis(attempt, base_delay),
{
    let base = backoff_millis(attempt, base_delay);
    let range = base / 2;
    if range > 0 {
        let seed = (nanos * 6364136223846793005 + attempt) as nat % 0x1_0000_0000_0000_0000;
        vstd::arithmetic::div_mod::lemma_mod_bound(seed as int, range as int);
    }
}

/// Every delay is longer than every delay of the attempt before, whatever the clock
/// reads, as long as the delay before jitter does not reach the largest `u64`.
pub proof fn delays_increase(attempt: u32, base_delay: Duration, earlier: nat, later: nat)
    requires
        attempt < 63,
        0 < (base_delay@ / 1_000_000) % 0x1_0000_0000_0000_0000,
        (base_delay@ / 1_000_000) % 0x1_0000_0000_0000_0000 * backoff_factor((attempt + 1) as u32)
            <= u64::MAX,
    ensures
        delay_millis(attempt, base_delay, earlier) < delay_millis(
            (attempt + 1) as u32,
            base_delay,
            later,
        ),
{
    let next = (attempt + 1) as u32;
    let unit = (base_delay@ / 1_000_000) % 0x1_0000_0000_0000_0000;
    vstd::arithmetic::power2::lemma_pow2_unfold(next as nat);
    vstd::arithmetic::power2::lemma_pow2_pos(attempt as nat);
    assert(unit * backoff_factor(next) == 2 * (unit * backoff_factor(attempt))) by (nonlinear_arith)
        requires
            backoff_factor(next) == 2 * backoff_factor(attempt),
    ;
    assert(unit * backoff_factor(attempt) > 0) by (nonlinear_arith)
        requires
            unit > 0,
            backoff_factor(attempt) > 0,
    ;
    delay_within_half(attempt, base_delay, earlier);
    delay_within_half(next, base_delay, later);
}

/// How an attempt failed, or nothing where it succeeded.
pub open spec fn failure<T>(result: Result<T, DownloadError>) -> Option<ErrorView> {
    match result {
        Ok(_) => None,
        Err(e) => Some(e@),
    }
}

/// Whether another attempt follows one that ended in `outcome`, where `attempt` retries
/// were made before it and `max_retries` may be made in all.
pub open spec fn tried_again(outcome: Option<ErrorView>, attempt: nat, max_retries: nat) -> bool {
    match outcome {
        Some(e) => retryable(e) && attempt < max_retries,
        None => false,
    }
}

/// The wait that the server asked for, where the error names one.
pub open spec fn named_wait(error: ErrorView) -> Option<Duration> {
    match error {
        ErrorView::HttpStatus { retry_after, .. } => retry_after,
        _ => None,
    }
}

/// What follows an attempt.
#[derive(Debug)]
pub enum RetryStep<T> {
    /// No further attempt: the result of the last one, and how many retries were made.
    Finished(Result<T, DownloadError>, u32),
    /// Wait this long, then make the next attempt.
    Wait(Duration),
}

/// An operation that is attempted until it succeeds, fails for good, or has been
/// retried often enough.
#[derive(Debug)]
pub struct Retry {
    pub attempt: u32,
    pub max_retries: u32,
    pub base_delay: Duration,
}

impl Retry {
    /// Nothing attempted yet, and at most `max_retries` attempts after the first.
    pub fn new(max_retries: u32, base_delay: Duration) -> (retry: Retry)
        ensures
            retry.attempt == 0,
            retry.max_retries == max_retries,
            retry.base_delay == base_delay,
    {
        Retry { attempt: 0, max_retries, base_delay }
    }

    /// What follows an attempt that ended in `result`, where the clock's sub-second part
    /// is `nanos`.
    pub fn step_at<T>(&mut self, result: Result<T, DownloadError>, nanos: u32) -> (step: RetryStep<
        T,
    >)
        ensures
            final(self).max_retries == old(self).max_retries,
            final(self).base_delay == old(self).base_delay,
            match step {
                RetryStep::Finished(last, retries) => {
                    &&& !tried_again(
                        failure(result),
                        old(self).attempt as nat,
                        old(self).max_retries as nat,
                    )
                    &&& last == result
                    &&& retries == old(self).attempt
                    &&& final(self).attempt == old(self).attempt
                },
                RetryStep::Wait(delay) => {
                    &&& tried_again(
                        failure(result),
                        old(self).attempt as nat,
                        old(self).max_retries as nat,
                    )
                    &&& final(self).attempt == old(self).attempt + 1
                    &&& match named_wait(failure(result).unwrap()) {
                        Some(named) => delay == named,
                        None => delay@ == delay_millis(
                            old(self).attempt,
                            old(self).base_delay,
                            nanos as nat,
                        ) * 1_000_000,
                    }
                },
            },
    {
        match result {
            Ok(data) => RetryStep::Finished(Ok(data), self.attempt),
            Err(e) => {
                if !is_retryable(&e) || self.attempt >= self.max_retries {
                    return RetryStep::Finished(Err(e), self.attempt);
                }
                let retry_after = match &e {
                    DownloadError::HttpStatus { retry_after, .. } => *retry_after,
                    _ => None,
                };
                let delay = backoff_at(self.attempt, self.base_delay, retry_after, nanos);
                self.attempt += 1;
                RetryStep::Wait(delay)
            },
        }
    }

    /// What follows an attempt that ended in `result`.
    pub fn step<T>(&mut self, result: Result<T, DownloadError>) -> (step: RetryStep<T>)
        ensures
            final(self).max_retries == old(self).max_retries,
            final(self).base_delay == old(self).base_delay,
            match step {
                RetryStep::Finished(last, retries) => {
                    &&& !tried_again(
                        failure(result),
                        old(self).attempt as nat,
                        old(self).max_retries as nat,
                    )
                    &&& last == result
                    &&& retries == old(self).attempt
                    &&& final(self).attempt == old(self).attempt
                },
                RetryStep::Wait(delay) => {
                    &&& tried_again(
                        failure(result),
                        old(self).attempt as nat,
                        old(self).max_retries as nat,
                    )
                    &&& final(self).attempt == old(self).attempt + 1
                    &&& waits(
                        old(self).attempt,
                        old(self).base_delay,
                        named_wait(failure(result).unwrap()),
                        delay,
                    )
                },
            },
    {
        let nanos = clock_nanos();
        let step = self.step_at(result, nanos);
        assert((nanos as nat) < 1_000_000_000);
        assert(step is Wait && named_wait(failure(result).unwrap()) is None ==> step->Wait_0@
            == delay_millis(old(self).attempt, old(self).base_delay, nanos as nat) * 1_000_000);
        step
    }
}

/// How many attempts are made, where attempt number `i` ends in `outcomes[i]`: after
/// `attempt` retries the next one is made, and another as long as it is tried again.
pub open spec fn attempts_made(
    outcomes: Seq<Option<ErrorView>>,
    attempt: nat,
    max_retries: nat,
) -> nat
    decreases outcomes.len(),
{
    if outcomes.len() == 0 {
        0
    } else if tried_again(outcomes[0], attempt, max_retries) {
        1 + attempts_made(outcomes.drop_first(), attempt + 1, max_retries)
    } else {
        1
    }
}

proof fn attempts_from(outcomes: Seq<Option<ErrorView>>, attempt: nat, max_retries: nat)
    requires
        attempt <= max_retries,
    ensures
        ({
            let made = attempts_made(outcomes, attempt, max_retries);
            &&& made <= outcomes.len()
            &&& attempt + made <= max_retries + 1
            &&& outcomes.len() > 0 ==> made > 0
            &&& forall|i: int|
                0 <= i < made - 1 ==> (#[trigger] outcomes[i] matches Some(e) && retryable(e))
            &&& made < outcomes.len() ==> {
                ||| outcomes[made - 1] is None
                ||| !retryable(outcomes[made - 1].unwrap())
                ||| attempt + made == max_retries + 1
            }
        }),
    decreases outcomes.len(),
{
    if outcomes.len() > 0 && tried_again(outcomes[0], attempt, max_retries) {
        let rest = outcomes.drop_first();
        attempts_from(rest, attempt + 1, max_retries);
        let made = attempts_made(outcomes, attempt, max_retries);
        assert forall|i: int| 0 <= i < made - 1 implies (#[trigger] outcomes[i] matches Some(e)
            && retryable(e)) by {
            if i > 0 {
                assert(rest[i - 1] == outcomes[i]);
            }
        }
        if made < outcomes.len() {
            assert(rest[made - 2] == outcomes[made - 1]);
        }
    }
}

/// At most `max_retries` attempts follow the first. Only a retryable failure is followed
/// by another attempt, and a run that ends early ends in success, in a failure that is
/// not retryable, or after the last retry allowed.
pub proof fn attempts_are_bounded(outcomes: Seq<Option<ErrorView>>, max_retries: nat)
    ensures
        ({
            let made = attempts_made(outcomes, 0, max_retries);
            &&& made <= max_retries + 1
            &&& outcomes.len() > 0 ==> made > 0
            &&& forall|i: int|
                0 <= i < made - 1 ==> (#[trigger] outcomes[i] matches Some(e) && retryable(e))
            &&& made < outcomes.len() ==> {
                ||| outcomes[made - 1] is None
                ||| !retryable(outcomes[made - 1].unwrap())
                ||| made == max_retries + 1
            }
        }),
{
    attempts_from(outcomes, 0, max_retries);
}

/// Another attempt is worth making after status 429 or 503, a timeout or a failed
/// connection, and after nothing else.
pub proof fn overload_timeouts_and_connections_are_retried(error: ErrorView)
    ensures
        retryable(error) <==> match error {
            ErrorView::HttpStatus { code, .. } => code == 429 || code == 503,
            ErrorView::Timeout => true,
            ErrorView::ConnectionFailed(_) => true,
            ErrorView::TlsError(_) => false,
            ErrorView::WriteError(_) => false,
            ErrorView::ValidationFailed(_) => false,
            ErrorView::DnsResolutionFailed(_) => false,
            ErrorView::TooManyRedirects(_) => false,
        },
{
}

/// A success is never tried again. A failure is, as long as it is worth it and fewer retries
/// were made than allowed.
pub proof fn retries_stop_at_their_limit<T>(
    result: Result<T, DownloadError>,
    attempt: nat,
    max_retries: nat,
)
    ensures
        result is Ok ==> !tried_again(failure(result), attempt, max_retries),
        result matches Err(error) ==> (tried_again(failure(result), attempt, max_retries) <==> (
        error@ is Timeout || error@ is ConnectionFailed || (error matches DownloadError::HttpStatus {
            code,
            ..
        } && (code == 429 || code == 503))) && attempt < max_retries),
{
}

/// Before jitter the delay is the base delay in whole milliseconds, taken modulo 2^64, and
/// doubles from one attempt to the next until it reaches the largest number of 64 bits,
/// where it stays.
pub proof fn delays_double(attempt: u32, base_delay: Duration)
    ensures
        backoff_millis(0, base_delay) == (base_delay@ / 1_000_000) % 18_446_744_073_709_551_616,
        attempt < u32::MAX ==> backoff_millis((attempt + 1) as u32, base_delay) == if 2
            * backoff_millis(attempt, base_delay) <= 18_446_744_073_709_551_615 {
            2 * backoff_millis(attempt, base_delay)
        } else {
            18_446_744_073_709_551_615nat
        },
{
    let unit = (base_delay@ / 1_000_000) % 0x1_0000_0000_0000_0000;
    vstd::arithmetic::power2::lemma2_to64();
    assert(unit * backoff_factor(0) == unit) by (nonlinear_arith)
        requires
            backoff_factor(0) == 1,
    ;
    if attempt < u32::MAX {
        let next = (attempt + 1) as u32;
        let this_factor = backoff_factor(attempt);
        let next_factor = backoff_factor(next);
        if attempt < 63 {
            vstd::arithmetic::power2::lemma_pow2_unfold(next as nat);
            assert(unit * next_factor == 2 * (unit * this_factor)) by (nonlinear_arith)
                requires
                    next_factor == 2 * this_factor,
            ;
        } else if unit == 0 {
            assert(unit * next_factor == 0 && unit * this_factor == 0) by (nonlinear_arith)
                requires
                    unit == 0,
            ;
        } else {
            vstd::arithmetic::power2::lemma2_to64_rest();
            assert(this_factor >= 0x8000_0000_0000_0000);
            assert(unit * this_factor >= this_factor) by (nonlinear_arith)
                requires
                    unit >= 1,
            ;
            assert(unit * next_factor >= next_factor) by (nonlinear_arith)
                requires
                    unit >= 1,
            ;
        }
    }
}

/// The jitter is what the clock and the attempt come to, modulo 2^64 and then modulo half of
/// the delay. A delay below two milliseconds has none.
pub proof fn jitter_comes_from_the_clock(attempt: u32, base_delay: Duration, nanos: nat)
    ensures
        ({
            let base = backoff_millis(attempt, base_delay);
            let seed = (nanos * 6_364_136_223_846_793_005 + attempt) as nat
                % 18_446_744_073_709_551_616;
            let whole = base + seed % (base / 2);
            &&& base < 2 ==> delay_millis(attempt, base_delay, nanos) == base
            &&& base >= 2 ==> delay_millis(attempt, base_delay, nanos) == if whole
                <= 18_446_744_073_709_551_615 {
                whole
            } else {
                18_446_744_073_709_551_615nat
            }
        }),
{
}

/// The wait that a server asked for is kept to exactly, whatever the attempt, and only an
/// HTTP status can ask for one.
pub proof fn named_waits_are_kept(
    attempt: u32,
    base_delay: Duration,
    named: Duration,
    delay: Duration,
    error: ErrorView,
)
    ensures
        waits(attempt, base_delay, Some(named), delay) <==> delay == named,
        named_wait(error) == match error {
            ErrorView::HttpStatus { retry_after, .. } => retry_after,
            _ => None,
        },
{
}

/// Where the server named no wait, the wait is at least the delay before jitter and at most
/// one and a half times that.
pub proof fn waits_stay_in_range(attempt: u32, base_delay: Duration, delay: Duration)
    requires
        waits(attempt, base_delay, None, delay),
    ensures
        backoff_millis(attempt, base_delay) * 1_000_000 <= delay@,
        2 * delay@ <= 3 * backoff_millis(attempt, base_delay) * 1_000_000,
{
    let nanos = choose|nanos: nat|
        nanos < 1_000_000_000 && delay@ == #[trigger] delay_millis(attempt, base_delay, nanos)
            * 1_000_000;
    delay_within_half(attempt, base_delay, nanos);
}

} // verus!
