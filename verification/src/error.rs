//! Failure handling: which errors are worth retrying, the retry schedule,
//! and the circuit breaker that stops calls after repeated failures.
use vstd::prelude::*;
use vstd::string::StringExecFns;
use crate::text::{chars_of, contains, decimal, decimal_chars, has_substring, string_of, usize_text};
use crate::clock::{clock_now, duration_nanos, elapsed_since, nanos_of, seconds};

verus! {

/// The errors of the application, each with its description.
pub enum NeonmachinesError {
    Config(String),
    Workflow(String),
    Agent(String),
    FileSystem(String),
    Network(String),
    RateLimit(String),
    PomlExecution(String),
    Tui(String),
    Cli(String),
    Io(String),
    Json(String),
    Toml(String),
    Utf8(String),
    Parse(String),
    Unexpected(String),
}

/// The report of an error: its kind and its description.
pub open spec fn error_text(e: NeonmachinesError) -> Seq<char> {
    match e {
        NeonmachinesError::Config(m) => "Configuration error: "@ + m@,
        NeonmachinesError::Workflow(m) => "Workflow error: "@ + m@,
        NeonmachinesError::Agent(m) => "Agent error: "@ + m@,
        NeonmachinesError::FileSystem(m) => "File system error: "@ + m@,
        NeonmachinesError::Network(m) => "Network error: "@ + m@,
        NeonmachinesError::RateLimit(m) => "Rate limiting error: "@ + m@,
        NeonmachinesError::PomlExecution(m) => "POML execution error: "@ + m@,
        NeonmachinesError::Tui(m) => "TUI error: "@ + m@,
        NeonmachinesError::Cli(m) => "CLI argument error: "@ + m@,
        NeonmachinesError::Io(m) => "IO error: "@ + m@,
        NeonmachinesError::Json(m) => "JSON error: "@ + m@,
        NeonmachinesError::Toml(m) => "TOML parsing error: "@ + m@,
        NeonmachinesError::Utf8(m) => "UTF-8 conversion error: "@ + m@,
        NeonmachinesError::Parse(m) => "Parse error: "@ + m@,
        NeonmachinesError::Unexpected(m) => "Unexpected error: "@ + m@,
    }
}

impl NeonmachinesError {
    /// The report of the error: its kind and its description.
    pub fn message(&self) -> (r: String)
        ensures
            r@ == error_text(*self),
    {
        match self {
            NeonmachinesError::Config(m) => String::from_str("Configuration error: ").concat(m.as_str()),
            NeonmachinesError::Workflow(m) => String::from_str("Workflow error: ").concat(m.as_str()),
            NeonmachinesError::Agent(m) => String::from_str("Agent error: ").concat(m.as_str()),
            NeonmachinesError::FileSystem(m) => String::from_str("File system error: ").concat(m.as_str()),
            NeonmachinesError::Network(m) => String::from_str("Network error: ").concat(m.as_str()),
            NeonmachinesError::RateLimit(m) => String::from_str("Rate limiting error: ").concat(m.as_str()),
            NeonmachinesError::PomlExecution(m) => String::from_str("POML execution error: ").concat(m.as_str()),
            NeonmachinesError::Tui(m) => String::from_str("TUI error: ").concat(m.as_str()),
            NeonmachinesError::Cli(m) => String::from_str("CLI argument error: ").concat(m.as_str()),
            NeonmachinesError::Io(m) => String::from_str("IO error: ").concat(m.as_str()),
            NeonmachinesError::Json(m) => String::from_str("JSON error: ").concat(m.as_str()),
            NeonmachinesError::Toml(m) => String::from_str("TOML parsing error: ").concat(m.as_str()),
            NeonmachinesError::Utf8(m) => String::from_str("UTF-8 conversion error: ").concat(m.as_str()),
            NeonmachinesError::Parse(m) => String::from_str("Parse error: ").concat(m.as_str()),
            NeonmachinesError::Unexpected(m) => String::from_str("Unexpected error: ").concat(m.as_str()),
        }
    }

    /// A configuration error with the description `msg`.
    pub fn config(msg: String) -> (r: NeonmachinesError)
        ensures
            r == NeonmachinesError::Config(msg),
    {
        NeonmachinesError::Config(msg)
    }

    /// A workflow error with the description `msg`.
    pub fn workflow(msg: String) -> (r: NeonmachinesError)
        ensures
            r == NeonmachinesError::Workflow(msg),
    {
        NeonmachinesError::Workflow(msg)
    }

    /// An agent error with the description `msg`.
    pub fn agent(msg: String) -> (r: NeonmachinesError)
        ensures
            r == NeonmachinesError::Agent(msg),
    {
        NeonmachinesError::Agent(msg)
    }

    /// A file system error with the description `msg`.
    pub fn file_system(msg: String) -> (r: NeonmachinesError)
        ensures
            r == NeonmachinesError::FileSystem(msg),
    {
        NeonmachinesError::FileSystem(msg)
    }

    /// A network error with the description `msg`.
    pub fn network(msg: String) -> (r: NeonmachinesError)
        ensures
            r == NeonmachinesError::Network(msg),
    {
        NeonmachinesError::Network(msg)
    }

    /// A rate limiting error with the description `msg`.
    pub fn rate_limit(msg: String) -> (r: NeonmachinesError)
        ensures
            r == NeonmachinesError::RateLimit(msg),
    {
        NeonmachinesError::RateLimit(msg)
    }

    /// A POML execution error with the description `msg`.
    pub fn poml_execution(msg: String) -> (r: NeonmachinesError)
        ensures
            r == NeonmachinesError::PomlExecution(msg),
    {
        NeonmachinesError::PomlExecution(msg)
    }

    /// A TUI error with the description `msg`.
    pub fn tui(msg: String) -> (r: NeonmachinesError)
        ensures
            r == NeonmachinesError::Tui(msg),
    {
        NeonmachinesError::Tui(msg)
    }

    /// A command-line error with the description `msg`.
    pub fn cli(msg: String) -> (r: NeonmachinesError)
        ensures
            r == NeonmachinesError::Cli(msg),
    {
        NeonmachinesError::Cli(msg)
    }

    /// A parse error with the description `msg`.
    pub fn parse(msg: String) -> (r: NeonmachinesError)
        ensures
            r == NeonmachinesError::Parse(msg),
    {
        NeonmachinesError::Parse(msg)
    }

    /// An unexpected error with the description `msg`.
    pub fn unexpected(msg: String) -> (r: NeonmachinesError)
        ensures
            r == NeonmachinesError::Unexpected(msg),
    {
        NeonmachinesError::Unexpected(msg)
    }

}

/// The kinds of failure that may pass if the call is made again.
#[derive(Clone, Copy, Debug, PartialEq, Eq, Structural)]
pub enum RetryableErrorType {
    NetworkError,
    TimeoutError,
    RateLimited,
    TemporaryFailure,
    ResourceExhausted,
}

/// The kind of retryable failure that an error's text shows, judged by
/// the words it contains, in this order: network trouble (`network`,
/// `connection`, `timeout`), rate limiting (`rate limit `, `429`), a
/// timeout (`deadline`; `timeout` was taken by the first rule), exhausted
/// resources (`resource`, `exhausted`), a temporary failure (`temporary`,
/// `retry`, `unavailable`); `None` for any other text.
pub open spec fn retry_kind(t: Seq<char>) -> Option<RetryableErrorType> {
    if has_substring(t, "network"@) || has_substring(t, "connection"@) || has_substring(
        t,
        "timeout"@,
    ) {
        Some(RetryableErrorType::NetworkError)
    } else if has_substring(t, "rate limit "@) || has_substring(t, "429"@) {
        Some(RetryableErrorType::RateLimited)
    } else if has_substring(t, "timeout"@) || has_substring(t, "deadline"@) {
        Some(RetryableErrorType::TimeoutError)
    } else if has_substring(t, "resource"@) || has_substring(t, "exhausted"@) {
        Some(RetryableErrorType::ResourceExhausted)
    } else if has_substring(t, "temporary"@) || has_substring(t, "retry"@) || has_substring(
        t,
        "unavailable"@,
    ) {
        Some(RetryableErrorType::TemporaryFailure)
    } else {
        None
    }
}

/// A text with its ASCII capitals made small, so that the words of
/// [`retry_kind`] are found whatever their case (`Network(..)` is a
/// network error).
pub open spec fn ascii_lower(t: Seq<char>) -> Seq<char> {
    t.map_values(|c: char| if 'A' <= c && c <= 'Z' { (((c as u32) + 32) as u8) as char } else { c })
}

/// `text` with its ASCII capitals made small.
fn ascii_lowered(text: &[char]) -> (r: Vec<char>)
    ensures
        r@ == ascii_lower(text@),
{
    let mut r: Vec<char> = Vec::new();
    let mut i: usize = 0;
    while i < text.len()
        invariant
            i <= text.len(),
            r@ == ascii_lower(text@.take(i as int)),
        decreases text.len() - i,
    {
        let c = text[i];
        let d = if 'A' <= c && c <= 'Z' { (((c as u32) + 32) as u8) as char } else { c };
        r.push(d);
        proof {
            assert(ascii_lower(text@.take(i + 1)) =~= ascii_lower(text@.take(i as int)).push(d));
        }
        i = i + 1;
    }
    proof {
        assert(text@.take(text.len() as int) =~= text@);
    }
    r
}

/// Whether `text` contains the literal `word`.
fn mentions(text: &[char], word: &str) -> (r: bool)
    ensures
        r == has_substring(text@, word@),
{
    let w = chars_of(word);
    contains(text, w.as_slice())
}

/// The kind of retryable failure that an error shows, from the error's
/// `Debug` text, whatever the case of its letters.
pub fn is_retryable_error(error_text: &str) -> (r: Option<RetryableErrorType>)
    ensures
        r == retry_kind(ascii_lower(error_text@)),
{
    let raw = chars_of(error_text);
    let t = ascii_lowered(raw.as_slice());
    let s = t.as_slice();
    if mentions(s, "network") || mentions(s, "connection") || mentions(s, "timeout") {
        Some(RetryableErrorType::NetworkError)
    } else if mentions(s, "rate limit ") || mentions(s, "429") {
        Some(RetryableErrorType::RateLimited)
    } else if mentions(s, "timeout") || mentions(s, "deadline") {
        Some(RetryableErrorType::TimeoutError)
    } else if mentions(s, "resource") || mentions(s, "exhausted") {
        Some(RetryableErrorType::ResourceExhausted)
    } else if mentions(s, "temporary") || mentions(s, "retry") || mentions(s, "unavailable") {
        Some(RetryableErrorType::TemporaryFailure)
    } else {
        None
    }
}

/// What to do after a failed attempt.
#[derive(Clone, Copy, Debug, PartialEq, Eq, Structural)]
pub enum RetryAction {
    /// Wait `wait_ms` milliseconds and try again.
    Retry { wait_ms: u64 },
    /// Stop and report the failure.
    GiveUp,
}

/// Where a retried operation stands: the attempt under way (from 0), the
/// number of attempts allowed, and the wait before the next attempt.
pub struct RetryState {
    attempt: usize,
    max_attempts: usize,
    delay_ms: u64,
}

/// The mathematical content of a [`RetryState`].
pub struct RetryView {
    pub attempt: nat,
    pub max_attempts: nat,
    pub delay_ms: u64,
}

impl View for RetryState {
    type V = RetryView;

    closed spec fn view(&self) -> RetryView {
        RetryView {
            attempt: self.attempt as nat,
            max_attempts: self.max_attempts as nat,
            delay_ms: self.delay_ms,
        }
    }
}

/// What a failed attempt leads to: a retry, after the current wait, when
/// the error is retryable and attempts are left; otherwise giving up.
pub open spec fn retry_decision(v: RetryView, error_text: Seq<char>) -> RetryAction {
    if retry_kind(ascii_lower(error_text)) is Some && v.attempt + 1 < v.max_attempts {
        RetryAction::Retry { wait_ms: v.delay_ms }
    } else {
        RetryAction::GiveUp
    }
}

impl RetryState {
    #[verifier::type_invariant]
    spec fn inv(self) -> bool {
        self.attempt < self.max_attempts
    }

    /// The state before the first of at most `max_attempts` attempts,
    /// waiting `base_delay_ms` before the first retry.
    pub fn new(max_attempts: usize, base_delay_ms: u64) -> (r: RetryState)
        requires
            max_attempts >= 1,
        ensures
            r@ == (RetryView { attempt: 0, max_attempts: max_attempts as nat, delay_ms: base_delay_ms }),
    {
        RetryState { attempt: 0, max_attempts, delay_ms: base_delay_ms }
    }

    /// The attempt under way, counted from 0; always below the limit.
    pub fn attempt(&self) -> (r: usize)
        ensures
            r == self@.attempt,
            r < self@.max_attempts,
    {
        proof {
            use_type_invariant(self);
        }
        self.attempt
    }

    /// The wait before the next retry.
    pub fn delay_ms(&self) -> (r: u64)
        ensures
            r == self@.delay_ms,
    {
        self.delay_ms
    }

    /// Takes the failure of the attempt under way, with the error's
    /// `Debug` text and the wait the backoff gives after the current one.
    /// On a retry the next attempt is under way and `next_delay_ms` is
    /// the wait after it; the number of attempts never passes the limit.
    pub fn on_failure(&mut self, error_text: &str, next_delay_ms: u64) -> (r: RetryAction)
        ensures
            r == retry_decision(old(self)@, error_text@),
            r is Retry ==> final(self)@ == (RetryView {
                attempt: old(self)@.attempt + 1,
                delay_ms: next_delay_ms,
                ..old(self)@
            }),
            r is GiveUp ==> final(self)@ == old(self)@,
            final(self)@.attempt < final(self)@.max_attempts,
    {
        proof {
            use_type_invariant(&*self);
        }
        let kind = is_retryable_error(error_text);
        if kind.is_some() && self.attempt + 1 < self.max_attempts {
            let wait = self.delay_ms;
            self.attempt = self.attempt + 1;
            self.delay_ms = next_delay_ms;
            RetryAction::Retry { wait_ms: wait }
        } else {
            RetryAction::GiveUp
        }
    }
}

/// The report of a call refused by an open circuit breaker.
pub fn circuit_open_text(wait_seconds: usize) -> (r: String)
    ensures
        r@ == "Circuit breaker is open. Please wait "@ + decimal(wait_seconds as nat) + " seconds."@,
{
    String::from_str("Circuit breaker is open. Please wait ").concat(
        usize_text(wait_seconds).as_str(),
    ).concat(" seconds.")
}

/// A circuit breaker: after `max_failures` failures in a row it refuses
/// calls until `timeout_duration` has passed since the last failure.
#[derive(Debug, Clone, Copy)]
pub struct CircuitBreaker {
    pub failure_count: u32,
    pub max_failures: u32,
    pub last_failure_time: Option<std::time::Instant>,
    pub timeout_duration: std::time::Duration,
}

/// Whether a breaker's counts allow it to be open: enough failures, the
/// last of them recorded. Whether it is open then depends on the time.
pub open spec fn may_be_open(cb: CircuitBreaker) -> bool {
    cb.failure_count >= cb.max_failures && cb.last_failure_time is Some
}

/// Whether `after` is `before` with one more failure recorded.
pub open spec fn failed_once(before: CircuitBreaker, after: CircuitBreaker) -> bool {
    &&& after.failure_count == before.failure_count + 1
    &&& after.last_failure_time is Some
    &&& after.max_failures == before.max_failures
    &&& after.timeout_duration == before.timeout_duration
}

/// Whether `after` is `before` after a success: no failures counted, none
/// remembered, the limit and the timeout kept.
pub open spec fn succeeded_once(before: CircuitBreaker, after: CircuitBreaker) -> bool {
    &&& after.failure_count == 0
    &&& after.last_failure_time is None
    &&& after.max_failures == before.max_failures
    &&& after.timeout_duration == before.timeout_duration
}

/// What the end of a call records: a success, or one failure.
pub open spec fn call_ended(before: CircuitBreaker, after: CircuitBreaker, succeeded: bool) -> bool {
    if succeeded {
        succeeded_once(before, after)
    } else {
        failed_once(before, after)
    }
}

/// Whether the circuit is open, given whether the last failure is still
/// recent.
pub open spec fn open_given(cb: CircuitBreaker, still_recent: bool) -> bool {
    may_be_open(cb) && still_recent
}

/// Whether the circuit is open when `elapsed` nanoseconds have passed
/// since the last failure and the timeout is `timeout` nanoseconds long:
/// enough failures in a row, the last recorded, and less time gone than
/// the timeout.
pub open spec fn open_after(cb: CircuitBreaker, elapsed: u128, timeout: u128) -> bool {
    may_be_open(cb) && elapsed < timeout
}

/// Whether a call is allowed when `elapsed` nanoseconds have passed since
/// the last failure, for a timeout of `timeout` nanoseconds.
pub open spec fn allowed_after(cb: CircuitBreaker, elapsed: u128, timeout: u128) -> bool {
    if open_after(cb, elapsed, timeout) {
        false
    } else {
        true
    }
}

/// The answer to a call that the open breaker refuses, for a timeout of
/// `timeout` nanoseconds: the wait in whole seconds.
pub open spec fn open_message(timeout: u128) -> Seq<char> {
    "Circuit breaker is open. Please wait "@ + decimal((timeout / 1_000_000_000) as nat) + " seconds."@
}

/// What the breaker says of a call: go ahead, or refused with a message.
#[derive(Clone, Debug, PartialEq, Eq)]
pub enum Admission {
    Go,
    Refused(String),
}

/// Whether `r` is what the breaker says of a call when `elapsed`
/// nanoseconds have passed since the last failure: go ahead when it is
/// allowed, else refused with the wait.
pub open spec fn admitted_after(cb: CircuitBreaker, elapsed: u128, r: Admission) -> bool {
    let timeout = nanos_of(cb.timeout_duration);
    match r {
        Admission::Go => allowed_after(cb, elapsed, timeout),
        Admission::Refused(m) => !allowed_after(cb, elapsed, timeout) && m@ == open_message(timeout),
    }
}

/// Whether `after` is what a call through the breaker leaves of `before`,
/// the breaker having answered `r` when `elapsed` nanoseconds had passed
/// since the last failure: a refused call leaves it as it was; a call that
/// went ahead is recorded once as it ended.
pub open spec fn called_through(
    before: CircuitBreaker,
    after: CircuitBreaker,
    elapsed: u128,
    r: Admission,
    succeeded: bool,
) -> bool {
    &&& admitted_after(before, elapsed, r)
    &&& match r {
        Admission::Go => call_ended(before, after, succeeded),
        Admission::Refused(_) => after == before,
    }
}

impl Default for CircuitBreaker {
    fn default() -> (r: Self)
        ensures
            r.failure_count == 0,
            r.max_failures == 5,
            r.last_failure_time is None,
            nanos_of(r.timeout_duration) == 30_000_000_000,
    {
        CircuitBreaker {
            failure_count: 0,
            max_failures: 5,
            last_failure_time: None,
            timeout_duration: seconds(30),
        }
    }
}

impl CircuitBreaker {
    /// A closed breaker that opens after `max_failures` failures in a row.
    pub fn new(max_failures: u32, timeout_duration: std::time::Duration) -> (r: CircuitBreaker)
        ensures
            r.failure_count == 0,
            r.max_failures == max_failures,
            r.last_failure_time is None,
            r.timeout_duration == timeout_duration,
    {
        CircuitBreaker { failure_count: 0, max_failures, last_failure_time: None, timeout_duration }
    }

    /// Whether the breaker is open after `elapsed_nanos` since the last
    /// failure, with a timeout of `timeout_nanos`.
    pub fn is_open_after(&self, elapsed_nanos: u128, timeout_nanos: u128) -> (r: bool)
        ensures
            r == open_after(*self, elapsed_nanos, timeout_nanos),
    {
        self.failure_count >= self.max_failures && self.last_failure_time.is_some() && elapsed_nanos
            < timeout_nanos
    }

    /// Whether the breaker is open: enough failures in a row and the last
    /// one less than the timeout ago. The time since the last failure is
    /// read from the clock, so it is some number of nanoseconds; the
    /// timeout is the breaker's own.
    pub fn is_circuit_open(&self) -> (r: bool)
        ensures
            exists|elapsed: u128| r == open_after(*self, elapsed, nanos_of(self.timeout_duration)),
            !may_be_open(*self) ==> !r,
    {
        let timeout = duration_nanos(&self.timeout_duration);
        let elapsed: u128 = if self.failure_count >= self.max_failures {
            match &self.last_failure_time {
                Some(at) => duration_nanos(&elapsed_since(at)),
                None => 0,
            }
        } else {
            0
        };
        let r = self.is_open_after(elapsed, timeout);
        assert(r == open_after(*self, elapsed, nanos_of(self.timeout_duration)));
        r
    }

    /// Whether the breaker is open, given whether the last failure is
    /// still recent.
    pub fn is_open_given(&self, still_recent: bool) -> (r: bool)
        ensures
            r == open_given(*self, still_recent),
    {
        self.failure_count >= self.max_failures && self.last_failure_time.is_some() && still_recent
    }

    /// Records a success: the failure count starts again from zero and the
    /// breaker is closed.
    pub fn record_success(&mut self)
        ensures
            succeeded_once(*old(self), *final(self)),
            !may_be_open(*final(self)),
    {
        self.failure_count = 0;
        self.last_failure_time = None;
    }

    /// Records a failure at the current time.
    pub fn record_failure(&mut self)
        requires
            old(self).failure_count < u32::MAX,
        ensures
            failed_once(*old(self), *final(self)),
    {
        self.failure_count = self.failure_count + 1;
        self.last_failure_time = Some(clock_now());
    }

    /// Whether a call may go ahead: whether the breaker is closed, for
    /// the time read from the clock since the last failure.
    pub fn should_allow_request(&mut self) -> (r: bool)
        ensures
            *final(self) == *old(self),
            exists|elapsed: u128|
                r == allowed_after(*old(self), elapsed, nanos_of(old(self).timeout_duration)),
            !may_be_open(*old(self)) ==> r,
    {
        let open = self.is_circuit_open();
        proof {
            let e = choose|e: u128| open == open_after(*self, e, nanos_of(self.timeout_duration));
            assert(!open == allowed_after(*self, e, nanos_of(self.timeout_duration)));
        }
        if open {
            false
        } else {
            true
        }
    }

    /// Whether a call through the breaker goes ahead: it does when the
    /// breaker is closed; otherwise it is refused, with the wait
    /// in whole seconds, and does not happen. The breaker does not change.
    pub fn admit_call(&self) -> (r: Admission)
        ensures
            exists|elapsed: u128| admitted_after(*self, elapsed, r),
            !may_be_open(*self) ==> r is Go,
    {
        let open = self.is_circuit_open();
        let ghost e = choose|e: u128| open == open_after(*self, e, nanos_of(self.timeout_duration));
        if open {
            let timeout = duration_nanos(&self.timeout_duration);
            let secs = (timeout / 1_000_000_000) as u64;
            let digits = decimal_chars(secs);
            let m = String::from_str("Circuit breaker is open. Please wait ").concat(
                string_of(digits.as_slice()).as_str(),
            ).concat(" seconds.");
            assert(m@ == open_message(nanos_of(self.timeout_duration)));
            let r = Admission::Refused(m);
            assert(admitted_after(*self, e, r));
            r
        } else {
            assert(admitted_after(*self, e, Admission::Go));
            Admission::Go
        }
    }

    /// What a call through the breaker leaves, however many attempts
    /// it took: a success closes the breaker and starts the count again; a
    /// failure counts once.
    pub fn end_call(&mut self, succeeded: bool)
        requires
            succeeded || old(self).failure_count < u32::MAX,
        ensures
            call_ended(*old(self), *final(self), succeeded),
    {
        if succeeded {
            self.record_success();
        } else {
            self.record_failure();
        }
    }
}

/// From a closed breaker, failures recorded one after another leave it
/// able to open (refusing calls while the last failure is recent) exactly
/// from the `max_failures`th failure on.
pub proof fn law_opens_after_max_failures(states: Seq<CircuitBreaker>)
    requires
        states.len() >= 1,
        states[0].failure_count == 0,
        forall|i: int| 0 <= i < states.len() - 1 ==> #[trigger] failed_once(states[i], states[i + 1]),
    ensures
        forall|i: int|
            1 <= i < states.len() ==> (may_be_open(#[trigger] states[i]) <==> i >= states[0].max_failures),
{
    assert forall|i: int| 1 <= i < states.len() implies (may_be_open(#[trigger] states[i]) <==> i
        >= states[0].max_failures) by {
        lemma_failure_counts(states, i);
        let k = i - 1;
        assert(failed_once(states[k], states[k + 1]));
    }
}

/// The breaker through a run of calls. From a closed breaker, failures
/// recorded one after another open it from the `max_failures`th on, for
/// exactly as long as the last failure is less than the timeout ago; a
/// success after them closes it whatever the time; and at every reading
/// of the clock a call is allowed exactly when the breaker is not open.
pub proof fn law_breaker_sequence(
    states: Seq<CircuitBreaker>,
    closed: CircuitBreaker,
    elapsed: u128,
    timeout: u128,
)
    requires
        states.len() >= 1,
        states[0].failure_count == 0,
        forall|i: int| 0 <= i < states.len() - 1 ==> #[trigger] failed_once(states[i], states[i + 1]),
        succeeded_once(states.last(), closed),
    ensures
        forall|i: int|
            1 <= i < states.len() ==> (open_after(#[trigger] states[i], elapsed, timeout) <==> (i
                >= states[0].max_failures && elapsed < timeout)),
        !open_after(closed, elapsed, timeout),
        allowed_after(closed, elapsed, timeout),
        forall|i: int|
            0 <= i < states.len() ==> (allowed_after(#[trigger] states[i], elapsed, timeout)
                <==> !open_after(states[i], elapsed, timeout)),
{
    law_opens_after_max_failures(states);
    assert forall|i: int| 1 <= i < states.len() implies (open_after(#[trigger] states[i], elapsed, timeout)
        <==> (i >= states[0].max_failures && elapsed < timeout)) by {
        assert(may_be_open(states[i]) <==> i >= states[0].max_failures);
    }
}

/// A call through the breaker. It is refused exactly when the breaker is
/// open, and then the operation does not run and the breaker stays as it
/// was; otherwise the operation runs, however many attempts it makes
/// inside, and the breaker records it once: a success leaves the count at
/// zero and the breaker closed, a failure adds one to the count and
/// remembers when.
pub proof fn law_call_through_breaker(
    before: CircuitBreaker,
    after: CircuitBreaker,
    elapsed: u128,
    r: Admission,
    succeeded: bool,
)
    requires
        called_through(before, after, elapsed, r, succeeded),
    ensures
        r is Refused <==> open_after(before, elapsed, nanos_of(before.timeout_duration)),
        r is Refused ==> after == before && may_be_open(before),
        r is Go ==> after.failure_count == (if succeeded {
            0
        } else {
            before.failure_count + 1
        }),
        r is Go ==> (after.last_failure_time is Some <==> !succeeded),
        r is Go && succeeded ==> forall|e: u128, t: u128| !open_after(after, e, t),
        after.max_failures == before.max_failures,
        after.timeout_duration == before.timeout_duration,
{
}

/// Along failures recorded one after another from a closed breaker, the
/// `i`th breaker has counted `i` failures under the first one's limit.
proof fn lemma_failure_counts(states: Seq<CircuitBreaker>, i: int)
    requires
        0 <= i < states.len(),
        states[0].failure_count == 0,
        forall|k: int| 0 <= k < states.len() - 1 ==> #[trigger] failed_once(states[k], states[k + 1]),
    ensures
        states[i].failure_count == i,
        states[i].max_failures == states[0].max_failures,
    decreases i,
{
    if i > 0 {
        lemma_failure_counts(states, i - 1);
        assert(failed_once(states[i - 1], states[i]));
    }
}

} // verus!
