//! Voice transcription requests: the backend URL, the attempt schedule's
//! retry rules, and what each failed attempt leads to.

use vstd::prelude::*;

use crate::text::{chars_to_string, push_str, str_chars};

verus! {

/// Whether `needle` occurs in `hay`.
pub open spec fn contains_seq(hay: Seq<char>, needle: Seq<char>) -> bool {
    exists|i: int| 0 <= i && i + needle.len() <= hay.len() && #[trigger] hay.subrange(i, i + needle.len()) == needle
}

pub open spec fn has_prefix(s: Seq<char>, p: Seq<char>) -> bool {
    p.len() <= s.len() && s.take(p.len() as int) == p
}

fn contains_chars(hay: &Vec<char>, needle: &str) -> (r: bool)
    ensures
        r == contains_seq(hay@, needle@),
{
    let nv = str_chars(needle);
    let n = nv.len();
    if n > hay.len() {
        assert(!contains_seq(hay@, needle@));
        return false;
    }
    let mut i: usize = 0;
    while i <= hay.len() - n
        invariant
            n == nv@.len() == needle@.len(),
            nv@ == needle@,
            n <= hay.len(),
            i <= hay.len() - n + 1,
            forall|k: int| 0 <= k < i ==> #[trigger] hay@.subrange(k, k + n) != needle@,
        decreases hay.len() - n + 1 - i,
    {
        let mut j: usize = 0;
        let mut same = true;
        while j < n
            invariant
                j <= n,
                i + n <= hay.len(),
                n == nv@.len(),
                same == (forall|m: int| 0 <= m < j ==> hay@[i + m] == nv@[m]),
            decreases n - j,
        {
            if hay[i + j] != nv[j] {
                same = false;
            }
            j = j + 1;
        }
        if same {
            assert(hay@.subrange(i as int, i + n) =~= needle@);
            return true;
        }
        assert(hay@.subrange(i as int, i + n) != needle@) by {
            let w = choose|m: int| 0 <= m < n && hay@[i + m] != nv@[m];
            assert(hay@.subrange(i as int, i + n)[w] != needle@[w]);
        }
        i = i + 1;
    }
    assert(!contains_seq(hay@, needle@)) by {
        if contains_seq(hay@, needle@) {
            let w = choose|w: int| 0 <= w && w + needle@.len() <= hay@.len() && #[trigger] hay@.subrange(w, w + needle@.len()) == needle@;
            assert(hay@.subrange(w, w + n) != needle@);
        }
    }
    false
}

fn has_prefix_chars(s: &Vec<char>, p: &str) -> (r: bool)
    ensures
        r == has_prefix(s@, p@),
{
    crate::text::starts_with_str(s.as_slice(), p)
}

/// The base URL of the ChatGPT backend: trailing `/` dropped, and, on a
/// ChatGPT host, `/backend-api` added unless it is already there.
pub open spec fn backend_base_url_spec(input: Seq<char>) -> Seq<char> {
    let b = crate::text::strip_end_char(input, '/');
    if (has_prefix(b, "https://chatgpt.com"@) || has_prefix(b, "https://chat.openai.com"@))
        && !contains_seq(b, "/backend-api"@) {
        b + "/backend-api"@
    } else {
        b
    }
}

pub fn normalize_chatgpt_base_url(input: &str) -> (r: String)
    ensures
        r@ == backend_base_url_spec(input@),
{
    let v = str_chars(input);
    let mut j = v.len();
    assert(v@.take(j as int) =~= v@);
    while j > 0 && v[j - 1] == '/'
        invariant
            j <= v.len(),
            crate::text::strip_end_char(v@, '/') == crate::text::strip_end_char(v@.take(j as int), '/'),
        decreases j,
    {
        assert(v@.take(j as int).drop_last() =~= v@.take(j - 1));
        j = j - 1;
    }
    let mut b: Vec<char> = Vec::new();
    let mut i: usize = 0;
    while i < j
        invariant
            i <= j <= v.len(),
            b@ == v@.take(i as int),
        decreases j - i,
    {
        b.push(v[i]);
        assert(v@.take(i as int + 1) =~= v@.take(i as int).push(v@[i as int]));
        i = i + 1;
    }
    proof {
        if j > 0 {
            assert(v@.take(j as int).last() != '/');
        }
    }
    if (has_prefix_chars(&b, "https://chatgpt.com") || has_prefix_chars(&b, "https://chat.openai.com"))
        && !contains_chars(&b, "/backend-api") {
        push_str(&mut b, "/backend-api");
    }
    chars_to_string(b.as_slice())
}

/// How many attempts a transcription gets.
pub const TRANSCRIPTION_ATTEMPT_COUNT: usize = 3;

/// One attempt of the schedule: its number and how long it may take.
#[derive(Clone, Copy, Debug, PartialEq, Eq, Structural)]
pub struct TranscriptionAttempt {
    pub number: usize,
    pub timeout_ms: u64,
}

/// The first attempt's timeout: two seconds per second of audio, between 2 s
/// and 15 s.
pub const FIRST_ATTEMPT_MIN_TIMEOUT_MS: u64 = 2_000;

pub const FIRST_ATTEMPT_MAX_TIMEOUT_MS: u64 = 15_000;

pub const FIRST_ATTEMPT_TIMEOUT_PER_AUDIO_SECOND: u64 = 2;

/// The second attempt's timeout: three seconds per second of audio, between
/// 4 s and 30 s.
pub const SECOND_ATTEMPT_MIN_TIMEOUT_MS: u64 = 4_000;

pub const SECOND_ATTEMPT_MAX_TIMEOUT_MS: u64 = 30_000;

pub const SECOND_ATTEMPT_TIMEOUT_PER_AUDIO_SECOND: u64 = 3;

/// The last attempt always gets a minute.
pub const FINAL_ATTEMPT_TIMEOUT_MS: u64 = 60_000;

/// A timeout that grows with the audio: `per_second` times its length,
/// clamped to `[min, max]`; `min` for no audio.
pub open spec fn scaled_timeout_spec(duration_ms: int, min: int, max: int, per_second: int) -> int {
    let scaled = if duration_ms > 0 {
        duration_ms * per_second
    } else {
        min
    };
    if scaled < min {
        min
    } else if scaled > max {
        max
    } else {
        scaled
    }
}

fn scaled_timeout_ms(duration_ms: u64, min: u64, max: u64, per_second: u64) -> (r: u64)
    requires
        1 <= per_second <= 3,
        min <= max <= 60_000,
    ensures
        r as int == scaled_timeout_spec(duration_ms as int, min as int, max as int, per_second as int),
{
    if duration_ms == 0 {
        return min;
    }
    if duration_ms > max {
        assert(duration_ms * per_second > max) by (nonlinear_arith)
            requires
                duration_ms > max,
                per_second >= 1,
        ;
        return max;
    }
    assert(duration_ms * per_second <= 180_000) by (nonlinear_arith)
        requires
            duration_ms <= 60_000,
            per_second <= 3,
    ;
    let scaled = duration_ms * per_second;
    if scaled < min {
        min
    } else if scaled > max {
        max
    } else {
        scaled
    }
}

/// Retries never get less time: each attempt of a schedule may run at least
/// as long as the one before, and a longer recording never shortens a
/// timeout.
pub proof fn lemma_attempt_timeouts_grow(duration_ms: int, longer_ms: int)
    requires
        0 <= duration_ms <= longer_ms,
    ensures
        scaled_timeout_spec(duration_ms, 2_000, 15_000, 2) <= scaled_timeout_spec(
            duration_ms,
            4_000,
            30_000,
            3,
        ) <= FINAL_ATTEMPT_TIMEOUT_MS,
        scaled_timeout_spec(duration_ms, 2_000, 15_000, 2) <= scaled_timeout_spec(
            longer_ms,
            2_000,
            15_000,
            2,
        ),
        scaled_timeout_spec(duration_ms, 4_000, 30_000, 3) <= scaled_timeout_spec(
            longer_ms,
            4_000,
            30_000,
            3,
        ),
{
}

/// The attempt schedule for a recording `duration_ms` long: the first two
/// timeouts scale with the audio, the last is fixed.
pub fn transcription_request_attempts(duration_ms: u64) -> (r: [TranscriptionAttempt; 3])
    ensures
        r@[0] == (TranscriptionAttempt {
            number: 1,
            timeout_ms: scaled_timeout_spec(
                duration_ms as int,
                FIRST_ATTEMPT_MIN_TIMEOUT_MS as int,
                FIRST_ATTEMPT_MAX_TIMEOUT_MS as int,
                FIRST_ATTEMPT_TIMEOUT_PER_AUDIO_SECOND as int,
            ) as u64,
        }),
        r@[1] == (TranscriptionAttempt {
            number: 2,
            timeout_ms: scaled_timeout_spec(
                duration_ms as int,
                SECOND_ATTEMPT_MIN_TIMEOUT_MS as int,
                SECOND_ATTEMPT_MAX_TIMEOUT_MS as int,
                SECOND_ATTEMPT_TIMEOUT_PER_AUDIO_SECOND as int,
            ) as u64,
        }),
        r@[2] == (TranscriptionAttempt { number: 3, timeout_ms: FINAL_ATTEMPT_TIMEOUT_MS }),
{
    [
        TranscriptionAttempt {
            number: 1,
            timeout_ms: scaled_timeout_ms(
                duration_ms,
                FIRST_ATTEMPT_MIN_TIMEOUT_MS,
                FIRST_ATTEMPT_MAX_TIMEOUT_MS,
                FIRST_ATTEMPT_TIMEOUT_PER_AUDIO_SECOND,
            ),
        },
        TranscriptionAttempt {
            number: 2,
            timeout_ms: scaled_timeout_ms(
                duration_ms,
                SECOND_ATTEMPT_MIN_TIMEOUT_MS,
                SECOND_ATTEMPT_MAX_TIMEOUT_MS,
                SECOND_ATTEMPT_TIMEOUT_PER_AUDIO_SECOND,
            ),
        },
        TranscriptionAttempt { number: 3, timeout_ms: FINAL_ATTEMPT_TIMEOUT_MS },
    ]
}

/// Why an attempt failed. HTTP failures keep the status code and the
/// `Retry-After` delay the server asked for.
#[derive(Clone, Debug, PartialEq, Eq)]
pub enum TranscriptionFailure {
    Build(String),
    Timeout { after_ms: u64 },
    Send(String),
    Status { status: u16, body: String, retry_after_ms: Option<u64> },
    Json(String),
}

/// Whether to try again, and after which delay.
#[derive(Clone, Copy, Debug, PartialEq, Eq, Structural)]
pub enum TranscriptionRetryDecision {
    Retry { delay_ms: Option<u64> },
    Stop,
}

pub const BAD_GATEWAY: u16 = 502;

pub const SERVICE_UNAVAILABLE: u16 = 503;

pub const GATEWAY_TIMEOUT: u16 = 504;

pub const TOO_MANY_REQUESTS: u16 = 429;

/// Only transient failures are retried, and only while attempts remain:
/// timeouts, send errors and gateway errors at once; rate limiting after the
/// server's delay when that fits in the next attempt's timeout (and at once
/// when it gave none).
pub open spec fn retry_decision_spec(
    failure: TranscriptionFailure,
    next: Option<TranscriptionAttempt>,
) -> TranscriptionRetryDecision {
    match next {
        None => TranscriptionRetryDecision::Stop,
        Some(n) => match failure {
            TranscriptionFailure::Timeout { .. } | TranscriptionFailure::Send(_) => {
                TranscriptionRetryDecision::Retry { delay_ms: None }
            },
            TranscriptionFailure::Status { status, retry_after_ms, .. } => {
                if status == BAD_GATEWAY || status == SERVICE_UNAVAILABLE || status == GATEWAY_TIMEOUT {
                    TranscriptionRetryDecision::Retry { delay_ms: None }
                } else if status == TOO_MANY_REQUESTS {
                    match retry_after_ms {
                        Some(d) => if d <= n.timeout_ms {
                            TranscriptionRetryDecision::Retry { delay_ms: Some(d) }
                        } else {
                            TranscriptionRetryDecision::Stop
                        },
                        None => TranscriptionRetryDecision::Retry { delay_ms: None },
                    }
                } else {
                    TranscriptionRetryDecision::Stop
                }
            },
            TranscriptionFailure::Build(_) | TranscriptionFailure::Json(_) => {
                TranscriptionRetryDecision::Stop
            },
        },
    }
}

pub fn transcription_retry_decision(
    failure: &TranscriptionFailure,
    next_attempt: Option<TranscriptionAttempt>,
) -> (r: TranscriptionRetryDecision)
    ensures
        r == retry_decision_spec(*failure, next_attempt),
{
    let next = match next_attempt {
        Some(n) => n,
        None => return TranscriptionRetryDecision::Stop,
    };
    match failure {
        TranscriptionFailure::Timeout { .. } | TranscriptionFailure::Send(_) => {
            TranscriptionRetryDecision::Retry { delay_ms: None }
        },
        TranscriptionFailure::Status { status, retry_after_ms, .. } => {
            if *status == BAD_GATEWAY || *status == SERVICE_UNAVAILABLE || *status == GATEWAY_TIMEOUT {
                TranscriptionRetryDecision::Retry { delay_ms: None }
            } else if *status == TOO_MANY_REQUESTS {
                match retry_after_ms {
                    Some(d) => {
                        if *d <= next.timeout_ms {
                            TranscriptionRetryDecision::Retry { delay_ms: Some(*d) }
                        } else {
                            TranscriptionRetryDecision::Stop
                        }
                    },
                    None => TranscriptionRetryDecision::Retry { delay_ms: None },
                }
            } else {
                TranscriptionRetryDecision::Stop
            }
        },
        TranscriptionFailure::Build(_) | TranscriptionFailure::Json(_) => {
            TranscriptionRetryDecision::Stop
        },
    }
}

/// Retrying is bounded: after the last attempt of a schedule there is no
/// retry, a retry never waits longer than the next attempt may run, and a
/// request that could not be built or whose reply could not be read is never
/// retried.
pub proof fn lemma_retry_is_bounded(failure: TranscriptionFailure, next: Option<TranscriptionAttempt>)
    ensures
        next is None ==> retry_decision_spec(failure, next) == TranscriptionRetryDecision::Stop,
        retry_decision_spec(failure, next) matches TranscriptionRetryDecision::Retry { delay_ms: Some(d) }
            ==> next is Some && d <= next->0.timeout_ms,
        (failure is Build || failure is Json) ==> retry_decision_spec(failure, next)
            == TranscriptionRetryDecision::Stop,
{
}

/// A reply status, when the failure is a reply with a status.
pub open spec fn failure_status(failure: TranscriptionFailure) -> Option<u16> {
    match failure {
        TranscriptionFailure::Status { status, .. } => Some(status),
        _ => None,
    }
}

/// The delay a reply asked for, when the failure is a reply that named one.
pub open spec fn failure_retry_after(failure: TranscriptionFailure) -> Option<u64> {
    match failure {
        TranscriptionFailure::Status { retry_after_ms, .. } => retry_after_ms,
        _ => None,
    }
}

/// Retry at once.
pub open spec fn retry_at_once() -> TranscriptionRetryDecision {
    TranscriptionRetryDecision::Retry { delay_ms: None }
}

/// Retry after `d` milliseconds.
pub open spec fn retry_after(d: u64) -> TranscriptionRetryDecision {
    TranscriptionRetryDecision::Retry { delay_ms: Some(d) }
}

/// With an attempt left, transient failures are retried: timeouts, send
/// errors and `502`, `503` and `504` replies at once; a `429` reply at once
/// when it names no delay, after its delay when that fits in the next
/// attempt's timeout, and not at all otherwise. Every other reply status is
/// final.
pub proof fn lemma_transient_failures_are_retried(failure: TranscriptionFailure, next: TranscriptionAttempt)
    ensures
        (failure is Timeout || failure is Send) ==> retry_decision_spec(failure, Some(next))
            == retry_at_once(),
        (failure_status(failure) == Some(502u16) || failure_status(failure) == Some(503u16)
            || failure_status(failure) == Some(504u16)) ==> retry_decision_spec(failure, Some(next))
            == retry_at_once(),
        (failure_status(failure) == Some(429u16) && failure_retry_after(failure) is None)
            ==> retry_decision_spec(failure, Some(next)) == retry_at_once(),
        (failure_status(failure) == Some(429u16) && failure_retry_after(failure) is Some
            && failure_retry_after(failure)->0 <= next.timeout_ms) ==> retry_decision_spec(
            failure,
            Some(next),
        ) == retry_after(failure_retry_after(failure)->0),
        (failure_status(failure) == Some(429u16) && failure_retry_after(failure) is Some
            && failure_retry_after(failure)->0 > next.timeout_ms) ==> retry_decision_spec(
            failure,
            Some(next),
        ) == TranscriptionRetryDecision::Stop,
        (failure_status(failure) is Some && failure_status(failure) != Some(429u16)
            && failure_status(failure) != Some(502u16) && failure_status(failure) != Some(503u16)
            && failure_status(failure) != Some(504u16)) ==> retry_decision_spec(failure, Some(next))
            == TranscriptionRetryDecision::Stop,
{
}

/// Shown when an attempt is retried.
#[derive(Clone, Copy, Debug, PartialEq, Eq, Structural)]
pub struct TranscriptionRetryNotice {
    pub next_attempt: usize,
    pub max_attempts: usize,
}

/// What follows a failed attempt.
#[derive(Clone, Copy, Debug, PartialEq, Eq, Structural)]
pub enum RetryStep {
    /// Tell the user, wait for the delay if any, then run the next attempt.
    Retry { notice: TranscriptionRetryNotice, delay_ms: Option<u64> },
    /// Give up with this attempt's error.
    GiveUp,
}

/// The step after attempt `index` of `attempts` failed with `failure`: the
/// retry decision against the next attempt of the schedule, if any.
pub fn retry_step(attempts: &[TranscriptionAttempt], index: usize, failure: &TranscriptionFailure) -> (r:
    RetryStep)
    requires
        index < attempts@.len(),
        attempts@[index as int].number < usize::MAX,
    ensures
        match retry_decision_spec(
            *failure,
            if index + 1 < attempts@.len() {
                Some(attempts@[index + 1])
            } else {
                None
            },
        ) {
            TranscriptionRetryDecision::Retry { delay_ms } => r == RetryStep::Retry {
                notice: TranscriptionRetryNotice {
                    next_attempt: (attempts@[index as int].number + 1) as usize,
                    max_attempts: TRANSCRIPTION_ATTEMPT_COUNT,
                },
                delay_ms,
            },
            TranscriptionRetryDecision::Stop => r == RetryStep::GiveUp,
        },
{
    let next = if index + 1 < attempts.len() {
        Some(attempts[index + 1])
    } else {
        None
    };
    match transcription_retry_decision(failure, next) {
        TranscriptionRetryDecision::Retry { delay_ms } => RetryStep::Retry {
            notice: TranscriptionRetryNotice {
                next_attempt: attempts[index].number + 1,
                max_attempts: TRANSCRIPTION_ATTEMPT_COUNT,
            },
            delay_ms,
        },
        TranscriptionRetryDecision::Stop => RetryStep::GiveUp,
    }
}

} // verus!
