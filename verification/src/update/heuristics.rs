//! Provider keys, retry rules and the order of pending downloads.
use crate::text::{
    before_char, before_char_exec, chars_of, contains, contains_seq, is_suffix, lit, lower,
    split_once, split_once_exec, string_of, to_lower, ends_with,
};
use crate::state::AppState;
use crate::update::types::UpdateWorkResult;
use vstd::prelude::*;

verus! {

/// Base delay of the retry back-off, in seconds.
pub const RETRY_BASE_DELAY: u64 = 2;

/// Ceiling of the retry back-off, in seconds.
pub const RETRY_MAX_DELAY: u64 = 60;

/// Downloads of at least this many bytes are large.
pub const LARGE_DOWNLOAD_BYTES: u64 = 536870912;

/// The host part of a URL: after `scheme://`, before the first `/`.
pub open spec fn url_host(url: Seq<char>) -> Seq<char> {
    let rest = match split_once(url, "://"@) {
        Some((_, r)) => r,
        None => url,
    };
    before_char(rest, '/')
}

/// The provider a download URL belongs to: `github` for GitHub hosts, else the
/// lowercase host without its port.
pub open spec fn provider_key_spec(url: Seq<char>) -> Seq<char> {
    let host = before_char(lower(url_host(url)), ':');
    if is_suffix("github.com"@, host) || is_suffix("githubusercontent.com"@, host) {
        "github"@
    } else {
        host
    }
}

/// Canonical short provider key of a download URL.
pub fn download_provider_key(url: &str) -> (r: String)
    ensures
        r@ == provider_key_spec(url@),
{
    let u = chars_of(url);
    let rest = match split_once_exec(&u, &lit("://")) {
        Some((_, r)) => r,
        None => u,
    };
    let host = before_char_exec(&to_lower(&before_char_exec(&rest, '/')), ':');
    if ends_with(&host, &lit("github.com")) || ends_with(&host, &lit("githubusercontent.com")) {
        String::from_str("github")
    } else {
        string_of(&host)
    }
}

/// Error messages (lowercased) that name a transient network failure.
pub open spec fn retryable_message(message: Seq<char>) -> bool {
    let m = lower(message);
    contains_seq(m, "chunk length cannot be read as a number"@)
        || contains_seq(m, "chunk expected crlf as next character"@)
        || contains_seq(m, "chunk length is not ascii"@)
        || contains_seq(m, "body content after finish"@)
        || contains_seq(m, "body is chunked"@)
        || contains_seq(m, "unexpected eof"@)
        || contains_seq(m, "end of file"@)
        || contains_seq(m, "incomplete message"@)
        || contains_seq(m, "connection reset"@)
        || contains_seq(m, "connection aborted"@)
        || contains_seq(m, "broken pipe"@)
        || contains_seq(m, "os error 32"@)
        || contains_seq(m, "os error 104"@)
        || contains_seq(m, "timed out"@)
        || contains_seq(m, "timeout"@)
        || contains_seq(m, "operation timed out"@)
        || contains_seq(m, "failed to fill whole buffer"@)
}

/// Error messages (lowercased) that name a server-side rate limit.
pub open spec fn rate_limit_message(message: Seq<char>) -> bool {
    let m = lower(message);
    contains_seq(m, "429"@) || contains_seq(m, "too many requests"@) || contains_seq(m, "rate limit"@)
        || contains_seq(m, "rate-limit"@) || contains_seq(m, "retry-after"@)
}

/// Whether a download error, given by its full message chain, is a transient network
/// problem worth retrying.
pub fn should_retry_download_error(error: &str) -> (r: bool)
    ensures
        r == retryable_message(error@),
{
    let m = to_lower(&chars_of(error));
    contains(&m, &lit("chunk length cannot be read as a number"))
        || contains(&m, &lit("chunk expected crlf as next character"))
        || contains(&m, &lit("chunk length is not ascii"))
        || contains(&m, &lit("body content after finish"))
        || contains(&m, &lit("body is chunked"))
        || contains(&m, &lit("unexpected eof"))
        || contains(&m, &lit("end of file"))
        || contains(&m, &lit("incomplete message"))
        || contains(&m, &lit("connection reset"))
        || contains(&m, &lit("connection aborted"))
        || contains(&m, &lit("broken pipe"))
        || contains(&m, &lit("os error 32"))
        || contains(&m, &lit("os error 104"))
        || contains(&m, &lit("timed out"))
        || contains(&m, &lit("timeout"))
        || contains(&m, &lit("operation timed out"))
        || contains(&m, &lit("failed to fill whole buffer"))
}

/// Whether an error, given by its full message chain, looks like a server-side rate limit.
pub fn is_rate_limit_error(error: &str) -> (r: bool)
    ensures
        r == rate_limit_message(error@),
{
    let m = to_lower(&chars_of(error));
    contains(&m, &lit("429")) || contains(&m, &lit("too many requests")) || contains(&m, &lit("rate limit"))
        || contains(&m, &lit("rate-limit")) || contains(&m, &lit("retry-after"))
}

/// `2^n`.
pub open spec fn pow2(n: nat) -> nat
    decreases n,
{
    if n == 0 {
        1
    } else {
        2 * pow2((n - 1) as nat)
    }
}

/// The back-off before retry `attempt` (counted from zero), in seconds: the base
/// delay doubled per attempt, capped at the maximum.
pub open spec fn backoff_secs(attempt: nat) -> nat {
    let d = (RETRY_BASE_DELAY as nat) * pow2(attempt);
    if d > RETRY_MAX_DELAY { RETRY_MAX_DELAY as nat } else { d }
}

proof fn lemma_pow2_grows(a: nat, b: nat)
    requires
        a <= b,
    ensures
        1 <= pow2(a) <= pow2(b),
        a < b ==> pow2(a) < pow2(b),
    decreases b,
{
    if a < b {
        lemma_pow2_grows(a, (b - 1) as nat);
    } else if a > 0 {
        lemma_pow2_grows((a - 1) as nat, (a - 1) as nat);
    }
}

/// Exponential back-off for retry `attempt`, in seconds, capped at [`RETRY_MAX_DELAY`].
pub fn retry_backoff_delay(attempt: u32) -> (r: u64)
    ensures
        r == backoff_secs(attempt as nat),
{
    if attempt >= 5 {
        proof {
            lemma_pow2_grows(5, attempt as nat);
            assert(pow2(5) == 32) by {
                reveal_with_fuel(pow2, 6);
            }
        }
        return RETRY_MAX_DELAY;
    }
    let mut d: u64 = RETRY_BASE_DELAY;
    let mut i: u32 = 0;
    while i < attempt
        invariant
            i <= attempt < 5,
            d == RETRY_BASE_DELAY * pow2(i as nat),
            d <= 32,
        decreases attempt - i,
    {
        proof {
            lemma_pow2_grows((i + 1) as nat, 4);
            assert(pow2(4) == 16) by {
                reveal_with_fuel(pow2, 5);
            }
        }
        d = d * 2;
        i = i + 1;
    }
    proof {
        lemma_pow2_grows(attempt as nat, 4);
        assert(pow2(4) == 16) by {
            reveal_with_fuel(pow2, 5);
        }
    }
    d
}

/// The back-off never shrinks from one attempt to the next, grows strictly until it
/// reaches the maximum, and never exceeds it.
pub proof fn law_backoff_monotone_and_capped(a: nat, b: nat)
    requires
        a <= b,
    ensures
        backoff_secs(a) <= backoff_secs(b),
        backoff_secs(b) <= RETRY_MAX_DELAY,
        a < b && backoff_secs(a) < RETRY_MAX_DELAY ==> backoff_secs(a) < backoff_secs(b),
{
    lemma_pow2_grows(a, b);
}

/// Whether an estimated size counts as a large download.
pub open spec fn is_large_spec(bytes: Option<u64>) -> bool {
    match bytes {
        Some(b) => b >= LARGE_DOWNLOAD_BYTES,
        None => false,
    }
}

/// The expected size of the next download: the size recorded for the last one, else
/// the size of the installed file (`installed_file_len`, when it could be read).
pub fn estimate_download_bytes(state: &AppState, installed_file_len: Option<u64>) -> (r: Option<u64>)
    ensures
        r == match state.download_bytes {
            Some(b) => Some(b),
            None => installed_file_len,
        },
{
    match state.download_bytes {
        Some(b) => Some(b),
        None => installed_file_len,
    }
}

/// Returns `true` if the estimated size qualifies as a large download.
pub fn is_large_download(estimated_download_bytes: Option<u64>) -> (r: bool)
    ensures
        r == is_large_spec(estimated_download_bytes),
{
    match estimated_download_bytes {
        Some(b) => b >= LARGE_DOWNLOAD_BYTES,
        None => false,
    }
}

/// How long a finished piece of update work took, in milliseconds.
pub fn update_work_elapsed(result: &UpdateWorkResult) -> (r: u64)
    ensures
        r == result.elapsed_spec(),
{
    match result {
        UpdateWorkResult::ReadyToDownload { elapsed, .. } => *elapsed,
        UpdateWorkResult::Updated { elapsed, .. } => *elapsed,
        UpdateWorkResult::UpToDate { elapsed, .. } => *elapsed,
        UpdateWorkResult::Error { elapsed, .. } => *elapsed,
        UpdateWorkResult::RateLimited { elapsed, .. } => *elapsed,
    }
}


/// Downloads of at least this many bytes run alone.
pub const VERY_LARGE_DOWNLOAD_BYTES: u64 = 1073741824;

/// Consecutive fast readings needed before adding workers.
pub const SCALE_UP_HYSTERESIS: u32 = 2;

/// Consecutive slow readings needed before removing a worker.
pub const SCALE_DOWN_HYSTERESIS: u32 = 3;

/// How the latest download speed compares with the session's thresholds.
#[derive(Clone, Copy, Debug, PartialEq, Eq)]
pub enum SpeedReading {
    /// No speed sample yet.
    Unknown,
    /// At or above the fast threshold; `multiple` is how many whole times the sample
    /// exceeds the threshold, at most three.
    Fast { multiple: usize },
    /// At or below the slow threshold.
    Slow,
    /// Between the two thresholds.
    Steady,
}

/// `v` held between `lo` and `hi`.
pub open spec fn clamp_int(v: int, lo: int, hi: int) -> int {
    if v < lo {
        lo
    } else if v > hi {
        hi
    } else {
        v
    }
}

/// `v` held between 1 and `hi`.
fn clamp_count(v: usize, hi: usize) -> (r: usize)
    requires
        hi >= 1,
    ensures
        r == clamp_int(v as int, 1, hi as int),
{
    if v < 1 {
        1
    } else if v > hi {
        hi
    } else {
        v
    }
}

/// The worker count and the fast and slow counters after one speed reading.
pub open spec fn speed_adapt_spec(
    current: int,
    reading: SpeedReading,
    pending: int,
    hard_max: int,
    fast_ticks: int,
    slow_ticks: int,
) -> (int, int, int) {
    match reading {
        SpeedReading::Unknown => (clamp_int(current, 1, hard_max), fast_ticks, slow_ticks),
        SpeedReading::Fast { multiple } => {
            if pending > current {
                if fast_ticks + 1 >= SCALE_UP_HYSTERESIS && current < hard_max {
                    let step = if multiple < 1 { 1 } else { multiple as int };
                    (if current + step < hard_max { current + step } else { hard_max }, 0, 0)
                } else {
                    (current, fast_ticks + 1, 0)
                }
            } else {
                (clamp_int(current, 1, hard_max), 0, 0)
            }
        },
        SpeedReading::Slow => {
            if slow_ticks + 1 >= SCALE_DOWN_HYSTERESIS && current > 1 {
                (current - 1, 0, 0)
            } else {
                (current, 0, slow_ticks + 1)
            }
        },
        SpeedReading::Steady => (clamp_int(current, 1, hard_max), 0, 0),
    }
}

/// The inputs on which the speed adaptation is defined: a counter it increments is
/// below its maximum, and a count it clamps has a ceiling of at least one.
pub open spec fn speed_adapt_defined(
    current: int,
    reading: SpeedReading,
    pending: int,
    hard_max: int,
    fast_ticks: int,
    slow_ticks: int,
) -> bool {
    match reading {
        SpeedReading::Fast { .. } => if pending > current {
            fast_ticks < u32::MAX
        } else {
            hard_max >= 1
        },
        SpeedReading::Slow => slow_ticks < u32::MAX,
        _ => hard_max >= 1,
    }
}

/// Worker count for the next round from the latest speed reading: after enough
/// consecutive fast readings with work waiting it grows by the reading's multiple
/// (at least one, never past `hard_max`); after enough slow readings it shrinks by
/// one; otherwise it holds. Returns the count and the new fast and slow counters.
pub fn adapt_worker_limit_for_speed(
    current: usize,
    reading: SpeedReading,
    pending: usize,
    hard_max: usize,
    fast_ticks: u32,
    slow_ticks: u32,
) -> (r: (usize, u32, u32))
    requires
        speed_adapt_defined(current as int, reading, pending as int, hard_max as int, fast_ticks as int, slow_ticks as int),
    ensures
        (r.0 as int, r.1 as int, r.2 as int) == speed_adapt_spec(
            current as int,
            reading,
            pending as int,
            hard_max as int,
            fast_ticks as int,
            slow_ticks as int,
        ),
{
    match reading {
        SpeedReading::Unknown => (clamp_count(current, hard_max), fast_ticks, slow_ticks),
        SpeedReading::Fast { multiple } => {
            if pending > current {
                let new_fast = fast_ticks + 1;
                if new_fast >= SCALE_UP_HYSTERESIS && current < hard_max {
                    let step = if multiple < 1 { 1 } else { multiple };
                    let next = if step < hard_max - current { current + step } else { hard_max };
                    (next, 0, 0)
                } else {
                    (current, new_fast, 0)
                }
            } else {
                (clamp_count(current, hard_max), 0, 0)
            }
        },
        SpeedReading::Slow => {
            let new_slow = slow_ticks + 1;
            if new_slow >= SCALE_DOWN_HYSTERESIS && current > 1 {
                (current - 1, 0, 0)
            } else {
                (current, 0, new_slow)
            }
        },
        SpeedReading::Steady => (clamp_count(current, hard_max), 0, 0),
    }
}

/// The download concurrency and counters after one reading: the speed adaptation,
/// then one download at a time from `VERY_LARGE_DOWNLOAD_BYTES` in flight, at most two
/// (at high speed) or three from `LARGE_DOWNLOAD_BYTES`, held between 1 and `hard_max`.
pub open spec fn download_limit_spec(
    current: int,
    downloaded_bytes: int,
    reading: SpeedReading,
    high_speed: bool,
    pending: int,
    hard_max: int,
    fast_ticks: int,
    slow_ticks: int,
) -> (int, int, int) {
    let (next, fast, slow) = match reading {
        SpeedReading::Unknown => (current, fast_ticks, slow_ticks),
        _ => speed_adapt_spec(current, reading, pending, hard_max, fast_ticks, slow_ticks),
    };
    let cap = if high_speed { 2int } else { 3int };
    let capped = if downloaded_bytes >= VERY_LARGE_DOWNLOAD_BYTES {
        1
    } else if downloaded_bytes >= LARGE_DOWNLOAD_BYTES {
        if next < cap { next } else { cap }
    } else {
        next
    };
    (clamp_int(capped, 1, hard_max), fast, slow)
}

/// Download concurrency for the next round from the latest reading and the bytes of
/// the download in flight; `high_speed` says whether that download runs at high speed.
pub fn adapt_download_limit(
    current: usize,
    downloaded_bytes: u64,
    reading: SpeedReading,
    high_speed: bool,
    pending: usize,
    hard_max: usize,
    fast_ticks: u32,
    slow_ticks: u32,
) -> (r: (usize, u32, u32))
    requires
        hard_max >= 1,
        speed_adapt_defined(current as int, reading, pending as int, hard_max as int, fast_ticks as int, slow_ticks as int),
    ensures
        (r.0 as int, r.1 as int, r.2 as int) == download_limit_spec(
            current as int,
            downloaded_bytes as int,
            reading,
            high_speed,
            pending as int,
            hard_max as int,
            fast_ticks as int,
            slow_ticks as int,
        ),
        1 <= r.0 <= hard_max,
{
    let (mut next, new_fast, new_slow) = match reading {
        SpeedReading::Unknown => (current, fast_ticks, slow_ticks),
        _ => adapt_worker_limit_for_speed(current, reading, pending, hard_max, fast_ticks, slow_ticks),
    };
    if downloaded_bytes >= VERY_LARGE_DOWNLOAD_BYTES {
        next = 1;
    } else if downloaded_bytes >= LARGE_DOWNLOAD_BYTES {
        let cap: usize = if high_speed { 2 } else { 3 };
        next = if next < cap { next } else { cap };
    }
    (clamp_count(next, hard_max), new_fast, new_slow)
}

} // verus!
