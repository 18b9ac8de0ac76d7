//! Finding out whether a newer version of an application exists.
pub mod direct;
pub mod forge;
pub mod patterns;
pub mod script;

use crate::config::{opt_view, strings_view};
use crate::state::{AppState, ForgePlatform};
use crate::text::{
    chars_of, chars_of_string, decimal, eq_ignore_ascii_case, is_prefix, lemma_seq_lt_irreflexive,
    lemma_seq_lt_total, lemma_seq_lt_transitive, lemma_insert_contains, lemma_push_contains, lit, lower, lt_chars, parse_unsigned,
    parse_unsigned_exec, push_all, seq_lt, string_of, strictly_sorted, trim, trim_exec,
    decimal_exec,
};
use vstd::prelude::*;

verus! {

/// A newer version and where to download it.
#[derive(Clone)]
pub struct UpdateInfo {
    pub download_url: String,
    pub version: String,
    pub new_etag: Option<String>,
    pub new_last_modified: Option<String>,
}

/// What a resolver found out about one application.
#[derive(Clone)]
pub struct CheckResult {
    pub update: Option<UpdateInfo>,
    pub capabilities: Vec<String>,
    pub segmented_downloads: Option<bool>,
    pub forge_repository: Option<String>,
    pub forge_platform: Option<ForgePlatform>,
}

/// How long a server asked the updater to wait.
#[derive(Clone, Copy, Debug, PartialEq, Eq, Structural)]
pub struct RateLimitInfo {
    pub reset_at: Option<u64>,
    pub retry_after_seconds: Option<u64>,
}

/// `a + b`, capped at `u64::MAX`.
pub open spec fn saturating_add(a: u64, b: u64) -> u64 {
    if a + b > u64::MAX { u64::MAX } else { (a + b) as u64 }
}

/// `a - b`, floored at zero.
pub open spec fn saturating_sub(a: u64, b: u64) -> u64 {
    if a < b { 0 } else { (a - b) as u64 }
}

/// The message shown for a wait of `wait` seconds.
pub open spec fn wait_message(wait: nat) -> Seq<char> {
    if wait < 60 {
        "Rate limited. Retry in "@ + decimal(wait) + "s."@
    } else if wait < 3600 {
        "Rate limited. Retry in "@ + decimal(wait / 60) + "m."@
    } else {
        "Rate limited. Retry in "@ + decimal(wait / 3600) + "h "@ + decimal((wait % 3600) / 60)
            + "m."@
    }
}

impl RateLimitInfo {
    /// The moment, in seconds since the epoch, until which requests should wait.
    pub open spec fn until_spec(self, now: u64) -> Option<u64> {
        match self.retry_after_seconds {
            Some(retry) => Some(saturating_add(now, retry)),
            None => self.reset_at,
        }
    }

    /// The message for this rate limit, seen at `now`.
    pub open spec fn message_spec(self, now: u64) -> Seq<char> {
        match self.until_spec(now) {
            Some(until) => wait_message(saturating_sub(until, now) as nat),
            None => "Rate limited. Retry later."@,
        }
    }

    /// The moment until which requests should wait, seen at `now`.
    pub fn until_epoch_seconds(&self, now: u64) -> (r: Option<u64>)
        ensures
            r == self.until_spec(now),
    {
        match self.retry_after_seconds {
            Some(retry) => Some(now.saturating_add(retry)),
            None => self.reset_at,
        }
    }

    /// A short human message, such as `Rate limited. Retry in 5m.`, seen at `now`.
    pub fn short_message(&self, now: u64) -> (r: String)
        ensures
            r@ == self.message_spec(now),
    {
        match self.until_epoch_seconds(now) {
            Some(until) => {
                let wait = until.saturating_sub(now);
                let mut m = lit("Rate limited. Retry in ");
                if wait < 60 {
                    push_all(&mut m, &decimal_exec(wait));
                    push_all(&mut m, &lit("s."));
                } else if wait < 3600 {
                    push_all(&mut m, &decimal_exec(wait / 60));
                    push_all(&mut m, &lit("m."));
                } else {
                    push_all(&mut m, &decimal_exec(wait / 3600));
                    push_all(&mut m, &lit("h "));
                    push_all(&mut m, &decimal_exec((wait % 3600) / 60));
                    push_all(&mut m, &lit("m."));
                }
                string_of(&m)
            },
            None => String::from_str("Rate limited. Retry later."),
        }
    }
}

/// The number a header value holds, as `value.trim().parse::<u64>()` reads it.
pub open spec fn header_number(value: Option<Seq<char>>) -> Option<u64> {
    match value {
        Some(v) => match parse_unsigned(trim(v), u64::MAX as nat) {
            Some(n) => Some(n as u64),
            None => None,
        },
        None => None,
    }
}

fn header_number_exec(value: Option<&str>) -> (r: Option<u64>)
    ensures
        r == header_number(match value { Some(v) => Some(v@), None => None }),
{
    match value {
        Some(v) => {
            let t = trim_exec(&chars_of(v));
            parse_unsigned_exec(&t, u64::MAX)
        },
        None => None,
    }
}

/// The rate limit described by the response headers `RateLimit-Reset` (seconds from
/// now), `X-RateLimit-Reset` (an epoch time) and `Retry-After` (seconds), each given
/// as its text when present.
pub open spec fn rate_limit_from_headers(
    ratelimit_reset: Option<Seq<char>>,
    x_ratelimit_reset: Option<Seq<char>>,
    retry_after: Option<Seq<char>>,
    now: u64,
) -> Option<RateLimitInfo> {
    let reset_at = match header_number(ratelimit_reset) {
        Some(s) => Some(saturating_add(now, s)),
        None => header_number(x_ratelimit_reset),
    };
    let retry_after_seconds = header_number(retry_after);
    if reset_at is None && retry_after_seconds is None {
        None
    } else {
        Some(RateLimitInfo { reset_at, retry_after_seconds })
    }
}

/// The view of an optional string slice.
pub open spec fn opt_str(o: Option<&str>) -> Option<Seq<char>> {
    match o {
        Some(v) => Some(v@),
        None => None,
    }
}

/// Reads a rate limit from response header values seen at `now`.
pub fn rate_limit_info_from_header_values(
    ratelimit_reset: Option<&str>,
    x_ratelimit_reset: Option<&str>,
    retry_after: Option<&str>,
    now: u64,
) -> (r: Option<RateLimitInfo>)
    ensures
        r == rate_limit_from_headers(
            opt_str(ratelimit_reset),
            opt_str(x_ratelimit_reset),
            opt_str(retry_after),
            now,
        ),
{
    let reset_after = header_number_exec(ratelimit_reset);
    let reset_at = match reset_after {
        Some(s) => Some(now.saturating_add(s)),
        None => header_number_exec(x_ratelimit_reset),
    };
    let retry_after_seconds = header_number_exec(retry_after);
    if reset_at.is_none() && retry_after_seconds.is_none() {
        None
    } else {
        Some(RateLimitInfo { reset_at, retry_after_seconds })
    }
}

/// `name` when the header `value` says `bytes` (ignoring case and surrounding space).
pub open spec fn capability_spec(name: Seq<char>, value: Option<Seq<char>>) -> Option<Seq<char>> {
    match value {
        Some(v) => if lower(trim(v)) == lower("bytes"@) {
            Some(name)
        } else {
            None
        },
        None => None,
    }
}

/// The capability `name` when the header `value` announces byte ranges.
pub fn capability_from_header_value(name: &str, value: Option<&str>) -> (r: Option<String>)
    ensures
        opt_view(r) == capability_spec(name@, opt_str(value)),
{
    match value {
        Some(v) => {
            let t = trim_exec(&chars_of(v));
            if eq_ignore_ascii_case(&t, &lit("bytes")) {
                Some(String::from_str(name))
            } else {
                None
            }
        },
        None => None,
    }
}

/// Sorts the capabilities and removes duplicates.
pub fn dedupe_capabilities(capabilities: &mut Vec<String>)
    ensures
        strictly_sorted(strings_view(final(capabilities)@)),
        forall|x: Seq<char>|
            strings_view(final(capabilities)@).contains(x) <==> strings_view(
                old(capabilities)@,
            ).contains(x),
{
    let mut out: Vec<String> = Vec::new();
    let mut out_chars: Vec<Vec<char>> = Vec::new();
    let mut i: usize = 0;
    while i < capabilities.len()
        invariant
            i <= capabilities@.len(),
            out@.len() == out_chars@.len(),
            forall|k: int| 0 <= k < out@.len() ==> #[trigger] out_chars@[k]@ == out@[k]@,
            strictly_sorted(strings_view(out@)),
            forall|x: Seq<char>|
                strings_view(out@).contains(x) <==> strings_view(capabilities@).take(
                    i as int,
                ).contains(x),
        decreases capabilities.len() - i,
    {
        let x = chars_of_string(&capabilities[i]);
        let ghost xs = x@;
        // first position whose element is not before x
        let mut p: usize = 0;
        while p < out_chars.len() && lt_chars(&out_chars[p], &x)
            invariant
                p <= out_chars@.len(),
                x@ == xs,
                out@.len() == out_chars@.len(),
                forall|k: int| 0 <= k < out@.len() ==> #[trigger] out_chars@[k]@ == out@[k]@,
                forall|k: int| 0 <= k < p ==> seq_lt(#[trigger] out@[k]@, xs),
            decreases out_chars.len() - p,
        {
            p = p + 1;
        }
        let ghost old_view = strings_view(out@);
        let present = p < out_chars.len() && !lt_chars(&x, &out_chars[p]);
        if present {
            proof {
                assert(!seq_lt(out@[p as int]@, xs));
                assert(!seq_lt(xs, out@[p as int]@));
                if out@[p as int]@ != xs {
                    lemma_seq_lt_total(out@[p as int]@, xs);
                }
                assert(old_view[p as int] == xs);
                assert forall|y: Seq<char>|
                    strings_view(out@).contains(y) <==> strings_view(capabilities@).take(
                        i + 1,
                    ).contains(y) by {
                    assert(strings_view(capabilities@).take(i + 1) =~= strings_view(
                        capabilities@,
                    ).take(i as int).push(xs));
                    if y == xs {
                        assert(strings_view(out@)[p as int] == y);
                        assert(strings_view(capabilities@).take(i + 1)[i as int] == y);
                    } else {
                        if strings_view(capabilities@).take(i + 1).contains(y) {
                            let k = choose|k: int|
                                0 <= k < strings_view(capabilities@).take(i + 1).len()
                                    && #[trigger] strings_view(capabilities@).take(i + 1)[k] == y;
                            assert(strings_view(capabilities@).take(i as int)[k] == y);
                        }
                    }
                }
            }
        } else {
            let s = string_of(&x);
            proof {
                if p < out@.len() {
                    assert(seq_lt(xs, out@[p as int]@));
                }
            }
            let ghost before = out@;
            out.insert(p, s);
            out_chars.insert(p, x);
            proof {
                assert(strings_view(out@) =~= old_view.insert(p as int, xs));
                assert forall|a: int, b: int|
                    0 <= a < b < strings_view(out@).len() implies seq_lt(
                    strings_view(out@)[a],
                    strings_view(out@)[b],
                ) by {
                    let v = strings_view(out@);
                    if b < p {
                        assert(v[a] == old_view[a] && v[b] == old_view[b]);
                    } else if b == p {
                        assert(v[a] == old_view[a]);
                    } else if a == p {
                        assert(v[b] == old_view[b - 1]);
                        if b - 1 > p {
                            assert(seq_lt(old_view[p as int], old_view[b - 1]));
                            lemma_seq_lt_transitive(xs, old_view[p as int], old_view[b - 1]);
                        }
                    } else if a < p {
                        assert(v[a] == old_view[a] && v[b] == old_view[b - 1]);
                        assert(seq_lt(old_view[a], xs));
                        if b - 1 > p {
                            assert(seq_lt(old_view[p as int], old_view[b - 1]));
                            lemma_seq_lt_transitive(xs, old_view[p as int], old_view[b - 1]);
                        }
                        lemma_seq_lt_transitive(old_view[a], xs, old_view[b - 1]);
                    } else {
                        assert(v[a] == old_view[a - 1] && v[b] == old_view[b - 1]);
                    }
                }
                assert forall|k: int| 0 <= k < out@.len() implies #[trigger] out_chars@[k]@
                    == out@[k]@ by {
                    if k < p {
                    } else if k == p {
                    } else {
                    }
                }
                assert(strings_view(capabilities@).take(i + 1) =~= strings_view(
                    capabilities@,
                ).take(i as int).push(xs));
                lemma_insert_contains(old_view, p as int, xs);
                lemma_push_contains(strings_view(capabilities@).take(i as int), xs);
            }
        }
        i = i + 1;
    }
    proof {
        assert(strings_view(capabilities@).take(capabilities@.len() as int) =~= strings_view(
            capabilities@,
        ));
    }
    *capabilities = out;
}

/// A `Retry-After` header wins over a reset time: when it is present the deadline is
/// `now` plus the retry delay (capped at the largest time), whatever reset time came
/// with it, and the message names that delay; without it the reset time, if any, is
/// the deadline.
pub proof fn law_retry_after_wins(info: RateLimitInfo, other_reset: Option<u64>, now: u64)
    ensures
        info.retry_after_seconds matches Some(r) ==> info.until_spec(now)
            == Some(if now + r <= u64::MAX { (now + r) as u64 } else { u64::MAX }),
        info.retry_after_seconds is Some ==> (RateLimitInfo { reset_at: other_reset, ..info }).until_spec(now)
            == info.until_spec(now),
        info.retry_after_seconds matches Some(r) ==> (now + r <= u64::MAX ==> info.message_spec(now)
            == wait_message(r as nat)),
        info.retry_after_seconds is None ==> info.until_spec(now) == info.reset_at,
        info.until_spec(now) is None <==> (info.retry_after_seconds is None && info.reset_at is None),
{
}

/// Reads from the update info of `state` whether `version` is what is installed.
pub open spec fn is_installed_version(state: Option<AppState>, version: Seq<char>) -> bool {
    match state {
        Some(s) => opt_view(s.local_version) == Some(version),
        None => false,
    }
}

/// `version` is the installed version recorded in `state`.
pub fn installed_version_is(state: Option<&AppState>, version: &str) -> (r: bool)
    ensures
        r == is_installed_version(match state { Some(s) => Some(*s), None => None }, version@),
{
    match state {
        Some(s) => match &s.local_version {
            Some(v) => crate::text::eq(&chars_of_string(v), &chars_of(version)),
            None => false,
        },
        None => false,
    }
}

/// An app counts as on `version` exactly when its state records `version`, character
/// for character, as the installed one; so at most one version counts as installed,
/// and any other version, a longer one that starts with it among them, is an update.
pub proof fn law_installed_version_is_exact(state: Option<AppState>, a: Seq<char>, b: Seq<char>)
    ensures
        is_installed_version(state, a) <==> (state matches Some(s) && s.local_version matches Some(v) && v@ == a),
        is_installed_version(state, a) && is_installed_version(state, b) ==> a == b,
        is_installed_version(state, a) && a != b ==> !is_installed_version(state, b),
{
}

} // verus!
