//! The retry policy of the TRON node RPC client: which failures are rate
//! limits, how long to wait before the next attempt, and when to give up.
use vstd::prelude::*;

use crate::exchange::types::trim_end_char;
use crate::text::{
    all_digits, chars_of, contains, digits_value, find, is_ascii_digit, occurs_at,
    parse_digits_u64, spec_contains, spec_is_ascii_digit, string_of_range,
};

verus! {

/// How many times a request is tried.
pub const TRON_RPC_MAX_ATTEMPTS: usize = 5;

/// What precedes the length of a rate-limit suspension in an error message.
pub const SUSPENSION_MARKER: &'static str = "suspended for ";

/// `needle` occurs at `i` and nowhere before.
pub open spec fn is_first_occurrence(hay: Seq<char>, needle: Seq<char>, i: int) -> bool {
    occurs_at(hay, needle, i) && forall|j: int| 0 <= j < i ==> !occurs_at(hay, needle, j)
}

/// Where `needle` first occurs in `hay` (meaningful when it occurs).
pub open spec fn first_occurrence(hay: Seq<char>, needle: Seq<char>) -> int {
    choose|i: int| is_first_occurrence(hay, needle, i)
}

/// `s` starts with exactly `k` ASCII digits.
pub open spec fn is_digit_run(s: Seq<char>, k: int) -> bool {
    &&& 0 <= k <= s.len()
    &&& all_digits(s.take(k))
    &&& (k == s.len() || !spec_is_ascii_digit(s[k]))
}

/// The ASCII digits that `s` starts with.
pub open spec fn leading_digits(s: Seq<char>) -> Seq<char> {
    s.take(choose|k: int| is_digit_run(s, k))
}

/// The seconds of a rate-limit suspension that a message announces: the
/// digits right after its first `suspended for `, when there are some and
/// their value fits in a `u64`.
pub open spec fn spec_suspended_seconds(message: Seq<char>) -> Option<nat> {
    if !spec_contains(message, SUSPENSION_MARKER@) {
        None
    } else {
        let i = first_occurrence(message, SUSPENSION_MARKER@);
        let d = leading_digits(message.skip(i + SUSPENSION_MARKER@.len()));
        if d.len() > 0 && digits_value(d) <= u64::MAX {
            Some(digits_value(d))
        } else {
            None
        }
    }
}

proof fn lemma_first_occurrence_unique(hay: Seq<char>, needle: Seq<char>, i: int)
    requires
        is_first_occurrence(hay, needle, i),
    ensures
        first_occurrence(hay, needle) == i,
{
    let c = first_occurrence(hay, needle);
    assert(is_first_occurrence(hay, needle, c));
    if c < i {
        assert(!occurs_at(hay, needle, c));
    } else if c > i {
        assert(!occurs_at(hay, needle, i));
    }
}

proof fn lemma_digit_run_unique(s: Seq<char>, k: int)
    requires
        is_digit_run(s, k),
    ensures
        leading_digits(s) == s.take(k),
{
    let c = choose|j: int| is_digit_run(s, j);
    assert(is_digit_run(s, c));
    if c < k {
        assert(s.take(k)[c] == s[c]);
    } else if c > k {
        assert(s.take(c)[k] == s[k]);
    }
}

/// The seconds of the suspension announced by a rate-limit message (see
/// [`spec_suspended_seconds`]).
pub fn parse_suspended_seconds(message: &str) -> (r: Option<u64>)
    ensures
        r is Some <==> spec_suspended_seconds(message@) is Some,
        r is Some ==> r->0 == spec_suspended_seconds(message@)->0,
{
    let m = chars_of(message);
    let marker = chars_of(SUSPENSION_MARKER);
    let start = match find(&m, &marker) {
        Some(i) => i,
        None => return None,
    };
    proof {
        lemma_first_occurrence_unique(m@, marker@, start as int);
    }
    let total = m.len();
    assert(start + marker@.len() <= total);
    let from = start + marker.len();
    let mut to = from;
    while to < m.len() && is_ascii_digit(m[to])
        invariant
            from <= to <= m@.len(),
            all_digits(m@.subrange(from as int, to as int)),
        decreases m.len() - to,
    {
        proof {
            assert forall|t: int| 0 <= t < to + 1 - from implies spec_is_ascii_digit(
                #[trigger] m@.subrange(from as int, to + 1)[t],
            ) by {
                if t < to - from {
                    assert(m@.subrange(from as int, to + 1)[t] == m@.subrange(from as int, to as int)[t]);
                }
            }
        }
        to = to + 1;
    }
    proof {
        let tail = m@.skip(from as int);
        assert(tail.take(to - from) =~= m@.subrange(from as int, to as int));
        if to < m@.len() {
            assert(tail[to - from] == m@[to as int]);
        }
        assert(is_digit_run(tail, to - from));
        lemma_digit_run_unique(tail, to - from);
    }
    parse_digits_u64(&m, from, to)
}

/// How long to wait before the next attempt.
#[derive(Debug, Clone, Copy, PartialEq, Eq, Structural)]
pub enum RetryDelay {
    Seconds(u64),
    Millis(u64),
}

/// A message that reports a rate limit.
pub open spec fn is_rate_limited(message: Seq<char>) -> bool {
    spec_contains(message, "429 Too Many Requests"@) || spec_contains(message, "frequency limit"@)
}

/// The wait after a failed attempt: for a rate limit, one second more than
/// the announced suspension (saturating), or 30 seconds when none is
/// announced; for any other failure, 500 ms per attempt made.
pub open spec fn spec_retry_delay(message: Seq<char>, attempt: nat) -> RetryDelay {
    if is_rate_limited(message) {
        match spec_suspended_seconds(message) {
            Some(s) => RetryDelay::Seconds(
                if s + 1 > u64::MAX {
                    u64::MAX
                } else {
                    (s + 1) as u64
                },
            ),
            None => RetryDelay::Seconds(30),
        }
    } else {
        RetryDelay::Millis((500 * attempt) as u64)
    }
}

/// The wait before the next attempt after a failure with this message (see
/// [`spec_retry_delay`]).
pub fn retry_delay(message: &str, attempt: usize) -> (d: RetryDelay)
    requires
        500 * attempt <= u64::MAX,
    ensures
        d == spec_retry_delay(message@, attempt as nat),
{
    if contains(message, "429 Too Many Requests") || contains(message, "frequency limit") {
        match parse_suspended_seconds(message) {
            Some(seconds) => {
                let s = if seconds == u64::MAX {
                    u64::MAX
                } else {
                    seconds + 1
                };
                return RetryDelay::Seconds(s);
            },
            None => return RetryDelay::Seconds(30),
        }
    }
    RetryDelay::Millis(500 * attempt as u64)
}

/// What the client does after a failed attempt.
#[derive(Debug, Clone, Copy, PartialEq, Eq, Structural)]
pub enum RetryStep {
    /// Wait, then try again.
    Retry(RetryDelay),
    /// Report the last failure.
    GiveUp,
}

/// After failed attempt number `attempt` (counting from 1): retry after the
/// delay of [`spec_retry_delay`] while attempts remain, else give up.
pub fn after_failure(attempt: usize, message: &str) -> (s: RetryStep)
    requires
        1 <= attempt <= TRON_RPC_MAX_ATTEMPTS,
    ensures
        s == if attempt < TRON_RPC_MAX_ATTEMPTS {
            RetryStep::Retry(spec_retry_delay(message@, attempt as nat))
        } else {
            RetryStep::GiveUp
        },
{
    if attempt < TRON_RPC_MAX_ATTEMPTS {
        RetryStep::Retry(retry_delay(message, attempt))
    } else {
        RetryStep::GiveUp
    }
}

/// The node URL without trailing slashes.
pub fn normalize_base_url(base_url: &str) -> (r: String)
    ensures
        r@ == trim_end_char(base_url@, '/'),
{
    let cs = chars_of(base_url);
    let mut e: usize = cs.len();
    assert(cs@.take(cs@.len() as int) =~= cs@);
    while e > 0 && cs[e - 1] == '/'
        invariant
            e <= cs@.len(),
            trim_end_char(cs@.take(e as int), '/') == trim_end_char(cs@, '/'),
        decreases e,
    {
        assert(cs@.take(e as int).drop_last() =~= cs@.take(e - 1));
        assert(cs@.take(e as int).last() == cs@[e - 1]);
        e = e - 1;
    }
    proof {
        if e > 0 {
            assert(cs@.take(e as int).last() == cs@[e - 1]);
        }
    }
    assert(cs@.subrange(0, e as int) =~= cs@.take(e as int));
    string_of_range(&cs, 0, e)
}

/// The request timeout in seconds: at least one.
pub fn effective_timeout_seconds(timeout_seconds: u64) -> (t: u64)
    ensures
        t == if timeout_seconds < 1 {
            1
        } else {
            timeout_seconds
        },
{
    if timeout_seconds < 1 {
        1
    } else {
        timeout_seconds
    }
}

} // verus!
