//! When a feed is fetched next: after a success (honouring `Cache-Control:
//! max-age`), after a failure (exponential backoff) and before a pull
//! (honouring `Retry-After` and the stored next check time).
//!
//! Instants are Unix timestamps in whole seconds.
use crate::text::{
    chars_of, owned, parse_bounded, parse_u64_max, skip_chars, split, split_chars, starts_with,
    starts_with_chars, trim, trim_chars,
};
use vstd::prelude::*;

verus! {

/// The earliest instant the reader can represent (start of year -9999, UTC).
pub const MIN_UNIX_TIMESTAMP: i64 = -377_705_116_800;

/// The latest instant the reader can represent (end of year 9999, UTC).
pub const MAX_UNIX_TIMESTAMP: i64 = 253_402_300_799;

/// Whether `t` lies in the representable range of instants.
pub open spec fn valid_timestamp(t: int) -> bool {
    MIN_UNIX_TIMESTAMP <= t <= MAX_UNIX_TIMESTAMP
}

/// Delay after a success when no usable `max-age` is present.
pub const DEFAULT_SUCCESS_DELAY: u64 = 1800;

/// Shortest delay after a success.
pub const MIN_SUCCESS_DELAY: u64 = 300;

/// Longest delay after a success.
pub const MAX_SUCCESS_DELAY: u64 = 86_400;

/// What the pull decision reads of a feed's state.
#[derive(Debug, Clone)]
pub struct PullInput {
    pub now: i64,
    pub next_check_at: Option<i64>,
    pub last_success_at: Option<i64>,
    pub last_error_at: Option<i64>,
    pub consecutive_failures: u32,
    pub cache_control: Option<String>,
    pub retry_after_until: Option<i64>,
    pub max_backoff_seconds: u64,
}

/// Whether to fetch now, when to check next, and why.
#[derive(Debug, Clone)]
pub struct PullDecision {
    pub should_fetch: bool,
    pub next_check_at: i64,
    pub reason: String,
}

// ---------------------------------------------------------------------------
// Cache-Control: max-age
// ---------------------------------------------------------------------------

/// The `max-age` value of one trimmed directive, if it is one and parses.
pub open spec fn max_age_of_directive(p: Seq<char>) -> Option<nat> {
    if starts_with(p, "max-age="@) {
        parse_bounded(p.skip("max-age="@.len() as int), u64::MAX as nat)
    } else {
        None
    }
}

/// The first directive among `ps` that yields a `max-age` value.
pub open spec fn first_max_age(ps: Seq<Seq<char>>) -> Option<nat>
    decreases ps.len(),
{
    if ps.len() == 0 {
        None
    } else {
        match max_age_of_directive(ps[0]) {
            Some(v) => Some(v),
            None => first_max_age(ps.drop_first()),
        }
    }
}

/// The trimmed comma-separated directives of a `Cache-Control` value.
pub open spec fn directives(cache_control: Seq<char>) -> Seq<Seq<char>> {
    split(cache_control, ',').map_values(|p: Seq<char>| trim(p))
}

/// The `max-age` a `Cache-Control` value carries: that of the first
/// directive of the form `max-age=<u64>`.
pub open spec fn max_age_spec(cache_control: Seq<char>) -> Option<nat> {
    first_max_age(directives(cache_control))
}

/// Reads `max-age=<seconds>` from a `Cache-Control` header value.
pub fn max_age(cache_control: &str) -> (r: Option<u64>)
    ensures
        match r {
            Some(v) => max_age_spec(cache_control@) == Some(v as nat),
            None => max_age_spec(cache_control@) is None,
        },
{
    let cs = chars_of(cache_control);
    let parts = split_chars(&cs, ',');
    let prefix = chars_of("max-age=");
    let ghost ds = directives(cache_control@);
    assert(ds.len() == parts@.len());
    assert(ds.skip(0) =~= ds);
    let mut i: usize = 0;
    while i < parts.len()
        invariant
            i <= parts@.len(),
            ds == directives(cache_control@),
            ds.len() == parts@.len(),
            forall|j: int| 0 <= j < ds.len() ==> ds[j] == trim(#[trigger] parts@[j]@),
            prefix@ == "max-age="@,
            max_age_spec(cache_control@) == first_max_age(ds.skip(i as int)),
        decreases parts@.len() - i,
    {
        let d = trim_chars(&parts[i]);
        let ghost rest = ds.skip(i as int);
        assert(rest[0] == d@);
        assert(rest.drop_first() =~= ds.skip(i + 1));
        if starts_with_chars(&d, &prefix) {
            let value = skip_chars(&d, prefix.len());
            match parse_u64_max(&value, u64::MAX) {
                Some(v) => {
                    return Some(v);
                },
                None => {},
            }
        }
        i = i + 1;
    }
    assert(ds.skip(i as int) =~= Seq::<Seq<char>>::empty());
    None
}

// ---------------------------------------------------------------------------
// Delays
// ---------------------------------------------------------------------------

pub open spec fn clamp(v: int, lo: int, hi: int) -> int {
    if v < lo {
        lo
    } else if v > hi {
        hi
    } else {
        v
    }
}

/// Seconds until the next check after a success: `max-age` (else 1800),
/// clamped to 300..=86400.
pub open spec fn success_delay(cache_control: Option<Seq<char>>) -> int {
    let base: int = match cache_control {
        Some(c) => match max_age_spec(c) {
            Some(v) => v as int,
            None => DEFAULT_SUCCESS_DELAY as int,
        },
        None => DEFAULT_SUCCESS_DELAY as int,
    };
    clamp(base, MIN_SUCCESS_DELAY as int, MAX_SUCCESS_DELAY as int)
}

/// `2^e`.
pub open spec fn doubling(e: nat) -> nat
    decreases e,
{
    if e == 0 {
        1
    } else {
        2 * doubling((e - 1) as nat)
    }
}

/// Seconds until the next check after `failures` consecutive failures:
/// `60 * 2^min(failures, 10)`, capped at `max_backoff`.
pub open spec fn error_delay(failures: u32, max_backoff: u64) -> int {
    let exponent: nat = if failures < 10 {
        failures as nat
    } else {
        10
    };
    let seconds = 60 * doubling(exponent);
    if seconds < max_backoff {
        seconds as int
    } else {
        max_backoff as int
    }
}

proof fn lemma_doubling_bound(e: nat)
    requires
        e <= 10,
    ensures
        1 <= doubling(e) <= 1024,
        e < 10 ==> doubling(e + 1) == 2 * doubling(e),
    decreases e,
{
    reveal_with_fuel(doubling, 11);
}

/// The option's string viewed as characters.
pub open spec fn opt_view(o: Option<String>) -> Option<Seq<char>> {
    match o {
        Some(s) => Some(s@),
        None => None,
    }
}

/// The next check after a successful fetch at `now`.
pub fn next_after_success(now: i64, cache_control: Option<&str>) -> (next: i64)
    requires
        valid_timestamp(now as int),
        valid_timestamp(
            now + success_delay(
                match cache_control {
                    Some(c) => Some(c@),
                    None => None,
                },
            ),
        ),
    ensures
        next == now + success_delay(
            match cache_control {
                Some(c) => Some(c@),
                None => None,
            },
        ),
{
    let base: u64 = match cache_control {
        Some(c) => match max_age(c) {
            Some(v) => v,
            None => DEFAULT_SUCCESS_DELAY,
        },
        None => DEFAULT_SUCCESS_DELAY,
    };
    let seconds: u64 = if base < MIN_SUCCESS_DELAY {
        MIN_SUCCESS_DELAY
    } else if base > MAX_SUCCESS_DELAY {
        MAX_SUCCESS_DELAY
    } else {
        base
    };
    now + seconds as i64
}

/// The next check after a failed fetch at `now`, the `consecutive_failures`-th in a row.
pub fn next_after_error(now: i64, consecutive_failures: u32, max_backoff_seconds: u64) -> (next: i64)
    requires
        valid_timestamp(now as int),
        valid_timestamp(now + error_delay(consecutive_failures, max_backoff_seconds)),
    ensures
        next == now + error_delay(consecutive_failures, max_backoff_seconds),
{
    let exponent: u32 = if consecutive_failures < 10 {
        consecutive_failures
    } else {
        10
    };
    let mut factor: u64 = 1;
    let mut i: u32 = 0;
    while i < exponent
        invariant
            i <= exponent <= 10,
            factor == doubling(i as nat),
        decreases exponent - i,
    {
        proof {
            lemma_doubling_bound(i as nat);
        }
        factor = factor * 2;
        i = i + 1;
    }
    proof {
        lemma_doubling_bound(exponent as nat);
    }
    let full: u64 = 60 * factor;
    let seconds: u64 = if full < max_backoff_seconds {
        full
    } else {
        max_backoff_seconds
    };
    now + seconds as i64
}

/// Seconds from `now` to the next check after a fetch decided on `input`.
pub open spec fn fetch_delay(input: PullInput) -> int {
    if input.consecutive_failures > 0 {
        error_delay(input.consecutive_failures, input.max_backoff_seconds)
    } else {
        success_delay(opt_view(input.cache_control))
    }
}

fn next_after_fetch(input: &PullInput) -> (next: i64)
    requires
        valid_timestamp(input.now as int),
        valid_timestamp(input.now + fetch_delay(*input)),
    ensures
        next == input.now + fetch_delay(*input),
{
    if input.consecutive_failures > 0 {
        next_after_error(input.now, input.consecutive_failures, input.max_backoff_seconds)
    } else {
        match &input.cache_control {
            Some(c) => next_after_success(input.now, Some(c.as_str())),
            None => next_after_success(input.now, None),
        }
    }
}

// ---------------------------------------------------------------------------
// The decision
// ---------------------------------------------------------------------------

/// A `Retry-After` instant later than now holds the pull back.
pub open spec fn held_by_retry_after(input: PullInput) -> bool {
    match input.retry_after_until {
        Some(r) => r > input.now,
        None => false,
    }
}

/// A stored next check later than now holds the pull back.
pub open spec fn not_yet_due(input: PullInput) -> bool {
    match input.next_check_at {
        Some(n) => n > input.now,
        None => false,
    }
}

/// The decision `decide` makes on `input`: whether to fetch, the next
/// check instant, and the reason.
pub open spec fn decision(input: PullInput) -> (bool, int, Seq<char>) {
    if held_by_retry_after(input) {
        (false, input.retry_after_until.unwrap() as int, "retry-after"@)
    } else if not_yet_due(input) {
        (false, input.next_check_at.unwrap() as int, "not-due"@)
    } else {
        (
            true,
            input.now + fetch_delay(input),
            if input.consecutive_failures > 0 {
                "due-after-error"@
            } else {
                "due"@
            },
        )
    }
}

/// Decides whether a feed is pulled now and when it is checked next.
pub fn decide(input: PullInput) -> (d: PullDecision)
    requires
        valid_timestamp(input.now as int),
        !held_by_retry_after(input) && !not_yet_due(input) ==> valid_timestamp(
            input.now + fetch_delay(input),
        ),
    ensures
        (d.should_fetch, d.next_check_at as int, d.reason@) == decision(input),
{
    if let Some(retry_after) = input.retry_after_until {
        if retry_after > input.now {
            return PullDecision {
                should_fetch: false,
                next_check_at: retry_after,
                reason: owned("retry-after"),
            };
        }
    }
    if let Some(next) = input.next_check_at {
        if next > input.now {
            return PullDecision { should_fetch: false, next_check_at: next, reason: owned("not-due") };
        }
    }
    let next = next_after_fetch(&input);
    PullDecision {
        should_fetch: true,
        next_check_at: next,
        reason: if input.consecutive_failures > 0 {
            owned("due-after-error")
        } else {
            owned("due")
        },
    }
}

// ---------------------------------------------------------------------------
// Laws
// ---------------------------------------------------------------------------

/// After a success the next check is between 5 minutes and a day away:
/// the `max-age` the server gives, clamped to that range, and half an hour
/// without one.
pub proof fn law_success_delay_bounded(cache_control: Option<Seq<char>>)
    ensures
        MIN_SUCCESS_DELAY <= success_delay(cache_control) <= MAX_SUCCESS_DELAY,
        300 <= success_delay(cache_control) <= 86_400,
        success_delay(None) == 1800,
        cache_control matches Some(c) ==> match max_age_spec(c) {
            Some(v) => success_delay(cache_control) == if v < 300 {
                300
            } else if v > 86_400 {
                86_400
            } else {
                v as int
            },
            None => success_delay(cache_control) == 1800,
        },
{
}

/// The backoff after `f` consecutive failures is a minute doubled `f`
/// times, doubling at most ten times, and never more than the maximum.
pub proof fn law_backoff_values(f: u32, max_backoff: u64)
    ensures
        error_delay(0, max_backoff) == if max_backoff < 60 {
            max_backoff as int
        } else {
            60
        },
        error_delay(1, max_backoff) == if max_backoff < 120 {
            max_backoff as int
        } else {
            120
        },
        f >= 10 ==> error_delay(f, max_backoff) == if max_backoff < 61_440 {
            max_backoff as int
        } else {
            61_440
        },
        max_backoff >= 61_440 ==> error_delay(f, max_backoff) >= 60,
{
    reveal_with_fuel(doubling, 11);
    let e: nat = if f < 10 {
        f as nat
    } else {
        10
    };
    lemma_doubling_bound(e);
}

/// The backoff never exceeds the configured maximum, nor 60 * 2^10 seconds.
pub proof fn law_backoff_capped(failures: u32, max_backoff: u64)
    ensures
        error_delay(failures, max_backoff) <= max_backoff,
        error_delay(failures, max_backoff) <= 61_440,
{
    let e: nat = if failures < 10 {
        failures as nat
    } else {
        10
    };
    lemma_doubling_bound(e);
}

proof fn lemma_doubling_monotone(a: nat, b: nat)
    requires
        a <= b <= 10,
    ensures
        doubling(a) <= doubling(b),
    decreases b - a,
{
    if a < b {
        lemma_doubling_monotone(a, (b - 1) as nat);
        lemma_doubling_bound((b - 1) as nat);
    }
}

/// More consecutive failures never shorten the backoff.
pub proof fn law_backoff_monotone(f1: u32, f2: u32, max_backoff: u64)
    requires
        f1 <= f2,
    ensures
        error_delay(f1, max_backoff) <= error_delay(f2, max_backoff),
{
    let e1: nat = if f1 < 10 {
        f1 as nat
    } else {
        10
    };
    let e2: nat = if f2 < 10 {
        f2 as nat
    } else {
        10
    };
    lemma_doubling_monotone(e1, e2);
}

/// Each further failure doubles the backoff until the cap or the tenth failure.
pub proof fn law_backoff_doubles(f: u32, max_backoff: u64)
    requires
        f < 10,
        60 * doubling((f + 1) as nat) <= max_backoff,
    ensures
        error_delay((f + 1) as u32, max_backoff) == 2 * error_delay(f, max_backoff),
{
    lemma_doubling_bound(f as nat);
}

/// A pending `Retry-After` always holds a pull back until that instant.
pub proof fn law_retry_after_respected(input: PullInput)
    requires
        input.retry_after_until matches Some(r) && r > input.now,
    ensures
        !decision(input).0,
        decision(input).1 == input.retry_after_until.unwrap() as int,
{
}

/// A pull that happens schedules the next check strictly later than now
/// (after a failure, provided the maximum backoff is not zero).
pub proof fn law_pull_schedules_later(input: PullInput)
    requires
        decision(input).0,
        input.consecutive_failures > 0 ==> input.max_backoff_seconds > 0,
    ensures
        decision(input).1 > input.now,
{
    if input.consecutive_failures > 0 {
        let e: nat = if input.consecutive_failures < 10 {
            input.consecutive_failures as nat
        } else {
            10
        };
        lemma_doubling_bound(e);
    }
}

} // verus!
