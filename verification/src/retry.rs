//! When a failed model call is tried again, and after how long.
//!
//! The caller runs the attempts (with their timeout and the sleep between
//! them); `next_retry_action` decides, after each attempt, what happens next.
use vstd::prelude::*;

use crate::text::{
    chars_of, decimal, digit_char, find_char, find_char_from, is_ws, lemma_find_char_from_bounds, slice_chars, trim,
    trim_chars, trim_end, trim_start,
};

verus! {

pub open spec fn is_digit(c: char) -> bool {
    '0' <= c <= '9'
}

pub open spec fn digit_value(c: char) -> nat {
    ((c as u32) - ('0' as u32)) as nat
}

/// The number written by the decimal digits `d`.
pub open spec fn digits_value(d: Seq<char>) -> nat
    decreases d.len(),
{
    if d.len() == 0 {
        0
    } else {
        digits_value(d.drop_last()) * 10 + digit_value(d.last())
    }
}

/// Every character of `d` is an ASCII digit.
pub open spec fn all_digits(d: Seq<char>) -> bool {
    forall|k: int| 0 <= k < d.len() ==> is_digit(#[trigger] d[k])
}

/// What `str::parse::<u16>` gives: an optional `+`, then one or more
/// ASCII digits whose value fits in 16 bits.
pub open spec fn spec_parse_u16(s: Seq<char>) -> Option<u16> {
    let d = if s.len() > 0 && s[0] == '+' {
        s.drop_first()
    } else {
        s
    };
    if d.len() > 0 && all_digits(d) && digits_value(d) <= 65535 {
        Some(digits_value(d) as u16)
    } else {
        None
    }
}

proof fn lemma_digits_value_grows(d: Seq<char>, i: int)
    requires
        0 <= i <= d.len(),
        forall|k: int| 0 <= k < d.len() ==> is_digit(#[trigger] d[k]),
    ensures
        digits_value(d.take(i)) <= digits_value(d),
    decreases d.len() - i,
{
    if i < d.len() {
        lemma_digits_value_grows(d, i + 1);
        assert(d.take(i + 1).drop_last() =~= d.take(i));
    } else {
        assert(d.take(i) =~= d);
    }
}

/// Parses a 16-bit unsigned number as `str::parse::<u16>` does.
pub fn parse_u16(s: &Vec<char>) -> (r: Option<u16>)
    ensures
        r == spec_parse_u16(s@),
{
    let start: usize = if s.len() > 0 && s[0] == '+' {
        1
    } else {
        0
    };
    let ghost d = if s@.len() > 0 && s@[0] == '+' {
        s@.drop_first()
    } else {
        s@
    };
    assert(d =~= s@.subrange(start as int, s@.len() as int));
    if s.len() == start {
        return None;
    }
    let mut v: u32 = 0;
    let mut i = start;
    while i < s.len()
        invariant
            start <= i <= s.len(),
            d == s@.subrange(start as int, s@.len() as int),
            d == (if s@.len() > 0 && s@[0] == '+' { s@.drop_first() } else { s@ }),
            d.len() > 0,
            forall|k: int| 0 <= k < i - start ==> is_digit(#[trigger] d[k]),
            v == digits_value(d.take(i - start)),
            v <= 65535,
        decreases s.len() - i,
    {
        let c = s[i];
        if !('0' <= c && c <= '9') {
            assert(!is_digit(d[i - start]));
            return None;
        }
        let dv = (c as u32) - ('0' as u32);
        v = v * 10 + dv;
        proof {
            assert(d.take(i - start + 1).drop_last() =~= d.take(i - start));
            assert(d.take(i - start + 1).last() == c);
        }
        if v > 65535 {
            proof {
                if all_digits(d) {
                    lemma_digits_value_grows(d, i - start + 1);
                    assert(digits_value(d) > 65535);
                }
            }
            return None;
        }
        i = i + 1;
    }
    assert(d.take(d.len() as int) =~= d);
    assert(all_digits(d));
    Some(v as u16)
}

/// Whether an error of the form `"<Provider> API error (<status>): <body>"`
/// reports a client error (4xx) other than 408 and 429, which no retry can
/// mend. The status is the text between the first `(` and the next `)`,
/// trimmed; an error without one counts as retryable.
pub open spec fn spec_non_retryable(err: Seq<char>) -> bool {
    let open = find_char_from(err, '(', 0);
    if open >= err.len() {
        false
    } else {
        let close = find_char_from(err, ')', open + 1);
        if close >= err.len() {
            false
        } else {
            match spec_parse_u16(trim(err.subrange(open + 1, close))) {
                Some(code) => 400 <= code < 500 && code != 408 && code != 429,
                None => false,
            }
        }
    }
}

pub fn is_non_retryable_client_error(err: &str) -> (b: bool)
    ensures
        b == spec_non_retryable(err@),
{
    let e = chars_of(err);
    let open = find_char(&e, '(', 0);
    proof {
        crate::text::lemma_find_char_from_bounds(e@, '(', 0);
    }
    if open >= e.len() {
        return false;
    }
    let close = find_char(&e, ')', open + 1);
    proof {
        crate::text::lemma_find_char_from_bounds(e@, ')', open + 1);
    }
    if close >= e.len() {
        return false;
    }
    let code_text = trim_chars(&slice_chars(&e, open + 1, close));
    match parse_u16(&code_text) {
        Some(code) => 400 <= code && code < 500 && code != 408 && code != 429,
        None => false,
    }
}

/// The pause before retry number `attempt + 1`: 500 ms doubled per
/// attempt (the exponent capped at 63), saturating at `u64::MAX`.
pub open spec fn spec_backoff_ms(attempt: u32) -> u64 {
    let k = if attempt < 63 {
        attempt as nat
    } else {
        63
    };
    if 500 * vstd::arithmetic::power2::pow2(k) > u64::MAX {
        u64::MAX
    } else {
        (500 * vstd::arithmetic::power2::pow2(k)) as u64
    }
}

pub fn backoff_ms(attempt: u32) -> (ms: u64)
    ensures
        ms == spec_backoff_ms(attempt),
{
    let k: u64 = if attempt < 63 {
        attempt as u64
    } else {
        63
    };
    proof {
        vstd::bits::lemma_u64_pow2_no_overflow(k as nat);
        vstd::bits::lemma_u64_shl_is_mul(1, k);
    }
    let factor: u64 = 1u64 << k;
    match 500u64.checked_mul(factor) {
        Some(v) => v,
        None => u64::MAX,
    }
}

/// Waits never shrink: each pause is twice the one before, until it
/// saturates.
pub proof fn lemma_backoff_doubles(attempt: u32)
    requires
        attempt < 63,
    ensures
        spec_backoff_ms((attempt + 1) as u32) == if 2 * spec_backoff_ms(attempt) > u64::MAX {
            u64::MAX as int
        } else {
            2 * spec_backoff_ms(attempt)
        },
        spec_backoff_ms(attempt) <= spec_backoff_ms((attempt + 1) as u32),
{
    vstd::arithmetic::power2::lemma_pow2_unfold((attempt + 1) as nat);
    vstd::arithmetic::power2::lemma_pow2_pos(attempt as nat);
}

/// How an attempt ended.
#[derive(Debug, Clone, PartialEq, Eq)]
pub enum AttemptOutcome {
    Succeeded,
    Failed(String),
    TimedOut,
}

/// What to do after an attempt.
#[derive(Debug, Clone, PartialEq, Eq)]
pub enum RetryAction {
    /// Hand the attempt's result back.
    ReturnResult,
    /// Give up with this error.
    ReturnError(String),
    /// Report retry number `next_attempt`, wait, and try again.
    Retry { next_attempt: u32, backoff_ms: u64 },
}

/// `a` is the step after attempt `attempt` of at most `max_retries + 1`
/// that ended with `outcome`: success ends the run; a client error that no
/// retry can mend, or any failure of the last attempt, gives up (a timeout
/// as "Request timed out"); any other failure is retried after the backoff.
pub open spec fn retry_step(attempt: u32, max_retries: u32, outcome: AttemptOutcome, a: RetryAction) -> bool {
    match outcome {
        AttemptOutcome::Succeeded => a == RetryAction::ReturnResult,
        AttemptOutcome::Failed(e) => if spec_non_retryable(e@) || attempt >= max_retries {
            a == RetryAction::ReturnError(e)
        } else {
            a == (RetryAction::Retry { next_attempt: (attempt + 1) as u32, backoff_ms: spec_backoff_ms(attempt) })
        },
        AttemptOutcome::TimedOut => if attempt >= max_retries {
            a is ReturnError && a->ReturnError_0@ == "Request timed out"@
        } else {
            a == (RetryAction::Retry { next_attempt: (attempt + 1) as u32, backoff_ms: spec_backoff_ms(attempt) })
        },
    }
}

/// The step after attempt `attempt` (counted from 0) of at most
/// `max_retries + 1`: success ends the run; a client error that no retry
/// can mend, or any failure of the last attempt, gives up (a timeout as
/// "Request timed out"); any other failure is retried after the backoff.
pub fn next_retry_action(attempt: u32, max_retries: u32, outcome: &AttemptOutcome) -> (a: RetryAction)
    requires
        attempt <= max_retries,
    ensures
        retry_step(attempt, max_retries, *outcome, a),
{
    match outcome {
        AttemptOutcome::Succeeded => RetryAction::ReturnResult,
        AttemptOutcome::Failed(e) => {
            if is_non_retryable_client_error(e.as_str()) || attempt >= max_retries {
                RetryAction::ReturnError(e.clone())
            } else {
                RetryAction::Retry { next_attempt: attempt + 1, backoff_ms: backoff_ms(attempt) }
            }
        },
        AttemptOutcome::TimedOut => {
            if attempt >= max_retries {
                RetryAction::ReturnError(String::from_str("Request timed out"))
            } else {
                RetryAction::Retry { next_attempt: attempt + 1, backoff_ms: backoff_ms(attempt) }
            }
        },
    }
}

/// A run never goes past `max_retries` retries: a retry is only ever asked
/// for before the last attempt, and names the next one.
pub proof fn lemma_retries_bounded(attempt: u32, max_retries: u32, outcome: AttemptOutcome, a: RetryAction)
    requires
        attempt <= max_retries,
        retry_step(attempt, max_retries, outcome, a),
    ensures
        a matches RetryAction::Retry { next_attempt, .. } ==> next_attempt == attempt + 1
            && next_attempt <= max_retries,
        outcome matches AttemptOutcome::Failed(e) && spec_non_retryable(e@) ==> a !is Retry,
{
}


/// Attempt `i` ends the run: it succeeded, failed in a way no retry mends,
/// or was the last one.
pub open spec fn ends_run(i: int, max_retries: u32, outcome: AttemptOutcome) -> bool {
    ||| outcome is Succeeded
    ||| (outcome matches AttemptOutcome::Failed(e) && spec_non_retryable(e@))
    ||| i >= max_retries
}

/// The attempt, from `i` on, that ends a run whose attempts end with
/// `outcomes`.
pub open spec fn run_end(outcomes: Seq<AttemptOutcome>, max_retries: u32, i: int) -> int
    decreases max_retries - i,
{
    if i >= max_retries || ends_run(i, max_retries, outcomes[i]) {
        i
    } else {
        run_end(outcomes, max_retries, i + 1)
    }
}

/// A whole run: when attempt `i` ends with `outcomes[i]` and the step after
/// it is `actions[i]`, the run makes `run_end + 1` calls, at most
/// `max_retries + 1`; every attempt before the last is retried as the next
/// one, and the last hands back its result, its error, or "Request timed
/// out". A first call that fails with a client error no retry mends is the
/// only call.
pub proof fn lemma_whole_run(outcomes: Seq<AttemptOutcome>, max_retries: u32, actions: Seq<RetryAction>)
    requires
        outcomes.len() == max_retries + 1,
        actions.len() == max_retries + 1,
        forall|i: int| 0 <= i <= max_retries ==> retry_step(i as u32, max_retries, #[trigger] outcomes[i], actions[i]),
    ensures
        ({
            let n = run_end(outcomes, max_retries, 0);
            &&& 0 <= n <= max_retries
            &&& forall|i: int| 0 <= i < n ==> (#[trigger] actions[i] is Retry && actions[i]->next_attempt == i + 1)
            &&& match outcomes[n] {
                AttemptOutcome::Succeeded => actions[n] == RetryAction::ReturnResult,
                AttemptOutcome::Failed(e) => actions[n] == RetryAction::ReturnError(e),
                AttemptOutcome::TimedOut => actions[n] is ReturnError && actions[n]->ReturnError_0@
                    == "Request timed out"@,
            }
        }),
        (outcomes[0] matches AttemptOutcome::Failed(e) && spec_non_retryable(e@)) ==> run_end(outcomes, max_retries, 0)
            == 0,
{
    lemma_run_end_from(outcomes, max_retries, actions, 0);
}

proof fn lemma_run_end_from(outcomes: Seq<AttemptOutcome>, max_retries: u32, actions: Seq<RetryAction>, j: int)
    requires
        0 <= j <= max_retries,
        outcomes.len() == max_retries + 1,
        actions.len() == max_retries + 1,
        forall|i: int| 0 <= i <= max_retries ==> retry_step(i as u32, max_retries, #[trigger] outcomes[i], actions[i]),
    ensures
        ({
            let n = run_end(outcomes, max_retries, j);
            &&& j <= n <= max_retries
            &&& forall|i: int| j <= i < n ==> (#[trigger] actions[i] is Retry && actions[i]->next_attempt == i + 1)
            &&& match outcomes[n] {
                AttemptOutcome::Succeeded => actions[n] == RetryAction::ReturnResult,
                AttemptOutcome::Failed(e) => actions[n] == RetryAction::ReturnError(e),
                AttemptOutcome::TimedOut => actions[n] is ReturnError && actions[n]->ReturnError_0@
                    == "Request timed out"@,
            }
        }),
    decreases max_retries - j,
{
    assert(retry_step(j as u32, max_retries, outcomes[j], actions[j]));
    if !(j >= max_retries || ends_run(j, max_retries, outcomes[j])) {
        lemma_run_end_from(outcomes, max_retries, actions, j + 1);
    }
}


proof fn lemma_digit_char_value(x: nat)
    requires
        x < 10,
    ensures
        is_digit(digit_char(x)),
        digit_value(digit_char(x)) == x,
{
    assert((('0' as u32) + x) as char as u32 == ('0' as u32) + x);
}

/// The digits of a number are digits, and read back as the number.
proof fn lemma_decimal_digits(n: nat)
    ensures
        decimal(n).len() > 0,
        all_digits(decimal(n)),
        digits_value(decimal(n)) == n,
    decreases n,
{
    lemma_digit_char_value(n % 10);
    if n < 10 {
        let d = decimal(n);
        assert(d.drop_last() =~= Seq::<char>::empty());
        assert(n % 10 == n);
        assert(d.last() == digit_char(n));
        assert(digits_value(d.drop_last()) == 0);
        assert(digits_value(d) == digits_value(d.drop_last()) * 10 + digit_value(d.last()));
    } else {
        lemma_decimal_digits(n / 10);
        let d = decimal(n);
        assert(d.drop_last() =~= decimal(n / 10));
        assert(d.last() == digit_char(n % 10));
        assert(n == (n / 10) * 10 + n % 10) by (nonlinear_arith);
        assert(digits_value(d) == digits_value(d.drop_last()) * 10 + digit_value(d.last()));
        assert(digits_value(d.drop_last()) == n / 10);
        assert forall|k: int| 0 <= k < d.len() implies is_digit(#[trigger] d[k]) by {
            if k < d.len() - 1 {
                assert(d[k] == decimal(n / 10)[k]);
            }
        }
    }
}

proof fn lemma_find_exact(s: Seq<char>, c: char, i: int, p: int)
    requires
        0 <= i <= p < s.len(),
        s[p] == c,
        forall|k: int| i <= k < p ==> s[k] != c,
    ensures
        find_char_from(s, c, i) == p,
{
    lemma_find_char_from_bounds(s, c, i);
    let f = find_char_from(s, c, i);
    if f < p {
        assert(s[f] == c);
    }
}

/// Whether a failed call is tried again is decided by its HTTP status: an
/// error `"<label> API error (<status>): <body>"` is final for every client
/// error status (400 to 499) but 408 (request timeout) and 429 (too many
/// requests), and is retried for every other status, whatever the body
/// says; the label holds no `(`.
pub proof fn lemma_status_decides_retry(label: Seq<char>, status: u16, body: Seq<char>)
    requires
        forall|k: int| 0 <= k < label.len() ==> #[trigger] label[k] != '(',
    ensures
        spec_non_retryable(label + " API error ("@ + decimal(status as nat) + "): "@ + body) <==> (400 <= status
            < 500 && status != 408 && status != 429),
{
    reveal_strlit(" API error (");
    reveal_strlit("): ");
    let d = decimal(status as nat);
    lemma_decimal_digits(status as nat);
    let head = label + " API error ("@;
    let err = head + d + "): "@ + body;
    let open: int = label.len() as int + 11;
    let close: int = open + 1 + d.len();
    assert(err[open] == '(');
    assert forall|k: int| 0 <= k < open implies err[k] != '(' by {
        if k < label.len() {
            assert(err[k] == label[k]);
        } else {
            assert(err[k] == " API error ("@[k - label.len()]);
        }
    }
    lemma_find_exact(err, '(', 0, open);
    assert(err[close] == ')');
    assert forall|k: int| open + 1 <= k < close implies err[k] != ')' by {
        assert(err[k] == d[k - open - 1]);
        assert(is_digit(d[k - open - 1]));
    }
    lemma_find_exact(err, ')', open + 1, close);
    assert(err.subrange(open + 1, close) =~= d);
    assert(is_digit(d[0]));
    assert(is_digit(d.last()));
    assert(trim_start(d) == d);
    assert(trim_end(d) == d);
    assert(trim(d) == d);
    assert(spec_parse_u16(d) == Some(status));
}

} // verus!
