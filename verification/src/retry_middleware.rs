//! Rate-limit-aware retry policy for outbound REST calls. Retries happen
//! only on backpressure signalled by the service itself: a failing response
//! carrying a positive reset-after header is retried after exactly that
//! delay, up to a fixed cap of attempts; anything else is returned as-is.
//! The header is read as a plain non-negative decimal number of seconds,
//! kept to millisecond precision.

use vstd::prelude::*;

use crate::numbers::all_dec_digits;
use crate::numbers::dec_val;
use crate::numbers::is_dec_digit;
use crate::numbers::parse_u64_dec;
use crate::numbers::seq_dec_val;

verus! {

/// How many times a rate-limited call is retried before the last response
/// is returned as-is.
pub const MAXIMUM_NUMBER_OF_RETRIES: u32 = 10;

/// The verdict on one response: wait this many milliseconds and retry, or
/// return the response as it is.
#[derive(Debug, Clone, Copy, PartialEq, Eq, Structural)]
pub enum Retry {
    After(u64),
    No,
}

/// The index of the first dot in the text, or its length if it has none.
pub open spec fn dot_index(s: Seq<char>) -> int
    decreases s.len(),
{
    if s.len() == 0 {
        0
    } else if s[0] == '.' {
        0
    } else {
        1 + dot_index(s.drop_first())
    }
}

/// What the dot index means: within bounds, pointing at the first dot if
/// there is one.
pub proof fn lemma_dot_index(s: Seq<char>)
    ensures
        0 <= dot_index(s) <= s.len(),
        dot_index(s) < s.len() ==> s[dot_index(s)] == '.',
        forall|j: int| 0 <= j < dot_index(s) ==> s[j] != '.',
    decreases s.len(),
{
    if s.len() > 0 && s[0] != '.' {
        lemma_dot_index(s.drop_first());
        let t = s.drop_first();
        if dot_index(s) < s.len() {
            assert(s[dot_index(s)] == t[dot_index(t)]);
        }
        assert forall|j: int| 0 <= j < dot_index(s) implies s[j] != '.' by {
            if j >= 1 {
                assert(s[j] == t[j - 1]);
            }
        }
    }
}

/// The first three fractional digits, padded with zeros.
pub open spec fn pad3(fp: Seq<char>) -> Seq<char> {
    (fp + seq!['0', '0', '0']).subrange(0, 3)
}

/// The milliseconds a reset-after header denotes: its integer part in
/// seconds times a thousand, plus its first three fractional digits. A text
/// that is not a plain decimal number denotes nothing.
pub open spec fn reset_after_millis(s: Seq<char>) -> Option<int> {
    let d = dot_index(s);
    let ip = s.subrange(0, d);
    let fp = if d == s.len() {
        Seq::empty()
    } else {
        s.subrange(d + 1, s.len() as int)
    };
    if ip.len() == 0 || !all_dec_digits(ip) || !all_dec_digits(fp) {
        None
    } else {
        Some(seq_dec_val(ip) * 1000 + seq_dec_val(pad3(fp)))
    }
}

/// The verdict the policy gives one response: retry only a failing response
/// whose reset-after header denotes a positive delay that fits the clock.
pub open spec fn spec_should_retry(success: bool, header: Option<Seq<char>>) -> Retry {
    if success {
        Retry::No
    } else {
        match header {
            Option::None => Retry::No,
            Option::Some(h) => match reset_after_millis(h) {
                Option::None => Retry::No,
                Option::Some(v) => if 0 < v <= u64::MAX {
                    Retry::After(v as u64)
                } else {
                    Retry::No
                },
            },
        }
    }
}

/// What the retry loop does after one attempt: sleep and go again, or stop
/// and hand the response back.
#[derive(Debug, Clone, Copy, PartialEq, Eq, Structural)]
pub enum RetryAction {
    SleepAndRetry(u64),
    Finish,
}

/// The loop decision after one attempt: retry only while the response asks
/// for it and the attempt cap is not reached.
pub open spec fn spec_retry_decision(
    n_past_retries: u32,
    success: bool,
    header: Option<Seq<char>>,
) -> RetryAction {
    if n_past_retries < MAXIMUM_NUMBER_OF_RETRIES {
        match spec_should_retry(success, header) {
            Retry::After(ms) => RetryAction::SleepAndRetry(ms),
            Retry::No => RetryAction::Finish,
        }
    } else {
        RetryAction::Finish
    }
}

/// Parses a reset-after header value into milliseconds: `Some` exactly when
/// the text is a plain decimal number whose millisecond value fits a `u64`.
pub fn parse_reset_after(s: &str) -> (r: Option<u64>)
    ensures
        match r {
            Some(v) => reset_after_millis(s@) == Some(v as int),
            None => match reset_after_millis(s@) {
                Some(w) => w > u64::MAX,
                None => true,
            },
        },
{
    proof {
        lemma_dot_index(s@);
    }
    let len = s.unicode_len();
    let mut dot: usize = len;
    let mut i: usize = 0;
    while i < len
        invariant
            0 <= i <= len,
            len == s@.len(),
            dot <= len,
            dot == len ==> forall|j: int| 0 <= j < i ==> s@[j] != '.',
            dot < len ==> s@[dot as int] == '.' && (forall|j: int| 0 <= j < dot ==> s@[j] != '.'),
        decreases len - i,
    {
        if dot == len {
            let c = s.get_char(i);
            if c == '.' {
                dot = i;
            }
        }
        i = i + 1;
    }
    proof {
        assert(dot == dot_index(s@)) by {
            lemma_dot_index(s@);
            if dot < dot_index(s@) {
                assert(s@[dot as int] == '.');
                assert(s@[dot as int] != '.');
            }
            if dot_index(s@) < dot {
                assert(s@[dot_index(s@)] == '.');
                assert(s@[dot_index(s@)] != '.');
            }
        }
    }
    let ghost fp = if dot == len {
        Seq::<char>::empty()
    } else {
        s@.subrange(dot + 1, len as int)
    };
    let ip_str = s.substring_char(0, dot);
    let ip_val = match parse_u64_dec(ip_str) {
        Some(v) => v,
        None => {
            proof {
                let ip = s@.subrange(0, dot as int);
                if ip.len() > 0 && all_dec_digits(ip) && all_dec_digits(fp) {
                    assert(all_dec_digits(pad3(fp))) by {
                        assert(forall|q: int|
                            0 <= q < 3 ==> is_dec_digit(#[trigger] pad3(fp)[q]));
                    }
                    crate::numbers::lemma_seq_dec_val_nonneg(pad3(fp));
                }
            }
            return None;
        },
    };
    let fstart = if dot == len {
        len
    } else {
        dot + 1
    };
    let mut j: usize = fstart;
    while j < len
        invariant
            fstart <= j <= len,
            len == s@.len(),
            dot == dot_index(s@),
            0 <= dot <= len,
            fstart == (if dot == len {
                len as int
            } else {
                dot + 1
            }),
            fp == (if dot == len {
                Seq::<char>::empty()
            } else {
                s@.subrange(dot + 1, len as int)
            }),
            forall|q: int| 0 <= q < j - fstart ==> is_dec_digit(#[trigger] fp[q]),
        decreases len - j,
    {
        let c = s.get_char(j);
        let cu: u32 = c as u32;
        if cu < 48 || cu > 57 {
            proof {
                assert(fp[j - fstart] == s@[j as int]);
                assert(!is_dec_digit(fp[j - fstart]));
            }
            return None;
        }
        proof {
            assert(fp[j - fstart] == s@[j as int]);
        }
        j = j + 1;
    }
    proof {
        assert(forall|q: int| 0 <= q < fp.len() ==> is_dec_digit(#[trigger] fp[q]));
        assert(all_dec_digits(fp));
    }
    let d0: u64 = frac_digit(s, fstart, len, Ghost(fp), 0);
    let d1: u64 = frac_digit(s, fstart, len, Ghost(fp), 1);
    let d2: u64 = frac_digit(s, fstart, len, Ghost(fp), 2);
    let fm: u64 = d0 * 100 + d1 * 10 + d2;
    proof {
        let zs = fp + seq!['0', '0', '0'];
        let p3 = pad3(fp);
        let q1 = zs.subrange(0, 1);
        let q2 = zs.subrange(0, 2);
        assert(q1.drop_last() =~= Seq::<char>::empty());
        assert(seq_dec_val(Seq::<char>::empty()) == 0);
        assert(q1.last() == p3[0]);
        assert(seq_dec_val(q1) == dec_val(p3[0]));
        assert(q2.drop_last() =~= q1);
        assert(q2.last() == p3[1]);
        assert(seq_dec_val(q2) == seq_dec_val(q1) * 10 + dec_val(p3[1]));
        assert(p3.drop_last() =~= q2);
        assert(p3.last() == p3[2]);
        assert(seq_dec_val(p3) == seq_dec_val(q2) * 10 + dec_val(p3[2]));
        assert(fm == seq_dec_val(p3));
    }
    let wide: u128 = ip_val as u128 * 1000 + fm as u128;
    if wide > u64::MAX as u128 {
        return None;
    }
    Some(wide as u64)
}

/// The value of the fractional digit at offset `q`, or zero where the text
/// has fewer than `q + 1` fractional digits.
fn frac_digit(s: &str, fstart: usize, len: usize, fp: Ghost<Seq<char>>, q: usize) -> (r: u64)
    requires
        len == s@.len(),
        0 <= fstart <= len,
        fp@.len() == len - fstart,
        forall|i: int| 0 <= i < fp@.len() ==> (#[trigger] fp@[i]) == s@[fstart + i],
        all_dec_digits(fp@),
        q < 3,
    ensures
        r == dec_val(pad3(fp@)[q as int]),
        r < 10,
{
    proof {
        assert(pad3(fp@).len() == 3);
    }
    if q < len - fstart {
        let c = s.get_char(fstart + q);
        proof {
            assert(fp@[q as int] == s@[fstart + q]);
            assert(pad3(fp@)[q as int] == fp@[q as int]);
            assert(is_dec_digit(fp@[q as int]));
        }
        let cu: u32 = c as u32;
        (cu - 48) as u64
    } else {
        proof {
            assert(pad3(fp@)[q as int] == '0');
        }
        0
    }
}

/// The retry-middleware policy around the remote REST API.
pub struct DiscordRateLimitMiddleware;

impl DiscordRateLimitMiddleware {
    /// The verdict on one response, from its success flag and its
    /// reset-after header: retry exactly when the response failed and the
    /// header denotes a positive delay.
    pub fn should_retry(success: bool, reset_after: Option<&str>) -> (r: Retry)
        ensures
            r == spec_should_retry(
                success,
                match reset_after {
                    Some(h) => Some(h@),
                    None => None,
                },
            ),
    {
        if success {
            return Retry::No;
        }
        match reset_after {
            None => Retry::No,
            Some(h) => {
                match parse_reset_after(h) {
                    None => Retry::No,
                    Some(ms) => {
                        if ms > 0 {
                            Retry::After(ms)
                        } else {
                            Retry::No
                        }
                    },
                }
            },
        }
    }

    /// The decision the retry loop takes after one attempt, given how many
    /// retries already happened: sleep the signalled delay and retry, or
    /// finish with the response in hand. After the attempt cap, the last
    /// response is returned whatever it says.
    pub fn retry_decision(n_past_retries: u32, success: bool, reset_after: Option<&str>) -> (r:
        RetryAction)
        ensures
            r == spec_retry_decision(
                n_past_retries,
                success,
                match reset_after {
                    Some(h) => Some(h@),
                    None => None,
                },
            ),
    {
        if n_past_retries < MAXIMUM_NUMBER_OF_RETRIES {
            match Self::should_retry(success, reset_after) {
                Retry::After(ms) => RetryAction::SleepAndRetry(ms),
                Retry::No => RetryAction::Finish,
            }
        } else {
            RetryAction::Finish
        }
    }
}

/// The backoff law: a failing response whose header denotes a positive
/// delay is retried after exactly that delay on every attempt below the
/// cap, and returned as-is from the cap onwards.
pub proof fn lemma_retry_backoff(n: u32, header: Seq<char>, v: int)
    requires
        reset_after_millis(header) == Some(v),
        0 < v <= u64::MAX,
    ensures
        n < MAXIMUM_NUMBER_OF_RETRIES ==> spec_retry_decision(n, false, Some(header))
            == RetryAction::SleepAndRetry(v as u64),
        n >= MAXIMUM_NUMBER_OF_RETRIES ==> spec_retry_decision(n, false, Some(header))
            == RetryAction::Finish,
{
}

/// The no-blind-retry law: a successful response, or one without a usable
/// reset-after header, is never retried.
pub proof fn lemma_no_blind_retry(n: u32, header: Option<Seq<char>>)
    ensures
        spec_retry_decision(n, true, header) == RetryAction::Finish,
        spec_retry_decision(n, false, None) == RetryAction::Finish,
        header matches Some(h) && reset_after_millis(h) is None ==> spec_retry_decision(
            n,
            false,
            header,
        ) == RetryAction::Finish,
{
}

} // verus!
