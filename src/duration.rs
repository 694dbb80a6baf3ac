//! Session durations written as `<digits><suffix>?`, with the suffix one of
//! `s`, `m` or `h` (none meaning seconds).

use vstd::prelude::*;

verus! {

/// Shortest session that the identity service grants, in seconds.
pub const MIN_DURATION_SECS: i32 = 900;

/// Longest session that the identity service grants, in seconds.
pub const MAX_DURATION_SECS: i32 = 43200;

pub open spec fn is_digit(c: char) -> bool {
    '0' <= c && c <= '9'
}

pub open spec fn digit_value(c: char) -> int {
    c as int - '0' as int
}

pub open spec fn all_digits(s: Seq<char>) -> bool {
    forall|i: int| 0 <= i < s.len() ==> is_digit(#[trigger] s[i])
}

/// The number that a string of decimal digits denotes.
pub open spec fn digits_value(s: Seq<char>) -> int
    decreases s.len(),
{
    if s.len() == 0 {
        0
    } else {
        10 * digits_value(s.drop_last()) + digit_value(s.last())
    }
}

pub open spec fn is_unit(c: char) -> bool {
    c == 's' || c == 'm' || c == 'h'
}

pub open spec fn unit_factor(c: char) -> int {
    if c == 'h' {
        3600
    } else if c == 'm' {
        60
    } else {
        1
    }
}

/// The digits of a duration: everything but a trailing unit letter.
pub open spec fn amount_part(s: Seq<char>) -> Seq<char> {
    if s.len() > 0 && is_unit(s.last()) {
        s.drop_last()
    } else {
        s
    }
}

/// Seconds per unit of the amount: set by the trailing letter, if any.
pub open spec fn factor_of(s: Seq<char>) -> int {
    if s.len() > 0 && is_unit(s.last()) {
        unit_factor(s.last())
    } else {
        1
    }
}

/// `s` has the shape `<digits><unit>?` with at least one digit.
pub open spec fn well_formed_duration(s: Seq<char>) -> bool {
    amount_part(s).len() > 0 && all_digits(amount_part(s))
}

/// The number of seconds that a well-formed duration denotes.
pub open spec fn duration_secs(s: Seq<char>) -> int {
    digits_value(amount_part(s)) * factor_of(s)
}

pub open spec fn in_duration_range(v: int) -> bool {
    MIN_DURATION_SECS <= v <= MAX_DURATION_SECS
}

/// Why a duration was refused; each variant holds the text as given.
#[derive(Debug)]
pub enum DurationError {
    /// The text is not `<digits><unit>?`.
    Malformed(String),
    /// The text is well formed but the session would be too short or too long.
    OutOfRange(String),
}

impl DurationError {
    pub open spec fn input(&self) -> Seq<char> {
        match self {
            DurationError::Malformed(s) => s@,
            DurationError::OutOfRange(s) => s@,
        }
    }

    /// A sentence for the user, naming the rejected text (and the bounds, when
    /// it was out of range).
    pub fn message(&self) -> (r: String)
        ensures
            self is Malformed ==> r@ == "Failed to parse duration: "@ + self.input()
                + " (expected <digits> with an optional s, m or h, between 900 seconds (15 minutes) and 43200 seconds (12 hours))"@,
            self is OutOfRange ==> r@ == "duration ("@ + self.input()
                + ") must be between 900 seconds (15 minutes) and 43200 seconds (12 hours)"@,
    {
        match self {
            DurationError::Malformed(s) => {
                let r = String::from_str("Failed to parse duration: ");
                r.concat(s.as_str()).concat(
                    " (expected <digits> with an optional s, m or h, between 900 seconds (15 minutes) and 43200 seconds (12 hours))",
                )
            },
            DurationError::OutOfRange(s) => {
                let r = String::from_str("duration (");
                let r = r.concat(s.as_str());
                r.concat(") must be between 900 seconds (15 minutes) and 43200 seconds (12 hours)")
            },
        }
    }
}

/// Digits beyond this value all lead to a refusal, so accumulation stops there.
const AMOUNT_CAP: u64 = 43201;

proof fn lemma_capped_step(x: int, d: int)
    requires
        0 <= x,
        0 <= d <= 9,
    ensures
        0 <= 10 * x + d,
        (if 10 * (if x < AMOUNT_CAP { x } else { AMOUNT_CAP as int }) + d < AMOUNT_CAP {
            10 * (if x < AMOUNT_CAP { x } else { AMOUNT_CAP as int }) + d
        } else {
            AMOUNT_CAP as int
        }) == (if 10 * x + d < AMOUNT_CAP { 10 * x + d } else { AMOUNT_CAP as int }),
{
}

proof fn lemma_digits_value_nonneg(s: Seq<char>)
    requires
        all_digits(s),
    ensures
        digits_value(s) >= 0,
    decreases s.len(),
{
    if s.len() > 0 {
        let t = s.drop_last();
        assert(all_digits(t)) by {
            assert forall|i: int| 0 <= i < t.len() implies is_digit(#[trigger] t[i]) by {
                assert(t[i] == s[i]);
            }
        }
        lemma_digits_value_nonneg(t);
        assert(is_digit(s[s.len() - 1]));
    }
}

/// Parses a session duration into seconds.
///
/// The text must be decimal digits, optionally followed by `s`, `m` or `h`
/// (seconds when no letter is given); the result must lie within
/// `[MIN_DURATION_SECS, MAX_DURATION_SECS]`.
pub fn parse_duration(s: &str) -> (r: Result<i32, DurationError>)
    ensures
        !well_formed_duration(s@) ==> (r matches Err(DurationError::Malformed(m)) && m@ == s@),
        well_formed_duration(s@) && in_duration_range(duration_secs(s@)) ==> r == Ok::<
            i32,
            DurationError,
        >(duration_secs(s@) as i32),
        well_formed_duration(s@) && !in_duration_range(duration_secs(s@)) ==> (r matches Err(
            DurationError::OutOfRange(m),
        ) && m@ == s@),
{
    let n = s.unicode_len();
    let mut end: usize = n;
    let mut factor: u64 = 1;
    if n > 0 {
        let c = s.get_char(n - 1);
        if c == 's' || c == 'm' || c == 'h' {
            end = n - 1;
            factor = if c == 'h' {
                3600
            } else if c == 'm' {
                60
            } else {
                1
            };
        }
    }
    assert(s@.subrange(0, end as int) == amount_part(s@));
    assert(factor == factor_of(s@));
    let ghost body = amount_part(s@);
    if end == 0 {
        return Err(DurationError::Malformed(String::from_str(s)));
    }
    let mut value: u64 = 0;
    let mut i: usize = 0;
    while i < end
        invariant
            0 <= i <= end <= n,
            n == s@.len(),
            1 <= factor <= 3600,
            factor == factor_of(s@),
            body == amount_part(s@),
            body == s@.subrange(0, end as int),
            all_digits(body.subrange(0, i as int)),
            value as int == (if digits_value(body.subrange(0, i as int)) < AMOUNT_CAP {
                digits_value(body.subrange(0, i as int))
            } else {
                AMOUNT_CAP as int
            }),
            digits_value(body.subrange(0, i as int)) >= 0,
        decreases end - i,
    {
        let c = s.get_char(i);
        assert(c == body[i as int]);
        if !('0' <= c && c <= '9') {
            assert(!is_digit(body[i as int]));
            assert(!all_digits(body));
            assert(!well_formed_duration(s@));
            return Err(DurationError::Malformed(String::from_str(s)));
        }
        let d = (c as u32 - '0' as u32) as u64;
        let ghost prev = body.subrange(0, i as int);
        let ghost next = body.subrange(0, i as int + 1);
        assert(next.drop_last() == prev);
        assert(next.last() == c);
        proof {
            lemma_capped_step(digits_value(prev), d as int);
        }
        value = if 10 * value + d < AMOUNT_CAP {
            10 * value + d
        } else {
            AMOUNT_CAP
        };
        i = i + 1;
        assert(all_digits(body.subrange(0, i as int))) by {
            assert forall|k: int| 0 <= k < i implies is_digit(#[trigger] next[k]) by {
                if k < i - 1 {
                    assert(next[k] == prev[k]);
                }
            }
        }
    }
    assert(body.subrange(0, end as int) == body);
    assert(value <= AMOUNT_CAP);
    assert(value * factor <= AMOUNT_CAP * 3600) by (nonlinear_arith)
        requires
            value <= AMOUNT_CAP,
            factor <= 3600,
    ;
    let total = value * factor;
    assert(total as int == value as int * factor as int);
    assert(in_duration_range(duration_secs(s@)) <==> (900 <= total && total <= 43200)) by (
    nonlinear_arith)
        requires
            total as int == value as int * factor as int,
            duration_secs(s@) == digits_value(body) * factor as int,
            value as int == (if digits_value(body) < AMOUNT_CAP {
                digits_value(body)
            } else {
                AMOUNT_CAP as int
            }),
            1 <= factor <= 3600,
            digits_value(body) >= 0,
    ;
    if 900 <= total && total <= 43200 {
        Ok(total as i32)
    } else {
        Err(DurationError::OutOfRange(String::from_str(s)))
    }
}

} // verus!
