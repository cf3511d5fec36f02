//! Bounded activation durations and the parser that reads them out of a
//! message body.

use vstd::prelude::*;

verus! {

/// Hard ceiling on any requested activation time: five minutes.
pub const MAX_ACTIVATION_SECONDS: u64 = 300;

/// A non-negative activation duration in whole seconds, clamped to
/// [`MAX_ACTIVATION_SECONDS`] at construction. A `Seconds` value never holds
/// more than 300.
#[derive(Debug, Clone, Copy, PartialEq, Eq, Structural)]
pub struct Seconds(u64);

impl View for Seconds {
    type V = int;

    closed spec fn view(&self) -> int {
        self.0 as int
    }
}

impl Seconds {
    #[verifier::type_invariant]
    spec fn bounded(self) -> bool {
        self.0 <= MAX_ACTIVATION_SECONDS
    }

    /// Clamp `v` to the ceiling: the result is `min(v, 300)`, so it always
    /// lies in `[0, 300]`.
    pub fn new(v: u64) -> (r: Seconds)
        ensures
            r@ == vstd::math::min(v as int, MAX_ACTIVATION_SECONDS as int),
            0 <= r@ <= MAX_ACTIVATION_SECONDS,
    {
        if v > MAX_ACTIVATION_SECONDS {
            Seconds(MAX_ACTIVATION_SECONDS)
        } else {
            Seconds(v)
        }
    }

    /// The number of seconds held; by construction at most 300.
    pub fn value(&self) -> (r: u64)
        ensures
            r as int == self@,
            r <= MAX_ACTIVATION_SECONDS,
    {
        proof {
            use_type_invariant(self);
        }
        self.0
    }

    /// Parse a message body as an activation request: the whole body must be
    /// a non-empty string of decimal digits. The value read is clamped to
    /// the ceiling; anything else is rejected with the offending text.
    pub fn from_str(msg: String) -> (r: Result<Seconds, ParseError>)
        ensures
            is_command_text(msg@) ==> (r matches Ok(s) && s@ == command_value(msg@)),
            !is_command_text(msg@) ==> (r matches Err(e) && e.text@ == msg@),
    {
        let n = msg.as_str().unicode_len();
        if n == 0 {
            return Err(ParseError { text: msg });
        }
        let mut acc: u64 = 0;
        let mut i: usize = 0;
        while i < n
            invariant
                0 < n == msg@.len(),
                i <= n,
                all_digits(msg@.take(i as int)),
                acc <= MAX_ACTIVATION_SECONDS + 1,
                digits_value(msg@.take(i as int)) > MAX_ACTIVATION_SECONDS ==> acc
                    == MAX_ACTIVATION_SECONDS + 1,
                digits_value(msg@.take(i as int)) <= MAX_ACTIVATION_SECONDS ==> acc
                    == digits_value(msg@.take(i as int)),
            decreases n - i,
        {
            let c = msg.as_str().get_char(i);
            let code = c as u32;
            if code < 48 || code > 57 {
                proof {
                    assert(!is_ascii_digit(msg@[i as int]));
                }
                return Err(ParseError { text: msg });
            }
            let d = (code - 48) as u64;
            let next = acc * 10 + d;
            acc = if next > MAX_ACTIVATION_SECONDS {
                MAX_ACTIVATION_SECONDS + 1
            } else {
                next
            };
            proof {
                let pre = msg@.take(i as int);
                let now = msg@.take(i + 1 as int);
                assert(now.drop_last() =~= pre);
                assert(now.last() == msg@[i as int]);
                assert forall|j: int| 0 <= j < now.len() implies is_ascii_digit(now[j]) by {
                    if j < i {
                        assert(is_ascii_digit(pre[j]));
                    }
                }
            }
            i = i + 1;
        }
        proof {
            assert(msg@.take(n as int) =~= msg@);
        }
        let v = if acc > MAX_ACTIVATION_SECONDS {
            MAX_ACTIVATION_SECONDS
        } else {
            acc
        };
        Ok(Seconds(v))
    }
}

/// A message body that is not a plain non-negative decimal number, carried
/// back to the caller unchanged.
#[derive(Debug, PartialEq, Eq)]
pub struct ParseError {
    pub text: String,
}

/// A decimal digit `'0'..='9'`.
pub open spec fn is_ascii_digit(c: char) -> bool {
    48 <= c as u32 <= 57
}

/// The numeric value of a decimal digit.
pub open spec fn digit_value(c: char) -> int {
    c as u32 - 48
}

/// Every character of `s` is a decimal digit.
pub open spec fn all_digits(s: Seq<char>) -> bool {
    forall|i: int| 0 <= i < s.len() ==> is_ascii_digit(s[i])
}

/// The number written in `s`, read as base-10 digits.
pub open spec fn digits_value(s: Seq<char>) -> int
    decreases s.len(),
{
    if s.len() == 0 {
        0
    } else {
        digits_value(s.drop_last()) * 10 + digit_value(s.last())
    }
}

/// Exactly the bodies the parser accepts: a non-empty, all-digit string.
pub open spec fn is_command_text(s: Seq<char>) -> bool {
    s.len() > 0 && all_digits(s)
}

/// The duration a valid command text requests, after clamping.
pub open spec fn command_value(s: Seq<char>) -> int {
    vstd::math::min(digits_value(s), MAX_ACTIVATION_SECONDS as int)
}

/// The parser's outcome on `s`: the clamped value of a valid command text,
/// nothing otherwise.
pub open spec fn parse_outcome(s: Seq<char>) -> Option<int> {
    if is_command_text(s) {
        Some(command_value(s))
    } else {
        None
    }
}

/// An `Option<Seconds>` seen as the duration value it holds.
pub open spec fn opt_value(o: Option<Seconds>) -> Option<int> {
    match o {
        Some(s) => Some(s@),
        None => None,
    }
}

/// Two `Seconds` holding the same number of seconds are the same value.
pub proof fn lemma_seconds_view_injective(a: Seconds, b: Seconds)
    requires
        a@ == b@,
    ensures
        a == b,
{
}

} // verus!
