//! The length of a run, and how it is read from text.
//!
//! A duration is written as a whole number of seconds in decimal: an
//! optional `+`, then one or more ASCII digits, and nothing else. The
//! number must fit a `u64`.

use vstd::prelude::*;
use vstd::string::*;
use crate::clock::NANOS_PER_SEC;

verus! {

/// How long a run lasts, in whole seconds.
#[derive(Clone, Copy, Debug, PartialEq, Eq, Structural)]
pub struct RunDuration {
    pub secs: u64,
}

impl RunDuration {
    /// The length in nanoseconds.
    pub open spec fn nanos(self) -> nat {
        (self.secs * NANOS_PER_SEC) as nat
    }

    pub fn from_secs(secs: u64) -> (d: RunDuration)
        ensures
            d.secs == secs,
    {
        RunDuration { secs }
    }

    /// Computes `nanos`; the product of any `u64` with a billion fits `u128`.
    pub fn as_nanos(&self) -> (n: u128)
        ensures
            n == self.nanos(),
    {
        assert(self.secs * NANOS_PER_SEC <= u128::MAX) by (nonlinear_arith)
            requires
                self.secs <= u64::MAX,
                NANOS_PER_SEC == 1_000_000_000,
        ;
        (self.secs as u128) * (NANOS_PER_SEC as u128)
    }
}

/// Why a text is not a duration.
#[derive(Clone, Copy, Debug, PartialEq, Eq, Structural)]
pub enum ParseDurationError {
    /// The text is empty.
    Empty,
    /// The text holds something other than digits after the optional sign,
    /// or nothing but the sign.
    InvalidDigit,
    /// The number does not fit a `u64`.
    PosOverflow,
}

impl ParseDurationError {
    /// The fault in words.
    pub open spec fn text(self) -> Seq<char> {
        match self {
            ParseDurationError::Empty => "cannot parse duration from empty string"@,
            ParseDurationError::InvalidDigit => "invalid digit found in duration"@,
            ParseDurationError::PosOverflow => "duration too large to fit in 64 bits"@,
        }
    }

    /// Says in words what is wrong with the text.
    pub fn message(&self) -> (message: &'static str)
        ensures
            message@ == self.text(),
    {
        match self {
            ParseDurationError::Empty => "cannot parse duration from empty string",
            ParseDurationError::InvalidDigit => "invalid digit found in duration",
            ParseDurationError::PosOverflow => "duration too large to fit in 64 bits",
        }
    }
}

/// Whether `byte` is one of the ASCII digits `0` to `9`.
pub open spec fn is_digit(byte: u8) -> bool {
    0x30 <= byte <= 0x39
}

/// Whether `text` holds digits only.
pub open spec fn all_digits(text: Seq<u8>) -> bool {
    forall|i: int| 0 <= i < text.len() ==> is_digit(#[trigger] text[i])
}

/// The number that the digits of `text` write in base ten.
pub open spec fn decimal_value(text: Seq<u8>) -> nat
    decreases text.len(),
{
    if text.len() == 0 {
        0
    } else {
        decimal_value(text.drop_last()) * 10 + (text.last() - 0x30) as nat
    }
}

/// The text without its sign: a leading `+` is dropped where something
/// follows it.
pub open spec fn unsigned_part(text: Seq<u8>) -> Seq<u8> {
    if text.len() > 1 && text[0] == 0x2b {
        text.skip(1)
    } else {
        text
    }
}

/// Whether the digits at the front of `text` already write a number too
/// large for a `u64`, whatever follows them.
pub open spec fn overflows(text: Seq<u8>) -> bool {
    exists|k: int|
        0 <= k <= text.len() && all_digits(#[trigger] text.take(k)) && decimal_value(text.take(k))
            > u64::MAX
}

/// The seconds that `text` writes, or why it writes none. Read from the
/// left, the first fault decides: a number that has outgrown `u64` before
/// a stray byte turns up is an overflow.
pub open spec fn parsed_secs(text: Seq<u8>) -> Result<u64, ParseDurationError> {
    if text.len() == 0 {
        Err(ParseDurationError::Empty)
    } else if overflows(unsigned_part(text)) {
        Err(ParseDurationError::PosOverflow)
    } else if !all_digits(unsigned_part(text)) {
        Err(ParseDurationError::InvalidDigit)
    } else {
        Ok(decimal_value(unsigned_part(text)) as u64)
    }
}

/// A longer run of digits never writes a smaller number.
pub proof fn lemma_decimal_value_grows(text: Seq<u8>, k: int, n: int)
    requires
        0 <= k <= n <= text.len(),
    ensures
        decimal_value(text.take(k)) <= decimal_value(text.take(n)),
    decreases n - k,
{
    if k < n {
        lemma_decimal_value_grows(text, k, n - 1);
        assert(text.take(n).drop_last() == text.take(n - 1));
    }
}

/// Reads a count of seconds from the bytes of a text.
pub fn secs_from_bytes(text: &[u8]) -> (r: Result<u64, ParseDurationError>)
    ensures
        r == parsed_secs(text@),
{
    let len: usize = text.len();
    if len == 0 {
        return Err(ParseDurationError::Empty);
    }
    let first: usize = if len > 1 && text[0] == 0x2b {
        1
    } else {
        0
    };
    let ghost body = unsigned_part(text@);
    let mut value: u64 = 0;
    let mut i: usize = first;
    assert(body.take(0).len() == 0);
    while i < len
        invariant
            first <= i <= len,
            0 < len == text@.len(),
            first == text@.len() - body.len(),
            body == unsigned_part(text@),
            body == text@.skip(first as int),
            all_digits(body.take(i - first)),
            value == decimal_value(body.take(i - first)),
        decreases len - i,
    {
        let byte: u8 = text[i];
        let ghost seen = body.take(i - first);
        let ghost next = body.take(i - first + 1);
        proof {
            assert(next.drop_last() == seen);
            assert(next.last() == byte);
        }
        if byte < 0x30 || byte > 0x39 {
            proof {
                assert forall|k: int|
                    0 <= k <= body.len() && all_digits(#[trigger] body.take(k)) implies decimal_value(
                    body.take(k),
                ) <= u64::MAX by {
                    if k > i - first {
                        assert(body.take(k)[i - first] == byte);
                    } else {
                        lemma_decimal_value_grows(body, k, i - first);
                    }
                }
                assert(!all_digits(body)) by {
                    assert(body[i - first] == byte);
                }
            }
            return Err(ParseDurationError::InvalidDigit);
        }
        let digit: u64 = (byte - 0x30) as u64;
        let grown: Option<u64> = match value.checked_mul(10) {
            Some(tenfold) => tenfold.checked_add(digit),
            None => None,
        };
        proof {
            assert(all_digits(next)) by {
                assert forall|j: int| 0 <= j < next.len() implies is_digit(#[trigger] next[j]) by {
                    if j < seen.len() {
                        assert(next[j] == seen[j]);
                    }
                }
            }
            assert(decimal_value(next) == value * 10 + digit);
        }
        match grown {
            Some(more) => {
                value = more;
            },
            None => {
                return Err(ParseDurationError::PosOverflow);
            },
        }
        i = i + 1;
    }
    proof {
        assert(body.take(i - first) == body);
        assert forall|k: int|
            0 <= k <= body.len() && all_digits(#[trigger] body.take(k)) implies decimal_value(
            body.take(k),
        ) <= u64::MAX by {
            lemma_decimal_value_grows(body, k, body.len() as int);
        }
    }
    Ok(value)
}

/// Reads the length of a run from a decimal count of seconds.
pub fn duration_from_str_secs(d: &str) -> (r: Result<RunDuration, ParseDurationError>)
    ensures
        r == match parsed_secs(d.spec_bytes()) {
            Ok(secs) => Ok::<RunDuration, ParseDurationError>(RunDuration { secs }),
            Err(why) => Err(why),
        },
{
    let secs: u64 = secs_from_bytes(d.as_bytes())?;
    Ok(RunDuration::from_secs(secs))
}

} // verus!
