//! Error type of the decoder library.

use vstd::prelude::*;
use vstd::string::*;

verus! {

/// Library error type.
#[non_exhaustive]
#[derive(Clone, Copy, Debug, PartialEq, Eq, Structural)]
pub enum Error {
    /// Caller-supplied sample rate is outside the supported range.
    InvalidSampleRate {
        /// The rate the caller passed.
        got: u32,
    },
}

/// The character of the decimal digit `d` (`d < 10`).
pub open spec fn digit_char(d: nat) -> char {
    (48 + d) as char
}

/// Decimal representation of `n`, most significant digit first, without
/// leading zeros (`"0"` for zero).
pub open spec fn decimal_chars(n: nat) -> Seq<char>
    decreases n,
{
    if n < 10 {
        seq![digit_char(n)]
    } else {
        decimal_chars(n / 10).push(digit_char(n % 10))
    }
}

/// The one-character string of decimal digit `d`.
fn digit_str(d: u32) -> (s: &'static str)
    requires
        d < 10,
    ensures
        s@ == seq![digit_char(d as nat)],
{
    match d {
        0 => { proof { reveal_strlit("0"); } "0" },
        1 => { proof { reveal_strlit("1"); } "1" },
        2 => { proof { reveal_strlit("2"); } "2" },
        3 => { proof { reveal_strlit("3"); } "3" },
        4 => { proof { reveal_strlit("4"); } "4" },
        5 => { proof { reveal_strlit("5"); } "5" },
        6 => { proof { reveal_strlit("6"); } "6" },
        7 => { proof { reveal_strlit("7"); } "7" },
        8 => { proof { reveal_strlit("8"); } "8" },
        _ => { proof { reveal_strlit("9"); } "9" },
    }
}

/// Append the decimal representation of `n` to `out`.
pub fn push_decimal(out: &mut String, n: u32)
    ensures
        final(out)@ == old(out)@ + decimal_chars(n as nat),
    decreases n,
{
    if n >= 10 {
        push_decimal(out, n / 10);
    }
    let d = digit_str(n % 10);
    out.append(d);
    proof {
        if n >= 10 {
            assert(decimal_chars(n as nat) == decimal_chars((n / 10) as nat).push(digit_char((n % 10) as nat)));
        }
        assert(final(out)@ =~= old(out)@ + decimal_chars(n as nat));
    }
}

impl Error {
    /// The human-readable message of the error, as its `Display` renders it.
    pub fn message(&self) -> (s: String)
        ensures
            match *self {
                Error::InvalidSampleRate { got } => s@ == "invalid sample rate: "@
                    + decimal_chars(got as nat) + " (must be > 0 and \u{2264} "@
                    + decimal_chars(crate::resample::MAX_INPUT_SAMPLE_RATE_HZ as nat) + ")"@,
            },
    {
        match *self {
            Error::InvalidSampleRate { got } => {
                let mut s = String::from_str("invalid sample rate: ");
                push_decimal(&mut s, got);
                s.append(" (must be > 0 and \u{2264} ");
                push_decimal(&mut s, crate::resample::MAX_INPUT_SAMPLE_RATE_HZ);
                s.append(")");
                s
            },
        }
    }
}

} // verus!
