//! Optional numeric arguments of the command-line tools.
use vstd::prelude::*;

use crate::text::{chars_of, digit_value, is_ascii_digit, spec_is_ascii_digit};

verus! {

/// Why a text is not an unsigned integer (as `core::num::IntErrorKind` tells).
#[derive(Debug, Clone, Copy, PartialEq, Eq, Structural)]
pub enum IntParseError {
    /// The text is empty.
    Empty,
    /// A character is not a digit (a sign alone counts as one).
    InvalidDigit,
    /// The value exceeds the largest of the target type.
    PosOverflow,
}

/// Reading the first `n` characters of `d` as decimal digits, left to right:
/// the first non-digit is an invalid digit, the first value above `max` an
/// overflow, whichever comes first.
pub open spec fn scan_digits(d: Seq<char>, n: nat, max: nat) -> Result<nat, IntParseError>
    decreases n,
{
    if n == 0 {
        Ok(0)
    } else {
        match scan_digits(d, (n - 1) as nat, max) {
            Err(e) => Err(e),
            Ok(a) => if !spec_is_ascii_digit(d[n - 1]) {
                Err(IntParseError::InvalidDigit)
            } else if a * 10 + digit_value(d[n - 1]) > max {
                Err(IntParseError::PosOverflow)
            } else {
                Ok(a * 10 + digit_value(d[n - 1]))
            },
        }
    }
}

/// `str::parse` into an unsigned integer type whose largest value is `max`:
/// an optional `+`, then decimal digits.
pub open spec fn spec_parse_unsigned(s: Seq<char>, max: nat) -> Result<nat, IntParseError> {
    if s.len() == 0 {
        Err(IntParseError::Empty)
    } else if (s[0] == '+' || s[0] == '-') && s.len() == 1 {
        Err(IntParseError::InvalidDigit)
    } else if s[0] == '+' {
        scan_digits(s.skip(1), (s.len() - 1) as nat, max)
    } else {
        scan_digits(s, s.len(), max)
    }
}

proof fn lemma_scan_bounded(d: Seq<char>, n: nat, max: nat)
    ensures
        scan_digits(d, n, max) matches Ok(v) ==> v <= max,
    decreases n,
{
    if n > 0 {
        lemma_scan_bounded(d, (n - 1) as nat, max);
    }
}

fn scan(cs: &Vec<char>, from: usize, max: u64) -> (r: Result<u64, IntParseError>)
    requires
        from <= cs@.len(),
    ensures
        match scan_digits(cs@.skip(from as int), (cs@.len() - from) as nat, max as nat) {
            Ok(v) => r == Ok::<u64, IntParseError>(v as u64),
            Err(e) => r == Err::<u64, IntParseError>(e),
        },
{
    let ghost d = cs@.skip(from as int);
    let mut acc: u64 = 0;
    let mut i: usize = from;
    while i < cs.len()
        invariant
            from <= i <= cs@.len(),
            d == cs@.skip(from as int),
            scan_digits(d, (i - from) as nat, max as nat) == Ok::<nat, IntParseError>(acc as nat),
        decreases cs.len() - i,
    {
        let c = cs[i];
        assert(d[i - from] == c);
        if !is_ascii_digit(c) {
            proof {
                lemma_scan_stuck(d, (i - from + 1) as nat, (cs@.len() - from) as nat, max as nat);
            }
            return Err(IntParseError::InvalidDigit);
        }
        let v = (c as u32 - 48) as u64;
        assert(v == digit_value(c));
        if v > max || acc > (max - v) / 10 {
            assert(acc * 10 + v > max) by (nonlinear_arith)
                requires
                    v > max || acc > (max - v) / 10,
                    v <= 9,
                    acc >= 0,
            ;
            proof {
                lemma_scan_stuck(d, (i - from + 1) as nat, (cs@.len() - from) as nat, max as nat);
            }
            return Err(IntParseError::PosOverflow);
        }
        assert(acc * 10 + v <= max) by (nonlinear_arith)
            requires
                acc <= (max - v) / 10,
                v <= max,
        ;
        acc = acc * 10 + v;
        i = i + 1;
    }
    Ok(acc)
}

/// Once reading fails it stays failed.
proof fn lemma_scan_stuck(d: Seq<char>, n: nat, m: nat, max: nat)
    requires
        n <= m,
        scan_digits(d, n, max) is Err,
    ensures
        scan_digits(d, m, max) == scan_digits(d, n, max),
    decreases m - n,
{
    if n < m {
        lemma_scan_stuck(d, n, (m - 1) as nat, max);
    }
}

/// The text read as an unsigned integer no larger than `max` (see
/// [`spec_parse_unsigned`]).
pub fn parse_unsigned(s: &str, max: u64) -> (r: Result<u64, IntParseError>)
    ensures
        match spec_parse_unsigned(s@, max as nat) {
            Ok(v) => r == Ok::<u64, IntParseError>(v as u64),
            Err(e) => r == Err::<u64, IntParseError>(e),
        },
{
    let cs = chars_of(s);
    if cs.len() == 0 {
        return Err(IntParseError::Empty);
    }
    if (cs[0] == '+' || cs[0] == '-') && cs.len() == 1 {
        return Err(IntParseError::InvalidDigit);
    }
    if cs[0] == '+' {
        scan(&cs, 1, max)
    } else {
        assert(cs@.skip(0) =~= cs@);
        scan(&cs, 0, max)
    }
}

/// The argument at `index` read as an unsigned integer no larger than `max`,
/// or `default` when there are not that many arguments.
pub fn optional_arg(args: &[String], index: usize, default: u64, max: u64) -> (r: Result<
    u64,
    IntParseError,
>)
    ensures
        index >= args@.len() ==> r == Ok::<u64, IntParseError>(default),
        index < args@.len() ==> match spec_parse_unsigned(args@[index as int]@, max as nat) {
            Ok(v) => r == Ok::<u64, IntParseError>(v as u64),
            Err(e) => r == Err::<u64, IntParseError>(e),
        },
{
    if index < args.len() {
        parse_unsigned(args[index].as_str(), max)
    } else {
        Ok(default)
    }
}

} // verus!
