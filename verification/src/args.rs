//! Command-line argument validation: three positional arguments — a signed
//! 64-bit seed and a signed 32-bit starting coordinate pair — parsed from
//! their byte text. A missing or unparsable argument is a fatal error,
//! reported through the error taxonomy here; the seed is kept as a 64-bit
//! bit pattern, sign-extended from the signed input.

use vstd::prelude::*;

verus! {

/// Why an argument's text failed to parse as an integer.
#[derive(Clone, Copy, PartialEq, Eq, Structural, Debug)]
pub enum ParseError {
    /// The text was empty, or held only a sign.
    Empty,
    /// A character other than an optional leading sign and decimal digits.
    InvalidDigit,
    /// The value exceeds the largest value of the target type.
    TooLarge,
    /// The value is below the smallest value of the target type.
    TooSmall,
}

/// The three positional arguments, in order.
#[derive(Clone, Copy, PartialEq, Eq, Structural, Debug)]
pub enum SearchArg {
    Seed,
    CoordX,
    CoordZ,
}

/// A fatal argument error: a required argument was not supplied, or its
/// text could not be parsed as the expected integer type.
#[derive(Clone, Copy, PartialEq, Eq, Structural, Debug)]
pub enum ArgError {
    Missing(SearchArg),
    Parse(SearchArg, ParseError),
}

/// The validated arguments: the seed as a raw 64-bit pattern and the
/// starting block coordinate.
#[derive(Clone, Copy, PartialEq, Eq, Structural, Debug)]
pub struct ParsedArgs {
    pub seed: u64,
    pub x: i32,
    pub z: i32,
}

/// An ASCII decimal digit.
pub open spec fn is_digit(b: u8) -> bool {
    48 <= b <= 57
}

/// The numeric value of an ASCII decimal digit.
pub open spec fn digit_val(b: u8) -> int {
    b - 48
}

/// Every byte is an ASCII decimal digit.
pub open spec fn all_digits(s: Seq<u8>) -> bool {
    forall|i: int| 0 <= i < s.len() ==> is_digit(#[trigger] s[i])
}

/// The value of a string of decimal digits, most significant first.
pub open spec fn digits_val(s: Seq<u8>) -> int
    decreases s.len(),
{
    if s.len() <= 0 {
        0
    } else {
        digits_val(s.drop_last()) * 10 + digit_val(s.last())
    }
}

/// Whether the text begins with a minus sign (ASCII 45).
pub open spec fn int_neg(s: Seq<u8>) -> bool {
    s.len() > 0 && s[0] == 45
}

/// The digits of the text: everything after an optional leading `+` or `-`.
pub open spec fn int_body(s: Seq<u8>) -> Seq<u8> {
    if s.len() > 0 && (s[0] == 43 || s[0] == 45) {
        s.subrange(1, s.len() as int)
    } else {
        s
    }
}

/// What parsing the text as a signed 64-bit integer yields: an optional
/// sign followed by at least one decimal digit, with the value within the
/// `i64` range.
pub open spec fn parse_i64_spec(s: Seq<u8>) -> Result<i64, ParseError> {
    let body = int_body(s);
    if s.len() == 0 || body.len() == 0 {
        Err(ParseError::Empty)
    } else if !all_digits(body) {
        Err(ParseError::InvalidDigit)
    } else {
        let v = if int_neg(s) {
            -digits_val(body)
        } else {
            digits_val(body)
        };
        if v > i64::MAX {
            Err(ParseError::TooLarge)
        } else if v < i64::MIN {
            Err(ParseError::TooSmall)
        } else {
            Ok(v as i64)
        }
    }
}

/// What parsing the text as a signed 32-bit integer yields: as for 64 bits,
/// with the narrower range.
pub open spec fn parse_i32_spec(s: Seq<u8>) -> Result<i32, ParseError> {
    match parse_i64_spec(s) {
        Err(e) => Err(e),
        Ok(v) => if v > i32::MAX {
            Err(ParseError::TooLarge)
        } else if v < i32::MIN {
            Err(ParseError::TooSmall)
        } else {
            Ok(v as i32)
        },
    }
}

/// The seed as a bit pattern: a non-negative input is kept as it is, a
/// negative one is sign-extended into the upper half of the `u64` range.
pub open spec fn seed_bits(v: i64) -> u64 {
    if v >= 0 {
        v as u64
    } else {
        (v + 0x1_0000_0000_0000_0000) as u64
    }
}

/// Appending one digit multiplies the prefix value by ten and adds it.
proof fn lemma_digits_val_step(s: Seq<u8>, k: int)
    requires
        0 <= k < s.len(),
    ensures
        digits_val(s.take(k + 1)) == digits_val(s.take(k)) * 10 + digit_val(s[k]),
{
    assert(s.take(k + 1).drop_last() =~= s.take(k));
    assert(s.take(k + 1).last() == s[k]);
}

/// Parses the bytes of a signed 64-bit decimal integer.
pub fn parse_i64(s: &[u8]) -> (r: Result<i64, ParseError>)
    ensures
        r == parse_i64_spec(s@),
{
    let n: usize = s.len();
    if n == 0 {
        return Err(ParseError::Empty);
    }
    let b0: u8 = s[0];
    let neg: bool = b0 == 45;
    let off: usize = if b0 == 45 || b0 == 43 {
        1
    } else {
        0
    };
    let ghost body = int_body(s@);
    proof {
        assert(body =~= s@.subrange(off as int, n as int));
    }
    if off >= n {
        return Err(ParseError::Empty);
    }
    let mut i: usize = off;
    let mut mag: u128 = 0;
    let mut over: bool = false;
    while i < n
        invariant
            off <= i <= n,
            off < n,
            n == s@.len(),
            body == int_body(s@),
            body == s@.subrange(off as int, n as int),
            all_digits(body.take(i - off)),
            !over ==> mag == digits_val(body.take(i - off)) && mag <= u64::MAX,
            over ==> digits_val(body.take(i - off)) > u64::MAX,
        decreases n - i,
    {
        let b: u8 = s[i];
        proof {
            assert(body[i - off] == s@[i as int]);
        }
        if b < 48 || b > 57 {
            proof {
                assert(!is_digit(body[i - off]));
            }
            return Err(ParseError::InvalidDigit);
        }
        proof {
            lemma_digits_val_step(body, i - off);
        }
        let d: u128 = (b - 48) as u128;
        if !over {
            let next: u128 = mag * 10 + d;
            if next > u64::MAX as u128 {
                over = true;
            } else {
                mag = next;
            }
        }
        i = i + 1;
    }
    proof {
        assert(body.take((n - off) as int) =~= body);
    }
    let ghost dv = digits_val(body);
    if over {
        if neg {
            return Err(ParseError::TooSmall);
        } else {
            return Err(ParseError::TooLarge);
        }
    }
    if neg {
        if mag > 9_223_372_036_854_775_808u128 {
            Err(ParseError::TooSmall)
        } else if mag == 9_223_372_036_854_775_808u128 {
            Ok(i64::MIN)
        } else {
            Ok(-(mag as i64))
        }
    } else {
        if mag > 9_223_372_036_854_775_807u128 {
            Err(ParseError::TooLarge)
        } else {
            Ok(mag as i64)
        }
    }
}

/// Parses the bytes of a signed 32-bit decimal integer.
pub fn parse_i32(s: &[u8]) -> (r: Result<i32, ParseError>)
    ensures
        r == parse_i32_spec(s@),
{
    match parse_i64(s) {
        Err(e) => Err(e),
        Ok(v) => {
            if v > i32::MAX as i64 {
                Err(ParseError::TooLarge)
            } else if v < i32::MIN as i64 {
                Err(ParseError::TooSmall)
            } else {
                Ok(v as i32)
            }
        },
    }
}

/// The seed's 64-bit pattern for a signed input, without truncation: the
/// negative half is shifted up by two to the sixty-fourth.
pub fn seed_from(v: i64) -> (s: u64)
    ensures
        s == seed_bits(v),
{
    if v >= 0 {
        v as u64
    } else {
        u64::MAX - ((-(v + 1)) as u64)
    }
}

/// What validating the positional arguments yields, in order: the seed,
/// then the x coordinate, then the z coordinate. The first missing or
/// unparsable argument is the error.
pub open spec fn parse_args_spec(args: Seq<Seq<u8>>) -> Result<ParsedArgs, ArgError> {
    if args.len() < 1 {
        Err(ArgError::Missing(SearchArg::Seed))
    } else {
        match parse_i64_spec(args[0]) {
            Err(e) => Err(ArgError::Parse(SearchArg::Seed, e)),
            Ok(sv) => if args.len() < 2 {
                Err(ArgError::Missing(SearchArg::CoordX))
            } else {
                match parse_i32_spec(args[1]) {
                    Err(e) => Err(ArgError::Parse(SearchArg::CoordX, e)),
                    Ok(x) => if args.len() < 3 {
                        Err(ArgError::Missing(SearchArg::CoordZ))
                    } else {
                        match parse_i32_spec(args[2]) {
                            Err(e) => Err(ArgError::Parse(SearchArg::CoordZ, e)),
                            Ok(z) => Ok(ParsedArgs { seed: seed_bits(sv), x, z }),
                        }
                    },
                }
            },
        }
    }
}

/// Validates the positional arguments (everything after the program name).
pub fn parse_args(args: &Vec<Vec<u8>>) -> (r: Result<ParsedArgs, ArgError>)
    ensures
        r == parse_args_spec(args.deep_view()),
{
    let ghost dv = args.deep_view();
    proof {
        assert(forall|k: int| 0 <= k < args@.len() ==> dv[k] == #[trigger] args@[k]@);
    }
    if args.len() < 1 {
        return Err(ArgError::Missing(SearchArg::Seed));
    }
    let sv: i64 = match parse_i64(args[0].as_slice()) {
        Err(e) => {
            return Err(ArgError::Parse(SearchArg::Seed, e));
        },
        Ok(sv) => sv,
    };
    if args.len() < 2 {
        return Err(ArgError::Missing(SearchArg::CoordX));
    }
    let x: i32 = match parse_i32(args[1].as_slice()) {
        Err(e) => {
            return Err(ArgError::Parse(SearchArg::CoordX, e));
        },
        Ok(x) => x,
    };
    if args.len() < 3 {
        return Err(ArgError::Missing(SearchArg::CoordZ));
    }
    let z: i32 = match parse_i32(args[2].as_slice()) {
        Err(e) => {
            return Err(ArgError::Parse(SearchArg::CoordZ, e));
        },
        Ok(z) => z,
    };
    Ok(ParsedArgs { seed: seed_from(sv), x, z })
}

} // verus!
