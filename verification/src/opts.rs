//! Numbers on the command line. The USB vendor and product identifiers are
//! 16-bit numbers that may be written in decimal, or with a prefix in
//! hexadecimal (`0x`), binary (`0b`) or octal (`0o`), and with a `+` in front.

use vstd::prelude::*;
use vstd::slice::slice_subrange;
use vstd::string::StringSliceAdditionalSpecFns;

verus! {

/// Why a text is no number.
#[derive(Clone, Copy, Debug, PartialEq, Eq, Structural)]
pub enum ParseNumberError {
    /// There is nothing to read a number from.
    Empty,
    /// A character is no digit of the base, or a sign stands alone.
    InvalidDigit,
    /// The number does not fit 16 bits.
    PosOverflow,
}

/// The value of a character as a digit: `0` to `9`, then the letters of
/// either case from ten on. A character whose value does not lie below the
/// base is no digit.
pub open spec fn digit_of(byte: u8, radix: u32) -> Option<u32> {
    let value: int = if 0x30 <= byte <= 0x39 {
        byte - 0x30
    } else if 0x61 <= byte <= 0x7a {
        byte - 0x61 + 10
    } else if 0x41 <= byte <= 0x5a {
        byte - 0x41 + 10
    } else {
        36
    };
    if value < radix {
        Some(value as u32)
    } else {
        None
    }
}

/// The number that the digits spell in the base, read from the left. The
/// first character that is no digit, or the first digit with which the
/// number outgrows 16 bits, decides the error.
pub open spec fn digits_value(digits: Seq<u8>, radix: u32) -> Result<u16, ParseNumberError>
    decreases digits.len(),
{
    if digits.len() == 0 {
        Ok(0)
    } else {
        match digits_value(digits.drop_last(), radix) {
            Err(error) => Err(error),
            Ok(value) => match digit_of(digits.last(), radix) {
                None => Err(ParseNumberError::InvalidDigit),
                Some(digit) => if value * radix + digit > u16::MAX {
                    Err(ParseNumberError::PosOverflow)
                } else {
                    Ok((value * radix + digit) as u16)
                },
            },
        }
    }
}

/// The number that a text spells in the base: digits, with at most one `+`
/// in front of them. A text with no digits is no number.
pub open spec fn radix_value(text: Seq<u8>, radix: u32) -> Result<u16, ParseNumberError> {
    if text.len() == 0 {
        Err(ParseNumberError::Empty)
    } else if text.len() == 1 && (text[0] == 0x2b || text[0] == 0x2d) {
        Err(ParseNumberError::InvalidDigit)
    } else if text[0] == 0x2b {
        digits_value(text.skip(1), radix)
    } else {
        digits_value(text, radix)
    }
}

/// The text begins with the two characters.
pub open spec fn has_prefix(text: Seq<u8>, first: u8, second: u8) -> bool {
    text.len() >= 2 && text[0] == first && text[1] == second
}

/// The number that a text of the command line spells: after a `+`, if
/// there is one, the prefix tells the base.
pub open spec fn number_with_base(text: Seq<u8>) -> Result<u16, ParseNumberError> {
    let rest = if text.len() >= 1 && text[0] == 0x2b {
        text.skip(1)
    } else {
        text
    };
    if has_prefix(rest, 0x30, 0x78) {
        radix_value(rest.skip(2), 16)
    } else if has_prefix(rest, 0x30, 0x62) {
        radix_value(rest.skip(2), 2)
    } else if has_prefix(rest, 0x30, 0x6f) {
        radix_value(rest.skip(2), 8)
    } else {
        radix_value(rest, 10)
    }
}

fn digit_value(byte: u8, radix: u32) -> (digit: Option<u32>)
    ensures
        digit == digit_of(byte, radix),
{
    let value: u32 = if 0x30 <= byte && byte <= 0x39 {
        (byte - 0x30) as u32
    } else if 0x61 <= byte && byte <= 0x7a {
        (byte - 0x61) as u32 + 10
    } else if 0x41 <= byte && byte <= 0x5a {
        (byte - 0x41) as u32 + 10
    } else {
        36
    };
    if value < radix {
        Some(value)
    } else {
        None
    }
}

/// Reads a number in the given base from a text of digits with at most one
/// `+` in front.
fn parse_radix(text: &[u8], radix: u32) -> (number: Result<u16, ParseNumberError>)
    requires
        2 <= radix <= 36,
    ensures
        number == radix_value(text@, radix),
{
    if text.len() == 0 {
        return Err(ParseNumberError::Empty);
    }
    if text.len() == 1 && (text[0] == 0x2b || text[0] == 0x2d) {
        return Err(ParseNumberError::InvalidDigit);
    }
    let digits = if text[0] == 0x2b {
        slice_subrange(text, 1, text.len())
    } else {
        text
    };
    proof {
        if text@[0] == 0x2b {
            assert(digits@ =~= text@.skip(1));
        }
    }
    let mut value: u16 = 0;
    let mut i: usize = 0;
    while i < digits.len()
        invariant
            0 <= i <= digits.len(),
            2 <= radix <= 36,
            radix_value(text@, radix) == digits_value(digits@, radix),
            digits_value(digits@.take(i as int), radix) == Ok::<u16, ParseNumberError>(value),
        decreases digits.len() - i,
    {
        proof {
            assert(digits@.take(i + 1).drop_last() =~= digits@.take(i as int));
            assert(digits@.take(i + 1).last() == digits@[i as int]);
            assert(value * radix <= 65535 * 36) by (nonlinear_arith)
                requires
                    value <= 65535,
                    radix <= 36,
            ;
        }
        let next = match digit_value(digits[i], radix) {
            None => {
                proof {
                    lemma_digits_error_stays(digits@, radix, i + 1);
                }
                return Err(ParseNumberError::InvalidDigit);
            },
            Some(digit) => value as u32 * radix + digit,
        };
        if next > u16::MAX as u32 {
            proof {
                lemma_digits_error_stays(digits@, radix, i + 1);
            }
            return Err(ParseNumberError::PosOverflow);
        }
        value = next as u16;
        i += 1;
    }
    proof {
        assert(digits@.take(i as int) =~= digits@);
    }
    Ok(value)
}

/// Once a prefix of the digits has failed, the whole fails in the same way.
proof fn lemma_digits_error_stays(digits: Seq<u8>, radix: u32, upto: int)
    requires
        0 <= upto <= digits.len(),
        digits_value(digits.take(upto), radix) is Err,
    ensures
        digits_value(digits, radix) == digits_value(digits.take(upto), radix),
    decreases digits.len() - upto,
{
    if upto == digits.len() {
        assert(digits.take(upto) =~= digits);
    } else {
        assert(digits.take(upto + 1).drop_last() =~= digits.take(upto));
        lemma_digits_error_stays(digits, radix, upto + 1);
    }
}

/// Reads a 16-bit number from a text of the command line: decimal digits,
/// or hexadecimal ones behind `0x`, binary ones behind `0b`, octal ones
/// behind `0o`; a `+` may stand in front.
pub fn try_parse_with_base(num_str: &str) -> (number: Result<u16, ParseNumberError>)
    ensures
        number == number_with_base(num_str.spec_bytes()),
{
    let bytes = num_str.as_bytes();
    let rest = if bytes.len() >= 1 && bytes[0] == 0x2b {
        slice_subrange(bytes, 1, bytes.len())
    } else {
        bytes
    };
    proof {
        if bytes@.len() >= 1 && bytes@[0] == 0x2b {
            assert(rest@ =~= bytes@.skip(1));
        }
    }
    if rest.len() >= 2 && rest[0] == 0x30 {
        let digits = slice_subrange(rest, 2, rest.len());
        proof {
            assert(digits@ =~= rest@.skip(2));
        }
        if rest[1] == 0x78 {
            return parse_radix(digits, 16);
        } else if rest[1] == 0x62 {
            return parse_radix(digits, 2);
        } else if rest[1] == 0x6f {
            // who even uses octal anymore?
            return parse_radix(digits, 8);
        }
    }
    parse_radix(rest, 10)
}

} // verus!
