//! Reading and validating a requested capacity.

use vstd::prelude::*;

verus! {

/// Why a requested capacity was refused.
#[derive(Debug, Clone, Copy, PartialEq, Eq, Structural)]
pub enum SizeError {
    /// The text is not a number.
    NotANumber,
    /// The number is zero or negative.
    NotPositive,
}

impl SizeError {
    /// The message that tells the caller what to correct.
    pub fn message(&self) -> (text: &'static str)
        ensures
            text@ == match *self {
                SizeError::NotANumber => "Error: Cache size must be a number."@,
                SizeError::NotPositive => "Error: Cache size must be greater than 0."@,
            },
    {
        match self {
            SizeError::NotANumber => "Error: Cache size must be a number.",
            SizeError::NotPositive => "Error: Cache size must be greater than 0.",
        }
    }
}

/// The number that a row of decimal digits stands for.
pub open spec fn decimal_value(digits: Seq<char>) -> int
    decreases digits.len(),
{
    if digits.len() == 0 {
        0
    } else {
        10 * decimal_value(digits.drop_last()) + (digits.last() as int - '0' as int)
    }
}

/// At least one character, and each of them one of `0` to `9`.
pub open spec fn all_digits(digits: Seq<char>) -> bool {
    digits.len() > 0 && forall|i: int|
        0 <= i < digits.len() ==> '0' <= #[trigger] digits[i] && digits[i] <= '9'
}

/// The number that a text stands for as a 32-bit signed integer: an
/// optional `+` or `-`, then decimal digits and nothing else, with a value
/// that fits. Any other text stands for none.
pub open spec fn parsed_size(text: Seq<char>) -> Option<i32> {
    let signed = text.len() > 0 && (text[0] == '+' || text[0] == '-');
    let digits = if signed {
        text.skip(1)
    } else {
        text
    };
    let value = if text.len() > 0 && text[0] == '-' {
        -decimal_value(digits)
    } else {
        decimal_value(digits)
    };
    if all_digits(digits) && i32::MIN <= value <= i32::MAX {
        Some(value as i32)
    } else {
        None
    }
}

/// `str::parse::<i32>`: the number that the text stands for, in the
/// notation that `parsed_size` describes, or nothing where the text is
/// empty, holds anything but a sign in front and digits, or names a number
/// out of range.
#[verifier::external_body]
pub(crate) fn parse_size(text: &str) -> (parsed: Option<i32>)
    ensures
        parsed == parsed_size(text@),
{
    text.parse::<i32>().ok()
}

/// The capacity that a parsed request asks for, or the reason why it is
/// refused: only a positive number is a capacity.
pub open spec fn validated(parsed: Option<i32>) -> Result<usize, SizeError> {
    match parsed {
        None => Err(SizeError::NotANumber),
        Some(size) => if size <= 0 {
            Err(SizeError::NotPositive)
        } else {
            Ok(size as usize)
        },
    }
}

} // verus!
