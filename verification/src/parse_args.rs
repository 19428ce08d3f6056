//! Reading the target of an analysis from the command line.

use vstd::prelude::*;
use vstd::string::StringExecFns;
use crate::location::SourceLocation;

verus! {

/// Why `str::parse` gave no integer.
#[verifier::external_type_specification]
#[verifier::external_body]
pub struct ExParseIntError(std::num::ParseIntError);

/// Why the command line gave no target.
#[derive(Debug, PartialEq)]
pub enum ParseError {
    /// Fewer arguments than a file name, a line and a column.
    Lengths,
    /// The line or the column is no number.
    Parse(std::num::ParseIntError),
}

impl From<std::num::ParseIntError> for ParseError {
    fn from(err: std::num::ParseIntError) -> (error: ParseError) {
        ParseError::Parse(err)
    }
}

impl vstd::std_specs::convert::FromSpecImpl<std::num::ParseIntError> for ParseError {
    open spec fn obeys_from_spec() -> bool {
        true
    }

    open spec fn from_spec(err: std::num::ParseIntError) -> ParseError {
        ParseError::Parse(err)
    }
}

/// Whether `c` is one of the digits `0` to `9`.
pub open spec fn is_digit(c: char) -> bool {
    '0' <= c && c <= '9'
}

/// The number that a row of digits stands for in base ten.
pub open spec fn digits_value(digits: Seq<char>) -> nat
    decreases digits.len(),
{
    if digits.len() == 0 {
        0
    } else {
        digits_value(digits.drop_last()) * 10 + (digits.last() as u32 - '0' as u32) as nat
    }
}

/// Whether a row of characters holds digits only.
pub open spec fn all_digits(digits: Seq<char>) -> bool {
    forall|i: int| 0 <= i < digits.len() ==> is_digit(#[trigger] digits[i])
}

/// `text` without the `+` that may stand at its beginning.
pub open spec fn unsigned_part(text: Seq<char>) -> Seq<char> {
    if text.len() > 0 && text[0] == '+' {
        text.drop_first()
    } else {
        text
    }
}

/// The number that `text` stands for: an optional `+`, then one digit or more and nothing
/// else, for a number that fits in 32 bits.
pub open spec fn decimal_value(text: Seq<char>) -> Option<u32> {
    let digits = unsigned_part(text);
    if digits.len() > 0 && all_digits(digits) && digits_value(digits) <= u32::MAX {
        Some(digits_value(digits) as u32)
    } else {
        None
    }
}

/// A text with a character that is no digit stands for no number, unless that character is
/// a `+` at the very beginning.
pub proof fn lemma_no_digit_no_value(text: Seq<char>, index: int)
    requires
        0 <= index < text.len(),
        !is_digit(text[index]),
        index > 0 || text[0] != '+',
    ensures
        decimal_value(text) is None,
{
    let digits = unsigned_part(text);
    if text[0] == '+' {
        assert(digits[index - 1] == text[index]);
    } else {
        assert(digits[index] == text[index]);
    }
}

/// A text of one digit stands for that digit.
pub proof fn lemma_one_digit_value(text: Seq<char>)
    requires
        text.len() == 1,
        is_digit(text[0]),
    ensures
        decimal_value(text) == Some((text[0] as u32 - '0' as u32) as u32),
{
    assert(text.drop_last() =~= Seq::<char>::empty());
    assert(digits_value(text.drop_last()) == 0);
    assert(unsigned_part(text) == text);
}

/// Calls `str::parse::<u32>`. Its documentation gives the strings that it takes: an optional
/// `+` sign followed by decimal digits only, with a value that the type can hold.
#[verifier::external_body]
fn parse_number(text: &str) -> (number: Result<u32, std::num::ParseIntError>)
    ensures
        match number {
            Ok(n) => decimal_value(text@) == Some(n),
            Err(_) => decimal_value(text@) is None,
        },
{
    text.parse::<u32>()
}

/// The target that the arguments `args` of the program name: `args[1]` is the file,
/// `args[2]` the line and `args[3]` the column; `args[0]` is the program's own name, and what
/// follows the column is not read.
pub fn run(args: &[String]) -> (target: Result<SourceLocation, ParseError>)
    ensures
        match target {
            Ok(location) => {
                &&& args@.len() >= 4
                &&& location@.filename == args@[1]@
                &&& decimal_value(args@[2]@) == Some(location@.line)
                &&& decimal_value(args@[3]@) == Some(location@.column)
            },
            Err(ParseError::Lengths) => args@.len() < 4,
            Err(ParseError::Parse(_)) => {
                &&& args@.len() >= 4
                &&& (decimal_value(args@[2]@) is None || decimal_value(args@[3]@) is None)
            },
        },
{
    if args.len() < 4 {
        return Err(ParseError::Lengths);
    }
    let filename = args[1].clone();
    let line = match parse_number(args[2].as_str()) {
        Ok(line) => line,
        Err(error) => {
            return Err(ParseError::from(error));
        },
    };
    let column = match parse_number(args[3].as_str()) {
        Ok(column) => column,
        Err(error) => {
            return Err(ParseError::from(error));
        },
    };
    Ok(SourceLocation::new(filename, line, column))
}

impl ParseError {
    /// The text that tells the user what was wrong with the arguments. For a number that did
    /// not parse it ends with what the error of `str::parse` displays.
    pub fn message(&self) -> (text: String)
        ensures
            match self {
                ParseError::Lengths => text@ == "not enoght argmuments"@,
                ParseError::Parse(error) => exists|detail: String|
                    vstd::string::to_string_from_display_ensures::<std::num::ParseIntError>(
                        error,
                        detail,
                    ) && text@ == "Parse error: "@ + detail@,
            },
    {
        match self {
            ParseError::Lengths => "not enoght argmuments".to_owned(),
            ParseError::Parse(error) => {
                let detail = error.to_string();
                "Parse error: ".to_owned().concat(detail.as_str())
            },
        }
    }
}

} // verus!
