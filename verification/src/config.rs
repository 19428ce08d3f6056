//! The configuration file: one line that names the directory of the compilation database.

use vstd::prelude::*;
use crate::error::{CianaError, Failure};

verus! {

/// Whether `c` is white space: a character with the Unicode property `White_Space`.
pub open spec fn is_whitespace(c: char) -> bool {
    let code = c as u32;
    ||| 0x09 <= code <= 0x0D
    ||| code == 0x20
    ||| code == 0x85
    ||| code == 0xA0
    ||| code == 0x1680
    ||| 0x2000 <= code <= 0x200A
    ||| code == 0x2028
    ||| code == 0x2029
    ||| code == 0x202F
    ||| code == 0x205F
    ||| code == 0x3000
}

/// `text` without the white space at its beginning.
pub open spec fn trimmed_start(text: Seq<char>) -> Seq<char>
    decreases text.len(),
{
    if text.len() > 0 && is_whitespace(text[0]) {
        trimmed_start(text.drop_first())
    } else {
        text
    }
}

/// `text` without the white space at its end.
pub open spec fn trimmed_end(text: Seq<char>) -> Seq<char>
    decreases text.len(),
{
    if text.len() > 0 && is_whitespace(text.last()) {
        trimmed_end(text.drop_last())
    } else {
        text
    }
}

/// `text` without the white space at its beginning and at its end.
pub open spec fn trimmed(text: Seq<char>) -> Seq<char> {
    trimmed_end(trimmed_start(text))
}

/// Calls `str::trim`, which its documentation describes as taking off leading and trailing
/// white space, white space being the characters with the Unicode property `White_Space`.
#[verifier::external_body]
fn trim(text: &str) -> (rest: &str)
    ensures
        rest@ == trimmed(text@),
{
    text.trim()
}

/// The directory of the compilation database that the configuration file names: its
/// contents without the white space around them. `contents` is what reading the file gave;
/// a file that is not there or cannot be read is a missing configuration.
pub fn get_compilation_database_path(contents: Result<String, std::io::Error>) -> (path: Result<
    String,
    CianaError,
>)
    ensures
        match contents {
            Ok(text) => path is Ok && path->Ok_0@ == trimmed(text@),
            Err(_) => path is Err && path->Err_0@ == Failure::ConfigMissing,
        },
{
    match contents {
        Ok(text) => Ok(trim(text.as_str()).to_owned()),
        Err(_) => Err(CianaError::ConfigMissing),
    }
}

} // verus!
