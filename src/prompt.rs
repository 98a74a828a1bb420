use vstd::prelude::*;

use crate::common::{CommandResult, ErrorView, SetupError};
use crate::text::{parse_u32, same_text, trim, trim_text, u32_of_text};

verus! {

/// What `str::to_lowercase` makes of a text.
pub uninterp spec fn lower_of(s: Seq<char>) -> Seq<char>;

/// Relies on str::to_lowercase: the lowercase form of a text, which depends on
/// its characters alone; an empty text stays empty.
#[verifier::external_body]
fn lowercase(s: &str) -> (r: String)
    ensures
        r@ == lower_of(s@),
        s@.len() == 0 ==> r@.len() == 0,
{
    s.to_lowercase()
}

/// An answer as mathematical values.
pub open spec fn answer_view<T>(r: CommandResult<T>) -> Result<T, ErrorView> {
    match r {
        Ok(v) => Ok(v),
        Err(e) => Err(e@),
    }
}

/// Message for a required answer left blank.
pub open spec fn blank_answer_message() -> Seq<char> {
    "Input cannot be empty"@
}

/// Message for an answer that is not a number.
pub open spec fn bad_number_message() -> Seq<char> {
    "Invalid number"@
}

/// Message for an answer that is neither yes nor no.
pub open spec fn bad_yes_no_message() -> Seq<char> {
    "Please enter y/n"@
}

/// A required answer: the line trimmed, which must not be blank.
pub fn input_answer(line: &str) -> (r: CommandResult<String>)
    ensures
        trim_text(line@).len() == 0 ==> (r matches Err(e) && e@ == ErrorView::InvalidInput(
            blank_answer_message(),
        )),
        trim_text(line@).len() > 0 ==> (r matches Ok(s) && s@ == trim_text(line@)),
{
    let t = trim(line);
    if t.unicode_len() == 0 {
        return Err(SetupError::InvalidInput(String::from_str("Input cannot be empty")));
    }
    Ok(String::from_str(t))
}

/// An answer with a default: the line trimmed, or `default` when it is blank.
pub fn input_answer_or_default(line: &str, default: &str) -> (r: String)
    ensures
        r@ == (if trim_text(line@).len() == 0 {
            default@
        } else {
            trim_text(line@)
        }),
{
    let t = trim(line);
    if t.unicode_len() == 0 {
        String::from_str(default)
    } else {
        String::from_str(t)
    }
}

/// What a number answer means: `default` when blank, else the number written.
pub open spec fn number_of(t: Seq<char>, default: u32) -> Result<u32, ErrorView> {
    if t.len() == 0 {
        Ok(default)
    } else {
        match u32_of_text(t) {
            Some(n) => Ok(n),
            None => Err(ErrorView::InvalidInput(bad_number_message())),
        }
    }
}

/// Reads a number answer; a blank line gives `default`.
pub fn number_answer(line: &str, default: u32) -> (r: CommandResult<u32>)
    ensures
        answer_view(r) == number_of(trim_text(line@), default),
{
    let t = trim(line);
    if t.unicode_len() == 0 {
        return Ok(default);
    }
    match parse_u32(t) {
        Some(n) => Ok(n),
        None => Err(SetupError::InvalidInput(String::from_str("Invalid number"))),
    }
}

/// The texts read as yes.
pub open spec fn is_yes(t: Seq<char>) -> bool {
    t == "y"@ || t == "yes"@ || t == "true"@ || t == "1"@
}

/// The texts read as no.
pub open spec fn is_no(t: Seq<char>) -> bool {
    t == "n"@ || t == "no"@ || t == "false"@ || t == "0"@
}

/// What a lowercased yes/no answer means: `default` when blank.
pub open spec fn yes_no_of(t: Seq<char>, default: bool) -> Result<bool, ErrorView> {
    if t.len() == 0 {
        Ok(default)
    } else if is_yes(t) {
        Ok(true)
    } else if is_no(t) {
        Ok(false)
    } else {
        Err(ErrorView::InvalidInput(bad_yes_no_message()))
    }
}

/// Reads a yes/no answer that is already trimmed and lowercased.
pub fn yes_no_answer(lowered: &str, default: bool) -> (r: CommandResult<bool>)
    ensures
        answer_view(r) == yes_no_of(lowered@, default),
{
    if lowered.unicode_len() == 0 {
        Ok(default)
    } else if same_text(lowered, "y") || same_text(lowered, "yes") || same_text(lowered, "true")
        || same_text(lowered, "1") {
        Ok(true)
    } else if same_text(lowered, "n") || same_text(lowered, "no") || same_text(lowered, "false")
        || same_text(lowered, "0") {
        Ok(false)
    } else {
        Err(SetupError::InvalidInput(String::from_str("Please enter y/n")))
    }
}

/// Reads a yes/no answer as typed: trimmed, then lowercased; a blank line
/// gives `default`.
pub fn bool_answer(line: &str, default: bool) -> (r: CommandResult<bool>)
    ensures
        answer_view(r) == yes_no_of(lower_of(trim_text(line@)), default),
{
    let lowered = lowercase(trim(line));
    yes_no_answer(lowered.as_str(), default)
}

} // verus!
