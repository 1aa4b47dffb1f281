//! Splitting a typed line into words.

use vstd::prelude::*;
use crate::text::views;

verus! {

#[verifier::external_type_specification]
#[verifier::external_body]
pub struct ExParseError(shell_words::ParseError);

/// The words that `shell_words::split` makes of a line, or `None` where it
/// rejects the line.
pub uninterp spec fn shell_split(line: Seq<char>) -> Option<Seq<Seq<char>>>;

/// What a call of the splitter gave, as plain values.
pub open spec fn split_outcome(result: Result<Vec<String>, shell_words::ParseError>) -> Option<
    Seq<Seq<char>>,
> {
    match result {
        Ok(words) => Some(views(words@)),
        Err(_) => None,
    }
}

/// Calls `shell_words::split`, which cuts a line at unquoted blanks as a Unix
/// shell does, removes the quotes, and fails where a quote is left open. The
/// result depends on the line alone and is named, not described.
#[verifier::external_body]
fn split_words(line: &str) -> (result: Result<Vec<String>, shell_words::ParseError>)
    ensures
        split_outcome(result) == shell_split(line@),
{
    shell_words::split(line)
}

/// A line that cannot be split into words.
#[derive(Debug, Clone, Copy, PartialEq, Eq, Structural)]
pub enum TokenizeError {
    /// A quote was opened and never closed.
    MissingClosingQuote,
}

/// What `tokenize` gave, as plain values.
pub open spec fn tokens_of(result: Result<Vec<String>, TokenizeError>) -> Option<Seq<Seq<char>>> {
    match result {
        Ok(words) => Some(views(words@)),
        Err(_) => None,
    }
}

/// Splits a line into words: at blanks outside quotes, honouring single
/// quotes, double quotes and backslashes. A line that leaves a quote open is
/// an error.
pub fn tokenize(line: &str) -> (result: Result<Vec<String>, TokenizeError>)
    ensures
        tokens_of(result) == shell_split(line@),
        result is Err ==> result == Err::<Vec<String>, TokenizeError>(
            TokenizeError::MissingClosingQuote,
        ),
{
    match split_words(line) {
        Ok(words) => Ok(words),
        Err(_) => Err(TokenizeError::MissingClosingQuote),
    }
}

} // verus!
