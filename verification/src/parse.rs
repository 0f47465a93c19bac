//! The line decoder: one buffer handed over by the connection handler is
//! decoded as one command line, stripped of its trailing terminators and
//! split into a verb and its arguments.

use vstd::prelude::*;
use crate::text::{strip_crlf, strip_line, tokenize, tokens_of};

verus! {

/// One decoded command line: the whitespace-delimited tokens (verb first)
/// and the terminator-stripped line itself.
pub struct ParsedInput {
    pub argv: Vec<String>,
    pub input: String,
}

/// Decodes one received line: removes the trailing CR/LF terminators and
/// splits the rest on whitespace into the verb and argument tokens.
pub fn parse_user_input(client_input: &str) -> (r: ParsedInput)
    ensures
        r.input@ == strip_crlf(client_input@),
        r.argv.deep_view() == tokens_of(strip_crlf(client_input@)),
{
    let input = strip_line(client_input);
    let argv = tokenize(input.as_str());
    ParsedInput { argv, input }
}

} // verus!
