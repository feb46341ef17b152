use vstd::prelude::*;
use crate::lexical::{ends_with_single_eof, scan};
use crate::scanner::{ScanError, Scanner};
use crate::token::{Token, token_views};

verus! {

/// The interpreter front end. It keeps no state between runs: each run scans
/// its source afresh.
pub struct TreeWalk {}

impl TreeWalk {
    pub fn new() -> TreeWalk {
        TreeWalk {}
    }

    /// Runs one source text through the front end: scans it, appending
    /// every unexpected character to `unexpected`, and hands back its tokens.
    pub fn run(&mut self, source: &str, unexpected: &mut Vec<char>) -> (r: Result<Vec<Token>, ScanError>)
        ensures
            final(unexpected)@ == old(unexpected)@ + scan(source@).unexpected,
            r is Ok <==> scan(source@).complete,
            r matches Ok(v) ==> token_views(v@) == scan(source@).tokens,
            r matches Ok(v) ==> ends_with_single_eof(token_views(v@)),
            r matches Err(e) ==> e == ScanError::UnterminatedString,
    {
        Scanner::tokenize(source, unexpected)
    }
}

} // verus!
