//! The interpreter's front: runs one source text through the scanner.

use vstd::prelude::*;
use crate::error::Reporter;
use crate::error::ReporterView;
use crate::lexical::faults_of;
use crate::lexical::tokens_of;
use crate::scanner::Scanner;
use crate::token::token_views;
use crate::token::Token;

verus! {

/// An interpreter session. It keeps what the latest run reported.
pub struct Rox {
    /// The reports of the latest run.
    pub reporter: Reporter,
}

impl Rox {
    /// A session in which nothing has been run.
    pub fn new() -> (rox: Rox)
        ensures
            rox.reporter@ == (ReporterView { has_error: false, diagnostics: Seq::empty() }),
    {
        Rox { reporter: Reporter::new() }
    }

    /// Scans `contents` with a scanner and a reporter of its own. The result
    /// holds the tokens of the text; the session keeps the reports of this
    /// run, in place of those of the run before, and its flag says whether
    /// there was any.
    pub fn run(&mut self, contents: &String) -> (tokens: Vec<Token>)
        ensures
            token_views(tokens@) == tokens_of(contents@),
            final(self).reporter@ == (ReporterView {
                has_error: faults_of(contents@).len() > 0,
                diagnostics: faults_of(contents@),
            }),
    {
        let mut scanner = Scanner::new(contents);
        let tokens: Vec<Token> = scanner.scan_tokens();
        self.reporter = scanner.into_reporter();
        tokens
    }
}

} // verus!
