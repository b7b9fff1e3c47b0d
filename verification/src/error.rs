//! Diagnostics: what went wrong while scanning, and on which line.

use vstd::prelude::*;
use vstd::string::*;

verus! {

/// The faults that a source text can hold. Neither stops the scan.
#[derive(Clone, Copy, Debug, PartialEq, Eq, Structural)]
pub enum ScanError {
    /// A character that starts no lexeme.
    UnexpectedCharacter,
    /// A string literal that is still open at the end of the text.
    UnterminatedString,
}

impl ScanError {
    /// The words that describe the fault.
    pub open spec fn message_spec(self) -> Seq<char> {
        match self {
            ScanError::UnexpectedCharacter => "Unexpected character"@,
            ScanError::UnterminatedString => "Unterminated string"@,
        }
    }

    /// The words that describe the fault.
    pub fn message(self) -> (message: &'static str)
        ensures
            message@ == self.message_spec(),
    {
        match self {
            ScanError::UnexpectedCharacter => "Unexpected character",
            ScanError::UnterminatedString => "Unterminated string",
        }
    }
}

/// The decimal spelling of `n`, without leading zeros.
pub open spec fn decimal_spelling(n: nat) -> Seq<char>
    decreases n,
{
    if n < 10 {
        seq![(n + 48) as char]
    } else {
        decimal_spelling(n / 10).push((n % 10 + 48) as char)
    }
}

/// Appends the decimal spelling of `n` to `text`.
fn push_decimal(text: &mut String, n: usize)
    ensures
        final(text)@ == old(text)@ + decimal_spelling(n as nat),
    decreases n,
{
    if n >= 10 {
        push_decimal(text, n / 10);
    }
    let digit: u8 = (n % 10) as u8;
    text.push((digit + 48) as char);
}

/// One reported fault.
#[derive(Clone, Debug, PartialEq, Eq)]
pub struct Diagnostic {
    /// The line of the source, counted from one, that the report names.
    pub line: usize,
    /// Where on the line the fault lies; empty where only the line is known.
    pub location: String,
    /// What went wrong.
    pub message: String,
}

/// The mathematical content of a [`Diagnostic`].
pub struct DiagnosticView {
    pub line: nat,
    pub location: Seq<char>,
    pub message: Seq<char>,
}

impl DiagnosticView {
    /// The diagnostic as one line of text: `[line N] Error WHERE: MESSAGE`.
    pub open spec fn rendering(self) -> Seq<char> {
        seq!['[', 'l', 'i', 'n', 'e', ' '] + decimal_spelling(self.line) + seq![
            ']',
            ' ',
            'E',
            'r',
            'r',
            'o',
            'r',
            ' ',
        ] + self.location + seq![':', ' '] + self.message
    }
}

impl View for Diagnostic {
    type V = DiagnosticView;

    open spec fn view(&self) -> DiagnosticView {
        DiagnosticView {
            line: self.line as nat,
            location: self.location@,
            message: self.message@,
        }
    }
}

/// The contents of a sequence of diagnostics.
pub open spec fn diagnostic_views(diagnostics: Seq<Diagnostic>) -> Seq<DiagnosticView> {
    diagnostics.map_values(|diagnostic: Diagnostic| diagnostic@)
}

impl Diagnostic {
    /// The diagnostic as one line of text, without a line end:
    /// `[line N] Error WHERE: MESSAGE`.
    pub fn to_string(&self) -> (text: String)
        ensures
            text@ == self@.rendering(),
    {
        proof {
            reveal_strlit("[line ");
            reveal_strlit("] Error ");
            reveal_strlit(": ");
        }
        let mut text: String = "[line ".to_owned();
        push_decimal(&mut text, self.line);
        text.append("] Error ");
        text.append(self.location.as_str());
        text.append(": ");
        text.append(self.message.as_str());
        text
    }
}

/// Collects the diagnostics of one scan and remembers whether there was any.
#[derive(Clone, Debug, PartialEq, Eq)]
pub struct Reporter {
    /// Whether a fault has been reported. Reports only ever set it.
    pub has_error: bool,
    /// The reported faults, in the order in which they were found.
    pub diagnostics: Vec<Diagnostic>,
}

/// The mathematical content of a [`Reporter`].
pub struct ReporterView {
    pub has_error: bool,
    pub diagnostics: Seq<DiagnosticView>,
}

impl ReporterView {
    /// The reporter after one more report.
    pub open spec fn report(self, line: nat, location: Seq<char>, message: Seq<char>)
        -> ReporterView {
        ReporterView {
            has_error: true,
            diagnostics: self.diagnostics.push(DiagnosticView { line, location, message }),
        }
    }
}

impl View for Reporter {
    type V = ReporterView;

    open spec fn view(&self) -> ReporterView {
        ReporterView {
            has_error: self.has_error,
            diagnostics: diagnostic_views(self.diagnostics@),
        }
    }
}

impl Reporter {
    /// A reporter to which nothing has been reported.
    pub fn new() -> (reporter: Reporter)
        ensures
            reporter@ == (ReporterView { has_error: false, diagnostics: Seq::empty() }),
    {
        let reporter = Reporter { has_error: false, diagnostics: Vec::new() };
        assert(reporter@.diagnostics =~= Seq::empty());
        reporter
    }

    /// Reports a fault of which only the line is known.
    pub fn error(&mut self, line: usize, message: &str)
        ensures
            final(self)@ == old(self)@.report(line as nat, Seq::empty(), message@),
    {
        proof {
            reveal_strlit("");
            assert(""@ =~= Seq::<char>::empty());
        }
        self.report(line, "", message);
    }

    /// Reports a fault: records it behind the earlier ones and raises the
    /// flag.
    pub fn report(&mut self, line: usize, whr: &str, message: &str)
        ensures
            final(self)@ == old(self)@.report(line as nat, whr@, message@),
    {
        let diagnostic = Diagnostic { line, location: whr.to_owned(), message: message.to_owned() };
        self.diagnostics.push(diagnostic);
        self.has_error = true;
        assert(self@.diagnostics =~= old(self)@.report(line as nat, whr@, message@).diagnostics);
    }
}

} // verus!
