//! The scanner: reads a source text and hands out its tokens.

use vstd::prelude::*;
use vstd::string::*;
use crate::decimal::Decimal;
use crate::error::Reporter;
use crate::error::ReporterView;
use crate::error::ScanError;
use crate::lexical::digit;
use crate::lexical::digit_values;
use crate::lexical::faults_from;
use crate::lexical::keywords;
use crate::lexical::lemma_lexeme_end_bounds;
use crate::lexical::lemma_newlines_bounded;
use crate::lexical::lemma_run_end_bounds;
use crate::lexical::lemma_run_end_maximal;
use crate::lexical::letter;
use crate::lexical::lexeme_end;
use crate::lexical::lexeme_faults;
use crate::lexical::lexeme_tokens;
use crate::lexical::line_at;
use crate::lexical::lookup;
use crate::lexical::newlines_before;
use crate::lexical::run_end;
use crate::lexical::tokens_from;
use crate::lexical::word_type;
use crate::lexical::Run;
use crate::substring::decode;
use crate::substring::Substring;
use crate::token::token_views;
use crate::token::Literal;
use crate::token::LiteralView;
use crate::token::Token;
use crate::token::TokenView;
use crate::token_type::TokenType;

verus! {

/// Whether `c` is a letter of the basic Latin alphabet or an underscore.
pub fn is_alpha(c: char) -> (yes: bool)
    ensures
        yes == letter(c),
{
    (c >= 'a' && c <= 'z') || (c >= 'A' && c <= 'Z') || c == '_'
}

/// Whether `c` is a decimal digit.
pub fn is_digit(c: char) -> (yes: bool)
    ensures
        yes == digit(c),
{
    c >= '0' && c <= '9'
}

/// Whether `c` belongs to the run.
fn in_run(run: Run, c: char) -> (yes: bool)
    ensures
        yes == run.holds(c),
{
    match run {
        Run::Digits => is_digit(c),
        Run::Word => is_alpha(c) || is_digit(c),
        Run::StringBody => c != '"',
        Run::CommentBody => c != '\n',
    }
}

/// An entry that spells the word stays found when more of the table is
/// searched.
proof fn lemma_lookup_stays(
    table: Seq<(Seq<char>, TokenType)>,
    word: Seq<char>,
    upto: int,
    more: int,
)
    requires
        0 <= upto <= more <= table.len(),
        lookup(table, word, upto) is Some,
    ensures
        lookup(table, word, more) == lookup(table, word, upto),
    decreases more - upto,
{
    if upto < more {
        lemma_lookup_stays(table, word, upto, more - 1);
    }
}

/// The spellings and categories that a table of reserved words holds.
pub open spec fn table_view(table: Seq<(String, TokenType)>) -> Seq<(Seq<char>, TokenType)> {
    table.map_values(|entry: (String, TokenType)| (entry.0@, entry.1))
}

/// The table of reserved words.
fn keyword_table() -> (table: Vec<(String, TokenType)>)
    ensures
        table_view(table@) == keywords(),
{
    let mut table: Vec<(String, TokenType)> = Vec::new();
    table.push(("and".to_owned(), TokenType::AND));
    table.push(("class".to_owned(), TokenType::CLASS));
    table.push(("else".to_owned(), TokenType::ELSE));
    table.push(("false".to_owned(), TokenType::FALSE));
    table.push(("for".to_owned(), TokenType::FOR));
    table.push(("fun".to_owned(), TokenType::FUN));
    table.push(("if".to_owned(), TokenType::IF));
    table.push(("nil".to_owned(), TokenType::NIL));
    table.push(("or".to_owned(), TokenType::OR));
    table.push(("print".to_owned(), TokenType::PRINT));
    table.push(("return".to_owned(), TokenType::RETURN));
    table.push(("super".to_owned(), TokenType::SUPER));
    table.push(("this".to_owned(), TokenType::THIS));
    table.push(("true".to_owned(), TokenType::TRUE));
    table.push(("var".to_owned(), TokenType::VAR));
    table.push(("while".to_owned(), TokenType::WHILE));
    table
}

/// A cursor over a source text, with the tokens and diagnostics found so
/// far.
pub struct Scanner {
    source: Vec<char>,
    tokens: Vec<Token>,
    start: usize,
    current: usize,
    cur_line: usize,
    start_line: usize,
    reporter: Reporter,
    keywords: Vec<(String, TokenType)>,
}

impl Scanner {
    /// The source text.
    pub closed spec fn source(&self) -> Seq<char> {
        self.source@
    }

    /// The position of the next character to read.
    pub closed spec fn cursor(&self) -> int {
        self.current as int
    }

    /// The tokens that were found and not yet handed out.
    pub closed spec fn pending(&self) -> Seq<TokenView> {
        token_views(self.tokens@)
    }

    /// What has been reported so far.
    pub closed spec fn reported(&self) -> ReporterView {
        self.reporter@
    }

    /// The cursor lies inside the text, behind the start of the lexeme that
    /// is being read, and the table of reserved words is whole.
    spec fn sound(&self) -> bool {
        &&& self.start <= self.current <= self.source.len() < usize::MAX
        &&& table_view(self.keywords@) == keywords()
    }

    /// The scanner is sound and its line counter is that of the cursor.
    pub closed spec fn wf(&self) -> bool {
        &&& self.sound()
        &&& self.cur_line == line_at(self.source@, self.current as int)
    }

    /// A lexeme has been begun: the cursor stands behind its first
    /// character, and both line counters are that of its start.
    spec fn begun(&self) -> bool {
        &&& self.sound()
        &&& self.current == self.start + 1
        &&& self.cur_line == line_at(self.source@, self.start as int)
        &&& self.start_line == self.cur_line
    }

    /// The scanner has read the lexeme that `before` was about to read or
    /// had begun: the cursor stands behind it, and what the lexeme gives
    /// has been added.
    spec fn stepped(&self, before: &Scanner) -> bool {
        let s = before.source@;
        let start = before.start as int;
        &&& self.wf()
        &&& self.source == before.source
        &&& self.keywords == before.keywords
        &&& self.start == before.start
        &&& self.start_line == before.start_line
        &&& self.current == lexeme_end(s, start)
        &&& token_views(self.tokens@) == token_views(before.tokens@) + lexeme_tokens(s, start)
        &&& self.reporter@.diagnostics == before.reporter@.diagnostics + lexeme_faults(s, start)
        &&& self.reporter@.has_error == (before.reporter@.has_error || lexeme_faults(
            s,
            start,
        ).len() > 0)
    }

    /// A scanner at the start of `contents`, with nothing found yet.
    pub fn new(contents: &String) -> (scanner: Scanner)
        ensures
            scanner.wf(),
            scanner.source() == contents@,
            scanner.cursor() == 0,
            scanner.pending() == Seq::<TokenView>::empty(),
            scanner.reported() == (ReporterView { has_error: false, diagnostics: Seq::empty() }),
    {
        let mut source: Vec<char> = decode(contents.as_str());
        // The line counter can reach one more than the number of
        // characters. A buffer that takes one more character is shorter
        // than the largest count, so the counter always fits.
        source.push('\n');
        assert(source.len() == contents@.len() + 1);
        source.pop();
        let scanner = Scanner {
            source,
            tokens: Vec::new(),
            cur_line: 1,
            start_line: 1,
            start: 0,
            current: 0,
            reporter: Reporter::new(),
            keywords: keyword_table(),
        };
        scanner
    }

    /// Reads the text from the cursor to its end and hands out the tokens:
    /// those that were pending, those of the rest of the text, and the
    /// closing token. The faults of the rest of the text are reported.
    pub fn scan_tokens(&mut self) -> (tokens: Vec<Token>)
        requires
            old(self).wf(),
        ensures
            final(self).wf(),
            final(self).source() == old(self).source(),
            final(self).cursor() == old(self).source().len(),
            final(self).pending() == Seq::<TokenView>::empty(),
            token_views(tokens@) == old(self).pending() + tokens_from(
                old(self).source(),
                old(self).cursor(),
            ),
            final(self).reported().diagnostics == old(self).reported().diagnostics + faults_from(
                old(self).source(),
                old(self).cursor(),
            ),
            final(self).reported().has_error == (old(self).reported().has_error || faults_from(
                old(self).source(),
                old(self).cursor(),
            ).len() > 0),
    {
        let ghost s = self.source@;
        let ghost all_tokens = token_views(self.tokens@) + tokens_from(s, self.current as int);
        let ghost all_faults = self.reporter@.diagnostics + faults_from(s, self.current as int);
        let ghost any_fault = self.reporter@.has_error || faults_from(s, self.current as int).len()
            > 0;
        while !self.is_at_end()
            invariant
                self.wf(),
                self.source@ == s,
                token_views(self.tokens@) + tokens_from(s, self.current as int) == all_tokens,
                self.reporter@.diagnostics + faults_from(s, self.current as int) == all_faults,
                (self.reporter@.has_error || faults_from(s, self.current as int).len() > 0)
                    == any_fault,
            decreases s.len() - self.current,
        {
            self.start = self.current;
            self.start_line = self.cur_line;
            proof {
                lemma_lexeme_end_bounds(s, self.current as int);
            }
            self.scan_token();
        }
        let closing = Token::new(TokenType::EOF, String::new(), Literal::Absent, self.cur_line);
        self.tokens.push(closing);
        let mut tokens: Vec<Token> = Vec::new();
        core::mem::swap(&mut self.tokens, &mut tokens);
        tokens
    }

    /// What has been reported so far.
    pub fn reporter(&self) -> (reporter: &Reporter)
        ensures
            reporter@ == self.reported(),
    {
        &self.reporter
    }

    /// Whether a fault has been reported.
    pub fn had_error(&self) -> (had_error: bool)
        ensures
            had_error == self.reported().has_error,
    {
        self.reporter.has_error
    }

    /// Ends the scan and hands over what was reported.
    pub fn into_reporter(self) -> (reporter: Reporter)
        ensures
            reporter@ == self.reported(),
    {
        self.reporter
    }

    /// Reads one lexeme, of which nothing has been read yet.
    fn scan_token(&mut self)
        requires
            old(self).wf(),
            old(self).start == old(self).current,
            old(self).current < old(self).source.len(),
            old(self).start_line == old(self).cur_line,
        ensures
            final(self).stepped(old(self)),
    {
        let ghost s = self.source@;
        let ghost start = self.start as int;
        proof {
            lemma_newlines_bounded(s, start);
        }
        let c: char = self.advance();
        proof {
            if start + 1 < s.len() {
                assert(newlines_before(s, start + 2) == newlines_before(s, start + 1) + if s[start
                    + 1] == '\n' {
                    1nat
                } else {
                    0nat
                });
            }
        }
        match c {
            '(' => self.add_token(TokenType::LEFT_PAREN),
            ')' => self.add_token(TokenType::RIGHT_PAREN),
            '{' => self.add_token(TokenType::LEFT_BRACE),
            '}' => self.add_token(TokenType::RIGHT_BRACE),
            ',' => self.add_token(TokenType::COMMA),
            '.' => self.add_token(TokenType::DOT),
            '-' => self.add_token(TokenType::MINUS),
            '+' => self.add_token(TokenType::PLUS),
            ';' => self.add_token(TokenType::SEMICOLON),
            '*' => self.add_token(TokenType::STAR),
            '!' => {
                let is_match: bool = self.match_next('=');
                self.add_token(
                    if is_match {
                        TokenType::BANG_EQUAL
                    } else {
                        TokenType::BANG
                    },
                )
            },
            '=' => {
                let is_match: bool = self.match_next('=');
                self.add_token(
                    if is_match {
                        TokenType::EQUAL_EQUAL
                    } else {
                        TokenType::EQUAL
                    },
                )
            },
            '<' => {
                let is_match: bool = self.match_next('=');
                self.add_token(
                    if is_match {
                        TokenType::LESS_EQUAL
                    } else {
                        TokenType::LESS
                    },
                )
            },
            '>' => {
                let is_match: bool = self.match_next('=');
                self.add_token(
                    if is_match {
                        TokenType::GREATER_EQUAL
                    } else {
                        TokenType::GREATER
                    },
                )
            },
            '/' => {
                if self.match_next('/') {
                    // A comment runs to the end of the line.
                    self.take_run(Run::CommentBody);
                } else {
                    self.add_token(TokenType::SLASH);
                }
            },
            ' ' | '\r' | '\t' => {},
            '\n' => {
                self.cur_line = self.cur_line + 1;
            },
            '"' => self.string(),
            _ => {
                if is_digit(c) {
                    self.number()
                } else if is_alpha(c) {
                    self.identifier()
                } else {
                    self.reporter.error(self.cur_line, ScanError::UnexpectedCharacter.message());
                }
            },
        }
        proof {
            assert(token_views(self.tokens@) =~= token_views(old(self).tokens@) + lexeme_tokens(
                s,
                start,
            ));
            assert(self.reporter@.diagnostics =~= old(self).reporter@.diagnostics + lexeme_faults(
                s,
                start,
            ));
        }
    }

    /// Whether the cursor stands at the end of the text.
    fn is_at_end(&self) -> (at_end: bool)
        ensures
            at_end == (self.current >= self.source.len()),
    {
        self.current >= self.source.len()
    }

    /// Takes the character at the cursor.
    fn advance(&mut self) -> (c: char)
        requires
            old(self).sound(),
            old(self).current < old(self).source.len(),
        ensures
            c == old(self).source@[old(self).current as int],
            *final(self) == (Scanner { current: (old(self).current + 1) as usize, ..*old(self) }),
            final(self).sound(),
    {
        let c: char = self.source[self.current];
        self.current = self.current + 1;
        c
    }

    /// Adds a token without a value for the lexeme that has been read.
    fn add_token(&mut self, token_type: TokenType)
        requires
            old(self).sound(),
        ensures
            final(self).added(old(self), token_type, LiteralView::Absent),
    {
        self.add_token_with_literal(token_type, Literal::Absent)
    }

    /// The scanner is as `before`, with one more token: that of the lexeme
    /// between the start and the cursor.
    spec fn added(&self, before: &Scanner, token_type: TokenType, literal: LiteralView) -> bool {
        &&& self.source == before.source
        &&& self.keywords == before.keywords
        &&& self.start == before.start
        &&& self.current == before.current
        &&& self.cur_line == before.cur_line
        &&& self.start_line == before.start_line
        &&& self.reporter == before.reporter
        &&& token_views(self.tokens@) == token_views(before.tokens@).push(
            TokenView {
                token_type,
                lexeme: before.source@.subrange(before.start as int, before.current as int),
                literal,
                line: before.start_line as nat,
            },
        )
    }

    /// Adds a token with the given value for the lexeme that has been read.
    fn add_token_with_literal(&mut self, token_type: TokenType, literal: Literal)
        requires
            old(self).sound(),
        ensures
            final(self).added(old(self), token_type, literal@),
    {
        let text: String = self.source.substring(self.start, self.current);
        let token = Token::new(token_type, text, literal, self.start_line);
        self.tokens.push(token);
        assert(token_views(self.tokens@) =~= token_views(old(self).tokens@).push(token@));
    }

    /// Takes the character at the cursor if it is the expected one.
    fn match_next(&mut self, expected: char) -> (matched: bool)
        requires
            old(self).sound(),
        ensures
            matched == (old(self).current < old(self).source.len() && old(self).source@[old(
                self,
            ).current as int] == expected),
            *final(self) == (Scanner {
                current: if matched {
                    (old(self).current + 1) as usize
                } else {
                    old(self).current
                },
                ..*old(self)
            }),
            final(self).sound(),
    {
        if self.is_at_end() {
            return false;
        }
        if self.source[self.current] != expected {
            return false;
        }
        self.current = self.current + 1;
        true
    }

    /// The character at the cursor, if there is one.
    fn peek(&self) -> (next: Option<char>)
        ensures
            next == if self.current < self.source.len() {
                Some(self.source@[self.current as int])
            } else {
                None
            },
    {
        if self.current < self.source.len() {
            Some(self.source[self.current])
        } else {
            None
        }
    }

    /// The character behind the one at the cursor, if there is one.
    fn peek_next(&self) -> (next: Option<char>)
        requires
            self.sound(),
        ensures
            next == if self.current + 1 < self.source.len() {
                Some(self.source@[self.current + 1])
            } else {
                None
            },
    {
        if self.current + 1 < self.source.len() {
            Some(self.source[self.current + 1])
        } else {
            None
        }
    }

    /// Takes the characters from the cursor on for as long as they belong
    /// to the run, and counts the line ends among them.
    fn take_run(&mut self, run: Run)
        requires
            old(self).wf(),
        ensures
            final(self).current == run_end(old(self).source@, old(self).current as int, run),
            *final(self) == (Scanner {
                current: final(self).current,
                cur_line: final(self).cur_line,
                ..*old(self)
            }),
            final(self).wf(),
    {
        let ghost s = self.source@;
        let ghost end = run_end(s, self.current as int, run);
        loop
            invariant
                self.wf(),
                *self == (Scanner { current: self.current, cur_line: self.cur_line, ..*old(self) }),
                run_end(s, self.current as int, run) == end,
                s == old(self).source@,
            ensures
                self.current == end,
            decreases s.len() - self.current,
        {
            match self.peek() {
                Some(c) => {
                    if !in_run(run, c) {
                        break ;
                    }
                    proof {
                        lemma_newlines_bounded(s, self.current as int);
                    }
                    if c == '\n' {
                        self.cur_line = self.cur_line + 1;
                    }
                    self.current = self.current + 1;
                },
                None => {
                    break ;
                },
            }
        }
    }

    /// Reads a string literal, whose opening quote has been taken.
    fn string(&mut self)
        requires
            old(self).begun(),
            old(self).source@[old(self).start as int] == '"',
        ensures
            final(self).stepped(old(self)),
    {
        let ghost s = self.source@;
        let ghost start = self.start as int;
        proof {
            lemma_run_end_bounds(s, start + 1, Run::StringBody);
        }
        self.take_run(Run::StringBody);
        if self.is_at_end() {
            self.reporter.error(self.cur_line, ScanError::UnterminatedString.message());
            proof {
                assert(self.reporter@.diagnostics =~= old(self).reporter@.diagnostics
                    + lexeme_faults(s, start));
            }
            return ;
        }
        proof {
            lemma_run_end_maximal(s, start + 1, Run::StringBody);
        }
        // The closing quote.
        let _ = self.advance();
        let text: String = self.source.substring(self.start + 1, self.current - 1);
        self.add_token_with_literal(TokenType::STRING, Literal::Text(text));
        proof {
            assert(token_views(self.tokens@) =~= token_views(old(self).tokens@) + lexeme_tokens(
                s,
                start,
            ));
        }
    }

    /// Appends the values of the digits between two positions.
    fn push_digits(&self, digits: &mut Vec<u8>, from: usize, to: usize)
        requires
            from <= to <= self.source.len(),
            forall|at: int| from <= at < to ==> digit(#[trigger] self.source@[at]),
        ensures
            final(digits)@ == old(digits)@ + digit_values(
                self.source@.subrange(from as int, to as int),
            ),
    {
        let mut at: usize = from;
        while at < to
            invariant
                from <= at <= to <= self.source.len(),
                forall|at: int| from <= at < to ==> digit(#[trigger] self.source@[at]),
                digits@ == old(digits)@ + digit_values(
                    self.source@.subrange(from as int, at as int),
                ),
            decreases to - at,
        {
            let c: char = self.source[at];
            digits.push((c as u32 - 48) as u8);
            at = at + 1;
        }
    }

    /// Reads a number literal, whose first digit has been taken.
    fn number(&mut self)
        requires
            old(self).begun(),
            digit(old(self).source@[old(self).start as int]),
        ensures
            final(self).stepped(old(self)),
    {
        let ghost s = self.source@;
        let ghost start = self.start as int;
        proof {
            lemma_run_end_maximal(s, start, Run::Digits);
        }
        self.take_run(Run::Digits);
        let whole_end: usize = self.current;
        let mut digits: Vec<u8> = Vec::new();
        self.push_digits(&mut digits, self.start, whole_end);
        let mut scale: usize = 0;
        // A point belongs to the number only where a digit follows it.
        let pointed: bool = match (self.peek(), self.peek_next()) {
            (Some('.'), Some(c)) => is_digit(c),
            _ => false,
        };
        if pointed {
            proof {
                lemma_run_end_maximal(s, whole_end + 1, Run::Digits);
                lemma_run_end_bounds(s, whole_end + 1, Run::Digits);
            }
            let _ = self.advance();
            self.take_run(Run::Digits);
            self.push_digits(&mut digits, whole_end + 1, self.current);
            scale = self.current - whole_end - 1;
        }
        let value = Decimal::assemble(digits, scale);
        self.add_token_with_literal(TokenType::NUMBER, Literal::Number(value));
        proof {
            assert(token_views(self.tokens@) =~= token_views(old(self).tokens@) + lexeme_tokens(
                s,
                start,
            ));
        }
    }

    /// The category of a word.
    fn keyword(&self, word: &String) -> (token_type: TokenType)
        requires
            self.sound(),
        ensures
            token_type == word_type(word@),
    {
        let mut at: usize = 0;
        while at < self.keywords.len()
            invariant
                at <= self.keywords.len(),
                table_view(self.keywords@) == keywords(),
                lookup(keywords(), word@, at as int) is None,
            decreases self.keywords.len() - at,
        {
            if self.keywords[at].0 == *word {
                proof {
                    lemma_lookup_stays(keywords(), word@, at + 1, keywords().len() as int);
                }
                return self.keywords[at].1;
            }
            at = at + 1;
        }
        TokenType::IDENTIFIER
    }

    /// Reads an identifier or a reserved word, whose first character has
    /// been taken.
    fn identifier(&mut self)
        requires
            old(self).begun(),
            letter(old(self).source@[old(self).start as int]),
        ensures
            final(self).stepped(old(self)),
    {
        let ghost s = self.source@;
        let ghost start = self.start as int;
        self.take_run(Run::Word);
        let word: String = self.source.substring(self.start, self.current);
        let token_type: TokenType = self.keyword(&word);
        self.add_token(token_type);
        proof {
            assert(token_views(self.tokens@) =~= token_views(old(self).tokens@) + lexeme_tokens(
                s,
                start,
            ));
        }
    }
}

} // verus!
