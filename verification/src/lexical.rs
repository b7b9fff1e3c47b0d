//! The lexical grammar, as mathematics.
//!
//! A source text is a sequence of characters. Reading it from a position
//! finds one lexeme: where it ends and what it is. The tokens and the
//! diagnostics of a text are what the lexemes give, one after the other,
//! from the first position to the end.

use vstd::prelude::*;
use crate::decimal::DecimalView;
use crate::error::DiagnosticView;
use crate::error::ScanError;
use crate::token::LiteralView;
use crate::token::TokenView;
use crate::token_type::TokenType;

verus! {

/// A decimal digit.
pub open spec fn digit(c: char) -> bool {
    '0' <= c && c <= '9'
}

/// A letter of the basic Latin alphabet, or an underscore.
pub open spec fn letter(c: char) -> bool {
    ('a' <= c && c <= 'z') || ('A' <= c && c <= 'Z') || c == '_'
}

/// A character that can stand inside an identifier.
pub open spec fn word_char(c: char) -> bool {
    letter(c) || digit(c)
}

/// The kinds of characters of which a lexeme takes as many as follow each
/// other.
#[derive(Clone, Copy, Debug, PartialEq, Eq, Structural)]
pub enum Run {
    /// Decimal digits.
    Digits,
    /// Letters, digits and underscores.
    Word,
    /// Whatever stands inside a string literal: all but the quote.
    StringBody,
    /// Whatever stands inside a comment: all but the line end.
    CommentBody,
}

impl Run {
    /// Whether `c` belongs to the run.
    pub open spec fn holds(self, c: char) -> bool {
        match self {
            Run::Digits => digit(c),
            Run::Word => word_char(c),
            Run::StringBody => c != '"',
            Run::CommentBody => c != '\n',
        }
    }
}

/// The first position from `from` on at which the run stops: the end of
/// the text, or a character that does not belong to it.
pub open spec fn run_end(s: Seq<char>, from: int, run: Run) -> int
    decreases s.len() - from,
{
    if 0 <= from < s.len() && run.holds(s[from]) {
        run_end(s, from + 1, run)
    } else {
        from
    }
}

/// How many line ends stand before position `at`.
pub open spec fn newlines_before(s: Seq<char>, at: int) -> nat
    decreases at,
{
    if at <= 0 || at > s.len() {
        0
    } else {
        newlines_before(s, at - 1) + if s[at - 1] == '\n' {
            1nat
        } else {
            0nat
        }
    }
}

/// The line, counted from one, on which position `at` lies.
pub open spec fn line_at(s: Seq<char>, at: int) -> nat {
    1 + newlines_before(s, at)
}

/// The category of a punctuation character.
pub open spec fn punctuation(c: char) -> Option<TokenType> {
    if c == '(' {
        Some(TokenType::LEFT_PAREN)
    } else if c == ')' {
        Some(TokenType::RIGHT_PAREN)
    } else if c == '{' {
        Some(TokenType::LEFT_BRACE)
    } else if c == '}' {
        Some(TokenType::RIGHT_BRACE)
    } else if c == ',' {
        Some(TokenType::COMMA)
    } else if c == '.' {
        Some(TokenType::DOT)
    } else if c == '-' {
        Some(TokenType::MINUS)
    } else if c == '+' {
        Some(TokenType::PLUS)
    } else if c == ';' {
        Some(TokenType::SEMICOLON)
    } else if c == '*' {
        Some(TokenType::STAR)
    } else if c == '/' {
        Some(TokenType::SLASH)
    } else {
        None
    }
}

/// The category of an operator that starts with `c`: of the character
/// alone, or, where `paired`, of the character and an equals sign.
pub open spec fn operator(c: char, paired: bool) -> Option<TokenType> {
    if c == '!' {
        Some(if paired { TokenType::BANG_EQUAL } else { TokenType::BANG })
    } else if c == '=' {
        Some(if paired { TokenType::EQUAL_EQUAL } else { TokenType::EQUAL })
    } else if c == '<' {
        Some(if paired { TokenType::LESS_EQUAL } else { TokenType::LESS })
    } else if c == '>' {
        Some(if paired { TokenType::GREATER_EQUAL } else { TokenType::GREATER })
    } else {
        None
    }
}

/// A character that separates lexemes and is none itself.
pub open spec fn blank(c: char) -> bool {
    c == ' ' || c == '\r' || c == '\t' || c == '\n'
}

/// The reserved words, each with its category.
pub open spec fn keywords() -> Seq<(Seq<char>, TokenType)> {
    seq![
        ("and"@, TokenType::AND),
        ("class"@, TokenType::CLASS),
        ("else"@, TokenType::ELSE),
        ("false"@, TokenType::FALSE),
        ("for"@, TokenType::FOR),
        ("fun"@, TokenType::FUN),
        ("if"@, TokenType::IF),
        ("nil"@, TokenType::NIL),
        ("or"@, TokenType::OR),
        ("print"@, TokenType::PRINT),
        ("return"@, TokenType::RETURN),
        ("super"@, TokenType::SUPER),
        ("this"@, TokenType::THIS),
        ("true"@, TokenType::TRUE),
        ("var"@, TokenType::VAR),
        ("while"@, TokenType::WHILE),
    ]
}

/// The category that the first `upto` entries of `table` give to `word`:
/// that of the first entry spelled exactly like it, if there is one.
pub open spec fn lookup(table: Seq<(Seq<char>, TokenType)>, word: Seq<char>, upto: int) -> Option<
    TokenType,
>
    decreases upto,
{
    if upto <= 0 || upto > table.len() {
        None
    } else {
        match lookup(table, word, upto - 1) {
            Some(found) => Some(found),
            None => if table[upto - 1].0 == word {
                Some(table[upto - 1].1)
            } else {
                None
            },
        }
    }
}

/// The category of a word: that of the reserved word it is, or
/// `IDENTIFIER`.
pub open spec fn word_type(word: Seq<char>) -> TokenType {
    match lookup(keywords(), word, keywords().len() as int) {
        Some(reserved) => reserved,
        None => TokenType::IDENTIFIER,
    }
}

/// The value of a decimal digit.
pub open spec fn digit_value(c: char) -> u8 {
    (c as int - 48) as u8
}

/// The values of a run of decimal digits.
pub open spec fn digit_values(digits: Seq<char>) -> Seq<u8> {
    digits.map_values(|c: char| digit_value(c))
}

/// Whether the digits that end at `whole_end` are followed by a fraction: a
/// point and at least one more digit.
pub open spec fn has_fraction(s: Seq<char>, whole_end: int) -> bool {
    0 <= whole_end && whole_end + 1 < s.len() && s[whole_end] == '.' && digit(s[whole_end + 1])
}

/// Where the number that starts at `start` ends: behind its digits, or
/// behind the digits of its fraction.
pub open spec fn number_end(s: Seq<char>, start: int) -> int {
    let whole_end = run_end(s, start, Run::Digits);
    if has_fraction(s, whole_end) {
        run_end(s, whole_end + 1, Run::Digits)
    } else {
        whole_end
    }
}

/// The value of the number that starts at `start`.
pub open spec fn number_value(s: Seq<char>, start: int) -> DecimalView {
    let whole_end = run_end(s, start, Run::Digits);
    let end = number_end(s, start);
    if has_fraction(s, whole_end) {
        DecimalView {
            digits: digit_values(s.subrange(start, whole_end)) + digit_values(
                s.subrange(whole_end + 1, end),
            ),
            scale: (end - whole_end - 1) as nat,
        }
    } else {
        DecimalView { digits: digit_values(s.subrange(start, end)), scale: 0 }
    }
}

/// What a lexeme is.
pub enum Reading {
    /// A token of the given category, with the given value.
    Token(TokenType, LiteralView),
    /// Blank space or a comment: nothing to hand on.
    Nothing,
    /// A fault in the text.
    Fault(ScanError),
}

/// Where the lexeme that starts at `start` ends.
pub open spec fn lexeme_end(s: Seq<char>, start: int) -> int
    recommends
        0 <= start < s.len(),
{
    let c = s[start];
    if operator(c, false) is Some {
        if start + 1 < s.len() && s[start + 1] == '=' {
            start + 2
        } else {
            start + 1
        }
    } else if c == '/' {
        if start + 1 < s.len() && s[start + 1] == '/' {
            run_end(s, start + 2, Run::CommentBody)
        } else {
            start + 1
        }
    } else if c == '"' {
        let close = run_end(s, start + 1, Run::StringBody);
        if close < s.len() {
            close + 1
        } else {
            close
        }
    } else if digit(c) {
        number_end(s, start)
    } else if letter(c) {
        run_end(s, start + 1, Run::Word)
    } else {
        start + 1
    }
}

/// What the lexeme that starts at `start` is.
pub open spec fn lexeme_reading(s: Seq<char>, start: int) -> Reading
    recommends
        0 <= start < s.len(),
{
    let c = s[start];
    let end = lexeme_end(s, start);
    if operator(c, false) is Some {
        Reading::Token(operator(c, end == start + 2)->0, LiteralView::Absent)
    } else if c == '/' {
        if start + 1 < s.len() && s[start + 1] == '/' {
            Reading::Nothing
        } else {
            Reading::Token(TokenType::SLASH, LiteralView::Absent)
        }
    } else if punctuation(c) is Some {
        Reading::Token(punctuation(c)->0, LiteralView::Absent)
    } else if blank(c) {
        Reading::Nothing
    } else if c == '"' {
        let close = run_end(s, start + 1, Run::StringBody);
        if close < s.len() {
            Reading::Token(TokenType::STRING, LiteralView::Text(s.subrange(start + 1, close)))
        } else {
            Reading::Fault(ScanError::UnterminatedString)
        }
    } else if digit(c) {
        Reading::Token(TokenType::NUMBER, LiteralView::Number(number_value(s, start)))
    } else if letter(c) {
        Reading::Token(word_type(s.subrange(start, end)), LiteralView::Absent)
    } else {
        Reading::Fault(ScanError::UnexpectedCharacter)
    }
}

/// The tokens that the lexeme at `start` gives: one, or none.
pub open spec fn lexeme_tokens(s: Seq<char>, start: int) -> Seq<TokenView>
    recommends
        0 <= start < s.len(),
{
    match lexeme_reading(s, start) {
        Reading::Token(token_type, literal) => seq![
            TokenView {
                token_type,
                lexeme: s.subrange(start, lexeme_end(s, start)),
                literal,
                line: line_at(s, start),
            },
        ],
        _ => Seq::empty(),
    }
}

/// The diagnostics that the lexeme at `start` gives: one, or none. A fault
/// is reported on the line on which the lexeme ends.
pub open spec fn lexeme_faults(s: Seq<char>, start: int) -> Seq<DiagnosticView>
    recommends
        0 <= start < s.len(),
{
    match lexeme_reading(s, start) {
        Reading::Fault(fault) => seq![
            DiagnosticView {
                line: line_at(s, lexeme_end(s, start)),
                location: Seq::empty(),
                message: fault.message_spec(),
            },
        ],
        _ => Seq::empty(),
    }
}

/// The token that closes every scan, on the last line of the text.
pub open spec fn end_token(s: Seq<char>) -> TokenView {
    TokenView {
        token_type: TokenType::EOF,
        lexeme: Seq::empty(),
        literal: LiteralView::Absent,
        line: line_at(s, s.len() as int),
    }
}

/// No more line ends stand before a position than characters.
pub proof fn lemma_newlines_bounded(s: Seq<char>, at: int)
    requires
        0 <= at <= s.len(),
    ensures
        newlines_before(s, at) <= at,
    decreases at,
{
    if at > 0 {
        lemma_newlines_bounded(s, at - 1);
    }
}

/// A run ends at or behind the position at which it starts, and inside the
/// text.
pub proof fn lemma_run_end_bounds(s: Seq<char>, from: int, run: Run)
    requires
        0 <= from <= s.len(),
    ensures
        from <= run_end(s, from, run) <= s.len(),
    decreases s.len() - from,
{
    if from < s.len() && run.holds(s[from]) {
        lemma_run_end_bounds(s, from + 1, run);
    }
}

/// Every character of a run belongs to it, and the character behind it, if
/// there is one, does not.
pub proof fn lemma_run_end_maximal(s: Seq<char>, from: int, run: Run)
    requires
        0 <= from <= s.len(),
    ensures
        forall|at: int| from <= at < run_end(s, from, run) ==> run.holds(#[trigger] s[at]),
        run_end(s, from, run) < s.len() ==> !run.holds(s[run_end(s, from, run)]),
    decreases s.len() - from,
{
    if from < s.len() && run.holds(s[from]) {
        lemma_run_end_maximal(s, from + 1, run);
    }
}

/// A lexeme holds at least one character and ends inside the text.
pub proof fn lemma_lexeme_end_bounds(s: Seq<char>, start: int)
    requires
        0 <= start < s.len(),
    ensures
        start < lexeme_end(s, start) <= s.len(),
{
    let c = s[start];
    lemma_run_end_bounds(s, start + 1, Run::StringBody);
    lemma_run_end_bounds(s, start + 1, Run::Word);
    if start + 2 <= s.len() {
        lemma_run_end_bounds(s, start + 2, Run::CommentBody);
    }
    if digit(c) {
        lemma_run_end_bounds(s, start + 1, Run::Digits);
        let whole_end = run_end(s, start, Run::Digits);
        if has_fraction(s, whole_end) {
            lemma_run_end_bounds(s, whole_end + 1, Run::Digits);
        }
    }
}

/// The tokens of the text from position `from` on: those of its lexemes,
/// in order, and the closing token.
pub open spec fn tokens_from(s: Seq<char>, from: int) -> Seq<TokenView>
    decreases s.len() - from,
    via tokens_from_decreases
{
    if 0 <= from < s.len() {
        lexeme_tokens(s, from) + tokens_from(s, lexeme_end(s, from))
    } else {
        seq![end_token(s)]
    }
}

#[via_fn]
proof fn tokens_from_decreases(s: Seq<char>, from: int) {
    if 0 <= from < s.len() {
        lemma_lexeme_end_bounds(s, from);
    }
}

/// The diagnostics of the text from position `from` on: those of its
/// lexemes, in order.
pub open spec fn faults_from(s: Seq<char>, from: int) -> Seq<DiagnosticView>
    decreases s.len() - from,
    via faults_from_decreases
{
    if 0 <= from < s.len() {
        lexeme_faults(s, from) + faults_from(s, lexeme_end(s, from))
    } else {
        Seq::empty()
    }
}

#[via_fn]
proof fn faults_from_decreases(s: Seq<char>, from: int) {
    if 0 <= from < s.len() {
        lemma_lexeme_end_bounds(s, from);
    }
}

/// The tokens of a whole text.
pub open spec fn tokens_of(s: Seq<char>) -> Seq<TokenView> {
    tokens_from(s, 0)
}

/// The diagnostics of a whole text.
pub open spec fn faults_of(s: Seq<char>) -> Seq<DiagnosticView> {
    faults_from(s, 0)
}

} // verus!
