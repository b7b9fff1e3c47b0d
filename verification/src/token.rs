//! Tokens: one lexical unit each, with the text it was read from.

use vstd::prelude::*;
use vstd::string::*;
use crate::decimal::Decimal;
use crate::decimal::DecimalView;
use crate::token_type::TokenType;

verus! {

/// The decoded value that a token carries.
#[derive(Clone, Debug, PartialEq, Eq)]
pub enum Literal {
    /// No value: every token but strings and numbers.
    Absent,
    /// The characters between the quotes of a string literal.
    Text(String),
    /// The value of a number literal.
    Number(Decimal),
}

/// The mathematical content of a [`Literal`].
pub enum LiteralView {
    Absent,
    Text(Seq<char>),
    Number(DecimalView),
}

impl LiteralView {
    /// The literal as it is shown in a token's rendering.
    pub open spec fn rendering(self) -> Seq<char> {
        match self {
            LiteralView::Absent => "NULL"@,
            LiteralView::Text(text) => text,
            LiteralView::Number(number) => number.spelling(),
        }
    }
}

impl View for Literal {
    type V = LiteralView;

    open spec fn view(&self) -> LiteralView {
        match self {
            Literal::Absent => LiteralView::Absent,
            Literal::Text(text) => LiteralView::Text(text@),
            Literal::Number(number) => LiteralView::Number(number@),
        }
    }
}

impl Literal {
    /// The literal as it is shown in a token's rendering.
    pub fn to_string(&self) -> (text: String)
        ensures
            text@ == self@.rendering(),
    {
        match self {
            Literal::Absent => "NULL".to_owned(),
            Literal::Text(text) => text.clone(),
            Literal::Number(number) => number.to_string(),
        }
    }
}

/// One lexical unit of a source text.
#[derive(Clone, Debug, PartialEq, Eq)]
pub struct Token {
    /// The lexical category.
    pub token_type: TokenType,
    /// The exact piece of the source that the token was read from.
    pub lexeme: String,
    /// The decoded value, for strings and numbers.
    pub literal: Literal,
    /// The line of the source, counted from one, on which the token starts.
    pub line: usize,
}

/// The mathematical content of a [`Token`].
pub struct TokenView {
    pub token_type: TokenType,
    pub lexeme: Seq<char>,
    pub literal: LiteralView,
    pub line: nat,
}

impl TokenView {
    /// The name of the category, the lexeme and the literal, with one space
    /// between them.
    pub open spec fn rendering(self) -> Seq<char> {
        self.token_type.name_spec().push(' ') + self.lexeme.push(' ') + self.literal.rendering()
    }
}

impl View for Token {
    type V = TokenView;

    open spec fn view(&self) -> TokenView {
        TokenView {
            token_type: self.token_type,
            lexeme: self.lexeme@,
            literal: self.literal@,
            line: self.line as nat,
        }
    }
}

/// The contents of a sequence of tokens.
pub open spec fn token_views(tokens: Seq<Token>) -> Seq<TokenView> {
    tokens.map_values(|token: Token| token@)
}

impl Token {
    /// A token made of the four given parts.
    pub fn new(token_type: TokenType, lexeme: String, literal: Literal, line: usize) -> (token:
        Token)
        ensures
            token.token_type == token_type,
            token.lexeme == lexeme,
            token.literal == literal,
            token.line == line,
    {
        Token { token_type, lexeme, literal, line }
    }

    /// A rendering for people: the name of the category, the lexeme and the
    /// literal, with one space between them.
    pub fn to_string(&self) -> (text: String)
        ensures
            text@ == self@.rendering(),
    {
        let mut text: String = self.token_type.name().to_owned();
        text.push(' ');
        text.append(self.lexeme.as_str());
        text.push(' ');
        let literal: String = self.literal.to_string();
        text.append(literal.as_str());
        text
    }
}

} // verus!
