use rox::decimal::Decimal;
use rox::error::{Diagnostic, Reporter, ScanError};
use rox::rox::Rox;
use rox::substring::{decode, Substring};
use rox::token::{Literal, Token};
use rox::token_type::TokenType;

#[test]
fn token_new_keeps_its_parts() {
    let token = Token::new(
        TokenType::STRING,
        "\"a\"".to_string(),
        Literal::Text("a".to_string()),
        7,
    );
    assert_eq!(token.token_type, TokenType::STRING);
    assert_eq!(token.lexeme, "\"a\"");
    assert_eq!(token.literal, Literal::Text("a".to_string()));
    assert_eq!(token.line, 7);
}

#[test]
fn token_renders_type_lexeme_and_literal() {
    let token = Token::new(TokenType::LEFT_PAREN, "(".to_string(), Literal::Absent, 1);
    assert_eq!(token.to_string(), "LEFT_PAREN ( NULL");
    let token = Token::new(
        TokenType::STRING,
        "\"hi\"".to_string(),
        Literal::Text("hi".to_string()),
        1,
    );
    assert_eq!(token.to_string(), "STRING \"hi\" hi");
    let value = Decimal::new(vec![1, 2, 3, 4, 5], 2).unwrap();
    let token = Token::new(TokenType::NUMBER, "123.45".to_string(), Literal::Number(value), 1);
    assert_eq!(token.to_string(), "NUMBER 123.45 123.45");
    let token = Token::new(TokenType::EOF, String::new(), Literal::Absent, 3);
    assert_eq!(token.to_string(), "EOF  NULL");
}

#[test]
fn literal_renders_its_value() {
    assert_eq!(Literal::Absent.to_string(), "NULL");
    assert_eq!(Literal::Text("a b".to_string()).to_string(), "a b");
    assert_eq!(Literal::Number(Decimal::new(vec![4, 2], 0).unwrap()).to_string(), "42");
}

#[test]
fn token_type_names() {
    assert_eq!(TokenType::LEFT_PAREN.name(), "LEFT_PAREN");
    assert_eq!(TokenType::BANG_EQUAL.name(), "BANG_EQUAL");
    assert_eq!(TokenType::IDENTIFIER.name(), "IDENTIFIER");
    assert_eq!(TokenType::WHILE.name(), "WHILE");
    assert_eq!(TokenType::EOF.name(), "EOF");
    let all = [
        TokenType::LEFT_PAREN,
        TokenType::RIGHT_PAREN,
        TokenType::LEFT_BRACE,
        TokenType::RIGHT_BRACE,
        TokenType::COMMA,
        TokenType::DOT,
        TokenType::MINUS,
        TokenType::PLUS,
        TokenType::SEMICOLON,
        TokenType::SLASH,
        TokenType::STAR,
        TokenType::BANG,
        TokenType::BANG_EQUAL,
        TokenType::EQUAL,
        TokenType::EQUAL_EQUAL,
        TokenType::GREATER,
        TokenType::GREATER_EQUAL,
        TokenType::LESS,
        TokenType::LESS_EQUAL,
        TokenType::IDENTIFIER,
        TokenType::STRING,
        TokenType::NUMBER,
        TokenType::AND,
        TokenType::CLASS,
        TokenType::ELSE,
        TokenType::FALSE,
        TokenType::FUN,
        TokenType::FOR,
        TokenType::IF,
        TokenType::NIL,
        TokenType::OR,
        TokenType::PRINT,
        TokenType::RETURN,
        TokenType::SUPER,
        TokenType::THIS,
        TokenType::TRUE,
        TokenType::VAR,
        TokenType::WHILE,
        TokenType::EOF,
    ];
    for token_type in all {
        assert_eq!(token_type.name(), format!("{:?}", token_type));
    }
}

#[test]
fn decimal_is_made_of_digits_and_a_scale() {
    let value = Decimal::new(vec![1, 2, 3, 4, 5], 2).unwrap();
    assert_eq!(value.digits(), &vec![1u8, 2, 3, 4, 5]);
    assert_eq!(value.scale(), 2);
    assert_eq!(value.to_string(), "123.45");
    assert_eq!(value.clone(), value);
    assert_eq!(Decimal::new(vec![7], 0).unwrap().to_string(), "7");
    assert_eq!(Decimal::new(vec![0, 5], 1).unwrap().to_string(), "0.5");
    assert_eq!(Decimal::new(vec![0, 0, 7], 0).unwrap().to_string(), "007");
}

#[test]
fn decimal_refuses_what_is_no_number() {
    assert_eq!(Decimal::new(vec![], 0), None);
    assert_eq!(Decimal::new(vec![1, 2], 2), None);
    assert_eq!(Decimal::new(vec![1, 2], 3), None);
    assert_eq!(Decimal::new(vec![1, 10], 0), None);
    assert_eq!(Decimal::new(vec![255], 0), None);
    assert!(Decimal::new(vec![9, 9], 1).is_some());
}

#[test]
fn scan_error_messages() {
    assert_eq!(ScanError::UnexpectedCharacter.message(), "Unexpected character");
    assert_eq!(ScanError::UnterminatedString.message(), "Unterminated string");
}

#[test]
fn reporter_starts_clean() {
    let reporter = Reporter::new();
    assert!(!reporter.has_error);
    assert!(reporter.diagnostics.is_empty());
}

#[test]
fn reporter_error_records_the_line_and_raises_the_flag() {
    let mut reporter = Reporter::new();
    reporter.error(3, "Unexpected character");
    assert!(reporter.has_error);
    assert_eq!(
        reporter.diagnostics,
        vec![Diagnostic {
            line: 3,
            location: String::new(),
            message: "Unexpected character".to_string(),
        }]
    );
    reporter.error(12, "Unterminated string");
    assert!(reporter.has_error);
    assert_eq!(reporter.diagnostics.len(), 2);
    assert_eq!(reporter.diagnostics[0].line, 3);
    assert_eq!(reporter.diagnostics[1].line, 12);
    assert_eq!(reporter.diagnostics[1].message, "Unterminated string");
}

#[test]
fn reporter_report_keeps_the_place() {
    let mut reporter = Reporter::new();
    reporter.report(5, "at end", "Expect expression");
    assert!(reporter.has_error);
    assert_eq!(reporter.diagnostics[0].location, "at end");
    assert_eq!(
        reporter.diagnostics[0].to_string(),
        "[line 5] Error at end: Expect expression"
    );
}

#[test]
fn diagnostic_renders_its_line_in_decimal() {
    let render = |line: usize| {
        Diagnostic { line, location: String::new(), message: "m".to_string() }.to_string()
    };
    assert_eq!(render(0), "[line 0] Error : m");
    assert_eq!(render(9), "[line 9] Error : m");
    assert_eq!(render(10), "[line 10] Error : m");
    assert_eq!(render(1234567890), "[line 1234567890] Error : m");
    assert_eq!(render(usize::MAX), format!("[line {}] Error : m", usize::MAX));
}

#[test]
fn substring_of_a_string_counts_characters() {
    let text = "héllo wörld".to_string();
    assert_eq!(text.substring(0, 5), "héllo");
    assert_eq!(text.substring(6, 11), "wörld");
    assert_eq!(text.substring(1, 2), "é");
    assert_eq!(text.substring(3, 3), "");
    assert_eq!(text.substring(0, 11), text);
}

#[test]
fn substring_of_characters() {
    let chars: Vec<char> = "a✓b c".chars().collect();
    assert_eq!(chars.substring(0, 2), "a✓");
    assert_eq!(chars.substring(1, 3), "✓b");
    assert_eq!(chars.substring(5, 5), "");
    assert_eq!(chars.substring(0, 5), "a✓b c");
}

#[test]
fn decode_gives_the_characters() {
    assert_eq!(decode("a✓b"), vec!['a', '✓', 'b']);
    assert_eq!(decode(""), Vec::<char>::new());
}

#[test]
fn rox_starts_clean() {
    let rox = Rox::new();
    assert!(!rox.reporter.has_error);
    assert!(rox.reporter.diagnostics.is_empty());
}

#[test]
fn rox_run_gives_tokens_and_keeps_the_reports_of_the_run() {
    let mut rox = Rox::new();
    let tokens = rox.run(&"print \"a\" @".to_string());
    let kinds: Vec<TokenType> = tokens.iter().map(|token| token.token_type).collect();
    assert_eq!(kinds, vec![TokenType::PRINT, TokenType::STRING, TokenType::EOF]);
    assert!(rox.reporter.has_error);
    assert_eq!(rox.reporter.diagnostics.len(), 1);
    assert_eq!(rox.reporter.diagnostics[0].message, "Unexpected character");
    // The next run starts with a reporter of its own.
    let tokens = rox.run(&"print 1;".to_string());
    assert_eq!(tokens.len(), 4);
    assert!(!rox.reporter.has_error);
    assert!(rox.reporter.diagnostics.is_empty());
}

#[test]
fn decimal_numerator_is_the_number_without_its_point() {
    assert_eq!(Decimal::new(vec![1, 2, 3, 4, 5], 2).unwrap().numerator(), Some(12345));
    assert_eq!(Decimal::new(vec![0, 0, 7], 0).unwrap().numerator(), Some(7));
    assert_eq!(Decimal::new(vec![0], 0).unwrap().numerator(), Some(0));
    // 18446744073709551615 is the largest that fits.
    let largest = vec![1, 8, 4, 4, 6, 7, 4, 4, 0, 7, 3, 7, 0, 9, 5, 5, 1, 6, 1, 5];
    assert_eq!(Decimal::new(largest, 3).unwrap().numerator(), Some(u64::MAX));
    let beyond = vec![1, 8, 4, 4, 6, 7, 4, 4, 0, 7, 3, 7, 0, 9, 5, 5, 1, 6, 1, 6];
    assert_eq!(Decimal::new(beyond, 0).unwrap().numerator(), None);
    let long = vec![9; 30];
    assert_eq!(Decimal::new(long, 10).unwrap().numerator(), None);
}
