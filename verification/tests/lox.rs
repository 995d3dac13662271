use rlox::interpreter::{Numerics, RuntimeError};
use rlox::lox::{error, report, runtime_error, syntax_error, Lox};
use rlox::parser::ParserError;
use rlox::scanner::ScannerError;
use rlox::text::decimal;
use rlox::token::{Token, TokenType};

struct Doubles;

impl Numerics for Doubles {
    fn parse(&self, numeral: &str) -> u64 {
        numeral.parse::<f64>().unwrap().to_bits()
    }

    fn sum(&self, a: u64, b: u64) -> u64 {
        (f64::from_bits(a) + f64::from_bits(b)).to_bits()
    }

    fn difference(&self, a: u64, b: u64) -> u64 {
        (f64::from_bits(a) - f64::from_bits(b)).to_bits()
    }

    fn product(&self, a: u64, b: u64) -> u64 {
        (f64::from_bits(a) * f64::from_bits(b)).to_bits()
    }

    fn quotient(&self, a: u64, b: u64) -> u64 {
        (f64::from_bits(a) / f64::from_bits(b)).to_bits()
    }

    fn render(&self, bits: u64) -> String {
        format!("{}", f64::from_bits(bits))
    }
}

fn token(token_type: TokenType, lexeme: &str, line: usize) -> Token {
    Token::new(token_type, lexeme.to_string(), line)
}

#[test]
fn decimal_numerals() {
    assert_eq!(decimal(0), "0");
    assert_eq!(decimal(7), "7");
    assert_eq!(decimal(10), "10");
    assert_eq!(decimal(1905), "1905");
    assert_eq!(decimal(usize::MAX), format!("{}", usize::MAX));
}

#[test]
fn the_text_of_a_diagnostic() {
    assert_eq!(report(3, " at end", "Expect expression"), "[line 3] Error at end: Expect expression");
    assert_eq!(error(12, "Unexpected character."), "[line 12] Error: Unexpected character.");
}

#[test]
fn the_text_of_a_syntax_diagnostic() {
    assert_eq!(
        syntax_error(&token(TokenType::Semicolon, ";", 2), "Expect expression"),
        "[line 2] Error at ';': Expect expression"
    );
    assert_eq!(
        syntax_error(&token(TokenType::EndOfInput, "", 9), "Expect '}' after block"),
        "[line 9] Error at end: Expect '}' after block"
    );
}

#[test]
fn the_text_of_a_runtime_diagnostic() {
    let t = token(TokenType::Plus, "+", 41);
    assert_eq!(RuntimeError::TypeMismatchBinary(t.clone()).to_err_msg(), "Invalid binary operand\n[line 41]");
    assert_eq!(RuntimeError::TypeMismatchUnary(t.clone()).to_err_msg(), "Invalid unary operand\n[line 41]");
    assert_eq!(
        RuntimeError::UnexpectedLiteralTokenType(t.clone()).to_err_msg(),
        "Unexpected literal token type\n[line 41]"
    );
    assert_eq!(RuntimeError::UndefinedVariable(t.clone()).to_err_msg(), "Undefined variable\n[line 41]");
    assert_eq!(runtime_error(&RuntimeError::UndefinedVariable(t.clone())), "Undefined variable\n[line 41]");
    assert_eq!(RuntimeError::UndefinedVariable(t.clone()).token(), &t);
    assert_eq!(RuntimeError::UndefinedVariable(t.clone()).clone(), RuntimeError::UndefinedVariable(t));
}

#[test]
fn the_messages_of_the_diagnostics() {
    let t = token(TokenType::EndOfInput, "", 1);
    assert_eq!(ScannerError::UnterminatedString(1).message(), "Unterminated string.");
    assert_eq!(ScannerError::UnexpectedCharacter(1).message(), "Unexpected character.");
    assert_eq!(ParserError::ExpectExpression(t.clone()).message(), "Expect expression");
    assert_eq!(ParserError::ExpectRightParen(t.clone()).message(), "Expect ')' after expression");
    assert_eq!(ParserError::ExpectRightBrace(t.clone()).message(), "Expect '}' after block");
    assert_eq!(ParserError::ExpectSemicolon(t.clone()).message(), "Expect ';' at the end of statement");
    assert_eq!(ParserError::ExpectIdentifier(t.clone()).message(), "Expect identifier after `var`");
    assert_eq!(ParserError::InvalidAssignmentTarget(t).message(), "Invalid assignment target");
}

#[test]
fn a_text_without_faults() {
    let mut lox = Lox::new(Doubles);
    let report = lox.run("var a = 1; print a + 1;".to_string());
    assert!(!report.failed());
    assert!(report.lines().is_empty());
    assert!(!lox.had_error());
    assert!(!lox.had_runtime_error());
    assert_eq!(lox.output(), &vec!["2".to_string()]);
}

#[test]
fn the_diagnostics_of_the_three_stages() {
    let mut lox = Lox::new(Doubles);
    let report = lox.run("print 1;\n@ 1 +;\nprint \"ok\";\nprint -nil;\nx = 1;\n\"open".to_string());
    assert!(report.failed());
    assert_eq!(report.lexical, vec![ScannerError::UnexpectedCharacter(2), ScannerError::UnterminatedString(6)]);
    assert_eq!(report.syntax, vec![ParserError::ExpectExpression(token(TokenType::Semicolon, ";", 2))]);
    assert_eq!(
        report.runtime,
        vec![
            RuntimeError::TypeMismatchUnary(token(TokenType::Minus, "-", 4)),
            RuntimeError::UndefinedVariable(token(TokenType::Identifier, "x", 5)),
        ]
    );
    assert_eq!(
        report.lines(),
        vec![
            "[line 2] Error: Unexpected character.",
            "[line 6] Error: Unterminated string.",
            "[line 2] Error at ';': Expect expression",
            "Invalid unary operand\n[line 4]",
            "Undefined variable\n[line 5]",
        ]
    );
    assert!(lox.had_error());
    assert!(lox.had_runtime_error());
    assert_eq!(lox.output(), &vec!["1".to_string(), "ok".to_string()]);
}

#[test]
fn a_malformed_statement_and_a_valid_one() {
    let mut lox = Lox::new(Doubles);
    let report = lox.run("1 +; print \"ok\";".to_string());
    assert!(report.lexical.is_empty());
    assert_eq!(report.syntax.len(), 1);
    assert!(report.runtime.is_empty());
    assert!(lox.had_error());
    assert!(!lox.had_runtime_error());
    assert_eq!(lox.output(), &vec!["ok".to_string()]);
}

#[test]
fn a_session_keeps_its_globals_and_forgets_failures_on_request() {
    let mut lox = Lox::new(Doubles);
    assert!(!lox.run("var total = 40;".to_string()).failed());
    assert!(lox.run("print missing;".to_string()).failed());
    assert!(lox.had_runtime_error());
    assert!(!lox.had_error());
    lox.clear_errors();
    assert!(!lox.had_runtime_error());
    assert!(!lox.run("print total + 2;".to_string()).failed());
    assert_eq!(lox.output(), &vec!["42".to_string()]);
}

#[test]
fn a_report_of_one_run_holds_no_diagnostic_of_another() {
    let mut lox = Lox::new(Doubles);
    assert_eq!(lox.run("print a;".to_string()).runtime.len(), 1);
    assert_eq!(lox.run("print b; print c;".to_string()).runtime.len(), 2);
    assert_eq!(lox.run("print 1;".to_string()).runtime.len(), 0);
}

#[test]
fn the_output_is_handed_over_once() {
    let mut lox = Lox::new(Doubles);
    lox.run("print 1; print 2;".to_string());
    assert_eq!(lox.take_output(), vec!["1", "2"]);
    assert!(lox.output().is_empty());
    lox.run("print 3;".to_string());
    assert_eq!(lox.take_output(), vec!["3"]);
    assert_eq!(lox.take_output(), Vec::<String>::new());
}
