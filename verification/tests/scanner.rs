use rlox::scanner::{is_numeral_text, Scanner, ScannerError};
use rlox::token::{Token, TokenType};

fn scan(source: &str) -> (Vec<Token>, Vec<ScannerError>) {
    Scanner::new(source.to_string()).scan_tokens()
}

fn kinds(source: &str) -> Vec<TokenType> {
    scan(source).0.into_iter().map(|t| t.token_type).collect()
}

fn token(token_type: TokenType, lexeme: &str, line: usize) -> Token {
    Token::new(token_type, lexeme.to_string(), line)
}

fn number(numeral: &str) -> TokenType {
    TokenType::Number(numeral.to_string())
}

fn string(text: &str) -> TokenType {
    TokenType::String(text.to_string())
}

#[test]
fn empty_source_gives_the_sentinel_alone() {
    let (tokens, errors) = scan("");
    assert_eq!(tokens, vec![token(TokenType::EndOfInput, "", 1)]);
    assert!(errors.is_empty());
}

#[test]
fn the_sentinel_is_last_and_occurs_once() {
    for source in ["", "1 + 2", "\"open", "@ # $", "var x = 1;\n// note\nprint x;\n", "a\n\n\n"] {
        let (tokens, _) = scan(source);
        assert_eq!(tokens.last().unwrap().token_type, TokenType::EndOfInput);
        assert_eq!(tokens.iter().filter(|t| t.token_type == TokenType::EndOfInput).count(), 1);
    }
}

#[test]
fn the_sentinel_is_on_the_last_line() {
    assert_eq!(scan("a\nb\n\n").0.last().unwrap(), &token(TokenType::EndOfInput, "", 4));
    assert_eq!(scan("\"a\nb").0.last().unwrap(), &token(TokenType::EndOfInput, "", 2));
}

#[test]
fn punctuation() {
    assert_eq!(
        kinds("(){},.-+;*/"),
        vec![
            TokenType::LeftParen,
            TokenType::RightParen,
            TokenType::LeftBrace,
            TokenType::RightBrace,
            TokenType::Comma,
            TokenType::Dot,
            TokenType::Minus,
            TokenType::Plus,
            TokenType::Semicolon,
            TokenType::Star,
            TokenType::Slash,
            TokenType::EndOfInput,
        ]
    );
}

#[test]
fn two_character_operators_are_read_whole() {
    assert_eq!(
        kinds("! != = == > >= < <="),
        vec![
            TokenType::Bang,
            TokenType::BangEqual,
            TokenType::Equal,
            TokenType::EqualEqual,
            TokenType::Greater,
            TokenType::GreaterEqual,
            TokenType::Less,
            TokenType::LessEqual,
            TokenType::EndOfInput,
        ]
    );
}

#[test]
fn the_longest_operator_is_taken() {
    assert_eq!(
        scan("!===<==>").0,
        vec![
            token(TokenType::BangEqual, "!=", 1),
            token(TokenType::EqualEqual, "==", 1),
            token(TokenType::LessEqual, "<=", 1),
            token(TokenType::Equal, "=", 1),
            token(TokenType::Greater, ">", 1),
            token(TokenType::EndOfInput, "", 1),
        ]
    );
}

#[test]
fn a_comment_runs_to_the_end_of_its_line() {
    assert_eq!(
        scan("1 // two 3\n4 / 5 // six").0,
        vec![
            token(number("1"), "1", 1),
            token(number("4"), "4", 2),
            token(TokenType::Slash, "/", 2),
            token(number("5"), "5", 2),
            token(TokenType::EndOfInput, "", 2),
        ]
    );
}

#[test]
fn white_space_separates_and_is_dropped() {
    let (tokens, errors) = scan(" a\tb\r\nc \n");
    assert!(errors.is_empty());
    assert_eq!(
        tokens,
        vec![
            token(TokenType::Identifier, "a", 1),
            token(TokenType::Identifier, "b", 1),
            token(TokenType::Identifier, "c", 2),
            token(TokenType::EndOfInput, "", 3),
        ]
    );
}

#[test]
fn a_string_literal_carries_its_contents() {
    assert_eq!(
        scan("\"hello world\" \"\"").0,
        vec![
            token(string("hello world"), "\"hello world\"", 1),
            token(string(""), "\"\"", 1),
            token(TokenType::EndOfInput, "", 1),
        ]
    );
}

#[test]
fn a_string_literal_may_span_lines() {
    let (tokens, errors) = scan("\"one\ntwo\nthree\" x");
    assert!(errors.is_empty());
    assert_eq!(
        tokens,
        vec![
            token(string("one\ntwo\nthree"), "\"one\ntwo\nthree\"", 3),
            token(TokenType::Identifier, "x", 3),
            token(TokenType::EndOfInput, "", 3),
        ]
    );
}

#[test]
fn an_unterminated_string_is_reported_where_it_began() {
    let (tokens, errors) = scan("a\n\"open\nstill open\n");
    assert_eq!(errors, vec![ScannerError::UnterminatedString(2)]);
    assert_eq!(errors[0].line(), 2);
    assert_eq!(tokens, vec![token(TokenType::Identifier, "a", 1), token(TokenType::EndOfInput, "", 4)]);
}

#[test]
fn numbers() {
    assert_eq!(
        scan("0 123 4.5 67.089").0,
        vec![
            token(number("0"), "0", 1),
            token(number("123"), "123", 1),
            token(number("4.5"), "4.5", 1),
            token(number("67.089"), "67.089", 1),
            token(TokenType::EndOfInput, "", 1),
        ]
    );
}

#[test]
fn a_dot_without_a_digit_after_it_is_no_part_of_a_number() {
    assert_eq!(kinds("1."), vec![number("1"), TokenType::Dot, TokenType::EndOfInput]);
    assert_eq!(kinds("1.x"), vec![number("1"), TokenType::Dot, TokenType::Identifier, TokenType::EndOfInput]);
    assert_eq!(kinds(".5"), vec![TokenType::Dot, number("5"), TokenType::EndOfInput]);
    assert_eq!(kinds("1.2.3"), vec![number("1.2"), TokenType::Dot, number("3"), TokenType::EndOfInput]);
}

#[test]
fn keywords() {
    assert_eq!(
        kinds("and class else false fun for if nil or print return super this true var while"),
        vec![
            TokenType::And,
            TokenType::Class,
            TokenType::Else,
            TokenType::False,
            TokenType::Fun,
            TokenType::For,
            TokenType::If,
            TokenType::Nil,
            TokenType::Or,
            TokenType::Print,
            TokenType::Return,
            TokenType::Super,
            TokenType::This,
            TokenType::True,
            TokenType::Var,
            TokenType::While,
            TokenType::EndOfInput,
        ]
    );
}

#[test]
fn identifiers() {
    assert_eq!(
        scan("x _y z1 andy And or_ _ if2").0,
        vec![
            token(TokenType::Identifier, "x", 1),
            token(TokenType::Identifier, "_y", 1),
            token(TokenType::Identifier, "z1", 1),
            token(TokenType::Identifier, "andy", 1),
            token(TokenType::Identifier, "And", 1),
            token(TokenType::Identifier, "or_", 1),
            token(TokenType::Identifier, "_", 1),
            token(TokenType::Identifier, "if2", 1),
            token(TokenType::EndOfInput, "", 1),
        ]
    );
}

#[test]
fn a_number_ends_before_a_letter() {
    assert_eq!(kinds("12ab"), vec![number("12"), TokenType::Identifier, TokenType::EndOfInput]);
}

#[test]
fn an_unexpected_character_is_reported_and_passed_over() {
    let (tokens, errors) = scan("a @ b\n# c");
    assert_eq!(errors, vec![ScannerError::UnexpectedCharacter(1), ScannerError::UnexpectedCharacter(2)]);
    assert_eq!(
        tokens,
        vec![
            token(TokenType::Identifier, "a", 1),
            token(TokenType::Identifier, "b", 1),
            token(TokenType::Identifier, "c", 2),
            token(TokenType::EndOfInput, "", 2),
        ]
    );
}

#[test]
fn a_letter_outside_ascii_is_unexpected() {
    let (tokens, errors) = scan("é = 1");
    assert_eq!(errors, vec![ScannerError::UnexpectedCharacter(1)]);
    assert_eq!(
        tokens,
        vec![token(TokenType::Equal, "=", 1), token(number("1"), "1", 1), token(TokenType::EndOfInput, "", 1)]
    );
}

#[test]
fn text_outside_ascii_in_a_string() {
    assert_eq!(
        scan("\"héllo → wörld\" x").0,
        vec![
            token(string("héllo → wörld"), "\"héllo → wörld\"", 1),
            token(TokenType::Identifier, "x", 1),
            token(TokenType::EndOfInput, "", 1),
        ]
    );
}

#[test]
fn diagnostics_come_in_the_order_of_the_text() {
    let (_, errors) = scan("@\n\n$ \"open");
    assert_eq!(
        errors,
        vec![
            ScannerError::UnexpectedCharacter(1),
            ScannerError::UnexpectedCharacter(3),
            ScannerError::UnterminatedString(3),
        ]
    );
}

#[test]
fn a_statement() {
    assert_eq!(
        scan("var answer = (4 + 2) * 7; // 42").0,
        vec![
            token(TokenType::Var, "var", 1),
            token(TokenType::Identifier, "answer", 1),
            token(TokenType::Equal, "=", 1),
            token(TokenType::LeftParen, "(", 1),
            token(number("4"), "4", 1),
            token(TokenType::Plus, "+", 1),
            token(number("2"), "2", 1),
            token(TokenType::RightParen, ")", 1),
            token(TokenType::Star, "*", 1),
            token(number("7"), "7", 1),
            token(TokenType::Semicolon, ";", 1),
            token(TokenType::EndOfInput, "", 1),
        ]
    );
}

#[test]
fn numerals() {
    for text in ["0", "7", "123", "1.5", "00.00", "12.345"] {
        assert!(is_numeral_text(text), "{}", format!("{text} is a numeral"));
    }
    for text in ["", ".", "1.", ".5", "1.2.3", "1e5", "-1", "1 ", "a", "1.a", "１"] {
        assert!(!is_numeral_text(text), "{}", format!("{text} is no numeral"));
    }
}

#[test]
fn every_number_literal_is_a_numeral() {
    let (tokens, _) = scan("1 2.5 3. .4 5.6.7 89abc 0.0");
    let mut count = 0;
    for t in tokens {
        if let TokenType::Number(n) = t.token_type {
            assert!(is_numeral_text(&n));
            assert_eq!(n, t.lexeme);
            count += 1;
        }
    }
    assert_eq!(count, 8);
}

#[test]
fn a_literal_carries_its_lexeme() {
    let (tokens, _) = scan("\"a\" \"\" \"two words\" 1 2.50 \"x\ny\"");
    let mut count = 0;
    for t in tokens {
        match t.token_type {
            TokenType::String(s) => {
                assert_eq!(t.lexeme, format!("\"{s}\""));
                count += 1;
            }
            TokenType::Number(n) => {
                assert_eq!(t.lexeme, n);
                count += 1;
            }
            TokenType::EndOfInput => assert_eq!(t.lexeme, ""),
            _ => assert!(!t.lexeme.is_empty()),
        }
    }
    assert_eq!(count, 6);
}

#[test]
fn a_token_is_on_the_line_of_its_last_character() {
    let source = "a\n\"b\nc\" d // e\n\n f";
    let (tokens, _) = scan(source);
    let lines: Vec<usize> = tokens.iter().map(|t| t.line).collect();
    assert_eq!(lines, vec![1, 3, 3, 5, 5]);
    assert_eq!(*lines.last().unwrap(), 1 + source.matches('\n').count());
}

#[test]
fn a_long_text() {
    let mut source = String::new();
    for i in 0..50000 {
        source.push_str(&format!("name{i} = {i}.5; // note\n"));
    }
    let (tokens, errors) = scan(&source);
    assert!(errors.is_empty());
    assert_eq!(tokens.len(), 4 * 50000 + 1);
    assert_eq!(tokens.last().unwrap(), &token(TokenType::EndOfInput, "", 50001));
}
