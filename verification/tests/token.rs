use rlox::token::{Token, TokenType};

#[test]
fn a_token_gives_back_what_it_was_made_of() {
    let t = Token::new(TokenType::String("a b".to_string()), "\"a b\"".to_string(), 7);
    assert_eq!(t.token_type(), TokenType::String("a b".to_string()));
    assert_eq!(t.lexeme(), "\"a b\"");
    assert_eq!(t.line(), 7);
    assert_eq!(t.clone(), t);
}

#[test]
fn kinds_are_compared_without_what_a_literal_carries() {
    let a = TokenType::String("a".to_string());
    let b = TokenType::String("b".to_string());
    let one = TokenType::Number("1".to_string());
    let two = TokenType::Number("2".to_string());
    assert!(a.same_kind(&b));
    assert!(one.same_kind(&two));
    assert!(!a.same_kind(&one));
    assert!(!one.same_kind(&TokenType::Identifier));
    assert!(TokenType::Plus.same_kind(&TokenType::Plus));
    assert!(!TokenType::Plus.same_kind(&TokenType::Minus));
    assert!(TokenType::EndOfInput.same_kind(&TokenType::EndOfInput));
    assert!(!TokenType::Bang.same_kind(&TokenType::BangEqual));
}

#[test]
fn a_kind_is_described_by_its_name() {
    assert_eq!(TokenType::LeftParen.describe(), "LeftParen");
    assert_eq!(TokenType::BangEqual.describe(), "BangEqual");
    assert_eq!(TokenType::While.describe(), "While");
    assert_eq!(TokenType::EndOfInput.describe(), "EndOfInput");
    assert_eq!(TokenType::Identifier.describe(), "Identifier");
    assert_eq!(TokenType::String("a b".to_string()).describe(), "String(a b)");
    assert_eq!(TokenType::Number("1.50".to_string()).describe(), "Number(1.50)");
}

#[test]
fn a_clone_of_a_kind_is_equal_to_it() {
    for kind in [
        TokenType::Comma,
        TokenType::Nil,
        TokenType::String("text".to_string()),
        TokenType::Number("12".to_string()),
        TokenType::EndOfInput,
    ] {
        assert_eq!(kind.clone(), kind);
    }
}
