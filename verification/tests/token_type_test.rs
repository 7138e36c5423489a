use tlang::token_type::TokenType;

#[test]
fn eq_test() {
    assert_eq!(TokenType::AND, TokenType::AND);
    assert_ne!(TokenType::AND, TokenType::SEMICOLON);
}

#[test]
fn token_text_test() {
    assert_eq!(TokenType::LET.to_string(), "let");
    assert_eq!(TokenType::EQUAL_EQUAL.to_string(), "==");
    assert_eq!(TokenType::STRING.to_string(), "String");
    assert_eq!(TokenType::EOF.to_string(), "EOF");
}

#[test]
fn token_code_test() {
    assert_eq!(TokenType::LET.to_u32(), 0);
    assert_eq!(TokenType::SEMICOLON.to_u32(), 27);
    assert_eq!(TokenType::EOF.to_u32(), 40);
    assert_eq!(TokenType::AND.to_u32(), TokenType::AND.to_u32());
}
