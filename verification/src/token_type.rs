//! The token kinds of the language front end. The machine itself never parses
//! text; this closed set only describes the boundary with a lexer, together
//! with each kind's display text and its stable numbering.

use vstd::prelude::*;

verus! {

/// One kind of lexical token.
#[allow(non_camel_case_types)]
#[derive(Clone, Copy, Debug, PartialEq, Eq, Structural)]
pub enum TokenType {
    LEFT_PAREN,
    RIGHT_PAREN,
    LEFT_BRACE,
    RIGHT_BRACE,
    COMMA,
    DOT,
    MINUS,
    PLUS,
    SEMICOLON,
    SLASH,
    STAR,
    BANG,
    BANG_EQUAL,
    EQUAL,
    EQUAL_EQUAL,
    GREATER,
    GREATER_EQUAL,
    LESS,
    LESS_EQUAL,
    AND,
    AND_AND,
    OR,
    OR_OR,
    IDENTIFIER,
    STRING,
    DOUBLE,
    CLASS,
    ELSE,
    FALSE,
    FN,
    FOR,
    IF,
    NULL,
    PRINT,
    RETURN,
    SUPER,
    THIS,
    TRUE,
    LET,
    WHILE,
    EOF,
}

/// The display text of each token kind.
pub open spec fn token_text(t: TokenType) -> Seq<char> {
    match t {
        TokenType::LET => "let"@,
        TokenType::WHILE => "while"@,
        TokenType::THIS => "this"@,
        TokenType::TRUE => "true"@,
        TokenType::RETURN => "return"@,
        TokenType::SUPER => "super"@,
        TokenType::NULL => "null"@,
        TokenType::PRINT => "print"@,
        TokenType::FALSE => "false"@,
        TokenType::FN => "fn"@,
        TokenType::FOR => "for"@,
        TokenType::IF => "if"@,
        TokenType::CLASS => "class"@,
        TokenType::ELSE => "else"@,
        TokenType::IDENTIFIER => "identifier"@,
        TokenType::STRING => "String"@,
        TokenType::DOUBLE => "double"@,
        TokenType::AND => "&"@,
        TokenType::OR => "|"@,
        TokenType::LESS => "<"@,
        TokenType::LESS_EQUAL => "<="@,
        TokenType::EQUAL => "="@,
        TokenType::EQUAL_EQUAL => "=="@,
        TokenType::GREATER => ">"@,
        TokenType::GREATER_EQUAL => ">="@,
        TokenType::BANG => "!"@,
        TokenType::BANG_EQUAL => "!="@,
        TokenType::SEMICOLON => ";"@,
        TokenType::SLASH => "/"@,
        TokenType::STAR => "*"@,
        TokenType::LEFT_PAREN => "("@,
        TokenType::RIGHT_PAREN => ")"@,
        TokenType::LEFT_BRACE => "{"@,
        TokenType::RIGHT_BRACE => "}"@,
        TokenType::COMMA => ","@,
        TokenType::DOT => "."@,
        TokenType::MINUS => "-"@,
        TokenType::PLUS => "+"@,
        TokenType::AND_AND => "&&"@,
        TokenType::OR_OR => "||"@,
        TokenType::EOF => "EOF"@,
    }
}

/// The stable number of each token kind.
pub open spec fn token_code(t: TokenType) -> u32 {
    match t {
        TokenType::LET => 0,
        TokenType::WHILE => 1,
        TokenType::THIS => 2,
        TokenType::TRUE => 3,
        TokenType::RETURN => 4,
        TokenType::SUPER => 5,
        TokenType::NULL => 6,
        TokenType::PRINT => 7,
        TokenType::FALSE => 8,
        TokenType::FN => 9,
        TokenType::FOR => 10,
        TokenType::IF => 11,
        TokenType::CLASS => 12,
        TokenType::ELSE => 13,
        TokenType::IDENTIFIER => 14,
        TokenType::STRING => 15,
        TokenType::DOUBLE => 16,
        TokenType::AND => 17,
        TokenType::OR => 18,
        TokenType::LESS => 19,
        TokenType::LESS_EQUAL => 20,
        TokenType::EQUAL => 21,
        TokenType::EQUAL_EQUAL => 22,
        TokenType::GREATER => 23,
        TokenType::GREATER_EQUAL => 24,
        TokenType::BANG => 25,
        TokenType::BANG_EQUAL => 26,
        TokenType::SEMICOLON => 27,
        TokenType::SLASH => 28,
        TokenType::STAR => 29,
        TokenType::LEFT_PAREN => 30,
        TokenType::RIGHT_PAREN => 31,
        TokenType::LEFT_BRACE => 32,
        TokenType::RIGHT_BRACE => 33,
        TokenType::COMMA => 34,
        TokenType::DOT => 35,
        TokenType::MINUS => 36,
        TokenType::PLUS => 37,
        TokenType::AND_AND => 38,
        TokenType::OR_OR => 39,
        TokenType::EOF => 40,
    }
}

impl TokenType {
    /// The display text of this token kind.
    pub fn to_string(&self) -> (r: String)
        ensures
            r@ == token_text(*self),
    {
        match self {
            TokenType::LET => String::from_str("let"),
            TokenType::WHILE => String::from_str("while"),
            TokenType::THIS => String::from_str("this"),
            TokenType::TRUE => String::from_str("true"),
            TokenType::RETURN => String::from_str("return"),
            TokenType::SUPER => String::from_str("super"),
            TokenType::NULL => String::from_str("null"),
            TokenType::PRINT => String::from_str("print"),
            TokenType::FALSE => String::from_str("false"),
            TokenType::FN => String::from_str("fn"),
            TokenType::FOR => String::from_str("for"),
            TokenType::IF => String::from_str("if"),
            TokenType::CLASS => String::from_str("class"),
            TokenType::ELSE => String::from_str("else"),
            TokenType::IDENTIFIER => String::from_str("identifier"),
            TokenType::STRING => String::from_str("String"),
            TokenType::DOUBLE => String::from_str("double"),
            TokenType::AND => String::from_str("&"),
            TokenType::OR => String::from_str("|"),
            TokenType::LESS => String::from_str("<"),
            TokenType::LESS_EQUAL => String::from_str("<="),
            TokenType::EQUAL => String::from_str("="),
            TokenType::EQUAL_EQUAL => String::from_str("=="),
            TokenType::GREATER => String::from_str(">"),
            TokenType::GREATER_EQUAL => String::from_str(">="),
            TokenType::BANG => String::from_str("!"),
            TokenType::BANG_EQUAL => String::from_str("!="),
            TokenType::SEMICOLON => String::from_str(";"),
            TokenType::SLASH => String::from_str("/"),
            TokenType::STAR => String::from_str("*"),
            TokenType::LEFT_PAREN => String::from_str("("),
            TokenType::RIGHT_PAREN => String::from_str(")"),
            TokenType::LEFT_BRACE => String::from_str("{"),
            TokenType::RIGHT_BRACE => String::from_str("}"),
            TokenType::COMMA => String::from_str(","),
            TokenType::DOT => String::from_str("."),
            TokenType::MINUS => String::from_str("-"),
            TokenType::PLUS => String::from_str("+"),
            TokenType::AND_AND => String::from_str("&&"),
            TokenType::OR_OR => String::from_str("||"),
            TokenType::EOF => String::from_str("EOF"),
        }
    }

    /// The stable number of this token kind.
    pub fn to_u32(&self) -> (r: u32)
        ensures
            r == token_code(*self),
    {
        match self {
            TokenType::LET => 0,
            TokenType::WHILE => 1,
            TokenType::THIS => 2,
            TokenType::TRUE => 3,
            TokenType::RETURN => 4,
            TokenType::SUPER => 5,
            TokenType::NULL => 6,
            TokenType::PRINT => 7,
            TokenType::FALSE => 8,
            TokenType::FN => 9,
            TokenType::FOR => 10,
            TokenType::IF => 11,
            TokenType::CLASS => 12,
            TokenType::ELSE => 13,
            TokenType::IDENTIFIER => 14,
            TokenType::STRING => 15,
            TokenType::DOUBLE => 16,
            TokenType::AND => 17,
            TokenType::OR => 18,
            TokenType::LESS => 19,
            TokenType::LESS_EQUAL => 20,
            TokenType::EQUAL => 21,
            TokenType::EQUAL_EQUAL => 22,
            TokenType::GREATER => 23,
            TokenType::GREATER_EQUAL => 24,
            TokenType::BANG => 25,
            TokenType::BANG_EQUAL => 26,
            TokenType::SEMICOLON => 27,
            TokenType::SLASH => 28,
            TokenType::STAR => 29,
            TokenType::LEFT_PAREN => 30,
            TokenType::RIGHT_PAREN => 31,
            TokenType::LEFT_BRACE => 32,
            TokenType::RIGHT_BRACE => 33,
            TokenType::COMMA => 34,
            TokenType::DOT => 35,
            TokenType::MINUS => 36,
            TokenType::PLUS => 37,
            TokenType::AND_AND => 38,
            TokenType::OR_OR => 39,
            TokenType::EOF => 40,
        }
    }
}

} // verus!
