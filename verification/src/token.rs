//! Tokens, as a lexer hands them to the parser.
use vstd::prelude::*;

verus! {

/// One lexical unit.
///
/// A number literal carries the IEEE 754 binary64 bit pattern of its value, so
/// that two tokens are the same number exactly when their payloads are equal.
#[derive(Debug, Clone, PartialEq)]
pub enum Token {
    LeftParen,
    RightParen,
    LeftBrace,
    RightBrace,
    Comma,
    Dot,
    Minus,
    Plus,
    Semicolon,
    Slash,
    Star,
    Bang,
    BangEqual,
    Equal,
    EqualEqual,
    Greater,
    GreaterEqual,
    Less,
    LessEqual,
    Identifier(String),
    StringLiteral(String),
    NumberLiteral(u64),
    And,
    Class,
    Else,
    False,
    Fun,
    For,
    If,
    Nil,
    Or,
    Print,
    Return,
    Super,
    This,
    True,
    Var,
    While,
}

/// What a [`Token`] is in specifications: the same tags, with text as a
/// sequence of characters.
pub enum Lexeme {
    LeftParen,
    RightParen,
    LeftBrace,
    RightBrace,
    Comma,
    Dot,
    Minus,
    Plus,
    Semicolon,
    Slash,
    Star,
    Bang,
    BangEqual,
    Equal,
    EqualEqual,
    Greater,
    GreaterEqual,
    Less,
    LessEqual,
    Identifier(Seq<char>),
    StringLiteral(Seq<char>),
    NumberLiteral(u64),
    And,
    Class,
    Else,
    False,
    Fun,
    For,
    If,
    Nil,
    Or,
    Print,
    Return,
    Super,
    This,
    True,
    Var,
    While,
}

impl View for Token {
    type V = Lexeme;

    open spec fn view(&self) -> Lexeme {
        match self {
            Token::LeftParen => Lexeme::LeftParen,
            Token::RightParen => Lexeme::RightParen,
            Token::LeftBrace => Lexeme::LeftBrace,
            Token::RightBrace => Lexeme::RightBrace,
            Token::Comma => Lexeme::Comma,
            Token::Dot => Lexeme::Dot,
            Token::Minus => Lexeme::Minus,
            Token::Plus => Lexeme::Plus,
            Token::Semicolon => Lexeme::Semicolon,
            Token::Slash => Lexeme::Slash,
            Token::Star => Lexeme::Star,
            Token::Bang => Lexeme::Bang,
            Token::BangEqual => Lexeme::BangEqual,
            Token::Equal => Lexeme::Equal,
            Token::EqualEqual => Lexeme::EqualEqual,
            Token::Greater => Lexeme::Greater,
            Token::GreaterEqual => Lexeme::GreaterEqual,
            Token::Less => Lexeme::Less,
            Token::LessEqual => Lexeme::LessEqual,
            Token::Identifier(name) => Lexeme::Identifier(name@),
            Token::StringLiteral(text) => Lexeme::StringLiteral(text@),
            Token::NumberLiteral(bits) => Lexeme::NumberLiteral(*bits),
            Token::And => Lexeme::And,
            Token::Class => Lexeme::Class,
            Token::Else => Lexeme::Else,
            Token::False => Lexeme::False,
            Token::Fun => Lexeme::Fun,
            Token::For => Lexeme::For,
            Token::If => Lexeme::If,
            Token::Nil => Lexeme::Nil,
            Token::Or => Lexeme::Or,
            Token::Print => Lexeme::Print,
            Token::Return => Lexeme::Return,
            Token::Super => Lexeme::Super,
            Token::This => Lexeme::This,
            Token::True => Lexeme::True,
            Token::Var => Lexeme::Var,
            Token::While => Lexeme::While,
        }
    }
}

/// A token together with the place in the source text where it began.
///
/// The parser reads the token only; the place is carried for whoever reports
/// a failure.
#[derive(Debug, Clone, PartialEq)]
pub struct TokenWithContext {
    pub token: Token,
    pub line: usize,
    pub column: usize,
}

/// The lexemes of a token sequence, in order.
pub open spec fn lexemes(tokens: Seq<TokenWithContext>) -> Seq<Lexeme> {
    Seq::new(tokens.len(), |i: int| tokens[i].token@)
}

} // verus!
