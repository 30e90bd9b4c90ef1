//! The tokens of the language.

use vstd::prelude::*;

verus! {

/// A list of tokens, as the lexer gives it to the parser.
pub type Tokens = Vec<Token>;

/// A token. `Illegal` stands for text that is no token of the language, and
/// `EOF` for the end of the text.
#[derive(Eq, PartialEq, Debug)]
pub enum Token {
    Illegal,
    EOF,
    Ident(String),
    IntLiteral(i64),
    BooleanLiteral(bool),
    StringLiteral(String),
    Assign,
    Plus,
    Minus,
    Divide,
    Multiply,
    Not,
    Less,
    Greater,
    LessEqual,
    GreaterEqual,
    Equal,
    NotEqual,
    Comma,
    SemiColon,
    LParen,
    RParen,
    LBrace,
    RBrace,
    Function,
    Let,
    If,
    Else,
    While,
    For,
    Return,
}

/// Mathematical model of a [`Token`].
pub enum TokenView {
    Illegal,
    EOF,
    Ident(Seq<char>),
    IntLiteral(i64),
    BooleanLiteral(bool),
    StringLiteral(Seq<char>),
    Assign,
    Plus,
    Minus,
    Divide,
    Multiply,
    Not,
    Less,
    Greater,
    LessEqual,
    GreaterEqual,
    Equal,
    NotEqual,
    Comma,
    SemiColon,
    LParen,
    RParen,
    LBrace,
    RBrace,
    Function,
    Let,
    If,
    Else,
    While,
    For,
    Return,
}

impl View for Token {
    type V = TokenView;

    open spec fn view(&self) -> TokenView {
        match self {
            Token::Illegal => TokenView::Illegal,
            Token::EOF => TokenView::EOF,
            Token::Ident(s) => TokenView::Ident(s@),
            Token::IntLiteral(i) => TokenView::IntLiteral(*i),
            Token::BooleanLiteral(b) => TokenView::BooleanLiteral(*b),
            Token::StringLiteral(s) => TokenView::StringLiteral(s@),
            Token::Assign => TokenView::Assign,
            Token::Plus => TokenView::Plus,
            Token::Minus => TokenView::Minus,
            Token::Divide => TokenView::Divide,
            Token::Multiply => TokenView::Multiply,
            Token::Not => TokenView::Not,
            Token::Less => TokenView::Less,
            Token::Greater => TokenView::Greater,
            Token::LessEqual => TokenView::LessEqual,
            Token::GreaterEqual => TokenView::GreaterEqual,
            Token::Equal => TokenView::Equal,
            Token::NotEqual => TokenView::NotEqual,
            Token::Comma => TokenView::Comma,
            Token::SemiColon => TokenView::SemiColon,
            Token::LParen => TokenView::LParen,
            Token::RParen => TokenView::RParen,
            Token::LBrace => TokenView::LBrace,
            Token::RBrace => TokenView::RBrace,
            Token::Function => TokenView::Function,
            Token::Let => TokenView::Let,
            Token::If => TokenView::If,
            Token::Else => TokenView::Else,
            Token::While => TokenView::While,
            Token::For => TokenView::For,
            Token::Return => TokenView::Return,
        }
    }
}

/// The model of a list of tokens, one by one.
pub open spec fn tokens_view(tokens: Seq<Token>) -> Seq<TokenView> {
    Seq::new(tokens.len(), |i: int| tokens[i]@)
}

impl Clone for Token {
    fn clone(&self) -> (r: Token)
        ensures
            r@ == self@,
    {
        match self {
            Token::Illegal => Token::Illegal,
            Token::EOF => Token::EOF,
            Token::Ident(s) => Token::Ident(s.clone()),
            Token::IntLiteral(i) => Token::IntLiteral(*i),
            Token::BooleanLiteral(b) => Token::BooleanLiteral(*b),
            Token::StringLiteral(s) => Token::StringLiteral(s.clone()),
            Token::Assign => Token::Assign,
            Token::Plus => Token::Plus,
            Token::Minus => Token::Minus,
            Token::Divide => Token::Divide,
            Token::Multiply => Token::Multiply,
            Token::Not => Token::Not,
            Token::Less => Token::Less,
            Token::Greater => Token::Greater,
            Token::LessEqual => Token::LessEqual,
            Token::GreaterEqual => Token::GreaterEqual,
            Token::Equal => Token::Equal,
            Token::NotEqual => Token::NotEqual,
            Token::Comma => Token::Comma,
            Token::SemiColon => Token::SemiColon,
            Token::LParen => Token::LParen,
            Token::RParen => Token::RParen,
            Token::LBrace => Token::LBrace,
            Token::RBrace => Token::RBrace,
            Token::Function => Token::Function,
            Token::Let => Token::Let,
            Token::If => Token::If,
            Token::Else => Token::Else,
            Token::While => Token::While,
            Token::For => Token::For,
            Token::Return => Token::Return,
        }
    }
}

} // verus!
