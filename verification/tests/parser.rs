use drop_lib::lexer::token::Token;
use drop_lib::parser::Parser;

#[test]
fn test_parser_1() {
    let tokens = vec![
        Token::If,
        Token::Ident("a".to_owned()),
        Token::Equal,
        Token::IntLiteral(10),
        Token::LBrace,
        Token::Return,
        Token::Ident("a".to_owned()),
        Token::SemiColon,
        Token::RBrace,
        Token::Else,
        Token::If,
        Token::Ident("a".to_owned()),
        Token::NotEqual,
        Token::IntLiteral(20),
        Token::LBrace,
        Token::Return,
        Token::Not,
        Token::Ident("a".to_owned()),
        Token::SemiColon,
        Token::RBrace,
        Token::Else,
        Token::If,
        Token::Ident("a".to_owned()),
        Token::Greater,
        Token::IntLiteral(20),
        Token::LBrace,
        Token::Return,
        Token::LParen,
        Token::Minus,
        Token::IntLiteral(30),
        Token::Plus,
        Token::IntLiteral(40),
        Token::RParen,
        Token::Multiply,
        Token::IntLiteral(50),
        Token::SemiColon,
        Token::RBrace,
        Token::Else,
        Token::If,
        Token::Ident("a".to_owned()),
        Token::Less,
        Token::IntLiteral(30),
        Token::LBrace,
        Token::Return,
        Token::BooleanLiteral(true),
        Token::SemiColon,
        Token::RBrace,
        Token::Let,
        Token::Ident("x".to_owned()),
        Token::Assign,
        Token::StringLiteral("hello world!".to_owned()),
        Token::SemiColon,
        Token::Ident("print".to_owned()),
        Token::LParen,
        Token::Ident("x".to_owned()),
        Token::RParen,
        Token::SemiColon,
        Token::Return,
        Token::BooleanLiteral(false),
        Token::SemiColon,
        Token::EOF,
    ];
    let mut parser = Parser::new(&tokens);
    let result = parser.parse();
    for err in parser.errors.iter() {
        println!("{:?}", err);
    }
    assert_eq!(parser.errors.len(), 0);
    for stmt in result.iter() {
        println!("{:?}", stmt);
    }
}
