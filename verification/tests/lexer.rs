use drop_lib::lexer::token::Token;
use drop_lib::lexer::Lexer;

#[test]
fn test_lexer_1() {
    let s = String::from("\
        fn main() {
            if a == 10 {\
                return a;\
            } else if a != 20 {\
                return !a;\
            } else if a > 20 {\
                return (-30 + 40) * 50;\
            } else if a < 30 {\
                return true;\
            }\
            let x = \"hello world!\";\
            print(x);\
            return false;\
        }\
        ");
    let result = Lexer::lex_tokens(s.as_str());
    let expected_result = vec![
        Token::Function,
        Token::Ident("main".to_owned()),
        Token::LParen,
        Token::RParen,
        Token::LBrace,
        Token::If,
        Token::Ident("a".to_owned()),
        Token::Equal,
        Token::IntLiteral(10),
        Token::LBrace,
        Token::Return,
        Token::Ident("a".to_owned()),
        Token::SemiColon,
        Token::RBrace,
        Token::Else,
        Token::If,
        Token::Ident("a".to_owned()),
        Token::NotEqual,
        Token::IntLiteral(20),
        Token::LBrace,
        Token::Return,
        Token::Not,
        Token::Ident("a".to_owned()),
        Token::SemiColon,
        Token::RBrace,
        Token::Else,
        Token::If,
        Token::Ident("a".to_owned()),
        Token::Greater,
        Token::IntLiteral(20),
        Token::LBrace,
        Token::Return,
        Token::LParen,
        Token::Minus,
        Token::IntLiteral(30),
        Token::Plus,
        Token::IntLiteral(40),
        Token::RParen,
        Token::Multiply,
        Token::IntLiteral(50),
        Token::SemiColon,
        Token::RBrace,
        Token::Else,
        Token::If,
        Token::Ident("a".to_owned()),
        Token::Less,
        Token::IntLiteral(30),
        Token::LBrace,
        Token::Return,
        Token::BooleanLiteral(true),
        Token::SemiColon,
        Token::RBrace,
        Token::Let,
        Token::Ident("x".to_owned()),
        Token::Assign,
        Token::StringLiteral("hello world!".to_owned()),
        Token::SemiColon,
        Token::Ident("print".to_owned()),
        Token::LParen,
        Token::Ident("x".to_owned()),
        Token::RParen,
        Token::SemiColon,
        Token::Return,
        Token::BooleanLiteral(false),
        Token::SemiColon,
        Token::RBrace,
        Token::EOF,
    ];
    assert_eq!(result, expected_result);
}
