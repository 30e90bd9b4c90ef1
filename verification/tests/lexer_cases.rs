use drop_lib::lexer::cursor::{chars_of, Cursor};
use drop_lib::lexer::token::Token;
use drop_lib::lexer::{continues_word, starts_word, Lexer};

fn id(s: &str) -> Token {
    Token::Ident(s.to_string())
}

#[test]
fn empty_text_is_one_eof() {
    assert_eq!(Lexer::lex_tokens(""), vec![Token::EOF]);
    assert_eq!(Lexer::lex_tokens(" \t\r\n\x0C "), vec![Token::EOF]);
}

#[test]
fn keywords_and_booleans() {
    assert_eq!(
        Lexer::lex_tokens("fn let return if else while for true false"),
        vec![
            Token::Function,
            Token::Let,
            Token::Return,
            Token::If,
            Token::Else,
            Token::While,
            Token::For,
            Token::BooleanLiteral(true),
            Token::BooleanLiteral(false),
            Token::EOF,
        ]
    );
}

#[test]
fn words_that_only_begin_like_keywords() {
    assert_eq!(
        Lexer::lex_tokens("fna iff lets truex _ _a1 b_2 x9"),
        vec![id("fna"), id("iff"), id("lets"), id("truex"), id("_"), id("_a1"), id("b_2"), id("x9"), Token::EOF]
    );
}

#[test]
fn words_in_other_alphabets() {
    assert_eq!(Lexer::lex_tokens("\u{e9}t\u{e9} \u{3b1}1"), vec![id("\u{e9}t\u{e9}"), id("\u{3b1}1"), Token::EOF]);
    // a character that is neither alphabetic nor part of the language
    assert_eq!(Lexer::lex_tokens("a\u{2603}b"), vec![id("a"), Token::Illegal, id("b"), Token::EOF]);
}

#[test]
fn punctuation() {
    assert_eq!(
        Lexer::lex_tokens(";,(){}+-/*"),
        vec![
            Token::SemiColon,
            Token::Comma,
            Token::LParen,
            Token::RParen,
            Token::LBrace,
            Token::RBrace,
            Token::Plus,
            Token::Minus,
            Token::Divide,
            Token::Multiply,
            Token::EOF,
        ]
    );
}

#[test]
fn operators_with_and_without_equals() {
    assert_eq!(
        Lexer::lex_tokens("= == ! != < <= > >="),
        vec![
            Token::Assign,
            Token::Equal,
            Token::Not,
            Token::NotEqual,
            Token::Less,
            Token::LessEqual,
            Token::Greater,
            Token::GreaterEqual,
            Token::EOF,
        ]
    );
    assert_eq!(Lexer::lex_tokens("==="), vec![Token::Equal, Token::Assign, Token::EOF]);
    assert_eq!(Lexer::lex_tokens("<=="), vec![Token::LessEqual, Token::Assign, Token::EOF]);
    assert_eq!(Lexer::lex_tokens("!"), vec![Token::Not, Token::EOF]);
    assert_eq!(Lexer::lex_tokens("< ="), vec![Token::Less, Token::Assign, Token::EOF]);
}

#[test]
fn integers() {
    assert_eq!(
        Lexer::lex_tokens("0 007 42 9223372036854775807"),
        vec![
            Token::IntLiteral(0),
            Token::IntLiteral(7),
            Token::IntLiteral(42),
            Token::IntLiteral(9223372036854775807),
            Token::EOF,
        ]
    );
}

#[test]
fn integer_beyond_the_range_is_illegal() {
    assert_eq!(Lexer::lex_tokens("9223372036854775808"), vec![Token::Illegal, Token::EOF]);
    assert_eq!(
        Lexer::lex_tokens("99999999999999999999999999999999 1"),
        vec![Token::Illegal, Token::IntLiteral(1), Token::EOF]
    );
    assert_eq!(Lexer::lex_tokens("18446744073709551616"), vec![Token::Illegal, Token::EOF]);
    assert_eq!(Lexer::lex_tokens("92233720368547758070"), vec![Token::Illegal, Token::EOF]);
}

#[test]
fn digits_then_letters() {
    assert_eq!(Lexer::lex_tokens("1a"), vec![Token::IntLiteral(1), id("a"), Token::EOF]);
    assert_eq!(Lexer::lex_tokens("-5"), vec![Token::Minus, Token::IntLiteral(5), Token::EOF]);
}

#[test]
fn string_literals() {
    assert_eq!(
        Lexer::lex_tokens("\"abc\" \"\" \"a b;\""),
        vec![
            Token::StringLiteral("abc".to_string()),
            Token::StringLiteral("".to_string()),
            Token::StringLiteral("a b;".to_string()),
            Token::EOF,
        ]
    );
}

#[test]
fn string_cut_by_a_line_end_is_illegal() {
    assert_eq!(Lexer::lex_tokens("\"ab\ncd"), vec![Token::Illegal, id("cd"), Token::EOF]);
    assert_eq!(Lexer::lex_tokens("\"ab\rcd"), vec![Token::Illegal, id("cd"), Token::EOF]);
    assert_eq!(
        Lexer::lex_tokens("\"ab\ncd\""),
        vec![Token::Illegal, id("cd"), Token::Illegal, Token::EOF]
    );
}

#[test]
fn string_cut_by_the_end_of_text_is_illegal() {
    assert_eq!(Lexer::lex_tokens("\"abc"), vec![Token::Illegal, Token::EOF]);
    assert_eq!(Lexer::lex_tokens("x \""), vec![id("x"), Token::Illegal, Token::EOF]);
}

#[test]
fn characters_outside_the_language_are_illegal() {
    assert_eq!(Lexer::lex_tokens("a @ b"), vec![id("a"), Token::Illegal, id("b"), Token::EOF]);
    assert_eq!(Lexer::lex_tokens("#"), vec![Token::Illegal, Token::EOF]);
}

#[test]
fn one_token_at_a_time() {
    let mut cursor = Cursor::new("let x=10;");
    assert_eq!(Lexer::lex_token(&mut cursor), Token::Let);
    assert_eq!(cursor.peek_first(), Some(' '));
    // white space is no token
    assert_eq!(Lexer::lex_token(&mut cursor), Token::Illegal);
    assert_eq!(Lexer::lex_token(&mut cursor), id("x"));
    assert_eq!(Lexer::lex_token(&mut cursor), Token::Assign);
    assert_eq!(Lexer::lex_token(&mut cursor), Token::IntLiteral(10));
    assert_eq!(Lexer::lex_token(&mut cursor), Token::SemiColon);
    assert_eq!(Lexer::lex_token(&mut cursor), Token::EOF);
    assert_eq!(Lexer::lex_token(&mut cursor), Token::EOF);
}

#[test]
fn cursor_walks_the_characters() {
    let mut cursor = Cursor::new("a\u{e9}c");
    assert_eq!(cursor.peek_first(), Some('a'));
    assert_eq!(cursor.peak_second(), Some('\u{e9}'));
    assert_eq!(cursor.next(), Some('a'));
    assert_eq!(cursor.peek_first(), Some('\u{e9}'));
    assert_eq!(cursor.peak_second(), Some('c'));
    assert_eq!(cursor.next(), Some('\u{e9}'));
    assert_eq!(cursor.peek_first(), Some('c'));
    assert_eq!(cursor.peak_second(), None);
    assert_eq!(cursor.next(), Some('c'));
    assert_eq!(cursor.peek_first(), None);
    assert_eq!(cursor.peak_second(), None);
    assert_eq!(cursor.next(), None);
    assert_eq!(cursor.next(), None);
}

#[test]
fn cursor_on_empty_text() {
    let mut cursor = Cursor::new("");
    assert_eq!(cursor.peek_first(), None);
    assert_eq!(cursor.peak_second(), None);
    assert_eq!(cursor.next(), None);
}

#[test]
fn characters_of_a_text() {
    assert_eq!(chars_of(""), Vec::<char>::new());
    assert_eq!(chars_of("a\u{e9}\u{2603}"), vec!['a', '\u{e9}', '\u{2603}']);
}

#[test]
fn token_copies_are_equal() {
    for t in [id("abc"), Token::StringLiteral("s".to_string()), Token::IntLiteral(-3), Token::While, Token::EOF] {
        assert_eq!(t.clone(), t);
    }
}

#[test]
fn characters_of_words() {
    assert!(starts_word('a', true));
    assert!(starts_word('_', false));
    assert!(!starts_word('1', false));
    assert!(!starts_word('-', false));
    assert!(continues_word('a', true));
    assert!(continues_word('_', false));
    assert!(continues_word('0', false));
    assert!(continues_word('9', false));
    assert!(!continues_word('/', false));
    assert!(!continues_word(':', false));
    assert!(!continues_word(' ', false));
}
