//! The lexer: from text to tokens.

pub mod cursor;
pub mod laws;
pub mod model;
pub mod token;

use vstd::prelude::*;
use crate::lexer::cursor::Cursor;
use crate::lexer::model::{
    digits_value, is_text_part, is_word_part, lex_token_spec, lex_tokens_spec, number_token,
    pair_token, run_len, string_token, word_token,
};
use crate::lexer::token::{tokens_view, Token, TokenView, Tokens};
use crate::text::is_digit;

verus! {

/// The lexer. It holds no state: its functions work on the text they are
/// given.
pub struct Lexer;

/// Whether a word can begin with `c`, where `letter` tells whether `c` is
/// alphabetic.
pub fn starts_word(c: char, letter: bool) -> (r: bool)
    ensures
        r == (letter || c == '_'),
{
    letter || c == '_'
}

/// Whether a word can go on with `c`, where `letter` tells whether `c` is
/// alphabetic.
pub fn continues_word(c: char, letter: bool) -> (r: bool)
    ensures
        r == (letter || is_digit(c) || c == '_'),
{
    letter || (c >= '0' && c <= '9') || c == '_'
}

/// Whether `word` spells `literal`.
fn spells(word: &String, literal: &str) -> (r: bool)
    ensures
        r == (word@ == literal@),
{
    let other = literal.to_owned();
    *word == other
}

/// The token of a word.
fn classify_word(word: String) -> (r: Token)
    ensures
        r@ == word_token(word@),
{
    if spells(&word, "fn") {
        Token::Function
    } else if spells(&word, "let") {
        Token::Let
    } else if spells(&word, "return") {
        Token::Return
    } else if spells(&word, "if") {
        Token::If
    } else if spells(&word, "else") {
        Token::Else
    } else if spells(&word, "while") {
        Token::While
    } else if spells(&word, "for") {
        Token::For
    } else if spells(&word, "true") {
        Token::BooleanLiteral(true)
    } else if spells(&word, "false") {
        Token::BooleanLiteral(false)
    } else {
        Token::Ident(word)
    }
}

/// Lexes an operator that may be followed by `=`.
fn lex_pair(input: &mut Cursor, single: Token, double: Token) -> (r: Token)
    ensures
        r@ == pair_token(old(input)@, single@, double@).0,
        final(input)@ == old(input)@.subrange(
            pair_token(old(input)@, single@, double@).1 - 1,
            old(input)@.len() as int,
        ),
{
    match input.peek_first() {
        Some('=') => {
            let _ = input.next();
            assert(input@ =~= old(input)@.subrange(1, old(input)@.len() as int));
            double
        },
        _ => {
            assert(input@ =~= old(input)@.subrange(0, old(input)@.len() as int));
            single
        },
    }
}

/// Lexes a string literal whose opening quote has been taken.
fn lex_string(input: &mut Cursor) -> (r: Token)
    ensures
        r@ == string_token(old(input)@).0,
        string_token(old(input)@).1 - 1 <= old(input)@.len(),
        final(input)@ == old(input)@.subrange(
            string_token(old(input)@).1 - 1,
            old(input)@.len() as int,
        ),
{
    let ghost start = input@;
    let ghost p = |c: char| is_text_part(c);
    let ghost mut k: int = 0;
    let mut s = String::new();
    proof {
        assert(start.subrange(0, start.len() as int) =~= start);
        assert(start.subrange(0, 0) =~= Seq::<char>::empty());
    }
    loop
        invariant
            0 <= k <= start.len(),
            start == old(input)@,
            p == (|c: char| is_text_part(c)),
            s@ == start.subrange(0, k),
            input@ == start.subrange(k, start.len() as int),
            run_len(start, p) == k + run_len(input@, p),
        decreases input@.len(),
    {
        let ghost here = input@;
        match input.peek_first() {
            Some(ch) => {
                if ch == '\n' || ch == '\r' {
                    let _ = input.next();
                    proof {
                        assert(!p(here[0]));
                        assert(input@ =~= start.subrange(k + 1, start.len() as int));
                    }
                    return Token::Illegal;
                } else if ch == '"' {
                    let _ = input.next();
                    proof {
                        assert(!p(here[0]));
                        assert(input@ =~= start.subrange(k + 1, start.len() as int));
                    }
                    return Token::StringLiteral(s);
                } else {
                    let _ = input.next();
                    s.push(ch);
                    proof {
                        assert(p(here[0]));
                        assert(input@ =~= start.subrange(k + 1, start.len() as int));
                        assert(s@ =~= start.subrange(0, k + 1));
                        k = k + 1;
                    }
                }
            },
            None => {
                let _ = input.next();
                proof {
                    assert(input@ =~= start.subrange(k, start.len() as int));
                }
                return Token::Illegal;
            },
        }
    }
}

/// Lexes a word whose first character `first` has been taken.
fn lex_word(input: &mut Cursor, first: char) -> (r: Token)
    ensures
        ({
            let n = run_len(old(input)@, |c: char| is_word_part(c));
            &&& n <= old(input)@.len()
            &&& r@ == word_token(seq![first] + old(input)@.subrange(0, n as int))
            &&& final(input)@ == old(input)@.subrange(n as int, old(input)@.len() as int)
        }),
{
    let ghost start = input@;
    let ghost p = |c: char| is_word_part(c);
    let ghost mut k: int = 0;
    let mut s = String::new();
    s.push(first);
    proof {
        assert(start.subrange(0, start.len() as int) =~= start);
        assert(s@ =~= seq![first] + start.subrange(0, 0));
    }
    loop
        invariant
            0 <= k <= start.len(),
            start == old(input)@,
            p == (|c: char| is_word_part(c)),
            s@ == seq![first] + start.subrange(0, k),
            input@ == start.subrange(k, start.len() as int),
            run_len(start, p) == k + run_len(input@, p),
        ensures
            0 <= k <= start.len(),
            s@ == seq![first] + start.subrange(0, k),
            input@ == start.subrange(k, start.len() as int),
            run_len(start, p) == k,
        decreases input@.len(),
    {
        let ghost here = input@;
        match input.peek_first() {
            Some(ch) => {
                if continues_word(ch, ch.is_alphabetic()) {
                    let _ = input.next();
                    s.push(ch);
                    proof {
                        assert(p(here[0]));
                        assert(input@ =~= start.subrange(k + 1, start.len() as int));
                        assert(s@ =~= seq![first] + start.subrange(0, k + 1));
                        k = k + 1;
                    }
                } else {
                    assert(!p(here[0]));
                    break ;
                }
            },
            None => {
                break ;
            },
        }
    }
    classify_word(s)
}

/// Lexes a number whose first digit `first` has been taken.
fn lex_number(input: &mut Cursor, first: char) -> (r: Token)
    requires
        is_digit(first),
    ensures
        ({
            let n = run_len(old(input)@, |c: char| is_digit(c));
            &&& n <= old(input)@.len()
            &&& r@ == number_token(seq![first] + old(input)@.subrange(0, n as int))
            &&& final(input)@ == old(input)@.subrange(n as int, old(input)@.len() as int)
        }),
{
    let ghost start = input@;
    let ghost p = |c: char| is_digit(c);
    let ghost mut k: int = 0;
    let ghost mut digits = seq![first];
    let limit: u64 = 0x7fff_ffff_ffff_ffff;
    let mut value: u64 = (first as u32 - 48) as u64;
    let mut fits = true;
    proof {
        assert(start.subrange(0, start.len() as int) =~= start);
        assert(digits =~= seq![first] + start.subrange(0, 0));
        assert(digits.drop_last() =~= Seq::<char>::empty());
        reveal_with_fuel(digits_value, 2);
    }
    loop
        invariant
            0 <= k <= start.len(),
            start == old(input)@,
            p == (|c: char| is_digit(c)),
            limit == i64::MAX,
            digits == seq![first] + start.subrange(0, k),
            input@ == start.subrange(k, start.len() as int),
            run_len(start, p) == k + run_len(input@, p),
            fits ==> value == digits_value(digits) && value <= limit,
            !fits ==> digits_value(digits) > limit,
        ensures
            0 <= k <= start.len(),
            digits == seq![first] + start.subrange(0, k),
            input@ == start.subrange(k, start.len() as int),
            run_len(start, p) == k,
            fits ==> value == digits_value(digits) && value <= limit,
            !fits ==> digits_value(digits) > limit,
        decreases input@.len(),
    {
        let ghost here = input@;
        match input.peek_first() {
            Some(ch) => {
                if ch >= '0' && ch <= '9' {
                    let _ = input.next();
                    let d: u64 = (ch as u32 - 48) as u64;
                    proof {
                        assert(p(here[0]));
                        assert(input@ =~= start.subrange(k + 1, start.len() as int));
                        let longer = digits.push(ch);
                        assert(longer =~= seq![first] + start.subrange(0, k + 1));
                        assert(longer.drop_last() =~= digits);
                        assert(digits_value(longer) == digits_value(digits) * 10 + d);
                        digits = longer;
                        k = k + 1;
                    }
                    if fits && value <= (limit - d) / 10 {
                        value = value * 10 + d;
                    } else {
                        fits = false;
                    }
                } else {
                    assert(!p(here[0]));
                    break ;
                }
            },
            None => {
                break ;
            },
        }
    }
    if fits {
        Token::IntLiteral(value as i64)
    } else {
        Token::Illegal
    }
}

impl Lexer {
    /// The tokens of `input`, ending with `EOF`.
    pub fn lex_tokens(input: &str) -> (r: Tokens)
        ensures
            tokens_view(r@) == lex_tokens_spec(input@),
    {
        let mut input_chars = Cursor::new(input);
        let mut tokens: Vec<Token> = Vec::new();
        proof {
            assert(tokens_view(tokens@) + lex_tokens_spec(input_chars@) =~= lex_tokens_spec(
                input@,
            ));
        }
        loop
            invariant_except_break
                tokens_view(tokens@) + lex_tokens_spec(input_chars@) == lex_tokens_spec(input@),
            ensures
                tokens_view(tokens@) == lex_tokens_spec(input@),
            decreases input_chars@.len(),
        {
            let ghost here = input_chars@;
            let ghost before = tokens_view(tokens@);
            match input_chars.peek_first() {
                None => {
                    let token = Self::lex_token(&mut input_chars);
                    tokens.push(token);
                    proof {
                        assert(tokens_view(tokens@) =~= before + seq![TokenView::EOF]);
                    }
                    break ;
                },
                Some(c) => {
                    if c == ' ' || c == '\t' || c == '\n' || c == '\x0C' || c == '\r' {
                        let _ = input_chars.next();
                    } else {
                        let token = Self::lex_token(&mut input_chars);
                        tokens.push(token);
                        proof {
                            let rest = lex_tokens_spec(input_chars@);
                            assert(tokens_view(tokens@) =~= before + seq![token@]);
                            assert((before + seq![token@]) + rest =~= before + (seq![token@]
                                + rest));
                        }
                    }
                },
            }
        }
        tokens
    }

    /// Takes one token off the front of the text.
    pub fn lex_token(input: &mut Cursor) -> (r: Token)
        ensures
            r@ == lex_token_spec(old(input)@).0,
            lex_token_spec(old(input)@).1 <= old(input)@.len(),
            old(input)@.len() > 0 ==> lex_token_spec(old(input)@).1 >= 1,
            final(input)@ == old(input)@.subrange(
                lex_token_spec(old(input)@).1 as int,
                old(input)@.len() as int,
            ),
    {
        let ghost s = input@;
        match input.next() {
            None => {
                assert(input@ =~= s.subrange(0, s.len() as int));
                Token::EOF
            },
            Some(c) => {
                let ghost rest = input@;
                proof {
                    assert(rest =~= s.subrange(1, s.len() as int));
                    assert forall|n: int| 0 <= n <= rest.len() implies #[trigger] rest.subrange(
                        n,
                        rest.len() as int,
                    ) == s.subrange(n + 1, s.len() as int) by {
                        assert(rest.subrange(n, rest.len() as int) =~= s.subrange(
                            n + 1,
                            s.len() as int,
                        ));
                    }
                }
                if c == ';' {
                    Token::SemiColon
                } else if c == ',' {
                    Token::Comma
                } else if c == '(' {
                    Token::LParen
                } else if c == ')' {
                    Token::RParen
                } else if c == '{' {
                    Token::LBrace
                } else if c == '}' {
                    Token::RBrace
                } else if c == '+' {
                    Token::Plus
                } else if c == '-' {
                    Token::Minus
                } else if c == '/' {
                    Token::Divide
                } else if c == '*' {
                    Token::Multiply
                } else if c == '=' {
                    lex_pair(input, Token::Assign, Token::Equal)
                } else if c == '!' {
                    lex_pair(input, Token::Not, Token::NotEqual)
                } else if c == '<' {
                    lex_pair(input, Token::Less, Token::LessEqual)
                } else if c == '>' {
                    lex_pair(input, Token::Greater, Token::GreaterEqual)
                } else if c == '"' {
                    lex_string(input)
                } else if starts_word(c, c.is_alphabetic()) {
                    let token = lex_word(input, c);
                    proof {
                        let n = run_len(rest, |c: char| is_word_part(c));
                        assert(seq![c] + rest.subrange(0, n as int) =~= s.subrange(
                            0,
                            1 + n as int,
                        ));
                    }
                    token
                } else if c >= '0' && c <= '9' {
                    let token = lex_number(input, c);
                    proof {
                        let n = run_len(rest, |c: char| is_digit(c));
                        assert(seq![c] + rest.subrange(0, n as int) =~= s.subrange(
                            0,
                            1 + n as int,
                        ));
                    }
                    token
                } else {
                    Token::Illegal
                }
            },
        }
    }
}

} // verus!
