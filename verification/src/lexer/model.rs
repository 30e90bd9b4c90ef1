//! What the lexer makes of a text, as a function of its characters.

use vstd::prelude::*;
use crate::lexer::token::TokenView;
use crate::text::{digit_value, is_digit};

verus! {

/// Whether Unicode counts `c` as alphabetic.
pub uninterp spec fn alphabetic(c: char) -> bool;

/// `char::is_alphabetic` of the standard library: whether the character has
/// the Unicode property `Alphabetic`. The answer depends on the character
/// alone.
pub assume_specification[ char::is_alphabetic ](c: char) -> (r: bool)
    ensures
        r == alphabetic(c),
;

/// Whether `c` is ASCII white space: a space, a tab, a line feed, a form
/// feed or a carriage return.
pub open spec fn is_space(c: char) -> bool {
    c == ' ' || c == '\t' || c == '\n' || c == '\x0C' || c == '\r'
}

/// Whether a word can begin with `c`.
pub open spec fn is_word_start(c: char) -> bool {
    alphabetic(c) || c == '_'
}

/// Whether a word can go on with `c`.
pub open spec fn is_word_part(c: char) -> bool {
    alphabetic(c) || is_digit(c) || c == '_'
}

/// Whether `c` can stand inside a string literal: anything but the closing
/// quote and the end of a line.
pub open spec fn is_text_part(c: char) -> bool {
    c != '"' && c != '\n' && c != '\r'
}

/// The length of the longest prefix of `s` all of whose characters satisfy
/// `p`.
pub open spec fn run_len(s: Seq<char>, p: spec_fn(char) -> bool) -> nat
    decreases s.len(),
{
    if s.len() > 0 && p(s[0]) {
        1 + run_len(s.drop_first(), p)
    } else {
        0
    }
}

/// The keyword or boolean literal that `word` spells, or else the identifier
/// `word`.
pub open spec fn word_token(word: Seq<char>) -> TokenView {
    if word == "fn"@ {
        TokenView::Function
    } else if word == "let"@ {
        TokenView::Let
    } else if word == "return"@ {
        TokenView::Return
    } else if word == "if"@ {
        TokenView::If
    } else if word == "else"@ {
        TokenView::Else
    } else if word == "while"@ {
        TokenView::While
    } else if word == "for"@ {
        TokenView::For
    } else if word == "true"@ {
        TokenView::BooleanLiteral(true)
    } else if word == "false"@ {
        TokenView::BooleanLiteral(false)
    } else {
        TokenView::Ident(word)
    }
}

/// The number that a sequence of decimal digits writes.
pub open spec fn digits_value(digits: Seq<char>) -> nat
    decreases digits.len(),
{
    if digits.len() == 0 {
        0
    } else {
        (digits_value(digits.drop_last()) * 10 + digit_value(digits.last())) as nat
    }
}

/// The integer literal that `digits` writes. A number beyond the largest
/// 64-bit signed integer is no token of the language.
pub open spec fn number_token(digits: Seq<char>) -> TokenView {
    if digits_value(digits) <= i64::MAX {
        TokenView::IntLiteral(digits_value(digits) as i64)
    } else {
        TokenView::Illegal
    }
}

/// The token of a string literal and the number of characters it takes up,
/// the opening quote included; `rest` is the text behind the opening quote.
/// A literal ends at its closing quote. One that meets the end of a line or
/// of the text first is illegal; the character that ends the line is taken
/// up too.
pub open spec fn string_token(rest: Seq<char>) -> (TokenView, nat) {
    let n = run_len(rest, |c: char| is_text_part(c));
    if n < rest.len() && rest[n as int] == '"' {
        (TokenView::StringLiteral(rest.subrange(0, n as int)), n + 2)
    } else if n < rest.len() {
        (TokenView::Illegal, n + 2)
    } else {
        (TokenView::Illegal, n + 1)
    }
}

/// The token of an operator that may be followed by `=`.
pub open spec fn pair_token(rest: Seq<char>, single: TokenView, double: TokenView) -> (
    TokenView,
    nat,
) {
    if rest.len() > 0 && rest[0] == '=' {
        (double, 2)
    } else {
        (single, 1)
    }
}

/// The token at the start of `s` and the number of characters it takes up.
/// At the end of the text the token is `EOF`, which takes up nothing.
pub open spec fn lex_token_spec(s: Seq<char>) -> (TokenView, nat) {
    if s.len() == 0 {
        (TokenView::EOF, 0)
    } else {
        let c = s[0];
        let rest = s.drop_first();
        if c == ';' {
            (TokenView::SemiColon, 1)
        } else if c == ',' {
            (TokenView::Comma, 1)
        } else if c == '(' {
            (TokenView::LParen, 1)
        } else if c == ')' {
            (TokenView::RParen, 1)
        } else if c == '{' {
            (TokenView::LBrace, 1)
        } else if c == '}' {
            (TokenView::RBrace, 1)
        } else if c == '+' {
            (TokenView::Plus, 1)
        } else if c == '-' {
            (TokenView::Minus, 1)
        } else if c == '/' {
            (TokenView::Divide, 1)
        } else if c == '*' {
            (TokenView::Multiply, 1)
        } else if c == '=' {
            pair_token(rest, TokenView::Assign, TokenView::Equal)
        } else if c == '!' {
            pair_token(rest, TokenView::Not, TokenView::NotEqual)
        } else if c == '<' {
            pair_token(rest, TokenView::Less, TokenView::LessEqual)
        } else if c == '>' {
            pair_token(rest, TokenView::Greater, TokenView::GreaterEqual)
        } else if c == '"' {
            string_token(rest)
        } else if is_word_start(c) {
            let n = 1 + run_len(rest, |c: char| is_word_part(c));
            (word_token(s.subrange(0, n as int)), n)
        } else if is_digit(c) {
            let n = 1 + run_len(rest, |c: char| is_digit(c));
            (number_token(s.subrange(0, n as int)), n)
        } else {
            (TokenView::Illegal, 1)
        }
    }
}

/// The tokens of `s`: white space between tokens is skipped, and the list
/// ends with `EOF`.
pub open spec fn lex_tokens_spec(s: Seq<char>) -> Seq<TokenView>
    decreases s.len(),
{
    if s.len() == 0 {
        seq![TokenView::EOF]
    } else if is_space(s[0]) {
        lex_tokens_spec(s.drop_first())
    } else {
        let (token, n) = lex_token_spec(s);
        if 1 <= n <= s.len() {
            seq![token] + lex_tokens_spec(s.subrange(n as int, s.len() as int))
        } else {
            seq![token]
        }
    }
}

} // verus!
