//! Laws of the lexer.

use vstd::prelude::*;
use crate::lexer::model::{
    is_space, is_text_part, is_word_part, lex_token_spec, lex_tokens_spec, run_len,
};
use crate::text::is_digit;

verus! {

/// A run is no longer than the text it is taken from.
proof fn lemma_run_len_bound(s: Seq<char>, p: spec_fn(char) -> bool)
    ensures
        run_len(s, p) <= s.len(),
    decreases s.len(),
{
    if s.len() > 0 && p(s[0]) {
        lemma_run_len_bound(s.drop_first(), p);
    }
}

/// A token takes up at least one character of a text that is not at its
/// end, and no more than the text holds. Only at the end of the text is
/// the token `EOF`.
pub proof fn law_token_takes_up_text(s: Seq<char>)
    ensures
        lex_token_spec(s).1 <= s.len(),
        s.len() > 0 ==> lex_token_spec(s).1 >= 1,
        lex_token_spec(s).0 is EOF <==> s.len() == 0,
{
    if s.len() > 0 {
        let rest = s.drop_first();
        lemma_run_len_bound(rest, |c: char| is_text_part(c));
        lemma_run_len_bound(rest, |c: char| is_word_part(c));
        lemma_run_len_bound(rest, |c: char| is_digit(c));
    }
}

/// The tokens of a text end with `EOF`, and `EOF` stands nowhere else among
/// them.
pub proof fn law_tokens_end_with_eof(s: Seq<char>)
    ensures
        lex_tokens_spec(s).len() >= 1,
        forall|i: int|
            0 <= i < lex_tokens_spec(s).len() ==> ((#[trigger] lex_tokens_spec(s)[i]) is EOF <==> i
                == lex_tokens_spec(s).len() - 1),
    decreases s.len(),
{
    if s.len() == 0 {
    } else if is_space(s[0]) {
        law_tokens_end_with_eof(s.drop_first());
    } else {
        let (token, n) = lex_token_spec(s);
        law_token_takes_up_text(s);
        let rest = lex_tokens_spec(s.subrange(n as int, s.len() as int));
        law_tokens_end_with_eof(s.subrange(n as int, s.len() as int));
        assert forall|i: int| 0 <= i < lex_tokens_spec(s).len() implies ((
        #[trigger] lex_tokens_spec(s)[i]) is EOF <==> i == lex_tokens_spec(s).len() - 1) by {
            if i > 0 {
                assert(lex_tokens_spec(s)[i] == rest[i - 1]);
            }
        }
    }
}

/// White space before a text changes nothing in its tokens.
pub proof fn law_leading_space_is_skipped(c: char, s: Seq<char>)
    requires
        is_space(c),
    ensures
        lex_tokens_spec(seq![c] + s) == lex_tokens_spec(s),
{
    assert((seq![c] + s).drop_first() =~= s);
}

} // verus!
