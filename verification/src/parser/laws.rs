//! Laws of the grammar: no rule gives back a token that it has taken, and
//! the rules for expressions and statements take at least one token unless
//! the list is at its end. It follows that every rule is applied only in
//! states that lie ahead of the state in which its caller began.

use vstd::prelude::*;
use crate::lexer::token::TokenView;
use crate::parser::ast::{BinOp, ExprView, UnaryOp};
use crate::parser::model::{
    advance_spec, error_spec, no_retreat, parse_assignment_spec, parse_binary_rest_spec,
    parse_binary_spec, parse_block_items_spec, parse_block_spec, parse_call_rest_spec,
    parse_call_spec, parse_expr_spec, parse_expr_stmt_spec, parse_fn_spec, parse_if_spec,
    parse_let_spec, parse_list_rest_spec, parse_list_spec, parse_primary_spec, parse_return_spec,
    parse_spec, parse_stmt_spec, parse_unary_spec, parse_while_spec, peek_spec, progress,
    level_op, level_rank, synchronize_spec, ParserView,
};

verus! {

/// Recovery gives back no token.
pub proof fn law_synchronize_never_goes_back(p: ParserView)
    ensures
        no_retreat(p, synchronize_spec(p)),
    decreases p.rest.len(),
{
    match peek_spec(p) {
        TokenView::Let | TokenView::If | TokenView::Return | TokenView::Function
        | TokenView::EOF => {},
        TokenView::SemiColon => {},
        _ => {
            law_synchronize_never_goes_back(advance_spec(p));
        },
    }
}

/// A primary expression takes tokens.
proof fn lemma_primary(p: ParserView)
    ensures
        progress(p, parse_primary_spec(p).0),
    decreases p.rest.len(), 10nat,
{
    match peek_spec(p) {
        TokenView::LParen => {
            law_expression_takes_tokens(advance_spec(p));
        },
        _ => {},
    }
}

/// The rest of a list gives back no token.
proof fn lemma_list_rest(p: ParserView, acc: Seq<ExprView>, message: Seq<char>)
    ensures
        no_retreat(p, parse_list_rest_spec(p, acc, message).0),
    decreases p.rest.len(), 0nat,
{
    match peek_spec(p) {
        TokenView::Comma => {
            law_expression_takes_tokens(advance_spec(p));
            let (q, r) = parse_expr_spec(advance_spec(p));
            match r {
                Ok(e) => {
                    if acc.len() + 1 <= 255 && q.rest.len() < p.rest.len() {
                        lemma_list_rest(q, acc.push(e), message);
                    }
                },
                Err(_) => {},
            }
        },
        _ => {},
    }
}

/// A list gives back no token.
proof fn lemma_list(p: ParserView, message: Seq<char>)
    ensures
        no_retreat(p, parse_list_spec(p, message).0),
    decreases p.rest.len(), 25nat,
{
    match peek_spec(p) {
        TokenView::RParen => {},
        _ => {
            law_expression_takes_tokens(p);
            let (q, r) = parse_expr_spec(p);
            match r {
                Ok(e) => {
                    lemma_list_rest(q, seq![e], message);
                },
                Err(_) => {},
            }
        },
    }
}

/// The calls behind an expression give back no token.
proof fn lemma_call_rest(p: ParserView, callee: ExprView)
    ensures
        no_retreat(p, parse_call_rest_spec(p, callee).0),
    decreases p.rest.len(), 0nat,
{
    match peek_spec(p) {
        TokenView::LParen => {
            lemma_list(advance_spec(p), "Cannot have more than 255 arguments"@);
            let (q, r) = parse_list_spec(advance_spec(p), "Cannot have more than 255 arguments"@);
            match r {
                Ok(args) => {
                    match peek_spec(q) {
                        TokenView::RParen => {
                            lemma_call_rest(
                                advance_spec(q),
                                ExprView::Call(Box::new(callee), args),
                            );
                        },
                        _ => {},
                    }
                },
                Err(_) => {},
            }
        },
        _ => {},
    }
}

/// A call expression takes tokens.
proof fn lemma_call(p: ParserView)
    ensures
        progress(p, parse_call_spec(p).0),
    decreases p.rest.len(), 11nat,
{
    lemma_primary(p);
    let (q, r) = parse_primary_spec(p);
    match r {
        Ok(e) => {
            lemma_call_rest(q, e);
        },
        Err(_) => {},
    }
}

/// A unary expression takes tokens.
proof fn lemma_unary(p: ParserView)
    ensures
        progress(p, parse_unary_spec(p).0),
    decreases p.rest.len(), 12nat,
{
    match peek_spec(p) {
        TokenView::Minus | TokenView::Plus | TokenView::Not => {
            lemma_unary(advance_spec(p));
        },
        _ => {
            lemma_call(p);
        },
    }
}

/// The operators of a level and their operands give back no token.
proof fn lemma_binary_rest(p: ParserView, level: nat, left: ExprView)
    ensures
        no_retreat(p, parse_binary_rest_spec(p, level, left).0),
    decreases p.rest.len(), 0nat,
{
    match level_op(level, peek_spec(p)) {
        Some(op) => {
            lemma_binary(advance_spec(p), level + 1);
            let (q, r) = parse_binary_spec(advance_spec(p), level + 1);
            match r {
                Ok(right) => {
                    lemma_binary_rest(
                        q,
                        level,
                        ExprView::Binary(Box::new(left), op, Box::new(right)),
                    );
                },
                Err(_) => {},
            }
        },
        None => {},
    }
}

/// An expression of a level takes tokens.
proof fn lemma_binary(p: ParserView, level: nat)
    ensures
        progress(p, parse_binary_spec(p, level).0),
    decreases p.rest.len(), level_rank(level),
{
    if level >= 4 {
        lemma_unary(p);
    } else {
        lemma_binary(p, level + 1);
        let (q, r) = parse_binary_spec(p, level + 1);
        match r {
            Ok(left) => {
                lemma_binary_rest(q, level, left);
            },
            Err(_) => {},
        }
    }
}

/// An assignment takes tokens.
proof fn lemma_assignment(p: ParserView)
    ensures
        progress(p, parse_assignment_spec(p).0),
    decreases p.rest.len(), 18nat,
{
    lemma_binary(p, 0);
    let (q, r) = parse_binary_spec(p, 0);
    match r {
        Ok(left) => {
            match peek_spec(q) {
                TokenView::Assign => {
                    lemma_binary(advance_spec(q), 0);
                },
                _ => {},
            }
        },
        Err(_) => {},
    }
}

/// An expression gives back no token, and takes at least one unless the
/// list is at its end.
pub proof fn law_expression_takes_tokens(p: ParserView)
    ensures
        progress(p, parse_expr_spec(p).0),
    decreases p.rest.len(), 19nat,
{
    lemma_assignment(p);
}

/// An expression statement takes tokens.
proof fn lemma_expr_stmt(p: ParserView)
    ensures
        progress(p, parse_expr_stmt_spec(p).0),
    decreases p.rest.len(), 20nat,
{
    law_expression_takes_tokens(p);
}

/// A binding gives back no token.
proof fn lemma_let(p: ParserView)
    ensures
        no_retreat(p, parse_let_spec(p).0),
    decreases p.rest.len(), 21nat,
{
    match peek_spec(p) {
        TokenView::Ident(_) => {
            let after_name = advance_spec(p);
            match peek_spec(after_name) {
                TokenView::Assign => {
                    law_expression_takes_tokens(advance_spec(after_name));
                },
                _ => {},
            }
        },
        _ => {},
    }
}

/// A return gives back no token.
proof fn lemma_return(p: ParserView)
    ensures
        no_retreat(p, parse_return_spec(p).0),
    decreases p.rest.len(), 21nat,
{
    match peek_spec(p) {
        TokenView::SemiColon => {},
        _ => {
            law_expression_takes_tokens(p);
        },
    }
}

/// The statements of a block give back no token.
proof fn lemma_block_items(p: ParserView)
    ensures
        no_retreat(p, parse_block_items_spec(p).0),
    decreases p.rest.len(), 23nat,
{
    match peek_spec(p) {
        TokenView::RBrace | TokenView::EOF => {},
        _ => {
            law_statement_takes_tokens(p);
            let (q, r) = parse_stmt_spec(p);
            lemma_block_items(q);
        },
    }
}

/// A block gives back no token.
proof fn lemma_block(p: ParserView)
    ensures
        no_retreat(p, parse_block_spec(p).0),
    decreases p.rest.len(), 24nat,
{
    lemma_block_items(p);
}

/// An if statement gives back no token.
proof fn lemma_if(p: ParserView)
    ensures
        no_retreat(p, parse_if_spec(p).0),
    decreases p.rest.len(), 25nat,
{
    law_expression_takes_tokens(p);
    let (q, r) = parse_expr_spec(p);
    match r {
        Ok(_) => {
            match peek_spec(q) {
                TokenView::LBrace => {
                    lemma_block(advance_spec(q));
                    let (q2, rb) = parse_block_spec(advance_spec(q));
                    match rb {
                        Ok(_) => {
                            match peek_spec(q2) {
                                TokenView::Else => {
                                    let q3 = advance_spec(q2);
                                    match peek_spec(q3) {
                                        TokenView::If => {
                                            lemma_if(advance_spec(q3));
                                        },
                                        TokenView::LBrace => {
                                            lemma_block(advance_spec(q3));
                                        },
                                        _ => {},
                                    }
                                },
                                _ => {},
                            }
                        },
                        Err(_) => {},
                    }
                },
                _ => {},
            }
        },
        Err(_) => {},
    }
}

/// A loop gives back no token.
proof fn lemma_while(p: ParserView)
    ensures
        no_retreat(p, parse_while_spec(p).0),
    decreases p.rest.len(), 25nat,
{
    law_expression_takes_tokens(p);
    let (q, r) = parse_expr_spec(p);
    match r {
        Ok(_) => {
            match peek_spec(q) {
                TokenView::LBrace => {
                    lemma_block(advance_spec(q));
                },
                _ => {},
            }
        },
        Err(_) => {},
    }
}

/// A function declaration gives back no token.
proof fn lemma_fn(p: ParserView)
    ensures
        no_retreat(p, parse_fn_spec(p).0),
    decreases p.rest.len(), 25nat,
{
    match peek_spec(p) {
        TokenView::Ident(_) => {
            let after_name = advance_spec(p);
            match peek_spec(after_name) {
                TokenView::LParen => {
                    let message = "Cannot have more than 255 parameters"@;
                    lemma_list(advance_spec(after_name), message);
                    let (after_list, r) = parse_list_spec(advance_spec(after_name), message);
                    match r {
                        Ok(_) => {
                            match peek_spec(after_list) {
                                TokenView::RParen => {
                                    let after_paren = advance_spec(after_list);
                                    let checked = match peek_spec(after_paren) {
                                        TokenView::LBrace => after_paren,
                                        _ => error_spec(after_paren, "Expected '{' after parameters"@),
                                    };
                                    lemma_block(advance_spec(checked));
                                },
                                _ => {},
                            }
                        },
                        Err(_) => {},
                    }
                },
                _ => {},
            }
        },
        _ => {},
    }
}

/// A statement gives back no token, and takes at least one unless the list
/// is at its end.
pub proof fn law_statement_takes_tokens(p: ParserView)
    ensures
        progress(p, parse_stmt_spec(p).0),
    decreases p.rest.len(), 22nat,
{
    match peek_spec(p) {
        TokenView::Let => {
            lemma_let(advance_spec(p));
        },
        TokenView::LBrace => {
            lemma_block(advance_spec(p));
        },
        TokenView::If => {
            lemma_if(advance_spec(p));
        },
        TokenView::While => {
            lemma_while(advance_spec(p));
        },
        TokenView::Function => {
            lemma_fn(advance_spec(p));
        },
        TokenView::Return => {
            lemma_return(advance_spec(p));
        },
        _ => {
            lemma_expr_stmt(p);
        },
    }
}

/// Parsing a program gives back no token, and ends before an `EOF` or at
/// the end of the list.
pub proof fn law_program_is_read_to_its_end(p: ParserView)
    ensures
        no_retreat(p, parse_spec(p).0),
        peek_spec(parse_spec(p).0) is EOF,
    decreases p.rest.len(), 26nat,
{
    match peek_spec(p) {
        TokenView::EOF => {},
        _ => {
            law_statement_takes_tokens(p);
            let (q, r) = parse_stmt_spec(p);
            let q1 = match r {
                Ok(_) => q,
                Err(_) => synchronize_spec(q),
            };
            law_synchronize_never_goes_back(q);
            law_program_is_read_to_its_end(q1);
        },
    }
}

/// A prefix operator binds tighter than every binary operator: where a
/// product begins with `-`, `+` or `!`, the prefix applies to the unary
/// expression behind it alone, and the prefixed expression is the first
/// operand of the binary operators that follow.
pub proof fn law_prefix_binds_tighter_than_binary_operators(p: ParserView)
    requires
        peek_spec(p) is Minus || peek_spec(p) is Plus || peek_spec(p) is Not,
        parse_unary_spec(advance_spec(p)).1 is Ok,
    ensures
        ({
            let (q, r) = parse_unary_spec(advance_spec(p));
            let op = match peek_spec(p) {
                TokenView::Minus => UnaryOp::UnaryMinus,
                TokenView::Plus => UnaryOp::UnaryPlus,
                _ => UnaryOp::Not,
            };
            parse_binary_spec(p, 3) == parse_binary_rest_spec(
                q,
                3,
                ExprView::Unary(op, Box::new(r.unwrap())),
            )
        }),
{
    lemma_unary(advance_spec(p));
    assert(parse_binary_spec(p, 4) == parse_unary_spec(p));
}

/// A product binds tighter than a sum: the right operand of `+` or `-` is
/// a whole product.
pub proof fn law_product_binds_tighter_than_sum(p: ParserView, left: ExprView)
    requires
        peek_spec(p) is Plus || peek_spec(p) is Minus,
        parse_binary_spec(advance_spec(p), 3).1 is Ok,
    ensures
        ({
            let (q, r) = parse_binary_spec(advance_spec(p), 3);
            let op = match peek_spec(p) {
                TokenView::Plus => BinOp::Plus,
                _ => BinOp::Minus,
            };
            parse_binary_rest_spec(p, 2, left) == parse_binary_rest_spec(
                q,
                2,
                ExprView::Binary(Box::new(left), op, Box::new(r.unwrap())),
            )
        }),
{
    lemma_binary(advance_spec(p), 3);
}

} // verus!
