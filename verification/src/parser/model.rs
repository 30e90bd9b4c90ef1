//! What the parser makes of a list of tokens, as a function of the tokens.
//!
//! Each function maps the parser's state before a construct to the state
//! after it, together with the tree of the construct or the failure to read
//! one. Failures leave their messages in the state's list of errors.
//!
//! The functions call each other as the grammar's rules do, and no call is
//! made in a state with more tokens ahead than the caller started with.

use vstd::prelude::*;
use crate::lexer::token::TokenView;
use crate::parser::ast::{BinOp, ExprView, LiteralView, StmtView, UnaryOp};

verus! {

/// Mathematical model of a parse error: the last token taken before the
/// error was found, and what was wrong.
pub struct ParseErrorView {
    pub token: TokenView,
    pub message: Seq<char>,
}

/// Mathematical model of the parser's state.
pub struct ParserView {
    /// The tokens ahead.
    pub rest: Seq<TokenView>,
    /// The token taken last; `EOF` before the first.
    pub previous: TokenView,
    /// The errors found so far.
    pub errors: Seq<ParseErrorView>,
}

/// The state after an expression, with the expression or the failure.
pub type ExprResult = (ParserView, Result<ExprView, ()>);

/// The state after a statement, with the statement or the failure.
pub type StmtResult = (ParserView, Result<StmtView, ()>);

/// The state after a list of expressions, with the list or the failure.
pub type ListResult = (ParserView, Result<Seq<ExprView>, ()>);

/// No token has come back: as many or fewer lie ahead than before.
pub open spec fn no_retreat(before: ParserView, after: ParserView) -> bool {
    after.rest.len() <= before.rest.len()
}

/// No token has come back, and unless the list was at its end at least one
/// token has been taken.
pub open spec fn progress(before: ParserView, after: ParserView) -> bool {
    &&& after.rest.len() <= before.rest.len()
    &&& before.rest.len() > 0 ==> after.rest.len() < before.rest.len()
}

/// The token ahead; `EOF` at the end of the list.
pub open spec fn peek_spec(p: ParserView) -> TokenView {
    if p.rest.len() > 0 {
        p.rest[0]
    } else {
        TokenView::EOF
    }
}

/// The state after taking the token ahead. At the end of the list nothing
/// is taken, and `EOF` counts as the token taken last.
pub open spec fn advance_spec(p: ParserView) -> ParserView {
    if p.rest.len() > 0 {
        ParserView { rest: p.rest.drop_first(), previous: p.rest[0], errors: p.errors }
    } else {
        ParserView { rest: p.rest, previous: TokenView::EOF, errors: p.errors }
    }
}

/// The state after recording an error at the token taken last.
pub open spec fn error_spec(p: ParserView, message: Seq<char>) -> ParserView {
    ParserView {
        rest: p.rest,
        previous: p.previous,
        errors: p.errors.push(ParseErrorView { token: p.previous, message: message }),
    }
}

/// Gives up a construct with an error.
pub open spec fn fail<T>(p: ParserView, message: Seq<char>) -> (ParserView, Result<T, ()>) {
    (error_spec(p, message), Err(()))
}

/// Recovery after a failed top-level statement: tokens are skipped up to
/// the next `let`, `if`, `return` or `fn`, or past the next semicolon.
pub open spec fn synchronize_spec(p: ParserView) -> ParserView
    decreases p.rest.len(),
{
    match peek_spec(p) {
        TokenView::Let | TokenView::If | TokenView::Return | TokenView::Function
        | TokenView::EOF => p,
        TokenView::SemiColon => advance_spec(p),
        _ => synchronize_spec(advance_spec(p)),
    }
}

/// The binary operator that token `t` is on a level of precedence. Level 0
/// holds equality, level 1 comparison, level 2 sums, level 3 products.
pub open spec fn level_op(level: nat, t: TokenView) -> Option<BinOp> {
    if level == 0 {
        match t {
            TokenView::Equal => Some(BinOp::Equal),
            TokenView::NotEqual => Some(BinOp::NotEqual),
            _ => None,
        }
    } else if level == 1 {
        match t {
            TokenView::Less => Some(BinOp::Less),
            TokenView::LessEqual => Some(BinOp::LessEqual),
            TokenView::Greater => Some(BinOp::Greater),
            TokenView::GreaterEqual => Some(BinOp::GreaterEqual),
            _ => None,
        }
    } else if level == 2 {
        match t {
            TokenView::Plus => Some(BinOp::Plus),
            TokenView::Minus => Some(BinOp::Minus),
            _ => None,
        }
    } else if level == 3 {
        match t {
            TokenView::Multiply => Some(BinOp::Multiply),
            TokenView::Divide => Some(BinOp::Divide),
            _ => None,
        }
    } else {
        None
    }
}

/// The rank of a level of precedence among the rules of the grammar.
pub open spec fn level_rank(level: nat) -> nat {
    if level >= 4 {
        13
    } else {
        (17 - level) as nat
    }
}

/// A primary expression: an identifier, a literal, or an expression in
/// parentheses.
pub open spec fn parse_primary_spec(p: ParserView) -> ExprResult
    decreases p.rest.len(), 10nat,
{
    match peek_spec(p) {
        TokenView::Ident(name) => (advance_spec(p), Ok(ExprView::Ident(name))),
        TokenView::BooleanLiteral(b) => (
            advance_spec(p),
            Ok(ExprView::Literal(LiteralView::Bool(b))),
        ),
        TokenView::IntLiteral(i) => (advance_spec(p), Ok(ExprView::Literal(LiteralView::Int(i)))),
        TokenView::StringLiteral(s) => (
            advance_spec(p),
            Ok(ExprView::Literal(LiteralView::Text(s))),
        ),
        TokenView::LParen => {
            let (q, r) = parse_expr_spec(advance_spec(p));
            match r {
                Err(_) => (q, Err(())),
                Ok(e) => match peek_spec(q) {
                    TokenView::RParen => (advance_spec(q), Ok(e)),
                    _ => fail(q, "Expected ')' after expression"@),
                },
            }
        },
        _ => fail(advance_spec(p), "Unexpected Token"@),
    }
}

/// The rest of a list of arguments or parameters, behind the expressions
/// `acc`: each further one follows a comma. A list of more than 255 is an
/// error.
pub open spec fn parse_list_rest_spec(p: ParserView, acc: Seq<ExprView>, message: Seq<char>) -> ListResult
    decreases p.rest.len(), 0nat,
{
    match peek_spec(p) {
        TokenView::Comma => {
            let (q, r) = parse_expr_spec(advance_spec(p));
            match r {
                Err(_) => (q, Err(())),
                Ok(e) => {
                    if acc.len() + 1 > 255 {
                        fail(q, message)
                    } else if q.rest.len() < p.rest.len() {
                        parse_list_rest_spec(q, acc.push(e), message)
                    } else {
                        (q, Err(()))
                    }
                },
            }
        },
        _ => (p, Ok(acc)),
    }
}

/// A list of arguments or parameters behind the opening parenthesis: empty
/// before a closing parenthesis, else expressions separated by commas.
pub open spec fn parse_list_spec(p: ParserView, message: Seq<char>) -> ListResult
    decreases p.rest.len(), 25nat,
{
    match peek_spec(p) {
        TokenView::RParen => (p, Ok(Seq::empty())),
        _ => {
            let (q, r) = parse_expr_spec(p);
            match r {
                Err(_) => (q, Err(())),
                Ok(e) => if q.rest.len() <= p.rest.len() {
                    parse_list_rest_spec(q, seq![e], message)
                } else {
                    (q, Err(()))
                },
            }
        },
    }
}

/// The calls that follow the expression `callee`: each is a list of
/// arguments in parentheses, applied to what stands before it.
pub open spec fn parse_call_rest_spec(p: ParserView, callee: ExprView) -> ExprResult
    decreases p.rest.len(), 0nat,
{
    match peek_spec(p) {
        TokenView::LParen => {
            let (q, r) = parse_list_spec(advance_spec(p), "Cannot have more than 255 arguments"@);
            match r {
                Err(_) => (q, Err(())),
                Ok(args) => match peek_spec(q) {
                    TokenView::RParen => {
                        let q1 = advance_spec(q);
                        if q1.rest.len() < p.rest.len() {
                            parse_call_rest_spec(q1, ExprView::Call(Box::new(callee), args))
                        } else {
                            (q1, Err(()))
                        }
                    },
                    _ => fail(q, "Expected ')' after arguments"@),
                },
            }
        },
        _ => (p, Ok(callee)),
    }
}

/// A primary expression and the calls that follow it.
pub open spec fn parse_call_spec(p: ParserView) -> ExprResult
    decreases p.rest.len(), 11nat,
{
    let (q, r) = parse_primary_spec(p);
    match r {
        Err(_) => (q, Err(())),
        Ok(e) => if q.rest.len() <= p.rest.len() {
            parse_call_rest_spec(q, e)
        } else {
            (q, Err(()))
        },
    }
}

/// A unary expression: any number of the prefixes `-`, `+` and `!` before a
/// call. The prefixes bind tighter than every binary operator.
pub open spec fn parse_unary_spec(p: ParserView) -> ExprResult
    decreases p.rest.len(), 12nat,
{
    let op = match peek_spec(p) {
        TokenView::Minus => Some(UnaryOp::UnaryMinus),
        TokenView::Plus => Some(UnaryOp::UnaryPlus),
        TokenView::Not => Some(UnaryOp::Not),
        _ => None,
    };
    match op {
        Some(op) => {
            let (q, r) = parse_unary_spec(advance_spec(p));
            match r {
                Err(_) => (q, Err(())),
                Ok(e) => (q, Ok(ExprView::Unary(op, Box::new(e)))),
            }
        },
        None => parse_call_spec(p),
    }
}

/// The operators of a level and their right operands that follow the
/// expression `left`. Operators of one level associate to the left.
pub open spec fn parse_binary_rest_spec(p: ParserView, level: nat, left: ExprView) -> ExprResult
    decreases p.rest.len(), 0nat,
{
    match level_op(level, peek_spec(p)) {
        Some(op) => {
            let (q, r) = parse_binary_spec(advance_spec(p), level + 1);
            match r {
                Err(_) => (q, Err(())),
                Ok(right) => if q.rest.len() < p.rest.len() {
                    parse_binary_rest_spec(
                        q,
                        level,
                        ExprView::Binary(Box::new(left), op, Box::new(right)),
                    )
                } else {
                    (q, Err(()))
                },
            }
        },
        None => (p, Ok(left)),
    }
}

/// An expression of a level of precedence: operands of the next tighter
/// level, joined by operators of this level. Beyond level 3 stand the unary
/// expressions.
pub open spec fn parse_binary_spec(p: ParserView, level: nat) -> ExprResult
    decreases p.rest.len(), level_rank(level),
{
    if level >= 4 {
        parse_unary_spec(p)
    } else {
        let (q, r) = parse_binary_spec(p, level + 1);
        match r {
            Err(_) => (q, Err(())),
            Ok(left) => if q.rest.len() <= p.rest.len() {
                parse_binary_rest_spec(q, level, left)
            } else {
                (q, Err(()))
            },
        }
    }
}

/// An assignment, or an expression of the loosest level. Only an identifier
/// can be assigned to.
pub open spec fn parse_assignment_spec(p: ParserView) -> ExprResult
    decreases p.rest.len(), 18nat,
{
    let (q, r) = parse_binary_spec(p, 0);
    match r {
        Err(_) => (q, Err(())),
        Ok(left) => match peek_spec(q) {
            TokenView::Assign => if q.rest.len() <= p.rest.len() {
                let (q2, r2) = parse_binary_spec(advance_spec(q), 0);
                match r2 {
                    Err(_) => (q2, Err(())),
                    Ok(value) => match left {
                        ExprView::Ident(name) => (
                            q2,
                            Ok(ExprView::Assignment(name, Box::new(value))),
                        ),
                        _ => fail(q2, "Illegal assignment"@),
                    },
                }
            } else {
                (q, Err(()))
            },
            _ => (q, Ok(left)),
        },
    }
}

/// An expression.
pub open spec fn parse_expr_spec(p: ParserView) -> ExprResult
    decreases p.rest.len(), 19nat,
{
    parse_assignment_spec(p)
}

/// An expression statement: an expression and a semicolon.
pub open spec fn parse_expr_stmt_spec(p: ParserView) -> StmtResult
    decreases p.rest.len(), 20nat,
{
    let (q, r) = parse_expr_spec(p);
    match r {
        Err(_) => (q, Err(())),
        Ok(e) => match peek_spec(q) {
            TokenView::SemiColon => (advance_spec(q), Ok(StmtView::Expr(e))),
            _ => fail(q, "Expected ';' after expression"@),
        },
    }
}

/// A binding behind `let`: a name, an optional initializer, a semicolon.
pub open spec fn parse_let_spec(p: ParserView) -> StmtResult
    decreases p.rest.len(), 21nat,
{
    match peek_spec(p) {
        TokenView::Ident(name) => {
            let after_name = advance_spec(p);
            match peek_spec(after_name) {
                TokenView::Assign => {
                    let (q, r) = parse_expr_spec(advance_spec(after_name));
                    match r {
                        Err(_) => (q, Err(())),
                        Ok(e) => match peek_spec(q) {
                            TokenView::SemiColon => (
                                advance_spec(q),
                                Ok(StmtView::Let(name, Some(e))),
                            ),
                            _ => fail(q, "Expected ';' after statement"@),
                        },
                    }
                },
                TokenView::SemiColon => (advance_spec(after_name), Ok(StmtView::Let(name, None))),
                _ => fail(after_name, "Expected ';' after statement"@),
            }
        },
        _ => fail(p, "Expect identifier after 'let'"@),
    }
}

/// A return behind `return`: an optional expression and a semicolon.
pub open spec fn parse_return_spec(p: ParserView) -> StmtResult
    decreases p.rest.len(), 21nat,
{
    match peek_spec(p) {
        TokenView::SemiColon => (advance_spec(p), Ok(StmtView::Return(None))),
        _ => {
            let (q, r) = parse_expr_spec(p);
            match r {
                Err(_) => (q, Err(())),
                Ok(e) => match peek_spec(q) {
                    TokenView::SemiColon => (advance_spec(q), Ok(StmtView::Return(Some(e)))),
                    _ => fail(q, "Expected ';' after statement"@),
                },
            }
        },
    }
}

/// The statements of a block up to its closing brace or the end of the
/// list. A statement that fails is left out; reading goes on behind it.
pub open spec fn parse_block_items_spec(p: ParserView) -> (ParserView, Seq<StmtView>)
    decreases p.rest.len(), 23nat,
{
    match peek_spec(p) {
        TokenView::RBrace | TokenView::EOF => (p, Seq::empty()),
        _ => {
            let (q, r) = parse_stmt_spec(p);
            let head = match r {
                Ok(s) => seq![s],
                Err(_) => Seq::empty(),
            };
            if q.rest.len() < p.rest.len() {
                let (q2, tail) = parse_block_items_spec(q);
                (q2, head + tail)
            } else {
                (q, head)
            }
        },
    }
}

/// A block behind its opening brace: statements and the closing brace.
pub open spec fn parse_block_spec(p: ParserView) -> StmtResult
    decreases p.rest.len(), 24nat,
{
    let (q, stmts) = parse_block_items_spec(p);
    match peek_spec(q) {
        TokenView::RBrace => (advance_spec(q), Ok(StmtView::Block(stmts))),
        _ => fail(q, "Expect '}' after block"@),
    }
}

/// An if statement behind `if`: condition, then-block, and an optional
/// else with a block or another if.
pub open spec fn parse_if_spec(p: ParserView) -> StmtResult
    decreases p.rest.len(), 25nat,
{
    let (q, r) = parse_expr_spec(p);
    match r {
        Err(_) => (q, Err(())),
        Ok(condition) => match peek_spec(q) {
            TokenView::LBrace => if q.rest.len() <= p.rest.len() {
                let (q2, rb) = parse_block_spec(advance_spec(q));
                match rb {
                    Err(_) => (q2, Err(())),
                    Ok(then) => match peek_spec(q2) {
                        TokenView::Else => {
                            let q3 = advance_spec(q2);
                            match peek_spec(q3) {
                                TokenView::If => if q3.rest.len() <= p.rest.len() {
                                    let (q5, re) = parse_if_spec(advance_spec(q3));
                                    match re {
                                        Err(_) => (q5, Err(())),
                                        Ok(other) => (
                                            q5,
                                            Ok(
                                                StmtView::If(
                                                    condition,
                                                    Box::new(then),
                                                    Some(Box::new(other)),
                                                ),
                                            ),
                                        ),
                                    }
                                } else {
                                    (q3, Err(()))
                                },
                                TokenView::LBrace => if q3.rest.len() <= p.rest.len() {
                                    let (q5, re) = parse_block_spec(advance_spec(q3));
                                    match re {
                                        Err(_) => (q5, Err(())),
                                        Ok(other) => (
                                            q5,
                                            Ok(
                                                StmtView::If(
                                                    condition,
                                                    Box::new(then),
                                                    Some(Box::new(other)),
                                                ),
                                            ),
                                        ),
                                    }
                                } else {
                                    (q3, Err(()))
                                },
                                _ => fail(q3, "Expect '{' or 'if' after else"@),
                            }
                        },
                        _ => (q2, Ok(StmtView::If(condition, Box::new(then), None))),
                    },
                }
            } else {
                (q, Err(()))
            },
            _ => fail(q, "Expect '{' after if condition"@),
        },
    }
}

/// A loop behind `while`: condition and body block.
pub open spec fn parse_while_spec(p: ParserView) -> StmtResult
    decreases p.rest.len(), 25nat,
{
    let (q, r) = parse_expr_spec(p);
    match r {
        Err(_) => (q, Err(())),
        Ok(condition) => match peek_spec(q) {
            TokenView::LBrace => if q.rest.len() <= p.rest.len() {
                let (q2, rb) = parse_block_spec(advance_spec(q));
                match rb {
                    Err(_) => (q2, Err(())),
                    Ok(body) => (q2, Ok(StmtView::While(condition, Box::new(body)))),
                }
            } else {
                (q, Err(()))
            },
            _ => fail(q, "Expect '{' after while condition"@),
        },
    }
}

/// A function declaration behind `fn`: name, parameters in parentheses,
/// body block. A missing opening brace is recorded, and the token in its
/// place is taken for it.
pub open spec fn parse_fn_spec(p: ParserView) -> StmtResult
    decreases p.rest.len(), 25nat,
{
    match peek_spec(p) {
        TokenView::Ident(name) => {
            let after_name = advance_spec(p);
            match peek_spec(after_name) {
                TokenView::LParen => {
                    let (after_list, r) = parse_list_spec(
                        advance_spec(after_name),
                        "Cannot have more than 255 parameters"@,
                    );
                    match r {
                        Err(_) => (after_list, Err(())),
                        Ok(params) => match peek_spec(after_list) {
                            TokenView::RParen => {
                                let after_paren = advance_spec(after_list);
                                let checked = match peek_spec(after_paren) {
                                    TokenView::LBrace => after_paren,
                                    _ => error_spec(after_paren, "Expected '{' after parameters"@),
                                };
                                let in_body = advance_spec(checked);
                                if in_body.rest.len() <= p.rest.len() {
                                    let (after_body, rb) = parse_block_spec(in_body);
                                    match rb {
                                        Err(_) => (after_body, Err(())),
                                        Ok(body) => (
                                            after_body,
                                            Ok(StmtView::Fn(name, params, Box::new(body))),
                                        ),
                                    }
                                } else {
                                    (in_body, Err(()))
                                }
                            },
                            _ => fail(after_list, "Expected ')' after parameters"@),
                        },
                    }
                },
                _ => fail(after_name, "Expected '(' after identifier"@),
            }
        },
        _ => fail(p, "Expected identifier after function definition"@),
    }
}

/// A statement: the token ahead decides which.
pub open spec fn parse_stmt_spec(p: ParserView) -> StmtResult
    decreases p.rest.len(), 22nat,
{
    match peek_spec(p) {
        TokenView::Let => parse_let_spec(advance_spec(p)),
        TokenView::LBrace => parse_block_spec(advance_spec(p)),
        TokenView::If => parse_if_spec(advance_spec(p)),
        TokenView::While => parse_while_spec(advance_spec(p)),
        TokenView::Function => parse_fn_spec(advance_spec(p)),
        TokenView::Return => parse_return_spec(advance_spec(p)),
        _ => parse_expr_stmt_spec(p),
    }
}

/// The statements of a program up to the first `EOF`. After a statement
/// that fails the parser recovers and reads on; the statement is left out.
pub open spec fn parse_spec(p: ParserView) -> (ParserView, Seq<StmtView>)
    decreases p.rest.len(), 26nat,
{
    match peek_spec(p) {
        TokenView::EOF => (p, Seq::empty()),
        _ => {
            let (q, r) = parse_stmt_spec(p);
            let (q1, head) = match r {
                Ok(s) => (q, seq![s]),
                Err(_) => (synchronize_spec(q), Seq::empty()),
            };
            if q1.rest.len() < p.rest.len() {
                let (q2, tail) = parse_spec(q1);
                (q2, head + tail)
            } else {
                (q1, head)
            }
        },
    }
}

} // verus!
