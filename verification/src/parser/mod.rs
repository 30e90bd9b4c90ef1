//! The parser: from tokens to a syntax tree, by recursive descent.

pub mod ast;
pub mod laws;
pub mod model;

use vstd::prelude::*;
use crate::lexer::token::{tokens_view, Token, TokenView, Tokens};
use crate::parser::ast::{
    exprs_view, stmts_view, BinOp, Expr, ExprView, Ident, Literal, Program,
    Stmt, StmtView, UnaryOp,
};
use crate::parser::model::{
    advance_spec, error_spec, level_op, parse_assignment_spec, parse_binary_rest_spec,
    parse_binary_spec, parse_block_items_spec, parse_block_spec, parse_call_rest_spec,
    parse_call_spec, parse_expr_spec, parse_expr_stmt_spec, parse_fn_spec, parse_if_spec,
    parse_let_spec, parse_list_rest_spec, parse_list_spec, parse_primary_spec, parse_return_spec,
    parse_spec, parse_stmt_spec, parse_unary_spec, parse_while_spec, peek_spec, synchronize_spec,
    no_retreat, progress, ParseErrorView, ParserView,
};

verus! {

/// A position in a list of tokens. Its view is the tokens that lie ahead.
pub struct TokenCursor<'a> {
    tokens: &'a Vec<Token>,
    pos: usize,
}

impl<'a> View for TokenCursor<'a> {
    type V = Seq<TokenView>;

    closed spec fn view(&self) -> Seq<TokenView> {
        tokens_view(self.tokens@).subrange(self.pos as int, self.tokens@.len() as int)
    }
}

impl<'a> TokenCursor<'a> {
    /// The position lies inside the list or at its end.
    #[verifier::type_invariant]
    spec fn inv(&self) -> bool {
        self.pos <= self.tokens@.len()
    }

    /// A cursor at the start of `input`.
    pub fn new(input: &'a Tokens) -> (r: Self)
        ensures
            r@ == tokens_view(input@),
    {
        assert(tokens_view(input@).subrange(0, input@.len() as int) =~= tokens_view(input@));
        Self { tokens: input, pos: 0 }
    }

    /// The token ahead, which stays ahead.
    pub fn peek_first(&self) -> (r: Option<&'a Token>)
        ensures
            match r {
                Some(t) => self@.len() > 0 && t@ == self@[0],
                None => self@.len() == 0,
            },
    {
        proof {
            use_type_invariant(self);
        }
        if self.pos < self.tokens.len() {
            Some(&self.tokens[self.pos])
        } else {
            None
        }
    }

    /// Takes the token ahead. At the end of the list nothing changes.
    pub fn next(&mut self) -> (r: Option<&'a Token>)
        ensures
            match r {
                Some(t) => old(self)@.len() > 0 && t@ == old(self)@[0] && final(self)@ == old(
                    self,
                )@.drop_first(),
                None => old(self)@.len() == 0 && final(self)@ == old(self)@,
            },
    {
        proof {
            use_type_invariant(&*self);
        }
        if self.pos < self.tokens.len() {
            let t = &self.tokens[self.pos];
            self.pos = self.pos + 1;
            assert(self@ =~= old(self)@.drop_first());
            Some(t)
        } else {
            None
        }
    }
}

/// An error found while parsing: the last token taken before it was found,
/// and what was wrong.
#[derive(Debug)]
pub struct ParseError {
    pub token: Token,
    pub message: String,
}

impl View for ParseError {
    type V = ParseErrorView;

    open spec fn view(&self) -> ParseErrorView {
        ParseErrorView { token: self.token@, message: self.message@ }
    }
}

/// The model of a list of errors, one by one.
pub open spec fn errors_view(errors: Seq<ParseError>) -> Seq<ParseErrorView> {
    Seq::new(errors.len(), |i: int| errors[i]@)
}

/// The model of the outcome of parsing an expression.
pub open spec fn expr_result(r: Result<Expr, ()>) -> Result<ExprView, ()> {
    match r {
        Ok(e) => Ok(e@),
        Err(_) => Err(()),
    }
}

/// The model of the outcome of parsing a statement.
pub open spec fn stmt_result(r: Result<Stmt, ()>) -> Result<StmtView, ()> {
    match r {
        Ok(s) => Ok(s@),
        Err(_) => Err(()),
    }
}

/// The model of the outcome of parsing a list of expressions.
pub open spec fn list_result(r: Result<Vec<Expr>, ()>) -> Result<Seq<ExprView>, ()> {
    match r {
        Ok(es) => Ok(exprs_view(es@)),
        Err(_) => Err(()),
    }
}

/// The binary operator that `token` is on a level of precedence.
fn level_operator(level: u8, token: &Token) -> (r: Option<BinOp>)
    ensures
        r == level_op(level as nat, token@),
{
    if level == 0 {
        match token {
            Token::Equal => Some(BinOp::Equal),
            Token::NotEqual => Some(BinOp::NotEqual),
            _ => None,
        }
    } else if level == 1 {
        match token {
            Token::Less => Some(BinOp::Less),
            Token::LessEqual => Some(BinOp::LessEqual),
            Token::Greater => Some(BinOp::Greater),
            Token::GreaterEqual => Some(BinOp::GreaterEqual),
            _ => None,
        }
    } else if level == 2 {
        match token {
            Token::Plus => Some(BinOp::Plus),
            Token::Minus => Some(BinOp::Minus),
            _ => None,
        }
    } else if level == 3 {
        match token {
            Token::Multiply => Some(BinOp::Multiply),
            Token::Divide => Some(BinOp::Divide),
            _ => None,
        }
    } else {
        None
    }
}

/// The parser, with the errors it has found so far.
pub struct Parser<'a> {
    previous: Token,
    token_cursor: TokenCursor<'a>,
    pub errors: Vec<ParseError>,
}

impl<'a> View for Parser<'a> {
    type V = ParserView;

    closed spec fn view(&self) -> ParserView {
        ParserView {
            rest: self.token_cursor@,
            previous: self.previous@,
            errors: errors_view(self.errors@),
        }
    }
}

impl<'a> Parser<'a> {
    /// A parser at the start of `tokens`, with no error found.
    pub fn new(tokens: &'a Tokens) -> (r: Self)
        ensures
            r@ == (ParserView {
                rest: tokens_view(tokens@),
                previous: TokenView::EOF,
                errors: Seq::empty(),
            }),
    {
        let r = Self { previous: Token::EOF, token_cursor: TokenCursor::new(tokens), errors: Vec::new() };
        assert(r@.errors =~= Seq::<ParseErrorView>::empty());
        r
    }

    /// Takes the token ahead.
    fn advance(&mut self)
        ensures
            final(self)@ == advance_spec(old(self)@),
    {
        match self.token_cursor.next() {
            Some(tok) => {
                self.previous = tok.clone();
            },
            None => {
                self.previous = Token::EOF;
            },
        }
    }

    /// A copy of the token ahead.
    fn peek(&self) -> (r: Token)
        ensures
            r@ == peek_spec(self@),
    {
        match self.token_cursor.peek_first() {
            Some(tok) => tok.clone(),
            None => Token::EOF,
        }
    }

    /// Records an error at the token taken last.
    fn error(&mut self, message: &str)
        ensures
            final(self)@ == error_spec(old(self)@, message@),
    {
        let e = ParseError { token: self.previous.clone(), message: message.to_owned() };
        self.errors.push(e);
        assert(self@.errors =~= error_spec(old(self)@, message@).errors);
    }

    /// Skips tokens up to the start of the next statement.
    fn synchronize(&mut self)
        ensures
            final(self)@ == synchronize_spec(old(self)@),
            no_retreat(old(self)@, final(self)@),
    {
        loop
            invariant
                synchronize_spec(self@) == synchronize_spec(old(self)@),
                no_retreat(old(self)@, self@),
            decreases self@.rest.len(),
        {
            match self.peek() {
                Token::Let | Token::If | Token::Return | Token::Function | Token::EOF => {
                    return ;
                },
                Token::SemiColon => {
                    self.advance();
                    return ;
                },
                _ => {
                    self.advance();
                },
            }
        }
    }

    /// Parses the program: the statements up to the first `EOF`. A
    /// statement that cannot be parsed is left out and its error recorded.
    pub fn parse(&mut self) -> (r: Program)
        ensures
            (final(self)@, stmts_view(r@)) == parse_spec(old(self)@),
    {
        let mut statements: Vec<Stmt> = Vec::new();
        proof {
            assert(stmts_view(statements@) =~= Seq::<StmtView>::empty());
            assert(Seq::<StmtView>::empty() + parse_spec(self@).1 =~= parse_spec(self@).1);
        }
        loop
            invariant_except_break
                parse_spec(old(self)@).0 == parse_spec(self@).0,
                parse_spec(old(self)@).1 == stmts_view(statements@) + parse_spec(self@).1,
            ensures
                (self@, stmts_view(statements@)) == parse_spec(old(self)@),
            decreases self@.rest.len(),
        {
            let ghost p = self@;
            let ghost done = stmts_view(statements@);
            match self.peek() {
                Token::EOF => {
                    proof {
                        assert(done + Seq::<StmtView>::empty() =~= done);
                    }
                    break ;
                },
                _ => {},
            }
            match self.parse_stmt() {
                Ok(stmt) => {
                    statements.push(stmt);
                    proof {
                        assert(stmts_view(statements@) =~= done + seq![stmt@]);
                    }
                },
                Err(_) => {
                    self.synchronize();
                    proof {
                        assert(done + Seq::<StmtView>::empty() =~= done);
                    }
                },
            }
            proof {
                let (q, r) = parse_stmt_spec(p);
                let head = match r {
                    Ok(s) => seq![s],
                    Err(_) => Seq::<StmtView>::empty(),
                };
                let tail = parse_spec(self@).1;
                assert(parse_spec(p).1 == head + tail);
                assert(done + (head + tail) =~= (done + head) + tail);
            }
        }
        statements
    }

    /// Parses a statement.
    fn parse_stmt(&mut self) -> (r: Result<Stmt, ()>)
        ensures
            (final(self)@, stmt_result(r)) == parse_stmt_spec(old(self)@),
            progress(old(self)@, final(self)@),
        decreases old(self)@.rest.len(), 22nat,
    {
        match self.peek() {
            Token::Let => {
                self.advance();
                self.parse_let()
            },
            Token::LBrace => {
                self.advance();
                self.parse_block()
            },
            Token::If => {
                self.advance();
                self.parse_if()
            },
            Token::While => {
                self.advance();
                self.parse_while()
            },
            Token::Function => {
                self.advance();
                self.parse_fn()
            },
            Token::Return => {
                self.advance();
                self.parse_return()
            },
            _ => self.parse_expr_stmt(),
        }
    }

    /// Parses a return behind `return`.
    fn parse_return(&mut self) -> (r: Result<Stmt, ()>)
        ensures
            (final(self)@, stmt_result(r)) == parse_return_spec(old(self)@),
            no_retreat(old(self)@, final(self)@),
        decreases old(self)@.rest.len(), 21nat,
    {
        match self.peek() {
            Token::SemiColon => {
                self.advance();
                Ok(Stmt::ReturnStmt(None))
            },
            _ => {
                let expr = match self.parse_expr() {
                    Ok(e) => e,
                    Err(_) => {
                        return Err(());
                    },
                };
                match self.peek() {
                    Token::SemiColon => {
                        self.advance();
                        Ok(Stmt::ReturnStmt(Some(expr)))
                    },
                    _ => {
                        self.error("Expected ';' after statement");
                        Err(())
                    },
                }
            },
        }
    }

    /// Parses a list of arguments or parameters behind the opening
    /// parenthesis.
    fn parse_list(&mut self, message: &str) -> (r: Result<Vec<Expr>, ()>)
        ensures
            (final(self)@, list_result(r)) == parse_list_spec(old(self)@, message@),
            no_retreat(old(self)@, final(self)@),
        decreases old(self)@.rest.len(), 25nat,
    {
        let mut items: Vec<Expr> = Vec::new();
        match self.peek() {
            Token::RParen => {
                assert(exprs_view(items@) =~= Seq::<ExprView>::empty());
                return Ok(items);
            },
            _ => {},
        }
        match self.parse_expr() {
            Ok(e) => {
                items.push(e);
                assert(exprs_view(items@) =~= seq![e@]);
            },
            Err(_) => {
                return Err(());
            },
        }
        loop
            invariant
                parse_list_rest_spec(self@, exprs_view(items@), message@) == parse_list_spec(
                    old(self)@,
                    message@,
                ),
                no_retreat(old(self)@, self@),
                items@.len() <= 255,
            decreases self@.rest.len(),
        {
            let ghost acc = exprs_view(items@);
            match self.peek() {
                Token::Comma => {
                    self.advance();
                    match self.parse_expr() {
                        Ok(e) => {
                            items.push(e);
                            assert(exprs_view(items@) =~= acc.push(e@));
                        },
                        Err(_) => {
                            return Err(());
                        },
                    }
                    if items.len() > 255 {
                        self.error(message);
                        return Err(());
                    }
                },
                _ => {
                    return Ok(items);
                },
            }
        }
    }

    /// Parses a function declaration behind `fn`.
    fn parse_fn(&mut self) -> (r: Result<Stmt, ()>)
        ensures
            (final(self)@, stmt_result(r)) == parse_fn_spec(old(self)@),
            no_retreat(old(self)@, final(self)@),
        decreases old(self)@.rest.len(), 25nat,
    {
        match self.peek() {
            Token::Ident(ident) => {
                self.advance();
                match self.peek() {
                    Token::LParen => {},
                    _ => {
                        self.error("Expected '(' after identifier");
                        return Err(());
                    },
                }
                self.advance();
                let parameters = match self.parse_list("Cannot have more than 255 parameters") {
                    Ok(list) => list,
                    Err(_) => {
                        return Err(());
                    },
                };
                match self.peek() {
                    Token::RParen => {},
                    _ => {
                        self.error("Expected ')' after parameters");
                        return Err(());
                    },
                }
                self.advance();
                match self.peek() {
                    Token::LBrace => {},
                    _ => {
                        self.error("Expected '{' after parameters");
                    },
                }
                self.advance();
                match self.parse_block() {
                    Ok(body) => Ok(Stmt::FnStmt(Ident(ident), parameters, Box::new(body))),
                    Err(_) => Err(()),
                }
            },
            _ => {
                self.error("Expected identifier after function definition");
                Err(())
            },
        }
    }

    /// Parses a loop behind `while`.
    fn parse_while(&mut self) -> (r: Result<Stmt, ()>)
        ensures
            (final(self)@, stmt_result(r)) == parse_while_spec(old(self)@),
            no_retreat(old(self)@, final(self)@),
        decreases old(self)@.rest.len(), 25nat,
    {
        let condition = match self.parse_expr() {
            Ok(e) => e,
            Err(_) => {
                return Err(());
            },
        };
        match self.peek() {
            Token::LBrace => {},
            _ => {
                self.error("Expect '{' after while condition");
                return Err(());
            },
        }
        self.advance();
        match self.parse_block() {
            Ok(loop_block) => Ok(Stmt::WhileStmt(condition, Box::new(loop_block))),
            Err(_) => Err(()),
        }
    }

    /// Parses an if statement behind `if`.
    fn parse_if(&mut self) -> (r: Result<Stmt, ()>)
        ensures
            (final(self)@, stmt_result(r)) == parse_if_spec(old(self)@),
            no_retreat(old(self)@, final(self)@),
        decreases old(self)@.rest.len(), 25nat,
    {
        let condition = match self.parse_expr() {
            Ok(e) => e,
            Err(_) => {
                return Err(());
            },
        };
        match self.peek() {
            Token::LBrace => {},
            _ => {
                self.error("Expect '{' after if condition");
                return Err(());
            },
        }
        self.advance();
        let then_branch = match self.parse_block() {
            Ok(b) => b,
            Err(_) => {
                return Err(());
            },
        };
        match self.peek() {
            Token::Else => {
                self.advance();
                let parsed = match self.peek() {
                    Token::If => {
                        self.advance();
                        self.parse_if()
                    },
                    Token::LBrace => {
                        self.advance();
                        self.parse_block()
                    },
                    _ => {
                        self.error("Expect '{' or 'if' after else");
                        return Err(());
                    },
                };
                match parsed {
                    Ok(else_branch) => Ok(
                        Stmt::IfStmt(
                            condition,
                            Box::new(then_branch),
                            Some(Box::new(else_branch)),
                        ),
                    ),
                    Err(_) => Err(()),
                }
            },
            _ => Ok(Stmt::IfStmt(condition, Box::new(then_branch), None)),
        }
    }

    /// Parses a block behind its opening brace.
    fn parse_block(&mut self) -> (r: Result<Stmt, ()>)
        ensures
            (final(self)@, stmt_result(r)) == parse_block_spec(old(self)@),
            no_retreat(old(self)@, final(self)@),
        decreases old(self)@.rest.len(), 24nat,
    {
        let mut statements: Vec<Stmt> = Vec::new();
        proof {
            assert(stmts_view(statements@) =~= Seq::<StmtView>::empty());
            assert(Seq::<StmtView>::empty() + parse_block_items_spec(self@).1
                =~= parse_block_items_spec(self@).1);
        }
        loop
            invariant_except_break
                parse_block_items_spec(old(self)@).0 == parse_block_items_spec(self@).0,
                parse_block_items_spec(old(self)@).1 == stmts_view(statements@)
                    + parse_block_items_spec(self@).1,
                no_retreat(old(self)@, self@),
            ensures
                (self@, stmts_view(statements@)) == parse_block_items_spec(old(self)@),
                no_retreat(old(self)@, self@),
            decreases self@.rest.len(),
        {
            let ghost p = self@;
            let ghost done = stmts_view(statements@);
            match self.peek() {
                Token::RBrace | Token::EOF => {
                    proof {
                        assert(done + Seq::<StmtView>::empty() =~= done);
                    }
                    break ;
                },
                _ => {
                    let stmt_res = self.parse_stmt();
                    match stmt_res {
                        Ok(stmt) => {
                            statements.push(stmt);
                            proof {
                                assert(stmts_view(statements@) =~= done + seq![stmt@]);
                            }
                        },
                        Err(_) => {
                            proof {
                                assert(done + Seq::<StmtView>::empty() =~= done);
                            }
                        },
                    }
                    proof {
                        let (q, r) = parse_stmt_spec(p);
                        let head = match r {
                            Ok(s) => seq![s],
                            Err(_) => Seq::<StmtView>::empty(),
                        };
                        let tail = parse_block_items_spec(self@).1;
                        assert(parse_block_items_spec(p).1 == head + tail);
                        assert(done + (head + tail) =~= (done + head) + tail);
                    }
                },
            }
        }
        match self.peek() {
            Token::RBrace => {
                self.advance();
                Ok(Stmt::BlockStmt(statements))
            },
            _ => {
                self.error("Expect '}' after block");
                Err(())
            },
        }
    }

    /// Parses a binding behind `let`.
    fn parse_let(&mut self) -> (r: Result<Stmt, ()>)
        ensures
            (final(self)@, stmt_result(r)) == parse_let_spec(old(self)@),
            no_retreat(old(self)@, final(self)@),
        decreases old(self)@.rest.len(), 21nat,
    {
        match self.peek() {
            Token::Ident(ident) => {
                self.advance();
                match self.peek() {
                    Token::Assign => {
                        self.advance();
                        let expr = match self.parse_expr() {
                            Ok(e) => e,
                            Err(_) => {
                                return Err(());
                            },
                        };
                        match self.peek() {
                            Token::SemiColon => {
                                self.advance();
                                Ok(Stmt::LetStmt(Ident(ident), Some(expr)))
                            },
                            _ => {
                                self.error("Expected ';' after statement");
                                Err(())
                            },
                        }
                    },
                    Token::SemiColon => {
                        self.advance();
                        Ok(Stmt::LetStmt(Ident(ident), None))
                    },
                    _ => {
                        self.error("Expected ';' after statement");
                        Err(())
                    },
                }
            },
            _ => {
                self.error("Expect identifier after 'let'");
                Err(())
            },
        }
    }

    /// Parses an expression statement.
    fn parse_expr_stmt(&mut self) -> (r: Result<Stmt, ()>)
        ensures
            (final(self)@, stmt_result(r)) == parse_expr_stmt_spec(old(self)@),
            progress(old(self)@, final(self)@),
        decreases old(self)@.rest.len(), 20nat,
    {
        let expr = match self.parse_expr() {
            Ok(e) => e,
            Err(_) => {
                return Err(());
            },
        };
        match self.peek() {
            Token::SemiColon => {
                self.advance();
                Ok(Stmt::ExprStmt(expr))
            },
            _ => {
                self.error("Expected ';' after expression");
                Err(())
            },
        }
    }

    /// Parses an expression.
    fn parse_expr(&mut self) -> (r: Result<Expr, ()>)
        ensures
            (final(self)@, expr_result(r)) == parse_expr_spec(old(self)@),
            progress(old(self)@, final(self)@),
        decreases old(self)@.rest.len(), 19nat,
    {
        self.parse_assignment()
    }

    /// Parses an assignment or an expression of the loosest level.
    fn parse_assignment(&mut self) -> (r: Result<Expr, ()>)
        ensures
            (final(self)@, expr_result(r)) == parse_assignment_spec(old(self)@),
            progress(old(self)@, final(self)@),
        decreases old(self)@.rest.len(), 18nat,
    {
        let left = match self.parse_equality() {
            Ok(e) => e,
            Err(_) => {
                return Err(());
            },
        };
        match self.peek() {
            Token::Assign => {
                self.advance();
                let expr = match self.parse_equality() {
                    Ok(e) => e,
                    Err(_) => {
                        return Err(());
                    },
                };
                match left {
                    Expr::IdentExpr(ident) => Ok(Expr::AssignmentExpr(ident, Box::new(expr))),
                    _ => {
                        self.error("Illegal assignment");
                        Err(())
                    },
                }
            },
            _ => Ok(left),
        }
    }

    /// Parses operands joined by `==` and `!=`.
    fn parse_equality(&mut self) -> (r: Result<Expr, ()>)
        ensures
            (final(self)@, expr_result(r)) == parse_binary_spec(old(self)@, 0),
            progress(old(self)@, final(self)@),
        decreases old(self)@.rest.len(), 17nat,
    {
        let mut expr = match self.parse_comparison() {
            Ok(e) => e,
            Err(_) => {
                return Err(());
            },
        };
        loop
            invariant
                parse_binary_rest_spec(self@, 0, expr@) == parse_binary_spec(old(self)@, 0),
                progress(old(self)@, self@),
            decreases self@.rest.len(),
        {
            match level_operator(0, &self.peek()) {
                Some(op) => {
                    self.advance();
                    match self.parse_comparison() {
                        Ok(right) => {
                            expr = Expr::BinExpr(Box::new(expr), op, Box::new(right));
                        },
                        Err(_) => {
                            return Err(());
                        },
                    }
                },
                None => {
                    return Ok(expr);
                },
            }
        }
    }

    /// Parses operands joined by `<`, `<=`, `>` and `>=`.
    fn parse_comparison(&mut self) -> (r: Result<Expr, ()>)
        ensures
            (final(self)@, expr_result(r)) == parse_binary_spec(old(self)@, 1),
            progress(old(self)@, final(self)@),
        decreases old(self)@.rest.len(), 16nat,
    {
        let mut expr = match self.parse_term() {
            Ok(e) => e,
            Err(_) => {
                return Err(());
            },
        };
        loop
            invariant
                parse_binary_rest_spec(self@, 1, expr@) == parse_binary_spec(old(self)@, 1),
                progress(old(self)@, self@),
            decreases self@.rest.len(),
        {
            match level_operator(1, &self.peek()) {
                Some(op) => {
                    self.advance();
                    match self.parse_term() {
                        Ok(right) => {
                            expr = Expr::BinExpr(Box::new(expr), op, Box::new(right));
                        },
                        Err(_) => {
                            return Err(());
                        },
                    }
                },
                None => {
                    return Ok(expr);
                },
            }
        }
    }

    /// Parses operands joined by `+` and `-`.
    fn parse_term(&mut self) -> (r: Result<Expr, ()>)
        ensures
            (final(self)@, expr_result(r)) == parse_binary_spec(old(self)@, 2),
            progress(old(self)@, final(self)@),
        decreases old(self)@.rest.len(), 15nat,
    {
        let mut expr = match self.parse_factor() {
            Ok(e) => e,
            Err(_) => {
                return Err(());
            },
        };
        loop
            invariant
                parse_binary_rest_spec(self@, 2, expr@) == parse_binary_spec(old(self)@, 2),
                progress(old(self)@, self@),
            decreases self@.rest.len(),
        {
            match level_operator(2, &self.peek()) {
                Some(op) => {
                    self.advance();
                    match self.parse_factor() {
                        Ok(right) => {
                            expr = Expr::BinExpr(Box::new(expr), op, Box::new(right));
                        },
                        Err(_) => {
                            return Err(());
                        },
                    }
                },
                None => {
                    return Ok(expr);
                },
            }
        }
    }

    /// Parses operands joined by `*` and `/`.
    fn parse_factor(&mut self) -> (r: Result<Expr, ()>)
        ensures
            (final(self)@, expr_result(r)) == parse_binary_spec(old(self)@, 3),
            progress(old(self)@, final(self)@),
        decreases old(self)@.rest.len(), 14nat,
    {
        assert(parse_binary_spec(self@, 4) == parse_unary_spec(self@));
        let mut expr = match self.parse_unary() {
            Ok(e) => e,
            Err(_) => {
                return Err(());
            },
        };
        loop
            invariant
                parse_binary_rest_spec(self@, 3, expr@) == parse_binary_spec(old(self)@, 3),
                progress(old(self)@, self@),
            decreases self@.rest.len(),
        {
            match level_operator(3, &self.peek()) {
                Some(op) => {
                    self.advance();
                    assert(parse_binary_spec(self@, 4) == parse_unary_spec(self@));
                    match self.parse_unary() {
                        Ok(right) => {
                            expr = Expr::BinExpr(Box::new(expr), op, Box::new(right));
                        },
                        Err(_) => {
                            return Err(());
                        },
                    }
                },
                None => {
                    return Ok(expr);
                },
            }
        }
    }

    /// Parses a unary expression.
    fn parse_unary(&mut self) -> (r: Result<Expr, ()>)
        ensures
            (final(self)@, expr_result(r)) == parse_unary_spec(old(self)@),
            progress(old(self)@, final(self)@),
        decreases old(self)@.rest.len(), 12nat,
    {
        let op = match self.peek() {
            Token::Minus => Some(UnaryOp::UnaryMinus),
            Token::Plus => Some(UnaryOp::UnaryPlus),
            Token::Not => Some(UnaryOp::Not),
            _ => None,
        };
        match op {
            Some(op) => {
                self.advance();
                match self.parse_unary() {
                    Ok(expr) => Ok(Expr::UnaryExpr(op, Box::new(expr))),
                    Err(_) => Err(()),
                }
            },
            None => self.parse_call(),
        }
    }

    /// Parses a primary expression and the calls that follow it.
    fn parse_call(&mut self) -> (r: Result<Expr, ()>)
        ensures
            (final(self)@, expr_result(r)) == parse_call_spec(old(self)@),
            progress(old(self)@, final(self)@),
        decreases old(self)@.rest.len(), 11nat,
    {
        let mut expr = match self.parse_primary() {
            Ok(e) => e,
            Err(_) => {
                return Err(());
            },
        };
        loop
            invariant
                parse_call_rest_spec(self@, expr@) == parse_call_spec(old(self)@),
                progress(old(self)@, self@),
            decreases self@.rest.len(),
        {
            match self.peek() {
                Token::LParen => {
                    self.advance();
                    let arguments = match self.parse_list("Cannot have more than 255 arguments") {
                        Ok(list) => list,
                        Err(_) => {
                            return Err(());
                        },
                    };
                    match self.peek() {
                        Token::RParen => {},
                        _ => {
                            self.error("Expected ')' after arguments");
                            return Err(());
                        },
                    }
                    self.advance();
                    expr = Expr::CallExpr(Box::new(expr), arguments);
                },
                _ => {
                    return Ok(expr);
                },
            }
        }
    }

    /// Parses a primary expression.
    fn parse_primary(&mut self) -> (r: Result<Expr, ()>)
        ensures
            (final(self)@, expr_result(r)) == parse_primary_spec(old(self)@),
            progress(old(self)@, final(self)@),
        decreases old(self)@.rest.len(), 10nat,
    {
        match self.peek() {
            Token::Ident(ident) => {
                self.advance();
                Ok(Expr::IdentExpr(Ident(ident)))
            },
            Token::BooleanLiteral(literal) => {
                self.advance();
                Ok(Expr::LiteralExpr(Literal::BoolLiteral(literal)))
            },
            Token::IntLiteral(literal) => {
                self.advance();
                Ok(Expr::LiteralExpr(Literal::IntLiteral(literal)))
            },
            Token::StringLiteral(literal) => {
                self.advance();
                Ok(Expr::LiteralExpr(Literal::StringLiteral(literal)))
            },
            Token::LParen => {
                self.advance();
                let expr = match self.parse_expr() {
                    Ok(e) => e,
                    Err(_) => {
                        return Err(());
                    },
                };
                match self.peek() {
                    Token::RParen => {
                        self.advance();
                        Ok(expr)
                    },
                    _ => {
                        self.error("Expected ')' after expression");
                        Err(())
                    },
                }
            },
            _ => {
                self.advance();
                self.error("Unexpected Token");
                Err(())
            },
        }
    }
}

} // verus!
