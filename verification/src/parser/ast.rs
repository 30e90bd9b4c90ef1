//! The syntax tree.

use vstd::prelude::*;

verus! {

/// A program: its statements in order.
pub type Program = Vec<Stmt>;

/// A statement.
#[derive(Debug, PartialEq, Eq)]
pub enum Stmt {
    /// A binding, with or without an initializer.
    LetStmt(Ident, Option<Expr>),
    ReturnStmt(Option<Expr>),
    ExprStmt(Expr),
    BlockStmt(Vec<Stmt>),
    /// Condition, then-block, and an optional else: a block or another if.
    IfStmt(Expr, Box<Stmt>, Option<Box<Stmt>>),
    /// Condition and body block.
    WhileStmt(Expr, Box<Stmt>),
    /// Name, parameters and body block.
    FnStmt(Ident, Vec<Expr>, Box<Stmt>),
}

/// An expression.
#[derive(Debug, PartialEq, Eq)]
pub enum Expr {
    IdentExpr(Ident),
    LiteralExpr(Literal),
    AssignmentExpr(Ident, Box<Expr>),
    UnaryExpr(UnaryOp, Box<Expr>),
    BinExpr(Box<Expr>, BinOp, Box<Expr>),
    /// Callee and arguments.
    CallExpr(Box<Expr>, Vec<Expr>),
}

/// A literal.
#[derive(Eq, PartialEq, Debug)]
pub enum Literal {
    IntLiteral(i64),
    BoolLiteral(bool),
    StringLiteral(String),
}

/// A name.
#[derive(Eq, PartialEq, Debug)]
pub struct Ident(pub String);

/// A prefix operator.
#[derive(Eq, PartialEq, Clone, Copy, Debug, Structural)]
pub enum UnaryOp {
    UnaryPlus,
    UnaryMinus,
    Not,
}

/// A binary operator.
#[derive(Eq, PartialEq, Clone, Copy, Debug, Structural)]
pub enum BinOp {
    Plus,
    Minus,
    Divide,
    Multiply,
    Less,
    Greater,
    LessEqual,
    GreaterEqual,
    Equal,
    NotEqual,
}

/// Mathematical model of a [`Literal`].
pub enum LiteralView {
    Int(i64),
    Bool(bool),
    Text(Seq<char>),
}

/// Mathematical model of an [`Expr`].
pub enum ExprView {
    Ident(Seq<char>),
    Literal(LiteralView),
    Assignment(Seq<char>, Box<ExprView>),
    Unary(UnaryOp, Box<ExprView>),
    Binary(Box<ExprView>, BinOp, Box<ExprView>),
    Call(Box<ExprView>, Seq<ExprView>),
}

/// Mathematical model of a [`Stmt`].
pub enum StmtView {
    Let(Seq<char>, Option<ExprView>),
    Return(Option<ExprView>),
    Expr(ExprView),
    Block(Seq<StmtView>),
    If(ExprView, Box<StmtView>, Option<Box<StmtView>>),
    While(ExprView, Box<StmtView>),
    Fn(Seq<char>, Seq<ExprView>, Box<StmtView>),
}

impl View for Ident {
    type V = Seq<char>;

    open spec fn view(&self) -> Seq<char> {
        self.0@
    }
}

impl View for Literal {
    type V = LiteralView;

    open spec fn view(&self) -> LiteralView {
        match self {
            Literal::IntLiteral(i) => LiteralView::Int(*i),
            Literal::BoolLiteral(b) => LiteralView::Bool(*b),
            Literal::StringLiteral(s) => LiteralView::Text(s@),
        }
    }
}

/// The model of an expression.
pub open spec fn expr_view(e: Expr) -> ExprView
    decreases e,
{
    match e {
        Expr::IdentExpr(id) => ExprView::Ident(id@),
        Expr::LiteralExpr(l) => ExprView::Literal(l@),
        Expr::AssignmentExpr(id, value) => ExprView::Assignment(id@, Box::new(expr_view(*value))),
        Expr::UnaryExpr(op, operand) => ExprView::Unary(op, Box::new(expr_view(*operand))),
        Expr::BinExpr(left, op, right) => ExprView::Binary(
            Box::new(expr_view(*left)),
            op,
            Box::new(expr_view(*right)),
        ),
        Expr::CallExpr(callee, args) => ExprView::Call(
            Box::new(expr_view(*callee)),
            exprs_view(args@),
        ),
    }
}

/// The model of a list of expressions, one by one.
pub open spec fn exprs_view(es: Seq<Expr>) -> Seq<ExprView>
    decreases es,
{
    Seq::new(
        es.len(),
        |i: int|
            if 0 <= i < es.len() {
                expr_view(es[i])
            } else {
                arbitrary()
            },
    )
}

/// The model of an optional expression.
pub open spec fn opt_expr_view(e: Option<Expr>) -> Option<ExprView> {
    match e {
        Some(e) => Some(expr_view(e)),
        None => None,
    }
}

/// The model of a statement.
pub open spec fn stmt_view(s: Stmt) -> StmtView
    decreases s,
{
    match s {
        Stmt::LetStmt(id, init) => StmtView::Let(id@, opt_expr_view(init)),
        Stmt::ReturnStmt(value) => StmtView::Return(opt_expr_view(value)),
        Stmt::ExprStmt(e) => StmtView::Expr(expr_view(e)),
        Stmt::BlockStmt(stmts) => StmtView::Block(stmts_view(stmts@)),
        Stmt::IfStmt(condition, body, alt) => StmtView::If(
            expr_view(condition),
            Box::new(stmt_view(*body)),
            match alt {
                Some(a) => Some(Box::new(stmt_view(*a))),
                None => None,
            },
        ),
        Stmt::WhileStmt(condition, body) => StmtView::While(
            expr_view(condition),
            Box::new(stmt_view(*body)),
        ),
        Stmt::FnStmt(id, params, body) => StmtView::Fn(
            id@,
            exprs_view(params@),
            Box::new(stmt_view(*body)),
        ),
    }
}

/// The model of a list of statements, one by one.
pub open spec fn stmts_view(ss: Seq<Stmt>) -> Seq<StmtView>
    decreases ss,
{
    Seq::new(
        ss.len(),
        |i: int|
            if 0 <= i < ss.len() {
                stmt_view(ss[i])
            } else {
                arbitrary()
            },
    )
}

impl View for Expr {
    type V = ExprView;

    open spec fn view(&self) -> ExprView {
        expr_view(*self)
    }
}

impl View for Stmt {
    type V = StmtView;

    open spec fn view(&self) -> StmtView {
        stmt_view(*self)
    }
}

} // verus!
