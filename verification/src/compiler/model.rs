//! What the compiler emits, as a function of the syntax tree.
//!
//! Jump targets are absolute, so the code of a statement depends on the
//! position `base` at which it is placed in its instruction sequence. The
//! body of a function is a sequence of its own and starts at position zero.

use vstd::prelude::*;
use crate::parser::ast::{BinOp, ExprView, LiteralView, StmtView, UnaryOp};
use crate::vm::opcode::{OpcodeView, ValueView};

verus! {

/// A construct that cannot be compiled.
#[derive(Debug, Clone, Copy, PartialEq, Eq, Structural)]
pub enum CompileError {
    /// A parameter of a function declaration is not a bare identifier.
    InvalidParameter,
    /// The callee of a call is neither an identifier nor another call.
    InvalidCallee,
    /// A statement stands where the language requires a block.
    ExpectedBlock,
}

/// The instructions emitted for a construct, or the error that stops its
/// compilation.
pub type Code = Result<Seq<OpcodeView>, CompileError>;

/// The code `rest` placed behind the instructions `done`.
pub open spec fn after(done: Seq<OpcodeView>, rest: Code) -> Code {
    match rest {
        Err(err) => Err(err),
        Ok(c) => Ok(done + c),
    }
}

/// The value that a literal pushes.
pub open spec fn literal_value(l: LiteralView) -> ValueView {
    match l {
        LiteralView::Int(i) => ValueView::Int(i),
        LiteralView::Bool(b) => ValueView::Boolean(b),
        LiteralView::Text(s) => ValueView::String(s),
    }
}

/// The instruction of a binary operator.
pub open spec fn binary_code(op: BinOp) -> OpcodeView {
    match op {
        BinOp::Plus => OpcodeView::Add,
        BinOp::Minus => OpcodeView::Subtract,
        BinOp::Multiply => OpcodeView::Multiply,
        BinOp::Divide => OpcodeView::Divide,
        BinOp::Equal => OpcodeView::Equal,
        BinOp::Greater => OpcodeView::Greater,
        BinOp::GreaterEqual => OpcodeView::GreaterEqual,
        BinOp::Less => OpcodeView::Less,
        BinOp::LessEqual => OpcodeView::LessEqual,
        BinOp::NotEqual => OpcodeView::NotEqual,
    }
}

/// The instructions of a unary operator. A unary plus needs none.
pub open spec fn unary_code(op: UnaryOp) -> Seq<OpcodeView> {
    match op {
        UnaryOp::Not => seq![OpcodeView::Not],
        UnaryOp::UnaryMinus => seq![OpcodeView::Negate],
        UnaryOp::UnaryPlus => Seq::empty(),
    }
}

/// The code of an expression: it leaves the expression's value on the stack.
/// Operands are evaluated left to right, then the operator is applied. A
/// call evaluates its arguments left to right, then its callee.
pub open spec fn compile_expr_spec(e: ExprView) -> Code
    decreases e,
{
    match e {
        ExprView::Literal(l) => Ok(seq![OpcodeView::Push(literal_value(l))]),
        ExprView::Ident(name) => Ok(seq![OpcodeView::Load(name)]),
        ExprView::Binary(left, op, right) => match compile_expr_spec(*left) {
            Err(err) => Err(err),
            Ok(lc) => match compile_expr_spec(*right) {
                Err(err) => Err(err),
                Ok(rc) => Ok((lc + rc).push(binary_code(op))),
            },
        },
        ExprView::Unary(op, operand) => match compile_expr_spec(*operand) {
            Err(err) => Err(err),
            Ok(c) => Ok(c + unary_code(op)),
        },
        ExprView::Assignment(name, value) => match compile_expr_spec(*value) {
            Err(err) => Err(err),
            Ok(c) => Ok(c.push(OpcodeView::Store(name))),
        },
        ExprView::Call(callee, args) => match compile_exprs_spec(args) {
            Err(err) => Err(err),
            Ok(ac) => match *callee {
                ExprView::Call(_, _) => match compile_expr_spec(*callee) {
                    Err(err) => Err(err),
                    Ok(cc) => Ok((ac + cc).push(OpcodeView::Call(args.len()))),
                },
                ExprView::Ident(name) => Ok(
                    ac.push(OpcodeView::Load(name)).push(OpcodeView::Call(args.len())),
                ),
                _ => Err(CompileError::InvalidCallee),
            },
        },
    }
}

/// The code of a list of expressions, one after the other.
pub open spec fn compile_exprs_spec(es: Seq<ExprView>) -> Code
    decreases es,
{
    if es.len() == 0 {
        Ok(Seq::empty())
    } else {
        match compile_expr_spec(es.first()) {
            Err(err) => Err(err),
            Ok(c) => after(c, compile_exprs_spec(es.drop_first())),
        }
    }
}

/// The names of a parameter list. Every parameter must be a bare identifier.
pub open spec fn param_names_spec(params: Seq<ExprView>) -> Result<Seq<Seq<char>>, CompileError> {
    if forall|i: int| 0 <= i < params.len() ==> params[i] is Ident {
        Ok(Seq::new(params.len(), |i: int| params[i]->Ident_0))
    } else {
        Err(CompileError::InvalidParameter)
    }
}

/// The code of a statement placed at position `base`.
pub open spec fn compile_stmt_spec(s: StmtView, base: nat) -> Code
    decreases s, 1nat,
{
    match s {
        StmtView::Expr(e) => match compile_expr_spec(e) {
            Err(err) => Err(err),
            Ok(c) => Ok(c.push(OpcodeView::Pop)),
        },
        StmtView::Let(name, None) => Ok(seq![OpcodeView::Register(name)]),
        StmtView::Let(name, Some(e)) => match compile_expr_spec(e) {
            Err(err) => Err(err),
            Ok(c) => Ok(
                (seq![OpcodeView::Register(name)] + c).push(OpcodeView::Store(name)).push(
                    OpcodeView::Pop,
                ),
            ),
        },
        StmtView::Return(None) => Ok(seq![OpcodeView::Return]),
        StmtView::Return(Some(e)) => match compile_expr_spec(e) {
            Err(err) => Err(err),
            Ok(c) => Ok(c.push(OpcodeView::Return)),
        },
        StmtView::Block(stmts) => compile_block_spec(s, base),
        StmtView::Fn(name, params, body) => match param_names_spec(params) {
            Err(err) => Err(err),
            Ok(names) => match *body {
                StmtView::Block(stmts) => match compile_stmts_spec(stmts, 0) {
                    Err(err) => Err(err),
                    Ok(c) => Ok(seq![OpcodeView::StoreFunction(name, names, c)]),
                },
                _ => Err(CompileError::ExpectedBlock),
            },
        },
        StmtView::While(condition, body) => match compile_expr_spec(condition) {
            Err(err) => Err(err),
            Ok(cc) => match compile_block_spec(*body, base + cc.len() + 1) {
                Err(err) => Err(err),
                Ok(bc) => {
                    let exit = base + cc.len() + 1 + bc.len() + 1;
                    Ok(
                        (cc.push(OpcodeView::JumpIfFalse(exit as nat)) + bc).push(
                            OpcodeView::Jump(base),
                        ),
                    )
                },
            },
        },
        StmtView::If(condition, body, alt) => match compile_expr_spec(condition) {
            Err(err) => Err(err),
            Ok(cc) => match compile_block_spec(*body, base + cc.len() + 1) {
                Err(err) => Err(err),
                Ok(tc) => match alt {
                    None => {
                        let exit = base + cc.len() + 1 + tc.len();
                        Ok(cc.push(OpcodeView::JumpIfFalse(exit as nat)) + tc)
                    },
                    Some(other) => {
                        let else_start = base + cc.len() + 1 + tc.len() + 1;
                        match compile_else_spec(*other, else_start as nat) {
                            Err(err) => Err(err),
                            Ok(ec) => {
                                let exit = else_start + ec.len();
                                Ok(
                                    (cc.push(OpcodeView::JumpIfFalse(else_start as nat))
                                        + tc).push(OpcodeView::Jump(exit as nat)) + ec,
                                )
                            },
                        }
                    },
                },
            },
        },
    }
}

/// The code of a block placed at position `base`: its statements between the
/// markers that enter and leave a scope. Anything but a block is an error.
pub open spec fn compile_block_spec(s: StmtView, base: nat) -> Code
    decreases s, 0nat,
{
    match s {
        StmtView::Block(stmts) => match compile_stmts_spec(stmts, base + 1) {
            Err(err) => Err(err),
            Ok(c) => Ok((seq![OpcodeView::BeginScope] + c).push(OpcodeView::EndScope)),
        },
        _ => Err(CompileError::ExpectedBlock),
    }
}

/// The code of an else branch placed at position `base`: a block or another
/// if statement.
pub open spec fn compile_else_spec(s: StmtView, base: nat) -> Code
    decreases s, 2nat,
{
    match s {
        StmtView::Block(_) => compile_block_spec(s, base),
        StmtView::If(_, _, _) => compile_stmt_spec(s, base),
        _ => Err(CompileError::ExpectedBlock),
    }
}

/// The code of a list of statements placed at position `base`, one after the
/// other.
pub open spec fn compile_stmts_spec(ss: Seq<StmtView>, base: nat) -> Code
    decreases ss, 0nat,
{
    if ss.len() == 0 {
        Ok(Seq::empty())
    } else {
        match compile_stmt_spec(ss.first(), base) {
            Err(err) => Err(err),
            Ok(c) => after(c, compile_stmts_spec(ss.drop_first(), base + c.len())),
        }
    }
}

/// What a compiling operation owes: on success the instructions of
/// `expected` are appended, on failure nothing is emitted.
pub open spec fn emits(
    before: Seq<OpcodeView>,
    after: Seq<OpcodeView>,
    r: Result<(), CompileError>,
    expected: Code,
) -> bool {
    match expected {
        Ok(c) => r == Ok::<(), CompileError>(()) && after == before + c,
        Err(e) => r == Err::<(), CompileError>(e) && after == before,
    }
}

} // verus!
