//! The compiler from syntax trees to instruction sequences.
//!
//! Forward jumps are emitted with a placeholder target and patched in place
//! once the destination is known, so one pass over the tree suffices.

pub mod laws;
pub mod model;
pub mod order;

use vstd::prelude::*;
use crate::compiler::model::{
    after, compile_block_spec, compile_else_spec, compile_expr_spec, compile_exprs_spec,
    compile_stmt_spec, compile_stmts_spec, emits, literal_value, param_names_spec, unary_code,
    CompileError,
};
use crate::parser::ast::{
    exprs_view, opt_expr_view, stmts_view, BinOp, Expr, ExprView, Ident, Literal, Program, Stmt,
    StmtView, UnaryOp,
};
use crate::vm::opcode::{code_view, names_view, Opcode, OpcodeView, Value};

verus! {

/// Patching the conditional jump of an if without else gives the layout
/// condition, jump, then-branch.
proof fn lemma_if_layout(
    v0: Seq<OpcodeView>,
    cc: Seq<OpcodeView>,
    tc: Seq<OpcodeView>,
    hole: OpcodeView,
    jump: OpcodeView,
)
    ensures
        ((v0 + cc).push(hole) + tc).update(v0.len() + cc.len() as int, jump) == v0 + (cc.push(jump)
            + tc),
{
    assert(((v0 + cc).push(hole) + tc).update(v0.len() + cc.len() as int, jump) =~= v0 + (cc.push(jump)
        + tc));
}

/// Patching both jumps of an if with else gives the layout condition,
/// conditional jump, then-branch, jump, else-branch.
proof fn lemma_else_layout(
    v0: Seq<OpcodeView>,
    cc: Seq<OpcodeView>,
    tc: Seq<OpcodeView>,
    ec: Seq<OpcodeView>,
    hole1: OpcodeView,
    hole2: OpcodeView,
    jump1: OpcodeView,
    jump2: OpcodeView,
)
    ensures
        (((v0 + cc).push(hole1) + tc).push(hole2).update(v0.len() + cc.len() as int, jump1) + ec).update(
            v0.len() + cc.len() + 1 + tc.len() as int,
            jump2,
        ) == v0 + ((cc.push(jump1) + tc).push(jump2) + ec),
{
    assert((((v0 + cc).push(hole1) + tc).push(hole2).update(v0.len() + cc.len() as int, jump1)
        + ec).update(v0.len() + cc.len() + 1 + tc.len() as int, jump2) =~= v0 + ((cc.push(jump1)
        + tc).push(jump2) + ec));
}

/// Patching the exit jump of a loop gives the layout condition, conditional
/// jump, body, jump back.
proof fn lemma_while_layout(
    v0: Seq<OpcodeView>,
    cc: Seq<OpcodeView>,
    bc: Seq<OpcodeView>,
    hole: OpcodeView,
    back: OpcodeView,
    jump: OpcodeView,
)
    ensures
        ((v0 + cc).push(hole) + bc).push(back).update(v0.len() + cc.len() as int, jump) == v0 + (
        cc.push(jump) + bc).push(back),
{
    assert(((v0 + cc).push(hole) + bc).push(back).update(v0.len() + cc.len() as int, jump) =~= v0 + (
    cc.push(jump) + bc).push(back));
}

/// A compiler, with the instructions it has emitted so far.
pub struct Compiler {
    pub codes: Vec<Opcode>,
}

impl View for Compiler {
    type V = Seq<OpcodeView>;

    open spec fn view(&self) -> Seq<OpcodeView> {
        code_view(self.codes@)
    }
}

impl Compiler {
    /// A compiler that has emitted nothing.
    pub fn new() -> (r: Self)
        ensures
            r@ == Seq::<OpcodeView>::empty(),
    {
        let r = Self { codes: Vec::new() };
        assert(r@ =~= Seq::<OpcodeView>::empty());
        r
    }

    /// Compiles `program` and appends its code to the instructions emitted
    /// so far. If a construct cannot be compiled, nothing is emitted.
    pub fn compile(&mut self, program: &Program) -> (r: Result<(), CompileError>)
        ensures
            emits(
                old(self)@,
                final(self)@,
                r,
                compile_stmts_spec(stmts_view(program@), old(self)@.len()),
            ),
        decreases program, 1nat,
    {
        let start = self.codes.len();
        let ghost all = stmts_view(program@);
        let ghost base = old(self)@.len();
        let ghost done = Seq::<OpcodeView>::empty();
        let mut i: usize = 0;
        proof {
            assert(all.subrange(0, all.len() as int) =~= all);
            assert(old(self)@ + done =~= old(self)@);
        }
        while i < program.len()
            invariant
                i <= program.len(),
                all == stmts_view(program@),
                base == old(self)@.len(),
                start == base,
                self@ == old(self)@ + done,
                compile_stmts_spec(all, base) == after(
                    done,
                    compile_stmts_spec(all.subrange(i as int, all.len() as int), base + done.len()),
                ),
            decreases program.len() - i,
        {
            let ghost rest = all.subrange(i as int, all.len() as int);
            let ghost here = self@;
            proof {
                assert(rest.first() == program@[i as int]@);
                assert(rest.drop_first() =~= all.subrange(i + 1, all.len() as int));
            }
            match self.compile_stmt(&program[i]) {
                Err(e) => {
                    proof {
                        assert(self@.subrange(0, start as int) =~= old(self)@);
                    }
                    return self.fail(start, e);
                },
                Ok(()) => {},
            }
            proof {
                let c = compile_stmt_spec(rest.first(), base + done.len()).unwrap();
                assert(self@ == here + c);
                assert(here + c =~= old(self)@ + (done + c));
                let tail = compile_stmts_spec(rest.drop_first(), base + done.len() + c.len());
                match tail {
                    Ok(d) => {
                        assert(done + (c + d) =~= (done + c) + d);
                    },
                    Err(_) => {},
                }
                done = done + c;
            }
            i = i + 1;
        }
        proof {
            assert(done + Seq::<OpcodeView>::empty() =~= done);
        }
        Ok(())
    }

    /// Drops what was emitted from position `start` on and reports `e`.
    fn fail(&mut self, start: usize, e: CompileError) -> (r: Result<(), CompileError>)
        requires
            start <= old(self)@.len(),
        ensures
            final(self)@ == old(self)@.subrange(0, start as int),
            r == Err::<(), CompileError>(e),
    {
        self.codes.truncate(start);
        assert(self@ =~= old(self)@.subrange(0, start as int));
        Err(e)
    }

    /// Overwrites the instruction at `pos`.
    fn patch(&mut self, pos: usize, code: Opcode)
        requires
            pos < old(self)@.len(),
        ensures
            final(self)@ == old(self)@.update(pos as int, code@),
    {
        self.codes[pos] = code;
        assert(self@ =~= old(self)@.update(pos as int, code@));
    }

    /// Appends one instruction.
    fn emit(&mut self, code: Opcode)
        ensures
            final(self)@ == old(self)@.push(code@),
            final(self).codes@.len() == old(self).codes@.len() + 1,
    {
        self.codes.push(code);
        assert(self@ =~= old(self)@.push(code@));
    }

    /// Compiles one statement.
    fn compile_stmt(&mut self, stmt: &Stmt) -> (r: Result<(), CompileError>)
        ensures
            emits(old(self)@, final(self)@, r, compile_stmt_spec(stmt@, old(self)@.len())),
        decreases stmt, 1nat,
    {
        match stmt {
            Stmt::ExprStmt(expr) => {
                match self.compile_expr(expr) {
                    Err(e) => Err(e),
                    Ok(()) => {
                        self.emit(Opcode::Pop);
                        Ok(())
                    },
                }
            },
            Stmt::LetStmt(ident, expr) => self.compile_let(ident, expr),
            Stmt::FnStmt(ident, params, body) => self.compile_fn(ident, params, body),
            Stmt::BlockStmt(stmts) => self.compile_block(stmts),
            Stmt::IfStmt(_, _, _) => self.compile_if(stmt),
            Stmt::ReturnStmt(expr) => self.compile_ret(expr),
            Stmt::WhileStmt(condition, body) => self.compile_while(condition, body),
        }
    }

    /// Compiles a loop: condition, conditional jump past the loop, body, jump
    /// back to the condition.
    fn compile_while(&mut self, condition: &Expr, body: &Box<Stmt>) -> (r: Result<
        (),
        CompileError,
    >)
        ensures
            emits(
                old(self)@,
                final(self)@,
                r,
                compile_stmt_spec(
                    StmtView::While(condition@, Box::new((**body)@)),
                    old(self)@.len(),
                ),
            ),
        decreases body, 3nat,
    {
        let ghost v0 = old(self)@;
        let ghost base = v0.len();
        let start_pos = self.codes.len();
        match self.compile_expr(condition) {
            Err(e) => {
                return Err(e);
            },
            Ok(()) => {},
        }
        let ghost cc = compile_expr_spec(condition@).unwrap();
        self.emit(Opcode::JumpIfFalse(0));
        let ghost hole = OpcodeView::JumpIfFalse(0);
        let backpatch = self.codes.len() - 1;
        match &**body {
            Stmt::BlockStmt(block) => {
                assert((**body)@ == StmtView::Block(stmts_view(block@)));
                match self.compile_block(block) {
                    Err(e) => {
                        proof {
                            assert(self@.subrange(0, start_pos as int) =~= old(self)@);
                        }
                        return self.fail(start_pos, e);
                    },
                    Ok(()) => {},
                }
            },
            _ => {
                proof {
                    assert(self@.subrange(0, start_pos as int) =~= old(self)@);
                }
                return self.fail(start_pos, CompileError::ExpectedBlock);
            },
        }
        let ghost bc = compile_block_spec((**body)@, (base + cc.len() + 1) as nat).unwrap();
        self.emit(Opcode::Jump(start_pos));
        let pos = self.codes.len();
        self.patch(backpatch, Opcode::JumpIfFalse(pos));
        proof {
            let back = OpcodeView::Jump(base);
            let jump = OpcodeView::JumpIfFalse(pos as nat);
            lemma_while_layout(v0, cc, bc, hole, back, jump);
            assert(pos == base + cc.len() + 1 + bc.len() + 1);
        }
        Ok(())
    }

    /// Compiles a return: the value, if there is one, then the return.
    fn compile_ret(&mut self, expr: &Option<Expr>) -> (r: Result<(), CompileError>)
        ensures
            emits(
                old(self)@,
                final(self)@,
                r,
                compile_stmt_spec(StmtView::Return(opt_expr_view(*expr)), old(self)@.len()),
            ),
    {
        match expr {
            Some(expression) => {
                match self.compile_expr(expression) {
                    Err(e) => {
                        return Err(e);
                    },
                    Ok(()) => {},
                }
                self.emit(Opcode::Return);
            },
            None => {
                self.emit(Opcode::Return);
                assert(self@ =~= old(self)@ + seq![OpcodeView::Return]);
            },
        }
        Ok(())
    }

    /// Compiles an if statement: condition, conditional jump past the
    /// then-branch, then-branch, and with an else a jump past the else-branch
    /// and the else-branch.
    fn compile_if(&mut self, stmt: &Stmt) -> (r: Result<(), CompileError>)
        requires
            stmt is IfStmt,
        ensures
            emits(old(self)@, final(self)@, r, compile_stmt_spec(stmt@, old(self)@.len())),
        decreases stmt, 0nat,
    {
        match stmt {
            Stmt::IfStmt(condition, body, alt) => {
                let ghost v0 = old(self)@;
                let ghost base = v0.len();
                let ghost alt_view: Option<Box<StmtView>> = match alt {
                    Some(a) => Some(Box::new((**a)@)),
                    None => None,
                };
                assert(stmt@ == StmtView::If(condition@, Box::new((**body)@), alt_view));
                let start = self.codes.len();
                match self.compile_expr(condition) {
                    Err(e) => {
                        return Err(e);
                    },
                    Ok(()) => {},
                }
                let ghost cc = compile_expr_spec(condition@).unwrap();
                self.emit(Opcode::JumpIfFalse(0));
                let ghost hole1 = OpcodeView::JumpIfFalse(0);
                let backpatch1 = self.codes.len() - 1;
                assert(self@ == (v0 + cc).push(hole1));
                assert(backpatch1 == base + cc.len());
                match &**body {
                    Stmt::BlockStmt(block) => {
                        assert((**body)@ == StmtView::Block(stmts_view(block@)));
                        match self.compile_block(block) {
                            Err(e) => {
                                proof {
                                    assert(self@.subrange(0, start as int) =~= old(self)@);
                                }
                                return self.fail(start, e);
                            },
                            Ok(()) => {},
                        }
                    },
                    _ => {
                        proof {
                            assert(compile_block_spec((**body)@, (base + cc.len() + 1) as nat)
                                == Err::<Seq<OpcodeView>, CompileError>(
                                CompileError::ExpectedBlock,
                            ));
                            assert(self@.subrange(0, start as int) =~= old(self)@);
                        }
                        return self.fail(start, CompileError::ExpectedBlock);
                    },
                }
                let ghost tc = compile_block_spec((**body)@, (base + cc.len() + 1) as nat).unwrap();
                assert(self@ == (v0 + cc).push(hole1) + tc);
                match alt {
                    None => {
                        let pos1 = self.codes.len();
                        self.patch(backpatch1, Opcode::JumpIfFalse(pos1));
                        proof {
                            let jump1 = OpcodeView::JumpIfFalse(pos1 as nat);
                            lemma_if_layout(v0, cc, tc, hole1, jump1);
                            assert(pos1 == base + cc.len() + 1 + tc.len());
                            assert(compile_stmt_spec(stmt@, base) == Ok::<
                                Seq<OpcodeView>,
                                CompileError,
                            >(cc.push(jump1) + tc));
                        }
                        Ok(())
                    },
                    Some(content) => {
                        self.emit(Opcode::Jump(0));
                        let ghost hole2 = OpcodeView::Jump(0);
                        let backpatch2 = self.codes.len() - 1;
                        let pos1 = self.codes.len();
                        self.patch(backpatch1, Opcode::JumpIfFalse(pos1));
                        let ghost jump1 = OpcodeView::JumpIfFalse(pos1 as nat);
                        let ghost mid = self@;
                        assert(mid == ((v0 + cc).push(hole1) + tc).push(hole2).update(
                            base + cc.len() as int,
                            jump1,
                        ));
                        assert(pos1 == base + cc.len() + 1 + tc.len() + 1);
                        let compiled = match &**content {
                            Stmt::BlockStmt(block) => {
                                assert((**content)@ == StmtView::Block(stmts_view(block@)));
                                self.compile_block(block)
                            },
                            Stmt::IfStmt(_, _, _) => self.compile_if(content),
                            _ => Err(CompileError::ExpectedBlock),
                        };
                        assert(emits(mid, self@, compiled, compile_else_spec((**content)@, pos1 as nat)));
                        match compiled {
                            Err(e) => {
                                proof {
                                    assert(self@.subrange(0, start as int) =~= old(self)@);
                                }
                                return self.fail(start, e);
                            },
                            Ok(()) => {},
                        }
                        let ghost ec = compile_else_spec((**content)@, pos1 as nat).unwrap();
                        let pos2 = self.codes.len();
                        assert(self@ == mid + ec);
                        assert(mid.len() == pos1);
                        assert(self@.len() == pos2);
                        self.patch(backpatch2, Opcode::Jump(pos2));
                        proof {
                            let jump2 = OpcodeView::Jump(pos2 as nat);
                            lemma_else_layout(v0, cc, tc, ec, hole1, hole2, jump1, jump2);
                            assert(pos2 == pos1 + ec.len());
                            assert(compile_stmt_spec(stmt@, base) == Ok::<
                                Seq<OpcodeView>,
                                CompileError,
                            >((cc.push(jump1) + tc).push(jump2) + ec));
                        }
                        Ok(())
                    },
                }
            },
            _ => Ok(()),
        }
    }

    /// Compiles a block: its statements between the markers that enter and
    /// leave a scope.
    fn compile_block(&mut self, stmts: &Vec<Stmt>) -> (r: Result<(), CompileError>)
        ensures
            emits(
                old(self)@,
                final(self)@,
                r,
                compile_block_spec(StmtView::Block(stmts_view(stmts@)), old(self)@.len()),
            ),
        decreases stmts, 2nat,
    {
        let start = self.codes.len();
        self.emit(Opcode::BeginScope);
        match self.compile(stmts) {
            Err(e) => {
                proof {
                    assert(self@.subrange(0, start as int) =~= old(self)@);
                }
                return self.fail(start, e);
            },
            Ok(()) => {},
        }
        self.emit(Opcode::EndScope);
        proof {
            let expected = compile_block_spec(
                StmtView::Block(stmts_view(stmts@)),
                old(self)@.len(),
            ).unwrap();
            assert(self@ =~= old(self)@ + expected);
        }
        Ok(())
    }

    /// Compiles a function declaration: the body becomes a sequence of its own,
    /// carried by one instruction.
    fn compile_fn(&mut self, ident: &Ident, params: &Vec<Expr>, body: &Box<Stmt>) -> (r: Result<
        (),
        CompileError,
    >)
        ensures
            emits(
                old(self)@,
                final(self)@,
                r,
                compile_stmt_spec(
                    StmtView::Fn(ident@, exprs_view(params@), Box::new((**body)@)),
                    old(self)@.len(),
                ),
            ),
        decreases body, 3nat,
    {
        let mut param_names: Vec<String> = Vec::new();
        let ghost views = exprs_view(params@);
        let mut i: usize = 0;
        while i < params.len()
            invariant
                i <= params.len(),
                views == exprs_view(params@),
                param_names@.len() == i,
                forall|j: int|
                    #![trigger views[j]]
                    0 <= j < i ==> views[j] is Ident && views[j]->Ident_0 == param_names@[j]@,
            decreases params.len() - i,
        {
            match &params[i] {
                Expr::IdentExpr(name) => {
                    assert(views[i as int] == ExprView::Ident(name@));
                    param_names.push(name.0.clone());
                },
                _ => {
                    assert(!(views[i as int] is Ident));
                    return Err(CompileError::InvalidParameter);
                },
            }
            i = i + 1;
        }
        proof {
            assert(param_names_spec(views) is Ok);
            assert(names_view(param_names@) =~= param_names_spec(views).unwrap());
        }
        match &**body {
            Stmt::BlockStmt(block) => {
                let mut sub_compiler = Compiler::new();
                match sub_compiler.compile(block) {
                    Err(e) => {
                        return Err(e);
                    },
                    Ok(()) => {},
                }
                proof {
                    let c = compile_stmts_spec(stmts_view(block@), 0).unwrap();
                    assert(Seq::<OpcodeView>::empty() + c =~= c);
                }
                self.emit(Opcode::StoreFunction(ident.0.clone(), param_names, sub_compiler.codes));
                proof {
                    let expected = compile_stmt_spec(
                        StmtView::Fn(ident@, exprs_view(params@), Box::new((**body)@)),
                        old(self)@.len(),
                    ).unwrap();
                    assert(self@ =~= old(self)@ + expected);
                }
                Ok(())
            },
            _ => Err(CompileError::ExpectedBlock),
        }
    }

    /// Compiles a binding: the declaration, then the initializer, the store and
    /// the discarding of the stored value.
    fn compile_let(&mut self, ident: &Ident, expr: &Option<Expr>) -> (r: Result<
        (),
        CompileError,
    >)
        ensures
            emits(
                old(self)@,
                final(self)@,
                r,
                compile_stmt_spec(StmtView::Let(ident@, opt_expr_view(*expr)), old(self)@.len()),
            ),
    {
        let start = self.codes.len();
        self.emit(Opcode::Register(ident.0.clone()));
        match expr {
            Some(expression) => {
                match self.compile_expr(expression) {
                    Err(e) => {
                        proof {
                            assert(self@.subrange(0, start as int) =~= old(self)@);
                        }
                        return self.fail(start, e);
                    },
                    Ok(()) => {},
                }
                self.emit(Opcode::Store(ident.0.clone()));
                self.emit(Opcode::Pop);
                proof {
                    let expected = compile_stmt_spec(
                        StmtView::Let(ident@, opt_expr_view(*expr)),
                        old(self)@.len(),
                    ).unwrap();
                    assert(self@ =~= old(self)@ + expected);
                }
            },
            None => {
                assert(self@ =~= old(self)@ + seq![OpcodeView::Register(ident@)]);
            },
        }
        Ok(())
    }

    /// Compiles an expression.
    fn compile_expr(&mut self, expr: &Expr) -> (r: Result<(), CompileError>)
        ensures
            emits(old(self)@, final(self)@, r, compile_expr_spec(expr@)),
        decreases expr, 1nat,
    {
        match expr {
            Expr::LiteralExpr(literal) => {
                self.compile_literal(literal);
                Ok(())
            },
            Expr::IdentExpr(ident) => {
                self.compile_ident(ident);
                Ok(())
            },
            Expr::BinExpr(_, _, _) => self.compile_binary(expr),
            Expr::UnaryExpr(op, operand) => self.compile_unary(op, operand),
            Expr::AssignmentExpr(ident, value) => self.compile_assignment(ident, value),
            Expr::CallExpr(_, _) => self.compile_call(expr),
        }
    }

    /// Compiles a call: the arguments from left to right, the callee, the call.
    fn compile_call(&mut self, expr: &Expr) -> (r: Result<(), CompileError>)
        requires
            expr is CallExpr,
        ensures
            emits(old(self)@, final(self)@, r, compile_expr_spec(expr@)),
        decreases expr, 0nat,
    {
        match expr {
            Expr::CallExpr(func, args) => {
                let start = self.codes.len();
                let ghost all = exprs_view(args@);
                let ghost done = Seq::<OpcodeView>::empty();
                let mut i: usize = 0;
                proof {
                    assert(all.subrange(0, all.len() as int) =~= all);
                    assert(old(self)@ + done =~= old(self)@);
                }
                while i < args.len()
                    invariant
                        i <= args.len(),
                        expr is CallExpr,
                        expr->CallExpr_1 == *args,
                        all == exprs_view(args@),
                        start == old(self)@.len(),
                        self@ == old(self)@ + done,
                        compile_exprs_spec(all) == after(
                            done,
                            compile_exprs_spec(all.subrange(i as int, all.len() as int)),
                        ),
                    decreases args.len() - i,
                {
                    let ghost rest = all.subrange(i as int, all.len() as int);
                    let ghost here = self@;
                    proof {
                        assert(rest.first() == args@[i as int]@);
                        assert(rest.drop_first() =~= all.subrange(i + 1, all.len() as int));
                    }
                    match self.compile_expr(&args[i]) {
                        Err(e) => {
                            proof {
                                assert(self@.subrange(0, start as int) =~= old(self)@);
                            }
                            return self.fail(start, e);
                        },
                        Ok(()) => {},
                    }
                    proof {
                        let c = compile_expr_spec(rest.first()).unwrap();
                        assert(here + c =~= old(self)@ + (done + c));
                        match compile_exprs_spec(rest.drop_first()) {
                            Ok(d) => {
                                assert(done + (c + d) =~= (done + c) + d);
                            },
                            Err(_) => {},
                        }
                        done = done + c;
                    }
                    i = i + 1;
                }
                proof {
                    assert(done + Seq::<OpcodeView>::empty() =~= done);
                }
                match &**func {
                    Expr::CallExpr(_, _) => {
                        match self.compile_call(func) {
                            Err(e) => {
                                proof {
                                    assert(self@.subrange(0, start as int) =~= old(self)@);
                                }
                                return self.fail(start, e);
                            },
                            Ok(()) => {},
                        }
                    },
                    Expr::IdentExpr(ident) => {
                        self.compile_ident(ident);
                    },
                    _ => {
                        proof {
                            assert(self@.subrange(0, start as int) =~= old(self)@);
                        }
                        return self.fail(start, CompileError::InvalidCallee);
                    },
                }
                self.emit(Opcode::Call(args.len()));
                proof {
                    let expected = compile_expr_spec(expr@).unwrap();
                    assert(self@ =~= old(self)@ + expected);
                }
                Ok(())
            },
            _ => Ok(()),
        }
    }

    /// Compiles an assignment: the value, then the store, behind which the
    /// value is on the stack as the value of the assignment.
    fn compile_assignment(&mut self, ident: &Ident, expr: &Box<Expr>) -> (r: Result<
        (),
        CompileError,
    >)
        ensures
            emits(
                old(self)@,
                final(self)@,
                r,
                compile_expr_spec(ExprView::Assignment(ident@, Box::new((**expr)@))),
            ),
        decreases expr, 2nat,
    {
        match self.compile_expr(expr) {
            Err(e) => Err(e),
            Ok(()) => {
                self.emit(Opcode::Store(ident.0.clone()));
                proof {
                    let c = compile_expr_spec((**expr)@).unwrap();
                    assert(self@ =~= old(self)@ + c.push(OpcodeView::Store(ident@)));
                }
                Ok(())
            },
        }
    }

    /// Compiles a unary operation: the operand, then the operator.
    fn compile_unary(&mut self, op: &UnaryOp, expr: &Box<Expr>) -> (r: Result<(), CompileError>)
        ensures
            emits(
                old(self)@,
                final(self)@,
                r,
                compile_expr_spec(ExprView::Unary(*op, Box::new((**expr)@))),
            ),
        decreases expr, 2nat,
    {
        match self.compile_expr(expr) {
            Err(e) => Err(e),
            Ok(()) => {
                match op {
                    UnaryOp::Not => self.emit(Opcode::Not),
                    UnaryOp::UnaryMinus => self.emit(Opcode::Negate),
                    UnaryOp::UnaryPlus => (),
                }
                proof {
                    let c = compile_expr_spec((**expr)@).unwrap();
                    assert(self@ =~= old(self)@ + (c + unary_code(*op)));
                }
                Ok(())
            },
        }
    }

    /// Compiles a binary operation: left operand, right operand, operator.
    fn compile_binary(&mut self, expr: &Expr) -> (r: Result<(), CompileError>)
        requires
            expr is BinExpr,
        ensures
            emits(old(self)@, final(self)@, r, compile_expr_spec(expr@)),
        decreases expr, 0nat,
    {
        match expr {
            Expr::BinExpr(l_expr, op, r_expr) => {
                let start = self.codes.len();
                match self.compile_expr(l_expr) {
                    Err(e) => {
                        return Err(e);
                    },
                    Ok(()) => {},
                }
                match self.compile_expr(r_expr) {
                    Err(e) => {
                        proof {
                            assert(self@.subrange(0, start as int) =~= old(self)@);
                        }
                        return self.fail(start, e);
                    },
                    Ok(()) => {},
                }
                match op {
                    BinOp::Plus => self.emit(Opcode::Add),
                    BinOp::Minus => self.emit(Opcode::Subtract),
                    BinOp::Multiply => self.emit(Opcode::Multiply),
                    BinOp::Divide => self.emit(Opcode::Divide),
                    BinOp::Equal => self.emit(Opcode::Equal),
                    BinOp::Greater => self.emit(Opcode::Greater),
                    BinOp::GreaterEqual => self.emit(Opcode::GreaterEqual),
                    BinOp::Less => self.emit(Opcode::Less),
                    BinOp::LessEqual => self.emit(Opcode::LessEqual),
                    BinOp::NotEqual => self.emit(Opcode::NotEqual),
                }
                proof {
                    let expected = compile_expr_spec(expr@).unwrap();
                    assert(self@ =~= old(self)@ + expected);
                }
                Ok(())
            },
            _ => Ok(()),
        }
    }

    /// Compiles a reference to a name.
    fn compile_ident(&mut self, ident: &Ident)
        ensures
            final(self)@ == old(self)@ + seq![OpcodeView::Load(ident@)],
    {
        self.emit(Opcode::Load(ident.0.clone()));
        assert(self@ =~= old(self)@ + seq![OpcodeView::Load(ident@)]);
    }

    /// Compiles a literal.
    fn compile_literal(&mut self, literal: &Literal)
        ensures
            final(self)@ == old(self)@ + seq![OpcodeView::Push(literal_value(literal@))],
    {
        match literal {
            Literal::BoolLiteral(val) => {
                self.emit(Opcode::Push(Value::Boolean(*val)));
            },
            Literal::IntLiteral(val) => {
                self.emit(Opcode::Push(Value::Int(*val)));
            },
            Literal::StringLiteral(val) => {
                self.emit(Opcode::Push(Value::String(val.clone())));
            },
        }
        assert(self@ =~= old(self)@ + seq![OpcodeView::Push(literal_value(literal@))]);
    }
}

} // verus!
