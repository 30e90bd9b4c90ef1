//! Laws of compiled code: every jump stays inside the sequence that holds
//! it, the machine moves through the code of an if statement and of a loop
//! as the statement asks, and a program compiled in parts is the program
//! compiled as a whole.

use vstd::prelude::*;
use crate::compiler::model::{
    after, compile_block_spec, compile_else_spec, compile_expr_spec, compile_exprs_spec,
    compile_stmt_spec, compile_stmts_spec,
};
use crate::parser::ast::{ExprView, StmtView};
use crate::vm::error::RuntimeError;
use crate::vm::model::{step_spec, VMView};
use crate::vm::opcode::OpcodeView;
use crate::vm::ops::truth_spec;

verus! {

/// The instruction sequence `code` holds the instructions `w` from position
/// `base` on.
pub open spec fn placed(code: Seq<OpcodeView>, base: nat, w: Seq<OpcodeView>) -> bool {
    &&& base + w.len() <= code.len()
    &&& code.subrange(base as int, (base + w.len()) as int) == w
}

/// The state after a conditional jump: the condition is off the stack and
/// execution goes on at `ip`.
pub open spec fn branched(s: VMView, ip: nat) -> VMView {
    VMView { ip: ip, stack: s.stack.drop_last(), ..s }
}

/// The instruction of `code` at position `base + i` is the one at position
/// `i` of what is placed at `base`.
pub proof fn lemma_placed_index(code: Seq<OpcodeView>, base: nat, w: Seq<OpcodeView>, i: int)
    requires
        placed(code, base, w),
        0 <= i < w.len(),
    ensures
        code[base + i] == w[i],
{
    assert(code.subrange(base as int, (base + w.len()) as int)[i] == code[base + i]);
}

/// A part of what is placed is placed too.
pub proof fn lemma_placed_part(
    code: Seq<OpcodeView>,
    base: nat,
    w: Seq<OpcodeView>,
    from: nat,
    part: Seq<OpcodeView>,
)
    requires
        placed(code, base, w),
        from + part.len() <= w.len(),
        w.subrange(from as int, (from + part.len()) as int) == part,
    ensures
        placed(code, base + from, part),
{
    assert(code.subrange((base + from) as int, (base + from + part.len()) as int) =~= part) by {
        assert forall|i: int| 0 <= i < part.len() implies code[base + from + i] == part[i] by {
            lemma_placed_index(code, base, w, from + i);
            assert(w.subrange(from as int, (from + part.len()) as int)[i] == w[from + i]);
        }
    }
}

/// A loop whose condition is false is left without its body being entered:
/// at the loop's conditional jump, the machine goes on behind the loop.
pub proof fn law_false_condition_leaves_loop(
    s: VMView,
    condition: ExprView,
    body: StmtView,
    base: nat,
)
    requires
        compile_stmt_spec(StmtView::While(condition, Box::new(body)), base) is Ok,
        placed(
            s.code,
            base,
            compile_stmt_spec(StmtView::While(condition, Box::new(body)), base).unwrap(),
        ),
        s.ip == base + compile_expr_spec(condition).unwrap().len(),
        s.stack.len() > 0,
        truth_spec(s.stack.last()) == Ok::<bool, RuntimeError>(false),
    ensures
        step_spec(s) == Ok::<VMView, RuntimeError>(
            branched(
                s,
                base + compile_stmt_spec(
                    StmtView::While(condition, Box::new(body)),
                    base,
                ).unwrap().len(),
            ),
        ),
{
    let w = compile_stmt_spec(StmtView::While(condition, Box::new(body)), base).unwrap();
    let cc = compile_expr_spec(condition).unwrap();
    lemma_placed_index(s.code, base, w, cc.len() as int);
}

/// A loop whose condition is true enters its body: at the loop's
/// conditional jump, the machine goes on with the next instruction, where
/// the code of the body stands.
pub proof fn law_true_condition_enters_loop(
    s: VMView,
    condition: ExprView,
    body: StmtView,
    base: nat,
)
    requires
        compile_stmt_spec(StmtView::While(condition, Box::new(body)), base) is Ok,
        placed(
            s.code,
            base,
            compile_stmt_spec(StmtView::While(condition, Box::new(body)), base).unwrap(),
        ),
        s.ip == base + compile_expr_spec(condition).unwrap().len(),
        s.stack.len() > 0,
        truth_spec(s.stack.last()) == Ok::<bool, RuntimeError>(true),
    ensures
        step_spec(s) == Ok::<VMView, RuntimeError>(branched(s, s.ip + 1)),
        compile_block_spec(body, s.ip + 1) is Ok,
        placed(s.code, s.ip + 1, compile_block_spec(body, s.ip + 1).unwrap()),
{
    let w = compile_stmt_spec(StmtView::While(condition, Box::new(body)), base).unwrap();
    let cc = compile_expr_spec(condition).unwrap();
    let bc = compile_block_spec(body, s.ip + 1).unwrap();
    lemma_placed_index(s.code, base, w, cc.len() as int);
    assert(w.subrange((cc.len() + 1) as int, (cc.len() + 1 + bc.len()) as int) =~= bc);
    lemma_placed_part(s.code, base, w, cc.len() + 1, bc);
}

/// Behind the body of a loop the machine goes back to the condition.
pub proof fn law_loop_body_goes_back(s: VMView, condition: ExprView, body: StmtView, base: nat)
    requires
        compile_stmt_spec(StmtView::While(condition, Box::new(body)), base) is Ok,
        placed(
            s.code,
            base,
            compile_stmt_spec(StmtView::While(condition, Box::new(body)), base).unwrap(),
        ),
        s.ip + 1 == base + compile_stmt_spec(
            StmtView::While(condition, Box::new(body)),
            base,
        ).unwrap().len(),
    ensures
        step_spec(s) == Ok::<VMView, RuntimeError>(VMView { ip: base, ..s }),
{
    let w = compile_stmt_spec(StmtView::While(condition, Box::new(body)), base).unwrap();
    lemma_placed_index(s.code, base, w, w.len() - 1);
}

/// An if whose condition is true enters its then-branch: at the
/// conditional jump the machine goes on with the next instruction, where
/// the code of the then-branch stands.
pub proof fn law_true_condition_enters_then_branch(
    s: VMView,
    condition: ExprView,
    then: StmtView,
    other: Option<Box<StmtView>>,
    base: nat,
)
    requires
        compile_stmt_spec(StmtView::If(condition, Box::new(then), other), base) is Ok,
        placed(
            s.code,
            base,
            compile_stmt_spec(StmtView::If(condition, Box::new(then), other), base).unwrap(),
        ),
        s.ip == base + compile_expr_spec(condition).unwrap().len(),
        s.stack.len() > 0,
        truth_spec(s.stack.last()) == Ok::<bool, RuntimeError>(true),
    ensures
        step_spec(s) == Ok::<VMView, RuntimeError>(branched(s, s.ip + 1)),
        compile_block_spec(then, s.ip + 1) is Ok,
        placed(s.code, s.ip + 1, compile_block_spec(then, s.ip + 1).unwrap()),
{
    let w = compile_stmt_spec(StmtView::If(condition, Box::new(then), other), base).unwrap();
    let cc = compile_expr_spec(condition).unwrap();
    let tc = compile_block_spec(then, s.ip + 1).unwrap();
    lemma_placed_index(s.code, base, w, cc.len() as int);
    assert(w.subrange((cc.len() + 1) as int, (cc.len() + 1 + tc.len()) as int) =~= tc);
    lemma_placed_part(s.code, base, w, cc.len() + 1, tc);
}

/// An if without else whose condition is false runs no branch: at the
/// conditional jump the machine goes on behind the statement.
pub proof fn law_false_condition_without_else_skips(
    s: VMView,
    condition: ExprView,
    then: StmtView,
    base: nat,
)
    requires
        compile_stmt_spec(StmtView::If(condition, Box::new(then), None), base) is Ok,
        placed(
            s.code,
            base,
            compile_stmt_spec(StmtView::If(condition, Box::new(then), None), base).unwrap(),
        ),
        s.ip == base + compile_expr_spec(condition).unwrap().len(),
        s.stack.len() > 0,
        truth_spec(s.stack.last()) == Ok::<bool, RuntimeError>(false),
    ensures
        step_spec(s) == Ok::<VMView, RuntimeError>(
            branched(
                s,
                base + compile_stmt_spec(
                    StmtView::If(condition, Box::new(then), None),
                    base,
                ).unwrap().len(),
            ),
        ),
{
    let w = compile_stmt_spec(StmtView::If(condition, Box::new(then), None), base).unwrap();
    let cc = compile_expr_spec(condition).unwrap();
    lemma_placed_index(s.code, base, w, cc.len() as int);
}

/// An if with else whose condition is false enters its else-branch: at the
/// conditional jump the machine goes on where the code of the else-branch
/// stands, which reaches to the end of the statement.
pub proof fn law_false_condition_enters_else_branch(
    s: VMView,
    condition: ExprView,
    then: StmtView,
    other: StmtView,
    base: nat,
)
    requires
        compile_stmt_spec(
            StmtView::If(condition, Box::new(then), Some(Box::new(other))),
            base,
        ) is Ok,
        placed(
            s.code,
            base,
            compile_stmt_spec(
                StmtView::If(condition, Box::new(then), Some(Box::new(other))),
                base,
            ).unwrap(),
        ),
        s.ip == base + compile_expr_spec(condition).unwrap().len(),
        s.stack.len() > 0,
        truth_spec(s.stack.last()) == Ok::<bool, RuntimeError>(false),
    ensures
        ({
            let w = compile_stmt_spec(
                StmtView::If(condition, Box::new(then), Some(Box::new(other))),
                base,
            ).unwrap();
            let start = s.ip + 1 + compile_block_spec(then, s.ip + 1).unwrap().len() + 1;
            &&& step_spec(s) == Ok::<VMView, RuntimeError>(branched(s, start as nat))
            &&& compile_else_spec(other, start as nat) is Ok
            &&& placed(s.code, start as nat, compile_else_spec(other, start as nat).unwrap())
            &&& start + compile_else_spec(other, start as nat).unwrap().len() == base + w.len()
        }),
{
    let w = compile_stmt_spec(
        StmtView::If(condition, Box::new(then), Some(Box::new(other))),
        base,
    ).unwrap();
    let cc = compile_expr_spec(condition).unwrap();
    let tc = compile_block_spec(then, s.ip + 1).unwrap();
    let start = (s.ip + 1 + tc.len() + 1) as nat;
    let ec = compile_else_spec(other, start).unwrap();
    lemma_placed_index(s.code, base, w, cc.len() as int);
    assert(w.subrange((cc.len() + 1 + tc.len() + 1) as int, (cc.len() + 1 + tc.len() + 1 + ec.len()) as int) =~= ec);
    lemma_placed_part(s.code, base, w, cc.len() + 1 + tc.len() + 1, ec);
}

/// Behind the then-branch of an if with else the machine goes on behind the
/// statement: the else-branch is not entered.
pub proof fn law_then_branch_skips_else_branch(
    s: VMView,
    condition: ExprView,
    then: StmtView,
    other: StmtView,
    base: nat,
)
    requires
        compile_stmt_spec(
            StmtView::If(condition, Box::new(then), Some(Box::new(other))),
            base,
        ) is Ok,
        placed(
            s.code,
            base,
            compile_stmt_spec(
                StmtView::If(condition, Box::new(then), Some(Box::new(other))),
                base,
            ).unwrap(),
        ),
        s.ip == base + compile_expr_spec(condition).unwrap().len() + 1 + compile_block_spec(
            then,
            base + compile_expr_spec(condition).unwrap().len() + 1,
        ).unwrap().len(),
    ensures
        step_spec(s) == Ok::<VMView, RuntimeError>(
            VMView {
                ip: base + compile_stmt_spec(
                    StmtView::If(condition, Box::new(then), Some(Box::new(other))),
                    base,
                ).unwrap().len(),
                ..s
            },
        ),
{
    let w = compile_stmt_spec(
        StmtView::If(condition, Box::new(then), Some(Box::new(other))),
        base,
    ).unwrap();
    let cc = compile_expr_spec(condition).unwrap();
    let tc = compile_block_spec(then, base + cc.len() + 1).unwrap();
    lemma_placed_index(s.code, base, w, (cc.len() + 1 + tc.len()) as int);
}

/// Every jump of `code` goes to a position from `lo` to `hi`, and every
/// jump in the body of a function goes to a position of that body or to its
/// end.
pub open spec fn jumps_inside(code: Seq<OpcodeView>, lo: nat, hi: nat) -> bool
    decreases code,
{
    forall|i: int|
        0 <= i < code.len() ==> match #[trigger] code[i] {
            OpcodeView::Jump(t) => lo <= t <= hi,
            OpcodeView::JumpIfFalse(t) => lo <= t <= hi,
            OpcodeView::StoreFunction(_, _, body) => jumps_inside(body, 0, body.len()),
            _ => true,
        }
}

/// Whether an instruction is neither a jump nor the declaration of a
/// function, neither enters nor leaves a scope, and pushes no function.
pub open spec fn is_plain(op: OpcodeView) -> bool {
    &&& !(op is Jump)
    &&& !(op is JumpIfFalse)
    &&& !(op is StoreFunction)
    &&& !(op is BeginScope)
    &&& !(op is EndScope)
    &&& op is Push ==> !(op->Push_0 is Function)
}

/// Jumps that stay inside a range stay inside every wider one.
proof fn lemma_jumps_widen(code: Seq<OpcodeView>, lo: nat, hi: nat, lo2: nat, hi2: nat)
    requires
        jumps_inside(code, lo, hi),
        lo2 <= lo,
        hi <= hi2,
    ensures
        jumps_inside(code, lo2, hi2),
{
    assert forall|i: int| 0 <= i < code.len() implies match #[trigger] code[i] {
        OpcodeView::Jump(t) => lo2 <= t <= hi2,
        OpcodeView::JumpIfFalse(t) => lo2 <= t <= hi2,
        OpcodeView::StoreFunction(_, _, body) => jumps_inside(body, 0, body.len()),
        _ => true,
    } by {}
}

/// Two pieces whose jumps stay inside a range, joined.
proof fn lemma_jumps_concat(a: Seq<OpcodeView>, b: Seq<OpcodeView>, lo: nat, hi: nat)
    requires
        jumps_inside(a, lo, hi),
        jumps_inside(b, lo, hi),
    ensures
        jumps_inside(a + b, lo, hi),
{
    assert forall|i: int| 0 <= i < (a + b).len() implies match #[trigger] (a + b)[i] {
        OpcodeView::Jump(t) => lo <= t <= hi,
        OpcodeView::JumpIfFalse(t) => lo <= t <= hi,
        OpcodeView::StoreFunction(_, _, body) => jumps_inside(body, 0, body.len()),
        _ => true,
    } by {
        if i < a.len() {
            assert((a + b)[i] == a[i]);
        } else {
            assert((a + b)[i] == b[i - a.len()]);
        }
    }
}

/// One instruction whose jump stays inside a range.
proof fn lemma_jumps_one(op: OpcodeView, lo: nat, hi: nat)
    requires
        match op {
            OpcodeView::Jump(t) => lo <= t <= hi,
            OpcodeView::JumpIfFalse(t) => lo <= t <= hi,
            OpcodeView::StoreFunction(_, _, body) => jumps_inside(body, 0, body.len()),
            _ => true,
        },
    ensures
        jumps_inside(seq![op], lo, hi),
{
}

/// A piece whose jumps stay inside a range, with one more instruction.
proof fn lemma_jumps_push(a: Seq<OpcodeView>, op: OpcodeView, lo: nat, hi: nat)
    requires
        jumps_inside(a, lo, hi),
        match op {
            OpcodeView::Jump(t) => lo <= t <= hi,
            OpcodeView::JumpIfFalse(t) => lo <= t <= hi,
            OpcodeView::StoreFunction(_, _, body) => jumps_inside(body, 0, body.len()),
            _ => true,
        },
    ensures
        jumps_inside(a.push(op), lo, hi),
{
    lemma_jumps_one(op, lo, hi);
    lemma_jumps_concat(a, seq![op], lo, hi);
    assert(a.push(op) =~= a + seq![op]);
}

/// The code of an expression holds no jump and declares no function.
pub proof fn lemma_expr_code_is_plain(e: ExprView)
    requires
        compile_expr_spec(e) is Ok,
    ensures
        forall|i: int|
            0 <= i < compile_expr_spec(e).unwrap().len() ==> is_plain(
                #[trigger] compile_expr_spec(e).unwrap()[i],
            ),
    decreases e,
{
    match e {
        ExprView::Literal(_) => {},
        ExprView::Ident(_) => {},
        ExprView::Binary(left, _, right) => {
            lemma_expr_code_is_plain(*left);
            lemma_expr_code_is_plain(*right);
        },
        ExprView::Unary(_, operand) => {
            lemma_expr_code_is_plain(*operand);
        },
        ExprView::Assignment(_, value) => {
            lemma_expr_code_is_plain(*value);
        },
        ExprView::Call(callee, args) => {
            lemma_exprs_code_is_plain(args);
            match *callee {
                ExprView::Call(_, _) => {
                    lemma_expr_code_is_plain(*callee);
                },
                _ => {},
            }
        },
    }
}

/// The code of a list of expressions is plain.
proof fn lemma_exprs_code_is_plain(es: Seq<ExprView>)
    requires
        compile_exprs_spec(es) is Ok,
    ensures
        forall|i: int|
            0 <= i < compile_exprs_spec(es).unwrap().len() ==> is_plain(
                #[trigger] compile_exprs_spec(es).unwrap()[i],
            ),
    decreases es,
{
    if es.len() > 0 {
        lemma_expr_code_is_plain(es.first());
        lemma_exprs_code_is_plain(es.drop_first());
    }
}

/// The code of an expression holds no jump.
proof fn lemma_expr_jumps(e: ExprView, lo: nat, hi: nat)
    requires
        compile_expr_spec(e) is Ok,
    ensures
        jumps_inside(compile_expr_spec(e).unwrap(), lo, hi),
{
    lemma_expr_code_is_plain(e);
}

/// Every jump in the code of a statement stays inside that code: it goes to
/// one of the statement's own instructions or to the position right behind
/// them.
pub proof fn law_jumps_stay_inside_statement(s: StmtView, base: nat)
    requires
        compile_stmt_spec(s, base) is Ok,
    ensures
        jumps_inside(
            compile_stmt_spec(s, base).unwrap(),
            base,
            base + compile_stmt_spec(s, base).unwrap().len(),
        ),
    decreases s, 1nat,
{
    let w = compile_stmt_spec(s, base).unwrap();
    let hi = base + w.len();
    match s {
        StmtView::Expr(e) => {
            lemma_expr_jumps(e, base, hi);
            lemma_jumps_push(compile_expr_spec(e).unwrap(), OpcodeView::Pop, base, hi);
        },
        StmtView::Let(name, None) => {},
        StmtView::Let(name, Some(e)) => {
            let c = compile_expr_spec(e).unwrap();
            lemma_expr_jumps(e, base, hi);
            lemma_jumps_one(OpcodeView::Register(name), base, hi);
            lemma_jumps_concat(seq![OpcodeView::Register(name)], c, base, hi);
            lemma_jumps_push(
                seq![OpcodeView::Register(name)] + c,
                OpcodeView::Store(name),
                base,
                hi,
            );
            lemma_jumps_push(
                (seq![OpcodeView::Register(name)] + c).push(OpcodeView::Store(name)),
                OpcodeView::Pop,
                base,
                hi,
            );
        },
        StmtView::Return(None) => {},
        StmtView::Return(Some(e)) => {
            lemma_expr_jumps(e, base, hi);
            lemma_jumps_push(compile_expr_spec(e).unwrap(), OpcodeView::Return, base, hi);
        },
        StmtView::Block(_) => {
            lemma_jumps_stay_inside_block(s, base);
        },
        StmtView::Fn(name, params, body) => {
            match *body {
                StmtView::Block(stmts) => {
                    law_jumps_stay_inside_program(stmts, 0);
                },
                _ => {},
            }
        },
        StmtView::While(condition, body) => {
            let cc = compile_expr_spec(condition).unwrap();
            let bbase = base + cc.len() + 1;
            let bc = compile_block_spec(*body, bbase).unwrap();
            lemma_expr_jumps(condition, base, hi);
            lemma_jumps_stay_inside_block(*body, bbase);
            lemma_jumps_widen(bc, bbase, bbase + bc.len(), base, hi);
            lemma_jumps_push(cc, OpcodeView::JumpIfFalse(hi), base, hi);
            lemma_jumps_concat(cc.push(OpcodeView::JumpIfFalse(hi)), bc, base, hi);
            lemma_jumps_push(
                cc.push(OpcodeView::JumpIfFalse(hi)) + bc,
                OpcodeView::Jump(base),
                base,
                hi,
            );
        },
        StmtView::If(condition, body, alt) => {
            let cc = compile_expr_spec(condition).unwrap();
            let tbase = base + cc.len() + 1;
            let tc = compile_block_spec(*body, tbase).unwrap();
            lemma_expr_jumps(condition, base, hi);
            lemma_jumps_stay_inside_block(*body, tbase);
            lemma_jumps_widen(tc, tbase, tbase + tc.len(), base, hi);
            match alt {
                None => {
                    lemma_jumps_push(cc, OpcodeView::JumpIfFalse(hi), base, hi);
                    lemma_jumps_concat(cc.push(OpcodeView::JumpIfFalse(hi)), tc, base, hi);
                },
                Some(other) => {
                    let ebase = tbase + tc.len() + 1;
                    let ec = compile_else_spec(*other, ebase).unwrap();
                    lemma_jumps_stay_inside_else(*other, ebase);
                    lemma_jumps_widen(ec, ebase, ebase + ec.len(), base, hi);
                    lemma_jumps_push(cc, OpcodeView::JumpIfFalse(ebase), base, hi);
                    lemma_jumps_concat(cc.push(OpcodeView::JumpIfFalse(ebase)), tc, base, hi);
                    lemma_jumps_push(
                        cc.push(OpcodeView::JumpIfFalse(ebase)) + tc,
                        OpcodeView::Jump(hi),
                        base,
                        hi,
                    );
                    lemma_jumps_concat(
                        (cc.push(OpcodeView::JumpIfFalse(ebase)) + tc).push(OpcodeView::Jump(hi)),
                        ec,
                        base,
                        hi,
                    );
                },
            }
        },
    }
}

/// Every jump in the code of a block stays inside that code.
proof fn lemma_jumps_stay_inside_block(s: StmtView, base: nat)
    requires
        compile_block_spec(s, base) is Ok,
    ensures
        jumps_inside(
            compile_block_spec(s, base).unwrap(),
            base,
            base + compile_block_spec(s, base).unwrap().len(),
        ),
    decreases s, 0nat,
{
    let w = compile_block_spec(s, base).unwrap();
    let hi = base + w.len();
    match s {
        StmtView::Block(stmts) => {
            let c = compile_stmts_spec(stmts, base + 1).unwrap();
            law_jumps_stay_inside_program(stmts, base + 1);
            lemma_jumps_widen(c, base + 1, base + 1 + c.len(), base, hi);
            lemma_jumps_one(OpcodeView::BeginScope, base, hi);
            lemma_jumps_concat(seq![OpcodeView::BeginScope], c, base, hi);
            lemma_jumps_push(seq![OpcodeView::BeginScope] + c, OpcodeView::EndScope, base, hi);
        },
        _ => {},
    }
}

/// Every jump in the code of an else branch stays inside that code.
proof fn lemma_jumps_stay_inside_else(s: StmtView, base: nat)
    requires
        compile_else_spec(s, base) is Ok,
    ensures
        jumps_inside(
            compile_else_spec(s, base).unwrap(),
            base,
            base + compile_else_spec(s, base).unwrap().len(),
        ),
    decreases s, 2nat,
{
    match s {
        StmtView::Block(_) => {
            lemma_jumps_stay_inside_block(s, base);
        },
        StmtView::If(_, _, _) => {
            law_jumps_stay_inside_statement(s, base);
        },
        _ => {},
    }
}

/// Every jump in the code of a program stays inside that code, and every
/// jump in the body of a function stays inside that body.
pub proof fn law_jumps_stay_inside_program(ss: Seq<StmtView>, base: nat)
    requires
        compile_stmts_spec(ss, base) is Ok,
    ensures
        jumps_inside(
            compile_stmts_spec(ss, base).unwrap(),
            base,
            base + compile_stmts_spec(ss, base).unwrap().len(),
        ),
    decreases ss, 0nat,
{
    if ss.len() > 0 {
        let w = compile_stmts_spec(ss, base).unwrap();
        let hi = base + w.len();
        let c = compile_stmt_spec(ss.first(), base).unwrap();
        let d = compile_stmts_spec(ss.drop_first(), base + c.len()).unwrap();
        law_jumps_stay_inside_statement(ss.first(), base);
        law_jumps_stay_inside_program(ss.drop_first(), base + c.len());
        lemma_jumps_widen(c, base, base + c.len(), base, hi);
        lemma_jumps_widen(d, base + c.len(), base + c.len() + d.len(), base, hi);
        lemma_jumps_concat(c, d, base, hi);
    }
}

/// Compiling a program in parts gives the code of the whole: the code of
/// two lists of statements, the second placed behind the first, is the code
/// of the joined list.
pub proof fn law_compiling_in_parts(a: Seq<StmtView>, b: Seq<StmtView>, base: nat)
    requires
        compile_stmts_spec(a, base) is Ok,
    ensures
        compile_stmts_spec(a + b, base) == after(
            compile_stmts_spec(a, base).unwrap(),
            compile_stmts_spec(b, base + compile_stmts_spec(a, base).unwrap().len()),
        ),
    decreases a.len(),
{
    let ca = compile_stmts_spec(a, base).unwrap();
    if a.len() == 0 {
        assert(a + b =~= b);
        match compile_stmts_spec(b, base) {
            Ok(cb) => {
                assert(ca + cb =~= cb);
            },
            Err(_) => {},
        }
    } else {
        let c = compile_stmt_spec(a.first(), base).unwrap();
        let rest = compile_stmts_spec(a.drop_first(), base + c.len()).unwrap();
        assert((a + b).first() == a.first());
        assert((a + b).drop_first() =~= a.drop_first() + b);
        law_compiling_in_parts(a.drop_first(), b, base + c.len());
        match compile_stmts_spec(b, base + ca.len()) {
            Ok(cb) => {
                assert(c + (rest + cb) =~= (c + rest) + cb);
            },
            Err(_) => {},
        }
    }
}

} // verus!
