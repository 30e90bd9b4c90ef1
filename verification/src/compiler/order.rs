//! The order that compiled code keeps in the machine: a compiled program
//! never runs beyond its code, never calls a function whose scope the
//! machine does not have, never reaches below the floor of the stack, and
//! never leaves the root scope. Where it fails, the program is at fault.

use vstd::prelude::*;
use crate::compiler::laws::{
    is_plain, jumps_inside, law_jumps_stay_inside_program, lemma_expr_code_is_plain,
    lemma_placed_index, lemma_placed_part, placed,
};
use crate::compiler::model::{
    binary_code, compile_block_spec, compile_else_spec, compile_expr_spec, compile_exprs_spec,
    compile_stmt_spec, compile_stmts_spec, unary_code,
};
use crate::parser::ast::{ExprView, StmtView};
use crate::vm::balance::{
    code_balanced, height_from, law_balanced_run_passes_its_checks,
    law_initial_state_is_balanced, lemma_height_step, needs, value_balanced,
};
use crate::vm::error::RuntimeError;
use crate::vm::initial_state;
use crate::vm::integrity::{
    code_sound, law_initial_state_is_sound, law_sound_run_passes_its_checks,
};
use crate::vm::model::run_spec;
use crate::vm::nesting::{
    code_nested, depth_from, law_initial_state_is_nested, law_nested_run_passes_its_check,
    lemma_depth_step, value_nested,
};
use crate::vm::opcode::OpcodeView;

verus! {

/// Every value that `code` pushes is a literal and no function, in the
/// bodies of the functions that it declares too.
pub open spec fn literal_pushes(code: Seq<OpcodeView>) -> bool
    decreases code,
{
    forall|i: int|
        0 <= i < code.len() ==> match #[trigger] code[i] {
            OpcodeView::Push(v) => !(v is Function),
            OpcodeView::StoreFunction(_, _, body) => literal_pushes(body),
            _ => true,
        }
}

/// Two pieces that push literals only, joined.
proof fn lemma_literal_concat(a: Seq<OpcodeView>, b: Seq<OpcodeView>)
    requires
        literal_pushes(a),
        literal_pushes(b),
    ensures
        literal_pushes(a + b),
{
    assert forall|i: int| 0 <= i < (a + b).len() implies match #[trigger] (a + b)[i] {
        OpcodeView::Push(v) => !(v is Function),
        OpcodeView::StoreFunction(_, _, body) => literal_pushes(body),
        _ => true,
    } by {
        if i < a.len() {
            assert((a + b)[i] == a[i]);
        } else {
            assert((a + b)[i] == b[i - a.len()]);
        }
    }
}

/// A piece that pushes literals only, with one more instruction.
proof fn lemma_literal_push(a: Seq<OpcodeView>, op: OpcodeView)
    requires
        literal_pushes(a),
        match op {
            OpcodeView::Push(v) => !(v is Function),
            OpcodeView::StoreFunction(_, _, body) => literal_pushes(body),
            _ => true,
        },
    ensures
        literal_pushes(a.push(op)),
{
    assert(literal_pushes(seq![op]));
    lemma_literal_concat(a, seq![op]);
    assert(a.push(op) =~= a + seq![op]);
}

/// The code of an expression pushes literals only.
proof fn lemma_expr_literal(e: ExprView)
    requires
        compile_expr_spec(e) is Ok,
    ensures
        literal_pushes(compile_expr_spec(e).unwrap()),
{
    let c = compile_expr_spec(e).unwrap();
    lemma_expr_code_is_plain(e);
    assert forall|i: int| 0 <= i < c.len() implies match #[trigger] c[i] {
        OpcodeView::Push(v) => !(v is Function),
        OpcodeView::StoreFunction(_, _, body) => literal_pushes(body),
        _ => true,
    } by {
        assert(is_plain(c[i]));
    }
}

/// The code of a statement pushes literals only.
proof fn lemma_statement_literal(s: StmtView, base: nat)
    requires
        compile_stmt_spec(s, base) is Ok,
    ensures
        literal_pushes(compile_stmt_spec(s, base).unwrap()),
    decreases s, 1nat,
{
    match s {
        StmtView::Expr(e) => {
            lemma_expr_literal(e);
            lemma_literal_push(compile_expr_spec(e).unwrap(), OpcodeView::Pop);
        },
        StmtView::Let(name, None) => {},
        StmtView::Let(name, Some(e)) => {
            let c = compile_expr_spec(e).unwrap();
            lemma_expr_literal(e);
            lemma_literal_concat(seq![OpcodeView::Register(name)], c);
            lemma_literal_push(seq![OpcodeView::Register(name)] + c, OpcodeView::Store(name));
            lemma_literal_push(
                (seq![OpcodeView::Register(name)] + c).push(OpcodeView::Store(name)),
                OpcodeView::Pop);
        },
        StmtView::Return(None) => {},
        StmtView::Return(Some(e)) => {
            lemma_expr_literal(e);
            lemma_literal_push(compile_expr_spec(e).unwrap(), OpcodeView::Return);
        },
        StmtView::Block(_) => {
            lemma_block_literal(s, base);
        },
        StmtView::Fn(name, params, body) => {
            match *body {
                StmtView::Block(stmts) => {
                    law_compiled_code_pushes_literals(stmts, 0);
                },
                _ => {},
            }
        },
        StmtView::While(condition, body) => {
            let cc = compile_expr_spec(condition).unwrap();
            let bbase = base + cc.len() + 1;
            let bc = compile_block_spec(*body, bbase).unwrap();
            let exit = (bbase + bc.len() + 1) as nat;
            lemma_expr_literal(condition);
            lemma_block_literal(*body, bbase);
            lemma_literal_push(cc, OpcodeView::JumpIfFalse(exit));
            lemma_literal_concat(cc.push(OpcodeView::JumpIfFalse(exit)), bc);
            lemma_literal_push(cc.push(OpcodeView::JumpIfFalse(exit)) + bc, OpcodeView::Jump(base));
        },
        StmtView::If(condition, body, alt) => {
            let cc = compile_expr_spec(condition).unwrap();
            let tbase = base + cc.len() + 1;
            let tc = compile_block_spec(*body, tbase).unwrap();
            lemma_expr_literal(condition);
            lemma_block_literal(*body, tbase);
            match alt {
                None => {
                    let exit = (tbase + tc.len()) as nat;
                    lemma_literal_push(cc, OpcodeView::JumpIfFalse(exit));
                    lemma_literal_concat(cc.push(OpcodeView::JumpIfFalse(exit)), tc);
                },
                Some(other) => {
                    let ebase = (tbase + tc.len() + 1) as nat;
                    let ec = compile_else_spec(*other, ebase).unwrap();
                    let exit = (ebase + ec.len()) as nat;
                    lemma_else_literal(*other, ebase);
                    lemma_literal_push(cc, OpcodeView::JumpIfFalse(ebase));
                    lemma_literal_concat(cc.push(OpcodeView::JumpIfFalse(ebase)), tc);
                    lemma_literal_push(
                        cc.push(OpcodeView::JumpIfFalse(ebase)) + tc,
                        OpcodeView::Jump(exit));
                    lemma_literal_concat(
                        (cc.push(OpcodeView::JumpIfFalse(ebase)) + tc).push(OpcodeView::Jump(exit)),
                        ec);
                },
            }
        },
    }
}

/// The code of a block pushes literals only.
proof fn lemma_block_literal(s: StmtView, base: nat)
    requires
        compile_block_spec(s, base) is Ok,
    ensures
        literal_pushes(compile_block_spec(s, base).unwrap()),
    decreases s, 0nat,
{
    match s {
        StmtView::Block(stmts) => {
            let c = compile_stmts_spec(stmts, base + 1).unwrap();
            law_compiled_code_pushes_literals(stmts, base + 1);
            lemma_literal_concat(seq![OpcodeView::BeginScope], c);
            lemma_literal_push(seq![OpcodeView::BeginScope] + c, OpcodeView::EndScope);
        },
        _ => {},
    }
}

/// The code of an else branch pushes literals only.
proof fn lemma_else_literal(s: StmtView, base: nat)
    requires
        compile_else_spec(s, base) is Ok,
    ensures
        literal_pushes(compile_else_spec(s, base).unwrap()),
    decreases s, 2nat,
{
    match s {
        StmtView::Block(_) => {
            lemma_block_literal(s, base);
        },
        StmtView::If(_, _, _) => {
            lemma_statement_literal(s, base);
        },
        _ => {},
    }
}

/// The code of a program pushes literals only, in the bodies of its
/// functions too.
pub proof fn law_compiled_code_pushes_literals(ss: Seq<StmtView>, base: nat)
    requires
        compile_stmts_spec(ss, base) is Ok,
    ensures
        literal_pushes(compile_stmts_spec(ss, base).unwrap()),
    decreases ss, 0nat,
{
    if ss.len() > 0 {
        let c = compile_stmt_spec(ss.first(), base).unwrap();
        let d = compile_stmts_spec(ss.drop_first(), base + c.len()).unwrap();
        lemma_statement_literal(ss.first(), base);
        law_compiled_code_pushes_literals(ss.drop_first(), base + c.len());
        lemma_literal_concat(c, d);
    }
}

/// Code whose jumps stay inside it and which pushes only literals is
/// sound for every table of scopes.
proof fn lemma_compiled_code_is_sound(code: Seq<OpcodeView>, n: nat)
    requires
        jumps_inside(code, 0, code.len()),
        literal_pushes(code),
    ensures
        code_sound(code, n),
    decreases code,
{
    assert forall|i: int| 0 <= i < code.len() implies match #[trigger] code[i] {
        OpcodeView::Push(v) => crate::vm::integrity::value_sound(v, n),
        OpcodeView::StoreFunction(_, _, body) => code_sound(body, n),
        OpcodeView::Jump(t) => t <= code.len(),
        OpcodeView::JumpIfFalse(t) => t <= code.len(),
        _ => true,
    } by {
        match code[i] {
            OpcodeView::StoreFunction(_, _, body) => {
                lemma_compiled_code_is_sound(body, n);
            },
            _ => {},
        }
    }
}

/// The code of a program is sound: its jumps stay inside the sequences
/// that hold them, and it holds no function value.
pub proof fn law_compiled_program_is_sound(ss: Seq<StmtView>, n: nat)
    requires
        compile_stmts_spec(ss, 0) is Ok,
    ensures
        code_sound(compile_stmts_spec(ss, 0).unwrap(), n),
{
    law_jumps_stay_inside_program(ss, 0);
    law_compiled_code_pushes_literals(ss, 0);
    lemma_compiled_code_is_sound(compile_stmts_spec(ss, 0).unwrap(), n);
}

/// A compiled program never runs beyond its code and never calls a
/// function whose scope the machine does not have: a run of it does not end
/// with either of these errors.
pub proof fn law_compiled_program_passes_the_checks(ss: Seq<StmtView>, fuel: nat)
    requires
        compile_stmts_spec(ss, 0) is Ok,
    ensures
        ({
            let r = run_spec(initial_state(compile_stmts_spec(ss, 0).unwrap()), fuel).1;
            &&& r != Err::<(), RuntimeError>(RuntimeError::IpOutOfRange)
            &&& r != Err::<(), RuntimeError>(RuntimeError::DanglingScope)
        }),
{
    let code = compile_stmts_spec(ss, 0).unwrap();
    law_compiled_program_is_sound(ss, 1);
    law_initial_state_is_sound(code);
    law_sound_run_passes_its_checks(initial_state(code), fuel);
}

/// The instruction at position `p` of `code` is met at a height that it
/// needs, and what it jumps to, pushes or declares is balanced.
pub open spec fn position_balanced(code: Seq<OpcodeView>, p: int) -> bool {
    &&& height_from(code, 0, p) >= needs(code[p])
    &&& match code[p] {
        OpcodeView::Jump(t) => t <= code.len() && height_from(code, 0, t as int) == height_from(
            code,
            0,
            p,
        ),
        OpcodeView::JumpIfFalse(t) => t <= code.len() && height_from(code, 0, t as int)
            == height_from(code, 0, p) - 1,
        OpcodeView::Return => height_from(code, 0, p) <= 1,
        OpcodeView::StoreFunction(_, _, body) => code_balanced(body),
        OpcodeView::Push(v) => value_balanced(v),
        _ => true,
    }
}

/// Where `x` and then `y` are placed, each of them is placed.
proof fn lemma_placed_split(
    code: Seq<OpcodeView>,
    base: nat,
    x: Seq<OpcodeView>,
    y: Seq<OpcodeView>,
)
    requires
        placed(code, base, x + y),
    ensures
        placed(code, base, x),
        placed(code, base + x.len(), y),
{
    assert((x + y).subrange(0, x.len() as int) =~= x);
    assert((x + y).subrange(x.len() as int, (x.len() + y.len()) as int) =~= y);
    lemma_placed_part(code, base, x + y, 0, x);
    lemma_placed_part(code, base, x + y, x.len(), y);
}

/// Where `x` and then one more instruction are placed, `x` is placed and
/// the instruction stands behind it.
proof fn lemma_placed_push(code: Seq<OpcodeView>, base: nat, x: Seq<OpcodeView>, op: OpcodeView)
    requires
        placed(code, base, x.push(op)),
    ensures
        placed(code, base, x),
        base + x.len() < code.len(),
        code[(base + x.len()) as int] == op,
{
    assert(x.push(op) =~= x + seq![op]);
    lemma_placed_split(code, base, x, seq![op]);
    lemma_placed_index(code, base, x.push(op), x.len() as int);
}

/// An instruction that neither jumps nor returns, declares no function and
/// pushes no function is balanced wherever the stack is high enough for
/// it.
proof fn lemma_plain_position(code: Seq<OpcodeView>, p: int)
    requires
        0 <= p < code.len(),
        is_plain(code[p]),
        !(code[p] is Return),
        height_from(code, 0, p) >= needs(code[p]),
    ensures
        position_balanced(code, p),
{
}

/// The code of an expression, met at height `a`, is balanced and leaves the
/// stack one higher.
proof fn lemma_expr_balanced(e: ExprView, code: Seq<OpcodeView>, base: nat, a: int)
    requires
        compile_expr_spec(e) is Ok,
        placed(code, base, compile_expr_spec(e).unwrap()),
        a >= 0,
        height_from(code, 0, base as int) == a,
    ensures
        height_from(code, 0, (base + compile_expr_spec(e).unwrap().len()) as int) == a + 1,
        forall|p: int|
            base <= p < base + compile_expr_spec(e).unwrap().len() ==> #[trigger] position_balanced(
                code,
                p,
            ),
    decreases e, 1nat,
{
    let c = compile_expr_spec(e).unwrap();
    match e {
        ExprView::Literal(l) => {
            lemma_placed_index(code, base, c, 0);
            lemma_height_step(code, base as int);
        },
        ExprView::Ident(name) => {
            lemma_placed_index(code, base, c, 0);
            lemma_height_step(code, base as int);
        },
        ExprView::Binary(left, op, right) => {
            let lc = compile_expr_spec(*left).unwrap();
            let rc = compile_expr_spec(*right).unwrap();
            lemma_placed_push(code, base, lc + rc, binary_code(op));
            lemma_placed_split(code, base, lc, rc);
            lemma_expr_balanced(*left, code, base, a);
            lemma_expr_balanced(*right, code, base + lc.len(), a + 1);
            let q = (base + lc.len() + rc.len()) as int;
            lemma_height_step(code, q);
            lemma_plain_position(code, q);
        },
        ExprView::Unary(op, operand) => {
            let oc = compile_expr_spec(*operand).unwrap();
            lemma_placed_split(code, base, oc, unary_code(op));
            lemma_expr_balanced(*operand, code, base, a);
            if unary_code(op).len() > 0 {
                let q = (base + oc.len()) as int;
                lemma_placed_index(code, base + oc.len(), unary_code(op), 0);
                lemma_height_step(code, q);
                lemma_plain_position(code, q);
            }
        },
        ExprView::Assignment(name, value) => {
            let vc = compile_expr_spec(*value).unwrap();
            lemma_placed_push(code, base, vc, OpcodeView::Store(name));
            lemma_expr_balanced(*value, code, base, a);
            let q = (base + vc.len()) as int;
            lemma_height_step(code, q);
            lemma_plain_position(code, q);
        },
        ExprView::Call(callee, args) => {
            let ac = compile_exprs_spec(args).unwrap();
            match *callee {
                ExprView::Call(_, _) => {
                    let cc = compile_expr_spec(*callee).unwrap();
                    lemma_placed_push(code, base, ac + cc, OpcodeView::Call(args.len()));
                    lemma_placed_split(code, base, ac, cc);
                    lemma_exprs_balanced(args, code, base, a);
                    lemma_expr_balanced(*callee, code, base + ac.len(), a + args.len());
                    let q = (base + ac.len() + cc.len()) as int;
                    lemma_height_step(code, q);
                    lemma_plain_position(code, q);
                },
                ExprView::Ident(name) => {
                    lemma_placed_push(
                        code,
                        base,
                        ac.push(OpcodeView::Load(name)),
                        OpcodeView::Call(args.len()),
                    );
                    lemma_placed_push(code, base, ac, OpcodeView::Load(name));
                    lemma_exprs_balanced(args, code, base, a);
                    let q = (base + ac.len()) as int;
                    lemma_height_step(code, q);
                    lemma_plain_position(code, q);
                    lemma_height_step(code, q + 1);
                    lemma_plain_position(code, q + 1);
                },
                _ => {},
            }
        },
    }
}

/// The code of a list of expressions, met at height `a`, is balanced and
/// leaves the stack higher by the length of the list.
proof fn lemma_exprs_balanced(es: Seq<ExprView>, code: Seq<OpcodeView>, base: nat, a: int)
    requires
        compile_exprs_spec(es) is Ok,
        placed(code, base, compile_exprs_spec(es).unwrap()),
        a >= 0,
        height_from(code, 0, base as int) == a,
    ensures
        height_from(code, 0, (base + compile_exprs_spec(es).unwrap().len()) as int) == a + es.len(),
        forall|p: int|
            base <= p < base + compile_exprs_spec(es).unwrap().len() ==> #[trigger] position_balanced(
                code,
                p,
            ),
    decreases es, 0nat,
{
    if es.len() > 0 {
        let c = compile_expr_spec(es.first()).unwrap();
        let d = compile_exprs_spec(es.drop_first()).unwrap();
        lemma_placed_split(code, base, c, d);
        lemma_expr_balanced(es.first(), code, base, a);
        lemma_exprs_balanced(es.drop_first(), code, base + c.len(), a + 1);
    }
}

/// The code of a statement, met at height zero, is balanced and leaves the
/// stack at height zero.
proof fn lemma_stmt_balanced(s: StmtView, code: Seq<OpcodeView>, base: nat)
    requires
        compile_stmt_spec(s, base) is Ok,
        placed(code, base, compile_stmt_spec(s, base).unwrap()),
        height_from(code, 0, base as int) == 0,
    ensures
        height_from(code, 0, (base + compile_stmt_spec(s, base).unwrap().len()) as int) == 0,
        forall|p: int|
            base <= p < base + compile_stmt_spec(s, base).unwrap().len() ==> #[trigger] position_balanced(
                code,
                p,
            ),
    decreases s, 1nat,
{
    let w = compile_stmt_spec(s, base).unwrap();
    match s {
        StmtView::Expr(e) => {
            let c = compile_expr_spec(e).unwrap();
            lemma_placed_push(code, base, c, OpcodeView::Pop);
            lemma_expr_balanced(e, code, base, 0);
            let q = (base + c.len()) as int;
            lemma_height_step(code, q);
            lemma_plain_position(code, q);
        },
        StmtView::Let(name, None) => {
            lemma_placed_index(code, base, w, 0);
            lemma_height_step(code, base as int);
            lemma_plain_position(code, base as int);
        },
        StmtView::Let(name, Some(e)) => {
            let c = compile_expr_spec(e).unwrap();
            let head = seq![OpcodeView::Register(name)];
            lemma_placed_push(code, base, (head + c).push(OpcodeView::Store(name)), OpcodeView::Pop);
            lemma_placed_push(code, base, head + c, OpcodeView::Store(name));
            lemma_placed_split(code, base, head, c);
            lemma_placed_index(code, base, head, 0);
            lemma_height_step(code, base as int);
            lemma_plain_position(code, base as int);
            lemma_expr_balanced(e, code, base + 1, 0);
            let q = (base + 1 + c.len()) as int;
            lemma_height_step(code, q);
            lemma_plain_position(code, q);
            lemma_height_step(code, q + 1);
            lemma_plain_position(code, q + 1);
        },
        StmtView::Return(None) => {
            lemma_placed_index(code, base, w, 0);
            lemma_height_step(code, base as int);
        },
        StmtView::Return(Some(e)) => {
            let c = compile_expr_spec(e).unwrap();
            lemma_placed_push(code, base, c, OpcodeView::Return);
            lemma_expr_balanced(e, code, base, 0);
            let q = (base + c.len()) as int;
            lemma_height_step(code, q);
        },
        StmtView::Block(_) => {
            lemma_block_balanced(s, code, base);
        },
        StmtView::Fn(name, params, body) => {
            match *body {
                StmtView::Block(stmts) => {
                    law_compiled_program_is_balanced(stmts);
                    lemma_placed_index(code, base, w, 0);
                    lemma_height_step(code, base as int);
                },
                _ => {},
            }
        },
        StmtView::While(condition, body) => {
            let cc = compile_expr_spec(condition).unwrap();
            let bbase = base + cc.len() + 1;
            let bc = compile_block_spec(*body, bbase).unwrap();
            let exit = (bbase + bc.len() + 1) as nat;
            let jump = OpcodeView::JumpIfFalse(exit);
            lemma_placed_push(code, base, cc.push(jump) + bc, OpcodeView::Jump(base));
            lemma_placed_split(code, base, cc.push(jump), bc);
            lemma_placed_push(code, base, cc, jump);
            lemma_expr_balanced(condition, code, base, 0);
            lemma_height_step(code, (base + cc.len()) as int);
            lemma_block_balanced(*body, code, bbase);
            lemma_height_step(code, (bbase + bc.len()) as int);
        },
        StmtView::If(condition, body, alt) => {
            let cc = compile_expr_spec(condition).unwrap();
            let tbase = base + cc.len() + 1;
            let tc = compile_block_spec(*body, tbase).unwrap();
            match alt {
                None => {
                    let exit = (tbase + tc.len()) as nat;
                    let jump = OpcodeView::JumpIfFalse(exit);
                    lemma_placed_split(code, base, cc.push(jump), tc);
                    lemma_placed_push(code, base, cc, jump);
                    lemma_expr_balanced(condition, code, base, 0);
                    lemma_height_step(code, (base + cc.len()) as int);
                    lemma_block_balanced(*body, code, tbase);
                },
                Some(other) => {
                    let ebase = (tbase + tc.len() + 1) as nat;
                    let ec = compile_else_spec(*other, ebase).unwrap();
                    let exit = (ebase + ec.len()) as nat;
                    let jump = OpcodeView::JumpIfFalse(ebase);
                    let skip = OpcodeView::Jump(exit);
                    lemma_placed_split(code, base, (cc.push(jump) + tc).push(skip), ec);
                    lemma_placed_push(code, base, cc.push(jump) + tc, skip);
                    lemma_placed_split(code, base, cc.push(jump), tc);
                    lemma_placed_push(code, base, cc, jump);
                    lemma_expr_balanced(condition, code, base, 0);
                    lemma_height_step(code, (base + cc.len()) as int);
                    lemma_block_balanced(*body, code, tbase);
                    lemma_height_step(code, (tbase + tc.len()) as int);
                    lemma_else_balanced(*other, code, ebase);
                },
            }
        },
    }
}

/// The code of a block, met at height zero, is balanced and leaves the
/// stack at height zero.
proof fn lemma_block_balanced(s: StmtView, code: Seq<OpcodeView>, base: nat)
    requires
        compile_block_spec(s, base) is Ok,
        placed(code, base, compile_block_spec(s, base).unwrap()),
        height_from(code, 0, base as int) == 0,
    ensures
        height_from(code, 0, (base + compile_block_spec(s, base).unwrap().len()) as int) == 0,
        forall|p: int|
            base <= p < base + compile_block_spec(s, base).unwrap().len() ==> #[trigger] position_balanced(
                code,
                p,
            ),
    decreases s, 0nat,
{
    match s {
        StmtView::Block(stmts) => {
            let c = compile_stmts_spec(stmts, base + 1).unwrap();
            let head = seq![OpcodeView::BeginScope];
            lemma_placed_push(code, base, head + c, OpcodeView::EndScope);
            lemma_placed_split(code, base, head, c);
            lemma_placed_index(code, base, head, 0);
            lemma_height_step(code, base as int);
            lemma_stmts_balanced(stmts, code, base + 1);
            lemma_height_step(code, (base + 1 + c.len()) as int);
        },
        _ => {},
    }
}

/// The code of an else branch, met at height zero, is balanced and leaves
/// the stack at height zero.
proof fn lemma_else_balanced(s: StmtView, code: Seq<OpcodeView>, base: nat)
    requires
        compile_else_spec(s, base) is Ok,
        placed(code, base, compile_else_spec(s, base).unwrap()),
        height_from(code, 0, base as int) == 0,
    ensures
        height_from(code, 0, (base + compile_else_spec(s, base).unwrap().len()) as int) == 0,
        forall|p: int|
            base <= p < base + compile_else_spec(s, base).unwrap().len() ==> #[trigger] position_balanced(
                code,
                p,
            ),
    decreases s, 2nat,
{
    match s {
        StmtView::Block(_) => {
            lemma_block_balanced(s, code, base);
        },
        StmtView::If(_, _, _) => {
            lemma_stmt_balanced(s, code, base);
        },
        _ => {},
    }
}

/// The code of a list of statements, met at height zero, is balanced and
/// leaves the stack at height zero.
proof fn lemma_stmts_balanced(ss: Seq<StmtView>, code: Seq<OpcodeView>, base: nat)
    requires
        compile_stmts_spec(ss, base) is Ok,
        placed(code, base, compile_stmts_spec(ss, base).unwrap()),
        height_from(code, 0, base as int) == 0,
    ensures
        height_from(code, 0, (base + compile_stmts_spec(ss, base).unwrap().len()) as int) == 0,
        forall|p: int|
            base <= p < base + compile_stmts_spec(ss, base).unwrap().len() ==> #[trigger] position_balanced(
                code,
                p,
            ),
    decreases ss, 0nat,
{
    if ss.len() > 0 {
        let c = compile_stmt_spec(ss.first(), base).unwrap();
        let d = compile_stmts_spec(ss.drop_first(), base + c.len()).unwrap();
        lemma_placed_split(code, base, c, d);
        lemma_stmt_balanced(ss.first(), code, base);
        lemma_stmts_balanced(ss.drop_first(), code, base + c.len());
    }
}

/// The code of a program is balanced: it never asks for an operand that is
/// not on the stack above the floor, and every return finds the stack at
/// the floor or one above it. The same holds of the body of every function
/// of the program.
pub proof fn law_compiled_program_is_balanced(ss: Seq<StmtView>)
    requires
        compile_stmts_spec(ss, 0) is Ok,
    ensures
        code_balanced(compile_stmts_spec(ss, 0).unwrap()),
    decreases ss, 1nat,
{
    let code = compile_stmts_spec(ss, 0).unwrap();
    assert(code.subrange(0, code.len() as int) =~= code);
    lemma_stmts_balanced(ss, code, 0);
    assert forall|i: int| 0 <= i < code.len() implies {
        &&& height_from(code, 0, i) >= needs(#[trigger] code[i])
        &&& match code[i] {
            OpcodeView::Jump(t) => t <= code.len() && height_from(code, 0, t as int)
                == height_from(code, 0, i),
            OpcodeView::JumpIfFalse(t) => t <= code.len() && height_from(code, 0, t as int)
                == height_from(code, 0, i) - 1,
            OpcodeView::Return => height_from(code, 0, i) <= 1,
            OpcodeView::StoreFunction(_, _, body) => code_balanced(body),
            OpcodeView::Push(v) => value_balanced(v),
            _ => true,
        }
    } by {
        assert(position_balanced(code, i));
    }
}

/// A compiled program keeps the stack in order across calls: a run of it
/// never fails for want of operands, and at no return does the stack miss
/// the floor of the call.
pub proof fn law_compiled_program_keeps_the_stack_in_order(ss: Seq<StmtView>, fuel: nat)
    requires
        compile_stmts_spec(ss, 0) is Ok,
    ensures
        ({
            let r = run_spec(initial_state(compile_stmts_spec(ss, 0).unwrap()), fuel).1;
            &&& r != Err::<(), RuntimeError>(RuntimeError::StackUnderflow)
            &&& r != Err::<(), RuntimeError>(RuntimeError::StackFloorViolation)
        }),
{
    let code = compile_stmts_spec(ss, 0).unwrap();
    law_compiled_program_is_balanced(ss);
    law_initial_state_is_balanced(code);
    law_balanced_run_passes_its_checks(initial_state(code), fuel);
}

/// The instruction at position `p` of `code` leaves a scope only where a
/// block is open, and what it jumps to, pushes or declares is nested.
pub open spec fn position_nested(code: Seq<OpcodeView>, p: int) -> bool {
    match code[p] {
        OpcodeView::EndScope => depth_from(code, 0, p) >= 1,
        OpcodeView::Jump(t) => t <= code.len() && depth_from(code, 0, t as int) == depth_from(
            code,
            0,
            p,
        ),
        OpcodeView::JumpIfFalse(t) => t <= code.len() && depth_from(code, 0, t as int)
            == depth_from(code, 0, p),
        OpcodeView::StoreFunction(_, _, body) => code_nested(body),
        OpcodeView::Push(v) => value_nested(v),
        _ => true,
    }
}

/// A plain instruction is nested and opens or closes no block.
proof fn lemma_plain_nested(code: Seq<OpcodeView>, p: int)
    requires
        0 <= p < code.len(),
        is_plain(code[p]),
    ensures
        position_nested(code, p),
        depth_from(code, 0, p + 1) == depth_from(code, 0, p),
{
    lemma_depth_step(code, p);
}

/// A piece of plain instructions is nested and opens or closes no block.
proof fn lemma_plain_piece_nested(code: Seq<OpcodeView>, base: nat, w: Seq<OpcodeView>)
    requires
        placed(code, base, w),
        forall|j: int| 0 <= j < w.len() ==> is_plain(#[trigger] w[j]),
    ensures
        depth_from(code, 0, (base + w.len()) as int) == depth_from(code, 0, base as int),
        forall|p: int| base <= p < base + w.len() ==> #[trigger] position_nested(code, p),
    decreases w.len(),
{
    if w.len() > 0 {
        let front = w.drop_last();
        assert(w =~= front.push(w.last()));
        lemma_placed_push(code, base, front, w.last());
        assert forall|j: int| 0 <= j < front.len() implies is_plain(#[trigger] front[j]) by {
            assert(front[j] == w[j]);
        }
        lemma_plain_piece_nested(code, base, front);
        lemma_plain_nested(code, (base + front.len()) as int);
    }
}

/// The code of an expression is nested and opens or closes no block.
proof fn lemma_expr_nested(e: ExprView, code: Seq<OpcodeView>, base: nat)
    requires
        compile_expr_spec(e) is Ok,
        placed(code, base, compile_expr_spec(e).unwrap()),
    ensures
        depth_from(code, 0, (base + compile_expr_spec(e).unwrap().len()) as int) == depth_from(
            code,
            0,
            base as int,
        ),
        forall|p: int|
            base <= p < base + compile_expr_spec(e).unwrap().len() ==> #[trigger] position_nested(
                code,
                p,
            ),
{
    lemma_expr_code_is_plain(e);
    lemma_plain_piece_nested(code, base, compile_expr_spec(e).unwrap());
}

/// The code of a statement is nested, and behind it as many blocks are
/// open as before it.
proof fn lemma_stmt_nested(s: StmtView, code: Seq<OpcodeView>, base: nat)
    requires
        compile_stmt_spec(s, base) is Ok,
        placed(code, base, compile_stmt_spec(s, base).unwrap()),
        depth_from(code, 0, base as int) >= 0,
    ensures
        depth_from(code, 0, (base + compile_stmt_spec(s, base).unwrap().len()) as int)
            == depth_from(code, 0, base as int),
        forall|p: int|
            base <= p < base + compile_stmt_spec(s, base).unwrap().len() ==> #[trigger] position_nested(
                code,
                p,
            ),
    decreases s, 1nat,
{
    let w = compile_stmt_spec(s, base).unwrap();
    match s {
        StmtView::Expr(e) => {
            let c = compile_expr_spec(e).unwrap();
            lemma_placed_push(code, base, c, OpcodeView::Pop);
            lemma_expr_nested(e, code, base);
            lemma_plain_nested(code, (base + c.len()) as int);
        },
        StmtView::Let(name, None) => {
            lemma_placed_index(code, base, w, 0);
            lemma_plain_nested(code, base as int);
        },
        StmtView::Let(name, Some(e)) => {
            let c = compile_expr_spec(e).unwrap();
            let head = seq![OpcodeView::Register(name)];
            lemma_placed_push(code, base, (head + c).push(OpcodeView::Store(name)), OpcodeView::Pop);
            lemma_placed_push(code, base, head + c, OpcodeView::Store(name));
            lemma_placed_split(code, base, head, c);
            lemma_placed_index(code, base, head, 0);
            lemma_plain_nested(code, base as int);
            lemma_expr_nested(e, code, base + 1);
            let q = (base + 1 + c.len()) as int;
            lemma_plain_nested(code, q);
            lemma_plain_nested(code, q + 1);
        },
        StmtView::Return(None) => {
            lemma_placed_index(code, base, w, 0);
            lemma_plain_nested(code, base as int);
        },
        StmtView::Return(Some(e)) => {
            let c = compile_expr_spec(e).unwrap();
            lemma_placed_push(code, base, c, OpcodeView::Return);
            lemma_expr_nested(e, code, base);
            lemma_plain_nested(code, (base + c.len()) as int);
        },
        StmtView::Block(_) => {
            lemma_block_nested(s, code, base);
        },
        StmtView::Fn(name, params, body) => {
            match *body {
                StmtView::Block(stmts) => {
                    law_compiled_program_is_nested(stmts);
                    lemma_placed_index(code, base, w, 0);
                    lemma_depth_step(code, base as int);
                },
                _ => {},
            }
        },
        StmtView::While(condition, body) => {
            let cc = compile_expr_spec(condition).unwrap();
            let bbase = base + cc.len() + 1;
            let bc = compile_block_spec(*body, bbase).unwrap();
            let exit = (bbase + bc.len() + 1) as nat;
            let jump = OpcodeView::JumpIfFalse(exit);
            lemma_placed_push(code, base, cc.push(jump) + bc, OpcodeView::Jump(base));
            lemma_placed_split(code, base, cc.push(jump), bc);
            lemma_placed_push(code, base, cc, jump);
            lemma_expr_nested(condition, code, base);
            lemma_depth_step(code, (base + cc.len()) as int);
            lemma_block_nested(*body, code, bbase);
            lemma_depth_step(code, (bbase + bc.len()) as int);
        },
        StmtView::If(condition, body, alt) => {
            let cc = compile_expr_spec(condition).unwrap();
            let tbase = base + cc.len() + 1;
            let tc = compile_block_spec(*body, tbase).unwrap();
            match alt {
                None => {
                    let exit = (tbase + tc.len()) as nat;
                    let jump = OpcodeView::JumpIfFalse(exit);
                    lemma_placed_split(code, base, cc.push(jump), tc);
                    lemma_placed_push(code, base, cc, jump);
                    lemma_expr_nested(condition, code, base);
                    lemma_depth_step(code, (base + cc.len()) as int);
                    lemma_block_nested(*body, code, tbase);
                },
                Some(other) => {
                    let ebase = (tbase + tc.len() + 1) as nat;
                    let ec = compile_else_spec(*other, ebase).unwrap();
                    let exit = (ebase + ec.len()) as nat;
                    let jump = OpcodeView::JumpIfFalse(ebase);
                    let skip = OpcodeView::Jump(exit);
                    lemma_placed_split(code, base, (cc.push(jump) + tc).push(skip), ec);
                    lemma_placed_push(code, base, cc.push(jump) + tc, skip);
                    lemma_placed_split(code, base, cc.push(jump), tc);
                    lemma_placed_push(code, base, cc, jump);
                    lemma_expr_nested(condition, code, base);
                    lemma_depth_step(code, (base + cc.len()) as int);
                    lemma_block_nested(*body, code, tbase);
                    lemma_depth_step(code, (tbase + tc.len()) as int);
                    lemma_else_nested(*other, code, ebase);
                },
            }
        },
    }
}

/// The code of a block is nested, and behind it as many blocks are open as
/// before it.
proof fn lemma_block_nested(s: StmtView, code: Seq<OpcodeView>, base: nat)
    requires
        compile_block_spec(s, base) is Ok,
        placed(code, base, compile_block_spec(s, base).unwrap()),
        depth_from(code, 0, base as int) >= 0,
    ensures
        depth_from(code, 0, (base + compile_block_spec(s, base).unwrap().len()) as int)
            == depth_from(code, 0, base as int),
        forall|p: int|
            base <= p < base + compile_block_spec(s, base).unwrap().len() ==> #[trigger] position_nested(
                code,
                p,
            ),
    decreases s, 0nat,
{
    match s {
        StmtView::Block(stmts) => {
            let c = compile_stmts_spec(stmts, base + 1).unwrap();
            let head = seq![OpcodeView::BeginScope];
            lemma_placed_push(code, base, head + c, OpcodeView::EndScope);
            lemma_placed_split(code, base, head, c);
            lemma_placed_index(code, base, head, 0);
            lemma_depth_step(code, base as int);
            lemma_stmts_nested(stmts, code, base + 1);
            lemma_depth_step(code, (base + 1 + c.len()) as int);
        },
        _ => {},
    }
}

/// The code of an else branch is nested, and behind it as many blocks are
/// open as before it.
proof fn lemma_else_nested(s: StmtView, code: Seq<OpcodeView>, base: nat)
    requires
        compile_else_spec(s, base) is Ok,
        placed(code, base, compile_else_spec(s, base).unwrap()),
        depth_from(code, 0, base as int) >= 0,
    ensures
        depth_from(code, 0, (base + compile_else_spec(s, base).unwrap().len()) as int)
            == depth_from(code, 0, base as int),
        forall|p: int|
            base <= p < base + compile_else_spec(s, base).unwrap().len() ==> #[trigger] position_nested(
                code,
                p,
            ),
    decreases s, 2nat,
{
    match s {
        StmtView::Block(_) => {
            lemma_block_nested(s, code, base);
        },
        StmtView::If(_, _, _) => {
            lemma_stmt_nested(s, code, base);
        },
        _ => {},
    }
}

/// The code of a list of statements is nested, and behind it as many blocks
/// are open as before it.
proof fn lemma_stmts_nested(ss: Seq<StmtView>, code: Seq<OpcodeView>, base: nat)
    requires
        compile_stmts_spec(ss, base) is Ok,
        placed(code, base, compile_stmts_spec(ss, base).unwrap()),
        depth_from(code, 0, base as int) >= 0,
    ensures
        depth_from(code, 0, (base + compile_stmts_spec(ss, base).unwrap().len()) as int)
            == depth_from(code, 0, base as int),
        forall|p: int|
            base <= p < base + compile_stmts_spec(ss, base).unwrap().len() ==> #[trigger] position_nested(
                code,
                p,
            ),
    decreases ss, 0nat,
{
    if ss.len() > 0 {
        let c = compile_stmt_spec(ss.first(), base).unwrap();
        let d = compile_stmts_spec(ss.drop_first(), base + c.len()).unwrap();
        lemma_placed_split(code, base, c, d);
        lemma_stmt_nested(ss.first(), code, base);
        lemma_stmts_nested(ss.drop_first(), code, base + c.len());
    }
}

/// The code of a program is nested: it leaves no scope that it has not
/// entered. The same holds of the body of every function of the program.
pub proof fn law_compiled_program_is_nested(ss: Seq<StmtView>)
    requires
        compile_stmts_spec(ss, 0) is Ok,
    ensures
        code_nested(compile_stmts_spec(ss, 0).unwrap()),
    decreases ss, 1nat,
{
    let code = compile_stmts_spec(ss, 0).unwrap();
    assert(code.subrange(0, code.len() as int) =~= code);
    lemma_stmts_nested(ss, code, 0);
    assert forall|i: int| 0 <= i < code.len() implies match #[trigger] code[i] {
        OpcodeView::EndScope => depth_from(code, 0, i) >= 1,
        OpcodeView::Jump(t) => t <= code.len() && depth_from(code, 0, t as int) == depth_from(
            code,
            0,
            i,
        ),
        OpcodeView::JumpIfFalse(t) => t <= code.len() && depth_from(code, 0, t as int)
            == depth_from(code, 0, i),
        OpcodeView::StoreFunction(_, _, body) => code_nested(body),
        OpcodeView::Push(v) => value_nested(v),
        _ => true,
    } by {
        assert(position_nested(code, i));
    }
}

/// A compiled program fails only where the program is at fault. A run of
/// it never ends with an error that tells of disorder in the machine
/// itself: the instruction pointer beyond the code, a function without its
/// scope, too few operands on the stack, a stack that misses the floor at a
/// return, or the root scope left.
pub proof fn law_compiled_program_keeps_the_machine_in_order(ss: Seq<StmtView>, fuel: nat)
    requires
        compile_stmts_spec(ss, 0) is Ok,
    ensures
        ({
            let r = run_spec(initial_state(compile_stmts_spec(ss, 0).unwrap()), fuel).1;
            &&& r != Err::<(), RuntimeError>(RuntimeError::IpOutOfRange)
            &&& r != Err::<(), RuntimeError>(RuntimeError::DanglingScope)
            &&& r != Err::<(), RuntimeError>(RuntimeError::StackUnderflow)
            &&& r != Err::<(), RuntimeError>(RuntimeError::StackFloorViolation)
            &&& r != Err::<(), RuntimeError>(RuntimeError::EndRootScope)
        }),
{
    let code = compile_stmts_spec(ss, 0).unwrap();
    law_compiled_program_passes_the_checks(ss, fuel);
    law_compiled_program_keeps_the_stack_in_order(ss, fuel);
    law_compiled_program_is_nested(ss);
    law_initial_state_is_nested(code);
    law_nested_run_passes_its_check(initial_state(code), fuel);
}

} // verus!
