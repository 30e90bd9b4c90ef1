//! The integrity of the machine's code: every jump goes to a position of
//! the sequence that holds it, or to its end, and every function value
//! names a scope that the machine has.
//!
//! Code made by hand can break both, which is why the machine checks the
//! instruction pointer before each step and the scope of a function at each
//! call. The laws here show that a machine whose code is sound stays so,
//! and that in such a machine neither check ever fails.

use vstd::prelude::*;
use crate::vm::error::RuntimeError;
use crate::vm::initial_state;
use crate::vm::laws::law_step_preserves_well_formedness;
use crate::vm::model::{bind_params, resolve, return_spec, run_spec, step_spec, VMView};
use crate::vm::opcode::{OpcodeView, ValueView};
use crate::vm::ops::binary_spec;
use crate::vm::scope::ScopeView;

verus! {

/// A value is sound for a table of `n` scopes: if it is a function, it
/// names a scope below `n` and its body is sound.
pub open spec fn value_sound(v: ValueView, n: nat) -> bool
    decreases v,
{
    match v {
        ValueView::Function(f) => f.scope < n && code_sound(f.codes, n),
        _ => true,
    }
}

/// An instruction sequence is sound for a table of `n` scopes: every jump
/// goes to one of its positions or to its end, every value it pushes is
/// sound, and so is the body of every function it declares.
pub open spec fn code_sound(code: Seq<OpcodeView>, n: nat) -> bool
    decreases code,
{
    forall|i: int|
        0 <= i < code.len() ==> match #[trigger] code[i] {
            OpcodeView::Push(v) => value_sound(v, n),
            OpcodeView::StoreFunction(_, _, body) => code_sound(body, n),
            OpcodeView::Jump(t) => t <= code.len(),
            OpcodeView::JumpIfFalse(t) => t <= code.len(),
            _ => true,
        }
}

/// Every value bound in `scope` is sound.
pub open spec fn scope_sound(scope: ScopeView, n: nat) -> bool {
    forall|name: Seq<char>|
        scope.vars.contains_key(name) ==> match #[trigger] scope.vars[name] {
            Some(v) => value_sound(v, n),
            None => true,
        }
}

/// The machine is sound: the instruction pointer is at a position of the
/// active code or at its end, and the active code, the values on the stack
/// and in the scopes and the code that the frames hold are sound for the
/// machine's table of scopes.
pub open spec fn state_sound(s: VMView) -> bool {
    let n = s.scopes.len();
    &&& s.ip <= s.code.len()
    &&& code_sound(s.code, n)
    &&& forall|i: int| 0 <= i < s.stack.len() ==> value_sound(#[trigger] s.stack[i], n)
    &&& forall|k: int| 0 <= k < s.scopes.len() ==> scope_sound(#[trigger] s.scopes[k], n)
    &&& forall|i: int| 0 <= i < s.frames.len() ==> code_sound((#[trigger] s.frames[i]).code, n)
}

/// Whether a state is sound does not depend on its current scope or its
/// output, nor on where in the code the instruction pointer is.
proof fn lemma_sound_anywhere(s: VMView, t: VMView)
    requires
        state_sound(s),
        t.ip <= t.code.len(),
        t.code == s.code,
        t.stack == s.stack,
        t.scopes == s.scopes,
        t.frames == s.frames,
    ensures
        state_sound(t),
{
}

/// What is sound for a table is sound for every longer one.
proof fn lemma_value_grows(v: ValueView, n: nat, m: nat)
    requires
        value_sound(v, n),
        n <= m,
    ensures
        value_sound(v, m),
    decreases v,
{
    match v {
        ValueView::Function(f) => {
            lemma_code_grows(f.codes, n, m);
        },
        _ => {},
    }
}

/// Code that is sound for a table is sound for every longer one.
proof fn lemma_code_grows(code: Seq<OpcodeView>, n: nat, m: nat)
    requires
        code_sound(code, n),
        n <= m,
    ensures
        code_sound(code, m),
    decreases code,
{
    assert forall|i: int| 0 <= i < code.len() implies match #[trigger] code[i] {
        OpcodeView::Push(v) => value_sound(v, m),
        OpcodeView::StoreFunction(_, _, body) => code_sound(body, m),
        OpcodeView::Jump(t) => t <= code.len(),
        OpcodeView::JumpIfFalse(t) => t <= code.len(),
        _ => true,
    } by {
        match code[i] {
            OpcodeView::Push(v) => {
                lemma_value_grows(v, n, m);
            },
            OpcodeView::StoreFunction(_, _, body) => {
                lemma_code_grows(body, n, m);
            },
            _ => {},
        }
    }
}

/// A scope that is sound for a table is sound for every longer one.
proof fn lemma_scope_grows(scope: ScopeView, n: nat, m: nat)
    requires
        scope_sound(scope, n),
        n <= m,
    ensures
        scope_sound(scope, m),
{
    assert forall|name: Seq<char>| scope.vars.contains_key(name) implies match #[trigger] scope.vars[name] {
        Some(v) => value_sound(v, m),
        None => true,
    } by {
        match scope.vars[name] {
            Some(v) => {
                lemma_value_grows(v, n, m);
            },
            None => {},
        }
    }
}

/// A sound state stays sound when the table grows by one sound scope.
proof fn lemma_state_grows(s: VMView, extra: ScopeView)
    requires
        state_sound(s),
        scope_sound(extra, s.scopes.len() + 1),
    ensures
        state_sound(VMView { scopes: s.scopes.push(extra), ..s }),
{
    let n = s.scopes.len();
    let m = n + 1;
    let t = VMView { scopes: s.scopes.push(extra), ..s };
    lemma_code_grows(s.code, n, m);
    assert forall|i: int| 0 <= i < t.stack.len() implies value_sound(#[trigger] t.stack[i], m) by {
        lemma_value_grows(s.stack[i], n, m);
    }
    assert forall|k: int| 0 <= k < t.scopes.len() implies scope_sound(#[trigger] t.scopes[k], m) by {
        if k < n {
            lemma_scope_grows(s.scopes[k], n, m);
        }
    }
    assert forall|i: int| 0 <= i < t.frames.len() implies code_sound(
        (#[trigger] t.frames[i]).code,
        m,
    ) by {
        lemma_code_grows(s.frames[i].code, n, m);
    }
}

/// The bindings of a call hold values of the arguments only.
proof fn lemma_bind_params_sound(params: Seq<Seq<char>>, args: Seq<ValueView>, n: nat)
    requires
        forall|i: int| 0 <= i < args.len() ==> value_sound(#[trigger] args[i], n),
    ensures
        scope_sound(ScopeView { vars: bind_params(params, args), parent: None }, n),
    decreases params.len(),
{
    if params.len() > 0 && args.len() > 0 {
        assert forall|i: int| 0 <= i < args.drop_first().len() implies value_sound(
            #[trigger] args.drop_first()[i],
            n,
        ) by {
            assert(args.drop_first()[i] == args[i + 1]);
        }
        lemma_bind_params_sound(params.drop_first(), args.drop_first(), n);
        let rest = ScopeView {
            vars: bind_params(params.drop_first(), args.drop_first()),
            parent: None,
        };
        let all = ScopeView { vars: bind_params(params, args), parent: None };
        assert forall|name: Seq<char>| all.vars.contains_key(name) implies match #[trigger] all.vars[name] {
            Some(v) => value_sound(v, n),
            None => true,
        } by {
            if name != params[0] {
                assert(rest.vars.contains_key(name));
                assert(all.vars[name] == rest.vars[name]);
            }
        }
    }
}

/// A sound state stays sound when a name is bound to a sound value.
proof fn lemma_bind_sound(s: VMView, k: nat, name: Seq<char>, slot: Option<ValueView>)
    requires
        state_sound(s),
        k < s.scopes.len(),
        match slot {
            Some(v) => value_sound(v, s.scopes.len()),
            None => true,
        },
    ensures
        state_sound(VMView { scopes: crate::vm::model::bind(s.scopes, k, name, slot), ..s }),
{
    let n = s.scopes.len();
    let t = VMView { scopes: crate::vm::model::bind(s.scopes, k, name, slot), ..s };
    assert forall|j: int| 0 <= j < t.scopes.len() implies scope_sound(#[trigger] t.scopes[j], n) by {
        if j == k {
            assert forall|other: Seq<char>| t.scopes[j].vars.contains_key(other) implies match #[trigger] t.scopes[j].vars[other] {
                Some(v) => value_sound(v, n),
                None => true,
            } by {
                if other != name {
                    assert(s.scopes[j].vars.contains_key(other));
                    assert(t.scopes[j].vars[other] == s.scopes[j].vars[other]);
                }
            }
        } else {
            assert(t.scopes[j] == s.scopes[j]);
        }
    }
}

/// A sound state stays sound with another stack of sound values and
/// another position in the code.
proof fn lemma_restack(s: VMView, stack: Seq<ValueView>, ip: nat)
    requires
        state_sound(s),
        ip <= s.code.len(),
        forall|i: int| 0 <= i < stack.len() ==> value_sound(#[trigger] stack[i], s.scopes.len()),
    ensures
        state_sound(VMView { stack: stack, ip: ip, ..s }),
{
}

/// An operator gives no function.
proof fn lemma_operator_results(op: OpcodeView, a: ValueView, b: ValueView, n: nat)
    ensures
        binary_spec(op, a, b) is Ok ==> value_sound(binary_spec(op, a, b).unwrap(), n),
{
}

/// Every step keeps the machine sound.
pub proof fn law_step_keeps_the_machine_sound(s: VMView)
    requires
        s.wf(),
        state_sound(s),
        step_spec(s) is Ok,
    ensures
        state_sound(step_spec(s).unwrap()),
{
    let n = s.scopes.len();
    let t = step_spec(s).unwrap();
    if s.ip == s.code.len() {
        if s.frames.len() > 0 {
            lemma_return_sound(s);
        }
    } else {
        let op = s.code[s.ip as int];
        match op {
            OpcodeView::Push(v) => {
                lemma_restack(s, s.stack.push(v), s.ip + 1);
            },
            OpcodeView::Pop => {
                lemma_restack(s, t.stack, s.ip + 1);
            },
            OpcodeView::Load(name) => {
                let k = resolve(s.scopes, s.scope, name).unwrap();
                crate::vm::laws::law_resolve_finds_a_declaration(s.scopes, s.scope, name);
                assert(scope_sound(s.scopes[k as int], n));
                lemma_restack(s, t.stack, s.ip + 1);
            },
            OpcodeView::Store(name) => {
                let k = resolve(s.scopes, s.scope, name).unwrap();
                crate::vm::laws::law_resolve_finds_a_declaration(s.scopes, s.scope, name);
                assert(value_sound(s.stack[s.stack.len() - 1], n));
                lemma_bind_sound(s, k, name, Some(s.stack.last()));
                lemma_sound_anywhere(VMView { scopes: t.scopes, ..s }, t);
            },
            OpcodeView::Register(name) => {
                lemma_bind_sound(s, s.scope, name, None);
                lemma_sound_anywhere(VMView { scopes: t.scopes, ..s }, t);
            },
            OpcodeView::StoreFunction(name, params, body) => {
                let f = crate::vm::opcode::FunctionView {
                    params: params,
                    codes: body,
                    scope: s.scope,
                };
                assert(value_sound(ValueView::Function(f), n));
                lemma_bind_sound(s, s.scope, name, Some(ValueView::Function(f)));
                lemma_sound_anywhere(VMView { scopes: t.scopes, ..s }, t);
            },
            OpcodeView::Call(argc) => {
                lemma_call_sound(s, argc);
            },
            OpcodeView::Return => {
                lemma_return_sound(s);
            },
            OpcodeView::Jump(_) => {
                lemma_sound_anywhere(s, t);
            },
            OpcodeView::JumpIfFalse(_) => {
                lemma_restack(s, t.stack, t.ip);
            },
            OpcodeView::Negate => {
                lemma_restack(s, t.stack, t.ip);
            },
            OpcodeView::Not => {
                lemma_restack(s, t.stack, t.ip);
            },
            OpcodeView::BeginScope => {
                let extra = ScopeView { vars: Map::empty(), parent: Some(s.scope) };
                lemma_state_grows(s, extra);
                lemma_sound_anywhere(VMView { scopes: t.scopes, ..s }, t);
            },
            OpcodeView::EndScope => {
                lemma_sound_anywhere(s, t);
            },
            OpcodeView::Print => {
                lemma_restack(s, t.stack, t.ip);
                lemma_sound_anywhere(VMView { stack: t.stack, ip: t.ip, ..s }, t);
            },
            _ => {
                let len = s.stack.len();
                lemma_operator_results(op, s.stack[len - 2], s.stack[len - 1], n);
                lemma_restack(s, t.stack, t.ip);
            },
        }
    }
}

/// A return keeps the machine sound.
proof fn lemma_return_sound(s: VMView)
    requires
        s.wf(),
        state_sound(s),
        return_spec(s) is Ok,
    ensures
        state_sound(return_spec(s).unwrap()),
{
    let t = return_spec(s).unwrap();
    let n = s.scopes.len();
    assert(code_sound(s.frames[s.frames.len() - 1].code, n));
    assert forall|i: int| 0 <= i < t.frames.len() implies code_sound(
        (#[trigger] t.frames[i]).code,
        n,
    ) by {
        assert(t.frames[i] == s.frames[i]);
    }
}

/// A call keeps the machine sound.
proof fn lemma_call_sound(s: VMView, argc: nat)
    requires
        state_sound(s),
        crate::vm::model::call_spec(s, argc) is Ok,
    ensures
        state_sound(crate::vm::model::call_spec(s, argc).unwrap()),
{
    let t = crate::vm::model::call_spec(s, argc).unwrap();
    let n = s.scopes.len();
    let f = s.stack.last()->Function_0;
    let floor = (s.stack.len() - 1 - argc) as nat;
    let args = s.stack.subrange(floor as int, s.stack.len() - 1);
    assert(value_sound(s.stack[s.stack.len() - 1], n));
    // the caller, with the callee and its arguments off the stack and the
    // caller's code in a frame
    let frame = crate::vm::model::FrameView { code: s.code, scope: s.scope, top: floor, ip: s.ip };
    let mid = VMView {
        code: f.codes,
        ip: 0,
        stack: s.stack.subrange(0, floor as int),
        frames: s.frames.push(frame),
        ..s
    };
    assert(state_sound(mid)) by {
        assert forall|i: int| 0 <= i < mid.frames.len() implies code_sound(
            (#[trigger] mid.frames[i]).code,
            n,
        ) by {
            if i < s.frames.len() {
                assert(mid.frames[i] == s.frames[i]);
            }
        }
    }
    assert forall|i: int| 0 <= i < args.len() implies value_sound(#[trigger] args[i], n + 1) by {
        lemma_value_grows(s.stack[floor + i], n, n + 1);
    }
    lemma_bind_params_sound(f.params, args, n + 1);
    let extra = ScopeView { vars: bind_params(f.params, args), parent: Some(f.scope) };
    assert(scope_sound(extra, n + 1)) by {
        let bare = ScopeView { vars: bind_params(f.params, args), parent: None };
        assert(scope_sound(bare, n + 1));
    }
    lemma_state_grows(mid, extra);
    lemma_sound_anywhere(VMView { scopes: mid.scopes.push(extra), ..mid }, t);
}

/// In a sound machine no step fails because the instruction pointer is
/// beyond the code, nor for want of a scope.
pub proof fn law_sound_machine_passes_its_checks(s: VMView)
    requires
        s.wf(),
        state_sound(s),
    ensures
        step_spec(s) != Err::<VMView, RuntimeError>(RuntimeError::IpOutOfRange),
        step_spec(s) != Err::<VMView, RuntimeError>(RuntimeError::DanglingScope),
{
    if s.ip < s.code.len() {
        match s.code[s.ip as int] {
            OpcodeView::Call(argc) => {
                if s.stack.len() > 0 {
                    assert(value_sound(s.stack[s.stack.len() - 1], s.scopes.len()));
                }
            },
            OpcodeView::Load(name) => {},
            _ => {},
        }
    }
}

/// A run that starts in a sound machine never fails because the
/// instruction pointer is beyond the code, nor for want of a scope.
pub proof fn law_sound_run_passes_its_checks(s: VMView, fuel: nat)
    requires
        s.wf(),
        state_sound(s),
    ensures
        run_spec(s, fuel).1 != Err::<(), RuntimeError>(RuntimeError::IpOutOfRange),
        run_spec(s, fuel).1 != Err::<(), RuntimeError>(RuntimeError::DanglingScope),
        state_sound(run_spec(s, fuel).0),
    decreases fuel,
{
    if !s.halted() && fuel > 0 {
        law_sound_machine_passes_its_checks(s);
        match step_spec(s) {
            Ok(t) => {
                law_step_preserves_well_formedness(s);
                law_step_keeps_the_machine_sound(s);
                law_sound_run_passes_its_checks(t, (fuel - 1) as nat);
            },
            Err(_) => {},
        }
    }
}

/// A machine that is about to run sound code is sound.
pub proof fn law_initial_state_is_sound(code: Seq<OpcodeView>)
    requires
        code_sound(code, 1),
    ensures
        initial_state(code).wf(),
        state_sound(initial_state(code)),
{
    let s = initial_state(code);
    let root = s.scopes[0];
    assert(code_sound(crate::vm::print_function().codes, 1));
    assert forall|name: Seq<char>| root.vars.contains_key(name) implies match #[trigger] root.vars[name] {
        Some(v) => value_sound(v, 1),
        None => true,
    } by {}
}

} // verus!
