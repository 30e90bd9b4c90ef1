//! The nesting of scopes: how many blocks are open at each position of a
//! piece of code, and what it takes for code never to leave a scope that it
//! has not entered.
//!
//! Code made by hand can leave more scopes than it has entered, and so come
//! to leave the root scope, which is why the machine checks at the end of
//! each scope that an enclosing scope is there. The laws here show that a
//! machine whose code is nested stays so, and that in such a machine the
//! check never fails.

use vstd::prelude::*;
use crate::vm::error::RuntimeError;
use crate::vm::initial_state;
use crate::vm::laws::law_resolve_finds_a_declaration;
use crate::vm::model::{
    bind, bind_params, call_spec, resolve, return_spec, run_spec, step_spec, FrameView, VMView,
};
use crate::vm::opcode::{FunctionView, OpcodeView, ValueView};
use crate::vm::print_function;
use crate::vm::scope::ScopeView;

verus! {

/// The number of open blocks behind an instruction that is met with `d`
/// blocks open.
pub open spec fn depth_after(op: OpcodeView, d: int) -> int {
    match op {
        OpcodeView::BeginScope => d + 1,
        OpcodeView::EndScope => d - 1,
        _ => d,
    }
}

/// The number of open blocks at position `i` of `code`, where the code is
/// entered with `entry` blocks open.
pub open spec fn depth_from(code: Seq<OpcodeView>, entry: int, i: int) -> int
    decreases i,
{
    if i <= 0 || i > code.len() {
        entry
    } else {
        depth_after(code[i - 1], depth_from(code, entry, i - 1))
    }
}

/// Scope `scope` exists and is enclosed at least `d` scopes deep.
pub open spec fn enclosed(scopes: Seq<ScopeView>, scope: nat, d: int) -> bool
    decreases d,
{
    &&& scope < scopes.len()
    &&& d > 0 ==> match scopes[scope as int].parent {
        Some(p) => enclosed(scopes, p, d - 1),
        None => false,
    }
}

/// A value is nested: if it is a function, its body is nested.
pub open spec fn value_nested(v: ValueView) -> bool
    decreases v,
{
    match v {
        ValueView::Function(f) => code_nested(f.codes),
        _ => true,
    }
}

/// An instruction sequence is nested: it leaves a scope only where a block
/// is open, and every jump goes to a position of the sequence, or to its
/// end, where as many blocks are open as at the jump. The values it pushes
/// and the bodies of the functions it declares are nested too.
pub open spec fn code_nested(code: Seq<OpcodeView>) -> bool
    decreases code,
{
    forall|i: int|
        0 <= i < code.len() ==> match #[trigger] code[i] {
            OpcodeView::EndScope => depth_from(code, 0, i) >= 1,
            OpcodeView::Jump(t) => t <= code.len() && depth_from(code, 0, t as int) == depth_from(
                code,
                0,
                i,
            ),
            OpcodeView::JumpIfFalse(t) => t <= code.len() && depth_from(code, 0, t as int)
                == depth_from(code, 0, i),
            OpcodeView::StoreFunction(_, _, body) => code_nested(body),
            OpcodeView::Push(v) => value_nested(v),
            _ => true,
        }
}

/// Every value bound in `scope` is nested.
pub open spec fn scope_nested(scope: ScopeView) -> bool {
    forall|name: Seq<char>|
        scope.vars.contains_key(name) ==> match #[trigger] scope.vars[name] {
            Some(v) => value_nested(v),
            None => true,
        }
}

/// A frame holds nested code, and the scope that it resumes in is enclosed
/// as deep as the blocks open behind the call.
pub open spec fn frame_nested(scopes: Seq<ScopeView>, f: FrameView) -> bool {
    &&& code_nested(f.code)
    &&& f.ip < f.code.len()
    &&& enclosed(scopes, f.scope, depth_from(f.code, 0, f.ip as int + 1))
}

/// The machine is nested: its code, its values and its frames are, and the
/// current scope is enclosed as deep as the blocks open at the position in
/// the code.
pub open spec fn state_nested(s: VMView) -> bool {
    &&& s.ip <= s.code.len()
    &&& code_nested(s.code)
    &&& enclosed(s.scopes, s.scope, depth_from(s.code, 0, s.ip as int))
    &&& forall|i: int| 0 <= i < s.stack.len() ==> value_nested(#[trigger] s.stack[i])
    &&& forall|k: int| 0 <= k < s.scopes.len() ==> scope_nested(#[trigger] s.scopes[k])
    &&& forall|i: int| 0 <= i < s.frames.len() ==> frame_nested(s.scopes, #[trigger] s.frames[i])
}

/// The number of open blocks behind the instruction at `i` is what the
/// instruction makes of the number before it.
pub proof fn lemma_depth_step(code: Seq<OpcodeView>, i: int)
    requires
        0 <= i < code.len(),
    ensures
        depth_from(code, 0, i + 1) == depth_after(code[i], depth_from(code, 0, i)),
{
}

/// How deep a scope is enclosed depends only on the enclosing scopes as
/// they link to each other: a table that holds the same links, and may
/// hold more scopes, encloses it as deep.
proof fn lemma_enclosed_in_later_table(
    scopes: Seq<ScopeView>,
    later: Seq<ScopeView>,
    scope: nat,
    d: int,
)
    requires
        enclosed(scopes, scope, d),
        scopes.len() <= later.len(),
        forall|k: int| 0 <= k < scopes.len() ==> (#[trigger] later[k]).parent == scopes[k].parent,
    ensures
        enclosed(later, scope, d),
    decreases d,
{
    if d > 0 {
        assert(later[scope as int].parent == scopes[scope as int].parent);
        lemma_enclosed_in_later_table(
            scopes,
            later,
            scopes[scope as int].parent.unwrap(),
            d - 1,
        );
    }
}

/// The bindings of a call hold values of the arguments only.
proof fn lemma_bind_params_nested(params: Seq<Seq<char>>, args: Seq<ValueView>)
    requires
        forall|i: int| 0 <= i < args.len() ==> value_nested(#[trigger] args[i]),
    ensures
        scope_nested(ScopeView { vars: bind_params(params, args), parent: None }),
    decreases params.len(),
{
    if params.len() > 0 && args.len() > 0 {
        assert forall|i: int| 0 <= i < args.drop_first().len() implies value_nested(
            #[trigger] args.drop_first()[i],
        ) by {
            assert(args.drop_first()[i] == args[i + 1]);
        }
        lemma_bind_params_nested(params.drop_first(), args.drop_first());
        let rest = ScopeView {
            vars: bind_params(params.drop_first(), args.drop_first()),
            parent: None,
        };
        let all = ScopeView { vars: bind_params(params, args), parent: None };
        assert forall|name: Seq<char>| all.vars.contains_key(name) implies match #[trigger] all.vars[name] {
            Some(v) => value_nested(v),
            None => true,
        } by {
            if name != params[0] {
                assert(rest.vars.contains_key(name));
                assert(all.vars[name] == rest.vars[name]);
            }
        }
    }
}

/// Binding a name to a nested value keeps the scopes nested.
proof fn lemma_bind_nested(scopes: Seq<ScopeView>, k: nat, name: Seq<char>, slot: Option<ValueView>)
    requires
        forall|j: int| 0 <= j < scopes.len() ==> scope_nested(#[trigger] scopes[j]),
        k < scopes.len(),
        match slot {
            Some(v) => value_nested(v),
            None => true,
        },
    ensures
        forall|j: int|
            0 <= j < bind(scopes, k, name, slot).len() ==> scope_nested(
                #[trigger] bind(scopes, k, name, slot)[j],
            ),
{
    let after = bind(scopes, k, name, slot);
    assert forall|j: int| 0 <= j < after.len() implies scope_nested(#[trigger] after[j]) by {
        if j == k {
            assert forall|other: Seq<char>| after[j].vars.contains_key(other) implies match #[trigger] after[j].vars[other] {
                Some(v) => value_nested(v),
                None => true,
            } by {
                if other != name {
                    assert(scopes[j].vars.contains_key(other));
                    assert(after[j].vars[other] == scopes[j].vars[other]);
                }
            }
        } else {
            assert(after[j] == scopes[j]);
        }
    }
}

/// A nested machine stays nested where a step keeps the code and the
/// frames, keeps the links between the scopes, and goes on in a scope that
/// is enclosed as deep as the new position asks.
proof fn lemma_moved(s: VMView, t: VMView)
    requires
        state_nested(s),
        t.code == s.code,
        t.frames == s.frames,
        t.ip <= t.code.len(),
        s.scopes.len() <= t.scopes.len(),
        forall|k: int|
            0 <= k < s.scopes.len() ==> (#[trigger] t.scopes[k]).parent == s.scopes[k].parent,
        enclosed(t.scopes, t.scope, depth_from(t.code, 0, t.ip as int)),
        forall|i: int| 0 <= i < t.stack.len() ==> value_nested(#[trigger] t.stack[i]),
        forall|k: int| 0 <= k < t.scopes.len() ==> scope_nested(#[trigger] t.scopes[k]),
    ensures
        state_nested(t),
{
    assert forall|i: int| 0 <= i < t.frames.len() implies frame_nested(
        t.scopes,
        #[trigger] t.frames[i],
    ) by {
        let f = s.frames[i];
        lemma_enclosed_in_later_table(s.scopes, t.scopes, f.scope, depth_from(f.code, 0, f.ip as int + 1));
    }
}

/// Where a step changes the stack only at its top, and puts nothing there
/// that is not nested, the values on the stack stay nested.
proof fn lemma_stack_step(s: VMView, t: VMView)
    requires
        state_nested(s),
        forall|i: int|
            0 <= i < t.stack.len() ==> (i < s.stack.len() && #[trigger] t.stack[i] == s.stack[i])
                || value_nested(t.stack[i]),
    ensures
        forall|i: int| 0 <= i < t.stack.len() ==> value_nested(#[trigger] t.stack[i]),
{
}

/// A return keeps the machine nested.
proof fn lemma_return_nested(s: VMView)
    requires
        state_nested(s),
        return_spec(s) is Ok,
    ensures
        state_nested(return_spec(s).unwrap()),
{
    let t = return_spec(s).unwrap();
    let d = s.frames.len() as int;
    let f = s.frames[d - 1];
    assert(frame_nested(s.scopes, f));
    assert forall|i: int| 0 <= i < t.frames.len() implies frame_nested(
        t.scopes,
        #[trigger] t.frames[i],
    ) by {
        assert(t.frames[i] == s.frames[i]);
    }
    assert forall|i: int| 0 <= i < t.stack.len() implies value_nested(#[trigger] t.stack[i]) by {
        if i < s.stack.len() {
            assert(t.stack[i] == s.stack[i]);
        }
    }
}

/// A call keeps the machine nested.
proof fn lemma_call_nested(s: VMView, argc: nat)
    requires
        state_nested(s),
        s.ip < s.code.len(),
        s.code[s.ip as int] == OpcodeView::Call(argc),
        call_spec(s, argc) is Ok,
    ensures
        state_nested(call_spec(s, argc).unwrap()),
{
    let t = call_spec(s, argc).unwrap();
    let f = s.stack.last()->Function_0;
    let floor = (s.stack.len() - 1 - argc) as nat;
    let args = s.stack.subrange(floor as int, s.stack.len() - 1);
    assert(value_nested(s.stack[s.stack.len() - 1]));
    assert forall|i: int| 0 <= i < args.len() implies value_nested(#[trigger] args[i]) by {
        assert(args[i] == s.stack[floor + i]);
    }
    lemma_bind_params_nested(f.params, args);
    let bare = ScopeView { vars: bind_params(f.params, args), parent: None };
    let callee = ScopeView { vars: bind_params(f.params, args), parent: Some(f.scope) };
    assert(scope_nested(callee)) by {
        assert(scope_nested(bare));
    }
    assert forall|k: int| 0 <= k < t.scopes.len() implies scope_nested(#[trigger] t.scopes[k]) by {
        if k < s.scopes.len() {
            assert(t.scopes[k] == s.scopes[k]);
        }
    }
    assert forall|i: int| 0 <= i < t.stack.len() implies value_nested(#[trigger] t.stack[i]) by {
        assert(t.stack[i] == s.stack[i]);
    }
    lemma_depth_step(s.code, s.ip as int);
    assert forall|i: int| 0 <= i < t.frames.len() implies frame_nested(
        t.scopes,
        #[trigger] t.frames[i],
    ) by {
        if i < s.frames.len() {
            let g = s.frames[i];
            assert(t.frames[i] == g);
            assert(frame_nested(s.scopes, g));
            lemma_enclosed_in_later_table(
                s.scopes,
                t.scopes,
                g.scope,
                depth_from(g.code, 0, g.ip as int + 1),
            );
        } else {
            lemma_enclosed_in_later_table(
                s.scopes,
                t.scopes,
                s.scope,
                depth_from(s.code, 0, s.ip as int),
            );
        }
    }
}

/// Every step keeps the machine nested.
pub proof fn law_step_keeps_the_machine_nested(s: VMView)
    requires
        s.wf(),
        state_nested(s),
        step_spec(s) is Ok,
    ensures
        state_nested(step_spec(s).unwrap()),
{
    let t = step_spec(s).unwrap();
    if s.ip == s.code.len() {
        if s.frames.len() > 0 {
            lemma_return_nested(s);
        }
    } else {
        let op = s.code[s.ip as int];
        let d = depth_from(s.code, 0, s.ip as int);
        lemma_depth_step(s.code, s.ip as int);
        match op {
            OpcodeView::Call(argc) => {
                lemma_call_nested(s, argc);
            },
            OpcodeView::Return => {
                lemma_return_nested(s);
            },
            OpcodeView::Load(name) => {
                let k = resolve(s.scopes, s.scope, name).unwrap();
                law_resolve_finds_a_declaration(s.scopes, s.scope, name);
                assert(scope_nested(s.scopes[k as int]));
                lemma_stack_step(s, t);
                lemma_moved(s, t);
            },
            OpcodeView::Store(name) => {
                let k = resolve(s.scopes, s.scope, name).unwrap();
                law_resolve_finds_a_declaration(s.scopes, s.scope, name);
                assert(value_nested(s.stack[s.stack.len() - 1]));
                lemma_bind_nested(s.scopes, k, name, Some(s.stack.last()));
                lemma_enclosed_in_later_table(s.scopes, t.scopes, s.scope, d);
                lemma_moved(s, t);
            },
            OpcodeView::Register(name) => {
                lemma_bind_nested(s.scopes, s.scope, name, None);
                lemma_enclosed_in_later_table(s.scopes, t.scopes, s.scope, d);
                lemma_moved(s, t);
            },
            OpcodeView::StoreFunction(name, params, body) => {
                let f = FunctionView { params: params, codes: body, scope: s.scope };
                assert(value_nested(ValueView::Function(f)));
                lemma_bind_nested(s.scopes, s.scope, name, Some(ValueView::Function(f)));
                lemma_enclosed_in_later_table(s.scopes, t.scopes, s.scope, d);
                lemma_moved(s, t);
            },
            OpcodeView::BeginScope => {
                assert forall|k: int| 0 <= k < t.scopes.len() implies scope_nested(
                    #[trigger] t.scopes[k],
                ) by {
                    if k < s.scopes.len() {
                        assert(t.scopes[k] == s.scopes[k]);
                    }
                }
                lemma_enclosed_in_later_table(s.scopes, t.scopes, s.scope, d);
                lemma_moved(s, t);
            },
            OpcodeView::EndScope => {
                lemma_moved(s, t);
            },
            _ => {
                lemma_stack_step(s, t);
                lemma_moved(s, t);
            },
        }
    }
}

/// In a nested machine no step fails by leaving the root scope.
pub proof fn law_nested_machine_passes_its_check(s: VMView)
    requires
        state_nested(s),
    ensures
        step_spec(s) != Err::<VMView, RuntimeError>(RuntimeError::EndRootScope),
{
}

/// A run that starts in a nested machine never fails by leaving the root
/// scope.
pub proof fn law_nested_run_passes_its_check(s: VMView, fuel: nat)
    requires
        s.wf(),
        state_nested(s),
    ensures
        run_spec(s, fuel).1 != Err::<(), RuntimeError>(RuntimeError::EndRootScope),
        state_nested(run_spec(s, fuel).0),
    decreases fuel,
{
    if !s.halted() && fuel > 0 {
        law_nested_machine_passes_its_check(s);
        match step_spec(s) {
            Ok(t) => {
                crate::vm::laws::law_step_preserves_well_formedness(s);
                law_step_keeps_the_machine_nested(s);
                law_nested_run_passes_its_check(t, (fuel - 1) as nat);
            },
            Err(_) => {},
        }
    }
}

/// A machine that is about to run nested code is nested.
pub proof fn law_initial_state_is_nested(code: Seq<OpcodeView>)
    requires
        code_nested(code),
    ensures
        initial_state(code).wf(),
        state_nested(initial_state(code)),
{
    let s = initial_state(code);
    let body = print_function().codes;
    reveal_with_fuel(depth_from, 4);
    assert(code_nested(body));
    let root = s.scopes[0];
    assert forall|name: Seq<char>| root.vars.contains_key(name) implies match #[trigger] root.vars[name] {
        Some(v) => value_nested(v),
        None => true,
    } by {}
}

} // verus!
