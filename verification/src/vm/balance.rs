//! The depth of the operand stack: how high the stack stands above the
//! floor of the running call at each position of a piece of code, and what
//! it takes for code never to reach below the floor.
//!
//! Code made by hand can ask for operands that are not there, which is why
//! the machine checks the stack before each instruction and at each return.
//! The laws here show that a machine whose code is balanced stays so, and
//! that in such a machine none of these checks ever fails.

use vstd::prelude::*;
use crate::vm::error::RuntimeError;
use crate::vm::initial_state;
use crate::vm::laws::law_resolve_finds_a_declaration;
use crate::vm::model::{
    bind, bind_params, call_spec, resolve, return_spec, run_spec, step_spec, FrameView, VMView,
};
use crate::vm::opcode::{FunctionView, OpcodeView, ValueView};
use crate::vm::print_function;
use crate::vm::scope::ScopeView;

verus! {

/// The number of operands that an instruction needs on the stack.
pub open spec fn needs(op: OpcodeView) -> int {
    match op {
        OpcodeView::Push(_) => 0,
        OpcodeView::Load(_) => 0,
        OpcodeView::Register(_) => 0,
        OpcodeView::StoreFunction(_, _, _) => 0,
        OpcodeView::Return => 0,
        OpcodeView::Jump(_) => 0,
        OpcodeView::BeginScope => 0,
        OpcodeView::EndScope => 0,
        OpcodeView::Pop => 1,
        OpcodeView::Store(_) => 1,
        OpcodeView::JumpIfFalse(_) => 1,
        OpcodeView::Negate => 1,
        OpcodeView::Not => 1,
        OpcodeView::Print => 1,
        OpcodeView::Call(argc) => argc as int + 1,
        _ => 2,
    }
}

/// The height of the stack behind an instruction that is met at height
/// `a`. A call takes its callee and arguments and leaves the result. Behind
/// a return, where execution never goes on, the height counts as zero.
pub open spec fn after_op(op: OpcodeView, a: int) -> int {
    match op {
        OpcodeView::Push(_) => a + 1,
        OpcodeView::Load(_) => a + 1,
        OpcodeView::Register(_) => a,
        OpcodeView::StoreFunction(_, _, _) => a,
        OpcodeView::Return => 0,
        OpcodeView::Jump(_) => a,
        OpcodeView::BeginScope => a,
        OpcodeView::EndScope => a,
        OpcodeView::Pop => a - 1,
        OpcodeView::Store(_) => a,
        OpcodeView::JumpIfFalse(_) => a - 1,
        OpcodeView::Negate => a,
        OpcodeView::Not => a,
        OpcodeView::Print => a - 1,
        OpcodeView::Call(argc) => a - argc,
        _ => a - 1,
    }
}

/// The height of the stack at position `i` of `code`, where the code is
/// entered at height `entry`.
pub open spec fn height_from(code: Seq<OpcodeView>, entry: int, i: int) -> int
    decreases i,
{
    if i <= 0 || i > code.len() {
        entry
    } else {
        after_op(code[i - 1], height_from(code, entry, i - 1))
    }
}

/// A value is balanced: if it is a function, its body is balanced.
pub open spec fn value_balanced(v: ValueView) -> bool
    decreases v,
{
    match v {
        ValueView::Function(f) => code_balanced(f.codes),
        _ => true,
    }
}

/// An instruction sequence is balanced. Entered at height zero, it meets
/// every instruction at a height that the instruction needs, every jump
/// goes to a position of the sequence, or to its end, where the height is
/// the one the jump leaves, every return is met at height zero or one, and
/// so is the end of the sequence. The values it pushes and the bodies of
/// the functions it declares are balanced too.
pub open spec fn code_balanced(code: Seq<OpcodeView>) -> bool
    decreases code,
{
    &&& 0 <= height_from(code, 0, code.len() as int) <= 1
    &&& forall|i: int|
        0 <= i < code.len() ==> {
            &&& height_from(code, 0, i) >= needs(#[trigger] code[i])
            &&& match code[i] {
                OpcodeView::Jump(t) => t <= code.len() && height_from(code, 0, t as int)
                    == height_from(code, 0, i),
                OpcodeView::JumpIfFalse(t) => t <= code.len() && height_from(code, 0, t as int)
                    == height_from(code, 0, i) - 1,
                OpcodeView::Return => height_from(code, 0, i) <= 1,
                OpcodeView::StoreFunction(_, _, body) => code_balanced(body),
                OpcodeView::Push(v) => value_balanced(v),
                _ => true,
            }
        }
}

/// Every value bound in `scope` is balanced.
pub open spec fn scope_balanced(scope: ScopeView) -> bool {
    forall|name: Seq<char>|
        scope.vars.contains_key(name) ==> match #[trigger] scope.vars[name] {
            Some(v) => value_balanced(v),
            None => true,
        }
}

/// The floor of the call that runs above the first `depth` frames; the
/// top-level code runs on the bottom of the stack.
pub open spec fn floor_at(frames: Seq<FrameView>, depth: int) -> int {
    if depth <= 0 || depth > frames.len() {
        0
    } else {
        frames[depth - 1].top as int
    }
}

/// Frame `i` holds balanced code and stands at a call, and its floor is
/// where the callee and the arguments of that call began.
pub open spec fn frame_balanced(frames: Seq<FrameView>, i: int) -> bool {
    let f = frames[i];
    &&& code_balanced(f.code)
    &&& f.ip < f.code.len()
    &&& f.code[f.ip as int] is Call
    &&& f.top == floor_at(frames, i) + height_from(f.code, 0, f.ip as int) - 1
        - f.code[f.ip as int]->Call_0
}

/// The machine is balanced: its code, its values and its frames are, and
/// the stack stands above the floor of the running call as high as the
/// position in the code asks.
pub open spec fn state_balanced(s: VMView) -> bool {
    &&& s.ip <= s.code.len()
    &&& code_balanced(s.code)
    &&& s.stack.len() == floor_at(s.frames, s.frames.len() as int) + height_from(
        s.code,
        0,
        s.ip as int,
    )
    &&& forall|i: int| 0 <= i < s.stack.len() ==> value_balanced(#[trigger] s.stack[i])
    &&& forall|k: int| 0 <= k < s.scopes.len() ==> scope_balanced(#[trigger] s.scopes[k])
    &&& forall|i: int| 0 <= i < s.frames.len() ==> #[trigger] frame_balanced(s.frames, i)
}

/// The bindings of a call hold values of the arguments only.
proof fn lemma_bind_params_balanced(params: Seq<Seq<char>>, args: Seq<ValueView>)
    requires
        forall|i: int| 0 <= i < args.len() ==> value_balanced(#[trigger] args[i]),
    ensures
        scope_balanced(ScopeView { vars: bind_params(params, args), parent: None }),
    decreases params.len(),
{
    if params.len() > 0 && args.len() > 0 {
        assert forall|i: int| 0 <= i < args.drop_first().len() implies value_balanced(
            #[trigger] args.drop_first()[i],
        ) by {
            assert(args.drop_first()[i] == args[i + 1]);
        }
        lemma_bind_params_balanced(params.drop_first(), args.drop_first());
        let rest = ScopeView {
            vars: bind_params(params.drop_first(), args.drop_first()),
            parent: None,
        };
        let all = ScopeView { vars: bind_params(params, args), parent: None };
        assert forall|name: Seq<char>| all.vars.contains_key(name) implies match #[trigger] all.vars[name] {
            Some(v) => value_balanced(v),
            None => true,
        } by {
            if name != params[0] {
                assert(rest.vars.contains_key(name));
                assert(all.vars[name] == rest.vars[name]);
            }
        }
    }
}

/// Binding a name to a balanced value keeps the scopes balanced.
proof fn lemma_bind_balanced(
    scopes: Seq<ScopeView>,
    k: nat,
    name: Seq<char>,
    slot: Option<ValueView>,
)
    requires
        forall|j: int| 0 <= j < scopes.len() ==> scope_balanced(#[trigger] scopes[j]),
        k < scopes.len(),
        match slot {
            Some(v) => value_balanced(v),
            None => true,
        },
    ensures
        forall|j: int|
            0 <= j < bind(scopes, k, name, slot).len() ==> scope_balanced(
                #[trigger] bind(scopes, k, name, slot)[j],
            ),
{
    let after = bind(scopes, k, name, slot);
    assert forall|j: int| 0 <= j < after.len() implies scope_balanced(#[trigger] after[j]) by {
        if j == k {
            assert forall|other: Seq<char>| after[j].vars.contains_key(other) implies match #[trigger] after[j].vars[other] {
                Some(v) => value_balanced(v),
                None => true,
            } by {
                if other != name {
                    assert(scopes[j].vars.contains_key(other));
                    assert(after[j].vars[other] == scopes[j].vars[other]);
                }
            }
        } else {
            assert(after[j] == scopes[j]);
        }
    }
}

/// A balanced machine stays balanced where an instruction changes only the
/// stack, by as much as the instruction's effect on the height says, and
/// goes on at a position where that height is expected.
proof fn lemma_moved(s: VMView, t: VMView)
    requires
        state_balanced(s),
        t.code == s.code,
        t.frames == s.frames,
        t.ip <= t.code.len(),
        t.stack.len() == floor_at(t.frames, t.frames.len() as int) + height_from(
            t.code,
            0,
            t.ip as int,
        ),
        forall|i: int| 0 <= i < t.stack.len() ==> value_balanced(#[trigger] t.stack[i]),
        forall|k: int| 0 <= k < t.scopes.len() ==> scope_balanced(#[trigger] t.scopes[k]),
    ensures
        state_balanced(t),
{
}

/// The height behind the instruction at `i` is what the instruction makes
/// of the height before it.
pub proof fn lemma_height_step(code: Seq<OpcodeView>, i: int)
    requires
        0 <= i < code.len(),
    ensures
        height_from(code, 0, i + 1) == after_op(code[i], height_from(code, 0, i)),
{
}

/// A return keeps the machine balanced.
proof fn lemma_return_balanced(s: VMView)
    requires
        s.wf(),
        state_balanced(s),
        return_spec(s) is Ok,
        s.ip == s.code.len() || s.code[s.ip as int] is Return,
    ensures
        state_balanced(return_spec(s).unwrap()),
{
    let t = return_spec(s).unwrap();
    let d = s.frames.len() as int;
    let f = s.frames[d - 1];
    assert(frame_balanced(s.frames, d - 1));
    lemma_height_step(f.code, f.ip as int);
    assert forall|i: int| 0 <= i < t.frames.len() implies #[trigger] frame_balanced(t.frames, i) by {
        assert(frame_balanced(s.frames, i));
        assert(t.frames[i] == s.frames[i]);
        assert(floor_at(t.frames, i) == floor_at(s.frames, i));
    }
    assert(floor_at(t.frames, d - 1) == floor_at(s.frames, d - 1));
    assert forall|i: int| 0 <= i < t.stack.len() implies value_balanced(#[trigger] t.stack[i]) by {
        if i < s.stack.len() {
            assert(t.stack[i] == s.stack[i]);
        }
    }
}

/// A call keeps the machine balanced.
proof fn lemma_call_balanced(s: VMView, argc: nat)
    requires
        state_balanced(s),
        s.ip < s.code.len(),
        s.code[s.ip as int] == OpcodeView::Call(argc),
        call_spec(s, argc) is Ok,
    ensures
        state_balanced(call_spec(s, argc).unwrap()),
{
    let t = call_spec(s, argc).unwrap();
    let f = s.stack.last()->Function_0;
    let d = s.frames.len() as int;
    let floor = (s.stack.len() - 1 - argc) as nat;
    let args = s.stack.subrange(floor as int, s.stack.len() - 1);
    assert(value_balanced(s.stack[s.stack.len() - 1]));
    assert forall|i: int| 0 <= i < args.len() implies value_balanced(#[trigger] args[i]) by {
        assert(args[i] == s.stack[floor + i]);
    }
    lemma_bind_params_balanced(f.params, args);
    let bare = ScopeView { vars: bind_params(f.params, args), parent: None };
    let callee = ScopeView { vars: bind_params(f.params, args), parent: Some(f.scope) };
    assert(scope_balanced(callee)) by {
        assert(scope_balanced(bare));
    }
    assert forall|k: int| 0 <= k < t.scopes.len() implies scope_balanced(#[trigger] t.scopes[k]) by {
        if k < s.scopes.len() {
            assert(t.scopes[k] == s.scopes[k]);
        }
    }
    assert forall|i: int| 0 <= i < t.stack.len() implies value_balanced(#[trigger] t.stack[i]) by {
        assert(t.stack[i] == s.stack[i]);
    }
    assert forall|i: int| 0 <= i < t.frames.len() implies #[trigger] frame_balanced(t.frames, i) by {
        if i < d {
            assert(frame_balanced(s.frames, i));
            assert(t.frames[i] == s.frames[i]);
            assert(floor_at(t.frames, i) == floor_at(s.frames, i));
        } else {
            assert(floor_at(t.frames, d) == floor_at(s.frames, d));
        }
    }
    assert(floor_at(t.frames, d + 1) == floor);
}

/// Every step keeps the machine balanced.
pub proof fn law_step_keeps_the_machine_balanced(s: VMView)
    requires
        s.wf(),
        state_balanced(s),
        step_spec(s) is Ok,
    ensures
        state_balanced(step_spec(s).unwrap()),
{
    let t = step_spec(s).unwrap();
    if s.ip == s.code.len() {
        if s.frames.len() > 0 {
            lemma_return_balanced(s);
        }
    } else {
        let op = s.code[s.ip as int];
        let a = height_from(s.code, 0, s.ip as int);
        lemma_height_step(s.code, s.ip as int);
        match op {
            OpcodeView::Call(argc) => {
                lemma_call_balanced(s, argc);
            },
            OpcodeView::Return => {
                lemma_return_balanced(s);
            },
            OpcodeView::Load(name) => {
                let k = resolve(s.scopes, s.scope, name).unwrap();
                law_resolve_finds_a_declaration(s.scopes, s.scope, name);
                assert(scope_balanced(s.scopes[k as int]));
                lemma_stack_step(s, t);
                lemma_moved(s, t);
            },
            OpcodeView::Store(name) => {
                let k = resolve(s.scopes, s.scope, name).unwrap();
                law_resolve_finds_a_declaration(s.scopes, s.scope, name);
                assert(value_balanced(s.stack[s.stack.len() - 1]));
                lemma_bind_balanced(s.scopes, k, name, Some(s.stack.last()));
                lemma_moved(s, t);
            },
            OpcodeView::Register(name) => {
                lemma_bind_balanced(s.scopes, s.scope, name, None);
                lemma_moved(s, t);
            },
            OpcodeView::StoreFunction(name, params, body) => {
                let f = FunctionView { params: params, codes: body, scope: s.scope };
                assert(value_balanced(ValueView::Function(f)));
                lemma_bind_balanced(s.scopes, s.scope, name, Some(ValueView::Function(f)));
                lemma_moved(s, t);
            },
            OpcodeView::BeginScope => {
                assert forall|k: int| 0 <= k < t.scopes.len() implies scope_balanced(
                    #[trigger] t.scopes[k],
                ) by {
                    if k < s.scopes.len() {
                        assert(t.scopes[k] == s.scopes[k]);
                    }
                }
                lemma_moved(s, t);
            },
            _ => {
                lemma_stack_step(s, t);
                lemma_moved(s, t);
            },
        }
    }
}

/// Where a step changes the stack only at its top, and puts no function
/// there that was not in the machine before, the values on the stack stay
/// balanced.
proof fn lemma_stack_step(s: VMView, t: VMView)
    requires
        state_balanced(s),
        forall|i: int|
            0 <= i < t.stack.len() ==> (i < s.stack.len() && #[trigger] t.stack[i] == s.stack[i])
                || value_balanced(t.stack[i]),
    ensures
        forall|i: int| 0 <= i < t.stack.len() ==> value_balanced(#[trigger] t.stack[i]),
{
}

/// In a balanced machine no step fails for want of operands, at no return
/// does the stack miss the floor, and the instruction pointer is never
/// beyond the code.
pub proof fn law_balanced_machine_passes_its_checks(s: VMView)
    requires
        state_balanced(s),
    ensures
        step_spec(s) != Err::<VMView, RuntimeError>(RuntimeError::StackUnderflow),
        step_spec(s) != Err::<VMView, RuntimeError>(RuntimeError::StackFloorViolation),
        step_spec(s) != Err::<VMView, RuntimeError>(RuntimeError::IpOutOfRange),
{
    let d = s.frames.len() as int;
    if d > 0 {
        assert(frame_balanced(s.frames, d - 1));
    }
}

/// A run that starts in a balanced machine never fails for want of
/// operands, nor because the stack misses the floor at a return.
pub proof fn law_balanced_run_passes_its_checks(s: VMView, fuel: nat)
    requires
        s.wf(),
        state_balanced(s),
    ensures
        run_spec(s, fuel).1 != Err::<(), RuntimeError>(RuntimeError::StackUnderflow),
        run_spec(s, fuel).1 != Err::<(), RuntimeError>(RuntimeError::StackFloorViolation),
        state_balanced(run_spec(s, fuel).0),
    decreases fuel,
{
    if !s.halted() && fuel > 0 {
        law_balanced_machine_passes_its_checks(s);
        match step_spec(s) {
            Ok(t) => {
                crate::vm::laws::law_step_preserves_well_formedness(s);
                law_step_keeps_the_machine_balanced(s);
                law_balanced_run_passes_its_checks(t, (fuel - 1) as nat);
            },
            Err(_) => {},
        }
    }
}

/// A machine that is about to run balanced code is balanced.
pub proof fn law_initial_state_is_balanced(code: Seq<OpcodeView>)
    requires
        code_balanced(code),
    ensures
        initial_state(code).wf(),
        state_balanced(initial_state(code)),
{
    let s = initial_state(code);
    let body = print_function().codes;
    reveal_with_fuel(height_from, 4);
    assert(code_balanced(body));
    let root = s.scopes[0];
    assert forall|name: Seq<char>| root.vars.contains_key(name) implies match #[trigger] root.vars[name] {
        Some(v) => value_balanced(v),
        None => true,
    } by {}
}

} // verus!
