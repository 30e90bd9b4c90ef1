//! The machine as a mathematical object: its state, and what each
//! instruction makes of a state.
//!
//! Every function here maps a state to the next state, or to the error that
//! stops the run. An instruction that fails leaves no next state: the machine
//! stays as it was before the instruction.

use vstd::prelude::*;
use crate::vm::error::RuntimeError;
use crate::vm::opcode::{FunctionView, OpcodeView, ValueView};
use crate::vm::ops::{binary_spec, negate_spec, not_spec, text_of, truth_spec};
use crate::vm::scope::ScopeView;

verus! {

/// Mathematical model of a call frame: what the caller resumes with.
pub struct FrameView {
    /// The caller's instruction sequence.
    pub code: Seq<OpcodeView>,
    /// The caller's scope.
    pub scope: nat,
    /// The floor: the length that the operand stack has when the callee
    /// starts.
    pub top: nat,
    /// The position of the call in the caller's sequence.
    pub ip: nat,
}

/// Mathematical model of the machine.
pub struct VMView {
    /// The active instruction sequence.
    pub code: Seq<OpcodeView>,
    /// The position of the next instruction in `code`.
    pub ip: nat,
    /// The operand stack, top last.
    pub stack: Seq<ValueView>,
    /// The current scope, as an index into `scopes`.
    pub scope: nat,
    /// Every scope made so far. Scope 0 is the root.
    pub scopes: Seq<ScopeView>,
    /// The call frames, innermost last.
    pub frames: Seq<FrameView>,
    /// The lines printed so far.
    pub output: Seq<Seq<char>>,
}

/// The next state, or the error that stops the run.
pub type Outcome = Result<VMView, RuntimeError>;

impl VMView {
    /// The current scope and the scopes of all frames exist, every scope was
    /// made after the scope that encloses it, and every frame resumes inside
    /// the sequence it holds.
    pub open spec fn wf(self) -> bool {
        &&& self.scope < self.scopes.len()
        &&& forall|i: int|
            0 <= i < self.scopes.len() ==> match (#[trigger] self.scopes[i]).parent {
                Some(p) => p < i,
                None => true,
            }
        &&& forall|i: int|
            0 <= i < self.frames.len() ==> (#[trigger] self.frames[i]).scope < self.scopes.len()
                && self.frames[i].ip < self.frames[i].code.len()
    }

    /// The run is over: the top-level sequence has been executed to its end.
    pub open spec fn halted(self) -> bool {
        self.ip == self.code.len() && self.frames.len() == 0
    }
}

/// The nearest scope that declares `name`, walking from scope `start`
/// outward through the enclosing scopes.
pub open spec fn resolve(scopes: Seq<ScopeView>, start: nat, name: Seq<char>) -> Option<nat>
    decreases start,
{
    if start >= scopes.len() {
        None
    } else if scopes[start as int].vars.contains_key(name) {
        Some(start)
    } else {
        match scopes[start as int].parent {
            Some(p) => if p < start {
                resolve(scopes, p, name)
            } else {
                None
            },
            None => None,
        }
    }
}

/// The value that `name` has in scope `start`: that of its nearest
/// declaration. It is an error if no scope of the chain declares it, or if
/// the declaration has no value yet.
pub open spec fn lookup_spec(scopes: Seq<ScopeView>, start: nat, name: Seq<char>) -> Result<
    ValueView,
    RuntimeError,
> {
    match resolve(scopes, start, name) {
        None => Err(RuntimeError::UndefinedVariable),
        Some(k) => match scopes[k as int].vars[name] {
            None => Err(RuntimeError::UninitializedVariable),
            Some(v) => Ok(v),
        },
    }
}

/// The scope table with `name` bound to `slot` in scope `k`.
pub open spec fn bind(scopes: Seq<ScopeView>, k: nat, name: Seq<char>, slot: Option<ValueView>) -> Seq<
    ScopeView,
> {
    scopes.update(
        k as int,
        ScopeView { vars: scopes[k as int].vars.insert(name, slot), parent: scopes[k as int].parent },
    )
}

/// The bindings of a call: each parameter holds the argument at its
/// position. Where a name occurs twice among the parameters, its first
/// occurrence counts.
pub open spec fn bind_params(params: Seq<Seq<char>>, args: Seq<ValueView>) -> Map<
    Seq<char>,
    Option<ValueView>,
>
    decreases params.len(),
{
    if params.len() == 0 || args.len() == 0 {
        Map::empty()
    } else {
        bind_params(params.drop_first(), args.drop_first()).insert(params[0], Some(args[0]))
    }
}

/// Push: the literal goes on the stack.
pub open spec fn push_spec(s: VMView, v: ValueView) -> Outcome {
    Ok(VMView { stack: s.stack.push(v), ip: s.ip + 1, ..s })
}

/// Pop: the top of the stack is discarded. An empty stack stays empty.
pub open spec fn pop_spec(s: VMView) -> Outcome {
    Ok(
        VMView {
            stack: if s.stack.len() > 0 {
                s.stack.drop_last()
            } else {
                s.stack
            },
            ip: s.ip + 1,
            ..s
        },
    )
}

/// Load: the value of `name` goes on the stack.
pub open spec fn load_spec(s: VMView, name: Seq<char>) -> Outcome {
    match lookup_spec(s.scopes, s.scope, name) {
        Err(e) => Err(e),
        Ok(v) => Ok(VMView { stack: s.stack.push(v), ip: s.ip + 1, ..s }),
    }
}

/// Store: the top of the stack is taken and written to the nearest
/// declaration of `name`, and it is put back as the value of the
/// assignment, for the next instruction to use or to discard.
pub open spec fn store_spec(s: VMView, name: Seq<char>) -> Outcome {
    match resolve(s.scopes, s.scope, name) {
        None => Err(RuntimeError::UndefinedVariable),
        Some(k) => if s.stack.len() == 0 {
            Err(RuntimeError::StackUnderflow)
        } else {
            Ok(VMView { scopes: bind(s.scopes, k, name, Some(s.stack.last())), ip: s.ip + 1, ..s })
        },
    }
}

/// Register: `name` is declared in the current scope, without a value.
pub open spec fn register_spec(s: VMView, name: Seq<char>) -> Outcome {
    Ok(VMView { scopes: bind(s.scopes, s.scope, name, None), ip: s.ip + 1, ..s })
}

/// StoreFunction: `name` is bound in the current scope to a function that
/// captures the current scope.
pub open spec fn store_function_spec(
    s: VMView,
    name: Seq<char>,
    params: Seq<Seq<char>>,
    body: Seq<OpcodeView>,
) -> Outcome {
    let f = FunctionView { params: params, codes: body, scope: s.scope };
    Ok(
        VMView {
            scopes: bind(s.scopes, s.scope, name, Some(ValueView::Function(f))),
            ip: s.ip + 1,
            ..s
        },
    )
}

/// Call: the callee is on top of the stack, its arguments below it in the
/// order of the parameters. The callee's body becomes the active sequence,
/// in a new scope enclosed by the scope that the function captured, and the
/// caller's context is saved in a frame.
pub open spec fn call_spec(s: VMView, argc: nat) -> Outcome {
    if s.stack.len() == 0 {
        Err(RuntimeError::StackUnderflow)
    } else {
        match s.stack.last() {
            ValueView::Function(f) => {
                if argc != f.params.len() {
                    Err(RuntimeError::ArityMismatch)
                } else if s.stack.len() - 1 < argc {
                    Err(RuntimeError::StackUnderflow)
                } else if f.scope >= s.scopes.len() {
                    Err(RuntimeError::DanglingScope)
                } else {
                    let floor = (s.stack.len() - 1 - argc) as nat;
                    let args = s.stack.subrange(floor as int, s.stack.len() - 1);
                    let callee_scope = ScopeView {
                        vars: bind_params(f.params, args),
                        parent: Some(f.scope),
                    };
                    let frame = FrameView { code: s.code, scope: s.scope, top: floor, ip: s.ip };
                    Ok(
                        VMView {
                            code: f.codes,
                            ip: 0,
                            stack: s.stack.subrange(0, floor as int),
                            scope: s.scopes.len(),
                            scopes: s.scopes.push(callee_scope),
                            frames: s.frames.push(frame),
                            output: s.output,
                        },
                    )
                }
            },
            _ => Err(RuntimeError::NotCallable),
        }
    }
}

/// Return: the innermost frame is taken off and the caller resumes after the
/// call. The stack is at the frame's floor or one above it; at the floor the
/// call yields the "no value" sentinel.
pub open spec fn return_spec(s: VMView) -> Outcome {
    if s.frames.len() == 0 {
        Err(RuntimeError::ReturnOutsideFunction)
    } else {
        let frame = s.frames.last();
        if s.stack.len() > frame.top + 1 || s.stack.len() < frame.top {
            Err(RuntimeError::StackFloorViolation)
        } else {
            Ok(
                VMView {
                    code: frame.code,
                    ip: frame.ip + 1,
                    stack: if s.stack.len() == frame.top {
                        s.stack.push(ValueView::Nil)
                    } else {
                        s.stack
                    },
                    scope: frame.scope,
                    scopes: s.scopes,
                    frames: s.frames.drop_last(),
                    output: s.output,
                },
            )
        }
    }
}

/// BeginScope: a new scope, enclosed by the current one, becomes current.
pub open spec fn begin_scope_spec(s: VMView) -> Outcome {
    Ok(
        VMView {
            scope: s.scopes.len(),
            scopes: s.scopes.push(ScopeView { vars: Map::empty(), parent: Some(s.scope) }),
            ip: s.ip + 1,
            ..s
        },
    )
}

/// EndScope: the enclosing scope becomes current again.
pub open spec fn end_scope_spec(s: VMView) -> Outcome {
    if s.scope >= s.scopes.len() {
        Err(RuntimeError::DanglingScope)
    } else {
        match s.scopes[s.scope as int].parent {
            None => Err(RuntimeError::EndRootScope),
            Some(p) => Ok(VMView { scope: p, ip: s.ip + 1, ..s }),
        }
    }
}

/// Jump: execution goes on at `target`.
pub open spec fn jump_spec(s: VMView, target: nat) -> Outcome {
    Ok(VMView { ip: target, ..s })
}

/// JumpIfFalse: the condition is taken off the stack; execution goes on at
/// `target` if it is false, and with the next instruction if it is true.
pub open spec fn jump_if_false_spec(s: VMView, target: nat) -> Outcome {
    if s.stack.len() == 0 {
        Err(RuntimeError::StackUnderflow)
    } else {
        match truth_spec(s.stack.last()) {
            Err(e) => Err(e),
            Ok(t) => Ok(
                VMView {
                    stack: s.stack.drop_last(),
                    ip: if t {
                        s.ip + 1
                    } else {
                        target
                    },
                    ..s
                },
            ),
        }
    }
}

/// A binary operator: the two topmost values are replaced by the result.
/// The first operand is the one pushed first.
pub open spec fn binary_op_spec(s: VMView, op: OpcodeView) -> Outcome {
    if s.stack.len() < 2 {
        Err(RuntimeError::StackUnderflow)
    } else {
        match binary_spec(op, s.stack[s.stack.len() - 2], s.stack[s.stack.len() - 1]) {
            Err(e) => Err(e),
            Ok(v) => Ok(
                VMView {
                    stack: s.stack.subrange(0, s.stack.len() - 2).push(v),
                    ip: s.ip + 1,
                    ..s
                },
            ),
        }
    }
}

/// A unary operator: the top of the stack is replaced by the result.
pub open spec fn unary_op_spec(s: VMView, op: OpcodeView) -> Outcome
    recommends
        op is Negate || op is Not,
{
    if s.stack.len() == 0 {
        Err(RuntimeError::StackUnderflow)
    } else {
        let r = if op is Negate {
            negate_spec(s.stack.last())
        } else {
            not_spec(s.stack.last())
        };
        match r {
            Err(e) => Err(e),
            Ok(v) => Ok(VMView { stack: s.stack.drop_last().push(v), ip: s.ip + 1, ..s }),
        }
    }
}

/// Print: the top of the stack is taken off and its text becomes the next
/// line of output.
pub open spec fn print_spec(s: VMView) -> Outcome {
    if s.stack.len() == 0 {
        Err(RuntimeError::StackUnderflow)
    } else {
        Ok(
            VMView {
                stack: s.stack.drop_last(),
                output: s.output.push(text_of(s.stack.last())),
                ip: s.ip + 1,
                ..s
            },
        )
    }
}

/// What the instruction `op` makes of the state `s`.
pub open spec fn execute_spec(s: VMView, op: OpcodeView) -> Outcome {
    match op {
        OpcodeView::Push(v) => push_spec(s, v),
        OpcodeView::Pop => pop_spec(s),
        OpcodeView::Load(name) => load_spec(s, name),
        OpcodeView::Store(name) => store_spec(s, name),
        OpcodeView::Register(name) => register_spec(s, name),
        OpcodeView::StoreFunction(name, params, body) => store_function_spec(s, name, params, body),
        OpcodeView::Call(argc) => call_spec(s, argc),
        OpcodeView::Return => return_spec(s),
        OpcodeView::Jump(target) => jump_spec(s, target),
        OpcodeView::JumpIfFalse(target) => jump_if_false_spec(s, target),
        OpcodeView::Negate => unary_op_spec(s, op),
        OpcodeView::Not => unary_op_spec(s, op),
        OpcodeView::BeginScope => begin_scope_spec(s),
        OpcodeView::EndScope => end_scope_spec(s),
        OpcodeView::Print => print_spec(s),
        _ => binary_op_spec(s, op),
    }
}

/// One step of the machine. Inside a sequence, the instruction at the
/// instruction pointer is executed. At the end of a function's body the
/// function returns. At the end of the top-level sequence the machine has
/// halted and stays as it is.
pub open spec fn step_spec(s: VMView) -> Outcome {
    if s.ip > s.code.len() {
        Err(RuntimeError::IpOutOfRange)
    } else if s.ip == s.code.len() {
        if s.frames.len() == 0 {
            Ok(s)
        } else {
            return_spec(s)
        }
    } else {
        execute_spec(s, s.code[s.ip as int])
    }
}

/// The machine after running from `s` until it halts, fails, or has made
/// `fuel` steps, with the way the run ended. After an error the state is the
/// one in which the failing instruction was met.
pub open spec fn run_spec(s: VMView, fuel: nat) -> (VMView, Result<(), RuntimeError>)
    decreases fuel,
{
    if s.halted() {
        (s, Ok(()))
    } else if fuel == 0 {
        (s, Err(RuntimeError::StepLimitExceeded))
    } else {
        match step_spec(s) {
            Err(e) => (s, Err(e)),
            Ok(t) => run_spec(t, (fuel - 1) as nat),
        }
    }
}

/// What an exec operation that implements the transition `expected` owes:
/// on success the machine is in the next state, on failure it is unchanged
/// and the error is the one that the transition names.
pub open spec fn realizes(
    before: VMView,
    after: VMView,
    r: Result<(), RuntimeError>,
    expected: Outcome,
) -> bool {
    match expected {
        Ok(s) => r == Ok::<(), RuntimeError>(()) && after == s,
        Err(e) => r == Err::<(), RuntimeError>(e) && after == before,
    }
}

} // verus!
