//! The execution engine: a stack machine over an operand stack, a table of
//! scopes and a stack of call frames.

pub mod balance;
pub mod error;
pub mod integrity;
pub mod laws;
pub mod model;
pub mod nesting;
pub mod opcode;
pub mod ops;
pub mod scope;

use vstd::prelude::*;
use crate::vm::error::RuntimeError;
use crate::vm::model::{
    begin_scope_spec, bind, bind_params, binary_op_spec, call_spec, end_scope_spec, execute_spec,
    jump_if_false_spec, jump_spec, load_spec, lookup_spec, pop_spec, print_spec, push_spec,
    realizes, register_spec, resolve, return_spec, run_spec, step_spec, store_function_spec,
    store_spec, unary_op_spec, FrameView, VMView,
};
use crate::vm::opcode::{
    code_view, names_view, FunctionObject, FunctionView, Opcode, OpcodeView, Value,
    ValueView,
};
use crate::vm::scope::{scopes_view, Scope, ScopeView};

verus! {

/// The caller's context, saved while a callee runs.
pub struct CallFrame {
    code: Vec<Opcode>,
    scope: usize,
    top: usize,
    ip: usize,
}

impl View for CallFrame {
    type V = FrameView;

    closed spec fn view(&self) -> FrameView {
        FrameView {
            code: code_view(self.code@),
            scope: self.scope as nat,
            top: self.top as nat,
            ip: self.ip as nat,
        }
    }
}

impl CallFrame {
    /// A frame that resumes `code` after position `ip`, in scope `scope`,
    /// with the stack floor `top`.
    pub fn new(code: Vec<Opcode>, scope: usize, top: usize, ip: usize) -> (r: Self)
        ensures
            r@ == (FrameView {
                code: code_view(code@),
                scope: scope as nat,
                top: top as nat,
                ip: ip as nat,
            }),
    {
        Self { code, scope, top, ip }
    }
}

/// The model of an operand stack, value by value.
pub open spec fn values_view(values: Seq<Value>) -> Seq<ValueView> {
    Seq::new(values.len(), |i: int| values[i]@)
}

/// The model of a frame stack, frame by frame.
pub open spec fn frames_view(frames: Seq<CallFrame>) -> Seq<FrameView> {
    Seq::new(frames.len(), |i: int| frames[i]@)
}

/// The built-in function that prints its one argument.
pub open spec fn print_function() -> FunctionView {
    FunctionView {
        params: seq!["value"@],
        codes: seq![OpcodeView::Load("value"@), OpcodeView::Print, OpcodeView::Return],
        scope: 0,
    }
}

/// The machine before its first step: at the start of `code`, with an empty
/// stack, in the root scope, which holds the built-in `print`.
pub open spec fn initial_state(code: Seq<OpcodeView>) -> VMView {
    VMView {
        code: code,
        ip: 0,
        stack: Seq::empty(),
        scope: 0,
        scopes: seq![
            ScopeView {
                vars: Map::<Seq<char>, Option<ValueView>>::empty().insert(
                    "print"@,
                    Some(ValueView::Function(print_function())),
                ),
                parent: None,
            },
        ],
        frames: Seq::empty(),
        output: Seq::empty(),
    }
}

/// Takes the arguments of a call off the stack and binds them to the
/// parameters, in a new scope enclosed by scope `parent`.
fn bind_arguments(stack: &mut Vec<Value>, params: &Vec<String>, parent: usize) -> (r: Scope)
    requires
        params@.len() <= old(stack)@.len(),
    ensures
        r.wf(),
        final(stack)@ == old(stack)@.subrange(0, old(stack)@.len() - params@.len()),
        r@.parent == Some(parent as nat),
        r@.vars == bind_params(
            names_view(params@),
            values_view(old(stack)@).subrange(
                old(stack)@.len() - params@.len(),
                old(stack)@.len() as int,
            ),
        ),
{
    let mut scope = Scope::new_child(parent);
    let argc = params.len();
    let ghost floor = old(stack)@.len() - argc;
    let ghost names = names_view(params@);
    let ghost args = values_view(old(stack)@).subrange(floor, old(stack)@.len() as int);
    let mut i: usize = argc;
    while i > 0
        invariant
            i <= argc,
            argc == params@.len(),
            floor + argc == old(stack)@.len(),
            floor >= 0,
            names == names_view(params@),
            args == values_view(old(stack)@).subrange(floor, old(stack)@.len() as int),
            scope.wf(),
            scope@.parent == Some(parent as nat),
            stack@ == old(stack)@.subrange(0, floor + i),
            scope@.vars == bind_params(names.subrange(i as int, argc as int), args.subrange(i as int, argc as int)),
        decreases i,
    {
        i = i - 1;
        let arg = stack.pop().unwrap();
        proof {
            assert(arg@ == args[i as int]);
            assert(names.subrange(i as int, argc as int).drop_first() =~= names.subrange(
                i + 1,
                argc as int,
            ));
            assert(args.subrange(i as int, argc as int).drop_first() =~= args.subrange(
                i + 1,
                argc as int,
            ));
            assert(stack@ =~= old(stack)@.subrange(0, floor + i));
        }
        scope.set(params[i].clone(), Some(arg));
    }
    proof {
        assert(names.subrange(0, argc as int) =~= names);
        assert(args.subrange(0, argc as int) =~= args);
    }
    scope
}

/// The greatest number of steps that one call of [`VM::run`] makes.
pub const STEP_LIMIT: u64 = 0xffff_ffff_ffff_ffff;

/// The stack machine.
pub struct VM {
    code: Vec<Opcode>,
    stack: Vec<Value>,
    scope: usize,
    scopes: Vec<Scope>,
    frames: Vec<CallFrame>,
    ip: usize,
    output: Vec<String>,
}

impl View for VM {
    type V = VMView;

    closed spec fn view(&self) -> VMView {
        VMView {
            code: code_view(self.code@),
            ip: self.ip as nat,
            stack: values_view(self.stack@),
            scope: self.scope as nat,
            scopes: scopes_view(self.scopes@),
            frames: frames_view(self.frames@),
            output: names_view(self.output@),
        }
    }
}

impl VM {
    /// The machine's state is well formed, and so is each of its scopes.
    pub closed spec fn wf(&self) -> bool {
        &&& self@.wf()
        &&& forall|i: int| 0 <= i < self.scopes@.len() ==> (#[trigger] self.scopes@[i]).wf()
    }

    /// A machine that is about to run `code`.
    pub fn new(code: Vec<Opcode>) -> (r: Self)
        ensures
            r.wf(),
            r@ == initial_state(code_view(code@)),
    {
        let mut params: Vec<String> = Vec::new();
        params.push("value".to_owned());
        let mut body: Vec<Opcode> = Vec::new();
        body.push(Opcode::Load("value".to_owned()));
        body.push(Opcode::Print);
        body.push(Opcode::Return);
        let print_func = FunctionObject::new(params, body, 0);
        proof {
            assert(print_func@.params =~= print_function().params);
            assert(print_func@.codes =~= print_function().codes);
        }
        let mut root = Scope::new();
        root.set("print".to_owned(), Some(Value::Function(print_func)));
        let mut scopes: Vec<Scope> = Vec::new();
        scopes.push(root);
        let r = VM {
            code,
            stack: Vec::new(),
            scope: 0,
            scopes,
            frames: Vec::new(),
            ip: 0,
            output: Vec::new(),
        };
        proof {
            let s = initial_state(code_view(code@));
            assert(r@.stack =~= s.stack);
            assert(r@.scopes =~= s.scopes);
            assert(r@.frames =~= s.frames);
            assert(r@.output =~= s.output);
        }
        r
    }

    /// The operand stack, top last.
    pub fn stack(&self) -> (r: &Vec<Value>)
        ensures
            values_view(r@) == self@.stack,
    {
        &self.stack
    }

    /// The lines printed so far.
    pub fn output(&self) -> (r: &Vec<String>)
        ensures
            names_view(r@) == self@.output,
    {
        &self.output
    }

    /// Whether the run is over.
    pub fn is_halted(&self) -> (r: bool)
        ensures
            r == self@.halted(),
    {
        self.ip == self.code.len() && self.frames.len() == 0
    }

    /// The nearest scope of the current chain that declares `name`.
    fn find_scope(&self, name: &String) -> (r: Option<usize>)
        requires
            self.wf(),
        ensures
            match r {
                Some(k) => resolve(self@.scopes, self@.scope, name@) == Some(k as nat) && k
                    < self.scopes@.len() && self@.scopes[k as int].vars.contains_key(name@),
                None => resolve(self@.scopes, self@.scope, name@) == None::<nat>,
            },
    {
        let mut k: usize = self.scope;
        loop
            invariant
                self.wf(),
                k < self.scopes@.len(),
                resolve(self@.scopes, k as nat, name@) == resolve(
                    self@.scopes,
                    self@.scope,
                    name@,
                ),
            decreases k,
        {
            if self.scopes[k].contains(name) {
                return Some(k);
            }
            match self.scopes[k].parent() {
                None => {
                    return None;
                },
                Some(p) => {
                    assert(self@.scopes[k as int].parent == Some(p as nat));
                    k = p;
                },
            }
        }
    }


    /// Moves the instruction pointer to the next instruction.
    fn advance(&mut self)
        requires
            old(self)@.ip < old(self)@.code.len(),
        ensures
            *final(self) == (VM { ip: (old(self).ip + 1) as usize, ..*old(self) }),
            final(self).ip == old(self).ip + 1,
    {
        assert(self.code.len() == self.code@.len());
        self.ip = self.ip + 1;
    }

    /// Executes `Push`.
    fn exec_push(&mut self, v: Value) -> (r: Result<(), RuntimeError>)
        requires
            old(self).wf(),
            old(self)@.ip < old(self)@.code.len(),
        ensures
            final(self).wf(),
            realizes(old(self)@, final(self)@, r, push_spec(old(self)@, v@)),
    {
        self.stack.push(v);
        self.advance();
        proof {
            assert(self@.stack =~= old(self)@.stack.push(v@));
        }
        Ok(())
    }

    /// Executes `Pop`.
    fn exec_pop(&mut self) -> (r: Result<(), RuntimeError>)
        requires
            old(self).wf(),
            old(self)@.ip < old(self)@.code.len(),
        ensures
            final(self).wf(),
            realizes(old(self)@, final(self)@, r, pop_spec(old(self)@)),
    {
        let _ = self.stack.pop();
        self.advance();
        proof {
            if old(self)@.stack.len() > 0 {
                assert(self@.stack =~= old(self)@.stack.drop_last());
            } else {
                assert(self@.stack =~= old(self)@.stack);
            }
        }
        Ok(())
    }

    /// Executes `Load`.
    fn exec_load(&mut self, name: &String) -> (r: Result<(), RuntimeError>)
        requires
            old(self).wf(),
            old(self)@.ip < old(self)@.code.len(),
        ensures
            final(self).wf(),
            realizes(old(self)@, final(self)@, r, load_spec(old(self)@, name@)),
    {
        match self.lookup(name) {
            Err(e) => Err(e),
            Ok(v) => {
                self.stack.push(v);
                self.advance();
                proof {
                    assert(self@.stack =~= old(self)@.stack.push(v@));
                }
                Ok(())
            },
        }
    }

    /// Binds `name` to `slot` in scope `k`.
    fn bind_in(&mut self, k: usize, name: String, slot: Option<Value>)
        requires
            old(self).wf(),
            k < old(self)@.scopes.len(),
        ensures
            final(self).wf(),
            final(self)@ == (VMView {
                scopes: bind(old(self)@.scopes, k as nat, name@, crate::vm::scope::slot_view(slot)),
                ..old(self)@
            }),
    {
        self.scopes[k].set(name, slot);
        proof {
            assert(self@.scopes =~= bind(
                old(self)@.scopes,
                k as nat,
                name@,
                crate::vm::scope::slot_view(slot),
            ));
        }
    }

    /// Executes `Store`.
    fn exec_store(&mut self, name: String) -> (r: Result<(), RuntimeError>)
        requires
            old(self).wf(),
            old(self)@.ip < old(self)@.code.len(),
        ensures
            final(self).wf(),
            realizes(old(self)@, final(self)@, r, store_spec(old(self)@, name@)),
    {
        match self.find_scope(&name) {
            None => Err(RuntimeError::UndefinedVariable),
            Some(k) => {
                let n = self.stack.len();
                if n == 0 {
                    return Err(RuntimeError::StackUnderflow);
                }
                let v = self.stack[n - 1].clone();
                self.bind_in(k, name, Some(v));
                self.advance();
                Ok(())
            },
        }
    }

    /// Executes `Register`.
    fn exec_register(&mut self, name: String) -> (r: Result<(), RuntimeError>)
        requires
            old(self).wf(),
            old(self)@.ip < old(self)@.code.len(),
        ensures
            final(self).wf(),
            realizes(old(self)@, final(self)@, r, register_spec(old(self)@, name@)),
    {
        let k = self.scope;
        self.bind_in(k, name, None);
        self.advance();
        Ok(())
    }

    /// Executes `StoreFunction`.
    fn exec_store_function(&mut self, name: String, params: Vec<String>, body: Vec<Opcode>) -> (r:
        Result<(), RuntimeError>)
        requires
            old(self).wf(),
            old(self)@.ip < old(self)@.code.len(),
        ensures
            final(self).wf(),
            realizes(
                old(self)@,
                final(self)@,
                r,
                store_function_spec(old(self)@, name@, names_view(params@), code_view(body@)),
            ),
    {
        let k = self.scope;
        let func = FunctionObject::new(params, body, k);
        self.bind_in(k, name, Some(Value::Function(func)));
        self.advance();
        Ok(())
    }

    /// Executes `BeginScope`.
    fn exec_begin_scope(&mut self) -> (r: Result<(), RuntimeError>)
        requires
            old(self).wf(),
            old(self)@.ip < old(self)@.code.len(),
        ensures
            final(self).wf(),
            realizes(old(self)@, final(self)@, r, begin_scope_spec(old(self)@)),
    {
        let child = Scope::new_child(self.scope);
        self.scope = self.scopes.len();
        self.scopes.push(child);
        self.advance();
        proof {
            assert(self@.scopes =~= old(self)@.scopes.push(
                ScopeView { vars: Map::empty(), parent: Some(old(self)@.scope) },
            ));
        }
        Ok(())
    }

    /// Executes `EndScope`.
    fn exec_end_scope(&mut self) -> (r: Result<(), RuntimeError>)
        requires
            old(self).wf(),
            old(self)@.ip < old(self)@.code.len(),
        ensures
            final(self).wf(),
            realizes(old(self)@, final(self)@, r, end_scope_spec(old(self)@)),
    {
        match self.scopes[self.scope].parent() {
            None => Err(RuntimeError::EndRootScope),
            Some(p) => {
                assert(self@.scopes[self.scope as int].parent == Some(p as nat));
                self.scope = p;
                self.advance();
                Ok(())
            },
        }
    }

    /// Executes `Jump`.
    fn exec_jump(&mut self, target: usize) -> (r: Result<(), RuntimeError>)
        requires
            old(self).wf(),
        ensures
            final(self).wf(),
            realizes(old(self)@, final(self)@, r, jump_spec(old(self)@, target as nat)),
    {
        self.ip = target;
        Ok(())
    }

    /// Executes `JumpIfFalse`.
    fn exec_jump_if_false(&mut self, target: usize) -> (r: Result<(), RuntimeError>)
        requires
            old(self).wf(),
            old(self)@.ip < old(self)@.code.len(),
        ensures
            final(self).wf(),
            realizes(old(self)@, final(self)@, r, jump_if_false_spec(old(self)@, target as nat)),
    {
        let n = self.stack.len();
        if n == 0 {
            return Err(RuntimeError::StackUnderflow);
        }
        match self.stack[n - 1].truth() {
            Err(e) => Err(e),
            Ok(t) => {
                let _ = self.stack.pop();
                if t {
                    self.advance();
                } else {
                    self.ip = target;
                }
                proof {
                    assert(self@.stack =~= old(self)@.stack.drop_last());
                }
                Ok(())
            },
        }
    }

    /// Executes a binary operator.
    fn exec_binary(&mut self, op: &Opcode) -> (r: Result<(), RuntimeError>)
        requires
            old(self).wf(),
            old(self)@.ip < old(self)@.code.len(),
        ensures
            final(self).wf(),
            realizes(old(self)@, final(self)@, r, binary_op_spec(old(self)@, op@)),
    {
        let n = self.stack.len();
        if n < 2 {
            return Err(RuntimeError::StackUnderflow);
        }
        match self.stack[n - 2].binary(op, &self.stack[n - 1]) {
            Err(e) => Err(e),
            Ok(v) => {
                let _ = self.stack.pop();
                let _ = self.stack.pop();
                self.stack.push(v);
                self.advance();
                proof {
                    assert(self@.stack =~= old(self)@.stack.subrange(0, n - 2).push(v@));
                }
                Ok(())
            },
        }
    }

    /// Executes `Negate` or `Not`.
    fn exec_unary(&mut self, op: &Opcode) -> (r: Result<(), RuntimeError>)
        requires
            old(self).wf(),
            old(self)@.ip < old(self)@.code.len(),
            op@ is Negate || op@ is Not,
        ensures
            final(self).wf(),
            realizes(old(self)@, final(self)@, r, unary_op_spec(old(self)@, op@)),
    {
        let n = self.stack.len();
        if n == 0 {
            return Err(RuntimeError::StackUnderflow);
        }
        let result = match op {
            Opcode::Negate => self.stack[n - 1].negate(),
            _ => self.stack[n - 1].not(),
        };
        match result {
            Err(e) => Err(e),
            Ok(v) => {
                let _ = self.stack.pop();
                self.stack.push(v);
                self.advance();
                proof {
                    assert(self@.stack =~= old(self)@.stack.drop_last().push(v@));
                }
                Ok(())
            },
        }
    }

    /// Executes `Print`.
    fn exec_print(&mut self) -> (r: Result<(), RuntimeError>)
        requires
            old(self).wf(),
            old(self)@.ip < old(self)@.code.len(),
        ensures
            final(self).wf(),
            realizes(old(self)@, final(self)@, r, print_spec(old(self)@)),
    {
        match self.stack.pop() {
            None => Err(RuntimeError::StackUnderflow),
            Some(v) => {
                let line = v.to_text();
                self.output.push(line);
                self.advance();
                proof {
                    assert(self@.stack =~= old(self)@.stack.drop_last());
                    assert(self@.output =~= old(self)@.output.push(
                        crate::vm::ops::text_of(old(self)@.stack.last()),
                    ));
                }
                Ok(())
            },
        }
    }


    /// Executes `Call`. Every check is made before anything is taken off the
    /// stack.
    fn exec_call(&mut self, argc: usize) -> (r: Result<(), RuntimeError>)
        requires
            old(self).wf(),
            old(self)@.ip < old(self)@.code.len(),
        ensures
            final(self).wf(),
            realizes(old(self)@, final(self)@, r, call_spec(old(self)@, argc as nat)),
    {
        let n = self.stack.len();
        if n == 0 {
            return Err(RuntimeError::StackUnderflow);
        }
        match &self.stack[n - 1] {
            Value::Function(f) => {
                assert(self@.stack.last() == ValueView::Function(f@));
                if argc != f.params.len() {
                    return Err(RuntimeError::ArityMismatch);
                }
                if n - 1 < argc {
                    return Err(RuntimeError::StackUnderflow);
                }
                if f.scope >= self.scopes.len() {
                    return Err(RuntimeError::DanglingScope);
                }
            },
            _ => {
                return Err(RuntimeError::NotCallable);
            },
        }
        let ghost before = self@;
        let ghost args = before.stack.subrange(n - 1 - argc, n - 1);
        match self.stack.pop() {
            Some(Value::Function(func)) => {
                assert(func@ == before.stack.last()->Function_0);
                assert(values_view(self.stack@) =~= before.stack.drop_last());
                let callee_scope = bind_arguments(&mut self.stack, &func.params, func.scope);
                let mut caller_code = func.codes;
                core::mem::swap(&mut self.code, &mut caller_code);
                let frame = CallFrame::new(caller_code, self.scope, self.stack.len(), self.ip);
                self.scope = self.scopes.len();
                self.scopes.push(callee_scope);
                self.frames.push(frame);
                self.ip = 0;
                proof {
                    let expected = call_spec(before, argc as nat).unwrap();
                    assert(before.stack.drop_last().subrange(n - 1 - argc, n - 1) =~= args);
                    assert(self@.stack =~= expected.stack);
                    assert(self@.scopes =~= expected.scopes);
                    assert(self@.frames =~= expected.frames);
                }
                Ok(())
            },
            _ => Err(RuntimeError::NotCallable),
        }
    }

    /// Executes `Return`.
    fn exec_return(&mut self) -> (r: Result<(), RuntimeError>)
        requires
            old(self).wf(),
        ensures
            final(self).wf(),
            realizes(old(self)@, final(self)@, r, return_spec(old(self)@)),
    {
        let depth = self.frames.len();
        if depth == 0 {
            return Err(RuntimeError::ReturnOutsideFunction);
        }
        let top = self.frames[depth - 1].top;
        let n = self.stack.len();
        assert(self@.frames.last() == self.frames@[depth - 1]@);
        if n < top || n - top > 1 {
            return Err(RuntimeError::StackFloorViolation);
        }
        let frame = self.frames.pop().unwrap();
        if n == top {
            self.stack.push(Value::Nil);
        }
        assert(frame.code.len() == frame.code@.len());
        self.scope = frame.scope;
        self.code = frame.code;
        self.ip = frame.ip + 1;
        proof {
            let expected = return_spec(old(self)@).unwrap();
            assert(self@.stack =~= expected.stack);
            assert(self@.frames =~= expected.frames);
        }
        Ok(())
    }

    /// Executes one instruction.
    fn execute(&mut self, code: Opcode) -> (r: Result<(), RuntimeError>)
        requires
            old(self).wf(),
            old(self)@.ip < old(self)@.code.len(),
        ensures
            final(self).wf(),
            realizes(old(self)@, final(self)@, r, execute_spec(old(self)@, code@)),
    {
        match code {
            Opcode::Push(value) => self.exec_push(value),
            Opcode::Pop => self.exec_pop(),
            Opcode::Load(name) => self.exec_load(&name),
            Opcode::Store(name) => self.exec_store(name),
            Opcode::Register(name) => self.exec_register(name),
            Opcode::StoreFunction(name, params, body) => self.exec_store_function(
                name,
                params,
                body,
            ),
            Opcode::Call(argc) => self.exec_call(argc),
            Opcode::Return => self.exec_return(),
            Opcode::Jump(target) => self.exec_jump(target),
            Opcode::JumpIfFalse(target) => self.exec_jump_if_false(target),
            Opcode::Negate => self.exec_unary(&code),
            Opcode::Not => self.exec_unary(&code),
            Opcode::BeginScope => self.exec_begin_scope(),
            Opcode::EndScope => self.exec_end_scope(),
            Opcode::Print => self.exec_print(),
            _ => self.exec_binary(&code),
        }
    }

    /// Makes one step: executes the instruction at the instruction pointer,
    /// or returns from a function whose body has come to its end. A halted
    /// machine stays as it is.
    pub fn step(&mut self) -> (r: Result<(), RuntimeError>)
        requires
            old(self).wf(),
        ensures
            final(self).wf(),
            realizes(old(self)@, final(self)@, r, step_spec(old(self)@)),
    {
        let n = self.code.len();
        if self.ip > n {
            Err(RuntimeError::IpOutOfRange)
        } else if self.ip == n {
            if self.frames.len() == 0 {
                Ok(())
            } else {
                self.exec_return()
            }
        } else {
            let op = self.code[self.ip].clone();
            self.execute(op)
        }
    }

    /// Runs the machine until it halts, fails, or has made `limit` steps; a
    /// run that is cut off ends with [`RuntimeError::StepLimitExceeded`].
    pub fn run_steps(&mut self, limit: u64) -> (r: Result<(), RuntimeError>)
        requires
            old(self).wf(),
        ensures
            final(self).wf(),
            (final(self)@, r) == run_spec(old(self)@, limit as nat),
    {
        let mut fuel: u64 = limit;
        loop
            invariant
                self.wf(),
                run_spec(self@, fuel as nat) == run_spec(old(self)@, limit as nat),
            decreases fuel,
        {
            if self.is_halted() {
                return Ok(());
            }
            if fuel == 0 {
                return Err(RuntimeError::StepLimitExceeded);
            }
            match self.step() {
                Err(e) => {
                    return Err(e);
                },
                Ok(()) => {},
            }
            fuel = fuel - 1;
        }
    }

    /// Runs the machine until it halts or fails. A run of more than
    /// [`STEP_LIMIT`] steps is cut off.
    pub fn run(&mut self) -> (r: Result<(), RuntimeError>)
        requires
            old(self).wf(),
        ensures
            final(self).wf(),
            (final(self)@, r) == run_spec(old(self)@, STEP_LIMIT as nat),
    {
        self.run_steps(STEP_LIMIT)
    }

    /// The value that `name` has in the current scope.
    pub fn lookup(&self, name: &String) -> (r: Result<Value, RuntimeError>)
        requires
            self.wf(),
        ensures
            match lookup_spec(self@.scopes, self@.scope, name@) {
                Ok(v) => r.is_ok() && r.unwrap()@ == v,
                Err(e) => r == Err::<Value, RuntimeError>(e),
            },
    {
        match self.find_scope(name) {
            None => Err(RuntimeError::UndefinedVariable),
            Some(k) => match self.scopes[k].get(name) {
                Some(Some(v)) => {
                    assert(self@.scopes[k as int] == self.scopes@[k as int]@);
                    Ok(v.clone())
                },
                _ => Err(RuntimeError::UninitializedVariable),
            },
        }
    }
}

} // verus!
