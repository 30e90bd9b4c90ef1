//! The instruction set and the runtime value model.

use vstd::prelude::*;

verus! {

/// One instruction of the stack machine.
///
/// Jump targets are absolute indices into the instruction sequence that holds
/// the jump. A function declaration carries its body as a sequence of its
/// own, addressed from zero.
#[derive(Debug, PartialEq, Eq)]
pub enum Opcode {
    Push(Value),
    Pop,
    Load(String),
    Store(String),
    Register(String),
    StoreFunction(String, Vec<String>, Vec<Opcode>),
    Call(usize),
    Return,
    Jump(usize),
    JumpIfFalse(usize),
    Add,
    Subtract,
    Multiply,
    Divide,
    Less,
    Greater,
    LessEqual,
    GreaterEqual,
    Equal,
    NotEqual,
    Negate,
    Not,
    BeginScope,
    EndScope,
    Print,
}

/// A runtime value.
#[derive(Debug, PartialEq, Eq)]
pub enum Value {
    Int(i64),
    String(String),
    Boolean(bool),
    Function(FunctionObject),
    Nil,
}

/// A function value: parameter names, body, and the scope in which the
/// function was declared, as an index into the machine's scope table.
#[derive(Debug, PartialEq, Eq)]
pub struct FunctionObject {
    pub params: Vec<String>,
    pub codes: Vec<Opcode>,
    pub scope: usize,
}

/// Mathematical model of an [`Opcode`].
pub enum OpcodeView {
    Push(ValueView),
    Pop,
    Load(Seq<char>),
    Store(Seq<char>),
    Register(Seq<char>),
    StoreFunction(Seq<char>, Seq<Seq<char>>, Seq<OpcodeView>),
    Call(nat),
    Return,
    Jump(nat),
    JumpIfFalse(nat),
    Add,
    Subtract,
    Multiply,
    Divide,
    Less,
    Greater,
    LessEqual,
    GreaterEqual,
    Equal,
    NotEqual,
    Negate,
    Not,
    BeginScope,
    EndScope,
    Print,
}

/// Mathematical model of a [`Value`].
pub enum ValueView {
    Int(i64),
    String(Seq<char>),
    Boolean(bool),
    Function(FunctionView),
    Nil,
}

/// Mathematical model of a [`FunctionObject`].
pub struct FunctionView {
    pub params: Seq<Seq<char>>,
    pub codes: Seq<OpcodeView>,
    pub scope: nat,
}

/// The names held by a vector of strings, in order.
pub open spec fn names_view(names: Seq<String>) -> Seq<Seq<char>> {
    Seq::new(names.len(), |i: int| names[i]@)
}

/// The model of an instruction sequence, instruction by instruction.
pub open spec fn code_view(code: Seq<Opcode>) -> Seq<OpcodeView>
    decreases code,
{
    Seq::new(
        code.len(),
        |i: int|
            if 0 <= i < code.len() {
                opcode_view(code[i])
            } else {
                arbitrary()
            },
    )
}

/// The model of an instruction.
pub open spec fn opcode_view(op: Opcode) -> OpcodeView
    decreases op,
{
    match op {
        Opcode::Push(v) => OpcodeView::Push(value_view(v)),
        Opcode::Pop => OpcodeView::Pop,
        Opcode::Load(n) => OpcodeView::Load(n@),
        Opcode::Store(n) => OpcodeView::Store(n@),
        Opcode::Register(n) => OpcodeView::Register(n@),
        Opcode::StoreFunction(n, params, body) => OpcodeView::StoreFunction(
            n@,
            names_view(params@),
            code_view(body@),
        ),
        Opcode::Call(n) => OpcodeView::Call(n as nat),
        Opcode::Return => OpcodeView::Return,
        Opcode::Jump(t) => OpcodeView::Jump(t as nat),
        Opcode::JumpIfFalse(t) => OpcodeView::JumpIfFalse(t as nat),
        Opcode::Add => OpcodeView::Add,
        Opcode::Subtract => OpcodeView::Subtract,
        Opcode::Multiply => OpcodeView::Multiply,
        Opcode::Divide => OpcodeView::Divide,
        Opcode::Less => OpcodeView::Less,
        Opcode::Greater => OpcodeView::Greater,
        Opcode::LessEqual => OpcodeView::LessEqual,
        Opcode::GreaterEqual => OpcodeView::GreaterEqual,
        Opcode::Equal => OpcodeView::Equal,
        Opcode::NotEqual => OpcodeView::NotEqual,
        Opcode::Negate => OpcodeView::Negate,
        Opcode::Not => OpcodeView::Not,
        Opcode::BeginScope => OpcodeView::BeginScope,
        Opcode::EndScope => OpcodeView::EndScope,
        Opcode::Print => OpcodeView::Print,
    }
}

/// The model of a value.
pub open spec fn value_view(v: Value) -> ValueView
    decreases v,
{
    match v {
        Value::Int(i) => ValueView::Int(i),
        Value::String(s) => ValueView::String(s@),
        Value::Boolean(b) => ValueView::Boolean(b),
        Value::Function(f) => ValueView::Function(function_view(f)),
        Value::Nil => ValueView::Nil,
    }
}

/// The model of a function value.
pub open spec fn function_view(f: FunctionObject) -> FunctionView
    decreases f,
{
    FunctionView { params: names_view(f.params@), codes: code_view(f.codes@), scope: f.scope as nat }
}

impl View for Opcode {
    type V = OpcodeView;

    open spec fn view(&self) -> OpcodeView {
        opcode_view(*self)
    }
}

impl View for Value {
    type V = ValueView;

    open spec fn view(&self) -> ValueView {
        value_view(*self)
    }
}

impl View for FunctionObject {
    type V = FunctionView;

    open spec fn view(&self) -> FunctionView {
        function_view(*self)
    }
}

/// Copies a list of names.
pub fn clone_names(names: &Vec<String>) -> (r: Vec<String>)
    ensures
        names_view(r@) == names_view(names@),
{
    let mut out: Vec<String> = Vec::new();
    let mut i: usize = 0;
    while i < names.len()
        invariant
            i <= names.len(),
            out@.len() == i,
            forall|j: int| 0 <= j < i ==> out@[j]@ == names@[j]@,
        decreases names.len() - i,
    {
        out.push(names[i].clone());
        i = i + 1;
    }
    assert(names_view(out@) =~= names_view(names@));
    out
}

/// Copies an instruction sequence, function bodies included.
pub fn clone_code(code: &Vec<Opcode>) -> (r: Vec<Opcode>)
    ensures
        code_view(r@) == code_view(code@),
    decreases code,
{
    let mut out: Vec<Opcode> = Vec::new();
    let mut i: usize = 0;
    while i < code.len()
        invariant
            i <= code.len(),
            out@.len() == i,
            forall|j: int| 0 <= j < i ==> out@[j]@ == code@[j]@,
        decreases code.len() - i,
    {
        out.push(code[i].clone());
        i = i + 1;
    }
    assert(code_view(out@) =~= code_view(code@));
    out
}

impl Clone for Opcode {
    fn clone(&self) -> (r: Opcode)
        ensures
            r@ == self@,
        decreases self,
    {
        match self {
            Opcode::Push(v) => Opcode::Push(v.clone()),
            Opcode::Pop => Opcode::Pop,
            Opcode::Load(n) => Opcode::Load(n.clone()),
            Opcode::Store(n) => Opcode::Store(n.clone()),
            Opcode::Register(n) => Opcode::Register(n.clone()),
            Opcode::StoreFunction(n, params, body) => Opcode::StoreFunction(
                n.clone(),
                clone_names(params),
                clone_code(body),
            ),
            Opcode::Call(n) => Opcode::Call(*n),
            Opcode::Return => Opcode::Return,
            Opcode::Jump(t) => Opcode::Jump(*t),
            Opcode::JumpIfFalse(t) => Opcode::JumpIfFalse(*t),
            Opcode::Add => Opcode::Add,
            Opcode::Subtract => Opcode::Subtract,
            Opcode::Multiply => Opcode::Multiply,
            Opcode::Divide => Opcode::Divide,
            Opcode::Less => Opcode::Less,
            Opcode::Greater => Opcode::Greater,
            Opcode::LessEqual => Opcode::LessEqual,
            Opcode::GreaterEqual => Opcode::GreaterEqual,
            Opcode::Equal => Opcode::Equal,
            Opcode::NotEqual => Opcode::NotEqual,
            Opcode::Negate => Opcode::Negate,
            Opcode::Not => Opcode::Not,
            Opcode::BeginScope => Opcode::BeginScope,
            Opcode::EndScope => Opcode::EndScope,
            Opcode::Print => Opcode::Print,
        }
    }
}

impl Clone for Value {
    fn clone(&self) -> (r: Value)
        ensures
            r@ == self@,
        decreases self,
    {
        match self {
            Value::Int(i) => Value::Int(*i),
            Value::String(s) => Value::String(s.clone()),
            Value::Boolean(b) => Value::Boolean(*b),
            Value::Function(f) => Value::Function(f.clone()),
            Value::Nil => Value::Nil,
        }
    }
}

impl Clone for FunctionObject {
    fn clone(&self) -> (r: FunctionObject)
        ensures
            r@ == self@,
        decreases self,
    {
        FunctionObject {
            params: clone_names(&self.params),
            codes: clone_code(&self.codes),
            scope: self.scope,
        }
    }
}

impl FunctionObject {
    /// A function with the given parameters and body, declared in `scope`.
    pub fn new(params: Vec<String>, codes: Vec<Opcode>, scope: usize) -> (r: Self)
        ensures
            r.params == params,
            r.codes == codes,
            r.scope == scope,
    {
        Self { params, codes, scope }
    }
}

} // verus!
