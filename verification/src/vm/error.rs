//! The ways in which a run ends abruptly.

use vstd::prelude::*;

verus! {

/// A fatal run-time error. The machine stops at the first one.
#[derive(Debug, Clone, Copy, PartialEq, Eq, Structural)]
pub enum RuntimeError {
    /// A name is declared nowhere in the scope chain.
    UndefinedVariable,
    /// A binding was read before a value was stored to it.
    UninitializedVariable,
    /// The callee is not a function.
    NotCallable,
    /// The number of arguments differs from the number of parameters.
    ArityMismatch,
    /// An operator was given operands of types it has no rule for.
    TypeMismatch,
    /// Division by zero.
    DivisionByZero,
    /// A return with no call to return from.
    ReturnOutsideFunction,
    /// On return the operand stack is neither at the frame's floor nor one
    /// above it.
    StackFloorViolation,
    /// An instruction needs more operands than the stack holds.
    StackUnderflow,
    /// The instruction pointer lies beyond the end of the instruction sequence.
    IpOutOfRange,
    /// A scope is left that has no enclosing scope.
    EndRootScope,
    /// A function value names a scope that the machine does not have.
    DanglingScope,
    /// The run was cut off after the machine's limit of steps.
    StepLimitExceeded,
}

/// The message that describes an error.
pub open spec fn error_text(e: RuntimeError) -> Seq<char> {
    match e {
        RuntimeError::UndefinedVariable => "No such variable"@,
        RuntimeError::UninitializedVariable => "Can not use variable that is not given value"@,
        RuntimeError::NotCallable => "Can only call a function variable"@,
        RuntimeError::ArityMismatch => "The number of args is not true"@,
        RuntimeError::TypeMismatch => "The operands have types that the operator does not accept"@,
        RuntimeError::DivisionByZero => "Division by zero"@,
        RuntimeError::ReturnOutsideFunction => "Return should live in a function"@,
        RuntimeError::StackFloorViolation => "The stack does not match the floor of the call"@,
        RuntimeError::StackUnderflow => "Stack empty"@,
        RuntimeError::IpOutOfRange => "ip exceed the code length"@,
        RuntimeError::EndRootScope => "Cannot end the root scope"@,
        RuntimeError::DanglingScope => "The function's scope does not exist"@,
        RuntimeError::StepLimitExceeded => "The step limit was reached"@,
    }
}

impl RuntimeError {
    /// The message that describes this error.
    pub fn message(&self) -> (r: &'static str)
        ensures
            r@ == error_text(*self),
    {
        match self {
            RuntimeError::UndefinedVariable => "No such variable",
            RuntimeError::UninitializedVariable => "Can not use variable that is not given value",
            RuntimeError::NotCallable => "Can only call a function variable",
            RuntimeError::ArityMismatch => "The number of args is not true",
            RuntimeError::TypeMismatch => "The operands have types that the operator does not accept",
            RuntimeError::DivisionByZero => "Division by zero",
            RuntimeError::ReturnOutsideFunction => "Return should live in a function",
            RuntimeError::StackFloorViolation => "The stack does not match the floor of the call",
            RuntimeError::StackUnderflow => "Stack empty",
            RuntimeError::IpOutOfRange => "ip exceed the code length",
            RuntimeError::EndRootScope => "Cannot end the root scope",
            RuntimeError::DanglingScope => "The function's scope does not exist",
            RuntimeError::StepLimitExceeded => "The step limit was reached",
        }
    }
}

} // verus!
