//! The operators of the language on runtime values.
//!
//! A boolean counts as the integer 1 or 0 wherever it meets an integer or
//! another boolean. Two strings can be added, which joins them. Every other
//! pairing of an operator with operand types is a type error. Integer
//! arithmetic wraps round in two's complement.

use vstd::prelude::*;
use vstd::string::StringExecFns;
use crate::text::{int_text, int_to_string};
use crate::vm::error::RuntimeError;
use crate::vm::opcode::{Opcode, OpcodeView, Value, ValueView};

verus! {

/// The integer that a value counts as in arithmetic, if it counts as one.
pub open spec fn as_int(v: ValueView) -> Option<i64> {
    match v {
        ValueView::Int(i) => Some(i),
        ValueView::Boolean(b) => Some(if b { 1i64 } else { 0i64 }),
        _ => None,
    }
}

/// The quotient of `a` by `b`, rounded toward zero.
pub open spec fn trunc_div(a: int, b: int) -> int
    recommends
        b != 0,
{
    if a >= 0 && b > 0 {
        a / b
    } else if a >= 0 {
        -(a / (-b))
    } else if b > 0 {
        -((-a) / b)
    } else {
        (-a) / (-b)
    }
}

/// Division on 64-bit integers: rounds toward zero; the one quotient that
/// does not fit wraps round to the smallest integer.
pub open spec fn int_div(a: i64, b: i64) -> i64
    recommends
        b != 0,
{
    if a == i64::MIN && b == -1 {
        i64::MIN
    } else {
        trunc_div(a as int, b as int) as i64
    }
}

/// What a binary operator makes of two integers. An instruction that is no
/// binary operator has no rule for them.
pub open spec fn int_binary(op: OpcodeView, a: i64, b: i64) -> Result<ValueView, RuntimeError> {
    match op {
        OpcodeView::Add => Ok(ValueView::Int(a.wrapping_add(b))),
        OpcodeView::Subtract => Ok(ValueView::Int(a.wrapping_sub(b))),
        OpcodeView::Multiply => Ok(ValueView::Int(a.wrapping_mul(b))),
        OpcodeView::Divide => if b == 0 {
            Err(RuntimeError::DivisionByZero)
        } else {
            Ok(ValueView::Int(int_div(a, b)))
        },
        OpcodeView::Less => Ok(ValueView::Boolean(a < b)),
        OpcodeView::Greater => Ok(ValueView::Boolean(a > b)),
        OpcodeView::LessEqual => Ok(ValueView::Boolean(a <= b)),
        OpcodeView::GreaterEqual => Ok(ValueView::Boolean(a >= b)),
        OpcodeView::Equal => Ok(ValueView::Boolean(a == b)),
        OpcodeView::NotEqual => Ok(ValueView::Boolean(a != b)),
        _ => Err(RuntimeError::TypeMismatch),
    }
}

/// What a binary operator makes of its first operand `a` and its second
/// operand `b`.
pub open spec fn binary_spec(op: OpcodeView, a: ValueView, b: ValueView) -> Result<
    ValueView,
    RuntimeError,
> {
    match (as_int(a), as_int(b)) {
        (Some(x), Some(y)) => int_binary(op, x, y),
        _ => match (op, a, b) {
            (OpcodeView::Add, ValueView::String(s), ValueView::String(t)) => Ok(
                ValueView::String(s + t),
            ),
            _ => Err(RuntimeError::TypeMismatch),
        },
    }
}

/// What negation makes of a value.
pub open spec fn negate_spec(v: ValueView) -> Result<ValueView, RuntimeError> {
    match as_int(v) {
        Some(x) => Ok(ValueView::Int(0i64.wrapping_sub(x))),
        None => Err(RuntimeError::TypeMismatch),
    }
}

/// What logical not makes of a value: a boolean is inverted, and an integer
/// gives true exactly when it is zero.
pub open spec fn not_spec(v: ValueView) -> Result<ValueView, RuntimeError> {
    match as_int(v) {
        Some(x) => Ok(ValueView::Boolean(x == 0)),
        None => Err(RuntimeError::TypeMismatch),
    }
}

/// Whether a condition lets a conditional jump fall through: a true boolean
/// or a nonzero integer does, a false boolean or zero does not, and nothing
/// else is a condition.
pub open spec fn truth_spec(v: ValueView) -> Result<bool, RuntimeError> {
    match as_int(v) {
        Some(x) => Ok(x != 0),
        None => Err(RuntimeError::TypeMismatch),
    }
}

/// The text that printing a value writes.
pub open spec fn text_of(v: ValueView) -> Seq<char> {
    match v {
        ValueView::Int(i) => int_text(i as int),
        ValueView::String(s) => s,
        ValueView::Boolean(b) => if b {
            "true"@
        } else {
            "false"@
        },
        ValueView::Function(_) => "FunctionObject"@,
        ValueView::Nil => "None"@,
    }
}

/// Divides `a` by `b`, rounding toward zero and wrapping round.
fn divide(a: i64, b: i64) -> (r: i64)
    requires
        b != 0,
    ensures
        r == int_div(a, b),
{
    if a == i64::MIN && b == -1 {
        i64::MIN
    } else {
        proof {
            if b < 0 {
                let x: int = if a >= 0 { a as int } else { -(a as int) };
                let y: int = -(b as int);
                assert(x / (b as int) == -(x / y)) by (nonlinear_arith)
                    requires
                        y == -(b as int),
                        y > 0,
                        x >= 0,
                ;
            }
        }
        a / b
    }
}

impl Value {
    /// The integer that this value counts as in arithmetic.
    pub fn to_int(&self) -> (r: Option<i64>)
        ensures
            r == as_int(self@),
    {
        match self {
            Value::Int(i) => Some(*i),
            Value::Boolean(b) => Some(if *b { 1 } else { 0 }),
            _ => None,
        }
    }

    /// The text that printing this value writes.
    pub fn to_text(&self) -> (r: String)
        ensures
            r@ == text_of(self@),
    {
        match self {
            Value::Int(i) => int_to_string(*i),
            Value::String(s) => s.clone(),
            Value::Boolean(b) => if *b {
                "true".to_owned()
            } else {
                "false".to_owned()
            },
            Value::Function(_) => "FunctionObject".to_owned(),
            Value::Nil => "None".to_owned(),
        }
    }

    /// Whether this value, as a condition, is true.
    pub fn truth(&self) -> (r: Result<bool, RuntimeError>)
        ensures
            r == truth_spec(self@),
    {
        match self.to_int() {
            Some(x) => Ok(x != 0),
            None => Err(RuntimeError::TypeMismatch),
        }
    }

    /// Arithmetic negation.
    pub fn negate(&self) -> (r: Result<Value, RuntimeError>)
        ensures
            match negate_spec(self@) {
                Ok(v) => r.is_ok() && r.unwrap()@ == v,
                Err(e) => r == Err::<Value, RuntimeError>(e),
            },
    {
        match self.to_int() {
            Some(x) => Ok(Value::Int(0i64.wrapping_sub(x))),
            None => Err(RuntimeError::TypeMismatch),
        }
    }

    /// Logical not.
    pub fn not(&self) -> (r: Result<Value, RuntimeError>)
        ensures
            match not_spec(self@) {
                Ok(v) => r.is_ok() && r.unwrap()@ == v,
                Err(e) => r == Err::<Value, RuntimeError>(e),
            },
    {
        match self.to_int() {
            Some(x) => Ok(Value::Boolean(x == 0)),
            None => Err(RuntimeError::TypeMismatch),
        }
    }

    /// Applies the binary operator `op` to `self` as first operand and
    /// `other` as second.
    pub fn binary(&self, op: &Opcode, other: &Value) -> (r: Result<Value, RuntimeError>)
        ensures
            match binary_spec(op@, self@, other@) {
                Ok(v) => r.is_ok() && r.unwrap()@ == v,
                Err(e) => r == Err::<Value, RuntimeError>(e),
            },
    {
        match (self.to_int(), other.to_int()) {
            (Some(a), Some(b)) => match op {
                Opcode::Add => Ok(Value::Int(a.wrapping_add(b))),
                Opcode::Subtract => Ok(Value::Int(a.wrapping_sub(b))),
                Opcode::Multiply => Ok(Value::Int(a.wrapping_mul(b))),
                Opcode::Divide => {
                    if b == 0 {
                        Err(RuntimeError::DivisionByZero)
                    } else {
                        Ok(Value::Int(divide(a, b)))
                    }
                },
                Opcode::Less => Ok(Value::Boolean(a < b)),
                Opcode::Greater => Ok(Value::Boolean(a > b)),
                Opcode::LessEqual => Ok(Value::Boolean(a <= b)),
                Opcode::GreaterEqual => Ok(Value::Boolean(a >= b)),
                Opcode::Equal => Ok(Value::Boolean(a == b)),
                Opcode::NotEqual => Ok(Value::Boolean(a != b)),
                _ => Err(RuntimeError::TypeMismatch),
            },
            _ => match (op, self, other) {
                (Opcode::Add, Value::String(s), Value::String(t)) => {
                    let joined = s.clone().concat(t.as_str());
                    Ok(Value::String(joined))
                },
                _ => Err(RuntimeError::TypeMismatch),
            },
        }
    }
}

} // verus!
