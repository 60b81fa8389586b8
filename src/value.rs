//! Runtime values, their text, and the operator semantics.

use vstd::prelude::*;
use crate::ast::{BinaryOperation, HogwartsHouse};

verus! {

/// A value produced by evaluation. A double is held as its IEEE-754 bit
/// pattern; arithmetic on doubles is the host's work.
#[derive(Debug, PartialEq, Clone)]
pub enum RuntimeValue {
    Integer(i64),
    Double(u64),
    Boolean(bool),
    String(String),
    HogwartsHouse(HogwartsHouse),
}

/// The mathematical value of a runtime value.
pub enum ValueV {
    Int(i64),
    Dbl(u64),
    Bool(bool),
    Str(Seq<char>),
    House(HogwartsHouse),
}

impl View for RuntimeValue {
    type V = ValueV;

    open spec fn view(&self) -> ValueV {
        match self {
            RuntimeValue::Integer(n) => ValueV::Int(*n),
            RuntimeValue::Double(d) => ValueV::Dbl(*d),
            RuntimeValue::Boolean(b) => ValueV::Bool(*b),
            RuntimeValue::String(s) => ValueV::Str(s@),
            RuntimeValue::HogwartsHouse(h) => ValueV::House(*h),
        }
    }
}

/// An operation on two doubles that the host is asked to carry out.
#[derive(Debug, Clone, Copy, PartialEq, Eq, Structural)]
pub struct FloatRequest {
    pub op: BinaryOperation,
    pub left: u64,
    pub right: u64,
}

/// The bit pattern of the double 1.0.
pub const DOUBLE_ONE: u64 = 0x3FF0_0000_0000_0000;

/// A fatal evaluation error.
#[derive(Debug, PartialEq, Clone)]
pub enum EvalError {
    /// A variable was read that is not bound.
    UnknownVariable(String),
    /// An assignment to a name frozen as a constant.
    ConstantReassignment(String),
    /// An assignment whose expression yields no value.
    EmptyAssignment(String),
    /// An operator or command applied to values of the wrong kinds.
    TypeMismatch,
    /// Integer division by zero.
    DivisionByZero,
    /// Integer arithmetic outside the range of `i64`.
    Overflow,
}

pub enum ErrorV {
    UnknownVariable(Seq<char>),
    ConstantReassignment(Seq<char>),
    EmptyAssignment(Seq<char>),
    TypeMismatch,
    DivisionByZero,
    Overflow,
}

impl View for EvalError {
    type V = ErrorV;

    open spec fn view(&self) -> ErrorV {
        match self {
            EvalError::UnknownVariable(n) => ErrorV::UnknownVariable(n@),
            EvalError::ConstantReassignment(n) => ErrorV::ConstantReassignment(n@),
            EvalError::EmptyAssignment(n) => ErrorV::EmptyAssignment(n@),
            EvalError::TypeMismatch => ErrorV::TypeMismatch,
            EvalError::DivisionByZero => ErrorV::DivisionByZero,
            EvalError::Overflow => ErrorV::Overflow,
        }
    }
}

/// Why the evaluation of an expression stopped before yielding.
#[derive(Debug, PartialEq, Clone)]
pub enum Halt {
    /// The terminating command ran.
    Exit,
    /// A fatal error.
    Fail(EvalError),
    /// The host must compute a double operation first.
    Compute(FloatRequest),
}

pub enum HaltV {
    Exit,
    Fail(ErrorV),
    Compute(FloatRequest),
}

impl View for Halt {
    type V = HaltV;

    open spec fn view(&self) -> HaltV {
        match self {
            Halt::Exit => HaltV::Exit,
            Halt::Fail(e) => HaltV::Fail(e@),
            Halt::Compute(q) => HaltV::Compute(*q),
        }
    }
}

pub open spec fn in_i64(n: int) -> bool {
    i64::MIN <= n <= i64::MAX
}

/// Integer division that rounds toward zero.
pub open spec fn trunc_div(a: int, b: int) -> int {
    let q = abs(a) / abs(b);
    if (a < 0) != (b < 0) {
        -q
    } else {
        q
    }
}

pub open spec fn abs(a: int) -> int {
    if a < 0 {
        -a
    } else {
        a
    }
}

/// Whether the bit pattern is that of a double zero, positive or negative.
pub open spec fn is_double_zero(bits: u64) -> bool {
    bits == 0 || bits == 0x8000_0000_0000_0000
}

/// The result of a double operation: the host's answer when one is given,
/// else a request for it.
pub open spec fn float_result(op: BinaryOperation, a: u64, b: u64, answer: Option<ValueV>) -> Result<
    ValueV,
    HaltV,
> {
    match answer {
        Some(v) => Ok(v),
        None => Err(HaltV::Compute(FloatRequest { op, left: a, right: b })),
    }
}

pub open spec fn int_result(n: int) -> Result<ValueV, HaltV> {
    if in_i64(n) {
        Ok(ValueV::Int(n as i64))
    } else {
        Err(HaltV::Fail(ErrorV::Overflow))
    }
}

/// A binary operator applied to two values. `+` joins strings; `-`, `*`, `/`
/// take two integers or two doubles (dividing by a zero of either kind is
/// fatal); `==` and `!=` compare any two values,
/// values of different kinds being unequal.
pub open spec fn spec_apply(op: BinaryOperation, l: ValueV, r: ValueV, answer: Option<ValueV>) -> Result<
    ValueV,
    HaltV,
> {
    match (op, l, r) {
        (BinaryOperation::Plus, ValueV::Int(a), ValueV::Int(b)) => int_result(a + b),
        (BinaryOperation::Plus, ValueV::Str(a), ValueV::Str(b)) => Ok(ValueV::Str(a + b)),
        (BinaryOperation::Minus, ValueV::Int(a), ValueV::Int(b)) => int_result(a - b),
        (BinaryOperation::Times, ValueV::Int(a), ValueV::Int(b)) => int_result(a * b),
        (BinaryOperation::Divide, ValueV::Int(a), ValueV::Int(b)) => if b == 0 {
            Err(HaltV::Fail(ErrorV::DivisionByZero))
        } else {
            int_result(trunc_div(a as int, b as int))
        },
        (BinaryOperation::Divide, ValueV::Dbl(_), ValueV::Dbl(b)) if is_double_zero(b) => Err(
            HaltV::Fail(ErrorV::DivisionByZero),
        ),
        (BinaryOperation::Equal, ValueV::Dbl(a), ValueV::Dbl(b)) => float_result(op, a, b, answer),
        (BinaryOperation::NotEqual, ValueV::Dbl(a), ValueV::Dbl(b)) => float_result(op, a, b, answer),
        (BinaryOperation::Equal, _, _) => Ok(ValueV::Bool(l == r)),
        (BinaryOperation::NotEqual, _, _) => Ok(ValueV::Bool(l != r)),
        (_, ValueV::Dbl(a), ValueV::Dbl(b)) => float_result(op, a, b, answer),
        _ => Err(HaltV::Fail(ErrorV::TypeMismatch)),
    }
}

fn float_op(op: BinaryOperation, a: u64, b: u64, answer: &Option<RuntimeValue>) -> (r: Result<
    RuntimeValue,
    Halt,
>)
    ensures
        view_result(r) == float_result(op, a, b, view_option(*answer)),
{
    match answer {
        Some(v) => Ok(v.clone_value()),
        None => Err(Halt::Compute(FloatRequest { op, left: a, right: b })),
    }
}

pub open spec fn view_option(o: Option<RuntimeValue>) -> Option<ValueV> {
    match o {
        Some(v) => Some(v@),
        None => None,
    }
}

pub open spec fn view_result(r: Result<RuntimeValue, Halt>) -> Result<ValueV, HaltV> {
    match r {
        Ok(v) => Ok(v@),
        Err(h) => Err(h@),
    }
}

impl RuntimeValue {
    /// A copy with the same view.
    pub fn clone_value(&self) -> (r: RuntimeValue)
        ensures
            r@ == self@,
    {
        match self {
            RuntimeValue::Integer(n) => RuntimeValue::Integer(*n),
            RuntimeValue::Double(d) => RuntimeValue::Double(*d),
            RuntimeValue::Boolean(b) => RuntimeValue::Boolean(*b),
            RuntimeValue::String(s) => RuntimeValue::String(s.clone()),
            RuntimeValue::HogwartsHouse(h) => RuntimeValue::HogwartsHouse(*h),
        }
    }
}

impl RuntimeValue {
    /// Boolean negation; any other value is a type error.
    pub fn negate(&self) -> (r: Result<RuntimeValue, EvalError>)
        ensures
            self@ matches ValueV::Bool(b) ==> r == Ok::<RuntimeValue, EvalError>(RuntimeValue::Boolean(!b)),
            !(self@ is Bool) ==> r == Err::<RuntimeValue, EvalError>(EvalError::TypeMismatch),
    {
        match self {
            RuntimeValue::Boolean(b) => Ok(RuntimeValue::Boolean(!*b)),
            _ => Err(EvalError::TypeMismatch),
        }
    }
}

/// Structural equality of two values.
pub fn values_equal(l: &RuntimeValue, r: &RuntimeValue) -> (b: bool)
    ensures
        b == (l@ == r@),
{
    match (l, r) {
        (RuntimeValue::Integer(a), RuntimeValue::Integer(b)) => *a == *b,
        (RuntimeValue::Double(a), RuntimeValue::Double(b)) => *a == *b,
        (RuntimeValue::Boolean(a), RuntimeValue::Boolean(b)) => *a == *b,
        (RuntimeValue::String(a), RuntimeValue::String(b)) => *a == *b,
        (RuntimeValue::HogwartsHouse(a), RuntimeValue::HogwartsHouse(b)) => *a == *b,
        _ => false,
    }
}

fn int_value(n: Option<i64>) -> (r: Result<RuntimeValue, Halt>)
    ensures
        n is Some ==> r == Ok::<RuntimeValue, Halt>(RuntimeValue::Integer(n->0)),
        n is None ==> r == Err::<RuntimeValue, Halt>(Halt::Fail(EvalError::Overflow)),
{
    match n {
        Some(v) => Ok(RuntimeValue::Integer(v)),
        None => Err(Halt::Fail(EvalError::Overflow)),
    }
}

/// Integer division rounding toward zero, or `None` where the quotient does
/// not fit.
fn divide(a: i64, b: i64) -> (r: Option<i64>)
    requires
        b != 0,
    ensures
        r is Some <==> in_i64(trunc_div(a as int, b as int)),
        r matches Some(q) ==> q == trunc_div(a as int, b as int),
{
    let ua: u64 = if a < 0 {
        if a == i64::MIN {
            0x8000_0000_0000_0000u64
        } else {
            (-a) as u64
        }
    } else {
        a as u64
    };
    let ub: u64 = if b < 0 {
        if b == i64::MIN {
            0x8000_0000_0000_0000u64
        } else {
            (-b) as u64
        }
    } else {
        b as u64
    };
    assert(ua == abs(a as int));
    assert(ub == abs(b as int));
    let q = ua / ub;
    assert(q <= ua) by (nonlinear_arith)
        requires
            ub >= 1,
            q == ua / ub,
    ;
    if (a < 0) != (b < 0) {
        if q == 0x8000_0000_0000_0000u64 {
            Some(i64::MIN)
        } else {
            Some(-(q as i64))
        }
    } else if q <= 0x7FFF_FFFF_FFFF_FFFFu64 {
        Some(q as i64)
    } else {
        None
    }
}

/// The exec twin of `spec_apply`.
pub fn apply(op: BinaryOperation, l: &RuntimeValue, r: &RuntimeValue, answer: &Option<RuntimeValue>) -> (res:
    Result<RuntimeValue, Halt>)
    ensures
        view_result(res) == spec_apply(op, l@, r@, view_option(*answer)),
{
    match (op, l, r) {
        (BinaryOperation::Plus, RuntimeValue::Integer(a), RuntimeValue::Integer(b)) => int_value(
            a.checked_add(*b),
        ),
        (BinaryOperation::Plus, RuntimeValue::String(a), RuntimeValue::String(b)) => Ok(
            RuntimeValue::String(a.clone().concat(b.as_str())),
        ),
        (BinaryOperation::Minus, RuntimeValue::Integer(a), RuntimeValue::Integer(b)) => int_value(
            a.checked_sub(*b),
        ),
        (BinaryOperation::Times, RuntimeValue::Integer(a), RuntimeValue::Integer(b)) => int_value(
            a.checked_mul(*b),
        ),
        (BinaryOperation::Divide, RuntimeValue::Integer(a), RuntimeValue::Integer(b)) => {
            if *b == 0 {
                Err(Halt::Fail(EvalError::DivisionByZero))
            } else {
                int_value(divide(*a, *b))
            }
        },
        (BinaryOperation::Divide, RuntimeValue::Double(_), RuntimeValue::Double(b)) if *b == 0
            || *b == 0x8000_0000_0000_0000u64 => Err(Halt::Fail(EvalError::DivisionByZero)),
        (BinaryOperation::Equal, RuntimeValue::Double(a), RuntimeValue::Double(b)) => float_op(
            op,
            *a,
            *b,
            answer,
        ),
        (BinaryOperation::NotEqual, RuntimeValue::Double(a), RuntimeValue::Double(b)) => float_op(
            op,
            *a,
            *b,
            answer,
        ),
        (BinaryOperation::Equal, _, _) => Ok(RuntimeValue::Boolean(values_equal(l, r))),
        (BinaryOperation::NotEqual, _, _) => Ok(RuntimeValue::Boolean(!values_equal(l, r))),
        (_, RuntimeValue::Double(a), RuntimeValue::Double(b)) => float_op(op, *a, *b, answer),
        _ => Err(Halt::Fail(EvalError::TypeMismatch)),
    }
}

} // verus!
