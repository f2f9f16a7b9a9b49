//! Runtime values, faults, and the pure operations on values.
use vstd::prelude::*;

verus! {

/// A value on the operand stack. Floating-point numbers are held as their
/// IEEE-754 binary64 bit pattern; the arithmetic on them is supplied by the
/// caller of the executor.
#[derive(Clone, Debug, PartialEq)]
pub enum Value {
    Bool(bool),
    Int(usize),
    Float(u64),
    Str(String),
}

/// A value as the loader's contract speaks of it: strings as characters.
pub enum ValueView {
    Bool(bool),
    Int(usize),
    Float(u64),
    Str(Seq<char>),
}

impl View for Value {
    type V = ValueView;

    open spec fn view(&self) -> ValueView {
        match self {
            Value::Bool(b) => ValueView::Bool(*b),
            Value::Int(n) => ValueView::Int(*n),
            Value::Float(f) => ValueView::Float(*f),
            Value::Str(s) => ValueView::Str(s@),
        }
    }
}

/// The floating-point operations that the executor asks its caller for.
#[derive(Clone, Copy, Debug, PartialEq, Eq, Structural)]
pub enum FloatOp {
    Add,
    Sub,
    Mul,
    Div,
}

/// A fatal condition raised while a program runs.
#[derive(Clone, Copy, Debug, PartialEq, Eq, Structural)]
pub enum Fault {
    StackUnderflow,
    TypeMismatch,
    DivisionByZero,
    UnknownLabel,
    NoMainSection,
    /// An integer result does not fit in `usize`.
    Overflow,
}

/// Sign bit of a binary64 pattern.
pub const SIGN_BIT: u64 = 0x8000_0000_0000_0000;

/// Pattern of positive infinity: all exponent bits set, zero mantissa.
pub const POS_INFINITY: u64 = 0x7FF0_0000_0000_0000;

/// The bit pattern encodes a NaN: above infinity once the sign is cleared.
pub open spec fn is_nan_spec(bits: u64) -> bool {
    bits % SIGN_BIT > POS_INFINITY
}

/// The bit pattern encodes positive or negative zero.
pub open spec fn is_zero_spec(bits: u64) -> bool {
    bits % SIGN_BIT == 0
}

/// IEEE-754 equality of two binary64 patterns: NaN equals nothing, and the
/// two zeros are equal.
pub open spec fn float_eq_spec(x: u64, y: u64) -> bool {
    !is_nan_spec(x) && !is_nan_spec(y) && (x == y || (is_zero_spec(x) && is_zero_spec(y)))
}

/// Structural equality of values; values of different kinds are unequal.
pub open spec fn value_eq(a: Value, b: Value) -> bool {
    match (a, b) {
        (Value::Bool(x), Value::Bool(y)) => x == y,
        (Value::Int(x), Value::Int(y)) => x == y,
        (Value::Float(x), Value::Float(y)) => float_eq_spec(x, y),
        (Value::Str(x), Value::Str(y)) => x@ == y@,
        _ => false,
    }
}

pub fn is_float_zero(bits: u64) -> (r: bool)
    ensures
        r == is_zero_spec(bits),
{
    bits % SIGN_BIT == 0
}

pub fn is_float_nan(bits: u64) -> (r: bool)
    ensures
        r == is_nan_spec(bits),
{
    bits % SIGN_BIT > POS_INFINITY
}

pub fn float_eq(x: u64, y: u64) -> (r: bool)
    ensures
        r == float_eq_spec(x, y),
{
    !is_float_nan(x) && !is_float_nan(y) && (x == y || (is_float_zero(x) && is_float_zero(y)))
}

impl Value {
    /// A copy of this value.
    pub fn duplicate(&self) -> (r: Value)
        ensures
            r == *self,
    {
        match self {
            Value::Bool(b) => Value::Bool(*b),
            Value::Int(n) => Value::Int(*n),
            Value::Float(f) => Value::Float(*f),
            Value::Str(s) => Value::Str(s.clone()),
        }
    }

    /// Structural equality, as the `eq` instruction compares.
    pub fn equals(&self, other: &Value) -> (r: bool)
        ensures
            r == value_eq(*self, *other),
    {
        match (self, other) {
            (Value::Bool(x), Value::Bool(y)) => *x == *y,
            (Value::Int(x), Value::Int(y)) => *x == *y,
            (Value::Float(x), Value::Float(y)) => float_eq(*x, *y),
            (Value::Str(x), Value::Str(y)) => *x == *y,
            _ => false,
        }
    }
}

/// `fa` agrees with every result that the closure `f` can return.
pub open spec fn float_model<F: Fn(FloatOp, u64, u64) -> u64>(
    f: F,
    fa: spec_fn(FloatOp, u64, u64) -> u64,
) -> bool {
    forall|op: FloatOp, x: u64, y: u64, r: u64| #[trigger]
        f.ensures((op, x, y), r) ==> fa(op, x, y) == r
}

/// The closure `f` accepts every operation and pair of operands.
pub open spec fn float_total<F: Fn(FloatOp, u64, u64) -> u64>(f: F) -> bool {
    forall|op: FloatOp, x: u64, y: u64| #[trigger] f.requires((op, x, y))
}

/// One floating-point operation, performed by the caller's closure.
pub fn float_apply<F: Fn(FloatOp, u64, u64) -> u64>(f: &F, op: FloatOp, x: u64, y: u64) -> (r: u64)
    requires
        float_total(*f),
    ensures
        forall|fa: spec_fn(FloatOp, u64, u64) -> u64| float_model(*f, fa) ==> r == fa(op, x, y),
{
    assert(f.requires((op, x, y)));
    f(op, x, y)
}

} // verus!
