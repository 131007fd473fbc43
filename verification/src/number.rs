//! Numbers: exact integers, and floating-point values held as terms.
//!
//! Integer arithmetic is carried out here, on 128 bits, and fails where the
//! result does not fit. Floating-point arithmetic is never carried out here:
//! a floating-point value is a [`Float`], the term that says which IEEE-754
//! operations yield it, and the host computes it.

use crate::ast::BinaryAction;
use crate::token::Span;
use vstd::arithmetic::power::pow;
use vstd::prelude::*;

verus! {

/// Why an evaluation failed.
#[derive(Debug, Clone, Copy, PartialEq, Eq, Structural)]
pub enum EvalError {
    /// An integer was divided by the integer zero.
    DivisionByZero,
    /// The result of an integer operation does not fit in 128 bits.
    Overflow,
}

/// The functions that floating-point hardware or its library offers. The
/// other built-in functions are written with these and a division.
#[derive(Debug, Clone, Copy, PartialEq, Eq, Structural)]
pub enum Primitive {
    /// Sine.
    Sin,
    /// Cosine.
    Cos,
    /// Tangent.
    Tan,
    /// Inverse sine.
    Asin,
    /// Inverse cosine.
    Acos,
    /// Inverse tangent.
    Atan,
}

/// A 64-bit floating-point value, held as the term that yields it.
///
/// Each term stands for one IEEE-754 double. To have the double, compute the
/// term from its leaves up, with one floating-point operation at each node.
#[derive(Debug, PartialEq, Eq)]
pub enum Float {
    /// The double nearest to the decimal literal that the span covers in the
    /// source.
    Literal(Span),
    /// The double nearest to the integer.
    FromInt(i128),
    /// The operand with its sign flipped.
    Neg(Box<Float>),
    /// The function applied to the operand.
    Apply(Primitive, Box<Float>),
    /// The sum, difference, product or quotient of two operands, or the first
    /// raised to the power of the second.
    Binary(Box<Float>, BinaryAction, Box<Float>),
}

/// A number: an exact integer or a floating-point value.
#[derive(Debug, PartialEq, Eq)]
pub enum Number {
    /// An integer of 128 bits.
    Int(i128),
    /// A floating-point value.
    Flt(Float),
}

impl Clone for Float {
    fn clone(&self) -> (copy: Float)
        ensures
            copy == *self,
        decreases self,
    {
        match self {
            Float::Literal(span) => Float::Literal(*span),
            Float::FromInt(value) => Float::FromInt(*value),
            Float::Neg(operand) => Float::Neg(Box::new((&**operand).clone())),
            Float::Apply(primitive, operand) => Float::Apply(
                *primitive,
                Box::new((&**operand).clone()),
            ),
            Float::Binary(left, actor, right) => Float::Binary(
                Box::new((&**left).clone()),
                *actor,
                Box::new((&**right).clone()),
            ),
        }
    }
}

impl Clone for Number {
    fn clone(&self) -> (copy: Number)
        ensures
            copy == *self,
    {
        match self {
            Number::Int(value) => Number::Int(*value),
            Number::Flt(value) => Number::Flt(value.clone()),
        }
    }
}

/// The quotient of `a` by `b`, rounded towards zero. `b` is not zero.
pub open spec fn truncated_quotient(a: int, b: int) -> int {
    if a >= 0 && b > 0 {
        a / b
    } else if a < 0 && b < 0 {
        (-a) / (-b)
    } else if a < 0 {
        -((-a) / b)
    } else {
        -(a / (-b))
    }
}

/// `value` as an integer number, where it fits in 128 bits.
pub open spec fn fitted(value: int) -> Result<Number, EvalError> {
    if i128::MIN <= value <= i128::MAX {
        Ok(Number::Int(value as i128))
    } else {
        Err(EvalError::Overflow)
    }
}

impl Number {
    /// The number as a floating-point value: an integer is converted, a
    /// floating-point value is itself.
    pub open spec fn promoted(self) -> Float {
        match self {
            Number::Int(value) => Float::FromInt(value),
            Number::Flt(value) => value,
        }
    }

    /// The floating-point result of `actor` on two numbers, each promoted.
    pub open spec fn floated(self, actor: BinaryAction, rhs: Number) -> Number {
        Number::Flt(Float::Binary(Box::new(self.promoted()), actor, Box::new(rhs.promoted())))
    }

    /// The sum of two numbers: exact for two integers, floating-point
    /// otherwise.
    pub open spec fn sum(self, rhs: Number) -> Result<Number, EvalError> {
        match (self, rhs) {
            (Number::Int(a), Number::Int(b)) => fitted(a + b),
            _ => Ok(self.floated(BinaryAction::Add, rhs)),
        }
    }

    /// The difference of two numbers: exact for two integers, floating-point
    /// otherwise.
    pub open spec fn difference(self, rhs: Number) -> Result<Number, EvalError> {
        match (self, rhs) {
            (Number::Int(a), Number::Int(b)) => fitted(a - b),
            _ => Ok(self.floated(BinaryAction::Sub, rhs)),
        }
    }

    /// The product of two numbers: exact for two integers, floating-point
    /// otherwise.
    pub open spec fn product(self, rhs: Number) -> Result<Number, EvalError> {
        match (self, rhs) {
            (Number::Int(a), Number::Int(b)) => fitted(a * b),
            _ => Ok(self.floated(BinaryAction::Mul, rhs)),
        }
    }

    /// The quotient of two numbers. Of two integers it is rounded towards
    /// zero, and fails where the divisor is zero. With a floating-point
    /// operand it is floating-point, and never fails.
    pub open spec fn quotient(self, rhs: Number) -> Result<Number, EvalError> {
        match (self, rhs) {
            (Number::Int(a), Number::Int(b)) => if b == 0 {
                Err(EvalError::DivisionByZero)
            } else {
                fitted(truncated_quotient(a as int, b as int))
            },
            _ => Ok(self.floated(BinaryAction::Div, rhs)),
        }
    }

    /// The number with its sign flipped.
    pub open spec fn negation(self) -> Result<Number, EvalError> {
        match self {
            Number::Int(a) => fitted(-a),
            Number::Flt(value) => Ok(Number::Flt(Float::Neg(Box::new(value)))),
        }
    }

    /// The number raised to the power of `exponent`. Of two integers with an
    /// exponent that is not negative it is exact; otherwise it is
    /// floating-point.
    pub open spec fn power(self, exponent: Number) -> Result<Number, EvalError> {
        match (self, exponent) {
            (Number::Int(a), Number::Int(b)) if b >= 0 => fitted(pow(a as int, b as nat)),
            _ => Ok(self.floated(BinaryAction::Pow, exponent)),
        }
    }

    /// Converts the number to a floating-point value.
    pub fn promote(self) -> (value: Float)
        ensures
            value == self.promoted(),
    {
        match self {
            Number::Int(value) => Float::FromInt(value),
            Number::Flt(value) => value,
        }
    }

    /// Applies `actor` in floating point to two numbers, each promoted.
    fn float(self, actor: BinaryAction, rhs: Number) -> (result: Number)
        ensures
            result == self.floated(actor, rhs),
    {
        Number::Flt(Float::Binary(Box::new(self.promote()), actor, Box::new(rhs.promote())))
    }

    /// Adds two numbers.
    pub fn add(self, rhs: Number) -> (result: Result<Number, EvalError>)
        ensures
            result == self.sum(rhs),
    {
        match (self, rhs) {
            (Number::Int(a), Number::Int(b)) => match a.checked_add(b) {
                Some(value) => Ok(Number::Int(value)),
                None => Err(EvalError::Overflow),
            },
            (left, right) => Ok(left.float(BinaryAction::Add, right)),
        }
    }

    /// Subtracts `rhs` from the number.
    pub fn sub(self, rhs: Number) -> (result: Result<Number, EvalError>)
        ensures
            result == self.difference(rhs),
    {
        match (self, rhs) {
            (Number::Int(a), Number::Int(b)) => match a.checked_sub(b) {
                Some(value) => Ok(Number::Int(value)),
                None => Err(EvalError::Overflow),
            },
            (left, right) => Ok(left.float(BinaryAction::Sub, right)),
        }
    }

    /// Multiplies two numbers.
    pub fn mul(self, rhs: Number) -> (result: Result<Number, EvalError>)
        ensures
            result == self.product(rhs),
    {
        match (self, rhs) {
            (Number::Int(a), Number::Int(b)) => match a.checked_mul(b) {
                Some(value) => Ok(Number::Int(value)),
                None => Err(EvalError::Overflow),
            },
            (left, right) => Ok(left.float(BinaryAction::Mul, right)),
        }
    }

    /// Divides the number by `rhs`.
    pub fn div(self, rhs: Number) -> (result: Result<Number, EvalError>)
        ensures
            result == self.quotient(rhs),
    {
        match (self, rhs) {
            (Number::Int(a), Number::Int(b)) => {
                if b == 0 {
                    Err(EvalError::DivisionByZero)
                } else {
                    match a.checked_div(b) {
                        Some(value) => Ok(Number::Int(value)),
                        None => Err(EvalError::Overflow),
                    }
                }
            },
            (left, right) => Ok(left.float(BinaryAction::Div, right)),
        }
    }

    /// Flips the sign of the number.
    pub fn neg(self) -> (result: Result<Number, EvalError>)
        ensures
            result == self.negation(),
    {
        match self {
            Number::Int(a) => match 0i128.checked_sub(a) {
                Some(value) => Ok(Number::Int(value)),
                None => Err(EvalError::Overflow),
            },
            Number::Flt(value) => Ok(Number::Flt(Float::Neg(Box::new(value)))),
        }
    }

    /// Raises the number to the power of `exponent`.
    pub fn pow(self, exponent: Number) -> (result: Result<Number, EvalError>)
        ensures
            result == self.power(exponent),
    {
        match (self, exponent) {
            (Number::Int(a), Number::Int(b)) => {
                if b >= 0 {
                    match integer_power(a, b) {
                        Some(value) => Ok(Number::Int(value)),
                        None => Err(EvalError::Overflow),
                    }
                } else {
                    Ok(Number::Int(a).float(BinaryAction::Pow, Number::Int(b)))
                }
            },
            (left, right) => Ok(left.float(BinaryAction::Pow, right)),
        }
    }
}

/// The distance of `value` from zero.
pub open spec fn magnitude(value: int) -> int {
    if value < 0 {
        -value
    } else {
        value
    }
}

/// With a base of magnitude two or more, each further power at least doubles
/// in magnitude.
proof fn lemma_power_doubles(base: int, low: nat, high: nat)
    requires
        magnitude(base) >= 2,
        low < high,
    ensures
        magnitude(pow(base, high)) >= 2 * magnitude(pow(base, low)),
    decreases high,
{
    let previous = pow(base, (high - 1) as nat);
    assert(pow(base, high) == base * previous) by {
        reveal(pow);
    }
    assert(magnitude(base * previous) >= 2 * magnitude(previous)) by (nonlinear_arith)
        requires
            magnitude(base) >= 2,
    ;
    if low < high - 1 {
        lemma_power_doubles(base, low, (high - 1) as nat);
    }
}

/// `base` raised to the power of `exponent`, where it fits in 128 bits.
fn integer_power(base: i128, exponent: i128) -> (result: Option<i128>)
    requires
        exponent >= 0,
    ensures
        result == if i128::MIN <= pow(base as int, exponent as nat) <= i128::MAX {
            Some(pow(base as int, exponent as nat) as i128)
        } else {
            None
        },
{
    if exponent == 0 {
        proof {
            reveal(pow);
        }
        return Some(1);
    }
    if base == 0 || base == 1 {
        proof {
            lemma_power_of_small(base as int, exponent as nat);
        }
        return Some(base);
    }
    if base == -1 {
        proof {
            lemma_power_of_small(base as int, exponent as nat);
        }
        return Some(if exponent % 2 == 0 { 1 } else { -1 });
    }
    let mut result: i128 = 1;
    let mut done: i128 = 0;
    proof {
        reveal(pow);
    }
    while done < exponent
        invariant
            0 <= done <= exponent,
            magnitude(base as int) >= 2,
            result == pow(base as int, done as nat),
        decreases exponent - done,
    {
        proof {
            reveal(pow);
            let next = pow(base as int, (done + 1) as nat);
            assert(next == base * pow(base as int, done as nat));
            assert(next == result * base) by (nonlinear_arith)
                requires
                    next == base * result,
            ;
        }
        match result.checked_mul(base) {
            Some(value) => {
                result = value;
            },
            None => {
                proof {
                    if done + 1 < exponent {
                        lemma_power_doubles(base as int, (done + 1) as nat, exponent as nat);
                    }
                }
                return None;
            },
        }
        done += 1;
    }
    Some(result)
}

/// The powers of zero, of one and of minus one.
proof fn lemma_power_of_small(base: int, exponent: nat)
    requires
        -1 <= base <= 1,
    ensures
        base == 0 && exponent > 0 ==> pow(base, exponent) == 0,
        base == 1 ==> pow(base, exponent) == 1,
        base == -1 ==> pow(base, exponent) == if exponent % 2 == 0 {
            1int
        } else {
            -1int
        },
    decreases exponent,
{
    reveal(pow);
    if exponent > 0 {
        lemma_power_of_small(base, (exponent - 1) as nat);
    }
}

} // verus!
