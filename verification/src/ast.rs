//! The syntax tree and its evaluation.

use crate::number::{truncated_quotient, EvalError, Float, Number, Primitive};
use vstd::arithmetic::power::pow;
use crate::token::Function;
use vstd::prelude::*;

verus! {

/// What a node does with two operands.
#[derive(Debug, Clone, Copy, PartialEq, Eq, Structural)]
pub enum BinaryAction {
    /// Addition.
    Add,
    /// Subtraction.
    Sub,
    /// Multiplication.
    Mul,
    /// Division.
    Div,
    /// Exponentiation.
    Pow,
}

/// What a node does with one operand.
#[derive(Debug, Clone, Copy, PartialEq, Eq, Structural)]
pub enum UnaryAction {
    /// Flips the sign.
    Neg,
    /// Leaves the operand as it is.
    Iden,
    /// Applies a built-in function.
    Func(Function),
}

/// A node that holds a number.
#[derive(Debug, PartialEq, Eq)]
pub struct PlainNode(pub Number);

/// A node that acts on one operand.
#[derive(Debug, PartialEq, Eq)]
pub struct UnaryNode {
    /// What the node does.
    pub actor: UnaryAction,
    /// The operand.
    pub operand: NodeBox,
}

/// A node that acts on two operands.
#[derive(Debug, PartialEq, Eq)]
pub struct BinaryNode {
    /// The operand on the left.
    pub left: NodeBox,
    /// What the node does.
    pub actor: BinaryAction,
    /// The operand on the right.
    pub right: NodeBox,
}

/// A node of the syntax tree. Each node owns its operands.
#[derive(Debug, PartialEq, Eq)]
pub enum Node {
    /// A number.
    Plain(PlainNode),
    /// An action on one operand.
    Unary(UnaryNode),
    /// An action on two operands.
    Binary(BinaryNode),
}

/// A node on the heap.
pub type NodeBox = Box<Node>;

/// The floating-point value of the built-in `function` at `operand`. The
/// reciprocal functions divide one by a primitive; their inverses apply a
/// primitive to one divided by the operand.
pub open spec fn applied(function: Function, operand: Float) -> Float {
    match function {
        Function::Sin => Float::Apply(Primitive::Sin, Box::new(operand)),
        Function::Cos => Float::Apply(Primitive::Cos, Box::new(operand)),
        Function::Tan => Float::Apply(Primitive::Tan, Box::new(operand)),
        Function::Csc => reciprocal(Float::Apply(Primitive::Sin, Box::new(operand))),
        Function::Sec => reciprocal(Float::Apply(Primitive::Cos, Box::new(operand))),
        Function::Cot => reciprocal(Float::Apply(Primitive::Tan, Box::new(operand))),
        Function::Asin => Float::Apply(Primitive::Asin, Box::new(operand)),
        Function::Acos => Float::Apply(Primitive::Acos, Box::new(operand)),
        Function::Atan => Float::Apply(Primitive::Atan, Box::new(operand)),
        Function::Acsc => Float::Apply(Primitive::Asin, Box::new(reciprocal(operand))),
        Function::Asec => Float::Apply(Primitive::Acos, Box::new(reciprocal(operand))),
        Function::Acot => Float::Apply(Primitive::Atan, Box::new(reciprocal(operand))),
    }
}

/// One divided by `operand`, in floating point.
pub open spec fn reciprocal(operand: Float) -> Float {
    Float::Binary(Box::new(Float::FromInt(1)), BinaryAction::Div, Box::new(operand))
}

/// Divides one by `operand`.
fn invert(operand: Float) -> (result: Float)
    ensures
        result == reciprocal(operand),
{
    Float::Binary(Box::new(Float::FromInt(1)), BinaryAction::Div, Box::new(operand))
}

/// Applies the built-in `function` to `operand`.
pub fn apply(function: Function, operand: Float) -> (result: Float)
    ensures
        result == applied(function, operand),
{
    match function {
        Function::Sin => Float::Apply(Primitive::Sin, Box::new(operand)),
        Function::Cos => Float::Apply(Primitive::Cos, Box::new(operand)),
        Function::Tan => Float::Apply(Primitive::Tan, Box::new(operand)),
        Function::Csc => invert(Float::Apply(Primitive::Sin, Box::new(operand))),
        Function::Sec => invert(Float::Apply(Primitive::Cos, Box::new(operand))),
        Function::Cot => invert(Float::Apply(Primitive::Tan, Box::new(operand))),
        Function::Asin => Float::Apply(Primitive::Asin, Box::new(operand)),
        Function::Acos => Float::Apply(Primitive::Acos, Box::new(operand)),
        Function::Atan => Float::Apply(Primitive::Atan, Box::new(operand)),
        Function::Acsc => Float::Apply(Primitive::Asin, Box::new(invert(operand))),
        Function::Asec => Float::Apply(Primitive::Acos, Box::new(invert(operand))),
        Function::Acot => Float::Apply(Primitive::Atan, Box::new(invert(operand))),
    }
}

impl BinaryAction {
    /// What the action yields on two numbers.
    pub open spec fn outcome(self, left: Number, right: Number) -> Result<Number, EvalError> {
        match self {
            BinaryAction::Add => left.sum(right),
            BinaryAction::Sub => left.difference(right),
            BinaryAction::Mul => left.product(right),
            BinaryAction::Div => left.quotient(right),
            BinaryAction::Pow => left.power(right),
        }
    }

    /// Carries the action out on two numbers.
    pub fn evaluate(&self, left: Number, right: Number) -> (result: Result<Number, EvalError>)
        ensures
            result == self.outcome(left, right),
    {
        match self {
            BinaryAction::Add => left.add(right),
            BinaryAction::Sub => left.sub(right),
            BinaryAction::Mul => left.mul(right),
            BinaryAction::Div => left.div(right),
            BinaryAction::Pow => left.pow(right),
        }
    }
}

impl UnaryAction {
    /// What the action yields on a number. A built-in function promotes its
    /// operand, so that its result is floating-point also for an integer.
    pub open spec fn outcome(self, operand: Number) -> Result<Number, EvalError> {
        match self {
            UnaryAction::Neg => operand.negation(),
            UnaryAction::Iden => Ok(operand),
            UnaryAction::Func(function) => Ok(Number::Flt(applied(function, operand.promoted()))),
        }
    }

    /// Carries the action out on a number.
    pub fn evaluate(&self, operand: Number) -> (result: Result<Number, EvalError>)
        ensures
            result == self.outcome(operand),
    {
        match self {
            UnaryAction::Neg => operand.neg(),
            UnaryAction::Iden => Ok(operand),
            UnaryAction::Func(function) => Ok(Number::Flt(apply(*function, operand.promote()))),
        }
    }
}

impl Node {
    /// The value of the tree. The operand of a unary node is evaluated before
    /// the node acts; of a binary node the left operand is evaluated first,
    /// then the right. The first failure is the failure of the whole.
    pub open spec fn value(self) -> Result<Number, EvalError>
        decreases self,
    {
        match self {
            Node::Plain(node) => Ok(node.0),
            Node::Unary(node) => match node.operand.value() {
                Ok(operand) => node.actor.outcome(operand),
                Err(error) => Err(error),
            },
            Node::Binary(node) => match node.left.value() {
                Ok(left) => match node.right.value() {
                    Ok(right) => node.actor.outcome(left, right),
                    Err(error) => Err(error),
                },
                Err(error) => Err(error),
            },
        }
    }

    /// Evaluates the tree.
    pub fn evaluate(&self) -> (result: Result<Number, EvalError>)
        ensures
            result == self.value(),
        decreases self,
    {
        match self {
            Node::Plain(node) => node.evaluate(),
            Node::Unary(node) => node.evaluate(),
            Node::Binary(node) => node.evaluate(),
        }
    }
}

impl PlainNode {
    /// The node that holds `value`.
    pub fn new(value: Number) -> (node: PlainNode)
        ensures
            node == PlainNode(value),
    {
        PlainNode(value)
    }

    /// The number that the node holds.
    pub fn evaluate(&self) -> (result: Result<Number, EvalError>)
        ensures
            result == Node::Plain(*self).value(),
    {
        Ok(self.0.clone())
    }
}

impl UnaryNode {
    /// The node that applies `actor` to `operand`.
    pub fn new(actor: UnaryAction, operand: NodeBox) -> (node: UnaryNode)
        ensures
            node == (UnaryNode { actor, operand }),
    {
        UnaryNode { actor, operand }
    }

    /// Evaluates the operand, then applies the action to its value.
    pub fn evaluate(&self) -> (result: Result<Number, EvalError>)
        ensures
            result == Node::Unary(*self).value(),
        decreases self,
    {
        match self.operand.evaluate() {
            Ok(operand) => self.actor.evaluate(operand),
            Err(error) => Err(error),
        }
    }
}

impl BinaryNode {
    /// The node that applies `actor` to `left` and `right`.
    pub fn new(left: NodeBox, actor: BinaryAction, right: NodeBox) -> (node: BinaryNode)
        ensures
            node == (BinaryNode { left, actor, right }),
    {
        BinaryNode { left, actor, right }
    }

    /// Evaluates the left operand, then the right, then applies the action to
    /// their values.
    pub fn evaluate(&self) -> (result: Result<Number, EvalError>)
        ensures
            result == Node::Binary(*self).value(),
        decreases self,
    {
        match self.left.evaluate() {
            Ok(left) => match self.right.evaluate() {
                Ok(right) => self.actor.evaluate(left, right),
                Err(error) => Err(error),
            },
            Err(error) => Err(error),
        }
    }
}

impl Node {
    /// Whether the tree holds integers only: every leaf is an integer, and no
    /// built-in function is applied.
    pub open spec fn integral(self) -> bool
        decreases self,
    {
        match self {
            Node::Plain(node) => node.0 is Int,
            Node::Unary(node) => !(node.actor is Func) && node.operand.integral(),
            Node::Binary(node) => node.left.integral() && node.right.integral(),
        }
    }

    /// Whether a leaf of the tree is floating-point.
    pub open spec fn mixed(self) -> bool
        decreases self,
    {
        match self {
            Node::Plain(node) => node.0 is Flt,
            Node::Unary(node) => node.operand.mixed(),
            Node::Binary(node) => node.left.mixed() || node.right.mixed(),
        }
    }

    /// The value of an integral tree in the integers of mathematics, which
    /// have no bound. A quotient is rounded towards zero.
    pub open spec fn exact(self) -> int
        decreases self,
    {
        match self {
            Node::Plain(node) => match node.0 {
                Number::Int(value) => value as int,
                Number::Flt(_) => 0,
            },
            Node::Unary(node) => match node.actor {
                UnaryAction::Neg => -node.operand.exact(),
                _ => node.operand.exact(),
            },
            Node::Binary(node) => {
                let left = node.left.exact();
                let right = node.right.exact();
                match node.actor {
                    BinaryAction::Add => left + right,
                    BinaryAction::Sub => left - right,
                    BinaryAction::Mul => left * right,
                    BinaryAction::Div => truncated_quotient(left, right),
                    BinaryAction::Pow => pow(left, right as nat),
                }
            },
        }
    }

    /// Whether the integers of 128 bits can follow the tree: the value of
    /// every node fits in them, no divisor is zero and no exponent is
    /// negative.
    pub open spec fn feasible(self) -> bool
        decreases self,
    {
        &&& i128::MIN <= self.exact() <= i128::MAX
        &&& match self {
            Node::Plain(_) => true,
            Node::Unary(node) => node.operand.feasible(),
            Node::Binary(node) => {
                &&& node.left.feasible()
                &&& node.right.feasible()
                &&& node.actor == BinaryAction::Div ==> node.right.exact() != 0
                &&& node.actor == BinaryAction::Pow ==> node.right.exact() >= 0
            },
        }
    }
}

/// The value of an integral tree is an integer exactly where the integers of
/// 128 bits can follow the tree, and then it is the value that the integers
/// of mathematics give: nothing is rounded. A tree without a division never
/// fails by a division.
pub proof fn lemma_integers_are_exact(node: Node)
    requires
        node.integral(),
    ensures
        node.feasible() ==> node.value() == Ok::<Number, EvalError>(
            Number::Int(node.exact() as i128),
        ),
        !node.feasible() ==> !(node.value() matches Ok(Number::Int(_))),
    decreases node,
{
    match node {
        Node::Plain(_) => {},
        Node::Unary(inner) => {
            lemma_integers_are_exact(*inner.operand);
        },
        Node::Binary(inner) => {
            lemma_integers_are_exact(*inner.left);
            lemma_integers_are_exact(*inner.right);
        },
    }
}

/// One floating-point leaf makes the value of the whole tree floating-point,
/// unless the evaluation fails.
pub proof fn lemma_floats_spread(node: Node)
    requires
        node.mixed(),
    ensures
        node.value() matches Ok(value) ==> value is Flt,
    decreases node,
{
    match node {
        Node::Plain(_) => {},
        Node::Unary(inner) => {
            lemma_floats_spread(*inner.operand);
        },
        Node::Binary(inner) => {
            if inner.left.mixed() {
                lemma_floats_spread(*inner.left);
            }
            if inner.right.mixed() {
                lemma_floats_spread(*inner.right);
            }
        },
    }
}

/// A tree with no division in it never fails by a division by zero.
pub proof fn lemma_no_division_no_zero_divisor(node: Node)
    requires
        node.division_free(),
    ensures
        node.value() != Err::<Number, EvalError>(EvalError::DivisionByZero),
    decreases node,
{
    match node {
        Node::Plain(_) => {},
        Node::Unary(inner) => {
            lemma_no_division_no_zero_divisor(*inner.operand);
        },
        Node::Binary(inner) => {
            lemma_no_division_no_zero_divisor(*inner.left);
            lemma_no_division_no_zero_divisor(*inner.right);
        },
    }
}

impl Node {
    /// Whether the tree has no division in it.
    pub open spec fn division_free(self) -> bool
        decreases self,
    {
        match self {
            Node::Plain(_) => true,
            Node::Unary(node) => node.operand.division_free(),
            Node::Binary(node) => node.actor != BinaryAction::Div && node.left.division_free()
                && node.right.division_free(),
        }
    }
}

/// An integer divided by the integer zero fails. A division with a
/// floating-point operand never fails, also by zero: it is floating-point.
pub proof fn lemma_division_by_zero(left: Number, right: Number)
    ensures
        left is Int && right == Number::Int(0) ==> left.quotient(right) == Err::<
            Number,
            EvalError,
        >(EvalError::DivisionByZero),
        left is Flt || right is Flt ==> left.quotient(right) == Ok::<Number, EvalError>(
            left.floated(BinaryAction::Div, right),
        ),
{
}

} // verus!
