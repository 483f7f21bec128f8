//! A four-operation calculator on unsigned 32-bit integers, in two forms:
//! a single operation with both operands, and a small engine that takes
//! operands and operations one at a time.

use vstd::prelude::*;

verus! {

/// The two operands of a binary operation.
#[derive(Clone, Copy, PartialEq, Eq, Structural, Debug)]
pub struct Operands {
    pub left: u32,
    pub right: u32,
}

/// A binary operation together with its operands.
#[derive(Clone, Copy, PartialEq, Eq, Structural, Debug)]
pub enum Operation {
    Add(Operands),
    Sub(Operands),
    Mul(Operands),
    Div(Operands),
}

/// A binary operation without operands.
#[derive(Clone, Copy, PartialEq, Eq, Structural, Debug)]
pub enum Operator {
    Add,
    Sub,
    Mul,
    Div,
}

impl Operator {
    /// The mathematical value of `left operator right`. Division rounds
    /// towards zero; its value for a zero divisor is left open.
    pub open spec fn apply(self, left: int, right: int) -> int {
        match self {
            Operator::Add => left + right,
            Operator::Sub => left - right,
            Operator::Mul => left * right,
            Operator::Div => left / right,
        }
    }

    /// Whether `left operator right` has a value that fits in 32 bits: the
    /// divisor is not zero and the value is neither negative nor too large.
    pub open spec fn defined(self, left: int, right: int) -> bool {
        &&& self == Operator::Div ==> right != 0
        &&& 0 <= self.apply(left, right) <= u32::MAX
    }

    /// Computes `left operator right`, or `None` where that has no value in
    /// 32 bits.
    pub fn checked_apply(self, left: u32, right: u32) -> (value: Option<u32>)
        ensures
            match value {
                Some(v) => self.defined(left as int, right as int) && v == self.apply(
                    left as int,
                    right as int,
                ),
                None => !self.defined(left as int, right as int),
            },
    {
        match self {
            Operator::Add => left.checked_add(right),
            Operator::Sub => left.checked_sub(right),
            Operator::Mul => left.checked_mul(right),
            Operator::Div => left.checked_div(right),
        }
    }
}

impl Operation {
    /// The operator of the operation.
    pub open spec fn operator(self) -> Operator {
        match self {
            Operation::Add(_) => Operator::Add,
            Operation::Sub(_) => Operator::Sub,
            Operation::Mul(_) => Operator::Mul,
            Operation::Div(_) => Operator::Div,
        }
    }

    /// The operands of the operation.
    pub open spec fn operands(self) -> Operands {
        match self {
            Operation::Add(operands) => operands,
            Operation::Sub(operands) => operands,
            Operation::Mul(operands) => operands,
            Operation::Div(operands) => operands,
        }
    }

    /// The mathematical value of the operation.
    pub open spec fn value(self) -> int {
        self.operator().apply(self.operands().left as int, self.operands().right as int)
    }

    /// Whether the operation has a value that fits in 32 bits.
    pub open spec fn defined(self) -> bool {
        self.operator().defined(self.operands().left as int, self.operands().right as int)
    }
}

/// Computes the value of `op`.
pub fn calc(op: Operation) -> (result: u32)
    requires
        op.defined(),
    ensures
        result == op.value(),
{
    match op {
        Operation::Add(operands) => operands.left + operands.right,
        Operation::Sub(operands) => operands.left - operands.right,
        Operation::Mul(operands) => operands.left * operands.right,
        Operation::Div(operands) => operands.left / operands.right,
    }
}

/// Computes the value of `op`, or `None` where it has no value in 32 bits.
pub fn checked_calc(op: Operation) -> (result: Option<u32>)
    ensures
        match result {
            Some(value) => op.defined() && value == op.value(),
            None => !op.defined(),
        },
{
    match op {
        Operation::Add(operands) => Operator::Add.checked_apply(operands.left, operands.right),
        Operation::Sub(operands) => Operator::Sub.checked_apply(operands.left, operands.right),
        Operation::Mul(operands) => Operator::Mul.checked_apply(operands.left, operands.right),
        Operation::Div(operands) => Operator::Div.checked_apply(operands.left, operands.right),
    }
}

/// A two-register calculator. The first operand that is pushed becomes the
/// left register and every later one the right register; an operation
/// combines the two and leaves its value in the left register.
pub struct EngineImpl {
    left: Option<u32>,
    right: Option<u32>,
}

impl EngineImpl {
    /// The left register.
    pub closed spec fn left(&self) -> Option<u32> {
        self.left
    }

    /// The right register.
    pub closed spec fn right(&self) -> Option<u32> {
        self.right
    }

    /// Whether `operator` can be applied: both registers are filled and the
    /// value fits in 32 bits.
    pub open spec fn ready(&self, operator: Operator) -> bool {
        &&& self.left() matches Some(left)
        &&& self.right() matches Some(right)
        &&& operator.defined(left as int, right as int)
    }

    /// Creates an engine with both registers empty.
    pub fn new() -> (engine: Self)
        ensures
            engine.left() == None::<u32>,
            engine.right() == None::<u32>,
    {
        EngineImpl { left: None, right: None }
    }

    /// Stores `operand` in the left register if that is empty, and in the
    /// right register otherwise.
    pub fn push_operand(&mut self, operand: u32)
        ensures
            old(self).left() is None ==> {
                &&& final(self).left() == Some(operand)
                &&& final(self).right() == old(self).right()
            },
            old(self).left() is Some ==> {
                &&& final(self).left() == old(self).left()
                &&& final(self).right() == Some(operand)
            },
    {
        if self.left.is_none() {
            self.left = Some(operand);
        } else {
            self.right = Some(operand);
        }
    }

    /// Whether `operation` can be applied to the registers as they are.
    pub fn is_ready(&self, operation: Operator) -> (ready: bool)
        ensures
            ready == self.ready(operation),
    {
        match (self.left, self.right) {
            (Some(left), Some(right)) => operation.checked_apply(left, right).is_some(),
            _ => false,
        }
    }

    /// Applies `operation` to the two registers and stores the value in the
    /// left register. The right register keeps its operand.
    pub fn push_operation(&mut self, operation: Operator)
        requires
            old(self).ready(operation),
        ensures
            final(self).right() == old(self).right(),
            final(self).left() matches Some(value) && value == operation.apply(
                old(self).left()->0 as int,
                old(self).right()->0 as int,
            ),
    {
        let left = self.left.unwrap();
        let right = self.right.unwrap();
        self.left = Some(
            match operation {
                Operator::Add => left + right,
                Operator::Sub => left - right,
                Operator::Mul => left * right,
                Operator::Div => left / right,
            },
        );
    }

    /// Whether the left register holds a value.
    pub fn has_result(&self) -> (filled: bool)
        ensures
            filled == self.left() is Some,
    {
        self.left.is_some()
    }

    /// The value in the left register.
    pub fn execute(&mut self) -> (value: u32)
        requires
            old(self).left() is Some,
        ensures
            Some(value) == old(self).left(),
            final(self).left() == old(self).left(),
            final(self).right() == old(self).right(),
    {
        self.left.unwrap()
    }
}

} // verus!
