use vstd::prelude::*;

verus! {

/// Binary operators over integer operands.
#[derive(Copy, Clone, Debug, PartialEq, Eq, Structural)]
pub enum BinaryOperation {
    Add,
    Subtract,
    Divide,
    Multiply,
    BitwiseAnd,
    BitwiseLeftShift,
    BitwiseRightShift,
    BitwiseOr,
    BitwiseXor,
}

/// Short-circuit-free boolean connectives.
#[derive(Copy, Clone, Debug, PartialEq, Eq, Structural)]
pub enum BooleanOperation {
    And,
    Or,
}

/// Unary operators; `Not` and `Invert` both complement, `UnaryMinus` negates.
#[derive(Copy, Clone, Debug, PartialEq, Eq, Structural)]
pub enum UnaryOperation {
    Not,
    Invert,
    UnaryMinus,
}

/// Operators that may appear in a chained comparison.
#[derive(Copy, Clone, Debug, PartialEq, Eq, Structural)]
pub enum ComparisonOperation {
    Equal,
    GreaterThan,
    GreaterThanOrEqual,
    In,
    Is,
    IsNot,
    LessThan,
    LessThanOrEqual,
    NotEqual,
    NotIn,
}

/// Keeps `v` when it is representable as an `i32`.
pub open spec fn fit_i32(v: int) -> Option<i32> {
    if i32::MIN <= v <= i32::MAX {
        Some(v as i32)
    } else {
        None
    }
}

/// Quotient rounded toward zero, as `i32` division computes it.
pub open spec fn trunc_div(a: int, b: int) -> int {
    let q = abs(a) / abs(b);
    if (a < 0) != (b < 0) {
        -q
    } else {
        q
    }
}

pub open spec fn abs(a: int) -> int {
    if a < 0 {
        -a
    } else {
        a
    }
}

/// The value of `l op r` on `i32` operands, or `None` where the operation
/// overflows, divides by zero or shifts by an amount outside `0..32`.
pub open spec fn binary_value(op: BinaryOperation, l: i32, r: i32) -> Option<i32> {
    match op {
        BinaryOperation::Add => fit_i32(l + r),
        BinaryOperation::Subtract => fit_i32(l - r),
        BinaryOperation::Multiply => fit_i32(l * r),
        BinaryOperation::Divide => if r == 0 {
            None
        } else {
            fit_i32(trunc_div(l as int, r as int))
        },
        BinaryOperation::BitwiseAnd => Some(l & r),
        BinaryOperation::BitwiseOr => Some(l | r),
        BinaryOperation::BitwiseXor => Some(l ^ r),
        BinaryOperation::BitwiseLeftShift => if 0 <= r < 32 {
            Some(l << (r as u32))
        } else {
            None
        },
        BinaryOperation::BitwiseRightShift => if 0 <= r < 32 {
            Some(l >> (r as u32))
        } else {
            None
        },
    }
}

pub open spec fn boolean_value(op: BooleanOperation, l: bool, r: bool) -> bool {
    match op {
        BooleanOperation::And => l && r,
        BooleanOperation::Or => l || r,
    }
}

/// The value of `op n` on an `i32` operand, or `None` where negation overflows.
pub open spec fn unary_value(op: UnaryOperation, n: i32) -> Option<i32> {
    match op {
        UnaryOperation::Not => Some(!n),
        UnaryOperation::Invert => Some(!n),
        UnaryOperation::UnaryMinus => fit_i32(-n),
    }
}

/// The truth of `l op r` on integers, for the operators that order or equate
/// numbers; membership and identity tests have no integer meaning.
pub open spec fn comparison_value(op: ComparisonOperation, l: i32, r: i32) -> Option<bool> {
    match op {
        ComparisonOperation::Equal => Some(l == r),
        ComparisonOperation::NotEqual => Some(l != r),
        ComparisonOperation::LessThan => Some(l < r),
        ComparisonOperation::LessThanOrEqual => Some(l <= r),
        ComparisonOperation::GreaterThan => Some(l > r),
        ComparisonOperation::GreaterThanOrEqual => Some(l >= r),
        _ => None,
    }
}

impl BinaryOperation {
    /// Applies the operator to two integers; `None` where Rust's checked
    /// arithmetic would fail.
    pub fn perform(&self, left: i32, right: i32) -> (r: Option<i32>)
        ensures
            r == binary_value(*self, left, right),
    {
        match self {
            BinaryOperation::Add => left.checked_add(right),
            BinaryOperation::Subtract => left.checked_sub(right),
            BinaryOperation::Multiply => left.checked_mul(right),
            BinaryOperation::Divide => left.checked_div(right),
            BinaryOperation::BitwiseAnd => Some(left & right),
            BinaryOperation::BitwiseOr => Some(left | right),
            BinaryOperation::BitwiseXor => Some(left ^ right),
            BinaryOperation::BitwiseLeftShift => {
                if 0 <= right && right < 32 {
                    Some(left << (right as u32))
                } else {
                    None
                }
            },
            BinaryOperation::BitwiseRightShift => {
                if 0 <= right && right < 32 {
                    Some(left >> (right as u32))
                } else {
                    None
                }
            },
        }
    }
}

impl BooleanOperation {
    pub fn perform(&self, left: bool, right: bool) -> (r: bool)
        ensures
            r == boolean_value(*self, left, right),
    {
        match self {
            BooleanOperation::And => left && right,
            BooleanOperation::Or => left || right,
        }
    }
}

impl UnaryOperation {
    pub fn perform(&self, operand: i32) -> (r: Option<i32>)
        ensures
            r == unary_value(*self, operand),
    {
        match self {
            UnaryOperation::Not => Some(!operand),
            UnaryOperation::Invert => Some(!operand),
            UnaryOperation::UnaryMinus => 0i32.checked_sub(operand),
        }
    }
}

impl ComparisonOperation {
    pub fn perform(&self, left: i32, right: i32) -> (r: Option<bool>)
        ensures
            r == comparison_value(*self, left, right),
    {
        match self {
            ComparisonOperation::Equal => Some(left == right),
            ComparisonOperation::NotEqual => Some(left != right),
            ComparisonOperation::LessThan => Some(left < right),
            ComparisonOperation::LessThanOrEqual => Some(left <= right),
            ComparisonOperation::GreaterThan => Some(left > right),
            ComparisonOperation::GreaterThanOrEqual => Some(left >= right),
            _ => None,
        }
    }
}

} // verus!
