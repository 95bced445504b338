use vstd::prelude::*;
use crate::computing::{combine, combine_all, compare_all, ComputingDomain};
use crate::operations::{BinaryOperation, BooleanOperation, ComparisonOperation, UnaryOperation};

verus! {

#[derive(Debug, PartialEq, Eq, Clone)]
pub struct FunctionParameter {
    pub identifier: String,
}

#[derive(Debug, PartialEq, Eq, Clone)]
pub struct BitVec {
    pub length: usize,
    pub bit_string: String,
}

#[derive(Debug, Clone)]
pub struct BinOp<T> {
    pub operation: BinaryOperation,
    pub left: T,
    pub right: T,
}

#[derive(Debug, Clone)]
pub struct UnaryOp<T> {
    pub operation: UnaryOperation,
    pub operand: T,
}

#[derive(Debug, Clone)]
pub struct BoolOp<U> {
    pub operator: BooleanOperation,
    pub operands: U,
}

#[derive(Debug, Clone)]
pub struct Compare<T, U> {
    pub left: T,
    pub operations: Vec<ComparisonOperation>,
    pub comparators: U,
}

#[derive(Debug, Clone)]
pub struct If<T> {
    pub condition: T,
    pub success: T,
    pub failure: T,
}

/// A numeric literal. A double is held as its IEEE-754 bit pattern
/// (`f64::to_bits`), so two doubles are the same literal exactly when their
/// bits agree.
#[derive(Debug, PartialEq, Eq, Clone, Copy, Structural)]
pub enum Numeric {
    Double(u64),
    Int(i32),
}

/// One level of an expression tree; `T` stands for a child.
#[derive(Debug, Clone)]
pub enum NodeFrame<T> {
    FunctionParameter(FunctionParameter),
    NumericConstant(Numeric),
    StringConstant(String),
    BooleanConstant(bool),
    BitVec(BitVec),
    BinOp(BinOp<T>),
    UnaryOp(UnaryOp<T>),
    BoolOp(BoolOp<Vec<T>>),
    Compare(Compare<T, Vec<T>>),
    If(If<T>),
}

impl FunctionParameter {
    pub fn get_domain(&self) -> (r: ComputingDomain)
        ensures
            r == ComputingDomain::Quantum,
    {
        ComputingDomain::Quantum
    }
}

impl BitVec {
    pub fn get_domain(&self) -> (r: ComputingDomain)
        ensures
            r == ComputingDomain::Quantum,
    {
        ComputingDomain::Quantum
    }
}

impl Numeric {
    pub fn get_domain(&self) -> (r: ComputingDomain)
        ensures
            r == ComputingDomain::Classical,
    {
        ComputingDomain::Classical
    }
}

/// The domain of one level whose children have the domains given in place of
/// the children.
pub open spec fn frame_domain(f: NodeFrame<ComputingDomain>) -> ComputingDomain {
    match f {
        NodeFrame::FunctionParameter(_) => ComputingDomain::Quantum,
        NodeFrame::BitVec(_) => ComputingDomain::Quantum,
        NodeFrame::NumericConstant(_) => ComputingDomain::Classical,
        NodeFrame::StringConstant(_) => ComputingDomain::Classical,
        NodeFrame::BooleanConstant(_) => ComputingDomain::Classical,
        NodeFrame::BinOp(b) => combine(b.left, b.right),
        NodeFrame::UnaryOp(u) => u.operand,
        NodeFrame::BoolOp(b) => combine_all(b.operands@),
        NodeFrame::Compare(c) => combine(c.left, combine_all(c.comparators@)),
        NodeFrame::If(i) => combine(combine(i.condition, i.success), i.failure),
    }
}

impl NodeFrame<ComputingDomain> {
    /// Joins the children's domains of this level, or classifies a leaf.
    pub fn get_domain(&self) -> (r: ComputingDomain)
        ensures
            r == frame_domain(*self),
    {
        match self {
            NodeFrame::FunctionParameter(f) => f.get_domain(),
            NodeFrame::NumericConstant(n) => n.get_domain(),
            NodeFrame::StringConstant(_) => ComputingDomain::Classical,
            NodeFrame::BooleanConstant(_) => ComputingDomain::Classical,
            NodeFrame::BitVec(bv) => bv.get_domain(),
            NodeFrame::BinOp(b) => b.left.compare(&b.right),
            NodeFrame::UnaryOp(u) => u.operand,
            NodeFrame::BoolOp(b) => compare_all(&b.operands),
            NodeFrame::Compare(c) => c.left.compare(&compare_all(&c.comparators)),
            NodeFrame::If(i) => i.condition.compare(&i.success).compare(&i.failure),
        }
    }
}

} // verus!

verus! {

/// Two lists whose items correspond one by one under `rel`.
pub open spec fn lists_related<T, A>(a: Seq<T>, b: Seq<A>, rel: spec_fn(T, A) -> bool) -> bool {
    &&& a.len() == b.len()
    &&& forall|i: int| 0 <= i < a.len() ==> #[trigger] rel(a[i], b[i])
}

/// `b` is `a` with every child replaced by one related to it under `rel`:
/// same kind, operator and literal, same list lengths and order.
pub open spec fn frames_related<T, A>(
    a: NodeFrame<T>,
    b: NodeFrame<A>,
    rel: spec_fn(T, A) -> bool,
) -> bool {
    match (a, b) {
        (NodeFrame::FunctionParameter(x), NodeFrame::FunctionParameter(y)) => x.identifier@
            == y.identifier@,
        (NodeFrame::NumericConstant(x), NodeFrame::NumericConstant(y)) => x == y,
        (NodeFrame::StringConstant(x), NodeFrame::StringConstant(y)) => x@ == y@,
        (NodeFrame::BooleanConstant(x), NodeFrame::BooleanConstant(y)) => x == y,
        (NodeFrame::BitVec(x), NodeFrame::BitVec(y)) => x.length == y.length && x.bit_string@
            == y.bit_string@,
        (NodeFrame::BinOp(x), NodeFrame::BinOp(y)) => x.operation == y.operation && rel(
            x.left,
            y.left,
        ) && rel(x.right, y.right),
        (NodeFrame::UnaryOp(x), NodeFrame::UnaryOp(y)) => x.operation == y.operation && rel(
            x.operand,
            y.operand,
        ),
        (NodeFrame::BoolOp(x), NodeFrame::BoolOp(y)) => x.operator == y.operator
            && lists_related(x.operands@, y.operands@, rel),
        (NodeFrame::Compare(x), NodeFrame::Compare(y)) => rel(x.left, y.left) && x.operations@
            == y.operations@ && lists_related(x.comparators@, y.comparators@, rel),
        (NodeFrame::If(x), NodeFrame::If(y)) => rel(x.condition, y.condition) && rel(
            x.success,
            y.success,
        ) && rel(x.failure, y.failure),
        _ => false,
    }
}

/// Applies `f` to each item of `v`, in order.
fn map_all<T, A, F: Fn(T) -> A>(v: Vec<T>, f: &F) -> (r: Vec<A>)
    requires
        forall|x: T| f.requires((x,)),
    ensures
        lists_related(v@, r@, |x: T, y: A| f.ensures((x,), y)),
{
    let ghost orig = v@;
    let mut v = v;
    let mut r: Vec<A> = Vec::new();
    while v.len() > 0
        invariant
            forall|x: T| f.requires((x,)),
            r.len() + v.len() == orig.len(),
            v@ == orig.subrange(r.len() as int, orig.len() as int),
            forall|i: int| 0 <= i < r.len() ==> f.ensures((orig[i],), #[trigger] r@[i]),
        decreases v.len(),
    {
        let ghost before = v@;
        let x = v.remove(0);
        proof {
            assert(x == orig[r.len() as int]);
            assert(v@ =~= orig.subrange(r.len() + 1, orig.len() as int));
        }
        let y = f(x);
        r.push(y);
    }
    r
}

impl<T> NodeFrame<T> {
    /// Replaces every child by `f` of it, in declared order, keeping the
    /// kind, operator, literals and list lengths; grandchildren are not
    /// visited.
    pub fn map<A, F: Fn(T) -> A>(self, f: F) -> (r: NodeFrame<A>)
        requires
            forall|x: T| f.requires((x,)),
        ensures
            frames_related(self, r, |x: T, y: A| f.ensures((x,), y)),
    {
        match self {
            NodeFrame::FunctionParameter(param) => NodeFrame::FunctionParameter(param),
            NodeFrame::NumericConstant(numeric) => NodeFrame::NumericConstant(numeric),
            NodeFrame::StringConstant(string) => NodeFrame::StringConstant(string),
            NodeFrame::BooleanConstant(boolean) => NodeFrame::BooleanConstant(boolean),
            NodeFrame::BitVec(bitvec) => NodeFrame::BitVec(bitvec),
            NodeFrame::BinOp(binop) => {
                let left = f(binop.left);
                let right = f(binop.right);
                NodeFrame::BinOp(BinOp { operation: binop.operation, left, right })
            },
            NodeFrame::UnaryOp(unaryop) => {
                let operand = f(unaryop.operand);
                NodeFrame::UnaryOp(UnaryOp { operation: unaryop.operation, operand })
            },
            NodeFrame::BoolOp(boolop) => {
                let operands = map_all(boolop.operands, &f);
                NodeFrame::BoolOp(BoolOp { operator: boolop.operator, operands })
            },
            NodeFrame::Compare(compare) => {
                let left = f(compare.left);
                let comparators = map_all(compare.comparators, &f);
                NodeFrame::Compare(Compare { left, operations: compare.operations, comparators })
            },
            NodeFrame::If(if_node) => {
                let condition = f(if_node.condition);
                let success = f(if_node.success);
                let failure = f(if_node.failure);
                NodeFrame::If(If { condition, success, failure })
            },
        }
    }
}

} // verus!
