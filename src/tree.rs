use vstd::prelude::*;
use crate::node_frame::{Numeric, NodeFrame};
use crate::operations::{BinaryOperation, BooleanOperation, ComparisonOperation, UnaryOperation};

verus! {

/// The mathematical form of one level of a tree: what a `NodeFrame` holds,
/// with texts and lists as sequences and each child as a `C`.
pub enum Level<C> {
    FunctionParameter(Seq<char>),
    NumericConstant(Numeric),
    StringConstant(Seq<char>),
    BooleanConstant(bool),
    BitVec(usize, Seq<char>),
    BinOp(BinaryOperation, C, C),
    UnaryOp(UnaryOperation, C),
    BoolOp(BooleanOperation, Seq<C>),
    Compare(C, Seq<ComparisonOperation>, Seq<C>),
    If(C, C, C),
}

/// The mathematical form of a whole expression tree. Two trees are equal
/// exactly when they agree in kind, operator, literal and the order of their
/// children, all the way down.
pub enum Tree {
    FunctionParameter(Seq<char>),
    NumericConstant(Numeric),
    StringConstant(Seq<char>),
    BooleanConstant(bool),
    BitVec(usize, Seq<char>),
    BinOp(BinaryOperation, Box<Tree>, Box<Tree>),
    UnaryOp(UnaryOperation, Box<Tree>),
    BoolOp(BooleanOperation, Seq<Tree>),
    Compare(Box<Tree>, Seq<ComparisonOperation>, Seq<Tree>),
    If(Box<Tree>, Box<Tree>, Box<Tree>),
}

/// The level `f`, with each child seen through `v`.
pub open spec fn level_of<T, C>(f: NodeFrame<T>, v: spec_fn(T) -> C) -> Level<C> {
    match f {
        NodeFrame::FunctionParameter(p) => Level::FunctionParameter(p.identifier@),
        NodeFrame::NumericConstant(n) => Level::NumericConstant(n),
        NodeFrame::StringConstant(s) => Level::StringConstant(s@),
        NodeFrame::BooleanConstant(b) => Level::BooleanConstant(b),
        NodeFrame::BitVec(bv) => Level::BitVec(bv.length, bv.bit_string@),
        NodeFrame::BinOp(b) => Level::BinOp(b.operation, v(b.left), v(b.right)),
        NodeFrame::UnaryOp(u) => Level::UnaryOp(u.operation, v(u.operand)),
        NodeFrame::BoolOp(b) => Level::BoolOp(b.operator, b.operands@.map_values(v)),
        NodeFrame::Compare(c) => Level::Compare(
            v(c.left),
            c.operations@,
            c.comparators@.map_values(v),
        ),
        NodeFrame::If(i) => Level::If(v(i.condition), v(i.success), v(i.failure)),
    }
}

} // verus!

verus! {

/// The tree whose top level is `l`.
pub open spec fn compose(l: Level<Tree>) -> Tree {
    match l {
        Level::FunctionParameter(s) => Tree::FunctionParameter(s),
        Level::NumericConstant(n) => Tree::NumericConstant(n),
        Level::StringConstant(s) => Tree::StringConstant(s),
        Level::BooleanConstant(b) => Tree::BooleanConstant(b),
        Level::BitVec(n, s) => Tree::BitVec(n, s),
        Level::BinOp(op, a, b) => Tree::BinOp(op, Box::new(a), Box::new(b)),
        Level::UnaryOp(op, a) => Tree::UnaryOp(op, Box::new(a)),
        Level::BoolOp(op, xs) => Tree::BoolOp(op, xs),
        Level::Compare(a, ops, xs) => Tree::Compare(Box::new(a), ops, xs),
        Level::If(a, b, c) => Tree::If(Box::new(a), Box::new(b), Box::new(c)),
    }
}

/// The top level of `t`, its children left whole.
pub open spec fn decompose(t: Tree) -> Level<Tree> {
    match t {
        Tree::FunctionParameter(s) => Level::FunctionParameter(s),
        Tree::NumericConstant(n) => Level::NumericConstant(n),
        Tree::StringConstant(s) => Level::StringConstant(s),
        Tree::BooleanConstant(b) => Level::BooleanConstant(b),
        Tree::BitVec(n, s) => Level::BitVec(n, s),
        Tree::BinOp(op, a, b) => Level::BinOp(op, *a, *b),
        Tree::UnaryOp(op, a) => Level::UnaryOp(op, *a),
        Tree::BoolOp(op, xs) => Level::BoolOp(op, xs),
        Tree::Compare(a, ops, xs) => Level::Compare(*a, ops, xs),
        Tree::If(a, b, c) => Level::If(*a, *b, *c),
    }
}

/// Composing and decomposing undo each other, so `BoxedNode::from_frame`
/// gives back the tree that `BoxedNode::into_frame` took apart.
pub proof fn lemma_compose_decompose(t: Tree, l: Level<Tree>)
    ensures
        compose(decompose(t)) == t,
        decompose(compose(l)) == l,
{
}

} // verus!
