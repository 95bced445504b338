use vstd::prelude::*;
use crate::node_frame::{BinOp, BitVec, BoolOp, Compare, FunctionParameter, If, Numeric, NodeFrame, UnaryOp};
use crate::tree::{compose, decompose, level_of, Tree};

verus! {

/// An expression tree that owns its children.
#[derive(Debug)]
pub enum BoxedNode {
    FunctionParameter(FunctionParameter),
    NumericConstant(Numeric),
    StringConstant(String),
    BooleanConstant(bool),
    BitVec(BitVec),
    BinOp(BinOp<Box<BoxedNode>>),
    UnaryOp(UnaryOp<Box<BoxedNode>>),
    BoolOp(BoolOp<Vec<Box<BoxedNode>>>),
    Compare(Compare<Box<BoxedNode>, Vec<Box<BoxedNode>>>),
    If(If<Box<BoxedNode>>),
}

} // verus!

verus! {

pub open spec fn tree_of(n: BoxedNode) -> Tree
    decreases n,
{
    match n {
        BoxedNode::FunctionParameter(p) => Tree::FunctionParameter(p.identifier@),
        BoxedNode::NumericConstant(x) => Tree::NumericConstant(x),
        BoxedNode::StringConstant(s) => Tree::StringConstant(s@),
        BoxedNode::BooleanConstant(b) => Tree::BooleanConstant(b),
        BoxedNode::BitVec(bv) => Tree::BitVec(bv.length, bv.bit_string@),
        BoxedNode::BinOp(b) => Tree::BinOp(
            b.operation,
            Box::new(tree_of(*b.left)),
            Box::new(tree_of(*b.right)),
        ),
        BoxedNode::UnaryOp(u) => Tree::UnaryOp(u.operation, Box::new(tree_of(*u.operand))),
        BoxedNode::BoolOp(b) => Tree::BoolOp(b.operator, trees_of(b.operands@)),
        BoxedNode::Compare(c) => Tree::Compare(
            Box::new(tree_of(*c.left)),
            c.operations@,
            trees_of(c.comparators@),
        ),
        BoxedNode::If(i) => Tree::If(
            Box::new(tree_of(*i.condition)),
            Box::new(tree_of(*i.success)),
            Box::new(tree_of(*i.failure)),
        ),
    }
}

pub open spec fn trees_of(s: Seq<Box<BoxedNode>>) -> Seq<Tree>
    decreases s,
{
    if s.len() == 0 {
        Seq::empty()
    } else {
        trees_of(s.subrange(0, s.len() - 1)).push(tree_of(*s[s.len() - 1]))
    }
}

impl View for BoxedNode {
    type V = Tree;

    open spec fn view(&self) -> Tree {
        tree_of(*self)
    }
}

/// `trees_of` views the items one by one, in order.
pub proof fn lemma_trees_of(s: Seq<Box<BoxedNode>>)
    ensures
        trees_of(s).len() == s.len(),
        forall|i: int| 0 <= i < s.len() ==> #[trigger] trees_of(s)[i] == tree_of(*s[i]),
    decreases s.len(),
{
    if s.len() > 0 {
        lemma_trees_of(s.subrange(0, s.len() - 1));
    }
}

/// Moves each child of `v` into a box, in order.
fn box_all(v: Vec<BoxedNode>) -> (r: Vec<Box<BoxedNode>>)
    ensures
        trees_of(r@) == v@.map_values(|c: BoxedNode| c@),
{
    let ghost orig = v@;
    let mut v = v;
    let mut r: Vec<Box<BoxedNode>> = Vec::new();
    while v.len() > 0
        invariant
            orig == r@.map_values(|c: Box<BoxedNode>| *c) + v@,
        decreases v.len(),
    {
        let c = v.remove(0);
        r.push(Box::new(c));
        proof {
            assert(orig =~= r@.map_values(|c: Box<BoxedNode>| *c) + v@);
        }
    }
    proof {
        lemma_trees_of(r@);
        assert(trees_of(r@) =~= orig.map_values(|c: BoxedNode| c@));
    }
    r
}

/// Moves each child of `v` out of its box, in order.
fn unbox_all(v: Vec<Box<BoxedNode>>) -> (r: Vec<BoxedNode>)
    ensures
        r@.map_values(|c: BoxedNode| c@) == trees_of(v@),
{
    let ghost orig = v@;
    let mut v = v;
    let mut r: Vec<BoxedNode> = Vec::new();
    while v.len() > 0
        invariant
            orig == r@.map_values(|c: BoxedNode| Box::new(c)) + v@,
        decreases v.len(),
    {
        let c = v.remove(0);
        r.push(*c);
        proof {
            assert(orig =~= r@.map_values(|c: BoxedNode| Box::new(c)) + v@);
        }
    }
    proof {
        lemma_trees_of(orig);
        assert(r@.map_values(|c: BoxedNode| c@) =~= trees_of(orig));
    }
    r
}

impl BoxedNode {
    /// Builds a node from one level whose children are whole trees.
    pub fn from_frame(val: NodeFrame<BoxedNode>) -> (r: BoxedNode)
        ensures
            r@ == compose(level_of(val, |c: BoxedNode| c@)),
    {
        match val {
            NodeFrame::FunctionParameter(p) => BoxedNode::FunctionParameter(p),
            NodeFrame::NumericConstant(n) => BoxedNode::NumericConstant(n),
            NodeFrame::StringConstant(s) => BoxedNode::StringConstant(s),
            NodeFrame::BooleanConstant(b) => BoxedNode::BooleanConstant(b),
            NodeFrame::BitVec(bv) => BoxedNode::BitVec(bv),
            NodeFrame::BinOp(binop) => BoxedNode::BinOp(
                BinOp {
                    operation: binop.operation,
                    left: Box::new(binop.left),
                    right: Box::new(binop.right),
                },
            ),
            NodeFrame::UnaryOp(unaryop) => BoxedNode::UnaryOp(
                UnaryOp { operation: unaryop.operation, operand: Box::new(unaryop.operand) },
            ),
            NodeFrame::BoolOp(boolop) => BoxedNode::BoolOp(
                BoolOp { operator: boolop.operator, operands: box_all(boolop.operands) },
            ),
            NodeFrame::Compare(compare) => BoxedNode::Compare(
                Compare {
                    left: Box::new(compare.left),
                    operations: compare.operations,
                    comparators: box_all(compare.comparators),
                },
            ),
            NodeFrame::If(if_node) => BoxedNode::If(
                If {
                    condition: Box::new(if_node.condition),
                    success: Box::new(if_node.success),
                    failure: Box::new(if_node.failure),
                },
            ),
        }
    }

    /// Takes the node apart into its top level, the children left whole.
    pub fn into_frame(self) -> (r: NodeFrame<BoxedNode>)
        ensures
            level_of(r, |c: BoxedNode| c@) == decompose(self@),
    {
        match self {
            BoxedNode::FunctionParameter(p) => NodeFrame::FunctionParameter(p),
            BoxedNode::NumericConstant(n) => NodeFrame::NumericConstant(n),
            BoxedNode::StringConstant(s) => NodeFrame::StringConstant(s),
            BoxedNode::BooleanConstant(b) => NodeFrame::BooleanConstant(b),
            BoxedNode::BitVec(bv) => NodeFrame::BitVec(bv),
            BoxedNode::BinOp(binop) => NodeFrame::BinOp(
                BinOp { operation: binop.operation, left: *binop.left, right: *binop.right },
            ),
            BoxedNode::UnaryOp(unaryop) => NodeFrame::UnaryOp(
                UnaryOp { operation: unaryop.operation, operand: *unaryop.operand },
            ),
            BoxedNode::BoolOp(boolop) => NodeFrame::BoolOp(
                BoolOp { operator: boolop.operator, operands: unbox_all(boolop.operands) },
            ),
            BoxedNode::Compare(compare) => NodeFrame::Compare(
                Compare {
                    left: *compare.left,
                    operations: compare.operations,
                    comparators: unbox_all(compare.comparators),
                },
            ),
            BoxedNode::If(if_node) => NodeFrame::If(
                If {
                    condition: *if_node.condition,
                    success: *if_node.success,
                    failure: *if_node.failure,
                },
            ),
        }
    }
}

} // verus!
