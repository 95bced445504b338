use vstd::prelude::*;
use crate::boxed_nodes::{BoxedNode, lemma_trees_of, tree_of, trees_of};
use crate::node_frame::{BinOp, BitVec, BoolOp, Compare, FunctionParameter, If, Numeric, UnaryOp};
use crate::node_transformer::{
    keep_bitvec, keep_boolean_constant, keep_function_parameter, keep_if, keep_numeric_constant,
    keep_present, keep_string_constant, lemma_transformed_all, present, transformed, transformed_all,
    accepted, accepted_all, view_opt, views_opt, NodeTransformer,
};
use crate::operations::{
    binary_value, boolean_value, comparison_value, unary_value, BinaryOperation, BooleanOperation,
    ComparisonOperation, UnaryOperation,
};
use crate::tree::Tree;

verus! {

/// The integer held by an integer constant.
pub open spec fn int_of(t: Tree) -> Option<i32> {
    match t {
        Tree::NumericConstant(Numeric::Int(n)) => Some(n),
        _ => None,
    }
}

/// Every tree of `s` is a boolean constant.
pub open spec fn all_booleans(s: Seq<Tree>) -> bool {
    forall|i: int| 0 <= i < s.len() ==> #[trigger] s[i] is BooleanConstant
}

/// The boolean constants of `s` combined left to right under `op`, starting
/// from `true` for `And` and `false` for `Or`.
pub open spec fn boolean_fold(op: BooleanOperation, s: Seq<Tree>) -> bool
    decreases s.len(),
{
    if s.len() == 0 {
        op == BooleanOperation::And
    } else {
        boolean_value(
            op,
            boolean_fold(op, s.subrange(0, s.len() - 1)),
            s[s.len() - 1]->BooleanConstant_0,
        )
    }
}

/// The chained comparison `left ops[0] cs[0] ops[1] cs[1] ...` from pair `i`
/// on: `Some(false)` at the first pair of integers that compares false,
/// `Some(true)` once every pair has compared true, and `None` where a pair
/// is reached whose values are not both integers or whose operator has no
/// integer meaning.
pub open spec fn chain_from(left: Tree, ops: Seq<ComparisonOperation>, cs: Seq<Tree>, i: int) -> Option<
    bool,
>
    decreases ops.len() - i,
{
    if i < 0 || i >= ops.len() {
        Some(true)
    } else {
        let p = if i == 0 {
            left
        } else {
            cs[i - 1]
        };
        match (int_of(p), int_of(cs[i])) {
            (Some(a), Some(b)) => match comparison_value(ops[i], a, b) {
                Some(true) => chain_from(left, ops, cs, i + 1),
                Some(false) => Some(false),
                None => None,
            },
            _ => None,
        }
    }
}

/// Combines the operands under `op` from left to right, starting from
/// `true` for `And` and `false` for `Or`, when every operand is a boolean
/// constant; `None` as soon as one is not.
pub fn fold_boolean_constants(op: BooleanOperation, operands: &Vec<Box<BoxedNode>>) -> (r: Option<bool>)
    ensures
        r == (if all_booleans(trees_of(operands@)) {
            Some(boolean_fold(op, trees_of(operands@)))
        } else {
            None
        }),
{
    let ghost kept = trees_of(operands@);
    proof {
        lemma_trees_of(operands@);
    }
    let mut value: bool = match op {
        BooleanOperation::And => true,
        BooleanOperation::Or => false,
    };
    let mut i: usize = 0;
    while i < operands.len()
        invariant
            i <= operands.len(),
            kept == trees_of(operands@),
            kept.len() == operands.len(),
            forall|j: int| 0 <= j < kept.len() ==> #[trigger] kept[j] == tree_of(*operands@[j]),
            all_booleans(kept.subrange(0, i as int)),
            value == boolean_fold(op, kept.subrange(0, i as int)),
        decreases operands.len() - i,
    {
        if let BoxedNode::BooleanConstant(b) = &*operands[i] {
            proof {
                let s = kept.subrange(0, i + 1);
                assert(s.subrange(0, s.len() - 1) =~= kept.subrange(0, i as int));
            }
            value = op.perform(value, *b);
            i += 1;
        } else {
            proof {
                assert(kept[i as int] == tree_of(*operands@[i as int]));
                assert(!(kept[i as int] is BooleanConstant));
            }
            return None;
        }
    }
    proof {
        assert(kept.subrange(0, i as int) =~= kept);
    }
    Some(value)
}

/// A pass that folds operations on constants into constants.
pub struct ClassicalEvaluator {}

impl NodeTransformer for ClassicalEvaluator {
    /// Two integer constants become the integer result where it is defined;
    /// otherwise the operation is rebuilt over its operands.
    open spec fn rewrite_binary_operation(
        &self,
        op: BinaryOperation,
        left: Option<Tree>,
        right: Option<Tree>,
    ) -> Option<Tree> {
        match (left, right) {
            (Some(l), Some(r)) => match (int_of(l), int_of(r)) {
                (Some(a), Some(b)) => match binary_value(op, a, b) {
                    Some(v) => Some(Tree::NumericConstant(Numeric::Int(v))),
                    None => Some(Tree::BinOp(op, Box::new(l), Box::new(r))),
                },
                _ => Some(Tree::BinOp(op, Box::new(l), Box::new(r))),
            },
            _ => None,
        }
    }

    /// An integer constant becomes its integer result where it is defined; a
    /// boolean constant is complemented; anything else is rebuilt.
    open spec fn rewrite_unary_operation(&self, op: UnaryOperation, operand: Option<Tree>) -> Option<
        Tree,
    > {
        match operand {
            Some(x) => match x {
                Tree::NumericConstant(Numeric::Int(n)) => match unary_value(op, n) {
                    Some(v) => Some(Tree::NumericConstant(Numeric::Int(v))),
                    None => Some(Tree::UnaryOp(op, Box::new(x))),
                },
                Tree::BooleanConstant(b) => Some(Tree::BooleanConstant(!b)),
                _ => Some(Tree::UnaryOp(op, Box::new(x))),
            },
            None => None,
        }
    }

    /// Negating a boolean makes no sense: the pass is not defined there.
    open spec fn accepts_unary_operation(&self, op: UnaryOperation, operand: Option<Tree>) -> bool {
        !(op == UnaryOperation::UnaryMinus && operand matches Some(Tree::BooleanConstant(_)))
    }

    /// Absent operands are dropped; no operand left gives nothing; operands
    /// that are all boolean constants are combined into one; otherwise the
    /// operation is rebuilt over the present operands, in order.
    open spec fn rewrite_boolean_operation(
        &self,
        op: BooleanOperation,
        operands: Seq<Option<Tree>>,
    ) -> Option<Tree> {
        let kept = present(operands);
        if kept.len() == 0 {
            None
        } else if all_booleans(kept) {
            Some(Tree::BooleanConstant(boolean_fold(op, kept)))
        } else {
            Some(Tree::BoolOp(op, kept))
        }
    }

    /// Absent comparators are dropped. A missing left side, no operator, no
    /// comparator, or more operators than comparators gives nothing. A chain
    /// of integers that can be decided becomes a boolean constant; otherwise
    /// the comparison is rebuilt.
    open spec fn rewrite_comparison(
        &self,
        left: Option<Tree>,
        ops: Seq<ComparisonOperation>,
        comparators: Seq<Option<Tree>>,
    ) -> Option<Tree> {
        let kept = present(comparators);
        match left {
            Some(l) => if ops.len() > kept.len() || kept.len() == 0 || ops.len() == 0 {
                None
            } else {
                match chain_from(l, ops, kept, 0) {
                    Some(b) => Some(Tree::BooleanConstant(b)),
                    None => Some(Tree::Compare(Box::new(l), ops, kept)),
                }
            },
            None => None,
        }
    }

    fn transform_function_parameter(&self, parameter: FunctionParameter) -> (r: Option<BoxedNode>) {
        keep_function_parameter(parameter)
    }

    fn transform_numeric_constant(&self, parameter: Numeric) -> (r: Option<BoxedNode>) {
        keep_numeric_constant(parameter)
    }

    fn transform_string_constant(&self, parameter: String) -> (r: Option<BoxedNode>) {
        keep_string_constant(parameter)
    }

    fn transform_boolean_constant(&self, parameter: bool) -> (r: Option<BoxedNode>) {
        keep_boolean_constant(parameter)
    }

    fn transform_bitvec(&self, parameter: BitVec) -> (r: Option<BoxedNode>) {
        keep_bitvec(parameter)
    }

    fn transform_binary_operation(&self, parameter: BinOp<Option<BoxedNode>>) -> (r: Option<
        BoxedNode,
    >) {
        let left = match parameter.left {
            Some(l) => l,
            None => return None,
        };
        let right = match parameter.right {
            Some(r) => r,
            None => return None,
        };
        if let (BoxedNode::NumericConstant(Numeric::Int(a)), BoxedNode::NumericConstant(Numeric::Int(b))) = (&left, &right) {
            if let Some(value) = parameter.operation.perform(*a, *b) {
                return Some(BoxedNode::NumericConstant(Numeric::Int(value)));
            }
        }
        Some(
            BoxedNode::BinOp(
                BinOp { operation: parameter.operation, left: Box::new(left), right: Box::new(right) },
            ),
        )
    }

    fn transform_unary_operation(&self, parameter: UnaryOp<Option<BoxedNode>>) -> (r: Option<
        BoxedNode,
    >) {
        let operand = match parameter.operand {
            Some(x) => x,
            None => return None,
        };
        match &operand {
            BoxedNode::NumericConstant(Numeric::Int(n)) => {
                if let Some(value) = parameter.operation.perform(*n) {
                    return Some(BoxedNode::NumericConstant(Numeric::Int(value)));
                }
            },
            BoxedNode::BooleanConstant(b) => {
                return Some(BoxedNode::BooleanConstant(!*b));
            },
            _ => {},
        }
        Some(
            BoxedNode::UnaryOp(UnaryOp { operation: parameter.operation, operand: Box::new(operand) }),
        )
    }

    fn transform_boolean_operation(&self, parameter: BoolOp<Vec<Option<BoxedNode>>>) -> (r: Option<
        BoxedNode,
    >) {
        let filtered_operands = keep_present(parameter.operands);
        if filtered_operands.len() == 0 {
            return None;
        }
        match fold_boolean_constants(parameter.operator, &filtered_operands) {
            Some(value) => Some(BoxedNode::BooleanConstant(value)),
            None => Some(
                BoxedNode::BoolOp(BoolOp { operator: parameter.operator, operands: filtered_operands }),
            ),
        }
    }

    fn transform_comparison(
        &self,
        parameter: Compare<Option<BoxedNode>, Vec<Option<BoxedNode>>>,
    ) -> (r: Option<BoxedNode>) {
        let left = match parameter.left {
            Some(l) => l,
            None => return None,
        };
        let filtered_comparators = keep_present(parameter.comparators);
        let ghost kept = trees_of(filtered_comparators@);
        proof {
            lemma_trees_of(filtered_comparators@);
        }
        let ops = parameter.operations;
        if ops.len() > filtered_comparators.len() {
            return None;
        }
        if filtered_comparators.len() == 0 || ops.len() == 0 {
            return None;
        }
        let mut decided: Option<bool> = None;
        if let BoxedNode::NumericConstant(Numeric::Int(first)) = &left {
            let mut prev: i32 = *first;
            let mut i: usize = 0;
            let mut done = false;
            decided = Some(true);
            while !done && i < ops.len()
                invariant
                    0 < ops.len() <= filtered_comparators.len(),
                    i <= ops.len(),
                    kept == trees_of(filtered_comparators@),
                    kept.len() == filtered_comparators.len(),
                    forall|j: int|
                        0 <= j < kept.len() ==> #[trigger] kept[j] == tree_of(
                            *filtered_comparators@[j],
                        ),
                    done ==> chain_from(left@, ops@, kept, 0) == decided,
                    !done ==> decided == Some(true),
                    !done ==> int_of(
                        if i == 0 {
                            left@
                        } else {
                            kept[i - 1]
                        },
                    ) == Some(prev),
                    !done ==> chain_from(left@, ops@, kept, 0) == chain_from(
                        left@,
                        ops@,
                        kept,
                        i as int,
                    ),
                decreases ops.len() - i + (if done {
                    0int
                } else {
                    1int
                }),
            {
                match &*filtered_comparators[i] {
                    BoxedNode::NumericConstant(Numeric::Int(cur)) => {
                        match ops[i].perform(prev, *cur) {
                            Some(true) => {
                                prev = *cur;
                                i += 1;
                            },
                            Some(false) => {
                                decided = Some(false);
                                done = true;
                            },
                            None => {
                                decided = None;
                                done = true;
                            },
                        }
                    },
                    _ => {
                        decided = None;
                        done = true;
                    },
                }
            }
        }
        match decided {
            Some(b) => Some(BoxedNode::BooleanConstant(b)),
            None => Some(
                BoxedNode::Compare(
                    Compare {
                        left: Box::new(left),
                        operations: ops,
                        comparators: filtered_comparators,
                    },
                ),
            ),
        }
    }

    fn transform_if(&self, parameter: If<Option<BoxedNode>>) -> (r: Option<BoxedNode>) {
        keep_if(parameter)
    }
}

/// Dropping absent items never lengthens a list.
proof fn lemma_present_len(s: Seq<Option<Tree>>)
    ensures
        present(s).len() <= s.len(),
    decreases s.len(),
{
    if s.len() > 0 {
        lemma_present_len(s.subrange(0, s.len() - 1));
    }
}

/// A comparison with more operators than comparators evaluates to nothing,
/// and the evaluator is defined on it wherever it is defined on its parts.
pub proof fn lemma_overlong_comparison_is_absent(left: Tree, ops: Seq<ComparisonOperation>, comparators: Seq<Tree>)
    requires
        ops.len() > comparators.len(),
    ensures
        accepted(ClassicalEvaluator {}, left) && accepted_all(ClassicalEvaluator {}, comparators)
            ==> accepted(ClassicalEvaluator {}, Tree::Compare(Box::new(left), ops, comparators)),
        transformed(ClassicalEvaluator {}, Tree::Compare(Box::new(left), ops, comparators)) is None,
{
    let x = ClassicalEvaluator {};
    lemma_transformed_all(x, comparators);
    lemma_present_len(transformed_all(x, comparators));
}

} // verus!
