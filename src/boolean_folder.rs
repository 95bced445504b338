use vstd::prelude::*;
use crate::boxed_nodes::BoxedNode;
use crate::classical_evaluator::{all_booleans, boolean_fold, fold_boolean_constants};
use crate::node_frame::{BinOp, BitVec, BoolOp, Compare, FunctionParameter, If, Numeric, UnaryOp};
use crate::node_transformer::{
    keep_binary_operation, keep_bitvec, keep_boolean_constant, keep_comparison,
    keep_function_parameter, keep_if, keep_numeric_constant, keep_present, keep_string_constant,
    keep_unary_operation, present, NodeTransformer,
};
use crate::operations::BooleanOperation;
use crate::tree::Tree;

verus! {

/// A pass that only folds boolean operations: absent operands are skipped,
/// operands that are all boolean constants become one constant (an
/// operation left with no operand becomes `true` under `And` and `false`
/// under `Or`), and any other operation is rebuilt over its present
/// operands. Every other node is kept.
pub struct BooleanFolder {}

impl NodeTransformer for BooleanFolder {
    open spec fn rewrite_boolean_operation(
        &self,
        op: BooleanOperation,
        operands: Seq<Option<Tree>>,
    ) -> Option<Tree> {
        let kept = present(operands);
        if all_booleans(kept) {
            Some(Tree::BooleanConstant(boolean_fold(op, kept)))
        } else {
            Some(Tree::BoolOp(op, kept))
        }
    }

    fn transform_function_parameter(&self, parameter: FunctionParameter) -> (r: Option<BoxedNode>) {
        keep_function_parameter(parameter)
    }

    fn transform_numeric_constant(&self, parameter: Numeric) -> (r: Option<BoxedNode>) {
        keep_numeric_constant(parameter)
    }

    fn transform_string_constant(&self, parameter: String) -> (r: Option<BoxedNode>) {
        keep_string_constant(parameter)
    }

    fn transform_boolean_constant(&self, parameter: bool) -> (r: Option<BoxedNode>) {
        keep_boolean_constant(parameter)
    }

    fn transform_bitvec(&self, parameter: BitVec) -> (r: Option<BoxedNode>) {
        keep_bitvec(parameter)
    }

    fn transform_binary_operation(&self, parameter: BinOp<Option<BoxedNode>>) -> (r: Option<
        BoxedNode,
    >) {
        keep_binary_operation(parameter)
    }

    fn transform_unary_operation(&self, parameter: UnaryOp<Option<BoxedNode>>) -> (r: Option<
        BoxedNode,
    >) {
        keep_unary_operation(parameter)
    }

    fn transform_boolean_operation(&self, parameter: BoolOp<Vec<Option<BoxedNode>>>) -> (r: Option<
        BoxedNode,
    >) {
        let operands = keep_present(parameter.operands);
        match fold_boolean_constants(parameter.operator, &operands) {
            Some(state) => Some(BoxedNode::BooleanConstant(state)),
            None => Some(BoxedNode::BoolOp(BoolOp { operator: parameter.operator, operands })),
        }
    }

    fn transform_comparison(
        &self,
        parameter: Compare<Option<BoxedNode>, Vec<Option<BoxedNode>>>,
    ) -> (r: Option<BoxedNode>) {
        keep_comparison(parameter)
    }

    fn transform_if(&self, parameter: If<Option<BoxedNode>>) -> (r: Option<BoxedNode>) {
        keep_if(parameter)
    }
}

} // verus!
