use computation_graph::boolean_folder::BooleanFolder;
use computation_graph::boxed_nodes::BoxedNode;
use computation_graph::classical_evaluator::ClassicalEvaluator;
use computation_graph::node_frame::{BinOp, BoolOp, Compare, FunctionParameter, If, Numeric, UnaryOp};
use computation_graph::node_transformer::{IdentityTransformer, TransformNode};
use computation_graph::operations::{
    BinaryOperation, BooleanOperation, ComparisonOperation, UnaryOperation,
};

fn int_const(n: i32) -> BoxedNode {
    BoxedNode::NumericConstant(Numeric::Int(n))
}

fn boolean(b: bool) -> BoxedNode {
    BoxedNode::BooleanConstant(b)
}

fn param(name: &str) -> BoxedNode {
    BoxedNode::FunctionParameter(FunctionParameter { identifier: name.to_string() })
}

fn bool_op(operator: BooleanOperation, operands: Vec<BoxedNode>) -> BoxedNode {
    BoxedNode::BoolOp(BoolOp { operator, operands: operands.into_iter().map(Box::new).collect() })
}

fn bin_op(operation: BinaryOperation, left: BoxedNode, right: BoxedNode) -> BoxedNode {
    BoxedNode::BinOp(BinOp { operation, left: Box::new(left), right: Box::new(right) })
}

fn unary(operation: UnaryOperation, operand: BoxedNode) -> BoxedNode {
    BoxedNode::UnaryOp(UnaryOp { operation, operand: Box::new(operand) })
}

fn compare(left: BoxedNode, operations: Vec<ComparisonOperation>, comparators: Vec<BoxedNode>) -> BoxedNode {
    BoxedNode::Compare(Compare {
        left: Box::new(left),
        operations,
        comparators: comparators.into_iter().map(Box::new).collect(),
    })
}

fn evaluate(node: BoxedNode) -> Option<BoxedNode> {
    ClassicalEvaluator {}.transform_node(node)
}

fn same(a: BoxedNode, b: BoxedNode) -> bool {
    a.get_structure_key() == b.get_structure_key()
}

fn sample_tree() -> BoxedNode {
    bool_op(BooleanOperation::And, vec![boolean(true), bool_op(BooleanOperation::Or, vec![boolean(false), boolean(true)])])
}

#[test]
fn default_implementation_does_not_mutate_structure() {
    let macro_graph = sample_tree();
    let default_implementor = IdentityTransformer {};
    let result = default_implementor.transform_node(macro_graph);
    assert!(same(result.unwrap(), sample_tree()));
}

#[test]
fn identity_keeps_every_kind() {
    let tree = || {
        BoxedNode::If(If {
            condition: Box::new(compare(param("x"), vec![ComparisonOperation::LessThan], vec![int_const(3)])),
            success: Box::new(bin_op(BinaryOperation::Add, int_const(1), unary(UnaryOperation::UnaryMinus, int_const(2)))),
            failure: Box::new(bool_op(BooleanOperation::Or, vec![BoxedNode::StringConstant("s".to_string()), boolean(false)])),
        })
    };
    let result = IdentityTransformer {}.transform_node(tree()).unwrap();
    assert!(same(result, tree()));
}

#[test]
fn evaluator_adds_integer_constants() {
    let result = evaluate(bin_op(BinaryOperation::Add, int_const(2), int_const(3))).unwrap();
    assert!(matches!(result, BoxedNode::NumericConstant(Numeric::Int(5))));
}

#[test]
fn evaluator_folds_children_before_parent() {
    let tree = bin_op(BinaryOperation::Add, bin_op(BinaryOperation::Multiply, int_const(2), int_const(3)), int_const(4));
    let result = evaluate(tree).unwrap();
    assert!(matches!(result, BoxedNode::NumericConstant(Numeric::Int(10))));
}

#[test]
fn evaluator_keeps_overflowing_addition() {
    let result = evaluate(bin_op(BinaryOperation::Add, int_const(i32::MAX), int_const(1))).unwrap();
    assert!(same(result, bin_op(BinaryOperation::Add, int_const(i32::MAX), int_const(1))));
}

#[test]
fn evaluator_keeps_division_by_zero() {
    let result = evaluate(bin_op(BinaryOperation::Divide, int_const(7), int_const(0))).unwrap();
    assert!(same(result, bin_op(BinaryOperation::Divide, int_const(7), int_const(0))));
}

#[test]
fn evaluator_keeps_operation_on_parameter() {
    let result = evaluate(bin_op(BinaryOperation::Subtract, param("x"), int_const(1))).unwrap();
    assert!(same(result, bin_op(BinaryOperation::Subtract, param("x"), int_const(1))));
}

#[test]
fn evaluator_and_of_true_constants() {
    let result = evaluate(bool_op(BooleanOperation::And, vec![boolean(true), boolean(true)])).unwrap();
    assert!(matches!(result, BoxedNode::BooleanConstant(true)));
}

#[test]
fn evaluator_nested_boolean_operations() {
    let result = evaluate(sample_tree()).unwrap();
    assert!(matches!(result, BoxedNode::BooleanConstant(true)));
}

#[test]
fn evaluator_or_with_parameter_is_rebuilt() {
    let result = evaluate(bool_op(BooleanOperation::Or, vec![boolean(false), param("x")])).unwrap();
    assert!(same(result, bool_op(BooleanOperation::Or, vec![boolean(false), param("x")])));
}

#[test]
fn evaluator_empty_boolean_operation_is_absent() {
    assert!(evaluate(bool_op(BooleanOperation::And, vec![])).is_none());
}

#[test]
fn identity_keeps_empty_boolean_operation() {
    let result = IdentityTransformer {}.transform_node(bool_op(BooleanOperation::And, vec![])).unwrap();
    assert!(same(result, bool_op(BooleanOperation::And, vec![])));
}

#[test]
fn evaluator_drops_absent_operands() {
    // The inner comparison has no comparator, so it evaluates to nothing and
    // is dropped from the outer operation.
    let absent = compare(int_const(1), vec![ComparisonOperation::LessThan], vec![]);
    let result = evaluate(bool_op(BooleanOperation::Or, vec![absent, param("y")])).unwrap();
    assert!(same(result, bool_op(BooleanOperation::Or, vec![param("y")])));
}

#[test]
fn evaluator_chained_less_than_is_true() {
    let tree = compare(int_const(1), vec![ComparisonOperation::LessThan, ComparisonOperation::LessThan], vec![int_const(2), int_const(3)]);
    let result = evaluate(tree).unwrap();
    assert!(matches!(result, BoxedNode::BooleanConstant(true)));
}

#[test]
fn evaluator_less_than_is_false() {
    let tree = compare(int_const(1), vec![ComparisonOperation::LessThan], vec![int_const(0)]);
    let result = evaluate(tree).unwrap();
    assert!(matches!(result, BoxedNode::BooleanConstant(false)));
}

#[test]
fn evaluator_chain_stops_at_first_false_pair() {
    let tree = compare(int_const(5), vec![ComparisonOperation::LessThan, ComparisonOperation::LessThan], vec![int_const(1), param("z")]);
    let result = evaluate(tree).unwrap();
    assert!(matches!(result, BoxedNode::BooleanConstant(false)));
}

#[test]
fn evaluator_comparison_with_parameter_is_rebuilt() {
    let tree = || compare(int_const(1), vec![ComparisonOperation::LessThan], vec![param("z")]);
    let result = evaluate(tree()).unwrap();
    assert!(same(result, tree()));
}

#[test]
fn evaluator_membership_test_is_rebuilt() {
    let tree = || compare(int_const(1), vec![ComparisonOperation::In], vec![int_const(1)]);
    let result = evaluate(tree()).unwrap();
    assert!(same(result, tree()));
}

#[test]
fn evaluator_overlong_comparison_is_absent() {
    let tree = compare(int_const(1), vec![ComparisonOperation::LessThan, ComparisonOperation::LessThan], vec![int_const(2)]);
    assert!(evaluate(tree).is_none());
}

#[test]
fn evaluator_comparison_without_operators_is_absent() {
    let tree = compare(int_const(1), vec![], vec![int_const(2)]);
    assert!(evaluate(tree).is_none());
}

#[test]
fn evaluator_negates_and_complements_integers() {
    let minus = evaluate(unary(UnaryOperation::UnaryMinus, int_const(5))).unwrap();
    assert!(matches!(minus, BoxedNode::NumericConstant(Numeric::Int(-5))));
    let not = evaluate(unary(UnaryOperation::Not, int_const(0))).unwrap();
    assert!(matches!(not, BoxedNode::NumericConstant(Numeric::Int(-1))));
}

#[test]
fn evaluator_keeps_overflowing_negation() {
    let result = evaluate(unary(UnaryOperation::UnaryMinus, int_const(i32::MIN))).unwrap();
    assert!(same(result, unary(UnaryOperation::UnaryMinus, int_const(i32::MIN))));
}

#[test]
fn evaluator_complements_boolean() {
    let result = evaluate(unary(UnaryOperation::Not, boolean(true))).unwrap();
    assert!(matches!(result, BoxedNode::BooleanConstant(false)));
}

#[test]
fn if_with_absent_branch_is_absent() {
    let tree = BoxedNode::If(If {
        condition: Box::new(boolean(true)),
        success: Box::new(bool_op(BooleanOperation::And, vec![])),
        failure: Box::new(int_const(1)),
    });
    assert!(evaluate(tree).is_none());
}

#[test]
fn folder_combines_nested_constants() {
    let tree = bool_op(
        BooleanOperation::And,
        vec![boolean(true), bool_op(BooleanOperation::Or, vec![boolean(false), boolean(false)])],
    );
    let result = BooleanFolder {}.transform_node(tree).unwrap();
    assert!(matches!(result, BoxedNode::BooleanConstant(false)));
}

#[test]
fn folder_turns_empty_operation_into_identity_constant() {
    let and = BooleanFolder {}.transform_node(bool_op(BooleanOperation::And, vec![])).unwrap();
    assert!(matches!(and, BoxedNode::BooleanConstant(true)));
    let or = BooleanFolder {}.transform_node(bool_op(BooleanOperation::Or, vec![])).unwrap();
    assert!(matches!(or, BoxedNode::BooleanConstant(false)));
}

#[test]
fn folder_rebuilds_operation_with_parameter() {
    let tree = || bool_op(BooleanOperation::Or, vec![boolean(false), param("x")]);
    let result = BooleanFolder {}.transform_node(tree()).unwrap();
    assert!(same(result, tree()));
}

#[test]
fn folder_keeps_arithmetic() {
    let tree = || bin_op(BinaryOperation::Add, int_const(2), int_const(3));
    let result = BooleanFolder {}.transform_node(tree()).unwrap();
    assert!(same(result, tree()));
}
