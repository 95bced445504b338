use computation_graph::boxed_nodes::BoxedNode;
use computation_graph::computing::ComputingDomain;
use computation_graph::node_frame::{BinOp, BitVec, BoolOp, FunctionParameter, NodeFrame, Numeric};
use computation_graph::operations::{
    BinaryOperation, BooleanOperation, ComparisonOperation, UnaryOperation,
};
use computation_graph::structure_key::{StructuralIdentifier, StructureKey};

fn int_const(n: i32) -> BoxedNode {
    BoxedNode::NumericConstant(Numeric::Int(n))
}

fn param(name: &str) -> BoxedNode {
    BoxedNode::FunctionParameter(FunctionParameter { identifier: name.to_string() })
}

fn bin_op(operation: BinaryOperation, left: BoxedNode, right: BoxedNode) -> BoxedNode {
    BoxedNode::BinOp(BinOp { operation, left: Box::new(left), right: Box::new(right) })
}

#[test]
fn equal_trees_have_equal_keys() {
    let a = bin_op(BinaryOperation::Add, int_const(1), param("x")).get_structure_key();
    let b = bin_op(BinaryOperation::Add, int_const(1), param("x")).get_structure_key();
    assert_eq!(a, b);
}

#[test]
fn changing_operator_changes_key() {
    let a = bin_op(BinaryOperation::Add, int_const(1), int_const(2)).get_structure_key();
    let b = bin_op(BinaryOperation::Subtract, int_const(1), int_const(2)).get_structure_key();
    assert_ne!(a, b);
}

#[test]
fn changing_literal_changes_key() {
    let a = bin_op(BinaryOperation::Add, int_const(1), int_const(2)).get_structure_key();
    let b = bin_op(BinaryOperation::Add, int_const(1), int_const(3)).get_structure_key();
    assert_ne!(a, b);
}

#[test]
fn swapping_operands_changes_key() {
    let a = bin_op(BinaryOperation::Add, int_const(1), int_const(2)).get_structure_key();
    let b = bin_op(BinaryOperation::Add, int_const(2), int_const(1)).get_structure_key();
    assert_ne!(a, b);
}

#[test]
fn parameter_names_are_compared_exactly() {
    assert_ne!(param("x").get_structure_key(), param("y").get_structure_key());
}

#[test]
fn double_literals_compare_by_bits() {
    let a = BoxedNode::NumericConstant(Numeric::Double(1.5f64.to_bits())).get_structure_key();
    let b = BoxedNode::NumericConstant(Numeric::Double(2.5f64.to_bits())).get_structure_key();
    assert_ne!(a, b);
}

#[test]
fn key_of_binary_operation_groups_children() {
    let key = bin_op(BinaryOperation::Add, int_const(1), int_const(2)).get_structure_key();
    assert_eq!(key.contents.len(), 2);
    assert!(matches!(key.contents[0], StructuralIdentifier::BinOp(BinaryOperation::Add)));
    match &key.contents[1] {
        StructuralIdentifier::Group(children) => {
            assert_eq!(children.len(), 2);
            match &children[1] {
                StructuralIdentifier::Group(right) => {
                    assert!(matches!(right[0], StructuralIdentifier::NumericConstant(Numeric::Int(2))));
                }
                _ => panic!("expected a group"),
            }
        }
        _ => panic!("expected a group"),
    }
}

#[test]
fn key_step_builds_leaf_token() {
    let key = StructureKey::from_frame(NodeFrame::BooleanConstant(true));
    assert_eq!(key.contents.len(), 1);
    assert!(matches!(key.contents[0], StructuralIdentifier::BooleanConstant(true)));
}

#[test]
fn combine_laws_on_values() {
    let (classical, quantum, conflict, unknown) = (
        ComputingDomain::Classical,
        ComputingDomain::Quantum,
        ComputingDomain::Conflict,
        ComputingDomain::Unknown,
    );
    let all = [classical, quantum, conflict, unknown];
    for a in all {
        assert_eq!(unknown.compare(&a), a);
        assert_eq!(conflict.compare(&a), conflict);
        for b in all {
            assert_eq!(a.compare(&b), b.compare(&a));
            for c in all {
                assert_eq!(a.compare(&b).compare(&c), a.compare(&b.compare(&c)));
            }
        }
    }
    assert_eq!(classical.compare(&quantum), conflict);
    assert_eq!(classical.compare(&classical), classical);
}

#[test]
fn domain_of_mixed_tree_is_conflict() {
    assert_eq!(bin_op(BinaryOperation::Add, int_const(1), param("q")).get_domain(), ComputingDomain::Conflict);
    assert_eq!(bin_op(BinaryOperation::Add, int_const(1), int_const(2)).get_domain(), ComputingDomain::Classical);
    let bits = BoxedNode::BitVec(BitVec { length: 2, bit_string: "01".to_string() });
    assert_eq!(bits.get_domain(), ComputingDomain::Quantum);
}

#[test]
fn domain_of_empty_list_is_unknown() {
    let empty = BoxedNode::BoolOp(BoolOp { operator: BooleanOperation::And, operands: vec![] });
    assert_eq!(empty.get_domain(), ComputingDomain::Unknown);
}

#[test]
fn frame_domain_joins_children() {
    let frame: NodeFrame<ComputingDomain> = NodeFrame::BoolOp(BoolOp {
        operator: BooleanOperation::Or,
        operands: vec![ComputingDomain::Unknown, ComputingDomain::Quantum, ComputingDomain::Quantum],
    });
    assert_eq!(frame.get_domain(), ComputingDomain::Quantum);
}

#[test]
fn map_replaces_children_in_order() {
    let frame: NodeFrame<i32> = NodeFrame::BoolOp(BoolOp { operator: BooleanOperation::And, operands: vec![1, 2, 3] });
    match frame.map(|x: i32| x as i64 * 10) {
        NodeFrame::BoolOp(b) => {
            assert_eq!(b.operator, BooleanOperation::And);
            assert_eq!(b.operands, vec![10i64, 20, 30]);
        }
        _ => panic!("kind changed"),
    }
}

#[test]
fn frame_round_trip_keeps_tree() {
    let tree = bin_op(BinaryOperation::Multiply, int_const(4), param("x"));
    let frame = tree.into_frame();
    let rebuilt = BoxedNode::from_frame(frame);
    assert_eq!(rebuilt.get_structure_key(), bin_op(BinaryOperation::Multiply, int_const(4), param("x")).get_structure_key());
}

#[test]
fn binary_perform_values() {
    assert_eq!(BinaryOperation::Add.perform(2, 3), Some(5));
    assert_eq!(BinaryOperation::Divide.perform(-7, 2), Some(-3));
    assert_eq!(BinaryOperation::Divide.perform(i32::MIN, -1), None);
    assert_eq!(BinaryOperation::BitwiseLeftShift.perform(1, 4), Some(16));
    assert_eq!(BinaryOperation::BitwiseRightShift.perform(-16, 2), Some(-4));
    assert_eq!(BinaryOperation::BitwiseLeftShift.perform(1, 32), None);
    assert_eq!(BinaryOperation::BitwiseXor.perform(6, 3), Some(5));
    assert_eq!(BinaryOperation::Multiply.perform(65536, 65536), None);
}

#[test]
fn other_perform_values() {
    assert!(!BooleanOperation::And.perform(true, false));
    assert!(BooleanOperation::Or.perform(true, false));
    assert_eq!(UnaryOperation::Invert.perform(5), Some(-6));
    assert_eq!(UnaryOperation::UnaryMinus.perform(i32::MIN), None);
    assert_eq!(ComparisonOperation::GreaterThanOrEqual.perform(3, 3), Some(true));
    assert_eq!(ComparisonOperation::NotEqual.perform(3, 3), Some(false));
    assert_eq!(ComparisonOperation::Is.perform(3, 3), None);
}
