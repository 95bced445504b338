use vstd::prelude::*;
use crate::boxed_nodes::{BoxedNode, lemma_trees_of, tree_of, trees_of};
use crate::node_frame::{BinOp, BitVec, BoolOp, Compare, FunctionParameter, If, Numeric, UnaryOp};
use crate::operations::{BinaryOperation, BooleanOperation, ComparisonOperation, UnaryOperation};
use crate::structure_key::key;
use crate::tree::Tree;

verus! {

/// The tree of a node that may be absent.
pub open spec fn view_opt(o: Option<BoxedNode>) -> Option<Tree> {
    match o {
        Some(n) => Some(n@),
        None => None,
    }
}

/// The trees of a list of possibly absent nodes.
pub open spec fn views_opt(s: Seq<Option<BoxedNode>>) -> Seq<Option<Tree>> {
    s.map_values(|o: Option<BoxedNode>| view_opt(o))
}

/// The present items of `s`, in order.
pub open spec fn present(s: Seq<Option<Tree>>) -> Seq<Tree>
    decreases s.len(),
{
    if s.len() == 0 {
        Seq::empty()
    } else {
        let rest = present(s.subrange(0, s.len() - 1));
        match s[s.len() - 1] {
            Some(t) => rest.push(t),
            None => rest,
        }
    }
}

/// A rewrite pass over expression trees, run bottom-up: each method gets a
/// node whose children the pass has already rewritten (each present or
/// absent) and returns the node's replacement, or nothing.
///
/// Each `rewrite_*` spec function states what its method returns; their
/// default bodies describe the identity pass, which rebuilds each node and
/// only propagates absence (a list-bearing node drops its absent items).
pub trait NodeTransformer: Sized {
    open spec fn rewrite_function_parameter(&self, identifier: Seq<char>) -> Option<Tree> {
        Some(Tree::FunctionParameter(identifier))
    }

    open spec fn rewrite_numeric_constant(&self, n: Numeric) -> Option<Tree> {
        Some(Tree::NumericConstant(n))
    }

    open spec fn rewrite_string_constant(&self, s: Seq<char>) -> Option<Tree> {
        Some(Tree::StringConstant(s))
    }

    open spec fn rewrite_boolean_constant(&self, b: bool) -> Option<Tree> {
        Some(Tree::BooleanConstant(b))
    }

    open spec fn rewrite_bitvec(&self, length: usize, bits: Seq<char>) -> Option<Tree> {
        Some(Tree::BitVec(length, bits))
    }

    open spec fn rewrite_binary_operation(
        &self,
        op: BinaryOperation,
        left: Option<Tree>,
        right: Option<Tree>,
    ) -> Option<Tree> {
        default_binary(op, left, right)
    }

    open spec fn rewrite_unary_operation(&self, op: UnaryOperation, operand: Option<Tree>) -> Option<
        Tree,
    > {
        default_unary(op, operand)
    }

    /// Whether the pass is defined on this unary node; the identity pass is
    /// defined everywhere.
    open spec fn accepts_unary_operation(&self, op: UnaryOperation, operand: Option<Tree>) -> bool {
        true
    }

    open spec fn rewrite_boolean_operation(
        &self,
        op: BooleanOperation,
        operands: Seq<Option<Tree>>,
    ) -> Option<Tree> {
        default_boolean(op, operands)
    }

    open spec fn rewrite_comparison(
        &self,
        left: Option<Tree>,
        ops: Seq<ComparisonOperation>,
        comparators: Seq<Option<Tree>>,
    ) -> Option<Tree> {
        default_comparison(left, ops, comparators)
    }

    open spec fn rewrite_if(
        &self,
        condition: Option<Tree>,
        success: Option<Tree>,
        failure: Option<Tree>,
    ) -> Option<Tree> {
        default_if(condition, success, failure)
    }

    fn transform_function_parameter(&self, parameter: FunctionParameter) -> (r: Option<BoxedNode>)
        ensures
            view_opt(r) == self.rewrite_function_parameter(parameter.identifier@),
    ;

    fn transform_numeric_constant(&self, parameter: Numeric) -> (r: Option<BoxedNode>)
        ensures
            view_opt(r) == self.rewrite_numeric_constant(parameter),
    ;

    fn transform_string_constant(&self, parameter: String) -> (r: Option<BoxedNode>)
        ensures
            view_opt(r) == self.rewrite_string_constant(parameter@),
    ;

    fn transform_boolean_constant(&self, parameter: bool) -> (r: Option<BoxedNode>)
        ensures
            view_opt(r) == self.rewrite_boolean_constant(parameter),
    ;

    fn transform_bitvec(&self, parameter: BitVec) -> (r: Option<BoxedNode>)
        ensures
            view_opt(r) == self.rewrite_bitvec(parameter.length, parameter.bit_string@),
    ;

    fn transform_binary_operation(&self, parameter: BinOp<Option<BoxedNode>>) -> (r: Option<
        BoxedNode,
    >)
        ensures
            view_opt(r) == self.rewrite_binary_operation(
                parameter.operation,
                view_opt(parameter.left),
                view_opt(parameter.right),
            ),
    ;

    fn transform_unary_operation(&self, parameter: UnaryOp<Option<BoxedNode>>) -> (r: Option<
        BoxedNode,
    >)
        requires
            self.accepts_unary_operation(parameter.operation, view_opt(parameter.operand)),
        ensures
            view_opt(r) == self.rewrite_unary_operation(
                parameter.operation,
                view_opt(parameter.operand),
            ),
    ;

    fn transform_boolean_operation(&self, parameter: BoolOp<Vec<Option<BoxedNode>>>) -> (r: Option<
        BoxedNode,
    >)
        ensures
            view_opt(r) == self.rewrite_boolean_operation(
                parameter.operator,
                views_opt(parameter.operands@),
            ),
    ;

    fn transform_comparison(
        &self,
        parameter: Compare<Option<BoxedNode>, Vec<Option<BoxedNode>>>,
    ) -> (r: Option<BoxedNode>)
        ensures
            view_opt(r) == self.rewrite_comparison(
                view_opt(parameter.left),
                parameter.operations@,
                views_opt(parameter.comparators@),
            ),
    ;

    fn transform_if(&self, parameter: If<Option<BoxedNode>>) -> (r: Option<BoxedNode>)
        ensures
            view_opt(r) == self.rewrite_if(
                view_opt(parameter.condition),
                view_opt(parameter.success),
                view_opt(parameter.failure),
            ),
    ;
}

pub open spec fn default_binary(op: BinaryOperation, left: Option<Tree>, right: Option<Tree>) -> Option<Tree> {
    match (left, right) {
        (Some(l), Some(r)) => Some(Tree::BinOp(op, Box::new(l), Box::new(r))),
        _ => None,
    }
}

pub open spec fn default_unary(op: UnaryOperation, operand: Option<Tree>) -> Option<Tree> {
    match operand {
        Some(x) => Some(Tree::UnaryOp(op, Box::new(x))),
        None => None,
    }
}

pub open spec fn default_boolean(op: BooleanOperation, operands: Seq<Option<Tree>>) -> Option<Tree> {
    Some(Tree::BoolOp(op, present(operands)))
}

pub open spec fn default_comparison(
    left: Option<Tree>,
    ops: Seq<ComparisonOperation>,
    comparators: Seq<Option<Tree>>,
) -> Option<Tree> {
    match left {
        Some(l) => Some(Tree::Compare(Box::new(l), ops, present(comparators))),
        None => None,
    }
}

pub open spec fn default_if(
    condition: Option<Tree>,
    success: Option<Tree>,
    failure: Option<Tree>,
) -> Option<Tree> {
    match (condition, success, failure) {
        (Some(c), Some(s), Some(f)) => Some(Tree::If(Box::new(c), Box::new(s), Box::new(f))),
        _ => None,
    }
}

/// What pass `x` makes of tree `t`: each child is rewritten first, then the
/// node's own rewrite runs on the results.
pub open spec fn transformed<X: NodeTransformer>(x: X, t: Tree) -> Option<Tree>
    decreases t,
{
    match t {
        Tree::FunctionParameter(s) => x.rewrite_function_parameter(s),
        Tree::NumericConstant(n) => x.rewrite_numeric_constant(n),
        Tree::StringConstant(s) => x.rewrite_string_constant(s),
        Tree::BooleanConstant(b) => x.rewrite_boolean_constant(b),
        Tree::BitVec(n, s) => x.rewrite_bitvec(n, s),
        Tree::BinOp(op, a, b) => x.rewrite_binary_operation(
            op,
            transformed(x, *a),
            transformed(x, *b),
        ),
        Tree::UnaryOp(op, a) => x.rewrite_unary_operation(op, transformed(x, *a)),
        Tree::BoolOp(op, xs) => x.rewrite_boolean_operation(op, transformed_all(x, xs)),
        Tree::Compare(a, ops, xs) => x.rewrite_comparison(
            transformed(x, *a),
            ops,
            transformed_all(x, xs),
        ),
        Tree::If(a, b, c) => x.rewrite_if(transformed(x, *a), transformed(x, *b), transformed(x, *c)),
    }
}

/// What pass `x` makes of each tree of `xs`, in order.
pub open spec fn transformed_all<X: NodeTransformer>(x: X, xs: Seq<Tree>) -> Seq<Option<Tree>>
    decreases xs,
{
    if xs.len() == 0 {
        Seq::empty()
    } else {
        transformed_all(x, xs.subrange(0, xs.len() - 1)).push(transformed(x, xs[xs.len() - 1]))
    }
}

/// Whether pass `x` is defined on every node of `t`, given what it makes of
/// the node's children.
pub open spec fn accepted<X: NodeTransformer>(x: X, t: Tree) -> bool
    decreases t,
{
    match t {
        Tree::BinOp(op, a, b) => accepted(x, *a) && accepted(x, *b),
        Tree::UnaryOp(op, a) => accepted(x, *a) && x.accepts_unary_operation(op, transformed(x, *a)),
        Tree::BoolOp(op, xs) => accepted_all(x, xs),
        Tree::Compare(a, ops, xs) => accepted(x, *a) && accepted_all(x, xs),
        Tree::If(a, b, c) => accepted(x, *a) && accepted(x, *b) && accepted(x, *c),
        _ => true,
    }
}

pub open spec fn accepted_all<X: NodeTransformer>(x: X, xs: Seq<Tree>) -> bool
    decreases xs,
{
    if xs.len() == 0 {
        true
    } else {
        accepted_all(x, xs.subrange(0, xs.len() - 1)) && accepted(x, xs[xs.len() - 1])
    }
}

pub proof fn lemma_transformed_all<X: NodeTransformer>(x: X, xs: Seq<Tree>)
    ensures
        transformed_all(x, xs).len() == xs.len(),
        forall|i: int| 0 <= i < xs.len() ==> #[trigger] transformed_all(x, xs)[i] == transformed(x, xs[i]),
        accepted_all(x, xs) <==> forall|i: int| 0 <= i < xs.len() ==> #[trigger] accepted(x, xs[i]),
    decreases xs.len(),
{
    if xs.len() > 0 {
        let p = xs.subrange(0, xs.len() - 1);
        lemma_transformed_all(x, p);
        assert forall|i: int| 0 <= i < p.len() implies #[trigger] p[i] == xs[i] by {}
        if accepted_all(x, xs) {
            assert forall|i: int| 0 <= i < xs.len() implies #[trigger] accepted(x, xs[i]) by {
                if i < p.len() {
                    assert(accepted(x, p[i]));
                }
            }
        }
        if forall|i: int| 0 <= i < xs.len() ==> #[trigger] accepted(x, xs[i]) {
            assert forall|i: int| 0 <= i < p.len() implies #[trigger] accepted(x, p[i]) by {
                assert(accepted(x, xs[i]));
            }
            assert(accepted(x, xs[xs.len() - 1]));
        }
    }
}

/// Runs `x` over each child of `v`, in order.
fn visit_all<X: NodeTransformer>(x: &X, v: Vec<Box<BoxedNode>>, Ghost(parent): Ghost<BoxedNode>) -> (r: Vec<
    Option<BoxedNode>,
>)
    requires
        parent is BoolOp ==> v == parent->BoolOp_0.operands,
        parent is Compare ==> v == parent->Compare_0.comparators,
        parent is BoolOp || parent is Compare,
        accepted_all(*x, trees_of(v@)),
    ensures
        views_opt(r@) == transformed_all(*x, trees_of(v@)),
    decreases parent, 0nat,
{
    let ghost orig = v@;
    proof {
        lemma_trees_of(orig);
        lemma_transformed_all(*x, trees_of(orig));
    }
    let mut v = v;
    let mut r: Vec<Option<BoxedNode>> = Vec::new();
    while v.len() > 0
        invariant
            parent is BoolOp ==> orig == parent->BoolOp_0.operands@,
            parent is Compare ==> orig == parent->Compare_0.comparators@,
            parent is BoolOp || parent is Compare,
            r.len() + v.len() == orig.len(),
            v@ == orig.subrange(r.len() as int, orig.len() as int),
            trees_of(orig).len() == orig.len(),
            forall|i: int| 0 <= i < orig.len() ==> #[trigger] trees_of(orig)[i] == tree_of(*orig[i]),
            forall|i: int| 0 <= i < orig.len() ==> accepted(*x, #[trigger] trees_of(orig)[i]),
            forall|i: int|
                0 <= i < r.len() ==> view_opt(#[trigger] r@[i]) == transformed(*x, tree_of(*orig[i])),
        decreases v.len(),
    {
        let c = v.remove(0);
        let ghost k = r.len() as int;
        proof {
            assert(c == orig[k]);
            assert(v@ =~= orig.subrange(k + 1, orig.len() as int));
            assert(accepted(*x, trees_of(orig)[k]));
            if parent is BoolOp {
                assert(decreases_to!(parent => parent->BoolOp_0));
                assert(decreases_to!(parent->BoolOp_0 => parent->BoolOp_0.operands));
                assert(decreases_to!(parent->BoolOp_0.operands => parent->BoolOp_0.operands@));
            } else {
                assert(decreases_to!(parent => parent->Compare_0));
                assert(decreases_to!(parent->Compare_0 => parent->Compare_0.comparators));
                assert(decreases_to!(parent->Compare_0.comparators => parent->Compare_0.comparators@));
            }
            assert(decreases_to!(orig => orig[k]));
        }
        let t = default_visit(x, *c);
        r.push(t);
    }
    proof {
        assert(views_opt(r@) =~= transformed_all(*x, trees_of(orig)));
    }
    r
}

/// Folds `x` over `node`: every child is transformed before the node itself,
/// list children from first to last.
pub fn default_visit<X: NodeTransformer>(x: &X, node: BoxedNode) -> (r: Option<BoxedNode>)
    requires
        accepted(*x, node@),
    ensures
        view_opt(r) == transformed(*x, node@),
    decreases node, 1nat,
{
    let ghost g = node;
    match node {
        BoxedNode::FunctionParameter(p) => x.transform_function_parameter(p),
        BoxedNode::NumericConstant(n) => x.transform_numeric_constant(n),
        BoxedNode::StringConstant(s) => x.transform_string_constant(s),
        BoxedNode::BooleanConstant(b) => x.transform_boolean_constant(b),
        BoxedNode::BitVec(bv) => x.transform_bitvec(bv),
        BoxedNode::BinOp(b) => {
            let left = default_visit(x, *b.left);
            let right = default_visit(x, *b.right);
            x.transform_binary_operation(BinOp { operation: b.operation, left, right })
        },
        BoxedNode::UnaryOp(u) => {
            let operand = default_visit(x, *u.operand);
            x.transform_unary_operation(UnaryOp { operation: u.operation, operand })
        },
        BoxedNode::BoolOp(b) => {
            let operands = visit_all(x, b.operands, Ghost(g));
            x.transform_boolean_operation(BoolOp { operator: b.operator, operands })
        },
        BoxedNode::Compare(c) => {
            let left = default_visit(x, *c.left);
            let comparators = visit_all(x, c.comparators, Ghost(g));
            x.transform_comparison(Compare { left, operations: c.operations, comparators })
        },
        BoxedNode::If(i) => {
            let condition = default_visit(x, *i.condition);
            let success = default_visit(x, *i.success);
            let failure = default_visit(x, *i.failure);
            x.transform_if(If { condition, success, failure })
        },
    }
}

/// Running a pass over a whole tree; every `NodeTransformer` has it.
pub trait TransformNode: NodeTransformer {
    /// Runs the pass over `node`, children before parents.
    fn transform_node(&self, node: BoxedNode) -> (r: Option<BoxedNode>)
        requires
            accepted(*self, node@),
        ensures
            view_opt(r) == transformed(*self, node@),
    ;
}

impl<X: NodeTransformer> TransformNode for X {
    fn transform_node(&self, node: BoxedNode) -> (r: Option<BoxedNode>) {
        default_visit(self, node)
    }
}

/// Boxes the present items of `v`, in order, dropping the absent ones.
pub fn keep_present(v: Vec<Option<BoxedNode>>) -> (r: Vec<Box<BoxedNode>>)
    ensures
        trees_of(r@) == present(views_opt(v@)),
{
    let ghost orig = v@;
    let n = v.len();
    let mut v = v;
    let mut r: Vec<Box<BoxedNode>> = Vec::new();
    let mut k: usize = 0;
    while v.len() > 0
        invariant
            k + v.len() == orig.len(),
            orig.len() == n,
            v@ == orig.subrange(k as int, orig.len() as int),
            trees_of(r@) == present(views_opt(orig.subrange(0, k as int))),
        decreases v.len(),
    {
        let c = v.remove(0);
        proof {
            assert(c == orig[k as int]);
            assert(v@ =~= orig.subrange(k + 1, orig.len() as int));
            let s = views_opt(orig.subrange(0, k + 1));
            assert(s.subrange(0, s.len() - 1) =~= views_opt(orig.subrange(0, k as int)));
            assert(s[s.len() - 1] == view_opt(c));
        }
        match c {
            Some(n) => {
                let ghost before = r@;
                r.push(Box::new(n));
                proof {
                    assert(r@.subrange(0, r@.len() - 1) =~= before);
                }
            },
            None => {},
        }
        k += 1;
    }
    proof {
        assert(orig.subrange(0, k as int) =~= orig);
    }
    r
}

pub fn keep_function_parameter(parameter: FunctionParameter) -> (r: Option<BoxedNode>)
    ensures
        view_opt(r) == Some(Tree::FunctionParameter(parameter.identifier@)),
{
    Some(BoxedNode::FunctionParameter(parameter))
}

pub fn keep_numeric_constant(parameter: Numeric) -> (r: Option<BoxedNode>)
    ensures
        view_opt(r) == Some(Tree::NumericConstant(parameter)),
{
    Some(BoxedNode::NumericConstant(parameter))
}

pub fn keep_string_constant(parameter: String) -> (r: Option<BoxedNode>)
    ensures
        view_opt(r) == Some(Tree::StringConstant(parameter@)),
{
    Some(BoxedNode::StringConstant(parameter))
}

pub fn keep_boolean_constant(parameter: bool) -> (r: Option<BoxedNode>)
    ensures
        view_opt(r) == Some(Tree::BooleanConstant(parameter)),
{
    Some(BoxedNode::BooleanConstant(parameter))
}

pub fn keep_bitvec(parameter: BitVec) -> (r: Option<BoxedNode>)
    ensures
        view_opt(r) == Some(Tree::BitVec(parameter.length, parameter.bit_string@)),
{
    Some(BoxedNode::BitVec(parameter))
}

/// Rebuilds the operation over its rewritten operands; absent if either is.
pub fn keep_binary_operation(parameter: BinOp<Option<BoxedNode>>) -> (r: Option<BoxedNode>)
    ensures
        view_opt(r) == default_binary(
            parameter.operation,
            view_opt(parameter.left),
            view_opt(parameter.right),
        ),
{
    match (parameter.left, parameter.right) {
        (Some(left), Some(right)) => Some(
            BoxedNode::BinOp(
                BinOp { operation: parameter.operation, left: Box::new(left), right: Box::new(right) },
            ),
        ),
        _ => None,
    }
}

/// Rebuilds the operation over its rewritten operand; absent if it is.
pub fn keep_unary_operation(parameter: UnaryOp<Option<BoxedNode>>) -> (r: Option<BoxedNode>)
    ensures
        view_opt(r) == default_unary(parameter.operation, view_opt(parameter.operand)),
{
    match parameter.operand {
        Some(operand) => Some(
            BoxedNode::UnaryOp(UnaryOp { operation: parameter.operation, operand: Box::new(operand) }),
        ),
        None => None,
    }
}

/// Rebuilds the operation over its present operands, in order.
pub fn keep_boolean_operation(parameter: BoolOp<Vec<Option<BoxedNode>>>) -> (r: Option<BoxedNode>)
    ensures
        view_opt(r) == default_boolean(parameter.operator, views_opt(parameter.operands@)),
{
    let operands = keep_present(parameter.operands);
    Some(BoxedNode::BoolOp(BoolOp { operator: parameter.operator, operands }))
}

/// Rebuilds the comparison over its present comparators, in order; absent
/// if its left side is.
pub fn keep_comparison(parameter: Compare<Option<BoxedNode>, Vec<Option<BoxedNode>>>) -> (r: Option<
    BoxedNode,
>)
    ensures
        view_opt(r) == default_comparison(
            view_opt(parameter.left),
            parameter.operations@,
            views_opt(parameter.comparators@),
        ),
{
    match parameter.left {
        Some(left) => {
            let comparators = keep_present(parameter.comparators);
            Some(
                BoxedNode::Compare(
                    Compare { left: Box::new(left), operations: parameter.operations, comparators },
                ),
            )
        },
        None => None,
    }
}

/// Rebuilds the conditional; absent if any of its three parts is.
pub fn keep_if(parameter: If<Option<BoxedNode>>) -> (r: Option<BoxedNode>)
    ensures
        view_opt(r) == default_if(
            view_opt(parameter.condition),
            view_opt(parameter.success),
            view_opt(parameter.failure),
        ),
{
    match (parameter.condition, parameter.success, parameter.failure) {
        (Some(condition), Some(success), Some(failure)) => Some(
            BoxedNode::If(
                If {
                    condition: Box::new(condition),
                    success: Box::new(success),
                    failure: Box::new(failure),
                },
            ),
        ),
        _ => None,
    }
}

/// The pass that overrides nothing: it rebuilds every node as it was.
pub struct IdentityTransformer {}

impl NodeTransformer for IdentityTransformer {
    fn transform_function_parameter(&self, parameter: FunctionParameter) -> (r: Option<BoxedNode>) {
        keep_function_parameter(parameter)
    }

    fn transform_numeric_constant(&self, parameter: Numeric) -> (r: Option<BoxedNode>) {
        keep_numeric_constant(parameter)
    }

    fn transform_string_constant(&self, parameter: String) -> (r: Option<BoxedNode>) {
        keep_string_constant(parameter)
    }

    fn transform_boolean_constant(&self, parameter: bool) -> (r: Option<BoxedNode>) {
        keep_boolean_constant(parameter)
    }

    fn transform_bitvec(&self, parameter: BitVec) -> (r: Option<BoxedNode>) {
        keep_bitvec(parameter)
    }

    fn transform_binary_operation(&self, parameter: BinOp<Option<BoxedNode>>) -> (r: Option<
        BoxedNode,
    >) {
        keep_binary_operation(parameter)
    }

    fn transform_unary_operation(&self, parameter: UnaryOp<Option<BoxedNode>>) -> (r: Option<
        BoxedNode,
    >) {
        keep_unary_operation(parameter)
    }

    fn transform_boolean_operation(&self, parameter: BoolOp<Vec<Option<BoxedNode>>>) -> (r: Option<
        BoxedNode,
    >) {
        keep_boolean_operation(parameter)
    }

    fn transform_comparison(
        &self,
        parameter: Compare<Option<BoxedNode>, Vec<Option<BoxedNode>>>,
    ) -> (r: Option<BoxedNode>) {
        keep_comparison(parameter)
    }

    fn transform_if(&self, parameter: If<Option<BoxedNode>>) -> (r: Option<BoxedNode>) {
        keep_if(parameter)
    }
}

/// A list of present trees is kept whole by `present`.
proof fn lemma_present_all(xs: Seq<Tree>)
    ensures
        present(xs.map_values(|t: Tree| Some(t))) == xs,
    decreases xs.len(),
{
    if xs.len() > 0 {
        let p = xs.subrange(0, xs.len() - 1);
        lemma_present_all(p);
        let s = xs.map_values(|t: Tree| Some(t));
        assert(s.subrange(0, s.len() - 1) =~= p.map_values(|t: Tree| Some(t)));
        assert(p.push(xs[xs.len() - 1]) =~= xs);
    }
}

/// The identity pass is defined on every tree and gives it back unchanged.
pub proof fn lemma_identity_transformed(t: Tree)
    ensures
        accepted(IdentityTransformer {}, t),
        transformed(IdentityTransformer {}, t) == Some(t),
    decreases t,
{
    let x = IdentityTransformer {};
    match t {
        Tree::BinOp(op, a, b) => {
            lemma_identity_transformed(*a);
            lemma_identity_transformed(*b);
        },
        Tree::UnaryOp(op, a) => {
            lemma_identity_transformed(*a);
        },
        Tree::BoolOp(op, xs) => {
            lemma_identity_transformed_all(t, xs);
        },
        Tree::Compare(a, ops, xs) => {
            lemma_identity_transformed(*a);
            lemma_identity_transformed_all(t, xs);
        },
        Tree::If(a, b, c) => {
            lemma_identity_transformed(*a);
            lemma_identity_transformed(*b);
            lemma_identity_transformed(*c);
        },
        _ => {},
    }
}

proof fn lemma_identity_transformed_all(parent: Tree, xs: Seq<Tree>)
    requires
        parent is BoolOp ==> xs == parent->BoolOp_1,
        parent is Compare ==> xs == parent->Compare_2,
        parent is BoolOp || parent is Compare,
    ensures
        accepted_all(IdentityTransformer {}, xs),
        present(transformed_all(IdentityTransformer {}, xs)) == xs,
    decreases parent, 0nat,
{
    let x = IdentityTransformer {};
    lemma_transformed_all(x, xs);
    assert forall|i: int| 0 <= i < xs.len() implies accepted(x, #[trigger] xs[i])
        && transformed(x, xs[i]) == Some(xs[i]) by {
        if parent is BoolOp {
            assert(decreases_to!(parent => parent->BoolOp_1));
        } else {
            assert(decreases_to!(parent => parent->Compare_2));
        }
        assert(decreases_to!(xs => xs[i]));
        lemma_identity_transformed(xs[i]);
    }
    assert(transformed_all(x, xs) =~= xs.map_values(|t: Tree| Some(t)));
    lemma_present_all(xs);
}

/// The identity pass keeps every tree's structure key: it is defined on
/// every tree and returns one with the same key.
pub proof fn lemma_identity_keeps_key(t: Tree)
    ensures
        accepted(IdentityTransformer {}, t),
        transformed(IdentityTransformer {}, t) is Some,
        key(transformed(IdentityTransformer {}, t)->Some_0) == key(t),
{
    lemma_identity_transformed(t);
}

/// The fold hands a node's rewrite the results of its children, each already
/// transformed, list children in their order; so every child is visited
/// before its parent.
pub proof fn lemma_children_before_parent<X: NodeTransformer>(x: X, t: Tree)
    ensures
        t matches Tree::BinOp(op, a, b) ==> transformed(x, t) == x.rewrite_binary_operation(
            op,
            transformed(x, *a),
            transformed(x, *b),
        ),
        t matches Tree::BoolOp(op, xs) ==> transformed(x, t) == x.rewrite_boolean_operation(
            op,
            xs.map_values(|c: Tree| transformed(x, c)),
        ),
        t matches Tree::Compare(a, ops, xs) ==> transformed(x, t) == x.rewrite_comparison(
            transformed(x, *a),
            ops,
            xs.map_values(|c: Tree| transformed(x, c)),
        ),
        t matches Tree::If(a, b, c) ==> transformed(x, t) == x.rewrite_if(
            transformed(x, *a),
            transformed(x, *b),
            transformed(x, *c),
        ),
        t matches Tree::UnaryOp(op, a) ==> transformed(x, t) == x.rewrite_unary_operation(
            op,
            transformed(x, *a),
        ),
{
    match t {
        Tree::BoolOp(op, xs) => {
            lemma_transformed_all(x, xs);
            assert(transformed_all(x, xs) =~= xs.map_values(|c: Tree| transformed(x, c)));
        },
        Tree::Compare(a, ops, xs) => {
            lemma_transformed_all(x, xs);
            assert(transformed_all(x, xs) =~= xs.map_values(|c: Tree| transformed(x, c)));
        },
        _ => {},
    }
}

/// A pass that accepts every unary node is defined on every tree.
pub proof fn lemma_defined_everywhere<X: NodeTransformer>(x: X, t: Tree)
    requires
        forall|op: UnaryOperation, o: Option<Tree>| #[trigger] x.accepts_unary_operation(op, o),
    ensures
        accepted(x, t),
    decreases t,
{
    match t {
        Tree::BinOp(op, a, b) => {
            lemma_defined_everywhere(x, *a);
            lemma_defined_everywhere(x, *b);
        },
        Tree::UnaryOp(op, a) => {
            lemma_defined_everywhere(x, *a);
        },
        Tree::BoolOp(op, xs) => {
            lemma_defined_everywhere_all(x, t, xs);
        },
        Tree::Compare(a, ops, xs) => {
            lemma_defined_everywhere(x, *a);
            lemma_defined_everywhere_all(x, t, xs);
        },
        Tree::If(a, b, c) => {
            lemma_defined_everywhere(x, *a);
            lemma_defined_everywhere(x, *b);
            lemma_defined_everywhere(x, *c);
        },
        _ => {},
    }
}

proof fn lemma_defined_everywhere_all<X: NodeTransformer>(x: X, parent: Tree, xs: Seq<Tree>)
    requires
        forall|op: UnaryOperation, o: Option<Tree>| #[trigger] x.accepts_unary_operation(op, o),
        parent is BoolOp ==> xs == parent->BoolOp_1,
        parent is Compare ==> xs == parent->Compare_2,
        parent is BoolOp || parent is Compare,
    ensures
        accepted_all(x, xs),
    decreases parent, 0nat,
{
    lemma_transformed_all(x, xs);
    assert forall|i: int| 0 <= i < xs.len() implies accepted(x, #[trigger] xs[i]) by {
        if parent is BoolOp {
            assert(decreases_to!(parent => parent->BoolOp_1));
        } else {
            assert(decreases_to!(parent => parent->Compare_2));
        }
        assert(decreases_to!(xs => xs[i]));
        lemma_defined_everywhere(x, xs[i]);
    }
}

} // verus!
