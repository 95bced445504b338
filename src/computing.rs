use vstd::prelude::*;
use crate::boxed_nodes::{BoxedNode, lemma_trees_of, tree_of, trees_of};
use crate::node_frame::{BinOp, BoolOp, Compare, If, NodeFrame, UnaryOp};
use crate::tree::Tree;

verus! {

/// Which execution model a sub-expression needs. `Unknown` is the neutral
/// element of `combine`, `Conflict` absorbs everything, and `Classical` and
/// `Quantum` are incomparable.
#[derive(Debug, PartialEq, Eq, Clone, Copy, Hash, Structural)]
pub enum ComputingDomain {
    Classical,
    Quantum,
    Conflict,
    Unknown,
}

/// Join of two domains.
pub open spec fn combine(a: ComputingDomain, b: ComputingDomain) -> ComputingDomain {
    if a == ComputingDomain::Conflict || b == ComputingDomain::Conflict {
        ComputingDomain::Conflict
    } else if a == ComputingDomain::Unknown {
        b
    } else if b == ComputingDomain::Unknown {
        a
    } else if a != b {
        ComputingDomain::Conflict
    } else {
        a
    }
}

/// Left-to-right join of a list of domains, starting from `Unknown`.
pub open spec fn combine_all(s: Seq<ComputingDomain>) -> ComputingDomain
    decreases s.len(),
{
    if s.len() == 0 {
        ComputingDomain::Unknown
    } else {
        combine(combine_all(s.drop_last()), s.last())
    }
}

impl ComputingDomain {
    /// The join of `self` and `other`.
    pub fn compare(&self, other: &Self) -> (r: Self)
        ensures
            r == combine(*self, *other),
    {
        if let ComputingDomain::Conflict = self {
            return ComputingDomain::Conflict;
        }
        if let ComputingDomain::Conflict = other {
            return ComputingDomain::Conflict;
        }
        if let ComputingDomain::Unknown = self {
            return *other;
        }
        if let ComputingDomain::Unknown = other {
            return *self;
        }
        if *self != *other {
            return ComputingDomain::Conflict;
        }
        *self
    }
}

/// The join of every domain of `domains`, in order, starting from `Unknown`.
pub fn compare_all(domains: &Vec<ComputingDomain>) -> (r: ComputingDomain)
    ensures
        r == combine_all(domains@),
{
    let mut acc = ComputingDomain::Unknown;
    let mut i: usize = 0;
    while i < domains.len()
        invariant
            i <= domains.len(),
            acc == combine_all(domains@.subrange(0, i as int)),
        decreases domains.len() - i,
    {
        proof {
            assert(domains@.subrange(0, i as int + 1).drop_last() =~= domains@.subrange(0, i as int));
        }
        acc = acc.compare(&domains[i]);
        i += 1;
    }
    proof {
        assert(domains@.subrange(0, i as int) =~= domains@);
    }
    acc
}

/// `combine` does not depend on the order of its operands.
pub proof fn lemma_combine_commutative(a: ComputingDomain, b: ComputingDomain)
    ensures
        combine(a, b) == combine(b, a),
{
}

/// Grouping does not matter when joining three domains.
pub proof fn lemma_combine_associative(a: ComputingDomain, b: ComputingDomain, c: ComputingDomain)
    ensures
        combine(combine(a, b), c) == combine(a, combine(b, c)),
{
}

/// `Unknown` is neutral and `Conflict` absorbing; the two concrete domains
/// agree only with themselves.
pub proof fn lemma_combine_identities(x: ComputingDomain)
    ensures
        combine(ComputingDomain::Unknown, x) == x,
        combine(ComputingDomain::Conflict, x) == ComputingDomain::Conflict,
        combine(ComputingDomain::Classical, ComputingDomain::Quantum) == ComputingDomain::Conflict,
        combine(ComputingDomain::Classical, ComputingDomain::Classical) == ComputingDomain::Classical,
{
}

/// The domain of a whole tree: leaves are classified by kind, and each node
/// joins the domains of its children from left to right.
pub open spec fn domain(t: Tree) -> ComputingDomain
    decreases t,
{
    match t {
        Tree::FunctionParameter(_) => ComputingDomain::Quantum,
        Tree::BitVec(_, _) => ComputingDomain::Quantum,
        Tree::NumericConstant(_) => ComputingDomain::Classical,
        Tree::StringConstant(_) => ComputingDomain::Classical,
        Tree::BooleanConstant(_) => ComputingDomain::Classical,
        Tree::BinOp(_, a, b) => combine(domain(*a), domain(*b)),
        Tree::UnaryOp(_, a) => domain(*a),
        Tree::BoolOp(_, xs) => combine_all(domains(xs)),
        Tree::Compare(a, _, xs) => combine(domain(*a), combine_all(domains(xs))),
        Tree::If(a, b, c) => combine(combine(domain(*a), domain(*b)), domain(*c)),
    }
}

/// The domain of each tree of `xs`, in order.
pub open spec fn domains(xs: Seq<Tree>) -> Seq<ComputingDomain>
    decreases xs,
{
    if xs.len() == 0 {
        Seq::empty()
    } else {
        domains(xs.subrange(0, xs.len() - 1)).push(domain(xs[xs.len() - 1]))
    }
}

proof fn lemma_domains(xs: Seq<Tree>)
    ensures
        domains(xs).len() == xs.len(),
        forall|i: int| 0 <= i < xs.len() ==> #[trigger] domains(xs)[i] == domain(xs[i]),
    decreases xs.len(),
{
    if xs.len() > 0 {
        lemma_domains(xs.subrange(0, xs.len() - 1));
    }
}

/// The domain of each child of `v`, in order.
fn domains_of(v: &Vec<Box<BoxedNode>>, Ghost(parent): Ghost<BoxedNode>) -> (r: Vec<ComputingDomain>)
    requires
        parent is BoolOp ==> *v == parent->BoolOp_0.operands,
        parent is Compare ==> *v == parent->Compare_0.comparators,
        parent is BoolOp || parent is Compare,
    ensures
        r@ == domains(trees_of(v@)),
    decreases parent, 0nat,
{
    proof {
        lemma_trees_of(v@);
        lemma_domains(trees_of(v@));
    }
    let mut r: Vec<ComputingDomain> = Vec::new();
    let mut i: usize = 0;
    while i < v.len()
        invariant
            parent is BoolOp ==> *v == parent->BoolOp_0.operands,
            parent is Compare ==> *v == parent->Compare_0.comparators,
            parent is BoolOp || parent is Compare,
            i <= v.len(),
            r.len() == i,
            forall|j: int| 0 <= j < i ==> #[trigger] r@[j] == domain(tree_of(*v@[j])),
        decreases v.len() - i,
    {
        proof {
            if parent is BoolOp {
                assert(decreases_to!(parent => parent->BoolOp_0));
                assert(decreases_to!(parent->BoolOp_0 => parent->BoolOp_0.operands));
            } else {
                assert(decreases_to!(parent => parent->Compare_0));
                assert(decreases_to!(parent->Compare_0 => parent->Compare_0.comparators));
            }
            assert(decreases_to!(*v => v@));
            assert(decreases_to!(v@ => v@[i as int]));
        }
        r.push(v[i].get_domain());
        i += 1;
    }
    proof {
        assert(r@ =~= domains(trees_of(v@)));
    }
    r
}

impl BoxedNode {
    /// Classifies the whole tree, children before parents.
    pub fn get_domain(&self) -> (r: ComputingDomain)
        ensures
            r == domain(self@),
        decreases *self, 1nat,
    {
        let ghost g = *self;
        let frame: NodeFrame<ComputingDomain> = match self {
            BoxedNode::FunctionParameter(p) => return p.get_domain(),
            BoxedNode::NumericConstant(n) => return n.get_domain(),
            BoxedNode::StringConstant(_) => return ComputingDomain::Classical,
            BoxedNode::BooleanConstant(_) => return ComputingDomain::Classical,
            BoxedNode::BitVec(bv) => return bv.get_domain(),
            BoxedNode::BinOp(b) => NodeFrame::BinOp(
                BinOp { operation: b.operation, left: b.left.get_domain(), right: b.right.get_domain() },
            ),
            BoxedNode::UnaryOp(u) => NodeFrame::UnaryOp(
                UnaryOp { operation: u.operation, operand: u.operand.get_domain() },
            ),
            BoxedNode::BoolOp(b) => NodeFrame::BoolOp(
                BoolOp { operator: b.operator, operands: domains_of(&b.operands, Ghost(g)) },
            ),
            BoxedNode::Compare(c) => NodeFrame::Compare(
                Compare {
                    left: c.left.get_domain(),
                    operations: Vec::new(),
                    comparators: domains_of(&c.comparators, Ghost(g)),
                },
            ),
            BoxedNode::If(i) => NodeFrame::If(
                If {
                    condition: i.condition.get_domain(),
                    success: i.success.get_domain(),
                    failure: i.failure.get_domain(),
                },
            ),
        };
        frame.get_domain()
    }
}

} // verus!
