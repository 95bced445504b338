use vstd::prelude::*;
use crate::boxed_nodes::{BoxedNode, tree_of, trees_of, lemma_trees_of};
use crate::node_frame::{BinOp, BitVec, BoolOp, Compare, FunctionParameter, If, NodeFrame, Numeric, UnaryOp};
use crate::operations::{BinaryOperation, BooleanOperation, ComparisonOperation, UnaryOperation};
use crate::tree::{level_of, Level, Tree};

verus! {

/// One token of a structure key: a leaf with its literal, an operator node
/// with its operator, or a group that holds the keys of children.
#[derive(Debug)]
pub enum StructuralIdentifier {
    FunctionParameter(FunctionParameter),
    NumericConstant(Numeric),
    StringConstant(String),
    BooleanConstant(bool),
    BitVec(BitVec),
    BinOp(BinaryOperation),
    UnaryOp(UnaryOperation),
    BoolOp(BooleanOperation),
    Compare(Vec<ComparisonOperation>),
    If,
    Group(Vec<StructuralIdentifier>),
}

/// The flat, order-sensitive encoding of a tree's structure.
#[derive(Debug)]
pub struct StructureKey {
    pub contents: Vec<StructuralIdentifier>,
}

/// The mathematical form of a `StructuralIdentifier`.
pub enum Token {
    FunctionParameter(Seq<char>),
    NumericConstant(Numeric),
    StringConstant(Seq<char>),
    BooleanConstant(bool),
    BitVec(usize, Seq<char>),
    BinOp(BinaryOperation),
    UnaryOp(UnaryOperation),
    BoolOp(BooleanOperation),
    Compare(Seq<ComparisonOperation>),
    If,
    Group(Seq<Token>),
}

pub open spec fn token_of(s: StructuralIdentifier) -> Token
    decreases s,
{
    match s {
        StructuralIdentifier::FunctionParameter(p) => Token::FunctionParameter(p.identifier@),
        StructuralIdentifier::NumericConstant(n) => Token::NumericConstant(n),
        StructuralIdentifier::StringConstant(x) => Token::StringConstant(x@),
        StructuralIdentifier::BooleanConstant(b) => Token::BooleanConstant(b),
        StructuralIdentifier::BitVec(bv) => Token::BitVec(bv.length, bv.bit_string@),
        StructuralIdentifier::BinOp(op) => Token::BinOp(op),
        StructuralIdentifier::UnaryOp(op) => Token::UnaryOp(op),
        StructuralIdentifier::BoolOp(op) => Token::BoolOp(op),
        StructuralIdentifier::Compare(ops) => Token::Compare(ops@),
        StructuralIdentifier::If => Token::If,
        StructuralIdentifier::Group(g) => Token::Group(tokens_of(g@)),
    }
}

pub open spec fn tokens_of(s: Seq<StructuralIdentifier>) -> Seq<Token>
    decreases s,
{
    if s.len() == 0 {
        Seq::empty()
    } else {
        tokens_of(s.subrange(0, s.len() - 1)).push(token_of(s[s.len() - 1]))
    }
}

impl View for StructureKey {
    type V = Seq<Token>;

    open spec fn view(&self) -> Seq<Token> {
        tokens_of(self.contents@)
    }
}

/// The key of one level whose children's keys are already known: a leaf
/// token, or an operator token followed by a group of the children's keys
/// in declared order.
pub open spec fn key_step(l: Level<Seq<Token>>) -> Seq<Token> {
    match l {
        Level::FunctionParameter(s) => seq![Token::FunctionParameter(s)],
        Level::NumericConstant(n) => seq![Token::NumericConstant(n)],
        Level::StringConstant(s) => seq![Token::StringConstant(s)],
        Level::BooleanConstant(b) => seq![Token::BooleanConstant(b)],
        Level::BitVec(n, s) => seq![Token::BitVec(n, s)],
        Level::BinOp(op, a, b) => seq![
            Token::BinOp(op),
            Token::Group(seq![Token::Group(a), Token::Group(b)]),
        ],
        Level::UnaryOp(op, a) => seq![Token::UnaryOp(op), Token::Group(a)],
        Level::BoolOp(op, xs) => seq![Token::BoolOp(op), Token::Group(groups(xs))],
        Level::Compare(a, ops, xs) => seq![
            Token::Compare(ops),
            Token::Group(seq![Token::Group(a), Token::Group(groups(xs))]),
        ],
        Level::If(a, b, c) => seq![
            Token::If,
            Token::Group(seq![Token::Group(a), Token::Group(b), Token::Group(c)]),
        ],
    }
}

/// Each key of `xs` wrapped in a group, in order.
pub open spec fn groups(xs: Seq<Seq<Token>>) -> Seq<Token> {
    xs.map_values(|k: Seq<Token>| Token::Group(k))
}

/// The structure key of a whole tree.
pub open spec fn key(t: Tree) -> Seq<Token>
    decreases t,
{
    match t {
        Tree::FunctionParameter(s) => seq![Token::FunctionParameter(s)],
        Tree::NumericConstant(n) => seq![Token::NumericConstant(n)],
        Tree::StringConstant(s) => seq![Token::StringConstant(s)],
        Tree::BooleanConstant(b) => seq![Token::BooleanConstant(b)],
        Tree::BitVec(n, s) => seq![Token::BitVec(n, s)],
        Tree::BinOp(op, a, b) => seq![
            Token::BinOp(op),
            Token::Group(seq![Token::Group(key(*a)), Token::Group(key(*b))]),
        ],
        Tree::UnaryOp(op, a) => seq![Token::UnaryOp(op), Token::Group(key(*a))],
        Tree::BoolOp(op, xs) => seq![Token::BoolOp(op), Token::Group(key_groups(xs))],
        Tree::Compare(a, ops, xs) => seq![
            Token::Compare(ops),
            Token::Group(seq![Token::Group(key(*a)), Token::Group(key_groups(xs))]),
        ],
        Tree::If(a, b, c) => seq![
            Token::If,
            Token::Group(seq![Token::Group(key(*a)), Token::Group(key(*b)), Token::Group(key(*c))]),
        ],
    }
}

/// The key of each tree of `xs` wrapped in a group, in order.
pub open spec fn key_groups(xs: Seq<Tree>) -> Seq<Token>
    decreases xs,
{
    if xs.len() == 0 {
        Seq::empty()
    } else {
        key_groups(xs.subrange(0, xs.len() - 1)).push(Token::Group(key(xs[xs.len() - 1])))
    }
}

pub proof fn lemma_tokens_of(s: Seq<StructuralIdentifier>)
    ensures
        tokens_of(s).len() == s.len(),
        forall|i: int| 0 <= i < s.len() ==> #[trigger] tokens_of(s)[i] == token_of(s[i]),
    decreases s.len(),
{
    if s.len() > 0 {
        lemma_tokens_of(s.subrange(0, s.len() - 1));
    }
}

pub proof fn lemma_key_groups(xs: Seq<Tree>)
    ensures
        key_groups(xs).len() == xs.len(),
        forall|i: int| 0 <= i < xs.len() ==> #[trigger] key_groups(xs)[i] == Token::Group(key(xs[i])),
    decreases xs.len(),
{
    if xs.len() > 0 {
        lemma_key_groups(xs.subrange(0, xs.len() - 1));
    }
}

fn copy_parameter(p: &FunctionParameter) -> (r: FunctionParameter)
    ensures
        r.identifier@ == p.identifier@,
{
    FunctionParameter { identifier: p.identifier.clone() }
}

fn copy_bitvec(bv: &BitVec) -> (r: BitVec)
    ensures
        r.length == bv.length,
        r.bit_string@ == bv.bit_string@,
{
    BitVec { length: bv.length, bit_string: bv.bit_string.clone() }
}

fn copy_operations(ops: &Vec<ComparisonOperation>) -> (r: Vec<ComparisonOperation>)
    ensures
        r@ == ops@,
{
    let mut r: Vec<ComparisonOperation> = Vec::new();
    let mut i: usize = 0;
    while i < ops.len()
        invariant
            i <= ops.len(),
            r@ == ops@.subrange(0, i as int),
        decreases ops.len() - i,
    {
        r.push(ops[i]);
        i += 1;
        proof {
            assert(r@ =~= ops@.subrange(0, i as int));
        }
    }
    proof {
        assert(r@ =~= ops@);
    }
    r
}

/// Wraps the contents of each key in a group, in order.
fn group_all(keys: Vec<StructureKey>) -> (r: Vec<StructuralIdentifier>)
    ensures
        tokens_of(r@) == groups(keys@.map_values(|k: StructureKey| k@)),
{
    let ghost orig = keys@;
    let mut keys = keys;
    let mut r: Vec<StructuralIdentifier> = Vec::new();
    while keys.len() > 0
        invariant
            r.len() + keys.len() == orig.len(),
            keys@ == orig.subrange(r.len() as int, orig.len() as int),
            forall|i: int|
                0 <= i < r.len() ==> token_of(#[trigger] r@[i]) == Token::Group(orig[i]@),
        decreases keys.len(),
    {
        let k = keys.remove(0);
        proof {
            assert(k == orig[r.len() as int]);
            assert(keys@ =~= orig.subrange(r.len() + 1, orig.len() as int));
        }
        r.push(StructuralIdentifier::Group(k.contents));
    }
    proof {
        lemma_tokens_of(r@);
        assert(tokens_of(r@) =~= groups(orig.map_values(|k: StructureKey| k@)));
    }
    r
}

impl StructureKey {
    /// The key of one level whose children have been replaced by their keys.
    pub fn from_frame(val: NodeFrame<StructureKey>) -> (r: StructureKey)
        ensures
            r@ == key_step(level_of(val, |k: StructureKey| k@)),
    {
        let ghost expected = key_step(level_of(val, |k: StructureKey| k@));
        let mut contents: Vec<StructuralIdentifier> = Vec::new();
        match val {
            NodeFrame::FunctionParameter(p) => {
                contents.push(StructuralIdentifier::FunctionParameter(p));
            },
            NodeFrame::NumericConstant(n) => {
                contents.push(StructuralIdentifier::NumericConstant(n));
            },
            NodeFrame::StringConstant(s) => {
                contents.push(StructuralIdentifier::StringConstant(s));
            },
            NodeFrame::BooleanConstant(b) => {
                contents.push(StructuralIdentifier::BooleanConstant(b));
            },
            NodeFrame::BitVec(a) => {
                contents.push(StructuralIdentifier::BitVec(a));
            },
            NodeFrame::BinOp(b) => {
                let ghost (ka, kb) = (b.left@, b.right@);
                contents.push(StructuralIdentifier::BinOp(b.operation));
                let mut children: Vec<StructuralIdentifier> = Vec::new();
                children.push(StructuralIdentifier::Group(b.left.contents));
                children.push(StructuralIdentifier::Group(b.right.contents));
                proof {
                    lemma_tokens_of(children@);
                    assert(tokens_of(children@) =~= seq![Token::Group(ka), Token::Group(kb)]);
                }
                contents.push(StructuralIdentifier::Group(children));
            },
            NodeFrame::UnaryOp(c) => {
                contents.push(StructuralIdentifier::UnaryOp(c.operation));
                contents.push(StructuralIdentifier::Group(c.operand.contents));
            },
            NodeFrame::BoolOp(d) => {
                contents.push(StructuralIdentifier::BoolOp(d.operator));
                contents.push(StructuralIdentifier::Group(group_all(d.operands)));
            },
            NodeFrame::Compare(cmp) => {
                let ghost (ka, ks) = (cmp.left@, cmp.comparators@.map_values(|k: StructureKey| k@));
                contents.push(StructuralIdentifier::Compare(cmp.operations));
                let mut children: Vec<StructuralIdentifier> = Vec::new();
                children.push(StructuralIdentifier::Group(cmp.left.contents));
                children.push(StructuralIdentifier::Group(group_all(cmp.comparators)));
                proof {
                    lemma_tokens_of(children@);
                    assert(tokens_of(children@) =~= seq![Token::Group(ka), Token::Group(groups(ks))]);
                }
                contents.push(StructuralIdentifier::Group(children));
            },
            NodeFrame::If(if_node) => {
                let ghost (ka, kb, kc) = (if_node.condition@, if_node.success@, if_node.failure@);
                contents.push(StructuralIdentifier::If);
                let mut children: Vec<StructuralIdentifier> = Vec::new();
                children.push(StructuralIdentifier::Group(if_node.condition.contents));
                children.push(StructuralIdentifier::Group(if_node.success.contents));
                children.push(StructuralIdentifier::Group(if_node.failure.contents));
                proof {
                    lemma_tokens_of(children@);
                    assert(tokens_of(children@) =~= seq![
                        Token::Group(ka),
                        Token::Group(kb),
                        Token::Group(kc),
                    ]);
                }
                contents.push(StructuralIdentifier::Group(children));
            },
        }
        proof {
            lemma_tokens_of(contents@);
        }
        let r = StructureKey { contents };
        proof {
            assert(r@ =~= expected);
        }
        r
    }
}

/// The groups of keys computed child by child are the key groups of the
/// children's trees.
proof fn lemma_key_groups_of(s: Seq<Box<BoxedNode>>, ks: Seq<StructureKey>)
    requires
        ks.len() == s.len(),
        forall|i: int| 0 <= i < s.len() ==> (#[trigger] ks[i])@ == key(tree_of(*s[i])),
    ensures
        key_groups(trees_of(s)) == groups(ks.map_values(|k: StructureKey| k@)),
{
    lemma_trees_of(s);
    lemma_key_groups(trees_of(s));
    assert(key_groups(trees_of(s)) =~= groups(ks.map_values(|k: StructureKey| k@)));
}

/// The structure key of `n`, computed bottom-up.
fn key_of(n: &BoxedNode) -> (r: StructureKey)
    ensures
        r@ == key(n@),
    decreases n,
{
    match n {
        BoxedNode::FunctionParameter(p) => StructureKey::from_frame(
            NodeFrame::FunctionParameter(copy_parameter(p)),
        ),
        BoxedNode::NumericConstant(x) => StructureKey::from_frame(NodeFrame::NumericConstant(*x)),
        BoxedNode::StringConstant(x) => StructureKey::from_frame(
            NodeFrame::StringConstant(x.clone()),
        ),
        BoxedNode::BooleanConstant(x) => StructureKey::from_frame(NodeFrame::BooleanConstant(*x)),
        BoxedNode::BitVec(bv) => StructureKey::from_frame(NodeFrame::BitVec(copy_bitvec(bv))),
        BoxedNode::BinOp(b) => {
            let left = key_of(&b.left);
            let right = key_of(&b.right);
            StructureKey::from_frame(NodeFrame::BinOp(BinOp { operation: b.operation, left, right }))
        },
        BoxedNode::UnaryOp(u) => {
            let operand = key_of(&u.operand);
            StructureKey::from_frame(NodeFrame::UnaryOp(UnaryOp { operation: u.operation, operand }))
        },
        BoxedNode::BoolOp(b) => {
            let mut operands: Vec<StructureKey> = Vec::new();
            let mut i: usize = 0;
            while i < b.operands.len()
                invariant
                    *n is BoolOp,
                    (*n)->BoolOp_0 == *b,
                    i <= b.operands.len(),
                    operands.len() == i,
                    forall|j: int|
                        0 <= j < i ==> (#[trigger] operands@[j])@ == key(tree_of(*b.operands@[j])),
                decreases b.operands.len() - i,
            {
                proof {
                    assert(decreases_to!(*n => (*n)->BoolOp_0));
                    assert(decreases_to!(*b => b.operands));
                    assert(decreases_to!(b.operands => b.operands@));
                    assert(decreases_to!(b.operands@ => b.operands@[i as int]));
                }
                operands.push(key_of(&b.operands[i]));
                i += 1;
            }
            proof {
                lemma_key_groups_of(b.operands@, operands@);
            }
            StructureKey::from_frame(NodeFrame::BoolOp(BoolOp { operator: b.operator, operands }))
        },
        BoxedNode::Compare(c) => {
            let left = key_of(&c.left);
            let mut comparators: Vec<StructureKey> = Vec::new();
            let mut i: usize = 0;
            while i < c.comparators.len()
                invariant
                    *n is Compare,
                    (*n)->Compare_0 == *c,
                    i <= c.comparators.len(),
                    comparators.len() == i,
                    forall|j: int|
                        0 <= j < i ==> (#[trigger] comparators@[j])@ == key(
                            tree_of(*c.comparators@[j]),
                        ),
                decreases c.comparators.len() - i,
            {
                proof {
                    assert(decreases_to!(*n => (*n)->Compare_0));
                    assert(decreases_to!(*c => c.comparators));
                    assert(decreases_to!(c.comparators => c.comparators@));
                    assert(decreases_to!(c.comparators@ => c.comparators@[i as int]));
                }
                comparators.push(key_of(&c.comparators[i]));
                i += 1;
            }
            proof {
                lemma_key_groups_of(c.comparators@, comparators@);
            }
            let operations = copy_operations(&c.operations);
            StructureKey::from_frame(NodeFrame::Compare(Compare { left, operations, comparators }))
        },
        BoxedNode::If(x) => {
            let condition = key_of(&x.condition);
            let success = key_of(&x.success);
            let failure = key_of(&x.failure);
            StructureKey::from_frame(NodeFrame::If(If { condition, success, failure }))
        },
    }
}

impl BoxedNode {
    /// The structure key of this tree.
    pub fn get_structure_key(self) -> (r: StructureKey)
        ensures
            r@ == key(self@),
    {
        key_of(&self)
    }
}

/// Equal keys come only from equal trees.
proof fn lemma_key_injective(a: Tree, b: Tree)
    requires
        key(a) == key(b),
    ensures
        a == b,
    decreases a,
{
    let (ka, kb) = (key(a), key(b));
    assert(ka[0] == kb[0]);
    match a {
        Tree::BinOp(op, l, r) => {
            let (l2, r2) = (b->BinOp_1, b->BinOp_2);
            let (ga, gb) = (ka[1]->Group_0, kb[1]->Group_0);
            assert(ga[0] == gb[0] && ga[1] == gb[1]);
            lemma_key_injective(*l, *l2);
            lemma_key_injective(*r, *r2);
        },
        Tree::UnaryOp(op, x) => {
            assert(ka[1] == kb[1]);
            lemma_key_injective(*x, *b->UnaryOp_1);
        },
        Tree::BoolOp(op, xs) => {
            assert(ka[1] == kb[1]);
            lemma_key_groups_injective(a, xs, b->BoolOp_1);
        },
        Tree::Compare(x, ops, xs) => {
            let (ga, gb) = (ka[1]->Group_0, kb[1]->Group_0);
            assert(ga[0] == gb[0] && ga[1] == gb[1]);
            lemma_key_injective(*x, *b->Compare_0);
            lemma_key_groups_injective(a, xs, b->Compare_2);
        },
        Tree::If(x, y, z) => {
            let (ga, gb) = (ka[1]->Group_0, kb[1]->Group_0);
            assert(ga[0] == gb[0] && ga[1] == gb[1] && ga[2] == gb[2]);
            lemma_key_injective(*x, *b->If_0);
            lemma_key_injective(*y, *b->If_1);
            lemma_key_injective(*z, *b->If_2);
        },
        _ => {},
    }
}

/// Equal key groups come only from equal lists of children of `parent`.
proof fn lemma_key_groups_injective(parent: Tree, xs: Seq<Tree>, ys: Seq<Tree>)
    requires
        key_groups(xs) == key_groups(ys),
        parent is BoolOp ==> xs == parent->BoolOp_1,
        parent is Compare ==> xs == parent->Compare_2,
        parent is BoolOp || parent is Compare,
    ensures
        xs == ys,
    decreases parent, 0nat,
{
    lemma_key_groups(xs);
    lemma_key_groups(ys);
    assert forall|i: int| 0 <= i < xs.len() implies xs[i] == ys[i] by {
        assert(key_groups(xs).len() == key_groups(ys).len());
        assert(key_groups(xs)[i] == key_groups(ys)[i]);
        assert(key_groups(xs)[i]->Group_0 == key(xs[i]));
        assert(key_groups(ys)[i]->Group_0 == key(ys[i]));
        if parent is BoolOp {
            assert(decreases_to!(parent => parent->BoolOp_1));
        } else {
            assert(decreases_to!(parent => parent->Compare_2));
        }
        assert(decreases_to!(xs => xs[i]));
        lemma_key_injective(xs[i], ys[i]);
    }
    assert(xs =~= ys);
}

/// Two trees have the same structure key exactly when they agree in kind,
/// operator, literal and child order all the way down; so changing any one
/// operator, literal or the order of operands changes the key.
pub proof fn lemma_key_identifies_tree(a: Tree, b: Tree)
    ensures
        (key(a) == key(b)) <==> (a == b),
{
    if key(a) == key(b) {
        lemma_key_injective(a, b);
    }
}

fn same_operations(a: &Vec<ComparisonOperation>, b: &Vec<ComparisonOperation>) -> (r: bool)
    ensures
        r == (a@ == b@),
{
    if a.len() != b.len() {
        return false;
    }
    let mut i: usize = 0;
    while i < a.len()
        invariant
            a.len() == b.len(),
            i <= a.len(),
            a@.subrange(0, i as int) == b@.subrange(0, i as int),
        decreases a.len() - i,
    {
        if a[i] != b[i] {
            assert(a@[i as int] != b@[i as int]);
            return false;
        }
        assert(a@.subrange(0, i + 1) =~= a@.subrange(0, i as int).push(a@[i as int]));
        assert(b@.subrange(0, i + 1) =~= b@.subrange(0, i as int).push(b@[i as int]));
        i += 1;
    }
    assert(a@ =~= a@.subrange(0, i as int));
    assert(b@ =~= b@.subrange(0, i as int));
    true
}

/// Whether two tokens are the same.
fn same_token(a: &StructuralIdentifier, b: &StructuralIdentifier) -> (r: bool)
    ensures
        r == (token_of(*a) == token_of(*b)),
    decreases *a, 1nat,
{
    match (a, b) {
        (StructuralIdentifier::FunctionParameter(x), StructuralIdentifier::FunctionParameter(y)) => x.identifier
            == y.identifier,
        (StructuralIdentifier::NumericConstant(x), StructuralIdentifier::NumericConstant(y)) => *x == *y,
        (StructuralIdentifier::StringConstant(x), StructuralIdentifier::StringConstant(y)) => *x == *y,
        (StructuralIdentifier::BooleanConstant(x), StructuralIdentifier::BooleanConstant(y)) => *x == *y,
        (StructuralIdentifier::BitVec(x), StructuralIdentifier::BitVec(y)) => x.length == y.length
            && x.bit_string == y.bit_string,
        (StructuralIdentifier::BinOp(x), StructuralIdentifier::BinOp(y)) => *x == *y,
        (StructuralIdentifier::UnaryOp(x), StructuralIdentifier::UnaryOp(y)) => *x == *y,
        (StructuralIdentifier::BoolOp(x), StructuralIdentifier::BoolOp(y)) => *x == *y,
        (StructuralIdentifier::Compare(x), StructuralIdentifier::Compare(y)) => same_operations(x, y),
        (StructuralIdentifier::If, StructuralIdentifier::If) => true,
        (StructuralIdentifier::Group(x), StructuralIdentifier::Group(y)) => {
            proof {
                assert(decreases_to!(*a => (*a)->Group_0));
            }
            same_tokens(x, y)
        },
        _ => false,
    }
}

/// Whether two token lists are the same, token by token.
fn same_tokens(a: &Vec<StructuralIdentifier>, b: &Vec<StructuralIdentifier>) -> (r: bool)
    ensures
        r == (tokens_of(a@) == tokens_of(b@)),
    decreases *a, 0nat,
{
    proof {
        lemma_tokens_of(a@);
        lemma_tokens_of(b@);
    }
    if a.len() != b.len() {
        return false;
    }
    let mut i: usize = 0;
    while i < a.len()
        invariant
            a.len() == b.len(),
            i <= a.len(),
            tokens_of(a@).len() == a.len(),
            tokens_of(b@).len() == b.len(),
            forall|j: int| 0 <= j < a.len() ==> #[trigger] tokens_of(a@)[j] == token_of(a@[j]),
            forall|j: int| 0 <= j < b.len() ==> #[trigger] tokens_of(b@)[j] == token_of(b@[j]),
            forall|j: int| 0 <= j < i ==> token_of(#[trigger] a@[j]) == token_of(b@[j]),
        decreases a.len() - i,
    {
        proof {
            assert(decreases_to!(*a => a@));
            assert(decreases_to!(a@ => a@[i as int]));
        }
        if !same_token(&a[i], &b[i]) {
            assert(tokens_of(a@)[i as int] != tokens_of(b@)[i as int]);
            return false;
        }
        i += 1;
    }
    assert(tokens_of(a@) =~= tokens_of(b@));
    true
}

impl PartialEq for StructureKey {
    /// Two keys are equal when their tokens are, in order.
    fn eq(&self, other: &StructureKey) -> (r: bool) {
        same_tokens(&self.contents, &other.contents)
    }
}

impl vstd::std_specs::cmp::PartialEqSpecImpl for StructureKey {
    open spec fn obeys_eq_spec() -> bool {
        true
    }

    open spec fn eq_spec(&self, other: &StructureKey) -> bool {
        self@ == other@
    }
}

} // verus!
