//! Matching Rholang patterns against concrete nodes, binding pattern
//! variables, and matching contract definitions against calls.
use std::sync::Arc;
use vstd::prelude::*;
use crate::rholang_node::node_order::{
    compare_nodes, identity, identity_exec, indices_view, order_fuel, sorted_indices,
    sorted_indices_exec, table_view, NodeOrder,
};
use crate::rholang_node::node_shape::{
    height, lemma_pair_shapes, lemma_shape_kind, lemma_shapes_of, opt_shape, pair_shapes, shape_of, shapes_of, Shape,
};
use crate::rholang_node::node_types::{
    share, share_opt, RholangNode, RholangNodePairVector, RholangNodeVector,
};
use crate::semantic_node::{NodeBase, RelativePosition};
use crate::symbol_resolution::types::str_equal;

verus! {

/// The order of two shapes, looking as deep as they go.
pub open spec fn shape_order(x: Shape, y: Shape) -> NodeOrder {
    order_fuel(x, y, height(x) + height(y) + 1)
}

/// Whether two shapes are equal in the structural order.
pub open spec fn shapes_equal(x: Shape, y: Shape) -> bool {
    shape_order(x, y) == NodeOrder::Equal
}

/// The table of orders between the elements of `s`.
pub open spec fn canon_matrix(s: Seq<Shape>) -> Seq<Seq<NodeOrder>> {
    Seq::new(s.len(), |i: int| Seq::new(s.len(), |j: int| shape_order(s[i], s[j])))
}

/// The table of orders between the keys of `s`.
pub open spec fn key_canon_matrix(s: Seq<(Shape, Shape)>) -> Seq<Seq<NodeOrder>> {
    Seq::new(s.len(), |i: int| Seq::new(s.len(), |j: int| shape_order(s[i].0, s[j].0)))
}

/// Index of the first binding of `name`, looking from `i` on.
pub open spec fn find_binding(b: Seq<(Seq<char>, Shape)>, name: Seq<char>, i: int) -> Option<int>
    decreases b.len() - i,
{
    if i < 0 || i >= b.len() {
        None
    } else if b[i].0 == name {
        Some(i)
    } else {
        find_binding(b, name, i + 1)
    }
}

/// Matching `pat` against `conc` with bindings `s`: whether it matches, and
/// the bindings afterwards (those made before a failure stay).
pub open spec fn pm(pat: Shape, conc: Shape, s: Seq<(Seq<char>, Shape)>) -> (bool, Seq<(Seq<char>, Shape)>)
    decreases pat, 0nat,
{
    match pat {
        Shape::Wildcard => (true, s),
        Shape::Var(n) => match find_binding(s, n, 0) {
            Some(i) => (shapes_equal(s[i].1, conc), s),
            None => (true, s.push((n, conc))),
        },
        Shape::Quote(p) => match conc {
            Shape::Quote(c) => pm(*p, *c, s),
            _ => (false, s),
        },
        Shape::Eval(p) => match conc {
            Shape::Eval(c) => pm(*p, *c, s),
            _ => (false, s),
        },
        Shape::VarRef(k1, p) => match conc {
            Shape::VarRef(k2, c) => if k1 == k2 {
                pm(*p, *c, s)
            } else {
                (false, s)
            },
            _ => (false, s),
        },
        Shape::List(pe, pr) => match conc {
            Shape::List(ce, cr) => if pe.len() > ce.len() {
                (false, s)
            } else {
                let z = pm_zip(pe, ce, identity(pe.len() as int), identity(ce.len() as int), s, 0);
                if !z.0 {
                    z
                } else {
                    let rest = Shape::List(ce.subrange(pe.len() as int, ce.len() as int), cr);
                    match pr {
                        Some(r) => pm(*r, rest, z.1),
                        None => (ce.len() == pe.len() && cr is None, z.1),
                    }
                }
            },
            _ => (false, s),
        },
        Shape::Tuple(pe) => match conc {
            Shape::Tuple(ce) => if pe.len() != ce.len() {
                (false, s)
            } else {
                pm_zip(pe, ce, identity(pe.len() as int), identity(ce.len() as int), s, 0)
            },
            _ => (false, s),
        },
        Shape::SetOf(pe, pr) => match conc {
            Shape::SetOf(ce, cr) => if pe.len() > ce.len() {
                (false, s)
            } else {
                let z = pm_zip(
                    pe,
                    ce,
                    sorted_indices(canon_matrix(pe), pe.len() as int),
                    sorted_indices(canon_matrix(ce), ce.len() as int),
                    s,
                    0,
                );
                if !z.0 {
                    z
                } else {
                    let rest = Shape::SetOf(ce.subrange(pe.len() as int, ce.len() as int), cr);
                    match pr {
                        Some(r) => pm(*r, rest, z.1),
                        None => (ce.len() == pe.len() && cr is None, z.1),
                    }
                }
            },
            _ => (false, s),
        },
        Shape::MapOf(pp, pr) => match conc {
            Shape::MapOf(cp, cr) => if pp.len() > cp.len() {
                (false, s)
            } else {
                let z = pm_zip_pairs(
                    pp,
                    cp,
                    sorted_indices(key_canon_matrix(pp), pp.len() as int),
                    sorted_indices(key_canon_matrix(cp), cp.len() as int),
                    s,
                    0,
                );
                if !z.0 {
                    z
                } else {
                    let rest = Shape::MapOf(cp.subrange(pp.len() as int, cp.len() as int), cr);
                    match pr {
                        Some(r) => pm(*r, rest, z.1),
                        None => (cp.len() == pp.len() && cr is None, z.1),
                    }
                }
            },
            _ => (false, s),
        },
        Shape::Bool(x) => match conc {
            Shape::Bool(y) => (x == y, s),
            _ => (false, s),
        },
        Shape::Long(x) => match conc {
            Shape::Long(y) => (x == y, s),
            _ => (false, s),
        },
        Shape::Str(x) => match conc {
            Shape::Str(y) => (x == y, s),
            _ => (false, s),
        },
        Shape::Uri(x) => match conc {
            Shape::Uri(y) => (x == y, s),
            _ => (false, s),
        },
        Shape::SimpleType(x) => match conc {
            Shape::SimpleType(y) => (x == y, s),
            _ => (false, s),
        },
        Shape::Nil => (conc is Nil, s),
        Shape::Unit => (conc is Unit, s),
        Shape::Disjunction(pl, pr) => match conc {
            Shape::Disjunction(cl, cr) => {
                let z = pm(*pl, *cl, s);
                if !z.0 {
                    z
                } else {
                    pm(*pr, *cr, z.1)
                }
            },
            _ => (false, s),
        },
        Shape::Conjunction(pl, pr) => match conc {
            Shape::Conjunction(cl, cr) => {
                let z = pm(*pl, *cl, s);
                if !z.0 {
                    z
                } else {
                    pm(*pr, *cr, z.1)
                }
            },
            _ => (false, s),
        },
        Shape::Negation(p) => match conc {
            Shape::Negation(c) => pm(*p, *c, s),
            _ => (false, s),
        },
        Shape::Parenthesized(p) => match conc {
            Shape::Parenthesized(c) => pm(*p, *c, s),
            _ => (false, s),
        },
        _ => (false, s),
    }
}

/// Matching the patterns `pe` visited through `ip` against the nodes `ce`
/// visited through `ic`, pairwise from place `k` on, stopping at the first failure.
pub open spec fn pm_zip(
    pe: Seq<Shape>,
    ce: Seq<Shape>,
    ip: Seq<int>,
    ic: Seq<int>,
    s: Seq<(Seq<char>, Shape)>,
    k: int,
) -> (bool, Seq<(Seq<char>, Shape)>)
    decreases pe, ip.len() - k,
{
    if k < 0 || k >= ip.len() {
        (true, s)
    } else if 0 <= ip[k] < pe.len() && 0 <= k < ic.len() && 0 <= ic[k] < ce.len() {
        let z = pm(pe[ip[k]], ce[ic[k]], s);
        if !z.0 {
            z
        } else {
            pm_zip(pe, ce, ip, ic, z.1, k + 1)
        }
    } else {
        (false, s)
    }
}

/// Matching pattern pairs against node pairs, key then value, pairwise
/// through the index sequences, from place `k` on.
pub open spec fn pm_zip_pairs(
    pp: Seq<(Shape, Shape)>,
    cp: Seq<(Shape, Shape)>,
    ip: Seq<int>,
    ic: Seq<int>,
    s: Seq<(Seq<char>, Shape)>,
    k: int,
) -> (bool, Seq<(Seq<char>, Shape)>)
    decreases pp, ip.len() - k,
{
    if k < 0 || k >= ip.len() {
        (true, s)
    } else if 0 <= ip[k] < pp.len() && 0 <= k < ic.len() && 0 <= ic[k] < cp.len() {
        let zk = pm(pp[ip[k]].0, cp[ic[k]].0, s);
        if !zk.0 {
            zk
        } else {
            let zv = pm(pp[ip[k]].1, cp[ic[k]].1, zk.1);
            if !zv.0 {
                zv
            } else {
                pm_zip_pairs(pp, cp, ip, ic, zv.1, k + 1)
            }
        }
    } else {
        (false, s)
    }
}

/// Whether a contract's parameters match call arguments: the counts agree
/// (at least as many arguments when there is a remainder), the formals match
/// the arguments in order, and the remainder matches the list of the
/// arguments left over.
pub open spec fn params_match(formals: Seq<Shape>, rem: Option<Box<Shape>>, inputs: Seq<Shape>) -> bool {
    if rem is None && inputs.len() != formals.len() {
        false
    } else if inputs.len() < formals.len() {
        false
    } else {
        let z = pm_zip(formals, inputs, identity(formals.len() as int), identity(inputs.len() as int), Seq::empty(), 0);
        if !z.0 {
            false
        } else {
            match rem {
                Some(r) => pm(*r, Shape::List(inputs.subrange(formals.len() as int, inputs.len() as int), None), z.1).0,
                None => true,
            }
        }
    }
}

/// Whether two channel expressions name the same contract: variables by
/// name, string literals by value, and quotes, evaluations and variable
/// references by what they hold.
pub open spec fn names_equal(a: RholangNode, b: RholangNode) -> bool
    decreases a,
{
    match (a, b) {
        (RholangNode::Var { name: x, .. }, RholangNode::Var { name: y, .. }) => x@ == y@,
        (RholangNode::StringLiteral { value: x, .. }, RholangNode::StringLiteral { value: y, .. }) => x@ == y@,
        (RholangNode::Quote { quotable: x, .. }, RholangNode::Quote { quotable: y, .. }) => names_equal(*x, *y),
        (RholangNode::Eval { name: x, .. }, RholangNode::Eval { name: y, .. }) => names_equal(*x, *y),
        (RholangNode::VarRef { kind: k1, var: x, .. }, RholangNode::VarRef { kind: k2, var: y, .. }) => k1 == k2
            && names_equal(*x, *y),
        _ => false,
    }
}

/// `names_equal`, where at any level two equal values may also count as
/// the same name.
pub open spec fn names_equal_or_same(a: RholangNode, b: RholangNode) -> bool
    decreases a,
{
    a == b || match (a, b) {
        (RholangNode::Var { name: x, .. }, RholangNode::Var { name: y, .. }) => x@ == y@,
        (RholangNode::StringLiteral { value: x, .. }, RholangNode::StringLiteral { value: y, .. }) => x@ == y@,
        (RholangNode::Quote { quotable: x, .. }, RholangNode::Quote { quotable: y, .. }) => names_equal_or_same(*x, *y),
        (RholangNode::Eval { name: x, .. }, RholangNode::Eval { name: y, .. }) => names_equal_or_same(*x, *y),
        (RholangNode::VarRef { kind: k1, var: x, .. }, RholangNode::VarRef { kind: k2, var: y, .. }) => k1 == k2
            && names_equal_or_same(*x, *y),
        _ => false,
    }
}

/// Whether the bindings `after` begin with the bindings `before`: matching
/// only ever adds bindings.
pub open spec fn keeps_bindings(
    before: Seq<(Seq<char>, Arc<RholangNode>)>,
    after: Seq<(Seq<char>, Arc<RholangNode>)>,
) -> bool {
    &&& before.len() <= after.len()
    &&& forall|i: int| 0 <= i < before.len() ==> #[trigger] after[i] == before[i]
}

/// A list pattern without a remainder matches only a list: one with no
/// remainder and exactly as many elements as the pattern, whatever the
/// bindings made before.
pub proof fn law_list_without_remainder_needs_same_length(pat: RholangNode, conc: RholangNode, s: Seq<(Seq<char>, Shape)>)
    requires
        pat is List,
        pat->List_remainder is None,
        pm(shape_of(pat), shape_of(conc), s).0,
    ensures
        conc is List,
        conc->List_elements@.len() == pat->List_elements@.len(),
        conc->List_remainder is None,
{
    lemma_shape_kind(&conc);
    let pe = pat->List_elements@;
    lemma_shapes_of(pe);
    assert(shape_of(pat) == Shape::List(shapes_of(pe), None::<Box<Shape>>));
    if conc is List {
        let ce = conc->List_elements@;
        let cr = conc->List_remainder;
        lemma_shapes_of(ce);
        assert(shape_of(conc) == Shape::List(shapes_of(ce), opt_shape(cr)));
        assert(opt_shape(cr) is None ==> cr is None);
    }
}

/// Pattern-variable bindings, in the order they were made.
pub struct Substitution {
    bindings: Vec<(String, Arc<RholangNode>)>,
}

impl View for Substitution {
    type V = Seq<(Seq<char>, Shape)>;

    closed spec fn view(&self) -> Seq<(Seq<char>, Shape)> {
        self.bindings@.map_values(|b: (String, Arc<RholangNode>)| (b.0@, shape_of(*b.1)))
    }
}

impl Substitution {
    /// No binding.
    pub fn new() -> (s: Self)
        ensures
            s@ == Seq::<(Seq<char>, Shape)>::empty(),
    {
        let s = Substitution { bindings: Vec::new() };
        assert(s@ =~= Seq::<(Seq<char>, Shape)>::empty());
        s
    }

    /// The bindings themselves: each name with the node bound to it, in the
    /// order they were made. Their shapes are the view.
    pub closed spec fn bound_nodes(&self) -> Seq<(Seq<char>, Arc<RholangNode>)> {
        self.bindings@.map_values(|b: (String, Arc<RholangNode>)| (b.0@, b.1))
    }

    /// The view is the names and shapes of the bound nodes.
    pub proof fn lemma_bound_nodes(&self)
        ensures
            self.bound_nodes().len() == self@.len(),
            forall|i: int| 0 <= i < self@.len() ==> #[trigger] self@[i] == (self.bound_nodes()[i].0, shape_of(*self.bound_nodes()[i].1)),
    {
    }

    /// Number of bindings.
    pub fn len(&self) -> (n: usize)
        ensures
            n == self@.len(),
    {
        self.bindings.len()
    }

    /// Index of the binding of `name`.
    fn find(&self, name: &str) -> (r: Option<usize>)
        ensures
            match r {
                Some(i) => find_binding(self@, name@, 0) == Some(i as int) && i < self@.len(),
                None => find_binding(self@, name@, 0) is None,
            },
    {
        let mut i: usize = 0;
        while i < self.bindings.len()
            invariant
                i <= self.bindings@.len(),
                self@.len() == self.bindings@.len(),
                find_binding(self@, name@, 0) == find_binding(self@, name@, i as int),
            decreases self.bindings@.len() - i,
        {
            assert(self@[i as int].0 == self.bindings@[i as int].0@);
            if str_equal(self.bindings[i].0.as_str(), name) {
                return Some(i);
            }
            i += 1;
        }
        None
    }

    /// The node bound to `name`, if any.
    pub fn get(&self, name: &str) -> (r: Option<Arc<RholangNode>>)
        ensures
            match find_binding(self@, name@, 0) {
                Some(i) => r is Some && shape_of(*r->0) == self@[i].1 && r->0 == self.bound_nodes()[i].1,
                None => r is None,
            },
    {
        match self.find(name) {
            Some(i) => Some(share(&self.bindings[i].1)),
            None => None,
        }
    }

    /// Binds `name` to `node`.
    fn bind(&mut self, name: String, node: Arc<RholangNode>)
        ensures
            final(self)@ == old(self)@.push((name@, shape_of(*node))),
            final(self).bound_nodes() == old(self).bound_nodes().push((name@, node)),
    {
        let ghost n = node;
        self.bindings.push((name, node));
        assert(self.bound_nodes() =~= old(self).bound_nodes().push((name@, n)));
        assert(self@ =~= old(self)@.push((name@, shape_of(*node))));
    }
}

/// New handles to the nodes of `v` from `from` to the end.
fn share_from(v: &RholangNodeVector, from: usize) -> (r: RholangNodeVector)
    requires
        from <= v@.len(),
    ensures
        r@ == v@.subrange(from as int, v@.len() as int),
{
    let mut r: RholangNodeVector = Vec::new();
    let mut i: usize = from;
    while i < v.len()
        invariant
            from <= i <= v@.len(),
            r@ == v@.subrange(from as int, i as int),
        decreases v@.len() - i,
    {
        r.push(share(&v[i]));
        assert(r@ =~= v@.subrange(from as int, i + 1));
        i += 1;
    }
    r
}

/// New handles to the pairs of `v` from `from` to the end.
fn share_pairs_from(v: &RholangNodePairVector, from: usize) -> (r: RholangNodePairVector)
    requires
        from <= v@.len(),
    ensures
        r@ == v@.subrange(from as int, v@.len() as int),
{
    let mut r: RholangNodePairVector = Vec::new();
    let mut i: usize = from;
    while i < v.len()
        invariant
            from <= i <= v@.len(),
            r@ == v@.subrange(from as int, i as int),
        decreases v@.len() - i,
    {
        r.push((share(&v[i].0), share(&v[i].1)));
        assert(r@ =~= v@.subrange(from as int, i + 1));
        i += 1;
    }
    r
}

/// A position-less base for nodes made while matching.
fn empty_base() -> (b: NodeBase)
    ensures
        b == NodeBase::spec_new((RelativePosition { delta_lines: 0, delta_columns: 0, delta_bytes: 0 }), 0, 0, 0, 0),
{
    NodeBase::new(RelativePosition { delta_lines: 0, delta_columns: 0, delta_bytes: 0 }, 0, 0, 0, 0)
}

/// The shapes of a suffix are the suffix of the shapes.
proof fn lemma_shapes_suffix(s: Seq<Arc<RholangNode>>, from: int)
    requires
        0 <= from <= s.len(),
    ensures
        shapes_of(s.subrange(from, s.len() as int)) == shapes_of(s).subrange(from, s.len() as int),
{
    lemma_shapes_of(s);
    lemma_shapes_of(s.subrange(from, s.len() as int));
    assert(shapes_of(s.subrange(from, s.len() as int)) =~= shapes_of(s).subrange(from, s.len() as int));
}

/// The shapes of a suffix of pairs are the suffix of the shapes.
proof fn lemma_pair_shapes_suffix(s: Seq<(Arc<RholangNode>, Arc<RholangNode>)>, from: int)
    requires
        0 <= from <= s.len(),
    ensures
        pair_shapes(s.subrange(from, s.len() as int)) == pair_shapes(s).subrange(from, s.len() as int),
{
    lemma_pair_shapes(s);
    lemma_pair_shapes(s.subrange(from, s.len() as int));
    assert(pair_shapes(s.subrange(from, s.len() as int)) =~= pair_shapes(s).subrange(from, s.len() as int));
}

/// The table of orders between the elements of `v`.
fn canon_matrix_exec(v: &RholangNodeVector) -> (r: Vec<Vec<NodeOrder>>)
    ensures
        table_view(r@) == canon_matrix(shapes_of(v@)),
        r@.len() == v@.len(),
        forall|i: int| 0 <= i < v@.len() ==> #[trigger] r@[i]@.len() == v@.len(),
{
    proof {
        lemma_shapes_of(v@);
    }
    let ghost sv = shapes_of(v@);
    let mut r: Vec<Vec<NodeOrder>> = Vec::new();
    let mut i: usize = 0;
    while i < v.len()
        invariant
            sv == shapes_of(v@),
            sv.len() == v@.len(),
            forall|x: int| 0 <= x < v@.len() ==> #[trigger] sv[x] == shape_of(*v@[x]),
            i <= v@.len(),
            r@.len() == i,
            forall|x: int| 0 <= x < i ==> #[trigger] r@[x]@.len() == v@.len(),
            forall|x: int, y: int| 0 <= x < i && 0 <= y < v@.len() ==> #[trigger] r@[x]@[y] == shape_order(sv[x], sv[y]),
        decreases v@.len() - i,
    {
        let mut row: Vec<NodeOrder> = Vec::new();
        let mut j: usize = 0;
        while j < v.len()
            invariant
                sv.len() == v@.len(),
                forall|x: int| 0 <= x < v@.len() ==> #[trigger] sv[x] == shape_of(*v@[x]),
                i < v@.len(),
                j <= v@.len(),
                row@.len() == j,
                forall|y: int| 0 <= y < j ==> #[trigger] row@[y] == shape_order(sv[i as int], sv[y]),
            decreases v@.len() - j,
        {
            row.push(compare_nodes(&v[i], &v[j]));
            j += 1;
        }
        r.push(row);
        i += 1;
    }
    assert(table_view(r@) =~~= canon_matrix(sv));
    r
}

/// The table of orders between the keys of `v`.
fn key_canon_matrix_exec(v: &RholangNodePairVector) -> (r: Vec<Vec<NodeOrder>>)
    ensures
        table_view(r@) == key_canon_matrix(pair_shapes(v@)),
        r@.len() == v@.len(),
        forall|i: int| 0 <= i < v@.len() ==> #[trigger] r@[i]@.len() == v@.len(),
{
    proof {
        lemma_pair_shapes(v@);
    }
    let ghost sv = pair_shapes(v@);
    let mut r: Vec<Vec<NodeOrder>> = Vec::new();
    let mut i: usize = 0;
    while i < v.len()
        invariant
            sv == pair_shapes(v@),
            sv.len() == v@.len(),
            forall|x: int| 0 <= x < v@.len() ==> #[trigger] sv[x] == (shape_of(*v@[x].0), shape_of(*v@[x].1)),
            i <= v@.len(),
            r@.len() == i,
            forall|x: int| 0 <= x < i ==> #[trigger] r@[x]@.len() == v@.len(),
            forall|x: int, y: int|
                0 <= x < i && 0 <= y < v@.len() ==> #[trigger] r@[x]@[y] == shape_order(sv[x].0, sv[y].0),
        decreases v@.len() - i,
    {
        let mut row: Vec<NodeOrder> = Vec::new();
        let mut j: usize = 0;
        while j < v.len()
            invariant
                sv.len() == v@.len(),
                forall|x: int| 0 <= x < v@.len() ==> #[trigger] sv[x] == (shape_of(*v@[x].0), shape_of(*v@[x].1)),
                i < v@.len(),
                j <= v@.len(),
                row@.len() == j,
                forall|y: int| 0 <= y < j ==> #[trigger] row@[y] == shape_order(sv[i as int].0, sv[y].0),
            decreases v@.len() - j,
        {
            row.push(compare_nodes(&v[i].0, &v[j].0));
            j += 1;
        }
        r.push(row);
        i += 1;
    }
    assert(table_view(r@) =~~= key_canon_matrix(sv));
    r
}

/// Matches the patterns of `pe` visited through `ip` against the nodes of
/// `ce` visited through `ic`, pairwise, stopping at the first failure.
fn match_zip(
    pe: &RholangNodeVector,
    ce: &RholangNodeVector,
    ip: &Vec<usize>,
    ic: &Vec<usize>,
    subst: &mut Substitution,
) -> (r: bool)
    requires
        ip@.len() <= ic@.len(),
        forall|k: int| 0 <= k < ip@.len() ==> #[trigger] ip@[k] < pe@.len(),
        forall|k: int| 0 <= k < ic@.len() ==> #[trigger] ic@[k] < ce@.len(),
    ensures
        (r, final(subst)@) == pm_zip(shapes_of(pe@), shapes_of(ce@), indices_view(ip@), indices_view(ic@), old(subst)@, 0),
        keeps_bindings(old(subst).bound_nodes(), final(subst).bound_nodes()),
    decreases *pe, 2nat,
{
    proof {
        lemma_shapes_of(pe@);
        lemma_shapes_of(ce@);
    }
    let ghost sp = shapes_of(pe@);
    let ghost sc = shapes_of(ce@);
    let ghost vp = indices_view(ip@);
    let ghost vc = indices_view(ic@);
    let mut k: usize = 0;
    while k < ip.len()
        invariant
            sp == shapes_of(pe@),
            sc == shapes_of(ce@),
            vp == indices_view(ip@),
            vc == indices_view(ic@),
            sp.len() == pe@.len(),
            sc.len() == ce@.len(),
            forall|x: int| 0 <= x < pe@.len() ==> #[trigger] sp[x] == shape_of(*pe@[x]),
            forall|x: int| 0 <= x < ce@.len() ==> #[trigger] sc[x] == shape_of(*ce@[x]),
            ip@.len() <= ic@.len(),
            forall|x: int| 0 <= x < ip@.len() ==> #[trigger] ip@[x] < pe@.len(),
            forall|x: int| 0 <= x < ic@.len() ==> #[trigger] ic@[x] < ce@.len(),
            k <= ip@.len(),
            pm_zip(sp, sc, vp, vc, old(subst)@, 0) == pm_zip(sp, sc, vp, vc, subst@, k as int),
            keeps_bindings(old(subst).bound_nodes(), subst.bound_nodes()),
        decreases ip@.len() - k,
    {
        let i = ip[k];
        let j = ic[k];
        assert(vp[k as int] == i && vc[k as int] == j);
        proof {
            assert(decreases_to!(*pe => pe@[i as int]));
        }
        let ok = match_pat(&pe[i], &ce[j], subst);
        if !ok {
            return false;
        }
        k += 1;
    }
    true
}

/// Matches pattern pairs against node pairs, key then value, pairwise
/// through the index sequences, stopping at the first failure.
fn match_zip_pairs(
    pp: &RholangNodePairVector,
    cp: &RholangNodePairVector,
    ip: &Vec<usize>,
    ic: &Vec<usize>,
    subst: &mut Substitution,
) -> (r: bool)
    requires
        ip@.len() <= ic@.len(),
        forall|k: int| 0 <= k < ip@.len() ==> #[trigger] ip@[k] < pp@.len(),
        forall|k: int| 0 <= k < ic@.len() ==> #[trigger] ic@[k] < cp@.len(),
    ensures
        (r, final(subst)@) == pm_zip_pairs(
            pair_shapes(pp@),
            pair_shapes(cp@),
            indices_view(ip@),
            indices_view(ic@),
            old(subst)@,
            0,
        ),
        keeps_bindings(old(subst).bound_nodes(), final(subst).bound_nodes()),
    decreases *pp, 2nat,
{
    proof {
        lemma_pair_shapes(pp@);
        lemma_pair_shapes(cp@);
    }
    let ghost sp = pair_shapes(pp@);
    let ghost sc = pair_shapes(cp@);
    let ghost vp = indices_view(ip@);
    let ghost vc = indices_view(ic@);
    let mut k: usize = 0;
    while k < ip.len()
        invariant
            sp == pair_shapes(pp@),
            sc == pair_shapes(cp@),
            vp == indices_view(ip@),
            vc == indices_view(ic@),
            sp.len() == pp@.len(),
            sc.len() == cp@.len(),
            forall|x: int| 0 <= x < pp@.len() ==> #[trigger] sp[x] == (shape_of(*pp@[x].0), shape_of(*pp@[x].1)),
            forall|x: int| 0 <= x < cp@.len() ==> #[trigger] sc[x] == (shape_of(*cp@[x].0), shape_of(*cp@[x].1)),
            ip@.len() <= ic@.len(),
            forall|x: int| 0 <= x < ip@.len() ==> #[trigger] ip@[x] < pp@.len(),
            forall|x: int| 0 <= x < ic@.len() ==> #[trigger] ic@[x] < cp@.len(),
            k <= ip@.len(),
            pm_zip_pairs(sp, sc, vp, vc, old(subst)@, 0) == pm_zip_pairs(sp, sc, vp, vc, subst@, k as int),
            keeps_bindings(old(subst).bound_nodes(), subst.bound_nodes()),
        decreases ip@.len() - k,
    {
        let i = ip[k];
        let j = ic[k];
        assert(vp[k as int] == i && vc[k as int] == j);
        proof {
            assert(decreases_to!(*pp => pp@[i as int]));
            assert(decreases_to!(pp@[i as int] => pp@[i as int].0));
            assert(decreases_to!(pp@[i as int] => pp@[i as int].1));
        }
        let ok_key = match_pat(&pp[i].0, &cp[j].0, subst);
        if !ok_key {
            return false;
        }
        let ok_value = match_pat(&pp[i].1, &cp[j].1, subst);
        if !ok_value {
            return false;
        }
        k += 1;
    }
    true
}

/// Matches `pat` against `concrete`, extending `subst` with the bindings of
/// pattern variables: a wildcard matches anything; a variable binds a node
/// the first time and must meet an equal node afterwards; lists, tuples,
/// sets and maps match element-wise (sets and maps once sorted), their
/// remainder pattern taking the elements left over; literals match equal
/// literals. The bindings made before a failure are kept.
#[verifier::rlimit(50)]
pub fn match_pat(pat: &Arc<RholangNode>, concrete: &Arc<RholangNode>, subst: &mut Substitution) -> (r: bool)
    ensures
        (r, final(subst)@) == pm(shape_of(**pat), shape_of(**concrete), old(subst)@),
        keeps_bindings(old(subst).bound_nodes(), final(subst).bound_nodes()),
        match **pat {
            RholangNode::Var { name, .. } => find_binding(old(subst)@, name@, 0) is None ==> final(subst).bound_nodes()
                == old(subst).bound_nodes().push((name@, *concrete)),
            _ => true,
        },
    decreases *pat, 0nat,
{
    proof {
        lemma_shape_kind(&**pat);
        lemma_shape_kind(&**concrete);
    }
    match &**pat {
        RholangNode::Wildcard { .. } => true,
        RholangNode::Var { name, .. } => {
            match subst.find(name.as_str()) {
                Some(i) => {
                    let bound = share(&subst.bindings[i].1);
                    assert(subst@[i as int].1 == shape_of(*bound));
                    compare_nodes(&bound, concrete) == NodeOrder::Equal
                },
                None => {
                    subst.bind(name.clone(), share(concrete));
                    true
                },
            }
        },
        RholangNode::Quote { quotable: p, .. } => match &**concrete {
            RholangNode::Quote { quotable: c, .. } => {
                proof {
                    assert(decreases_to!(**pat => (**pat)->Quote_quotable));
                }
                match_pat(p, c, subst)
            },
            _ => false,
        },
        RholangNode::Eval { name: p, .. } => match &**concrete {
            RholangNode::Eval { name: c, .. } => {
                proof {
                    assert(decreases_to!(**pat => (**pat)->Eval_name));
                }
                match_pat(p, c, subst)
            },
            _ => false,
        },
        RholangNode::VarRef { kind: k1, var: p, .. } => match &**concrete {
            RholangNode::VarRef { kind: k2, var: c, .. } => {
                if *k1 != *k2 {
                    return false;
                }
                proof {
                    assert(decreases_to!(**pat => (**pat)->VarRef_var));
                }
                match_pat(p, c, subst)
            },
            _ => false,
        },
        RholangNode::List { elements: pe, remainder: pr, .. } => match &**concrete {
            RholangNode::List { elements: ce, remainder: cr, .. } => {
                proof {
                    lemma_shapes_of(pe@);
                    lemma_shapes_of(ce@);
                    assert(decreases_to!(**pat => (**pat)->List_elements));
                    assert(decreases_to!(**pat => (**pat)->List_remainder));
                    assert(shape_of(**pat) == Shape::List(shapes_of(pe@), opt_shape(*pr)));
                    assert(shape_of(**concrete) == Shape::List(shapes_of(ce@), opt_shape(*cr)));
                }
                if pe.len() > ce.len() {
                    return false;
                }
                let ip = identity_exec(pe.len());
                let ic = identity_exec(ce.len());
                if !match_zip(pe, ce, &ip, &ic, subst) {
                    return false;
                }
                match pr {
                    Some(r) => {
                        let rest_elements = share_from(ce, pe.len());
                        proof {
                            lemma_shapes_suffix(ce@, pe@.len() as int);
                        }
                        let rest = Arc::new(
                            RholangNode::List {
                                base: empty_base(),
                                elements: rest_elements,
                                remainder: share_opt(cr),
                                metadata: None,
                            },
                        );
                        match_pat(r, &rest, subst)
                    },
                    None => ce.len() == pe.len() && cr.is_none(),
                }
            },
            _ => false,
        },
        RholangNode::Tuple { elements: pe, .. } => match &**concrete {
            RholangNode::Tuple { elements: ce, .. } => {
                proof {
                    lemma_shapes_of(pe@);
                    lemma_shapes_of(ce@);
                    assert(decreases_to!(**pat => (**pat)->Tuple_elements));
                    assert(shape_of(**pat) == Shape::Tuple(shapes_of(pe@)));
                    assert(shape_of(**concrete) == Shape::Tuple(shapes_of(ce@)));
                }
                if pe.len() != ce.len() {
                    return false;
                }
                let ip = identity_exec(pe.len());
                let ic = identity_exec(ce.len());
                match_zip(pe, ce, &ip, &ic, subst)
            },
            _ => false,
        },
        RholangNode::SetExpr { elements: pe, remainder: pr, .. } => match &**concrete {
            RholangNode::SetExpr { elements: ce, remainder: cr, .. } => {
                proof {
                    lemma_shapes_of(pe@);
                    lemma_shapes_of(ce@);
                    assert(decreases_to!(**pat => (**pat)->SetExpr_elements));
                    assert(decreases_to!(**pat => (**pat)->SetExpr_remainder));
                    assert(shape_of(**pat) == Shape::SetOf(shapes_of(pe@), opt_shape(*pr)));
                    assert(shape_of(**concrete) == Shape::SetOf(shapes_of(ce@), opt_shape(*cr)));
                }
                let mp = canon_matrix_exec(pe);
                let ip = sorted_indices_exec(&mp, pe.len());
                let mc = canon_matrix_exec(ce);
                let ic = sorted_indices_exec(&mc, ce.len());
                if pe.len() > ce.len() {
                    return false;
                }
                if !match_zip(pe, ce, &ip, &ic, subst) {
                    return false;
                }
                match pr {
                    Some(r) => {
                        let rest_elements = share_from(ce, pe.len());
                        proof {
                            lemma_shapes_suffix(ce@, pe@.len() as int);
                        }
                        let rest = Arc::new(
                            RholangNode::SetExpr {
                                base: empty_base(),
                                elements: rest_elements,
                                remainder: share_opt(cr),
                                metadata: None,
                            },
                        );
                        match_pat(r, &rest, subst)
                    },
                    None => ce.len() == pe.len() && cr.is_none(),
                }
            },
            _ => false,
        },
        RholangNode::MapExpr { pairs: pp, remainder: pr, .. } => match &**concrete {
            RholangNode::MapExpr { pairs: cp, remainder: cr, .. } => {
                proof {
                    lemma_pair_shapes(pp@);
                    lemma_pair_shapes(cp@);
                    assert(decreases_to!(**pat => (**pat)->MapExpr_pairs));
                    assert(decreases_to!(**pat => (**pat)->MapExpr_remainder));
                    assert(shape_of(**pat) == Shape::MapOf(pair_shapes(pp@), opt_shape(*pr)));
                    assert(shape_of(**concrete) == Shape::MapOf(pair_shapes(cp@), opt_shape(*cr)));
                }
                let mp = key_canon_matrix_exec(pp);
                let ip = sorted_indices_exec(&mp, pp.len());
                let mc = key_canon_matrix_exec(cp);
                let ic = sorted_indices_exec(&mc, cp.len());
                if pp.len() > cp.len() {
                    return false;
                }
                if !match_zip_pairs(pp, cp, &ip, &ic, subst) {
                    return false;
                }
                match pr {
                    Some(r) => {
                        let rest_pairs = share_pairs_from(cp, pp.len());
                        proof {
                            lemma_pair_shapes_suffix(cp@, pp@.len() as int);
                        }
                        let rest = Arc::new(
                            RholangNode::MapExpr {
                                base: empty_base(),
                                pairs: rest_pairs,
                                remainder: share_opt(cr),
                                metadata: None,
                            },
                        );
                        match_pat(r, &rest, subst)
                    },
                    None => cp.len() == pp.len() && cr.is_none(),
                }
            },
            _ => false,
        },
        RholangNode::BoolLiteral { value: x, .. } => match &**concrete {
            RholangNode::BoolLiteral { value: y, .. } => *x == *y,
            _ => false,
        },
        RholangNode::LongLiteral { value: x, .. } => match &**concrete {
            RholangNode::LongLiteral { value: y, .. } => *x == *y,
            _ => false,
        },
        RholangNode::StringLiteral { value: x, .. } => match &**concrete {
            RholangNode::StringLiteral { value: y, .. } => str_equal(x.as_str(), y.as_str()),
            _ => false,
        },
        RholangNode::UriLiteral { value: x, .. } => match &**concrete {
            RholangNode::UriLiteral { value: y, .. } => str_equal(x.as_str(), y.as_str()),
            _ => false,
        },
        RholangNode::SimpleType { value: x, .. } => match &**concrete {
            RholangNode::SimpleType { value: y, .. } => str_equal(x.as_str(), y.as_str()),
            _ => false,
        },
        RholangNode::Nil { .. } => match &**concrete {
            RholangNode::Nil { .. } => true,
            _ => false,
        },
        RholangNode::Unit { .. } => match &**concrete {
            RholangNode::Unit { .. } => true,
            _ => false,
        },
        RholangNode::Disjunction { left: pl, right: pr, .. } => match &**concrete {
            RholangNode::Disjunction { left: cl, right: cr, .. } => {
                proof {
                    assert(decreases_to!(**pat => (**pat)->Disjunction_left));
                    assert(decreases_to!(**pat => (**pat)->Disjunction_right));
                }
                if !match_pat(pl, cl, subst) {
                    return false;
                }
                match_pat(pr, cr, subst)
            },
            _ => false,
        },
        RholangNode::Conjunction { left: pl, right: pr, .. } => match &**concrete {
            RholangNode::Conjunction { left: cl, right: cr, .. } => {
                proof {
                    assert(decreases_to!(**pat => (**pat)->Conjunction_left));
                    assert(decreases_to!(**pat => (**pat)->Conjunction_right));
                }
                if !match_pat(pl, cl, subst) {
                    return false;
                }
                match_pat(pr, cr, subst)
            },
            _ => false,
        },
        RholangNode::Negation { operand: p, .. } => match &**concrete {
            RholangNode::Negation { operand: c, .. } => {
                proof {
                    assert(decreases_to!(**pat => (**pat)->Negation_operand));
                }
                match_pat(p, c, subst)
            },
            _ => false,
        },
        RholangNode::Parenthesized { expr: p, .. } => match &**concrete {
            RholangNode::Parenthesized { expr: c, .. } => {
                proof {
                    assert(decreases_to!(**pat => (**pat)->Parenthesized_expr));
                }
                match_pat(p, c, subst)
            },
            _ => false,
        },
        _ => false,
    }
}

/// Whether two handles point to the same allocation: `Arc::ptr_eq`. Two
/// handles to one allocation see one value; the converse is not claimed.
#[verifier::external_body]
fn same_allocation(a: &Arc<RholangNode>, b: &Arc<RholangNode>) -> (r: bool)
    ensures
        r ==> *a == *b,
{
    Arc::ptr_eq(a, b)
}

/// Whether two channel expressions name the same contract. Handles to one
/// allocation are taken as naming the same contract without looking
/// further, so the answer is also `true` on some equal values that
/// `names_equal` does not relate.
pub fn contract_names_equal(a: &Arc<RholangNode>, b: &Arc<RholangNode>) -> (r: bool)
    ensures
        names_equal(**a, **b) ==> r,
        r ==> names_equal_or_same(**a, **b),
    decreases *a,
{
    if same_allocation(a, b) {
        return true;
    }
    match (&**a, &**b) {
        (RholangNode::Var { name: x, .. }, RholangNode::Var { name: y, .. }) => str_equal(x.as_str(), y.as_str()),
        (RholangNode::StringLiteral { value: x, .. }, RholangNode::StringLiteral { value: y, .. }) => str_equal(
            x.as_str(),
            y.as_str(),
        ),
        (RholangNode::Quote { quotable: x, .. }, RholangNode::Quote { quotable: y, .. }) => {
            proof {
                assert(decreases_to!(**a => (**a)->Quote_quotable));
            }
            contract_names_equal(x, y)
        },
        (RholangNode::Eval { name: x, .. }, RholangNode::Eval { name: y, .. }) => {
            proof {
                assert(decreases_to!(**a => (**a)->Eval_name));
            }
            contract_names_equal(x, y)
        },
        (RholangNode::VarRef { kind: k1, var: x, .. }, RholangNode::VarRef { kind: k2, var: y, .. }) => {
            proof {
                assert(decreases_to!(**a => (**a)->VarRef_var));
            }
            *k1 == *k2 && contract_names_equal(x, y)
        },
        _ => false,
    }
}

/// Whether a contract definition answers a call on `channel` with
/// `inputs`: the contract's name designates the channel, and its
/// parameters match the arguments (see `params_match`) from no binding.
pub fn match_contract(channel: &Arc<RholangNode>, inputs: &RholangNodeVector, contract: &Arc<RholangNode>) -> (r: bool)
    ensures
        match **contract {
            RholangNode::Contract { name, formals, formals_remainder, .. } => {
                &&& (names_equal(*name, **channel) && params_match(
                    shapes_of(formals@),
                    opt_shape(formals_remainder),
                    shapes_of(inputs@),
                )) ==> r
                &&& r ==> (names_equal_or_same(*name, **channel) && params_match(
                    shapes_of(formals@),
                    opt_shape(formals_remainder),
                    shapes_of(inputs@),
                ))
            },
            _ => !r,
        },
{
    match &**contract {
        RholangNode::Contract { name, formals, formals_remainder, .. } => {
            proof {
                lemma_shapes_of(formals@);
                lemma_shapes_of(inputs@);
            }
            if !contract_names_equal(name, channel) {
                return false;
            }
            let mut subst = Substitution::new();
            let min_len = formals.len();
            if formals_remainder.is_none() && inputs.len() != min_len {
                return false;
            }
            if inputs.len() < min_len {
                return false;
            }
            let ip = identity_exec(min_len);
            let ic = identity_exec(inputs.len());
            if !match_zip(formals, inputs, &ip, &ic, &mut subst) {
                return false;
            }
            match formals_remainder {
                Some(rem) => {
                    let rest = share_from(inputs, min_len);
                    proof {
                        lemma_shapes_suffix(inputs@, min_len as int);
                    }
                    let list = Arc::new(
                        RholangNode::List { base: empty_base(), elements: rest, remainder: None, metadata: None },
                    );
                    assert(rest@ == inputs@.subrange(min_len as int, inputs@.len() as int));
                    assert(opt_shape(None) == None::<Box<Shape>>);
                    assert(shape_of(*list) == Shape::List(
                        shapes_of(inputs@).subrange(min_len as int, inputs@.len() as int),
                        None,
                    ));
                    match_pat(rem, &list, &mut subst)
                },
                None => true,
            }
        },
        _ => false,
    }
}

} // verus!
