//! The structural order of nodes: by tag, then by the contents that each
//! construct is compared on; the elements of lists, sets and maps are put
//! in order before they are compared.
use std::cmp::Ordering;
use std::sync::Arc;
use vstd::prelude::*;
use crate::rholang_node::node_shape::{
    height, lemma_elements_below, lemma_height_unfold, lemma_shape_kind, lemma_tag_kind, lemma_pair_shapes, lemma_pairs_below,
    lemma_shapes_of, opt_shape, pair_shapes, pairs_height, seq_height, shape_of, shape_tag, shapes_of,
    Shape,
};
use crate::rholang_node::node_types::{RholangNode, RholangNodePairVector, RholangNodeVector, RholangVarRefKind};

verus! {

/// The outcome of comparing two values.
#[derive(Debug, Clone, Copy, PartialEq, Eq, Structural)]
pub enum NodeOrder {
    Less,
    Equal,
    Greater,
}

/// The first order unless it is `Equal`, then the second.
pub open spec fn then_order(a: NodeOrder, b: NodeOrder) -> NodeOrder {
    if a == NodeOrder::Equal {
        b
    } else {
        a
    }
}

/// The order of two integers.
pub open spec fn int_order(x: int, y: int) -> NodeOrder {
    if x < y {
        NodeOrder::Less
    } else if x == y {
        NodeOrder::Equal
    } else {
        NodeOrder::Greater
    }
}

/// The order of two booleans: `false` before `true`.
pub open spec fn bool_order(x: bool, y: bool) -> NodeOrder {
    if x == y {
        NodeOrder::Equal
    } else if !x {
        NodeOrder::Less
    } else {
        NodeOrder::Greater
    }
}

/// The order of two variable-reference kinds: `Bind` before `Unforgeable`.
pub open spec fn kind_order(x: RholangVarRefKind, y: RholangVarRefKind) -> NodeOrder {
    if x == y {
        NodeOrder::Equal
    } else if x == RholangVarRefKind::Bind {
        NodeOrder::Less
    } else {
        NodeOrder::Greater
    }
}

/// The lexicographic order of two texts by code point, from position `i` on.
pub open spec fn text_order_from(a: Seq<char>, b: Seq<char>, i: int) -> NodeOrder
    decreases a.len() - i,
{
    if i < 0 || i >= a.len() {
        if i >= 0 && i < b.len() {
            NodeOrder::Less
        } else {
            NodeOrder::Equal
        }
    } else if i >= b.len() {
        NodeOrder::Greater
    } else if (a[i] as u32) < (b[i] as u32) {
        NodeOrder::Less
    } else if (a[i] as u32) > (b[i] as u32) {
        NodeOrder::Greater
    } else {
        text_order_from(a, b, i + 1)
    }
}

/// The lexicographic order of two texts by code point.
pub open spec fn text_order(a: Seq<char>, b: Seq<char>) -> NodeOrder {
    text_order_from(a, b, 0)
}

/// Whether element `j` of a row-major order table goes before element `i`.
pub open spec fn goes_before(m: Seq<Seq<NodeOrder>>, j: int, i: int) -> bool {
    j != i && (m[j][i] == NodeOrder::Less || (m[j][i] == NodeOrder::Equal && j < i))
}

/// How many of the first `j` elements go before element `i`.
pub open spec fn rank_upto(m: Seq<Seq<NodeOrder>>, i: int, j: int) -> nat
    decreases j,
{
    if j <= 0 {
        0
    } else {
        rank_upto(m, i, j - 1) + if goes_before(m, j - 1, i) {
            1nat
        } else {
            0nat
        }
    }
}

/// The place of element `i` among `n` elements sorted stably by the table `m`.
pub open spec fn rank(m: Seq<Seq<NodeOrder>>, n: int, i: int) -> nat {
    rank_upto(m, i, n)
}

/// The first element, from `i` on, whose place is `k`; `k` itself if none.
pub open spec fn first_of_rank(m: Seq<Seq<NodeOrder>>, n: int, k: int, i: int) -> int
    decreases n - i,
{
    if i < 0 || i >= n {
        k
    } else if rank(m, n, i) == k {
        i
    } else {
        first_of_rank(m, n, k, i + 1)
    }
}

/// The indices of `n` elements in stably sorted order by the table `m`.
pub open spec fn sorted_indices(m: Seq<Seq<NodeOrder>>, n: int) -> Seq<int> {
    Seq::new(n as nat, |k: int| first_of_rank(m, n, k, 0))
}

/// The indices `0..n` in order.
pub open spec fn identity(n: int) -> Seq<int> {
    Seq::new(n as nat, |k: int| k)
}

/// The lexicographic order of two sequences visited through index
/// sequences `pa` and `pb`, element orders read in `cross`, from place `k` on.
pub open spec fn lex_from(pa: Seq<int>, pb: Seq<int>, cross: Seq<Seq<NodeOrder>>, k: int) -> NodeOrder
    decreases pa.len() - k,
{
    if k < 0 || k >= pa.len() || k >= pb.len() {
        int_order(pa.len() as int, pb.len() as int)
    } else if cross[pa[k]][pb[k]] != NodeOrder::Equal {
        cross[pa[k]][pb[k]]
    } else {
        lex_from(pa, pb, cross, k + 1)
    }
}

/// The order of two shapes, looking `f` levels deep.
pub open spec fn order_fuel(a: Shape, b: Shape, f: nat) -> NodeOrder
    decreases f, 0nat,
{
    if f == 0 {
        NodeOrder::Equal
    } else if shape_tag(a) != shape_tag(b) {
        int_order(shape_tag(a) as int, shape_tag(b) as int)
    } else {
        let g = (f - 1) as nat;
        match (a, b) {
            (Shape::Var(x), Shape::Var(y)) => text_order(x, y),
            (Shape::Bool(x), Shape::Bool(y)) => bool_order(x, y),
            (Shape::Long(x), Shape::Long(y)) => int_order(x as int, y as int),
            (Shape::Str(x), Shape::Str(y)) => text_order(x, y),
            (Shape::Uri(x), Shape::Uri(y)) => text_order(x, y),
            (Shape::SimpleType(x), Shape::SimpleType(y)) => text_order(x, y),
            (Shape::Quote(x), Shape::Quote(y)) => order_fuel(*x, *y, g),
            (Shape::Eval(x), Shape::Eval(y)) => order_fuel(*x, *y, g),
            (Shape::VarRef(k1, x), Shape::VarRef(k2, y)) => then_order(kind_order(k1, k2), order_fuel(*x, *y, g)),
            (Shape::Disjunction(l1, r1), Shape::Disjunction(l2, r2)) => then_order(
                order_fuel(*l1, *l2, g),
                order_fuel(*r1, *r2, g),
            ),
            (Shape::Conjunction(l1, r1), Shape::Conjunction(l2, r2)) => then_order(
                order_fuel(*l1, *l2, g),
                order_fuel(*r1, *r2, g),
            ),
            (Shape::Negation(x), Shape::Negation(y)) => order_fuel(*x, *y, g),
            (Shape::Parenthesized(x), Shape::Parenthesized(y)) => order_fuel(*x, *y, g),
            (Shape::List(ea, ra), Shape::List(eb, rb)) => then_order(
                sorted_seq_order(ea, eb, g),
                opt_order(ra, rb, g),
            ),
            (Shape::SetOf(ea, ra), Shape::SetOf(eb, rb)) => then_order(
                sorted_seq_order(ea, eb, g),
                opt_order(ra, rb, g),
            ),
            (Shape::Tuple(ea), Shape::Tuple(eb)) => lex_from(
                identity(ea.len() as int),
                identity(eb.len() as int),
                order_matrix(ea, eb, g),
                0,
            ),
            (Shape::MapOf(pa, ra), Shape::MapOf(pb, rb)) => then_order(
                sorted_pairs_order(pa, pb, g),
                opt_order(ra, rb, g),
            ),
            _ => NodeOrder::Equal,
        }
    }
}

/// The order of two optional shapes: absent before present.
pub open spec fn opt_order(a: Option<Box<Shape>>, b: Option<Box<Shape>>, g: nat) -> NodeOrder
    decreases g, 1nat,
{
    match (a, b) {
        (None, None) => NodeOrder::Equal,
        (None, Some(_)) => NodeOrder::Less,
        (Some(_), None) => NodeOrder::Greater,
        (Some(x), Some(y)) => order_fuel(*x, *y, g),
    }
}

/// The table of orders between the elements of `s` and those of `t`.
pub open spec fn order_matrix(s: Seq<Shape>, t: Seq<Shape>, g: nat) -> Seq<Seq<NodeOrder>>
    decreases g, 1nat,
{
    Seq::new(s.len(), |i: int| Seq::new(t.len(), |j: int| order_fuel(s[i], t[j], g)))
}

/// The table of orders between the keys of `s` and those of `t`.
pub open spec fn key_matrix(s: Seq<(Shape, Shape)>, t: Seq<(Shape, Shape)>, g: nat) -> Seq<Seq<NodeOrder>>
    decreases g, 1nat,
{
    Seq::new(s.len(), |i: int| Seq::new(t.len(), |j: int| order_fuel(s[i].0, t[j].0, g)))
}

/// The table of orders between the pairs of `s` and those of `t`: by key, then by value.
pub open spec fn pair_matrix(s: Seq<(Shape, Shape)>, t: Seq<(Shape, Shape)>, g: nat) -> Seq<Seq<NodeOrder>>
    decreases g, 1nat,
{
    Seq::new(
        s.len(),
        |i: int| Seq::new(t.len(), |j: int| then_order(order_fuel(s[i].0, t[j].0, g), order_fuel(s[i].1, t[j].1, g))),
    )
}

/// The lexicographic order of two sequences once each is sorted.
pub open spec fn sorted_seq_order(ea: Seq<Shape>, eb: Seq<Shape>, g: nat) -> NodeOrder
    decreases g, 2nat,
{
    lex_from(
        sorted_indices(order_matrix(ea, ea, g), ea.len() as int),
        sorted_indices(order_matrix(eb, eb, g), eb.len() as int),
        order_matrix(ea, eb, g),
        0,
    )
}

/// The lexicographic order of two sequences of pairs once each is sorted by key.
pub open spec fn sorted_pairs_order(pa: Seq<(Shape, Shape)>, pb: Seq<(Shape, Shape)>, g: nat) -> NodeOrder
    decreases g, 2nat,
{
    lex_from(
        sorted_indices(key_matrix(pa, pa, g), pa.len() as int),
        sorted_indices(key_matrix(pb, pb, g), pb.len() as int),
        pair_matrix(pa, pb, g),
        0,
    )
}

/// The structural order of two nodes.
pub open spec fn node_order(a: RholangNode, b: RholangNode) -> NodeOrder {
    let sa = shape_of(a);
    let sb = shape_of(b);
    order_fuel(sa, sb, height(sa) + height(sb) + 1)
}

/// The values of a table of orders.
pub open spec fn table_view(t: Seq<Vec<NodeOrder>>) -> Seq<Seq<NodeOrder>> {
    t.map_values(|row: Vec<NodeOrder>| row@)
}

/// The values of a sequence of indices.
pub open spec fn indices_view(v: Seq<usize>) -> Seq<int> {
    v.map_values(|x: usize| x as int)
}

/// The order of two texts by code point.
pub fn text_order_exec(a: &str, b: &str) -> (r: NodeOrder)
    ensures
        r == text_order(a@, b@),
{
    let na = a.unicode_len();
    let nb = b.unicode_len();
    let mut i: usize = 0;
    while i < na && i < nb
        invariant
            na == a@.len(),
            nb == b@.len(),
            i <= na,
            i <= nb,
            text_order(a@, b@) == text_order_from(a@, b@, i as int),
        decreases na - i,
    {
        let x = a.get_char(i) as u32;
        let y = b.get_char(i) as u32;
        if x < y {
            return NodeOrder::Less;
        }
        if x > y {
            return NodeOrder::Greater;
        }
        i += 1;
    }
    if i < nb {
        NodeOrder::Less
    } else if i < na {
        NodeOrder::Greater
    } else {
        NodeOrder::Equal
    }
}

/// The order of two integers.
pub fn long_order(x: i64, y: i64) -> (r: NodeOrder)
    ensures
        r == int_order(x as int, y as int),
{
    if x < y {
        NodeOrder::Less
    } else if x == y {
        NodeOrder::Equal
    } else {
        NodeOrder::Greater
    }
}

/// The order of two counts.
fn count_order(x: usize, y: usize) -> (r: NodeOrder)
    ensures
        r == int_order(x as int, y as int),
{
    if x < y {
        NodeOrder::Less
    } else if x == y {
        NodeOrder::Equal
    } else {
        NodeOrder::Greater
    }
}

/// The order of two tags.
fn tag_order(x: u32, y: u32) -> (r: NodeOrder)
    ensures
        r == int_order(x as int, y as int),
{
    if x < y {
        NodeOrder::Less
    } else if x == y {
        NodeOrder::Equal
    } else {
        NodeOrder::Greater
    }
}

/// The places of `n` elements sorted stably by the table `m`.
fn ranks_exec(m: &Vec<Vec<NodeOrder>>, n: usize) -> (r: Vec<usize>)
    requires
        m@.len() == n,
        forall|i: int| 0 <= i < n ==> #[trigger] m@[i]@.len() == n,
    ensures
        r@.len() == n,
        forall|i: int| 0 <= i < n ==> #[trigger] r@[i] as int == rank(table_view(m@), n as int, i),
{
    let ghost t = table_view(m@);
    let mut r: Vec<usize> = Vec::new();
    let mut i: usize = 0;
    while i < n
        invariant
            m@.len() == n,
            forall|x: int| 0 <= x < n ==> #[trigger] m@[x]@.len() == n,
            t == table_view(m@),
            i <= n,
            r@.len() == i,
            forall|x: int| 0 <= x < i ==> #[trigger] r@[x] as int == rank(t, n as int, x),
        decreases n - i,
    {
        let mut count: usize = 0;
        let mut j: usize = 0;
        while j < n
            invariant
                m@.len() == n,
                forall|x: int| 0 <= x < n ==> #[trigger] m@[x]@.len() == n,
                t == table_view(m@),
                i < n,
                j <= n,
                count as int == rank_upto(t, i as int, j as int),
                count <= j,
            decreases n - j,
        {
            let o = m[j][i];
            assert(t[j as int][i as int] == o);
            if j != i && (o == NodeOrder::Less || (o == NodeOrder::Equal && j < i)) {
                count += 1;
            }
            j += 1;
        }
        r.push(count);
        i += 1;
    }
    r
}

/// The indices of `n` elements in stably sorted order by the table `m`.
pub(crate) fn sorted_indices_exec(m: &Vec<Vec<NodeOrder>>, n: usize) -> (r: Vec<usize>)
    requires
        m@.len() == n,
        forall|i: int| 0 <= i < n ==> #[trigger] m@[i]@.len() == n,
    ensures
        indices_view(r@) == sorted_indices(table_view(m@), n as int),
        r@.len() == n,
        forall|k: int| 0 <= k < n ==> #[trigger] r@[k] < n,
{
    let ghost t = table_view(m@);
    let ranks = ranks_exec(m, n);
    let mut r: Vec<usize> = Vec::new();
    let mut k: usize = 0;
    while k < n
        invariant
            t == table_view(m@),
            ranks@.len() == n,
            forall|i: int| 0 <= i < n ==> #[trigger] ranks@[i] as int == rank(t, n as int, i),
            k <= n,
            r@.len() == k,
            forall|x: int| 0 <= x < k ==> #[trigger] r@[x] as int == first_of_rank(t, n as int, x, 0),
            forall|x: int| 0 <= x < k ==> #[trigger] r@[x] < n,
        decreases n - k,
    {
        let mut i: usize = 0;
        while i < n && ranks[i] != k
            invariant
                ranks@.len() == n,
                forall|x: int| 0 <= x < n ==> #[trigger] ranks@[x] as int == rank(t, n as int, x),
                k < n,
                i <= n,
                first_of_rank(t, n as int, k as int, 0) == first_of_rank(t, n as int, k as int, i as int),
            decreases n - i,
        {
            i += 1;
        }
        let found: usize = if i < n {
            i
        } else {
            k
        };
        assert(found as int == first_of_rank(t, n as int, k as int, i as int));
        r.push(found);
        k += 1;
    }
    assert(indices_view(r@) =~= sorted_indices(t, n as int));
    r
}

/// The lexicographic order of two sequences visited through index sequences.
fn lex_exec(pa: &Vec<usize>, pb: &Vec<usize>, cross: &Vec<Vec<NodeOrder>>, ncols: usize) -> (r: NodeOrder)
    requires
        forall|k: int| 0 <= k < pa@.len() ==> #[trigger] pa@[k] < cross@.len(),
        forall|i: int| 0 <= i < cross@.len() ==> #[trigger] cross@[i]@.len() == ncols,
        forall|k: int| 0 <= k < pb@.len() ==> #[trigger] pb@[k] < ncols,
    ensures
        r == lex_from(indices_view(pa@), indices_view(pb@), table_view(cross@), 0),
{
    let ghost va = indices_view(pa@);
    let ghost vb = indices_view(pb@);
    let ghost t = table_view(cross@);
    let mut k: usize = 0;
    while k < pa.len() && k < pb.len()
        invariant
            va == indices_view(pa@),
            vb == indices_view(pb@),
            t == table_view(cross@),
            forall|x: int| 0 <= x < pa@.len() ==> #[trigger] pa@[x] < cross@.len(),
            forall|i: int| 0 <= i < cross@.len() ==> #[trigger] cross@[i]@.len() == ncols,
            forall|x: int| 0 <= x < pb@.len() ==> #[trigger] pb@[x] < ncols,
            k <= pa@.len(),
            k <= pb@.len(),
            lex_from(va, vb, t, 0) == lex_from(va, vb, t, k as int),
        decreases pa@.len() - k,
    {
        let i = pa[k];
        let j = pb[k];
        let o = cross[i][j];
        assert(t[va[k as int]][vb[k as int]] == o);
        if o != NodeOrder::Equal {
            return o;
        }
        k += 1;
    }
    count_order(pa.len(), pb.len())
}

/// The order of two nodes, looking `f` levels deep.
#[verifier::rlimit(60)]
fn compare_fuel(a: &RholangNode, b: &RholangNode, Ghost(f): Ghost<nat>) -> (r: NodeOrder)
    requires
        f > height(shape_of(*a)),
        f > height(shape_of(*b)),
    ensures
        r == order_fuel(shape_of(*a), shape_of(*b), f),
    decreases f, 0nat,
{
    let ta = a.tag();
    let tb = b.tag();
    proof {
        lemma_shape_tag(*a);
        lemma_shape_tag(*b);
        lemma_shape_kind(a);
        lemma_shape_kind(b);
        lemma_tag_kind(*a);
        lemma_tag_kind(*b);
    }
    if ta != tb {
        return tag_order(ta, tb);
    }
    let ghost g = (f - 1) as nat;
    match (a, b) {
        (RholangNode::Var { name: x, .. }, RholangNode::Var { name: y, .. }) => text_order_exec(x.as_str(), y.as_str()),
        (RholangNode::BoolLiteral { value: x, .. }, RholangNode::BoolLiteral { value: y, .. }) => {
            if *x == *y {
                NodeOrder::Equal
            } else if !*x {
                NodeOrder::Less
            } else {
                NodeOrder::Greater
            }
        },
        (RholangNode::LongLiteral { value: x, .. }, RholangNode::LongLiteral { value: y, .. }) => long_order(*x, *y),
        (RholangNode::StringLiteral { value: x, .. }, RholangNode::StringLiteral { value: y, .. }) => text_order_exec(
            x.as_str(),
            y.as_str(),
        ),
        (RholangNode::UriLiteral { value: x, .. }, RholangNode::UriLiteral { value: y, .. }) => text_order_exec(
            x.as_str(),
            y.as_str(),
        ),
        (RholangNode::SimpleType { value: x, .. }, RholangNode::SimpleType { value: y, .. }) => text_order_exec(
            x.as_str(),
            y.as_str(),
        ),
        (RholangNode::Quote { quotable: x, .. }, RholangNode::Quote { quotable: y, .. }) => compare_fuel(x, y, Ghost(g)),
        (RholangNode::Eval { name: x, .. }, RholangNode::Eval { name: y, .. }) => compare_fuel(x, y, Ghost(g)),
        (RholangNode::VarRef { kind: k1, var: x, .. }, RholangNode::VarRef { kind: k2, var: y, .. }) => {
            if *k1 != *k2 {
                if *k1 == RholangVarRefKind::Bind {
                    NodeOrder::Less
                } else {
                    NodeOrder::Greater
                }
            } else {
                compare_fuel(x, y, Ghost(g))
            }
        },
        (
            RholangNode::Disjunction { left: l1, right: r1, .. },
            RholangNode::Disjunction { left: l2, right: r2, .. },
        ) => {
            let o = compare_fuel(l1, l2, Ghost(g));
            if o != NodeOrder::Equal {
                o
            } else {
                compare_fuel(r1, r2, Ghost(g))
            }
        },
        (
            RholangNode::Conjunction { left: l1, right: r1, .. },
            RholangNode::Conjunction { left: l2, right: r2, .. },
        ) => {
            let o = compare_fuel(l1, l2, Ghost(g));
            if o != NodeOrder::Equal {
                o
            } else {
                compare_fuel(r1, r2, Ghost(g))
            }
        },
        (RholangNode::Negation { operand: x, .. }, RholangNode::Negation { operand: y, .. }) => compare_fuel(
            x,
            y,
            Ghost(g),
        ),
        (RholangNode::Parenthesized { expr: x, .. }, RholangNode::Parenthesized { expr: y, .. }) => compare_fuel(
            x,
            y,
            Ghost(g),
        ),
        (
            RholangNode::List { elements: ea, remainder: ra, .. },
            RholangNode::List { elements: eb, remainder: rb, .. },
        ) => {
            proof {
                lemma_height_unfold(shapes_of(ea@), Seq::empty(), opt_shape(*ra));
                lemma_height_unfold(shapes_of(eb@), Seq::empty(), opt_shape(*rb));
            }
            let o = sorted_seq_exec(ea, eb, Ghost(g));
            if o != NodeOrder::Equal {
                o
            } else {
                opt_order_exec(ra, rb, Ghost(g))
            }
        },
        (
            RholangNode::SetExpr { elements: ea, remainder: ra, .. },
            RholangNode::SetExpr { elements: eb, remainder: rb, .. },
        ) => {
            proof {
                lemma_height_unfold(shapes_of(ea@), Seq::empty(), opt_shape(*ra));
                lemma_height_unfold(shapes_of(eb@), Seq::empty(), opt_shape(*rb));
            }
            let o = sorted_seq_exec(ea, eb, Ghost(g));
            if o != NodeOrder::Equal {
                o
            } else {
                opt_order_exec(ra, rb, Ghost(g))
            }
        },
        (RholangNode::Tuple { elements: ea, .. }, RholangNode::Tuple { elements: eb, .. }) => {
            proof {
                lemma_height_unfold(shapes_of(ea@), Seq::empty(), None);
                lemma_height_unfold(shapes_of(eb@), Seq::empty(), None);
                lemma_elements_below(ea@, g);
                lemma_elements_below(eb@, g);
                lemma_shapes_of(ea@);
                lemma_shapes_of(eb@);
            }
            let cross = matrix_exec(ea, eb, Ghost(g));
            let pa = identity_exec(ea.len());
            let pb = identity_exec(eb.len());
            lex_exec(&pa, &pb, &cross, eb.len())
        },
        (
            RholangNode::MapExpr { pairs: pa, remainder: ra, .. },
            RholangNode::MapExpr { pairs: pb, remainder: rb, .. },
        ) => {
            proof {
                lemma_height_unfold(Seq::empty(), pair_shapes(pa@), opt_shape(*ra));
                lemma_height_unfold(Seq::empty(), pair_shapes(pb@), opt_shape(*rb));
            }
            let o = sorted_pairs_exec(pa, pb, Ghost(g));
            if o != NodeOrder::Equal {
                o
            } else {
                opt_order_exec(ra, rb, Ghost(g))
            }
        },
        _ => NodeOrder::Equal,
    }
}

/// The indices `0..n` in order.
pub(crate) fn identity_exec(n: usize) -> (r: Vec<usize>)
    ensures
        indices_view(r@) == identity(n as int),
        r@.len() == n,
        forall|k: int| 0 <= k < n ==> #[trigger] r@[k] == k,
{
    let mut r: Vec<usize> = Vec::new();
    let mut k: usize = 0;
    while k < n
        invariant
            k <= n,
            r@.len() == k,
            forall|x: int| 0 <= x < k ==> #[trigger] r@[x] == x,
        decreases n - k,
    {
        r.push(k);
        k += 1;
    }
    assert(indices_view(r@) =~= identity(n as int));
    r
}

/// The order of two optional nodes, looking `g` levels deep.
fn opt_order_exec(a: &Option<Arc<RholangNode>>, b: &Option<Arc<RholangNode>>, Ghost(g): Ghost<nat>) -> (r: NodeOrder)
    requires
        *a matches Some(x) ==> g > height(shape_of(*x)),
        *b matches Some(y) ==> g > height(shape_of(*y)),
    ensures
        r == opt_order(opt_shape(*a), opt_shape(*b), g),
    decreases g, 1nat,
{
    match (a, b) {
        (None, None) => NodeOrder::Equal,
        (None, Some(_)) => NodeOrder::Less,
        (Some(_), None) => NodeOrder::Greater,
        (Some(x), Some(y)) => compare_fuel(x, y, Ghost(g)),
    }
}

/// The table of orders between the elements of `s` and those of `t`.
fn matrix_exec(s: &RholangNodeVector, t: &RholangNodeVector, Ghost(g): Ghost<nat>) -> (r: Vec<Vec<NodeOrder>>)
    requires
        forall|i: int| 0 <= i < s@.len() ==> g > height(#[trigger] shape_of(*s@[i])),
        forall|j: int| 0 <= j < t@.len() ==> g > height(#[trigger] shape_of(*t@[j])),
    ensures
        table_view(r@) == order_matrix(shapes_of(s@), shapes_of(t@), g),
        r@.len() == s@.len(),
        forall|i: int| 0 <= i < s@.len() ==> #[trigger] r@[i]@.len() == t@.len(),
    decreases g, 1nat,
{
    proof {
        lemma_shapes_of(s@);
        lemma_shapes_of(t@);
    }
    let ghost ss = shapes_of(s@);
    let ghost ts = shapes_of(t@);
    let mut r: Vec<Vec<NodeOrder>> = Vec::new();
    let mut i: usize = 0;
    while i < s.len()
        invariant
            ss == shapes_of(s@),
            ts == shapes_of(t@),
            ss.len() == s@.len(),
            ts.len() == t@.len(),
            forall|x: int| 0 <= x < s@.len() ==> #[trigger] ss[x] == shape_of(*s@[x]),
            forall|x: int| 0 <= x < t@.len() ==> #[trigger] ts[x] == shape_of(*t@[x]),
            forall|x: int| 0 <= x < s@.len() ==> g > height(#[trigger] shape_of(*s@[x])),
            forall|x: int| 0 <= x < t@.len() ==> g > height(#[trigger] shape_of(*t@[x])),
            i <= s@.len(),
            r@.len() == i,
            forall|x: int| 0 <= x < i ==> #[trigger] r@[x]@.len() == t@.len(),
            forall|x: int, y: int|
                0 <= x < i && 0 <= y < t@.len() ==> #[trigger] r@[x]@[y] == order_fuel(ss[x], ts[y], g),
        decreases s@.len() - i,
    {
        let mut row: Vec<NodeOrder> = Vec::new();
        let mut j: usize = 0;
        while j < t.len()
            invariant
                ss.len() == s@.len(),
                ts.len() == t@.len(),
                forall|x: int| 0 <= x < s@.len() ==> #[trigger] ss[x] == shape_of(*s@[x]),
                forall|x: int| 0 <= x < t@.len() ==> #[trigger] ts[x] == shape_of(*t@[x]),
                forall|x: int| 0 <= x < s@.len() ==> g > height(#[trigger] shape_of(*s@[x])),
                forall|x: int| 0 <= x < t@.len() ==> g > height(#[trigger] shape_of(*t@[x])),
                i < s@.len(),
                j <= t@.len(),
                row@.len() == j,
                forall|y: int| 0 <= y < j ==> #[trigger] row@[y] == order_fuel(ss[i as int], ts[y], g),
            decreases t@.len() - j,
        {
            let o = compare_fuel(&s[i], &t[j], Ghost(g));
            row.push(o);
            j += 1;
        }
        r.push(row);
        i += 1;
    }
    assert(table_view(r@) =~~= order_matrix(ss, ts, g));
    r
}

/// The table of orders between the keys of `s` and those of `t`, or between
/// whole pairs (key, then value) when `whole` holds.
fn pair_matrix_exec(
    s: &RholangNodePairVector,
    t: &RholangNodePairVector,
    whole: bool,
    Ghost(g): Ghost<nat>,
) -> (r: Vec<Vec<NodeOrder>>)
    requires
        forall|i: int|
            0 <= i < s@.len() ==> g > height(#[trigger] shape_of(*s@[i].0)) && g > height(shape_of(*s@[i].1)),
        forall|j: int|
            0 <= j < t@.len() ==> g > height(#[trigger] shape_of(*t@[j].0)) && g > height(shape_of(*t@[j].1)),
    ensures
        table_view(r@) == if whole {
            pair_matrix(pair_shapes(s@), pair_shapes(t@), g)
        } else {
            key_matrix(pair_shapes(s@), pair_shapes(t@), g)
        },
        r@.len() == s@.len(),
        forall|i: int| 0 <= i < s@.len() ==> #[trigger] r@[i]@.len() == t@.len(),
    decreases g, 1nat,
{
    proof {
        lemma_pair_shapes(s@);
        lemma_pair_shapes(t@);
    }
    let ghost ss = pair_shapes(s@);
    let ghost ts = pair_shapes(t@);
    let ghost want = if whole {
        pair_matrix(ss, ts, g)
    } else {
        key_matrix(ss, ts, g)
    };
    let mut r: Vec<Vec<NodeOrder>> = Vec::new();
    let mut i: usize = 0;
    while i < s.len()
        invariant
            ss == pair_shapes(s@),
            ts == pair_shapes(t@),
            want == if whole {
                pair_matrix(ss, ts, g)
            } else {
                key_matrix(ss, ts, g)
            },
            ss.len() == s@.len(),
            ts.len() == t@.len(),
            forall|x: int| 0 <= x < s@.len() ==> #[trigger] ss[x] == (shape_of(*s@[x].0), shape_of(*s@[x].1)),
            forall|x: int| 0 <= x < t@.len() ==> #[trigger] ts[x] == (shape_of(*t@[x].0), shape_of(*t@[x].1)),
            forall|x: int|
                0 <= x < s@.len() ==> g > height(#[trigger] shape_of(*s@[x].0)) && g > height(shape_of(*s@[x].1)),
            forall|x: int|
                0 <= x < t@.len() ==> g > height(#[trigger] shape_of(*t@[x].0)) && g > height(shape_of(*t@[x].1)),
            i <= s@.len(),
            r@.len() == i,
            forall|x: int| 0 <= x < i ==> #[trigger] r@[x]@.len() == t@.len(),
            forall|x: int, y: int| 0 <= x < i && 0 <= y < t@.len() ==> #[trigger] r@[x]@[y] == want[x][y],
        decreases s@.len() - i,
    {
        let mut row: Vec<NodeOrder> = Vec::new();
        let mut j: usize = 0;
        while j < t.len()
            invariant
                ss.len() == s@.len(),
                ts.len() == t@.len(),
                want == if whole {
                    pair_matrix(ss, ts, g)
                } else {
                    key_matrix(ss, ts, g)
                },
                forall|x: int| 0 <= x < s@.len() ==> #[trigger] ss[x] == (shape_of(*s@[x].0), shape_of(*s@[x].1)),
                forall|x: int| 0 <= x < t@.len() ==> #[trigger] ts[x] == (shape_of(*t@[x].0), shape_of(*t@[x].1)),
                forall|x: int|
                    0 <= x < s@.len() ==> g > height(#[trigger] shape_of(*s@[x].0)) && g > height(shape_of(*s@[x].1)),
                forall|x: int|
                    0 <= x < t@.len() ==> g > height(#[trigger] shape_of(*t@[x].0)) && g > height(shape_of(*t@[x].1)),
                i < s@.len(),
                j <= t@.len(),
                row@.len() == j,
                forall|y: int| 0 <= y < j ==> #[trigger] row@[y] == want[i as int][y],
            decreases t@.len() - j,
        {
            let ko = compare_fuel(&s[i].0, &t[j].0, Ghost(g));
            let o = if whole && ko == NodeOrder::Equal {
                compare_fuel(&s[i].1, &t[j].1, Ghost(g))
            } else {
                ko
            };
            row.push(o);
            j += 1;
        }
        r.push(row);
        i += 1;
    }
    assert(table_view(r@) =~~= want);
    r
}

/// The order of two node sequences once each is sorted.
fn sorted_seq_exec(ea: &RholangNodeVector, eb: &RholangNodeVector, Ghost(g): Ghost<nat>) -> (r: NodeOrder)
    requires
        seq_height(shapes_of(ea@)) < g,
        seq_height(shapes_of(eb@)) < g,
    ensures
        r == sorted_seq_order(shapes_of(ea@), shapes_of(eb@), g),
    decreases g, 2nat,
{
    proof {
        lemma_elements_below(ea@, g);
        lemma_elements_below(eb@, g);
        lemma_shapes_of(ea@);
        lemma_shapes_of(eb@);
    }
    let ma = matrix_exec(ea, ea, Ghost(g));
    let mb = matrix_exec(eb, eb, Ghost(g));
    let cross = matrix_exec(ea, eb, Ghost(g));
    let pa = sorted_indices_exec(&ma, ea.len());
    let pb = sorted_indices_exec(&mb, eb.len());
    lex_exec(&pa, &pb, &cross, eb.len())
}

/// The order of two pair sequences once each is sorted by key.
fn sorted_pairs_exec(pa: &RholangNodePairVector, pb: &RholangNodePairVector, Ghost(g): Ghost<nat>) -> (r: NodeOrder)
    requires
        pairs_height(pair_shapes(pa@)) < g,
        pairs_height(pair_shapes(pb@)) < g,
    ensures
        r == sorted_pairs_order(pair_shapes(pa@), pair_shapes(pb@), g),
    decreases g, 2nat,
{
    proof {
        lemma_pairs_below(pa@, g);
        lemma_pairs_below(pb@, g);
        lemma_pair_shapes(pa@);
        lemma_pair_shapes(pb@);
    }
    let ka = pair_matrix_exec(pa, pa, false, Ghost(g));
    let kb = pair_matrix_exec(pb, pb, false, Ghost(g));
    let cross = pair_matrix_exec(pa, pb, true, Ghost(g));
    let sa = sorted_indices_exec(&ka, pa.len());
    let sb = sorted_indices_exec(&kb, pb.len());
    lex_exec(&sa, &sb, &cross, pb.len())
}

/// The tag of a node's shape is the node's tag.
pub proof fn lemma_shape_tag(n: RholangNode)
    ensures
        shape_tag(shape_of(n)) == n.spec_tag(),
{
}

/// The structural order of two nodes.
pub fn compare_nodes(a: &RholangNode, b: &RholangNode) -> (r: NodeOrder)
    ensures
        r == node_order(*a, *b),
{
    let ghost f = height(shape_of(*a)) + height(shape_of(*b)) + 1;
    compare_fuel(a, b, Ghost(f))
}

impl RholangNode {
    /// The structural order of two nodes, as a standard ordering.
    pub fn node_cmp(a: &RholangNode, b: &RholangNode) -> (r: Ordering)
        ensures
            (r == Ordering::Less) == (node_order(*a, *b) == NodeOrder::Less),
            (r == Ordering::Equal) == (node_order(*a, *b) == NodeOrder::Equal),
            (r == Ordering::Greater) == (node_order(*a, *b) == NodeOrder::Greater),
    {
        match compare_nodes(a, b) {
            NodeOrder::Less => Ordering::Less,
            NodeOrder::Equal => Ordering::Equal,
            NodeOrder::Greater => Ordering::Greater,
        }
    }
}

/// The standard ordering that a structural order stands for.
pub open spec fn ordering_of(o: NodeOrder) -> Ordering {
    match o {
        NodeOrder::Less => Ordering::Less,
        NodeOrder::Equal => Ordering::Equal,
        NodeOrder::Greater => Ordering::Greater,
    }
}

impl PartialEq for RholangNode {
    /// Nodes are equal when the structural order finds them equal.
    fn eq(&self, other: &Self) -> (r: bool) {
        compare_nodes(self, other) == NodeOrder::Equal
    }
}

impl vstd::std_specs::cmp::PartialEqSpecImpl for RholangNode {
    open spec fn obeys_eq_spec() -> bool {
        true
    }

    open spec fn eq_spec(&self, other: &Self) -> bool {
        node_order(*self, *other) == NodeOrder::Equal
    }
}

impl PartialOrd for RholangNode {
    /// The structural order, always defined.
    fn partial_cmp(&self, other: &Self) -> (r: Option<Ordering>) {
        Some(RholangNode::node_cmp(self, other))
    }
}

impl vstd::std_specs::cmp::PartialOrdSpecImpl for RholangNode {
    open spec fn obeys_partial_cmp_spec() -> bool {
        true
    }

    open spec fn partial_cmp_spec(&self, other: &Self) -> Option<Ordering> {
        Some(ordering_of(node_order(*self, *other)))
    }
}

/// Two nodes are equal (`==`) exactly when the structural order finds them
/// equal, that is, when `node_cmp` answers `Equal`.
pub proof fn law_node_eq_is_order_equal(a: RholangNode, b: RholangNode)
    ensures
        vstd::std_specs::cmp::PartialEqSpec::eq_spec(&a, &b) == (node_order(a, b) == NodeOrder::Equal),
        vstd::std_specs::cmp::PartialOrdSpec::partial_cmp_spec(&a, &b) == Some(ordering_of(node_order(a, b))),
{
}

} // verus!
