//! Laws that relate the operations of the library to one another.
use std::sync::Arc;
use vstd::prelude::*;
use crate::rholang_node::node_children::{rebuild_fits, rebuilt, same_node, spec_child_at, spec_children_count};
use crate::rholang_node::node_order::{
    first_of_rank, identity, int_order, kind_order, rank, key_matrix, lex_from, node_order, opt_order, order_fuel, order_matrix,
    pair_matrix, sorted_indices, sorted_pairs_order, sorted_seq_order, text_order_from, then_order,
    NodeOrder,
};
use crate::rholang_node::node_shape::{
    height, lemma_pairs_height, lemma_pair_shapes, lemma_seq_height, lemma_shapes_of, lemma_tag_kind,
    opt_height, opt_shape, pair_shapes, pairs_height, seq_height, shape_of, shape_tag, shapes_of, Shape,
};
use crate::rholang_node::node_types::RholangNode;
use crate::semantic_node::{Metadata, metadata_lookup, spec_kind_of, MetadataKind, MetadataValue};
use crate::symbol_resolution::filters::metta_pattern::MettaPatternDefinition;
use crate::symbol_resolution::pattern_aware_resolver::{answering_contracts, contract_answers, converted, IndexedContract};

verus! {

/// The children a traversal visits, in order: `child_at(i)` for every `i`
/// below `children_count()`.
pub open spec fn children_of(n: RholangNode) -> Seq<Arc<RholangNode>> {
    Seq::new(spec_children_count(n), |i: int| spec_child_at(n, i)->0)
}

/// Every child that `child_at` hands out has an index below `children_count`.
pub proof fn law_child_index_below_count(n: RholangNode, i: int)
    ensures
        spec_child_at(n, i) is Some ==> 0 <= i < spec_children_count(n),
{
}

/// Every index below `children_count` has a child, provided that each
/// receipt of a `for` and each branch of a `select` has a bind (the first
/// bind is the child that stands for it).
pub proof fn law_child_at_every_index(n: RholangNode, i: int)
    requires
        0 <= i < spec_children_count(n),
        n matches RholangNode::Input { receipts, .. } ==> forall|k: int|
            0 <= k < receipts@.len() ==> #[trigger] receipts@[k]@.len() > 0,
        n matches RholangNode::Choice { branches, .. } ==> forall|k: int|
            0 <= k < branches@.len() ==> #[trigger] branches@[k].0@.len() > 0,
    ensures
        spec_child_at(n, i) is Some,
{
    match n {
        RholangNode::Input { receipts, .. } => {
            if i < receipts@.len() {
                assert(receipts@[i]@.len() > 0);
            }
        },
        RholangNode::Choice { branches, .. } => {
            assert(branches@[i / 2].0@.len() > 0);
        },
        _ => {},
    }
}

/// Rebuilding a node from the very children a traversal visits gives the
/// node back: same base, metadata and children. Two shapes are rebuilt
/// differently: a `Par` holding two processes in list form comes back in
/// binary form, and a set with a remainder takes its last element as the
/// remainder; the law leaves those out.
#[verifier::rlimit(40)]
pub proof fn law_rebuild_from_own_children(n: RholangNode, r: RholangNode)
    requires
        rebuild_fits(n, spec_children_count(n) as int),
        !(n matches RholangNode::Par { processes: Some(p), .. } && p@.len() == 2),
        !(n matches RholangNode::SetExpr { remainder: Some(_), .. }),
        rebuilt(n, children_of(n), r),
    ensures
        same_node(n, r),
{
    let c = children_of(n);
    match n {
        RholangNode::Par { left, right, processes, .. } => {
            if processes is None && left is Some && right is Some {
                assert(c[0] == left->0);
                assert(c[1] == right->0);
            }
        },
        RholangNode::List { elements, remainder, .. } => {
            let ec = elements@.len() as int;
            assert(c.subrange(0, ec) =~= elements@);
        },
        RholangNode::SetExpr { elements, .. } => {
            assert(c.subrange(0, elements@.len() as int) =~= elements@);
        },
        RholangNode::Tuple { elements, .. } => {
            assert(c =~= elements@);
        },
        RholangNode::Send { channel, inputs, .. } => {
            assert(c.subrange(1, c.len() as int) =~= inputs@);
        },
        RholangNode::SendSync { inputs, .. } => {
            assert(c.subrange(1, c.len() - 1) =~= inputs@);
        },
        RholangNode::New { decls, .. } => {
            assert(c.subrange(0, decls@.len() as int) =~= decls@);
        },
        RholangNode::Let { decls, .. } => {
            assert(c.subrange(0, decls@.len() as int) =~= decls@);
        },
        RholangNode::Contract { formals, .. } => {
            assert(c.subrange(1, 1 + formals@.len() as int) =~= formals@);
        },
        _ => {},
    }
}

/// An order read the other way round.
pub open spec fn flipped(o: NodeOrder) -> NodeOrder {
    match o {
        NodeOrder::Less => NodeOrder::Greater,
        NodeOrder::Equal => NodeOrder::Equal,
        NodeOrder::Greater => NodeOrder::Less,
    }
}

proof fn lemma_text_reflexive(a: Seq<char>, i: int)
    ensures
        text_order_from(a, a, i) == NodeOrder::Equal,
    decreases a.len() - i,
{
    if 0 <= i < a.len() {
        lemma_text_reflexive(a, i + 1);
    }
}

proof fn lemma_text_flipped(a: Seq<char>, b: Seq<char>, i: int)
    ensures
        text_order_from(a, b, i) == flipped(text_order_from(b, a, i)),
    decreases a.len() - i,
{
    if 0 <= i < a.len() && i < b.len() && (a[i] as u32) == (b[i] as u32) {
        lemma_text_flipped(a, b, i + 1);
    }
}

proof fn lemma_first_of_rank_range(m: Seq<Seq<NodeOrder>>, n: int, k: int, i: int)
    requires
        0 <= k < n,
    ensures
        0 <= first_of_rank(m, n, k, i) < n,
    decreases n - i,
{
    if 0 <= i < n && rank(m, n, i) != k {
        lemma_first_of_rank_range(m, n, k, i + 1);
    }
}

proof fn lemma_sorted_indices_range(m: Seq<Seq<NodeOrder>>, n: int)
    ensures
        forall|k: int| 0 <= k < n ==> 0 <= #[trigger] sorted_indices(m, n)[k] < n,
{
    assert forall|k: int| 0 <= k < n implies 0 <= #[trigger] sorted_indices(m, n)[k] < n by {
        lemma_first_of_rank_range(m, n, k, 0);
    }
}

proof fn lemma_lex_diagonal(p: Seq<int>, m: Seq<Seq<NodeOrder>>, k: int)
    requires
        0 <= k,
        forall|x: int| 0 <= x < p.len() ==> m[#[trigger] p[x]][p[x]] == NodeOrder::Equal,
    ensures
        lex_from(p, p, m, k) == NodeOrder::Equal,
    decreases p.len() - k,
{
    if k < p.len() {
        assert(m[p[k]][p[k]] == NodeOrder::Equal);
        lemma_lex_diagonal(p, m, k + 1);
    }
}

proof fn lemma_lex_flipped(pa: Seq<int>, pb: Seq<int>, m1: Seq<Seq<NodeOrder>>, m2: Seq<Seq<NodeOrder>>, k: int)
    requires
        0 <= k,
        forall|x: int|
            0 <= x < pa.len() && x < pb.len() ==> m1[#[trigger] pa[x]][pb[x]] == flipped(m2[pb[x]][pa[x]]),
    ensures
        lex_from(pa, pb, m1, k) == flipped(lex_from(pb, pa, m2, k)),
    decreases pa.len() - k,
{
    if k < pa.len() && k < pb.len() {
        assert(m1[pa[k]][pb[k]] == flipped(m2[pb[k]][pa[k]]));
        lemma_lex_flipped(pa, pb, m1, m2, k + 1);
    }
}

proof fn lemma_order_reflexive(a: Shape, f: nat)
    ensures
        order_fuel(a, a, f) == NodeOrder::Equal,
    decreases f, 0nat,
{
    if f > 0 {
        let g = (f - 1) as nat;
        match a {
            Shape::Var(x) => lemma_text_reflexive(x, 0),
            Shape::Str(x) => lemma_text_reflexive(x, 0),
            Shape::Uri(x) => lemma_text_reflexive(x, 0),
            Shape::SimpleType(x) => lemma_text_reflexive(x, 0),
            Shape::Quote(x) => lemma_order_reflexive(*x, g),
            Shape::Eval(x) => lemma_order_reflexive(*x, g),
            Shape::VarRef(_, x) => lemma_order_reflexive(*x, g),
            Shape::Negation(x) => lemma_order_reflexive(*x, g),
            Shape::Parenthesized(x) => lemma_order_reflexive(*x, g),
            Shape::Disjunction(l, r) => {
                lemma_order_reflexive(*l, g);
                lemma_order_reflexive(*r, g);
            },
            Shape::Conjunction(l, r) => {
                lemma_order_reflexive(*l, g);
                lemma_order_reflexive(*r, g);
            },
            Shape::List(es, r) => {
                lemma_seq_reflexive(es, g);
                lemma_opt_reflexive(r, g);
            },
            Shape::SetOf(es, r) => {
                lemma_seq_reflexive(es, g);
                lemma_opt_reflexive(r, g);
            },
            Shape::Tuple(es) => {
                let m = order_matrix(es, es, g);
                let p = identity(es.len() as int);
                assert forall|x: int| 0 <= x < p.len() implies m[#[trigger] p[x]][p[x]] == NodeOrder::Equal by {
                    lemma_order_reflexive(es[x], g);
                }
                lemma_lex_diagonal(p, m, 0);
            },
            Shape::MapOf(ps, r) => {
                lemma_pairs_reflexive(ps, g);
                lemma_opt_reflexive(r, g);
            },
            _ => {},
        }
    }
}

proof fn lemma_opt_reflexive(o: Option<Box<Shape>>, g: nat)
    ensures
        opt_order(o, o, g) == NodeOrder::Equal,
    decreases g, 1nat,
{
    if let Some(x) = o {
        lemma_order_reflexive(*x, g);
    }
}

proof fn lemma_seq_reflexive(es: Seq<Shape>, g: nat)
    ensures
        sorted_seq_order(es, es, g) == NodeOrder::Equal,
    decreases g, 1nat,
{
    let m = order_matrix(es, es, g);
    let p = sorted_indices(m, es.len() as int);
    lemma_sorted_indices_range(m, es.len() as int);
    assert forall|x: int| 0 <= x < p.len() implies m[#[trigger] p[x]][p[x]] == NodeOrder::Equal by {
        lemma_order_reflexive(es[p[x]], g);
    }
    lemma_lex_diagonal(p, m, 0);
}

proof fn lemma_pairs_reflexive(ps: Seq<(Shape, Shape)>, g: nat)
    ensures
        sorted_pairs_order(ps, ps, g) == NodeOrder::Equal,
    decreases g, 1nat,
{
    let km = key_matrix(ps, ps, g);
    let m = pair_matrix(ps, ps, g);
    let p = sorted_indices(km, ps.len() as int);
    lemma_sorted_indices_range(km, ps.len() as int);
    assert forall|x: int| 0 <= x < p.len() implies m[#[trigger] p[x]][p[x]] == NodeOrder::Equal by {
        let i = p[x];
        assert(0 <= i < ps.len());
        lemma_order_reflexive(ps[i].0, g);
        lemma_order_reflexive(ps[i].1, g);
        assert(m[i][i] == then_order(order_fuel(ps[i].0, ps[i].0, g), order_fuel(ps[i].1, ps[i].1, g)));
    }
    lemma_lex_diagonal(p, m, 0);
}

proof fn lemma_order_flipped(a: Shape, b: Shape, f: nat)
    ensures
        order_fuel(a, b, f) == flipped(order_fuel(b, a, f)),
    decreases f, 0nat,
{
    if f > 0 {
        let g = (f - 1) as nat;
        match (a, b) {
            (Shape::Var(x), Shape::Var(y)) => lemma_text_flipped(x, y, 0),
            (Shape::Str(x), Shape::Str(y)) => lemma_text_flipped(x, y, 0),
            (Shape::Uri(x), Shape::Uri(y)) => lemma_text_flipped(x, y, 0),
            (Shape::SimpleType(x), Shape::SimpleType(y)) => lemma_text_flipped(x, y, 0),
            (Shape::Quote(x), Shape::Quote(y)) => lemma_order_flipped(*x, *y, g),
            (Shape::Eval(x), Shape::Eval(y)) => lemma_order_flipped(*x, *y, g),
            (Shape::VarRef(_, x), Shape::VarRef(_, y)) => lemma_order_flipped(*x, *y, g),
            (Shape::Negation(x), Shape::Negation(y)) => lemma_order_flipped(*x, *y, g),
            (Shape::Parenthesized(x), Shape::Parenthesized(y)) => lemma_order_flipped(*x, *y, g),
            (Shape::Disjunction(l1, r1), Shape::Disjunction(l2, r2)) => {
                lemma_order_flipped(*l1, *l2, g);
                lemma_order_flipped(*r1, *r2, g);
            },
            (Shape::Conjunction(l1, r1), Shape::Conjunction(l2, r2)) => {
                lemma_order_flipped(*l1, *l2, g);
                lemma_order_flipped(*r1, *r2, g);
            },
            (Shape::List(ea, ra), Shape::List(eb, rb)) => {
                lemma_seq_flipped(ea, eb, g);
                lemma_opt_flipped(ra, rb, g);
            },
            (Shape::SetOf(ea, ra), Shape::SetOf(eb, rb)) => {
                lemma_seq_flipped(ea, eb, g);
                lemma_opt_flipped(ra, rb, g);
            },
            (Shape::Tuple(ea), Shape::Tuple(eb)) => {
                let m1 = order_matrix(ea, eb, g);
                let m2 = order_matrix(eb, ea, g);
                let pa = identity(ea.len() as int);
                let pb = identity(eb.len() as int);
                assert forall|x: int| 0 <= x < pa.len() && x < pb.len() implies m1[#[trigger] pa[x]][pb[x]] == flipped(
                    m2[pb[x]][pa[x]],
                ) by {
                    lemma_order_flipped(ea[x], eb[x], g);
                }
                lemma_lex_flipped(pa, pb, m1, m2, 0);
            },
            (Shape::MapOf(pa, ra), Shape::MapOf(pb, rb)) => {
                lemma_pairs_flipped(pa, pb, g);
                lemma_opt_flipped(ra, rb, g);
            },
            _ => {},
        }
    }
}

proof fn lemma_opt_flipped(a: Option<Box<Shape>>, b: Option<Box<Shape>>, g: nat)
    ensures
        opt_order(a, b, g) == flipped(opt_order(b, a, g)),
    decreases g, 1nat,
{
    if let (Some(x), Some(y)) = (a, b) {
        lemma_order_flipped(*x, *y, g);
    }
}

proof fn lemma_seq_flipped(ea: Seq<Shape>, eb: Seq<Shape>, g: nat)
    ensures
        sorted_seq_order(ea, eb, g) == flipped(sorted_seq_order(eb, ea, g)),
    decreases g, 1nat,
{
    let m1 = order_matrix(ea, eb, g);
    let m2 = order_matrix(eb, ea, g);
    let pa = sorted_indices(order_matrix(ea, ea, g), ea.len() as int);
    let pb = sorted_indices(order_matrix(eb, eb, g), eb.len() as int);
    lemma_sorted_indices_range(order_matrix(ea, ea, g), ea.len() as int);
    lemma_sorted_indices_range(order_matrix(eb, eb, g), eb.len() as int);
    assert forall|x: int| 0 <= x < pa.len() && x < pb.len() implies m1[#[trigger] pa[x]][pb[x]] == flipped(
        m2[pb[x]][pa[x]],
    ) by {
        lemma_order_flipped(ea[pa[x]], eb[pb[x]], g);
    }
    lemma_lex_flipped(pa, pb, m1, m2, 0);
}

proof fn lemma_pairs_flipped(qa: Seq<(Shape, Shape)>, qb: Seq<(Shape, Shape)>, g: nat)
    ensures
        sorted_pairs_order(qa, qb, g) == flipped(sorted_pairs_order(qb, qa, g)),
    decreases g, 1nat,
{
    let m1 = pair_matrix(qa, qb, g);
    let m2 = pair_matrix(qb, qa, g);
    let pa = sorted_indices(key_matrix(qa, qa, g), qa.len() as int);
    let pb = sorted_indices(key_matrix(qb, qb, g), qb.len() as int);
    lemma_sorted_indices_range(key_matrix(qa, qa, g), qa.len() as int);
    lemma_sorted_indices_range(key_matrix(qb, qb, g), qb.len() as int);
    assert forall|x: int| 0 <= x < pa.len() && x < pb.len() implies m1[#[trigger] pa[x]][pb[x]] == flipped(
        m2[pb[x]][pa[x]],
    ) by {
        let i = pa[x];
        let j = pb[x];
        assert(0 <= i < qa.len() && 0 <= j < qb.len());
        lemma_order_flipped(qa[i].0, qb[j].0, g);
        lemma_order_flipped(qa[i].1, qb[j].1, g);
        assert(m1[i][j] == then_order(order_fuel(qa[i].0, qb[j].0, g), order_fuel(qa[i].1, qb[j].1, g)));
        assert(m2[j][i] == then_order(order_fuel(qb[j].0, qa[i].0, g), order_fuel(qb[j].1, qa[i].1, g)));
    }
    lemma_lex_flipped(pa, pb, m1, m2, 0);
}

/// Every node is equal to itself in the structural order (`node_cmp(a, a)`
/// is `Equal`).
pub proof fn law_node_order_reflexive(a: RholangNode)
    ensures
        node_order(a, a) == NodeOrder::Equal,
{
    lemma_order_reflexive(shape_of(a), height(shape_of(a)) + height(shape_of(a)) + 1);
}

/// Comparing two nodes the other way round gives the opposite answer
/// (`node_cmp(b, a)` is `node_cmp(a, b)` reversed).
pub proof fn law_node_order_antisymmetric(a: RholangNode, b: RholangNode)
    ensures
        node_order(a, b) == flipped(node_order(b, a)),
{
    let f = height(shape_of(a)) + height(shape_of(b)) + 1;
    assert(height(shape_of(b)) + height(shape_of(a)) + 1 == f);
    lemma_order_flipped(shape_of(a), shape_of(b), f);
}

/// Reading metadata after writing a key (`insert_metadata`, then
/// `get_metadata`) gives the value written when it is asked for by its
/// type, and nothing when asked for by another type; every other key reads
/// as before.
pub proof fn law_metadata_read_after_write(
    before: Map<Seq<char>, MetadataValue>,
    key: Seq<char>,
    value: MetadataValue,
    other: Seq<char>,
    kind: MetadataKind,
)
    ensures
        metadata_lookup(before.insert(key, value), key, spec_kind_of(value)) == Some(value),
        kind != spec_kind_of(value) ==> metadata_lookup(before.insert(key, value), key, kind) is None,
        other != key ==> metadata_lookup(before.insert(key, value), other, kind) == metadata_lookup(before, other, kind),
{
}

/// After a contract is added to the workspace index (`add_contract`), a
/// query by its name with as many arguments as it has parameters
/// (`query_contract_by_pattern`) finds it after what it found before; a
/// query it does not answer finds what it found before.
pub proof fn law_index_query_after_add(contracts: Seq<IndexedContract>, added: IndexedContract, name: Seq<char>, arity: int)
    ensures
        answering_contracts(contracts.push(added), added.name@, added.arity as int)
            == answering_contracts(contracts, added.name@, added.arity as int).push(converted(added.location)),
        !contract_answers(added, name, arity) ==> answering_contracts(contracts.push(added), name, arity)
            == answering_contracts(contracts, name, arity),
{
    assert(contracts.push(added).drop_last() =~= contracts);
}

/// After a definition is added to a MeTTa pattern matcher
/// (`add_definition`), the matcher has a definition of its name
/// (`has_definition`).
pub proof fn law_matcher_knows_added_definition(definitions: Seq<MettaPatternDefinition>, added: MettaPatternDefinition)
    ensures
        exists|i: int|
            0 <= i < definitions.push(added).len() && #[trigger] definitions.push(added)[i].name@ == added.name@,
{
    let i = definitions.len() as int;
    assert(definitions.push(added)[i] == added);
    assert(definitions.push(added)[i].name@ == added.name@);
}

/// Replacing a node's metadata (`with_metadata`) and then putting the old
/// metadata back gives the node again: same base, metadata and children.
#[verifier::rlimit(60)]
pub proof fn law_metadata_restored(n: RholangNode, m: Option<Arc<Metadata>>, once: RholangNode, twice: RholangNode)
    requires
        once.spec_base() == n.spec_base(),
        once.spec_metadata() == m,
        once.same_children(&n),
        twice.spec_base() == once.spec_base(),
        twice.spec_metadata() == n.spec_metadata(),
        twice.same_children(&once),
    ensures
        same_node(n, twice),
{
}

/// Whether a tag belongs to a construct that shapes look into.
pub open spec fn inspected_tag(t: u32) -> bool {
    t == 29 || t == 36 || t == 17 || t == 16 || t == 18 || t == 24 || t == 28 || t == 25 || t == 27 || t == 19
        || t == 20 || t == 21 || t == 22 || t == 37 || t == 23 || t == 44 || t == 41 || t == 42 || t == 43 || t
        == 12
}

/// Whether a shape can describe a node: a construct known by its tag alone
/// is never one that shapes look into, here or anywhere inside.
pub open spec fn proper(s: Shape) -> bool
    decreases s, 1nat,
{
    match s {
        Shape::Other(t) => !inspected_tag(t),
        Shape::Quote(x) => proper(*x),
        Shape::Eval(x) => proper(*x),
        Shape::VarRef(_, x) => proper(*x),
        Shape::Negation(x) => proper(*x),
        Shape::Parenthesized(x) => proper(*x),
        Shape::Disjunction(l, r) => proper(*l) && proper(*r),
        Shape::Conjunction(l, r) => proper(*l) && proper(*r),
        Shape::List(es, r) => proper_seq(es) && proper_opt(r),
        Shape::SetOf(es, r) => proper_seq(es) && proper_opt(r),
        Shape::Tuple(es) => proper_seq(es),
        Shape::MapOf(ps, r) => proper_pairs(ps) && proper_opt(r),
        _ => true,
    }
}

/// Whether an optional shape is absent or proper.
pub open spec fn proper_opt(o: Option<Box<Shape>>) -> bool
    decreases o, 2nat,
{
    match o {
        Some(x) => proper(*x),
        None => true,
    }
}

/// Whether every shape of a sequence is proper.
pub open spec fn proper_seq(s: Seq<Shape>) -> bool
    decreases s, 2nat,
{
    s.len() == 0 || (proper_seq(s.drop_last()) && proper(s.last()))
}

/// Whether every shape of a sequence of pairs is proper.
pub open spec fn proper_pairs(s: Seq<(Shape, Shape)>) -> bool
    decreases s, 2nat,
{
    s.len() == 0 || (proper_pairs(s.drop_last()) && proper(s.last().0) && proper(s.last().1))
}

proof fn lemma_proper_seq(s: Seq<Shape>)
    ensures
        proper_seq(s) == (forall|i: int| 0 <= i < s.len() ==> proper(#[trigger] s[i])),
    decreases s.len(),
{
    if s.len() > 0 {
        lemma_proper_seq(s.drop_last());
        if forall|i: int| 0 <= i < s.len() ==> proper(#[trigger] s[i]) {
            assert forall|i: int| 0 <= i < s.drop_last().len() implies proper(#[trigger] s.drop_last()[i]) by {
                assert(s.drop_last()[i] == s[i]);
            }
        }
        if proper_seq(s) {
            assert forall|i: int| 0 <= i < s.len() implies proper(#[trigger] s[i]) by {
                if i < s.len() - 1 {
                    assert(s.drop_last()[i] == s[i]);
                } else {
                    assert(s[i] == s.last());
                }
            }
        }
    }
}

proof fn lemma_proper_pairs(s: Seq<(Shape, Shape)>)
    ensures
        proper_pairs(s) == (forall|i: int| 0 <= i < s.len() ==> proper(#[trigger] s[i].0) && proper(s[i].1)),
    decreases s.len(),
{
    if s.len() > 0 {
        lemma_proper_pairs(s.drop_last());
        if forall|i: int| 0 <= i < s.len() ==> proper(#[trigger] s[i].0) && proper(s[i].1) {
            assert forall|i: int| 0 <= i < s.drop_last().len() implies proper(#[trigger] s.drop_last()[i].0) && proper(
                s.drop_last()[i].1,
            ) by {
                assert(s.drop_last()[i] == s[i]);
            }
        }
        if proper_pairs(s) {
            assert forall|i: int| 0 <= i < s.len() implies proper(#[trigger] s[i].0) && proper(s[i].1) by {
                if i < s.len() - 1 {
                    assert(s.drop_last()[i] == s[i]);
                    assert(proper_pairs(s.drop_last()));
                    assert(proper(s.drop_last()[i].0) && proper(s.drop_last()[i].1));
                } else {
                    assert(s[i] == s.last());
                }
            }
        }
    }
}

/// The shape of every node is proper.
proof fn lemma_node_shape_proper(n: &RholangNode)
    ensures
        proper(shape_of(*n)),
    decreases n,
{
    lemma_tag_kind(*n);
    match n {
        RholangNode::Quote { quotable, .. } => {
            lemma_node_shape_proper(&**quotable);
            assert(proper(shape_of(**quotable)));
            assert(proper(Shape::Quote(Box::new(shape_of(**quotable)))));
            assert(shape_of(*n) == Shape::Quote(Box::new(shape_of(**quotable))));
            assert(proper(shape_of(*n)));
        },
        RholangNode::Eval { name, .. } => {
            lemma_node_shape_proper(&**name);
            assert(shape_of(*n) == Shape::Eval(Box::new(shape_of(**name))));
            assert(proper(shape_of(*n)));
        },
        RholangNode::VarRef { kind, var, .. } => {
            lemma_node_shape_proper(&**var);
            assert(shape_of(*n) == Shape::VarRef(*kind, Box::new(shape_of(**var))));
            assert(proper(shape_of(*n)));
        },
        RholangNode::Negation { operand, .. } => {
            lemma_node_shape_proper(&**operand);
            assert(shape_of(*n) == Shape::Negation(Box::new(shape_of(**operand))));
            assert(proper(shape_of(*n)));
        },
        RholangNode::Parenthesized { expr, .. } => {
            lemma_node_shape_proper(&**expr);
            assert(shape_of(*n) == Shape::Parenthesized(Box::new(shape_of(**expr))));
            assert(proper(shape_of(*n)));
        },
        RholangNode::Disjunction { left, right, .. } => {
            lemma_node_shape_proper(&**left);
            lemma_node_shape_proper(&**right);
            assert(shape_of(*n) == Shape::Disjunction(Box::new(shape_of(**left)), Box::new(shape_of(**right))));
            assert(proper(shape_of(*n)));
        },
        RholangNode::Conjunction { left, right, .. } => {
            lemma_node_shape_proper(&**left);
            lemma_node_shape_proper(&**right);
            assert(shape_of(*n) == Shape::Conjunction(Box::new(shape_of(**left)), Box::new(shape_of(**right))));
            assert(proper(shape_of(*n)));
        },
        RholangNode::List { elements, remainder, .. } => {
            lemma_nodes_shapes_proper(elements@);
            if let Some(r) = remainder {
                lemma_node_shape_proper(&**r);
                assert(opt_shape(*remainder) == Some(Box::new(shape_of(**r))));
            }
            assert(proper_opt(opt_shape(*remainder)));
            assert(shape_of(*n) == Shape::List(shapes_of(elements@), opt_shape(*remainder)));
            assert(proper(shape_of(*n)));
        },
        RholangNode::SetExpr { elements, remainder, .. } => {
            lemma_nodes_shapes_proper(elements@);
            if let Some(r) = remainder {
                lemma_node_shape_proper(&**r);
                assert(opt_shape(*remainder) == Some(Box::new(shape_of(**r))));
            }
            assert(proper_opt(opt_shape(*remainder)));
            assert(shape_of(*n) == Shape::SetOf(shapes_of(elements@), opt_shape(*remainder)));
            assert(proper(shape_of(*n)));
        },
        RholangNode::Tuple { elements, .. } => {
            lemma_nodes_shapes_proper(elements@);
            assert(shape_of(*n) == Shape::Tuple(shapes_of(elements@)));
            assert(proper(shape_of(*n)));
        },
        RholangNode::MapExpr { pairs, remainder, .. } => {
            lemma_node_pairs_proper(pairs@);
            if let Some(r) = remainder {
                lemma_node_shape_proper(&**r);
                assert(opt_shape(*remainder) == Some(Box::new(shape_of(**r))));
            }
            assert(proper_opt(opt_shape(*remainder)));
            assert(shape_of(*n) == Shape::MapOf(pair_shapes(pairs@), opt_shape(*remainder)));
            assert(proper(shape_of(*n)));
        },
        _ => {
            assert(proper(shape_of(*n)));
        },
    }
}

proof fn lemma_nodes_shapes_proper(s: Seq<Arc<RholangNode>>)
    ensures
        proper_seq(shapes_of(s)),
    decreases s,
{
    if s.len() > 0 {
        lemma_nodes_shapes_proper(s.drop_last());
        lemma_node_shape_proper(&*s.last());
        assert(shapes_of(s).drop_last() =~= shapes_of(s.drop_last()));
    }
}

proof fn lemma_node_pairs_proper(s: Seq<(Arc<RholangNode>, Arc<RholangNode>)>)
    ensures
        proper_pairs(pair_shapes(s)),
    decreases s,
{
    if s.len() > 0 {
        lemma_node_pairs_proper(s.drop_last());
        lemma_node_shape_proper(&*s.last().0);
        lemma_node_shape_proper(&*s.last().1);
        assert(pair_shapes(s).drop_last() == pair_shapes(s.drop_last()));
    }
}

/// Whether three orders between `a`, `b` and `c` fit a total preorder:
/// equal neighbours pass the other order on, and two equal orders in a row
/// carry over.
pub open spec fn consistent(ab: NodeOrder, bc: NodeOrder, ac: NodeOrder) -> bool {
    &&& ab == NodeOrder::Equal ==> ac == bc
    &&& bc == NodeOrder::Equal ==> ac == ab
    &&& ab == bc ==> ac == ab
}

proof fn lemma_then_consistent(
    p_ab: NodeOrder,
    p_bc: NodeOrder,
    p_ac: NodeOrder,
    q_ab: NodeOrder,
    q_bc: NodeOrder,
    q_ac: NodeOrder,
)
    requires
        consistent(p_ab, p_bc, p_ac),
        consistent(q_ab, q_bc, q_ac),
    ensures
        consistent(then_order(p_ab, q_ab), then_order(p_bc, q_bc), then_order(p_ac, q_ac)),
{
}

proof fn lemma_text_consistent(a: Seq<char>, b: Seq<char>, c: Seq<char>, i: int)
    requires
        0 <= i,
    ensures
        consistent(text_order_from(a, b, i), text_order_from(b, c, i), text_order_from(a, c, i)),
    decreases a.len() - i,
{
    if i < a.len() && i < b.len() && i < c.len() {
        lemma_text_consistent(a, b, c, i + 1);
    }
}

proof fn lemma_lex_consistent(
    pa: Seq<int>,
    pb: Seq<int>,
    pc: Seq<int>,
    mab: Seq<Seq<NodeOrder>>,
    mbc: Seq<Seq<NodeOrder>>,
    mac: Seq<Seq<NodeOrder>>,
    k: int,
)
    requires
        0 <= k,
        forall|x: int|
            0 <= x < pa.len() && x < pb.len() && x < pc.len() ==> consistent(
                mab[#[trigger] pa[x]][pb[x]],
                mbc[pb[x]][pc[x]],
                mac[pa[x]][pc[x]],
            ),
    ensures
        consistent(lex_from(pa, pb, mab, k), lex_from(pb, pc, mbc, k), lex_from(pa, pc, mac, k)),
    decreases pa.len() - k,
{
    if k < pa.len() && k < pb.len() && k < pc.len() {
        lemma_lex_consistent(pa, pb, pc, mab, mbc, mac, k + 1);
        assert(consistent(mab[pa[k]][pb[k]], mbc[pb[k]][pc[k]], mac[pa[k]][pc[k]]));
        lemma_then_consistent(
            mab[pa[k]][pb[k]],
            mbc[pb[k]][pc[k]],
            mac[pa[k]][pc[k]],
            lex_from(pa, pb, mab, k + 1),
            lex_from(pb, pc, mbc, k + 1),
            lex_from(pa, pc, mac, k + 1),
        );
    }
}

/// Two proper shapes with one tag are the same construct.
proof fn lemma_same_tag(s: Shape, t: Shape)
    requires
        proper(s),
        proper(t),
        shape_tag(s) == shape_tag(t),
    ensures
        (s is Var) == (t is Var),
        (s is Wildcard) == (t is Wildcard),
        (s is Quote) == (t is Quote),
        (s is Eval) == (t is Eval),
        (s is VarRef) == (t is VarRef),
        (s is List) == (t is List),
        (s is Tuple) == (t is Tuple),
        (s is SetOf) == (t is SetOf),
        (s is MapOf) == (t is MapOf),
        (s is Bool) == (t is Bool),
        (s is Long) == (t is Long),
        (s is Str) == (t is Str),
        (s is Uri) == (t is Uri),
        (s is SimpleType) == (t is SimpleType),
        (s is Nil) == (t is Nil),
        (s is Unit) == (t is Unit),
        (s is Disjunction) == (t is Disjunction),
        (s is Conjunction) == (t is Conjunction),
        (s is Negation) == (t is Negation),
        (s is Parenthesized) == (t is Parenthesized),
        (s is Other) == (t is Other),
{
}

proof fn lemma_tags_consistent(a: Shape, b: Shape, c: Shape, f: nat)
    requires
        f > 0,
        !(shape_tag(a) == shape_tag(b) && shape_tag(b) == shape_tag(c)),
    ensures
        consistent(order_fuel(a, b, f), order_fuel(b, c, f), order_fuel(a, c, f)),
{
    let (ta, tb, tc) = (shape_tag(a) as int, shape_tag(b) as int, shape_tag(c) as int);
    if ta != tb {
        assert(order_fuel(a, b, f) == int_order(ta, tb));
    }
    if tb != tc {
        assert(order_fuel(b, c, f) == int_order(tb, tc));
    }
    if ta != tc {
        assert(order_fuel(a, c, f) == int_order(ta, tc));
    }
}

proof fn lemma_leaf_consistent(a: Shape, b: Shape, c: Shape, f: nat)
    requires
        f > 0,
        (a is Bool && b is Bool && c is Bool) || (a is Long && b is Long && c is Long) || (a is Wildcard && b is Wildcard
            && c is Wildcard) || (a is Nil && b is Nil && c is Nil) || (a is Unit && b is Unit && c is Unit) || (
        a is Other && b is Other && c is Other && shape_tag(a) == shape_tag(b) && shape_tag(b) == shape_tag(c)),
    ensures
        consistent(order_fuel(a, b, f), order_fuel(b, c, f), order_fuel(a, c, f)),
{
}

proof fn lemma_text_case(a: Shape, b: Shape, c: Shape, f: nat)
    requires
        f > 0,
        (a is Var && b is Var && c is Var) || (a is Str && b is Str && c is Str) || (a is Uri && b is Uri && c is Uri)
            || (a is SimpleType && b is SimpleType && c is SimpleType),
    ensures
        consistent(order_fuel(a, b, f), order_fuel(b, c, f), order_fuel(a, c, f)),
{
    match (a, b, c) {
        (Shape::Var(x), Shape::Var(y), Shape::Var(z)) => lemma_text_consistent(x, y, z, 0),
        (Shape::Str(x), Shape::Str(y), Shape::Str(z)) => lemma_text_consistent(x, y, z, 0),
        (Shape::Uri(x), Shape::Uri(y), Shape::Uri(z)) => lemma_text_consistent(x, y, z, 0),
        (Shape::SimpleType(x), Shape::SimpleType(y), Shape::SimpleType(z)) => lemma_text_consistent(x, y, z, 0),
        _ => {},
    }
}

proof fn lemma_unary_case(a: Shape, b: Shape, c: Shape, f: nat)
    requires
        f > 0,
        proper(a),
        proper(b),
        proper(c),
        (a is Quote && b is Quote && c is Quote) || (a is Eval && b is Eval && c is Eval) || (a is Negation && b is Negation
            && c is Negation) || (a is Parenthesized && b is Parenthesized && c is Parenthesized) || (a is VarRef && b is VarRef
            && c is VarRef),
    ensures
        consistent(order_fuel(a, b, f), order_fuel(b, c, f), order_fuel(a, c, f)),
    decreases f, 1nat,
{
    let g = (f - 1) as nat;
    match (a, b, c) {
        (Shape::Quote(x), Shape::Quote(y), Shape::Quote(z)) => lemma_order_consistent(*x, *y, *z, g),
        (Shape::Eval(x), Shape::Eval(y), Shape::Eval(z)) => lemma_order_consistent(*x, *y, *z, g),
        (Shape::Negation(x), Shape::Negation(y), Shape::Negation(z)) => lemma_order_consistent(*x, *y, *z, g),
        (Shape::Parenthesized(x), Shape::Parenthesized(y), Shape::Parenthesized(z)) => lemma_order_consistent(
            *x,
            *y,
            *z,
            g,
        ),
        (Shape::VarRef(k1, x), Shape::VarRef(k2, y), Shape::VarRef(k3, z)) => {
            lemma_order_consistent(*x, *y, *z, g);
            lemma_then_consistent(
                kind_order(k1, k2),
                kind_order(k2, k3),
                kind_order(k1, k3),
                order_fuel(*x, *y, g),
                order_fuel(*y, *z, g),
                order_fuel(*x, *z, g),
            );
        },
        _ => {},
    }
}

proof fn lemma_binary_case(a: Shape, b: Shape, c: Shape, f: nat)
    requires
        f > 0,
        proper(a),
        proper(b),
        proper(c),
        (a is Disjunction && b is Disjunction && c is Disjunction) || (a is Conjunction && b is Conjunction && c is Conjunction),
    ensures
        consistent(order_fuel(a, b, f), order_fuel(b, c, f), order_fuel(a, c, f)),
    decreases f, 1nat,
{
    let g = (f - 1) as nat;
    match (a, b, c) {
        (Shape::Disjunction(l1, r1), Shape::Disjunction(l2, r2), Shape::Disjunction(l3, r3)) => {
            lemma_order_consistent(*l1, *l2, *l3, g);
            lemma_order_consistent(*r1, *r2, *r3, g);
            lemma_then_consistent(
                order_fuel(*l1, *l2, g),
                order_fuel(*l2, *l3, g),
                order_fuel(*l1, *l3, g),
                order_fuel(*r1, *r2, g),
                order_fuel(*r2, *r3, g),
                order_fuel(*r1, *r3, g),
            );
        },
        (Shape::Conjunction(l1, r1), Shape::Conjunction(l2, r2), Shape::Conjunction(l3, r3)) => {
            lemma_order_consistent(*l1, *l2, *l3, g);
            lemma_order_consistent(*r1, *r2, *r3, g);
            lemma_then_consistent(
                order_fuel(*l1, *l2, g),
                order_fuel(*l2, *l3, g),
                order_fuel(*l1, *l3, g),
                order_fuel(*r1, *r2, g),
                order_fuel(*r2, *r3, g),
                order_fuel(*r1, *r3, g),
            );
        },
        _ => {},
    }
}

proof fn lemma_collection_case(a: Shape, b: Shape, c: Shape, f: nat)
    requires
        f > 0,
        proper(a),
        proper(b),
        proper(c),
        (a is List && b is List && c is List) || (a is SetOf && b is SetOf && c is SetOf) || (a is MapOf && b is MapOf
            && c is MapOf),
    ensures
        consistent(order_fuel(a, b, f), order_fuel(b, c, f), order_fuel(a, c, f)),
    decreases f, 1nat,
{
    let g = (f - 1) as nat;
    match (a, b, c) {
        (Shape::List(ea, ra), Shape::List(eb, rb), Shape::List(ec, rc)) => {
            lemma_seq_consistent(ea, eb, ec, g);
            lemma_opt_consistent(ra, rb, rc, g);
            lemma_then_consistent(
                sorted_seq_order(ea, eb, g),
                sorted_seq_order(eb, ec, g),
                sorted_seq_order(ea, ec, g),
                opt_order(ra, rb, g),
                opt_order(rb, rc, g),
                opt_order(ra, rc, g),
            );
        },
        (Shape::SetOf(ea, ra), Shape::SetOf(eb, rb), Shape::SetOf(ec, rc)) => {
            lemma_seq_consistent(ea, eb, ec, g);
            lemma_opt_consistent(ra, rb, rc, g);
            lemma_then_consistent(
                sorted_seq_order(ea, eb, g),
                sorted_seq_order(eb, ec, g),
                sorted_seq_order(ea, ec, g),
                opt_order(ra, rb, g),
                opt_order(rb, rc, g),
                opt_order(ra, rc, g),
            );
        },
        (Shape::MapOf(qa, ra), Shape::MapOf(qb, rb), Shape::MapOf(qc, rc)) => {
            lemma_pairs_consistent(qa, qb, qc, g);
            lemma_opt_consistent(ra, rb, rc, g);
            lemma_then_consistent(
                sorted_pairs_order(qa, qb, g),
                sorted_pairs_order(qb, qc, g),
                sorted_pairs_order(qa, qc, g),
                opt_order(ra, rb, g),
                opt_order(rb, rc, g),
                opt_order(ra, rc, g),
            );
        },
        _ => {},
    }
}

proof fn lemma_tuple_case(a: Shape, b: Shape, c: Shape, f: nat)
    requires
        f > 0,
        proper(a),
        proper(b),
        proper(c),
        a is Tuple && b is Tuple && c is Tuple,
    ensures
        consistent(order_fuel(a, b, f), order_fuel(b, c, f), order_fuel(a, c, f)),
    decreases f, 1nat,
{
    let g = (f - 1) as nat;
    if let (Shape::Tuple(ea), Shape::Tuple(eb), Shape::Tuple(ec)) = (a, b, c) {
        lemma_proper_seq(ea);
        lemma_proper_seq(eb);
        lemma_proper_seq(ec);
        let pa = identity(ea.len() as int);
        let pb = identity(eb.len() as int);
        let pc = identity(ec.len() as int);
        let mab = order_matrix(ea, eb, g);
        let mbc = order_matrix(eb, ec, g);
        let mac = order_matrix(ea, ec, g);
        assert forall|x: int| 0 <= x < pa.len() && x < pb.len() && x < pc.len() implies consistent(
            mab[#[trigger] pa[x]][pb[x]],
            mbc[pb[x]][pc[x]],
            mac[pa[x]][pc[x]],
        ) by {
            lemma_order_consistent(ea[x], eb[x], ec[x], g);
        }
        lemma_lex_consistent(pa, pb, pc, mab, mbc, mac, 0);
    }
}

proof fn lemma_order_consistent(a: Shape, b: Shape, c: Shape, f: nat)
    requires
        proper(a),
        proper(b),
        proper(c),
    ensures
        consistent(order_fuel(a, b, f), order_fuel(b, c, f), order_fuel(a, c, f)),
    decreases f, 2nat,
{
    if f > 0 {
        if shape_tag(a) == shape_tag(b) && shape_tag(b) == shape_tag(c) {
            lemma_same_tag(a, b);
            lemma_same_tag(b, c);
            if a is Var || a is Str || a is Uri || a is SimpleType {
                lemma_text_case(a, b, c, f);
            } else if a is Quote || a is Eval || a is Negation || a is Parenthesized || a is VarRef {
                lemma_unary_case(a, b, c, f);
            } else if a is Disjunction || a is Conjunction {
                lemma_binary_case(a, b, c, f);
            } else if a is List || a is SetOf || a is MapOf {
                lemma_collection_case(a, b, c, f);
            } else if a is Tuple {
                lemma_tuple_case(a, b, c, f);
            } else {
                lemma_leaf_consistent(a, b, c, f);
            }
        } else {
            lemma_tags_consistent(a, b, c, f);
        }
    }
}

proof fn lemma_opt_consistent(a: Option<Box<Shape>>, b: Option<Box<Shape>>, c: Option<Box<Shape>>, g: nat)
    requires
        proper_opt(a),
        proper_opt(b),
        proper_opt(c),
    ensures
        consistent(opt_order(a, b, g), opt_order(b, c, g), opt_order(a, c, g)),
    decreases g, 3nat,
{
    if let (Some(x), Some(y), Some(z)) = (a, b, c) {
        lemma_order_consistent(*x, *y, *z, g);
    }
}

proof fn lemma_seq_consistent(ea: Seq<Shape>, eb: Seq<Shape>, ec: Seq<Shape>, g: nat)
    requires
        proper_seq(ea),
        proper_seq(eb),
        proper_seq(ec),
    ensures
        consistent(sorted_seq_order(ea, eb, g), sorted_seq_order(eb, ec, g), sorted_seq_order(ea, ec, g)),
    decreases g, 3nat,
{
    lemma_proper_seq(ea);
    lemma_proper_seq(eb);
    lemma_proper_seq(ec);
    let pa = sorted_indices(order_matrix(ea, ea, g), ea.len() as int);
    let pb = sorted_indices(order_matrix(eb, eb, g), eb.len() as int);
    let pc = sorted_indices(order_matrix(ec, ec, g), ec.len() as int);
    lemma_sorted_indices_range(order_matrix(ea, ea, g), ea.len() as int);
    lemma_sorted_indices_range(order_matrix(eb, eb, g), eb.len() as int);
    lemma_sorted_indices_range(order_matrix(ec, ec, g), ec.len() as int);
    let mab = order_matrix(ea, eb, g);
    let mbc = order_matrix(eb, ec, g);
    let mac = order_matrix(ea, ec, g);
    assert forall|x: int| 0 <= x < pa.len() && x < pb.len() && x < pc.len() implies consistent(
        mab[#[trigger] pa[x]][pb[x]],
        mbc[pb[x]][pc[x]],
        mac[pa[x]][pc[x]],
    ) by {
        let i = pa[x];
        let j = pb[x];
        let l = pc[x];
        assert(0 <= i < ea.len() && 0 <= j < eb.len() && 0 <= l < ec.len());
        lemma_order_consistent(ea[i], eb[j], ec[l], g);
    }
    lemma_lex_consistent(pa, pb, pc, mab, mbc, mac, 0);
}

proof fn lemma_pairs_consistent(qa: Seq<(Shape, Shape)>, qb: Seq<(Shape, Shape)>, qc: Seq<(Shape, Shape)>, g: nat)
    requires
        proper_pairs(qa),
        proper_pairs(qb),
        proper_pairs(qc),
    ensures
        consistent(sorted_pairs_order(qa, qb, g), sorted_pairs_order(qb, qc, g), sorted_pairs_order(qa, qc, g)),
    decreases g, 3nat,
{
    lemma_proper_pairs(qa);
    lemma_proper_pairs(qb);
    lemma_proper_pairs(qc);
    let pa = sorted_indices(key_matrix(qa, qa, g), qa.len() as int);
    let pb = sorted_indices(key_matrix(qb, qb, g), qb.len() as int);
    let pc = sorted_indices(key_matrix(qc, qc, g), qc.len() as int);
    lemma_sorted_indices_range(key_matrix(qa, qa, g), qa.len() as int);
    lemma_sorted_indices_range(key_matrix(qb, qb, g), qb.len() as int);
    lemma_sorted_indices_range(key_matrix(qc, qc, g), qc.len() as int);
    let mab = pair_matrix(qa, qb, g);
    let mbc = pair_matrix(qb, qc, g);
    let mac = pair_matrix(qa, qc, g);
    assert forall|x: int| 0 <= x < pa.len() && x < pb.len() && x < pc.len() implies consistent(
        mab[#[trigger] pa[x]][pb[x]],
        mbc[pb[x]][pc[x]],
        mac[pa[x]][pc[x]],
    ) by {
        let i = pa[x];
        let j = pb[x];
        let l = pc[x];
        assert(0 <= i < qa.len() && 0 <= j < qb.len() && 0 <= l < qc.len());
        assert(proper(qa[i].0) && proper(qa[i].1));
        assert(proper(qb[j].0) && proper(qb[j].1));
        assert(proper(qc[l].0) && proper(qc[l].1));
        lemma_order_consistent(qa[i].0, qb[j].0, qc[l].0, g);
        lemma_order_consistent(qa[i].1, qb[j].1, qc[l].1, g);
        lemma_then_consistent(
            order_fuel(qa[i].0, qb[j].0, g),
            order_fuel(qb[j].0, qc[l].0, g),
            order_fuel(qa[i].0, qc[l].0, g),
            order_fuel(qa[i].1, qb[j].1, g),
            order_fuel(qb[j].1, qc[l].1, g),
            order_fuel(qa[i].1, qc[l].1, g),
        );
        assert(mab[i][j] == then_order(order_fuel(qa[i].0, qb[j].0, g), order_fuel(qa[i].1, qb[j].1, g)));
        assert(mbc[j][l] == then_order(order_fuel(qb[j].0, qc[l].0, g), order_fuel(qb[j].1, qc[l].1, g)));
        assert(mac[i][l] == then_order(order_fuel(qa[i].0, qc[l].0, g), order_fuel(qa[i].1, qc[l].1, g)));
    }
    lemma_lex_consistent(pa, pb, pc, mab, mbc, mac, 0);
}

proof fn lemma_matrix_fuel(s: Seq<Shape>, t: Seq<Shape>, g1: nat, g2: nat)
    requires
        g1 > seq_height(s),
        g1 > seq_height(t),
        g2 > seq_height(s),
        g2 > seq_height(t),
    ensures
        order_matrix(s, t, g1) == order_matrix(s, t, g2),
    decreases g1, 1nat,
{
    lemma_seq_height(s);
    lemma_seq_height(t);
    let m1 = order_matrix(s, t, g1);
    let m2 = order_matrix(s, t, g2);
    assert forall|i: int| 0 <= i < s.len() implies #[trigger] m1[i] =~= m2[i] by {
        assert forall|j: int| 0 <= j < t.len() implies #[trigger] m1[i][j] == m2[i][j] by {
            lemma_fuel(s[i], t[j], g1, g2);
        }
    }
    assert(m1 =~= m2);
}

proof fn lemma_key_matrix_fuel(s: Seq<(Shape, Shape)>, t: Seq<(Shape, Shape)>, g1: nat, g2: nat)
    requires
        g1 > pairs_height(s),
        g1 > pairs_height(t),
        g2 > pairs_height(s),
        g2 > pairs_height(t),
    ensures
        key_matrix(s, t, g1) == key_matrix(s, t, g2),
    decreases g1, 1nat,
{
    lemma_pairs_height(s);
    lemma_pairs_height(t);
    let k1 = key_matrix(s, t, g1);
    let k2 = key_matrix(s, t, g2);
    assert forall|i: int| 0 <= i < s.len() implies #[trigger] k1[i] =~= k2[i] by {
        assert forall|j: int| 0 <= j < t.len() implies #[trigger] k1[i][j] == k2[i][j] by {
            assert(height(s[i].0) + height(s[i].1) <= pairs_height(s));
            assert(height(t[j].0) + height(t[j].1) <= pairs_height(t));
            lemma_fuel(s[i].0, t[j].0, g1, g2);
            assert(k1[i][j] == order_fuel(s[i].0, t[j].0, g1));
            assert(k2[i][j] == order_fuel(s[i].0, t[j].0, g2));
        }
    }
    assert(k1 =~= k2);
}

proof fn lemma_pair_matrix_fuel(s: Seq<(Shape, Shape)>, t: Seq<(Shape, Shape)>, g1: nat, g2: nat)
    requires
        g1 > pairs_height(s),
        g1 > pairs_height(t),
        g2 > pairs_height(s),
        g2 > pairs_height(t),
    ensures
        pair_matrix(s, t, g1) == pair_matrix(s, t, g2),
    decreases g1, 1nat,
{
    lemma_pairs_height(s);
    lemma_pairs_height(t);
    let m1 = pair_matrix(s, t, g1);
    let m2 = pair_matrix(s, t, g2);
    assert forall|i: int| 0 <= i < s.len() implies #[trigger] m1[i] =~= m2[i] by {
        assert forall|j: int| 0 <= j < t.len() implies #[trigger] m1[i][j] == m2[i][j] by {
            assert(height(s[i].0) + height(s[i].1) <= pairs_height(s));
            assert(height(t[j].0) + height(t[j].1) <= pairs_height(t));
            lemma_fuel(s[i].0, t[j].0, g1, g2);
            lemma_fuel(s[i].1, t[j].1, g1, g2);
            assert(m1[i][j] == then_order(order_fuel(s[i].0, t[j].0, g1), order_fuel(s[i].1, t[j].1, g1)));
            assert(m2[i][j] == then_order(order_fuel(s[i].0, t[j].0, g2), order_fuel(s[i].1, t[j].1, g2)));
        }
    }
    assert(m1 =~= m2);
}

proof fn lemma_seq_fuel(ea: Seq<Shape>, eb: Seq<Shape>, g1: nat, g2: nat)
    requires
        g1 > seq_height(ea),
        g1 > seq_height(eb),
        g2 > seq_height(ea),
        g2 > seq_height(eb),
    ensures
        sorted_seq_order(ea, eb, g1) == sorted_seq_order(ea, eb, g2),
        order_matrix(ea, eb, g1) == order_matrix(ea, eb, g2),
    decreases g1, 2nat,
{
    lemma_matrix_fuel(ea, ea, g1, g2);
    lemma_matrix_fuel(eb, eb, g1, g2);
    lemma_matrix_fuel(ea, eb, g1, g2);
}

proof fn lemma_pairs_fuel(qa: Seq<(Shape, Shape)>, qb: Seq<(Shape, Shape)>, g1: nat, g2: nat)
    requires
        g1 > pairs_height(qa),
        g1 > pairs_height(qb),
        g2 > pairs_height(qa),
        g2 > pairs_height(qb),
    ensures
        sorted_pairs_order(qa, qb, g1) == sorted_pairs_order(qa, qb, g2),
    decreases g1, 2nat,
{
    lemma_key_matrix_fuel(qa, qa, g1, g2);
    lemma_key_matrix_fuel(qb, qb, g1, g2);
    lemma_pair_matrix_fuel(qa, qb, g1, g2);
}

proof fn lemma_opt_fuel(a: Option<Box<Shape>>, b: Option<Box<Shape>>, g1: nat, g2: nat)
    requires
        g1 > opt_height(a),
        g1 > opt_height(b),
        g2 > opt_height(a),
        g2 > opt_height(b),
    ensures
        opt_order(a, b, g1) == opt_order(a, b, g2),
    decreases g1, 1nat,
{
    if let (Some(x), Some(y)) = (a, b) {
        lemma_fuel(*x, *y, g1, g2);
    }
}

/// Looking deeper than both shapes reach does not change their order.
proof fn lemma_fuel(a: Shape, b: Shape, f1: nat, f2: nat)
    requires
        f1 > height(a),
        f1 > height(b),
        f2 > height(a),
        f2 > height(b),
    ensures
        order_fuel(a, b, f1) == order_fuel(a, b, f2),
    decreases f1, 0nat,
{
    let g1 = (f1 - 1) as nat;
    let g2 = (f2 - 1) as nat;
    if shape_tag(a) == shape_tag(b) {
        match (a, b) {
            (Shape::Quote(x), Shape::Quote(y)) => lemma_fuel(*x, *y, g1, g2),
            (Shape::Eval(x), Shape::Eval(y)) => lemma_fuel(*x, *y, g1, g2),
            (Shape::VarRef(_, x), Shape::VarRef(_, y)) => lemma_fuel(*x, *y, g1, g2),
            (Shape::Negation(x), Shape::Negation(y)) => lemma_fuel(*x, *y, g1, g2),
            (Shape::Parenthesized(x), Shape::Parenthesized(y)) => lemma_fuel(*x, *y, g1, g2),
            (Shape::Disjunction(l1, r1), Shape::Disjunction(l2, r2)) => {
                lemma_fuel(*l1, *l2, g1, g2);
                lemma_fuel(*r1, *r2, g1, g2);
            },
            (Shape::Conjunction(l1, r1), Shape::Conjunction(l2, r2)) => {
                lemma_fuel(*l1, *l2, g1, g2);
                lemma_fuel(*r1, *r2, g1, g2);
            },
            (Shape::List(ea, ra), Shape::List(eb, rb)) => {
                lemma_seq_fuel(ea, eb, g1, g2);
                lemma_opt_fuel(ra, rb, g1, g2);
            },
            (Shape::SetOf(ea, ra), Shape::SetOf(eb, rb)) => {
                lemma_seq_fuel(ea, eb, g1, g2);
                lemma_opt_fuel(ra, rb, g1, g2);
            },
            (Shape::Tuple(ea), Shape::Tuple(eb)) => {
                lemma_seq_fuel(ea, eb, g1, g2);
            },
            (Shape::MapOf(qa, ra), Shape::MapOf(qb, rb)) => {
                lemma_pairs_fuel(qa, qb, g1, g2);
                lemma_opt_fuel(ra, rb, g1, g2);
            },
            _ => {},
        }
    }
}

/// The structural order is transitive: with `node_cmp`, an order between
/// `a` and `b` that is `Equal` passes the order between `b` and `c` on to
/// `a` and `c`, and so does one between `b` and `c`; two `Less` (or two
/// `Greater`) in a row give `Less` (or `Greater`). With reflexivity and
/// antisymmetry, nodes are totally preordered.
pub proof fn law_node_order_transitive(a: RholangNode, b: RholangNode, c: RholangNode)
    ensures
        consistent(node_order(a, b), node_order(b, c), node_order(a, c)),
        node_order(a, b) != NodeOrder::Greater && node_order(b, c) != NodeOrder::Greater ==> node_order(a, c)
            != NodeOrder::Greater,
{
    let (sa, sb, sc) = (shape_of(a), shape_of(b), shape_of(c));
    let f = height(sa) + height(sb) + height(sc) + 1;
    lemma_fuel(sa, sb, height(sa) + height(sb) + 1, f);
    lemma_fuel(sb, sc, height(sb) + height(sc) + 1, f);
    lemma_fuel(sa, sc, height(sa) + height(sc) + 1, f);
    lemma_node_shape_proper(&a);
    lemma_node_shape_proper(&b);
    lemma_node_shape_proper(&c);
    lemma_order_consistent(sa, sb, sc, f);
}

} // verus!
