//! The structural shape of a node: what comparison and pattern matching
//! read of it, without positions or metadata.
use std::sync::Arc;
use vstd::prelude::*;
use crate::rholang_node::node_types::{RholangNode, RholangVarRefKind};

verus! {

/// The part of a node that ordering and pattern matching look at. Every
/// construct those do not look into is known by its tag alone.
pub enum Shape {
    Var(Seq<char>),
    Wildcard,
    Quote(Box<Shape>),
    Eval(Box<Shape>),
    VarRef(RholangVarRefKind, Box<Shape>),
    List(Seq<Shape>, Option<Box<Shape>>),
    Tuple(Seq<Shape>),
    SetOf(Seq<Shape>, Option<Box<Shape>>),
    MapOf(Seq<(Shape, Shape)>, Option<Box<Shape>>),
    Bool(bool),
    Long(i64),
    Str(Seq<char>),
    Uri(Seq<char>),
    SimpleType(Seq<char>),
    Nil,
    Unit,
    Disjunction(Box<Shape>, Box<Shape>),
    Conjunction(Box<Shape>, Box<Shape>),
    Negation(Box<Shape>),
    Parenthesized(Box<Shape>),
    Other(u32),
}

/// The tag of a shape: the tag of the nodes it describes.
pub open spec fn shape_tag(s: Shape) -> u32 {
    match s {
        Shape::Var(_) => 29,
        Shape::Wildcard => 36,
        Shape::Quote(_) => 17,
        Shape::Eval(_) => 16,
        Shape::VarRef(_, _) => 18,
        Shape::List(_, _) => 24,
        Shape::Tuple(_) => 28,
        Shape::SetOf(_, _) => 25,
        Shape::MapOf(_, _) => 27,
        Shape::Bool(_) => 19,
        Shape::Long(_) => 20,
        Shape::Str(_) => 21,
        Shape::Uri(_) => 22,
        Shape::SimpleType(_) => 37,
        Shape::Nil => 23,
        Shape::Unit => 44,
        Shape::Disjunction(_, _) => 41,
        Shape::Conjunction(_, _) => 42,
        Shape::Negation(_) => 43,
        Shape::Parenthesized(_) => 12,
        Shape::Other(t) => t,
    }
}

/// The shape of a node.
pub open spec fn shape_of(n: RholangNode) -> Shape
    decreases n, 1nat,
{
    match n {
        RholangNode::Var { name, .. } => Shape::Var(name@),
        RholangNode::Wildcard { .. } => Shape::Wildcard,
        RholangNode::Quote { quotable, .. } => Shape::Quote(Box::new(shape_of(*quotable))),
        RholangNode::Eval { name, .. } => Shape::Eval(Box::new(shape_of(*name))),
        RholangNode::VarRef { kind, var, .. } => Shape::VarRef(kind, Box::new(shape_of(*var))),
        RholangNode::List { elements, remainder, .. } => Shape::List(shapes_of(elements@), opt_shape(remainder)),
        RholangNode::Tuple { elements, .. } => Shape::Tuple(shapes_of(elements@)),
        RholangNode::SetExpr { elements, remainder, .. } => Shape::SetOf(shapes_of(elements@), opt_shape(remainder)),
        RholangNode::MapExpr { pairs, remainder, .. } => Shape::MapOf(pair_shapes(pairs@), opt_shape(remainder)),
        RholangNode::BoolLiteral { value, .. } => Shape::Bool(value),
        RholangNode::LongLiteral { value, .. } => Shape::Long(value),
        RholangNode::StringLiteral { value, .. } => Shape::Str(value@),
        RholangNode::UriLiteral { value, .. } => Shape::Uri(value@),
        RholangNode::SimpleType { value, .. } => Shape::SimpleType(value@),
        RholangNode::Nil { .. } => Shape::Nil,
        RholangNode::Unit { .. } => Shape::Unit,
        RholangNode::Disjunction { left, right, .. } => Shape::Disjunction(
            Box::new(shape_of(*left)),
            Box::new(shape_of(*right)),
        ),
        RholangNode::Conjunction { left, right, .. } => Shape::Conjunction(
            Box::new(shape_of(*left)),
            Box::new(shape_of(*right)),
        ),
        RholangNode::Negation { operand, .. } => Shape::Negation(Box::new(shape_of(*operand))),
        RholangNode::Parenthesized { expr, .. } => Shape::Parenthesized(Box::new(shape_of(*expr))),
        _ => Shape::Other(n.spec_tag()),
    }
}

/// The shape of an optional node.
pub open spec fn opt_shape(o: Option<Arc<RholangNode>>) -> Option<Box<Shape>>
    decreases o, 2nat,
{
    match o {
        Some(a) => Some(Box::new(shape_of(*a))),
        None => None,
    }
}

/// The shapes of a sequence of nodes.
pub open spec fn shapes_of(s: Seq<Arc<RholangNode>>) -> Seq<Shape>
    decreases s, 2nat,
{
    if s.len() == 0 {
        Seq::empty()
    } else {
        shapes_of(s.drop_last()).push(shape_of(*s.last()))
    }
}

/// The shapes of a sequence of node pairs.
pub open spec fn pair_shapes(s: Seq<(Arc<RholangNode>, Arc<RholangNode>)>) -> Seq<(Shape, Shape)>
    decreases s, 2nat,
{
    if s.len() == 0 {
        Seq::empty()
    } else {
        pair_shapes(s.drop_last()).push((shape_of(*s.last().0), shape_of(*s.last().1)))
    }
}

/// `shapes_of` is taken element by element.
pub proof fn lemma_shapes_of(s: Seq<Arc<RholangNode>>)
    ensures
        shapes_of(s).len() == s.len(),
        forall|i: int| 0 <= i < s.len() ==> #[trigger] shapes_of(s)[i] == shape_of(*s[i]),
    decreases s.len(),
{
    if s.len() > 0 {
        lemma_shapes_of(s.drop_last());
    }
}

/// `pair_shapes` is taken element by element.
pub proof fn lemma_pair_shapes(s: Seq<(Arc<RholangNode>, Arc<RholangNode>)>)
    ensures
        pair_shapes(s).len() == s.len(),
        forall|i: int|
            0 <= i < s.len() ==> #[trigger] pair_shapes(s)[i] == (shape_of(*s[i].0), shape_of(*s[i].1)),
    decreases s.len(),
{
    if s.len() > 0 {
        lemma_pair_shapes(s.drop_last());
    }
}

/// The nesting depth of a shape.
pub open spec fn height(s: Shape) -> nat
    decreases s, 1nat,
{
    match s {
        Shape::Quote(x) => 1 + height(*x),
        Shape::Eval(x) => 1 + height(*x),
        Shape::VarRef(_, x) => 1 + height(*x),
        Shape::Negation(x) => 1 + height(*x),
        Shape::Parenthesized(x) => 1 + height(*x),
        Shape::Disjunction(x, y) => 1 + height(*x) + height(*y),
        Shape::Conjunction(x, y) => 1 + height(*x) + height(*y),
        Shape::List(es, r) => 1 + seq_height(es) + opt_height(r),
        Shape::Tuple(es) => 1 + seq_height(es),
        Shape::SetOf(es, r) => 1 + seq_height(es) + opt_height(r),
        Shape::MapOf(ps, r) => 1 + pairs_height(ps) + opt_height(r),
        _ => 0,
    }
}

/// The depth of an optional shape.
pub open spec fn opt_height(o: Option<Box<Shape>>) -> nat
    decreases o, 2nat,
{
    match o {
        Some(x) => height(*x),
        None => 0,
    }
}

/// The total depth of a sequence of shapes.
pub open spec fn seq_height(s: Seq<Shape>) -> nat
    decreases s, 2nat,
{
    if s.len() == 0 {
        0
    } else {
        seq_height(s.drop_last()) + height(s.last())
    }
}

/// The total depth of a sequence of shape pairs.
pub open spec fn pairs_height(s: Seq<(Shape, Shape)>) -> nat
    decreases s, 2nat,
{
    if s.len() == 0 {
        0
    } else {
        pairs_height(s.drop_last()) + height(s.last().0) + height(s.last().1)
    }
}

/// Each element of a sequence is no deeper than the sequence.
pub proof fn lemma_seq_height(s: Seq<Shape>)
    ensures
        forall|i: int| 0 <= i < s.len() ==> #[trigger] height(s[i]) <= seq_height(s),
    decreases s.len(),
{
    if s.len() > 0 {
        lemma_seq_height(s.drop_last());
        assert forall|i: int| 0 <= i < s.len() implies #[trigger] height(s[i]) <= seq_height(s) by {
            if i < s.len() - 1 {
                assert(s[i] == s.drop_last()[i]);
            }
        }
    }
}

/// Each element of a sequence of pairs is no deeper than the sequence.
pub proof fn lemma_pairs_height(s: Seq<(Shape, Shape)>)
    ensures
        forall|i: int| 0 <= i < s.len() ==> height(#[trigger] s[i].0) + height(s[i].1) <= pairs_height(s),
    decreases s.len(),
{
    if s.len() > 0 {
        lemma_pairs_height(s.drop_last());
        assert forall|i: int| 0 <= i < s.len() implies height(#[trigger] s[i].0) + height(s[i].1) <= pairs_height(s) by {
            if i < s.len() - 1 {
                assert(s[i] == s.drop_last()[i]);
            }
        }
    }
}

/// Which shape a node has follows from which construct it is.
pub proof fn lemma_shape_kind(n: &RholangNode)
    ensures
        (shape_of(*n) is Var) == (n is Var),
        (shape_of(*n) is Wildcard) == (n is Wildcard),
        (shape_of(*n) is Quote) == (n is Quote),
        (shape_of(*n) is Eval) == (n is Eval),
        (shape_of(*n) is VarRef) == (n is VarRef),
        (shape_of(*n) is List) == (n is List),
        (shape_of(*n) is Tuple) == (n is Tuple),
        (shape_of(*n) is SetOf) == (n is SetExpr),
        (shape_of(*n) is MapOf) == (n is MapExpr),
        (shape_of(*n) is Bool) == (n is BoolLiteral),
        (shape_of(*n) is Long) == (n is LongLiteral),
        (shape_of(*n) is Str) == (n is StringLiteral),
        (shape_of(*n) is Uri) == (n is UriLiteral),
        (shape_of(*n) is SimpleType) == (n is SimpleType),
        (shape_of(*n) is Nil) == (n is Nil),
        (shape_of(*n) is Unit) == (n is Unit),
        (shape_of(*n) is Disjunction) == (n is Disjunction),
        (shape_of(*n) is Conjunction) == (n is Conjunction),
        (shape_of(*n) is Negation) == (n is Negation),
        (shape_of(*n) is Parenthesized) == (n is Parenthesized),
        shape_of(*n) is Other == !(n is Var || n is Wildcard || n is Quote || n is Eval || n is VarRef || n is List || n is Tuple || n is SetExpr || n is MapExpr || n is BoolLiteral || n is LongLiteral || n is StringLiteral || n is UriLiteral || n is SimpleType || n is Nil || n is Unit || n is Disjunction || n is Conjunction || n is Negation || n is Parenthesized),
{
}

/// The constructs that shapes look into are known by their tags.
pub proof fn lemma_tag_kind(n: RholangNode)
    ensures
        (n.spec_tag() == 29) == (n is Var),
        (n.spec_tag() == 36) == (n is Wildcard),
        (n.spec_tag() == 17) == (n is Quote),
        (n.spec_tag() == 16) == (n is Eval),
        (n.spec_tag() == 18) == (n is VarRef),
        (n.spec_tag() == 24) == (n is List),
        (n.spec_tag() == 28) == (n is Tuple),
        (n.spec_tag() == 25) == (n is SetExpr),
        (n.spec_tag() == 27) == (n is MapExpr),
        (n.spec_tag() == 19) == (n is BoolLiteral),
        (n.spec_tag() == 20) == (n is LongLiteral),
        (n.spec_tag() == 21) == (n is StringLiteral),
        (n.spec_tag() == 22) == (n is UriLiteral),
        (n.spec_tag() == 37) == (n is SimpleType),
        (n.spec_tag() == 23) == (n is Nil),
        (n.spec_tag() == 44) == (n is Unit),
        (n.spec_tag() == 41) == (n is Disjunction),
        (n.spec_tag() == 42) == (n is Conjunction),
        (n.spec_tag() == 43) == (n is Negation),
        (n.spec_tag() == 12) == (n is Parenthesized),
{
}

/// The depth of the composite shapes.
pub proof fn lemma_height_unfold(p: Seq<Shape>, q: Seq<(Shape, Shape)>, o: Option<Box<Shape>>)
    ensures
        height(Shape::List(p, o)) == 1 + seq_height(p) + opt_height(o),
        height(Shape::SetOf(p, o)) == 1 + seq_height(p) + opt_height(o),
        height(Shape::Tuple(p)) == 1 + seq_height(p),
        height(Shape::MapOf(q, o)) == 1 + pairs_height(q) + opt_height(o),
        opt_height(None) == 0,
        o matches Some(x) ==> opt_height(o) == height(*x),
{
}

/// The elements of a sequence of nodes are shallower than any bound on the sequence's depth.
pub proof fn lemma_elements_below(s: Seq<Arc<RholangNode>>, g: nat)
    requires
        seq_height(shapes_of(s)) < g,
    ensures
        forall|i: int| 0 <= i < s.len() ==> g > height(#[trigger] shape_of(*s[i])),
{
    lemma_shapes_of(s);
    lemma_seq_height(shapes_of(s));
    assert forall|i: int| 0 <= i < s.len() implies g > height(#[trigger] shape_of(*s[i])) by {
        assert(shapes_of(s)[i] == shape_of(*s[i]));
    }
}

/// The parts of a sequence of pairs are shallower than any bound on the sequence's depth.
pub proof fn lemma_pairs_below(s: Seq<(Arc<RholangNode>, Arc<RholangNode>)>, g: nat)
    requires
        pairs_height(pair_shapes(s)) < g,
    ensures
        forall|i: int| 0 <= i < s.len() ==> g > height(#[trigger] shape_of(*s[i].0)) && g > height(shape_of(*s[i].1)),
{
    lemma_pair_shapes(s);
    lemma_pairs_height(pair_shapes(s));
    assert forall|i: int| 0 <= i < s.len() implies g > height(#[trigger] shape_of(*s[i].0)) && g > height(
        shape_of(*s[i].1),
    ) by {
        assert(pair_shapes(s)[i] == (shape_of(*s[i].0), shape_of(*s[i].1)));
        assert(height(pair_shapes(s)[i].0) + height(pair_shapes(s)[i].1) <= pairs_height(pair_shapes(s)));
    }
}

} // verus!
