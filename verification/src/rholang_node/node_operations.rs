//! Operations over whole node trees: collecting contracts and calls.
use std::sync::Arc;
use vstd::prelude::*;
use super::node_types::{share, RholangNode};
use super::position_tracking::{branches_hold, is_part, pairs_hold, par_form, receipts_hold};

verus! {

/// What a tree walk collects: contract definitions, or calls (sends).
#[derive(Clone, Copy, PartialEq, Eq, Debug, Structural)]
pub enum CollectTarget {
    Contracts,
    Calls,
}

/// Whether `n` is a node that the walk for `t` collects.
pub open spec fn is_target(n: RholangNode, t: CollectTarget) -> bool {
    match t {
        CollectTarget::Contracts => n is Contract,
        CollectTarget::Calls => n is Send || n is SendSync,
    }
}

/// Whether `n` is a node that the walk for `t` collects.
pub fn target_node(n: &RholangNode, t: CollectTarget) -> (b: bool)
    ensures
        b == is_target(*n, t),
{
    match t {
        CollectTarget::Contracts => matches!(n, RholangNode::Contract { .. }),
        CollectTarget::Calls => matches!(n, RholangNode::Send { .. } | RholangNode::SendSync { .. }),
    }
}

/// The nodes that a walk for `t` collects from the tree `a`, in pre-order:
/// a collected node comes first, followed by what its children contribute,
/// in the order the children appear.
pub open spec fn collected(a: Arc<RholangNode>, t: CollectTarget) -> Seq<Arc<RholangNode>>
    decreases a, 1nat,
{
    if is_target(*a, t) {
        seq![a] + collected_children(a, t)
    } else {
        collected_children(a, t)
    }
}

/// What the children of `a` contribute to the walk for `t`, in order.
#[verifier::opaque]
pub open spec fn collected_children(a: Arc<RholangNode>, t: CollectTarget) -> Seq<Arc<RholangNode>>
    decreases a, 0nat,
{
    match *a {
            RholangNode::Par { left, right, processes, .. } => {
                if left is Some && right is Some {
                    collected(left->0, t) + collected(right->0, t)
                } else {
                    match processes {
                        Some(p) => collected_seq(p@, t),
                        None => Seq::empty(),
                    }
                }
            },
            RholangNode::SendSync { channel, inputs, cont, .. } => collected(channel, t) + collected_seq(inputs@, t) + collected(cont, t),
            RholangNode::Send { channel, inputs, .. } => collected(channel, t) + collected_seq(inputs@, t),
            RholangNode::New { decls, proc, .. } => collected_seq(decls@, t) + collected(proc, t),
            RholangNode::IfElse { condition, consequence, alternative, .. } => collected(condition, t) + collected(consequence, t) + collected_opt(alternative, t),
            RholangNode::Let { decls, proc, .. } => collected_seq(decls@, t) + collected(proc, t),
            RholangNode::Bundle { proc, .. } => collected(proc, t),
            RholangNode::Match { expression, cases, .. } => collected(expression, t) + collected_pairs(cases@, t),
            RholangNode::Choice { branches, .. } => collected_branches(branches@, t),
            RholangNode::Contract { name, formals, formals_remainder, proc, .. } => collected(name, t) + collected_seq(formals@, t) + collected_opt(formals_remainder, t) + collected(proc, t),
            RholangNode::Input { receipts, proc, .. } => collected_receipts(receipts@, t) + collected(proc, t),
            RholangNode::Block { proc, .. } => collected(proc, t),
            RholangNode::Parenthesized { expr, .. } => collected(expr, t),
            RholangNode::BinOp { left, right, .. } => collected(left, t) + collected(right, t),
            RholangNode::UnaryOp { operand, .. } => collected(operand, t),
            RholangNode::Method { receiver, args, .. } => collected(receiver, t) + collected_seq(args@, t),
            RholangNode::Eval { name, .. } => collected(name, t),
            RholangNode::Quote { quotable, .. } => collected(quotable, t),
            RholangNode::VarRef { var, .. } => collected(var, t),
            RholangNode::List { elements, remainder, .. } => collected_seq(elements@, t) + collected_opt(remainder, t),
            RholangNode::SetExpr { elements, remainder, .. } => collected_seq(elements@, t) + collected_opt(remainder, t),
            RholangNode::Pathmap { elements, remainder, .. } => collected_seq(elements@, t) + collected_opt(remainder, t),
            RholangNode::MapExpr { pairs, remainder, .. } => collected_pairs(pairs@, t) + collected_opt(remainder, t),
            RholangNode::Tuple { elements, .. } => collected_seq(elements@, t),
            RholangNode::NameDecl { var, uri, .. } => collected(var, t) + collected_opt(uri, t),
            RholangNode::Decl { names, names_remainder, procs, .. } => collected_seq(names@, t) + collected_opt(names_remainder, t) + collected_seq(procs@, t),
            RholangNode::LinearBind { names, remainder, source, .. } => collected_seq(names@, t) + collected_opt(remainder, t) + collected(source, t),
            RholangNode::RepeatedBind { names, remainder, source, .. } => collected_seq(names@, t) + collected_opt(remainder, t) + collected(source, t),
            RholangNode::PeekBind { names, remainder, source, .. } => collected_seq(names@, t) + collected_opt(remainder, t) + collected(source, t),
            RholangNode::ReceiveSendSource { name, .. } => collected(name, t),
            RholangNode::SendReceiveSource { name, inputs, .. } => collected(name, t) + collected_seq(inputs@, t),
            RholangNode::Error { children, .. } => collected_seq(children@, t),
            RholangNode::Disjunction { left, right, .. } => collected(left, t) + collected(right, t),
            RholangNode::Conjunction { left, right, .. } => collected(left, t) + collected(right, t),
            RholangNode::Negation { operand, .. } => collected(operand, t),
            _ => Seq::empty(),
    }
}

pub open spec fn collected_opt(o: Option<Arc<RholangNode>>, t: CollectTarget) -> Seq<Arc<RholangNode>>
    decreases o, 2nat,
{
    match o {
        Some(a) => collected(a, t),
        None => Seq::empty(),
    }
}

pub open spec fn collected_seq(s: Seq<Arc<RholangNode>>, t: CollectTarget) -> Seq<Arc<RholangNode>>
    decreases s, 2nat,
{
    if s.len() == 0 {
        Seq::empty()
    } else {
        collected_seq(s.drop_last(), t) + collected(s.last(), t)
    }
}

pub open spec fn collected_pairs(s: Seq<(Arc<RholangNode>, Arc<RholangNode>)>, t: CollectTarget) -> Seq<Arc<RholangNode>>
    decreases s, 2nat,
{
    if s.len() == 0 {
        Seq::empty()
    } else {
        collected_pairs(s.drop_last(), t) + collected(s.last().0, t) + collected(s.last().1, t)
    }
}

pub open spec fn collected_branches(s: Seq<(Vec<Arc<RholangNode>>, Arc<RholangNode>)>, t: CollectTarget) -> Seq<Arc<RholangNode>>
    decreases s, 2nat,
{
    if s.len() == 0 {
        Seq::empty()
    } else {
        collected_branches(s.drop_last(), t) + collected_seq(s.last().0@, t) + collected(s.last().1, t)
    }
}

pub open spec fn collected_receipts(s: Seq<Vec<Arc<RholangNode>>>, t: CollectTarget) -> Seq<Arc<RholangNode>>
    decreases s, 2nat,
{
    if s.len() == 0 {
        Seq::empty()
    } else {
        collected_receipts(s.drop_last(), t) + collected_seq(s.last()@, t)
    }
}

/// Whether every element of `small` occurs in `big`.
pub open spec fn includes(big: Seq<Arc<RholangNode>>, small: Seq<Arc<RholangNode>>) -> bool {
    forall|k: int| 0 <= k < small.len() ==> big.contains(#[trigger] small[k])
}

/// What occurs in one part of a concatenation occurs in the whole.
proof fn lemma_add_contains(a: Seq<Arc<RholangNode>>, b: Seq<Arc<RholangNode>>, x: Arc<RholangNode>)
    ensures
        a.contains(x) || b.contains(x) ==> (a + b).contains(x),
{
    if a.contains(x) {
        let i = choose|i: int| 0 <= i < a.len() && a[i] == x;
        assert((a + b)[i] == x);
    } else if b.contains(x) {
        let i = choose|i: int| 0 <= i < b.len() && b[i] == x;
        assert((a + b)[a.len() + i] == x);
    }
}

proof fn lemma_seq_includes(s: Seq<Arc<RholangNode>>, c: Arc<RholangNode>, t: CollectTarget)
    requires
        s.contains(c),
    ensures
        forall|x: Arc<RholangNode>| collected(c, t).contains(x) ==> #[trigger] collected_seq(s, t).contains(x),
    decreases s.len(),
{
    let init = s.drop_last();
    if s.last() != c {
        let i = choose|i: int| 0 <= i < s.len() && s[i] == c;
        assert(init[i] == c);
        lemma_seq_includes(init, c, t);
    }
    assert forall|x: Arc<RholangNode>| collected(c, t).contains(x) implies #[trigger] collected_seq(s, t).contains(x) by {
        assert(collected_seq(s, t) == collected_seq(init, t) + collected(s.last(), t));
        if s.last() == c {
            lemma_add_contains(collected_seq(init, t), collected(s.last(), t), x);
        } else {
            assert(collected_seq(init, t).contains(x));
            lemma_add_contains(collected_seq(init, t), collected(s.last(), t), x);
        }
    }
}

proof fn lemma_pairs_includes(s: Seq<(Arc<RholangNode>, Arc<RholangNode>)>, c: Arc<RholangNode>, t: CollectTarget)
    requires
        pairs_hold(s, c),
    ensures
        forall|x: Arc<RholangNode>| collected(c, t).contains(x) ==> #[trigger] collected_pairs(s, t).contains(x),
    decreases s.len(),
{
    let init = s.drop_last();
    let l = s.last();
    if l.0 != c && l.1 != c {
        let i = choose|i: int| #![trigger s[i]] 0 <= i < s.len() && (s[i].0 == c || s[i].1 == c);
        assert(init[i] == s[i]);
        lemma_pairs_includes(init, c, t);
    }
    assert forall|x: Arc<RholangNode>| collected(c, t).contains(x) implies #[trigger] collected_pairs(s, t).contains(x) by {
        let a1 = collected_pairs(init, t);
        let a2 = collected(l.0, t);
        let a3 = collected(l.1, t);
        assert(collected_pairs(s, t) == a1 + a2 + a3);
        if l.0 == c {
            lemma_add_contains(a1, a2, x);
        } else if l.1 != c {
            assert(a1.contains(x));
            lemma_add_contains(a1, a2, x);
        }
        lemma_add_contains(a1 + a2, a3, x);
    }
}

proof fn lemma_branches_includes(s: Seq<(Vec<Arc<RholangNode>>, Arc<RholangNode>)>, c: Arc<RholangNode>, t: CollectTarget)
    requires
        branches_hold(s, c),
    ensures
        forall|x: Arc<RholangNode>| collected(c, t).contains(x) ==> #[trigger] collected_branches(s, t).contains(x),
    decreases s.len(),
{
    let init = s.drop_last();
    let l = s.last();
    if l.0@.contains(c) {
        lemma_seq_includes(l.0@, c, t);
    } else if l.1 != c {
        let i = choose|i: int| #![trigger s[i]] 0 <= i < s.len() && (s[i].0@.contains(c) || s[i].1 == c);
        assert(init[i] == s[i]);
        lemma_branches_includes(init, c, t);
    }
    assert forall|x: Arc<RholangNode>| collected(c, t).contains(x) implies #[trigger] collected_branches(s, t).contains(x) by {
        let a1 = collected_branches(init, t);
        let a2 = collected_seq(l.0@, t);
        let a3 = collected(l.1, t);
        assert(collected_branches(s, t) == a1 + a2 + a3);
        if l.0@.contains(c) {
            assert(a2.contains(x));
            lemma_add_contains(a1, a2, x);
        } else if l.1 != c {
            assert(a1.contains(x));
            lemma_add_contains(a1, a2, x);
        }
        lemma_add_contains(a1 + a2, a3, x);
    }
}

proof fn lemma_receipts_includes(s: Seq<Vec<Arc<RholangNode>>>, c: Arc<RholangNode>, t: CollectTarget)
    requires
        receipts_hold(s, c),
    ensures
        forall|x: Arc<RholangNode>| collected(c, t).contains(x) ==> #[trigger] collected_receipts(s, t).contains(x),
    decreases s.len(),
{
    let init = s.drop_last();
    let l = s.last();
    if l@.contains(c) {
        lemma_seq_includes(l@, c, t);
    } else {
        let i = choose|i: int| #![trigger s[i]] 0 <= i < s.len() && s[i]@.contains(c);
        assert(init[i] == s[i]);
        lemma_receipts_includes(init, c, t);
    }
    assert forall|x: Arc<RholangNode>| collected(c, t).contains(x) implies #[trigger] collected_receipts(s, t).contains(x) by {
        let a1 = collected_receipts(init, t);
        let a2 = collected_seq(l@, t);
        assert(collected_receipts(s, t) == a1 + a2);
        if l@.contains(c) {
            assert(a2.contains(x));
        } else {
            assert(a1.contains(x));
        }
        lemma_add_contains(a1, a2, x);
    }
}

/// Collection misses nothing below a node: for every node `c` that `a`
/// holds directly, whatever the walk for `t` collects from `c` it also
/// collects from `a`; in particular `c` itself, when it is a node the walk
/// collects.
pub proof fn law_collection_includes_parts(a: Arc<RholangNode>, c: Arc<RholangNode>, t: CollectTarget)
    requires
        is_part(*a, c),
        par_form(*a),
    ensures
        includes(collected(a, t), collected(c, t)),
        is_target(*c, t) ==> collected(a, t).contains(c),
{
    reveal(collected_children);
    match *a {
        RholangNode::Par { left, right, processes, .. } => {
            match processes {
                Some(p) => {
                    if p@.contains(c) {
                        lemma_seq_includes(p@, c, t);
                    }
                    assert forall|x: Arc<RholangNode>| collected(c, t).contains(x) implies #[trigger] collected_children(a, t).contains(x) by {
                        assert(collected_children(a, t) == collected_seq(p@, t));
                    }
                },
                None => {
                    assert forall|x: Arc<RholangNode>| collected(c, t).contains(x) implies #[trigger] collected_children(a, t).contains(x) by {
                        let p0 = collected(left->0, t);
                        let p1 = collected(right->0, t);
                        assert(collected_children(a, t) == p0 + p1);
                        if left == Some(c) { assert(p0.contains(x)); }
                        if right == Some(c) { assert(p1.contains(x)); }
                        lemma_add_contains(p0, p1, x);
                    }
                },
            }
        },
        RholangNode::SendSync { channel, inputs, cont, .. } => {
            if inputs@.contains(c) { lemma_seq_includes(inputs@, c, t); }
            assert forall|x: Arc<RholangNode>| collected(c, t).contains(x) implies #[trigger] collected_children(a, t).contains(x) by {
                let p0 = collected(channel, t);
                let p1 = collected_seq(inputs@, t);
                let p2 = collected(cont, t);
                assert(collected_children(a, t) == p0 + p1 + p2);
                if channel == c { assert(p0.contains(x)); }
                if inputs@.contains(c) { assert(p1.contains(x)); }
                if cont == c { assert(p2.contains(x)); }
                lemma_add_contains(p0, p1, x);
                lemma_add_contains(p0 + p1, p2, x);
            }
        },
        RholangNode::Send { channel, inputs, .. } => {
            if inputs@.contains(c) { lemma_seq_includes(inputs@, c, t); }
            assert forall|x: Arc<RholangNode>| collected(c, t).contains(x) implies #[trigger] collected_children(a, t).contains(x) by {
                let p0 = collected(channel, t);
                let p1 = collected_seq(inputs@, t);
                assert(collected_children(a, t) == p0 + p1);
                if channel == c { assert(p0.contains(x)); }
                if inputs@.contains(c) { assert(p1.contains(x)); }
                lemma_add_contains(p0, p1, x);
            }
        },
        RholangNode::New { decls, proc, .. } => {
            if decls@.contains(c) { lemma_seq_includes(decls@, c, t); }
            assert forall|x: Arc<RholangNode>| collected(c, t).contains(x) implies #[trigger] collected_children(a, t).contains(x) by {
                let p0 = collected_seq(decls@, t);
                let p1 = collected(proc, t);
                assert(collected_children(a, t) == p0 + p1);
                if decls@.contains(c) { assert(p0.contains(x)); }
                if proc == c { assert(p1.contains(x)); }
                lemma_add_contains(p0, p1, x);
            }
        },
        RholangNode::IfElse { condition, consequence, alternative, .. } => {
            assert forall|x: Arc<RholangNode>| collected(c, t).contains(x) implies #[trigger] collected_children(a, t).contains(x) by {
                let p0 = collected(condition, t);
                let p1 = collected(consequence, t);
                let p2 = collected_opt(alternative, t);
                assert(collected_children(a, t) == p0 + p1 + p2);
                if condition == c { assert(p0.contains(x)); }
                if consequence == c { assert(p1.contains(x)); }
                if alternative == Some(c) { assert(p2.contains(x)); }
                lemma_add_contains(p0, p1, x);
                lemma_add_contains(p0 + p1, p2, x);
            }
        },
        RholangNode::Let { decls, proc, .. } => {
            if decls@.contains(c) { lemma_seq_includes(decls@, c, t); }
            assert forall|x: Arc<RholangNode>| collected(c, t).contains(x) implies #[trigger] collected_children(a, t).contains(x) by {
                let p0 = collected_seq(decls@, t);
                let p1 = collected(proc, t);
                assert(collected_children(a, t) == p0 + p1);
                if decls@.contains(c) { assert(p0.contains(x)); }
                if proc == c { assert(p1.contains(x)); }
                lemma_add_contains(p0, p1, x);
            }
        },
        RholangNode::Bundle { proc, .. } => {
            assert forall|x: Arc<RholangNode>| collected(c, t).contains(x) implies #[trigger] collected_children(a, t).contains(x) by {
                let p0 = collected(proc, t);
                assert(collected_children(a, t) == p0);
                if proc == c { assert(p0.contains(x)); }
            }
        },
        RholangNode::Match { expression, cases, .. } => {
            if pairs_hold(cases@, c) { lemma_pairs_includes(cases@, c, t); }
            assert forall|x: Arc<RholangNode>| collected(c, t).contains(x) implies #[trigger] collected_children(a, t).contains(x) by {
                let p0 = collected(expression, t);
                let p1 = collected_pairs(cases@, t);
                assert(collected_children(a, t) == p0 + p1);
                if expression == c { assert(p0.contains(x)); }
                if pairs_hold(cases@, c) { assert(p1.contains(x)); }
                lemma_add_contains(p0, p1, x);
            }
        },
        RholangNode::Choice { branches, .. } => {
            if branches_hold(branches@, c) { lemma_branches_includes(branches@, c, t); }
            assert forall|x: Arc<RholangNode>| collected(c, t).contains(x) implies #[trigger] collected_children(a, t).contains(x) by {
                let p0 = collected_branches(branches@, t);
                assert(collected_children(a, t) == p0);
                if branches_hold(branches@, c) { assert(p0.contains(x)); }
            }
        },
        RholangNode::Contract { name, formals, formals_remainder, proc, .. } => {
            if formals@.contains(c) { lemma_seq_includes(formals@, c, t); }
            assert forall|x: Arc<RholangNode>| collected(c, t).contains(x) implies #[trigger] collected_children(a, t).contains(x) by {
                let p0 = collected(name, t);
                let p1 = collected_seq(formals@, t);
                let p2 = collected_opt(formals_remainder, t);
                let p3 = collected(proc, t);
                assert(collected_children(a, t) == p0 + p1 + p2 + p3);
                if name == c { assert(p0.contains(x)); }
                if formals@.contains(c) { assert(p1.contains(x)); }
                if formals_remainder == Some(c) { assert(p2.contains(x)); }
                if proc == c { assert(p3.contains(x)); }
                lemma_add_contains(p0, p1, x);
                lemma_add_contains(p0 + p1, p2, x);
                lemma_add_contains(p0 + p1 + p2, p3, x);
            }
        },
        RholangNode::Input { receipts, proc, .. } => {
            if receipts_hold(receipts@, c) { lemma_receipts_includes(receipts@, c, t); }
            assert forall|x: Arc<RholangNode>| collected(c, t).contains(x) implies #[trigger] collected_children(a, t).contains(x) by {
                let p0 = collected_receipts(receipts@, t);
                let p1 = collected(proc, t);
                assert(collected_children(a, t) == p0 + p1);
                if receipts_hold(receipts@, c) { assert(p0.contains(x)); }
                if proc == c { assert(p1.contains(x)); }
                lemma_add_contains(p0, p1, x);
            }
        },
        RholangNode::Block { proc, .. } => {
            assert forall|x: Arc<RholangNode>| collected(c, t).contains(x) implies #[trigger] collected_children(a, t).contains(x) by {
                let p0 = collected(proc, t);
                assert(collected_children(a, t) == p0);
                if proc == c { assert(p0.contains(x)); }
            }
        },
        RholangNode::Parenthesized { expr, .. } => {
            assert forall|x: Arc<RholangNode>| collected(c, t).contains(x) implies #[trigger] collected_children(a, t).contains(x) by {
                let p0 = collected(expr, t);
                assert(collected_children(a, t) == p0);
                if expr == c { assert(p0.contains(x)); }
            }
        },
        RholangNode::BinOp { left, right, .. } => {
            assert forall|x: Arc<RholangNode>| collected(c, t).contains(x) implies #[trigger] collected_children(a, t).contains(x) by {
                let p0 = collected(left, t);
                let p1 = collected(right, t);
                assert(collected_children(a, t) == p0 + p1);
                if left == c { assert(p0.contains(x)); }
                if right == c { assert(p1.contains(x)); }
                lemma_add_contains(p0, p1, x);
            }
        },
        RholangNode::UnaryOp { operand, .. } => {
            assert forall|x: Arc<RholangNode>| collected(c, t).contains(x) implies #[trigger] collected_children(a, t).contains(x) by {
                let p0 = collected(operand, t);
                assert(collected_children(a, t) == p0);
                if operand == c { assert(p0.contains(x)); }
            }
        },
        RholangNode::Method { receiver, args, .. } => {
            if args@.contains(c) { lemma_seq_includes(args@, c, t); }
            assert forall|x: Arc<RholangNode>| collected(c, t).contains(x) implies #[trigger] collected_children(a, t).contains(x) by {
                let p0 = collected(receiver, t);
                let p1 = collected_seq(args@, t);
                assert(collected_children(a, t) == p0 + p1);
                if receiver == c { assert(p0.contains(x)); }
                if args@.contains(c) { assert(p1.contains(x)); }
                lemma_add_contains(p0, p1, x);
            }
        },
        RholangNode::Eval { name, .. } => {
            assert forall|x: Arc<RholangNode>| collected(c, t).contains(x) implies #[trigger] collected_children(a, t).contains(x) by {
                let p0 = collected(name, t);
                assert(collected_children(a, t) == p0);
                if name == c { assert(p0.contains(x)); }
            }
        },
        RholangNode::Quote { quotable, .. } => {
            assert forall|x: Arc<RholangNode>| collected(c, t).contains(x) implies #[trigger] collected_children(a, t).contains(x) by {
                let p0 = collected(quotable, t);
                assert(collected_children(a, t) == p0);
                if quotable == c { assert(p0.contains(x)); }
            }
        },
        RholangNode::VarRef { var, .. } => {
            assert forall|x: Arc<RholangNode>| collected(c, t).contains(x) implies #[trigger] collected_children(a, t).contains(x) by {
                let p0 = collected(var, t);
                assert(collected_children(a, t) == p0);
                if var == c { assert(p0.contains(x)); }
            }
        },
        RholangNode::List { elements, remainder, .. } => {
            if elements@.contains(c) { lemma_seq_includes(elements@, c, t); }
            assert forall|x: Arc<RholangNode>| collected(c, t).contains(x) implies #[trigger] collected_children(a, t).contains(x) by {
                let p0 = collected_seq(elements@, t);
                let p1 = collected_opt(remainder, t);
                assert(collected_children(a, t) == p0 + p1);
                if elements@.contains(c) { assert(p0.contains(x)); }
                if remainder == Some(c) { assert(p1.contains(x)); }
                lemma_add_contains(p0, p1, x);
            }
        },
        RholangNode::SetExpr { elements, remainder, .. } => {
            if elements@.contains(c) { lemma_seq_includes(elements@, c, t); }
            assert forall|x: Arc<RholangNode>| collected(c, t).contains(x) implies #[trigger] collected_children(a, t).contains(x) by {
                let p0 = collected_seq(elements@, t);
                let p1 = collected_opt(remainder, t);
                assert(collected_children(a, t) == p0 + p1);
                if elements@.contains(c) { assert(p0.contains(x)); }
                if remainder == Some(c) { assert(p1.contains(x)); }
                lemma_add_contains(p0, p1, x);
            }
        },
        RholangNode::Pathmap { elements, remainder, .. } => {
            if elements@.contains(c) { lemma_seq_includes(elements@, c, t); }
            assert forall|x: Arc<RholangNode>| collected(c, t).contains(x) implies #[trigger] collected_children(a, t).contains(x) by {
                let p0 = collected_seq(elements@, t);
                let p1 = collected_opt(remainder, t);
                assert(collected_children(a, t) == p0 + p1);
                if elements@.contains(c) { assert(p0.contains(x)); }
                if remainder == Some(c) { assert(p1.contains(x)); }
                lemma_add_contains(p0, p1, x);
            }
        },
        RholangNode::MapExpr { pairs, remainder, .. } => {
            if pairs_hold(pairs@, c) { lemma_pairs_includes(pairs@, c, t); }
            assert forall|x: Arc<RholangNode>| collected(c, t).contains(x) implies #[trigger] collected_children(a, t).contains(x) by {
                let p0 = collected_pairs(pairs@, t);
                let p1 = collected_opt(remainder, t);
                assert(collected_children(a, t) == p0 + p1);
                if pairs_hold(pairs@, c) { assert(p0.contains(x)); }
                if remainder == Some(c) { assert(p1.contains(x)); }
                lemma_add_contains(p0, p1, x);
            }
        },
        RholangNode::Tuple { elements, .. } => {
            if elements@.contains(c) { lemma_seq_includes(elements@, c, t); }
            assert forall|x: Arc<RholangNode>| collected(c, t).contains(x) implies #[trigger] collected_children(a, t).contains(x) by {
                let p0 = collected_seq(elements@, t);
                assert(collected_children(a, t) == p0);
                if elements@.contains(c) { assert(p0.contains(x)); }
            }
        },
        RholangNode::NameDecl { var, uri, .. } => {
            assert forall|x: Arc<RholangNode>| collected(c, t).contains(x) implies #[trigger] collected_children(a, t).contains(x) by {
                let p0 = collected(var, t);
                let p1 = collected_opt(uri, t);
                assert(collected_children(a, t) == p0 + p1);
                if var == c { assert(p0.contains(x)); }
                if uri == Some(c) { assert(p1.contains(x)); }
                lemma_add_contains(p0, p1, x);
            }
        },
        RholangNode::Decl { names, names_remainder, procs, .. } => {
            if names@.contains(c) { lemma_seq_includes(names@, c, t); }
            if procs@.contains(c) { lemma_seq_includes(procs@, c, t); }
            assert forall|x: Arc<RholangNode>| collected(c, t).contains(x) implies #[trigger] collected_children(a, t).contains(x) by {
                let p0 = collected_seq(names@, t);
                let p1 = collected_opt(names_remainder, t);
                let p2 = collected_seq(procs@, t);
                assert(collected_children(a, t) == p0 + p1 + p2);
                if names@.contains(c) { assert(p0.contains(x)); }
                if names_remainder == Some(c) { assert(p1.contains(x)); }
                if procs@.contains(c) { assert(p2.contains(x)); }
                lemma_add_contains(p0, p1, x);
                lemma_add_contains(p0 + p1, p2, x);
            }
        },
        RholangNode::LinearBind { names, remainder, source, .. } => {
            if names@.contains(c) { lemma_seq_includes(names@, c, t); }
            assert forall|x: Arc<RholangNode>| collected(c, t).contains(x) implies #[trigger] collected_children(a, t).contains(x) by {
                let p0 = collected_seq(names@, t);
                let p1 = collected_opt(remainder, t);
                let p2 = collected(source, t);
                assert(collected_children(a, t) == p0 + p1 + p2);
                if names@.contains(c) { assert(p0.contains(x)); }
                if remainder == Some(c) { assert(p1.contains(x)); }
                if source == c { assert(p2.contains(x)); }
                lemma_add_contains(p0, p1, x);
                lemma_add_contains(p0 + p1, p2, x);
            }
        },
        RholangNode::RepeatedBind { names, remainder, source, .. } => {
            if names@.contains(c) { lemma_seq_includes(names@, c, t); }
            assert forall|x: Arc<RholangNode>| collected(c, t).contains(x) implies #[trigger] collected_children(a, t).contains(x) by {
                let p0 = collected_seq(names@, t);
                let p1 = collected_opt(remainder, t);
                let p2 = collected(source, t);
                assert(collected_children(a, t) == p0 + p1 + p2);
                if names@.contains(c) { assert(p0.contains(x)); }
                if remainder == Some(c) { assert(p1.contains(x)); }
                if source == c { assert(p2.contains(x)); }
                lemma_add_contains(p0, p1, x);
                lemma_add_contains(p0 + p1, p2, x);
            }
        },
        RholangNode::PeekBind { names, remainder, source, .. } => {
            if names@.contains(c) { lemma_seq_includes(names@, c, t); }
            assert forall|x: Arc<RholangNode>| collected(c, t).contains(x) implies #[trigger] collected_children(a, t).contains(x) by {
                let p0 = collected_seq(names@, t);
                let p1 = collected_opt(remainder, t);
                let p2 = collected(source, t);
                assert(collected_children(a, t) == p0 + p1 + p2);
                if names@.contains(c) { assert(p0.contains(x)); }
                if remainder == Some(c) { assert(p1.contains(x)); }
                if source == c { assert(p2.contains(x)); }
                lemma_add_contains(p0, p1, x);
                lemma_add_contains(p0 + p1, p2, x);
            }
        },
        RholangNode::ReceiveSendSource { name, .. } => {
            assert forall|x: Arc<RholangNode>| collected(c, t).contains(x) implies #[trigger] collected_children(a, t).contains(x) by {
                let p0 = collected(name, t);
                assert(collected_children(a, t) == p0);
                if name == c { assert(p0.contains(x)); }
            }
        },
        RholangNode::SendReceiveSource { name, inputs, .. } => {
            if inputs@.contains(c) { lemma_seq_includes(inputs@, c, t); }
            assert forall|x: Arc<RholangNode>| collected(c, t).contains(x) implies #[trigger] collected_children(a, t).contains(x) by {
                let p0 = collected(name, t);
                let p1 = collected_seq(inputs@, t);
                assert(collected_children(a, t) == p0 + p1);
                if name == c { assert(p0.contains(x)); }
                if inputs@.contains(c) { assert(p1.contains(x)); }
                lemma_add_contains(p0, p1, x);
            }
        },
        RholangNode::Error { children, .. } => {
            if children@.contains(c) { lemma_seq_includes(children@, c, t); }
            assert forall|x: Arc<RholangNode>| collected(c, t).contains(x) implies #[trigger] collected_children(a, t).contains(x) by {
                let p0 = collected_seq(children@, t);
                assert(collected_children(a, t) == p0);
                if children@.contains(c) { assert(p0.contains(x)); }
            }
        },
        RholangNode::Disjunction { left, right, .. } => {
            assert forall|x: Arc<RholangNode>| collected(c, t).contains(x) implies #[trigger] collected_children(a, t).contains(x) by {
                let p0 = collected(left, t);
                let p1 = collected(right, t);
                assert(collected_children(a, t) == p0 + p1);
                if left == c { assert(p0.contains(x)); }
                if right == c { assert(p1.contains(x)); }
                lemma_add_contains(p0, p1, x);
            }
        },
        RholangNode::Conjunction { left, right, .. } => {
            assert forall|x: Arc<RholangNode>| collected(c, t).contains(x) implies #[trigger] collected_children(a, t).contains(x) by {
                let p0 = collected(left, t);
                let p1 = collected(right, t);
                assert(collected_children(a, t) == p0 + p1);
                if left == c { assert(p0.contains(x)); }
                if right == c { assert(p1.contains(x)); }
                lemma_add_contains(p0, p1, x);
            }
        },
        RholangNode::Negation { operand, .. } => {
            assert forall|x: Arc<RholangNode>| collected(c, t).contains(x) implies #[trigger] collected_children(a, t).contains(x) by {
                let p0 = collected(operand, t);
                assert(collected_children(a, t) == p0);
                if operand == c { assert(p0.contains(x)); }
            }
        },
        _ => {},
    }
    assert forall|k: int| 0 <= k < collected(c, t).len() implies collected(a, t).contains(#[trigger] collected(c, t)[k]) by {
        let x = collected(c, t)[k];
        assert(collected(c, t).contains(x));
        assert(collected_children(a, t).contains(x));
        if is_target(*a, t) {
            assert(collected(a, t) == seq![a] + collected_children(a, t));
            lemma_add_contains(seq![a], collected_children(a, t), x);
        } else {
            assert(collected(a, t) == collected_children(a, t));
        }
    }
    assert(is_target(*c, t) ==> collected(c, t)[0] == c);
}

/// Appends to `out` what a walk for `t` collects from the tree `node`.
fn collect_into(node: &Arc<RholangNode>, t: CollectTarget, out: &mut Vec<Arc<RholangNode>>)
    ensures
        final(out)@ == old(out)@ + collected(*node, t),
    decreases *node, 2nat,
{
    let ghost start = out@;
    let hit = target_node(node, t);
    if hit {
        out.push(share(node));
    }
    let ghost mid = out@;
    assert(hit ==> mid == start.push(*node));
    assert(!hit ==> mid == start);
    if hit {
        assert(collected(*node, t) == seq![*node] + collected_children(*node, t)) by { reveal(collected_children); }
        assert(start + collected(*node, t) =~= mid + collected_children(*node, t));
    } else {
        assert(collected(*node, t) == collected_children(*node, t)) by { reveal(collected_children); }
    }
    let tag = node.tag();
    if tag < 12 {
        collect_children_a(node, t, out);
    } else if tag < 24 {
        collect_children_b(node, t, out);
    } else if tag < 36 {
        collect_children_c(node, t, out);
    } else {
        collect_children_d(node, t, out);
    }
}

fn collect_children_a(node: &Arc<RholangNode>, t: CollectTarget, out: &mut Vec<Arc<RholangNode>>)
    requires
        0 <= node.spec_tag() < 12,
    ensures
        final(out)@ == old(out)@ + collected_children(*node, t),
    decreases *node, 1nat,
{
    match &**node {
        RholangNode::Par { .. } => collect_in_par(node, t, out),
        RholangNode::SendSync { .. } => collect_in_send_sync(node, t, out),
        RholangNode::Send { .. } => collect_in_send(node, t, out),
        RholangNode::New { .. } => collect_in_new(node, t, out),
        RholangNode::IfElse { .. } => collect_in_if_else(node, t, out),
        RholangNode::Let { .. } => collect_in_let(node, t, out),
        RholangNode::Bundle { .. } => collect_in_bundle(node, t, out),
        RholangNode::Match { .. } => collect_in_match(node, t, out),
        RholangNode::Choice { .. } => collect_in_choice(node, t, out),
        RholangNode::Contract { .. } => collect_in_contract(node, t, out),
        RholangNode::Input { .. } => collect_in_input(node, t, out),
        RholangNode::Block { .. } => collect_in_block(node, t, out),
        _ => {},
    }
}

fn collect_children_b(node: &Arc<RholangNode>, t: CollectTarget, out: &mut Vec<Arc<RholangNode>>)
    requires
        12 <= node.spec_tag() < 24,
    ensures
        final(out)@ == old(out)@ + collected_children(*node, t),
    decreases *node, 1nat,
{
    match &**node {
        RholangNode::Parenthesized { .. } => collect_in_parenthesized(node, t, out),
        RholangNode::BinOp { .. } => collect_in_bin_op(node, t, out),
        RholangNode::UnaryOp { .. } => collect_in_unary_op(node, t, out),
        RholangNode::Method { .. } => collect_in_method(node, t, out),
        RholangNode::Eval { .. } => collect_in_eval(node, t, out),
        RholangNode::Quote { .. } => collect_in_quote(node, t, out),
        RholangNode::VarRef { .. } => collect_in_var_ref(node, t, out),
        RholangNode::BoolLiteral { .. } => {
            proof { reveal(collected_children); }
            assert(out@ =~= old(out)@ + collected_children(*node, t));
        },
        RholangNode::LongLiteral { .. } => {
            proof { reveal(collected_children); }
            assert(out@ =~= old(out)@ + collected_children(*node, t));
        },
        RholangNode::StringLiteral { .. } => {
            proof { reveal(collected_children); }
            assert(out@ =~= old(out)@ + collected_children(*node, t));
        },
        RholangNode::UriLiteral { .. } => {
            proof { reveal(collected_children); }
            assert(out@ =~= old(out)@ + collected_children(*node, t));
        },
        RholangNode::Nil { .. } => {
            proof { reveal(collected_children); }
            assert(out@ =~= old(out)@ + collected_children(*node, t));
        },
        _ => {},
    }
}

fn collect_children_c(node: &Arc<RholangNode>, t: CollectTarget, out: &mut Vec<Arc<RholangNode>>)
    requires
        24 <= node.spec_tag() < 36,
    ensures
        final(out)@ == old(out)@ + collected_children(*node, t),
    decreases *node, 1nat,
{
    match &**node {
        RholangNode::List { .. } => collect_in_list(node, t, out),
        RholangNode::SetExpr { .. } => collect_in_set_expr(node, t, out),
        RholangNode::Pathmap { .. } => collect_in_pathmap(node, t, out),
        RholangNode::MapExpr { .. } => collect_in_map_expr(node, t, out),
        RholangNode::Tuple { .. } => collect_in_tuple(node, t, out),
        RholangNode::Var { .. } => {
            proof { reveal(collected_children); }
            assert(out@ =~= old(out)@ + collected_children(*node, t));
        },
        RholangNode::NameDecl { .. } => collect_in_name_decl(node, t, out),
        RholangNode::Decl { .. } => collect_in_decl(node, t, out),
        RholangNode::LinearBind { .. } => collect_in_linear_bind(node, t, out),
        RholangNode::RepeatedBind { .. } => collect_in_repeated_bind(node, t, out),
        RholangNode::PeekBind { .. } => collect_in_peek_bind(node, t, out),
        RholangNode::Comment { .. } => {
            proof { reveal(collected_children); }
            assert(out@ =~= old(out)@ + collected_children(*node, t));
        },
        _ => {},
    }
}

fn collect_children_d(node: &Arc<RholangNode>, t: CollectTarget, out: &mut Vec<Arc<RholangNode>>)
    requires
        36 <= node.spec_tag() < 45,
    ensures
        final(out)@ == old(out)@ + collected_children(*node, t),
    decreases *node, 1nat,
{
    match &**node {
        RholangNode::Wildcard { .. } => {
            proof { reveal(collected_children); }
            assert(out@ =~= old(out)@ + collected_children(*node, t));
        },
        RholangNode::SimpleType { .. } => {
            proof { reveal(collected_children); }
            assert(out@ =~= old(out)@ + collected_children(*node, t));
        },
        RholangNode::ReceiveSendSource { .. } => collect_in_receive_send_source(node, t, out),
        RholangNode::SendReceiveSource { .. } => collect_in_send_receive_source(node, t, out),
        RholangNode::Error { .. } => collect_in_error(node, t, out),
        RholangNode::Disjunction { .. } => collect_in_disjunction(node, t, out),
        RholangNode::Conjunction { .. } => collect_in_conjunction(node, t, out),
        RholangNode::Negation { .. } => collect_in_negation(node, t, out),
        RholangNode::Unit { .. } => {
            proof { reveal(collected_children); }
            assert(out@ =~= old(out)@ + collected_children(*node, t));
        },
        _ => {},
    }
}

fn collect_in_par(node: &Arc<RholangNode>, t: CollectTarget, out: &mut Vec<Arc<RholangNode>>)
    requires
        **node is Par,
    ensures
        final(out)@ == old(out)@ + collected_children(*node, t),
    decreases *node, 0nat,
{
    let ghost start = out@;
    proof { reveal(collected_children); }
    match &**node {
        RholangNode::Par { left: Some(left), right: Some(right), .. } => {
            proof { assert(decreases_to!(**node => (**node)->Par_left)); assert(decreases_to!(**node => (**node)->Par_right)); }
            collect_into(left, t, out);
            collect_into(right, t, out);
            assert(out@ =~= start + collected_children(*node, t));
        },
        RholangNode::Par { processes: Some(procs), .. } => {
            proof { assert(decreases_to!(**node => (**node)->Par_processes)); }
            collect_seq_into(procs, t, out);
        },
        RholangNode::Par { .. } => {
            assert(out@ =~= start + collected_children(*node, t));
        },
        _ => {},
    }
}

fn collect_in_send_sync(node: &Arc<RholangNode>, t: CollectTarget, out: &mut Vec<Arc<RholangNode>>)
    requires
        **node is SendSync,
    ensures
        final(out)@ == old(out)@ + collected_children(*node, t),
    decreases *node, 0nat,
{
    let ghost start = out@;
    proof { reveal(collected_children); }
    match &**node {
        RholangNode::SendSync { channel, inputs, cont, .. } => {
            proof { assert(decreases_to!(**node => (**node)->SendSync_channel)); assert(decreases_to!(**node => (**node)->SendSync_inputs)); assert(decreases_to!(**node => (**node)->SendSync_cont)); }
            collect_into(channel, t, out);
            collect_seq_into(inputs, t, out);
            collect_into(cont, t, out);
            assert(out@ =~= start + collected_children(*node, t));
        },
        _ => {},
    }
}

fn collect_in_send(node: &Arc<RholangNode>, t: CollectTarget, out: &mut Vec<Arc<RholangNode>>)
    requires
        **node is Send,
    ensures
        final(out)@ == old(out)@ + collected_children(*node, t),
    decreases *node, 0nat,
{
    let ghost start = out@;
    proof { reveal(collected_children); }
    match &**node {
        RholangNode::Send { channel, inputs, .. } => {
            proof { assert(decreases_to!(**node => (**node)->Send_channel)); assert(decreases_to!(**node => (**node)->Send_inputs)); }
            collect_into(channel, t, out);
            collect_seq_into(inputs, t, out);
            assert(out@ =~= start + collected_children(*node, t));
        },
        _ => {},
    }
}

fn collect_in_new(node: &Arc<RholangNode>, t: CollectTarget, out: &mut Vec<Arc<RholangNode>>)
    requires
        **node is New,
    ensures
        final(out)@ == old(out)@ + collected_children(*node, t),
    decreases *node, 0nat,
{
    let ghost start = out@;
    proof { reveal(collected_children); }
    match &**node {
        RholangNode::New { decls, proc, .. } => {
            proof { assert(decreases_to!(**node => (**node)->New_decls)); assert(decreases_to!(**node => (**node)->New_proc)); }
            collect_seq_into(decls, t, out);
            collect_into(proc, t, out);
            assert(out@ =~= start + collected_children(*node, t));
        },
        _ => {},
    }
}

fn collect_in_if_else(node: &Arc<RholangNode>, t: CollectTarget, out: &mut Vec<Arc<RholangNode>>)
    requires
        **node is IfElse,
    ensures
        final(out)@ == old(out)@ + collected_children(*node, t),
    decreases *node, 0nat,
{
    let ghost start = out@;
    proof { reveal(collected_children); }
    match &**node {
        RholangNode::IfElse { condition, consequence, alternative, .. } => {
            proof { assert(decreases_to!(**node => (**node)->IfElse_condition)); assert(decreases_to!(**node => (**node)->IfElse_consequence)); assert(decreases_to!(**node => (**node)->IfElse_alternative)); }
            collect_into(condition, t, out);
            collect_into(consequence, t, out);
            collect_opt_into(alternative, t, out);
            assert(out@ =~= start + collected_children(*node, t));
        },
        _ => {},
    }
}

fn collect_in_let(node: &Arc<RholangNode>, t: CollectTarget, out: &mut Vec<Arc<RholangNode>>)
    requires
        **node is Let,
    ensures
        final(out)@ == old(out)@ + collected_children(*node, t),
    decreases *node, 0nat,
{
    let ghost start = out@;
    proof { reveal(collected_children); }
    match &**node {
        RholangNode::Let { decls, proc, .. } => {
            proof { assert(decreases_to!(**node => (**node)->Let_decls)); assert(decreases_to!(**node => (**node)->Let_proc)); }
            collect_seq_into(decls, t, out);
            collect_into(proc, t, out);
            assert(out@ =~= start + collected_children(*node, t));
        },
        _ => {},
    }
}

fn collect_in_bundle(node: &Arc<RholangNode>, t: CollectTarget, out: &mut Vec<Arc<RholangNode>>)
    requires
        **node is Bundle,
    ensures
        final(out)@ == old(out)@ + collected_children(*node, t),
    decreases *node, 0nat,
{
    let ghost start = out@;
    proof { reveal(collected_children); }
    match &**node {
        RholangNode::Bundle { proc, .. } => {
            proof { assert(decreases_to!(**node => (**node)->Bundle_proc)); }
            collect_into(proc, t, out);
            assert(out@ =~= start + collected_children(*node, t));
        },
        _ => {},
    }
}

fn collect_in_match(node: &Arc<RholangNode>, t: CollectTarget, out: &mut Vec<Arc<RholangNode>>)
    requires
        **node is Match,
    ensures
        final(out)@ == old(out)@ + collected_children(*node, t),
    decreases *node, 0nat,
{
    let ghost start = out@;
    proof { reveal(collected_children); }
    match &**node {
        RholangNode::Match { expression, cases, .. } => {
            proof { assert(decreases_to!(**node => (**node)->Match_expression)); assert(decreases_to!(**node => (**node)->Match_cases)); }
            collect_into(expression, t, out);
            collect_pairs_into(cases, t, out);
            assert(out@ =~= start + collected_children(*node, t));
        },
        _ => {},
    }
}

fn collect_in_choice(node: &Arc<RholangNode>, t: CollectTarget, out: &mut Vec<Arc<RholangNode>>)
    requires
        **node is Choice,
    ensures
        final(out)@ == old(out)@ + collected_children(*node, t),
    decreases *node, 0nat,
{
    let ghost start = out@;
    proof { reveal(collected_children); }
    match &**node {
        RholangNode::Choice { branches, .. } => {
            proof { assert(decreases_to!(**node => (**node)->Choice_branches)); }
            collect_branches_into(branches, t, out);
            assert(out@ =~= start + collected_children(*node, t));
        },
        _ => {},
    }
}

fn collect_in_contract(node: &Arc<RholangNode>, t: CollectTarget, out: &mut Vec<Arc<RholangNode>>)
    requires
        **node is Contract,
    ensures
        final(out)@ == old(out)@ + collected_children(*node, t),
    decreases *node, 0nat,
{
    let ghost start = out@;
    proof { reveal(collected_children); }
    match &**node {
        RholangNode::Contract { name, formals, formals_remainder, proc, .. } => {
            proof { assert(decreases_to!(**node => (**node)->Contract_name)); assert(decreases_to!(**node => (**node)->Contract_formals)); assert(decreases_to!(**node => (**node)->Contract_formals_remainder)); assert(decreases_to!(**node => (**node)->Contract_proc)); }
            collect_into(name, t, out);
            collect_seq_into(formals, t, out);
            collect_opt_into(formals_remainder, t, out);
            collect_into(proc, t, out);
            assert(out@ =~= start + collected_children(*node, t));
        },
        _ => {},
    }
}

fn collect_in_input(node: &Arc<RholangNode>, t: CollectTarget, out: &mut Vec<Arc<RholangNode>>)
    requires
        **node is Input,
    ensures
        final(out)@ == old(out)@ + collected_children(*node, t),
    decreases *node, 0nat,
{
    let ghost start = out@;
    proof { reveal(collected_children); }
    match &**node {
        RholangNode::Input { receipts, proc, .. } => {
            proof { assert(decreases_to!(**node => (**node)->Input_receipts)); assert(decreases_to!(**node => (**node)->Input_proc)); }
            collect_receipts_into(receipts, t, out);
            collect_into(proc, t, out);
            assert(out@ =~= start + collected_children(*node, t));
        },
        _ => {},
    }
}

fn collect_in_block(node: &Arc<RholangNode>, t: CollectTarget, out: &mut Vec<Arc<RholangNode>>)
    requires
        **node is Block,
    ensures
        final(out)@ == old(out)@ + collected_children(*node, t),
    decreases *node, 0nat,
{
    let ghost start = out@;
    proof { reveal(collected_children); }
    match &**node {
        RholangNode::Block { proc, .. } => {
            proof { assert(decreases_to!(**node => (**node)->Block_proc)); }
            collect_into(proc, t, out);
            assert(out@ =~= start + collected_children(*node, t));
        },
        _ => {},
    }
}

fn collect_in_parenthesized(node: &Arc<RholangNode>, t: CollectTarget, out: &mut Vec<Arc<RholangNode>>)
    requires
        **node is Parenthesized,
    ensures
        final(out)@ == old(out)@ + collected_children(*node, t),
    decreases *node, 0nat,
{
    let ghost start = out@;
    proof { reveal(collected_children); }
    match &**node {
        RholangNode::Parenthesized { expr, .. } => {
            proof { assert(decreases_to!(**node => (**node)->Parenthesized_expr)); }
            collect_into(expr, t, out);
            assert(out@ =~= start + collected_children(*node, t));
        },
        _ => {},
    }
}

fn collect_in_bin_op(node: &Arc<RholangNode>, t: CollectTarget, out: &mut Vec<Arc<RholangNode>>)
    requires
        **node is BinOp,
    ensures
        final(out)@ == old(out)@ + collected_children(*node, t),
    decreases *node, 0nat,
{
    let ghost start = out@;
    proof { reveal(collected_children); }
    match &**node {
        RholangNode::BinOp { left, right, .. } => {
            proof { assert(decreases_to!(**node => (**node)->BinOp_left)); assert(decreases_to!(**node => (**node)->BinOp_right)); }
            collect_into(left, t, out);
            collect_into(right, t, out);
            assert(out@ =~= start + collected_children(*node, t));
        },
        _ => {},
    }
}

fn collect_in_unary_op(node: &Arc<RholangNode>, t: CollectTarget, out: &mut Vec<Arc<RholangNode>>)
    requires
        **node is UnaryOp,
    ensures
        final(out)@ == old(out)@ + collected_children(*node, t),
    decreases *node, 0nat,
{
    let ghost start = out@;
    proof { reveal(collected_children); }
    match &**node {
        RholangNode::UnaryOp { operand, .. } => {
            proof { assert(decreases_to!(**node => (**node)->UnaryOp_operand)); }
            collect_into(operand, t, out);
            assert(out@ =~= start + collected_children(*node, t));
        },
        _ => {},
    }
}

fn collect_in_method(node: &Arc<RholangNode>, t: CollectTarget, out: &mut Vec<Arc<RholangNode>>)
    requires
        **node is Method,
    ensures
        final(out)@ == old(out)@ + collected_children(*node, t),
    decreases *node, 0nat,
{
    let ghost start = out@;
    proof { reveal(collected_children); }
    match &**node {
        RholangNode::Method { receiver, args, .. } => {
            proof { assert(decreases_to!(**node => (**node)->Method_receiver)); assert(decreases_to!(**node => (**node)->Method_args)); }
            collect_into(receiver, t, out);
            collect_seq_into(args, t, out);
            assert(out@ =~= start + collected_children(*node, t));
        },
        _ => {},
    }
}

fn collect_in_eval(node: &Arc<RholangNode>, t: CollectTarget, out: &mut Vec<Arc<RholangNode>>)
    requires
        **node is Eval,
    ensures
        final(out)@ == old(out)@ + collected_children(*node, t),
    decreases *node, 0nat,
{
    let ghost start = out@;
    proof { reveal(collected_children); }
    match &**node {
        RholangNode::Eval { name, .. } => {
            proof { assert(decreases_to!(**node => (**node)->Eval_name)); }
            collect_into(name, t, out);
            assert(out@ =~= start + collected_children(*node, t));
        },
        _ => {},
    }
}

fn collect_in_quote(node: &Arc<RholangNode>, t: CollectTarget, out: &mut Vec<Arc<RholangNode>>)
    requires
        **node is Quote,
    ensures
        final(out)@ == old(out)@ + collected_children(*node, t),
    decreases *node, 0nat,
{
    let ghost start = out@;
    proof { reveal(collected_children); }
    match &**node {
        RholangNode::Quote { quotable, .. } => {
            proof { assert(decreases_to!(**node => (**node)->Quote_quotable)); }
            collect_into(quotable, t, out);
            assert(out@ =~= start + collected_children(*node, t));
        },
        _ => {},
    }
}

fn collect_in_var_ref(node: &Arc<RholangNode>, t: CollectTarget, out: &mut Vec<Arc<RholangNode>>)
    requires
        **node is VarRef,
    ensures
        final(out)@ == old(out)@ + collected_children(*node, t),
    decreases *node, 0nat,
{
    let ghost start = out@;
    proof { reveal(collected_children); }
    match &**node {
        RholangNode::VarRef { var, .. } => {
            proof { assert(decreases_to!(**node => (**node)->VarRef_var)); }
            collect_into(var, t, out);
            assert(out@ =~= start + collected_children(*node, t));
        },
        _ => {},
    }
}

fn collect_in_list(node: &Arc<RholangNode>, t: CollectTarget, out: &mut Vec<Arc<RholangNode>>)
    requires
        **node is List,
    ensures
        final(out)@ == old(out)@ + collected_children(*node, t),
    decreases *node, 0nat,
{
    let ghost start = out@;
    proof { reveal(collected_children); }
    match &**node {
        RholangNode::List { elements, remainder, .. } => {
            proof { assert(decreases_to!(**node => (**node)->List_elements)); assert(decreases_to!(**node => (**node)->List_remainder)); }
            collect_seq_into(elements, t, out);
            collect_opt_into(remainder, t, out);
            assert(out@ =~= start + collected_children(*node, t));
        },
        _ => {},
    }
}

fn collect_in_pathmap(node: &Arc<RholangNode>, t: CollectTarget, out: &mut Vec<Arc<RholangNode>>)
    requires
        **node is Pathmap,
    ensures
        final(out)@ == old(out)@ + collected_children(*node, t),
    decreases *node, 0nat,
{
    let ghost start = out@;
    proof { reveal(collected_children); }
    match &**node {
        RholangNode::Pathmap { elements, remainder, .. } => {
            proof { assert(decreases_to!(**node => (**node)->Pathmap_elements)); assert(decreases_to!(**node => (**node)->Pathmap_remainder)); }
            collect_seq_into(elements, t, out);
            collect_opt_into(remainder, t, out);
            assert(out@ =~= start + collected_children(*node, t));
        },
        _ => {},
    }
}

fn collect_in_set_expr(node: &Arc<RholangNode>, t: CollectTarget, out: &mut Vec<Arc<RholangNode>>)
    requires
        **node is SetExpr,
    ensures
        final(out)@ == old(out)@ + collected_children(*node, t),
    decreases *node, 0nat,
{
    let ghost start = out@;
    proof { reveal(collected_children); }
    match &**node {
        RholangNode::SetExpr { elements, remainder, .. } => {
            proof { assert(decreases_to!(**node => (**node)->SetExpr_elements)); assert(decreases_to!(**node => (**node)->SetExpr_remainder)); }
            collect_seq_into(elements, t, out);
            collect_opt_into(remainder, t, out);
            assert(out@ =~= start + collected_children(*node, t));
        },
        _ => {},
    }
}

fn collect_in_map_expr(node: &Arc<RholangNode>, t: CollectTarget, out: &mut Vec<Arc<RholangNode>>)
    requires
        **node is MapExpr,
    ensures
        final(out)@ == old(out)@ + collected_children(*node, t),
    decreases *node, 0nat,
{
    let ghost start = out@;
    proof { reveal(collected_children); }
    match &**node {
        RholangNode::MapExpr { pairs, remainder, .. } => {
            proof { assert(decreases_to!(**node => (**node)->MapExpr_pairs)); assert(decreases_to!(**node => (**node)->MapExpr_remainder)); }
            collect_pairs_into(pairs, t, out);
            collect_opt_into(remainder, t, out);
            assert(out@ =~= start + collected_children(*node, t));
        },
        _ => {},
    }
}

fn collect_in_tuple(node: &Arc<RholangNode>, t: CollectTarget, out: &mut Vec<Arc<RholangNode>>)
    requires
        **node is Tuple,
    ensures
        final(out)@ == old(out)@ + collected_children(*node, t),
    decreases *node, 0nat,
{
    let ghost start = out@;
    proof { reveal(collected_children); }
    match &**node {
        RholangNode::Tuple { elements, .. } => {
            proof { assert(decreases_to!(**node => (**node)->Tuple_elements)); }
            collect_seq_into(elements, t, out);
            assert(out@ =~= start + collected_children(*node, t));
        },
        _ => {},
    }
}

fn collect_in_name_decl(node: &Arc<RholangNode>, t: CollectTarget, out: &mut Vec<Arc<RholangNode>>)
    requires
        **node is NameDecl,
    ensures
        final(out)@ == old(out)@ + collected_children(*node, t),
    decreases *node, 0nat,
{
    let ghost start = out@;
    proof { reveal(collected_children); }
    match &**node {
        RholangNode::NameDecl { var, uri, .. } => {
            proof { assert(decreases_to!(**node => (**node)->NameDecl_var)); assert(decreases_to!(**node => (**node)->NameDecl_uri)); }
            collect_into(var, t, out);
            collect_opt_into(uri, t, out);
            assert(out@ =~= start + collected_children(*node, t));
        },
        _ => {},
    }
}

fn collect_in_decl(node: &Arc<RholangNode>, t: CollectTarget, out: &mut Vec<Arc<RholangNode>>)
    requires
        **node is Decl,
    ensures
        final(out)@ == old(out)@ + collected_children(*node, t),
    decreases *node, 0nat,
{
    let ghost start = out@;
    proof { reveal(collected_children); }
    match &**node {
        RholangNode::Decl { names, names_remainder, procs, .. } => {
            proof { assert(decreases_to!(**node => (**node)->Decl_names)); assert(decreases_to!(**node => (**node)->Decl_names_remainder)); assert(decreases_to!(**node => (**node)->Decl_procs)); }
            collect_seq_into(names, t, out);
            collect_opt_into(names_remainder, t, out);
            collect_seq_into(procs, t, out);
            assert(out@ =~= start + collected_children(*node, t));
        },
        _ => {},
    }
}

fn collect_in_linear_bind(node: &Arc<RholangNode>, t: CollectTarget, out: &mut Vec<Arc<RholangNode>>)
    requires
        **node is LinearBind,
    ensures
        final(out)@ == old(out)@ + collected_children(*node, t),
    decreases *node, 0nat,
{
    let ghost start = out@;
    proof { reveal(collected_children); }
    match &**node {
        RholangNode::LinearBind { names, remainder, source, .. } => {
            proof { assert(decreases_to!(**node => (**node)->LinearBind_names)); assert(decreases_to!(**node => (**node)->LinearBind_remainder)); assert(decreases_to!(**node => (**node)->LinearBind_source)); }
            collect_seq_into(names, t, out);
            collect_opt_into(remainder, t, out);
            collect_into(source, t, out);
            assert(out@ =~= start + collected_children(*node, t));
        },
        _ => {},
    }
}

fn collect_in_repeated_bind(node: &Arc<RholangNode>, t: CollectTarget, out: &mut Vec<Arc<RholangNode>>)
    requires
        **node is RepeatedBind,
    ensures
        final(out)@ == old(out)@ + collected_children(*node, t),
    decreases *node, 0nat,
{
    let ghost start = out@;
    proof { reveal(collected_children); }
    match &**node {
        RholangNode::RepeatedBind { names, remainder, source, .. } => {
            proof { assert(decreases_to!(**node => (**node)->RepeatedBind_names)); assert(decreases_to!(**node => (**node)->RepeatedBind_remainder)); assert(decreases_to!(**node => (**node)->RepeatedBind_source)); }
            collect_seq_into(names, t, out);
            collect_opt_into(remainder, t, out);
            collect_into(source, t, out);
            assert(out@ =~= start + collected_children(*node, t));
        },
        _ => {},
    }
}

fn collect_in_peek_bind(node: &Arc<RholangNode>, t: CollectTarget, out: &mut Vec<Arc<RholangNode>>)
    requires
        **node is PeekBind,
    ensures
        final(out)@ == old(out)@ + collected_children(*node, t),
    decreases *node, 0nat,
{
    let ghost start = out@;
    proof { reveal(collected_children); }
    match &**node {
        RholangNode::PeekBind { names, remainder, source, .. } => {
            proof { assert(decreases_to!(**node => (**node)->PeekBind_names)); assert(decreases_to!(**node => (**node)->PeekBind_remainder)); assert(decreases_to!(**node => (**node)->PeekBind_source)); }
            collect_seq_into(names, t, out);
            collect_opt_into(remainder, t, out);
            collect_into(source, t, out);
            assert(out@ =~= start + collected_children(*node, t));
        },
        _ => {},
    }
}

fn collect_in_receive_send_source(node: &Arc<RholangNode>, t: CollectTarget, out: &mut Vec<Arc<RholangNode>>)
    requires
        **node is ReceiveSendSource,
    ensures
        final(out)@ == old(out)@ + collected_children(*node, t),
    decreases *node, 0nat,
{
    let ghost start = out@;
    proof { reveal(collected_children); }
    match &**node {
        RholangNode::ReceiveSendSource { name, .. } => {
            proof { assert(decreases_to!(**node => (**node)->ReceiveSendSource_name)); }
            collect_into(name, t, out);
            assert(out@ =~= start + collected_children(*node, t));
        },
        _ => {},
    }
}

fn collect_in_send_receive_source(node: &Arc<RholangNode>, t: CollectTarget, out: &mut Vec<Arc<RholangNode>>)
    requires
        **node is SendReceiveSource,
    ensures
        final(out)@ == old(out)@ + collected_children(*node, t),
    decreases *node, 0nat,
{
    let ghost start = out@;
    proof { reveal(collected_children); }
    match &**node {
        RholangNode::SendReceiveSource { name, inputs, .. } => {
            proof { assert(decreases_to!(**node => (**node)->SendReceiveSource_name)); assert(decreases_to!(**node => (**node)->SendReceiveSource_inputs)); }
            collect_into(name, t, out);
            collect_seq_into(inputs, t, out);
            assert(out@ =~= start + collected_children(*node, t));
        },
        _ => {},
    }
}

fn collect_in_error(node: &Arc<RholangNode>, t: CollectTarget, out: &mut Vec<Arc<RholangNode>>)
    requires
        **node is Error,
    ensures
        final(out)@ == old(out)@ + collected_children(*node, t),
    decreases *node, 0nat,
{
    let ghost start = out@;
    proof { reveal(collected_children); }
    match &**node {
        RholangNode::Error { children, .. } => {
            proof { assert(decreases_to!(**node => (**node)->Error_children)); }
            collect_seq_into(children, t, out);
            assert(out@ =~= start + collected_children(*node, t));
        },
        _ => {},
    }
}

fn collect_in_disjunction(node: &Arc<RholangNode>, t: CollectTarget, out: &mut Vec<Arc<RholangNode>>)
    requires
        **node is Disjunction,
    ensures
        final(out)@ == old(out)@ + collected_children(*node, t),
    decreases *node, 0nat,
{
    let ghost start = out@;
    proof { reveal(collected_children); }
    match &**node {
        RholangNode::Disjunction { left, right, .. } => {
            proof { assert(decreases_to!(**node => (**node)->Disjunction_left)); assert(decreases_to!(**node => (**node)->Disjunction_right)); }
            collect_into(left, t, out);
            collect_into(right, t, out);
            assert(out@ =~= start + collected_children(*node, t));
        },
        _ => {},
    }
}

fn collect_in_conjunction(node: &Arc<RholangNode>, t: CollectTarget, out: &mut Vec<Arc<RholangNode>>)
    requires
        **node is Conjunction,
    ensures
        final(out)@ == old(out)@ + collected_children(*node, t),
    decreases *node, 0nat,
{
    let ghost start = out@;
    proof { reveal(collected_children); }
    match &**node {
        RholangNode::Conjunction { left, right, .. } => {
            proof { assert(decreases_to!(**node => (**node)->Conjunction_left)); assert(decreases_to!(**node => (**node)->Conjunction_right)); }
            collect_into(left, t, out);
            collect_into(right, t, out);
            assert(out@ =~= start + collected_children(*node, t));
        },
        _ => {},
    }
}

fn collect_in_negation(node: &Arc<RholangNode>, t: CollectTarget, out: &mut Vec<Arc<RholangNode>>)
    requires
        **node is Negation,
    ensures
        final(out)@ == old(out)@ + collected_children(*node, t),
    decreases *node, 0nat,
{
    let ghost start = out@;
    proof { reveal(collected_children); }
    match &**node {
        RholangNode::Negation { operand, .. } => {
            proof { assert(decreases_to!(**node => (**node)->Negation_operand)); }
            collect_into(operand, t, out);
            assert(out@ =~= start + collected_children(*node, t));
        },
        _ => {},
    }
}


fn collect_opt_into(o: &Option<Arc<RholangNode>>, t: CollectTarget, out: &mut Vec<Arc<RholangNode>>)
    ensures
        final(out)@ == old(out)@ + collected_opt(*o, t),
    decreases *o, 2nat,
{
    match o {
        Some(a) => {
            collect_into(a, t, out);
        },
        None => {
            assert(out@ =~= old(out)@ + collected_opt(*o, t));
        },
    }
}

fn collect_seq_into(v: &Vec<Arc<RholangNode>>, t: CollectTarget, out: &mut Vec<Arc<RholangNode>>)
    ensures
        final(out)@ == old(out)@ + collected_seq(v@, t),
    decreases *v, 2nat,
{
    let ghost start = out@;
    let mut i: usize = 0;
    assert(v@.take(0) =~= Seq::<Arc<RholangNode>>::empty());
    while i < v.len()
        invariant
            i <= v@.len(),
            out@ == start + collected_seq(v@.take(i as int), t),
        decreases v@.len() - i,
    {
        assert(v@.take(i as int + 1).drop_last() =~= v@.take(i as int));
        proof { assert(decreases_to!(*v => v@[i as int])); }
        collect_into(&v[i], t, out);
        assert(out@ =~= start + collected_seq(v@.take(i as int + 1), t));
        i += 1;
    }
    assert(v@.take(v@.len() as int) =~= v@);
}

fn collect_pairs_into(v: &Vec<(Arc<RholangNode>, Arc<RholangNode>)>, t: CollectTarget, out: &mut Vec<Arc<RholangNode>>)
    ensures
        final(out)@ == old(out)@ + collected_pairs(v@, t),
    decreases *v, 2nat,
{
    let ghost start = out@;
    let mut i: usize = 0;
    assert(v@.take(0) =~= Seq::<(Arc<RholangNode>, Arc<RholangNode>)>::empty());
    while i < v.len()
        invariant
            i <= v@.len(),
            out@ == start + collected_pairs(v@.take(i as int), t),
        decreases v@.len() - i,
    {
        assert(v@.take(i as int + 1).drop_last() =~= v@.take(i as int));
        proof { assert(decreases_to!(*v => v@[i as int])); assert(decreases_to!(v@[i as int] => v@[i as int].0)); assert(decreases_to!(v@[i as int] => v@[i as int].1)); }
        collect_into(&v[i].0, t, out);
        collect_into(&v[i].1, t, out);
        assert(out@ =~= start + collected_pairs(v@.take(i as int + 1), t));
        i += 1;
    }
    assert(v@.take(v@.len() as int) =~= v@);
}

fn collect_branches_into(v: &Vec<(Vec<Arc<RholangNode>>, Arc<RholangNode>)>, t: CollectTarget, out: &mut Vec<Arc<RholangNode>>)
    ensures
        final(out)@ == old(out)@ + collected_branches(v@, t),
    decreases *v, 2nat,
{
    let ghost start = out@;
    let mut i: usize = 0;
    assert(v@.take(0) =~= Seq::<(Vec<Arc<RholangNode>>, Arc<RholangNode>)>::empty());
    while i < v.len()
        invariant
            i <= v@.len(),
            out@ == start + collected_branches(v@.take(i as int), t),
        decreases v@.len() - i,
    {
        assert(v@.take(i as int + 1).drop_last() =~= v@.take(i as int));
        proof { assert(decreases_to!(*v => v@[i as int])); assert(decreases_to!(v@[i as int] => v@[i as int].0)); assert(decreases_to!(v@[i as int] => v@[i as int].1)); }
        collect_seq_into(&v[i].0, t, out);
        collect_into(&v[i].1, t, out);
        assert(out@ =~= start + collected_branches(v@.take(i as int + 1), t));
        i += 1;
    }
    assert(v@.take(v@.len() as int) =~= v@);
}

fn collect_receipts_into(v: &Vec<Vec<Arc<RholangNode>>>, t: CollectTarget, out: &mut Vec<Arc<RholangNode>>)
    ensures
        final(out)@ == old(out)@ + collected_receipts(v@, t),
    decreases *v, 2nat,
{
    let ghost start = out@;
    let mut i: usize = 0;
    assert(v@.take(0) =~= Seq::<Vec<Arc<RholangNode>>>::empty());
    while i < v.len()
        invariant
            i <= v@.len(),
            out@ == start + collected_receipts(v@.take(i as int), t),
        decreases v@.len() - i,
    {
        assert(v@.take(i as int + 1).drop_last() =~= v@.take(i as int));
        proof { assert(decreases_to!(*v => v@[i as int])); }
        collect_seq_into(&v[i], t, out);
        assert(out@ =~= start + collected_receipts(v@.take(i as int + 1), t));
        i += 1;
    }
    assert(v@.take(v@.len() as int) =~= v@);
}

/// Appends to `contracts` every contract definition in the tree `node`, in
/// pre-order, contracts nested in a contract's parts included.
pub fn collect_contracts(node: &Arc<RholangNode>, contracts: &mut Vec<Arc<RholangNode>>)
    ensures
        final(contracts)@ == old(contracts)@ + collected(*node, CollectTarget::Contracts),
{
    collect_into(node, CollectTarget::Contracts, contracts)
}

/// Appends to `calls` every send (`!`, `!!` and synchronous send) in the tree
/// `node`, in pre-order, sends nested in a send's parts included.
pub fn collect_calls(node: &Arc<RholangNode>, calls: &mut Vec<Arc<RholangNode>>)
    ensures
        final(calls)@ == old(calls)@ + collected(*node, CollectTarget::Calls),
{
    collect_into(node, CollectTarget::Calls, calls)
}

} // verus!
