//! Index-based access to the children of a node, as language-agnostic
//! traversals see them, and rebuilding a node from new children.
use std::sync::Arc;
use vstd::prelude::*;
use crate::rholang_node::node_impl::share_meta_opt;
use crate::rholang_node::node_types::{share, RholangNode, RholangNodeVector};

verus! {

/// The `i`-th element of a sequence, if there is one.
pub open spec fn seq_get(s: Seq<Arc<RholangNode>>, i: int) -> Option<Arc<RholangNode>> {
    if 0 <= i < s.len() {
        Some(s[i])
    } else {
        None
    }
}

/// The number of children a traversal visits.
pub open spec fn spec_children_count(n: RholangNode) -> nat {
    match n {
        RholangNode::Par { left, right, processes, .. } => match processes {
            Some(p) => p@.len(),
            None => if left is Some && right is Some {
                2
            } else {
                0
            },
        },
        RholangNode::BinOp { .. } => 2,
        RholangNode::Disjunction { .. } => 2,
        RholangNode::Conjunction { .. } => 2,
        RholangNode::UnaryOp { .. } => 1,
        RholangNode::Bundle { .. } => 1,
        RholangNode::Eval { .. } => 1,
        RholangNode::Quote { .. } => 1,
        RholangNode::Block { .. } => 1,
        RholangNode::Parenthesized { .. } => 1,
        RholangNode::Negation { .. } => 1,
        RholangNode::SendSync { inputs, .. } => 1 + inputs@.len() + 1,
        RholangNode::Send { inputs, .. } => 1 + inputs@.len(),
        RholangNode::New { decls, .. } => decls@.len() + 1,
        RholangNode::Let { decls, .. } => decls@.len() + 1,
        RholangNode::Match { cases, .. } => 1 + cases@.len() * 2,
        RholangNode::Choice { branches, .. } => branches@.len() * 2,
        RholangNode::Input { receipts, .. } => receipts@.len() + 1,
        RholangNode::Contract { formals, .. } => 1 + formals@.len() + 1,
        RholangNode::Method { args, .. } => 1 + args@.len(),
        RholangNode::IfElse { alternative, .. } => if alternative is Some {
            3
        } else {
            2
        },
        RholangNode::List { elements, remainder, .. } => if remainder is Some {
            elements@.len() + 1
        } else {
            elements@.len()
        },
        RholangNode::SetExpr { elements, .. } => elements@.len(),
        RholangNode::Pathmap { elements, .. } => elements@.len(),
        RholangNode::MapExpr { pairs, .. } => pairs@.len() * 2,
        RholangNode::Tuple { elements, .. } => elements@.len(),
        _ => 0,
    }
}

/// The `i`-th child a traversal visits, if any.
pub open spec fn spec_child_at(n: RholangNode, i: int) -> Option<Arc<RholangNode>> {
    match n {
        RholangNode::Par { left, right, processes, .. } => match processes {
            Some(p) => seq_get(p@, i),
            None => match (left, right) {
                (Some(l), Some(r)) => if i == 0 {
                    Some(l)
                } else if i == 1 {
                    Some(r)
                } else {
                    None
                },
                _ => None,
            },
        },
        RholangNode::BinOp { left, right, .. } => if i == 0 {
            Some(left)
        } else if i == 1 {
            Some(right)
        } else {
            None
        },
        RholangNode::Disjunction { left, right, .. } => if i == 0 {
            Some(left)
        } else if i == 1 {
            Some(right)
        } else {
            None
        },
        RholangNode::Conjunction { left, right, .. } => if i == 0 {
            Some(left)
        } else if i == 1 {
            Some(right)
        } else {
            None
        },
        RholangNode::UnaryOp { operand, .. } => if i == 0 { Some(operand) } else { None },
        RholangNode::Bundle { proc, .. } => if i == 0 { Some(proc) } else { None },
        RholangNode::Eval { name, .. } => if i == 0 { Some(name) } else { None },
        RholangNode::Quote { quotable, .. } => if i == 0 { Some(quotable) } else { None },
        RholangNode::Block { proc, .. } => if i == 0 { Some(proc) } else { None },
        RholangNode::Parenthesized { expr, .. } => if i == 0 { Some(expr) } else { None },
        RholangNode::Negation { operand, .. } => if i == 0 { Some(operand) } else { None },
        RholangNode::SendSync { channel, inputs, cont, .. } => if i == 0 {
            Some(channel)
        } else if i <= inputs@.len() {
            seq_get(inputs@, i - 1)
        } else if i == inputs@.len() + 1 {
            Some(cont)
        } else {
            None
        },
        RholangNode::Send { channel, inputs, .. } => if i == 0 {
            Some(channel)
        } else if i <= inputs@.len() {
            seq_get(inputs@, i - 1)
        } else {
            None
        },
        RholangNode::New { decls, proc, .. } => if i < decls@.len() {
            seq_get(decls@, i)
        } else if i == decls@.len() {
            Some(proc)
        } else {
            None
        },
        RholangNode::Let { decls, proc, .. } => if i < decls@.len() {
            seq_get(decls@, i)
        } else if i == decls@.len() {
            Some(proc)
        } else {
            None
        },
        RholangNode::Match { expression, cases, .. } => if i == 0 {
            Some(expression)
        } else if i > 0 && (i - 1) / 2 < cases@.len() {
            if (i - 1) % 2 == 0 {
                Some(cases@[(i - 1) / 2].0)
            } else {
                Some(cases@[(i - 1) / 2].1)
            }
        } else {
            None
        },
        RholangNode::Choice { branches, .. } => if 0 <= i && i / 2 < branches@.len() {
            if i % 2 == 0 {
                seq_get(branches@[i / 2].0@, 0)
            } else {
                Some(branches@[i / 2].1)
            }
        } else {
            None
        },
        RholangNode::Input { receipts, proc, .. } => if 0 <= i < receipts@.len() {
            seq_get(receipts@[i]@, 0)
        } else if i == receipts@.len() {
            Some(proc)
        } else {
            None
        },
        RholangNode::Contract { name, formals, proc, .. } => if i == 0 {
            Some(name)
        } else if i <= formals@.len() {
            seq_get(formals@, i - 1)
        } else if i == formals@.len() + 1 {
            Some(proc)
        } else {
            None
        },
        RholangNode::Method { receiver, args, .. } => if i == 0 {
            Some(receiver)
        } else if i <= args@.len() {
            seq_get(args@, i - 1)
        } else {
            None
        },
        RholangNode::IfElse { condition, consequence, alternative, .. } => if i == 0 {
            Some(condition)
        } else if i == 1 {
            Some(consequence)
        } else if i == 2 {
            alternative
        } else {
            None
        },
        RholangNode::List { elements, remainder, .. } => if i < elements@.len() {
            seq_get(elements@, i)
        } else if i == elements@.len() && remainder is Some {
            remainder
        } else {
            None
        },
        RholangNode::SetExpr { elements, .. } => seq_get(elements@, i),
        RholangNode::Pathmap { elements, .. } => seq_get(elements@, i),
        RholangNode::MapExpr { pairs, .. } => if 0 <= i && i / 2 < pairs@.len() {
            if i % 2 == 0 {
                Some(pairs@[i / 2].0)
            } else {
                Some(pairs@[i / 2].1)
            }
        } else {
            None
        },
        RholangNode::Tuple { elements, .. } => seq_get(elements@, i),
        _ => None,
    }
}

/// The `i`-th element of a vector, shared.
fn vec_get(v: &RholangNodeVector, i: usize) -> (r: Option<Arc<RholangNode>>)
    ensures
        r == seq_get(v@, i as int),
{
    if i < v.len() {
        Some(share(&v[i]))
    } else {
        None
    }
}

impl RholangNode {
    /// The number of children a traversal visits.
    pub fn children_count(&self) -> (c: usize)
        requires
            spec_children_count(*self) <= usize::MAX,
        ensures
            c == spec_children_count(*self),
    {
        match self {
            RholangNode::Par { left, right, processes, .. } => match processes {
                Some(p) => p.len(),
                None => if left.is_some() && right.is_some() {
                    2
                } else {
                    0
                },
            },
            RholangNode::BinOp { .. } => 2,
            RholangNode::Disjunction { .. } => 2,
            RholangNode::Conjunction { .. } => 2,
            RholangNode::UnaryOp { .. } => 1,
            RholangNode::Bundle { .. } => 1,
            RholangNode::Eval { .. } => 1,
            RholangNode::Quote { .. } => 1,
            RholangNode::Block { .. } => 1,
            RholangNode::Parenthesized { .. } => 1,
            RholangNode::Negation { .. } => 1,
            RholangNode::SendSync { inputs, .. } => 1 + inputs.len() + 1,
            RholangNode::Send { inputs, .. } => 1 + inputs.len(),
            RholangNode::New { decls, .. } => decls.len() + 1,
            RholangNode::Let { decls, .. } => decls.len() + 1,
            RholangNode::Match { cases, .. } => 1 + cases.len() * 2,
            RholangNode::Choice { branches, .. } => branches.len() * 2,
            RholangNode::Input { receipts, .. } => receipts.len() + 1,
            RholangNode::Contract { formals, .. } => 1 + formals.len() + 1,
            RholangNode::Method { args, .. } => 1 + args.len(),
            RholangNode::IfElse { alternative, .. } => if alternative.is_some() {
                3
            } else {
                2
            },
            RholangNode::List { elements, remainder, .. } => if remainder.is_some() {
                elements.len() + 1
            } else {
                elements.len()
            },
            RholangNode::SetExpr { elements, .. } => elements.len(),
            RholangNode::Pathmap { elements, .. } => elements.len(),
            RholangNode::MapExpr { pairs, .. } => pairs.len() * 2,
            RholangNode::Tuple { elements, .. } => elements.len(),
            _ => 0,
        }
    }

    /// The `index`-th child a traversal visits, if any.
    pub fn child_at(&self, index: usize) -> (r: Option<Arc<RholangNode>>)
        ensures
            r == spec_child_at(*self, index as int),
    {
        match self {
            RholangNode::Par { left, right, processes, .. } => match processes {
                Some(p) => vec_get(p, index),
                None => match (left, right) {
                    (Some(l), Some(r)) => if index == 0 {
                        Some(share(l))
                    } else if index == 1 {
                        Some(share(r))
                    } else {
                        None
                    },
                    _ => None,
                },
            },
            RholangNode::BinOp { left, right, .. } => if index == 0 {
                Some(share(left))
            } else if index == 1 {
                Some(share(right))
            } else {
                None
            },
            RholangNode::Disjunction { left, right, .. } => if index == 0 {
                Some(share(left))
            } else if index == 1 {
                Some(share(right))
            } else {
                None
            },
            RholangNode::Conjunction { left, right, .. } => if index == 0 {
                Some(share(left))
            } else if index == 1 {
                Some(share(right))
            } else {
                None
            },
            RholangNode::UnaryOp { operand, .. } => if index == 0 { Some(share(operand)) } else { None },
            RholangNode::Bundle { proc, .. } => if index == 0 { Some(share(proc)) } else { None },
            RholangNode::Eval { name, .. } => if index == 0 { Some(share(name)) } else { None },
            RholangNode::Quote { quotable, .. } => if index == 0 { Some(share(quotable)) } else { None },
            RholangNode::Block { proc, .. } => if index == 0 { Some(share(proc)) } else { None },
            RholangNode::Parenthesized { expr, .. } => if index == 0 { Some(share(expr)) } else { None },
            RholangNode::Negation { operand, .. } => if index == 0 { Some(share(operand)) } else { None },
            RholangNode::SendSync { channel, inputs, cont, .. } => if index == 0 {
                Some(share(channel))
            } else if index <= inputs.len() {
                vec_get(inputs, index - 1)
            } else if index - 1 == inputs.len() {
                Some(share(cont))
            } else {
                None
            },
            RholangNode::Send { channel, inputs, .. } => if index == 0 {
                Some(share(channel))
            } else if index <= inputs.len() {
                vec_get(inputs, index - 1)
            } else {
                None
            },
            RholangNode::New { decls, proc, .. } => if index < decls.len() {
                vec_get(decls, index)
            } else if index == decls.len() {
                Some(share(proc))
            } else {
                None
            },
            RholangNode::Let { decls, proc, .. } => if index < decls.len() {
                vec_get(decls, index)
            } else if index == decls.len() {
                Some(share(proc))
            } else {
                None
            },
            RholangNode::Match { expression, cases, .. } => if index == 0 {
                Some(share(expression))
            } else if (index - 1) / 2 < cases.len() {
                let k = (index - 1) / 2;
                if (index - 1) % 2 == 0 {
                    Some(share(&cases[k].0))
                } else {
                    Some(share(&cases[k].1))
                }
            } else {
                None
            },
            RholangNode::Choice { branches, .. } => if index / 2 < branches.len() {
                let k = index / 2;
                if index % 2 == 0 {
                    vec_get(&branches[k].0, 0)
                } else {
                    Some(share(&branches[k].1))
                }
            } else {
                None
            },
            RholangNode::Input { receipts, proc, .. } => if index < receipts.len() {
                vec_get(&receipts[index], 0)
            } else if index == receipts.len() {
                Some(share(proc))
            } else {
                None
            },
            RholangNode::Contract { name, formals, proc, .. } => if index == 0 {
                Some(share(name))
            } else if index <= formals.len() {
                vec_get(formals, index - 1)
            } else if index - 1 == formals.len() {
                Some(share(proc))
            } else {
                None
            },
            RholangNode::Method { receiver, args, .. } => if index == 0 {
                Some(share(receiver))
            } else if index <= args.len() {
                vec_get(args, index - 1)
            } else {
                None
            },
            RholangNode::IfElse { condition, consequence, alternative, .. } => if index == 0 {
                Some(share(condition))
            } else if index == 1 {
                Some(share(consequence))
            } else if index == 2 {
                match alternative {
                    Some(a) => Some(share(a)),
                    None => None,
                }
            } else {
                None
            },
            RholangNode::List { elements, remainder, .. } => if index < elements.len() {
                vec_get(elements, index)
            } else if index == elements.len() && remainder.is_some() {
                match remainder {
                    Some(a) => Some(share(a)),
                    None => None,
                }
            } else {
                None
            },
            RholangNode::SetExpr { elements, .. } => vec_get(elements, index),
            RholangNode::Pathmap { elements, .. } => vec_get(elements, index),
            RholangNode::MapExpr { pairs, .. } => if index / 2 < pairs.len() {
                let k = index / 2;
                if index % 2 == 0 {
                    Some(share(&pairs[k].0))
                } else {
                    Some(share(&pairs[k].1))
                }
            } else {
                None
            },
            RholangNode::Tuple { elements, .. } => vec_get(elements, index),
            _ => None,
        }
    }
}

/// Whether `r` is `n` again: same base, same metadata, same children.
pub open spec fn same_node(n: RholangNode, r: RholangNode) -> bool {
    r.spec_base() == n.spec_base() && r.spec_metadata() == n.spec_metadata() && r.same_children(&n)
}

/// Whether `c` children are enough to rebuild `n` without running out.
pub open spec fn rebuild_fits(n: RholangNode, len: int) -> bool {
    match n {
        RholangNode::List { remainder, .. } => remainder is Some ==> len >= 1,
        RholangNode::SetExpr { remainder, .. } => remainder is Some ==> len >= 1,
        RholangNode::New { decls, .. } => len > 0 ==> decls@.len() < len,
        RholangNode::Let { decls, .. } => len > 0 ==> decls@.len() < len,
        RholangNode::Contract { formals, formals_remainder, .. } => len > 0 ==> 1 + formals@.len() + (
        if formals_remainder is Some {
            1int
        } else {
            0int
        }) < len,
        _ => true,
    }
}

/// Whether `r` is `n` rebuilt from the children `c` (in the order a
/// traversal visits them): binary and unary constructs, lists, sets,
/// tuples, sends, `new`, `let` and contracts take their children from `c`
/// when there are enough of them; any other node, or one with too few
/// children, comes back as it was.
pub open spec fn rebuilt(n: RholangNode, c: Seq<Arc<RholangNode>>, r: RholangNode) -> bool {
    match n {
        RholangNode::Par { base, metadata, .. } => if c.len() == 2 {
            r matches RholangNode::Par { base: b, left, right, processes, metadata: m } && b == base && left == Some(c[0])
                && right == Some(c[1]) && processes is None && m == metadata
        } else {
            same_node(n, r)
        },
        RholangNode::List { base, remainder, metadata, .. } => {
            let ec = if remainder is Some {
                c.len() - 1
            } else {
                c.len() as int
            };
            r matches RholangNode::List { base: b, elements: e, remainder: rm, metadata: m } && b == base && e@
                == c.subrange(0, ec) && rm == (if remainder is Some {
                Some(c[ec])
            } else {
                None
            }) && m == metadata
        },
        RholangNode::SetExpr { base, remainder, metadata, .. } => {
            let ec = if remainder is Some {
                c.len() - 1
            } else {
                c.len() as int
            };
            r matches RholangNode::SetExpr { base: b, elements: e, remainder: rm, metadata: m } && b == base && e@
                == c.subrange(0, ec) && rm == (if remainder is Some {
                Some(c[ec])
            } else {
                None
            }) && m == metadata
        },
        RholangNode::Tuple { base, metadata, .. } => r matches RholangNode::Tuple { base: b, elements: e, metadata: m }
            && b == base && e@ == c && m == metadata,
        RholangNode::Send { base, send_type, send_type_delta, metadata, .. } => if c.len() > 0 {
            r matches RholangNode::Send {
                base: b,
                channel,
                send_type: t,
                send_type_delta: d,
                inputs,
                metadata: m,
            } && b == base && channel == c[0] && t == send_type && d == send_type_delta && inputs@ == c.subrange(
                1,
                c.len() as int,
            ) && m == metadata
        } else {
            same_node(n, r)
        },
        RholangNode::SendSync { base, metadata, .. } => if c.len() >= 2 {
            r matches RholangNode::SendSync { base: b, channel, inputs, cont, metadata: m } && b == base && channel
                == c[0] && inputs@ == c.subrange(1, c.len() - 1) && cont == c[c.len() - 1] && m == metadata
        } else {
            same_node(n, r)
        },
        RholangNode::Block { base, metadata, .. } => if c.len() == 1 {
            r matches RholangNode::Block { base: b, proc, metadata: m } && b == base && proc == c[0] && m == metadata
        } else {
            same_node(n, r)
        },
        RholangNode::Parenthesized { base, metadata, .. } => if c.len() == 1 {
            r matches RholangNode::Parenthesized { base: b, expr, metadata: m } && b == base && expr == c[0] && m
                == metadata
        } else {
            same_node(n, r)
        },
        RholangNode::BinOp { base, op, metadata, .. } => if c.len() == 2 {
            r matches RholangNode::BinOp { base: b, op: o, left, right, metadata: m } && b == base && o == op && left
                == c[0] && right == c[1] && m == metadata
        } else {
            same_node(n, r)
        },
        RholangNode::UnaryOp { base, op, metadata, .. } => if c.len() == 1 {
            r matches RholangNode::UnaryOp { base: b, op: o, operand, metadata: m } && b == base && o == op && operand
                == c[0] && m == metadata
        } else {
            same_node(n, r)
        },
        RholangNode::New { base, metadata, decls, .. } => if c.len() > 0 {
            r matches RholangNode::New { base: b, decls: d, proc, metadata: m } && b == base && d@ == c.subrange(
                0,
                decls@.len() as int,
            ) && proc == c[decls@.len() as int] && m == metadata
        } else {
            same_node(n, r)
        },
        RholangNode::Let { base, metadata, decls, .. } => if c.len() > 0 {
            r matches RholangNode::Let { base: b, decls: d, proc, metadata: m } && b == base && d@ == c.subrange(
                0,
                decls@.len() as int,
            ) && proc == c[decls@.len() as int] && m == metadata
        } else {
            same_node(n, r)
        },
        RholangNode::Contract { base, metadata, formals, formals_remainder, .. } => if c.len() > 0 {
            let fc = formals@.len() as int;
            let pi = 1 + fc + if formals_remainder is Some {
                1int
            } else {
                0int
            };
            r matches RholangNode::Contract {
                base: b,
                name,
                formals: f,
                formals_remainder: fr,
                proc,
                metadata: m,
            } && b == base && name == c[0] && f@ == c.subrange(1, 1 + fc) && fr == formals_remainder && proc == c[pi]
                && m == metadata
        } else {
            same_node(n, r)
        },
        _ => same_node(n, r),
    }
}

/// New handles to the nodes of `v` from `from` up to `to`.
pub(crate) fn share_range(v: &Vec<Arc<RholangNode>>, from: usize, to: usize) -> (r: RholangNodeVector)
    requires
        from <= to <= v@.len(),
    ensures
        r@ == v@.subrange(from as int, to as int),
{
    let mut r: RholangNodeVector = Vec::new();
    let mut i: usize = from;
    while i < to
        invariant
            from <= i <= to <= v@.len(),
            r@ == v@.subrange(from as int, i as int),
        decreases to - i,
    {
        r.push(share(&v[i]));
        assert(r@ =~= v@.subrange(from as int, i + 1));
        i += 1;
    }
    r
}

impl RholangNode {
    /// Whether `count` children are enough to rebuild this node (see `rebuild_fits`).
    pub fn can_rebuild_with(&self, count: usize) -> (b: bool)
        ensures
            b == rebuild_fits(*self, count as int),
    {
        match self {
            RholangNode::List { remainder, .. } => remainder.is_none() || count >= 1,
            RholangNode::SetExpr { remainder, .. } => remainder.is_none() || count >= 1,
            RholangNode::New { decls, .. } => count == 0 || decls.len() < count,
            RholangNode::Let { decls, .. } => count == 0 || decls.len() < count,
            RholangNode::Contract { formals, formals_remainder, .. } => {
                if count == 0 {
                    true
                } else {
                    let extra: usize = if formals_remainder.is_some() { 1 } else { 0 };
                    formals.len() < count && formals.len() + extra < count - 1
                }
            },
            _ => true,
        }
    }

    /// This node rebuilt from new children, given in the order a traversal
    /// visits them (see `rebuilt`).
    pub fn reconstruct_with_children(&self, children: &Vec<Arc<RholangNode>>) -> (r: Arc<RholangNode>)
        requires
            rebuild_fits(*self, children@.len() as int),
        ensures
            rebuilt(*self, children@, *r),
    {
        let n = children.len();
        match self {
            RholangNode::Par { base, metadata, .. } => if n == 2 {
                return Arc::new(
                    RholangNode::Par {
                        base: *base,
                        left: Some(share(&children[0])),
                        right: Some(share(&children[1])),
                        processes: None,
                        metadata: share_meta_opt(metadata),
                    },
                );
            },
            RholangNode::List { base, remainder, metadata, .. } => {
                let ec = if remainder.is_some() {
                    n - 1
                } else {
                    n
                };
                let new_remainder = if remainder.is_some() {
                    Some(share(&children[ec]))
                } else {
                    None
                };
                return Arc::new(
                    RholangNode::List {
                        base: *base,
                        elements: share_range(children, 0, ec),
                        remainder: new_remainder,
                        metadata: share_meta_opt(metadata),
                    },
                );
            },
            RholangNode::SetExpr { base, remainder, metadata, .. } => {
                let ec = if remainder.is_some() {
                    n - 1
                } else {
                    n
                };
                let new_remainder = if remainder.is_some() {
                    Some(share(&children[ec]))
                } else {
                    None
                };
                return Arc::new(
                    RholangNode::SetExpr {
                        base: *base,
                        elements: share_range(children, 0, ec),
                        remainder: new_remainder,
                        metadata: share_meta_opt(metadata),
                    },
                );
            },
            RholangNode::Tuple { base, metadata, .. } => {
                assert(children@.subrange(0, n as int) =~= children@);
                return Arc::new(
                    RholangNode::Tuple {
                        base: *base,
                        elements: share_range(children, 0, n),
                        metadata: share_meta_opt(metadata),
                    },
                );
            },
            RholangNode::Send { base, send_type, send_type_delta, metadata, .. } => if n > 0 {
                return Arc::new(
                    RholangNode::Send {
                        base: *base,
                        channel: share(&children[0]),
                        send_type: *send_type,
                        send_type_delta: *send_type_delta,
                        inputs: share_range(children, 1, n),
                        metadata: share_meta_opt(metadata),
                    },
                );
            },
            RholangNode::SendSync { base, metadata, .. } => if n >= 2 {
                return Arc::new(
                    RholangNode::SendSync {
                        base: *base,
                        channel: share(&children[0]),
                        inputs: share_range(children, 1, n - 1),
                        cont: share(&children[n - 1]),
                        metadata: share_meta_opt(metadata),
                    },
                );
            },
            RholangNode::Block { base, metadata, .. } => if n == 1 {
                return Arc::new(
                    RholangNode::Block { base: *base, proc: share(&children[0]), metadata: share_meta_opt(metadata) },
                );
            },
            RholangNode::Parenthesized { base, metadata, .. } => if n == 1 {
                return Arc::new(
                    RholangNode::Parenthesized {
                        base: *base,
                        expr: share(&children[0]),
                        metadata: share_meta_opt(metadata),
                    },
                );
            },
            RholangNode::BinOp { base, op, metadata, .. } => if n == 2 {
                return Arc::new(
                    RholangNode::BinOp {
                        base: *base,
                        op: *op,
                        left: share(&children[0]),
                        right: share(&children[1]),
                        metadata: share_meta_opt(metadata),
                    },
                );
            },
            RholangNode::UnaryOp { base, op, metadata, .. } => if n == 1 {
                return Arc::new(
                    RholangNode::UnaryOp {
                        base: *base,
                        op: *op,
                        operand: share(&children[0]),
                        metadata: share_meta_opt(metadata),
                    },
                );
            },
            RholangNode::New { base, metadata, decls, .. } => if n > 0 {
                let dc = decls.len();
                return Arc::new(
                    RholangNode::New {
                        base: *base,
                        decls: share_range(children, 0, dc),
                        proc: share(&children[dc]),
                        metadata: share_meta_opt(metadata),
                    },
                );
            },
            RholangNode::Let { base, metadata, decls, .. } => if n > 0 {
                let dc = decls.len();
                return Arc::new(
                    RholangNode::Let {
                        base: *base,
                        decls: share_range(children, 0, dc),
                        proc: share(&children[dc]),
                        metadata: share_meta_opt(metadata),
                    },
                );
            },
            RholangNode::Contract { base, metadata, formals, formals_remainder, .. } => if n > 0 {
                let fc = formals.len();
                let pi = if formals_remainder.is_some() {
                    fc + 2
                } else {
                    fc + 1
                };
                return Arc::new(
                    RholangNode::Contract {
                        base: *base,
                        name: share(&children[0]),
                        formals: share_range(children, 1, 1 + fc),
                        formals_remainder: match formals_remainder {
                            Some(x) => Some(share(x)),
                            None => None,
                        },
                        proc: share(&children[pi]),
                        metadata: share_meta_opt(metadata),
                    },
                );
            },
            _ => {},
        }
        let own_metadata = match self.metadata() {
            Some(x) => Some(share(x)),
            None => None,
        };
        self.with_metadata(own_metadata)
    }
}

} // verus!
