//! Absolute positions of the nodes of a tree, computed from the relative
//! positions they store, and the search for the deepest node at a position.
use std::sync::Arc;
use vstd::prelude::*;
use crate::rholang_node::node_types::{share, share_all, RholangNode};
use crate::semantic_node::{
    absolute_end_fits, compute_end_position, end_position_fits, move_position, moved, moved_fits,
    moved_fits_exec, spec_end_position, spec_start_position, start_position, start_position_fits,
    start_position_fits_exec, Position,
};

verus! {

/// A node with its absolute start and end.
#[derive(Debug, Clone)]
pub struct PositionEntry {
    pub node: Arc<RholangNode>,
    pub start: Position,
    pub end: Position,
}

/// Whether an entry ends no earlier than it starts: not before its start
/// byte, not above its start line, and not left of its start column when
/// both are on one line.
pub open spec fn entry_ordered(e: PositionEntry) -> bool {
    &&& e.start.byte <= e.end.byte
    &&& e.start.row <= e.end.row
    &&& e.start.row == e.end.row ==> e.start.column <= e.end.column
}

/// Whether every entry ends no earlier than it starts.
pub open spec fn ordered_entries(s: Seq<PositionEntry>) -> bool {
    forall|i: int| 0 <= i < s.len() ==> entry_ordered(#[trigger] s[i])
}

/// The state of a walk over a tree: the positions computed so far, in the
/// order they are completed (children before their parent); the deepest
/// node found so far whose span holds the queried byte, with the path from
/// the root to it; and where the last visited node ended.
pub struct WalkState {
    pub entries: Seq<PositionEntry>,
    pub best: Option<(Arc<RholangNode>, Seq<Arc<RholangNode>>)>,
    pub end: Position,
}

/// Start of node `n` after a node that ended at `prev`.
pub open spec fn node_start(n: RholangNode, prev: Position) -> Position {
    spec_start_position(n.spec_base(), prev)
}

/// End of node `n` starting at `start`: its syntactic extent.
pub open spec fn node_end(n: RholangNode, start: Position) -> Position {
    spec_end_position(
        start,
        n.spec_base().spec_span_lines(),
        n.spec_base().spec_span_columns(),
        n.spec_base().spec_syntactic_length(),
    )
}

/// Computing the start and end of `n` after `prev` stays in range.
pub open spec fn node_fits(n: RholangNode, prev: Position) -> bool {
    &&& start_position_fits(n.spec_base(), prev)
    &&& end_position_fits(
        node_start(n, prev),
        n.spec_base().spec_span_lines(),
        n.spec_base().spec_span_columns(),
        n.spec_base().spec_syntactic_length(),
    )
}

/// Whether the byte of `q` lies in the span from `start` to `end`, both included.
pub open spec fn spans(start: Position, end: Position, q: Position) -> bool {
    start.byte <= q.byte && q.byte <= end.byte
}

/// Whether a node reached by a path of `len` nodes is deeper than the best so far.
pub open spec fn improves(best: Option<(Arc<RholangNode>, Seq<Arc<RholangNode>>)>, len: nat) -> bool {
    match best {
        None => true,
        Some(b) => len > b.1.len(),
    }
}

/// The position just after the `@` of a quote starting at `p`.
pub open spec fn after_quote(p: Position) -> Position {
    Position { row: p.row, column: (p.column + 1) as usize, byte: (p.byte + 1) as usize }
}

/// The state after `st` with a new last end.
pub open spec fn with_end(st: WalkState, end: Position) -> WalkState {
    WalkState { entries: st.entries, best: st.best, end }
}

/// The state as node `a` is entered after `st`, with `path` leading to it.
pub open spec fn entered(a: Arc<RholangNode>, st: WalkState, q: Position, path: Seq<Arc<RholangNode>>) -> WalkState {
    let start = node_start(*a, st.end);
    let end = node_end(*a, start);
    let p2 = path.push(a);
    WalkState {
        entries: st.entries,
        best: if spans(start, end, q) && improves(st.best, p2.len()) {
            Some((a, p2))
        } else {
            st.best
        },
        end: start,
    }
}

/// Walks the tree `a` after `st`: the children are walked in order from
/// the node's start, then the node's own entry is recorded; the walk ends
/// at the node's end. `path` leads from the root to `a`'s parent.
pub open spec fn walk(a: Arc<RholangNode>, st: WalkState, q: Position, path: Seq<Arc<RholangNode>>) -> WalkState
    decreases a, 1nat,
{
    let start = node_start(*a, st.end);
    let end = node_end(*a, start);
    let inner = walk_children(a, entered(a, st, q, path), q, path.push(a));
    WalkState { entries: inner.entries.push(PositionEntry { node: a, start, end }), best: inner.best, end }
}

/// Whether every position computed by `walk(a, st, q, path)` stays in range.
pub open spec fn fits(a: Arc<RholangNode>, st: WalkState, q: Position, path: Seq<Arc<RholangNode>>) -> bool
    decreases a, 1nat,
{
    node_fits(*a, st.end) && fits_children(a, entered(a, st, q, path), q, path.push(a))
}

/// Walks the children of `a` in order, from the state as `a` is entered.
#[verifier::opaque]
pub open spec fn walk_children(a: Arc<RholangNode>, st: WalkState, q: Position, path: Seq<Arc<RholangNode>>) -> WalkState
    decreases a, 0nat,
{
    match *a {
        RholangNode::Par { left, right, processes, .. } => {
            if left is Some && right is Some {
                walk(right->0, walk(left->0, st, q, path), q, path)
            } else {
                match processes {
                    Some(p) => walk_seq(p@, st, q, path),
                    None => st,
                }
            }
        },
        RholangNode::Send { channel, send_type_delta, inputs, .. } => {
            let c = walk(channel, st, q, path);
            walk_seq(inputs@, with_end(c, moved(send_type_delta, c.end)), q, path)
        },
        RholangNode::Quote { quotable, .. } => walk(quotable, with_end(st, after_quote(st.end)), q, path),
        RholangNode::SendSync { channel, inputs, cont, .. } => walk(cont, walk_seq(inputs@, walk(channel, st, q, path), q, path), q, path),
        RholangNode::New { decls, proc, .. } => walk(proc, walk_seq(decls@, st, q, path), q, path),
        RholangNode::IfElse { condition, consequence, alternative, .. } => walk_opt(alternative, walk(consequence, walk(condition, st, q, path), q, path), q, path),
        RholangNode::Let { decls, proc, .. } => walk(proc, walk_seq(decls@, st, q, path), q, path),
        RholangNode::Bundle { proc, .. } => walk(proc, st, q, path),
        RholangNode::Match { expression, cases, .. } => walk_pairs(cases@, walk(expression, st, q, path), q, path),
        RholangNode::Choice { branches, .. } => walk_branches(branches@, st, q, path),
        RholangNode::Contract { name, formals, formals_remainder, proc, .. } => walk(proc, walk_opt(formals_remainder, walk_seq(formals@, walk(name, st, q, path), q, path), q, path), q, path),
        RholangNode::Input { receipts, proc, .. } => walk(proc, walk_receipts(receipts@, st, q, path), q, path),
        RholangNode::Block { proc, .. } => walk(proc, st, q, path),
        RholangNode::Parenthesized { expr, .. } => walk(expr, st, q, path),
        RholangNode::BinOp { left, right, .. } => walk(right, walk(left, st, q, path), q, path),
        RholangNode::UnaryOp { operand, .. } => walk(operand, st, q, path),
        RholangNode::Method { receiver, args, .. } => walk_seq(args@, walk(receiver, st, q, path), q, path),
        RholangNode::Eval { name, .. } => walk(name, st, q, path),
        RholangNode::VarRef { var, .. } => walk(var, st, q, path),
        RholangNode::List { elements, remainder, .. } => walk_opt(remainder, walk_seq(elements@, st, q, path), q, path),
        RholangNode::SetExpr { elements, remainder, .. } => walk_opt(remainder, walk_seq(elements@, st, q, path), q, path),
        RholangNode::MapExpr { pairs, remainder, .. } => walk_opt(remainder, walk_pairs(pairs@, st, q, path), q, path),
        RholangNode::Tuple { elements, .. } => walk_seq(elements@, st, q, path),
        RholangNode::NameDecl { var, uri, .. } => walk_opt(uri, walk(var, st, q, path), q, path),
        RholangNode::Decl { names, names_remainder, procs, .. } => walk_seq(procs@, walk_opt(names_remainder, walk_seq(names@, st, q, path), q, path), q, path),
        RholangNode::LinearBind { names, remainder, source, .. } => walk(source, walk_opt(remainder, walk_seq(names@, st, q, path), q, path), q, path),
        RholangNode::RepeatedBind { names, remainder, source, .. } => walk(source, walk_opt(remainder, walk_seq(names@, st, q, path), q, path), q, path),
        RholangNode::PeekBind { names, remainder, source, .. } => walk(source, walk_opt(remainder, walk_seq(names@, st, q, path), q, path), q, path),
        RholangNode::ReceiveSendSource { name, .. } => walk(name, st, q, path),
        RholangNode::SendReceiveSource { name, inputs, .. } => walk_seq(inputs@, walk(name, st, q, path), q, path),
        RholangNode::Error { children, .. } => walk_seq(children@, st, q, path),
        RholangNode::Disjunction { left, right, .. } => walk(right, walk(left, st, q, path), q, path),
        RholangNode::Conjunction { left, right, .. } => walk(right, walk(left, st, q, path), q, path),
        RholangNode::Negation { operand, .. } => walk(operand, st, q, path),
        _ => st,
    }
}

/// Whether walking the children of `a` from `st` stays in range.
#[verifier::opaque]
pub open spec fn fits_children(a: Arc<RholangNode>, st: WalkState, q: Position, path: Seq<Arc<RholangNode>>) -> bool
    decreases a, 0nat,
{
    match *a {
        RholangNode::Par { left, right, processes, .. } => {
            if left is Some && right is Some {
                fits(left->0, st, q, path) && fits(right->0, walk(left->0, st, q, path), q, path)
            } else {
                match processes {
                    Some(p) => fits_seq(p@, st, q, path),
                    None => true,
                }
            }
        },
        RholangNode::Send { channel, send_type_delta, inputs, .. } => {
            let c = walk(channel, st, q, path);
            fits(channel, st, q, path) && moved_fits(send_type_delta, c.end) && fits_seq(
                inputs@,
                with_end(c, moved(send_type_delta, c.end)),
                q,
                path,
            )
        },
        RholangNode::Quote { quotable, .. } => st.end.column + 1 <= usize::MAX && st.end.byte + 1 <= usize::MAX
            && fits(quotable, with_end(st, after_quote(st.end)), q, path),
        RholangNode::SendSync { channel, inputs, cont, .. } => fits(channel, st, q, path) && fits_seq(inputs@, walk(channel, st, q, path), q, path) && fits(cont, walk_seq(inputs@, walk(channel, st, q, path), q, path), q, path),
        RholangNode::New { decls, proc, .. } => fits_seq(decls@, st, q, path) && fits(proc, walk_seq(decls@, st, q, path), q, path),
        RholangNode::IfElse { condition, consequence, alternative, .. } => fits(condition, st, q, path) && fits(consequence, walk(condition, st, q, path), q, path) && fits_opt(alternative, walk(consequence, walk(condition, st, q, path), q, path), q, path),
        RholangNode::Let { decls, proc, .. } => fits_seq(decls@, st, q, path) && fits(proc, walk_seq(decls@, st, q, path), q, path),
        RholangNode::Bundle { proc, .. } => fits(proc, st, q, path),
        RholangNode::Match { expression, cases, .. } => fits(expression, st, q, path) && fits_pairs(cases@, walk(expression, st, q, path), q, path),
        RholangNode::Choice { branches, .. } => fits_branches(branches@, st, q, path),
        RholangNode::Contract { name, formals, formals_remainder, proc, .. } => fits(name, st, q, path) && fits_seq(formals@, walk(name, st, q, path), q, path) && fits_opt(formals_remainder, walk_seq(formals@, walk(name, st, q, path), q, path), q, path) && fits(proc, walk_opt(formals_remainder, walk_seq(formals@, walk(name, st, q, path), q, path), q, path), q, path),
        RholangNode::Input { receipts, proc, .. } => fits_receipts(receipts@, st, q, path) && fits(proc, walk_receipts(receipts@, st, q, path), q, path),
        RholangNode::Block { proc, .. } => fits(proc, st, q, path),
        RholangNode::Parenthesized { expr, .. } => fits(expr, st, q, path),
        RholangNode::BinOp { left, right, .. } => fits(left, st, q, path) && fits(right, walk(left, st, q, path), q, path),
        RholangNode::UnaryOp { operand, .. } => fits(operand, st, q, path),
        RholangNode::Method { receiver, args, .. } => fits(receiver, st, q, path) && fits_seq(args@, walk(receiver, st, q, path), q, path),
        RholangNode::Eval { name, .. } => fits(name, st, q, path),
        RholangNode::VarRef { var, .. } => fits(var, st, q, path),
        RholangNode::List { elements, remainder, .. } => fits_seq(elements@, st, q, path) && fits_opt(remainder, walk_seq(elements@, st, q, path), q, path),
        RholangNode::SetExpr { elements, remainder, .. } => fits_seq(elements@, st, q, path) && fits_opt(remainder, walk_seq(elements@, st, q, path), q, path),
        RholangNode::MapExpr { pairs, remainder, .. } => fits_pairs(pairs@, st, q, path) && fits_opt(remainder, walk_pairs(pairs@, st, q, path), q, path),
        RholangNode::Tuple { elements, .. } => fits_seq(elements@, st, q, path),
        RholangNode::NameDecl { var, uri, .. } => fits(var, st, q, path) && fits_opt(uri, walk(var, st, q, path), q, path),
        RholangNode::Decl { names, names_remainder, procs, .. } => fits_seq(names@, st, q, path) && fits_opt(names_remainder, walk_seq(names@, st, q, path), q, path) && fits_seq(procs@, walk_opt(names_remainder, walk_seq(names@, st, q, path), q, path), q, path),
        RholangNode::LinearBind { names, remainder, source, .. } => fits_seq(names@, st, q, path) && fits_opt(remainder, walk_seq(names@, st, q, path), q, path) && fits(source, walk_opt(remainder, walk_seq(names@, st, q, path), q, path), q, path),
        RholangNode::RepeatedBind { names, remainder, source, .. } => fits_seq(names@, st, q, path) && fits_opt(remainder, walk_seq(names@, st, q, path), q, path) && fits(source, walk_opt(remainder, walk_seq(names@, st, q, path), q, path), q, path),
        RholangNode::PeekBind { names, remainder, source, .. } => fits_seq(names@, st, q, path) && fits_opt(remainder, walk_seq(names@, st, q, path), q, path) && fits(source, walk_opt(remainder, walk_seq(names@, st, q, path), q, path), q, path),
        RholangNode::ReceiveSendSource { name, .. } => fits(name, st, q, path),
        RholangNode::SendReceiveSource { name, inputs, .. } => fits(name, st, q, path) && fits_seq(inputs@, walk(name, st, q, path), q, path),
        RholangNode::Error { children, .. } => fits_seq(children@, st, q, path),
        RholangNode::Disjunction { left, right, .. } => fits(left, st, q, path) && fits(right, walk(left, st, q, path), q, path),
        RholangNode::Conjunction { left, right, .. } => fits(left, st, q, path) && fits(right, walk(left, st, q, path), q, path),
        RholangNode::Negation { operand, .. } => fits(operand, st, q, path),
        _ => true,
    }
}

/// Walks an optional tree.
pub open spec fn walk_opt(o: Option<Arc<RholangNode>>, st: WalkState, q: Position, path: Seq<Arc<RholangNode>>) -> WalkState
    decreases o, 2nat,
{
    match o {
        Some(a) => walk(a, st, q, path),
        None => st,
    }
}

/// Walks trees in order.
pub open spec fn walk_seq(s: Seq<Arc<RholangNode>>, st: WalkState, q: Position, path: Seq<Arc<RholangNode>>) -> WalkState
    decreases s, 2nat,
{
    if s.len() == 0 {
        st
    } else {
        walk(s.last(), walk_seq(s.drop_last(), st, q, path), q, path)
    }
}

/// Walks pairs of trees in order, each key before its value.
pub open spec fn walk_pairs(s: Seq<(Arc<RholangNode>, Arc<RholangNode>)>, st: WalkState, q: Position, path: Seq<Arc<RholangNode>>) -> WalkState
    decreases s, 2nat,
{
    if s.len() == 0 {
        st
    } else {
        walk(s.last().1, walk(s.last().0, walk_pairs(s.drop_last(), st, q, path), q, path), q, path)
    }
}

/// Walks branches in order, each one's binds before its body.
pub open spec fn walk_branches(s: Seq<(Vec<Arc<RholangNode>>, Arc<RholangNode>)>, st: WalkState, q: Position, path: Seq<Arc<RholangNode>>) -> WalkState
    decreases s, 2nat,
{
    if s.len() == 0 {
        st
    } else {
        walk(s.last().1, walk_seq(s.last().0@, walk_branches(s.drop_last(), st, q, path), q, path), q, path)
    }
}

/// Walks receipts in order, the binds of each in order.
pub open spec fn walk_receipts(s: Seq<Vec<Arc<RholangNode>>>, st: WalkState, q: Position, path: Seq<Arc<RholangNode>>) -> WalkState
    decreases s, 2nat,
{
    if s.len() == 0 {
        st
    } else {
        walk_seq(s.last()@, walk_receipts(s.drop_last(), st, q, path), q, path)
    }
}

/// Walking an optional tree stays in range.
pub open spec fn fits_opt(o: Option<Arc<RholangNode>>, st: WalkState, q: Position, path: Seq<Arc<RholangNode>>) -> bool
    decreases o, 2nat,
{
    match o {
        Some(a) => fits(a, st, q, path),
        None => true,
    }
}

/// Walking trees in order stays in range.
pub open spec fn fits_seq(s: Seq<Arc<RholangNode>>, st: WalkState, q: Position, path: Seq<Arc<RholangNode>>) -> bool
    decreases s, 2nat,
{
    if s.len() == 0 {
        true
    } else {
        fits_seq(s.drop_last(), st, q, path) && fits(s.last(), walk_seq(s.drop_last(), st, q, path), q, path)
    }
}

/// Walking pairs of trees in order stays in range.
pub open spec fn fits_pairs(s: Seq<(Arc<RholangNode>, Arc<RholangNode>)>, st: WalkState, q: Position, path: Seq<Arc<RholangNode>>) -> bool
    decreases s, 2nat,
{
    if s.len() == 0 {
        true
    } else {
        let before = walk_pairs(s.drop_last(), st, q, path);
        fits_pairs(s.drop_last(), st, q, path) && fits(s.last().0, before, q, path) && fits(
            s.last().1,
            walk(s.last().0, before, q, path),
            q,
            path,
        )
    }
}

/// Walking branches in order stays in range.
pub open spec fn fits_branches(s: Seq<(Vec<Arc<RholangNode>>, Arc<RholangNode>)>, st: WalkState, q: Position, path: Seq<Arc<RholangNode>>) -> bool
    decreases s, 2nat,
{
    if s.len() == 0 {
        true
    } else {
        let before = walk_branches(s.drop_last(), st, q, path);
        fits_branches(s.drop_last(), st, q, path) && fits_seq(s.last().0@, before, q, path) && fits(
            s.last().1,
            walk_seq(s.last().0@, before, q, path),
            q,
            path,
        )
    }
}

/// Walking receipts in order stays in range.
pub open spec fn fits_receipts(s: Seq<Vec<Arc<RholangNode>>>, st: WalkState, q: Position, path: Seq<Arc<RholangNode>>) -> bool
    decreases s, 2nat,
{
    if s.len() == 0 {
        true
    } else {
        fits_receipts(s.drop_last(), st, q, path) && fits_seq(s.last()@, walk_receipts(s.drop_last(), st, q, path), q, path)
    }
}

/// The walk's working state: positions recorded, best node so far, last end.
pub struct WalkBuffer {
    pub entries: Vec<PositionEntry>,
    pub best: Option<(Arc<RholangNode>, Vec<Arc<RholangNode>>)>,
    pub end: Position,
}

/// The walk state a buffer holds.
pub open spec fn buffer_state(b: WalkBuffer) -> WalkState {
    WalkState {
        entries: b.entries@,
        best: match b.best {
            Some(x) => Some((x.0, x.1@)),
            None => None,
        },
        end: b.end,
    }
}

/// One step of `walk`.
proof fn lemma_walk_unfold(a: Arc<RholangNode>, st: WalkState, q: Position, path: Seq<Arc<RholangNode>>)
    ensures
        walk(a, st, q, path) == ({
            let start = node_start(*a, st.end);
            let end = node_end(*a, start);
            let inner = walk_children(a, entered(a, st, q, path), q, path.push(a));
            WalkState { entries: inner.entries.push(PositionEntry { node: a, start, end }), best: inner.best, end }
        }),
{
    reveal(walk_children);
}

/// Walks the tree `node` (see `walk`), recording into `buf`.
#[verifier::rlimit(40)]
fn walk_into(node: &Arc<RholangNode>, q: Position, path: &mut Vec<Arc<RholangNode>>, buf: &mut WalkBuffer) -> (ok: bool)
    ensures
        ok == fits(*node, buffer_state(*old(buf)), q, old(path)@),
        ok ==> buffer_state(*final(buf)) == walk(*node, buffer_state(*old(buf)), q, old(path)@),
        final(path)@ == old(path)@,
        ordered_entries(old(buf).entries@) ==> ordered_entries(final(buf).entries@),
    decreases *node, 2nat,
{
    let ghost st0 = buffer_state(*buf);
    let ghost p0 = path@;
    proof {
        reveal(fits_children);
        lemma_walk_unfold(*node, st0, q, p0);
    }
    let base = node.base();
    if !start_position_fits_exec(base, buf.end) {
        return false;
    }
    let start = start_position(base, buf.end);
    if !absolute_end_fits(base, start) {
        return false;
    }
    let end = compute_end_position(start, base.span_lines(), base.span_columns(), base.syntactic_length());
    path.push(share(node));
    let better = match &buf.best {
        None => true,
        Some(b) => path.len() > b.1.len(),
    };
    if start.byte <= q.byte && q.byte <= end.byte && better {
        buf.best = Some((share(node), share_all(path)));
    }
    buf.end = start;
    proof {
        assert(buffer_state(*buf) == entered(*node, st0, q, p0));
        assert(path@ == p0.push(*node));
    }
    let tag = node.tag();
    let children_ok = if tag < 12 {
        children_a(node, q, path, buf)
    } else if tag < 24 {
        children_b(node, q, path, buf)
    } else if tag < 36 {
        children_c(node, q, path, buf)
    } else {
        children_d(node, q, path, buf)
    };
    if !children_ok {
        let _ = path.pop();
        assert(path@ =~= p0);
        return false;
    }
    let ghost inner = buffer_state(*buf);
    let _ = path.pop();
    let ghost before = buf.entries@;
    buf.entries.push(PositionEntry { node: share(node), start, end });
    buf.end = end;
    assert(entry_ordered(PositionEntry { node: *node, start, end }));
    assert(ordered_entries(before) ==> ordered_entries(buf.entries@)) by {
        if ordered_entries(before) {
            assert forall|i: int| 0 <= i < buf.entries@.len() implies entry_ordered(#[trigger] buf.entries@[i]) by {
                if i < before.len() {
                    assert(buf.entries@[i] == before[i]);
                }
            }
        }
    }
    proof {
        assert(path@ =~= p0);
        assert(buffer_state(*buf) =~= walk(*node, st0, q, p0));
    }
    true
}

fn children_a(node: &Arc<RholangNode>, q: Position, path: &mut Vec<Arc<RholangNode>>, buf: &mut WalkBuffer) -> (ok: bool)
    requires
        0 <= node.spec_tag() < 12,
    ensures
        ok == fits_children(*node, buffer_state(*old(buf)), q, old(path)@),
        ok ==> buffer_state(*final(buf)) == walk_children(*node, buffer_state(*old(buf)), q, old(path)@),
        final(path)@ == old(path)@,
        ordered_entries(old(buf).entries@) ==> ordered_entries(final(buf).entries@),
    decreases *node, 1nat,
{
    match &**node {
        RholangNode::Par { .. } => children_of_par(node, q, path, buf),
        RholangNode::SendSync { .. } => children_of_send_sync(node, q, path, buf),
        RholangNode::Send { .. } => children_of_send(node, q, path, buf),
        RholangNode::New { .. } => children_of_new(node, q, path, buf),
        RholangNode::IfElse { .. } => children_of_if_else(node, q, path, buf),
        RholangNode::Let { .. } => children_of_let(node, q, path, buf),
        RholangNode::Bundle { .. } => children_of_bundle(node, q, path, buf),
        RholangNode::Match { .. } => children_of_match(node, q, path, buf),
        RholangNode::Choice { .. } => children_of_choice(node, q, path, buf),
        RholangNode::Contract { .. } => children_of_contract(node, q, path, buf),
        RholangNode::Input { .. } => children_of_input(node, q, path, buf),
        RholangNode::Block { .. } => children_of_block(node, q, path, buf),
        _ => true,
    }
}

fn children_b(node: &Arc<RholangNode>, q: Position, path: &mut Vec<Arc<RholangNode>>, buf: &mut WalkBuffer) -> (ok: bool)
    requires
        12 <= node.spec_tag() < 24,
    ensures
        ok == fits_children(*node, buffer_state(*old(buf)), q, old(path)@),
        ok ==> buffer_state(*final(buf)) == walk_children(*node, buffer_state(*old(buf)), q, old(path)@),
        final(path)@ == old(path)@,
        ordered_entries(old(buf).entries@) ==> ordered_entries(final(buf).entries@),
    decreases *node, 1nat,
{
    match &**node {
        RholangNode::Parenthesized { .. } => children_of_parenthesized(node, q, path, buf),
        RholangNode::BinOp { .. } => children_of_bin_op(node, q, path, buf),
        RholangNode::UnaryOp { .. } => children_of_unary_op(node, q, path, buf),
        RholangNode::Method { .. } => children_of_method(node, q, path, buf),
        RholangNode::Eval { .. } => children_of_eval(node, q, path, buf),
        RholangNode::Quote { .. } => children_of_quote(node, q, path, buf),
        RholangNode::VarRef { .. } => children_of_var_ref(node, q, path, buf),
        RholangNode::BoolLiteral { .. } => {
            proof { reveal(walk_children); reveal(fits_children); }
            true
        },
        RholangNode::LongLiteral { .. } => {
            proof { reveal(walk_children); reveal(fits_children); }
            true
        },
        RholangNode::StringLiteral { .. } => {
            proof { reveal(walk_children); reveal(fits_children); }
            true
        },
        RholangNode::UriLiteral { .. } => {
            proof { reveal(walk_children); reveal(fits_children); }
            true
        },
        RholangNode::Nil { .. } => {
            proof { reveal(walk_children); reveal(fits_children); }
            true
        },
        _ => true,
    }
}

fn children_c(node: &Arc<RholangNode>, q: Position, path: &mut Vec<Arc<RholangNode>>, buf: &mut WalkBuffer) -> (ok: bool)
    requires
        24 <= node.spec_tag() < 36,
    ensures
        ok == fits_children(*node, buffer_state(*old(buf)), q, old(path)@),
        ok ==> buffer_state(*final(buf)) == walk_children(*node, buffer_state(*old(buf)), q, old(path)@),
        final(path)@ == old(path)@,
        ordered_entries(old(buf).entries@) ==> ordered_entries(final(buf).entries@),
    decreases *node, 1nat,
{
    match &**node {
        RholangNode::List { .. } => children_of_list(node, q, path, buf),
        RholangNode::SetExpr { .. } => children_of_set_expr(node, q, path, buf),
        RholangNode::Pathmap { .. } => {
            proof { reveal(walk_children); reveal(fits_children); }
            true
        },
        RholangNode::MapExpr { .. } => children_of_map_expr(node, q, path, buf),
        RholangNode::Tuple { .. } => children_of_tuple(node, q, path, buf),
        RholangNode::Var { .. } => {
            proof { reveal(walk_children); reveal(fits_children); }
            true
        },
        RholangNode::NameDecl { .. } => children_of_name_decl(node, q, path, buf),
        RholangNode::Decl { .. } => children_of_decl(node, q, path, buf),
        RholangNode::LinearBind { .. } => children_of_linear_bind(node, q, path, buf),
        RholangNode::RepeatedBind { .. } => children_of_repeated_bind(node, q, path, buf),
        RholangNode::PeekBind { .. } => children_of_peek_bind(node, q, path, buf),
        RholangNode::Comment { .. } => {
            proof { reveal(walk_children); reveal(fits_children); }
            true
        },
        _ => true,
    }
}

fn children_d(node: &Arc<RholangNode>, q: Position, path: &mut Vec<Arc<RholangNode>>, buf: &mut WalkBuffer) -> (ok: bool)
    requires
        36 <= node.spec_tag() < 45,
    ensures
        ok == fits_children(*node, buffer_state(*old(buf)), q, old(path)@),
        ok ==> buffer_state(*final(buf)) == walk_children(*node, buffer_state(*old(buf)), q, old(path)@),
        final(path)@ == old(path)@,
        ordered_entries(old(buf).entries@) ==> ordered_entries(final(buf).entries@),
    decreases *node, 1nat,
{
    match &**node {
        RholangNode::Wildcard { .. } => {
            proof { reveal(walk_children); reveal(fits_children); }
            true
        },
        RholangNode::SimpleType { .. } => {
            proof { reveal(walk_children); reveal(fits_children); }
            true
        },
        RholangNode::ReceiveSendSource { .. } => children_of_receive_send_source(node, q, path, buf),
        RholangNode::SendReceiveSource { .. } => children_of_send_receive_source(node, q, path, buf),
        RholangNode::Error { .. } => children_of_error(node, q, path, buf),
        RholangNode::Disjunction { .. } => children_of_disjunction(node, q, path, buf),
        RholangNode::Conjunction { .. } => children_of_conjunction(node, q, path, buf),
        RholangNode::Negation { .. } => children_of_negation(node, q, path, buf),
        RholangNode::Unit { .. } => {
            proof { reveal(walk_children); reveal(fits_children); }
            true
        },
        _ => true,
    }
}

fn children_of_par(node: &Arc<RholangNode>, q: Position, path: &mut Vec<Arc<RholangNode>>, buf: &mut WalkBuffer) -> (ok: bool)
    requires
        **node is Par,
    ensures
        ok == fits_children(*node, buffer_state(*old(buf)), q, old(path)@),
        ok ==> buffer_state(*final(buf)) == walk_children(*node, buffer_state(*old(buf)), q, old(path)@),
        final(path)@ == old(path)@,
        ordered_entries(old(buf).entries@) ==> ordered_entries(final(buf).entries@),
    decreases *node, 0nat,
{
    proof { reveal(walk_children); reveal(fits_children); }
    match &**node {
        RholangNode::Par { left: Some(left), right: Some(right), .. } => {
            proof { assert(decreases_to!(**node => (**node)->Par_left)); assert(decreases_to!(**node => (**node)->Par_right)); }
            if !walk_into(left, q, path, buf) {
                return false;
            }
            walk_into(right, q, path, buf)
        },
        RholangNode::Par { processes: Some(procs), .. } => {
            proof { assert(decreases_to!(**node => (**node)->Par_processes)); }
            walk_seq_into(procs, q, path, buf)
        },
        RholangNode::Par { .. } => true,
        _ => true,
    }
}

fn children_of_send(node: &Arc<RholangNode>, q: Position, path: &mut Vec<Arc<RholangNode>>, buf: &mut WalkBuffer) -> (ok: bool)
    requires
        **node is Send,
    ensures
        ok == fits_children(*node, buffer_state(*old(buf)), q, old(path)@),
        ok ==> buffer_state(*final(buf)) == walk_children(*node, buffer_state(*old(buf)), q, old(path)@),
        final(path)@ == old(path)@,
        ordered_entries(old(buf).entries@) ==> ordered_entries(final(buf).entries@),
    decreases *node, 0nat,
{
    proof { reveal(walk_children); reveal(fits_children); }
    match &**node {
        RholangNode::Send { channel, send_type_delta, inputs, .. } => {
            proof { assert(decreases_to!(**node => (**node)->Send_channel)); assert(decreases_to!(**node => (**node)->Send_inputs)); }
            if !walk_into(channel, q, path, buf) {
                return false;
            }
            if !moved_fits_exec(*send_type_delta, buf.end) {
                return false;
            }
            buf.end = move_position(*send_type_delta, buf.end);
            walk_seq_into(inputs, q, path, buf)
        },
        _ => true,
    }
}

fn children_of_quote(node: &Arc<RholangNode>, q: Position, path: &mut Vec<Arc<RholangNode>>, buf: &mut WalkBuffer) -> (ok: bool)
    requires
        **node is Quote,
    ensures
        ok == fits_children(*node, buffer_state(*old(buf)), q, old(path)@),
        ok ==> buffer_state(*final(buf)) == walk_children(*node, buffer_state(*old(buf)), q, old(path)@),
        final(path)@ == old(path)@,
        ordered_entries(old(buf).entries@) ==> ordered_entries(final(buf).entries@),
    decreases *node, 0nat,
{
    proof { reveal(walk_children); reveal(fits_children); }
    match &**node {
        RholangNode::Quote { quotable, .. } => {
            proof { assert(decreases_to!(**node => (**node)->Quote_quotable)); }
            if buf.end.column == usize::MAX || buf.end.byte == usize::MAX {
                return false;
            }
            buf.end = Position { row: buf.end.row, column: buf.end.column + 1, byte: buf.end.byte + 1 };
            walk_into(quotable, q, path, buf)
        },
        _ => true,
    }
}

fn children_of_send_sync(node: &Arc<RholangNode>, q: Position, path: &mut Vec<Arc<RholangNode>>, buf: &mut WalkBuffer) -> (ok: bool)
    requires
        **node is SendSync,
    ensures
        ok == fits_children(*node, buffer_state(*old(buf)), q, old(path)@),
        ok ==> buffer_state(*final(buf)) == walk_children(*node, buffer_state(*old(buf)), q, old(path)@),
        final(path)@ == old(path)@,
        ordered_entries(old(buf).entries@) ==> ordered_entries(final(buf).entries@),
    decreases *node, 0nat,
{
    proof { reveal(walk_children); reveal(fits_children); }
    match &**node {
        RholangNode::SendSync { channel, inputs, cont, .. } => {
            proof { assert(decreases_to!(**node => (**node)->SendSync_channel)); assert(decreases_to!(**node => (**node)->SendSync_inputs)); assert(decreases_to!(**node => (**node)->SendSync_cont)); }
            if !walk_into(channel, q, path, buf) {
                return false;
            }
            if !walk_seq_into(inputs, q, path, buf) {
                return false;
            }
            walk_into(cont, q, path, buf)
        },
        _ => true,
    }
}

fn children_of_new(node: &Arc<RholangNode>, q: Position, path: &mut Vec<Arc<RholangNode>>, buf: &mut WalkBuffer) -> (ok: bool)
    requires
        **node is New,
    ensures
        ok == fits_children(*node, buffer_state(*old(buf)), q, old(path)@),
        ok ==> buffer_state(*final(buf)) == walk_children(*node, buffer_state(*old(buf)), q, old(path)@),
        final(path)@ == old(path)@,
        ordered_entries(old(buf).entries@) ==> ordered_entries(final(buf).entries@),
    decreases *node, 0nat,
{
    proof { reveal(walk_children); reveal(fits_children); }
    match &**node {
        RholangNode::New { decls, proc, .. } => {
            proof { assert(decreases_to!(**node => (**node)->New_decls)); assert(decreases_to!(**node => (**node)->New_proc)); }
            if !walk_seq_into(decls, q, path, buf) {
                return false;
            }
            walk_into(proc, q, path, buf)
        },
        _ => true,
    }
}

fn children_of_if_else(node: &Arc<RholangNode>, q: Position, path: &mut Vec<Arc<RholangNode>>, buf: &mut WalkBuffer) -> (ok: bool)
    requires
        **node is IfElse,
    ensures
        ok == fits_children(*node, buffer_state(*old(buf)), q, old(path)@),
        ok ==> buffer_state(*final(buf)) == walk_children(*node, buffer_state(*old(buf)), q, old(path)@),
        final(path)@ == old(path)@,
        ordered_entries(old(buf).entries@) ==> ordered_entries(final(buf).entries@),
    decreases *node, 0nat,
{
    proof { reveal(walk_children); reveal(fits_children); }
    match &**node {
        RholangNode::IfElse { condition, consequence, alternative, .. } => {
            proof { assert(decreases_to!(**node => (**node)->IfElse_condition)); assert(decreases_to!(**node => (**node)->IfElse_consequence)); assert(decreases_to!(**node => (**node)->IfElse_alternative)); }
            if !walk_into(condition, q, path, buf) {
                return false;
            }
            if !walk_into(consequence, q, path, buf) {
                return false;
            }
            walk_opt_into(alternative, q, path, buf)
        },
        _ => true,
    }
}

fn children_of_let(node: &Arc<RholangNode>, q: Position, path: &mut Vec<Arc<RholangNode>>, buf: &mut WalkBuffer) -> (ok: bool)
    requires
        **node is Let,
    ensures
        ok == fits_children(*node, buffer_state(*old(buf)), q, old(path)@),
        ok ==> buffer_state(*final(buf)) == walk_children(*node, buffer_state(*old(buf)), q, old(path)@),
        final(path)@ == old(path)@,
        ordered_entries(old(buf).entries@) ==> ordered_entries(final(buf).entries@),
    decreases *node, 0nat,
{
    proof { reveal(walk_children); reveal(fits_children); }
    match &**node {
        RholangNode::Let { decls, proc, .. } => {
            proof { assert(decreases_to!(**node => (**node)->Let_decls)); assert(decreases_to!(**node => (**node)->Let_proc)); }
            if !walk_seq_into(decls, q, path, buf) {
                return false;
            }
            walk_into(proc, q, path, buf)
        },
        _ => true,
    }
}

fn children_of_bundle(node: &Arc<RholangNode>, q: Position, path: &mut Vec<Arc<RholangNode>>, buf: &mut WalkBuffer) -> (ok: bool)
    requires
        **node is Bundle,
    ensures
        ok == fits_children(*node, buffer_state(*old(buf)), q, old(path)@),
        ok ==> buffer_state(*final(buf)) == walk_children(*node, buffer_state(*old(buf)), q, old(path)@),
        final(path)@ == old(path)@,
        ordered_entries(old(buf).entries@) ==> ordered_entries(final(buf).entries@),
    decreases *node, 0nat,
{
    proof { reveal(walk_children); reveal(fits_children); }
    match &**node {
        RholangNode::Bundle { proc, .. } => {
            proof { assert(decreases_to!(**node => (**node)->Bundle_proc)); }
            walk_into(proc, q, path, buf)
        },
        _ => true,
    }
}

fn children_of_match(node: &Arc<RholangNode>, q: Position, path: &mut Vec<Arc<RholangNode>>, buf: &mut WalkBuffer) -> (ok: bool)
    requires
        **node is Match,
    ensures
        ok == fits_children(*node, buffer_state(*old(buf)), q, old(path)@),
        ok ==> buffer_state(*final(buf)) == walk_children(*node, buffer_state(*old(buf)), q, old(path)@),
        final(path)@ == old(path)@,
        ordered_entries(old(buf).entries@) ==> ordered_entries(final(buf).entries@),
    decreases *node, 0nat,
{
    proof { reveal(walk_children); reveal(fits_children); }
    match &**node {
        RholangNode::Match { expression, cases, .. } => {
            proof { assert(decreases_to!(**node => (**node)->Match_expression)); assert(decreases_to!(**node => (**node)->Match_cases)); }
            if !walk_into(expression, q, path, buf) {
                return false;
            }
            walk_pairs_into(cases, q, path, buf)
        },
        _ => true,
    }
}

fn children_of_choice(node: &Arc<RholangNode>, q: Position, path: &mut Vec<Arc<RholangNode>>, buf: &mut WalkBuffer) -> (ok: bool)
    requires
        **node is Choice,
    ensures
        ok == fits_children(*node, buffer_state(*old(buf)), q, old(path)@),
        ok ==> buffer_state(*final(buf)) == walk_children(*node, buffer_state(*old(buf)), q, old(path)@),
        final(path)@ == old(path)@,
        ordered_entries(old(buf).entries@) ==> ordered_entries(final(buf).entries@),
    decreases *node, 0nat,
{
    proof { reveal(walk_children); reveal(fits_children); }
    match &**node {
        RholangNode::Choice { branches, .. } => {
            proof { assert(decreases_to!(**node => (**node)->Choice_branches)); }
            walk_branches_into(branches, q, path, buf)
        },
        _ => true,
    }
}

fn children_of_contract(node: &Arc<RholangNode>, q: Position, path: &mut Vec<Arc<RholangNode>>, buf: &mut WalkBuffer) -> (ok: bool)
    requires
        **node is Contract,
    ensures
        ok == fits_children(*node, buffer_state(*old(buf)), q, old(path)@),
        ok ==> buffer_state(*final(buf)) == walk_children(*node, buffer_state(*old(buf)), q, old(path)@),
        final(path)@ == old(path)@,
        ordered_entries(old(buf).entries@) ==> ordered_entries(final(buf).entries@),
    decreases *node, 0nat,
{
    proof { reveal(walk_children); reveal(fits_children); }
    match &**node {
        RholangNode::Contract { name, formals, formals_remainder, proc, .. } => {
            proof { assert(decreases_to!(**node => (**node)->Contract_name)); assert(decreases_to!(**node => (**node)->Contract_formals)); assert(decreases_to!(**node => (**node)->Contract_formals_remainder)); assert(decreases_to!(**node => (**node)->Contract_proc)); }
            if !walk_into(name, q, path, buf) {
                return false;
            }
            if !walk_seq_into(formals, q, path, buf) {
                return false;
            }
            if !walk_opt_into(formals_remainder, q, path, buf) {
                return false;
            }
            walk_into(proc, q, path, buf)
        },
        _ => true,
    }
}

fn children_of_input(node: &Arc<RholangNode>, q: Position, path: &mut Vec<Arc<RholangNode>>, buf: &mut WalkBuffer) -> (ok: bool)
    requires
        **node is Input,
    ensures
        ok == fits_children(*node, buffer_state(*old(buf)), q, old(path)@),
        ok ==> buffer_state(*final(buf)) == walk_children(*node, buffer_state(*old(buf)), q, old(path)@),
        final(path)@ == old(path)@,
        ordered_entries(old(buf).entries@) ==> ordered_entries(final(buf).entries@),
    decreases *node, 0nat,
{
    proof { reveal(walk_children); reveal(fits_children); }
    match &**node {
        RholangNode::Input { receipts, proc, .. } => {
            proof { assert(decreases_to!(**node => (**node)->Input_receipts)); assert(decreases_to!(**node => (**node)->Input_proc)); }
            if !walk_receipts_into(receipts, q, path, buf) {
                return false;
            }
            walk_into(proc, q, path, buf)
        },
        _ => true,
    }
}

fn children_of_block(node: &Arc<RholangNode>, q: Position, path: &mut Vec<Arc<RholangNode>>, buf: &mut WalkBuffer) -> (ok: bool)
    requires
        **node is Block,
    ensures
        ok == fits_children(*node, buffer_state(*old(buf)), q, old(path)@),
        ok ==> buffer_state(*final(buf)) == walk_children(*node, buffer_state(*old(buf)), q, old(path)@),
        final(path)@ == old(path)@,
        ordered_entries(old(buf).entries@) ==> ordered_entries(final(buf).entries@),
    decreases *node, 0nat,
{
    proof { reveal(walk_children); reveal(fits_children); }
    match &**node {
        RholangNode::Block { proc, .. } => {
            proof { assert(decreases_to!(**node => (**node)->Block_proc)); }
            walk_into(proc, q, path, buf)
        },
        _ => true,
    }
}

fn children_of_parenthesized(node: &Arc<RholangNode>, q: Position, path: &mut Vec<Arc<RholangNode>>, buf: &mut WalkBuffer) -> (ok: bool)
    requires
        **node is Parenthesized,
    ensures
        ok == fits_children(*node, buffer_state(*old(buf)), q, old(path)@),
        ok ==> buffer_state(*final(buf)) == walk_children(*node, buffer_state(*old(buf)), q, old(path)@),
        final(path)@ == old(path)@,
        ordered_entries(old(buf).entries@) ==> ordered_entries(final(buf).entries@),
    decreases *node, 0nat,
{
    proof { reveal(walk_children); reveal(fits_children); }
    match &**node {
        RholangNode::Parenthesized { expr, .. } => {
            proof { assert(decreases_to!(**node => (**node)->Parenthesized_expr)); }
            walk_into(expr, q, path, buf)
        },
        _ => true,
    }
}

fn children_of_bin_op(node: &Arc<RholangNode>, q: Position, path: &mut Vec<Arc<RholangNode>>, buf: &mut WalkBuffer) -> (ok: bool)
    requires
        **node is BinOp,
    ensures
        ok == fits_children(*node, buffer_state(*old(buf)), q, old(path)@),
        ok ==> buffer_state(*final(buf)) == walk_children(*node, buffer_state(*old(buf)), q, old(path)@),
        final(path)@ == old(path)@,
        ordered_entries(old(buf).entries@) ==> ordered_entries(final(buf).entries@),
    decreases *node, 0nat,
{
    proof { reveal(walk_children); reveal(fits_children); }
    match &**node {
        RholangNode::BinOp { left, right, .. } => {
            proof { assert(decreases_to!(**node => (**node)->BinOp_left)); assert(decreases_to!(**node => (**node)->BinOp_right)); }
            if !walk_into(left, q, path, buf) {
                return false;
            }
            walk_into(right, q, path, buf)
        },
        _ => true,
    }
}

fn children_of_unary_op(node: &Arc<RholangNode>, q: Position, path: &mut Vec<Arc<RholangNode>>, buf: &mut WalkBuffer) -> (ok: bool)
    requires
        **node is UnaryOp,
    ensures
        ok == fits_children(*node, buffer_state(*old(buf)), q, old(path)@),
        ok ==> buffer_state(*final(buf)) == walk_children(*node, buffer_state(*old(buf)), q, old(path)@),
        final(path)@ == old(path)@,
        ordered_entries(old(buf).entries@) ==> ordered_entries(final(buf).entries@),
    decreases *node, 0nat,
{
    proof { reveal(walk_children); reveal(fits_children); }
    match &**node {
        RholangNode::UnaryOp { operand, .. } => {
            proof { assert(decreases_to!(**node => (**node)->UnaryOp_operand)); }
            walk_into(operand, q, path, buf)
        },
        _ => true,
    }
}

fn children_of_method(node: &Arc<RholangNode>, q: Position, path: &mut Vec<Arc<RholangNode>>, buf: &mut WalkBuffer) -> (ok: bool)
    requires
        **node is Method,
    ensures
        ok == fits_children(*node, buffer_state(*old(buf)), q, old(path)@),
        ok ==> buffer_state(*final(buf)) == walk_children(*node, buffer_state(*old(buf)), q, old(path)@),
        final(path)@ == old(path)@,
        ordered_entries(old(buf).entries@) ==> ordered_entries(final(buf).entries@),
    decreases *node, 0nat,
{
    proof { reveal(walk_children); reveal(fits_children); }
    match &**node {
        RholangNode::Method { receiver, args, .. } => {
            proof { assert(decreases_to!(**node => (**node)->Method_receiver)); assert(decreases_to!(**node => (**node)->Method_args)); }
            if !walk_into(receiver, q, path, buf) {
                return false;
            }
            walk_seq_into(args, q, path, buf)
        },
        _ => true,
    }
}

fn children_of_eval(node: &Arc<RholangNode>, q: Position, path: &mut Vec<Arc<RholangNode>>, buf: &mut WalkBuffer) -> (ok: bool)
    requires
        **node is Eval,
    ensures
        ok == fits_children(*node, buffer_state(*old(buf)), q, old(path)@),
        ok ==> buffer_state(*final(buf)) == walk_children(*node, buffer_state(*old(buf)), q, old(path)@),
        final(path)@ == old(path)@,
        ordered_entries(old(buf).entries@) ==> ordered_entries(final(buf).entries@),
    decreases *node, 0nat,
{
    proof { reveal(walk_children); reveal(fits_children); }
    match &**node {
        RholangNode::Eval { name, .. } => {
            proof { assert(decreases_to!(**node => (**node)->Eval_name)); }
            walk_into(name, q, path, buf)
        },
        _ => true,
    }
}

fn children_of_var_ref(node: &Arc<RholangNode>, q: Position, path: &mut Vec<Arc<RholangNode>>, buf: &mut WalkBuffer) -> (ok: bool)
    requires
        **node is VarRef,
    ensures
        ok == fits_children(*node, buffer_state(*old(buf)), q, old(path)@),
        ok ==> buffer_state(*final(buf)) == walk_children(*node, buffer_state(*old(buf)), q, old(path)@),
        final(path)@ == old(path)@,
        ordered_entries(old(buf).entries@) ==> ordered_entries(final(buf).entries@),
    decreases *node, 0nat,
{
    proof { reveal(walk_children); reveal(fits_children); }
    match &**node {
        RholangNode::VarRef { var, .. } => {
            proof { assert(decreases_to!(**node => (**node)->VarRef_var)); }
            walk_into(var, q, path, buf)
        },
        _ => true,
    }
}

fn children_of_list(node: &Arc<RholangNode>, q: Position, path: &mut Vec<Arc<RholangNode>>, buf: &mut WalkBuffer) -> (ok: bool)
    requires
        **node is List,
    ensures
        ok == fits_children(*node, buffer_state(*old(buf)), q, old(path)@),
        ok ==> buffer_state(*final(buf)) == walk_children(*node, buffer_state(*old(buf)), q, old(path)@),
        final(path)@ == old(path)@,
        ordered_entries(old(buf).entries@) ==> ordered_entries(final(buf).entries@),
    decreases *node, 0nat,
{
    proof { reveal(walk_children); reveal(fits_children); }
    match &**node {
        RholangNode::List { elements, remainder, .. } => {
            proof { assert(decreases_to!(**node => (**node)->List_elements)); assert(decreases_to!(**node => (**node)->List_remainder)); }
            if !walk_seq_into(elements, q, path, buf) {
                return false;
            }
            walk_opt_into(remainder, q, path, buf)
        },
        _ => true,
    }
}

fn children_of_set_expr(node: &Arc<RholangNode>, q: Position, path: &mut Vec<Arc<RholangNode>>, buf: &mut WalkBuffer) -> (ok: bool)
    requires
        **node is SetExpr,
    ensures
        ok == fits_children(*node, buffer_state(*old(buf)), q, old(path)@),
        ok ==> buffer_state(*final(buf)) == walk_children(*node, buffer_state(*old(buf)), q, old(path)@),
        final(path)@ == old(path)@,
        ordered_entries(old(buf).entries@) ==> ordered_entries(final(buf).entries@),
    decreases *node, 0nat,
{
    proof { reveal(walk_children); reveal(fits_children); }
    match &**node {
        RholangNode::SetExpr { elements, remainder, .. } => {
            proof { assert(decreases_to!(**node => (**node)->SetExpr_elements)); assert(decreases_to!(**node => (**node)->SetExpr_remainder)); }
            if !walk_seq_into(elements, q, path, buf) {
                return false;
            }
            walk_opt_into(remainder, q, path, buf)
        },
        _ => true,
    }
}

fn children_of_map_expr(node: &Arc<RholangNode>, q: Position, path: &mut Vec<Arc<RholangNode>>, buf: &mut WalkBuffer) -> (ok: bool)
    requires
        **node is MapExpr,
    ensures
        ok == fits_children(*node, buffer_state(*old(buf)), q, old(path)@),
        ok ==> buffer_state(*final(buf)) == walk_children(*node, buffer_state(*old(buf)), q, old(path)@),
        final(path)@ == old(path)@,
        ordered_entries(old(buf).entries@) ==> ordered_entries(final(buf).entries@),
    decreases *node, 0nat,
{
    proof { reveal(walk_children); reveal(fits_children); }
    match &**node {
        RholangNode::MapExpr { pairs, remainder, .. } => {
            proof { assert(decreases_to!(**node => (**node)->MapExpr_pairs)); assert(decreases_to!(**node => (**node)->MapExpr_remainder)); }
            if !walk_pairs_into(pairs, q, path, buf) {
                return false;
            }
            walk_opt_into(remainder, q, path, buf)
        },
        _ => true,
    }
}

fn children_of_tuple(node: &Arc<RholangNode>, q: Position, path: &mut Vec<Arc<RholangNode>>, buf: &mut WalkBuffer) -> (ok: bool)
    requires
        **node is Tuple,
    ensures
        ok == fits_children(*node, buffer_state(*old(buf)), q, old(path)@),
        ok ==> buffer_state(*final(buf)) == walk_children(*node, buffer_state(*old(buf)), q, old(path)@),
        final(path)@ == old(path)@,
        ordered_entries(old(buf).entries@) ==> ordered_entries(final(buf).entries@),
    decreases *node, 0nat,
{
    proof { reveal(walk_children); reveal(fits_children); }
    match &**node {
        RholangNode::Tuple { elements, .. } => {
            proof { assert(decreases_to!(**node => (**node)->Tuple_elements)); }
            walk_seq_into(elements, q, path, buf)
        },
        _ => true,
    }
}

fn children_of_name_decl(node: &Arc<RholangNode>, q: Position, path: &mut Vec<Arc<RholangNode>>, buf: &mut WalkBuffer) -> (ok: bool)
    requires
        **node is NameDecl,
    ensures
        ok == fits_children(*node, buffer_state(*old(buf)), q, old(path)@),
        ok ==> buffer_state(*final(buf)) == walk_children(*node, buffer_state(*old(buf)), q, old(path)@),
        final(path)@ == old(path)@,
        ordered_entries(old(buf).entries@) ==> ordered_entries(final(buf).entries@),
    decreases *node, 0nat,
{
    proof { reveal(walk_children); reveal(fits_children); }
    match &**node {
        RholangNode::NameDecl { var, uri, .. } => {
            proof { assert(decreases_to!(**node => (**node)->NameDecl_var)); assert(decreases_to!(**node => (**node)->NameDecl_uri)); }
            if !walk_into(var, q, path, buf) {
                return false;
            }
            walk_opt_into(uri, q, path, buf)
        },
        _ => true,
    }
}

fn children_of_decl(node: &Arc<RholangNode>, q: Position, path: &mut Vec<Arc<RholangNode>>, buf: &mut WalkBuffer) -> (ok: bool)
    requires
        **node is Decl,
    ensures
        ok == fits_children(*node, buffer_state(*old(buf)), q, old(path)@),
        ok ==> buffer_state(*final(buf)) == walk_children(*node, buffer_state(*old(buf)), q, old(path)@),
        final(path)@ == old(path)@,
        ordered_entries(old(buf).entries@) ==> ordered_entries(final(buf).entries@),
    decreases *node, 0nat,
{
    proof { reveal(walk_children); reveal(fits_children); }
    match &**node {
        RholangNode::Decl { names, names_remainder, procs, .. } => {
            proof { assert(decreases_to!(**node => (**node)->Decl_names)); assert(decreases_to!(**node => (**node)->Decl_names_remainder)); assert(decreases_to!(**node => (**node)->Decl_procs)); }
            if !walk_seq_into(names, q, path, buf) {
                return false;
            }
            if !walk_opt_into(names_remainder, q, path, buf) {
                return false;
            }
            walk_seq_into(procs, q, path, buf)
        },
        _ => true,
    }
}

fn children_of_linear_bind(node: &Arc<RholangNode>, q: Position, path: &mut Vec<Arc<RholangNode>>, buf: &mut WalkBuffer) -> (ok: bool)
    requires
        **node is LinearBind,
    ensures
        ok == fits_children(*node, buffer_state(*old(buf)), q, old(path)@),
        ok ==> buffer_state(*final(buf)) == walk_children(*node, buffer_state(*old(buf)), q, old(path)@),
        final(path)@ == old(path)@,
        ordered_entries(old(buf).entries@) ==> ordered_entries(final(buf).entries@),
    decreases *node, 0nat,
{
    proof { reveal(walk_children); reveal(fits_children); }
    match &**node {
        RholangNode::LinearBind { names, remainder, source, .. } => {
            proof { assert(decreases_to!(**node => (**node)->LinearBind_names)); assert(decreases_to!(**node => (**node)->LinearBind_remainder)); assert(decreases_to!(**node => (**node)->LinearBind_source)); }
            if !walk_seq_into(names, q, path, buf) {
                return false;
            }
            if !walk_opt_into(remainder, q, path, buf) {
                return false;
            }
            walk_into(source, q, path, buf)
        },
        _ => true,
    }
}

fn children_of_repeated_bind(node: &Arc<RholangNode>, q: Position, path: &mut Vec<Arc<RholangNode>>, buf: &mut WalkBuffer) -> (ok: bool)
    requires
        **node is RepeatedBind,
    ensures
        ok == fits_children(*node, buffer_state(*old(buf)), q, old(path)@),
        ok ==> buffer_state(*final(buf)) == walk_children(*node, buffer_state(*old(buf)), q, old(path)@),
        final(path)@ == old(path)@,
        ordered_entries(old(buf).entries@) ==> ordered_entries(final(buf).entries@),
    decreases *node, 0nat,
{
    proof { reveal(walk_children); reveal(fits_children); }
    match &**node {
        RholangNode::RepeatedBind { names, remainder, source, .. } => {
            proof { assert(decreases_to!(**node => (**node)->RepeatedBind_names)); assert(decreases_to!(**node => (**node)->RepeatedBind_remainder)); assert(decreases_to!(**node => (**node)->RepeatedBind_source)); }
            if !walk_seq_into(names, q, path, buf) {
                return false;
            }
            if !walk_opt_into(remainder, q, path, buf) {
                return false;
            }
            walk_into(source, q, path, buf)
        },
        _ => true,
    }
}

fn children_of_peek_bind(node: &Arc<RholangNode>, q: Position, path: &mut Vec<Arc<RholangNode>>, buf: &mut WalkBuffer) -> (ok: bool)
    requires
        **node is PeekBind,
    ensures
        ok == fits_children(*node, buffer_state(*old(buf)), q, old(path)@),
        ok ==> buffer_state(*final(buf)) == walk_children(*node, buffer_state(*old(buf)), q, old(path)@),
        final(path)@ == old(path)@,
        ordered_entries(old(buf).entries@) ==> ordered_entries(final(buf).entries@),
    decreases *node, 0nat,
{
    proof { reveal(walk_children); reveal(fits_children); }
    match &**node {
        RholangNode::PeekBind { names, remainder, source, .. } => {
            proof { assert(decreases_to!(**node => (**node)->PeekBind_names)); assert(decreases_to!(**node => (**node)->PeekBind_remainder)); assert(decreases_to!(**node => (**node)->PeekBind_source)); }
            if !walk_seq_into(names, q, path, buf) {
                return false;
            }
            if !walk_opt_into(remainder, q, path, buf) {
                return false;
            }
            walk_into(source, q, path, buf)
        },
        _ => true,
    }
}

fn children_of_receive_send_source(node: &Arc<RholangNode>, q: Position, path: &mut Vec<Arc<RholangNode>>, buf: &mut WalkBuffer) -> (ok: bool)
    requires
        **node is ReceiveSendSource,
    ensures
        ok == fits_children(*node, buffer_state(*old(buf)), q, old(path)@),
        ok ==> buffer_state(*final(buf)) == walk_children(*node, buffer_state(*old(buf)), q, old(path)@),
        final(path)@ == old(path)@,
        ordered_entries(old(buf).entries@) ==> ordered_entries(final(buf).entries@),
    decreases *node, 0nat,
{
    proof { reveal(walk_children); reveal(fits_children); }
    match &**node {
        RholangNode::ReceiveSendSource { name, .. } => {
            proof { assert(decreases_to!(**node => (**node)->ReceiveSendSource_name)); }
            walk_into(name, q, path, buf)
        },
        _ => true,
    }
}

fn children_of_send_receive_source(node: &Arc<RholangNode>, q: Position, path: &mut Vec<Arc<RholangNode>>, buf: &mut WalkBuffer) -> (ok: bool)
    requires
        **node is SendReceiveSource,
    ensures
        ok == fits_children(*node, buffer_state(*old(buf)), q, old(path)@),
        ok ==> buffer_state(*final(buf)) == walk_children(*node, buffer_state(*old(buf)), q, old(path)@),
        final(path)@ == old(path)@,
        ordered_entries(old(buf).entries@) ==> ordered_entries(final(buf).entries@),
    decreases *node, 0nat,
{
    proof { reveal(walk_children); reveal(fits_children); }
    match &**node {
        RholangNode::SendReceiveSource { name, inputs, .. } => {
            proof { assert(decreases_to!(**node => (**node)->SendReceiveSource_name)); assert(decreases_to!(**node => (**node)->SendReceiveSource_inputs)); }
            if !walk_into(name, q, path, buf) {
                return false;
            }
            walk_seq_into(inputs, q, path, buf)
        },
        _ => true,
    }
}

fn children_of_error(node: &Arc<RholangNode>, q: Position, path: &mut Vec<Arc<RholangNode>>, buf: &mut WalkBuffer) -> (ok: bool)
    requires
        **node is Error,
    ensures
        ok == fits_children(*node, buffer_state(*old(buf)), q, old(path)@),
        ok ==> buffer_state(*final(buf)) == walk_children(*node, buffer_state(*old(buf)), q, old(path)@),
        final(path)@ == old(path)@,
        ordered_entries(old(buf).entries@) ==> ordered_entries(final(buf).entries@),
    decreases *node, 0nat,
{
    proof { reveal(walk_children); reveal(fits_children); }
    match &**node {
        RholangNode::Error { children, .. } => {
            proof { assert(decreases_to!(**node => (**node)->Error_children)); }
            walk_seq_into(children, q, path, buf)
        },
        _ => true,
    }
}

fn children_of_disjunction(node: &Arc<RholangNode>, q: Position, path: &mut Vec<Arc<RholangNode>>, buf: &mut WalkBuffer) -> (ok: bool)
    requires
        **node is Disjunction,
    ensures
        ok == fits_children(*node, buffer_state(*old(buf)), q, old(path)@),
        ok ==> buffer_state(*final(buf)) == walk_children(*node, buffer_state(*old(buf)), q, old(path)@),
        final(path)@ == old(path)@,
        ordered_entries(old(buf).entries@) ==> ordered_entries(final(buf).entries@),
    decreases *node, 0nat,
{
    proof { reveal(walk_children); reveal(fits_children); }
    match &**node {
        RholangNode::Disjunction { left, right, .. } => {
            proof { assert(decreases_to!(**node => (**node)->Disjunction_left)); assert(decreases_to!(**node => (**node)->Disjunction_right)); }
            if !walk_into(left, q, path, buf) {
                return false;
            }
            walk_into(right, q, path, buf)
        },
        _ => true,
    }
}

fn children_of_conjunction(node: &Arc<RholangNode>, q: Position, path: &mut Vec<Arc<RholangNode>>, buf: &mut WalkBuffer) -> (ok: bool)
    requires
        **node is Conjunction,
    ensures
        ok == fits_children(*node, buffer_state(*old(buf)), q, old(path)@),
        ok ==> buffer_state(*final(buf)) == walk_children(*node, buffer_state(*old(buf)), q, old(path)@),
        final(path)@ == old(path)@,
        ordered_entries(old(buf).entries@) ==> ordered_entries(final(buf).entries@),
    decreases *node, 0nat,
{
    proof { reveal(walk_children); reveal(fits_children); }
    match &**node {
        RholangNode::Conjunction { left, right, .. } => {
            proof { assert(decreases_to!(**node => (**node)->Conjunction_left)); assert(decreases_to!(**node => (**node)->Conjunction_right)); }
            if !walk_into(left, q, path, buf) {
                return false;
            }
            walk_into(right, q, path, buf)
        },
        _ => true,
    }
}

fn children_of_negation(node: &Arc<RholangNode>, q: Position, path: &mut Vec<Arc<RholangNode>>, buf: &mut WalkBuffer) -> (ok: bool)
    requires
        **node is Negation,
    ensures
        ok == fits_children(*node, buffer_state(*old(buf)), q, old(path)@),
        ok ==> buffer_state(*final(buf)) == walk_children(*node, buffer_state(*old(buf)), q, old(path)@),
        final(path)@ == old(path)@,
        ordered_entries(old(buf).entries@) ==> ordered_entries(final(buf).entries@),
    decreases *node, 0nat,
{
    proof { reveal(walk_children); reveal(fits_children); }
    match &**node {
        RholangNode::Negation { operand, .. } => {
            proof { assert(decreases_to!(**node => (**node)->Negation_operand)); }
            walk_into(operand, q, path, buf)
        },
        _ => true,
    }
}

fn walk_opt_into(o: &Option<Arc<RholangNode>>, q: Position, path: &mut Vec<Arc<RholangNode>>, buf: &mut WalkBuffer) -> (ok: bool)
    ensures
        ok == fits_opt(*o, buffer_state(*old(buf)), q, old(path)@),
        ok ==> buffer_state(*final(buf)) == walk_opt(*o, buffer_state(*old(buf)), q, old(path)@),
        final(path)@ == old(path)@,
        ordered_entries(old(buf).entries@) ==> ordered_entries(final(buf).entries@),
    decreases *o, 3nat,
{
    match o {
        Some(a) => walk_into(a, q, path, buf),
        None => true,
    }
}

fn walk_seq_into(v: &Vec<Arc<RholangNode>>, q: Position, path: &mut Vec<Arc<RholangNode>>, buf: &mut WalkBuffer) -> (ok: bool)
    ensures
        ok == fits_seq(v@, buffer_state(*old(buf)), q, old(path)@),
        ok ==> buffer_state(*final(buf)) == walk_seq(v@, buffer_state(*old(buf)), q, old(path)@),
        final(path)@ == old(path)@,
        ordered_entries(old(buf).entries@) ==> ordered_entries(final(buf).entries@),
    decreases *v, 3nat,
{
    let ghost st0 = buffer_state(*buf);
    let ghost p0 = path@;
    let mut i: usize = 0;
    assert(v@.take(0) =~= Seq::<Arc<RholangNode>>::empty());
    while i < v.len()
        invariant
            i <= v@.len(),
            path@ == p0,
            p0 == old(path)@,
            st0 == buffer_state(*old(buf)),
            ordered_entries(st0.entries) ==> ordered_entries(buf.entries@),
            buffer_state(*buf) == walk_seq(v@.take(i as int), st0, q, p0),
            fits_seq(v@.take(i as int), st0, q, p0),
        decreases v@.len() - i,
    {
        assert(v@.take(i as int + 1).drop_last() =~= v@.take(i as int));
        proof {
            assert(decreases_to!(*v => v@[i as int]));
        }
        if !walk_into(&v[i], q, path, buf) {
            proof {
                if fits_seq(v@, st0, q, p0) {
                    lemma_fits_seq_prefix(v@, st0, q, p0, i as int + 1);
                }
            }
            return false;
        }
        i += 1;
    }
    assert(v@.take(v@.len() as int) =~= v@);
    true
}

fn walk_pairs_into(v: &Vec<(Arc<RholangNode>, Arc<RholangNode>)>, q: Position, path: &mut Vec<Arc<RholangNode>>, buf: &mut WalkBuffer) -> (ok: bool)
    ensures
        ok == fits_pairs(v@, buffer_state(*old(buf)), q, old(path)@),
        ok ==> buffer_state(*final(buf)) == walk_pairs(v@, buffer_state(*old(buf)), q, old(path)@),
        final(path)@ == old(path)@,
        ordered_entries(old(buf).entries@) ==> ordered_entries(final(buf).entries@),
    decreases *v, 3nat,
{
    let ghost st0 = buffer_state(*buf);
    let ghost p0 = path@;
    let mut i: usize = 0;
    assert(v@.take(0) =~= Seq::<(Arc<RholangNode>, Arc<RholangNode>)>::empty());
    while i < v.len()
        invariant
            i <= v@.len(),
            path@ == p0,
            p0 == old(path)@,
            st0 == buffer_state(*old(buf)),
            ordered_entries(st0.entries) ==> ordered_entries(buf.entries@),
            buffer_state(*buf) == walk_pairs(v@.take(i as int), st0, q, p0),
            fits_pairs(v@.take(i as int), st0, q, p0),
        decreases v@.len() - i,
    {
        assert(v@.take(i as int + 1).drop_last() =~= v@.take(i as int));
        proof {
            assert(decreases_to!(*v => v@[i as int]));
            assert(decreases_to!(v@[i as int] => v@[i as int].0));
            assert(decreases_to!(v@[i as int] => v@[i as int].1));
        }
        if !walk_into(&v[i].0, q, path, buf) {
            proof {
                if fits_pairs(v@, st0, q, p0) {
                    lemma_fits_pairs_prefix(v@, st0, q, p0, i as int + 1);
                }
            }
            return false;
        }
        if !walk_into(&v[i].1, q, path, buf) {
            proof {
                if fits_pairs(v@, st0, q, p0) {
                    lemma_fits_pairs_prefix(v@, st0, q, p0, i as int + 1);
                }
            }
            return false;
        }
        i += 1;
    }
    assert(v@.take(v@.len() as int) =~= v@);
    true
}

fn walk_branches_into(v: &Vec<(Vec<Arc<RholangNode>>, Arc<RholangNode>)>, q: Position, path: &mut Vec<Arc<RholangNode>>, buf: &mut WalkBuffer) -> (ok: bool)
    ensures
        ok == fits_branches(v@, buffer_state(*old(buf)), q, old(path)@),
        ok ==> buffer_state(*final(buf)) == walk_branches(v@, buffer_state(*old(buf)), q, old(path)@),
        final(path)@ == old(path)@,
        ordered_entries(old(buf).entries@) ==> ordered_entries(final(buf).entries@),
    decreases *v, 3nat,
{
    let ghost st0 = buffer_state(*buf);
    let ghost p0 = path@;
    let mut i: usize = 0;
    assert(v@.take(0) =~= Seq::<(Vec<Arc<RholangNode>>, Arc<RholangNode>)>::empty());
    while i < v.len()
        invariant
            i <= v@.len(),
            path@ == p0,
            p0 == old(path)@,
            st0 == buffer_state(*old(buf)),
            ordered_entries(st0.entries) ==> ordered_entries(buf.entries@),
            buffer_state(*buf) == walk_branches(v@.take(i as int), st0, q, p0),
            fits_branches(v@.take(i as int), st0, q, p0),
        decreases v@.len() - i,
    {
        assert(v@.take(i as int + 1).drop_last() =~= v@.take(i as int));
        proof {
            assert(decreases_to!(*v => v@[i as int]));
            assert(decreases_to!(v@[i as int] => v@[i as int].0));
            assert(decreases_to!(v@[i as int] => v@[i as int].1));
        }
        if !walk_seq_into(&v[i].0, q, path, buf) {
            proof {
                if fits_branches(v@, st0, q, p0) {
                    lemma_fits_branches_prefix(v@, st0, q, p0, i as int + 1);
                }
            }
            return false;
        }
        if !walk_into(&v[i].1, q, path, buf) {
            proof {
                if fits_branches(v@, st0, q, p0) {
                    lemma_fits_branches_prefix(v@, st0, q, p0, i as int + 1);
                }
            }
            return false;
        }
        i += 1;
    }
    assert(v@.take(v@.len() as int) =~= v@);
    true
}

fn walk_receipts_into(v: &Vec<Vec<Arc<RholangNode>>>, q: Position, path: &mut Vec<Arc<RholangNode>>, buf: &mut WalkBuffer) -> (ok: bool)
    ensures
        ok == fits_receipts(v@, buffer_state(*old(buf)), q, old(path)@),
        ok ==> buffer_state(*final(buf)) == walk_receipts(v@, buffer_state(*old(buf)), q, old(path)@),
        final(path)@ == old(path)@,
        ordered_entries(old(buf).entries@) ==> ordered_entries(final(buf).entries@),
    decreases *v, 3nat,
{
    let ghost st0 = buffer_state(*buf);
    let ghost p0 = path@;
    let mut i: usize = 0;
    assert(v@.take(0) =~= Seq::<Vec<Arc<RholangNode>>>::empty());
    while i < v.len()
        invariant
            i <= v@.len(),
            path@ == p0,
            p0 == old(path)@,
            st0 == buffer_state(*old(buf)),
            ordered_entries(st0.entries) ==> ordered_entries(buf.entries@),
            buffer_state(*buf) == walk_receipts(v@.take(i as int), st0, q, p0),
            fits_receipts(v@.take(i as int), st0, q, p0),
        decreases v@.len() - i,
    {
        assert(v@.take(i as int + 1).drop_last() =~= v@.take(i as int));
        proof {
            assert(decreases_to!(*v => v@[i as int]));
        }
        if !walk_seq_into(&v[i], q, path, buf) {
            proof {
                if fits_receipts(v@, st0, q, p0) {
                    lemma_fits_receipts_prefix(v@, st0, q, p0, i as int + 1);
                }
            }
            return false;
        }
        i += 1;
    }
    assert(v@.take(v@.len() as int) =~= v@);
    true
}

/// Walking a sequence in range walks each prefix in range, the next element too.
proof fn lemma_fits_seq_prefix(s: Seq<Arc<RholangNode>>, st: WalkState, q: Position, path: Seq<Arc<RholangNode>>, k: int)
    requires
        fits_seq(s, st, q, path),
        0 <= k <= s.len(),
    ensures
        fits_seq(s.take(k), st, q, path),
    decreases s.len() - k,
{
    if k < s.len() {
        lemma_fits_seq_prefix(s, st, q, path, k + 1);
        assert(s.take(k + 1).drop_last() =~= s.take(k));
    } else {
        assert(s.take(k) =~= s);
    }
}

/// Walking a sequence in range walks each prefix in range, the next element too.
proof fn lemma_fits_pairs_prefix(s: Seq<(Arc<RholangNode>, Arc<RholangNode>)>, st: WalkState, q: Position, path: Seq<Arc<RholangNode>>, k: int)
    requires
        fits_pairs(s, st, q, path),
        0 <= k <= s.len(),
    ensures
        fits_pairs(s.take(k), st, q, path),
    decreases s.len() - k,
{
    if k < s.len() {
        lemma_fits_pairs_prefix(s, st, q, path, k + 1);
        assert(s.take(k + 1).drop_last() =~= s.take(k));
    } else {
        assert(s.take(k) =~= s);
    }
}

/// Walking a sequence in range walks each prefix in range, the next element too.
proof fn lemma_fits_branches_prefix(s: Seq<(Vec<Arc<RholangNode>>, Arc<RholangNode>)>, st: WalkState, q: Position, path: Seq<Arc<RholangNode>>, k: int)
    requires
        fits_branches(s, st, q, path),
        0 <= k <= s.len(),
    ensures
        fits_branches(s.take(k), st, q, path),
    decreases s.len() - k,
{
    if k < s.len() {
        lemma_fits_branches_prefix(s, st, q, path, k + 1);
        assert(s.take(k + 1).drop_last() =~= s.take(k));
    } else {
        assert(s.take(k) =~= s);
    }
}

/// Walking a sequence in range walks each prefix in range, the next element too.
proof fn lemma_fits_receipts_prefix(s: Seq<Vec<Arc<RholangNode>>>, st: WalkState, q: Position, path: Seq<Arc<RholangNode>>, k: int)
    requires
        fits_receipts(s, st, q, path),
        0 <= k <= s.len(),
    ensures
        fits_receipts(s.take(k), st, q, path),
    decreases s.len() - k,
{
    if k < s.len() {
        lemma_fits_receipts_prefix(s, st, q, path, k + 1);
        assert(s.take(k + 1).drop_last() =~= s.take(k));
    } else {
        assert(s.take(k) =~= s);
    }
}

/// The start of the walk: nothing recorded, nothing found, at the origin.
pub open spec fn initial_state() -> WalkState {
    WalkState { entries: Seq::empty(), best: None, end: Position { row: 0, column: 0, byte: 0 } }
}

/// The positions of every node of the tree `root`, children before their parent.
pub open spec fn positions_of(root: Arc<RholangNode>) -> Seq<PositionEntry> {
    walk(root, initial_state(), Position { row: 0, column: 0, byte: 0 }, Seq::empty()).entries
}

/// Whether computing the positions of the tree `root` stays in range.
pub open spec fn positions_fit(root: Arc<RholangNode>) -> bool {
    fits(root, initial_state(), Position { row: 0, column: 0, byte: 0 }, Seq::empty())
}

/// The deepest node whose span holds the byte of `position`, the first
/// such in document order, with the path from the root to it.
pub open spec fn node_at(root: Arc<RholangNode>, position: Position) -> Option<(Arc<RholangNode>, Seq<Arc<RholangNode>>)> {
    walk(root, initial_state(), position, Seq::empty()).best
}

/// Whether searching the tree `root` for `position` stays in range.
pub open spec fn search_fits(root: Arc<RholangNode>, position: Position) -> bool {
    fits(root, initial_state(), position, Seq::empty())
}

/// Walks `root` from the origin looking for `position`.
fn walk_tree(root: &Arc<RholangNode>, position: Position) -> (r: (bool, WalkBuffer))
    ensures
        r.0 == search_fits(*root, position),
        r.0 ==> buffer_state(r.1) == walk(*root, initial_state(), position, Seq::empty()),
        ordered_entries(r.1.entries@),
{
    let mut buf = WalkBuffer { entries: Vec::new(), best: None, end: Position { row: 0, column: 0, byte: 0 } };
    let mut path: Vec<Arc<RholangNode>> = Vec::new();
    assert(buffer_state(buf) =~= initial_state());
    assert(path@ =~= Seq::<Arc<RholangNode>>::empty());
    let ok = walk_into(root, position, &mut path, &mut buf);
    (ok, buf)
}

/// The absolute start and end of every node of the tree `root`, children
/// before their parent; each node starts where its relative position puts
/// it after the previous node (its previous sibling, or its parent's start
/// for a first child) and ends after its syntactic extent.
pub fn compute_absolute_positions(root: &Arc<RholangNode>) -> (r: Vec<PositionEntry>)
    requires
        positions_fit(*root),
    ensures
        r@ == positions_of(*root),
        ordered_entries(r@),
{
    let (_, buf) = walk_tree(root, Position { row: 0, column: 0, byte: 0 });
    buf.entries
}

/// The positions of every node of the tree `root` (see
/// `compute_absolute_positions`), or `None` when some position would leave
/// the range the computation works in.
pub fn try_compute_absolute_positions(root: &Arc<RholangNode>) -> (r: Option<Vec<PositionEntry>>)
    ensures
        match r {
            Some(v) => positions_fit(*root) && v@ == positions_of(*root) && ordered_entries(v@),
            None => !positions_fit(*root),
        },
{
    let (ok, buf) = walk_tree(root, Position { row: 0, column: 0, byte: 0 });
    if ok {
        Some(buf.entries)
    } else {
        None
    }
}

/// The deepest node whose span holds the byte of `position` (the first such
/// in document order), with the path from the root to it.
pub fn find_node_at_position_with_path(root: &Arc<RholangNode>, position: Position) -> (r: Option<(Arc<RholangNode>, Vec<Arc<RholangNode>>)>)
    requires
        search_fits(*root, position),
    ensures
        match r {
            Some((n, p)) => node_at(*root, position) == Some((n, p@)),
            None => node_at(*root, position) is None,
        },
{
    let (_, buf) = walk_tree(root, position);
    buf.best
}

/// The deepest node whose span holds the byte of `position` (the first such
/// in document order).
pub fn find_node_at_position(root: &Arc<RholangNode>, position: Position) -> (r: Option<Arc<RholangNode>>)
    requires
        search_fits(*root, position),
    ensures
        match r {
            Some(n) => node_at(*root, position) matches Some(b) && b.0 == n,
            None => node_at(*root, position) is None,
        },
{
    match find_node_at_position_with_path(root, position) {
        Some((n, _)) => Some(n),
        None => None,
    }
}

/// `find_node_at_position_with_path`, on any tree: `None` when the search
/// would leave the range the position arithmetic works in, otherwise
/// `Some` of the search's answer.
pub fn try_find_node_at_position_with_path(root: &Arc<RholangNode>, position: Position) -> (r: Option<Option<(Arc<RholangNode>, Vec<Arc<RholangNode>>)>>)
    ensures
        match r {
            None => !search_fits(*root, position),
            Some(found) => search_fits(*root, position) && match found {
                Some((n, p)) => node_at(*root, position) == Some((n, p@)),
                None => node_at(*root, position) is None,
            },
        },
{
    let (ok, buf) = walk_tree(root, position);
    if ok {
        Some(buf.best)
    } else {
        None
    }
}

/// `find_node_at_position`, on any tree: `None` when the search would leave
/// the range the position arithmetic works in, otherwise `Some` of the
/// search's answer.
pub fn try_find_node_at_position(root: &Arc<RholangNode>, position: Position) -> (r: Option<Option<Arc<RholangNode>>>)
    ensures
        match r {
            None => !search_fits(*root, position),
            Some(found) => search_fits(*root, position) && match found {
                Some(n) => node_at(*root, position) matches Some(b) && b.0 == n,
                None => node_at(*root, position) is None,
            },
        },
{
    match try_find_node_at_position_with_path(root, position) {
        None => None,
        Some(Some((n, _))) => Some(Some(n)),
        Some(None) => Some(None),
    }
}

/// Whether `c` is held by one of the pairs `s`.
pub open spec fn pairs_hold(s: Seq<(Arc<RholangNode>, Arc<RholangNode>)>, c: Arc<RholangNode>) -> bool {
    exists|i: int| #![trigger s[i]] 0 <= i < s.len() && (s[i].0 == c || s[i].1 == c)
}

/// Whether `c` is a bind or the body of one of the branches `s`.
pub open spec fn branches_hold(s: Seq<(Vec<Arc<RholangNode>>, Arc<RholangNode>)>, c: Arc<RholangNode>) -> bool {
    exists|i: int| #![trigger s[i]] 0 <= i < s.len() && (s[i].0@.contains(c) || s[i].1 == c)
}

/// Whether `c` is a bind of one of the receipts `s`.
pub open spec fn receipts_hold(s: Seq<Vec<Arc<RholangNode>>>, c: Arc<RholangNode>) -> bool {
    exists|i: int| #![trigger s[i]] 0 <= i < s.len() && s[i]@.contains(c)
}

/// Whether `c` is one of the nodes that `n` holds directly and that the
/// walk over positions enters.
pub open spec fn is_part(n: RholangNode, c: Arc<RholangNode>) -> bool {
    match n {
        RholangNode::Par { left, right, processes, .. } => left == Some(c) || right == Some(c) || (processes matches Some(p) && p@.contains(c)),
        RholangNode::Send { channel, inputs, .. } => channel == c || inputs@.contains(c),
        RholangNode::Quote { quotable, .. } => quotable == c,
        RholangNode::SendSync { channel, inputs, cont, .. } => channel == c || inputs@.contains(c) || cont == c,
        RholangNode::New { decls, proc, .. } => decls@.contains(c) || proc == c,
        RholangNode::IfElse { condition, consequence, alternative, .. } => condition == c || consequence == c || alternative == Some(c),
        RholangNode::Let { decls, proc, .. } => decls@.contains(c) || proc == c,
        RholangNode::Bundle { proc, .. } => proc == c,
        RholangNode::Match { expression, cases, .. } => expression == c || pairs_hold(cases@, c),
        RholangNode::Choice { branches, .. } => branches_hold(branches@, c),
        RholangNode::Contract { name, formals, formals_remainder, proc, .. } => name == c || formals@.contains(c) || formals_remainder == Some(c) || proc == c,
        RholangNode::Input { receipts, proc, .. } => receipts_hold(receipts@, c) || proc == c,
        RholangNode::Block { proc, .. } => proc == c,
        RholangNode::Parenthesized { expr, .. } => expr == c,
        RholangNode::BinOp { left, right, .. } => left == c || right == c,
        RholangNode::UnaryOp { operand, .. } => operand == c,
        RholangNode::Method { receiver, args, .. } => receiver == c || args@.contains(c),
        RholangNode::Eval { name, .. } => name == c,
        RholangNode::VarRef { var, .. } => var == c,
        RholangNode::List { elements, remainder, .. } => elements@.contains(c) || remainder == Some(c),
        RholangNode::SetExpr { elements, remainder, .. } => elements@.contains(c) || remainder == Some(c),
        RholangNode::MapExpr { pairs, remainder, .. } => pairs_hold(pairs@, c) || remainder == Some(c),
        RholangNode::Tuple { elements, .. } => elements@.contains(c),
        RholangNode::NameDecl { var, uri, .. } => var == c || uri == Some(c),
        RholangNode::Decl { names, names_remainder, procs, .. } => names@.contains(c) || names_remainder == Some(c) || procs@.contains(c),
        RholangNode::LinearBind { names, remainder, source, .. } => names@.contains(c) || remainder == Some(c) || source == c,
        RholangNode::RepeatedBind { names, remainder, source, .. } => names@.contains(c) || remainder == Some(c) || source == c,
        RholangNode::PeekBind { names, remainder, source, .. } => names@.contains(c) || remainder == Some(c) || source == c,
        RholangNode::ReceiveSendSource { name, .. } => name == c,
        RholangNode::SendReceiveSource { name, inputs, .. } => name == c || inputs@.contains(c),
        RholangNode::Error { children, .. } => children@.contains(c),
        RholangNode::Disjunction { left, right, .. } => left == c || right == c,
        RholangNode::Conjunction { left, right, .. } => left == c || right == c,
        RholangNode::Negation { operand, .. } => operand == c,
        _ => false,
    }
}

/// Whether a parallel composition is in one of its two forms: two sides and
/// no list of processes, or a list of processes and no sides. Other nodes
/// always are.
pub open spec fn par_form(n: RholangNode) -> bool {
    match n {
        RholangNode::Par { left, right, processes, .. } => (left is Some && right is Some && processes is None) || (
        left is None && right is None),
        _ => true,
    }
}

/// Whether `p` is a path down the tree `root`: it starts at the root and
/// each node after the first is held directly by the one before it.
pub open spec fn root_path(root: Arc<RholangNode>, p: Seq<Arc<RholangNode>>) -> bool {
    &&& p.len() >= 1
    &&& p[0] == root
    &&& forall|i: int| 1 <= i < p.len() ==> is_part(*p[i - 1], #[trigger] p[i])
}

/// Whether a found node comes with a path down `root` that ends at it.
pub open spec fn best_on_path(best: Option<(Arc<RholangNode>, Seq<Arc<RholangNode>>)>, root: Arc<RholangNode>) -> bool {
    match best {
        None => true,
        Some((n, p)) => root_path(root, p) && p.last() == n,
    }
}

/// Whether `path` leads to `a` from `root`: `a` is the root with an empty
/// path, or `a` is held directly by the last node of a path down `root`.
pub open spec fn leads_to(root: Arc<RholangNode>, path: Seq<Arc<RholangNode>>, a: Arc<RholangNode>) -> bool {
    ||| path.len() == 0 && a == root
    ||| root_path(root, path) && is_part(*path.last(), a)
}

proof fn lemma_walk_best(a: Arc<RholangNode>, st: WalkState, q: Position, path: Seq<Arc<RholangNode>>, root: Arc<RholangNode>)
    requires
        best_on_path(st.best, root),
        leads_to(root, path, a),
    ensures
        best_on_path(walk(a, st, q, path).best, root),
    decreases a, 1nat,
{
    let p2 = path.push(a);
    assert(root_path(root, p2)) by {
        assert forall|i: int| 1 <= i < p2.len() implies is_part(*p2[i - 1], #[trigger] p2[i]) by {
            if i < path.len() {
                assert(p2[i - 1] == path[i - 1]);
                assert(p2[i] == path[i]);
            } else {
                assert(p2[i - 1] == path.last());
            }
        }
    }
    let e = entered(a, st, q, path);
    assert(best_on_path(e.best, root));
    lemma_walk_children_best(a, e, q, p2, root);
    lemma_walk_unfold(a, st, q, path);
}

proof fn lemma_walk_seq_best(s: Seq<Arc<RholangNode>>, st: WalkState, q: Position, path: Seq<Arc<RholangNode>>, root: Arc<RholangNode>)
    requires
        best_on_path(st.best, root),
        root_path(root, path),
        forall|i: int| 0 <= i < s.len() ==> is_part(*path.last(), #[trigger] s[i]),
    ensures
        best_on_path(walk_seq(s, st, q, path).best, root),
    decreases s, 2nat,
{
    if s.len() > 0 {
        let init = s.drop_last();
        assert forall|i: int| 0 <= i < init.len() implies is_part(*path.last(), #[trigger] init[i]) by {
            assert(init[i] == s[i]);
        }
        lemma_walk_seq_best(init, st, q, path, root);
        assert(is_part(*path.last(), s[s.len() - 1]));
        lemma_walk_best(s.last(), walk_seq(init, st, q, path), q, path, root);
    }
}

proof fn lemma_walk_opt_best(o: Option<Arc<RholangNode>>, st: WalkState, q: Position, path: Seq<Arc<RholangNode>>, root: Arc<RholangNode>)
    requires
        best_on_path(st.best, root),
        root_path(root, path),
        o matches Some(c) ==> is_part(*path.last(), c),
    ensures
        best_on_path(walk_opt(o, st, q, path).best, root),
    decreases o, 2nat,
{
    match o {
        Some(c) => lemma_walk_best(c, st, q, path, root),
        None => {},
    }
}

proof fn lemma_walk_pairs_best(s: Seq<(Arc<RholangNode>, Arc<RholangNode>)>, st: WalkState, q: Position, path: Seq<Arc<RholangNode>>, root: Arc<RholangNode>)
    requires
        best_on_path(st.best, root),
        root_path(root, path),
        forall|i: int| 0 <= i < s.len() ==> is_part(*path.last(), (#[trigger] s[i]).0) && is_part(*path.last(), s[i].1),
    ensures
        best_on_path(walk_pairs(s, st, q, path).best, root),
    decreases s, 2nat,
{
    if s.len() > 0 {
        let init = s.drop_last();
        assert forall|i: int| 0 <= i < init.len() implies is_part(*path.last(), (#[trigger] init[i]).0) && is_part(*path.last(), init[i].1) by {
            assert(init[i] == s[i]);
        }
        lemma_walk_pairs_best(init, st, q, path, root);
        let l = s[s.len() - 1];
        let s1 = walk_pairs(init, st, q, path);
        lemma_walk_best(l.0, s1, q, path, root);
        lemma_walk_best(l.1, walk(l.0, s1, q, path), q, path, root);
    }
}

proof fn lemma_walk_branches_best(s: Seq<(Vec<Arc<RholangNode>>, Arc<RholangNode>)>, st: WalkState, q: Position, path: Seq<Arc<RholangNode>>, root: Arc<RholangNode>)
    requires
        best_on_path(st.best, root),
        root_path(root, path),
        forall|i: int| 0 <= i < s.len() ==> (forall|j: int| 0 <= j < (#[trigger] s[i]).0@.len() ==> is_part(*path.last(), s[i].0@[j])) && is_part(*path.last(), s[i].1),
    ensures
        best_on_path(walk_branches(s, st, q, path).best, root),
    decreases s, 2nat,
{
    if s.len() > 0 {
        let init = s.drop_last();
        assert forall|i: int| 0 <= i < init.len() implies (forall|j: int| 0 <= j < (#[trigger] init[i]).0@.len() ==> is_part(*path.last(), init[i].0@[j])) && is_part(*path.last(), init[i].1) by {
            assert(init[i] == s[i]);
        }
        lemma_walk_branches_best(init, st, q, path, root);
        let l = s[s.len() - 1];
        let s1 = walk_branches(init, st, q, path);
        assert(forall|j: int| 0 <= j < l.0@.len() ==> is_part(*path.last(), l.0@[j]));
        lemma_walk_seq_best(l.0@, s1, q, path, root);
        lemma_walk_best(l.1, walk_seq(l.0@, s1, q, path), q, path, root);
    }
}

proof fn lemma_walk_receipts_best(s: Seq<Vec<Arc<RholangNode>>>, st: WalkState, q: Position, path: Seq<Arc<RholangNode>>, root: Arc<RholangNode>)
    requires
        best_on_path(st.best, root),
        root_path(root, path),
        forall|i: int| 0 <= i < s.len() ==> forall|j: int| 0 <= j < (#[trigger] s[i])@.len() ==> is_part(*path.last(), s[i]@[j]),
    ensures
        best_on_path(walk_receipts(s, st, q, path).best, root),
    decreases s, 2nat,
{
    if s.len() > 0 {
        let init = s.drop_last();
        assert forall|i: int| 0 <= i < init.len() implies forall|j: int| 0 <= j < (#[trigger] init[i])@.len() ==> is_part(*path.last(), init[i]@[j]) by {
            assert(init[i] == s[i]);
        }
        lemma_walk_receipts_best(init, st, q, path, root);
        let l = s[s.len() - 1];
        assert(forall|j: int| 0 <= j < l@.len() ==> is_part(*path.last(), l@[j]));
        lemma_walk_seq_best(l@, walk_receipts(init, st, q, path), q, path, root);
    }
}

proof fn lemma_walk_children_best(a: Arc<RholangNode>, st: WalkState, q: Position, path: Seq<Arc<RholangNode>>, root: Arc<RholangNode>)
    requires
        best_on_path(st.best, root),
        root_path(root, path),
        path.last() == a,
    ensures
        best_on_path(walk_children(a, st, q, path).best, root),
    decreases a, 0nat,
{
    reveal(walk_children);
    match *a {
        RholangNode::Par { left, right, processes, .. } => {
            if left is Some && right is Some {
                lemma_walk_best(left->0, st, q, path, root);
                lemma_walk_best(right->0, walk(left->0, st, q, path), q, path, root);
            } else {
                match processes {
                    Some(p) => lemma_walk_seq_best(p@, st, q, path, root),
                    None => {},
                }
            }
        },
        RholangNode::Send { channel, send_type_delta, inputs, .. } => {
            lemma_walk_best(channel, st, q, path, root);
            let c = walk(channel, st, q, path);
            lemma_walk_seq_best(inputs@, with_end(c, moved(send_type_delta, c.end)), q, path, root);
        },
        RholangNode::Quote { quotable, .. } => {
            lemma_walk_best(quotable, with_end(st, after_quote(st.end)), q, path, root);
        },
        RholangNode::SendSync { channel, inputs, cont, .. } => {
            let s0 = st;
            lemma_walk_best(channel, s0, q, path, root);
            let s1 = walk(channel, s0, q, path);
            lemma_walk_seq_best(inputs@, s1, q, path, root);
            let s2 = walk_seq(inputs@, s1, q, path);
            lemma_walk_best(cont, s2, q, path, root);
            let s3 = walk(cont, s2, q, path);
        },
        RholangNode::New { decls, proc, .. } => {
            let s0 = st;
            lemma_walk_seq_best(decls@, s0, q, path, root);
            let s1 = walk_seq(decls@, s0, q, path);
            lemma_walk_best(proc, s1, q, path, root);
            let s2 = walk(proc, s1, q, path);
        },
        RholangNode::IfElse { condition, consequence, alternative, .. } => {
            let s0 = st;
            lemma_walk_best(condition, s0, q, path, root);
            let s1 = walk(condition, s0, q, path);
            lemma_walk_best(consequence, s1, q, path, root);
            let s2 = walk(consequence, s1, q, path);
            lemma_walk_opt_best(alternative, s2, q, path, root);
            let s3 = walk_opt(alternative, s2, q, path);
        },
        RholangNode::Let { decls, proc, .. } => {
            let s0 = st;
            lemma_walk_seq_best(decls@, s0, q, path, root);
            let s1 = walk_seq(decls@, s0, q, path);
            lemma_walk_best(proc, s1, q, path, root);
            let s2 = walk(proc, s1, q, path);
        },
        RholangNode::Bundle { proc, .. } => {
            let s0 = st;
            lemma_walk_best(proc, s0, q, path, root);
            let s1 = walk(proc, s0, q, path);
        },
        RholangNode::Match { expression, cases, .. } => {
            let s0 = st;
            lemma_walk_best(expression, s0, q, path, root);
            let s1 = walk(expression, s0, q, path);
            lemma_walk_pairs_best(cases@, s1, q, path, root);
            let s2 = walk_pairs(cases@, s1, q, path);
        },
        RholangNode::Choice { branches, .. } => {
            let s0 = st;
            lemma_walk_branches_best(branches@, s0, q, path, root);
            let s1 = walk_branches(branches@, s0, q, path);
        },
        RholangNode::Contract { name, formals, formals_remainder, proc, .. } => {
            let s0 = st;
            lemma_walk_best(name, s0, q, path, root);
            let s1 = walk(name, s0, q, path);
            lemma_walk_seq_best(formals@, s1, q, path, root);
            let s2 = walk_seq(formals@, s1, q, path);
            lemma_walk_opt_best(formals_remainder, s2, q, path, root);
            let s3 = walk_opt(formals_remainder, s2, q, path);
            lemma_walk_best(proc, s3, q, path, root);
            let s4 = walk(proc, s3, q, path);
        },
        RholangNode::Input { receipts, proc, .. } => {
            let s0 = st;
            lemma_walk_receipts_best(receipts@, s0, q, path, root);
            let s1 = walk_receipts(receipts@, s0, q, path);
            lemma_walk_best(proc, s1, q, path, root);
            let s2 = walk(proc, s1, q, path);
        },
        RholangNode::Block { proc, .. } => {
            let s0 = st;
            lemma_walk_best(proc, s0, q, path, root);
            let s1 = walk(proc, s0, q, path);
        },
        RholangNode::Parenthesized { expr, .. } => {
            let s0 = st;
            lemma_walk_best(expr, s0, q, path, root);
            let s1 = walk(expr, s0, q, path);
        },
        RholangNode::BinOp { left, right, .. } => {
            let s0 = st;
            lemma_walk_best(left, s0, q, path, root);
            let s1 = walk(left, s0, q, path);
            lemma_walk_best(right, s1, q, path, root);
            let s2 = walk(right, s1, q, path);
        },
        RholangNode::UnaryOp { operand, .. } => {
            let s0 = st;
            lemma_walk_best(operand, s0, q, path, root);
            let s1 = walk(operand, s0, q, path);
        },
        RholangNode::Method { receiver, args, .. } => {
            let s0 = st;
            lemma_walk_best(receiver, s0, q, path, root);
            let s1 = walk(receiver, s0, q, path);
            lemma_walk_seq_best(args@, s1, q, path, root);
            let s2 = walk_seq(args@, s1, q, path);
        },
        RholangNode::Eval { name, .. } => {
            let s0 = st;
            lemma_walk_best(name, s0, q, path, root);
            let s1 = walk(name, s0, q, path);
        },
        RholangNode::VarRef { var, .. } => {
            let s0 = st;
            lemma_walk_best(var, s0, q, path, root);
            let s1 = walk(var, s0, q, path);
        },
        RholangNode::List { elements, remainder, .. } => {
            let s0 = st;
            lemma_walk_seq_best(elements@, s0, q, path, root);
            let s1 = walk_seq(elements@, s0, q, path);
            lemma_walk_opt_best(remainder, s1, q, path, root);
            let s2 = walk_opt(remainder, s1, q, path);
        },
        RholangNode::SetExpr { elements, remainder, .. } => {
            let s0 = st;
            lemma_walk_seq_best(elements@, s0, q, path, root);
            let s1 = walk_seq(elements@, s0, q, path);
            lemma_walk_opt_best(remainder, s1, q, path, root);
            let s2 = walk_opt(remainder, s1, q, path);
        },
        RholangNode::MapExpr { pairs, remainder, .. } => {
            let s0 = st;
            lemma_walk_pairs_best(pairs@, s0, q, path, root);
            let s1 = walk_pairs(pairs@, s0, q, path);
            lemma_walk_opt_best(remainder, s1, q, path, root);
            let s2 = walk_opt(remainder, s1, q, path);
        },
        RholangNode::Tuple { elements, .. } => {
            let s0 = st;
            lemma_walk_seq_best(elements@, s0, q, path, root);
            let s1 = walk_seq(elements@, s0, q, path);
        },
        RholangNode::NameDecl { var, uri, .. } => {
            let s0 = st;
            lemma_walk_best(var, s0, q, path, root);
            let s1 = walk(var, s0, q, path);
            lemma_walk_opt_best(uri, s1, q, path, root);
            let s2 = walk_opt(uri, s1, q, path);
        },
        RholangNode::Decl { names, names_remainder, procs, .. } => {
            let s0 = st;
            lemma_walk_seq_best(names@, s0, q, path, root);
            let s1 = walk_seq(names@, s0, q, path);
            lemma_walk_opt_best(names_remainder, s1, q, path, root);
            let s2 = walk_opt(names_remainder, s1, q, path);
            lemma_walk_seq_best(procs@, s2, q, path, root);
            let s3 = walk_seq(procs@, s2, q, path);
        },
        RholangNode::LinearBind { names, remainder, source, .. } => {
            let s0 = st;
            lemma_walk_seq_best(names@, s0, q, path, root);
            let s1 = walk_seq(names@, s0, q, path);
            lemma_walk_opt_best(remainder, s1, q, path, root);
            let s2 = walk_opt(remainder, s1, q, path);
            lemma_walk_best(source, s2, q, path, root);
            let s3 = walk(source, s2, q, path);
        },
        RholangNode::RepeatedBind { names, remainder, source, .. } => {
            let s0 = st;
            lemma_walk_seq_best(names@, s0, q, path, root);
            let s1 = walk_seq(names@, s0, q, path);
            lemma_walk_opt_best(remainder, s1, q, path, root);
            let s2 = walk_opt(remainder, s1, q, path);
            lemma_walk_best(source, s2, q, path, root);
            let s3 = walk(source, s2, q, path);
        },
        RholangNode::PeekBind { names, remainder, source, .. } => {
            let s0 = st;
            lemma_walk_seq_best(names@, s0, q, path, root);
            let s1 = walk_seq(names@, s0, q, path);
            lemma_walk_opt_best(remainder, s1, q, path, root);
            let s2 = walk_opt(remainder, s1, q, path);
            lemma_walk_best(source, s2, q, path, root);
            let s3 = walk(source, s2, q, path);
        },
        RholangNode::ReceiveSendSource { name, .. } => {
            let s0 = st;
            lemma_walk_best(name, s0, q, path, root);
            let s1 = walk(name, s0, q, path);
        },
        RholangNode::SendReceiveSource { name, inputs, .. } => {
            let s0 = st;
            lemma_walk_best(name, s0, q, path, root);
            let s1 = walk(name, s0, q, path);
            lemma_walk_seq_best(inputs@, s1, q, path, root);
            let s2 = walk_seq(inputs@, s1, q, path);
        },
        RholangNode::Error { children, .. } => {
            let s0 = st;
            lemma_walk_seq_best(children@, s0, q, path, root);
            let s1 = walk_seq(children@, s0, q, path);
        },
        RholangNode::Disjunction { left, right, .. } => {
            let s0 = st;
            lemma_walk_best(left, s0, q, path, root);
            let s1 = walk(left, s0, q, path);
            lemma_walk_best(right, s1, q, path, root);
            let s2 = walk(right, s1, q, path);
        },
        RholangNode::Conjunction { left, right, .. } => {
            let s0 = st;
            lemma_walk_best(left, s0, q, path, root);
            let s1 = walk(left, s0, q, path);
            lemma_walk_best(right, s1, q, path, root);
            let s2 = walk(right, s1, q, path);
        },
        RholangNode::Negation { operand, .. } => {
            let s0 = st;
            lemma_walk_best(operand, s0, q, path, root);
            let s1 = walk(operand, s0, q, path);
        },
        _ => {},
    }
}

/// The path found with a node (`find_node_at_position_with_path`) leads down
/// the tree: it starts at the root, ends at the found node, and each node
/// on it after the first is held directly by the one before it.
pub proof fn law_found_path_leads_to_node(root: Arc<RholangNode>, position: Position)
    ensures
        match node_at(root, position) {
            Some((n, p)) => root_path(root, p) && p.last() == n,
            None => true,
        },
{
    lemma_walk_best(root, initial_state(), position, Seq::empty(), root);
}


} // verus!
