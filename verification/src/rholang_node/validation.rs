//! Validation of a node tree: reserved keywords may not name channels,
//! match-pattern variables or select variables.
use std::sync::Arc;
use vstd::prelude::*;
use crate::rholang_node::node_types::RholangNode;
use crate::rholang_node::position_tracking::{
    branches_hold, is_part, node_end, node_fits, node_start, pairs_hold, par_form, receipts_hold,
};
use crate::semantic_node::{
    absolute_end_fits, compute_end_position, start_position, start_position_fits, start_position_fits_exec, Position,
};
use crate::symbol_resolution::types::str_equal;
use crate::text::{decimal, push_decimal, push_str, string_from_chars};

verus! {

/// Whether `s` is one of the reserved keywords of Rholang.
pub open spec fn is_reserved(s: Seq<char>) -> bool {
    s == "if"@
        || s == "else"@
        || s == "new"@
        || s == "in"@
        || s == "match"@
        || s == "contract"@
        || s == "select"@
        || s == "for"@
        || s == "let"@
        || s == "bundle"@
        || s == "bundle+"@
        || s == "bundle-"@
        || s == "bundle0"@
        || s == "true"@
        || s == "false"@
        || s == "Nil"@
        || s == "or"@
        || s == "and"@
        || s == "not"@
        || s == "matches"@
}

/// Whether `s` is a reserved keyword.
pub fn is_reserved_keyword(s: &str) -> (b: bool)
    ensures
        b == is_reserved(s@),
{
    if str_equal(s, "if") {
        return true;
    }
    if str_equal(s, "else") {
        return true;
    }
    if str_equal(s, "new") {
        return true;
    }
    if str_equal(s, "in") {
        return true;
    }
    if str_equal(s, "match") {
        return true;
    }
    if str_equal(s, "contract") {
        return true;
    }
    if str_equal(s, "select") {
        return true;
    }
    if str_equal(s, "for") {
        return true;
    }
    if str_equal(s, "let") {
        return true;
    }
    if str_equal(s, "bundle") {
        return true;
    }
    if str_equal(s, "bundle+") {
        return true;
    }
    if str_equal(s, "bundle-") {
        return true;
    }
    if str_equal(s, "bundle0") {
        return true;
    }
    if str_equal(s, "true") {
        return true;
    }
    if str_equal(s, "false") {
        return true;
    }
    if str_equal(s, "Nil") {
        return true;
    }
    if str_equal(s, "or") {
        return true;
    }
    if str_equal(s, "and") {
        return true;
    }
    if str_equal(s, "not") {
        return true;
    }
    if str_equal(s, "matches") {
        return true;
    }
    false
}

/// The origin of a document.
pub open spec fn origin() -> Position {
    Position { row: 0, column: 0, byte: 0 }
}

/// Where node `n` ends when the previous node ended at `prev`.
pub open spec fn end_after(n: RholangNode, prev: Position) -> Position {
    node_end(n, node_start(n, prev))
}

/// Where the last of the nodes `s` ends, laid out one after the other from `prev`.
pub open spec fn ends_seq(s: Seq<Arc<RholangNode>>, prev: Position) -> Position
    decreases s.len(),
{
    if s.len() == 0 {
        prev
    } else {
        end_after(*s.last(), ends_seq(s.drop_last(), prev))
    }
}

/// Where the last of the node pairs `s` ends, laid out one after the other from `prev`.
pub open spec fn ends_pairs(s: Seq<(Arc<RholangNode>, Arc<RholangNode>)>, prev: Position) -> Position
    decreases s.len(),
{
    if s.len() == 0 {
        prev
    } else {
        end_after(*s.last().1, end_after(*s.last().0, ends_pairs(s.drop_last(), prev)))
    }
}

/// Where the last of the branches `s` ends, each one's binds then its body, from `prev`.
pub open spec fn ends_branches(s: Seq<(Vec<Arc<RholangNode>>, Arc<RholangNode>)>, prev: Position) -> Position
    decreases s.len(),
{
    if s.len() == 0 {
        prev
    } else {
        end_after(*s.last().1, ends_seq(s.last().0@, ends_branches(s.drop_last(), prev)))
    }
}

/// Laying out the nodes `s` from `prev` stays in range.
pub open spec fn seq_fits(s: Seq<Arc<RholangNode>>, prev: Position) -> bool
    decreases s.len(),
{
    if s.len() == 0 {
        true
    } else {
        seq_fits(s.drop_last(), prev) && node_fits(*s.last(), ends_seq(s.drop_last(), prev))
    }
}

/// Laying out the node pairs `s` from `prev` stays in range.
pub open spec fn pairs_fit(s: Seq<(Arc<RholangNode>, Arc<RholangNode>)>, prev: Position) -> bool
    decreases s.len(),
{
    if s.len() == 0 {
        true
    } else {
        let p = ends_pairs(s.drop_last(), prev);
        pairs_fit(s.drop_last(), prev) && node_fits(*s.last().0, p) && node_fits(*s.last().1, end_after(*s.last().0, p))
    }
}

/// The names of a linear bind, if `n` is one.
pub open spec fn bind_names(n: RholangNode) -> Seq<Arc<RholangNode>> {
    match n {
        RholangNode::LinearBind { names, .. } => names@,
        _ => Seq::empty(),
    }
}

/// Laying out the binds `s` from `prev`, and the names of each linear bind
/// from its start, stays in range.
pub open spec fn inputs_fit(s: Seq<Arc<RholangNode>>, prev: Position) -> bool
    decreases s.len(),
{
    if s.len() == 0 {
        true
    } else {
        let p = ends_seq(s.drop_last(), prev);
        inputs_fit(s.drop_last(), prev) && node_fits(*s.last(), p) && seq_fits(
            bind_names(*s.last()),
            node_start(*s.last(), p),
        )
    }
}

/// Laying out the branches `s` from `prev` stays in range.
pub open spec fn branches_fit(s: Seq<(Vec<Arc<RholangNode>>, Arc<RholangNode>)>, prev: Position) -> bool
    decreases s.len(),
{
    if s.len() == 0 {
        true
    } else {
        let p = ends_branches(s.drop_last(), prev);
        branches_fit(s.drop_last(), prev) && inputs_fit(s.last().0@, p) && node_fits(
            *s.last().1,
            ends_seq(s.last().0@, p),
        )
    }
}

/// The message for a reserved channel name.
pub open spec fn channel_message(name: Seq<char>) -> Seq<char> {
    "Channel name '"@ + name + "' is a reserved keyword"@
}

/// The message for a reserved match-pattern variable at `p`.
pub open spec fn pattern_message(name: Seq<char>, p: Position) -> Seq<char> {
    "Match pattern '"@ + name + "' uses reserved keyword at "@ + decimal(p.row as nat) + ":"@ + decimal(p.column as nat)
}

/// The message for a reserved select variable at `p`.
pub open spec fn select_message(name: Seq<char>, p: Position) -> Seq<char> {
    "Select variable '"@ + name + "' uses reserved keyword at "@ + decimal(p.row as nat) + ":"@ + decimal(p.column as nat)
}

/// The first of two outcomes that is an error.
pub open spec fn first_error(a: Option<Seq<char>>, b: Option<Seq<char>>) -> Option<Seq<char>> {
    if a is Some {
        a
    } else {
        b
    }
}

/// The error of a channel: a variable with a reserved name.
pub open spec fn channel_error(channel: RholangNode) -> Option<Seq<char>> {
    match channel {
        RholangNode::Var { name, .. } => if is_reserved(name@) {
            Some(channel_message(name@))
        } else {
            None
        },
        _ => None,
    }
}

/// The first error of a tree, in the order it is checked; `None` when it is valid.
#[verifier::opaque]
pub open spec fn validation(n: RholangNode) -> Option<Seq<char>>
    decreases n, 1nat,
{
    match n {
        RholangNode::Send { channel, .. } => channel_error(*channel),
        RholangNode::SendSync { channel, .. } => channel_error(*channel),
        RholangNode::Par { left, right, processes, .. } => {
            if left is Some && right is Some {
                first_error(validation(*left->0), validation(*right->0))
            } else {
                match processes {
                    Some(p) => validation_seq(p@),
                    None => None,
                }
            }
        },
        RholangNode::Match { expression, cases, .. } => first_error(
            validation(*expression),
            validation_cases(cases@, end_after(*expression, node_start(n, origin()))),
        ),
        RholangNode::Choice { branches, .. } => validation_branches(branches@, node_start(n, origin())),
        RholangNode::New { decls, proc, .. } => first_error(validation_seq(decls@), validation(*proc)),
        RholangNode::IfElse { condition, consequence, alternative, .. } => first_error(validation(*condition), first_error(validation(*consequence), validation_opt(alternative))),
        RholangNode::Let { decls, proc, .. } => first_error(validation_seq(decls@), validation(*proc)),
        RholangNode::Bundle { proc, .. } => validation(*proc),
        RholangNode::Contract { name, formals, formals_remainder, proc, .. } => first_error(validation(*name), first_error(validation_seq(formals@), first_error(validation_opt(formals_remainder), validation(*proc)))),
        RholangNode::Input { receipts, proc, .. } => first_error(validation_receipts(receipts@), validation(*proc)),
        RholangNode::Block { proc, .. } => validation(*proc),
        RholangNode::Parenthesized { expr, .. } => validation(*expr),
        RholangNode::BinOp { left, right, .. } => first_error(validation(*left), validation(*right)),
        RholangNode::UnaryOp { operand, .. } => validation(*operand),
        RholangNode::Method { receiver, args, .. } => first_error(validation(*receiver), validation_seq(args@)),
        RholangNode::Eval { name, .. } => validation(*name),
        RholangNode::Quote { quotable, .. } => validation(*quotable),
        RholangNode::VarRef { var, .. } => validation(*var),
        RholangNode::List { elements, remainder, .. } => first_error(validation_seq(elements@), validation_opt(remainder)),
        RholangNode::SetExpr { elements, remainder, .. } => first_error(validation_seq(elements@), validation_opt(remainder)),
        RholangNode::MapExpr { pairs, remainder, .. } => first_error(validation_pairs(pairs@), validation_opt(remainder)),
        RholangNode::Tuple { elements, .. } => validation_seq(elements@),
        RholangNode::NameDecl { var, uri, .. } => first_error(validation(*var), validation_opt(uri)),
        RholangNode::Decl { names, names_remainder, procs, .. } => first_error(validation_seq(names@), first_error(validation_opt(names_remainder), validation_seq(procs@))),
        RholangNode::LinearBind { names, remainder, source, .. } => first_error(validation_seq(names@), first_error(validation_opt(remainder), validation(*source))),
        RholangNode::RepeatedBind { names, remainder, source, .. } => first_error(validation_seq(names@), first_error(validation_opt(remainder), validation(*source))),
        RholangNode::PeekBind { names, remainder, source, .. } => first_error(validation_seq(names@), first_error(validation_opt(remainder), validation(*source))),
        RholangNode::ReceiveSendSource { name, .. } => validation(*name),
        RholangNode::SendReceiveSource { name, inputs, .. } => first_error(validation(*name), validation_seq(inputs@)),
        RholangNode::Error { children, .. } => validation_seq(children@),
        RholangNode::Disjunction { left, right, .. } => first_error(validation(*left), validation(*right)),
        RholangNode::Conjunction { left, right, .. } => first_error(validation(*left), validation(*right)),
        RholangNode::Negation { operand, .. } => validation(*operand),
        _ => None,
    }
}

/// The first error among optional trees.
pub open spec fn validation_opt(o: Option<Arc<RholangNode>>) -> Option<Seq<char>>
    decreases o, 2nat,
{
    match o {
        Some(a) => validation(*a),
        None => None,
    }
}

/// The first error among trees, in order.
pub open spec fn validation_seq(s: Seq<Arc<RholangNode>>) -> Option<Seq<char>>
    decreases s, 2nat,
{
    if s.len() == 0 {
        None
    } else {
        first_error(validation_seq(s.drop_last()), validation(*s.last()))
    }
}

/// The first error among pairs of trees, each key before its value.
pub open spec fn validation_pairs(s: Seq<(Arc<RholangNode>, Arc<RholangNode>)>) -> Option<Seq<char>>
    decreases s, 2nat,
{
    if s.len() == 0 {
        None
    } else {
        first_error(validation_pairs(s.drop_last()), first_error(validation(*s.last().0), validation(*s.last().1)))
    }
}

/// The first error among receipts, the binds of each in order.
pub open spec fn validation_receipts(s: Seq<Vec<Arc<RholangNode>>>) -> Option<Seq<char>>
    decreases s, 2nat,
{
    if s.len() == 0 {
        None
    } else {
        first_error(validation_receipts(s.drop_last()), validation_seq(s.last()@))
    }
}

/// The first error among match cases laid out from `prev`: a case whose
/// pattern is a reserved variable, else the first error of its pattern,
/// then of its body.
pub open spec fn validation_cases(s: Seq<(Arc<RholangNode>, Arc<RholangNode>)>, prev: Position) -> Option<Seq<char>>
    decreases s, 2nat,
{
    if s.len() == 0 {
        None
    } else {
        let pat = s.last().0;
        let at = node_start(*pat, ends_pairs(s.drop_last(), prev));
        first_error(
            validation_cases(s.drop_last(), prev),
            match *pat {
                RholangNode::Var { name, .. } => if is_reserved(name@) {
                    Some(pattern_message(name@, at))
                } else {
                    first_error(validation(*pat), validation(*s.last().1))
                },
                _ => first_error(validation(*pat), validation(*s.last().1)),
            },
        )
    }
}

/// The first reserved name among the names of a linear bind laid out from `prev`.
pub open spec fn validation_names(s: Seq<Arc<RholangNode>>, prev: Position) -> Option<Seq<char>>
    decreases s.len(),
{
    if s.len() == 0 {
        None
    } else {
        first_error(
            validation_names(s.drop_last(), prev),
            match *s.last() {
                RholangNode::Var { name, .. } => if is_reserved(name@) {
                    Some(select_message(name@, node_start(*s.last(), ends_seq(s.drop_last(), prev))))
                } else {
                    None
                },
                _ => None,
            },
        )
    }
}

/// The first error among the binds of a branch laid out from `prev`: for a
/// linear bind, a reserved name, then its remainder's errors; then each
/// bind's own errors.
pub open spec fn validation_inputs(s: Seq<Arc<RholangNode>>, prev: Position) -> Option<Seq<char>>
    decreases s, 2nat,
{
    if s.len() == 0 {
        None
    } else {
        let input = s.last();
        let at = node_start(*input, ends_seq(s.drop_last(), prev));
        first_error(
            validation_inputs(s.drop_last(), prev),
            match *input {
                RholangNode::LinearBind { names, remainder, .. } => first_error(
                    validation_names(names@, at),
                    first_error(validation_opt(remainder), validation(*input)),
                ),
                _ => validation(*input),
            },
        )
    }
}

/// The first error among branches laid out from `prev`, binds before body.
pub open spec fn validation_branches(s: Seq<(Vec<Arc<RholangNode>>, Arc<RholangNode>)>, prev: Position) -> Option<Seq<char>>
    decreases s, 2nat,
{
    if s.len() == 0 {
        None
    } else {
        let p = ends_branches(s.drop_last(), prev);
        first_error(
            validation_branches(s.drop_last(), prev),
            first_error(validation_inputs(s.last().0@, p), validation(*s.last().1)),
        )
    }
}

/// Whether the positions that validation may report stay in range: for
/// every match and select in the tree, the layout of its parts from its
/// start in a document of its own.
#[verifier::opaque]
pub open spec fn validation_fits(n: RholangNode) -> bool
    decreases n, 1nat,
{
    match n {
        RholangNode::Send { .. } => true,
        RholangNode::SendSync { .. } => true,
        RholangNode::Par { left, right, processes, .. } => {
            if left is Some && right is Some {
                validation_fits(*left->0) && validation_fits(*right->0)
            } else {
                match processes {
                    Some(p) => fits_all(p@),
                    None => true,
                }
            }
        },
        RholangNode::Match { expression, cases, .. } => {
            let start = node_start(n, origin());
            &&& start_position_fits(n.spec_base(), origin())
            &&& node_fits(*expression, start)
            &&& pairs_fit(cases@, end_after(*expression, start))
            &&& validation_fits(*expression)
            &&& fits_all_pairs(cases@)
        },
        RholangNode::Choice { branches, .. } => {
            &&& start_position_fits(n.spec_base(), origin())
            &&& branches_fit(branches@, node_start(n, origin()))
            &&& fits_all_branches(branches@)
        },
        RholangNode::New { decls, proc, .. } => fits_all(decls@) && validation_fits(*proc),
        RholangNode::IfElse { condition, consequence, alternative, .. } => validation_fits(*condition) && validation_fits(*consequence) && fits_opt_all(alternative),
        RholangNode::Let { decls, proc, .. } => fits_all(decls@) && validation_fits(*proc),
        RholangNode::Bundle { proc, .. } => validation_fits(*proc),
        RholangNode::Contract { name, formals, formals_remainder, proc, .. } => validation_fits(*name) && fits_all(formals@) && fits_opt_all(formals_remainder) && validation_fits(*proc),
        RholangNode::Input { receipts, proc, .. } => fits_all_receipts(receipts@) && validation_fits(*proc),
        RholangNode::Block { proc, .. } => validation_fits(*proc),
        RholangNode::Parenthesized { expr, .. } => validation_fits(*expr),
        RholangNode::BinOp { left, right, .. } => validation_fits(*left) && validation_fits(*right),
        RholangNode::UnaryOp { operand, .. } => validation_fits(*operand),
        RholangNode::Method { receiver, args, .. } => validation_fits(*receiver) && fits_all(args@),
        RholangNode::Eval { name, .. } => validation_fits(*name),
        RholangNode::Quote { quotable, .. } => validation_fits(*quotable),
        RholangNode::VarRef { var, .. } => validation_fits(*var),
        RholangNode::List { elements, remainder, .. } => fits_all(elements@) && fits_opt_all(remainder),
        RholangNode::SetExpr { elements, remainder, .. } => fits_all(elements@) && fits_opt_all(remainder),
        RholangNode::MapExpr { pairs, remainder, .. } => fits_all_pairs(pairs@) && fits_opt_all(remainder),
        RholangNode::Tuple { elements, .. } => fits_all(elements@),
        RholangNode::NameDecl { var, uri, .. } => validation_fits(*var) && fits_opt_all(uri),
        RholangNode::Decl { names, names_remainder, procs, .. } => fits_all(names@) && fits_opt_all(names_remainder) && fits_all(procs@),
        RholangNode::LinearBind { names, remainder, source, .. } => fits_all(names@) && fits_opt_all(remainder) && validation_fits(*source),
        RholangNode::RepeatedBind { names, remainder, source, .. } => fits_all(names@) && fits_opt_all(remainder) && validation_fits(*source),
        RholangNode::PeekBind { names, remainder, source, .. } => fits_all(names@) && fits_opt_all(remainder) && validation_fits(*source),
        RholangNode::ReceiveSendSource { name, .. } => validation_fits(*name),
        RholangNode::SendReceiveSource { name, inputs, .. } => validation_fits(*name) && fits_all(inputs@),
        RholangNode::Error { children, .. } => fits_all(children@),
        RholangNode::Disjunction { left, right, .. } => validation_fits(*left) && validation_fits(*right),
        RholangNode::Conjunction { left, right, .. } => validation_fits(*left) && validation_fits(*right),
        RholangNode::Negation { operand, .. } => validation_fits(*operand),
        _ => true,
    }
}

/// `validation_fits` of an optional tree.
pub open spec fn fits_opt_all(o: Option<Arc<RholangNode>>) -> bool
    decreases o, 2nat,
{
    match o {
        Some(a) => validation_fits(*a),
        None => true,
    }
}

/// `validation_fits` of every tree.
pub open spec fn fits_all(s: Seq<Arc<RholangNode>>) -> bool
    decreases s, 2nat,
{
    if s.len() == 0 {
        true
    } else {
        fits_all(s.drop_last()) && validation_fits(*s.last())
    }
}

/// `validation_fits` of every tree of every pair.
pub open spec fn fits_all_pairs(s: Seq<(Arc<RholangNode>, Arc<RholangNode>)>) -> bool
    decreases s, 2nat,
{
    if s.len() == 0 {
        true
    } else {
        fits_all_pairs(s.drop_last()) && validation_fits(*s.last().0) && validation_fits(*s.last().1)
    }
}

/// `validation_fits` of every bind of every receipt.
pub open spec fn fits_all_receipts(s: Seq<Vec<Arc<RholangNode>>>) -> bool
    decreases s, 2nat,
{
    if s.len() == 0 {
        true
    } else {
        fits_all_receipts(s.drop_last()) && fits_all(s.last()@)
    }
}

/// `validation_fits` of every bind (and linear-bind remainder) and body of every branch.
pub open spec fn fits_all_branches(s: Seq<(Vec<Arc<RholangNode>>, Arc<RholangNode>)>) -> bool
    decreases s, 2nat,
{
    if s.len() == 0 {
        true
    } else {
        fits_all_branches(s.drop_last()) && fits_all_inputs(s.last().0@) && validation_fits(*s.last().1)
    }
}

/// `validation_fits` of every bind and linear-bind remainder.
pub open spec fn fits_all_inputs(s: Seq<Arc<RholangNode>>) -> bool
    decreases s, 2nat,
{
    if s.len() == 0 {
        true
    } else {
        fits_all_inputs(s.drop_last()) && validation_fits(*s.last()) && match *s.last() {
            RholangNode::LinearBind { remainder, .. } => fits_opt_all(remainder),
            _ => true,
        }
    }
}

/// A failing tree among `s` makes the sequence fail.
proof fn lemma_seq_fails(s: Seq<Arc<RholangNode>>, c: Arc<RholangNode>)
    requires
        s.contains(c),
        validation(*c) is Some,
    ensures
        validation_seq(s) is Some,
    decreases s.len(),
{
    reveal(validation);
    let init = s.drop_last();
    if s.last() != c {
        let i = choose|i: int| 0 <= i < s.len() && s[i] == c;
        assert(init[i] == c);
        lemma_seq_fails(init, c);
    }
}

/// A failing tree among the pairs `s` makes the pairs fail, and the match
/// cases too, wherever they are laid out.
proof fn lemma_pairs_fails(s: Seq<(Arc<RholangNode>, Arc<RholangNode>)>, c: Arc<RholangNode>)
    requires
        pairs_hold(s, c),
        validation(*c) is Some,
    ensures
        validation_pairs(s) is Some,
        forall|prev: Position| #[trigger] validation_cases(s, prev) is Some,
    decreases s.len(),
{
    reveal(validation);
    let init = s.drop_last();
    let l = s.last();
    if l.0 != c && l.1 != c {
        let i = choose|i: int| #![trigger s[i]] 0 <= i < s.len() && (s[i].0 == c || s[i].1 == c);
        assert(init[i] == s[i]);
        lemma_pairs_fails(init, c);
    }
    assert forall|prev: Position| #[trigger] validation_cases(s, prev) is Some by {
        if l.0 != c && l.1 != c {
            assert(validation_cases(init, prev) is Some);
        }
    }
}

/// A failing bind of one of the receipts `s` makes the receipts fail.
proof fn lemma_receipts_fails(s: Seq<Vec<Arc<RholangNode>>>, c: Arc<RholangNode>)
    requires
        receipts_hold(s, c),
        validation(*c) is Some,
    ensures
        validation_receipts(s) is Some,
    decreases s.len(),
{
    reveal(validation);
    let init = s.drop_last();
    let l = s.last();
    if l@.contains(c) {
        lemma_seq_fails(l@, c);
    } else {
        let i = choose|i: int| #![trigger s[i]] 0 <= i < s.len() && s[i]@.contains(c);
        assert(init[i] == s[i]);
        lemma_receipts_fails(init, c);
    }
}

/// A failing bind among `s` makes the binds of a branch fail, wherever
/// they are laid out.
proof fn lemma_inputs_fails(s: Seq<Arc<RholangNode>>, c: Arc<RholangNode>, prev: Position)
    requires
        s.contains(c),
        validation(*c) is Some,
    ensures
        validation_inputs(s, prev) is Some,
    decreases s.len(),
{
    reveal(validation);
    let init = s.drop_last();
    if s.last() != c {
        let i = choose|i: int| 0 <= i < s.len() && s[i] == c;
        assert(init[i] == c);
        lemma_inputs_fails(init, c, prev);
    }
}

/// A failing bind or body of one of the branches `s` makes the branches
/// fail, wherever they are laid out.
proof fn lemma_branches_fails(s: Seq<(Vec<Arc<RholangNode>>, Arc<RholangNode>)>, c: Arc<RholangNode>, prev: Position)
    requires
        branches_hold(s, c),
        validation(*c) is Some,
    ensures
        validation_branches(s, prev) is Some,
    decreases s.len(),
{
    reveal(validation);
    let init = s.drop_last();
    let l = s.last();
    if l.0@.contains(c) {
        lemma_inputs_fails(l.0@, c, ends_branches(init, prev));
    } else if l.1 != c {
        let i = choose|i: int| #![trigger s[i]] 0 <= i < s.len() && (s[i].0@.contains(c) || s[i].1 == c);
        assert(init[i] == s[i]);
        lemma_branches_fails(init, c, prev);
    }
}

/// Validation misses nothing below a node: a tree with a sub-tree that fails
/// validation fails it too. This holds for every node `n` and every node `c`
/// it holds directly, except for the parts of a send, of which only the
/// channel's own name is checked, and a parallel composition with both
/// sides and a process list.
pub proof fn law_validation_fails_with_any_part(n: RholangNode, c: Arc<RholangNode>)
    requires
        is_part(n, c),
        par_form(n),
        !(n is Send),
        !(n is SendSync),
        validation(*c) is Some,
    ensures
        validation(n) is Some,
{
    reveal(validation);
    match n {
        RholangNode::Par { left, right, processes, .. } => {
            match processes {
                Some(p) => {
                    if p@.contains(c) {
                        lemma_seq_fails(p@, c);
                    }
                },
                None => {},
            }
            assert(validation(n) is Some);
        },
        RholangNode::Match { expression, cases, .. } => {
            if pairs_hold(cases@, c) {
                lemma_pairs_fails(cases@, c);
                assert(validation_cases(cases@, end_after(*expression, node_start(n, origin()))) is Some);
            }
            assert(validation(n) is Some);
        },
        RholangNode::Choice { branches, .. } => {
            if branches_hold(branches@, c) {
                lemma_branches_fails(branches@, c, node_start(n, origin()));
            }
            assert(validation(n) is Some);
        },
        RholangNode::New { decls, proc, .. } => {
            if decls@.contains(c) { lemma_seq_fails(decls@, c); }
            assert(validation(n) is Some);
        },
        RholangNode::IfElse { condition, consequence, alternative, .. } => {
            if alternative == Some(c) { assert(validation_opt(alternative) == validation(*c)); }
            assert(validation(n) is Some);
        },
        RholangNode::Let { decls, proc, .. } => {
            if decls@.contains(c) { lemma_seq_fails(decls@, c); }
            assert(validation(n) is Some);
        },
        RholangNode::Bundle { proc, .. } => {
            assert(validation(n) is Some);
        },
        RholangNode::Contract { name, formals, formals_remainder, proc, .. } => {
            if formals_remainder == Some(c) { assert(validation_opt(formals_remainder) == validation(*c)); }
            if formals@.contains(c) { lemma_seq_fails(formals@, c); }
            assert(validation(n) is Some);
        },
        RholangNode::Input { receipts, proc, .. } => {
            if receipts_hold(receipts@, c) { lemma_receipts_fails(receipts@, c); }
            assert(validation(n) is Some);
        },
        RholangNode::Block { proc, .. } => {
            assert(validation(n) is Some);
        },
        RholangNode::Parenthesized { expr, .. } => {
            assert(validation(n) is Some);
        },
        RholangNode::BinOp { left, right, .. } => {
            assert(validation(n) is Some);
        },
        RholangNode::UnaryOp { operand, .. } => {
            assert(validation(n) is Some);
        },
        RholangNode::Method { receiver, args, .. } => {
            if args@.contains(c) { lemma_seq_fails(args@, c); }
            assert(validation(n) is Some);
        },
        RholangNode::Eval { name, .. } => {
            assert(validation(n) is Some);
        },
        RholangNode::Quote { quotable, .. } => {
            assert(validation(n) is Some);
        },
        RholangNode::VarRef { var, .. } => {
            assert(validation(n) is Some);
        },
        RholangNode::List { elements, remainder, .. } => {
            if remainder == Some(c) { assert(validation_opt(remainder) == validation(*c)); }
            if elements@.contains(c) { lemma_seq_fails(elements@, c); }
            assert(validation(n) is Some);
        },
        RholangNode::SetExpr { elements, remainder, .. } => {
            if remainder == Some(c) { assert(validation_opt(remainder) == validation(*c)); }
            if elements@.contains(c) { lemma_seq_fails(elements@, c); }
            assert(validation(n) is Some);
        },
        RholangNode::MapExpr { pairs, remainder, .. } => {
            if remainder == Some(c) { assert(validation_opt(remainder) == validation(*c)); }
            if pairs_hold(pairs@, c) { lemma_pairs_fails(pairs@, c); }
            assert(validation(n) is Some);
        },
        RholangNode::Tuple { elements, .. } => {
            if elements@.contains(c) { lemma_seq_fails(elements@, c); }
            assert(validation(n) is Some);
        },
        RholangNode::NameDecl { var, uri, .. } => {
            if uri == Some(c) { assert(validation_opt(uri) == validation(*c)); }
            assert(validation(n) is Some);
        },
        RholangNode::Decl { names, names_remainder, procs, .. } => {
            if names_remainder == Some(c) { assert(validation_opt(names_remainder) == validation(*c)); }
            if names@.contains(c) { lemma_seq_fails(names@, c); }
            if procs@.contains(c) { lemma_seq_fails(procs@, c); }
            assert(validation(n) is Some);
        },
        RholangNode::LinearBind { names, remainder, source, .. } => {
            if remainder == Some(c) { assert(validation_opt(remainder) == validation(*c)); }
            if names@.contains(c) { lemma_seq_fails(names@, c); }
            assert(validation(n) is Some);
        },
        RholangNode::RepeatedBind { names, remainder, source, .. } => {
            if remainder == Some(c) { assert(validation_opt(remainder) == validation(*c)); }
            if names@.contains(c) { lemma_seq_fails(names@, c); }
            assert(validation(n) is Some);
        },
        RholangNode::PeekBind { names, remainder, source, .. } => {
            if remainder == Some(c) { assert(validation_opt(remainder) == validation(*c)); }
            if names@.contains(c) { lemma_seq_fails(names@, c); }
            assert(validation(n) is Some);
        },
        RholangNode::ReceiveSendSource { name, .. } => {
            assert(validation(n) is Some);
        },
        RholangNode::SendReceiveSource { name, inputs, .. } => {
            if inputs@.contains(c) { lemma_seq_fails(inputs@, c); }
            assert(validation(n) is Some);
        },
        RholangNode::Error { children, .. } => {
            if children@.contains(c) { lemma_seq_fails(children@, c); }
            assert(validation(n) is Some);
        },
        RholangNode::Disjunction { left, right, .. } => {
            assert(validation(n) is Some);
        },
        RholangNode::Conjunction { left, right, .. } => {
            assert(validation(n) is Some);
        },
        RholangNode::Negation { operand, .. } => {
            assert(validation(n) is Some);
        },
        _ => {},
    }
}

/// Where node `n` ends when the previous node ended at `prev`.
fn end_after_exec(n: &RholangNode, prev: Position) -> (r: Position)
    requires
        node_fits(*n, prev),
    ensures
        r == end_after(*n, prev),
{
    let base = n.base();
    let start = start_position(base, prev);
    compute_end_position(start, base.span_lines(), base.span_columns(), base.syntactic_length())
}

/// The error text for a reserved name: `head`, the name, `tail`, then the
/// row and column of `at` when given.
fn message(head: &str, name: &str, tail: &str, at: Option<Position>) -> (s: String)
    ensures
        s@ == head@ + name@ + tail@ + match at {
            Some(p) => decimal(p.row as nat) + ":"@ + decimal(p.column as nat),
            None => Seq::empty(),
        },
{
    let mut v: Vec<char> = Vec::new();
    push_str(&mut v, head);
    push_str(&mut v, name);
    push_str(&mut v, tail);
    match at {
        Some(p) => {
            push_decimal(&mut v, p.row);
            push_str(&mut v, ":");
            push_decimal(&mut v, p.column);
        },
        None => {},
    }
    let s = string_from_chars(&v);
    proof {
        match at {
            Some(p) => {
                assert(s@ =~= head@ + name@ + tail@ + (decimal(p.row as nat) + ":"@ + decimal(p.column as nat)));
            },
            None => {
                assert(s@ =~= head@ + name@ + tail@ + Seq::<char>::empty());
            },
        }
    }
    s
}

/// The error of a channel, if it is a variable with a reserved name.
fn check_channel(channel: &RholangNode) -> (r: Result<(), String>)
    ensures
        match r {
            Ok(()) => channel_error(*channel) is None,
            Err(e) => channel_error(*channel) == Some(e@),
        },
{
    match channel {
        RholangNode::Var { name, .. } => {
            if is_reserved_keyword(name.as_str()) {
                let e = message("Channel name '", name.as_str(), "' is a reserved keyword", None);
                proof {
                    reveal_strlit("Channel name '");
                    reveal_strlit("' is a reserved keyword");
                    assert(e@ =~= channel_message(name@));
                }
                return Err(e);
            }
            Ok(())
        },
        _ => Ok(()),
    }
}
/// Once a prefix has an error, the whole sequence has that error.
proof fn lemma_seq_error_prefix(s: Seq<Arc<RholangNode>>, k: int)
    requires
        0 <= k <= s.len(),
        validation_seq(s.take(k)) is Some,
    ensures
        validation_seq(s) == validation_seq(s.take(k)),
    decreases s.len() - k,
{
    reveal(validation);
    if k < s.len() {
        assert(s.take(k + 1).drop_last() =~= s.take(k));
        assert(s.take(k + 1).last() == s[k]);
        lemma_seq_error_prefix(s, k + 1);
    } else {
        assert(s.take(k) =~= s);
    }
}

/// Once a prefix has an error, the whole sequence has that error.
proof fn lemma_pairs_error_prefix(s: Seq<(Arc<RholangNode>, Arc<RholangNode>)>, k: int)
    requires
        0 <= k <= s.len(),
        validation_pairs(s.take(k)) is Some,
    ensures
        validation_pairs(s) == validation_pairs(s.take(k)),
    decreases s.len() - k,
{
    reveal(validation);
    if k < s.len() {
        assert(s.take(k + 1).drop_last() =~= s.take(k));
        assert(s.take(k + 1).last() == s[k]);
        lemma_pairs_error_prefix(s, k + 1);
    } else {
        assert(s.take(k) =~= s);
    }
}

/// Once a prefix has an error, the whole sequence has that error.
proof fn lemma_receipts_error_prefix(s: Seq<Vec<Arc<RholangNode>>>, k: int)
    requires
        0 <= k <= s.len(),
        validation_receipts(s.take(k)) is Some,
    ensures
        validation_receipts(s) == validation_receipts(s.take(k)),
    decreases s.len() - k,
{
    reveal(validation);
    if k < s.len() {
        assert(s.take(k + 1).drop_last() =~= s.take(k));
        assert(s.take(k + 1).last() == s[k]);
        lemma_receipts_error_prefix(s, k + 1);
    } else {
        assert(s.take(k) =~= s);
    }
}

/// Once a prefix has an error, the whole sequence has that error.
proof fn lemma_cases_error_prefix(s: Seq<(Arc<RholangNode>, Arc<RholangNode>)>, prev: Position, k: int)
    requires
        0 <= k <= s.len(),
        validation_cases(s.take(k), prev) is Some,
    ensures
        validation_cases(s, prev) == validation_cases(s.take(k), prev),
    decreases s.len() - k,
{
    reveal(validation);
    if k < s.len() {
        assert(s.take(k + 1).drop_last() =~= s.take(k));
        assert(s.take(k + 1).last() == s[k]);
        lemma_cases_error_prefix(s, prev, k + 1);
    } else {
        assert(s.take(k) =~= s);
    }
}

/// Once a prefix has an error, the whole sequence has that error.
proof fn lemma_names_error_prefix(s: Seq<Arc<RholangNode>>, prev: Position, k: int)
    requires
        0 <= k <= s.len(),
        validation_names(s.take(k), prev) is Some,
    ensures
        validation_names(s, prev) == validation_names(s.take(k), prev),
    decreases s.len() - k,
{
    reveal(validation);
    if k < s.len() {
        assert(s.take(k + 1).drop_last() =~= s.take(k));
        assert(s.take(k + 1).last() == s[k]);
        lemma_names_error_prefix(s, prev, k + 1);
    } else {
        assert(s.take(k) =~= s);
    }
}

/// Once a prefix has an error, the whole sequence has that error.
proof fn lemma_inputs_error_prefix(s: Seq<Arc<RholangNode>>, prev: Position, k: int)
    requires
        0 <= k <= s.len(),
        validation_inputs(s.take(k), prev) is Some,
    ensures
        validation_inputs(s, prev) == validation_inputs(s.take(k), prev),
    decreases s.len() - k,
{
    reveal(validation);
    if k < s.len() {
        assert(s.take(k + 1).drop_last() =~= s.take(k));
        assert(s.take(k + 1).last() == s[k]);
        lemma_inputs_error_prefix(s, prev, k + 1);
    } else {
        assert(s.take(k) =~= s);
    }
}

/// Once a prefix has an error, the whole sequence has that error.
proof fn lemma_branches_error_prefix(s: Seq<(Vec<Arc<RholangNode>>, Arc<RholangNode>)>, prev: Position, k: int)
    requires
        0 <= k <= s.len(),
        validation_branches(s.take(k), prev) is Some,
    ensures
        validation_branches(s, prev) == validation_branches(s.take(k), prev),
    decreases s.len() - k,
{
    reveal(validation);
    if k < s.len() {
        assert(s.take(k + 1).drop_last() =~= s.take(k));
        assert(s.take(k + 1).last() == s[k]);
        lemma_branches_error_prefix(s, prev, k + 1);
    } else {
        assert(s.take(k) =~= s);
    }
}

/// A prefix of a sequence that fits fits too, and so does the next element.
proof fn lemma_fits_all_prefix(s: Seq<Arc<RholangNode>>, k: int)
    requires
        0 <= k < s.len(),
        fits_all(s),
    ensures
        fits_all(s.take(k)),
        validation_fits(*s[k]),
    decreases s.len() - k,
{
    reveal(validation_fits);
    if k + 1 < s.len() {
        lemma_fits_all_prefix(s, k + 1);
    }
    assert(s.take(k + 1).drop_last() =~= s.take(k));
    assert(s.take(k + 1).last() == s[k]);
    if k + 1 == s.len() {
        assert(s.take(k + 1) =~= s);
    }
}

/// A prefix of a sequence that fits fits too, and so does the next element.
proof fn lemma_fits_all_pairs_prefix(s: Seq<(Arc<RholangNode>, Arc<RholangNode>)>, k: int)
    requires
        0 <= k < s.len(),
        fits_all_pairs(s),
    ensures
        fits_all_pairs(s.take(k)),
        validation_fits(*s[k].0) && validation_fits(*s[k].1),
    decreases s.len() - k,
{
    reveal(validation_fits);
    if k + 1 < s.len() {
        lemma_fits_all_pairs_prefix(s, k + 1);
    }
    assert(s.take(k + 1).drop_last() =~= s.take(k));
    assert(s.take(k + 1).last() == s[k]);
    if k + 1 == s.len() {
        assert(s.take(k + 1) =~= s);
    }
}

/// A prefix of a sequence that fits fits too, and so does the next element.
proof fn lemma_fits_all_receipts_prefix(s: Seq<Vec<Arc<RholangNode>>>, k: int)
    requires
        0 <= k < s.len(),
        fits_all_receipts(s),
    ensures
        fits_all_receipts(s.take(k)),
        fits_all(s[k]@),
    decreases s.len() - k,
{
    reveal(validation_fits);
    if k + 1 < s.len() {
        lemma_fits_all_receipts_prefix(s, k + 1);
    }
    assert(s.take(k + 1).drop_last() =~= s.take(k));
    assert(s.take(k + 1).last() == s[k]);
    if k + 1 == s.len() {
        assert(s.take(k + 1) =~= s);
    }
}

/// A prefix of a sequence that fits fits too, and so does the next element.
proof fn lemma_fits_all_inputs_prefix(s: Seq<Arc<RholangNode>>, k: int)
    requires
        0 <= k < s.len(),
        fits_all_inputs(s),
    ensures
        fits_all_inputs(s.take(k)),
        validation_fits(*s[k]) && match *s[k] { RholangNode::LinearBind { remainder, .. } => fits_opt_all(remainder), _ => true },
    decreases s.len() - k,
{
    reveal(validation_fits);
    if k + 1 < s.len() {
        lemma_fits_all_inputs_prefix(s, k + 1);
    }
    assert(s.take(k + 1).drop_last() =~= s.take(k));
    assert(s.take(k + 1).last() == s[k]);
    if k + 1 == s.len() {
        assert(s.take(k + 1) =~= s);
    }
}

/// A prefix of a sequence that fits fits too, and so does the next element.
proof fn lemma_fits_all_branches_prefix(s: Seq<(Vec<Arc<RholangNode>>, Arc<RholangNode>)>, k: int)
    requires
        0 <= k < s.len(),
        fits_all_branches(s),
    ensures
        fits_all_branches(s.take(k)),
        fits_all_inputs(s[k].0@) && validation_fits(*s[k].1),
    decreases s.len() - k,
{
    reveal(validation_fits);
    if k + 1 < s.len() {
        lemma_fits_all_branches_prefix(s, k + 1);
    }
    assert(s.take(k + 1).drop_last() =~= s.take(k));
    assert(s.take(k + 1).last() == s[k]);
    if k + 1 == s.len() {
        assert(s.take(k + 1) =~= s);
    }
}

/// A prefix of a layout that fits fits too, and so does the next element.
proof fn lemma_seq_fits_prefix(s: Seq<Arc<RholangNode>>, prev: Position, k: int)
    requires
        0 <= k < s.len(),
        seq_fits(s, prev),
    ensures
        seq_fits(s.take(k), prev),
        node_fits(*s[k], ends_seq(s.take(k), prev)),
    decreases s.len() - k,
{
    if k + 1 < s.len() {
        lemma_seq_fits_prefix(s, prev, k + 1);
    }
    assert(s.take(k + 1).drop_last() =~= s.take(k));
    assert(s.take(k + 1).last() == s[k]);
    if k + 1 == s.len() {
        assert(s.take(k + 1) =~= s);
    }
}

/// A prefix of a layout that fits fits too, and so does the next element.
proof fn lemma_pairs_fit_prefix(s: Seq<(Arc<RholangNode>, Arc<RholangNode>)>, prev: Position, k: int)
    requires
        0 <= k < s.len(),
        pairs_fit(s, prev),
    ensures
        pairs_fit(s.take(k), prev),
        node_fits(*s[k].0, ends_pairs(s.take(k), prev)) && node_fits(*s[k].1, end_after(*s[k].0, ends_pairs(s.take(k), prev))),
    decreases s.len() - k,
{
    if k + 1 < s.len() {
        lemma_pairs_fit_prefix(s, prev, k + 1);
    }
    assert(s.take(k + 1).drop_last() =~= s.take(k));
    assert(s.take(k + 1).last() == s[k]);
    if k + 1 == s.len() {
        assert(s.take(k + 1) =~= s);
    }
}

/// A prefix of a layout that fits fits too, and so does the next element.
proof fn lemma_inputs_fit_prefix(s: Seq<Arc<RholangNode>>, prev: Position, k: int)
    requires
        0 <= k < s.len(),
        inputs_fit(s, prev),
    ensures
        inputs_fit(s.take(k), prev),
        node_fits(*s[k], ends_seq(s.take(k), prev)) && seq_fits(bind_names(*s[k]), node_start(*s[k], ends_seq(s.take(k), prev))),
    decreases s.len() - k,
{
    if k + 1 < s.len() {
        lemma_inputs_fit_prefix(s, prev, k + 1);
    }
    assert(s.take(k + 1).drop_last() =~= s.take(k));
    assert(s.take(k + 1).last() == s[k]);
    if k + 1 == s.len() {
        assert(s.take(k + 1) =~= s);
    }
}

/// A prefix of a layout that fits fits too, and so does the next element.
proof fn lemma_branches_fit_prefix(s: Seq<(Vec<Arc<RholangNode>>, Arc<RholangNode>)>, prev: Position, k: int)
    requires
        0 <= k < s.len(),
        branches_fit(s, prev),
    ensures
        branches_fit(s.take(k), prev),
        inputs_fit(s[k].0@, ends_branches(s.take(k), prev)) && node_fits(*s[k].1, ends_seq(s[k].0@, ends_branches(s.take(k), prev))),
    decreases s.len() - k,
{
    if k + 1 < s.len() {
        lemma_branches_fit_prefix(s, prev, k + 1);
    }
    assert(s.take(k + 1).drop_last() =~= s.take(k));
    assert(s.take(k + 1).last() == s[k]);
    if k + 1 == s.len() {
        assert(s.take(k + 1) =~= s);
    }
}

/// Validates an optional tree.
fn validate_opt(o: &Option<Arc<RholangNode>>) -> (r: Result<(), String>)
    requires
        fits_opt_all(*o),
    ensures
        match r {
            Ok(()) => validation_opt(*o) is None,
            Err(e) => validation_opt(*o) == Some(e@),
        },
    decreases *o, 2nat,
{
    proof {
        reveal(validation);
        reveal(validation_fits);
    }
    match o {
        Some(a) => a.validate(),
        None => Ok(()),
    }
}

/// Validates trees in order, stopping at the first error.
fn validate_seq(v: &Vec<Arc<RholangNode>>) -> (r: Result<(), String>)
    requires
        fits_all(v@),
    ensures
        match r {
            Ok(()) => validation_seq(v@) is None,
            Err(e) => validation_seq(v@) == Some(e@),
        },
    decreases *v, 2nat,
{
    proof {
        reveal(validation);
    }
    let mut i: usize = 0;
    assert(v@.take(0) =~= Seq::<Arc<RholangNode>>::empty());
    while i < v.len()
        invariant
            i <= v@.len(),
            fits_all(v@),
            validation_seq(v@.take(i as int)) is None,
        decreases v@.len() - i,
    {
        proof {
            reveal(validation);
            reveal(validation_fits);
            lemma_fits_all_prefix(v@, i as int);
            assert(v@.take(i + 1).drop_last() =~= v@.take(i as int));
            assert(v@.take(i + 1).last() == v@[i as int]);
            assert(decreases_to!(*v => v@[i as int]));
        }
        match v[i].validate() {
            Err(e) => {
                proof {
                    reveal(validation);
                    lemma_seq_error_prefix(v@, i + 1);
                }
                return Err(e);
            },
            Ok(()) => {},
        }
        i += 1;
    }
    assert(v@.take(v@.len() as int) =~= v@);
    Ok(())
}

/// Validates pairs of trees in order, each key before its value.
fn validate_pairs(v: &Vec<(Arc<RholangNode>, Arc<RholangNode>)>) -> (r: Result<(), String>)
    requires
        fits_all_pairs(v@),
    ensures
        match r {
            Ok(()) => validation_pairs(v@) is None,
            Err(e) => validation_pairs(v@) == Some(e@),
        },
    decreases *v, 2nat,
{
    proof {
        reveal(validation);
    }
    let mut i: usize = 0;
    assert(v@.take(0) =~= Seq::<(Arc<RholangNode>, Arc<RholangNode>)>::empty());
    while i < v.len()
        invariant
            i <= v@.len(),
            fits_all_pairs(v@),
            validation_pairs(v@.take(i as int)) is None,
        decreases v@.len() - i,
    {
        proof {
            reveal(validation);
            reveal(validation_fits);
            lemma_fits_all_pairs_prefix(v@, i as int);
            assert(v@.take(i + 1).drop_last() =~= v@.take(i as int));
            assert(v@.take(i + 1).last() == v@[i as int]);
            assert(decreases_to!(*v => v@[i as int]));
            assert(decreases_to!(v@[i as int] => v@[i as int].0));
            assert(decreases_to!(v@[i as int] => v@[i as int].1));
        }
        match v[i].0.validate() {
            Err(e) => {
                proof {
                    reveal(validation);
                    lemma_pairs_error_prefix(v@, i + 1);
                }
                return Err(e);
            },
            Ok(()) => {},
        }
        match v[i].1.validate() {
            Err(e) => {
                proof {
                    reveal(validation);
                    lemma_pairs_error_prefix(v@, i + 1);
                }
                return Err(e);
            },
            Ok(()) => {},
        }
        i += 1;
    }
    assert(v@.take(v@.len() as int) =~= v@);
    Ok(())
}

/// Validates receipts in order, the binds of each in order.
fn validate_receipts(v: &Vec<Vec<Arc<RholangNode>>>) -> (r: Result<(), String>)
    requires
        fits_all_receipts(v@),
    ensures
        match r {
            Ok(()) => validation_receipts(v@) is None,
            Err(e) => validation_receipts(v@) == Some(e@),
        },
    decreases *v, 2nat,
{
    proof {
        reveal(validation);
    }
    let mut i: usize = 0;
    assert(v@.take(0) =~= Seq::<Vec<Arc<RholangNode>>>::empty());
    while i < v.len()
        invariant
            i <= v@.len(),
            fits_all_receipts(v@),
            validation_receipts(v@.take(i as int)) is None,
        decreases v@.len() - i,
    {
        proof {
            reveal(validation);
            reveal(validation_fits);
            lemma_fits_all_receipts_prefix(v@, i as int);
            assert(v@.take(i + 1).drop_last() =~= v@.take(i as int));
            assert(v@.take(i + 1).last() == v@[i as int]);
            assert(decreases_to!(*v => v@[i as int]));
        }
        match validate_seq(&v[i]) {
            Err(e) => {
                proof {
                    reveal(validation);
                    lemma_receipts_error_prefix(v@, i + 1);
                }
                return Err(e);
            },
            Ok(()) => {},
        }
        i += 1;
    }
    assert(v@.take(v@.len() as int) =~= v@);
    Ok(())
}

/// Validates match cases laid out from `prev`.
fn validate_cases(v: &Vec<(Arc<RholangNode>, Arc<RholangNode>)>, prev: Position) -> (r: Result<(), String>)
    requires
        fits_all_pairs(v@),
        pairs_fit(v@, prev),
    ensures
        match r {
            Ok(()) => validation_cases(v@, prev) is None,
            Err(e) => validation_cases(v@, prev) == Some(e@),
        },
    decreases *v, 2nat,
{
    proof {
        reveal(validation);
    }
    let mut i: usize = 0;
    let mut p = prev;
    assert(v@.take(0) =~= Seq::<(Arc<RholangNode>, Arc<RholangNode>)>::empty());
    while i < v.len()
        invariant
            i <= v@.len(),
            fits_all_pairs(v@),
            pairs_fit(v@, prev),
            p == ends_pairs(v@.take(i as int), prev),
            validation_cases(v@.take(i as int), prev) is None,
        decreases v@.len() - i,
    {
        proof {
            reveal(validation);
            reveal(validation_fits);
            lemma_fits_all_pairs_prefix(v@, i as int);
            lemma_pairs_fit_prefix(v@, prev, i as int);
            assert(v@.take(i + 1).drop_last() =~= v@.take(i as int));
            assert(v@.take(i + 1).last() == v@[i as int]);
            assert(decreases_to!(*v => v@[i as int]));
            assert(decreases_to!(v@[i as int] => v@[i as int].0));
            assert(decreases_to!(v@[i as int] => v@[i as int].1));
        }
        let pat = &v[i].0;
        let body = &v[i].1;
        let mut reserved = false;
        match &**pat {
            RholangNode::Var { name, .. } => {
                if is_reserved_keyword(name.as_str()) {
                    let at = start_position(pat.base(), p);
                    let e = message("Match pattern '", name.as_str(), "' uses reserved keyword at ", Some(at));
                    proof {
                        reveal_strlit("Match pattern '");
                        reveal_strlit("' uses reserved keyword at ");
                        reveal_strlit(":");
                        assert(e@ =~= pattern_message(name@, at));
                        lemma_cases_error_prefix(v@, prev, i + 1);
                    }
                    return Err(e);
                }
            },
            _ => {},
        }
        match pat.validate() {
            Err(e) => {
                proof {
                    reveal(validation);
                    lemma_cases_error_prefix(v@, prev, i + 1);
                }
                return Err(e);
            },
            Ok(()) => {},
        }
        match body.validate() {
            Err(e) => {
                proof {
                    reveal(validation);
                    lemma_cases_error_prefix(v@, prev, i + 1);
                }
                return Err(e);
            },
            Ok(()) => {},
        }
        let after_pat = end_after_exec(pat, p);
        p = end_after_exec(body, after_pat);
        i += 1;
    }
    assert(v@.take(v@.len() as int) =~= v@);
    Ok(())
}

/// Reports the first reserved name among the names of a linear bind laid out from `prev`.
fn validate_names(v: &Vec<Arc<RholangNode>>, prev: Position) -> (r: Result<(), String>)
    requires
        seq_fits(v@, prev),
    ensures
        match r {
            Ok(()) => validation_names(v@, prev) is None,
            Err(e) => validation_names(v@, prev) == Some(e@),
        },
{
    proof {
        reveal(validation);
    }
    let mut i: usize = 0;
    let mut p = prev;
    assert(v@.take(0) =~= Seq::<Arc<RholangNode>>::empty());
    while i < v.len()
        invariant
            i <= v@.len(),
            seq_fits(v@, prev),
            p == ends_seq(v@.take(i as int), prev),
            validation_names(v@.take(i as int), prev) is None,
        decreases v@.len() - i,
    {
        proof {
            reveal(validation);
            reveal(validation_fits);
            lemma_seq_fits_prefix(v@, prev, i as int);
            assert(v@.take(i + 1).drop_last() =~= v@.take(i as int));
            assert(v@.take(i + 1).last() == v@[i as int]);
        }
        let n = &v[i];
        match &**n {
            RholangNode::Var { name, .. } => {
                if is_reserved_keyword(name.as_str()) {
                    let at = start_position(n.base(), p);
                    let e = message("Select variable '", name.as_str(), "' uses reserved keyword at ", Some(at));
                    proof {
                        reveal_strlit("Select variable '");
                        reveal_strlit("' uses reserved keyword at ");
                        reveal_strlit(":");
                        assert(e@ =~= select_message(name@, at));
                        lemma_names_error_prefix(v@, prev, i + 1);
                    }
                    return Err(e);
                }
            },
            _ => {},
        }
        p = end_after_exec(n, p);
        i += 1;
    }
    assert(v@.take(v@.len() as int) =~= v@);
    Ok(())
}

/// Validates the binds of a branch laid out from `prev`.
fn validate_inputs(v: &Vec<Arc<RholangNode>>, prev: Position) -> (r: Result<(), String>)
    requires
        fits_all_inputs(v@),
        inputs_fit(v@, prev),
    ensures
        match r {
            Ok(()) => validation_inputs(v@, prev) is None,
            Err(e) => validation_inputs(v@, prev) == Some(e@),
        },
    decreases *v, 2nat,
{
    proof {
        reveal(validation);
    }
    let mut i: usize = 0;
    let mut p = prev;
    assert(v@.take(0) =~= Seq::<Arc<RholangNode>>::empty());
    while i < v.len()
        invariant
            i <= v@.len(),
            fits_all_inputs(v@),
            inputs_fit(v@, prev),
            p == ends_seq(v@.take(i as int), prev),
            validation_inputs(v@.take(i as int), prev) is None,
        decreases v@.len() - i,
    {
        proof {
            reveal(validation);
            reveal(validation_fits);
            lemma_fits_all_inputs_prefix(v@, i as int);
            lemma_inputs_fit_prefix(v@, prev, i as int);
            assert(v@.take(i + 1).drop_last() =~= v@.take(i as int));
            assert(v@.take(i + 1).last() == v@[i as int]);
            assert(decreases_to!(*v => v@[i as int]));
        }
        let input = &v[i];
        match &**input {
            RholangNode::LinearBind { names, remainder, .. } => {
                let at = start_position(input.base(), p);
                match validate_names(names, at) {
                    Err(e) => {
                        proof {
                            reveal(validation);
                            lemma_inputs_error_prefix(v@, prev, i + 1);
                        }
                        return Err(e);
                    },
                    Ok(()) => {},
                }
                proof {
                    assert(decreases_to!(*v => v@[i as int]));
                    assert(decreases_to!(**input => (**input)->LinearBind_remainder));
                }
                match validate_opt(remainder) {
                    Err(e) => {
                        proof {
                            reveal(validation);
                            lemma_inputs_error_prefix(v@, prev, i + 1);
                        }
                        return Err(e);
                    },
                    Ok(()) => {},
                }
            },
            _ => {},
        }
        match input.validate() {
            Err(e) => {
                proof {
                    reveal(validation);
                    lemma_inputs_error_prefix(v@, prev, i + 1);
                }
                return Err(e);
            },
            Ok(()) => {},
        }
        p = end_after_exec(input, p);
        i += 1;
    }
    assert(v@.take(v@.len() as int) =~= v@);
    Ok(())
}

/// Validates branches laid out from `prev`, binds before body.
fn validate_branches(v: &Vec<(Vec<Arc<RholangNode>>, Arc<RholangNode>)>, prev: Position) -> (r: Result<(), String>)
    requires
        fits_all_branches(v@),
        branches_fit(v@, prev),
    ensures
        match r {
            Ok(()) => validation_branches(v@, prev) is None,
            Err(e) => validation_branches(v@, prev) == Some(e@),
        },
    decreases *v, 2nat,
{
    proof {
        reveal(validation);
    }
    let mut i: usize = 0;
    let mut p = prev;
    assert(v@.take(0) =~= Seq::<(Vec<Arc<RholangNode>>, Arc<RholangNode>)>::empty());
    while i < v.len()
        invariant
            i <= v@.len(),
            fits_all_branches(v@),
            branches_fit(v@, prev),
            p == ends_branches(v@.take(i as int), prev),
            validation_branches(v@.take(i as int), prev) is None,
        decreases v@.len() - i,
    {
        proof {
            reveal(validation);
            reveal(validation_fits);
            lemma_fits_all_branches_prefix(v@, i as int);
            lemma_branches_fit_prefix(v@, prev, i as int);
            assert(v@.take(i + 1).drop_last() =~= v@.take(i as int));
            assert(v@.take(i + 1).last() == v@[i as int]);
            assert(decreases_to!(*v => v@[i as int]));
            assert(decreases_to!(v@[i as int] => v@[i as int].0));
            assert(decreases_to!(v@[i as int] => v@[i as int].1));
        }
        match validate_inputs(&v[i].0, p) {
            Err(e) => {
                proof {
                    reveal(validation);
                    lemma_branches_error_prefix(v@, prev, i + 1);
                }
                return Err(e);
            },
            Ok(()) => {},
        }
        match v[i].1.validate() {
            Err(e) => {
                proof {
                    reveal(validation);
                    lemma_branches_error_prefix(v@, prev, i + 1);
                }
                return Err(e);
            },
            Ok(()) => {},
        }
        proof {
            lemma_inputs_fit_seq(v@[i as int].0@, p);
        }
        let after_inputs = ends_seq_exec(&v[i].0, p);
        p = end_after_exec(&v[i].1, after_inputs);
        i += 1;
    }
    assert(v@.take(v@.len() as int) =~= v@);
    Ok(())
}

/// Where the last of the nodes `v` ends, laid out from `prev`.
fn ends_seq_exec(v: &Vec<Arc<RholangNode>>, prev: Position) -> (r: Position)
    requires
        seq_fits(v@, prev),
    ensures
        r == ends_seq(v@, prev),
{
    let mut i: usize = 0;
    let mut p = prev;
    assert(v@.take(0) =~= Seq::<Arc<RholangNode>>::empty());
    while i < v.len()
        invariant
            i <= v@.len(),
            seq_fits(v@, prev),
            p == ends_seq(v@.take(i as int), prev),
        decreases v@.len() - i,
    {
        proof {
            reveal(validation);
            reveal(validation_fits);
            lemma_seq_fits_prefix(v@, prev, i as int);
            assert(v@.take(i + 1).drop_last() =~= v@.take(i as int));
            assert(v@.take(i + 1).last() == v@[i as int]);
        }
        p = end_after_exec(&v[i], p);
        i += 1;
    }
    assert(v@.take(v@.len() as int) =~= v@);
    p
}

/// Laying out binds that fit, and the names of each linear bind, fits as a plain layout.
proof fn lemma_inputs_fit_seq(s: Seq<Arc<RholangNode>>, prev: Position)
    requires
        inputs_fit(s, prev),
    ensures
        seq_fits(s, prev),
    decreases s.len(),
{
    if s.len() > 0 {
        lemma_inputs_fit_seq(s.drop_last(), prev);
    }
}

impl RholangNode {
    /// Checks that no reserved keyword names a channel of a send, a
    /// variable pattern of a match case, or a variable of a select's linear
    /// binds, visiting the tree in order and reporting the first offence;
    /// offences in match patterns and select variables come with their
    /// row and column in the match or select laid out as a document of its own.
    pub fn validate(&self) -> (r: Result<(), String>)
        requires
            validation_fits(*self),
        ensures
            match r {
                Ok(()) => validation(*self) is None,
                Err(e) => validation(*self) == Some(e@),
            },
        decreases *self, 2nat,
    {
        let tag = self.tag();
        if tag < 12 {
            validate_a(self)
        } else if tag < 24 {
            validate_b(self)
        } else if tag < 36 {
            validate_c(self)
        } else {
            validate_d(self)
        }
    }
}

fn validate_a(node: &RholangNode) -> (r: Result<(), String>)
    requires
        0 <= node.spec_tag() < 12,
        validation_fits(*node),
    ensures
        match r {
            Ok(()) => validation(*node) is None,
            Err(e) => validation(*node) == Some(e@),
        },
    decreases *node, 1nat,
{
    match node {
        RholangNode::Par { .. } => validate_par(node),
        RholangNode::SendSync { .. } => validate_send_sync(node),
        RholangNode::Send { .. } => validate_send(node),
        RholangNode::New { .. } => validate_new(node),
        RholangNode::IfElse { .. } => validate_if_else(node),
        RholangNode::Let { .. } => validate_let(node),
        RholangNode::Bundle { .. } => validate_bundle(node),
        RholangNode::Match { .. } => validate_match(node),
        RholangNode::Choice { .. } => validate_choice(node),
        RholangNode::Contract { .. } => validate_contract(node),
        RholangNode::Input { .. } => validate_input(node),
        RholangNode::Block { .. } => validate_block(node),
        _ => Ok(()),
    }
}

fn validate_b(node: &RholangNode) -> (r: Result<(), String>)
    requires
        12 <= node.spec_tag() < 24,
        validation_fits(*node),
    ensures
        match r {
            Ok(()) => validation(*node) is None,
            Err(e) => validation(*node) == Some(e@),
        },
    decreases *node, 1nat,
{
    match node {
        RholangNode::Parenthesized { .. } => validate_parenthesized(node),
        RholangNode::BinOp { .. } => validate_bin_op(node),
        RholangNode::UnaryOp { .. } => validate_unary_op(node),
        RholangNode::Method { .. } => validate_method(node),
        RholangNode::Eval { .. } => validate_eval(node),
        RholangNode::Quote { .. } => validate_quote(node),
        RholangNode::VarRef { .. } => validate_var_ref(node),
        RholangNode::BoolLiteral { .. } => {
            proof { reveal(validation); }
            Ok(())
        },
        RholangNode::LongLiteral { .. } => {
            proof { reveal(validation); }
            Ok(())
        },
        RholangNode::StringLiteral { .. } => {
            proof { reveal(validation); }
            Ok(())
        },
        RholangNode::UriLiteral { .. } => {
            proof { reveal(validation); }
            Ok(())
        },
        RholangNode::Nil { .. } => {
            proof { reveal(validation); }
            Ok(())
        },
        _ => Ok(()),
    }
}

fn validate_c(node: &RholangNode) -> (r: Result<(), String>)
    requires
        24 <= node.spec_tag() < 36,
        validation_fits(*node),
    ensures
        match r {
            Ok(()) => validation(*node) is None,
            Err(e) => validation(*node) == Some(e@),
        },
    decreases *node, 1nat,
{
    match node {
        RholangNode::List { .. } => validate_list(node),
        RholangNode::SetExpr { .. } => validate_set_expr(node),
        RholangNode::Pathmap { .. } => {
            proof { reveal(validation); }
            Ok(())
        },
        RholangNode::MapExpr { .. } => validate_map_expr(node),
        RholangNode::Tuple { .. } => validate_tuple(node),
        RholangNode::Var { .. } => {
            proof { reveal(validation); }
            Ok(())
        },
        RholangNode::NameDecl { .. } => validate_name_decl(node),
        RholangNode::Decl { .. } => validate_decl(node),
        RholangNode::LinearBind { .. } => validate_linear_bind(node),
        RholangNode::RepeatedBind { .. } => validate_repeated_bind(node),
        RholangNode::PeekBind { .. } => validate_peek_bind(node),
        RholangNode::Comment { .. } => {
            proof { reveal(validation); }
            Ok(())
        },
        _ => Ok(()),
    }
}

fn validate_d(node: &RholangNode) -> (r: Result<(), String>)
    requires
        36 <= node.spec_tag() < 45,
        validation_fits(*node),
    ensures
        match r {
            Ok(()) => validation(*node) is None,
            Err(e) => validation(*node) == Some(e@),
        },
    decreases *node, 1nat,
{
    match node {
        RholangNode::Wildcard { .. } => {
            proof { reveal(validation); }
            Ok(())
        },
        RholangNode::SimpleType { .. } => {
            proof { reveal(validation); }
            Ok(())
        },
        RholangNode::ReceiveSendSource { .. } => validate_receive_send_source(node),
        RholangNode::SendReceiveSource { .. } => validate_send_receive_source(node),
        RholangNode::Error { .. } => validate_error(node),
        RholangNode::Disjunction { .. } => validate_disjunction(node),
        RholangNode::Conjunction { .. } => validate_conjunction(node),
        RholangNode::Negation { .. } => validate_negation(node),
        RholangNode::Unit { .. } => {
            proof { reveal(validation); }
            Ok(())
        },
        _ => Ok(()),
    }
}

fn validate_send(node: &RholangNode) -> (r: Result<(), String>)
    requires
        *node is Send,
        validation_fits(*node),
    ensures
        match r {
            Ok(()) => validation(*node) is None,
            Err(e) => validation(*node) == Some(e@),
        },
    decreases *node, 0nat,
{
    proof { reveal(validation); reveal(validation_fits); }
    match node {
        RholangNode::Send { channel, .. } => check_channel(channel),
        _ => Ok(()),
    }
}

fn validate_send_sync(node: &RholangNode) -> (r: Result<(), String>)
    requires
        *node is SendSync,
        validation_fits(*node),
    ensures
        match r {
            Ok(()) => validation(*node) is None,
            Err(e) => validation(*node) == Some(e@),
        },
    decreases *node, 0nat,
{
    proof { reveal(validation); reveal(validation_fits); }
    match node {
        RholangNode::SendSync { channel, .. } => check_channel(channel),
        _ => Ok(()),
    }
}

fn validate_par(node: &RholangNode) -> (r: Result<(), String>)
    requires
        *node is Par,
        validation_fits(*node),
    ensures
        match r {
            Ok(()) => validation(*node) is None,
            Err(e) => validation(*node) == Some(e@),
        },
    decreases *node, 0nat,
{
    proof { reveal(validation); reveal(validation_fits); }
    match node {
        RholangNode::Par { left: Some(left), right: Some(right), .. } => {
            proof { assert(decreases_to!(*node => (*node)->Par_left)); assert(decreases_to!(*node => (*node)->Par_right)); }
            match left.validate() {
                Err(e) => return Err(e),
                Ok(()) => {},
            }
            right.validate()
        },
        RholangNode::Par { processes: Some(procs), .. } => {
            proof { assert(decreases_to!(*node => (*node)->Par_processes)); }
            validate_seq(procs)
        },
        _ => Ok(()),
    }
}

fn validate_match(node: &RholangNode) -> (r: Result<(), String>)
    requires
        *node is Match,
        validation_fits(*node),
    ensures
        match r {
            Ok(()) => validation(*node) is None,
            Err(e) => validation(*node) == Some(e@),
        },
    decreases *node, 0nat,
{
    proof { reveal(validation); reveal(validation_fits); }
    match node {
        RholangNode::Match { expression, cases, .. } => {
            proof { assert(decreases_to!(*node => (*node)->Match_expression)); assert(decreases_to!(*node => (*node)->Match_cases)); }
            match expression.validate() {
                Err(e) => return Err(e),
                Ok(()) => {},
            }
            let start = start_position(node.base(), Position { row: 0, column: 0, byte: 0 });
            let after_expression = end_after_exec(expression, start);
            validate_cases(cases, after_expression)
        },
        _ => Ok(()),
    }
}

fn validate_choice(node: &RholangNode) -> (r: Result<(), String>)
    requires
        *node is Choice,
        validation_fits(*node),
    ensures
        match r {
            Ok(()) => validation(*node) is None,
            Err(e) => validation(*node) == Some(e@),
        },
    decreases *node, 0nat,
{
    proof { reveal(validation); reveal(validation_fits); }
    match node {
        RholangNode::Choice { branches, .. } => {
            proof { assert(decreases_to!(*node => (*node)->Choice_branches)); }
            let start = start_position(node.base(), Position { row: 0, column: 0, byte: 0 });
            validate_branches(branches, start)
        },
        _ => Ok(()),
    }
}

fn validate_new(node: &RholangNode) -> (r: Result<(), String>)
    requires
        *node is New,
        validation_fits(*node),
    ensures
        match r {
            Ok(()) => validation(*node) is None,
            Err(e) => validation(*node) == Some(e@),
        },
    decreases *node, 0nat,
{
    proof { reveal(validation); reveal(validation_fits); }
    match node {
        RholangNode::New { decls, proc, .. } => {
            proof { assert(decreases_to!(*node => (*node)->New_decls)); assert(decreases_to!(*node => (*node)->New_proc)); }
            match validate_seq(decls) {
                Err(e) => return Err(e),
                Ok(()) => {},
            }
            match proc.validate() {
                Err(e) => return Err(e),
                Ok(()) => {},
            }
            Ok(())
        },
        _ => Ok(()),
    }
}

fn validate_if_else(node: &RholangNode) -> (r: Result<(), String>)
    requires
        *node is IfElse,
        validation_fits(*node),
    ensures
        match r {
            Ok(()) => validation(*node) is None,
            Err(e) => validation(*node) == Some(e@),
        },
    decreases *node, 0nat,
{
    proof { reveal(validation); reveal(validation_fits); }
    match node {
        RholangNode::IfElse { condition, consequence, alternative, .. } => {
            proof { assert(decreases_to!(*node => (*node)->IfElse_condition)); assert(decreases_to!(*node => (*node)->IfElse_consequence)); assert(decreases_to!(*node => (*node)->IfElse_alternative)); }
            match condition.validate() {
                Err(e) => return Err(e),
                Ok(()) => {},
            }
            match consequence.validate() {
                Err(e) => return Err(e),
                Ok(()) => {},
            }
            match validate_opt(alternative) {
                Err(e) => return Err(e),
                Ok(()) => {},
            }
            Ok(())
        },
        _ => Ok(()),
    }
}

fn validate_let(node: &RholangNode) -> (r: Result<(), String>)
    requires
        *node is Let,
        validation_fits(*node),
    ensures
        match r {
            Ok(()) => validation(*node) is None,
            Err(e) => validation(*node) == Some(e@),
        },
    decreases *node, 0nat,
{
    proof { reveal(validation); reveal(validation_fits); }
    match node {
        RholangNode::Let { decls, proc, .. } => {
            proof { assert(decreases_to!(*node => (*node)->Let_decls)); assert(decreases_to!(*node => (*node)->Let_proc)); }
            match validate_seq(decls) {
                Err(e) => return Err(e),
                Ok(()) => {},
            }
            match proc.validate() {
                Err(e) => return Err(e),
                Ok(()) => {},
            }
            Ok(())
        },
        _ => Ok(()),
    }
}

fn validate_bundle(node: &RholangNode) -> (r: Result<(), String>)
    requires
        *node is Bundle,
        validation_fits(*node),
    ensures
        match r {
            Ok(()) => validation(*node) is None,
            Err(e) => validation(*node) == Some(e@),
        },
    decreases *node, 0nat,
{
    proof { reveal(validation); reveal(validation_fits); }
    match node {
        RholangNode::Bundle { proc, .. } => {
            proof { assert(decreases_to!(*node => (*node)->Bundle_proc)); }
            match proc.validate() {
                Err(e) => return Err(e),
                Ok(()) => {},
            }
            Ok(())
        },
        _ => Ok(()),
    }
}

fn validate_contract(node: &RholangNode) -> (r: Result<(), String>)
    requires
        *node is Contract,
        validation_fits(*node),
    ensures
        match r {
            Ok(()) => validation(*node) is None,
            Err(e) => validation(*node) == Some(e@),
        },
    decreases *node, 0nat,
{
    proof { reveal(validation); reveal(validation_fits); }
    match node {
        RholangNode::Contract { name, formals, formals_remainder, proc, .. } => {
            proof { assert(decreases_to!(*node => (*node)->Contract_name)); assert(decreases_to!(*node => (*node)->Contract_formals)); assert(decreases_to!(*node => (*node)->Contract_formals_remainder)); assert(decreases_to!(*node => (*node)->Contract_proc)); }
            match name.validate() {
                Err(e) => return Err(e),
                Ok(()) => {},
            }
            match validate_seq(formals) {
                Err(e) => return Err(e),
                Ok(()) => {},
            }
            match validate_opt(formals_remainder) {
                Err(e) => return Err(e),
                Ok(()) => {},
            }
            match proc.validate() {
                Err(e) => return Err(e),
                Ok(()) => {},
            }
            Ok(())
        },
        _ => Ok(()),
    }
}

fn validate_input(node: &RholangNode) -> (r: Result<(), String>)
    requires
        *node is Input,
        validation_fits(*node),
    ensures
        match r {
            Ok(()) => validation(*node) is None,
            Err(e) => validation(*node) == Some(e@),
        },
    decreases *node, 0nat,
{
    proof { reveal(validation); reveal(validation_fits); }
    match node {
        RholangNode::Input { receipts, proc, .. } => {
            proof { assert(decreases_to!(*node => (*node)->Input_receipts)); assert(decreases_to!(*node => (*node)->Input_proc)); }
            match validate_receipts(receipts) {
                Err(e) => return Err(e),
                Ok(()) => {},
            }
            match proc.validate() {
                Err(e) => return Err(e),
                Ok(()) => {},
            }
            Ok(())
        },
        _ => Ok(()),
    }
}

fn validate_block(node: &RholangNode) -> (r: Result<(), String>)
    requires
        *node is Block,
        validation_fits(*node),
    ensures
        match r {
            Ok(()) => validation(*node) is None,
            Err(e) => validation(*node) == Some(e@),
        },
    decreases *node, 0nat,
{
    proof { reveal(validation); reveal(validation_fits); }
    match node {
        RholangNode::Block { proc, .. } => {
            proof { assert(decreases_to!(*node => (*node)->Block_proc)); }
            match proc.validate() {
                Err(e) => return Err(e),
                Ok(()) => {},
            }
            Ok(())
        },
        _ => Ok(()),
    }
}

fn validate_parenthesized(node: &RholangNode) -> (r: Result<(), String>)
    requires
        *node is Parenthesized,
        validation_fits(*node),
    ensures
        match r {
            Ok(()) => validation(*node) is None,
            Err(e) => validation(*node) == Some(e@),
        },
    decreases *node, 0nat,
{
    proof { reveal(validation); reveal(validation_fits); }
    match node {
        RholangNode::Parenthesized { expr, .. } => {
            proof { assert(decreases_to!(*node => (*node)->Parenthesized_expr)); }
            match expr.validate() {
                Err(e) => return Err(e),
                Ok(()) => {},
            }
            Ok(())
        },
        _ => Ok(()),
    }
}

fn validate_bin_op(node: &RholangNode) -> (r: Result<(), String>)
    requires
        *node is BinOp,
        validation_fits(*node),
    ensures
        match r {
            Ok(()) => validation(*node) is None,
            Err(e) => validation(*node) == Some(e@),
        },
    decreases *node, 0nat,
{
    proof { reveal(validation); reveal(validation_fits); }
    match node {
        RholangNode::BinOp { left, right, .. } => {
            proof { assert(decreases_to!(*node => (*node)->BinOp_left)); assert(decreases_to!(*node => (*node)->BinOp_right)); }
            match left.validate() {
                Err(e) => return Err(e),
                Ok(()) => {},
            }
            match right.validate() {
                Err(e) => return Err(e),
                Ok(()) => {},
            }
            Ok(())
        },
        _ => Ok(()),
    }
}

fn validate_unary_op(node: &RholangNode) -> (r: Result<(), String>)
    requires
        *node is UnaryOp,
        validation_fits(*node),
    ensures
        match r {
            Ok(()) => validation(*node) is None,
            Err(e) => validation(*node) == Some(e@),
        },
    decreases *node, 0nat,
{
    proof { reveal(validation); reveal(validation_fits); }
    match node {
        RholangNode::UnaryOp { operand, .. } => {
            proof { assert(decreases_to!(*node => (*node)->UnaryOp_operand)); }
            match operand.validate() {
                Err(e) => return Err(e),
                Ok(()) => {},
            }
            Ok(())
        },
        _ => Ok(()),
    }
}

fn validate_method(node: &RholangNode) -> (r: Result<(), String>)
    requires
        *node is Method,
        validation_fits(*node),
    ensures
        match r {
            Ok(()) => validation(*node) is None,
            Err(e) => validation(*node) == Some(e@),
        },
    decreases *node, 0nat,
{
    proof { reveal(validation); reveal(validation_fits); }
    match node {
        RholangNode::Method { receiver, args, .. } => {
            proof { assert(decreases_to!(*node => (*node)->Method_receiver)); assert(decreases_to!(*node => (*node)->Method_args)); }
            match receiver.validate() {
                Err(e) => return Err(e),
                Ok(()) => {},
            }
            match validate_seq(args) {
                Err(e) => return Err(e),
                Ok(()) => {},
            }
            Ok(())
        },
        _ => Ok(()),
    }
}

fn validate_eval(node: &RholangNode) -> (r: Result<(), String>)
    requires
        *node is Eval,
        validation_fits(*node),
    ensures
        match r {
            Ok(()) => validation(*node) is None,
            Err(e) => validation(*node) == Some(e@),
        },
    decreases *node, 0nat,
{
    proof { reveal(validation); reveal(validation_fits); }
    match node {
        RholangNode::Eval { name, .. } => {
            proof { assert(decreases_to!(*node => (*node)->Eval_name)); }
            match name.validate() {
                Err(e) => return Err(e),
                Ok(()) => {},
            }
            Ok(())
        },
        _ => Ok(()),
    }
}

fn validate_quote(node: &RholangNode) -> (r: Result<(), String>)
    requires
        *node is Quote,
        validation_fits(*node),
    ensures
        match r {
            Ok(()) => validation(*node) is None,
            Err(e) => validation(*node) == Some(e@),
        },
    decreases *node, 0nat,
{
    proof { reveal(validation); reveal(validation_fits); }
    match node {
        RholangNode::Quote { quotable, .. } => {
            proof { assert(decreases_to!(*node => (*node)->Quote_quotable)); }
            match quotable.validate() {
                Err(e) => return Err(e),
                Ok(()) => {},
            }
            Ok(())
        },
        _ => Ok(()),
    }
}

fn validate_var_ref(node: &RholangNode) -> (r: Result<(), String>)
    requires
        *node is VarRef,
        validation_fits(*node),
    ensures
        match r {
            Ok(()) => validation(*node) is None,
            Err(e) => validation(*node) == Some(e@),
        },
    decreases *node, 0nat,
{
    proof { reveal(validation); reveal(validation_fits); }
    match node {
        RholangNode::VarRef { var, .. } => {
            proof { assert(decreases_to!(*node => (*node)->VarRef_var)); }
            match var.validate() {
                Err(e) => return Err(e),
                Ok(()) => {},
            }
            Ok(())
        },
        _ => Ok(()),
    }
}

fn validate_list(node: &RholangNode) -> (r: Result<(), String>)
    requires
        *node is List,
        validation_fits(*node),
    ensures
        match r {
            Ok(()) => validation(*node) is None,
            Err(e) => validation(*node) == Some(e@),
        },
    decreases *node, 0nat,
{
    proof { reveal(validation); reveal(validation_fits); }
    match node {
        RholangNode::List { elements, remainder, .. } => {
            proof { assert(decreases_to!(*node => (*node)->List_elements)); assert(decreases_to!(*node => (*node)->List_remainder)); }
            match validate_seq(elements) {
                Err(e) => return Err(e),
                Ok(()) => {},
            }
            match validate_opt(remainder) {
                Err(e) => return Err(e),
                Ok(()) => {},
            }
            Ok(())
        },
        _ => Ok(()),
    }
}

fn validate_set_expr(node: &RholangNode) -> (r: Result<(), String>)
    requires
        *node is SetExpr,
        validation_fits(*node),
    ensures
        match r {
            Ok(()) => validation(*node) is None,
            Err(e) => validation(*node) == Some(e@),
        },
    decreases *node, 0nat,
{
    proof { reveal(validation); reveal(validation_fits); }
    match node {
        RholangNode::SetExpr { elements, remainder, .. } => {
            proof { assert(decreases_to!(*node => (*node)->SetExpr_elements)); assert(decreases_to!(*node => (*node)->SetExpr_remainder)); }
            match validate_seq(elements) {
                Err(e) => return Err(e),
                Ok(()) => {},
            }
            match validate_opt(remainder) {
                Err(e) => return Err(e),
                Ok(()) => {},
            }
            Ok(())
        },
        _ => Ok(()),
    }
}

fn validate_map_expr(node: &RholangNode) -> (r: Result<(), String>)
    requires
        *node is MapExpr,
        validation_fits(*node),
    ensures
        match r {
            Ok(()) => validation(*node) is None,
            Err(e) => validation(*node) == Some(e@),
        },
    decreases *node, 0nat,
{
    proof { reveal(validation); reveal(validation_fits); }
    match node {
        RholangNode::MapExpr { pairs, remainder, .. } => {
            proof { assert(decreases_to!(*node => (*node)->MapExpr_pairs)); assert(decreases_to!(*node => (*node)->MapExpr_remainder)); }
            match validate_pairs(pairs) {
                Err(e) => return Err(e),
                Ok(()) => {},
            }
            match validate_opt(remainder) {
                Err(e) => return Err(e),
                Ok(()) => {},
            }
            Ok(())
        },
        _ => Ok(()),
    }
}

fn validate_tuple(node: &RholangNode) -> (r: Result<(), String>)
    requires
        *node is Tuple,
        validation_fits(*node),
    ensures
        match r {
            Ok(()) => validation(*node) is None,
            Err(e) => validation(*node) == Some(e@),
        },
    decreases *node, 0nat,
{
    proof { reveal(validation); reveal(validation_fits); }
    match node {
        RholangNode::Tuple { elements, .. } => {
            proof { assert(decreases_to!(*node => (*node)->Tuple_elements)); }
            match validate_seq(elements) {
                Err(e) => return Err(e),
                Ok(()) => {},
            }
            Ok(())
        },
        _ => Ok(()),
    }
}

fn validate_name_decl(node: &RholangNode) -> (r: Result<(), String>)
    requires
        *node is NameDecl,
        validation_fits(*node),
    ensures
        match r {
            Ok(()) => validation(*node) is None,
            Err(e) => validation(*node) == Some(e@),
        },
    decreases *node, 0nat,
{
    proof { reveal(validation); reveal(validation_fits); }
    match node {
        RholangNode::NameDecl { var, uri, .. } => {
            proof { assert(decreases_to!(*node => (*node)->NameDecl_var)); assert(decreases_to!(*node => (*node)->NameDecl_uri)); }
            match var.validate() {
                Err(e) => return Err(e),
                Ok(()) => {},
            }
            match validate_opt(uri) {
                Err(e) => return Err(e),
                Ok(()) => {},
            }
            Ok(())
        },
        _ => Ok(()),
    }
}

fn validate_decl(node: &RholangNode) -> (r: Result<(), String>)
    requires
        *node is Decl,
        validation_fits(*node),
    ensures
        match r {
            Ok(()) => validation(*node) is None,
            Err(e) => validation(*node) == Some(e@),
        },
    decreases *node, 0nat,
{
    proof { reveal(validation); reveal(validation_fits); }
    match node {
        RholangNode::Decl { names, names_remainder, procs, .. } => {
            proof { assert(decreases_to!(*node => (*node)->Decl_names)); assert(decreases_to!(*node => (*node)->Decl_names_remainder)); assert(decreases_to!(*node => (*node)->Decl_procs)); }
            match validate_seq(names) {
                Err(e) => return Err(e),
                Ok(()) => {},
            }
            match validate_opt(names_remainder) {
                Err(e) => return Err(e),
                Ok(()) => {},
            }
            match validate_seq(procs) {
                Err(e) => return Err(e),
                Ok(()) => {},
            }
            Ok(())
        },
        _ => Ok(()),
    }
}

fn validate_linear_bind(node: &RholangNode) -> (r: Result<(), String>)
    requires
        *node is LinearBind,
        validation_fits(*node),
    ensures
        match r {
            Ok(()) => validation(*node) is None,
            Err(e) => validation(*node) == Some(e@),
        },
    decreases *node, 0nat,
{
    proof { reveal(validation); reveal(validation_fits); }
    match node {
        RholangNode::LinearBind { names, remainder, source, .. } => {
            proof { assert(decreases_to!(*node => (*node)->LinearBind_names)); assert(decreases_to!(*node => (*node)->LinearBind_remainder)); assert(decreases_to!(*node => (*node)->LinearBind_source)); }
            match validate_seq(names) {
                Err(e) => return Err(e),
                Ok(()) => {},
            }
            match validate_opt(remainder) {
                Err(e) => return Err(e),
                Ok(()) => {},
            }
            match source.validate() {
                Err(e) => return Err(e),
                Ok(()) => {},
            }
            Ok(())
        },
        _ => Ok(()),
    }
}

fn validate_repeated_bind(node: &RholangNode) -> (r: Result<(), String>)
    requires
        *node is RepeatedBind,
        validation_fits(*node),
    ensures
        match r {
            Ok(()) => validation(*node) is None,
            Err(e) => validation(*node) == Some(e@),
        },
    decreases *node, 0nat,
{
    proof { reveal(validation); reveal(validation_fits); }
    match node {
        RholangNode::RepeatedBind { names, remainder, source, .. } => {
            proof { assert(decreases_to!(*node => (*node)->RepeatedBind_names)); assert(decreases_to!(*node => (*node)->RepeatedBind_remainder)); assert(decreases_to!(*node => (*node)->RepeatedBind_source)); }
            match validate_seq(names) {
                Err(e) => return Err(e),
                Ok(()) => {},
            }
            match validate_opt(remainder) {
                Err(e) => return Err(e),
                Ok(()) => {},
            }
            match source.validate() {
                Err(e) => return Err(e),
                Ok(()) => {},
            }
            Ok(())
        },
        _ => Ok(()),
    }
}

fn validate_peek_bind(node: &RholangNode) -> (r: Result<(), String>)
    requires
        *node is PeekBind,
        validation_fits(*node),
    ensures
        match r {
            Ok(()) => validation(*node) is None,
            Err(e) => validation(*node) == Some(e@),
        },
    decreases *node, 0nat,
{
    proof { reveal(validation); reveal(validation_fits); }
    match node {
        RholangNode::PeekBind { names, remainder, source, .. } => {
            proof { assert(decreases_to!(*node => (*node)->PeekBind_names)); assert(decreases_to!(*node => (*node)->PeekBind_remainder)); assert(decreases_to!(*node => (*node)->PeekBind_source)); }
            match validate_seq(names) {
                Err(e) => return Err(e),
                Ok(()) => {},
            }
            match validate_opt(remainder) {
                Err(e) => return Err(e),
                Ok(()) => {},
            }
            match source.validate() {
                Err(e) => return Err(e),
                Ok(()) => {},
            }
            Ok(())
        },
        _ => Ok(()),
    }
}

fn validate_receive_send_source(node: &RholangNode) -> (r: Result<(), String>)
    requires
        *node is ReceiveSendSource,
        validation_fits(*node),
    ensures
        match r {
            Ok(()) => validation(*node) is None,
            Err(e) => validation(*node) == Some(e@),
        },
    decreases *node, 0nat,
{
    proof { reveal(validation); reveal(validation_fits); }
    match node {
        RholangNode::ReceiveSendSource { name, .. } => {
            proof { assert(decreases_to!(*node => (*node)->ReceiveSendSource_name)); }
            match name.validate() {
                Err(e) => return Err(e),
                Ok(()) => {},
            }
            Ok(())
        },
        _ => Ok(()),
    }
}

fn validate_send_receive_source(node: &RholangNode) -> (r: Result<(), String>)
    requires
        *node is SendReceiveSource,
        validation_fits(*node),
    ensures
        match r {
            Ok(()) => validation(*node) is None,
            Err(e) => validation(*node) == Some(e@),
        },
    decreases *node, 0nat,
{
    proof { reveal(validation); reveal(validation_fits); }
    match node {
        RholangNode::SendReceiveSource { name, inputs, .. } => {
            proof { assert(decreases_to!(*node => (*node)->SendReceiveSource_name)); assert(decreases_to!(*node => (*node)->SendReceiveSource_inputs)); }
            match name.validate() {
                Err(e) => return Err(e),
                Ok(()) => {},
            }
            match validate_seq(inputs) {
                Err(e) => return Err(e),
                Ok(()) => {},
            }
            Ok(())
        },
        _ => Ok(()),
    }
}

fn validate_error(node: &RholangNode) -> (r: Result<(), String>)
    requires
        *node is Error,
        validation_fits(*node),
    ensures
        match r {
            Ok(()) => validation(*node) is None,
            Err(e) => validation(*node) == Some(e@),
        },
    decreases *node, 0nat,
{
    proof { reveal(validation); reveal(validation_fits); }
    match node {
        RholangNode::Error { children, .. } => {
            proof { assert(decreases_to!(*node => (*node)->Error_children)); }
            match validate_seq(children) {
                Err(e) => return Err(e),
                Ok(()) => {},
            }
            Ok(())
        },
        _ => Ok(()),
    }
}

fn validate_disjunction(node: &RholangNode) -> (r: Result<(), String>)
    requires
        *node is Disjunction,
        validation_fits(*node),
    ensures
        match r {
            Ok(()) => validation(*node) is None,
            Err(e) => validation(*node) == Some(e@),
        },
    decreases *node, 0nat,
{
    proof { reveal(validation); reveal(validation_fits); }
    match node {
        RholangNode::Disjunction { left, right, .. } => {
            proof { assert(decreases_to!(*node => (*node)->Disjunction_left)); assert(decreases_to!(*node => (*node)->Disjunction_right)); }
            match left.validate() {
                Err(e) => return Err(e),
                Ok(()) => {},
            }
            match right.validate() {
                Err(e) => return Err(e),
                Ok(()) => {},
            }
            Ok(())
        },
        _ => Ok(()),
    }
}

fn validate_conjunction(node: &RholangNode) -> (r: Result<(), String>)
    requires
        *node is Conjunction,
        validation_fits(*node),
    ensures
        match r {
            Ok(()) => validation(*node) is None,
            Err(e) => validation(*node) == Some(e@),
        },
    decreases *node, 0nat,
{
    proof { reveal(validation); reveal(validation_fits); }
    match node {
        RholangNode::Conjunction { left, right, .. } => {
            proof { assert(decreases_to!(*node => (*node)->Conjunction_left)); assert(decreases_to!(*node => (*node)->Conjunction_right)); }
            match left.validate() {
                Err(e) => return Err(e),
                Ok(()) => {},
            }
            match right.validate() {
                Err(e) => return Err(e),
                Ok(()) => {},
            }
            Ok(())
        },
        _ => Ok(()),
    }
}

fn validate_negation(node: &RholangNode) -> (r: Result<(), String>)
    requires
        *node is Negation,
        validation_fits(*node),
    ensures
        match r {
            Ok(()) => validation(*node) is None,
            Err(e) => validation(*node) == Some(e@),
        },
    decreases *node, 0nat,
{
    proof { reveal(validation); reveal(validation_fits); }
    match node {
        RholangNode::Negation { operand, .. } => {
            proof { assert(decreases_to!(*node => (*node)->Negation_operand)); }
            match operand.validate() {
                Err(e) => return Err(e),
                Ok(()) => {},
            }
            Ok(())
        },
        _ => Ok(()),
    }
}


/// Whether node `n` laid out after `prev` stays in range.
fn node_fits_exec(n: &RholangNode, prev: Position) -> (b: bool)
    ensures
        b == node_fits(*n, prev),
{
    let base = n.base();
    if !start_position_fits_exec(base, prev) {
        return false;
    }
    let start = start_position(base, prev);
    absolute_end_fits(base, start)
}

/// Where the nodes `v` laid out from `prev` end, or `None` when the layout
/// leaves the range.
fn seq_layout_exec(v: &Vec<Arc<RholangNode>>, prev: Position) -> (r: Option<Position>)
    ensures
        match r {
            Some(p) => seq_fits(v@, prev) && p == ends_seq(v@, prev),
            None => !seq_fits(v@, prev),
        },
{
    let mut i: usize = 0;
    let mut p = prev;
    assert(v@.take(0) =~= Seq::<Arc<RholangNode>>::empty());
    while i < v.len()
        invariant
            i <= v@.len(),
            seq_fits(v@.take(i as int), prev),
            p == ends_seq(v@.take(i as int), prev),
        decreases v@.len() - i,
    {
        proof {
            assert(v@.take(i + 1).drop_last() =~= v@.take(i as int));
            assert(v@.take(i + 1).last() == v@[i as int]);
        }
        if !node_fits_exec(&v[i], p) {
            proof {
                if seq_fits(v@, prev) {
                    lemma_seq_fits_prefix(v@, prev, i as int);
                }
            }
            return None;
        }
        p = end_after_exec(&v[i], p);
        i += 1;
    }
    assert(v@.take(v@.len() as int) =~= v@);
    Some(p)
}

/// Where the node pairs `v` laid out from `prev` end, or `None` when the
/// layout leaves the range.
fn pairs_layout_exec(v: &Vec<(Arc<RholangNode>, Arc<RholangNode>)>, prev: Position) -> (r: Option<Position>)
    ensures
        match r {
            Some(p) => pairs_fit(v@, prev) && p == ends_pairs(v@, prev),
            None => !pairs_fit(v@, prev),
        },
{
    let mut i: usize = 0;
    let mut p = prev;
    assert(v@.take(0) =~= Seq::<(Arc<RholangNode>, Arc<RholangNode>)>::empty());
    while i < v.len()
        invariant
            i <= v@.len(),
            pairs_fit(v@.take(i as int), prev),
            p == ends_pairs(v@.take(i as int), prev),
        decreases v@.len() - i,
    {
        proof {
            assert(v@.take(i + 1).drop_last() =~= v@.take(i as int));
            assert(v@.take(i + 1).last() == v@[i as int]);
        }
        if !node_fits_exec(&v[i].0, p) {
            proof {
                if pairs_fit(v@, prev) {
                    lemma_pairs_fit_prefix(v@, prev, i as int);
                }
            }
            return None;
        }
        let q = end_after_exec(&v[i].0, p);
        if !node_fits_exec(&v[i].1, q) {
            proof {
                if pairs_fit(v@, prev) {
                    lemma_pairs_fit_prefix(v@, prev, i as int);
                }
            }
            return None;
        }
        p = end_after_exec(&v[i].1, q);
        i += 1;
    }
    assert(v@.take(v@.len() as int) =~= v@);
    Some(p)
}

/// Where the binds `v` laid out from `prev` end, or `None` when the layout,
/// or that of the names of a linear bind from its start, leaves the range.
fn inputs_layout_exec(v: &Vec<Arc<RholangNode>>, prev: Position) -> (r: Option<Position>)
    ensures
        match r {
            Some(p) => inputs_fit(v@, prev) && p == ends_seq(v@, prev),
            None => !inputs_fit(v@, prev),
        },
{
    let mut i: usize = 0;
    let mut p = prev;
    assert(v@.take(0) =~= Seq::<Arc<RholangNode>>::empty());
    while i < v.len()
        invariant
            i <= v@.len(),
            inputs_fit(v@.take(i as int), prev),
            p == ends_seq(v@.take(i as int), prev),
        decreases v@.len() - i,
    {
        proof {
            assert(v@.take(i + 1).drop_last() =~= v@.take(i as int));
            assert(v@.take(i + 1).last() == v@[i as int]);
        }
        let x = &v[i];
        if !node_fits_exec(x, p) {
            proof {
                if inputs_fit(v@, prev) {
                    lemma_inputs_fit_prefix(v@, prev, i as int);
                }
            }
            return None;
        }
        let start = start_position(x.base(), p);
        match &**x {
            RholangNode::LinearBind { names, .. } => {
                if seq_layout_exec(names, start).is_none() {
                    proof {
                        if inputs_fit(v@, prev) {
                            lemma_inputs_fit_prefix(v@, prev, i as int);
                        }
                    }
                    return None;
                }
            },
            _ => {
                assert(bind_names(**x) =~= Seq::<Arc<RholangNode>>::empty());
            },
        }
        p = end_after_exec(x, p);
        i += 1;
    }
    assert(v@.take(v@.len() as int) =~= v@);
    Some(p)
}

/// Where the branches `v` laid out from `prev` end, or `None` when the
/// layout leaves the range.
fn branches_layout_exec(v: &Vec<(Vec<Arc<RholangNode>>, Arc<RholangNode>)>, prev: Position) -> (r: Option<Position>)
    ensures
        match r {
            Some(p) => branches_fit(v@, prev) && p == ends_branches(v@, prev),
            None => !branches_fit(v@, prev),
        },
{
    let mut i: usize = 0;
    let mut p = prev;
    assert(v@.take(0) =~= Seq::<(Vec<Arc<RholangNode>>, Arc<RholangNode>)>::empty());
    while i < v.len()
        invariant
            i <= v@.len(),
            branches_fit(v@.take(i as int), prev),
            p == ends_branches(v@.take(i as int), prev),
        decreases v@.len() - i,
    {
        proof {
            assert(v@.take(i + 1).drop_last() =~= v@.take(i as int));
            assert(v@.take(i + 1).last() == v@[i as int]);
        }
        let q = match inputs_layout_exec(&v[i].0, p) {
            Some(q) => q,
            None => {
                proof {
                    if branches_fit(v@, prev) {
                        lemma_branches_fit_prefix(v@, prev, i as int);
                    }
                }
                return None;
            },
        };
        if !node_fits_exec(&v[i].1, q) {
            proof {
                if branches_fit(v@, prev) {
                    lemma_branches_fit_prefix(v@, prev, i as int);
                }
            }
            return None;
        }
        p = end_after_exec(&v[i].1, q);
        i += 1;
    }
    assert(v@.take(v@.len() as int) =~= v@);
    Some(p)
}

/// `validation_fits` of an optional tree, computed.
fn fits_opt_all_exec(o: &Option<Arc<RholangNode>>) -> (b: bool)
    ensures
        b == fits_opt_all(*o),
    decreases *o, 2nat,
{
    proof { reveal(validation_fits); }
    match o {
        Some(a) => validation_fits_exec(a),
        None => true,
    }
}

/// `validation_fits` of every tree, computed.
fn fits_all_exec(v: &Vec<Arc<RholangNode>>) -> (b: bool)
    ensures
        b == fits_all(v@),
    decreases *v, 2nat,
{
    proof { reveal(validation_fits); }
    let mut i: usize = 0;
    assert(v@.take(0) =~= Seq::<Arc<RholangNode>>::empty());
    while i < v.len()
        invariant
            i <= v@.len(),
            fits_all(v@.take(i as int)),
        decreases v@.len() - i,
    {
        proof {
            reveal(validation_fits);
            assert(v@.take(i + 1).drop_last() =~= v@.take(i as int));
            assert(v@.take(i + 1).last() == v@[i as int]);
            assert(decreases_to!(*v => v@[i as int]));
        }
        if !validation_fits_exec(&v[i]) {
            proof {
                if fits_all(v@) {
                    lemma_fits_all_prefix(v@, i as int);
                }
            }
            return false;
        }
        i += 1;
    }
    assert(v@.take(v@.len() as int) =~= v@);
    true
}

/// `validation_fits` of every tree of every pair, computed.
fn fits_all_pairs_exec(v: &Vec<(Arc<RholangNode>, Arc<RholangNode>)>) -> (b: bool)
    ensures
        b == fits_all_pairs(v@),
    decreases *v, 2nat,
{
    proof { reveal(validation_fits); }
    let mut i: usize = 0;
    assert(v@.take(0) =~= Seq::<(Arc<RholangNode>, Arc<RholangNode>)>::empty());
    while i < v.len()
        invariant
            i <= v@.len(),
            fits_all_pairs(v@.take(i as int)),
        decreases v@.len() - i,
    {
        proof {
            reveal(validation_fits);
            assert(v@.take(i + 1).drop_last() =~= v@.take(i as int));
            assert(v@.take(i + 1).last() == v@[i as int]);
            assert(decreases_to!(*v => v@[i as int]));
            assert(decreases_to!(v@[i as int] => v@[i as int].0));
            assert(decreases_to!(v@[i as int] => v@[i as int].1));
        }
        if !(validation_fits_exec(&v[i].0) && validation_fits_exec(&v[i].1)) {
            proof {
                if fits_all_pairs(v@) {
                    lemma_fits_all_pairs_prefix(v@, i as int);
                }
            }
            return false;
        }
        i += 1;
    }
    assert(v@.take(v@.len() as int) =~= v@);
    true
}

/// `validation_fits` of every bind of every receipt, computed.
fn fits_all_receipts_exec(v: &Vec<Vec<Arc<RholangNode>>>) -> (b: bool)
    ensures
        b == fits_all_receipts(v@),
    decreases *v, 2nat,
{
    proof { reveal(validation_fits); }
    let mut i: usize = 0;
    assert(v@.take(0) =~= Seq::<Vec<Arc<RholangNode>>>::empty());
    while i < v.len()
        invariant
            i <= v@.len(),
            fits_all_receipts(v@.take(i as int)),
        decreases v@.len() - i,
    {
        proof {
            reveal(validation_fits);
            assert(v@.take(i + 1).drop_last() =~= v@.take(i as int));
            assert(v@.take(i + 1).last() == v@[i as int]);
            assert(decreases_to!(*v => v@[i as int]));
        }
        if !fits_all_exec(&v[i]) {
            proof {
                if fits_all_receipts(v@) {
                    lemma_fits_all_receipts_prefix(v@, i as int);
                }
            }
            return false;
        }
        i += 1;
    }
    assert(v@.take(v@.len() as int) =~= v@);
    true
}

/// `validation_fits` of every bind and linear-bind remainder, computed.
fn fits_all_inputs_exec(v: &Vec<Arc<RholangNode>>) -> (b: bool)
    ensures
        b == fits_all_inputs(v@),
    decreases *v, 2nat,
{
    proof { reveal(validation_fits); }
    let mut i: usize = 0;
    assert(v@.take(0) =~= Seq::<Arc<RholangNode>>::empty());
    while i < v.len()
        invariant
            i <= v@.len(),
            fits_all_inputs(v@.take(i as int)),
        decreases v@.len() - i,
    {
        proof {
            reveal(validation_fits);
            assert(v@.take(i + 1).drop_last() =~= v@.take(i as int));
            assert(v@.take(i + 1).last() == v@[i as int]);
            assert(decreases_to!(*v => v@[i as int]));
        }
        let x = &v[i];
        let rest = match &**x {
            RholangNode::LinearBind { remainder, .. } => {
                proof { assert(decreases_to!(**x => (**x)->LinearBind_remainder)); }
                fits_opt_all_exec(remainder)
            },
            _ => true,
        };
        if !(validation_fits_exec(x) && rest) {
            proof {
                if fits_all_inputs(v@) {
                    lemma_fits_all_inputs_prefix(v@, i as int);
                }
            }
            return false;
        }
        i += 1;
    }
    assert(v@.take(v@.len() as int) =~= v@);
    true
}

/// `validation_fits` of every bind and body of every branch, computed.
fn fits_all_branches_exec(v: &Vec<(Vec<Arc<RholangNode>>, Arc<RholangNode>)>) -> (b: bool)
    ensures
        b == fits_all_branches(v@),
    decreases *v, 2nat,
{
    proof { reveal(validation_fits); }
    let mut i: usize = 0;
    assert(v@.take(0) =~= Seq::<(Vec<Arc<RholangNode>>, Arc<RholangNode>)>::empty());
    while i < v.len()
        invariant
            i <= v@.len(),
            fits_all_branches(v@.take(i as int)),
        decreases v@.len() - i,
    {
        proof {
            reveal(validation_fits);
            assert(v@.take(i + 1).drop_last() =~= v@.take(i as int));
            assert(v@.take(i + 1).last() == v@[i as int]);
            assert(decreases_to!(*v => v@[i as int]));
            assert(decreases_to!(v@[i as int] => v@[i as int].0));
            assert(decreases_to!(v@[i as int] => v@[i as int].1));
        }
        if !(fits_all_inputs_exec(&v[i].0) && validation_fits_exec(&v[i].1)) {
            proof {
                if fits_all_branches(v@) {
                    lemma_fits_all_branches_prefix(v@, i as int);
                }
            }
            return false;
        }
        i += 1;
    }
    assert(v@.take(v@.len() as int) =~= v@);
    true
}

/// Whether the positions that validating `n` may report stay in range:
/// `validation_fits`, computed.
pub fn validation_fits_exec(n: &RholangNode) -> (b: bool)
    ensures
        b == validation_fits(*n),
    decreases *n, 1nat,
{
    proof { reveal(validation_fits); }
    match n {
        RholangNode::Par { left, right, processes, .. } => {
            proof { assert(decreases_to!(*n => (*n)->Par_left)); assert(decreases_to!(*n => (*n)->Par_right)); assert(decreases_to!(*n => (*n)->Par_processes)); }
            match (left, right) {
                (Some(l), Some(r)) => validation_fits_exec(l) && validation_fits_exec(r),
                _ => match processes {
                    Some(p) => fits_all_exec(p),
                    None => true,
                },
            }
        },
        RholangNode::Match { expression, cases, .. } => {
            proof { assert(decreases_to!(*n => (*n)->Match_expression)); assert(decreases_to!(*n => (*n)->Match_cases)); }
            let origin = Position { row: 0, column: 0, byte: 0 };
            if !start_position_fits_exec(n.base(), origin) {
                return false;
            }
            let start = start_position(n.base(), origin);
            if !node_fits_exec(expression, start) {
                return false;
            }
            let after = end_after_exec(expression, start);
            pairs_layout_exec(cases, after).is_some() && validation_fits_exec(expression) && fits_all_pairs_exec(cases)
        },
        RholangNode::Choice { branches, .. } => {
            proof { assert(decreases_to!(*n => (*n)->Choice_branches)); }
            let origin = Position { row: 0, column: 0, byte: 0 };
            if !start_position_fits_exec(n.base(), origin) {
                return false;
            }
            let start = start_position(n.base(), origin);
            branches_layout_exec(branches, start).is_some() && fits_all_branches_exec(branches)
        },
        RholangNode::New { decls, proc, .. } => {
            proof { assert(decreases_to!(*n => (*n)->New_decls)); assert(decreases_to!(*n => (*n)->New_proc)); }
            fits_all_exec(decls) && validation_fits_exec(proc)
        },
        RholangNode::IfElse { condition, consequence, alternative, .. } => {
            proof { assert(decreases_to!(*n => (*n)->IfElse_condition)); assert(decreases_to!(*n => (*n)->IfElse_consequence)); assert(decreases_to!(*n => (*n)->IfElse_alternative)); }
            validation_fits_exec(condition) && validation_fits_exec(consequence) && fits_opt_all_exec(alternative)
        },
        RholangNode::Let { decls, proc, .. } => {
            proof { assert(decreases_to!(*n => (*n)->Let_decls)); assert(decreases_to!(*n => (*n)->Let_proc)); }
            fits_all_exec(decls) && validation_fits_exec(proc)
        },
        RholangNode::Bundle { proc, .. } => {
            proof { assert(decreases_to!(*n => (*n)->Bundle_proc)); }
            validation_fits_exec(proc)
        },
        RholangNode::Contract { name, formals, formals_remainder, proc, .. } => {
            proof { assert(decreases_to!(*n => (*n)->Contract_name)); assert(decreases_to!(*n => (*n)->Contract_formals)); assert(decreases_to!(*n => (*n)->Contract_formals_remainder)); assert(decreases_to!(*n => (*n)->Contract_proc)); }
            validation_fits_exec(name) && fits_all_exec(formals) && fits_opt_all_exec(formals_remainder) && validation_fits_exec(proc)
        },
        RholangNode::Input { receipts, proc, .. } => {
            proof { assert(decreases_to!(*n => (*n)->Input_receipts)); assert(decreases_to!(*n => (*n)->Input_proc)); }
            fits_all_receipts_exec(receipts) && validation_fits_exec(proc)
        },
        RholangNode::Block { proc, .. } => {
            proof { assert(decreases_to!(*n => (*n)->Block_proc)); }
            validation_fits_exec(proc)
        },
        RholangNode::Parenthesized { expr, .. } => {
            proof { assert(decreases_to!(*n => (*n)->Parenthesized_expr)); }
            validation_fits_exec(expr)
        },
        RholangNode::BinOp { left, right, .. } => {
            proof { assert(decreases_to!(*n => (*n)->BinOp_left)); assert(decreases_to!(*n => (*n)->BinOp_right)); }
            validation_fits_exec(left) && validation_fits_exec(right)
        },
        RholangNode::UnaryOp { operand, .. } => {
            proof { assert(decreases_to!(*n => (*n)->UnaryOp_operand)); }
            validation_fits_exec(operand)
        },
        RholangNode::Method { receiver, args, .. } => {
            proof { assert(decreases_to!(*n => (*n)->Method_receiver)); assert(decreases_to!(*n => (*n)->Method_args)); }
            validation_fits_exec(receiver) && fits_all_exec(args)
        },
        RholangNode::Eval { name, .. } => {
            proof { assert(decreases_to!(*n => (*n)->Eval_name)); }
            validation_fits_exec(name)
        },
        RholangNode::Quote { quotable, .. } => {
            proof { assert(decreases_to!(*n => (*n)->Quote_quotable)); }
            validation_fits_exec(quotable)
        },
        RholangNode::VarRef { var, .. } => {
            proof { assert(decreases_to!(*n => (*n)->VarRef_var)); }
            validation_fits_exec(var)
        },
        RholangNode::List { elements, remainder, .. } => {
            proof { assert(decreases_to!(*n => (*n)->List_elements)); assert(decreases_to!(*n => (*n)->List_remainder)); }
            fits_all_exec(elements) && fits_opt_all_exec(remainder)
        },
        RholangNode::SetExpr { elements, remainder, .. } => {
            proof { assert(decreases_to!(*n => (*n)->SetExpr_elements)); assert(decreases_to!(*n => (*n)->SetExpr_remainder)); }
            fits_all_exec(elements) && fits_opt_all_exec(remainder)
        },
        RholangNode::MapExpr { pairs, remainder, .. } => {
            proof { assert(decreases_to!(*n => (*n)->MapExpr_pairs)); assert(decreases_to!(*n => (*n)->MapExpr_remainder)); }
            fits_all_pairs_exec(pairs) && fits_opt_all_exec(remainder)
        },
        RholangNode::Tuple { elements, .. } => {
            proof { assert(decreases_to!(*n => (*n)->Tuple_elements)); }
            fits_all_exec(elements)
        },
        RholangNode::NameDecl { var, uri, .. } => {
            proof { assert(decreases_to!(*n => (*n)->NameDecl_var)); assert(decreases_to!(*n => (*n)->NameDecl_uri)); }
            validation_fits_exec(var) && fits_opt_all_exec(uri)
        },
        RholangNode::Decl { names, names_remainder, procs, .. } => {
            proof { assert(decreases_to!(*n => (*n)->Decl_names)); assert(decreases_to!(*n => (*n)->Decl_names_remainder)); assert(decreases_to!(*n => (*n)->Decl_procs)); }
            fits_all_exec(names) && fits_opt_all_exec(names_remainder) && fits_all_exec(procs)
        },
        RholangNode::LinearBind { names, remainder, source, .. } => {
            proof { assert(decreases_to!(*n => (*n)->LinearBind_names)); assert(decreases_to!(*n => (*n)->LinearBind_remainder)); assert(decreases_to!(*n => (*n)->LinearBind_source)); }
            fits_all_exec(names) && fits_opt_all_exec(remainder) && validation_fits_exec(source)
        },
        RholangNode::RepeatedBind { names, remainder, source, .. } => {
            proof { assert(decreases_to!(*n => (*n)->RepeatedBind_names)); assert(decreases_to!(*n => (*n)->RepeatedBind_remainder)); assert(decreases_to!(*n => (*n)->RepeatedBind_source)); }
            fits_all_exec(names) && fits_opt_all_exec(remainder) && validation_fits_exec(source)
        },
        RholangNode::PeekBind { names, remainder, source, .. } => {
            proof { assert(decreases_to!(*n => (*n)->PeekBind_names)); assert(decreases_to!(*n => (*n)->PeekBind_remainder)); assert(decreases_to!(*n => (*n)->PeekBind_source)); }
            fits_all_exec(names) && fits_opt_all_exec(remainder) && validation_fits_exec(source)
        },
        RholangNode::ReceiveSendSource { name, .. } => {
            proof { assert(decreases_to!(*n => (*n)->ReceiveSendSource_name)); }
            validation_fits_exec(name)
        },
        RholangNode::SendReceiveSource { name, inputs, .. } => {
            proof { assert(decreases_to!(*n => (*n)->SendReceiveSource_name)); assert(decreases_to!(*n => (*n)->SendReceiveSource_inputs)); }
            validation_fits_exec(name) && fits_all_exec(inputs)
        },
        RholangNode::Error { children, .. } => {
            proof { assert(decreases_to!(*n => (*n)->Error_children)); }
            fits_all_exec(children)
        },
        RholangNode::Disjunction { left, right, .. } => {
            proof { assert(decreases_to!(*n => (*n)->Disjunction_left)); assert(decreases_to!(*n => (*n)->Disjunction_right)); }
            validation_fits_exec(left) && validation_fits_exec(right)
        },
        RholangNode::Conjunction { left, right, .. } => {
            proof { assert(decreases_to!(*n => (*n)->Conjunction_left)); assert(decreases_to!(*n => (*n)->Conjunction_right)); }
            validation_fits_exec(left) && validation_fits_exec(right)
        },
        RholangNode::Negation { operand, .. } => {
            proof { assert(decreases_to!(*n => (*n)->Negation_operand)); }
            validation_fits_exec(operand)
        },

        _ => true,
    }
}

impl RholangNode {
    /// `validate`, on any tree: `None` when a position that validation may
    /// report would leave the range the position arithmetic works in,
    /// otherwise `Some` of the validation's answer.
    pub fn try_validate(&self) -> (r: Option<Result<(), String>>)
        ensures
            match r {
                None => !validation_fits(*self),
                Some(Ok(())) => validation_fits(*self) && validation(*self) is None,
                Some(Err(e)) => validation_fits(*self) && validation(*self) == Some(e@),
            },
    {
        if validation_fits_exec(self) {
            Some(self.validate())
        } else {
            None
        }
    }
}

} // verus!
