use std::sync::Arc;

use rholang_language_server::rholang_node::node_types::{RholangNode, RholangSendType};
use rholang_language_server::rholang_node::pattern_matching::{match_contract, match_pat, Substitution};
use rholang_language_server::rholang_node::position_tracking::{
    compute_absolute_positions, try_compute_absolute_positions, PositionEntry,
};
use rholang_language_server::semantic_node::{
    get_metadata, insert_metadata, empty_metadata, MetadataKind, MetadataValue, NodeBase, Position,
    RelativePosition,
};

fn rel(delta_lines: i32, delta_columns: i32, delta_bytes: usize) -> RelativePosition {
    RelativePosition { delta_lines, delta_columns, delta_bytes }
}

fn rel0() -> RelativePosition {
    rel(0, 0, 0)
}

fn var(name: &str, r: RelativePosition, len: usize) -> Arc<RholangNode> {
    Arc::new(RholangNode::new_var(name.to_string(), None, r, len, 0, len))
}

fn string_lit(value: &str, r: RelativePosition, len: usize) -> Arc<RholangNode> {
    Arc::new(RholangNode::new_string_literal(value.to_string(), None, r, len, 0, len))
}

fn long_lit(value: i64) -> Arc<RholangNode> {
    Arc::new(RholangNode::new_long_literal(value, None, rel0(), 1, 0, 1))
}

fn nil(r: RelativePosition) -> Arc<RholangNode> {
    Arc::new(RholangNode::new_nil(None, r, 3, 0, 3))
}

fn entry_of<'a>(entries: &'a [PositionEntry], node: &Arc<RholangNode>) -> &'a PositionEntry {
    entries
        .iter()
        .find(|e| Arc::ptr_eq(&e.node, node))
        .expect("every node of the tree has an entry")
}

fn pos(row: usize, column: usize, byte: usize) -> Position {
    Position { row, column, byte }
}

/// The tree of `ch!("msg")` + newline + `Nil`: a Par of a Send and a Nil.
fn send_then_nil() -> (Arc<RholangNode>, Arc<RholangNode>, Arc<RholangNode>) {
    let channel = var("ch", rel0(), 2);
    let msg = string_lit("msg", rel(0, 1, 1), 5);
    let send = Arc::new(RholangNode::new_send(
        channel,
        RholangSendType::Single,
        rel(0, 1, 1),
        vec![msg],
        None,
        rel0(),
        10,
        0,
        10,
    ));
    let tail = nil(rel(1, 0, 1));
    let root = Arc::new(RholangNode::new_par(send.clone(), tail.clone(), None, rel0(), 14, 1, 3));
    (root, send, tail)
}

#[test]
fn node_impl_test_position_computation() {
    let (root, left, right) = send_then_nil();
    let entries = compute_absolute_positions(&root);
    let l = entry_of(&entries, &left);
    assert_eq!(l.start.row, 0);
    assert_eq!(l.start.column, 0);
    assert_eq!(l.start.byte, 0);
    assert_eq!(l.end.row, 0);
    assert_eq!(l.end.column, 10);
    assert_eq!(l.end.byte, 10);
    let r = entry_of(&entries, &right);
    assert_eq!(r.start.row, 1);
    assert_eq!(r.start.column, 0);
    assert_eq!(r.start.byte, 11);
    assert_eq!(r.end.row, 1);
    assert_eq!(r.end.column, 3);
    assert_eq!(r.end.byte, 14);
}

#[test]
fn rholang_node_test_position_computation() {
    let (root, left, right) = send_then_nil();
    let entries = compute_absolute_positions(&root);
    assert_eq!(entry_of(&entries, &left).start, pos(0, 0, 0));
    assert_eq!(entry_of(&entries, &left).end, pos(0, 10, 10));
    assert_eq!(entry_of(&entries, &right).start, pos(1, 0, 11));
    assert_eq!(entry_of(&entries, &right).end, pos(1, 3, 14));
}

/// The tree of `new x in { x!("msg") }`.
fn nested_new() -> (Arc<RholangNode>, Arc<RholangNode>, Arc<RholangNode>) {
    let decl_var = var("x", rel0(), 1);
    let decl = Arc::new(RholangNode::new_name_decl(decl_var, None, None, rel(0, 4, 4), 1, 0, 1));
    let channel = var("x", rel0(), 1);
    let msg = string_lit("msg", rel(0, 1, 1), 5);
    let send = Arc::new(RholangNode::new_send(
        channel.clone(),
        RholangSendType::Single,
        rel(0, 1, 1),
        vec![msg],
        None,
        rel(0, 2, 2),
        9,
        0,
        9,
    ));
    let block = Arc::new(RholangNode::new_block(send, None, rel(0, 4, 4), 13, 0, 13));
    let root = Arc::new(RholangNode::new_new(vec![decl.clone()], block, None, rel0(), 22, 0, 22));
    (root, decl, channel)
}

#[test]
fn node_impl_test_nested_position() {
    let (root, decl, channel) = nested_new();
    let entries = compute_absolute_positions(&root);
    let d = entry_of(&entries, &decl).start;
    assert_eq!(d.row, 0);
    assert_eq!(d.column, 4);
    assert_eq!(d.byte, 4);
    let c = entry_of(&entries, &channel).start;
    assert_eq!(c.row, 0);
    assert_eq!(c.column, 11);
    assert_eq!(c.byte, 11);
}

#[test]
fn rholang_node_test_nested_position() {
    let (root, decl, channel) = nested_new();
    let entries = compute_absolute_positions(&root);
    assert_eq!(entry_of(&entries, &decl).start, pos(0, 4, 4));
    assert_eq!(entry_of(&entries, &channel).start, pos(0, 11, 11));
}

fn assert_root_consistent(root: &Arc<RholangNode>) {
    let entries = compute_absolute_positions(root);
    let e = entry_of(&entries, root);
    assert!(e.start.byte <= e.end.byte);
    assert!(e.start.row <= e.end.row);
    if e.start.row == e.end.row {
        assert!(e.start.column <= e.end.column);
    }
}

#[test]
fn node_impl_test_prop_position_consistency() {
    assert_root_consistent(&send_then_nil().0);
    assert_root_consistent(&nested_new().0);
    assert_root_consistent(&multi_line_send().0);
    assert_root_consistent(&match_tree().0);
}

#[test]
fn rholang_node_test_prop_position_consistency() {
    for len in 0..5usize {
        let root = Arc::new(RholangNode::new_nil(None, rel(len as i32, 2, len), len, len, 1));
        assert_root_consistent(&root);
    }
}

/// The tree of `ch!(` + newline + `"msg"` + newline + `)`.
fn multi_line_send() -> (Arc<RholangNode>, Arc<RholangNode>) {
    let channel = var("ch", rel0(), 2);
    let msg = string_lit("msg", rel(1, 0, 2), 5);
    let root = Arc::new(RholangNode::new_send(
        channel,
        RholangSendType::Single,
        rel(0, 1, 1),
        vec![msg.clone()],
        None,
        rel0(),
        12,
        2,
        1,
    ));
    (root, msg)
}

#[test]
fn node_impl_test_multi_line_positions() {
    let (root, input) = multi_line_send();
    let entries = compute_absolute_positions(&root);
    let s = entry_of(&entries, &input).start;
    assert_eq!(s.row, 1);
    assert_eq!(s.column, 0);
}

#[test]
fn rholang_node_test_multi_line_positions() {
    let (root, input) = multi_line_send();
    let entries = compute_absolute_positions(&root);
    assert_eq!(entry_of(&entries, &input).start.row, 1);
    assert_eq!(entry_of(&entries, &input).start.column, 0);
}

/// The tree of `match "target" { "pat" => Nil }`.
fn match_tree() -> (Arc<RholangNode>, Arc<RholangNode>, Arc<RholangNode>, Arc<RholangNode>) {
    let expression = string_lit("target", rel(0, 6, 6), 8);
    let pattern = string_lit("pat", rel(0, 3, 3), 5);
    let body = nil(rel(0, 4, 4));
    let root = Arc::new(RholangNode::new_match(
        expression.clone(),
        vec![(pattern.clone(), body.clone())],
        None,
        rel0(),
        31,
        0,
        31,
    ));
    (root, expression, pattern, body)
}

#[test]
fn node_impl_test_match_positioning() {
    let (root, expression, pattern, body) = match_tree();
    let entries = compute_absolute_positions(&root);
    let e = entry_of(&entries, &expression).start;
    assert_eq!((e.row, e.column, e.byte), (0, 6, 6));
    let p = entry_of(&entries, &pattern).start;
    assert_eq!((p.row, p.column, p.byte), (0, 17, 17));
    let b = entry_of(&entries, &body).start;
    assert_eq!((b.row, b.column, b.byte), (0, 26, 26));
}

#[test]
fn rholang_node_test_match_positioning() {
    let (root, expression, pattern, body) = match_tree();
    let entries = compute_absolute_positions(&root);
    assert_eq!(entry_of(&entries, &expression).start, pos(0, 6, 6));
    assert_eq!(entry_of(&entries, &pattern).start, pos(0, 17, 17));
    assert_eq!(entry_of(&entries, &body).start, pos(0, 26, 26));
}

fn metadata_node() -> RholangNode {
    let mut data = empty_metadata();
    insert_metadata(&mut data, "version", MetadataValue::Usize(1));
    insert_metadata(&mut data, "custom", MetadataValue::Str("test".to_string()));
    let base = NodeBase::new_simple(rel0(), 0, 0, 0);
    RholangNode::Nil { base, metadata: Some(Arc::new(data)) }
}

#[test]
fn node_impl_test_metadata_dynamic() {
    let node = metadata_node();
    let m = node.metadata().unwrap();
    assert_eq!(get_metadata(m, "version", MetadataKind::Usize), Some(&MetadataValue::Usize(1)));
    assert_eq!(get_metadata(m, "custom", MetadataKind::Str), Some(&MetadataValue::Str("test".to_string())));
}

#[test]
fn rholang_node_test_metadata_dynamic() {
    let node = metadata_node();
    let m = node.metadata().unwrap();
    assert_eq!(get_metadata(m, "version", MetadataKind::Usize), Some(&MetadataValue::Usize(1)));
    assert_eq!(get_metadata(m, "version", MetadataKind::Str), None);
    assert_eq!(get_metadata(m, "custom", MetadataKind::Str), Some(&MetadataValue::Str("test".to_string())));
}

/// The tree of `new x { x!("") }`, which lacks `in`: a Par whose left side
/// is an error node holding what could be read.
fn error_tree() -> Arc<RholangNode> {
    let x = var("x", rel(0, 4, 4), 1);
    let send = Arc::new(RholangNode::new_send(
        var("x", rel0(), 1),
        RholangSendType::Single,
        rel(0, 1, 1),
        vec![string_lit("", rel(0, 1, 1), 2)],
        None,
        rel(0, 3, 3),
        6,
        0,
        6,
    ));
    let error = Arc::new(RholangNode::new_error(vec![x, send], None, rel0(), 16, 0, 16));
    Arc::new(RholangNode::new_par(error, nil(rel0()), None, rel0(), 16, 0, 16))
}

#[test]
fn node_impl_test_error_node_with_children() {
    let root = error_tree();
    if let RholangNode::Par { left: Some(left), .. } = &*root {
        if let RholangNode::Error { children, .. } = &**left {
            assert!(!children.is_empty(), "Error node should have children");
            assert_eq!(children.len(), 2);
        }
    }
}

#[test]
fn rholang_node_test_error_node_with_children() {
    let root = error_tree();
    let left = root.child_at(0).unwrap();
    assert_eq!(left.type_label(), "Rholang::Error");
    if let RholangNode::Error { children, .. } = &*left {
        assert!(!children.is_empty(), "Error node should have children");
    } else {
        panic!("Expected Error node");
    }
}

fn check_match_pat_simple() {
    let wild = Arc::new(RholangNode::new_wildcard(None, rel0(), 1, 0, 1));
    let var_pat = var("x", rel0(), 1);
    let var_con = var("y", rel0(), 1);
    let string_pat = string_lit("foo", rel0(), 5);
    let string_con = string_lit("foo", rel0(), 5);
    let string_con_diff = string_lit("bar", rel0(), 5);
    let mut subst = Substitution::new();
    assert!(match_pat(&wild, &var_con, &mut subst));
    assert!(match_pat(&var_pat, &var_con, &mut subst));
    assert!(Arc::ptr_eq(&subst.get("x").unwrap(), &var_con));
    assert!(match_pat(&string_pat, &string_con, &mut subst));
    assert!(!match_pat(&string_pat, &string_con_diff, &mut subst));
}

#[test]
fn node_impl_test_match_pat_simple() {
    check_match_pat_simple();
}

#[test]
fn rholang_node_test_match_pat_simple() {
    check_match_pat_simple();
}

fn check_match_pat_repeat() {
    let var_pat = var("x", rel0(), 1);
    let con1 = long_lit(1);
    let con2 = long_lit(1);
    let con_diff = long_lit(2);
    let mut subst = Substitution::new();
    assert!(match_pat(&var_pat, &con1, &mut subst));
    assert!(match_pat(&var_pat, &con2, &mut subst));
    assert!(!match_pat(&var_pat, &con_diff, &mut subst));
}

#[test]
fn node_impl_test_match_pat_repeat() {
    check_match_pat_repeat();
}

#[test]
fn rholang_node_test_match_pat_repeat() {
    check_match_pat_repeat();
}

fn check_match_contract_basic() {
    let channel = var("foo", rel0(), 3);
    let inputs = vec![long_lit(1)];
    let contract_name = var("foo", rel0(), 3);
    let contract_formals = vec![var("x", rel0(), 1)];
    let contract = Arc::new(RholangNode::new_contract(
        contract_name,
        contract_formals,
        None,
        nil(rel0()),
        None,
        rel0(),
        0,
        0,
        0,
    ));
    assert!(match_contract(&channel, &inputs, &contract));
    let bad_inputs = Vec::new();
    assert!(!match_contract(&channel, &bad_inputs, &contract));
}

#[test]
fn node_impl_test_match_contract_basic() {
    check_match_contract_basic();
}

#[test]
fn rholang_node_test_match_contract_basic() {
    check_match_contract_basic();
}

fn lit_with_base(value: i64) -> Arc<RholangNode> {
    Arc::new(RholangNode::LongLiteral { base: NodeBase::new_simple(rel0(), 1, 0, 1), value, metadata: None })
}

fn str_with_base(value: &str) -> Arc<RholangNode> {
    Arc::new(RholangNode::StringLiteral {
        base: NodeBase::new_simple(rel0(), 3, 0, 3),
        value: value.to_string(),
        metadata: None,
    })
}

fn empty_base() -> NodeBase {
    NodeBase::new_simple(rel0(), 0, 0, 0)
}

fn check_match_pat_set() {
    let pat = Arc::new(RholangNode::SetExpr {
        base: empty_base(),
        elements: vec![lit_with_base(1), lit_with_base(2)],
        remainder: None,
        metadata: None,
    });
    let concrete = Arc::new(RholangNode::SetExpr {
        base: empty_base(),
        elements: vec![lit_with_base(2), lit_with_base(1)],
        remainder: None,
        metadata: None,
    });
    let mut subst = Substitution::new();
    assert!(match_pat(&pat, &concrete, &mut subst));
}

#[test]
fn node_impl_test_match_pat_set() {
    check_match_pat_set();
}

#[test]
fn rholang_node_test_match_pat_set() {
    check_match_pat_set();
}

fn check_match_pat_map() {
    let pat = Arc::new(RholangNode::MapExpr {
        base: empty_base(),
        pairs: vec![(str_with_base("a"), lit_with_base(1)), (str_with_base("b"), lit_with_base(2))],
        remainder: None,
        metadata: None,
    });
    let concrete = Arc::new(RholangNode::MapExpr {
        base: empty_base(),
        pairs: vec![(str_with_base("b"), lit_with_base(2)), (str_with_base("a"), lit_with_base(1))],
        remainder: None,
        metadata: None,
    });
    let mut subst = Substitution::new();
    assert!(match_pat(&pat, &concrete, &mut subst));
}

#[test]
fn node_impl_test_match_pat_map() {
    check_match_pat_map();
}

#[test]
fn rholang_node_test_match_pat_map() {
    check_match_pat_map();
}

fn check_match_pat_disjunction() {
    let pat = Arc::new(RholangNode::Disjunction {
        base: empty_base(),
        left: lit_with_base(1),
        right: lit_with_base(2),
        metadata: None,
    });
    let concrete = Arc::new(RholangNode::Disjunction {
        base: empty_base(),
        left: lit_with_base(1),
        right: lit_with_base(2),
        metadata: None,
    });
    let mut subst = Substitution::new();
    assert!(match_pat(&pat, &concrete, &mut subst));
}

#[test]
fn node_impl_test_match_pat_disjunction() {
    check_match_pat_disjunction();
}

#[test]
fn rholang_node_test_match_pat_disjunction() {
    check_match_pat_disjunction();
}

fn sample_trees() -> Vec<Arc<RholangNode>> {
    vec![
        send_then_nil().0,
        nested_new().0,
        multi_line_send().0,
        match_tree().0,
        error_tree(),
        lit_with_base(7),
        var("z", rel0(), 1),
    ]
}

#[test]
fn node_impl_test_prop_match_pat_no_crash() {
    let trees = sample_trees();
    for p in &trees {
        for c in &trees {
            let mut subst = Substitution::new();
            let _ = match_pat(p, c, &mut subst);
        }
    }
}

#[test]
fn rholang_node_test_prop_match_pat_no_crash() {
    let trees = sample_trees();
    for p in &trees {
        let mut subst = Substitution::new();
        assert!(match_pat(&var("any", rel0(), 3), p, &mut subst));
        assert_eq!(subst.len(), 1);
    }
}

#[test]
fn positions_out_of_range_are_reported() {
    let (root, _, _) = send_then_nil();
    assert_eq!(try_compute_absolute_positions(&root).unwrap().len(), compute_absolute_positions(&root).len());
    let far = Arc::new(RholangNode::new_nil(None, rel(i32::MAX, 0, 0), 1, 0, 1));
    let root = Arc::new(RholangNode::new_par(far.clone(), nil(rel(1, 0, 1)), None, rel0(), 3, 0, 3));
    assert!(try_compute_absolute_positions(&root).is_none());
}
