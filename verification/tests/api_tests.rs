use std::sync::Arc;

use rholang_language_server::rholang_node::node_operations::{collect_calls, collect_contracts};
use rholang_language_server::rholang_node::node_types::{RholangNode, RholangSendType};
use rholang_language_server::rholang_node::position_tracking::{
    find_node_at_position, find_node_at_position_with_path, try_find_node_at_position,
    try_find_node_at_position_with_path,
};
use rholang_language_server::semantic_node::{NodeBase, Position, RelativePosition, SemanticCategory};
use rholang_language_server::symbol_resolution::filters::{MettaPatternDefinition, MettaPatternFilter, MettaPatternMatcher};
use rholang_language_server::symbol_resolution::{
    FilterContext, IrNode, LspPosition, MettaNode, Range, ResolutionConfidence, ResolutionContext, SymbolFilter,
    SymbolKind, SymbolLocation,
};
use rholang_language_server::symbol_table::{PatternSignature, Symbol, SymbolTable, SymbolType};

fn rel(l: i32, c: i32, b: usize) -> RelativePosition {
    RelativePosition { delta_lines: l, delta_columns: c, delta_bytes: b }
}

fn var_at(name: &str, r: RelativePosition) -> Arc<RholangNode> {
    Arc::new(RholangNode::new_var(name.to_string(), None, r, name.len(), 0, name.len()))
}

fn nil_at(r: RelativePosition) -> Arc<RholangNode> {
    Arc::new(RholangNode::new_nil(None, r, 3, 0, 3))
}

fn send(channel: &str, r: RelativePosition) -> Arc<RholangNode> {
    Arc::new(RholangNode::new_send(
        var_at(channel, rel(0, 0, 0)),
        RholangSendType::Single,
        rel(0, 1, 1),
        vec![],
        None,
        r,
        channel.len() + 3,
        0,
        channel.len() + 3,
    ))
}

fn contract(name: &str, formals: Vec<Arc<RholangNode>>, body: Arc<RholangNode>) -> Arc<RholangNode> {
    Arc::new(RholangNode::new_contract(var_at(name, rel(0, 9, 9)), formals, None, body, None, rel(0, 0, 0), 30, 0, 30))
}

#[test]
fn contracts_and_calls_are_collected_in_order() {
    let c1 = contract("a", vec![], send("x", rel(0, 1, 1)));
    let c2 = contract("b", vec![], nil_at(rel(0, 1, 1)));
    let s = send("y", rel(0, 1, 1));
    let root = Arc::new(RholangNode::Par {
        base: NodeBase::new_simple(rel(0, 0, 0), 80, 0, 80),
        left: None,
        right: None,
        processes: Some(vec![c1.clone(), s.clone(), c2.clone()]),
        metadata: None,
    });
    let mut contracts = Vec::new();
    collect_contracts(&root, &mut contracts);
    assert_eq!(contracts.len(), 2);
    assert!(Arc::ptr_eq(&contracts[0], &c1));
    assert!(Arc::ptr_eq(&contracts[1], &c2));
    let mut calls = Vec::new();
    collect_calls(&root, &mut calls);
    // A send inside a contract body is a call too.
    assert_eq!(calls.len(), 2);
    assert!(Arc::ptr_eq(&calls[1], &s));
    assert_eq!(root.par_processes().len(), 3);
}

#[test]
fn rebasing_keeps_children_and_metadata() {
    let n = send("ch", rel(0, 0, 0));
    let b = NodeBase::new_simple(rel(2, 4, 9), 5, 0, 5);
    let r = n.with_base(b);
    assert_eq!(*r.base(), b);
    assert_eq!(r.children_count(), n.children_count());
    assert!(Arc::ptr_eq(&r.child_at(0).unwrap(), &n.child_at(0).unwrap()));
    assert_eq!(r.semantic_category(), n.semantic_category());
    assert_eq!(n.semantic_category(), SemanticCategory::LanguageSpecific);
}

#[test]
fn deepest_node_at_a_position_is_found() {
    // `x!()` + space + `Nil` laid out on one line.
    let s = send("x", rel(0, 0, 0));
    let tail = nil_at(rel(0, 1, 1));
    let root = Arc::new(RholangNode::new_par(s.clone(), tail.clone(), None, rel(0, 0, 0), 8, 0, 8));
    let at = |byte: usize| Position { row: 0, column: byte, byte };
    let hit = find_node_at_position(&root, at(0)).unwrap();
    assert_eq!(hit.type_label(), "Rholang::Var");
    let (n, path) = find_node_at_position_with_path(&root, at(6)).unwrap();
    assert!(Arc::ptr_eq(&n, &tail));
    assert_eq!(path.len(), 2);
    assert!(Arc::ptr_eq(&path[0], &root));
    assert!(find_node_at_position(&root, at(20)).is_none());
}

#[test]
fn reserved_names_are_refused_with_their_place() {
    let bad_send = send("if", rel(0, 0, 0));
    assert_eq!(bad_send.validate(), Err("Channel name 'if' is a reserved keyword".to_string()));
    let ok_send = send("out", rel(0, 0, 0));
    assert_eq!(ok_send.validate(), Ok(()));
    let m = RholangNode::new_match(
        var_at("x", rel(0, 6, 6)),
        vec![(var_at("new", rel(0, 3, 3)), nil_at(rel(0, 4, 4)))],
        None,
        rel(0, 0, 0),
        24,
        0,
        24,
    );
    assert_eq!(m.validate(), Err("Match pattern 'new' uses reserved keyword at 0:10".to_string()));
}

fn pos(row: usize) -> Position {
    Position { row, column: 0, byte: row * 10 }
}

fn contract_symbol(name: &str, arity: usize, variadic: bool, row: usize) -> Arc<Symbol> {
    let formals = (0..arity).map(|i| var_at(&format!("p{}", i), rel(0, 0, 0))).collect();
    let remainder = if variadic { Some(var_at("rest", rel(0, 0, 0))) } else { None };
    Arc::new(Symbol::new_contract(name.to_string(), "file:///c.rho".to_string(), pos(row), formals, remainder, nil_at(rel(0, 0, 0))))
}

#[test]
fn overloads_are_found_by_arity() {
    let mut t = SymbolTable::new(None);
    t.insert(contract_symbol("f", 2, false, 1));
    t.insert(contract_symbol("f", 1, true, 2));
    t.insert(contract_symbol("f", 0, true, 3));
    t.insert(contract_symbol("g", 2, false, 4));
    let two = t.get_matching_overloads("f", 2);
    assert_eq!(two.len(), 3);
    assert_eq!(two[0].arity(), Some(0));
    assert_eq!(two[1].arity(), Some(1));
    assert_eq!(two[2].arity(), Some(2));
    let best = t.resolve_overload("f", 2).unwrap();
    assert_eq!(best.arity(), Some(2));
    assert!(!best.is_variadic());
    let best_three = t.resolve_overload("f", 3).unwrap();
    assert!(best_three.is_variadic());
    assert!(t.resolve_overload("h", 1).is_none());
    assert_eq!(t.lookup_all_contract_overloads("f").len(), 3);
    assert_eq!(t.lookup_contracts_by_pattern("g", 1).len(), 0);
    let sig = PatternSignature::from_symbol(&contract_symbol("k", 1, true, 0)).unwrap();
    assert!(sig.matches_arity(4));
    assert!(!sig.matches_arity(0));
}

#[test]
fn scopes_chain_to_their_parent() {
    let mut outer = SymbolTable::new(None);
    outer.insert(Arc::new(Symbol::new("a".to_string(), SymbolType::Variable, "u".to_string(), pos(1))));
    let mut inner = SymbolTable::new(Some(Box::new(outer)));
    inner.insert(Arc::new(Symbol::new("b".to_string(), SymbolType::Variable, "u".to_string(), pos(2))));
    assert_eq!(inner.current_symbols().len(), 1);
    assert_eq!(inner.collect_all_symbols().len(), 2);
    assert!(inner.parent().is_some());
    inner.update_definition("b", pos(5));
    assert_eq!(inner.lookup("b").unwrap().definition_location, Some(pos(5)));
    let same = inner.lookup("b").unwrap();
    assert!(same.same_symbol(&inner.lookup("b").unwrap()));
}

fn location(line: u32) -> SymbolLocation {
    SymbolLocation {
        uri: "file:///m.metta".to_string(),
        range: Range { start: LspPosition { line, character: 0 }, end: LspPosition { line, character: 5 } },
        kind: SymbolKind::Function,
        confidence: ResolutionConfidence::Exact,
    }
}

#[test]
fn metta_filter_keeps_definitions_of_the_called_arity() {
    let mut matcher = MettaPatternMatcher::new();
    matcher.add_definition(MettaPatternDefinition { name: "foo".to_string(), arity: 2, location: location(1) });
    matcher.add_definition(MettaPatternDefinition { name: "foo".to_string(), arity: 1, location: location(2) });
    assert_eq!(matcher.get_definitions_by_name("foo").len(), 2);
    let filter = MettaPatternFilter::new(Arc::new(matcher));
    let call = IrNode::Metta(Arc::new(MettaNode::SExpr {
        elements: vec![
            Arc::new(MettaNode::Atom { name: "foo".to_string() }),
            Arc::new(MettaNode::Atom { name: "a".to_string() }),
            Arc::new(MettaNode::Atom { name: "b".to_string() }),
        ],
    }));
    let ctx = FilterContext {
        call_site: Some(call),
        symbol_name: "foo".to_string(),
        language: "metta".to_string(),
        resolution_context: ResolutionContext {
            uri: "file:///m.metta".to_string(),
            scope_id: None,
            ir_node: None,
            language: "metta".to_string(),
            parent_uri: None,
        },
    };
    let kept = filter.filter(vec![location(1), location(2), location(3)], &ctx).unwrap();
    assert_eq!(kept.len(), 1);
    assert_eq!(kept[0].range.start.line, 1);
    assert!(filter.applies_to_language("metta"));
    assert!(!filter.applies_to_language("rholang"));
}

#[test]
fn nested_contracts_and_calls_are_collected_in_pre_order() {
    let inner = contract("inner", vec![], send("z", rel(0, 1, 1)));
    let outer = contract("outer", vec![], inner.clone());
    let nested_send = send("w", rel(0, 0, 0));
    let outer_send = Arc::new(RholangNode::new_send(
        var_at("v", rel(0, 0, 0)),
        RholangSendType::Single,
        rel(0, 1, 1),
        vec![nested_send.clone()],
        None,
        rel(0, 0, 0),
        10,
        0,
        10,
    ));
    let root = Arc::new(RholangNode::new_par(outer.clone(), outer_send.clone(), None, rel(0, 0, 0), 60, 0, 60));
    let mut contracts = Vec::new();
    collect_contracts(&root, &mut contracts);
    assert_eq!(contracts.len(), 2);
    assert!(Arc::ptr_eq(&contracts[0], &outer));
    assert!(Arc::ptr_eq(&contracts[1], &inner));
    let mut calls = Vec::new();
    collect_calls(&root, &mut calls);
    assert_eq!(calls.len(), 3);
    assert!(Arc::ptr_eq(&calls[1], &outer_send));
    assert!(Arc::ptr_eq(&calls[2], &nested_send));
}

#[test]
fn checked_search_and_validation_answer_on_any_tree() {
    let s = send("x", rel(0, 0, 0));
    let tail = nil_at(rel(0, 1, 1));
    let root = Arc::new(RholangNode::new_par(s.clone(), tail.clone(), None, rel(0, 0, 0), 8, 0, 8));
    let at = |byte: usize| Position { row: 0, column: byte, byte };
    let hit = try_find_node_at_position(&root, at(6)).unwrap().unwrap();
    assert!(Arc::ptr_eq(&hit, &tail));
    let (n, path) = try_find_node_at_position_with_path(&root, at(6)).unwrap().unwrap();
    assert!(Arc::ptr_eq(&n, &tail));
    assert_eq!(path.len(), 2);
    assert!(try_find_node_at_position(&root, at(20)).unwrap().is_none());
    let far = Arc::new(RholangNode::new_par(
        send("x", rel(0, 0, usize::MAX)),
        nil_at(rel(0, 1, 1)),
        None,
        rel(0, 0, 0),
        8,
        0,
        8,
    ));
    assert!(try_find_node_at_position(&far, at(0)).is_none());
    assert!(try_find_node_at_position_with_path(&far, at(0)).is_none());

    let m = RholangNode::new_match(
        var_at("x", rel(0, 6, 6)),
        vec![(var_at("new", rel(0, 3, 3)), nil_at(rel(0, 4, 4)))],
        None,
        rel(0, 0, 0),
        24,
        0,
        24,
    );
    assert_eq!(
        m.try_validate(),
        Some(Err("Match pattern 'new' uses reserved keyword at 0:10".to_string()))
    );
    let far_match = RholangNode::new_match(
        var_at("x", rel(0, 6, usize::MAX)),
        vec![(var_at("new", rel(0, 3, 3)), nil_at(rel(0, 4, 4)))],
        None,
        rel(0, 0, 0),
        24,
        0,
        24,
    );
    assert_eq!(far_match.try_validate(), None);
    assert_eq!(send("ok", rel(0, 0, 0)).try_validate(), Some(Ok(())));
}

#[test]
fn contracts_and_calls_inside_a_pathmap_are_collected() {
    let c = contract("inside", vec![], nil_at(rel(0, 1, 1)));
    let s = send("ch", rel(0, 1, 1));
    let pathmap = Arc::new(RholangNode::Pathmap {
        base: NodeBase::new_simple(rel(0, 0, 0), 50, 0, 50),
        elements: vec![c.clone(), s.clone()],
        remainder: None,
        metadata: None,
    });
    let mut contracts = Vec::new();
    collect_contracts(&pathmap, &mut contracts);
    assert_eq!(contracts.len(), 1);
    assert!(Arc::ptr_eq(&contracts[0], &c));
    let mut calls = Vec::new();
    collect_calls(&pathmap, &mut calls);
    assert_eq!(calls.len(), 1);
    assert!(Arc::ptr_eq(&calls[0], &s));
}

#[test]
fn an_inserted_contract_is_found_for_every_accepted_arity() {
    let mut t = SymbolTable::new(None);
    let v = contract_symbol("h", 1, true, 1);
    t.insert(v.clone());
    for n in 1..5 {
        let found = t.lookup_contracts_by_pattern("h", n);
        assert_eq!(found.len(), 1);
        assert!(Arc::ptr_eq(&found[0], &v));
    }
    assert!(t.lookup_contracts_by_pattern("h", 0).is_empty());
    t.insert(Arc::new(Symbol::new("x".to_string(), SymbolType::Variable, "u".to_string(), pos(2))));
    assert_eq!(t.lookup_contracts_by_pattern("h", 2).len(), 1);
    assert_eq!(t.lookup_all_contract_overloads("x").len(), 0);
}
