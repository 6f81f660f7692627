use std::cmp::Ordering;
use std::sync::Arc;

use rholang_language_server::rholang_node::node_order::NodeOrder;
use rholang_language_server::rholang_node::node_types::{RholangNode, RholangSendType};
use rholang_language_server::semantic_node::{
    empty_metadata, get_metadata, insert_metadata, metadata_with, MetadataKind, MetadataValue, NodeBase,
    Position, RelativePosition,
};
use rholang_language_server::symbol_table::{Symbol, SymbolTable, SymbolType};

fn rel0() -> RelativePosition {
    RelativePosition { delta_lines: 0, delta_columns: 0, delta_bytes: 0 }
}

fn base(len: usize) -> NodeBase {
    NodeBase::new_simple(rel0(), len, 0, len)
}

fn var(name: &str) -> Arc<RholangNode> {
    Arc::new(RholangNode::Var { base: base(1), name: name.to_string(), metadata: None })
}

fn long(v: i64) -> Arc<RholangNode> {
    Arc::new(RholangNode::LongLiteral { base: base(1), value: v, metadata: None })
}

fn list(elements: Vec<Arc<RholangNode>>, remainder: Option<Arc<RholangNode>>) -> Arc<RholangNode> {
    Arc::new(RholangNode::List { base: base(5), elements, remainder, metadata: None })
}

fn set(elements: Vec<Arc<RholangNode>>) -> Arc<RholangNode> {
    Arc::new(RholangNode::SetExpr { base: base(5), elements, remainder: None, metadata: None })
}

fn samples() -> Vec<Arc<RholangNode>> {
    vec![
        var("x"),
        var("y"),
        long(1),
        long(2),
        list(vec![long(1), long(2)], None),
        list(vec![long(2), long(1)], Some(var("r"))),
        set(vec![long(2), long(1)]),
        set(vec![long(1), long(2)]),
        set(vec![long(1), var("z")]),
    ]
}

fn flip(o: Ordering) -> Ordering {
    match o {
        Ordering::Less => Ordering::Greater,
        Ordering::Equal => Ordering::Equal,
        Ordering::Greater => Ordering::Less,
    }
}

#[test]
fn node_order_is_a_total_preorder() {
    let nodes = samples();
    for a in &nodes {
        assert_eq!(RholangNode::node_cmp(a, a), Ordering::Equal);
        for b in &nodes {
            assert_eq!(RholangNode::node_cmp(a, b), flip(RholangNode::node_cmp(b, a)));
        }
    }
    for a in &nodes {
        for b in &nodes {
            for c in &nodes {
                let ab = RholangNode::node_cmp(a, b);
                let bc = RholangNode::node_cmp(b, c);
                let ac = RholangNode::node_cmp(a, c);
                if ab == Ordering::Equal {
                    assert_eq!(ac, bc);
                }
                if bc == Ordering::Equal {
                    assert_eq!(ac, ab);
                }
                if ab == bc {
                    assert_eq!(ac, ab);
                }
            }
        }
    }
    // Sets are compared once sorted.
    assert_eq!(RholangNode::node_cmp(&nodes[6], &nodes[7]), Ordering::Equal);
    assert_eq!(RholangNode::node_cmp(&nodes[2], &nodes[3]), Ordering::Less);
}

#[test]
fn node_operators_follow_the_structural_order() {
    let nodes = samples();
    assert!(*nodes[6] == *nodes[7]);
    assert!(*nodes[0] != *nodes[1]);
    assert!(*nodes[2] < *nodes[3]);
    assert_eq!(nodes[3].partial_cmp(&nodes[2]), Some(Ordering::Greater));
    assert_eq!(nodes[4].partial_cmp(&nodes[4]), Some(Ordering::Equal));
}

fn children(n: &RholangNode) -> Vec<Arc<RholangNode>> {
    (0..n.children_count()).map(|i| n.child_at(i).unwrap()).collect()
}

#[test]
fn rebuilding_from_own_children_gives_the_node_back() {
    let send = RholangNode::Send {
        base: base(9),
        channel: var("ch"),
        send_type: RholangSendType::Multiple,
        send_type_delta: rel0(),
        inputs: vec![long(1), long(2)],
        metadata: Some(Arc::new(metadata_with("k", MetadataValue::Bool(true)))),
    };
    let rebuilt = send.reconstruct_with_children(&children(&send));
    assert_eq!(RholangNode::node_cmp(&send, &rebuilt), Ordering::Equal);
    assert_eq!(rebuilt.children_count(), 3);
    assert!(rebuilt.metadata().is_some());
    assert_eq!(rebuilt.base(), send.base());
    let l = list(vec![long(1), long(2)], Some(var("rest")));
    let back = l.reconstruct_with_children(&children(&l));
    match &*back {
        RholangNode::List { elements, remainder, .. } => {
            assert_eq!(elements.len(), 2);
            assert!(remainder.is_some());
        },
        _ => panic!("expected a list"),
    }
}

#[test]
fn every_child_index_is_below_the_count() {
    for n in samples() {
        let count = n.children_count();
        for i in 0..count + 3 {
            assert_eq!(n.child_at(i).is_some(), i < count);
        }
    }
}

#[test]
fn metadata_reads_back_what_was_written() {
    let mut m = empty_metadata();
    insert_metadata(&mut m, "a", MetadataValue::I64(-3));
    insert_metadata(&mut m, "b", MetadataValue::Str("s".to_string()));
    insert_metadata(&mut m, "a", MetadataValue::U32(7));
    assert_eq!(get_metadata(&m, "a", MetadataKind::U32), Some(&MetadataValue::U32(7)));
    assert_eq!(get_metadata(&m, "a", MetadataKind::I64), None);
    assert_eq!(get_metadata(&m, "b", MetadataKind::Str), Some(&MetadataValue::Str("s".to_string())));
    assert_eq!(m.len(), 2);
}

#[test]
fn with_metadata_then_back_restores_the_node() {
    let n = RholangNode::Nil { base: base(3), metadata: None };
    let once = n.with_metadata(Some(Arc::new(metadata_with("x", MetadataValue::Usize(1)))));
    assert!(once.metadata().is_some());
    let twice = once.with_metadata(None);
    assert!(twice.metadata().is_none());
    assert_eq!(twice.base(), n.base());
}

fn pos(row: usize, column: usize, byte: usize) -> Position {
    Position { row, column, byte }
}

#[test]
fn symbols_are_ordered_by_name_uri_then_location() {
    let a = Symbol::new("a".to_string(), SymbolType::Variable, "file:///x".to_string(), pos(3, 0, 30));
    let b = Symbol::new("b".to_string(), SymbolType::Variable, "file:///a".to_string(), pos(0, 0, 0));
    let a2 = Symbol::new("a".to_string(), SymbolType::Contract, "file:///x".to_string(), pos(3, 1, 31));
    assert_eq!(a.compare(&b), NodeOrder::Less);
    assert_eq!(b.compare(&a), NodeOrder::Greater);
    assert_eq!(a.compare(&a2), NodeOrder::Less);
    assert_eq!(a.compare(&a), NodeOrder::Equal);
}

#[test]
fn lookup_after_insert_finds_the_symbol() {
    let mut parent = SymbolTable::new(None);
    parent.insert(Arc::new(Symbol::new("p".to_string(), SymbolType::Variable, "u".to_string(), pos(0, 0, 0))));
    let mut t = SymbolTable::new(Some(Box::new(parent)));
    t.insert(Arc::new(Symbol::new("x".to_string(), SymbolType::Variable, "u".to_string(), pos(1, 2, 3))));
    t.insert(Arc::new(Symbol::new("x".to_string(), SymbolType::Parameter, "u".to_string(), pos(4, 5, 6))));
    let found = t.lookup("x").unwrap();
    assert_eq!(found.symbol_type, SymbolType::Parameter);
    assert_eq!(found.declaration_location, pos(4, 5, 6));
    assert_eq!(t.lookup("p").unwrap().name, "p");
    assert!(t.lookup("q").is_none());
}
