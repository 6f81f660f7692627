use std::sync::Arc;

use rholang_language_server::mork_form::{LiteralValue, MorkForm};
use rholang_language_server::pattern_index::{
    extract_contract_signature, extract_param_names, rholang_node_to_mork, rholang_pattern_to_mork,
    MorkError,
};
use rholang_language_server::rholang_node::node_types::{RholangNode, RholangSendType};
use rholang_language_server::semantic_node::{NodeBase, RelativePosition};

fn rel0() -> RelativePosition {
    RelativePosition { delta_lines: 0, delta_columns: 0, delta_bytes: 0 }
}

fn base() -> NodeBase {
    NodeBase::new_simple(rel0(), 1, 0, 1)
}

fn var(name: &str) -> Arc<RholangNode> {
    Arc::new(RholangNode::Var { base: base(), name: name.to_string(), metadata: None })
}

fn long(v: i64) -> Arc<RholangNode> {
    Arc::new(RholangNode::LongLiteral { base: base(), value: v, metadata: None })
}

fn string(v: &str) -> Arc<RholangNode> {
    Arc::new(RholangNode::StringLiteral { base: base(), value: v.to_string(), metadata: None })
}

fn quote(n: Arc<RholangNode>) -> Arc<RholangNode> {
    Arc::new(RholangNode::Quote { base: base(), quotable: n, metadata: None })
}

fn nil() -> Arc<RholangNode> {
    Arc::new(RholangNode::Nil { base: base(), metadata: None })
}

fn contract(name: Arc<RholangNode>, formals: Vec<Arc<RholangNode>>, body: Arc<RholangNode>) -> RholangNode {
    RholangNode::Contract { base: base(), name, formals, formals_remainder: None, proc: body, metadata: None }
}

#[test]
fn literals_and_variables_convert_to_themselves() {
    assert!(matches!(rholang_pattern_to_mork(&long(42)), Ok(MorkForm::Literal(LiteralValue::Int(42)))));
    match rholang_node_to_mork(&string("hi")) {
        Ok(MorkForm::Literal(LiteralValue::String(s))) => assert_eq!(s, "hi"),
        other => panic!("unexpected {:?}", other),
    }
    match rholang_pattern_to_mork(&var("x")) {
        Ok(MorkForm::VarPattern(s)) => assert_eq!(s, "x"),
        other => panic!("unexpected {:?}", other),
    }
    assert!(matches!(rholang_node_to_mork(&nil()), Ok(MorkForm::Nil)));
}

#[test]
fn quote_names_its_term_and_lists_become_list_patterns() {
    match rholang_pattern_to_mork(&quote(var("x"))) {
        Ok(MorkForm::Name(inner)) => assert!(matches!(*inner, MorkForm::VarPattern(_))),
        other => panic!("unexpected {:?}", other),
    }
    let list = RholangNode::List { base: base(), elements: vec![long(1), long(2)], remainder: None, metadata: None };
    match rholang_pattern_to_mork(&list) {
        Ok(MorkForm::ListPattern(v)) => assert_eq!(v.len(), 2),
        other => panic!("unexpected {:?}", other),
    }
    match rholang_node_to_mork(&list) {
        Ok(MorkForm::List(v)) => assert_eq!(v.len(), 2),
        other => panic!("unexpected {:?}", other),
    }
}

#[test]
fn remainders_and_unsupported_constructs_are_refused() {
    let list = RholangNode::List { base: base(), elements: vec![], remainder: Some(var("rest")), metadata: None };
    assert_eq!(rholang_pattern_to_mork(&list).unwrap_err(), MorkError::ListRemainder);
    let bad_map = RholangNode::MapExpr { base: base(), pairs: vec![(long(1), long(2))], remainder: None, metadata: None };
    assert_eq!(rholang_node_to_mork(&bad_map).unwrap_err(), MorkError::MapKeyNotString);
    let unit = RholangNode::Unit { base: base(), metadata: None };
    assert_eq!(rholang_pattern_to_mork(&unit).unwrap_err(), MorkError::PatternNotImplemented(44));
    assert_eq!(rholang_node_to_mork(&unit).unwrap_err(), MorkError::NotImplemented(44));
}

#[test]
fn send_and_contract_convert() {
    let send = RholangNode::Send {
        base: base(),
        channel: var("ch"),
        send_type: RholangSendType::Single,
        send_type_delta: rel0(),
        inputs: vec![long(1), string("a")],
        metadata: None,
    };
    match rholang_node_to_mork(&send) {
        Ok(MorkForm::Send { channel, arguments }) => {
            assert!(matches!(*channel, MorkForm::VarPattern(_)));
            assert_eq!(arguments.len(), 2);
        },
        other => panic!("unexpected {:?}", other),
    }
    let c = contract(quote(string("echo")), vec![quote(var("x"))], nil());
    match rholang_node_to_mork(&c) {
        Ok(MorkForm::Contract { name, parameters, .. }) => {
            assert_eq!(name, "echo");
            assert_eq!(parameters.len(), 1);
        },
        other => panic!("unexpected {:?}", other),
    }
}

#[test]
fn body_error_comes_before_parameter_error() {
    let unit = Arc::new(RholangNode::Unit { base: base(), metadata: None });
    let c = contract(var("c"), vec![unit.clone()], unit.clone());
    assert_eq!(rholang_node_to_mork(&c).unwrap_err(), MorkError::NotImplemented(44));
    let c = contract(var("c"), vec![unit], nil());
    assert_eq!(rholang_node_to_mork(&c).unwrap_err(), MorkError::PatternNotImplemented(44));
    let c = contract(long(3), vec![], nil());
    assert_eq!(rholang_node_to_mork(&c).unwrap_err(), MorkError::ContractNameNode);
}

#[test]
fn contract_signature_and_parameter_names() {
    let c = contract(var("echo"), vec![quote(var("x")), var("y")], nil());
    let (name, params) = extract_contract_signature(&c).unwrap();
    assert_eq!(name, "echo");
    assert_eq!(params.len(), 2);
    assert_eq!(extract_param_names(&params), Some(vec!["x".to_string(), "y".to_string()]));
    assert_eq!(extract_param_names(&vec![quote(long(1))]), None);
    assert_eq!(extract_contract_signature(&nil()).unwrap_err(), MorkError::ExpectedContract(23));
    let c = contract(quote(long(1)), vec![], nil());
    assert_eq!(extract_contract_signature(&c).unwrap_err(), MorkError::ContractNameFormat);
}

#[test]
fn conversion_errors_have_their_texts() {
    assert_eq!(MorkError::ListRemainder.message(), "List patterns with remainder not yet supported");
    assert_eq!(MorkError::MapKeyNotString.message(), "Map keys must be string literals");
    assert_eq!(MorkError::SingleBindPerReceipt.message(), "Only single binds per receipt supported");
    assert_eq!(MorkError::NotImplemented(44).message(), "Conversion to MORK not implemented");
}
