//! Accessors, rebuilding operations and constructors of Rholang nodes.
use std::sync::Arc;
use vstd::prelude::*;
use super::node_types::{
    share, share_all, share_branches, share_opt, share_opt_all, share_pairs, share_receipts, branches_view, receipts_view, opt_vec_view, BinOperator,
    CommentKind, Metadata, NodeBase, RelativePosition, RholangBranchVector, RholangBundleType, RholangNode,
    RholangNodePairVector, RholangNodeVector, RholangReceiptVector, RholangSendType, RholangVarRefKind,
    UnaryOperator,
};
use crate::semantic_node::SemanticCategory;

verus! {

impl RholangNode {
    /// The positional base of this node.
    pub open spec fn spec_base(&self) -> NodeBase {
        match self {
            RholangNode::Par { base, .. } => *base,
            RholangNode::SendSync { base, .. } => *base,
            RholangNode::Send { base, .. } => *base,
            RholangNode::New { base, .. } => *base,
            RholangNode::IfElse { base, .. } => *base,
            RholangNode::Let { base, .. } => *base,
            RholangNode::Bundle { base, .. } => *base,
            RholangNode::Match { base, .. } => *base,
            RholangNode::Choice { base, .. } => *base,
            RholangNode::Contract { base, .. } => *base,
            RholangNode::Input { base, .. } => *base,
            RholangNode::Block { base, .. } => *base,
            RholangNode::Parenthesized { base, .. } => *base,
            RholangNode::BinOp { base, .. } => *base,
            RholangNode::UnaryOp { base, .. } => *base,
            RholangNode::Method { base, .. } => *base,
            RholangNode::Eval { base, .. } => *base,
            RholangNode::Quote { base, .. } => *base,
            RholangNode::VarRef { base, .. } => *base,
            RholangNode::BoolLiteral { base, .. } => *base,
            RholangNode::LongLiteral { base, .. } => *base,
            RholangNode::StringLiteral { base, .. } => *base,
            RholangNode::UriLiteral { base, .. } => *base,
            RholangNode::Nil { base, .. } => *base,
            RholangNode::List { base, .. } => *base,
            RholangNode::SetExpr { base, .. } => *base,
            RholangNode::Pathmap { base, .. } => *base,
            RholangNode::MapExpr { base, .. } => *base,
            RholangNode::Tuple { base, .. } => *base,
            RholangNode::Var { base, .. } => *base,
            RholangNode::NameDecl { base, .. } => *base,
            RholangNode::Decl { base, .. } => *base,
            RholangNode::LinearBind { base, .. } => *base,
            RholangNode::RepeatedBind { base, .. } => *base,
            RholangNode::PeekBind { base, .. } => *base,
            RholangNode::Comment { base, .. } => *base,
            RholangNode::Wildcard { base, .. } => *base,
            RholangNode::SimpleType { base, .. } => *base,
            RholangNode::ReceiveSendSource { base, .. } => *base,
            RholangNode::SendReceiveSource { base, .. } => *base,
            RholangNode::Error { base, .. } => *base,
            RholangNode::Disjunction { base, .. } => *base,
            RholangNode::Conjunction { base, .. } => *base,
            RholangNode::Negation { base, .. } => *base,
            RholangNode::Unit { base, .. } => *base,
        }
    }

    /// The metadata of this node.
    pub open spec fn spec_metadata(&self) -> Option<Arc<Metadata>> {
        match self {
            RholangNode::Par { metadata, .. } => *metadata,
            RholangNode::SendSync { metadata, .. } => *metadata,
            RholangNode::Send { metadata, .. } => *metadata,
            RholangNode::New { metadata, .. } => *metadata,
            RholangNode::IfElse { metadata, .. } => *metadata,
            RholangNode::Let { metadata, .. } => *metadata,
            RholangNode::Bundle { metadata, .. } => *metadata,
            RholangNode::Match { metadata, .. } => *metadata,
            RholangNode::Choice { metadata, .. } => *metadata,
            RholangNode::Contract { metadata, .. } => *metadata,
            RholangNode::Input { metadata, .. } => *metadata,
            RholangNode::Block { metadata, .. } => *metadata,
            RholangNode::Parenthesized { metadata, .. } => *metadata,
            RholangNode::BinOp { metadata, .. } => *metadata,
            RholangNode::UnaryOp { metadata, .. } => *metadata,
            RholangNode::Method { metadata, .. } => *metadata,
            RholangNode::Eval { metadata, .. } => *metadata,
            RholangNode::Quote { metadata, .. } => *metadata,
            RholangNode::VarRef { metadata, .. } => *metadata,
            RholangNode::BoolLiteral { metadata, .. } => *metadata,
            RholangNode::LongLiteral { metadata, .. } => *metadata,
            RholangNode::StringLiteral { metadata, .. } => *metadata,
            RholangNode::UriLiteral { metadata, .. } => *metadata,
            RholangNode::Nil { metadata, .. } => *metadata,
            RholangNode::List { metadata, .. } => *metadata,
            RholangNode::SetExpr { metadata, .. } => *metadata,
            RholangNode::Pathmap { metadata, .. } => *metadata,
            RholangNode::MapExpr { metadata, .. } => *metadata,
            RholangNode::Tuple { metadata, .. } => *metadata,
            RholangNode::Var { metadata, .. } => *metadata,
            RholangNode::NameDecl { metadata, .. } => *metadata,
            RholangNode::Decl { metadata, .. } => *metadata,
            RholangNode::LinearBind { metadata, .. } => *metadata,
            RholangNode::RepeatedBind { metadata, .. } => *metadata,
            RholangNode::PeekBind { metadata, .. } => *metadata,
            RholangNode::Comment { metadata, .. } => *metadata,
            RholangNode::Wildcard { metadata, .. } => *metadata,
            RholangNode::SimpleType { metadata, .. } => *metadata,
            RholangNode::ReceiveSendSource { metadata, .. } => *metadata,
            RholangNode::SendReceiveSource { metadata, .. } => *metadata,
            RholangNode::Error { metadata, .. } => *metadata,
            RholangNode::Disjunction { metadata, .. } => *metadata,
            RholangNode::Conjunction { metadata, .. } => *metadata,
            RholangNode::Negation { metadata, .. } => *metadata,
            RholangNode::Unit { metadata, .. } => *metadata,
        }
    }

    /// The variant number of this node, in declaration order.
    pub open spec fn spec_tag(&self) -> u32 {
        match self {
            RholangNode::Par { .. } => 0,
            RholangNode::SendSync { .. } => 1,
            RholangNode::Send { .. } => 2,
            RholangNode::New { .. } => 3,
            RholangNode::IfElse { .. } => 4,
            RholangNode::Let { .. } => 5,
            RholangNode::Bundle { .. } => 6,
            RholangNode::Match { .. } => 7,
            RholangNode::Choice { .. } => 8,
            RholangNode::Contract { .. } => 9,
            RholangNode::Input { .. } => 10,
            RholangNode::Block { .. } => 11,
            RholangNode::Parenthesized { .. } => 12,
            RholangNode::BinOp { .. } => 13,
            RholangNode::UnaryOp { .. } => 14,
            RholangNode::Method { .. } => 15,
            RholangNode::Eval { .. } => 16,
            RholangNode::Quote { .. } => 17,
            RholangNode::VarRef { .. } => 18,
            RholangNode::BoolLiteral { .. } => 19,
            RholangNode::LongLiteral { .. } => 20,
            RholangNode::StringLiteral { .. } => 21,
            RholangNode::UriLiteral { .. } => 22,
            RholangNode::Nil { .. } => 23,
            RholangNode::List { .. } => 24,
            RholangNode::SetExpr { .. } => 25,
            RholangNode::Pathmap { .. } => 26,
            RholangNode::MapExpr { .. } => 27,
            RholangNode::Tuple { .. } => 28,
            RholangNode::Var { .. } => 29,
            RholangNode::NameDecl { .. } => 30,
            RholangNode::Decl { .. } => 31,
            RholangNode::LinearBind { .. } => 32,
            RholangNode::RepeatedBind { .. } => 33,
            RholangNode::PeekBind { .. } => 34,
            RholangNode::Comment { .. } => 35,
            RholangNode::Wildcard { .. } => 36,
            RholangNode::SimpleType { .. } => 37,
            RholangNode::ReceiveSendSource { .. } => 38,
            RholangNode::SendReceiveSource { .. } => 39,
            RholangNode::Error { .. } => 40,
            RholangNode::Disjunction { .. } => 41,
            RholangNode::Conjunction { .. } => 42,
            RholangNode::Negation { .. } => 43,
            RholangNode::Unit { .. } => 44,
        }
    }

    /// The qualified type name of this node.
    pub open spec fn spec_type_label(&self) -> Seq<char> {
        match self {
            RholangNode::Par { .. } => "Rholang::Par"@,
            RholangNode::SendSync { .. } => "Rholang::SendSync"@,
            RholangNode::Send { .. } => "Rholang::Send"@,
            RholangNode::New { .. } => "Rholang::New"@,
            RholangNode::IfElse { .. } => "Rholang::IfElse"@,
            RholangNode::Let { .. } => "Rholang::Let"@,
            RholangNode::Bundle { .. } => "Rholang::Bundle"@,
            RholangNode::Match { .. } => "Rholang::Match"@,
            RholangNode::Choice { .. } => "Rholang::Choice"@,
            RholangNode::Contract { .. } => "Rholang::Contract"@,
            RholangNode::Input { .. } => "Rholang::Input"@,
            RholangNode::Block { .. } => "Rholang::Block"@,
            RholangNode::Parenthesized { .. } => "Rholang::Parenthesized"@,
            RholangNode::BinOp { .. } => "Rholang::BinOp"@,
            RholangNode::UnaryOp { .. } => "Rholang::UnaryOp"@,
            RholangNode::Method { .. } => "Rholang::Method"@,
            RholangNode::Eval { .. } => "Rholang::Eval"@,
            RholangNode::Quote { .. } => "Rholang::Quote"@,
            RholangNode::VarRef { .. } => "Rholang::VarRef"@,
            RholangNode::BoolLiteral { .. } => "Rholang::BoolLiteral"@,
            RholangNode::LongLiteral { .. } => "Rholang::LongLiteral"@,
            RholangNode::StringLiteral { .. } => "Rholang::StringLiteral"@,
            RholangNode::UriLiteral { .. } => "Rholang::UriLiteral"@,
            RholangNode::Nil { .. } => "Rholang::Nil"@,
            RholangNode::List { .. } => "Rholang::List"@,
            RholangNode::SetExpr { .. } => "Rholang::Set"@,
            RholangNode::Pathmap { .. } => "Rholang::Pathmap"@,
            RholangNode::MapExpr { .. } => "Rholang::Map"@,
            RholangNode::Tuple { .. } => "Rholang::Tuple"@,
            RholangNode::Var { .. } => "Rholang::Var"@,
            RholangNode::NameDecl { .. } => "Rholang::NameDecl"@,
            RholangNode::Decl { .. } => "Rholang::Decl"@,
            RholangNode::LinearBind { .. } => "Rholang::LinearBind"@,
            RholangNode::RepeatedBind { .. } => "Rholang::RepeatedBind"@,
            RholangNode::PeekBind { .. } => "Rholang::PeekBind"@,
            RholangNode::Comment { .. } => "Rholang::Comment"@,
            RholangNode::Wildcard { .. } => "Rholang::Wildcard"@,
            RholangNode::SimpleType { .. } => "Rholang::SimpleType"@,
            RholangNode::ReceiveSendSource { .. } => "Rholang::ReceiveSendSource"@,
            RholangNode::SendReceiveSource { .. } => "Rholang::SendReceiveSource"@,
            RholangNode::Error { .. } => "Rholang::Error"@,
            RholangNode::Disjunction { .. } => "Rholang::Disjunction"@,
            RholangNode::Conjunction { .. } => "Rholang::Conjunction"@,
            RholangNode::Negation { .. } => "Rholang::Negation"@,
            RholangNode::Unit { .. } => "Rholang::Unit"@,
        }
    }

    /// The language-independent category of this node.
    pub open spec fn spec_semantic_category(&self) -> SemanticCategory {
        match self {
            RholangNode::Par { .. } => SemanticCategory::LanguageSpecific,
            RholangNode::SendSync { .. } => SemanticCategory::LanguageSpecific,
            RholangNode::Send { .. } => SemanticCategory::LanguageSpecific,
            RholangNode::New { .. } => SemanticCategory::Binding,
            RholangNode::IfElse { .. } => SemanticCategory::Conditional,
            RholangNode::Let { .. } => SemanticCategory::Binding,
            RholangNode::Bundle { .. } => SemanticCategory::LanguageSpecific,
            RholangNode::Match { .. } => SemanticCategory::Match,
            RholangNode::Choice { .. } => SemanticCategory::Conditional,
            RholangNode::Contract { .. } => SemanticCategory::Binding,
            RholangNode::Input { .. } => SemanticCategory::LanguageSpecific,
            RholangNode::Block { .. } => SemanticCategory::Block,
            RholangNode::Parenthesized { .. } => SemanticCategory::Block,
            RholangNode::BinOp { .. } => SemanticCategory::Invocation,
            RholangNode::UnaryOp { .. } => SemanticCategory::Invocation,
            RholangNode::Method { .. } => SemanticCategory::Invocation,
            RholangNode::Eval { .. } => SemanticCategory::LanguageSpecific,
            RholangNode::Quote { .. } => SemanticCategory::LanguageSpecific,
            RholangNode::VarRef { .. } => SemanticCategory::Variable,
            RholangNode::BoolLiteral { .. } => SemanticCategory::Literal,
            RholangNode::LongLiteral { .. } => SemanticCategory::Literal,
            RholangNode::StringLiteral { .. } => SemanticCategory::Literal,
            RholangNode::UriLiteral { .. } => SemanticCategory::Literal,
            RholangNode::Nil { .. } => SemanticCategory::Literal,
            RholangNode::List { .. } => SemanticCategory::Collection,
            RholangNode::SetExpr { .. } => SemanticCategory::Collection,
            RholangNode::Pathmap { .. } => SemanticCategory::Collection,
            RholangNode::MapExpr { .. } => SemanticCategory::Collection,
            RholangNode::Tuple { .. } => SemanticCategory::Collection,
            RholangNode::Var { .. } => SemanticCategory::Variable,
            RholangNode::NameDecl { .. } => SemanticCategory::Binding,
            RholangNode::Decl { .. } => SemanticCategory::Binding,
            RholangNode::LinearBind { .. } => SemanticCategory::Binding,
            RholangNode::RepeatedBind { .. } => SemanticCategory::Binding,
            RholangNode::PeekBind { .. } => SemanticCategory::Binding,
            RholangNode::Comment { .. } => SemanticCategory::Unknown,
            RholangNode::Wildcard { .. } => SemanticCategory::Literal,
            RholangNode::SimpleType { .. } => SemanticCategory::Literal,
            RholangNode::ReceiveSendSource { .. } => SemanticCategory::LanguageSpecific,
            RholangNode::SendReceiveSource { .. } => SemanticCategory::LanguageSpecific,
            RholangNode::Error { .. } => SemanticCategory::Unknown,
            RholangNode::Disjunction { .. } => SemanticCategory::Match,
            RholangNode::Conjunction { .. } => SemanticCategory::Match,
            RholangNode::Negation { .. } => SemanticCategory::Match,
            RholangNode::Unit { .. } => SemanticCategory::Literal,
        }
    }

    /// Both nodes are the same variant with the same children and attributes,
    /// ignoring base and metadata; sequences are compared by their contents.
    pub open spec fn same_children(&self, other: &RholangNode) -> bool {
        match (*self, *other) {
            (RholangNode::Par { left: a_left, right: a_right, processes: a_processes, .. }, RholangNode::Par { left: b_left, right: b_right, processes: b_processes, .. }) => a_left == b_left && a_right == b_right && opt_vec_view(a_processes) == opt_vec_view(b_processes),
            (RholangNode::SendSync { channel: a_channel, inputs: a_inputs, cont: a_cont, .. }, RholangNode::SendSync { channel: b_channel, inputs: b_inputs, cont: b_cont, .. }) => a_channel == b_channel && a_inputs@ == b_inputs@ && a_cont == b_cont,
            (RholangNode::Send { channel: a_channel, send_type: a_send_type, send_type_delta: a_send_type_delta, inputs: a_inputs, .. }, RholangNode::Send { channel: b_channel, send_type: b_send_type, send_type_delta: b_send_type_delta, inputs: b_inputs, .. }) => a_channel == b_channel && a_send_type == b_send_type && a_send_type_delta == b_send_type_delta && a_inputs@ == b_inputs@,
            (RholangNode::New { decls: a_decls, proc: a_proc, .. }, RholangNode::New { decls: b_decls, proc: b_proc, .. }) => a_decls@ == b_decls@ && a_proc == b_proc,
            (RholangNode::IfElse { condition: a_condition, consequence: a_consequence, alternative: a_alternative, .. }, RholangNode::IfElse { condition: b_condition, consequence: b_consequence, alternative: b_alternative, .. }) => a_condition == b_condition && a_consequence == b_consequence && a_alternative == b_alternative,
            (RholangNode::Let { decls: a_decls, proc: a_proc, .. }, RholangNode::Let { decls: b_decls, proc: b_proc, .. }) => a_decls@ == b_decls@ && a_proc == b_proc,
            (RholangNode::Bundle { bundle_type: a_bundle_type, proc: a_proc, .. }, RholangNode::Bundle { bundle_type: b_bundle_type, proc: b_proc, .. }) => a_bundle_type == b_bundle_type && a_proc == b_proc,
            (RholangNode::Match { expression: a_expression, cases: a_cases, .. }, RholangNode::Match { expression: b_expression, cases: b_cases, .. }) => a_expression == b_expression && a_cases@ == b_cases@,
            (RholangNode::Choice { branches: a_branches, .. }, RholangNode::Choice { branches: b_branches, .. }) => branches_view(a_branches@) == branches_view(b_branches@),
            (RholangNode::Contract { name: a_name, formals: a_formals, formals_remainder: a_formals_remainder, proc: a_proc, .. }, RholangNode::Contract { name: b_name, formals: b_formals, formals_remainder: b_formals_remainder, proc: b_proc, .. }) => a_name == b_name && a_formals@ == b_formals@ && a_formals_remainder == b_formals_remainder && a_proc == b_proc,
            (RholangNode::Input { receipts: a_receipts, proc: a_proc, .. }, RholangNode::Input { receipts: b_receipts, proc: b_proc, .. }) => receipts_view(a_receipts@) == receipts_view(b_receipts@) && a_proc == b_proc,
            (RholangNode::Block { proc: a_proc, .. }, RholangNode::Block { proc: b_proc, .. }) => a_proc == b_proc,
            (RholangNode::Parenthesized { expr: a_expr, .. }, RholangNode::Parenthesized { expr: b_expr, .. }) => a_expr == b_expr,
            (RholangNode::BinOp { op: a_op, left: a_left, right: a_right, .. }, RholangNode::BinOp { op: b_op, left: b_left, right: b_right, .. }) => a_op == b_op && a_left == b_left && a_right == b_right,
            (RholangNode::UnaryOp { op: a_op, operand: a_operand, .. }, RholangNode::UnaryOp { op: b_op, operand: b_operand, .. }) => a_op == b_op && a_operand == b_operand,
            (RholangNode::Method { receiver: a_receiver, name: a_name, args: a_args, .. }, RholangNode::Method { receiver: b_receiver, name: b_name, args: b_args, .. }) => a_receiver == b_receiver && a_name@ == b_name@ && a_args@ == b_args@,
            (RholangNode::Eval { name: a_name, .. }, RholangNode::Eval { name: b_name, .. }) => a_name == b_name,
            (RholangNode::Quote { quotable: a_quotable, .. }, RholangNode::Quote { quotable: b_quotable, .. }) => a_quotable == b_quotable,
            (RholangNode::VarRef { kind: a_kind, var: a_var, .. }, RholangNode::VarRef { kind: b_kind, var: b_var, .. }) => a_kind == b_kind && a_var == b_var,
            (RholangNode::BoolLiteral { value: a_value, .. }, RholangNode::BoolLiteral { value: b_value, .. }) => a_value == b_value,
            (RholangNode::LongLiteral { value: a_value, .. }, RholangNode::LongLiteral { value: b_value, .. }) => a_value == b_value,
            (RholangNode::StringLiteral { value: a_value, .. }, RholangNode::StringLiteral { value: b_value, .. }) => a_value@ == b_value@,
            (RholangNode::UriLiteral { value: a_value, .. }, RholangNode::UriLiteral { value: b_value, .. }) => a_value@ == b_value@,
            (RholangNode::Nil { .. }, RholangNode::Nil { .. }) => true,
            (RholangNode::List { elements: a_elements, remainder: a_remainder, .. }, RholangNode::List { elements: b_elements, remainder: b_remainder, .. }) => a_elements@ == b_elements@ && a_remainder == b_remainder,
            (RholangNode::SetExpr { elements: a_elements, remainder: a_remainder, .. }, RholangNode::SetExpr { elements: b_elements, remainder: b_remainder, .. }) => a_elements@ == b_elements@ && a_remainder == b_remainder,
            (RholangNode::Pathmap { elements: a_elements, remainder: a_remainder, .. }, RholangNode::Pathmap { elements: b_elements, remainder: b_remainder, .. }) => a_elements@ == b_elements@ && a_remainder == b_remainder,
            (RholangNode::MapExpr { pairs: a_pairs, remainder: a_remainder, .. }, RholangNode::MapExpr { pairs: b_pairs, remainder: b_remainder, .. }) => a_pairs@ == b_pairs@ && a_remainder == b_remainder,
            (RholangNode::Tuple { elements: a_elements, .. }, RholangNode::Tuple { elements: b_elements, .. }) => a_elements@ == b_elements@,
            (RholangNode::Var { name: a_name, .. }, RholangNode::Var { name: b_name, .. }) => a_name@ == b_name@,
            (RholangNode::NameDecl { var: a_var, uri: a_uri, .. }, RholangNode::NameDecl { var: b_var, uri: b_uri, .. }) => a_var == b_var && a_uri == b_uri,
            (RholangNode::Decl { names: a_names, names_remainder: a_names_remainder, procs: a_procs, .. }, RholangNode::Decl { names: b_names, names_remainder: b_names_remainder, procs: b_procs, .. }) => a_names@ == b_names@ && a_names_remainder == b_names_remainder && a_procs@ == b_procs@,
            (RholangNode::LinearBind { names: a_names, remainder: a_remainder, source: a_source, .. }, RholangNode::LinearBind { names: b_names, remainder: b_remainder, source: b_source, .. }) => a_names@ == b_names@ && a_remainder == b_remainder && a_source == b_source,
            (RholangNode::RepeatedBind { names: a_names, remainder: a_remainder, source: a_source, .. }, RholangNode::RepeatedBind { names: b_names, remainder: b_remainder, source: b_source, .. }) => a_names@ == b_names@ && a_remainder == b_remainder && a_source == b_source,
            (RholangNode::PeekBind { names: a_names, remainder: a_remainder, source: a_source, .. }, RholangNode::PeekBind { names: b_names, remainder: b_remainder, source: b_source, .. }) => a_names@ == b_names@ && a_remainder == b_remainder && a_source == b_source,
            (RholangNode::Comment { kind: a_kind, .. }, RholangNode::Comment { kind: b_kind, .. }) => a_kind == b_kind,
            (RholangNode::Wildcard { .. }, RholangNode::Wildcard { .. }) => true,
            (RholangNode::SimpleType { value: a_value, .. }, RholangNode::SimpleType { value: b_value, .. }) => a_value@ == b_value@,
            (RholangNode::ReceiveSendSource { name: a_name, .. }, RholangNode::ReceiveSendSource { name: b_name, .. }) => a_name == b_name,
            (RholangNode::SendReceiveSource { name: a_name, inputs: a_inputs, .. }, RholangNode::SendReceiveSource { name: b_name, inputs: b_inputs, .. }) => a_name == b_name && a_inputs@ == b_inputs@,
            (RholangNode::Error { children: a_children, .. }, RholangNode::Error { children: b_children, .. }) => a_children@ == b_children@,
            (RholangNode::Disjunction { left: a_left, right: a_right, .. }, RholangNode::Disjunction { left: b_left, right: b_right, .. }) => a_left == b_left && a_right == b_right,
            (RholangNode::Conjunction { left: a_left, right: a_right, .. }, RholangNode::Conjunction { left: b_left, right: b_right, .. }) => a_left == b_left && a_right == b_right,
            (RholangNode::Negation { operand: a_operand, .. }, RholangNode::Negation { operand: b_operand, .. }) => a_operand == b_operand,
            (RholangNode::Unit { .. }, RholangNode::Unit { .. }) => true,
            _ => false,
        }
    }

    /// `r` is this node rebased on `b`: same metadata and children, except that
    /// a Par in list form drops its binary operands.
    pub open spec fn rebased_as(&self, r: RholangNode, b: NodeBase) -> bool {
        &&& r.spec_base() == b
        &&& r.spec_metadata() == self.spec_metadata()
        &&& match (r, *self) {
            (RholangNode::Par { left, right, processes, .. }, RholangNode::Par { processes: Some(p), .. }) =>
                left is None && right is None && opt_vec_view(processes) == Some(p@),
            _ => r.same_children(self),
        }
    }

    /// The positional base of this node.
    pub fn base(&self) -> (b: &NodeBase)
        ensures
            *b == self.spec_base(),
    {
        match self {
            RholangNode::Par { base, .. } => base,
            RholangNode::SendSync { base, .. } => base,
            RholangNode::Send { base, .. } => base,
            RholangNode::New { base, .. } => base,
            RholangNode::IfElse { base, .. } => base,
            RholangNode::Let { base, .. } => base,
            RholangNode::Bundle { base, .. } => base,
            RholangNode::Match { base, .. } => base,
            RholangNode::Choice { base, .. } => base,
            RholangNode::Contract { base, .. } => base,
            RholangNode::Input { base, .. } => base,
            RholangNode::Block { base, .. } => base,
            RholangNode::Parenthesized { base, .. } => base,
            RholangNode::BinOp { base, .. } => base,
            RholangNode::UnaryOp { base, .. } => base,
            RholangNode::Method { base, .. } => base,
            RholangNode::Eval { base, .. } => base,
            RholangNode::Quote { base, .. } => base,
            RholangNode::VarRef { base, .. } => base,
            RholangNode::BoolLiteral { base, .. } => base,
            RholangNode::LongLiteral { base, .. } => base,
            RholangNode::StringLiteral { base, .. } => base,
            RholangNode::UriLiteral { base, .. } => base,
            RholangNode::Nil { base, .. } => base,
            RholangNode::List { base, .. } => base,
            RholangNode::SetExpr { base, .. } => base,
            RholangNode::Pathmap { base, .. } => base,
            RholangNode::MapExpr { base, .. } => base,
            RholangNode::Tuple { base, .. } => base,
            RholangNode::Var { base, .. } => base,
            RholangNode::NameDecl { base, .. } => base,
            RholangNode::Decl { base, .. } => base,
            RholangNode::LinearBind { base, .. } => base,
            RholangNode::RepeatedBind { base, .. } => base,
            RholangNode::PeekBind { base, .. } => base,
            RholangNode::Comment { base, .. } => base,
            RholangNode::Wildcard { base, .. } => base,
            RholangNode::SimpleType { base, .. } => base,
            RholangNode::ReceiveSendSource { base, .. } => base,
            RholangNode::SendReceiveSource { base, .. } => base,
            RholangNode::Error { base, .. } => base,
            RholangNode::Disjunction { base, .. } => base,
            RholangNode::Conjunction { base, .. } => base,
            RholangNode::Negation { base, .. } => base,
            RholangNode::Unit { base, .. } => base,
        }
    }

    /// The metadata of this node.
    pub fn metadata(&self) -> (m: Option<&Arc<Metadata>>)
        ensures
            match m {
                Some(x) => self.spec_metadata() == Some(*x),
                None => self.spec_metadata() is None,
            },
    {
        match self {
            RholangNode::Par { metadata, .. } => metadata.as_ref(),
            RholangNode::SendSync { metadata, .. } => metadata.as_ref(),
            RholangNode::Send { metadata, .. } => metadata.as_ref(),
            RholangNode::New { metadata, .. } => metadata.as_ref(),
            RholangNode::IfElse { metadata, .. } => metadata.as_ref(),
            RholangNode::Let { metadata, .. } => metadata.as_ref(),
            RholangNode::Bundle { metadata, .. } => metadata.as_ref(),
            RholangNode::Match { metadata, .. } => metadata.as_ref(),
            RholangNode::Choice { metadata, .. } => metadata.as_ref(),
            RholangNode::Contract { metadata, .. } => metadata.as_ref(),
            RholangNode::Input { metadata, .. } => metadata.as_ref(),
            RholangNode::Block { metadata, .. } => metadata.as_ref(),
            RholangNode::Parenthesized { metadata, .. } => metadata.as_ref(),
            RholangNode::BinOp { metadata, .. } => metadata.as_ref(),
            RholangNode::UnaryOp { metadata, .. } => metadata.as_ref(),
            RholangNode::Method { metadata, .. } => metadata.as_ref(),
            RholangNode::Eval { metadata, .. } => metadata.as_ref(),
            RholangNode::Quote { metadata, .. } => metadata.as_ref(),
            RholangNode::VarRef { metadata, .. } => metadata.as_ref(),
            RholangNode::BoolLiteral { metadata, .. } => metadata.as_ref(),
            RholangNode::LongLiteral { metadata, .. } => metadata.as_ref(),
            RholangNode::StringLiteral { metadata, .. } => metadata.as_ref(),
            RholangNode::UriLiteral { metadata, .. } => metadata.as_ref(),
            RholangNode::Nil { metadata, .. } => metadata.as_ref(),
            RholangNode::List { metadata, .. } => metadata.as_ref(),
            RholangNode::SetExpr { metadata, .. } => metadata.as_ref(),
            RholangNode::Pathmap { metadata, .. } => metadata.as_ref(),
            RholangNode::MapExpr { metadata, .. } => metadata.as_ref(),
            RholangNode::Tuple { metadata, .. } => metadata.as_ref(),
            RholangNode::Var { metadata, .. } => metadata.as_ref(),
            RholangNode::NameDecl { metadata, .. } => metadata.as_ref(),
            RholangNode::Decl { metadata, .. } => metadata.as_ref(),
            RholangNode::LinearBind { metadata, .. } => metadata.as_ref(),
            RholangNode::RepeatedBind { metadata, .. } => metadata.as_ref(),
            RholangNode::PeekBind { metadata, .. } => metadata.as_ref(),
            RholangNode::Comment { metadata, .. } => metadata.as_ref(),
            RholangNode::Wildcard { metadata, .. } => metadata.as_ref(),
            RholangNode::SimpleType { metadata, .. } => metadata.as_ref(),
            RholangNode::ReceiveSendSource { metadata, .. } => metadata.as_ref(),
            RholangNode::SendReceiveSource { metadata, .. } => metadata.as_ref(),
            RholangNode::Error { metadata, .. } => metadata.as_ref(),
            RholangNode::Disjunction { metadata, .. } => metadata.as_ref(),
            RholangNode::Conjunction { metadata, .. } => metadata.as_ref(),
            RholangNode::Negation { metadata, .. } => metadata.as_ref(),
            RholangNode::Unit { metadata, .. } => metadata.as_ref(),
        }
    }

    /// The variant number of this node, in declaration order.
    pub fn tag(&self) -> (t: u32)
        ensures
            t == self.spec_tag(),
    {
        match self {
            RholangNode::Par { .. } => 0,
            RholangNode::SendSync { .. } => 1,
            RholangNode::Send { .. } => 2,
            RholangNode::New { .. } => 3,
            RholangNode::IfElse { .. } => 4,
            RholangNode::Let { .. } => 5,
            RholangNode::Bundle { .. } => 6,
            RholangNode::Match { .. } => 7,
            RholangNode::Choice { .. } => 8,
            RholangNode::Contract { .. } => 9,
            RholangNode::Input { .. } => 10,
            RholangNode::Block { .. } => 11,
            RholangNode::Parenthesized { .. } => 12,
            RholangNode::BinOp { .. } => 13,
            RholangNode::UnaryOp { .. } => 14,
            RholangNode::Method { .. } => 15,
            RholangNode::Eval { .. } => 16,
            RholangNode::Quote { .. } => 17,
            RholangNode::VarRef { .. } => 18,
            RholangNode::BoolLiteral { .. } => 19,
            RholangNode::LongLiteral { .. } => 20,
            RholangNode::StringLiteral { .. } => 21,
            RholangNode::UriLiteral { .. } => 22,
            RholangNode::Nil { .. } => 23,
            RholangNode::List { .. } => 24,
            RholangNode::SetExpr { .. } => 25,
            RholangNode::Pathmap { .. } => 26,
            RholangNode::MapExpr { .. } => 27,
            RholangNode::Tuple { .. } => 28,
            RholangNode::Var { .. } => 29,
            RholangNode::NameDecl { .. } => 30,
            RholangNode::Decl { .. } => 31,
            RholangNode::LinearBind { .. } => 32,
            RholangNode::RepeatedBind { .. } => 33,
            RholangNode::PeekBind { .. } => 34,
            RholangNode::Comment { .. } => 35,
            RholangNode::Wildcard { .. } => 36,
            RholangNode::SimpleType { .. } => 37,
            RholangNode::ReceiveSendSource { .. } => 38,
            RholangNode::SendReceiveSource { .. } => 39,
            RholangNode::Error { .. } => 40,
            RholangNode::Disjunction { .. } => 41,
            RholangNode::Conjunction { .. } => 42,
            RholangNode::Negation { .. } => 43,
            RholangNode::Unit { .. } => 44,
        }
    }

    /// The qualified type name of this node, such as `Rholang::Par`.
    pub fn type_label(&self) -> (s: &'static str)
        ensures
            s@ == self.spec_type_label(),
    {
        match self {
            RholangNode::Par { .. } => "Rholang::Par",
            RholangNode::SendSync { .. } => "Rholang::SendSync",
            RholangNode::Send { .. } => "Rholang::Send",
            RholangNode::New { .. } => "Rholang::New",
            RholangNode::IfElse { .. } => "Rholang::IfElse",
            RholangNode::Let { .. } => "Rholang::Let",
            RholangNode::Bundle { .. } => "Rholang::Bundle",
            RholangNode::Match { .. } => "Rholang::Match",
            RholangNode::Choice { .. } => "Rholang::Choice",
            RholangNode::Contract { .. } => "Rholang::Contract",
            RholangNode::Input { .. } => "Rholang::Input",
            RholangNode::Block { .. } => "Rholang::Block",
            RholangNode::Parenthesized { .. } => "Rholang::Parenthesized",
            RholangNode::BinOp { .. } => "Rholang::BinOp",
            RholangNode::UnaryOp { .. } => "Rholang::UnaryOp",
            RholangNode::Method { .. } => "Rholang::Method",
            RholangNode::Eval { .. } => "Rholang::Eval",
            RholangNode::Quote { .. } => "Rholang::Quote",
            RholangNode::VarRef { .. } => "Rholang::VarRef",
            RholangNode::BoolLiteral { .. } => "Rholang::BoolLiteral",
            RholangNode::LongLiteral { .. } => "Rholang::LongLiteral",
            RholangNode::StringLiteral { .. } => "Rholang::StringLiteral",
            RholangNode::UriLiteral { .. } => "Rholang::UriLiteral",
            RholangNode::Nil { .. } => "Rholang::Nil",
            RholangNode::List { .. } => "Rholang::List",
            RholangNode::SetExpr { .. } => "Rholang::Set",
            RholangNode::Pathmap { .. } => "Rholang::Pathmap",
            RholangNode::MapExpr { .. } => "Rholang::Map",
            RholangNode::Tuple { .. } => "Rholang::Tuple",
            RholangNode::Var { .. } => "Rholang::Var",
            RholangNode::NameDecl { .. } => "Rholang::NameDecl",
            RholangNode::Decl { .. } => "Rholang::Decl",
            RholangNode::LinearBind { .. } => "Rholang::LinearBind",
            RholangNode::RepeatedBind { .. } => "Rholang::RepeatedBind",
            RholangNode::PeekBind { .. } => "Rholang::PeekBind",
            RholangNode::Comment { .. } => "Rholang::Comment",
            RholangNode::Wildcard { .. } => "Rholang::Wildcard",
            RholangNode::SimpleType { .. } => "Rholang::SimpleType",
            RholangNode::ReceiveSendSource { .. } => "Rholang::ReceiveSendSource",
            RholangNode::SendReceiveSource { .. } => "Rholang::SendReceiveSource",
            RholangNode::Error { .. } => "Rholang::Error",
            RholangNode::Disjunction { .. } => "Rholang::Disjunction",
            RholangNode::Conjunction { .. } => "Rholang::Conjunction",
            RholangNode::Negation { .. } => "Rholang::Negation",
            RholangNode::Unit { .. } => "Rholang::Unit",
        }
    }

    /// The language-independent category of this node.
    pub fn semantic_category(&self) -> (c: SemanticCategory)
        ensures
            c == self.spec_semantic_category(),
    {
        match self {
            RholangNode::Par { .. } => SemanticCategory::LanguageSpecific,
            RholangNode::SendSync { .. } => SemanticCategory::LanguageSpecific,
            RholangNode::Send { .. } => SemanticCategory::LanguageSpecific,
            RholangNode::New { .. } => SemanticCategory::Binding,
            RholangNode::IfElse { .. } => SemanticCategory::Conditional,
            RholangNode::Let { .. } => SemanticCategory::Binding,
            RholangNode::Bundle { .. } => SemanticCategory::LanguageSpecific,
            RholangNode::Match { .. } => SemanticCategory::Match,
            RholangNode::Choice { .. } => SemanticCategory::Conditional,
            RholangNode::Contract { .. } => SemanticCategory::Binding,
            RholangNode::Input { .. } => SemanticCategory::LanguageSpecific,
            RholangNode::Block { .. } => SemanticCategory::Block,
            RholangNode::Parenthesized { .. } => SemanticCategory::Block,
            RholangNode::BinOp { .. } => SemanticCategory::Invocation,
            RholangNode::UnaryOp { .. } => SemanticCategory::Invocation,
            RholangNode::Method { .. } => SemanticCategory::Invocation,
            RholangNode::Eval { .. } => SemanticCategory::LanguageSpecific,
            RholangNode::Quote { .. } => SemanticCategory::LanguageSpecific,
            RholangNode::VarRef { .. } => SemanticCategory::Variable,
            RholangNode::BoolLiteral { .. } => SemanticCategory::Literal,
            RholangNode::LongLiteral { .. } => SemanticCategory::Literal,
            RholangNode::StringLiteral { .. } => SemanticCategory::Literal,
            RholangNode::UriLiteral { .. } => SemanticCategory::Literal,
            RholangNode::Nil { .. } => SemanticCategory::Literal,
            RholangNode::List { .. } => SemanticCategory::Collection,
            RholangNode::SetExpr { .. } => SemanticCategory::Collection,
            RholangNode::Pathmap { .. } => SemanticCategory::Collection,
            RholangNode::MapExpr { .. } => SemanticCategory::Collection,
            RholangNode::Tuple { .. } => SemanticCategory::Collection,
            RholangNode::Var { .. } => SemanticCategory::Variable,
            RholangNode::NameDecl { .. } => SemanticCategory::Binding,
            RholangNode::Decl { .. } => SemanticCategory::Binding,
            RholangNode::LinearBind { .. } => SemanticCategory::Binding,
            RholangNode::RepeatedBind { .. } => SemanticCategory::Binding,
            RholangNode::PeekBind { .. } => SemanticCategory::Binding,
            RholangNode::Comment { .. } => SemanticCategory::Unknown,
            RholangNode::Wildcard { .. } => SemanticCategory::Literal,
            RholangNode::SimpleType { .. } => SemanticCategory::Literal,
            RholangNode::ReceiveSendSource { .. } => SemanticCategory::LanguageSpecific,
            RholangNode::SendReceiveSource { .. } => SemanticCategory::LanguageSpecific,
            RholangNode::Error { .. } => SemanticCategory::Unknown,
            RholangNode::Disjunction { .. } => SemanticCategory::Match,
            RholangNode::Conjunction { .. } => SemanticCategory::Match,
            RholangNode::Negation { .. } => SemanticCategory::Match,
            RholangNode::Unit { .. } => SemanticCategory::Literal,
        }
    }

    /// The length of the node's text in bytes.
    pub fn length(&self) -> (n: usize)
        ensures
            n == self.spec_base().spec_syntactic_length(),
    {
        self.base().length()
    }

    /// A new node like this one with base `new_base`.
    pub fn with_base(&self, new_base: NodeBase) -> (r: Arc<RholangNode>)
        ensures
            self.rebased_as(*r, new_base),
    {
        match self {
            RholangNode::Par { left, right, processes: None, metadata, .. } => Arc::new(RholangNode::Par {
                base: new_base, left: share_opt(left), right: share_opt(right), processes: None, metadata: share_meta_opt(metadata),
            }),
            RholangNode::Par { processes: Some(procs), metadata, .. } => Arc::new(RholangNode::Par {
                base: new_base, left: None, right: None, processes: Some(share_all(procs)), metadata: share_meta_opt(metadata),
            }),
            RholangNode::SendSync { channel, inputs, cont, metadata, .. } => Arc::new(RholangNode::SendSync {
                base: new_base, channel: share(channel), inputs: share_all(inputs), cont: share(cont), metadata: share_meta_opt(metadata),
            }),
            RholangNode::Send { channel, send_type, send_type_delta, inputs, metadata, .. } => Arc::new(RholangNode::Send {
                base: new_base, channel: share(channel), send_type: *send_type, send_type_delta: *send_type_delta, inputs: share_all(inputs), metadata: share_meta_opt(metadata),
            }),
            RholangNode::New { decls, proc, metadata, .. } => Arc::new(RholangNode::New {
                base: new_base, decls: share_all(decls), proc: share(proc), metadata: share_meta_opt(metadata),
            }),
            RholangNode::IfElse { condition, consequence, alternative, metadata, .. } => Arc::new(RholangNode::IfElse {
                base: new_base, condition: share(condition), consequence: share(consequence), alternative: share_opt(alternative), metadata: share_meta_opt(metadata),
            }),
            RholangNode::Let { decls, proc, metadata, .. } => Arc::new(RholangNode::Let {
                base: new_base, decls: share_all(decls), proc: share(proc), metadata: share_meta_opt(metadata),
            }),
            RholangNode::Bundle { bundle_type, proc, metadata, .. } => Arc::new(RholangNode::Bundle {
                base: new_base, bundle_type: *bundle_type, proc: share(proc), metadata: share_meta_opt(metadata),
            }),
            RholangNode::Match { expression, cases, metadata, .. } => Arc::new(RholangNode::Match {
                base: new_base, expression: share(expression), cases: share_pairs(cases), metadata: share_meta_opt(metadata),
            }),
            RholangNode::Choice { branches, metadata, .. } => Arc::new(RholangNode::Choice {
                base: new_base, branches: share_branches(branches), metadata: share_meta_opt(metadata),
            }),
            RholangNode::Contract { name, formals, formals_remainder, proc, metadata, .. } => Arc::new(RholangNode::Contract {
                base: new_base, name: share(name), formals: share_all(formals), formals_remainder: share_opt(formals_remainder), proc: share(proc), metadata: share_meta_opt(metadata),
            }),
            RholangNode::Input { receipts, proc, metadata, .. } => Arc::new(RholangNode::Input {
                base: new_base, receipts: share_receipts(receipts), proc: share(proc), metadata: share_meta_opt(metadata),
            }),
            RholangNode::Block { proc, metadata, .. } => Arc::new(RholangNode::Block {
                base: new_base, proc: share(proc), metadata: share_meta_opt(metadata),
            }),
            RholangNode::Parenthesized { expr, metadata, .. } => Arc::new(RholangNode::Parenthesized {
                base: new_base, expr: share(expr), metadata: share_meta_opt(metadata),
            }),
            RholangNode::BinOp { op, left, right, metadata, .. } => Arc::new(RholangNode::BinOp {
                base: new_base, op: *op, left: share(left), right: share(right), metadata: share_meta_opt(metadata),
            }),
            RholangNode::UnaryOp { op, operand, metadata, .. } => Arc::new(RholangNode::UnaryOp {
                base: new_base, op: *op, operand: share(operand), metadata: share_meta_opt(metadata),
            }),
            RholangNode::Method { receiver, name, args, metadata, .. } => Arc::new(RholangNode::Method {
                base: new_base, receiver: share(receiver), name: name.clone(), args: share_all(args), metadata: share_meta_opt(metadata),
            }),
            RholangNode::Eval { name, metadata, .. } => Arc::new(RholangNode::Eval {
                base: new_base, name: share(name), metadata: share_meta_opt(metadata),
            }),
            RholangNode::Quote { quotable, metadata, .. } => Arc::new(RholangNode::Quote {
                base: new_base, quotable: share(quotable), metadata: share_meta_opt(metadata),
            }),
            RholangNode::VarRef { kind, var, metadata, .. } => Arc::new(RholangNode::VarRef {
                base: new_base, kind: *kind, var: share(var), metadata: share_meta_opt(metadata),
            }),
            RholangNode::BoolLiteral { value, metadata, .. } => Arc::new(RholangNode::BoolLiteral {
                base: new_base, value: *value, metadata: share_meta_opt(metadata),
            }),
            RholangNode::LongLiteral { value, metadata, .. } => Arc::new(RholangNode::LongLiteral {
                base: new_base, value: *value, metadata: share_meta_opt(metadata),
            }),
            RholangNode::StringLiteral { value, metadata, .. } => Arc::new(RholangNode::StringLiteral {
                base: new_base, value: value.clone(), metadata: share_meta_opt(metadata),
            }),
            RholangNode::UriLiteral { value, metadata, .. } => Arc::new(RholangNode::UriLiteral {
                base: new_base, value: value.clone(), metadata: share_meta_opt(metadata),
            }),
            RholangNode::Nil { metadata, .. } => Arc::new(RholangNode::Nil {
                base: new_base, metadata: share_meta_opt(metadata),
            }),
            RholangNode::List { elements, remainder, metadata, .. } => Arc::new(RholangNode::List {
                base: new_base, elements: share_all(elements), remainder: share_opt(remainder), metadata: share_meta_opt(metadata),
            }),
            RholangNode::SetExpr { elements, remainder, metadata, .. } => Arc::new(RholangNode::SetExpr {
                base: new_base, elements: share_all(elements), remainder: share_opt(remainder), metadata: share_meta_opt(metadata),
            }),
            RholangNode::Pathmap { elements, remainder, metadata, .. } => Arc::new(RholangNode::Pathmap {
                base: new_base, elements: share_all(elements), remainder: share_opt(remainder), metadata: share_meta_opt(metadata),
            }),
            RholangNode::MapExpr { pairs, remainder, metadata, .. } => Arc::new(RholangNode::MapExpr {
                base: new_base, pairs: share_pairs(pairs), remainder: share_opt(remainder), metadata: share_meta_opt(metadata),
            }),
            RholangNode::Tuple { elements, metadata, .. } => Arc::new(RholangNode::Tuple {
                base: new_base, elements: share_all(elements), metadata: share_meta_opt(metadata),
            }),
            RholangNode::Var { name, metadata, .. } => Arc::new(RholangNode::Var {
                base: new_base, name: name.clone(), metadata: share_meta_opt(metadata),
            }),
            RholangNode::NameDecl { var, uri, metadata, .. } => Arc::new(RholangNode::NameDecl {
                base: new_base, var: share(var), uri: share_opt(uri), metadata: share_meta_opt(metadata),
            }),
            RholangNode::Decl { names, names_remainder, procs, metadata, .. } => Arc::new(RholangNode::Decl {
                base: new_base, names: share_all(names), names_remainder: share_opt(names_remainder), procs: share_all(procs), metadata: share_meta_opt(metadata),
            }),
            RholangNode::LinearBind { names, remainder, source, metadata, .. } => Arc::new(RholangNode::LinearBind {
                base: new_base, names: share_all(names), remainder: share_opt(remainder), source: share(source), metadata: share_meta_opt(metadata),
            }),
            RholangNode::RepeatedBind { names, remainder, source, metadata, .. } => Arc::new(RholangNode::RepeatedBind {
                base: new_base, names: share_all(names), remainder: share_opt(remainder), source: share(source), metadata: share_meta_opt(metadata),
            }),
            RholangNode::PeekBind { names, remainder, source, metadata, .. } => Arc::new(RholangNode::PeekBind {
                base: new_base, names: share_all(names), remainder: share_opt(remainder), source: share(source), metadata: share_meta_opt(metadata),
            }),
            RholangNode::Comment { kind, metadata, .. } => Arc::new(RholangNode::Comment {
                base: new_base, kind: *kind, metadata: share_meta_opt(metadata),
            }),
            RholangNode::Wildcard { metadata, .. } => Arc::new(RholangNode::Wildcard {
                base: new_base, metadata: share_meta_opt(metadata),
            }),
            RholangNode::SimpleType { value, metadata, .. } => Arc::new(RholangNode::SimpleType {
                base: new_base, value: value.clone(), metadata: share_meta_opt(metadata),
            }),
            RholangNode::ReceiveSendSource { name, metadata, .. } => Arc::new(RholangNode::ReceiveSendSource {
                base: new_base, name: share(name), metadata: share_meta_opt(metadata),
            }),
            RholangNode::SendReceiveSource { name, inputs, metadata, .. } => Arc::new(RholangNode::SendReceiveSource {
                base: new_base, name: share(name), inputs: share_all(inputs), metadata: share_meta_opt(metadata),
            }),
            RholangNode::Error { children, metadata, .. } => Arc::new(RholangNode::Error {
                base: new_base, children: share_all(children), metadata: share_meta_opt(metadata),
            }),
            RholangNode::Disjunction { left, right, metadata, .. } => Arc::new(RholangNode::Disjunction {
                base: new_base, left: share(left), right: share(right), metadata: share_meta_opt(metadata),
            }),
            RholangNode::Conjunction { left, right, metadata, .. } => Arc::new(RholangNode::Conjunction {
                base: new_base, left: share(left), right: share(right), metadata: share_meta_opt(metadata),
            }),
            RholangNode::Negation { operand, metadata, .. } => Arc::new(RholangNode::Negation {
                base: new_base, operand: share(operand), metadata: share_meta_opt(metadata),
            }),
            RholangNode::Unit { metadata, .. } => Arc::new(RholangNode::Unit {
                base: new_base, metadata: share_meta_opt(metadata),
            }),
        }
    }

    /// A new node like this one with metadata `new_metadata`.
    pub fn with_metadata(&self, new_metadata: Option<Arc<Metadata>>) -> (r: Arc<RholangNode>)
        ensures
            r.spec_base() == self.spec_base(),
            r.spec_metadata() == new_metadata,
            r.same_children(self),
    {
        match self {
            RholangNode::Par { base, left, right, processes, .. } => Arc::new(RholangNode::Par {
                base: *base, left: share_opt(left), right: share_opt(right), processes: share_opt_all(processes), metadata: new_metadata,
            }),
            RholangNode::SendSync { base, channel, inputs, cont, .. } => Arc::new(RholangNode::SendSync {
                base: *base, channel: share(channel), inputs: share_all(inputs), cont: share(cont), metadata: new_metadata,
            }),
            RholangNode::Send { base, channel, send_type, send_type_delta, inputs, .. } => Arc::new(RholangNode::Send {
                base: *base, channel: share(channel), send_type: *send_type, send_type_delta: *send_type_delta, inputs: share_all(inputs), metadata: new_metadata,
            }),
            RholangNode::New { base, decls, proc, .. } => Arc::new(RholangNode::New {
                base: *base, decls: share_all(decls), proc: share(proc), metadata: new_metadata,
            }),
            RholangNode::IfElse { base, condition, consequence, alternative, .. } => Arc::new(RholangNode::IfElse {
                base: *base, condition: share(condition), consequence: share(consequence), alternative: share_opt(alternative), metadata: new_metadata,
            }),
            RholangNode::Let { base, decls, proc, .. } => Arc::new(RholangNode::Let {
                base: *base, decls: share_all(decls), proc: share(proc), metadata: new_metadata,
            }),
            RholangNode::Bundle { base, bundle_type, proc, .. } => Arc::new(RholangNode::Bundle {
                base: *base, bundle_type: *bundle_type, proc: share(proc), metadata: new_metadata,
            }),
            RholangNode::Match { base, expression, cases, .. } => Arc::new(RholangNode::Match {
                base: *base, expression: share(expression), cases: share_pairs(cases), metadata: new_metadata,
            }),
            RholangNode::Choice { base, branches, .. } => Arc::new(RholangNode::Choice {
                base: *base, branches: share_branches(branches), metadata: new_metadata,
            }),
            RholangNode::Contract { base, name, formals, formals_remainder, proc, .. } => Arc::new(RholangNode::Contract {
                base: *base, name: share(name), formals: share_all(formals), formals_remainder: share_opt(formals_remainder), proc: share(proc), metadata: new_metadata,
            }),
            RholangNode::Input { base, receipts, proc, .. } => Arc::new(RholangNode::Input {
                base: *base, receipts: share_receipts(receipts), proc: share(proc), metadata: new_metadata,
            }),
            RholangNode::Block { base, proc, .. } => Arc::new(RholangNode::Block {
                base: *base, proc: share(proc), metadata: new_metadata,
            }),
            RholangNode::Parenthesized { base, expr, .. } => Arc::new(RholangNode::Parenthesized {
                base: *base, expr: share(expr), metadata: new_metadata,
            }),
            RholangNode::BinOp { base, op, left, right, .. } => Arc::new(RholangNode::BinOp {
                base: *base, op: *op, left: share(left), right: share(right), metadata: new_metadata,
            }),
            RholangNode::UnaryOp { base, op, operand, .. } => Arc::new(RholangNode::UnaryOp {
                base: *base, op: *op, operand: share(operand), metadata: new_metadata,
            }),
            RholangNode::Method { base, receiver, name, args, .. } => Arc::new(RholangNode::Method {
                base: *base, receiver: share(receiver), name: name.clone(), args: share_all(args), metadata: new_metadata,
            }),
            RholangNode::Eval { base, name, .. } => Arc::new(RholangNode::Eval {
                base: *base, name: share(name), metadata: new_metadata,
            }),
            RholangNode::Quote { base, quotable, .. } => Arc::new(RholangNode::Quote {
                base: *base, quotable: share(quotable), metadata: new_metadata,
            }),
            RholangNode::VarRef { base, kind, var, .. } => Arc::new(RholangNode::VarRef {
                base: *base, kind: *kind, var: share(var), metadata: new_metadata,
            }),
            RholangNode::BoolLiteral { base, value, .. } => Arc::new(RholangNode::BoolLiteral {
                base: *base, value: *value, metadata: new_metadata,
            }),
            RholangNode::LongLiteral { base, value, .. } => Arc::new(RholangNode::LongLiteral {
                base: *base, value: *value, metadata: new_metadata,
            }),
            RholangNode::StringLiteral { base, value, .. } => Arc::new(RholangNode::StringLiteral {
                base: *base, value: value.clone(), metadata: new_metadata,
            }),
            RholangNode::UriLiteral { base, value, .. } => Arc::new(RholangNode::UriLiteral {
                base: *base, value: value.clone(), metadata: new_metadata,
            }),
            RholangNode::Nil { base, .. } => Arc::new(RholangNode::Nil {
                base: *base, metadata: new_metadata,
            }),
            RholangNode::List { base, elements, remainder, .. } => Arc::new(RholangNode::List {
                base: *base, elements: share_all(elements), remainder: share_opt(remainder), metadata: new_metadata,
            }),
            RholangNode::SetExpr { base, elements, remainder, .. } => Arc::new(RholangNode::SetExpr {
                base: *base, elements: share_all(elements), remainder: share_opt(remainder), metadata: new_metadata,
            }),
            RholangNode::Pathmap { base, elements, remainder, .. } => Arc::new(RholangNode::Pathmap {
                base: *base, elements: share_all(elements), remainder: share_opt(remainder), metadata: new_metadata,
            }),
            RholangNode::MapExpr { base, pairs, remainder, .. } => Arc::new(RholangNode::MapExpr {
                base: *base, pairs: share_pairs(pairs), remainder: share_opt(remainder), metadata: new_metadata,
            }),
            RholangNode::Tuple { base, elements, .. } => Arc::new(RholangNode::Tuple {
                base: *base, elements: share_all(elements), metadata: new_metadata,
            }),
            RholangNode::Var { base, name, .. } => Arc::new(RholangNode::Var {
                base: *base, name: name.clone(), metadata: new_metadata,
            }),
            RholangNode::NameDecl { base, var, uri, .. } => Arc::new(RholangNode::NameDecl {
                base: *base, var: share(var), uri: share_opt(uri), metadata: new_metadata,
            }),
            RholangNode::Decl { base, names, names_remainder, procs, .. } => Arc::new(RholangNode::Decl {
                base: *base, names: share_all(names), names_remainder: share_opt(names_remainder), procs: share_all(procs), metadata: new_metadata,
            }),
            RholangNode::LinearBind { base, names, remainder, source, .. } => Arc::new(RholangNode::LinearBind {
                base: *base, names: share_all(names), remainder: share_opt(remainder), source: share(source), metadata: new_metadata,
            }),
            RholangNode::RepeatedBind { base, names, remainder, source, .. } => Arc::new(RholangNode::RepeatedBind {
                base: *base, names: share_all(names), remainder: share_opt(remainder), source: share(source), metadata: new_metadata,
            }),
            RholangNode::PeekBind { base, names, remainder, source, .. } => Arc::new(RholangNode::PeekBind {
                base: *base, names: share_all(names), remainder: share_opt(remainder), source: share(source), metadata: new_metadata,
            }),
            RholangNode::Comment { base, kind, .. } => Arc::new(RholangNode::Comment {
                base: *base, kind: *kind, metadata: new_metadata,
            }),
            RholangNode::Wildcard { base, .. } => Arc::new(RholangNode::Wildcard {
                base: *base, metadata: new_metadata,
            }),
            RholangNode::SimpleType { base, value, .. } => Arc::new(RholangNode::SimpleType {
                base: *base, value: value.clone(), metadata: new_metadata,
            }),
            RholangNode::ReceiveSendSource { base, name, .. } => Arc::new(RholangNode::ReceiveSendSource {
                base: *base, name: share(name), metadata: new_metadata,
            }),
            RholangNode::SendReceiveSource { base, name, inputs, .. } => Arc::new(RholangNode::SendReceiveSource {
                base: *base, name: share(name), inputs: share_all(inputs), metadata: new_metadata,
            }),
            RholangNode::Error { base, children, .. } => Arc::new(RholangNode::Error {
                base: *base, children: share_all(children), metadata: new_metadata,
            }),
            RholangNode::Disjunction { base, left, right, .. } => Arc::new(RholangNode::Disjunction {
                base: *base, left: share(left), right: share(right), metadata: new_metadata,
            }),
            RholangNode::Conjunction { base, left, right, .. } => Arc::new(RholangNode::Conjunction {
                base: *base, left: share(left), right: share(right), metadata: new_metadata,
            }),
            RholangNode::Negation { base, operand, .. } => Arc::new(RholangNode::Negation {
                base: *base, operand: share(operand), metadata: new_metadata,
            }),
            RholangNode::Unit { base, .. } => Arc::new(RholangNode::Unit {
                base: *base, metadata: new_metadata,
            }),
        }
    }

    /// Creates a Par node; both of its lengths are `length`.
    pub fn new_par(
        left: Arc<RholangNode>,
        right: Arc<RholangNode>,
        metadata: Option<Arc<Metadata>>,
        relative_start: RelativePosition,
        length: usize,
        span_lines: usize,
        span_columns: usize,
    ) -> (n: Self)
        ensures
            n == (RholangNode::Par {
                base: NodeBase::spec_new(relative_start, length, length, span_lines, span_columns),
                left: Some(left), right: Some(right), processes: None, metadata,
            }),
    {
        let base = NodeBase::new_simple(relative_start, length, span_lines, span_columns);
        RholangNode::Par { base, left: Some(left), right: Some(right), processes: None, metadata }
    }

    /// Creates a SendSync node; both of its lengths are `length`.
    pub fn new_send_sync(
        channel: Arc<RholangNode>,
        inputs: RholangNodeVector,
        cont: Arc<RholangNode>,
        metadata: Option<Arc<Metadata>>,
        relative_start: RelativePosition,
        length: usize,
        span_lines: usize,
        span_columns: usize,
    ) -> (n: Self)
        ensures
            n == (RholangNode::SendSync {
                base: NodeBase::spec_new(relative_start, length, length, span_lines, span_columns),
                channel, inputs, cont, metadata,
            }),
    {
        let base = NodeBase::new_simple(relative_start, length, span_lines, span_columns);
        RholangNode::SendSync { base, channel, inputs, cont, metadata }
    }

    /// Creates a Send node; both of its lengths are `length`.
    pub fn new_send(
        channel: Arc<RholangNode>,
        send_type: RholangSendType,
        send_type_delta: RelativePosition,
        inputs: RholangNodeVector,
        metadata: Option<Arc<Metadata>>,
        relative_start: RelativePosition,
        length: usize,
        span_lines: usize,
        span_columns: usize,
    ) -> (n: Self)
        ensures
            n == (RholangNode::Send {
                base: NodeBase::spec_new(relative_start, length, length, span_lines, span_columns),
                channel, send_type, send_type_delta, inputs, metadata,
            }),
    {
        let base = NodeBase::new_simple(relative_start, length, span_lines, span_columns);
        RholangNode::Send { base, channel, send_type, send_type_delta, inputs, metadata }
    }

    /// Creates a New node; both of its lengths are `length`.
    pub fn new_new(
        decls: RholangNodeVector,
        proc: Arc<RholangNode>,
        metadata: Option<Arc<Metadata>>,
        relative_start: RelativePosition,
        length: usize,
        span_lines: usize,
        span_columns: usize,
    ) -> (n: Self)
        ensures
            n == (RholangNode::New {
                base: NodeBase::spec_new(relative_start, length, length, span_lines, span_columns),
                decls, proc, metadata,
            }),
    {
        let base = NodeBase::new_simple(relative_start, length, span_lines, span_columns);
        RholangNode::New { base, decls, proc, metadata }
    }

    /// Creates a IfElse node; both of its lengths are `length`.
    pub fn new_if_else(
        condition: Arc<RholangNode>,
        consequence: Arc<RholangNode>,
        alternative: Option<Arc<RholangNode>>,
        metadata: Option<Arc<Metadata>>,
        relative_start: RelativePosition,
        length: usize,
        span_lines: usize,
        span_columns: usize,
    ) -> (n: Self)
        ensures
            n == (RholangNode::IfElse {
                base: NodeBase::spec_new(relative_start, length, length, span_lines, span_columns),
                condition, consequence, alternative, metadata,
            }),
    {
        let base = NodeBase::new_simple(relative_start, length, span_lines, span_columns);
        RholangNode::IfElse { base, condition, consequence, alternative, metadata }
    }

    /// Creates a Let node; both of its lengths are `length`.
    pub fn new_let(
        decls: RholangNodeVector,
        proc: Arc<RholangNode>,
        metadata: Option<Arc<Metadata>>,
        relative_start: RelativePosition,
        length: usize,
        span_lines: usize,
        span_columns: usize,
    ) -> (n: Self)
        ensures
            n == (RholangNode::Let {
                base: NodeBase::spec_new(relative_start, length, length, span_lines, span_columns),
                decls, proc, metadata,
            }),
    {
        let base = NodeBase::new_simple(relative_start, length, span_lines, span_columns);
        RholangNode::Let { base, decls, proc, metadata }
    }

    /// Creates a Bundle node; both of its lengths are `length`.
    pub fn new_bundle(
        bundle_type: RholangBundleType,
        proc: Arc<RholangNode>,
        metadata: Option<Arc<Metadata>>,
        relative_start: RelativePosition,
        length: usize,
        span_lines: usize,
        span_columns: usize,
    ) -> (n: Self)
        ensures
            n == (RholangNode::Bundle {
                base: NodeBase::spec_new(relative_start, length, length, span_lines, span_columns),
                bundle_type, proc, metadata,
            }),
    {
        let base = NodeBase::new_simple(relative_start, length, span_lines, span_columns);
        RholangNode::Bundle { base, bundle_type, proc, metadata }
    }

    /// Creates a Match node; both of its lengths are `length`.
    pub fn new_match(
        expression: Arc<RholangNode>,
        cases: RholangNodePairVector,
        metadata: Option<Arc<Metadata>>,
        relative_start: RelativePosition,
        length: usize,
        span_lines: usize,
        span_columns: usize,
    ) -> (n: Self)
        ensures
            n == (RholangNode::Match {
                base: NodeBase::spec_new(relative_start, length, length, span_lines, span_columns),
                expression, cases, metadata,
            }),
    {
        let base = NodeBase::new_simple(relative_start, length, span_lines, span_columns);
        RholangNode::Match { base, expression, cases, metadata }
    }

    /// Creates a Choice node; both of its lengths are `length`.
    pub fn new_choice(
        branches: RholangBranchVector,
        metadata: Option<Arc<Metadata>>,
        relative_start: RelativePosition,
        length: usize,
        span_lines: usize,
        span_columns: usize,
    ) -> (n: Self)
        ensures
            n == (RholangNode::Choice {
                base: NodeBase::spec_new(relative_start, length, length, span_lines, span_columns),
                branches, metadata,
            }),
    {
        let base = NodeBase::new_simple(relative_start, length, span_lines, span_columns);
        RholangNode::Choice { base, branches, metadata }
    }

    /// Creates a Contract node; both of its lengths are `length`.
    pub fn new_contract(
        name: Arc<RholangNode>,
        formals: RholangNodeVector,
        formals_remainder: Option<Arc<RholangNode>>,
        proc: Arc<RholangNode>,
        metadata: Option<Arc<Metadata>>,
        relative_start: RelativePosition,
        length: usize,
        span_lines: usize,
        span_columns: usize,
    ) -> (n: Self)
        ensures
            n == (RholangNode::Contract {
                base: NodeBase::spec_new(relative_start, length, length, span_lines, span_columns),
                name, formals, formals_remainder, proc, metadata,
            }),
    {
        let base = NodeBase::new_simple(relative_start, length, span_lines, span_columns);
        RholangNode::Contract { base, name, formals, formals_remainder, proc, metadata }
    }

    /// Creates a Input node; both of its lengths are `length`.
    pub fn new_input(
        receipts: RholangReceiptVector,
        proc: Arc<RholangNode>,
        metadata: Option<Arc<Metadata>>,
        relative_start: RelativePosition,
        length: usize,
        span_lines: usize,
        span_columns: usize,
    ) -> (n: Self)
        ensures
            n == (RholangNode::Input {
                base: NodeBase::spec_new(relative_start, length, length, span_lines, span_columns),
                receipts, proc, metadata,
            }),
    {
        let base = NodeBase::new_simple(relative_start, length, span_lines, span_columns);
        RholangNode::Input { base, receipts, proc, metadata }
    }

    /// Creates a Block node; both of its lengths are `length`.
    pub fn new_block(
        proc: Arc<RholangNode>,
        metadata: Option<Arc<Metadata>>,
        relative_start: RelativePosition,
        length: usize,
        span_lines: usize,
        span_columns: usize,
    ) -> (n: Self)
        ensures
            n == (RholangNode::Block {
                base: NodeBase::spec_new(relative_start, length, length, span_lines, span_columns),
                proc, metadata,
            }),
    {
        let base = NodeBase::new_simple(relative_start, length, span_lines, span_columns);
        RholangNode::Block { base, proc, metadata }
    }

    /// Creates a Parenthesized node; both of its lengths are `length`.
    pub fn new_parenthesized(
        expr: Arc<RholangNode>,
        metadata: Option<Arc<Metadata>>,
        relative_start: RelativePosition,
        length: usize,
        span_lines: usize,
        span_columns: usize,
    ) -> (n: Self)
        ensures
            n == (RholangNode::Parenthesized {
                base: NodeBase::spec_new(relative_start, length, length, span_lines, span_columns),
                expr, metadata,
            }),
    {
        let base = NodeBase::new_simple(relative_start, length, span_lines, span_columns);
        RholangNode::Parenthesized { base, expr, metadata }
    }

    /// Creates a BinOp node; both of its lengths are `length`.
    pub fn new_bin_op(
        op: BinOperator,
        left: Arc<RholangNode>,
        right: Arc<RholangNode>,
        metadata: Option<Arc<Metadata>>,
        relative_start: RelativePosition,
        length: usize,
        span_lines: usize,
        span_columns: usize,
    ) -> (n: Self)
        ensures
            n == (RholangNode::BinOp {
                base: NodeBase::spec_new(relative_start, length, length, span_lines, span_columns),
                op, left, right, metadata,
            }),
    {
        let base = NodeBase::new_simple(relative_start, length, span_lines, span_columns);
        RholangNode::BinOp { base, op, left, right, metadata }
    }

    /// Creates a UnaryOp node; both of its lengths are `length`.
    pub fn new_unary_op(
        op: UnaryOperator,
        operand: Arc<RholangNode>,
        metadata: Option<Arc<Metadata>>,
        relative_start: RelativePosition,
        length: usize,
        span_lines: usize,
        span_columns: usize,
    ) -> (n: Self)
        ensures
            n == (RholangNode::UnaryOp {
                base: NodeBase::spec_new(relative_start, length, length, span_lines, span_columns),
                op, operand, metadata,
            }),
    {
        let base = NodeBase::new_simple(relative_start, length, span_lines, span_columns);
        RholangNode::UnaryOp { base, op, operand, metadata }
    }

    /// Creates a Method node; both of its lengths are `length`.
    pub fn new_method(
        receiver: Arc<RholangNode>,
        name: String,
        args: RholangNodeVector,
        metadata: Option<Arc<Metadata>>,
        relative_start: RelativePosition,
        length: usize,
        span_lines: usize,
        span_columns: usize,
    ) -> (n: Self)
        ensures
            n == (RholangNode::Method {
                base: NodeBase::spec_new(relative_start, length, length, span_lines, span_columns),
                receiver, name, args, metadata,
            }),
    {
        let base = NodeBase::new_simple(relative_start, length, span_lines, span_columns);
        RholangNode::Method { base, receiver, name, args, metadata }
    }

    /// Creates a Eval node; both of its lengths are `length`.
    pub fn new_eval(
        name: Arc<RholangNode>,
        metadata: Option<Arc<Metadata>>,
        relative_start: RelativePosition,
        length: usize,
        span_lines: usize,
        span_columns: usize,
    ) -> (n: Self)
        ensures
            n == (RholangNode::Eval {
                base: NodeBase::spec_new(relative_start, length, length, span_lines, span_columns),
                name, metadata,
            }),
    {
        let base = NodeBase::new_simple(relative_start, length, span_lines, span_columns);
        RholangNode::Eval { base, name, metadata }
    }

    /// Creates a Quote node; both of its lengths are `length`.
    pub fn new_quote(
        quotable: Arc<RholangNode>,
        metadata: Option<Arc<Metadata>>,
        relative_start: RelativePosition,
        length: usize,
        span_lines: usize,
        span_columns: usize,
    ) -> (n: Self)
        ensures
            n == (RholangNode::Quote {
                base: NodeBase::spec_new(relative_start, length, length, span_lines, span_columns),
                quotable, metadata,
            }),
    {
        let base = NodeBase::new_simple(relative_start, length, span_lines, span_columns);
        RholangNode::Quote { base, quotable, metadata }
    }

    /// Creates a VarRef node; both of its lengths are `length`.
    pub fn new_var_ref(
        kind: RholangVarRefKind,
        var: Arc<RholangNode>,
        metadata: Option<Arc<Metadata>>,
        relative_start: RelativePosition,
        length: usize,
        span_lines: usize,
        span_columns: usize,
    ) -> (n: Self)
        ensures
            n == (RholangNode::VarRef {
                base: NodeBase::spec_new(relative_start, length, length, span_lines, span_columns),
                kind, var, metadata,
            }),
    {
        let base = NodeBase::new_simple(relative_start, length, span_lines, span_columns);
        RholangNode::VarRef { base, kind, var, metadata }
    }

    /// Creates a BoolLiteral node; both of its lengths are `length`.
    pub fn new_bool_literal(
        value: bool,
        metadata: Option<Arc<Metadata>>,
        relative_start: RelativePosition,
        length: usize,
        span_lines: usize,
        span_columns: usize,
    ) -> (n: Self)
        ensures
            n == (RholangNode::BoolLiteral {
                base: NodeBase::spec_new(relative_start, length, length, span_lines, span_columns),
                value, metadata,
            }),
    {
        let base = NodeBase::new_simple(relative_start, length, span_lines, span_columns);
        RholangNode::BoolLiteral { base, value, metadata }
    }

    /// Creates a LongLiteral node; both of its lengths are `length`.
    pub fn new_long_literal(
        value: i64,
        metadata: Option<Arc<Metadata>>,
        relative_start: RelativePosition,
        length: usize,
        span_lines: usize,
        span_columns: usize,
    ) -> (n: Self)
        ensures
            n == (RholangNode::LongLiteral {
                base: NodeBase::spec_new(relative_start, length, length, span_lines, span_columns),
                value, metadata,
            }),
    {
        let base = NodeBase::new_simple(relative_start, length, span_lines, span_columns);
        RholangNode::LongLiteral { base, value, metadata }
    }

    /// Creates a StringLiteral node; both of its lengths are `length`.
    pub fn new_string_literal(
        value: String,
        metadata: Option<Arc<Metadata>>,
        relative_start: RelativePosition,
        length: usize,
        span_lines: usize,
        span_columns: usize,
    ) -> (n: Self)
        ensures
            n == (RholangNode::StringLiteral {
                base: NodeBase::spec_new(relative_start, length, length, span_lines, span_columns),
                value, metadata,
            }),
    {
        let base = NodeBase::new_simple(relative_start, length, span_lines, span_columns);
        RholangNode::StringLiteral { base, value, metadata }
    }

    /// Creates a UriLiteral node; both of its lengths are `length`.
    pub fn new_uri_literal(
        value: String,
        metadata: Option<Arc<Metadata>>,
        relative_start: RelativePosition,
        length: usize,
        span_lines: usize,
        span_columns: usize,
    ) -> (n: Self)
        ensures
            n == (RholangNode::UriLiteral {
                base: NodeBase::spec_new(relative_start, length, length, span_lines, span_columns),
                value, metadata,
            }),
    {
        let base = NodeBase::new_simple(relative_start, length, span_lines, span_columns);
        RholangNode::UriLiteral { base, value, metadata }
    }

    /// Creates a Nil node; both of its lengths are `length`.
    pub fn new_nil(
        metadata: Option<Arc<Metadata>>,
        relative_start: RelativePosition,
        length: usize,
        span_lines: usize,
        span_columns: usize,
    ) -> (n: Self)
        ensures
            n == (RholangNode::Nil {
                base: NodeBase::spec_new(relative_start, length, length, span_lines, span_columns),
                metadata,
            }),
    {
        let base = NodeBase::new_simple(relative_start, length, span_lines, span_columns);
        RholangNode::Nil { base, metadata }
    }

    /// Creates a List node; both of its lengths are `length`.
    pub fn new_list(
        elements: RholangNodeVector,
        remainder: Option<Arc<RholangNode>>,
        metadata: Option<Arc<Metadata>>,
        relative_start: RelativePosition,
        length: usize,
        span_lines: usize,
        span_columns: usize,
    ) -> (n: Self)
        ensures
            n == (RholangNode::List {
                base: NodeBase::spec_new(relative_start, length, length, span_lines, span_columns),
                elements, remainder, metadata,
            }),
    {
        let base = NodeBase::new_simple(relative_start, length, span_lines, span_columns);
        RholangNode::List { base, elements, remainder, metadata }
    }

    /// Creates a SetExpr node; both of its lengths are `length`.
    pub fn new_set(
        elements: RholangNodeVector,
        remainder: Option<Arc<RholangNode>>,
        metadata: Option<Arc<Metadata>>,
        relative_start: RelativePosition,
        length: usize,
        span_lines: usize,
        span_columns: usize,
    ) -> (n: Self)
        ensures
            n == (RholangNode::SetExpr {
                base: NodeBase::spec_new(relative_start, length, length, span_lines, span_columns),
                elements, remainder, metadata,
            }),
    {
        let base = NodeBase::new_simple(relative_start, length, span_lines, span_columns);
        RholangNode::SetExpr { base, elements, remainder, metadata }
    }

    /// Creates a MapExpr node; both of its lengths are `length`.
    pub fn new_map(
        pairs: RholangNodePairVector,
        remainder: Option<Arc<RholangNode>>,
        metadata: Option<Arc<Metadata>>,
        relative_start: RelativePosition,
        length: usize,
        span_lines: usize,
        span_columns: usize,
    ) -> (n: Self)
        ensures
            n == (RholangNode::MapExpr {
                base: NodeBase::spec_new(relative_start, length, length, span_lines, span_columns),
                pairs, remainder, metadata,
            }),
    {
        let base = NodeBase::new_simple(relative_start, length, span_lines, span_columns);
        RholangNode::MapExpr { base, pairs, remainder, metadata }
    }

    /// Creates a Tuple node; both of its lengths are `length`.
    pub fn new_tuple(
        elements: RholangNodeVector,
        metadata: Option<Arc<Metadata>>,
        relative_start: RelativePosition,
        length: usize,
        span_lines: usize,
        span_columns: usize,
    ) -> (n: Self)
        ensures
            n == (RholangNode::Tuple {
                base: NodeBase::spec_new(relative_start, length, length, span_lines, span_columns),
                elements, metadata,
            }),
    {
        let base = NodeBase::new_simple(relative_start, length, span_lines, span_columns);
        RholangNode::Tuple { base, elements, metadata }
    }

    /// Creates a Var node; both of its lengths are `length`.
    pub fn new_var(
        name: String,
        metadata: Option<Arc<Metadata>>,
        relative_start: RelativePosition,
        length: usize,
        span_lines: usize,
        span_columns: usize,
    ) -> (n: Self)
        ensures
            n == (RholangNode::Var {
                base: NodeBase::spec_new(relative_start, length, length, span_lines, span_columns),
                name, metadata,
            }),
    {
        let base = NodeBase::new_simple(relative_start, length, span_lines, span_columns);
        RholangNode::Var { base, name, metadata }
    }

    /// Creates a NameDecl node; both of its lengths are `length`.
    pub fn new_name_decl(
        var: Arc<RholangNode>,
        uri: Option<Arc<RholangNode>>,
        metadata: Option<Arc<Metadata>>,
        relative_start: RelativePosition,
        length: usize,
        span_lines: usize,
        span_columns: usize,
    ) -> (n: Self)
        ensures
            n == (RholangNode::NameDecl {
                base: NodeBase::spec_new(relative_start, length, length, span_lines, span_columns),
                var, uri, metadata,
            }),
    {
        let base = NodeBase::new_simple(relative_start, length, span_lines, span_columns);
        RholangNode::NameDecl { base, var, uri, metadata }
    }

    /// Creates a Decl node; both of its lengths are `length`.
    pub fn new_decl(
        names: RholangNodeVector,
        names_remainder: Option<Arc<RholangNode>>,
        procs: RholangNodeVector,
        metadata: Option<Arc<Metadata>>,
        relative_start: RelativePosition,
        length: usize,
        span_lines: usize,
        span_columns: usize,
    ) -> (n: Self)
        ensures
            n == (RholangNode::Decl {
                base: NodeBase::spec_new(relative_start, length, length, span_lines, span_columns),
                names, names_remainder, procs, metadata,
            }),
    {
        let base = NodeBase::new_simple(relative_start, length, span_lines, span_columns);
        RholangNode::Decl { base, names, names_remainder, procs, metadata }
    }

    /// Creates a LinearBind node; both of its lengths are `length`.
    pub fn new_linear_bind(
        names: RholangNodeVector,
        remainder: Option<Arc<RholangNode>>,
        source: Arc<RholangNode>,
        metadata: Option<Arc<Metadata>>,
        relative_start: RelativePosition,
        length: usize,
        span_lines: usize,
        span_columns: usize,
    ) -> (n: Self)
        ensures
            n == (RholangNode::LinearBind {
                base: NodeBase::spec_new(relative_start, length, length, span_lines, span_columns),
                names, remainder, source, metadata,
            }),
    {
        let base = NodeBase::new_simple(relative_start, length, span_lines, span_columns);
        RholangNode::LinearBind { base, names, remainder, source, metadata }
    }

    /// Creates a RepeatedBind node; both of its lengths are `length`.
    pub fn new_repeated_bind(
        names: RholangNodeVector,
        remainder: Option<Arc<RholangNode>>,
        source: Arc<RholangNode>,
        metadata: Option<Arc<Metadata>>,
        relative_start: RelativePosition,
        length: usize,
        span_lines: usize,
        span_columns: usize,
    ) -> (n: Self)
        ensures
            n == (RholangNode::RepeatedBind {
                base: NodeBase::spec_new(relative_start, length, length, span_lines, span_columns),
                names, remainder, source, metadata,
            }),
    {
        let base = NodeBase::new_simple(relative_start, length, span_lines, span_columns);
        RholangNode::RepeatedBind { base, names, remainder, source, metadata }
    }

    /// Creates a PeekBind node; both of its lengths are `length`.
    pub fn new_peek_bind(
        names: RholangNodeVector,
        remainder: Option<Arc<RholangNode>>,
        source: Arc<RholangNode>,
        metadata: Option<Arc<Metadata>>,
        relative_start: RelativePosition,
        length: usize,
        span_lines: usize,
        span_columns: usize,
    ) -> (n: Self)
        ensures
            n == (RholangNode::PeekBind {
                base: NodeBase::spec_new(relative_start, length, length, span_lines, span_columns),
                names, remainder, source, metadata,
            }),
    {
        let base = NodeBase::new_simple(relative_start, length, span_lines, span_columns);
        RholangNode::PeekBind { base, names, remainder, source, metadata }
    }

    /// Creates a Comment node; both of its lengths are `length`.
    pub fn new_comment(
        kind: CommentKind,
        metadata: Option<Arc<Metadata>>,
        relative_start: RelativePosition,
        length: usize,
        span_lines: usize,
        span_columns: usize,
    ) -> (n: Self)
        ensures
            n == (RholangNode::Comment {
                base: NodeBase::spec_new(relative_start, length, length, span_lines, span_columns),
                kind, metadata,
            }),
    {
        let base = NodeBase::new_simple(relative_start, length, span_lines, span_columns);
        RholangNode::Comment { base, kind, metadata }
    }

    /// Creates a Wildcard node; both of its lengths are `length`.
    pub fn new_wildcard(
        metadata: Option<Arc<Metadata>>,
        relative_start: RelativePosition,
        length: usize,
        span_lines: usize,
        span_columns: usize,
    ) -> (n: Self)
        ensures
            n == (RholangNode::Wildcard {
                base: NodeBase::spec_new(relative_start, length, length, span_lines, span_columns),
                metadata,
            }),
    {
        let base = NodeBase::new_simple(relative_start, length, span_lines, span_columns);
        RholangNode::Wildcard { base, metadata }
    }

    /// Creates a SimpleType node; both of its lengths are `length`.
    pub fn new_simple_type(
        value: String,
        metadata: Option<Arc<Metadata>>,
        relative_start: RelativePosition,
        length: usize,
        span_lines: usize,
        span_columns: usize,
    ) -> (n: Self)
        ensures
            n == (RholangNode::SimpleType {
                base: NodeBase::spec_new(relative_start, length, length, span_lines, span_columns),
                value, metadata,
            }),
    {
        let base = NodeBase::new_simple(relative_start, length, span_lines, span_columns);
        RholangNode::SimpleType { base, value, metadata }
    }

    /// Creates a ReceiveSendSource node; both of its lengths are `length`.
    pub fn new_receive_send_source(
        name: Arc<RholangNode>,
        metadata: Option<Arc<Metadata>>,
        relative_start: RelativePosition,
        length: usize,
        span_lines: usize,
        span_columns: usize,
    ) -> (n: Self)
        ensures
            n == (RholangNode::ReceiveSendSource {
                base: NodeBase::spec_new(relative_start, length, length, span_lines, span_columns),
                name, metadata,
            }),
    {
        let base = NodeBase::new_simple(relative_start, length, span_lines, span_columns);
        RholangNode::ReceiveSendSource { base, name, metadata }
    }

    /// Creates a SendReceiveSource node; both of its lengths are `length`.
    pub fn new_send_receive_source(
        name: Arc<RholangNode>,
        inputs: RholangNodeVector,
        metadata: Option<Arc<Metadata>>,
        relative_start: RelativePosition,
        length: usize,
        span_lines: usize,
        span_columns: usize,
    ) -> (n: Self)
        ensures
            n == (RholangNode::SendReceiveSource {
                base: NodeBase::spec_new(relative_start, length, length, span_lines, span_columns),
                name, inputs, metadata,
            }),
    {
        let base = NodeBase::new_simple(relative_start, length, span_lines, span_columns);
        RholangNode::SendReceiveSource { base, name, inputs, metadata }
    }

    /// Creates a Error node; both of its lengths are `length`.
    pub fn new_error(
        children: RholangNodeVector,
        metadata: Option<Arc<Metadata>>,
        relative_start: RelativePosition,
        length: usize,
        span_lines: usize,
        span_columns: usize,
    ) -> (n: Self)
        ensures
            n == (RholangNode::Error {
                base: NodeBase::spec_new(relative_start, length, length, span_lines, span_columns),
                children, metadata,
            }),
    {
        let base = NodeBase::new_simple(relative_start, length, span_lines, span_columns);
        RholangNode::Error { base, children, metadata }
    }

    /// Creates a Disjunction node; both of its lengths are `length`.
    pub fn new_disjunction(
        left: Arc<RholangNode>,
        right: Arc<RholangNode>,
        metadata: Option<Arc<Metadata>>,
        relative_start: RelativePosition,
        length: usize,
        span_lines: usize,
        span_columns: usize,
    ) -> (n: Self)
        ensures
            n == (RholangNode::Disjunction {
                base: NodeBase::spec_new(relative_start, length, length, span_lines, span_columns),
                left, right, metadata,
            }),
    {
        let base = NodeBase::new_simple(relative_start, length, span_lines, span_columns);
        RholangNode::Disjunction { base, left, right, metadata }
    }

    /// Creates a Conjunction node; both of its lengths are `length`.
    pub fn new_conjunction(
        left: Arc<RholangNode>,
        right: Arc<RholangNode>,
        metadata: Option<Arc<Metadata>>,
        relative_start: RelativePosition,
        length: usize,
        span_lines: usize,
        span_columns: usize,
    ) -> (n: Self)
        ensures
            n == (RholangNode::Conjunction {
                base: NodeBase::spec_new(relative_start, length, length, span_lines, span_columns),
                left, right, metadata,
            }),
    {
        let base = NodeBase::new_simple(relative_start, length, span_lines, span_columns);
        RholangNode::Conjunction { base, left, right, metadata }
    }

    /// Creates a Negation node; both of its lengths are `length`.
    pub fn new_negation(
        operand: Arc<RholangNode>,
        metadata: Option<Arc<Metadata>>,
        relative_start: RelativePosition,
        length: usize,
        span_lines: usize,
        span_columns: usize,
    ) -> (n: Self)
        ensures
            n == (RholangNode::Negation {
                base: NodeBase::spec_new(relative_start, length, length, span_lines, span_columns),
                operand, metadata,
            }),
    {
        let base = NodeBase::new_simple(relative_start, length, span_lines, span_columns);
        RholangNode::Negation { base, operand, metadata }
    }

    /// Creates a Unit node; both of its lengths are `length`.
    pub fn new_unit(
        metadata: Option<Arc<Metadata>>,
        relative_start: RelativePosition,
        length: usize,
        span_lines: usize,
        span_columns: usize,
    ) -> (n: Self)
        ensures
            n == (RholangNode::Unit {
                base: NodeBase::spec_new(relative_start, length, length, span_lines, span_columns),
                metadata,
            }),
    {
        let base = NodeBase::new_simple(relative_start, length, span_lines, span_columns);
        RholangNode::Unit { base, metadata }
    }

    /// The processes of a Par, in either its list or its binary form.
    pub open spec fn spec_par_processes(&self) -> Seq<Arc<RholangNode>> {
        match self {
            RholangNode::Par { processes: Some(procs), .. } => procs@,
            RholangNode::Par { left: Some(l), right: Some(r), .. } => seq![*l, *r],
            _ => Seq::empty(),
        }
    }

    /// The processes of a Par, in either its list or its binary form; empty for other nodes.
    pub fn par_processes(&self) -> (v: Vec<Arc<RholangNode>>)
        ensures
            v@ == self.spec_par_processes(),
    {
        match self {
            RholangNode::Par { processes: Some(procs), .. } => share_all(procs),
            RholangNode::Par { left: Some(left), right: Some(right), .. } => {
                let mut v: Vec<Arc<RholangNode>> = Vec::new();
                v.push(share(left));
                v.push(share(right));
                v
            },
            _ => Vec::new(),
        }
    }
}

/// A new handle to the same optional metadata.
pub(crate) fn share_meta_opt(m: &Option<Arc<Metadata>>) -> (r: Option<Arc<Metadata>>)
    ensures
        r == *m,
{
    match m {
        Some(x) => Some(crate::rholang_node::node_types::share(x)),
        None => None,
    }
}

} // verus!
