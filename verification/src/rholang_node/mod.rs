//! The Rholang intermediate representation.
pub mod node_types;
pub mod node_impl;
pub mod node_operations;
pub mod node_shape;
pub mod node_order;
pub mod pattern_matching;
pub mod node_children;
pub mod position_tracking;
pub mod validation;

pub use node_types::{
    BinOperator, CommentKind, RholangBranchVector, RholangBundleType, RholangNode,
    RholangNodePairVector, RholangNodeVector, RholangReceiptVector, RholangSendType,
    RholangVarRefKind, UnaryOperator,
};
