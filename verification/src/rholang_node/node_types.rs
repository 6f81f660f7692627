//! The Rholang node tree: one variant per syntactic construct, each with
//! its positional base, its children and optional metadata.
use std::sync::Arc;
use vstd::prelude::*;
pub use crate::semantic_node::{Metadata, NodeBase, Position, RelativePosition};

verus! {

/// A sequence of child nodes.
pub type RholangNodeVector = Vec<Arc<RholangNode>>;

/// A sequence of node pairs (map entries, match cases).
pub type RholangNodePairVector = Vec<(Arc<RholangNode>, Arc<RholangNode>)>;

/// Branches of a `select`: the binds of each branch with its body.
pub type RholangBranchVector = Vec<(RholangNodeVector, Arc<RholangNode>)>;

/// Receipts of a `for`: each receipt is a sequence of binds.
pub type RholangReceiptVector = Vec<RholangNodeVector>;

/// A node of the Rholang intermediate representation.
#[derive(Debug, Clone)]
pub enum RholangNode {
    Par {
        base: NodeBase,
        left: Option<Arc<RholangNode>>,
        right: Option<Arc<RholangNode>>,
        processes: Option<RholangNodeVector>,
        metadata: Option<Arc<Metadata>>,
    },
    SendSync {
        base: NodeBase,
        channel: Arc<RholangNode>,
        inputs: RholangNodeVector,
        cont: Arc<RholangNode>,
        metadata: Option<Arc<Metadata>>,
    },
    Send {
        base: NodeBase,
        channel: Arc<RholangNode>,
        send_type: RholangSendType,
        send_type_delta: RelativePosition,
        inputs: RholangNodeVector,
        metadata: Option<Arc<Metadata>>,
    },
    New {
        base: NodeBase,
        decls: RholangNodeVector,
        proc: Arc<RholangNode>,
        metadata: Option<Arc<Metadata>>,
    },
    IfElse {
        base: NodeBase,
        condition: Arc<RholangNode>,
        consequence: Arc<RholangNode>,
        alternative: Option<Arc<RholangNode>>,
        metadata: Option<Arc<Metadata>>,
    },
    Let {
        base: NodeBase,
        decls: RholangNodeVector,
        proc: Arc<RholangNode>,
        metadata: Option<Arc<Metadata>>,
    },
    Bundle {
        base: NodeBase,
        bundle_type: RholangBundleType,
        proc: Arc<RholangNode>,
        metadata: Option<Arc<Metadata>>,
    },
    Match {
        base: NodeBase,
        expression: Arc<RholangNode>,
        cases: RholangNodePairVector,
        metadata: Option<Arc<Metadata>>,
    },
    Choice {
        base: NodeBase,
        branches: RholangBranchVector,
        metadata: Option<Arc<Metadata>>,
    },
    Contract {
        base: NodeBase,
        name: Arc<RholangNode>,
        formals: RholangNodeVector,
        formals_remainder: Option<Arc<RholangNode>>,
        proc: Arc<RholangNode>,
        metadata: Option<Arc<Metadata>>,
    },
    Input {
        base: NodeBase,
        receipts: RholangReceiptVector,
        proc: Arc<RholangNode>,
        metadata: Option<Arc<Metadata>>,
    },
    Block {
        base: NodeBase,
        proc: Arc<RholangNode>,
        metadata: Option<Arc<Metadata>>,
    },
    Parenthesized {
        base: NodeBase,
        expr: Arc<RholangNode>,
        metadata: Option<Arc<Metadata>>,
    },
    BinOp {
        base: NodeBase,
        op: BinOperator,
        left: Arc<RholangNode>,
        right: Arc<RholangNode>,
        metadata: Option<Arc<Metadata>>,
    },
    UnaryOp {
        base: NodeBase,
        op: UnaryOperator,
        operand: Arc<RholangNode>,
        metadata: Option<Arc<Metadata>>,
    },
    Method {
        base: NodeBase,
        receiver: Arc<RholangNode>,
        name: String,
        args: RholangNodeVector,
        metadata: Option<Arc<Metadata>>,
    },
    Eval {
        base: NodeBase,
        name: Arc<RholangNode>,
        metadata: Option<Arc<Metadata>>,
    },
    Quote {
        base: NodeBase,
        quotable: Arc<RholangNode>,
        metadata: Option<Arc<Metadata>>,
    },
    VarRef {
        base: NodeBase,
        kind: RholangVarRefKind,
        var: Arc<RholangNode>,
        metadata: Option<Arc<Metadata>>,
    },
    BoolLiteral {
        base: NodeBase,
        value: bool,
        metadata: Option<Arc<Metadata>>,
    },
    LongLiteral {
        base: NodeBase,
        value: i64,
        metadata: Option<Arc<Metadata>>,
    },
    StringLiteral {
        base: NodeBase,
        value: String,
        metadata: Option<Arc<Metadata>>,
    },
    UriLiteral {
        base: NodeBase,
        value: String,
        metadata: Option<Arc<Metadata>>,
    },
    Nil {
        base: NodeBase,
        metadata: Option<Arc<Metadata>>,
    },
    List {
        base: NodeBase,
        elements: RholangNodeVector,
        remainder: Option<Arc<RholangNode>>,
        metadata: Option<Arc<Metadata>>,
    },
    SetExpr {
        base: NodeBase,
        elements: RholangNodeVector,
        remainder: Option<Arc<RholangNode>>,
        metadata: Option<Arc<Metadata>>,
    },
    Pathmap {
        base: NodeBase,
        elements: RholangNodeVector,
        remainder: Option<Arc<RholangNode>>,
        metadata: Option<Arc<Metadata>>,
    },
    MapExpr {
        base: NodeBase,
        pairs: RholangNodePairVector,
        remainder: Option<Arc<RholangNode>>,
        metadata: Option<Arc<Metadata>>,
    },
    Tuple {
        base: NodeBase,
        elements: RholangNodeVector,
        metadata: Option<Arc<Metadata>>,
    },
    Var {
        base: NodeBase,
        name: String,
        metadata: Option<Arc<Metadata>>,
    },
    NameDecl {
        base: NodeBase,
        var: Arc<RholangNode>,
        uri: Option<Arc<RholangNode>>,
        metadata: Option<Arc<Metadata>>,
    },
    Decl {
        base: NodeBase,
        names: RholangNodeVector,
        names_remainder: Option<Arc<RholangNode>>,
        procs: RholangNodeVector,
        metadata: Option<Arc<Metadata>>,
    },
    LinearBind {
        base: NodeBase,
        names: RholangNodeVector,
        remainder: Option<Arc<RholangNode>>,
        source: Arc<RholangNode>,
        metadata: Option<Arc<Metadata>>,
    },
    RepeatedBind {
        base: NodeBase,
        names: RholangNodeVector,
        remainder: Option<Arc<RholangNode>>,
        source: Arc<RholangNode>,
        metadata: Option<Arc<Metadata>>,
    },
    PeekBind {
        base: NodeBase,
        names: RholangNodeVector,
        remainder: Option<Arc<RholangNode>>,
        source: Arc<RholangNode>,
        metadata: Option<Arc<Metadata>>,
    },
    Comment {
        base: NodeBase,
        kind: CommentKind,
        metadata: Option<Arc<Metadata>>,
    },
    Wildcard {
        base: NodeBase,
        metadata: Option<Arc<Metadata>>,
    },
    SimpleType {
        base: NodeBase,
        value: String,
        metadata: Option<Arc<Metadata>>,
    },
    ReceiveSendSource {
        base: NodeBase,
        name: Arc<RholangNode>,
        metadata: Option<Arc<Metadata>>,
    },
    SendReceiveSource {
        base: NodeBase,
        name: Arc<RholangNode>,
        inputs: RholangNodeVector,
        metadata: Option<Arc<Metadata>>,
    },
    Error {
        base: NodeBase,
        children: RholangNodeVector,
        metadata: Option<Arc<Metadata>>,
    },
    Disjunction {
        base: NodeBase,
        left: Arc<RholangNode>,
        right: Arc<RholangNode>,
        metadata: Option<Arc<Metadata>>,
    },
    Conjunction {
        base: NodeBase,
        left: Arc<RholangNode>,
        right: Arc<RholangNode>,
        metadata: Option<Arc<Metadata>>,
    },
    Negation {
        base: NodeBase,
        operand: Arc<RholangNode>,
        metadata: Option<Arc<Metadata>>,
    },
    Unit {
        base: NodeBase,
        metadata: Option<Arc<Metadata>>,
    },
}

/// Kind of a `bundle`.
#[derive(Clone, Copy, PartialEq, Eq, Debug, Hash, Structural)]
pub enum RholangBundleType {
    Read,
    Write,
    Equiv,
    ReadWrite,
}

/// Kind of a send: single (`!`) or persistent (`!!`).
#[derive(Clone, Copy, PartialEq, Eq, Debug, Hash, Structural)]
pub enum RholangSendType {
    Single,
    Multiple,
}

/// Binary operators.
#[derive(Clone, Copy, PartialEq, Eq, Debug, Hash, Structural)]
pub enum BinOperator {
    Or,
    And,
    Matches,
    Eq,
    Neq,
    Lt,
    Lte,
    Gt,
    Gte,
    Concat,
    Diff,
    Add,
    Sub,
    Interpolation,
    Mult,
    Div,
    Mod,
    Disjunction,
    Conjunction,
}

/// Unary operators.
#[derive(Clone, Copy, PartialEq, Eq, Debug, Hash, Structural)]
pub enum UnaryOperator {
    Not,
    Neg,
    Negation,
}

/// Kind of a variable reference (`=x` binds, `=*x` unforgeable).
#[derive(Clone, Copy, PartialEq, Eq, Debug, Hash, PartialOrd, Ord, Structural)]
pub enum RholangVarRefKind {
    Bind,
    Unforgeable,
}

/// Kind of a comment.
#[derive(Clone, Copy, PartialEq, Eq, Debug, Hash, Structural)]
pub enum CommentKind {
    Line,
    Block,
}

/// A new handle to the same shared value: `Arc::clone`, which the standard
/// library documents as making another pointer to the same allocation, so
/// the value seen through it is the same.
#[verifier::external_body]
pub(crate) fn share<T>(a: &Arc<T>) -> (r: Arc<T>)
    ensures
        r == *a,
{
    Arc::clone(a)
}

/// New handles to the same shared nodes.
pub fn share_all(v: &RholangNodeVector) -> (r: RholangNodeVector)
    ensures
        r@ == v@,
{
    let mut r: RholangNodeVector = Vec::new();
    let mut i: usize = 0;
    while i < v.len()
        invariant
            i <= v@.len(),
            r@ == v@.take(i as int),
        decreases v@.len() - i,
    {
        r.push(share(&v[i]));
        assert(v@.take(i as int).push(v@[i as int]) =~= v@.take(i as int + 1));
        i += 1;
    }
    assert(v@.take(v@.len() as int) =~= v@);
    r
}

/// A new handle to the same optional shared node.
pub fn share_opt(o: &Option<Arc<RholangNode>>) -> (r: Option<Arc<RholangNode>>)
    ensures
        r == *o,
{
    match o {
        Some(a) => Some(share(a)),
        None => None,
    }
}

/// New handles to the same pairs of shared nodes.
pub fn share_pairs(v: &RholangNodePairVector) -> (r: RholangNodePairVector)
    ensures
        r@ == v@,
{
    let mut r: RholangNodePairVector = Vec::new();
    let mut i: usize = 0;
    while i < v.len()
        invariant
            i <= v@.len(),
            r@ == v@.take(i as int),
        decreases v@.len() - i,
    {
        let p = (share(&v[i].0), share(&v[i].1));
        r.push(p);
        assert(v@.take(i as int).push(v@[i as int]) =~= v@.take(i as int + 1));
        i += 1;
    }
    assert(v@.take(v@.len() as int) =~= v@);
    r
}

/// Branches with their bind sequences seen as sequences.
pub open spec fn branches_view(s: Seq<(RholangNodeVector, Arc<RholangNode>)>) -> Seq<(Seq<Arc<RholangNode>>, Arc<RholangNode>)> {
    s.map_values(|p: (RholangNodeVector, Arc<RholangNode>)| (p.0@, p.1))
}

/// Receipts seen as sequences.
pub open spec fn receipts_view(s: Seq<RholangNodeVector>) -> Seq<Seq<Arc<RholangNode>>> {
    s.map_values(|v: RholangNodeVector| v@)
}

/// An optional node sequence seen as a sequence.
pub open spec fn opt_vec_view(o: Option<RholangNodeVector>) -> Option<Seq<Arc<RholangNode>>> {
    match o {
        Some(v) => Some(v@),
        None => None,
    }
}

/// New handles to the same branches.
pub fn share_branches(v: &RholangBranchVector) -> (r: RholangBranchVector)
    ensures
        branches_view(r@) == branches_view(v@),
{
    let mut r: RholangBranchVector = Vec::new();
    let mut i: usize = 0;
    while i < v.len()
        invariant
            i <= v@.len(),
            r@.len() == i,
            forall|k: int| 0 <= k < i ==> (#[trigger] r@[k]).0@ == v@[k].0@ && r@[k].1 == v@[k].1,
        decreases v@.len() - i,
    {
        let p = (share_all(&v[i].0), share(&v[i].1));
        r.push(p);
        i += 1;
    }
    assert(branches_view(r@) =~= branches_view(v@));
    r
}

/// New handles to the same receipts.
pub fn share_receipts(v: &RholangReceiptVector) -> (r: RholangReceiptVector)
    ensures
        receipts_view(r@) == receipts_view(v@),
{
    let mut r: RholangReceiptVector = Vec::new();
    let mut i: usize = 0;
    while i < v.len()
        invariant
            i <= v@.len(),
            r@.len() == i,
            forall|k: int| 0 <= k < i ==> (#[trigger] r@[k])@ == v@[k]@,
        decreases v@.len() - i,
    {
        let p = share_all(&v[i]);
        r.push(p);
        i += 1;
    }
    assert(receipts_view(r@) =~= receipts_view(v@));
    r
}

/// A new handle to the same optional node sequence.
pub fn share_opt_all(o: &Option<RholangNodeVector>) -> (r: Option<RholangNodeVector>)
    ensures
        opt_vec_view(r) == opt_vec_view(*o),
{
    match o {
        Some(v) => Some(share_all(v)),
        None => None,
    }
}

} // verus!
