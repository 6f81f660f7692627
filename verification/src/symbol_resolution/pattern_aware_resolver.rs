//! Resolution of contract invocations against the contracts of the
//! workspace index, by name and number of arguments.
use std::sync::Arc;
use vstd::prelude::*;
use crate::rholang_node::node_types::share_all;
use crate::rholang_node::{RholangNode, RholangNodeVector};
use crate::semantic_node::Position;
use crate::symbol_resolution::types::{
    str_equal, IrNode, Range, ResolutionConfidence, ResolutionContext, SymbolKind, SymbolLocation,
    SymbolLocationView, SymbolResolver,
};

verus! {

/// Kind of a symbol in the workspace index.
#[derive(Debug, Clone, Copy, PartialEq, Eq, Structural)]
pub enum GlobalSymbolKind {
    Contract,
    Channel,
    Variable,
    LetBinding,
    Bundle,
}

/// Location of a symbol in the workspace index.
pub struct GlobalSymbolLocation {
    pub uri: String,
    pub range: Range,
    pub kind: GlobalSymbolKind,
}

/// A contract known to the workspace index.
pub struct IndexedContract {
    pub name: String,
    pub arity: usize,
    pub location: GlobalSymbolLocation,
}

/// The contracts of the workspace, in the order they were indexed.
pub struct GlobalSymbolIndex {
    contracts: Vec<IndexedContract>,
}

/// Whether an indexed contract answers a call of `name` with `arity` arguments.
pub open spec fn contract_answers(c: IndexedContract, name: Seq<char>, arity: int) -> bool {
    c.name@ == name && c.arity == arity
}

/// The resolution kind of an index kind.
pub open spec fn resolution_kind_of(k: GlobalSymbolKind) -> SymbolKind {
    match k {
        GlobalSymbolKind::Contract => SymbolKind::Function,
        GlobalSymbolKind::Channel => SymbolKind::Variable,
        GlobalSymbolKind::Variable => SymbolKind::Variable,
        GlobalSymbolKind::LetBinding => SymbolKind::Variable,
        GlobalSymbolKind::Bundle => SymbolKind::Other,
    }
}

/// The resolution location of an index location: an exact match.
pub open spec fn converted(l: GlobalSymbolLocation) -> SymbolLocationView {
    SymbolLocationView { uri: l.uri@, range: l.range, kind: resolution_kind_of(l.kind), confidence: ResolutionConfidence::Exact }
}

/// The locations of the contracts that answer a call of `name` with `arity` arguments.
pub open spec fn answering_contracts(cs: Seq<IndexedContract>, name: Seq<char>, arity: int) -> Seq<SymbolLocationView>
    decreases cs.len(),
{
    if cs.len() == 0 {
        Seq::empty()
    } else {
        let before = answering_contracts(cs.drop_last(), name, arity);
        if contract_answers(cs.last(), name, arity) {
            before.push(converted(cs.last().location))
        } else {
            before
        }
    }
}

impl GlobalSymbolIndex {
    /// The indexed contracts.
    pub closed spec fn contracts(&self) -> Seq<IndexedContract> {
        self.contracts@
    }

    /// An index with no contract.
    pub fn new() -> (g: Self)
        ensures
            g.contracts().len() == 0,
    {
        GlobalSymbolIndex { contracts: Vec::new() }
    }

    /// Records a contract.
    pub fn add_contract(&mut self, contract: IndexedContract)
        ensures
            final(self).contracts() == old(self).contracts().push(contract),
    {
        self.contracts.push(contract);
    }

    /// The locations, converted for resolution, of the contracts named
    /// `name` that take as many parameters as there are `arguments`.
    pub fn query_contract_by_pattern(&self, name: &str, arguments: &Vec<Arc<RholangNode>>) -> (r: Vec<SymbolLocation>)
        ensures
            r@.map_values(|l: SymbolLocation| l@) == answering_contracts(self.contracts(), name@, arguments@.len() as int),
    {
        let mut out: Vec<SymbolLocation> = Vec::new();
        let mut i: usize = 0;
        while i < self.contracts.len()
            invariant
                i <= self.contracts@.len(),
                out@.map_values(|l: SymbolLocation| l@) == answering_contracts(
                    self.contracts@.take(i as int),
                    name@,
                    arguments@.len() as int,
                ),
            decreases self.contracts@.len() - i,
        {
            let c = &self.contracts[i];
            proof {
                assert(self.contracts@.take(i + 1).drop_last() =~= self.contracts@.take(i as int));
            }
            if c.arity == arguments.len() && str_equal(c.name.as_str(), name) {
                let ghost before = out@;
                out.push(PatternAwareContractResolver::convert_location(&c.location));
                assert(out@.map_values(|l: SymbolLocation| l@) =~= before.map_values(|l: SymbolLocation| l@).push(
                    converted(c.location),
                ));
            }
            i += 1;
        }
        assert(self.contracts@.take(self.contracts@.len() as int) =~= self.contracts@);
        out
    }
}

/// The name of the contract a channel designates: a variable's name, or
/// the string of a quoted string literal.
pub open spec fn contract_name_of(channel: RholangNode) -> Option<Seq<char>> {
    match channel {
        RholangNode::Var { name, .. } => Some(name@),
        RholangNode::Quote { quotable, .. } => match *quotable {
            RholangNode::StringLiteral { value, .. } => Some(value@),
            _ => None,
        },
        _ => None,
    }
}

/// What the resolver answers for `symbol_name` given the node at the query
/// position: the contracts answering a send on a channel of that name.
pub open spec fn pattern_resolution(index: GlobalSymbolIndex, node: Option<IrNode>, symbol_name: Seq<char>) -> Seq<SymbolLocationView> {
    match node {
        Some(IrNode::Rholang(n)) => match *n {
            RholangNode::Send { channel, inputs, .. } => match contract_name_of(*channel) {
                Some(name) => if name == symbol_name {
                    answering_contracts(index.contracts(), name, inputs@.len() as int)
                } else {
                    Seq::empty()
                },
                None => Seq::empty(),
            },
            _ => Seq::empty(),
        },
        _ => Seq::empty(),
    }
}

/// Resolves contract invocations by name and argument count against the
/// workspace index; finds nothing for anything else, leaving it to other
/// resolvers.
pub struct PatternAwareContractResolver {
    global_index: Arc<GlobalSymbolIndex>,
}

impl PatternAwareContractResolver {
    /// The index consulted.
    pub closed spec fn index(&self) -> GlobalSymbolIndex {
        *self.global_index
    }

    /// A resolver over `global_index`.
    pub fn new(global_index: Arc<GlobalSymbolIndex>) -> (r: Self)
        ensures
            r.index() == *global_index,
    {
        PatternAwareContractResolver { global_index }
    }

    /// The resolution location of an index location.
    pub fn convert_location(global_loc: &GlobalSymbolLocation) -> (r: SymbolLocation)
        ensures
            r@ == converted(*global_loc),
    {
        let kind = match global_loc.kind {
            GlobalSymbolKind::Contract => SymbolKind::Function,
            GlobalSymbolKind::Channel => SymbolKind::Variable,
            GlobalSymbolKind::Variable => SymbolKind::Variable,
            GlobalSymbolKind::LetBinding => SymbolKind::Variable,
            GlobalSymbolKind::Bundle => SymbolKind::Other,
        };
        SymbolLocation {
            uri: global_loc.uri.clone(),
            range: global_loc.range,
            kind,
            confidence: ResolutionConfidence::Exact,
        }
    }

    /// The contract name a channel designates.
    pub fn extract_contract_name(channel: &Arc<RholangNode>) -> (r: Option<String>)
        ensures
            match r {
                Some(s) => contract_name_of(**channel) == Some(s@),
                None => contract_name_of(**channel) is None,
            },
    {
        match &**channel {
            RholangNode::Var { name, .. } => Some(name.clone()),
            RholangNode::Quote { quotable, .. } => match &**quotable {
                RholangNode::StringLiteral { value, .. } => Some(value.clone()),
                _ => None,
            },
            _ => None,
        }
    }

    /// The arguments of a send.
    pub fn extract_arguments(send_node: &RholangNode) -> (r: Option<RholangNodeVector>)
        ensures
            match *send_node {
                RholangNode::Send { inputs, .. } => r is Some && r->0@ == inputs@,
                _ => r is None,
            },
    {
        match send_node {
            RholangNode::Send { inputs, .. } => Some(share_all(inputs)),
            _ => None,
        }
    }

    /// The contracts answering the invocation at the query position.
    pub fn resolve_invocation(&self, symbol_name: &str, context: &ResolutionContext) -> (r: Vec<SymbolLocation>)
        ensures
            r@.map_values(|l: SymbolLocation| l@) == pattern_resolution(self.index(), context.ir_node, symbol_name@),
    {
        let empty: Vec<SymbolLocation> = Vec::new();
        assert(empty@.map_values(|l: SymbolLocation| l@) =~= Seq::<SymbolLocationView>::empty());
        let node = match &context.ir_node {
            Some(IrNode::Rholang(n)) => n,
            _ => return empty,
        };
        let channel = match &**node {
            RholangNode::Send { channel, .. } => channel,
            _ => return empty,
        };
        let name = match Self::extract_contract_name(channel) {
            Some(s) => s,
            None => return empty,
        };
        if !str_equal(name.as_str(), symbol_name) {
            return empty;
        }
        match Self::extract_arguments(node) {
            Some(arguments) => self.global_index.query_contract_by_pattern(name.as_str(), &arguments),
            None => empty,
        }
    }

    /// Whether this resolver handles `language`: only Rholang.
    pub fn supports(&self, language: &str) -> (b: bool)
        ensures
            b == (language@ == "rholang"@),
    {
        str_equal(language, "rholang")
    }
}

impl SymbolResolver for PatternAwareContractResolver {
    /// This resolver answers as its spec functions say.
    open spec fn keeps_spec(&self) -> bool {
        true
    }

    /// The contracts of the index that the invocation at the context's node matches.
    closed spec fn resolution_of(&self, symbol_name: Seq<char>, position: Position, context: ResolutionContext) -> Seq<SymbolLocationView> {
        pattern_resolution(self.index(), context.ir_node, symbol_name)
    }

    /// Only Rholang.
    closed spec fn language_supported(&self, language: Seq<char>) -> bool {
        language == "rholang"@
    }

    fn resolve_symbol(&self, symbol_name: &str, _position: &Position, context: &ResolutionContext) -> (r: Vec<SymbolLocation>)
        ensures
            r@.map_values(|l: SymbolLocation| l@) == pattern_resolution(self.index(), context.ir_node, symbol_name@),
    {
        self.resolve_invocation(symbol_name, context)
    }

    fn supports_language(&self, language: &str) -> (b: bool)
        ensures
            b == (language@ == "rholang"@),
    {
        self.supports(language)
    }

    fn name(&self) -> (r: &'static str)
        ensures
            r@ == "PatternAwareContractResolver"@,
    {
        "PatternAwareContractResolver"
    }
}

} // verus!
