//! Resolution through the workspace-wide symbols, as a fallback.
use std::sync::Arc;
use vstd::prelude::*;
use crate::semantic_node::Position;
use crate::symbol_resolution::types::{
    ResolutionConfidence, ResolutionContext, SymbolKind, SymbolLocation, SymbolLocationView, SymbolResolver,
};
use crate::symbol_resolution::workspace::{global_lookup, lookup_global_symbols, WorkspaceState};

verus! {

/// The synchronous face of the global resolver: the workspace is read
/// asynchronously, so a synchronous request finds nothing; it handles every
/// language.
pub struct GlobalVirtualSymbolResolver {
    workspace: Arc<WorkspaceState>,
}

impl GlobalVirtualSymbolResolver {
    /// A resolver over `workspace`.
    pub fn new(workspace: Arc<WorkspaceState>) -> (r: Self)
        ensures
            r.workspace() == *workspace,
    {
        GlobalVirtualSymbolResolver { workspace }
    }

    /// The workspace consulted.
    pub closed spec fn workspace(&self) -> WorkspaceState {
        *self.workspace
    }
}

impl SymbolResolver for GlobalVirtualSymbolResolver {
    /// This resolver answers as its spec functions say.
    open spec fn keeps_spec(&self) -> bool {
        true
    }

    /// A synchronous request finds nothing.
    closed spec fn resolution_of(&self, symbol_name: Seq<char>, position: Position, context: ResolutionContext) -> Seq<SymbolLocationView> {
        Seq::empty()
    }

    /// Every language.
    closed spec fn language_supported(&self, language: Seq<char>) -> bool {
        true
    }

    fn resolve_symbol(&self, _symbol_name: &str, _position: &Position, _context: &ResolutionContext) -> (r: Vec<SymbolLocation>)
        ensures
            r@.len() == 0,
    {
        Vec::new()
    }

    fn supports_language(&self, _language: &str) -> (b: bool)
        ensures
            b,
    {
        true
    }

    fn name(&self) -> (r: &'static str)
        ensures
            r@ == "GlobalVirtualSymbolResolver"@,
    {
        "GlobalVirtualSymbolResolver"
    }
}

/// What the asynchronous global resolver answers once it holds the
/// workspace: every location recorded for `symbol_name` in the context's
/// language, each a fuzzy match of kind function.
pub fn resolve_in_workspace(workspace: &WorkspaceState, symbol_name: &str, context: &ResolutionContext) -> (r: Vec<SymbolLocation>)
    ensures
        r@.map_values(|l: SymbolLocation| l@) == global_lookup(
            *workspace,
            context.language@,
            symbol_name@,
            SymbolKind::Function,
            ResolutionConfidence::Fuzzy,
        ),
{
    lookup_global_symbols(
        workspace,
        context.language.as_str(),
        symbol_name,
        SymbolKind::Function,
        ResolutionConfidence::Fuzzy,
    )
}

} // verus!
