//! Resolution in one flat, global scope per language.
use std::sync::Arc;
use vstd::prelude::*;
use crate::semantic_node::Position;
use crate::symbol_resolution::types::{
    str_equal, ResolutionConfidence, ResolutionContext, SymbolKind, SymbolLocation, SymbolLocationView,
    SymbolResolver,
};
use crate::symbol_resolution::workspace::{global_lookup, lookup_global_symbols, WorkspaceState};

verus! {

/// Resolves a name to every location recorded for it in the workspace's
/// global symbols of one language, whatever the position.
pub struct GenericSymbolResolver {
    workspace: Arc<WorkspaceState>,
    language: String,
}

impl GenericSymbolResolver {
    /// The workspace consulted.
    pub closed spec fn workspace(&self) -> WorkspaceState {
        *self.workspace
    }

    /// The language handled.
    pub closed spec fn language(&self) -> Seq<char> {
        self.language@
    }

    /// A resolver of `language` over `workspace`.
    pub fn new(workspace: Arc<WorkspaceState>, language: String) -> (r: Self)
        ensures
            r.workspace() == *workspace,
            r.language() == language@,
    {
        GenericSymbolResolver { workspace, language }
    }

    /// Every location recorded for `symbol_name` in this resolver's language,
    /// each an exact match of kind variable.
    pub fn lookup_global_symbols(&self, symbol_name: &str) -> (r: Vec<SymbolLocation>)
        ensures
            r@.map_values(|l: SymbolLocation| l@) == global_lookup(
                self.workspace(),
                self.language(),
                symbol_name@,
                SymbolKind::Variable,
                ResolutionConfidence::Exact,
            ),
    {
        lookup_global_symbols(
            &self.workspace,
            self.language.as_str(),
            symbol_name,
            SymbolKind::Variable,
            ResolutionConfidence::Exact,
        )
    }

    /// Whether this resolver handles `language`.
    pub fn handles(&self, language: &str) -> (b: bool)
        ensures
            b == (self.language() == language@),
    {
        str_equal(self.language.as_str(), language)
    }
}

impl SymbolResolver for GenericSymbolResolver {
    /// This resolver answers as its spec functions say.
    open spec fn keeps_spec(&self) -> bool {
        true
    }

    /// Every global location of the name in this resolver's language.
    closed spec fn resolution_of(&self, symbol_name: Seq<char>, position: Position, context: ResolutionContext) -> Seq<SymbolLocationView> {
        global_lookup(self.workspace(), self.language(), symbol_name, SymbolKind::Variable, ResolutionConfidence::Exact)
    }

    /// Only this resolver's language.
    closed spec fn language_supported(&self, language: Seq<char>) -> bool {
        self.language() == language
    }

    fn resolve_symbol(&self, symbol_name: &str, _position: &Position, _context: &ResolutionContext) -> (r: Vec<SymbolLocation>)
        ensures
            r@.map_values(|l: SymbolLocation| l@) == global_lookup(
                self.workspace(),
                self.language(),
                symbol_name@,
                SymbolKind::Variable,
                ResolutionConfidence::Exact,
            ),
    {
        self.lookup_global_symbols(symbol_name)
    }

    fn supports_language(&self, language: &str) -> (b: bool)
        ensures
            b == (self.language() == language@),
    {
        self.handles(language)
    }

    fn name(&self) -> (r: &'static str)
        ensures
            r@ == "GenericSymbolResolver"@,
    {
        "GenericSymbolResolver"
    }
}

} // verus!
