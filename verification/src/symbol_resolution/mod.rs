//! Composable symbol resolution: resolvers that find definitions of a
//! symbol, filters that refine their candidates, and the data they exchange.
pub mod types;
pub mod composable;
pub mod filters;
pub mod generic;
pub mod global;
pub mod lexical_scope;
pub mod pattern_aware_resolver;
pub mod workspace;

pub use types::{
    FilterContext, IrNode, LspPosition, MettaNode, Range, ResolutionConfidence,
    ResolutionContext, SymbolFilter, SymbolKind, SymbolLocation, SymbolResolver,
    CustomScopeResolver,
};
pub use composable::ComposableSymbolResolver;
pub use filters::{ChainedFilter, MettaPatternFilter, MettaPatternMatcher};
pub use generic::GenericSymbolResolver;
pub use global::GlobalVirtualSymbolResolver;
pub use lexical_scope::{LexicalScopeResolver, MettaSymbolTable};
pub use pattern_aware_resolver::{GlobalSymbolIndex, PatternAwareContractResolver};
pub use workspace::WorkspaceState;
