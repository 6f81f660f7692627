//! Filters that refine the candidates of a resolver.
pub mod chained;
pub mod metta_pattern;

pub use chained::ChainedFilter;
pub use metta_pattern::{MettaPatternDefinition, MettaPatternFilter, MettaPatternMatcher};
