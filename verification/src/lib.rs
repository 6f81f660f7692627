//! Intermediate representation of the Rholang language server: the node
//! tree, its position bookkeeping, pattern matching over it, symbol tables,
//! symbol resolution and structured documentation.
pub mod semantic_node;

pub mod text;
pub mod structured_documentation;
pub mod rholang_node;
pub mod symbol_resolution;
pub mod symbol_table;
pub mod source_text;
pub mod mork_form;
pub mod pattern_index;
pub mod laws;
