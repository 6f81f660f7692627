# rholang_language_server

The intermediate representation (IR) of the Rholang language server, as a
verified library: the functions in `src/` carry contracts that Verus
proves, except for a few small trusted wrappers around `Arc`, `String`
and `ropey` calls, whose contracts state what those calls document.

- `semantic_node` — positions, node bases, semantic categories and typed
  node metadata.
- `rholang_node` — the Rholang node tree: constructors and accessors
  (`node_impl`), children by index and rebuilding (`node_children`), the
  structural order of nodes (`node_order`, over the shapes of `node_shape`),
  pattern matching (`pattern_matching`), collection of contracts and calls
  (`node_operations`), absolute positions and lookup by position
  (`position_tracking`) and reserved-name validation (`validation`).
- `symbol_table` — scoped symbol tables with contract overloads.
- `symbol_resolution` — resolvers and filters over a modelled workspace.
- `structured_documentation` — doc-comment parsing and rendering.
- `mork_form`, `pattern_index` — the MORK terms of contract patterns and
  call sites.
- `source_text` — the text of a node, cut out of a `ropey::Rope`.
- `laws` — properties that relate several operations: the structural order
  is a total preorder, rebuilding a node from its own children gives it
  back, reads after writes, and more.

`app/` holds what Verus does not take: the language-agnostic visitor
traits, position queries by node identity, asynchronous resolution over a
shared workspace and a serialisable copy of structured documentation.
`tests/` exercises the library from outside.
