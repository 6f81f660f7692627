use std::sync::Arc;

use rholang_language_server::rholang_node::node_types::{RholangNode, RholangSendType};
use rholang_language_server::semantic_node::{NodeBase, Position, RelativePosition};
use rholang_language_server::symbol_resolution::filters::{ChainedFilter, MettaPatternFilter, MettaPatternMatcher};
use rholang_language_server::symbol_resolution::generic::GenericSymbolResolver;
use rholang_language_server::symbol_resolution::pattern_aware_resolver::{
    GlobalSymbolIndex, GlobalSymbolKind, GlobalSymbolLocation, IndexedContract,
    PatternAwareContractResolver,
};
use rholang_language_server::symbol_resolution::workspace::{LanguageSymbols, SymbolEntry, WorkspaceState};
use rholang_language_server::symbol_resolution::{
    ComposableSymbolResolver, FilterContext, IrNode, LspPosition, MettaNode, Range,
    ResolutionConfidence, ResolutionContext, SymbolFilter, SymbolKind, SymbolLocation,
    SymbolResolver,
};

struct MockResolver {
    results: Vec<SymbolLocation>,
    language: String,
}

impl SymbolResolver for MockResolver {
    fn resolve_symbol(&self, _: &str, _: &Position, _: &ResolutionContext) -> Vec<SymbolLocation> {
        self.results.clone()
    }

    fn supports_language(&self, language: &str) -> bool {
        self.language == language
    }
}

struct MockFilter {
    should_filter: bool,
}

impl SymbolFilter for MockFilter {
    fn filter(&self, candidates: Vec<SymbolLocation>, _: &FilterContext) -> Option<Vec<SymbolLocation>> {
        if self.should_filter {
            Some(candidates.into_iter().take(1).collect())
        } else {
            None
        }
    }

    fn applies_to_language(&self, _: &str) -> bool {
        true
    }
}

struct RemoveFirstFilter;

impl SymbolFilter for RemoveFirstFilter {
    fn filter(&self, mut candidates: Vec<SymbolLocation>, _: &FilterContext) -> Option<Vec<SymbolLocation>> {
        if !candidates.is_empty() {
            candidates.remove(0);
        }
        Some(candidates)
    }

    fn applies_to_language(&self, _: &str) -> bool {
        true
    }
}

struct PassthroughFilter;

impl SymbolFilter for PassthroughFilter {
    fn filter(&self, _: Vec<SymbolLocation>, _: &FilterContext) -> Option<Vec<SymbolLocation>> {
        None
    }

    fn applies_to_language(&self, _: &str) -> bool {
        true
    }
}

fn location(uri: &str, range: Range, confidence: ResolutionConfidence) -> SymbolLocation {
    SymbolLocation { uri: uri.to_string(), range, kind: SymbolKind::Function, confidence }
}

fn context(uri: &str, scope_id: Option<usize>, language: &str) -> ResolutionContext {
    ResolutionContext {
        uri: uri.to_string(),
        scope_id,
        ir_node: None,
        language: language.to_string(),
        parent_uri: None,
    }
}

fn filter_context(symbol: &str, language: &str, call_site: Option<IrNode>) -> FilterContext {
    FilterContext {
        call_site,
        symbol_name: symbol.to_string(),
        language: language.to_string(),
        resolution_context: context("file:///test", None, language),
    }
}

fn origin() -> Position {
    Position { row: 0, column: 0, byte: 0 }
}

#[test]
fn test_base_resolver_with_results() {
    let loc = location("file:///test.metta", Range::default(), ResolutionConfidence::Exact);
    let base = Box::new(MockResolver { results: vec![loc.clone()], language: "metta".to_string() });
    let resolver = ComposableSymbolResolver::new(base, vec![], None);
    let ctx = context("file:///test.metta", Some(0), "metta");
    let results = resolver.resolve_symbol("test", &origin(), &ctx);
    assert_eq!(results.len(), 1);
}

#[test]
fn test_filter_refinement() {
    let loc1 = location("file:///test.metta", Range::default(), ResolutionConfidence::Exact);
    let loc2 = loc1.clone();
    let base = Box::new(MockResolver { results: vec![loc1, loc2], language: "metta".to_string() });
    let filter: Box<dyn SymbolFilter> = Box::new(MockFilter { should_filter: true });
    let resolver = ComposableSymbolResolver::new(base, vec![filter], None);
    let ctx = context("file:///test.metta", Some(0), "metta");
    let results = resolver.resolve_symbol("test", &origin(), &ctx);
    assert_eq!(results.len(), 1);
}

#[test]
fn test_fallback_when_base_empty() {
    let base = Box::new(MockResolver { results: vec![], language: "metta".to_string() });
    let loc = location("file:///fallback.metta", Range::default(), ResolutionConfidence::Fuzzy);
    let fallback: Box<dyn SymbolResolver> =
        Box::new(MockResolver { results: vec![loc], language: "metta".to_string() });
    let resolver = ComposableSymbolResolver::new(base, vec![], Some(fallback));
    let ctx = context("file:///test.metta", Some(0), "metta");
    let results = resolver.resolve_symbol("test", &origin(), &ctx);
    assert_eq!(results.len(), 1);
    assert_eq!(results[0].uri, "file:///fallback.metta");
}

#[test]
fn composable_filter_that_empties_falls_back_to_unfiltered() {
    let locs = vec![
        location("file:///a", Range::default(), ResolutionConfidence::Exact),
        location("file:///b", Range::default(), ResolutionConfidence::Exact),
    ];
    let base = Box::new(MockResolver { results: locs, language: "metta".to_string() });
    let chain: Vec<Box<dyn SymbolFilter>> = vec![Box::new(RemoveFirstFilter), Box::new(RemoveFirstFilter)];
    let resolver = ComposableSymbolResolver::new(base, chain, None);
    let ctx = context("file:///test.metta", None, "metta");
    let results = resolver.resolve_symbol("test", &origin(), &ctx);
    assert_eq!(results.len(), 2);
    assert_eq!(results[0].uri, "file:///a");
    assert!(resolver.supports_language("metta"));
    assert!(!resolver.supports_language("rholang"));
}

fn three_locations() -> Vec<SymbolLocation> {
    vec![
        location("file:///a", Range::default(), ResolutionConfidence::Exact),
        location("file:///b", Range::default(), ResolutionConfidence::Exact),
        location("file:///c", Range::default(), ResolutionConfidence::Exact),
    ]
}

#[test]
fn test_chained_filter_sequence() {
    let filters: Vec<Box<dyn SymbolFilter>> = vec![Box::new(RemoveFirstFilter), Box::new(RemoveFirstFilter)];
    let chain = ChainedFilter::new(filters);
    let result = chain.filter(three_locations(), &filter_context("test", "test", None));
    assert_eq!(result.unwrap().len(), 1);
}

#[test]
fn test_chained_filter_with_passthrough() {
    let filters: Vec<Box<dyn SymbolFilter>> = vec![Box::new(PassthroughFilter), Box::new(RemoveFirstFilter)];
    let chain = ChainedFilter::new(filters);
    let locs = three_locations().into_iter().take(2).collect();
    let result = chain.filter(locs, &filter_context("test", "test", None));
    assert_eq!(result.unwrap().len(), 1);
}

#[test]
fn chained_filter_returns_its_input_when_a_filter_empties_the_candidates() {
    let filters: Vec<Box<dyn SymbolFilter>> =
        vec![Box::new(RemoveFirstFilter), Box::new(RemoveFirstFilter), Box::new(RemoveFirstFilter)];
    let chain = ChainedFilter::new(filters);
    let locs: Vec<SymbolLocation> = three_locations().into_iter().take(2).collect();
    let result = chain.filter(locs, &filter_context("test", "test", None)).unwrap();
    assert_eq!(result.len(), 2);
    assert_eq!(result[0].uri, "file:///a");
    assert_eq!(result[1].uri, "file:///b");
}

#[test]
fn chained_filter_without_filters_passes_through() {
    let chain = ChainedFilter::new(vec![]);
    assert!(chain.filter(three_locations(), &filter_context("test", "test", None)).is_none());
    let only_passthrough: Vec<Box<dyn SymbolFilter>> = vec![Box::new(PassthroughFilter)];
    let chain = ChainedFilter::new(only_passthrough);
    assert!(chain.filter(three_locations(), &filter_context("test", "test", None)).is_none());
}

fn call_site(head: &str, args: &[&str]) -> IrNode {
    let mut elements = vec![Arc::new(MettaNode::Atom { name: head.to_string() })];
    for a in args {
        elements.push(Arc::new(MettaNode::Atom { name: a.to_string() }));
    }
    IrNode::Metta(Arc::new(MettaNode::SExpr { elements }))
}

#[test]
fn test_filter_with_matching_pattern() {
    let pattern_matcher = Arc::new(MettaPatternMatcher::new());
    let def_range = Range {
        start: LspPosition { line: 0, character: 0 },
        end: LspPosition { line: 0, character: 10 },
    };
    let filter = MettaPatternFilter::new(pattern_matcher);
    let candidates = vec![location("file:///test.metta", def_range, ResolutionConfidence::Exact)];
    let ctx = filter_context("foo", "metta", Some(call_site("foo", &["arg1", "arg2"])));
    let result = filter.filter(candidates.clone(), &ctx);
    assert!(result.is_some());
}

#[test]
fn test_filter_without_call_site() {
    let pattern_matcher = Arc::new(MettaPatternMatcher::new());
    let filter = MettaPatternFilter::new(pattern_matcher);
    let result = filter.filter(vec![], &filter_context("foo", "metta", None));
    assert!(result.is_none());
}

fn workspace_with(language: &str, name: &str, locations: Vec<(String, Range)>) -> Arc<WorkspaceState> {
    let mut w = WorkspaceState::new();
    w.global_virtual_symbols.push(LanguageSymbols {
        language: language.to_string(),
        symbols: vec![SymbolEntry { name: name.to_string(), locations }],
    });
    Arc::new(w)
}

fn lsp_range(l1: u32, c1: u32, l2: u32, c2: u32) -> Range {
    Range { start: LspPosition { line: l1, character: c1 }, end: LspPosition { line: l2, character: c2 } }
}

#[test]
fn test_generic_resolver_single_location() {
    let uri = "file:///test.py".to_string();
    let range = lsp_range(5, 10, 5, 15);
    let workspace = workspace_with("python", "my_var", vec![(uri.clone(), range)]);
    let resolver = GenericSymbolResolver::new(workspace, "python".to_string());
    let ctx = context(&uri, None, "python");
    let position = Position { row: 5, column: 10, byte: 0 };
    let locations = resolver.resolve_symbol("my_var", &position, &ctx);
    assert_eq!(locations.len(), 1);
    assert_eq!(locations[0].uri, uri);
    assert_eq!(locations[0].range, range);
}

#[test]
fn test_generic_resolver_multiple_locations() {
    let uri1 = "file:///module1.js".to_string();
    let uri2 = "file:///module2.js".to_string();
    let range1 = lsp_range(1, 0, 1, 5);
    let range2 = lsp_range(10, 5, 10, 10);
    let workspace = workspace_with("javascript", "myFunc", vec![(uri1.clone(), range1), (uri2.clone(), range2)]);
    let resolver = GenericSymbolResolver::new(workspace, "javascript".to_string());
    let ctx = context(&uri1, None, "javascript");
    let position = Position { row: 1, column: 0, byte: 0 };
    let locations = resolver.resolve_symbol("myFunc", &position, &ctx);
    assert_eq!(locations.len(), 2);
    assert!(locations.iter().any(|loc| loc.uri == uri1 && loc.range == range1));
    assert!(locations.iter().any(|loc| loc.uri == uri2 && loc.range == range2));
}

#[test]
fn test_generic_resolver_symbol_not_found() {
    let workspace = Arc::new(WorkspaceState::new());
    let resolver = GenericSymbolResolver::new(workspace, "ruby".to_string());
    let ctx = context("file:///test.rb", None, "ruby");
    let position = Position { row: 1, column: 0, byte: 0 };
    let locations = resolver.resolve_symbol("undefined_var", &position, &ctx);
    assert_eq!(locations.len(), 0);
}

#[test]
fn generic_resolver_reports_exact_variables() {
    let workspace = workspace_with("python", "v", vec![("file:///v.py".to_string(), lsp_range(0, 0, 0, 1))]);
    let resolver = GenericSymbolResolver::new(workspace, "python".to_string());
    let locations = resolver.lookup_global_symbols("v");
    assert_eq!(locations[0].kind, SymbolKind::Variable);
    assert_eq!(locations[0].confidence, ResolutionConfidence::Exact);
    assert!(resolver.supports_language("python"));
    assert!(!resolver.supports_language("ruby"));
}

fn test_base() -> NodeBase {
    NodeBase::new_simple(RelativePosition { delta_lines: 0, delta_columns: 0, delta_bytes: 0 }, 0, 0, 0)
}

#[test]
fn test_extract_contract_name_from_var() {
    let chan = Arc::new(RholangNode::Var { base: test_base(), name: "echo".to_string(), metadata: None });
    let name = PatternAwareContractResolver::extract_contract_name(&chan);
    assert_eq!(name, Some("echo".to_string()));
}

#[test]
fn test_extract_contract_name_from_quoted_string() {
    let quotable = Arc::new(RholangNode::StringLiteral {
        base: test_base(),
        value: "myContract".to_string(),
        metadata: None,
    });
    let chan = Arc::new(RholangNode::Quote { base: test_base(), quotable, metadata: None });
    let name = PatternAwareContractResolver::extract_contract_name(&chan);
    assert_eq!(name, Some("myContract".to_string()));
}

#[test]
fn test_extract_contract_name_returns_none_for_non_var_non_quote() {
    let chan = Arc::new(RholangNode::Nil { base: test_base(), metadata: None });
    let name = PatternAwareContractResolver::extract_contract_name(&chan);
    assert_eq!(name, None);
}

fn send_node(channel: &str, inputs: Vec<Arc<RholangNode>>) -> RholangNode {
    RholangNode::Send {
        base: test_base(),
        channel: Arc::new(RholangNode::Var { base: test_base(), name: channel.to_string(), metadata: None }),
        send_type: RholangSendType::Single,
        send_type_delta: RelativePosition { delta_lines: 0, delta_columns: 0, delta_bytes: 0 },
        inputs,
        metadata: None,
    }
}

#[test]
fn test_extract_arguments_from_send() {
    let arg1 = Arc::new(RholangNode::LongLiteral { base: test_base(), value: 42, metadata: None });
    let arg2 = Arc::new(RholangNode::StringLiteral { base: test_base(), value: "hello".to_string(), metadata: None });
    let send = send_node("test", vec![arg1, arg2]);
    let args = PatternAwareContractResolver::extract_arguments(&send);
    assert!(args.is_some());
    assert_eq!(args.unwrap().len(), 2);
}

#[test]
fn test_extract_arguments_returns_none_for_non_send() {
    let node = RholangNode::Nil { base: test_base(), metadata: None };
    let args = PatternAwareContractResolver::extract_arguments(&node);
    assert!(args.is_none());
}

#[test]
fn pattern_aware_resolver_ignores_non_invocations() {
    let resolver = PatternAwareContractResolver::new(Arc::new(GlobalSymbolIndex::new()));
    let mut ctx = context("file:///a.rho", None, "rholang");
    assert!(resolver.resolve_symbol("echo", &origin(), &ctx).is_empty());
    ctx.ir_node = Some(IrNode::Rholang(Arc::new(send_node("echo", vec![]))));
    assert!(resolver.resolve_symbol("other", &origin(), &ctx).is_empty());
    assert!(resolver.resolve_symbol("echo", &origin(), &ctx).is_empty());
}

#[test]
fn pattern_aware_resolver_finds_contract_by_name_and_arity() {
    let mut index = GlobalSymbolIndex::new();
    index.add_contract(IndexedContract {
        name: "echo".to_string(),
        arity: 1,
        location: GlobalSymbolLocation {
            uri: "file:///one.rho".to_string(),
            range: lsp_range(1, 0, 1, 4),
            kind: GlobalSymbolKind::Contract,
        },
    });
    index.add_contract(IndexedContract {
        name: "echo".to_string(),
        arity: 2,
        location: GlobalSymbolLocation {
            uri: "file:///two.rho".to_string(),
            range: lsp_range(2, 0, 2, 4),
            kind: GlobalSymbolKind::Contract,
        },
    });
    let resolver = PatternAwareContractResolver::new(Arc::new(index));
    let arg = Arc::new(RholangNode::LongLiteral { base: test_base(), value: 1, metadata: None });
    let mut ctx = context("file:///a.rho", None, "rholang");
    ctx.ir_node = Some(IrNode::Rholang(Arc::new(send_node("echo", vec![arg]))));
    let found = resolver.resolve_symbol("echo", &origin(), &ctx);
    assert_eq!(found.len(), 1);
    assert_eq!(found[0].uri, "file:///one.rho");
    assert_eq!(found[0].kind, SymbolKind::Function);
    assert_eq!(found[0].confidence, ResolutionConfidence::Exact);
}

#[test]
fn test_supports_language() {
    let global_index = Arc::new(GlobalSymbolIndex::new());
    let resolver = PatternAwareContractResolver::new(global_index);
    assert!(resolver.supports_language("rholang"));
    assert!(!resolver.supports_language("metta"));
    assert!(!resolver.supports_language("python"));
}
