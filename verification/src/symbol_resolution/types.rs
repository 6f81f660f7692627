//! Data exchanged by symbol resolvers and filters, and their interfaces.
use std::sync::Arc;
use vstd::prelude::*;
use crate::rholang_node::RholangNode;
use crate::rholang_node::node_types::share;
use crate::semantic_node::Position;

verus! {

/// Confidence of a resolution, ordered from lowest to highest:
/// `Ambiguous < Fuzzy < Exact`.
#[derive(Debug, Clone, Copy, PartialEq, Eq, PartialOrd, Ord, Structural)]
pub enum ResolutionConfidence {
    /// Several candidates with the same confidence.
    Ambiguous,
    /// Name match whose pattern signature is unknown.
    Fuzzy,
    /// Same name and matching pattern signature.
    Exact,
}

/// The rank of a confidence level; higher is more confident.
pub open spec fn confidence_rank(c: ResolutionConfidence) -> int {
    match c {
        ResolutionConfidence::Ambiguous => 0,
        ResolutionConfidence::Fuzzy => 1,
        ResolutionConfidence::Exact => 2,
    }
}

impl ResolutionConfidence {
    /// Whether this level is more confident than `other`.
    pub fn exceeds(&self, other: &ResolutionConfidence) -> (b: bool)
        ensures
            b == (confidence_rank(*self) > confidence_rank(*other)),
    {
        let a: u8 = match self {
            ResolutionConfidence::Ambiguous => 0,
            ResolutionConfidence::Fuzzy => 1,
            ResolutionConfidence::Exact => 2,
        };
        let b: u8 = match other {
            ResolutionConfidence::Ambiguous => 0,
            ResolutionConfidence::Fuzzy => 1,
            ResolutionConfidence::Exact => 2,
        };
        a > b
    }
}

/// Kind of a symbol.
#[derive(Debug, Clone, Copy, PartialEq, Eq, Structural)]
pub enum SymbolKind {
    Function,
    Variable,
    Parameter,
    Type,
    Module,
    Other,
}

/// A line and character offset in a document (zero-based).
#[derive(Debug, Clone, Copy, PartialEq, Eq, Structural, Default)]
pub struct LspPosition {
    pub line: u32,
    pub character: u32,
}

/// A span of a document between two positions.
#[derive(Debug, Clone, Copy, PartialEq, Eq, Structural, Default)]
pub struct Range {
    pub start: LspPosition,
    pub end: LspPosition,
}

/// Location of a symbol definition or reference.
#[derive(Debug, Clone)]
pub struct SymbolLocation {
    /// URI of the document that holds the symbol.
    pub uri: String,
    /// Range of the symbol in that document.
    pub range: Range,
    /// Kind of the symbol.
    pub kind: SymbolKind,
    /// Confidence of this resolution.
    pub confidence: ResolutionConfidence,
}

/// The value of a symbol location, with its URI as a character sequence.
pub struct SymbolLocationView {
    pub uri: Seq<char>,
    pub range: Range,
    pub kind: SymbolKind,
    pub confidence: ResolutionConfidence,
}

impl View for SymbolLocation {
    type V = SymbolLocationView;

    open spec fn view(&self) -> SymbolLocationView {
        SymbolLocationView {
            uri: self.uri@,
            range: self.range,
            kind: self.kind,
            confidence: self.confidence,
        }
    }
}

/// The values of a sequence of locations.
pub open spec fn locations_view(s: Seq<SymbolLocation>) -> Seq<SymbolLocationView> {
    s.map_values(|l: SymbolLocation| l@)
}

/// A copy of a location.
pub fn copy_location(l: &SymbolLocation) -> (r: SymbolLocation)
    ensures
        r@ == l@,
{
    SymbolLocation { uri: l.uri.clone(), range: l.range, kind: l.kind, confidence: l.confidence }
}

/// A copy of a sequence of locations.
pub fn copy_locations(v: &Vec<SymbolLocation>) -> (r: Vec<SymbolLocation>)
    ensures
        locations_view(r@) == locations_view(v@),
        r@.len() == v@.len(),
{
    let mut r: Vec<SymbolLocation> = Vec::new();
    let mut i: usize = 0;
    while i < v.len()
        invariant
            i <= v@.len(),
            r@.len() == i,
            forall|j: int| 0 <= j < i ==> #[trigger] r@[j]@ == v@[j]@,
        decreases v@.len() - i,
    {
        r.push(copy_location(&v[i]));
        i += 1;
    }
    assert(locations_view(r@) =~= locations_view(v@));
    r
}

/// An element of a MeTTa expression, as far as call sites need it.
#[derive(Debug, Clone)]
pub enum MettaNode {
    /// A named atom.
    Atom { name: String },
    /// A parenthesised expression.
    SExpr { elements: Vec<Arc<MettaNode>> },
    /// Any other expression.
    Other,
}

/// An IR node at the queried position, in the language of the document.
#[derive(Debug, Clone)]
pub enum IrNode {
    Rholang(Arc<RholangNode>),
    Metta(Arc<MettaNode>),
}

/// Context of a resolution request.
#[derive(Debug, Clone)]
pub struct ResolutionContext {
    /// URI of the queried document.
    pub uri: String,
    /// Scope at the query position, when known.
    pub scope_id: Option<usize>,
    /// IR node at the query position, when known.
    pub ir_node: Option<IrNode>,
    /// Language being resolved.
    pub language: String,
    /// Parent document of a virtual document.
    pub parent_uri: Option<String>,
}

/// Context of a filtering step.
#[derive(Debug, Clone)]
pub struct FilterContext {
    /// Call site, such as a MeTTa expression.
    pub call_site: Option<IrNode>,
    /// Name of the symbol being filtered.
    pub symbol_name: String,
    /// Language being filtered.
    pub language: String,
    /// The resolution request.
    pub resolution_context: ResolutionContext,
}

/// The value of a filtering context, with its strings as character sequences.
pub struct FilterContextView {
    pub call_site: Option<IrNode>,
    pub symbol_name: Seq<char>,
    pub language: Seq<char>,
    pub resolution_context: ResolutionContext,
}

impl View for FilterContext {
    type V = FilterContextView;

    open spec fn view(&self) -> FilterContextView {
        FilterContextView {
            call_site: self.call_site,
            symbol_name: self.symbol_name@,
            language: self.language@,
            resolution_context: self.resolution_context,
        }
    }
}

/// A copy of an optional IR node that shares the node it holds.
pub fn copy_ir_node(o: &Option<IrNode>) -> (r: Option<IrNode>)
    ensures
        r == *o,
{
    match o {
        Some(IrNode::Rholang(n)) => Some(IrNode::Rholang(share(n))),
        Some(IrNode::Metta(n)) => Some(IrNode::Metta(share(n))),
        None => None,
    }
}

/// A copy of a resolution request.
pub fn copy_resolution_context(c: &ResolutionContext) -> (r: ResolutionContext)
    ensures
        r == *c,
{
    let parent_uri = match &c.parent_uri {
        Some(p) => Some(p.clone()),
        None => None,
    };
    ResolutionContext {
        uri: c.uri.clone(),
        scope_id: c.scope_id,
        ir_node: copy_ir_node(&c.ir_node),
        language: c.language.clone(),
        parent_uri,
    }
}

/// Finds definitions of symbols.
///
/// An implementation that defines `keeps_spec` as true promises that its
/// methods answer as `resolution_of` and `language_supported` say; one that
/// leaves the defaults promises nothing.
pub trait SymbolResolver {
    /// Whether this resolver answers as its spec functions say.
    open spec fn keeps_spec(&self) -> bool {
        false
    }

    /// The locations this resolver gives for a request.
    open spec fn resolution_of(&self, symbol_name: Seq<char>, position: Position, context: ResolutionContext) -> Seq<SymbolLocationView> {
        Seq::empty()
    }

    /// Whether this resolver handles a language.
    open spec fn language_supported(&self, language: Seq<char>) -> bool {
        false
    }

    /// Locations that may define `symbol_name` referenced at `position`, best first.
    fn resolve_symbol(
        &self,
        symbol_name: &str,
        position: &Position,
        context: &ResolutionContext,
    ) -> (r: Vec<SymbolLocation>)
        ensures
            self.keeps_spec() ==> locations_view(r@) == self.resolution_of(symbol_name@, *position, *context),
    ;

    /// Whether this resolver handles `language`.
    fn supports_language(&self, language: &str) -> (b: bool)
        ensures
            self.keeps_spec() ==> b == self.language_supported(language@),
    ;

    /// A display name for this resolver.
    fn name(&self) -> &'static str {
        "SymbolResolver"
    }
}

/// Refines the candidates of a resolver.
///
/// An implementation that defines `keeps_spec` as true promises that its
/// methods answer as `filtering` and `applies_to` say; one that leaves the
/// defaults promises nothing.
pub trait SymbolFilter {
    /// Whether this filter answers as its spec functions say.
    open spec fn keeps_spec(&self) -> bool {
        false
    }

    /// The filter's answer on candidates: `Some(refined)`, or `None` to pass
    /// them through.
    open spec fn filtering(&self, candidates: Seq<SymbolLocationView>, context: FilterContextView) -> Option<Seq<SymbolLocationView>> {
        None
    }

    /// Whether this filter applies to a language.
    open spec fn applies_to(&self, language: Seq<char>) -> bool {
        false
    }

    /// `Some(refined)` to apply the filter, `None` to pass the candidates through.
    fn filter(&self, candidates: Vec<SymbolLocation>, context: &FilterContext) -> (r: Option<Vec<SymbolLocation>>)
        ensures
            self.keeps_spec() ==> match r {
                Some(v) => self.filtering(locations_view(candidates@), context@) == Some(locations_view(v@)),
                None => self.filtering(locations_view(candidates@), context@) is None,
            },
    ;

    /// Whether this filter applies to `language`.
    fn applies_to_language(&self, language: &str) -> (b: bool)
        ensures
            self.keeps_spec() ==> b == self.applies_to(language@),
    ;

    /// A display name for this filter.
    fn name(&self) -> &'static str {
        "SymbolFilter"
    }
}

/// Whether every filter of `filters` answers as its spec functions say.
pub open spec fn filters_keep_spec(filters: Seq<Box<dyn SymbolFilter>>) -> bool {
    forall|i: int| 0 <= i < filters.len() ==> #[trigger] filters[i].keeps_spec()
}

/// A resolver with its own, non-lexical scoping.
pub trait CustomScopeResolver: SymbolResolver {
    /// Locations found by the language's own scoping rules.
    fn resolve_with_custom_scope(&self, symbol_name: &str, context: &ResolutionContext) -> Vec<SymbolLocation>;
}

/// Whether two strings are equal.
pub fn str_equal(a: &str, b: &str) -> (r: bool)
    ensures
        r == (a@ == b@),
{
    let n = a.unicode_len();
    if n != b.unicode_len() {
        return false;
    }
    let mut i: usize = 0;
    while i < n
        invariant
            n == a@.len(),
            n == b@.len(),
            i <= n,
            forall|j: int| 0 <= j < i ==> a@[j] == b@[j],
        decreases n - i,
    {
        if a.get_char(i) != b.get_char(i) {
            return false;
        }
        i += 1;
    }
    assert(a@ =~= b@);
    true
}

} // verus!
