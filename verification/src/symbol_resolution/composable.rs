//! A resolver made of a base resolver, filters that refine its candidates,
//! and a fallback resolver consulted when the base finds nothing.
use vstd::prelude::*;
use crate::semantic_node::Position;
use crate::symbol_resolution::types::{
    copy_ir_node, copy_locations, filters_keep_spec, copy_resolution_context, locations_view, FilterContext,
    FilterContextView, ResolutionContext, SymbolFilter, SymbolLocation, SymbolLocationView,
    SymbolResolver,
};

verus! {

/// What one filtering step leaves: the candidates to go on with, or the
/// decision to return the unfiltered candidates.
pub enum FilterStep {
    /// Go on with these candidates.
    Continue(Vec<SymbolLocation>),
    /// A filter removed every candidate: return the unfiltered ones.
    Fallback,
}

/// The step taken on the answer of one filter: no answer keeps the current
/// candidates, a non-empty answer replaces them, an empty answer falls back.
pub fn filter_step(current: Vec<SymbolLocation>, answer: Option<Vec<SymbolLocation>>) -> (r: FilterStep)
    ensures
        match answer {
            None => r == FilterStep::Continue(current),
            Some(f) => if f@.len() > 0 {
                r == FilterStep::Continue(f)
            } else {
                r == FilterStep::Fallback
            },
        },
{
    match answer {
        None => FilterStep::Continue(current),
        Some(f) => {
            if f.len() > 0 {
                FilterStep::Continue(f)
            } else {
                FilterStep::Fallback
            }
        },
    }
}

/// The candidates left by the filters from the one at `i` on: each filter
/// that applies to the context's language is asked in turn; no answer keeps
/// the current candidates, a non-empty answer replaces them, and an empty
/// answer ends the flow with the unfiltered `candidates`.
pub open spec fn filters_from(
    filters: Seq<Box<dyn SymbolFilter>>,
    i: int,
    current: Seq<SymbolLocationView>,
    candidates: Seq<SymbolLocationView>,
    context: FilterContextView,
) -> Seq<SymbolLocationView>
    decreases filters.len() - i,
{
    if i < 0 || i >= filters.len() {
        current
    } else if filters[i].applies_to(context.language) {
        match filters[i].filtering(current, context) {
            Some(f) => if f.len() > 0 {
                filters_from(filters, i + 1, f, candidates, context)
            } else {
                candidates
            },
            None => filters_from(filters, i + 1, current, candidates, context),
        }
    } else {
        filters_from(filters, i + 1, current, candidates, context)
    }
}

/// The candidates after all the filters: empty candidates stay as they are.
pub open spec fn filtered_candidates(
    filters: Seq<Box<dyn SymbolFilter>>,
    candidates: Seq<SymbolLocationView>,
    context: FilterContextView,
) -> Seq<SymbolLocationView> {
    if candidates.len() == 0 {
        candidates
    } else {
        filters_from(filters, 0, candidates, candidates, context)
    }
}

/// The filtering context made for a resolution request: the request's node
/// as call site, the symbol's name, the request's language and the request.
pub open spec fn filter_context_of(symbol_name: Seq<char>, context: ResolutionContext) -> FilterContextView {
    FilterContextView {
        call_site: context.ir_node,
        symbol_name: symbol_name,
        language: context.language@,
        resolution_context: context,
    }
}

/// Resolution flow: the base resolver finds candidates; each filter that
/// applies to the language refines them; an empty refinement falls back to
/// the unfiltered candidates; when the base finds nothing the fallback
/// resolver, if any, answers.
pub struct ComposableSymbolResolver {
    base_resolver: Box<dyn SymbolResolver>,
    filters: Vec<Box<dyn SymbolFilter>>,
    fallback_resolver: Option<Box<dyn SymbolResolver>>,
}

impl ComposableSymbolResolver {
    /// A resolver from its base resolver, its filters and its fallback.
    pub fn new(
        base_resolver: Box<dyn SymbolResolver>,
        filters: Vec<Box<dyn SymbolFilter>>,
        fallback_resolver: Option<Box<dyn SymbolResolver>>,
    ) -> (r: Self)
        ensures
            r.filter_count() == filters@.len(),
            r.has_fallback() == fallback_resolver.is_some(),
            r.filter_list() == filters@,
    {
        ComposableSymbolResolver { base_resolver, filters, fallback_resolver }
    }

    /// Number of filters.
    pub closed spec fn filter_count(&self) -> nat {
        self.filters@.len()
    }

    /// The filters, in order.
    pub closed spec fn filter_list(&self) -> Seq<Box<dyn SymbolFilter>> {
        self.filters@
    }

    /// Whether a fallback resolver is configured.
    pub closed spec fn has_fallback(&self) -> bool {
        self.fallback_resolver.is_some()
    }

    /// Applies the filters in order. Empty candidates come back unchanged;
    /// non-empty candidates never come back empty; with no filter the
    /// candidates come back as they were.
    pub fn apply_filters(&self, candidates: Vec<SymbolLocation>, filter_context: &FilterContext) -> (r: Vec<SymbolLocation>)
        ensures
            candidates@.len() == 0 ==> r == candidates,
            candidates@.len() > 0 ==> r@.len() > 0,
            self.filter_count() == 0 ==> locations_view(r@) == locations_view(candidates@),
            filters_keep_spec(self.filter_list()) ==> locations_view(r@) == filtered_candidates(
                self.filter_list(),
                locations_view(candidates@),
                filter_context@,
            ),
    {
        if candidates.len() == 0 {
            return candidates;
        }
        let ghost cv = locations_view(candidates@);
        let mut current = copy_locations(&candidates);
        let mut i: usize = 0;
        while i < self.filters.len()
            invariant
                i <= self.filters@.len(),
                current@.len() > 0,
                candidates@.len() > 0,
                cv == locations_view(candidates@),
                i == 0 ==> locations_view(current@) == locations_view(candidates@),
                filters_keep_spec(self.filters@) ==> filters_from(self.filters@, 0, cv, cv, filter_context@)
                    == filters_from(self.filters@, i as int, locations_view(current@), cv, filter_context@),
            decreases self.filters@.len() - i,
        {
            let filter = &self.filters[i];
            if filter.applies_to_language(filter_context.language.as_str()) {
                let offered = copy_locations(&current);
                let answer = filter.filter(offered, filter_context);
                match filter_step(current, answer) {
                    FilterStep::Continue(next) => {
                        current = next;
                    },
                    FilterStep::Fallback => {
                        return candidates;
                    },
                }
            }
            i += 1;
        }
        current
    }
}

impl SymbolResolver for ComposableSymbolResolver {
    /// The composition answers as its spec functions say when its base
    /// resolver, each filter and its fallback do.
    closed spec fn keeps_spec(&self) -> bool {
        &&& self.base_resolver.keeps_spec()
        &&& filters_keep_spec(self.filters@)
        &&& match self.fallback_resolver {
            Some(f) => f.keeps_spec(),
            None => true,
        }
    }

    /// The base resolver's candidates after the filters when there are
    /// some; otherwise the fallback's answer, or nothing.
    closed spec fn resolution_of(&self, symbol_name: Seq<char>, position: Position, context: ResolutionContext) -> Seq<SymbolLocationView> {
        let base = self.base_resolver.resolution_of(symbol_name, position, context);
        if base.len() > 0 {
            filtered_candidates(self.filters@, base, filter_context_of(symbol_name, context))
        } else {
            match self.fallback_resolver {
                Some(f) => f.resolution_of(symbol_name, position, context),
                None => Seq::empty(),
            }
        }
    }

    /// The base resolver's languages and the fallback's.
    closed spec fn language_supported(&self, language: Seq<char>) -> bool {
        self.base_resolver.language_supported(language) || match self.fallback_resolver {
            Some(f) => f.language_supported(language),
            None => false,
        }
    }

    fn resolve_symbol(&self, symbol_name: &str, position: &Position, context: &ResolutionContext) -> Vec<SymbolLocation> {
        let base_candidates = self.base_resolver.resolve_symbol(symbol_name, position, context);
        if base_candidates.len() > 0 {
            proof {
                broadcast use vstd::string::group_string_axioms;
            }
            let filter_context = FilterContext {
                call_site: copy_ir_node(&context.ir_node),
                symbol_name: symbol_name.to_string(),
                language: context.language.clone(),
                resolution_context: copy_resolution_context(context),
            };
            return self.apply_filters(base_candidates, &filter_context);
        }
        match &self.fallback_resolver {
            Some(fallback) => fallback.resolve_symbol(symbol_name, position, context),
            None => {
                let r: Vec<SymbolLocation> = Vec::new();
                assert(locations_view(r@) =~= Seq::<SymbolLocationView>::empty());
                r
            },
        }
    }

    fn supports_language(&self, language: &str) -> bool {
        if self.base_resolver.supports_language(language) {
            return true;
        }
        match &self.fallback_resolver {
            Some(fallback) => fallback.supports_language(language),
            None => false,
        }
    }

    fn name(&self) -> (r: &'static str)
        ensures
            r@ == "ComposableSymbolResolver"@,
    {
        "ComposableSymbolResolver"
    }
}

} // verus!
