//! A filter made of several filters applied in sequence.
use vstd::prelude::*;
use crate::symbol_resolution::types::{
    copy_locations, filters_keep_spec, locations_view, FilterContext, FilterContextView, SymbolFilter, SymbolLocation,
    SymbolLocationView,
};

verus! {

/// The chain's answer from the filter at `i` on: each filter that applies
/// to the context's language is asked in turn; no answer passes the current
/// candidates on, a non-empty answer replaces them, and an empty answer ends
/// the chain with the chain's own `input`, unfiltered. After the last
/// filter, the current candidates if some filter answered, else no answer.
pub open spec fn chain_from(
    filters: Seq<Box<dyn SymbolFilter>>,
    i: int,
    current: Seq<SymbolLocationView>,
    input: Seq<SymbolLocationView>,
    applied: bool,
    context: FilterContextView,
) -> Option<Seq<SymbolLocationView>>
    decreases filters.len() - i,
{
    if i < 0 || i >= filters.len() {
        if applied {
            Some(current)
        } else {
            None
        }
    } else if filters[i].applies_to(context.language) {
        match filters[i].filtering(current, context) {
            Some(f) => if f.len() > 0 {
                chain_from(filters, i + 1, f, input, true, context)
            } else {
                Some(input)
            },
            None => chain_from(filters, i + 1, current, input, applied, context),
        }
    } else {
        chain_from(filters, i + 1, current, input, applied, context)
    }
}

/// Whether some filter of `filters` applies to `language`.
pub open spec fn some_applies(filters: Seq<Box<dyn SymbolFilter>>, language: Seq<char>) -> bool {
    exists|i: int| 0 <= i < filters.len() && #[trigger] filters[i].applies_to(language)
}

/// Applies its filters in order, each to the output of the one before.
/// A filter that answers `None` is skipped; one that answers with no
/// candidate ends the chain with the chain's input, unfiltered.
pub struct ChainedFilter {
    filters: Vec<Box<dyn SymbolFilter>>,
}

impl ChainedFilter {
    /// A chain of the given filters.
    pub fn new(filters: Vec<Box<dyn SymbolFilter>>) -> (r: Self)
        ensures
            r.filter_count() == filters@.len(),
            r.filter_list() == filters@,
    {
        ChainedFilter { filters }
    }

    /// Number of filters in the chain.
    pub closed spec fn filter_count(&self) -> nat {
        self.filters@.len()
    }

    /// The filters of the chain, in order.
    pub closed spec fn filter_list(&self) -> Seq<Box<dyn SymbolFilter>> {
        self.filters@
    }

    /// The chain's answer: `None` when no filter applied; otherwise the
    /// candidates as the applied filters left them. Non-empty candidates
    /// never come back empty.
    pub fn filter_candidates(&self, candidates: Vec<SymbolLocation>, context: &FilterContext) -> (r: Option<Vec<SymbolLocation>>)
        ensures
            filters_keep_spec(self.filter_list()) ==> match r {
                Some(v) => chain_from(self.filter_list(), 0, locations_view(candidates@), locations_view(candidates@), false, context@)
                    == Some(locations_view(v@)),
                None => chain_from(self.filter_list(), 0, locations_view(candidates@), locations_view(candidates@), false, context@) is None,
            },
            self.filter_count() == 0 ==> r is None,
            candidates@.len() > 0 && r is Some ==> r->0@.len() > 0,
    {
        if self.filters.len() == 0 {
            return None;
        }
        let ghost nonempty = candidates@.len() > 0;
        let ghost input = locations_view(candidates@);
        let ghost whole = chain_from(self.filters@, 0, input, input, false, context@);
        let original = copy_locations(&candidates);
        let mut current = candidates;
        let mut applied_any = false;
        let mut i: usize = 0;
        while i < self.filters.len()
            invariant
                i <= self.filters@.len(),
                nonempty == (candidates@.len() > 0),
                nonempty ==> current@.len() > 0,
                input == locations_view(candidates@),
                locations_view(original@) == input,
                nonempty ==> original@.len() > 0,
                whole == chain_from(self.filters@, 0, input, input, false, context@),
                filters_keep_spec(self.filters@) ==> whole == chain_from(
                    self.filters@,
                    i as int,
                    locations_view(current@),
                    input,
                    applied_any,
                    context@,
                ),
            decreases self.filters@.len() - i,
        {
            let filter = &self.filters[i];
            if filter.applies_to_language(context.language.as_str()) {
                let offered = copy_locations(&current);
                match filter.filter(offered, context) {
                    Some(filtered) => {
                        if filtered.len() > 0 {
                            current = filtered;
                            applied_any = true;
                        } else {
                            return Some(original);
                        }
                    },
                    None => {},
                }
            }
            i += 1;
        }
        if applied_any {
            Some(current)
        } else {
            None
        }
    }
}

impl SymbolFilter for ChainedFilter {
    /// The chain answers as its spec functions say when each of its filters does.
    open spec fn keeps_spec(&self) -> bool {
        filters_keep_spec(self.filter_list())
    }

    /// The chain's answer from its first filter on.
    closed spec fn filtering(&self, candidates: Seq<SymbolLocationView>, context: FilterContextView) -> Option<Seq<SymbolLocationView>> {
        chain_from(self.filters@, 0, candidates, candidates, false, context)
    }

    /// Whether some filter of the chain applies.
    closed spec fn applies_to(&self, language: Seq<char>) -> bool {
        some_applies(self.filters@, language)
    }

    fn filter(&self, candidates: Vec<SymbolLocation>, context: &FilterContext) -> (r: Option<Vec<SymbolLocation>>)
        ensures
            self.filter_count() == 0 ==> r is None,
            candidates@.len() > 0 && r is Some ==> r->0@.len() > 0,
    {
        self.filter_candidates(candidates, context)
    }

    fn applies_to_language(&self, language: &str) -> (b: bool)
        ensures
            filters_keep_spec(self.filter_list()) ==> b == some_applies(self.filter_list(), language@),
    {
        let mut i: usize = 0;
        while i < self.filters.len()
            invariant
                i <= self.filters@.len(),
                filters_keep_spec(self.filters@) ==> forall|j: int|
                    0 <= j < i ==> !(#[trigger] self.filters@[j].applies_to(language@)),
            decreases self.filters@.len() - i,
        {
            if self.filters[i].applies_to_language(language) {
                return true;
            }
            i += 1;
        }
        false
    }

    fn name(&self) -> (r: &'static str)
        ensures
            r@ == "ChainedFilter"@,
    {
        "ChainedFilter"
    }
}

} // verus!
