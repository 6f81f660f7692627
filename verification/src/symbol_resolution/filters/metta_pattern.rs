//! Filtering MeTTa candidates by the name and arity of the call site.
use std::sync::Arc;
use vstd::prelude::*;
use crate::symbol_resolution::types::{
    copy_location, locations_view, str_equal, FilterContext, FilterContextView, IrNode, MettaNode, SymbolFilter,
    SymbolLocation, SymbolLocationView,
};

verus! {

/// A MeTTa definition known to the pattern matcher: its name, its number of
/// parameters and where it stands.
pub struct MettaPatternDefinition {
    pub name: String,
    pub arity: usize,
    pub location: SymbolLocation,
}

/// The value of a definition: name, arity and location.
pub open spec fn definition_view(d: MettaPatternDefinition) -> (Seq<char>, usize, SymbolLocationView) {
    (d.name@, d.arity, d.location@)
}

/// The values of a sequence of definitions.
pub open spec fn definitions_view(s: Seq<MettaPatternDefinition>) -> Seq<(Seq<char>, usize, SymbolLocationView)> {
    s.map_values(|d: MettaPatternDefinition| definition_view(d))
}

/// The definitions known to a MeTTa pattern matcher, in the order they were added.
pub struct MettaPatternMatcher {
    definitions: Vec<MettaPatternDefinition>,
}

impl MettaPatternMatcher {
    /// The known definitions.
    pub closed spec fn definitions(&self) -> Seq<MettaPatternDefinition> {
        self.definitions@
    }

    /// A matcher that knows no definition.
    pub fn new() -> (m: Self)
        ensures
            m.definitions().len() == 0,
    {
        MettaPatternMatcher { definitions: Vec::new() }
    }

    /// Records a definition.
    pub fn add_definition(&mut self, definition: MettaPatternDefinition)
        ensures
            final(self).definitions() == old(self).definitions().push(definition),
    {
        self.definitions.push(definition);
    }

    /// Copies of the definitions named `name`, in order.
    pub fn get_definitions_by_name(&self, name: &str) -> (r: Vec<MettaPatternDefinition>)
        ensures
            definitions_view(r@) == definitions_view(self.definitions()).filter(
                |t: (Seq<char>, usize, SymbolLocationView)| t.0 == name@,
            ),
    {
        let ghost pred = |t: (Seq<char>, usize, SymbolLocationView)| t.0 == name@;
        let mut r: Vec<MettaPatternDefinition> = Vec::new();
        let mut i: usize = 0;
        while i < self.definitions.len()
            invariant
                i <= self.definitions@.len(),
                pred == (|t: (Seq<char>, usize, SymbolLocationView)| t.0 == name@),
                definitions_view(r@) == definitions_view(self.definitions@.take(i as int)).filter(pred),
            decreases self.definitions@.len() - i,
        {
            let d = &self.definitions[i];
            proof {
                assert(definitions_view(self.definitions@.take(i + 1)) =~= definitions_view(
                    self.definitions@.take(i as int),
                ).push(definition_view(*d)));
                definitions_view(self.definitions@.take(i as int)).lemma_filter_push(definition_view(*d), pred);
            }
            if str_equal(d.name.as_str(), name) {
                let c = MettaPatternDefinition {
                    name: d.name.clone(),
                    arity: d.arity,
                    location: copy_location(&d.location),
                };
                let ghost before = r@;
                r.push(c);
                assert(definitions_view(r@) =~= definitions_view(before).push(definition_view(*d)));
            }
            i += 1;
        }
        assert(self.definitions@.take(self.definitions@.len() as int) =~= self.definitions@);
        r
    }

    /// Whether some definition is named `name`.
    pub fn has_definition(&self, name: &str) -> (b: bool)
        ensures
            b == exists|i: int| 0 <= i < self.definitions().len() && #[trigger] self.definitions()[i].name@ == name@,
    {
        let mut i: usize = 0;
        while i < self.definitions.len()
            invariant
                i <= self.definitions@.len(),
                forall|j: int| 0 <= j < i ==> #[trigger] self.definitions@[j].name@ != name@,
            decreases self.definitions@.len() - i,
        {
            if str_equal(self.definitions[i].name.as_str(), name) {
                return true;
            }
            i += 1;
        }
        false
    }

    /// Whether some definition has this name, this arity and this range.
    pub fn has_matching_definition(&self, name: &str, arity: usize, range: crate::symbol_resolution::types::Range) -> (b: bool)
        ensures
            b == matches_call(self.definitions(), name@, arity, range),
    {
        let mut i: usize = 0;
        while i < self.definitions.len()
            invariant
                i <= self.definitions@.len(),
                forall|j: int| 0 <= j < i ==> !definition_matches(#[trigger] self.definitions@[j], name@, arity, range),
            decreases self.definitions@.len() - i,
        {
            let d = &self.definitions[i];
            if d.arity == arity && d.location.range == range && str_equal(d.name.as_str(), name) {
                return true;
            }
            i += 1;
        }
        false
    }
}

/// Whether a definition has this name, this arity and this range.
pub open spec fn definition_matches(d: MettaPatternDefinition, name: Seq<char>, arity: usize, range: crate::symbol_resolution::types::Range) -> bool {
    d.name@ == name && d.arity == arity && d.location.range == range
}

/// Whether some definition matches a call of `name` with `arity` arguments at `range`.
pub open spec fn matches_call(defs: Seq<MettaPatternDefinition>, name: Seq<char>, arity: usize, range: crate::symbol_resolution::types::Range) -> bool {
    exists|i: int| 0 <= i < defs.len() && definition_matches(#[trigger] defs[i], name, arity, range)
}

/// The name and arity of a call site: a MeTTa expression whose head is an atom.
pub open spec fn call_info(site: IrNode) -> Option<(Seq<char>, int)> {
    match site {
        IrNode::Metta(m) => match *m {
            MettaNode::SExpr { elements } => if elements.len() > 0 {
                match *elements[0] {
                    MettaNode::Atom { name } => Some((name@, elements.len() - 1)),
                    _ => None,
                }
            } else {
                None
            },
            _ => None,
        },
        _ => None,
    }
}

/// The candidates that match a call of `name` with `arity` arguments.
pub open spec fn matching_candidates(
    defs: Seq<MettaPatternDefinition>,
    name: Seq<char>,
    arity: usize,
    candidates: Seq<SymbolLocationView>,
) -> Seq<SymbolLocationView> {
    candidates.filter(|l: SymbolLocationView| matches_call(defs, name, arity, l.range))
}

/// Keeps the candidates whose definition matches the call site's name and
/// arity. Passes through when the call site says nothing; returns the
/// candidates unfiltered when the name has no known definition; passes
/// through when nothing matches.
pub struct MettaPatternFilter {
    pattern_matcher: Arc<MettaPatternMatcher>,
}

impl MettaPatternFilter {
    /// The matcher that the filter consults.
    pub closed spec fn matcher(&self) -> MettaPatternMatcher {
        *self.pattern_matcher
    }

    /// A filter that consults `pattern_matcher`.
    pub fn new(pattern_matcher: Arc<MettaPatternMatcher>) -> (f: Self)
        ensures
            f.matcher() == *pattern_matcher,
    {
        MettaPatternFilter { pattern_matcher }
    }

    /// The head name and argument count of a MeTTa call site.
    pub fn extract_call_info(&self, call_site: &IrNode) -> (r: Option<(String, usize)>)
        ensures
            match r {
                Some((name, arity)) => call_info(*call_site) == Some((name@, arity as int)),
                None => call_info(*call_site) is None,
            },
    {
        match call_site {
            IrNode::Metta(m) => match &**m {
                MettaNode::SExpr { elements } => {
                    if elements.len() > 0 {
                        match &*elements[0] {
                            MettaNode::Atom { name } => Some((name.clone(), elements.len() - 1)),
                            _ => None,
                        }
                    } else {
                        None
                    }
                },
                _ => None,
            },
            _ => None,
        }
    }

    /// The filter's answer on `candidates` in `context`.
    pub fn filter_candidates(&self, candidates: Vec<SymbolLocation>, context: &FilterContext) -> (r: Option<Vec<SymbolLocation>>)
        ensures
            match context.call_site {
                None => r is None,
                Some(site) => match call_info(site) {
                    None => r is None,
                    Some((name, arity)) => {
                        let defs = self.matcher().definitions();
                        if !(exists|i: int| 0 <= i < defs.len() && #[trigger] defs[i].name@ == name) {
                            r == Some(candidates)
                        } else {
                            let kept = matching_candidates(defs, name, arity as usize, locations_view(candidates@));
                            if kept.len() == 0 {
                                r is None
                            } else {
                                r is Some && locations_view(r->0@) == kept
                            }
                        }
                    },
                },
            },
    {
        let site = match &context.call_site {
            Some(s) => s,
            None => return None,
        };
        let (name, arity) = match self.extract_call_info(site) {
            Some(info) => info,
            None => return None,
        };
        if !self.pattern_matcher.has_definition(name.as_str()) {
            return Some(candidates);
        }
        let ghost defs = self.matcher().definitions();
        let ghost pred = |l: SymbolLocationView| matches_call(defs, name@, arity, l.range);
        let mut kept: Vec<SymbolLocation> = Vec::new();
        let mut i: usize = 0;
        while i < candidates.len()
            invariant
                i <= candidates@.len(),
                defs == self.matcher().definitions(),
                pred == (|l: SymbolLocationView| matches_call(defs, name@, arity, l.range)),
                locations_view(kept@) == locations_view(candidates@.take(i as int)).filter(pred),
            decreases candidates@.len() - i,
        {
            let c = &candidates[i];
            proof {
                assert(locations_view(candidates@.take(i + 1)) =~= locations_view(candidates@.take(i as int)).push(c@));
                locations_view(candidates@.take(i as int)).lemma_filter_push(c@, pred);
            }
            if self.pattern_matcher.has_matching_definition(name.as_str(), arity, c.range) {
                let ghost before = kept@;
                kept.push(copy_location(c));
                assert(locations_view(kept@) =~= locations_view(before).push(c@));
            }
            i += 1;
        }
        assert(candidates@.take(candidates@.len() as int) =~= candidates@);
        if kept.len() == 0 {
            None
        } else {
            Some(kept)
        }
    }
}

impl SymbolFilter for MettaPatternFilter {
    /// This filter answers as its spec functions say.
    open spec fn keeps_spec(&self) -> bool {
        true
    }

    /// Nothing without a MeTTa call site; the candidates unchanged when no
    /// definition has the called name; otherwise the candidates whose
    /// definition has the call's arity, or nothing when none has.
    closed spec fn filtering(&self, candidates: Seq<SymbolLocationView>, context: FilterContextView) -> Option<Seq<SymbolLocationView>> {
        match context.call_site {
            None => None,
            Some(site) => match call_info(site) {
                None => None,
                Some((name, arity)) => {
                    let defs = self.matcher().definitions();
                    if !(exists|i: int| 0 <= i < defs.len() && #[trigger] defs[i].name@ == name) {
                        Some(candidates)
                    } else {
                        let kept = matching_candidates(defs, name, arity as usize, candidates);
                        if kept.len() == 0 {
                            None
                        } else {
                            Some(kept)
                        }
                    }
                },
            },
        }
    }

    /// Only MeTTa.
    closed spec fn applies_to(&self, language: Seq<char>) -> bool {
        language == "metta"@
    }

    fn filter(&self, candidates: Vec<SymbolLocation>, context: &FilterContext) -> (r: Option<Vec<SymbolLocation>>)
        ensures
            match context.call_site {
                None => r is None,
                Some(site) => match call_info(site) {
                    None => r is None,
                    Some((name, arity)) => {
                        let defs = self.matcher().definitions();
                        if !(exists|i: int| 0 <= i < defs.len() && #[trigger] defs[i].name@ == name) {
                            r == Some(candidates)
                        } else {
                            let kept = matching_candidates(defs, name, arity as usize, locations_view(candidates@));
                            if kept.len() == 0 {
                                r is None
                            } else {
                                r is Some && locations_view(r->0@) == kept
                            }
                        }
                    },
                },
            },
    {
        self.filter_candidates(candidates, context)
    }

    fn applies_to_language(&self, language: &str) -> (b: bool)
        ensures
            b == (language@ == "metta"@),
    {
        str_equal(language, "metta")
    }

    fn name(&self) -> (r: &'static str)
        ensures
            r@ == "MettaPatternFilter"@,
    {
        "MettaPatternFilter"
    }
}

} // verus!
