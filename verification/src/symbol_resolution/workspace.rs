//! The workspace-wide index of symbols, per language and per name.
use vstd::prelude::*;
use crate::symbol_resolution::types::{
    str_equal, Range, ResolutionConfidence, SymbolKind, SymbolLocation, SymbolLocationView,
};

verus! {

/// The places where one name is declared or defined: document URI and range.
pub struct SymbolEntry {
    pub name: String,
    pub locations: Vec<(String, Range)>,
}

/// The symbols of one language.
pub struct LanguageSymbols {
    pub language: String,
    pub symbols: Vec<SymbolEntry>,
}

/// Workspace state that resolvers read: the global symbols of each language.
pub struct WorkspaceState {
    pub global_virtual_symbols: Vec<LanguageSymbols>,
}

impl WorkspaceState {
    /// A workspace with no symbols.
    pub fn new() -> (w: Self)
        ensures
            w.global_virtual_symbols@.len() == 0,
    {
        WorkspaceState { global_virtual_symbols: Vec::new() }
    }
}

/// Index of the first language entry named `lang`, looking from `i` on.
pub open spec fn find_language_from(ls: Seq<LanguageSymbols>, lang: Seq<char>, i: int) -> Option<int>
    decreases ls.len() - i,
{
    if i < 0 || i >= ls.len() {
        None
    } else if ls[i].language@ == lang {
        Some(i)
    } else {
        find_language_from(ls, lang, i + 1)
    }
}

/// Index of the first symbol entry named `name`, looking from `i` on.
pub open spec fn find_symbol_from(es: Seq<SymbolEntry>, name: Seq<char>, i: int) -> Option<int>
    decreases es.len() - i,
{
    if i < 0 || i >= es.len() {
        None
    } else if es[i].name@ == name {
        Some(i)
    } else {
        find_symbol_from(es, name, i + 1)
    }
}

/// The location of a global symbol, as the resolvers report it.
pub open spec fn global_location(e: (String, Range), kind: SymbolKind, confidence: ResolutionConfidence) -> SymbolLocationView {
    SymbolLocationView { uri: e.0@, range: e.1, kind, confidence }
}

/// Every location recorded for `name` in language `lang`, in order, reported
/// with the given kind and confidence.
pub open spec fn global_lookup(
    w: WorkspaceState,
    lang: Seq<char>,
    name: Seq<char>,
    kind: SymbolKind,
    confidence: ResolutionConfidence,
) -> Seq<SymbolLocationView> {
    match find_language_from(w.global_virtual_symbols@, lang, 0) {
        None => Seq::empty(),
        Some(i) => {
            let es = w.global_virtual_symbols@[i].symbols@;
            match find_symbol_from(es, name, 0) {
                None => Seq::empty(),
                Some(k) => es[k].locations@.map_values(|e: (String, Range)| global_location(e, kind, confidence)),
            }
        },
    }
}

/// Index of the language entry named `lang`.
pub fn find_language(ls: &Vec<LanguageSymbols>, lang: &str) -> (r: Option<usize>)
    ensures
        match r {
            Some(i) => find_language_from(ls@, lang@, 0) == Some(i as int) && i < ls@.len(),
            None => find_language_from(ls@, lang@, 0) is None,
        },
{
    let mut i: usize = 0;
    while i < ls.len()
        invariant
            i <= ls@.len(),
            find_language_from(ls@, lang@, 0) == find_language_from(ls@, lang@, i as int),
        decreases ls@.len() - i,
    {
        if str_equal(ls[i].language.as_str(), lang) {
            return Some(i);
        }
        i += 1;
    }
    None
}

/// Index of the symbol entry named `name`.
pub fn find_symbol(es: &Vec<SymbolEntry>, name: &str) -> (r: Option<usize>)
    ensures
        match r {
            Some(i) => find_symbol_from(es@, name@, 0) == Some(i as int) && i < es@.len(),
            None => find_symbol_from(es@, name@, 0) is None,
        },
{
    let mut i: usize = 0;
    while i < es.len()
        invariant
            i <= es@.len(),
            find_symbol_from(es@, name@, 0) == find_symbol_from(es@, name@, i as int),
        decreases es@.len() - i,
    {
        if str_equal(es[i].name.as_str(), name) {
            return Some(i);
        }
        i += 1;
    }
    None
}

/// Every location recorded for `name` in language `lang`, reported with the
/// given kind and confidence.
pub fn lookup_global_symbols(
    w: &WorkspaceState,
    lang: &str,
    name: &str,
    kind: SymbolKind,
    confidence: ResolutionConfidence,
) -> (r: Vec<SymbolLocation>)
    ensures
        r@.map_values(|l: SymbolLocation| l@) == global_lookup(*w, lang@, name@, kind, confidence),
{
    let mut out: Vec<SymbolLocation> = Vec::new();
    let li = match find_language(&w.global_virtual_symbols, lang) {
        Some(i) => i,
        None => {
            assert(out@.map_values(|l: SymbolLocation| l@) =~= Seq::<SymbolLocationView>::empty());
            return out;
        },
    };
    let es = &w.global_virtual_symbols[li].symbols;
    let ki = match find_symbol(es, name) {
        Some(k) => k,
        None => {
            assert(out@.map_values(|l: SymbolLocation| l@) =~= Seq::<SymbolLocationView>::empty());
            return out;
        },
    };
    let locs = &es[ki].locations;
    let mut j: usize = 0;
    while j < locs.len()
        invariant
            j <= locs@.len(),
            out@.len() == j,
            forall|t: int| 0 <= t < j ==> #[trigger] out@[t]@ == global_location(locs@[t], kind, confidence),
        decreases locs@.len() - j,
    {
        let (uri, range) = &locs[j];
        out.push(SymbolLocation {
            uri: uri.clone(),
            range: *range,
            kind,
            confidence,
        });
        j += 1;
    }
    assert(out@.map_values(|l: SymbolLocation| l@) =~= locs@.map_values(|e: (String, Range)| global_location(e, kind, confidence)));
    out
}

} // verus!
