//! Lexical scoping: a name resolves to its definitions in the scope of the
//! reference and in each enclosing scope, nearest first.
use std::sync::Arc;
use vstd::prelude::*;
use crate::semantic_node::Position;
use crate::symbol_resolution::types::{
    str_equal, LspPosition, Range, ResolutionConfidence, ResolutionContext, SymbolKind,
    SymbolLocation, SymbolLocationView, SymbolResolver,
};

verus! {

/// Kind of a MeTTa symbol occurrence.
#[derive(Debug, Clone, Copy, PartialEq, Eq, Structural)]
pub enum MettaSymbolKind {
    Variable,
    Definition,
    Parameter,
    LetBinding,
    MatchPattern,
}

/// One occurrence of a MeTTa symbol.
#[derive(Debug, Clone, Copy, PartialEq, Eq, Structural)]
pub struct MettaOccurrence {
    pub range: Range,
    pub kind: MettaSymbolKind,
    pub is_definition: bool,
    pub scope_id: usize,
}

/// The occurrences of one name in one scope.
pub struct ScopeSymbol {
    pub name: String,
    pub occurrences: Vec<MettaOccurrence>,
}

/// A scope: its enclosing scope, if any, and the names that occur in it.
pub struct MettaScope {
    pub parent_id: Option<usize>,
    pub symbols: Vec<ScopeSymbol>,
}

/// The scopes and symbol occurrences of one MeTTa document.
pub struct MettaSymbolTable {
    pub uri: String,
    pub scopes: Vec<MettaScope>,
    pub occurrences: Vec<MettaOccurrence>,
}

/// Whether `(line, character)` lies between the two ends of `r`, both included.
pub open spec fn range_contains(r: Range, p: LspPosition) -> bool {
    &&& (r.start.line < p.line || (r.start.line == p.line && r.start.character <= p.character))
    &&& (p.line < r.end.line || (p.line == r.end.line && p.character <= r.end.character))
}

/// Index of the first occurrence whose range holds `p`, looking from `i` on.
pub open spec fn occurrence_at_from(occs: Seq<MettaOccurrence>, p: LspPosition, i: int) -> Option<int>
    decreases occs.len() - i,
{
    if i < 0 || i >= occs.len() {
        None
    } else if range_contains(occs[i].range, p) {
        Some(i)
    } else {
        occurrence_at_from(occs, p, i + 1)
    }
}

/// Index of the first entry of a scope named `name`, looking from `i` on.
pub open spec fn scope_symbol_from(ss: Seq<ScopeSymbol>, name: Seq<char>, i: int) -> Option<int>
    decreases ss.len() - i,
{
    if i < 0 || i >= ss.len() {
        None
    } else if ss[i].name@ == name {
        Some(i)
    } else {
        scope_symbol_from(ss, name, i + 1)
    }
}

/// The resolution kind of a MeTTa symbol kind.
pub open spec fn resolution_kind(k: MettaSymbolKind) -> SymbolKind {
    match k {
        MettaSymbolKind::Variable => SymbolKind::Variable,
        MettaSymbolKind::Definition => SymbolKind::Function,
        MettaSymbolKind::Parameter => SymbolKind::Parameter,
        MettaSymbolKind::LetBinding => SymbolKind::Variable,
        MettaSymbolKind::MatchPattern => SymbolKind::Variable,
    }
}

/// The location of a defining occurrence in document `uri`.
pub open spec fn occurrence_location(uri: Seq<char>, o: MettaOccurrence) -> SymbolLocationView {
    SymbolLocationView { uri, range: o.range, kind: resolution_kind(o.kind), confidence: ResolutionConfidence::Exact }
}

/// The locations of the defining occurrences among `occs`, in order.
pub open spec fn definitions_among(uri: Seq<char>, occs: Seq<MettaOccurrence>) -> Seq<SymbolLocationView>
    decreases occs.len(),
{
    if occs.len() == 0 {
        Seq::empty()
    } else {
        let before = definitions_among(uri, occs.drop_last());
        if occs.last().is_definition {
            before.push(occurrence_location(uri, occs.last()))
        } else {
            before
        }
    }
}

/// The definitions of `name` in scope `sid`.
pub open spec fn scope_definitions(t: MettaSymbolTable, name: Seq<char>, sid: int) -> Seq<SymbolLocationView> {
    let ss = t.scopes@[sid].symbols@;
    match scope_symbol_from(ss, name, 0) {
        None => Seq::empty(),
        Some(k) => definitions_among(t.uri@, ss[k].occurrences@),
    }
}

/// The definitions of `name` in scope `sid` and in the scopes that enclose
/// it, nearest first, visiting at most `fuel` scopes.
pub open spec fn chain_definitions(t: MettaSymbolTable, name: Seq<char>, sid: int, fuel: nat) -> Seq<SymbolLocationView>
    decreases fuel,
{
    if fuel == 0 || sid < 0 || sid >= t.scopes@.len() {
        Seq::empty()
    } else {
        let here = scope_definitions(t, name, sid);
        match t.scopes@[sid].parent_id {
            None => here,
            Some(p) => here + chain_definitions(t, name, p as int, (fuel - 1) as nat),
        }
    }
}

impl MettaSymbolTable {
    /// The first occurrence whose range holds `position`.
    pub fn find_symbol_at_position(&self, position: &LspPosition) -> (r: Option<MettaOccurrence>)
        ensures
            match occurrence_at_from(self.occurrences@, *position, 0) {
                Some(i) => r == Some(self.occurrences@[i]),
                None => r is None,
            },
    {
        let mut i: usize = 0;
        while i < self.occurrences.len()
            invariant
                i <= self.occurrences@.len(),
                occurrence_at_from(self.occurrences@, *position, 0) == occurrence_at_from(
                    self.occurrences@,
                    *position,
                    i as int,
                ),
            decreases self.occurrences@.len() - i,
        {
            let o = self.occurrences[i];
            let r = o.range;
            let after_start = r.start.line < position.line || (r.start.line == position.line
                && r.start.character <= position.character);
            let before_end = position.line < r.end.line || (position.line == r.end.line
                && position.character <= r.end.character);
            if after_start && before_end {
                return Some(o);
            }
            i += 1;
        }
        None
    }
}

/// Index of the entry of `ss` named `name`.
fn find_scope_symbol(ss: &Vec<ScopeSymbol>, name: &str) -> (r: Option<usize>)
    ensures
        match r {
            Some(k) => scope_symbol_from(ss@, name@, 0) == Some(k as int) && k < ss@.len(),
            None => scope_symbol_from(ss@, name@, 0) is None,
        },
{
    let mut i: usize = 0;
    while i < ss.len()
        invariant
            i <= ss@.len(),
            scope_symbol_from(ss@, name@, 0) == scope_symbol_from(ss@, name@, i as int),
        decreases ss@.len() - i,
    {
        if str_equal(ss[i].name.as_str(), name) {
            return Some(i);
        }
        i += 1;
    }
    None
}

/// Appends the locations of the defining occurrences among `occs`.
fn push_definitions(out: &mut Vec<SymbolLocation>, uri: &String, occs: &Vec<MettaOccurrence>)
    ensures
        final(out)@.map_values(|l: SymbolLocation| l@) == old(out)@.map_values(|l: SymbolLocation| l@)
            + definitions_among(uri@, occs@),
{
    let ghost start = out@.map_values(|l: SymbolLocation| l@);
    let mut j: usize = 0;
    while j < occs.len()
        invariant
            j <= occs@.len(),
            out@.map_values(|l: SymbolLocation| l@) == start + definitions_among(uri@, occs@.take(j as int)),
        decreases occs@.len() - j,
    {
        let o = occs[j];
        proof {
            assert(occs@.take(j + 1).drop_last() =~= occs@.take(j as int));
        }
        if o.is_definition {
            let kind = match o.kind {
                MettaSymbolKind::Variable => SymbolKind::Variable,
                MettaSymbolKind::Definition => SymbolKind::Function,
                MettaSymbolKind::Parameter => SymbolKind::Parameter,
                MettaSymbolKind::LetBinding => SymbolKind::Variable,
                MettaSymbolKind::MatchPattern => SymbolKind::Variable,
            };
            let ghost before = out@;
            out.push(SymbolLocation { uri: uri.clone(), range: o.range, kind, confidence: ResolutionConfidence::Exact });
            assert(out@.map_values(|l: SymbolLocation| l@) =~= before.map_values(|l: SymbolLocation| l@).push(
                occurrence_location(uri@, o),
            ));
        }
        j += 1;
    }
    assert(occs@.take(occs@.len() as int) =~= occs@);
}

/// Resolves a name through the scope chain of a MeTTa symbol table.
pub struct LexicalScopeResolver {
    symbol_table: Arc<MettaSymbolTable>,
    language: String,
}

impl LexicalScopeResolver {
    /// The table consulted.
    pub closed spec fn table(&self) -> MettaSymbolTable {
        *self.symbol_table
    }

    /// The language handled.
    pub closed spec fn language(&self) -> Seq<char> {
        self.language@
    }

    /// A resolver of `language` over `symbol_table`.
    pub fn new(symbol_table: Arc<MettaSymbolTable>, language: String) -> (r: Self)
        ensures
            r.table() == *symbol_table,
            r.language() == language@,
    {
        LexicalScopeResolver { symbol_table, language }
    }

    /// The definitions of `symbol_name` from scope `scope_id` outwards.
    pub fn find_in_scope_chain(&self, symbol_name: &str, scope_id: usize) -> (r: Vec<SymbolLocation>)
        ensures
            r@.map_values(|l: SymbolLocation| l@) == chain_definitions(
                self.table(),
                symbol_name@,
                scope_id as int,
                self.table().scopes@.len(),
            ),
    {
        let table: &MettaSymbolTable = &self.symbol_table;
        let mut out: Vec<SymbolLocation> = Vec::new();
        let mut current: Option<usize> = Some(scope_id);
        let mut fuel: usize = table.scopes.len();
        let mut done = false;
        let ghost total = table.scopes@.len();
        assert(out@.map_values(|l: SymbolLocation| l@) =~= Seq::<SymbolLocationView>::empty());
        while !done && fuel > 0
            invariant
                fuel <= total,
                total == table.scopes@.len(),
                *table == self.table(),
                chain_definitions(*table, symbol_name@, scope_id as int, total) == out@.map_values(
                    |l: SymbolLocation| l@,
                ) + if done {
                    Seq::empty()
                } else {
                    match current {
                        None => Seq::empty(),
                        Some(s) => chain_definitions(*table, symbol_name@, s as int, fuel as nat),
                    }
                },
            decreases fuel + if done { 0int } else { 1int },
        {
            match current {
                None => {
                    done = true;
                    assert(out@.map_values(|l: SymbolLocation| l@) + Seq::<SymbolLocationView>::empty()
                        =~= out@.map_values(|l: SymbolLocation| l@));
                },
                Some(sid) => {
                    if sid >= table.scopes.len() {
                        done = true;
                    } else {
                        let ghost before = out@.map_values(|l: SymbolLocation| l@);
                        let scope = &table.scopes[sid];
                        match find_scope_symbol(&scope.symbols, symbol_name) {
                            Some(k) => push_definitions(&mut out, &table.uri, &scope.symbols[k].occurrences),
                            None => {
                                assert(out@.map_values(|l: SymbolLocation| l@) =~= before + Seq::<SymbolLocationView>::empty());
                            },
                        }
                        assert(out@.map_values(|l: SymbolLocation| l@) == before + scope_definitions(
                            *table,
                            symbol_name@,
                            sid as int,
                        ));
                        current = scope.parent_id;
                        fuel = fuel - 1;
                        proof {
                            assert(out@.map_values(|l: SymbolLocation| l@) + match current {
                                None => Seq::<SymbolLocationView>::empty(),
                                Some(s) => chain_definitions(*table, symbol_name@, s as int, fuel as nat),
                            } =~= before + chain_definitions(*table, symbol_name@, sid as int, (fuel + 1) as nat));
                        }
                    }
                },
            }
        }
        proof {
            if !done {
                match current {
                    None => {},
                    Some(s) => {
                        assert(chain_definitions(*table, symbol_name@, s as int, 0) =~= Seq::<SymbolLocationView>::empty());
                    },
                }
            }
        }
        assert(out@.map_values(|l: SymbolLocation| l@) =~= chain_definitions(*table, symbol_name@, scope_id as int, total));
        out
    }

    /// The definitions visible at `position`: from the scope of the
    /// occurrence there, else from the context's scope, else none.
    pub fn resolve_at(&self, symbol_name: &str, position: &Position, context: &ResolutionContext) -> (r: Vec<SymbolLocation>)
        ensures
            ({
                let p = LspPosition { line: position.row as u32, character: position.column as u32 };
                let t = self.table();
                let v = r@.map_values(|l: SymbolLocation| l@);
                match occurrence_at_from(t.occurrences@, p, 0) {
                    Some(i) => v == chain_definitions(t, symbol_name@, t.occurrences@[i].scope_id as int, t.scopes@.len()),
                    None => match context.scope_id {
                        Some(s) => v == chain_definitions(t, symbol_name@, s as int, t.scopes@.len()),
                        None => r@.len() == 0,
                    },
                }
            }),
    {
        let lsp_pos = LspPosition { line: position.row as u32, character: position.column as u32 };
        match self.symbol_table.find_symbol_at_position(&lsp_pos) {
            Some(sym) => self.find_in_scope_chain(symbol_name, sym.scope_id),
            None => match context.scope_id {
                Some(s) => self.find_in_scope_chain(symbol_name, s),
                None => Vec::new(),
            },
        }
    }

    /// Whether this resolver handles `language`.
    pub fn handles(&self, language: &str) -> (b: bool)
        ensures
            b == (self.language() == language@),
    {
        str_equal(self.language.as_str(), language)
    }
}

impl SymbolResolver for LexicalScopeResolver {
    /// This resolver answers as its spec functions say.
    open spec fn keeps_spec(&self) -> bool {
        true
    }

    /// The definitions along the scope chain of the occurrence at the
    /// position, else of the context's scope, else nothing.
    closed spec fn resolution_of(&self, symbol_name: Seq<char>, position: Position, context: ResolutionContext) -> Seq<SymbolLocationView> {
        let p = LspPosition { line: position.row as u32, character: position.column as u32 };
        let t = self.table();
        match occurrence_at_from(t.occurrences@, p, 0) {
            Some(i) => chain_definitions(t, symbol_name, t.occurrences@[i].scope_id as int, t.scopes@.len()),
            None => match context.scope_id {
                Some(s) => chain_definitions(t, symbol_name, s as int, t.scopes@.len()),
                None => Seq::empty(),
            },
        }
    }

    /// Only this resolver's language.
    closed spec fn language_supported(&self, language: Seq<char>) -> bool {
        self.language() == language
    }

    fn resolve_symbol(&self, symbol_name: &str, position: &Position, context: &ResolutionContext) -> (r: Vec<SymbolLocation>)
        ensures
            ({
                let p = LspPosition { line: position.row as u32, character: position.column as u32 };
                let t = self.table();
                let v = r@.map_values(|l: SymbolLocation| l@);
                match occurrence_at_from(t.occurrences@, p, 0) {
                    Some(i) => v == chain_definitions(t, symbol_name@, t.occurrences@[i].scope_id as int, t.scopes@.len()),
                    None => match context.scope_id {
                        Some(s) => v == chain_definitions(t, symbol_name@, s as int, t.scopes@.len()),
                        None => r@.len() == 0,
                    },
                }
            }),
    {
        self.resolve_at(symbol_name, position, context)
    }

    fn supports_language(&self, language: &str) -> (b: bool)
        ensures
            b == (self.language() == language@),
    {
        self.handles(language)
    }

    fn name(&self) -> (r: &'static str)
        ensures
            r@ == "LexicalScopeResolver"@,
    {
        "LexicalScopeResolver"
    }
}

} // verus!
