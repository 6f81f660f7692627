//! Scoped symbol tables of Rholang documents, with an index of contracts by
//! name and arity for overload resolution.
use std::sync::Arc;
use vstd::prelude::*;
use crate::rholang_node::node_types::{share, share_all, share_opt};
use crate::rholang_node::{RholangNode, RholangNodeVector};
use crate::semantic_node::Position;
use crate::rholang_node::node_order::{int_order, text_order, text_order_exec, then_order, NodeOrder};
use crate::symbol_resolution::types::str_equal;

verus! {

/// The type of a Rholang symbol.
#[derive(Debug, Clone, Copy, PartialEq, Eq, Hash, PartialOrd, Ord, Structural)]
pub enum SymbolType {
    Variable,
    Contract,
    Parameter,
}

/// The formal parameters, remainder and body of a contract definition.
#[derive(Debug, Clone)]
pub struct ContractPattern {
    pub formals: RholangNodeVector,
    pub formals_remainder: Option<Arc<RholangNode>>,
    pub proc: Arc<RholangNode>,
}

/// A symbol with its declaration and definition locations; a contract also
/// keeps its pattern.
#[derive(Debug, Clone)]
pub struct Symbol {
    pub name: String,
    pub symbol_type: SymbolType,
    pub declaration_uri: String,
    pub declaration_location: Position,
    pub definition_location: Option<Position>,
    pub contract_pattern: Option<ContractPattern>,
}

/// The number of formal parameters of a contract symbol.
pub open spec fn symbol_arity(s: Symbol) -> Option<nat> {
    match s.contract_pattern {
        Some(p) => Some(p.formals@.len()),
        None => None,
    }
}

/// Whether a contract symbol takes a remainder of arguments.
pub open spec fn symbol_variadic(s: Symbol) -> bool {
    match s.contract_pattern {
        Some(p) => p.formals_remainder is Some,
        None => false,
    }
}

/// Whether a signature of `arity` parameters, variadic or not, accepts `n` arguments.
pub open spec fn accepts(arity: nat, variadic: bool, n: nat) -> bool {
    if variadic {
        n >= arity
    } else {
        n == arity
    }
}

impl Symbol {
    /// A symbol with no definition location and no pattern.
    pub fn new(name: String, symbol_type: SymbolType, declaration_uri: String, declaration_location: Position) -> (s: Self)
        ensures
            s.name == name,
            s.symbol_type == symbol_type,
            s.declaration_uri == declaration_uri,
            s.declaration_location == declaration_location,
            s.definition_location is None,
            s.contract_pattern is None,
    {
        Symbol {
            name,
            symbol_type,
            declaration_uri,
            declaration_location,
            definition_location: None,
            contract_pattern: None,
        }
    }

    /// A contract symbol, defined where it is declared, with its pattern.
    pub fn new_contract(
        name: String,
        declaration_uri: String,
        declaration_location: Position,
        formals: RholangNodeVector,
        formals_remainder: Option<Arc<RholangNode>>,
        proc: Arc<RholangNode>,
    ) -> (s: Self)
        ensures
            s.name == name,
            s.symbol_type == SymbolType::Contract,
            s.declaration_uri == declaration_uri,
            s.declaration_location == declaration_location,
            s.definition_location == Some(declaration_location),
            s.contract_pattern == Some(ContractPattern { formals, formals_remainder, proc }),
    {
        Symbol {
            name,
            symbol_type: SymbolType::Contract,
            declaration_uri,
            declaration_location,
            definition_location: Some(declaration_location),
            contract_pattern: Some(ContractPattern { formals, formals_remainder, proc }),
        }
    }

    /// The number of formal parameters, for a symbol with a pattern.
    pub fn arity(&self) -> (r: Option<usize>)
        ensures
            match r {
                Some(a) => symbol_arity(*self) == Some(a as nat),
                None => symbol_arity(*self) is None,
            },
    {
        match &self.contract_pattern {
            Some(p) => Some(p.formals.len()),
            None => None,
        }
    }

    /// Whether the symbol's pattern has a remainder.
    pub fn is_variadic(&self) -> (b: bool)
        ensures
            b == symbol_variadic(*self),
    {
        match &self.contract_pattern {
            Some(p) => p.formals_remainder.is_some(),
            None => false,
        }
    }

    /// Whether two symbols agree on name, type, URI and both locations.
    pub fn same_symbol(&self, other: &Symbol) -> (b: bool)
        ensures
            b == (self.name@ == other.name@ && self.symbol_type == other.symbol_type
                && self.declaration_uri@ == other.declaration_uri@
                && self.declaration_location == other.declaration_location
                && self.definition_location == other.definition_location),
    {
        str_equal(self.name.as_str(), other.name.as_str()) && self.symbol_type == other.symbol_type
            && str_equal(self.declaration_uri.as_str(), other.declaration_uri.as_str())
            && self.declaration_location == other.declaration_location
            && self.definition_location == other.definition_location
    }
}

/// The order of two positions: by line, then column, then byte offset.
pub open spec fn position_order(a: Position, b: Position) -> NodeOrder {
    then_order(
        int_order(a.row as int, b.row as int),
        then_order(int_order(a.column as int, b.column as int), int_order(a.byte as int, b.byte as int)),
    )
}

/// The order of symbols: by name, then declaring document, then
/// declaration location.
pub open spec fn symbol_order(a: Symbol, b: Symbol) -> NodeOrder {
    then_order(
        text_order(a.name@, b.name@),
        then_order(text_order(a.declaration_uri@, b.declaration_uri@), position_order(a.declaration_location, b.declaration_location)),
    )
}

fn usize_order(x: usize, y: usize) -> (r: NodeOrder)
    ensures
        r == int_order(x as int, y as int),
{
    if x < y {
        NodeOrder::Less
    } else if x == y {
        NodeOrder::Equal
    } else {
        NodeOrder::Greater
    }
}

/// The order of two positions (see `position_order`).
pub fn compare_positions(a: &Position, b: &Position) -> (r: NodeOrder)
    ensures
        r == position_order(*a, *b),
{
    let rows = usize_order(a.row, b.row);
    if rows != NodeOrder::Equal {
        return rows;
    }
    let columns = usize_order(a.column, b.column);
    if columns != NodeOrder::Equal {
        return columns;
    }
    usize_order(a.byte, b.byte)
}

impl Symbol {
    /// The order of two symbols (see `symbol_order`): symbols are sorted by
    /// name, then by declaring document, then by declaration location.
    pub fn compare(&self, other: &Symbol) -> (r: NodeOrder)
        ensures
            r == symbol_order(*self, *other),
    {
        let names = text_order_exec(self.name.as_str(), other.name.as_str());
        if names != NodeOrder::Equal {
            return names;
        }
        let uris = text_order_exec(self.declaration_uri.as_str(), other.declaration_uri.as_str());
        if uris != NodeOrder::Equal {
            return uris;
        }
        compare_positions(&self.declaration_location, &other.declaration_location)
    }
}

/// A contract's name, number of parameters and whether it is variadic.
#[derive(Debug, Clone)]
pub struct PatternSignature {
    pub name: String,
    pub arity: usize,
    pub is_variadic: bool,
}

impl PatternSignature {
    /// The signature of a contract symbol; none for other symbols.
    pub fn from_symbol(symbol: &Symbol) -> (r: Option<PatternSignature>)
        ensures
            symbol.symbol_type == SymbolType::Contract <==> r is Some,
            r matches Some(sig) ==> sig.name@ == symbol.name@ && sig.is_variadic == symbol_variadic(*symbol)
                && sig.arity == match symbol_arity(*symbol) {
                Some(a) => a,
                None => 0,
            },
    {
        if symbol.symbol_type == SymbolType::Contract {
            let arity = match symbol.arity() {
                Some(a) => a,
                None => 0,
            };
            Some(PatternSignature { name: symbol.name.clone(), arity, is_variadic: symbol.is_variadic() })
        } else {
            None
        }
    }

    /// Whether a call with `arg_count` arguments fits: at least the arity
    /// for a variadic signature, exactly the arity otherwise.
    pub fn matches_arity(&self, arg_count: usize) -> (b: bool)
        ensures
            b == accepts(self.arity as nat, self.is_variadic, arg_count as nat),
    {
        if self.is_variadic {
            arg_count >= self.arity
        } else {
            arg_count == self.arity
        }
    }
}

/// Whether a signature is the one of `name`, `arity` and `variadic`.
pub open spec fn signature_is(sig: PatternSignature, name: Seq<char>, arity: usize, variadic: bool) -> bool {
    sig.name@ == name && sig.arity == arity && sig.is_variadic == variadic
}

/// Index of the first symbol named `name`, looking from `i` on.
pub open spec fn first_named(s: Seq<Arc<Symbol>>, name: Seq<char>, i: int) -> Option<int>
    decreases s.len() - i,
{
    if i < 0 || i >= s.len() {
        None
    } else if s[i].name@ == name {
        Some(i)
    } else {
        first_named(s, name, i + 1)
    }
}

/// The contracts of the index entries whose signature has this name and accepts `n` arguments.
pub open spec fn contracts_accepting(entries: Seq<(PatternSignature, Vec<Arc<Symbol>>)>, name: Seq<char>, n: nat) -> Seq<Arc<Symbol>>
    decreases entries.len(),
{
    if entries.len() == 0 {
        Seq::empty()
    } else {
        let before = contracts_accepting(entries.drop_last(), name, n);
        let e = entries.last();
        if e.0.name@ == name && accepts(e.0.arity as nat, e.0.is_variadic, n) {
            before + e.1@
        } else {
            before
        }
    }
}

/// The contracts of the index entries whose signature has this name.
pub open spec fn contracts_named(entries: Seq<(PatternSignature, Vec<Arc<Symbol>>)>, name: Seq<char>) -> Seq<Arc<Symbol>>
    decreases entries.len(),
{
    if entries.len() == 0 {
        Seq::empty()
    } else {
        let before = contracts_named(entries.drop_last(), name);
        let e = entries.last();
        if e.0.name@ == name {
            before + e.1@
        } else {
            before
        }
    }
}

/// Index of the first symbol of `s` from `i` on that satisfies `p`.
pub open spec fn first_such(s: Seq<Arc<Symbol>>, p: spec_fn(Symbol) -> bool, i: int) -> Option<int>
    decreases s.len() - i,
{
    if i < 0 || i >= s.len() {
        None
    } else if p(*s[i]) {
        Some(i)
    } else {
        first_such(s, p, i + 1)
    }
}

/// An exact, non-variadic match for `n` arguments.
pub open spec fn exact_for(n: nat) -> spec_fn(Symbol) -> bool {
    |s: Symbol| symbol_arity(s) == Some(n) && !symbol_variadic(s)
}

/// A variadic match for `n` arguments.
pub open spec fn variadic_for(n: nat) -> spec_fn(Symbol) -> bool {
    |s: Symbol| symbol_variadic(s) && (symbol_arity(s) matches Some(a) && a <= n)
}

/// The best overload among candidates: the first exact match, else the
/// first variadic match.
pub open spec fn best_overload(c: Seq<Arc<Symbol>>, n: nat) -> Option<Symbol> {
    match first_such(c, exact_for(n), 0) {
        Some(i) => Some(*c[i]),
        None => match first_such(c, variadic_for(n), 0) {
            Some(j) => Some(*c[j]),
            None => None,
        },
    }
}

/// The sort key of an overload: its arity, or 0.
pub open spec fn arity_key(s: Symbol) -> nat {
    match symbol_arity(s) {
        Some(a) => a,
        None => 0,
    }
}

/// Whether a symbol's arity key is `k`.
pub open spec fn with_arity(k: nat) -> spec_fn(Arc<Symbol>) -> bool {
    |s: Arc<Symbol>| arity_key(*s) == k
}

/// Exchanging two neighbours of different arities keeps the symbols of
/// every arity in the same order.
proof fn lemma_swap_keeps_arity_groups(s: Seq<Arc<Symbol>>, j: int, k: nat)
    requires
        0 < j < s.len(),
        arity_key(*s[j - 1]) != arity_key(*s[j]),
    ensures
        s.update(j - 1, s[j]).update(j, s[j - 1]).filter(with_arity(k)) == s.filter(with_arity(k)),
{
    let p = with_arity(k);
    let t = s.update(j - 1, s[j]).update(j, s[j - 1]);
    let pre = s.take(j - 1);
    let post = s.skip(j + 1);
    let mid = seq![s[j - 1], s[j]];
    let swapped = seq![s[j], s[j - 1]];
    assert(s =~= pre + mid + post);
    assert(t =~= pre + swapped + post);
    Seq::filter_distributes_over_add(pre + mid, post, p);
    Seq::filter_distributes_over_add(pre, mid, p);
    Seq::filter_distributes_over_add(pre + swapped, post, p);
    Seq::filter_distributes_over_add(pre, swapped, p);
    reveal_with_fuel(Seq::filter, 3);
    assert(mid.drop_last() =~= seq![s[j - 1]]);
    assert(swapped.drop_last() =~= seq![s[j]]);
    assert(seq![s[j - 1]].drop_last() =~= Seq::<Arc<Symbol>>::empty());
    assert(seq![s[j]].drop_last() =~= Seq::<Arc<Symbol>>::empty());
    assert(mid.filter(p) =~= swapped.filter(p));
}

/// Whether every contract filed under an index signature has that
/// signature's name, arity and variadicity.
pub open spec fn entries_consistent(entries: Seq<(PatternSignature, Vec<Arc<Symbol>>)>) -> bool {
    forall|j: int, k: int|
        0 <= j < entries.len() && 0 <= k < entries[j].1@.len() ==> {
            let s = #[trigger] entries[j].1@[k];
            &&& entries[j].0.name@ == s.name@
            &&& entries[j].0.arity as nat == arity_key(*s)
            &&& entries[j].0.is_variadic == symbol_variadic(*s)
        }
}

/// Whether `s` is named `name` and, by its own arity and variadicity,
/// accepts `n` arguments.
pub open spec fn answers_call(s: Symbol, name: Seq<char>, n: nat) -> bool {
    s.name@ == name && accepts(arity_key(s), symbol_variadic(s), n)
}

/// The contracts filed under consistent signatures that accept a call are
/// named as called and accept it by their own arity.
proof fn lemma_accepting_answer(entries: Seq<(PatternSignature, Vec<Arc<Symbol>>)>, name: Seq<char>, n: nat)
    requires
        entries_consistent(entries),
    ensures
        forall|k: int| 0 <= k < contracts_accepting(entries, name, n).len()
            ==> answers_call(*#[trigger] contracts_accepting(entries, name, n)[k], name, n),
    decreases entries.len(),
{
    if entries.len() > 0 {
        let init = entries.drop_last();
        assert forall|j: int, k: int| 0 <= j < init.len() && 0 <= k < init[j].1@.len() implies {
            let s = #[trigger] init[j].1@[k];
            &&& init[j].0.name@ == s.name@
            &&& init[j].0.arity as nat == arity_key(*s)
            &&& init[j].0.is_variadic == symbol_variadic(*s)
        } by {
            assert(init[j] == entries[j]);
            assert(entries[j].1@[k] == init[j].1@[k]);
        }
        lemma_accepting_answer(init, name, n);
        let e = entries.last();
        let before = contracts_accepting(init, name, n);
        if e.0.name@ == name && accepts(e.0.arity as nat, e.0.is_variadic, n) {
            assert forall|k: int| 0 <= k < contracts_accepting(entries, name, n).len()
                implies answers_call(*#[trigger] contracts_accepting(entries, name, n)[k], name, n) by {
                if k >= before.len() {
                    let m = k - before.len();
                    assert(contracts_accepting(entries, name, n)[k] == e.1@[m]);
                    assert(entries[entries.len() - 1].1@[m] == e.1@[m]);
                } else {
                    assert(contracts_accepting(entries, name, n)[k] == before[k]);
                }
            }
        }
    }
}

/// Whether `sig` is the signature of the contract symbol `s`: its name,
/// its arity (0 when it has none) and whether it is variadic.
pub open spec fn signature_of_symbol(sig: PatternSignature, s: Symbol) -> bool {
    &&& sig.name@ == s.name@
    &&& sig.arity as nat == arity_key(s)
    &&& sig.is_variadic == symbol_variadic(s)
}

/// The index entries with each group of contracts as a sequence.
pub open spec fn groups_view(e: Seq<(PatternSignature, Vec<Arc<Symbol>>)>) -> Seq<(PatternSignature, Seq<Arc<Symbol>>)> {
    e.map_values(|x: (PatternSignature, Vec<Arc<Symbol>>)| (x.0, x.1@))
}

/// Index of the first entry, from `i` on, filed under the signature of `s`.
pub open spec fn first_signature(e: Seq<(PatternSignature, Vec<Arc<Symbol>>)>, s: Symbol, i: int) -> Option<int>
    decreases e.len() - i,
{
    if i < 0 || i >= e.len() {
        None
    } else if signature_of_symbol(e[i].0, s) {
        Some(i)
    } else {
        first_signature(e, s, i + 1)
    }
}

/// Whether the index `after` is `before` with the contract `s` filed: added
/// at the end of the first group under its signature, or, when there is
/// none, in a new group of its own at the end.
pub open spec fn filed_contract(
    before: Seq<(PatternSignature, Vec<Arc<Symbol>>)>,
    after: Seq<(PatternSignature, Vec<Arc<Symbol>>)>,
    s: Arc<Symbol>,
) -> bool {
    match first_signature(before, *s, 0) {
        Some(j) => groups_view(after) == groups_view(before).update(j, (before[j].0, before[j].1@.push(s))),
        None => {
            &&& after.len() == before.len() + 1
            &&& groups_view(after).take(before.len() as int) == groups_view(before)
            &&& signature_of_symbol(after.last().0, *s)
            &&& after.last().1@ == seq![s]
        },
    }
}

/// `first_signature` from `from` is `found` when no entry before `found`
/// (or before the end, for `None`) has the signature and `found` has it.
proof fn lemma_first_signature(e: Seq<(PatternSignature, Vec<Arc<Symbol>>)>, s: Arc<Symbol>, from: int, found: Option<int>)
    requires
        0 <= from <= e.len(),
        forall|j: int| from <= j < e.len() && (found matches Some(k) ==> j < k) ==> !signature_of_symbol(#[trigger] e[j].0, *s),
        found matches Some(k) ==> from <= k < e.len() && signature_of_symbol(e[k].0, *s),
    ensures
        first_signature(e, *s, from) == found,
    decreases e.len() - from,
{
    if from < e.len() {
        if found != Some(from) {
            lemma_first_signature(e, s, from + 1, found);
        }
    }
}

/// A contract in a group whose signature has the called name and accepts
/// the call is among the contracts accepting it.
proof fn lemma_accepting_contains(
    entries: Seq<(PatternSignature, Vec<Arc<Symbol>>)>,
    name: Seq<char>,
    n: nat,
    j: int,
    k: int,
)
    requires
        0 <= j < entries.len(),
        0 <= k < entries[j].1@.len(),
        entries[j].0.name@ == name,
        accepts(entries[j].0.arity as nat, entries[j].0.is_variadic, n),
    ensures
        contracts_accepting(entries, name, n).contains(entries[j].1@[k]),
    decreases entries.len(),
{
    let init = entries.drop_last();
    let before = contracts_accepting(init, name, n);
    if j == entries.len() - 1 {
        assert(contracts_accepting(entries, name, n)[before.len() + k] == entries[j].1@[k]);
    } else {
        assert(init[j] == entries[j]);
        lemma_accepting_contains(init, name, n, j, k);
        let i = choose|i: int| 0 <= i < before.len() && before[i] == entries[j].1@[k];
        assert(contracts_accepting(entries, name, n)[i] == before[i]);
    }
}

/// A scope of symbols, with an index of its contracts by signature and the
/// scope that encloses it.
pub struct SymbolTable {
    symbols: Vec<Arc<Symbol>>,
    pattern_index: Vec<(PatternSignature, Vec<Arc<Symbol>>)>,
    parent: Option<Box<SymbolTable>>,
}

impl SymbolTable {
    /// The symbols of this scope, in first-insertion order of their names.
    pub closed spec fn scope_symbols(&self) -> Seq<Arc<Symbol>> {
        self.symbols@
    }

    /// The index entries of this scope.
    pub closed spec fn index_entries(&self) -> Seq<(PatternSignature, Vec<Arc<Symbol>>)> {
        self.pattern_index@
    }

    /// The enclosing scope.
    pub closed spec fn parent_table(&self) -> Option<SymbolTable> {
        match self.parent {
            Some(p) => Some(*p),
            None => None,
        }
    }

    /// The symbol a name resolves to: the nearest scope's entry.
    pub closed spec fn resolves_to(self, name: Seq<char>) -> Option<Symbol>
        decreases self,
    {
        match first_named(self.symbols@, name, 0) {
            Some(i) => Some(*self.symbols@[i]),
            None => match self.parent {
                Some(p) => (*p).resolves_to(name),
                None => None,
            },
        }
    }

    /// The contracts named `name` accepting `n` arguments, this scope first.
    pub closed spec fn contracts_for(self, name: Seq<char>, n: nat) -> Seq<Arc<Symbol>>
        decreases self,
    {
        let here = contracts_accepting(self.pattern_index@, name, n);
        match self.parent {
            Some(p) => here + (*p).contracts_for(name, n),
            None => here,
        }
    }

    /// Every overload named `name`, this scope first.
    pub closed spec fn overloads_of(self, name: Seq<char>) -> Seq<Arc<Symbol>>
        decreases self,
    {
        let here = contracts_named(self.pattern_index@, name);
        match self.parent {
            Some(p) => here + (*p).overloads_of(name),
            None => here,
        }
    }

    /// Every symbol of this scope and the enclosing ones, this scope first.
    pub closed spec fn all_symbols(self) -> Seq<Arc<Symbol>>
        decreases self,
    {
        match self.parent {
            Some(p) => self.symbols@ + (*p).all_symbols(),
            None => self.symbols@,
        }
    }

    /// Scoping of names: a name resolves to the first symbol of that name in
    /// this scope, and only when this scope has none, to what it resolves to
    /// in the enclosing scope; so a name bound here shadows it in every
    /// enclosing scope.
    pub proof fn law_lookup_shadows_enclosing(self, name: Seq<char>)
        ensures
            self.resolves_to(name) == match first_named(self.scope_symbols(), name, 0) {
                Some(i) => Some(*self.scope_symbols()[i]),
                None => match self.parent_table() {
                    Some(p) => p.resolves_to(name),
                    None => None,
                },
            },
    {
    }

    /// Whether the contracts of this scope and of every enclosing one are
    /// filed under their own signatures.
    pub closed spec fn index_consistent(self) -> bool
        decreases self,
    {
        &&& entries_consistent(self.pattern_index@)
        &&& match self.parent {
            Some(p) => (*p).index_consistent(),
            None => true,
        }
    }

    /// The contracts found for a call are named as called and accept its
    /// arguments by their own arity.
    proof fn lemma_contracts_answer(self, name: Seq<char>, n: nat)
        requires
            self.index_consistent(),
        ensures
            forall|k: int| 0 <= k < self.contracts_for(name, n).len()
                ==> answers_call(*#[trigger] self.contracts_for(name, n)[k], name, n),
        decreases self,
    {
        lemma_accepting_answer(self.pattern_index@, name, n);
        let here = contracts_accepting(self.pattern_index@, name, n);
        match self.parent {
            Some(p) => {
                (*p).lemma_contracts_answer(name, n);
                assert forall|k: int| 0 <= k < self.contracts_for(name, n).len()
                    implies answers_call(*#[trigger] self.contracts_for(name, n)[k], name, n) by {
                    if k < here.len() {
                        assert(self.contracts_for(name, n)[k] == here[k]);
                    } else {
                        assert(self.contracts_for(name, n)[k] == (*p).contracts_for(name, n)[k - here.len()]);
                    }
                }
            },
            None => {},
        }
    }

    /// Contract lookup goes up the scope chain: the contracts found for a
    /// call of `name` with `n` arguments are this scope's contracts filed
    /// under signatures with that name which accept `n` arguments, followed
    /// by every contract found from the enclosing scope; so each contract
    /// found from the enclosing scope is found from this one too.
    pub proof fn law_contract_lookup_climbs_scopes(self, name: Seq<char>, n: nat)
        ensures
            self.contracts_for(name, n) == contracts_accepting(self.index_entries(), name, n) + match self.parent_table() {
                Some(p) => p.contracts_for(name, n),
                None => Seq::empty(),
            },
            match self.parent_table() {
                Some(p) => forall|k: int| 0 <= k < p.contracts_for(name, n).len()
                    ==> self.contracts_for(name, n).contains(#[trigger] p.contracts_for(name, n)[k]),
                None => true,
            },
    {
        let here = contracts_accepting(self.index_entries(), name, n);
        match self.parent_table() {
            Some(p) => {
                assert forall|k: int| 0 <= k < p.contracts_for(name, n).len()
                    implies self.contracts_for(name, n).contains(#[trigger] p.contracts_for(name, n)[k]) by {
                    assert(self.contracts_for(name, n)[here.len() + k] == p.contracts_for(name, n)[k]);
                }
            },
            None => {
                assert(here + Seq::<Arc<Symbol>>::empty() =~= here);
            },
        }
    }

    /// A contract of an enclosing scope that accepts the call is chosen from
    /// an inner scope when that scope has no candidate of its own: with no
    /// contract of this scope accepting the call, the best overload found
    /// from here is the one found from the enclosing scope.
    pub proof fn law_overload_from_enclosing_scope(self, name: Seq<char>, n: nat)
        requires
            contracts_accepting(self.index_entries(), name, n).len() == 0,
            self.parent_table() is Some,
        ensures
            best_overload(self.contracts_for(name, n), n) == best_overload(self.parent_table()->0.contracts_for(name, n), n),
    {
        let p = self.parent_table()->0;
        let here = contracts_accepting(self.index_entries(), name, n);
        assert(self.contracts_for(name, n) =~= p.contracts_for(name, n)) by {
            assert(here =~= Seq::<Arc<Symbol>>::empty());
        }
    }

    /// Overload choice: in a table whose contracts are filed under their own
    /// signatures, every candidate for a call is named as called and accepts
    /// the arguments by its own arity; and when each candidate has a
    /// parameter list, the best overload (the first exact, non-variadic
    /// match, else the first variadic one) exists exactly when some
    /// candidate does.
    pub proof fn law_overload_choice(self, name: Seq<char>, n: nat)
        requires
            self.index_consistent(),
        ensures
            forall|k: int| 0 <= k < self.contracts_for(name, n).len()
                ==> answers_call(*#[trigger] self.contracts_for(name, n)[k], name, n),
            (forall|k: int| 0 <= k < self.contracts_for(name, n).len()
                ==> symbol_arity(*#[trigger] self.contracts_for(name, n)[k]) is Some)
                ==> (best_overload(self.contracts_for(name, n), n) is None <==> self.contracts_for(name, n).len() == 0),
    {
        self.lemma_contracts_answer(name, n);
        let c = self.contracts_for(name, n);
        assert(c.len() > 0 ==> answers_call(*c[0], name, n));
        assert(c.len() > 0 && symbol_arity(*c[0]) is Some && symbol_variadic(*c[0]) ==> variadic_for(n)(*c[0]));
        assert(c.len() > 0 && symbol_arity(*c[0]) is Some && !symbol_variadic(*c[0]) ==> exact_for(n)(*c[0]));
        assert(c.len() > 0 && symbol_arity(*c[0]) is Some && symbol_variadic(*c[0]) ==> first_such(c, variadic_for(n), 0) == Some(0int));
        assert(c.len() > 0 && symbol_arity(*c[0]) is Some && !symbol_variadic(*c[0]) ==> first_such(c, exact_for(n), 0) == Some(0int));
    }

    /// An empty scope inside `parent`, if any.
    pub fn new(parent: Option<Box<SymbolTable>>) -> (t: Self)
        ensures
            t.scope_symbols().len() == 0,
            t.index_entries().len() == 0,
            t.parent_table() == match parent {
                Some(p) => Some(*p),
                None => None::<SymbolTable>,
            },
            t.index_consistent() == match parent {
                Some(p) => p.index_consistent(),
                None => true,
            },
    {
        SymbolTable { symbols: Vec::new(), pattern_index: Vec::new(), parent }
    }

    /// The enclosing scope, if any.
    pub fn parent(&self) -> (r: Option<&SymbolTable>)
        ensures
            match r {
                Some(p) => self.parent_table() == Some(*p),
                None => self.parent_table() is None,
            },
    {
        match &self.parent {
            Some(p) => Some(&**p),
            None => None,
        }
    }

    /// Index of the entry of this scope named `name`.
    fn find_named(&self, name: &str) -> (r: Option<usize>)
        ensures
            match r {
                Some(i) => first_named(self.symbols@, name@, 0) == Some(i as int) && i < self.symbols@.len(),
                None => first_named(self.symbols@, name@, 0) is None,
            },
    {
        let mut i: usize = 0;
        while i < self.symbols.len()
            invariant
                i <= self.symbols@.len(),
                first_named(self.symbols@, name@, 0) == first_named(self.symbols@, name@, i as int),
            decreases self.symbols@.len() - i,
        {
            if str_equal(self.symbols[i].name.as_str(), name) {
                return Some(i);
            }
            i += 1;
        }
        None
    }

    /// Index of the index entry with this signature.
    fn find_signature(&self, sig: &PatternSignature) -> (r: Option<usize>)
        ensures
            match r {
                Some(i) => i < self.pattern_index@.len() && signature_is(
                    self.pattern_index@[i as int].0,
                    sig.name@,
                    sig.arity,
                    sig.is_variadic,
                ) && forall|j: int|
                    0 <= j < i ==> !signature_is(
                        #[trigger] self.pattern_index@[j].0,
                        sig.name@,
                        sig.arity,
                        sig.is_variadic,
                    ),
                None => forall|j: int|
                    0 <= j < self.pattern_index@.len() ==> !signature_is(
                        #[trigger] self.pattern_index@[j].0,
                        sig.name@,
                        sig.arity,
                        sig.is_variadic,
                    ),
            },
    {
        let mut i: usize = 0;
        while i < self.pattern_index.len()
            invariant
                i <= self.pattern_index@.len(),
                forall|j: int|
                    0 <= j < i ==> !signature_is(#[trigger] self.pattern_index@[j].0, sig.name@, sig.arity, sig.is_variadic),
            decreases self.pattern_index@.len() - i,
        {
            let e = &self.pattern_index[i].0;
            if e.arity == sig.arity && e.is_variadic == sig.is_variadic && str_equal(e.name.as_str(), sig.name.as_str()) {
                return Some(i);
            }
            i += 1;
        }
        None
    }

    /// Inserts a symbol in this scope, replacing the entry of the same
    /// name; a contract is also added to the index under its signature.
    pub fn insert(&mut self, symbol: Arc<Symbol>)
        ensures
            final(self).resolves_to(symbol.name@) == Some(*symbol),
            forall|other: Seq<char>| other != symbol.name@ ==> final(self).resolves_to(other) == old(self).resolves_to(other),
            final(self).parent_table() == old(self).parent_table(),
            old(self).index_consistent() ==> final(self).index_consistent(),
            symbol.symbol_type != SymbolType::Contract ==> final(self).index_entries() == old(self).index_entries(),
            symbol.symbol_type == SymbolType::Contract ==> filed_contract(old(self).index_entries(), final(self).index_entries(), symbol),
            symbol.symbol_type == SymbolType::Contract ==> forall|n: nat|
                accepts(arity_key(*symbol), symbol_variadic(*symbol), n) ==> #[trigger] final(self).contracts_for(symbol.name@, n).contains(symbol),
    {
        let ghost name = symbol.name@;
        let ghost sym = symbol;
        match self.find_named(symbol.name.as_str()) {
            Some(i) => {
                self.symbols.set(i, share_symbol(&symbol));
                proof {
                    lemma_first_named_update(old(self).symbols@, i as int, symbol);
                }
            },
            None => {
                self.symbols.push(share_symbol(&symbol));
                proof {
                    lemma_first_named_push(old(self).symbols@, symbol);
                }
            },
        }
        let ghost before = self.pattern_index@;
        match PatternSignature::from_symbol(&symbol) {
            Some(sig) => {
                match self.find_signature(&sig) {
                    Some(i) => {
                        let (s, mut group) = self.pattern_index.remove(i);
                        group.push(symbol);
                        self.pattern_index.insert(i, (s, group));
                        proof {
                            lemma_first_signature(before, sym, 0, Some(i as int));
                            assert(self.pattern_index@ == before.update(i as int, (before[i as int].0, self.pattern_index@[i as int].1)));
                            assert(groups_view(self.pattern_index@) =~= groups_view(before).update(
                                i as int,
                                (before[i as int].0, before[i as int].1@.push(sym)),
                            ));
                            let g = self.pattern_index@[i as int].1@;
                            assert(g[g.len() - 1] == sym);
                            assert forall|n: nat| accepts(arity_key(*sym), symbol_variadic(*sym), n)
                                implies #[trigger] self.contracts_for(name, n).contains(sym) by {
                                self.lemma_index_contains(name, n, i as int, g.len() - 1);
                            }
                        }
                    },
                    None => {
                        let mut group: Vec<Arc<Symbol>> = Vec::new();
                        group.push(symbol);
                        self.pattern_index.push((sig, group));
                        proof {
                            lemma_first_signature(before, sym, 0, None);
                            assert(groups_view(self.pattern_index@).take(before.len() as int) =~= groups_view(before));
                            let last = self.pattern_index@.len() - 1;
                            assert(self.pattern_index@[last].1@ =~= seq![sym]);
                            assert forall|n: nat| accepts(arity_key(*sym), symbol_variadic(*sym), n)
                                implies #[trigger] self.contracts_for(name, n).contains(sym) by {
                                self.lemma_index_contains(name, n, last, 0);
                            }
                        }
                    },
                }
            },
            None => {},
        }
    }

    /// A contract filed in this scope's index under a signature with the
    /// called name that accepts the call is among the contracts found for it.
    proof fn lemma_index_contains(self, name: Seq<char>, n: nat, j: int, k: int)
        requires
            0 <= j < self.pattern_index@.len(),
            0 <= k < self.pattern_index@[j].1@.len(),
            self.pattern_index@[j].0.name@ == name,
            accepts(self.pattern_index@[j].0.arity as nat, self.pattern_index@[j].0.is_variadic, n),
        ensures
            self.contracts_for(name, n).contains(self.pattern_index@[j].1@[k]),
    {
        lemma_accepting_contains(self.pattern_index@, name, n, j, k);
        let here = contracts_accepting(self.pattern_index@, name, n);
        let x = self.pattern_index@[j].1@[k];
        let i = choose|i: int| 0 <= i < here.len() && here[i] == x;
        assert(self.contracts_for(name, n)[i] == here[i]);
    }

    /// Sets the definition location of the symbol `name` resolves to, in
    /// the nearest scope that has it; does nothing when no scope has it.
    pub fn update_definition(&mut self, name: &str, location: Position)
        ensures
            match old(self).resolves_to(name@) {
                None => final(self).resolves_to(name@) is None,
                Some(a) => final(self).resolves_to(name@) matches Some(b) && redefined(a, b, location),
            },
            forall|k: Seq<char>| k != name@ ==> #[trigger] final(self).resolves_to(k) == old(self).resolves_to(k),
            final(self).index_consistent() == old(self).index_consistent(),
        decreases *old(self),
    {
        match self.find_named(name) {
            Some(i) => {
                let updated = Arc::new(with_definition(&self.symbols[i], location));
                proof {
                    lemma_first_named_found(self.symbols@, name@, 0);
                    lemma_first_named_update(self.symbols@, i as int, updated);
                }
                let ghost old_symbols = self.symbols@;
                self.symbols.set(i, updated);
                proof {
                    assert forall|k: Seq<char>| k != name@ implies #[trigger] self.resolves_to(k) == old(self).resolves_to(k) by {
                        match first_named(old_symbols, k, 0) {
                            Some(j) => {
                                assert(self.symbols@[j] == old_symbols[j]);
                            },
                            None => {},
                        }
                    }
                }
            },
            None => {
                let ghost old_parent = self.parent;
                match self.parent.take() {
                    Some(p) => {
                        let mut p = p;
                        let ghost before = *p;
                        (&mut *p).update_definition(name, location);
                        let ghost after = *p;
                        self.parent = Some(p);
                        proof {
                            assert(old_parent == Some(Box::new(before)));
                            assert forall|k: Seq<char>| k != name@ implies #[trigger] self.resolves_to(k) == old(
                                self,
                            ).resolves_to(k) by {
                                assert(after.resolves_to(k) == before.resolves_to(k));
                            }
                            assert(before.resolves_to(name@) == old(self).resolves_to(name@));
                            assert(after.resolves_to(name@) == self.resolves_to(name@));
                        }
                    },
                    None => {},
                }
            },
        }
    }

    /// The symbol `name` resolves to, searching the enclosing scopes too.
    pub fn lookup(&self, name: &str) -> (r: Option<Arc<Symbol>>)
        ensures
            match r {
                Some(s) => self.resolves_to(name@) == Some(*s),
                None => self.resolves_to(name@) is None,
            },
        decreases *self,
    {
        match self.find_named(name) {
            Some(i) => Some(share_symbol(&self.symbols[i])),
            None => match &self.parent {
                Some(p) => p.lookup(name),
                None => None,
            },
        }
    }

    /// The contracts named `name` that accept `arg_count` arguments, this
    /// scope's first.
    pub fn lookup_contracts_by_pattern(&self, name: &str, arg_count: usize) -> (r: Vec<Arc<Symbol>>)
        ensures
            r@ == self.contracts_for(name@, arg_count as nat),
        decreases *self,
    {
        let mut results: Vec<Arc<Symbol>> = Vec::new();
        let mut i: usize = 0;
        while i < self.pattern_index.len()
            invariant
                i <= self.pattern_index@.len(),
                results@ == contracts_accepting(self.pattern_index@.take(i as int), name@, arg_count as nat),
            decreases self.pattern_index@.len() - i,
        {
            let entry = &self.pattern_index[i];
            proof {
                assert(self.pattern_index@.take(i + 1).drop_last() =~= self.pattern_index@.take(i as int));
            }
            if entry.0.matches_arity(arg_count) && str_equal(entry.0.name.as_str(), name) {
                append_shared(&mut results, &entry.1);
            }
            i += 1;
        }
        assert(self.pattern_index@.take(self.pattern_index@.len() as int) =~= self.pattern_index@);
        match &self.parent {
            Some(p) => {
                let mut rest = p.lookup_contracts_by_pattern(name, arg_count);
                results.append(&mut rest);
            },
            None => {},
        }
        results
    }

    /// Every contract overload named `name`, this scope's first.
    pub fn lookup_all_contract_overloads(&self, name: &str) -> (r: Vec<Arc<Symbol>>)
        ensures
            r@ == self.overloads_of(name@),
        decreases *self,
    {
        let mut results: Vec<Arc<Symbol>> = Vec::new();
        let mut i: usize = 0;
        while i < self.pattern_index.len()
            invariant
                i <= self.pattern_index@.len(),
                results@ == contracts_named(self.pattern_index@.take(i as int), name@),
            decreases self.pattern_index@.len() - i,
        {
            let entry = &self.pattern_index[i];
            proof {
                assert(self.pattern_index@.take(i + 1).drop_last() =~= self.pattern_index@.take(i as int));
            }
            if str_equal(entry.0.name.as_str(), name) {
                append_shared(&mut results, &entry.1);
            }
            i += 1;
        }
        assert(self.pattern_index@.take(self.pattern_index@.len() as int) =~= self.pattern_index@);
        match &self.parent {
            Some(p) => {
                let mut rest = p.lookup_all_contract_overloads(name);
                results.append(&mut rest);
            },
            None => {},
        }
        results
    }

    /// Every symbol of this scope and of the enclosing ones, this scope's first.
    pub fn collect_all_symbols(&self) -> (r: Vec<Arc<Symbol>>)
        ensures
            r@ == self.all_symbols(),
        decreases *self,
    {
        let mut results: Vec<Arc<Symbol>> = Vec::new();
        append_shared(&mut results, &self.symbols);
        match &self.parent {
            Some(p) => {
                let mut rest = p.collect_all_symbols();
                results.append(&mut rest);
            },
            None => {},
        }
        results
    }

    /// The symbols of this scope only.
    pub fn current_symbols(&self) -> (r: Vec<Arc<Symbol>>)
        ensures
            r@ == self.scope_symbols(),
    {
        let mut results: Vec<Arc<Symbol>> = Vec::new();
        append_shared(&mut results, &self.symbols);
        results
    }

    /// The best overload for a call of `name` with `arg_count` arguments:
    /// the first exact, non-variadic match, else the first variadic one.
    pub fn resolve_overload(&self, name: &str, arg_count: usize) -> (r: Option<Arc<Symbol>>)
        ensures
            match r {
                Some(s) => best_overload(self.contracts_for(name@, arg_count as nat), arg_count as nat) == Some(*s),
                None => best_overload(self.contracts_for(name@, arg_count as nat), arg_count as nat) is None,
            },
    {
        let candidates = self.lookup_contracts_by_pattern(name, arg_count);
        let ghost c = candidates@;
        let ghost n = arg_count as nat;
        let mut i: usize = 0;
        while i < candidates.len()
            invariant
                i <= candidates@.len(),
                c == candidates@,
                c == self.contracts_for(name@, arg_count as nat),
                n == arg_count as nat,
                first_such(c, exact_for(n), 0) == first_such(c, exact_for(n), i as int),
            decreases candidates@.len() - i,
        {
            let s = &candidates[i];
            if s.arity() == Some(arg_count) && !s.is_variadic() {
                assert(exact_for(n)(*c[i as int]));
                return Some(share_symbol(s));
            }
            i += 1;
        }
        let mut j: usize = 0;
        while j < candidates.len()
            invariant
                j <= candidates@.len(),
                c == candidates@,
                c == self.contracts_for(name@, arg_count as nat),
                n == arg_count as nat,
                first_such(c, exact_for(n), 0) is None,
                first_such(c, variadic_for(n), 0) == first_such(c, variadic_for(n), j as int),
            decreases candidates@.len() - j,
        {
            let s = &candidates[j];
            let fits = match s.arity() {
                Some(a) => a <= arg_count,
                None => false,
            };
            if s.is_variadic() && fits {
                assert(variadic_for(n)(*c[j as int]));
                return Some(share_symbol(s));
            }
            j += 1;
        }
        None
    }

    /// The overloads for a call, ordered by arity; overloads of one arity
    /// keep the order in which they were found (a stable sort).
    pub fn get_matching_overloads(&self, name: &str, arg_count: usize) -> (r: Vec<Arc<Symbol>>)
        ensures
            r@.to_multiset() == self.contracts_for(name@, arg_count as nat).to_multiset(),
            forall|k: nat| r@.filter(with_arity(k)) == self.contracts_for(name@, arg_count as nat).filter(with_arity(k)),
            forall|i: int, j: int| 0 <= i <= j < r@.len() ==> arity_key(*r@[i]) <= arity_key(*r@[j]),
    {
        let mut candidates = self.lookup_contracts_by_pattern(name, arg_count);
        sort_by_arity(&mut candidates);
        candidates
    }
}

/// Whether `b` is `a` with its definition location set to `location`.
pub open spec fn redefined(a: Symbol, b: Symbol, location: Position) -> bool {
    &&& b.name@ == a.name@
    &&& b.symbol_type == a.symbol_type
    &&& b.declaration_uri@ == a.declaration_uri@
    &&& b.declaration_location == a.declaration_location
    &&& b.definition_location == Some(location)
    &&& match (a.contract_pattern, b.contract_pattern) {
        (None, None) => true,
        (Some(p), Some(q)) => q.formals@ == p.formals@ && q.formals_remainder == p.formals_remainder && q.proc == p.proc,
        _ => false,
    }
}

/// A copy of `s` whose definition location is `location`.
fn with_definition(s: &Symbol, location: Position) -> (r: Symbol)
    ensures
        redefined(*s, r, location),
{
    let contract_pattern = match &s.contract_pattern {
        Some(p) => Some(ContractPattern {
            formals: share_all(&p.formals),
            formals_remainder: share_opt(&p.formals_remainder),
            proc: share(&p.proc),
        }),
        None => None,
    };
    Symbol {
        name: s.name.clone(),
        symbol_type: s.symbol_type,
        declaration_uri: s.declaration_uri.clone(),
        declaration_location: s.declaration_location,
        definition_location: Some(location),
        contract_pattern,
    }
}

/// A new handle to a shared symbol.
pub(crate) fn share_symbol(a: &Arc<Symbol>) -> (r: Arc<Symbol>)
    ensures
        r == *a,
{
    share(a)
}

/// Appends new handles to the symbols of `from`.
fn append_shared(to: &mut Vec<Arc<Symbol>>, from: &Vec<Arc<Symbol>>)
    ensures
        final(to)@ == old(to)@ + from@,
{
    let ghost start = to@;
    let mut i: usize = 0;
    while i < from.len()
        invariant
            i <= from@.len(),
            to@ == start + from@.take(i as int),
        decreases from@.len() - i,
    {
        to.push(share_symbol(&from[i]));
        assert(start + from@.take(i + 1) =~= (start + from@.take(i as int)).push(from@[i as int]));
        i += 1;
    }
    assert(from@.take(from@.len() as int) =~= from@);
}

/// The sort key of a symbol, computed.
fn key_of(s: &Arc<Symbol>) -> (k: usize)
    ensures
        k == arity_key(**s),
{
    match s.arity() {
        Some(a) => a,
        None => 0,
    }
}

/// Sorts symbols by arity, keeping symbols of one arity in order
/// (insertion sort).
fn sort_by_arity(v: &mut Vec<Arc<Symbol>>)
    ensures
        final(v)@.to_multiset() == old(v)@.to_multiset(),
        forall|k: nat| final(v)@.filter(with_arity(k)) == old(v)@.filter(with_arity(k)),
        forall|i: int, j: int| 0 <= i <= j < final(v)@.len() ==> arity_key(*final(v)@[i]) <= arity_key(*final(v)@[j]),
{
    let n = v.len();
    if n == 0 {
        return;
    }
    let mut i: usize = 1;
    while i < n
        invariant
            1 <= i <= n,
            n == v@.len(),
            v@.to_multiset() == old(v)@.to_multiset(),
            forall|k: nat| v@.filter(with_arity(k)) == old(v)@.filter(with_arity(k)),
            forall|a: int, b: int| 0 <= a <= b < i ==> arity_key(*v@[a]) <= arity_key(*v@[b]),
        decreases n - i,
    {
        let mut j: usize = i;
        while j > 0 && key_of(&v[j - 1]) > key_of(&v[j])
            invariant
                0 <= j <= i < n,
                n == v@.len(),
                v@.to_multiset() == old(v)@.to_multiset(),
                forall|k: nat| v@.filter(with_arity(k)) == old(v)@.filter(with_arity(k)),
                forall|a: int, b: int|
                    0 <= a <= b <= i && a != j && b != j ==> arity_key(*v@[a]) <= arity_key(*v@[b]),
                forall|b: int| j < b <= i ==> arity_key(*v@[j as int]) < arity_key(*v@[b]),
            decreases j,
        {
            let ghost before = v@;
            let x = v.remove(j);
            v.insert(j - 1, x);
            proof {
                broadcast use vstd::multiset::group_multiset_axioms;
                vstd::seq_lib::to_multiset_remove(before, j as int);
                vstd::seq_lib::to_multiset_insert(before.remove(j as int), j - 1, before[j as int]);
                vstd::seq_lib::to_multiset_contains(before, before[j as int]);
                assert(before.to_multiset().remove(before[j as int]).insert(before[j as int]) =~= before.to_multiset());
                assert(v@ =~= before.update(j - 1, before[j as int]).update(j as int, before[j - 1]));
                assert forall|k: nat| v@.filter(with_arity(k)) == old(v)@.filter(with_arity(k)) by {
                    lemma_swap_keeps_arity_groups(before, j as int, k);
                }
            }
            j -= 1;
        }
        proof {
            assert forall|a: int, b: int| 0 <= a <= b <= i implies arity_key(*v@[a]) <= arity_key(*v@[b]) by {
                if a == j && b != j {
                } else if b == j && a != j {
                    assert(arity_key(*v@[a]) <= arity_key(*v@[j - 1]));
                }
            }
        }
        i += 1;
    }
}

/// The first index of a name lies in range and holds that name.
proof fn lemma_first_named_found(s: Seq<Arc<Symbol>>, name: Seq<char>, start: int)
    requires
        0 <= start,
    ensures
        first_named(s, name, start) matches Some(j) ==> start <= j < s.len() && s[j].name@ == name,
    decreases s.len() - start,
{
    if start < s.len() && s[start].name@ != name {
        lemma_first_named_found(s, name, start + 1);
    }
}

/// Replacing an entry by one of the same name changes no first index.
proof fn lemma_first_named_same_names(s: Seq<Arc<Symbol>>, i: int, x: Arc<Symbol>, name: Seq<char>, start: int)
    requires
        0 <= i < s.len(),
        x.name@ == s[i].name@,
        0 <= start,
    ensures
        first_named(s.update(i, x), name, start) == first_named(s, name, start),
    decreases s.len() - start,
{
    if start < s.len() {
        lemma_first_named_same_names(s, i, x, name, start + 1);
    }
}

/// Replacing the first entry of a name keeps every resolution but that name's.
proof fn lemma_first_named_update(s: Seq<Arc<Symbol>>, i: int, x: Arc<Symbol>)
    requires
        first_named(s, x.name@, 0) == Some(i),
    ensures
        0 <= i < s.len(),
        first_named(s.update(i, x), x.name@, 0) == Some(i),
        forall|k: Seq<char>| #[trigger] first_named(s.update(i, x), k, 0) == first_named(s, k, 0),
        forall|k: Seq<char>, j: int|
            #![trigger first_named(s, k, 0), s[j]]
            first_named(s, k, 0) == Some(j) && k != x.name@ ==> s.update(i, x)[j] == s[j],
{
    lemma_first_named_found(s, x.name@, 0);
    assert forall|k: Seq<char>| #[trigger] first_named(s.update(i, x), k, 0) == first_named(s, k, 0) by {
        lemma_first_named_same_names(s, i, x, k, 0);
    }
    assert forall|k: Seq<char>, j: int|
        #![trigger first_named(s, k, 0), s[j]]
        first_named(s, k, 0) == Some(j) && k != x.name@ implies s.update(i, x)[j] == s[j] by {
        lemma_first_named_found(s, k, 0);
    }
}

/// Appending an entry changes the first index of no name already present.
proof fn lemma_first_named_push_from(s: Seq<Arc<Symbol>>, x: Arc<Symbol>, name: Seq<char>, start: int)
    requires
        0 <= start <= s.len(),
    ensures
        first_named(s.push(x), name, start) == match first_named(s, name, start) {
            Some(j) => Some(j),
            None => if x.name@ == name { Some(s.len() as int) } else { None },
        },
    decreases s.len() - start,
{
    if start < s.len() {
        assert(s.push(x)[start] == s[start]);
        lemma_first_named_push_from(s, x, name, start + 1);
    } else {
        assert(s.push(x)[start] == x);
        assert(first_named(s.push(x), name, start + 1) is None);
    }
}

/// Appending a name not yet present makes it resolve to the new entry.
proof fn lemma_first_named_push(s: Seq<Arc<Symbol>>, x: Arc<Symbol>)
    requires
        first_named(s, x.name@, 0) is None,
    ensures
        first_named(s.push(x), x.name@, 0) == Some(s.len() as int),
        forall|k: Seq<char>| k != x.name@ ==> #[trigger] first_named(s.push(x), k, 0) == first_named(s, k, 0),
        forall|k: Seq<char>, j: int|
            #![trigger first_named(s, k, 0), s[j]]
            first_named(s, k, 0) == Some(j) ==> s.push(x)[j] == s[j],
{
    lemma_first_named_push_from(s, x, x.name@, 0);
    assert forall|k: Seq<char>| k != x.name@ implies #[trigger] first_named(s.push(x), k, 0) == first_named(s, k, 0) by {
        lemma_first_named_push_from(s, x, k, 0);
    }
    assert forall|k: Seq<char>, j: int|
        #![trigger first_named(s, k, 0), s[j]]
        first_named(s, k, 0) == Some(j) implies s.push(x)[j] == s[j] by {
        lemma_first_named_found(s, k, 0);
    }
}

} // verus!
