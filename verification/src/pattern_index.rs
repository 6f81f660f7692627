//! Turning contract definitions and call sites into MORK terms, the form in
//! which the pattern index stores and looks them up.
use std::sync::Arc;
use vstd::prelude::*;
use crate::mork_form::{
    named_terms_of, strings_of, term_of, term_pairs_of, terms_of, Literal, LiteralValue, MorkForm,
    Term,
};
use crate::rholang_node::node_types::{share_all, RholangNode, RholangNodeVector};

verus! {

/// Why a node has no MORK term.
#[derive(Debug, Clone, Copy, PartialEq, Eq, Structural)]
pub enum MorkError {
    /// A list with a remainder (`[a, ...rest]`).
    ListRemainder,
    /// A set with a remainder.
    SetRemainder,
    /// A map with a remainder.
    MapRemainder,
    /// A map key that is not a string literal (or a quoted one).
    MapKeyNotString,
    /// A name declaration of a `new` that does not declare a variable.
    ExpectedVarInNameDecl,
    /// A declaration of a `new` that is not a name declaration.
    ExpectedNameDeclInNew,
    /// A contract name quoting something other than a string literal.
    ContractNameFormat,
    /// A contract name that is neither a variable nor a quote.
    ContractNameNode,
    /// A receipt of a `for` with other than one bind.
    SingleBindPerReceipt,
    /// A receipt of a `for` whose bind is not a linear bind.
    ExpectedLinearBind,
    /// A pattern construct, given by its tag, that has no term.
    PatternNotImplemented(u32),
    /// A process construct, given by its tag, that has no term.
    NotImplemented(u32),
    /// A node, given by its tag, that is not a contract.
    ExpectedContract(u32),
}

/// The text of an error, as the conversions report it; for a construct or
/// node given by its tag, the text stops before the node itself.
pub open spec fn error_text(e: MorkError) -> Seq<char> {
    match e {
            MorkError::ListRemainder => "List patterns with remainder not yet supported"@,
            MorkError::SetRemainder => "Set patterns with remainder not yet supported"@,
            MorkError::MapRemainder => "Map patterns with remainder not yet supported"@,
            MorkError::MapKeyNotString => "Map keys must be string literals"@,
            MorkError::ExpectedVarInNameDecl => "Expected Var in NameDecl"@,
            MorkError::ExpectedNameDeclInNew => "Expected NameDecl in New"@,
            MorkError::ContractNameFormat => "Unsupported contract name format"@,
            MorkError::ContractNameNode => "Unsupported contract name node"@,
            MorkError::SingleBindPerReceipt => "Only single binds per receipt supported"@,
            MorkError::ExpectedLinearBind => "Expected LinearBind in receipt"@,
            MorkError::PatternNotImplemented(_) => "Pattern conversion to MORK not implemented"@,
            MorkError::NotImplemented(_) => "Conversion to MORK not implemented"@,
            MorkError::ExpectedContract(_) => "Expected Contract node"@,
    }
}

impl MorkError {
    /// The text of this error (see `error_text`).
    pub fn message(&self) -> (s: String)
        ensures
            s@ == error_text(*self),
    {
        let text: &str = match self {
            MorkError::ListRemainder => "List patterns with remainder not yet supported",
            MorkError::SetRemainder => "Set patterns with remainder not yet supported",
            MorkError::MapRemainder => "Map patterns with remainder not yet supported",
            MorkError::MapKeyNotString => "Map keys must be string literals",
            MorkError::ExpectedVarInNameDecl => "Expected Var in NameDecl",
            MorkError::ExpectedNameDeclInNew => "Expected NameDecl in New",
            MorkError::ContractNameFormat => "Unsupported contract name format",
            MorkError::ContractNameNode => "Unsupported contract name node",
            MorkError::SingleBindPerReceipt => "Only single binds per receipt supported",
            MorkError::ExpectedLinearBind => "Expected LinearBind in receipt",
            MorkError::PatternNotImplemented(_) => "Pattern conversion to MORK not implemented",
            MorkError::NotImplemented(_) => "Conversion to MORK not implemented",
            MorkError::ExpectedContract(_) => "Expected Contract node",
        };
        String::from_str(text)
    }
}

/// The value of a conversion's result.
pub open spec fn form_result(r: Result<MorkForm, MorkError>) -> Result<Term, MorkError> {
    match r {
        Ok(f) => Ok(term_of(f)),
        Err(e) => Err(e),
    }
}

/// The value of a conversion's result for a sequence.
pub open spec fn forms_result(r: Result<Vec<MorkForm>, MorkError>) -> Result<Seq<Term>, MorkError> {
    match r {
        Ok(v) => Ok(terms_of(v@)),
        Err(e) => Err(e),
    }
}

/// The value of a conversion's result for keyed terms.
pub open spec fn named_result(r: Result<Vec<(String, MorkForm)>, MorkError>) -> Result<Seq<(Seq<char>, Term)>, MorkError> {
    match r {
        Ok(v) => Ok(named_terms_of(v@)),
        Err(e) => Err(e),
    }
}

/// The value of a conversion's result for term pairs.
pub open spec fn pairs_result(r: Result<Vec<(MorkForm, MorkForm)>, MorkError>) -> Result<Seq<(Term, Term)>, MorkError> {
    match r {
        Ok(v) => Ok(term_pairs_of(v@)),
        Err(e) => Err(e),
    }
}

/// The key of a map entry: a string literal, or a quoted one.
pub open spec fn map_key(k: RholangNode) -> Result<Seq<char>, MorkError> {
    match k {
        RholangNode::StringLiteral { value, .. } => Ok(value@),
        RholangNode::Quote { quotable, .. } => match *quotable {
            RholangNode::StringLiteral { value, .. } => Ok(value@),
            _ => Err(MorkError::MapKeyNotString),
        },
        _ => Err(MorkError::MapKeyNotString),
    }
}

/// The term of a literal node, if it is one.
pub open spec fn literal_term(n: RholangNode) -> Option<Term> {
    match n {
        RholangNode::Nil { .. } => Some(Term::Nil),
        RholangNode::BoolLiteral { value, .. } => Some(Term::Literal(Literal::Bool(value))),
        RholangNode::LongLiteral { value, .. } => Some(Term::Literal(Literal::Int(value))),
        RholangNode::StringLiteral { value, .. } => Some(Term::Literal(Literal::Str(value@))),
        RholangNode::UriLiteral { value, .. } => Some(Term::Literal(Literal::Uri(value@))),
        RholangNode::Var { name, .. } => Some(Term::VarPattern(name@)),
        RholangNode::Wildcard { .. } => Some(Term::WildcardPattern),
        _ => None,
    }
}

/// `Ok(f(t))` for `Ok(t)`, the error otherwise.
pub open spec fn wrap_seq(r: Result<Seq<Term>, MorkError>, k: int) -> Result<Term, MorkError> {
    match r {
        Ok(ts) => Ok(
            if k == 0 {
                Term::ListPattern(ts)
            } else if k == 1 {
                Term::TuplePattern(ts)
            } else if k == 2 {
                Term::SetPattern(ts)
            } else if k == 3 {
                Term::List(ts)
            } else if k == 4 {
                Term::Tuple(ts)
            } else if k == 5 {
                Term::SetExpr(ts)
            } else {
                Term::Par(ts)
            },
        ),
        Err(e) => Err(e),
    }
}

/// The term of a pattern node: literals and variables stand for themselves,
/// a quote names the term of what it quotes, collections become collection
/// patterns, parentheses and blocks are looked through; anything else, or a
/// collection with a remainder, has no term.
pub open spec fn pattern_term(n: RholangNode) -> Result<Term, MorkError>
    decreases n, 1nat,
{
    match n {
        RholangNode::Quote { quotable, .. } => match pattern_term(*quotable) {
            Ok(t) => Ok(Term::Name(Box::new(t))),
            Err(e) => Err(e),
        },
        RholangNode::List { elements, remainder, .. } => if remainder is Some {
            Err(MorkError::ListRemainder)
        } else {
            wrap_seq(pattern_terms(elements@), 0)
        },
        RholangNode::Tuple { elements, .. } => wrap_seq(pattern_terms(elements@), 1),
        RholangNode::SetExpr { elements, remainder, .. } => if remainder is Some {
            Err(MorkError::SetRemainder)
        } else {
            wrap_seq(pattern_terms(elements@), 2)
        },
        RholangNode::MapExpr { pairs, remainder, .. } => if remainder is Some {
            Err(MorkError::MapRemainder)
        } else {
            match pattern_pairs(pairs@) {
                Ok(ps) => Ok(Term::MapPattern(ps)),
                Err(e) => Err(e),
            }
        },
        RholangNode::Parenthesized { expr, .. } => pattern_term(*expr),
        RholangNode::Block { proc, .. } => pattern_term(*proc),
        _ => match literal_term(n) {
            Some(t) => Ok(t),
            None => Err(MorkError::PatternNotImplemented(n.spec_tag())),
        },
    }
}

/// The pattern terms of a sequence of nodes, in order; the first node
/// without a term gives the error.
pub open spec fn pattern_terms(s: Seq<Arc<RholangNode>>) -> Result<Seq<Term>, MorkError>
    decreases s, 2nat,
{
    if s.len() == 0 {
        Ok(Seq::empty())
    } else {
        match pattern_term(*s[0]) {
            Err(e) => Err(e),
            Ok(t) => match pattern_terms(s.drop_first()) {
                Err(e) => Err(e),
                Ok(ts) => Ok(seq![t] + ts),
            },
        }
    }
}

/// The keyed pattern terms of the entries of a map, in order: each key, then
/// the pattern term of its value.
pub open spec fn pattern_pairs(s: Seq<(Arc<RholangNode>, Arc<RholangNode>)>) -> Result<Seq<(Seq<char>, Term)>, MorkError>
    decreases s, 2nat,
{
    if s.len() == 0 {
        Ok(Seq::empty())
    } else {
        match map_key(*s[0].0) {
            Err(e) => Err(e),
            Ok(k) => match pattern_term(*s[0].1) {
                Err(e) => Err(e),
                Ok(t) => match pattern_pairs(s.drop_first()) {
                    Err(e) => Err(e),
                    Ok(ps) => Ok(seq![(k, t)] + ps),
                },
            },
        }
    }
}

/// A copy of a string.
fn copy_string(s: &String) -> (r: String)
    ensures
        r@ == s@,
{
    s.clone()
}

/// The term of a literal or variable node, if it is one.
fn literal_to_mork(node: &RholangNode) -> (r: Option<MorkForm>)
    ensures
        match r {
            Some(f) => literal_term(*node) == Some(term_of(f)),
            None => literal_term(*node) is None,
        },
{
    match node {
        RholangNode::Nil { .. } => Some(MorkForm::Nil),
        RholangNode::BoolLiteral { value, .. } => Some(MorkForm::Literal(LiteralValue::Bool(*value))),
        RholangNode::LongLiteral { value, .. } => Some(MorkForm::Literal(LiteralValue::Int(*value))),
        RholangNode::StringLiteral { value, .. } => Some(MorkForm::Literal(LiteralValue::String(copy_string(value)))),
        RholangNode::UriLiteral { value, .. } => Some(MorkForm::Literal(LiteralValue::Uri(copy_string(value)))),
        RholangNode::Var { name, .. } => Some(MorkForm::VarPattern(copy_string(name))),
        RholangNode::Wildcard { .. } => Some(MorkForm::WildcardPattern),
        _ => None,
    }
}

/// The key of a map entry.
fn map_key_to_string(k: &RholangNode) -> (r: Result<String, MorkError>)
    ensures
        match r {
            Ok(s) => map_key(*k) == Ok::<Seq<char>, MorkError>(s@),
            Err(e) => map_key(*k) == Err::<Seq<char>, MorkError>(e),
        },
{
    match k {
        RholangNode::StringLiteral { value, .. } => Ok(copy_string(value)),
        RholangNode::Quote { quotable, .. } => match &**quotable {
            RholangNode::StringLiteral { value, .. } => Ok(copy_string(value)),
            _ => Err(MorkError::MapKeyNotString),
        },
        _ => Err(MorkError::MapKeyNotString),
    }
}

/// Wraps converted elements as `k` of `wrap_seq` says.
fn wrap_forms(r: Result<Vec<MorkForm>, MorkError>, k: u8) -> (w: Result<MorkForm, MorkError>)
    requires
        k <= 6,
    ensures
        form_result(w) == wrap_seq(forms_result(r), k as int),
{
    match r {
        Err(e) => Err(e),
        Ok(v) => Ok(
            if k == 0 {
                MorkForm::ListPattern(v)
            } else if k == 1 {
                MorkForm::TuplePattern(v)
            } else if k == 2 {
                MorkForm::SetPattern(v)
            } else if k == 3 {
                MorkForm::List(v)
            } else if k == 4 {
                MorkForm::Tuple(v)
            } else if k == 5 {
                MorkForm::SetExpr(v)
            } else {
                MorkForm::Par(v)
            },
        ),
    }
}

proof fn lemma_terms_push(s: Seq<MorkForm>, f: MorkForm)
    ensures
        terms_of(s.push(f)) == terms_of(s).push(term_of(f)),
{
    assert(s.push(f).drop_last() =~= s);
}

proof fn lemma_named_push(s: Seq<(String, MorkForm)>, p: (String, MorkForm))
    ensures
        named_terms_of(s.push(p)) == named_terms_of(s).push((p.0@, term_of(p.1))),
{
    assert(s.push(p).drop_last() =~= s);
}

proof fn lemma_pairs_push(s: Seq<(MorkForm, MorkForm)>, p: (MorkForm, MorkForm))
    ensures
        term_pairs_of(s.push(p)) == term_pairs_of(s).push((term_of(p.0), term_of(p.1))),
{
    assert(s.push(p).drop_last() =~= s);
}

/// Converts a pattern node to its MORK term (see `pattern_term`).
pub fn rholang_pattern_to_mork(node: &RholangNode) -> (r: Result<MorkForm, MorkError>)
    ensures
        form_result(r) == pattern_term(*node),
    decreases node, 1nat,
{
    match node {
        RholangNode::Quote { quotable, .. } => {
            match rholang_pattern_to_mork(quotable) {
                Ok(inner) => Ok(MorkForm::Name(Box::new(inner))),
                Err(e) => Err(e),
            }
        },
        RholangNode::List { elements, remainder, .. } => {
            if remainder.is_some() {
                return Err(MorkError::ListRemainder);
            }
            wrap_forms(patterns_to_mork(elements), 0)
        },
        RholangNode::Tuple { elements, .. } => wrap_forms(patterns_to_mork(elements), 1),
        RholangNode::SetExpr { elements, remainder, .. } => {
            if remainder.is_some() {
                return Err(MorkError::SetRemainder);
            }
            wrap_forms(patterns_to_mork(elements), 2)
        },
        RholangNode::MapExpr { pairs, remainder, .. } => {
            if remainder.is_some() {
                return Err(MorkError::MapRemainder);
            }
            match pattern_pairs_to_mork(pairs) {
                Ok(v) => Ok(MorkForm::MapPattern(v)),
                Err(e) => Err(e),
            }
        },
        RholangNode::Parenthesized { expr, .. } => rholang_pattern_to_mork(expr),
        RholangNode::Block { proc, .. } => rholang_pattern_to_mork(proc),
        _ => match literal_to_mork(node) {
            Some(f) => Ok(f),
            None => Err(MorkError::PatternNotImplemented(node.tag())),
        },
    }
}

/// Converts pattern nodes in order; the first failure is the result.
fn patterns_to_mork(v: &Vec<Arc<RholangNode>>) -> (r: Result<Vec<MorkForm>, MorkError>)
    ensures
        forms_result(r) == pattern_terms(v@),
    decreases v, 2nat,
{
    let mut out: Vec<MorkForm> = Vec::new();
    let mut i: usize = 0;
    assert(v@.skip(0) =~= v@);
    proof {
        if let Ok(ts) = pattern_terms(v@) {
            assert(terms_of(out@) + ts =~= ts);
        }
    }
    while i < v.len()
        invariant
            i <= v@.len(),
            pattern_terms(v@) == match pattern_terms(v@.skip(i as int)) {
                Err(e) => Err(e),
                Ok(ts) => Ok::<Seq<Term>, MorkError>(terms_of(out@) + ts),
            },
        decreases v@.len() - i,
    {
        assert(v@.skip(i as int).drop_first() =~= v@.skip(i as int + 1));
        assert(v@.skip(i as int)[0] == v@[i as int]);
        proof { assert(decreases_to!(v => v@[i as int])); }
        match rholang_pattern_to_mork(&v[i]) {
            Err(e) => {
                return Err(e);
            },
            Ok(f) => {
                proof { lemma_terms_push(out@, f); }
                let ghost before = out@;
                out.push(f);
                assert(terms_of(before) + seq![term_of(f)] =~= terms_of(out@));
                proof {
                    match pattern_terms(v@.skip(i as int + 1)) {
                        Ok(ts) => {
                            assert(terms_of(before) + (seq![term_of(f)] + ts) =~= terms_of(out@) + ts);
                        },
                        Err(_) => {},
                    }
                }
            },
        }
        i += 1;
    }
    assert(v@.skip(v@.len() as int) =~= Seq::<Arc<RholangNode>>::empty());
    assert(terms_of(out@) + Seq::<Term>::empty() =~= terms_of(out@));
    Ok(out)
}

/// Converts the entries of a map pattern in order; the first failure is the result.
fn pattern_pairs_to_mork(v: &Vec<(Arc<RholangNode>, Arc<RholangNode>)>) -> (r: Result<Vec<(String, MorkForm)>, MorkError>)
    ensures
        named_result(r) == pattern_pairs(v@),
    decreases v, 2nat,
{
    let mut out: Vec<(String, MorkForm)> = Vec::new();
    let mut i: usize = 0;
    assert(v@.skip(0) =~= v@);
    proof {
        if let Ok(ps) = pattern_pairs(v@) {
            assert(named_terms_of(out@) + ps =~= ps);
        }
    }
    while i < v.len()
        invariant
            i <= v@.len(),
            pattern_pairs(v@) == match pattern_pairs(v@.skip(i as int)) {
                Err(e) => Err(e),
                Ok(ps) => Ok::<Seq<(Seq<char>, Term)>, MorkError>(named_terms_of(out@) + ps),
            },
        decreases v@.len() - i,
    {
        assert(v@.skip(i as int).drop_first() =~= v@.skip(i as int + 1));
        assert(v@.skip(i as int)[0] == v@[i as int]);
        proof { assert(decreases_to!(v => v@[i as int])); }
        let key = match map_key_to_string(&v[i].0) {
            Ok(k) => k,
            Err(e) => {
                return Err(e);
            },
        };
        match rholang_pattern_to_mork(&v[i].1) {
            Err(e) => {
                return Err(e);
            },
            Ok(f) => {
                let ghost k = key@;
                proof { lemma_named_push(out@, (key, f)); }
                let ghost before = out@;
                out.push((key, f));
                assert(named_terms_of(before) + seq![(k, term_of(f))] =~= named_terms_of(out@));
                proof {
                    match pattern_pairs(v@.skip(i as int + 1)) {
                        Ok(ps) => {
                            assert(named_terms_of(before) + (seq![(k, term_of(f))] + ps) =~= named_terms_of(out@) + ps);
                        },
                        Err(_) => {},
                    }
                }
            },
        }
        i += 1;
    }
    assert(v@.skip(v@.len() as int) =~= Seq::<(Arc<RholangNode>, Arc<RholangNode>)>::empty());
    assert(named_terms_of(out@) + Seq::<(Seq<char>, Term)>::empty() =~= named_terms_of(out@));
    Ok(out)
}

/// The name of a contract: a variable's name or a quoted string literal.
pub open spec fn contract_name(n: RholangNode) -> Result<Seq<char>, MorkError> {
    match n {
        RholangNode::Var { name, .. } => Ok(name@),
        RholangNode::Quote { quotable, .. } => match *quotable {
            RholangNode::StringLiteral { value, .. } => Ok(value@),
            _ => Err(MorkError::ContractNameFormat),
        },
        _ => Err(MorkError::ContractNameNode),
    }
}

/// The names that the declarations of a `new` introduce, in order; each
/// must be a name declaration of a variable.
pub open spec fn decl_names(s: Seq<Arc<RholangNode>>) -> Result<Seq<Seq<char>>, MorkError>
    decreases s.len(),
{
    if s.len() == 0 {
        Ok(Seq::empty())
    } else {
        let first: Result<Seq<char>, MorkError> = match *s[0] {
            RholangNode::NameDecl { var, .. } => match *var {
                RholangNode::Var { name, .. } => Ok(name@),
                _ => Err(MorkError::ExpectedVarInNameDecl),
            },
            _ => Err(MorkError::ExpectedNameDeclInNew),
        };
        match first {
            Err(e) => Err(e),
            Ok(n) => match decl_names(s.drop_first()) {
                Err(e) => Err(e),
                Ok(ns) => Ok(seq![n] + ns),
            },
        }
    }
}

/// The term of a process node. Literals, variables, quotes, collections,
/// parentheses and blocks are taken as in patterns but collections become
/// collections; a send becomes the term of its channel and those of its
/// arguments; a parallel composition the terms of its processes; `new` the
/// declared names and the body; a contract its name, the pattern terms of
/// its parameters and the body; `for` the (pattern, channel) terms of its
/// receipts and the body; `match` the target and the (pattern, body) terms
/// of its cases. Where a body and the parts before it both fail, the body's
/// error is the one reported for `new`, contracts and `for`.
pub open spec fn node_term(n: RholangNode) -> Result<Term, MorkError>
    decreases n, 1nat,
{
    match n {
        RholangNode::Quote { quotable, .. } => match node_term(*quotable) {
            Ok(t) => Ok(Term::Name(Box::new(t))),
            Err(e) => Err(e),
        },
        RholangNode::List { elements, remainder, .. } => if remainder is Some {
            Err(MorkError::ListRemainder)
        } else {
            wrap_seq(node_terms(elements@), 3)
        },
        RholangNode::Tuple { elements, .. } => wrap_seq(node_terms(elements@), 4),
        RholangNode::SetExpr { elements, remainder, .. } => if remainder is Some {
            Err(MorkError::SetRemainder)
        } else {
            wrap_seq(node_terms(elements@), 5)
        },
        RholangNode::MapExpr { pairs, remainder, .. } => if remainder is Some {
            Err(MorkError::MapRemainder)
        } else {
            match node_pairs(pairs@) {
                Ok(ps) => Ok(Term::MapExpr(ps)),
                Err(e) => Err(e),
            }
        },
        RholangNode::Send { channel, inputs, .. } => match node_term(*channel) {
            Err(e) => Err(e),
            Ok(c) => match node_terms(inputs@) {
                Err(e) => Err(e),
                Ok(args) => Ok(Term::Send(Box::new(c), args)),
            },
        },
        RholangNode::Par { left, right, processes, .. } => match processes {
            Some(procs) => wrap_seq(node_terms(procs@), 6),
            None => match (left, right) {
                (Some(l), Some(r)) => match node_term(*l) {
                    Err(e) => Err(e),
                    Ok(lt) => match node_term(*r) {
                        Err(e) => Err(e),
                        Ok(rt) => Ok(Term::Par(seq![lt, rt])),
                    },
                },
                _ => Err(MorkError::NotImplemented(n.spec_tag())),
            },
        },
        RholangNode::New { decls, proc, .. } => match node_term(*proc) {
            Err(e) => Err(e),
            Ok(b) => match decl_names(decls@) {
                Err(e) => Err(e),
                Ok(vs) => Ok(Term::New(vs, Box::new(b))),
            },
        },
        RholangNode::Contract { name, formals, proc, .. } => match contract_name(*name) {
            Err(e) => Err(e),
            Ok(cn) => match node_term(*proc) {
                Err(e) => Err(e),
                Ok(b) => match pattern_terms(formals@) {
                    Err(e) => Err(e),
                    Ok(ps) => Ok(Term::Contract(cn, ps, Box::new(b))),
                },
            },
        },
        RholangNode::Input { receipts, proc, .. } => match node_term(*proc) {
            Err(e) => Err(e),
            Ok(b) => match receipt_bindings(receipts@) {
                Err(e) => Err(e),
                Ok(bs) => Ok(Term::For(bs, Box::new(b))),
            },
        },
        RholangNode::Match { expression, cases, .. } => match node_term(*expression) {
            Err(e) => Err(e),
            Ok(t) => match case_terms(cases@) {
                Err(e) => Err(e),
                Ok(cs) => Ok(Term::Match(Box::new(t), cs)),
            },
        },
        RholangNode::Parenthesized { expr, .. } => node_term(*expr),
        RholangNode::Block { proc, .. } => node_term(*proc),
        _ => match literal_term(n) {
            Some(t) => Ok(t),
            None => Err(MorkError::NotImplemented(n.spec_tag())),
        },
    }
}

/// The process terms of a sequence of nodes, in order; the first node
/// without a term gives the error.
pub open spec fn node_terms(s: Seq<Arc<RholangNode>>) -> Result<Seq<Term>, MorkError>
    decreases s, 2nat,
{
    if s.len() == 0 {
        Ok(Seq::empty())
    } else {
        match node_term(*s[0]) {
            Err(e) => Err(e),
            Ok(t) => match node_terms(s.drop_first()) {
                Err(e) => Err(e),
                Ok(ts) => Ok(seq![t] + ts),
            },
        }
    }
}

/// The keyed process terms of the entries of a map, in order.
pub open spec fn node_pairs(s: Seq<(Arc<RholangNode>, Arc<RholangNode>)>) -> Result<Seq<(Seq<char>, Term)>, MorkError>
    decreases s, 2nat,
{
    if s.len() == 0 {
        Ok(Seq::empty())
    } else {
        match map_key(*s[0].0) {
            Err(e) => Err(e),
            Ok(k) => match node_term(*s[0].1) {
                Err(e) => Err(e),
                Ok(t) => match node_pairs(s.drop_first()) {
                    Err(e) => Err(e),
                    Ok(ps) => Ok(seq![(k, t)] + ps),
                },
            },
        }
    }
}

/// The (pattern, body) terms of the cases of a `match`, in order.
pub open spec fn case_terms(s: Seq<(Arc<RholangNode>, Arc<RholangNode>)>) -> Result<Seq<(Term, Term)>, MorkError>
    decreases s, 2nat,
{
    if s.len() == 0 {
        Ok(Seq::empty())
    } else {
        match pattern_term(*s[0].0) {
            Err(e) => Err(e),
            Ok(p) => match node_term(*s[0].1) {
                Err(e) => Err(e),
                Ok(b) => match case_terms(s.drop_first()) {
                    Err(e) => Err(e),
                    Ok(cs) => Ok(seq![(p, b)] + cs),
                },
            },
        }
    }
}

/// The (pattern, channel) terms of one receipt of a `for`: it must hold a
/// single linear bind; one bound name gives its pattern term, several a
/// tuple pattern of theirs.
pub open spec fn receipt_binding(r: Vec<Arc<RholangNode>>) -> Result<(Term, Term), MorkError>
    decreases r, 2nat,
{
    if r@.len() != 1 {
        Err(MorkError::SingleBindPerReceipt)
    } else {
        match *r@[0] {
            RholangNode::LinearBind { names, source, .. } => {
                let pat = if names@.len() == 1 {
                    pattern_term(*names@[0])
                } else {
                    wrap_seq(pattern_terms(names@), 1)
                };
                match pat {
                    Err(e) => Err(e),
                    Ok(p) => match node_term(*source) {
                        Err(e) => Err(e),
                        Ok(c) => Ok((p, c)),
                    },
                }
            },
            _ => Err(MorkError::ExpectedLinearBind),
        }
    }
}

/// The bindings of the receipts of a `for`, in order.
pub open spec fn receipt_bindings(s: Seq<Vec<Arc<RholangNode>>>) -> Result<Seq<(Term, Term)>, MorkError>
    decreases s, 2nat,
{
    if s.len() == 0 {
        Ok(Seq::empty())
    } else {
        match receipt_binding(s[0]) {
            Err(e) => Err(e),
            Ok(b) => match receipt_bindings(s.drop_first()) {
                Err(e) => Err(e),
                Ok(bs) => Ok(seq![b] + bs),
            },
        }
    }
}

/// The value of a conversion's result for names.
pub open spec fn strings_result(r: Result<Vec<String>, MorkError>) -> Result<Seq<Seq<char>>, MorkError> {
    match r {
        Ok(v) => Ok(strings_of(v@)),
        Err(e) => Err(e),
    }
}

/// The value of a conversion's result for a binding.
pub open spec fn binding_result(r: Result<(MorkForm, MorkForm), MorkError>) -> Result<(Term, Term), MorkError> {
    match r {
        Ok(p) => Ok((term_of(p.0), term_of(p.1))),
        Err(e) => Err(e),
    }
}

/// The name of a contract.
fn contract_name_to_string(n: &RholangNode) -> (r: Result<String, MorkError>)
    ensures
        match r {
            Ok(s) => contract_name(*n) == Ok::<Seq<char>, MorkError>(s@),
            Err(e) => contract_name(*n) == Err::<Seq<char>, MorkError>(e),
        },
{
    match n {
        RholangNode::Var { name, .. } => Ok(copy_string(name)),
        RholangNode::Quote { quotable, .. } => match &**quotable {
            RholangNode::StringLiteral { value, .. } => Ok(copy_string(value)),
            _ => Err(MorkError::ContractNameFormat),
        },
        _ => Err(MorkError::ContractNameNode),
    }
}

/// The names declared by the declarations of a `new`.
fn decl_names_to_strings(v: &Vec<Arc<RholangNode>>) -> (r: Result<Vec<String>, MorkError>)
    ensures
        strings_result(r) == decl_names(v@),
{
    let mut out: Vec<String> = Vec::new();
    let mut i: usize = 0;
    assert(v@.skip(0) =~= v@);
    proof {
        if let Ok(ns) = decl_names(v@) {
            assert(strings_of(out@) + ns =~= ns);
        }
    }
    while i < v.len()
        invariant
            i <= v@.len(),
            decl_names(v@) == match decl_names(v@.skip(i as int)) {
                Err(e) => Err(e),
                Ok(ns) => Ok::<Seq<Seq<char>>, MorkError>(strings_of(out@) + ns),
            },
        decreases v@.len() - i,
    {
        assert(v@.skip(i as int).drop_first() =~= v@.skip(i as int + 1));
        assert(v@.skip(i as int)[0] == v@[i as int]);
        let name = match &*v[i] {
            RholangNode::NameDecl { var, .. } => match &**var {
                RholangNode::Var { name, .. } => copy_string(name),
                _ => {
                    return Err(MorkError::ExpectedVarInNameDecl);
                },
            },
            _ => {
                return Err(MorkError::ExpectedNameDeclInNew);
            },
        };
        let ghost before = out@;
        let ghost nm = name@;
        out.push(name);
        assert(strings_of(out@) =~= strings_of(before) + seq![nm]);
        proof {
            if let Ok(ns) = decl_names(v@.skip(i as int + 1)) {
                assert(strings_of(before) + (seq![nm] + ns) =~= strings_of(out@) + ns);
            }
        }
        i += 1;
    }
    assert(v@.skip(v@.len() as int) =~= Seq::<Arc<RholangNode>>::empty());
    assert(strings_of(out@) + Seq::<Seq<char>>::empty() =~= strings_of(out@));
    Ok(out)
}

/// Converts a process node to its MORK term (see `node_term`).
pub fn rholang_node_to_mork(node: &RholangNode) -> (r: Result<MorkForm, MorkError>)
    ensures
        form_result(r) == node_term(*node),
    decreases node, 1nat,
{
    match node {
        RholangNode::Quote { quotable, .. } => match rholang_node_to_mork(quotable) {
            Ok(inner) => Ok(MorkForm::Name(Box::new(inner))),
            Err(e) => Err(e),
        },
        RholangNode::List { elements, remainder, .. } => {
            if remainder.is_some() {
                return Err(MorkError::ListRemainder);
            }
            wrap_forms(nodes_to_mork(elements), 3)
        },
        RholangNode::Tuple { elements, .. } => wrap_forms(nodes_to_mork(elements), 4),
        RholangNode::SetExpr { elements, remainder, .. } => {
            if remainder.is_some() {
                return Err(MorkError::SetRemainder);
            }
            wrap_forms(nodes_to_mork(elements), 5)
        },
        RholangNode::MapExpr { pairs, remainder, .. } => {
            if remainder.is_some() {
                return Err(MorkError::MapRemainder);
            }
            match node_pairs_to_mork(pairs) {
                Ok(v) => Ok(MorkForm::MapExpr(v)),
                Err(e) => Err(e),
            }
        },
        RholangNode::Send { channel, inputs, .. } => {
            let c = match rholang_node_to_mork(channel) {
                Ok(c) => c,
                Err(e) => {
                    return Err(e);
                },
            };
            match nodes_to_mork(inputs) {
                Ok(args) => Ok(MorkForm::Send { channel: Box::new(c), arguments: args }),
                Err(e) => Err(e),
            }
        },
        RholangNode::Par { left, right, processes, .. } => match processes {
            Some(procs) => wrap_forms(nodes_to_mork(procs), 6),
            None => match (left, right) {
                (Some(l), Some(rt)) => {
                    let lf = match rholang_node_to_mork(l) {
                        Ok(f) => f,
                        Err(e) => {
                            return Err(e);
                        },
                    };
                    let rf = match rholang_node_to_mork(rt) {
                        Ok(f) => f,
                        Err(e) => {
                            return Err(e);
                        },
                    };
                    let mut v: Vec<MorkForm> = Vec::new();
                    let ghost lt = term_of(lf);
                    let ghost rtt = term_of(rf);
                    v.push(lf);
                    proof { lemma_terms_push(Seq::empty(), lf); }
                    let ghost v1 = v@;
                    v.push(rf);
                    proof {
                        lemma_terms_push(v1, rf);
                        assert(terms_of(Seq::<MorkForm>::empty()) =~= Seq::<Term>::empty());
                        assert(Seq::<MorkForm>::empty().push(lf) =~= v1);
                        assert(terms_of(v@) =~= seq![lt, rtt]);
                    }
                    Ok(MorkForm::Par(v))
                },
                _ => Err(MorkError::NotImplemented(node.tag())),
            },
        },
        RholangNode::New { decls, proc, .. } => {
            let body = match rholang_node_to_mork(proc) {
                Ok(b) => b,
                Err(e) => {
                    return Err(e);
                },
            };
            match decl_names_to_strings(decls) {
                Ok(vs) => Ok(MorkForm::New { variables: vs, body: Box::new(body) }),
                Err(e) => Err(e),
            }
        },
        RholangNode::Contract { name, formals, proc, .. } => {
            let cn = match contract_name_to_string(name) {
                Ok(s) => s,
                Err(e) => {
                    return Err(e);
                },
            };
            let body = match rholang_node_to_mork(proc) {
                Ok(b) => b,
                Err(e) => {
                    return Err(e);
                },
            };
            match patterns_to_mork(formals) {
                Ok(ps) => Ok(MorkForm::Contract { name: cn, parameters: ps, body: Box::new(body) }),
                Err(e) => Err(e),
            }
        },
        RholangNode::Input { receipts, proc, .. } => {
            let body = match rholang_node_to_mork(proc) {
                Ok(b) => b,
                Err(e) => {
                    return Err(e);
                },
            };
            match receipts_to_mork(receipts) {
                Ok(bs) => Ok(MorkForm::For { bindings: bs, body: Box::new(body) }),
                Err(e) => Err(e),
            }
        },
        RholangNode::Match { expression, cases, .. } => {
            let t = match rholang_node_to_mork(expression) {
                Ok(t) => t,
                Err(e) => {
                    return Err(e);
                },
            };
            match cases_to_mork(cases) {
                Ok(cs) => Ok(MorkForm::Match { target: Box::new(t), cases: cs }),
                Err(e) => Err(e),
            }
        },
        RholangNode::Parenthesized { expr, .. } => rholang_node_to_mork(expr),
        RholangNode::Block { proc, .. } => rholang_node_to_mork(proc),
        _ => match literal_to_mork(node) {
            Some(f) => Ok(f),
            None => Err(MorkError::NotImplemented(node.tag())),
        },
    }
}

/// Converts process nodes in order; the first failure is the result.
fn nodes_to_mork(v: &Vec<Arc<RholangNode>>) -> (r: Result<Vec<MorkForm>, MorkError>)
    ensures
        forms_result(r) == node_terms(v@),
    decreases v, 2nat,
{
    let mut out: Vec<MorkForm> = Vec::new();
    let mut i: usize = 0;
    assert(v@.skip(0) =~= v@);
    proof {
        if let Ok(ts) = node_terms(v@) {
            assert(terms_of(out@) + ts =~= ts);
        }
    }
    while i < v.len()
        invariant
            i <= v@.len(),
            node_terms(v@) == match node_terms(v@.skip(i as int)) {
                Err(e) => Err(e),
                Ok(ts) => Ok::<Seq<Term>, MorkError>(terms_of(out@) + ts),
            },
        decreases v@.len() - i,
    {
        assert(v@.skip(i as int).drop_first() =~= v@.skip(i as int + 1));
        assert(v@.skip(i as int)[0] == v@[i as int]);
        proof { assert(decreases_to!(v => v@[i as int])); }
        match rholang_node_to_mork(&v[i]) {
            Err(e) => {
                return Err(e);
            },
            Ok(f) => {
                proof { lemma_terms_push(out@, f); }
                let ghost before = out@;
                out.push(f);
                assert(terms_of(before) + seq![term_of(f)] =~= terms_of(out@));
                proof {
                    if let Ok(ts) = node_terms(v@.skip(i as int + 1)) {
                        assert(terms_of(before) + (seq![term_of(f)] + ts) =~= terms_of(out@) + ts);
                    }
                }
            },
        }
        i += 1;
    }
    assert(v@.skip(v@.len() as int) =~= Seq::<Arc<RholangNode>>::empty());
    assert(terms_of(out@) + Seq::<Term>::empty() =~= terms_of(out@));
    Ok(out)
}

/// Converts the entries of a map in order; the first failure is the result.
fn node_pairs_to_mork(v: &Vec<(Arc<RholangNode>, Arc<RholangNode>)>) -> (r: Result<Vec<(String, MorkForm)>, MorkError>)
    ensures
        named_result(r) == node_pairs(v@),
    decreases v, 2nat,
{
    let mut out: Vec<(String, MorkForm)> = Vec::new();
    let mut i: usize = 0;
    assert(v@.skip(0) =~= v@);
    proof {
        if let Ok(ps) = node_pairs(v@) {
            assert(named_terms_of(out@) + ps =~= ps);
        }
    }
    while i < v.len()
        invariant
            i <= v@.len(),
            node_pairs(v@) == match node_pairs(v@.skip(i as int)) {
                Err(e) => Err(e),
                Ok(ps) => Ok::<Seq<(Seq<char>, Term)>, MorkError>(named_terms_of(out@) + ps),
            },
        decreases v@.len() - i,
    {
        assert(v@.skip(i as int).drop_first() =~= v@.skip(i as int + 1));
        assert(v@.skip(i as int)[0] == v@[i as int]);
        proof { assert(decreases_to!(v => v@[i as int])); }
        let key = match map_key_to_string(&v[i].0) {
            Ok(k) => k,
            Err(e) => {
                return Err(e);
            },
        };
        match rholang_node_to_mork(&v[i].1) {
            Err(e) => {
                return Err(e);
            },
            Ok(f) => {
                let ghost k = key@;
                proof { lemma_named_push(out@, (key, f)); }
                let ghost before = out@;
                out.push((key, f));
                assert(named_terms_of(before) + seq![(k, term_of(f))] =~= named_terms_of(out@));
                proof {
                    if let Ok(ps) = node_pairs(v@.skip(i as int + 1)) {
                        assert(named_terms_of(before) + (seq![(k, term_of(f))] + ps) =~= named_terms_of(out@) + ps);
                    }
                }
            },
        }
        i += 1;
    }
    assert(v@.skip(v@.len() as int) =~= Seq::<(Arc<RholangNode>, Arc<RholangNode>)>::empty());
    assert(named_terms_of(out@) + Seq::<(Seq<char>, Term)>::empty() =~= named_terms_of(out@));
    Ok(out)
}

/// Converts the cases of a `match` in order; the first failure is the result.
fn cases_to_mork(v: &Vec<(Arc<RholangNode>, Arc<RholangNode>)>) -> (r: Result<Vec<(MorkForm, MorkForm)>, MorkError>)
    ensures
        pairs_result(r) == case_terms(v@),
    decreases v, 2nat,
{
    let mut out: Vec<(MorkForm, MorkForm)> = Vec::new();
    let mut i: usize = 0;
    assert(v@.skip(0) =~= v@);
    proof {
        if let Ok(cs) = case_terms(v@) {
            assert(term_pairs_of(out@) + cs =~= cs);
        }
    }
    while i < v.len()
        invariant
            i <= v@.len(),
            case_terms(v@) == match case_terms(v@.skip(i as int)) {
                Err(e) => Err(e),
                Ok(cs) => Ok::<Seq<(Term, Term)>, MorkError>(term_pairs_of(out@) + cs),
            },
        decreases v@.len() - i,
    {
        assert(v@.skip(i as int).drop_first() =~= v@.skip(i as int + 1));
        assert(v@.skip(i as int)[0] == v@[i as int]);
        proof { assert(decreases_to!(v => v@[i as int])); }
        let p = match rholang_pattern_to_mork(&v[i].0) {
            Ok(p) => p,
            Err(e) => {
                return Err(e);
            },
        };
        match rholang_node_to_mork(&v[i].1) {
            Err(e) => {
                return Err(e);
            },
            Ok(b) => {
                let ghost pair = (term_of(p), term_of(b));
                proof { lemma_pairs_push(out@, (p, b)); }
                let ghost before = out@;
                out.push((p, b));
                assert(term_pairs_of(before) + seq![pair] =~= term_pairs_of(out@));
                proof {
                    if let Ok(cs) = case_terms(v@.skip(i as int + 1)) {
                        assert(term_pairs_of(before) + (seq![pair] + cs) =~= term_pairs_of(out@) + cs);
                    }
                }
            },
        }
        i += 1;
    }
    assert(v@.skip(v@.len() as int) =~= Seq::<(Arc<RholangNode>, Arc<RholangNode>)>::empty());
    assert(term_pairs_of(out@) + Seq::<(Term, Term)>::empty() =~= term_pairs_of(out@));
    Ok(out)
}

/// Converts one receipt of a `for` (see `receipt_binding`).
fn receipt_to_mork(r: &Vec<Arc<RholangNode>>) -> (b: Result<(MorkForm, MorkForm), MorkError>)
    ensures
        binding_result(b) == receipt_binding(*r),
    decreases r, 2nat,
{
    if r.len() != 1 {
        return Err(MorkError::SingleBindPerReceipt);
    }
    proof { assert(decreases_to!(r => r@[0])); }
    match &*r[0] {
        RholangNode::LinearBind { names, source, .. } => {
            let pat = if names.len() == 1 {
                rholang_pattern_to_mork(&names[0])
            } else {
                wrap_forms(patterns_to_mork(names), 1)
            };
            let p = match pat {
                Ok(p) => p,
                Err(e) => {
                    return Err(e);
                },
            };
            match rholang_node_to_mork(source) {
                Ok(c) => Ok((p, c)),
                Err(e) => Err(e),
            }
        },
        _ => Err(MorkError::ExpectedLinearBind),
    }
}

/// Converts the receipts of a `for` in order; the first failure is the result.
fn receipts_to_mork(v: &Vec<Vec<Arc<RholangNode>>>) -> (r: Result<Vec<(MorkForm, MorkForm)>, MorkError>)
    ensures
        pairs_result(r) == receipt_bindings(v@),
    decreases v, 2nat,
{
    let mut out: Vec<(MorkForm, MorkForm)> = Vec::new();
    let mut i: usize = 0;
    assert(v@.skip(0) =~= v@);
    proof {
        if let Ok(bs) = receipt_bindings(v@) {
            assert(term_pairs_of(out@) + bs =~= bs);
        }
    }
    while i < v.len()
        invariant
            i <= v@.len(),
            receipt_bindings(v@) == match receipt_bindings(v@.skip(i as int)) {
                Err(e) => Err(e),
                Ok(bs) => Ok::<Seq<(Term, Term)>, MorkError>(term_pairs_of(out@) + bs),
            },
        decreases v@.len() - i,
    {
        assert(v@.skip(i as int).drop_first() =~= v@.skip(i as int + 1));
        assert(v@.skip(i as int)[0] == v@[i as int]);
        proof { assert(decreases_to!(v => v@[i as int])); }
        match receipt_to_mork(&v[i]) {
            Err(e) => {
                return Err(e);
            },
            Ok(pb) => {
                let ghost pair = (term_of(pb.0), term_of(pb.1));
                proof { lemma_pairs_push(out@, pb); }
                let ghost before = out@;
                out.push(pb);
                assert(term_pairs_of(before) + seq![pair] =~= term_pairs_of(out@));
                proof {
                    if let Ok(bs) = receipt_bindings(v@.skip(i as int + 1)) {
                        assert(term_pairs_of(before) + (seq![pair] + bs) =~= term_pairs_of(out@) + bs);
                    }
                }
            },
        }
        i += 1;
    }
    assert(v@.skip(v@.len() as int) =~= Seq::<Vec<Arc<RholangNode>>>::empty());
    assert(term_pairs_of(out@) + Seq::<(Term, Term)>::empty() =~= term_pairs_of(out@));
    Ok(out)
}

/// The name of a parameter pattern that simply binds a variable (`@x` or
/// `x`), if it is one.
pub open spec fn param_name(n: RholangNode) -> Option<Seq<char>> {
    match n {
        RholangNode::Quote { quotable, .. } => match *quotable {
            RholangNode::Var { name, .. } => Some(name@),
            _ => None,
        },
        RholangNode::Var { name, .. } => Some(name@),
        _ => None,
    }
}

/// The names of the parameters, when every parameter simply binds a variable.
pub open spec fn param_names(s: Seq<Arc<RholangNode>>) -> Option<Seq<Seq<char>>> {
    if forall|i: int| 0 <= i < s.len() ==> #[trigger] param_name(*s[i]) is Some {
        Some(Seq::new(s.len(), |i: int| param_name(*s[i])->0))
    } else {
        None
    }
}

/// The name and the parameter patterns of a contract definition.
pub fn extract_contract_signature(contract_node: &RholangNode) -> (r: Result<(String, RholangNodeVector), MorkError>)
    ensures
        match *contract_node {
            RholangNode::Contract { name, formals, .. } => match contract_name(*name) {
                Ok(cn) => r matches Ok(sig) && sig.0@ == cn && sig.1@ == formals@,
                Err(e) => r == Err::<(String, RholangNodeVector), MorkError>(e),
            },
            _ => r == Err::<(String, RholangNodeVector), MorkError>(MorkError::ExpectedContract(contract_node.spec_tag())),
        },
{
    match contract_node {
        RholangNode::Contract { name, formals, .. } => match contract_name_to_string(name) {
            Ok(cn) => Ok((cn, share_all(formals))),
            Err(e) => Err(e),
        },
        _ => Err(MorkError::ExpectedContract(contract_node.tag())),
    }
}

/// The names of the parameters if each is a simple variable pattern (`@x`
/// or `x`); `None` as soon as one is a more complex pattern.
pub fn extract_param_names(params: &Vec<Arc<RholangNode>>) -> (r: Option<Vec<String>>)
    ensures
        match r {
            Some(v) => param_names(params@) == Some(strings_of(v@)),
            None => param_names(params@) is None,
        },
{
    let mut names: Vec<String> = Vec::new();
    let mut i: usize = 0;
    while i < params.len()
        invariant
            i <= params@.len(),
            names@.len() == i,
            forall|j: int| 0 <= j < i ==> param_name(*params@[j]) == Some(#[trigger] names@[j]@),
        decreases params@.len() - i,
    {
        let name = match &*params[i] {
            RholangNode::Quote { quotable, .. } => match &**quotable {
                RholangNode::Var { name, .. } => copy_string(name),
                _ => {
                    assert(param_name(*params@[i as int]) is None);
                    return None;
                },
            },
            RholangNode::Var { name, .. } => copy_string(name),
            _ => {
                assert(param_name(*params@[i as int]) is None);
                return None;
            },
        };
        names.push(name);
        i += 1;
    }
    assert(forall|j: int| 0 <= j < params@.len() ==> #[trigger] param_name(*params@[j]) is Some) by {
        assert forall|j: int| 0 <= j < params@.len() implies #[trigger] param_name(*params@[j]) is Some by {
            assert(param_name(*params@[j]) == Some(names@[j]@));
        }
    }
    assert(Seq::new(params@.len(), |j: int| param_name(*params@[j])->0) =~= strings_of(names@)) by {
        assert forall|j: int| 0 <= j < params@.len() implies param_name(*params@[j])->0 == #[trigger] strings_of(names@)[j] by {
            assert(param_name(*params@[j]) == Some(names@[j]@));
        }
    }
    Some(names)
}

} // verus!
