//! The canonical form in which Rholang processes and patterns are indexed:
//! MORK terms, with the mathematical value each one stands for.
use vstd::prelude::*;

verus! {

/// A literal value of a MORK term.
#[derive(Debug, Clone)]
pub enum LiteralValue {
    Bool(bool),
    Int(i64),
    String(String),
    Uri(String),
}

/// A MORK term: processes and their pattern counterparts.
#[derive(Debug)]
pub enum MorkForm {
    Nil,
    Literal(LiteralValue),
    VarPattern(String),
    WildcardPattern,
    Name(Box<MorkForm>),
    List(Vec<MorkForm>),
    Tuple(Vec<MorkForm>),
    SetExpr(Vec<MorkForm>),
    MapExpr(Vec<(String, MorkForm)>),
    ListPattern(Vec<MorkForm>),
    TuplePattern(Vec<MorkForm>),
    SetPattern(Vec<MorkForm>),
    MapPattern(Vec<(String, MorkForm)>),
    Send { channel: Box<MorkForm>, arguments: Vec<MorkForm> },
    Par(Vec<MorkForm>),
    New { variables: Vec<String>, body: Box<MorkForm> },
    Contract { name: String, parameters: Vec<MorkForm>, body: Box<MorkForm> },
    For { bindings: Vec<(MorkForm, MorkForm)>, body: Box<MorkForm> },
    Match { target: Box<MorkForm>, cases: Vec<(MorkForm, MorkForm)> },
}

/// The value of a literal.
pub enum Literal {
    Bool(bool),
    Int(i64),
    Str(Seq<char>),
    Uri(Seq<char>),
}

/// The value of a MORK term.
pub enum Term {
    Nil,
    Literal(Literal),
    VarPattern(Seq<char>),
    WildcardPattern,
    Name(Box<Term>),
    List(Seq<Term>),
    Tuple(Seq<Term>),
    SetExpr(Seq<Term>),
    MapExpr(Seq<(Seq<char>, Term)>),
    ListPattern(Seq<Term>),
    TuplePattern(Seq<Term>),
    SetPattern(Seq<Term>),
    MapPattern(Seq<(Seq<char>, Term)>),
    Send(Box<Term>, Seq<Term>),
    Par(Seq<Term>),
    New(Seq<Seq<char>>, Box<Term>),
    Contract(Seq<char>, Seq<Term>, Box<Term>),
    For(Seq<(Term, Term)>, Box<Term>),
    Match(Box<Term>, Seq<(Term, Term)>),
}

/// The value of a literal.
pub open spec fn literal_of(l: LiteralValue) -> Literal {
    match l {
        LiteralValue::Bool(b) => Literal::Bool(b),
        LiteralValue::Int(i) => Literal::Int(i),
        LiteralValue::String(s) => Literal::Str(s@),
        LiteralValue::Uri(s) => Literal::Uri(s@),
    }
}

/// The value of a term.
pub open spec fn term_of(f: MorkForm) -> Term
    decreases f, 0nat,
{
    match f {
        MorkForm::Nil => Term::Nil,
        MorkForm::Literal(l) => Term::Literal(literal_of(l)),
        MorkForm::VarPattern(s) => Term::VarPattern(s@),
        MorkForm::WildcardPattern => Term::WildcardPattern,
        MorkForm::Name(b) => Term::Name(Box::new(term_of(*b))),
        MorkForm::List(v) => Term::List(terms_of(v@)),
        MorkForm::Tuple(v) => Term::Tuple(terms_of(v@)),
        MorkForm::SetExpr(v) => Term::SetExpr(terms_of(v@)),
        MorkForm::MapExpr(v) => Term::MapExpr(named_terms_of(v@)),
        MorkForm::ListPattern(v) => Term::ListPattern(terms_of(v@)),
        MorkForm::TuplePattern(v) => Term::TuplePattern(terms_of(v@)),
        MorkForm::SetPattern(v) => Term::SetPattern(terms_of(v@)),
        MorkForm::MapPattern(v) => Term::MapPattern(named_terms_of(v@)),
        MorkForm::Send { channel, arguments } => Term::Send(Box::new(term_of(*channel)), terms_of(arguments@)),
        MorkForm::Par(v) => Term::Par(terms_of(v@)),
        MorkForm::New { variables, body } => Term::New(strings_of(variables@), Box::new(term_of(*body))),
        MorkForm::Contract { name, parameters, body } => Term::Contract(
            name@,
            terms_of(parameters@),
            Box::new(term_of(*body)),
        ),
        MorkForm::For { bindings, body } => Term::For(term_pairs_of(bindings@), Box::new(term_of(*body))),
        MorkForm::Match { target, cases } => Term::Match(Box::new(term_of(*target)), term_pairs_of(cases@)),
    }
}

/// The values of a sequence of terms.
pub open spec fn terms_of(s: Seq<MorkForm>) -> Seq<Term>
    decreases s, 1nat,
{
    if s.len() == 0 {
        Seq::empty()
    } else {
        terms_of(s.drop_last()).push(term_of(s.last()))
    }
}

/// The values of a sequence of keyed terms.
pub open spec fn named_terms_of(s: Seq<(String, MorkForm)>) -> Seq<(Seq<char>, Term)>
    decreases s, 1nat,
{
    if s.len() == 0 {
        Seq::empty()
    } else {
        named_terms_of(s.drop_last()).push((s.last().0@, term_of(s.last().1)))
    }
}

/// The values of a sequence of term pairs.
pub open spec fn term_pairs_of(s: Seq<(MorkForm, MorkForm)>) -> Seq<(Term, Term)>
    decreases s, 1nat,
{
    if s.len() == 0 {
        Seq::empty()
    } else {
        term_pairs_of(s.drop_last()).push((term_of(s.last().0), term_of(s.last().1)))
    }
}

/// The values of a sequence of strings.
pub open spec fn strings_of(s: Seq<String>) -> Seq<Seq<char>> {
    s.map_values(|x: String| x@)
}

impl View for MorkForm {
    type V = Term;

    open spec fn view(&self) -> Term {
        term_of(*self)
    }
}

} // verus!
