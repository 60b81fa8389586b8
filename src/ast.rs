//! The syntax tree of a program, and its mathematical view.

use vstd::prelude::*;

verus! {

broadcast use vstd::std_specs::vec::axiom_vec_decreases_to_view, vstd::seq::axiom_seq_index_decreases;

/// One of the four enumerated category values.
#[derive(Debug, Clone, Copy, PartialEq, Eq, Structural)]
pub enum HogwartsHouse {
    Gryffindor,
    Hufflepuff,
    Ravenclaw,
    Slytherin,
}

/// A literal or a variable reference.
///
/// A double is held as its IEEE-754 bit pattern: the library carries it and
/// compares it, and leaves arithmetic on it to the host.
#[derive(Debug, PartialEq, Clone)]
pub enum Atom {
    String(String),
    Variable(String),
    Boolean(bool),
    Integer(i64),
    Double(u64),
    HogwartsHouse(HogwartsHouse),
}

/// The built-in commands.
#[derive(Debug, Clone, Copy, PartialEq, Eq, Structural)]
pub enum Spell {
    Aguamenti,
    AvadaKedabra,
    Engorgio,
    Incendio,
    Inmobolus,
    Lumos,
    Nox,
    Obliviate,
    OculusReparo,
    Periculum,
    Reducio,
    PetrificusTotalus,
    Revelio,
    Serpensortia,
    WingardiumLeviosa,
}

/// The binary operators.
#[derive(Debug, Clone, Copy, PartialEq, Eq, Structural)]
pub enum BinaryOperation {
    Plus,
    Minus,
    Times,
    Divide,
    Equal,
    NotEqual,
}

/// An expression tree.
#[derive(Debug, PartialEq)]
pub enum Expression {
    SpellCast(Spell, Box<Option<Expression>>),
    BinaryOperation(BinaryOperation, Box<Expression>, Box<Expression>),
    Atom(Atom),
    Comment(String),
    SortingHat,
}

/// A statement.
#[derive(Debug, PartialEq)]
pub enum Statement {
    VariableAssignment(String, Expression),
    ExpressionStatement(Expression),
    If(Expression, Vec<Statement>, Vec<Statement>),
    Quidditch(Vec<Statement>),
    Snitch,
}

/// A whole program: its top-level statements in order.
#[derive(Debug, PartialEq)]
pub struct Program(pub Vec<Statement>);

/// The mathematical value of an atom.
pub enum AtomV {
    Str(Seq<char>),
    Var(Seq<char>),
    Bool(bool),
    Int(i64),
    Dbl(u64),
    House(HogwartsHouse),
}

/// The mathematical value of an expression.
pub enum ExprV {
    Cast(Spell, Option<Box<ExprV>>),
    Bin(BinaryOperation, Box<ExprV>, Box<ExprV>),
    Atom(AtomV),
    Comment(Seq<char>),
    Hat,
}

/// The mathematical value of a statement.
pub enum StmtV {
    Assign(Seq<char>, ExprV),
    Expr(ExprV),
    If(ExprV, Seq<StmtV>, Seq<StmtV>),
    Loop(Seq<StmtV>),
    Snitch,
}

impl View for BinaryOperation {
    type V = BinaryOperation;

    open spec fn view(&self) -> BinaryOperation {
        *self
    }
}

impl View for Atom {
    type V = AtomV;

    open spec fn view(&self) -> AtomV {
        match self {
            Atom::String(s) => AtomV::Str(s@),
            Atom::Variable(s) => AtomV::Var(s@),
            Atom::Boolean(b) => AtomV::Bool(*b),
            Atom::Integer(n) => AtomV::Int(*n),
            Atom::Double(d) => AtomV::Dbl(*d),
            Atom::HogwartsHouse(h) => AtomV::House(*h),
        }
    }
}

/// The view of an expression.
pub open spec fn expr_view(e: Expression) -> ExprV
    decreases e,
{
    match e {
        Expression::SpellCast(spell, target) => match *target {
            Some(t) => ExprV::Cast(spell, Some(Box::new(expr_view(t)))),
            None => ExprV::Cast(spell, None),
        },
        Expression::BinaryOperation(op, l, r) => ExprV::Bin(
            op,
            Box::new(expr_view(*l)),
            Box::new(expr_view(*r)),
        ),
        Expression::Atom(a) => ExprV::Atom(a@),
        Expression::Comment(c) => ExprV::Comment(c@),
        Expression::SortingHat => ExprV::Hat,
    }
}

impl View for Expression {
    type V = ExprV;

    open spec fn view(&self) -> ExprV {
        expr_view(*self)
    }
}

/// The view of a statement.
pub open spec fn stmt_view(s: Statement) -> StmtV
    decreases s, 1nat,
{
    match s {
        Statement::VariableAssignment(name, e) => StmtV::Assign(name@, e@),
        Statement::ExpressionStatement(e) => StmtV::Expr(e@),
        Statement::If(c, t, f) => StmtV::If(c@, stmts_view(t@), stmts_view(f@)),
        Statement::Quidditch(body) => StmtV::Loop(stmts_view(body@)),
        Statement::Snitch => StmtV::Snitch,
    }
}

/// The views of a sequence of statements, one for one.
pub open spec fn stmts_view(ss: Seq<Statement>) -> Seq<StmtV>
    decreases ss, 0nat,
{
    if ss.len() == 0 {
        Seq::empty()
    } else {
        stmts_view(ss.drop_last()).push(stmt_view(ss.last()))
    }
}

impl View for Statement {
    type V = StmtV;

    open spec fn view(&self) -> StmtV {
        stmt_view(*self)
    }
}

impl View for Program {
    type V = Seq<StmtV>;

    open spec fn view(&self) -> Seq<StmtV> {
        stmts_view(self.0@)
    }
}

/// The view of a statement sequence has one view per statement, in order.
pub proof fn lemma_stmts_view_index(ss: Seq<Statement>)
    ensures
        stmts_view(ss).len() == ss.len(),
        forall|i: int| 0 <= i < ss.len() ==> #[trigger] stmts_view(ss)[i] == stmt_view(ss[i]),
    decreases ss.len(),
{
    if ss.len() > 0 {
        lemma_stmts_view_index(ss.drop_last());
    }
}

impl From<Atom> for Expression {
    fn from(atom: Atom) -> (r: Expression)
        ensures
            r == Expression::Atom(atom),
    {
        Expression::Atom(atom)
    }
}

impl vstd::std_specs::convert::FromSpecImpl<Atom> for Expression {
    open spec fn obeys_from_spec() -> bool {
        true
    }

    open spec fn from_spec(atom: Atom) -> Expression {
        Expression::Atom(atom)
    }
}

} // verus!
