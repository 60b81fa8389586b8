//! The evaluator: expression evaluation over the bindings, and a step
//! machine over statements that hands its outside work to the host.

use vstd::prelude::*;
use crate::ast::{
    stmt_view, stmts_view, Atom, AtomV, BinaryOperation, ExprV, Expression, HogwartsHouse, Program, Spell,
    Statement, StmtV,
};
use crate::env::Environment;
use crate::value::{
    apply, float_result, int_result, spec_apply, view_option, view_result, ErrorV, EvalError,
    FloatRequest, Halt, HaltV, RuntimeValue, ValueV, DOUBLE_ONE,
};

verus! {

broadcast use vstd::std_specs::vec::axiom_vec_index_decreases;

// Text

/// The decimal digits of a natural number.
pub open spec fn digits_text(n: nat) -> Seq<char>
    decreases n,
{
    if n < 10 {
        seq![(n + 48) as char]
    } else {
        digits_text(n / 10).push(((n % 10) + 48) as char)
    }
}

/// The decimal text of an integer, with a '-' before a negative one.
pub open spec fn int_text(n: int) -> Seq<char> {
    if n < 0 {
        seq!['-'] + digits_text((-n) as nat)
    } else {
        digits_text(n as nat)
    }
}

pub open spec fn upper_char(c: char) -> char {
    if 97 <= c as u32 && c as u32 <= 122 {
        ((c as u32) - 32) as char
    } else {
        c
    }
}

pub open spec fn lower_char(c: char) -> char {
    if 65 <= c as u32 && c as u32 <= 90 {
        ((c as u32) + 32) as char
    } else {
        c
    }
}

pub open spec fn ascii_upper(s: Seq<char>) -> Seq<char> {
    s.map_values(|c: char| upper_char(c))
}

pub open spec fn ascii_lower(s: Seq<char>) -> Seq<char> {
    s.map_values(|c: char| lower_char(c))
}

/// Relies on `i64`'s `Display` (through `to_string`): the decimal digits of
/// the number, after a '-' where it is negative.
#[verifier::external_body]
fn integer_text(n: i64) -> (r: String)
    ensures
        r@ == int_text(n as int),
{
    n.to_string()
}

/// Relies on `str::to_ascii_uppercase`: 'a' to 'z' become 'A' to 'Z', every
/// other character stays.
#[verifier::external_body]
fn to_upper(s: &str) -> (r: String)
    ensures
        r@ == ascii_upper(s@),
{
    s.to_ascii_uppercase()
}

/// Relies on `str::to_ascii_lowercase`: 'A' to 'Z' become 'a' to 'z', every
/// other character stays.
#[verifier::external_body]
fn to_lower(s: &str) -> (r: String)
    ensures
        r@ == ascii_lower(s@),
{
    s.to_ascii_lowercase()
}

pub open spec fn house_name(h: HogwartsHouse) -> Seq<char> {
    match h {
        HogwartsHouse::Gryffindor => "Gryffindor"@,
        HogwartsHouse::Hufflepuff => "Hufflepuff"@,
        HogwartsHouse::Ravenclaw => "Ravenclaw"@,
        HogwartsHouse::Slytherin => "Slytherin"@,
    }
}

/// What the output command writes: text, or a double that the host renders.
#[derive(Debug, PartialEq, Clone)]
pub enum Output {
    Text(String),
    Double(u64),
}

pub enum OutputV {
    Text(Seq<char>),
    Double(u64),
}

impl View for Output {
    type V = OutputV;

    open spec fn view(&self) -> OutputV {
        match self {
            Output::Text(s) => OutputV::Text(s@),
            Output::Double(d) => OutputV::Double(*d),
        }
    }
}

/// The display text of a value.
pub open spec fn render(v: ValueV) -> OutputV {
    match v {
        ValueV::Int(n) => OutputV::Text(int_text(n as int)),
        ValueV::Dbl(d) => OutputV::Double(d),
        ValueV::Bool(b) => OutputV::Text(if b { "true"@ } else { "false"@ }),
        ValueV::Str(s) => OutputV::Text(s),
        ValueV::House(h) => OutputV::Text(house_name(h)),
    }
}

/// The display text of a value.
pub fn render_value(v: &RuntimeValue) -> (r: Output)
    ensures
        r@ == render(v@),
{
    match v {
        RuntimeValue::Integer(n) => Output::Text(integer_text(*n)),
        RuntimeValue::Double(d) => Output::Double(*d),
        RuntimeValue::Boolean(b) => Output::Text(String::from_str(if *b { "true" } else { "false" })),
        RuntimeValue::String(s) => Output::Text(s.clone()),
        RuntimeValue::HogwartsHouse(h) => Output::Text(
            String::from_str(
                match h {
                    HogwartsHouse::Gryffindor => "Gryffindor",
                    HogwartsHouse::Hufflepuff => "Hufflepuff",
                    HogwartsHouse::Ravenclaw => "Ravenclaw",
                    HogwartsHouse::Slytherin => "Slytherin",
                },
            ),
        ),
    }
}

impl Atom {
    /// The text of the atom as written, but for a double, whose text the host
    /// renders: `None` there.
    pub fn to_string(&self) -> (r: Option<String>)
        ensures
            r matches Some(t) ==> match self@ {
                AtomV::Str(s) => t@ == s,
                AtomV::Var(s) => t@ == s,
                AtomV::Bool(b) => t@ == if b { "true"@ } else { "false"@ },
                AtomV::Int(n) => t@ == int_text(n as int),
                AtomV::House(h) => t@ == house_name(h),
                AtomV::Dbl(_) => false,
            },
            r is None <==> self@ is Dbl,
    {
        match self {
            Atom::String(s) => Some(s.clone()),
            Atom::Variable(s) => Some(s.clone()),
            Atom::Double(_) => None,
            Atom::Boolean(b) => Some(String::from_str(if *b { "true" } else { "false" })),
            Atom::Integer(n) => Some(integer_text(*n)),
            Atom::HogwartsHouse(h) => match render_value(&RuntimeValue::HogwartsHouse(*h)) {
                Output::Text(t) => Some(t),
                Output::Double(_) => None,
            },
        }
    }
}

// Effects

/// Outside work that a step asks the host to perform, in order.
#[derive(Debug, PartialEq, Clone)]
pub enum Effect {
    /// Write a line to the output sink; the flag asks for inverse video.
    Write(Output, bool),
    /// Pause for this many milliseconds.
    Sleep(i64),
}

pub enum EffectV {
    Write(OutputV, bool),
    Sleep(i64),
}

impl View for Effect {
    type V = EffectV;

    open spec fn view(&self) -> EffectV {
        match self {
            Effect::Write(o, s) => EffectV::Write(o@, *s),
            Effect::Sleep(ms) => EffectV::Sleep(*ms),
        }
    }
}

pub open spec fn effects_view(s: Seq<Effect>) -> Seq<EffectV> {
    s.map_values(|e: Effect| e@)
}

pub open spec fn fire() -> Seq<char> {
    "\u{1F525}"@
}

pub open spec fn fires() -> Seq<char> {
    "\u{1F525}\u{1F525}\u{1F525}\u{1F525}\u{1F525}\u{1F525}\u{1F525}\u{1F525}\u{1F525}"@
}

pub open spec fn house_of(k: int) -> HogwartsHouse {
    if k == 0 {
        HogwartsHouse::Gryffindor
    } else if k == 1 {
        HogwartsHouse::Hufflepuff
    } else if k == 2 {
        HogwartsHouse::Ravenclaw
    } else {
        HogwartsHouse::Slytherin
    }
}

// Expression semantics

/// The bindings that evaluation reads and changes.
pub struct Scope {
    pub vars: Map<Seq<char>, ValueV>,
    pub consts: Map<Seq<char>, ValueV>,
    pub spotlight: bool,
}

/// The outcome of evaluating an expression: the new bindings, the effects in
/// order, and the value (if any) or why evaluation stopped.
pub type EvalV = (Scope, Seq<EffectV>, Result<Option<ValueV>, HaltV>);

pub open spec fn var_target(t: Option<Box<ExprV>>) -> Option<Seq<char>> {
    match t {
        Some(b) => match *b {
            ExprV::Atom(AtomV::Var(n)) => Some(n),
            _ => None,
        },
        None => None,
    }
}

pub open spec fn str_target(t: Option<Box<ExprV>>) -> Option<Seq<char>> {
    match t {
        Some(b) => match *b {
            ExprV::Atom(AtomV::Str(s)) => Some(s),
            _ => None,
        },
        None => None,
    }
}

pub open spec fn int_target(t: Option<Box<ExprV>>) -> Option<i64> {
    match t {
        Some(b) => match *b {
            ExprV::Atom(AtomV::Int(n)) => Some(n),
            _ => None,
        },
        None => None,
    }
}

pub open spec fn done(sc: Scope, v: Option<ValueV>) -> EvalV {
    (sc, Seq::empty(), Ok(v))
}

pub open spec fn halted(sc: Scope, h: HaltV) -> EvalV {
    (sc, Seq::empty(), Err(h))
}

/// Increment: integers by one, doubles by one through the host, strings to
/// upper case.
pub open spec fn grown(v: ValueV, answer: Option<ValueV>) -> Result<ValueV, HaltV> {
    match v {
        ValueV::Int(n) => int_result(n + 1),
        ValueV::Dbl(d) => float_result(BinaryOperation::Plus, d, DOUBLE_ONE, answer),
        ValueV::Str(s) => Ok(ValueV::Str(ascii_upper(s))),
        _ => Err(HaltV::Fail(ErrorV::TypeMismatch)),
    }
}

/// Decrement: integers by one, doubles by one through the host, strings to
/// lower case.
pub open spec fn shrunk(v: ValueV, answer: Option<ValueV>) -> Result<ValueV, HaltV> {
    match v {
        ValueV::Int(n) => int_result(n - 1),
        ValueV::Dbl(d) => float_result(BinaryOperation::Minus, d, DOUBLE_ONE, answer),
        ValueV::Str(s) => Ok(ValueV::Str(ascii_lower(s))),
        _ => Err(HaltV::Fail(ErrorV::TypeMismatch)),
    }
}

/// A string with `suffix` appended; any other value is a type error.
pub open spec fn suffixed(v: ValueV, suffix: Seq<char>) -> Result<ValueV, HaltV> {
    match v {
        ValueV::Str(s) => Ok(ValueV::Str(s + suffix)),
        _ => Err(HaltV::Fail(ErrorV::TypeMismatch)),
    }
}

/// A command that rewrites the variable `name` in place by `f` of its value.
pub open spec fn rewrite(sc: Scope, name: Seq<char>, f: Result<ValueV, HaltV>) -> EvalV {
    if !sc.vars.contains_key(name) {
        halted(sc, HaltV::Fail(ErrorV::UnknownVariable(name)))
    } else {
        match f {
            Ok(v) => done(Scope { vars: sc.vars.insert(name, v), ..sc }, None),
            Err(h) => halted(sc, h),
        }
    }
}

/// Every command but the output command with a target.
pub open spec fn spec_eval_spell(sc: Scope, spell: Spell, t: Option<Box<ExprV>>, answer: Option<ValueV>) -> EvalV {
    match spell {
        Spell::AvadaKedabra => halted(sc, HaltV::Exit),
        Spell::Inmobolus => match int_target(t) {
            Some(ms) => (sc, seq![EffectV::Sleep(ms)], Ok(None)),
            None => done(sc, None),
        },
        Spell::Incendio => match var_target(t) {
            Some(name) => rewrite(sc, name, suffixed(sc.vars[name], fire())),
            None => match str_target(t) {
                Some(s) => done(sc, Some(ValueV::Str(s + fire()))),
                None => done(sc, None),
            },
        },
        Spell::WingardiumLeviosa => match var_target(t) {
            Some(name) => rewrite(sc, name, suffixed(sc.vars[name], seq!['\n'])),
            None => match str_target(t) {
                Some(s) => done(sc, Some(ValueV::Str(s + seq!['\n']))),
                None => done(sc, None),
            },
        },
        Spell::Aguamenti => done(sc, Some(ValueV::Str("\u{1F4A6}"@))),
        Spell::OculusReparo => done(sc, Some(ValueV::Str("\u{1F453}"@))),
        Spell::Serpensortia => done(sc, Some(ValueV::Str("\u{1F40D}"@))),
        Spell::Periculum => (sc, seq![EffectV::Write(OutputV::Text(fires()), false)], Ok(None)),
        Spell::Lumos => done(Scope { spotlight: true, ..sc }, None),
        Spell::Nox => done(Scope { spotlight: false, ..sc }, None),
        Spell::Engorgio => match var_target(t) {
            Some(name) => rewrite(sc, name, grown(sc.vars[name], answer)),
            None => done(sc, None),
        },
        Spell::Reducio => match var_target(t) {
            Some(name) => rewrite(sc, name, shrunk(sc.vars[name], answer)),
            None => done(sc, None),
        },
        Spell::Obliviate => match var_target(t) {
            Some(name) => done(Scope { vars: sc.vars.remove(name), ..sc }, None),
            None => done(sc, None),
        },
        Spell::PetrificusTotalus => match var_target(t) {
            Some(name) => if sc.vars.contains_key(name) {
                done(
                    Scope {
                        vars: sc.vars.remove(name),
                        consts: sc.consts.insert(name, sc.vars[name]),
                        ..sc
                    },
                    None,
                )
            } else {
                done(sc, None)
            },
            None => done(sc, None),
        },
        Spell::Revelio => done(sc, None),
    }
}

/// Evaluation of an atom: a variable reads its binding.
pub open spec fn spec_eval_atom(sc: Scope, a: AtomV) -> Result<ValueV, HaltV> {
    match a {
        AtomV::Var(name) => if sc.vars.contains_key(name) {
            Ok(sc.vars[name])
        } else {
            Err(HaltV::Fail(ErrorV::UnknownVariable(name)))
        },
        AtomV::Str(s) => Ok(ValueV::Str(s)),
        AtomV::Bool(b) => Ok(ValueV::Bool(b)),
        AtomV::Int(n) => Ok(ValueV::Int(n)),
        AtomV::Dbl(d) => Ok(ValueV::Dbl(d)),
        AtomV::House(h) => Ok(ValueV::House(h)),
    }
}

/// Evaluation of an expression, given the host's random draw and its answer
/// to a pending double operation.
pub open spec fn spec_eval(sc: Scope, e: ExprV, draw: usize, answer: Option<ValueV>) -> EvalV
    decreases e,
{
    match e {
        ExprV::Cast(Spell::Revelio, Some(t)) => {
            let (sc1, eff, res) = spec_eval(sc, *t, draw, answer);
            match res {
                Err(h) => (sc1, eff, Err(h)),
                Ok(v) => {
                    let text = match v {
                        Some(v) => render(v),
                        None => OutputV::Text(Seq::empty()),
                    };
                    (sc1, eff.push(EffectV::Write(text, sc1.spotlight)), Ok(None))
                },
            }
        },
        ExprV::Cast(spell, t) => spec_eval_spell(sc, spell, t, answer),
        ExprV::Bin(op, l, r) => {
            let (sc1, e1, r1) = spec_eval(sc, *l, draw, answer);
            match r1 {
                Err(h) => (sc1, e1, Err(h)),
                Ok(lv) => {
                    let (sc2, e2, r2) = spec_eval(sc1, *r, draw, answer);
                    match r2 {
                        Err(h) => (sc2, e1 + e2, Err(h)),
                        Ok(rv) => match (lv, rv) {
                            (Some(a), Some(b)) => match spec_apply(op, a, b, answer) {
                                Ok(v) => (sc2, e1 + e2, Ok(Some(v))),
                                Err(h) => (sc2, e1 + e2, Err(h)),
                            },
                            _ => (sc2, e1 + e2, Ok(None)),
                        },
                    }
                },
            }
        },
        ExprV::Atom(a) => match spec_eval_atom(sc, a) {
            Ok(v) => done(sc, Some(v)),
            Err(h) => halted(sc, h),
        },
        ExprV::Comment(_) => done(sc, None),
        ExprV::Hat => done(sc, Some(ValueV::House(house_of((draw % 4) as int)))),
    }
}

pub open spec fn view_eval(r: Result<Option<RuntimeValue>, Halt>) -> Result<Option<ValueV>, HaltV> {
    match r {
        Ok(v) => Ok(view_option(v)),
        Err(h) => Err(h@),
    }
}

/// The variables, the constants and the spotlight mode.
pub struct Bindings {
    variables: Environment<RuntimeValue>,
    constants: Environment<RuntimeValue>,
    is_lumos_casted: bool,
}

impl Bindings {
    pub closed spec fn wf(&self) -> bool {
        self.variables.wf() && self.constants.wf()
    }

    pub closed spec fn view(&self) -> Scope {
        Scope {
            vars: self.variables.view(),
            consts: self.constants.view(),
            spotlight: self.is_lumos_casted,
        }
    }

    pub fn new() -> (r: Self)
        ensures
            r.wf(),
            r.view() == (Scope {
                vars: Map::empty(),
                consts: Map::empty(),
                spotlight: false,
            }),
    {
        Bindings { variables: Environment::new(), constants: Environment::new(), is_lumos_casted: false }
    }

    pub fn variable(&self, name: &String) -> (r: Option<RuntimeValue>)
        requires
            self.wf(),
        ensures
            r is None <==> !self.view().vars.contains_key(name@),
            r matches Some(v) ==> self.view().vars[name@] == v@,
    {
        match self.variables.get(name) {
            Some(v) => Some(v.clone_value()),
            None => None,
        }
    }

    pub fn constant(&self, name: &String) -> (r: Option<RuntimeValue>)
        requires
            self.wf(),
        ensures
            r is None <==> !self.view().consts.contains_key(name@),
            r matches Some(v) ==> self.view().consts[name@] == v@,
    {
        match self.constants.get(name) {
            Some(v) => Some(v.clone_value()),
            None => None,
        }
    }

    pub fn spotlight(&self) -> (r: bool)
        ensures
            r == self.view().spotlight,
    {
        self.is_lumos_casted
    }

    pub fn is_constant(&self, name: &String) -> (r: bool)
        requires
            self.wf(),
        ensures
            r == self.view().consts.contains_key(name@),
    {
        self.constants.contains(name)
    }

    pub fn assign(&mut self, name: String, v: RuntimeValue)
        requires
            old(self).wf(),
        ensures
            final(self).wf(),
            final(self).view() == (Scope { vars: old(self).view().vars.insert(name@, v@), ..old(self).view() }),
    {
        self.variables.insert(name, v);
    }

    fn rewrite_with(&mut self, name: &String, f: Result<RuntimeValue, Halt>) -> (r: Result<
        Option<RuntimeValue>,
        Halt,
    >)
        requires
            old(self).wf(),
            old(self).view().vars.contains_key(name@),
        ensures
            final(self).wf(),
            ({
                let (sc, eff, res) = rewrite(old(self).view(), name@, view_result(f));
                final(self).view() == sc && eff.len() == 0 && view_eval(r) == res
            }),
    {
        match f {
            Ok(v) => {
                self.assign(name.clone(), v);
                Ok(None)
            },
            Err(h) => Err(h),
        }
    }

    /// The commands that append to a string.
    fn eval_suffix_spell(&mut self, spell: Spell, target: &Option<Expression>, answer: &Option<RuntimeValue>) -> (r: Result<
        Option<RuntimeValue>,
        Halt,
    >)
        requires
            old(self).wf(),
            spell == Spell::Incendio || spell == Spell::WingardiumLeviosa,
        ensures
            final(self).wf(),
            ({
                let t = match *target {
                    Some(e) => Some(Box::new(e@)),
                    None => None,
                };
                let (sc, eff, res) = spec_eval_spell(old(self).view(), spell, t, view_option(*answer));
                final(self).view() == sc && eff.len() == 0 && view_eval(r) == res
            }),
    {
        let suffix = if spell == Spell::Incendio { "\u{1F525}" } else { "\n" };
        proof {
            reveal_strlit("\n");
            assert(suffix@ == (if spell == Spell::Incendio { fire() } else { seq!['\n'] }));
        }
        match target {
            Some(Expression::Atom(Atom::Variable(name))) => match self.variables.get(name) {
                None => Err(Halt::Fail(EvalError::UnknownVariable(name.clone()))),
                Some(RuntimeValue::String(s)) => {
                    let v = RuntimeValue::String(s.clone().concat(suffix));
                    self.rewrite_with(name, Ok(v))
                },
                Some(_) => self.rewrite_with(name, Err(Halt::Fail(EvalError::TypeMismatch))),
            },
            Some(Expression::Atom(Atom::String(s))) => Ok(
                Some(RuntimeValue::String(s.clone().concat(suffix))),
            ),
            _ => Ok(None),
        }
    }

    /// The commands that step a variable up or down.
    fn eval_step_spell(&mut self, spell: Spell, target: &Option<Expression>, answer: &Option<RuntimeValue>) -> (r:
        Result<Option<RuntimeValue>, Halt>)
        requires
            old(self).wf(),
            spell == Spell::Engorgio || spell == Spell::Reducio,
        ensures
            final(self).wf(),
            ({
                let t = match *target {
                    Some(e) => Some(Box::new(e@)),
                    None => None,
                };
                let (sc, eff, res) = spec_eval_spell(old(self).view(), spell, t, view_option(*answer));
                final(self).view() == sc && eff.len() == 0 && view_eval(r) == res
            }),
    {
        match target {
            Some(Expression::Atom(Atom::Variable(name))) => match self.variables.get(name) {
                None => Err(Halt::Fail(EvalError::UnknownVariable(name.clone()))),
                Some(v) => {
                    let f = if spell == Spell::Engorgio {
                        grow(v, answer)
                    } else {
                        shrink(v, answer)
                    };
                    self.rewrite_with(name, f)
                },
            },
            _ => Ok(None),
        }
    }

    /// Every command but the output command with a target, the pause and the
    /// fire command (whose effects `eval_expression` produces).
    fn eval_spell(&mut self, spell: Spell, target: &Option<Expression>, answer: &Option<RuntimeValue>) -> (r:
        Result<Option<RuntimeValue>, Halt>)
        requires
            old(self).wf(),
            spell != Spell::Inmobolus,
            spell != Spell::Periculum,
        ensures
            final(self).wf(),
            ({
                let t = match *target {
                    Some(e) => Some(Box::new(e@)),
                    None => None,
                };
                let (sc, eff, res) = spec_eval_spell(old(self).view(), spell, t, view_option(*answer));
                final(self).view() == sc && eff.len() == 0 && view_eval(r) == res
            }),
    {
        proof {
            reveal_strlit("\u{1F525}");
        }
        match spell {
            Spell::AvadaKedabra => Err(Halt::Exit),
            Spell::Aguamenti => Ok(Some(RuntimeValue::String(String::from_str("\u{1F4A6}")))),
            Spell::OculusReparo => Ok(Some(RuntimeValue::String(String::from_str("\u{1F453}")))),
            Spell::Serpensortia => Ok(Some(RuntimeValue::String(String::from_str("\u{1F40D}")))),
            Spell::Lumos => {
                self.is_lumos_casted = true;
                Ok(None)
            },
            Spell::Nox => {
                self.is_lumos_casted = false;
                Ok(None)
            },
            Spell::Incendio | Spell::WingardiumLeviosa => self.eval_suffix_spell(spell, target, answer),
            Spell::Engorgio | Spell::Reducio => self.eval_step_spell(spell, target, answer),
            Spell::Obliviate => {
                match target {
                    Some(Expression::Atom(Atom::Variable(name))) => {
                        self.variables.remove(name);
                        Ok(None)
                    },
                    _ => Ok(None),
                }
            },
            Spell::PetrificusTotalus => {
                match target {
                    Some(Expression::Atom(Atom::Variable(name))) => {
                        let ghost before = self.variables.view();
                        match self.variables.remove(name) {
                            Some(v) => {
                                self.constants.insert(name.clone(), v);
                            },
                            None => {
                                assert(self.variables.view() =~= before);
                            },
                        }
                        Ok(None)
                    },
                    _ => Ok(None),
                }
            },
            _ => Ok(None),
        }
    }
}

impl Bindings {
    fn eval_atom(&self, a: &Atom) -> (r: Result<Option<RuntimeValue>, Halt>)
        requires
            self.wf(),
        ensures
            view_eval(r) == match spec_eval_atom(self.view(), a@) {
                Ok(v) => Ok::<Option<ValueV>, HaltV>(Some(v)),
                Err(h) => Err(h),
            },
    {
        match a {
            Atom::Variable(name) => match self.variables.get(name) {
                Some(v) => Ok(Some(v.clone_value())),
                None => Err(Halt::Fail(EvalError::UnknownVariable(name.clone()))),
            },
            Atom::String(s) => Ok(Some(RuntimeValue::String(s.clone()))),
            Atom::Boolean(b) => Ok(Some(RuntimeValue::Boolean(*b))),
            Atom::Integer(n) => Ok(Some(RuntimeValue::Integer(*n))),
            Atom::Double(d) => Ok(Some(RuntimeValue::Double(*d))),
            Atom::HogwartsHouse(h) => Ok(Some(RuntimeValue::HogwartsHouse(*h))),
        }
    }

    /// Evaluates an expression, appending its effects to `out`.
    pub fn eval_expression(
        &mut self,
        e: &Expression,
        draw: usize,
        answer: &Option<RuntimeValue>,
        out: &mut Vec<Effect>,
    ) -> (r: Result<Option<RuntimeValue>, Halt>)
        requires
            old(self).wf(),
        ensures
            final(self).wf(),
            ({
                let (sc, eff, res) = spec_eval(old(self).view(), e@, draw, view_option(*answer));
                final(self).view() == sc && effects_view(final(out)@) == effects_view(old(out)@) + eff
                    && view_eval(r) == res
            }),
        decreases e,
    {
        let ghost out0 = out@;
        match e {
            Expression::SpellCast(Spell::Revelio, target) => match &**target {
                Some(t) => {
                    let v = match self.eval_expression(t, draw, answer, out) {
                        Ok(v) => v,
                        Err(h) => return Err(h),
                    };
                    let text = match v {
                        Some(v) => render_value(&v),
                        None => Output::Text(String::new()),
                    };
                    let ghost mid = out@;
                    out.push(Effect::Write(text, self.is_lumos_casted));
                    assert(effects_view(out@) =~= effects_view(mid).push(out@.last()@));
                    Ok(None)
                },
                None => {
                    assert(effects_view(out@) =~= effects_view(out0) + Seq::empty());
                    Ok(None)
                },
            },
            Expression::SpellCast(Spell::Inmobolus, target) => {
                match &**target {
                    Some(Expression::Atom(Atom::Integer(n))) => {
                        out.push(Effect::Sleep(*n));
                        assert(effects_view(out@) =~= effects_view(out0) + seq![EffectV::Sleep(*n)]);
                    },
                    _ => {
                        assert(effects_view(out@) =~= effects_view(out0) + Seq::empty());
                    },
                }
                Ok(None)
            },
            Expression::SpellCast(Spell::Periculum, _) => {
                let text = String::from_str(
                    "\u{1F525}\u{1F525}\u{1F525}\u{1F525}\u{1F525}\u{1F525}\u{1F525}\u{1F525}\u{1F525}",
                );
                out.push(Effect::Write(Output::Text(text), false));
                assert(effects_view(out@) =~= effects_view(out0) + seq![
                    EffectV::Write(OutputV::Text(fires()), false),
                ]);
                Ok(None)
            },
            Expression::SpellCast(spell, target) => {
                assert(effects_view(out@) =~= effects_view(out0) + Seq::empty());
                self.eval_spell(*spell, &**target, answer)
            },
            Expression::BinaryOperation(op, l, r) => {
                let lv = match self.eval_expression(l, draw, answer, out) {
                    Ok(v) => v,
                    Err(h) => return Err(h),
                };
                let ghost out1 = out@;
                let rv = self.eval_expression(r, draw, answer, out);
                assert(effects_view(out@) =~= effects_view(out0) + (effects_view(out1).subrange(
                    effects_view(out0).len() as int,
                    effects_view(out1).len() as int,
                ) + effects_view(out@).subrange(effects_view(out1).len() as int, effects_view(out@).len() as int)));
                let rv = match rv {
                    Ok(v) => v,
                    Err(h) => return Err(h),
                };
                match (lv, rv) {
                    (Some(a), Some(b)) => match apply(*op, &a, &b, answer) {
                        Ok(v) => Ok(Some(v)),
                        Err(h) => Err(h),
                    },
                    _ => Ok(None),
                }
            },
            Expression::Atom(a) => {
                assert(effects_view(out@) =~= effects_view(out0) + Seq::empty());
                self.eval_atom(a)
            },
            Expression::Comment(_) => {
                assert(effects_view(out@) =~= effects_view(out0) + Seq::empty());
                Ok(None)
            },
            Expression::SortingHat => {
                assert(effects_view(out@) =~= effects_view(out0) + Seq::empty());
                let k = draw % 4;
                let h = if k == 0 {
                    HogwartsHouse::Gryffindor
                } else if k == 1 {
                    HogwartsHouse::Hufflepuff
                } else if k == 2 {
                    HogwartsHouse::Ravenclaw
                } else {
                    HogwartsHouse::Slytherin
                };
                Ok(Some(RuntimeValue::HogwartsHouse(h)))
            },
        }
    }
}

fn grow(v: &RuntimeValue, answer: &Option<RuntimeValue>) -> (r: Result<RuntimeValue, Halt>)
    ensures
        view_result(r) == grown(v@, view_option(*answer)),
{
    match v {
        RuntimeValue::Integer(n) => match n.checked_add(1) {
            Some(m) => Ok(RuntimeValue::Integer(m)),
            None => Err(Halt::Fail(EvalError::Overflow)),
        },
        RuntimeValue::Double(d) => apply(
            BinaryOperation::Plus,
            &RuntimeValue::Double(*d),
            &RuntimeValue::Double(DOUBLE_ONE),
            answer,
        ),
        RuntimeValue::String(s) => Ok(RuntimeValue::String(to_upper(s.as_str()))),
        _ => Err(Halt::Fail(EvalError::TypeMismatch)),
    }
}

fn shrink(v: &RuntimeValue, answer: &Option<RuntimeValue>) -> (r: Result<RuntimeValue, Halt>)
    ensures
        view_result(r) == shrunk(v@, view_option(*answer)),
{
    match v {
        RuntimeValue::Integer(n) => match n.checked_sub(1) {
            Some(m) => Ok(RuntimeValue::Integer(m)),
            None => Err(Halt::Fail(EvalError::Overflow)),
        },
        RuntimeValue::Double(d) => apply(
            BinaryOperation::Minus,
            &RuntimeValue::Double(*d),
            &RuntimeValue::Double(DOUBLE_ONE),
            answer,
        ),
        RuntimeValue::String(s) => Ok(RuntimeValue::String(to_lower(s.as_str()))),
        _ => Err(Halt::Fail(EvalError::TypeMismatch)),
    }
}

// Copies

/// A copy of an expression with the same view.
pub fn copy_expression(e: &Expression) -> (r: Expression)
    ensures
        r@ == e@,
    decreases e,
{
    match e {
        Expression::SpellCast(spell, target) => match &**target {
            Some(t) => Expression::SpellCast(*spell, Box::new(Some(copy_expression(t)))),
            None => Expression::SpellCast(*spell, Box::new(None)),
        },
        Expression::BinaryOperation(op, l, r) => Expression::BinaryOperation(
            *op,
            Box::new(copy_expression(l)),
            Box::new(copy_expression(r)),
        ),
        Expression::Atom(a) => Expression::Atom(
            match a {
                Atom::String(s) => Atom::String(s.clone()),
                Atom::Variable(s) => Atom::Variable(s.clone()),
                Atom::Boolean(b) => Atom::Boolean(*b),
                Atom::Integer(n) => Atom::Integer(*n),
                Atom::Double(d) => Atom::Double(*d),
                Atom::HogwartsHouse(h) => Atom::HogwartsHouse(*h),
            },
        ),
        Expression::Comment(c) => Expression::Comment(c.clone()),
        Expression::SortingHat => Expression::SortingHat,
    }
}

/// A copy of a statement with the same view.
pub fn copy_statement(st: &Statement) -> (r: Statement)
    ensures
        r@ == st@,
    decreases st, 1nat,
{
    match st {
        Statement::VariableAssignment(name, e) => Statement::VariableAssignment(name.clone(), copy_expression(e)),
        Statement::ExpressionStatement(e) => Statement::ExpressionStatement(copy_expression(e)),
        Statement::If(c, t, f) => Statement::If(copy_expression(c), copy_statements(t), copy_statements(f)),
        Statement::Quidditch(body) => Statement::Quidditch(copy_statements(body)),
        Statement::Snitch => Statement::Snitch,
    }
}

/// A copy of a statement sequence with the same view.
pub fn copy_statements(v: &Vec<Statement>) -> (r: Vec<Statement>)
    ensures
        stmts_view(r@) == stmts_view(v@),
    decreases v, 0nat,
{
    let mut r: Vec<Statement> = Vec::new();
    let mut k: usize = 0;
    assert(v@.subrange(0, 0) =~= r@);
    while k < v.len()
        invariant
            k <= v@.len(),
            stmts_view(r@) == stmts_view(v@.subrange(0, k as int)),
        decreases v@.len() - k,
    {
        assert(decreases_to!(v => v@[k as int]));
        let c = copy_statement(&v[k]);
        proof {
            crate::parser::lemma_stmts_view_push(r@, c);
            crate::parser::lemma_stmts_view_push(v@.subrange(0, k as int), v@[k as int]);
            assert(v@.subrange(0, k as int).push(v@[k as int]) =~= v@.subrange(0, k + 1));
        }
        r.push(c);
        k = k + 1;
    }
    assert(v@.subrange(0, v@.len() as int) =~= v@);
    r
}

// The step machine

/// A block being run: its statements, the index of the next one, and
/// whether the block repeats (a repeat block) or runs once.
pub struct Frame {
    body: Vec<Statement>,
    next: usize,
    repeat: bool,
}

pub struct FrameV {
    pub body: Seq<StmtV>,
    pub next: int,
    pub repeat: bool,
}

impl Frame {
    pub closed spec fn view(&self) -> FrameV {
        FrameV { body: stmts_view(self.body@), next: self.next as int, repeat: self.repeat }
    }
}

/// What the host does after a step.
#[derive(Debug, PartialEq, Clone)]
pub enum Action {
    /// Perform the effects and step again.
    Continue,
    /// Nothing is left to run.
    Finished,
    /// The terminating command ran: end the process with success.
    Exit,
    /// Compute this double operation and hand the result to the next step.
    Compute(FloatRequest),
    /// Evaluation failed; nothing more runs.
    Fail(EvalError),
}

pub enum ActionV {
    Continue,
    Finished,
    Exit,
    Compute(FloatRequest),
    Fail(ErrorV),
}

impl View for Action {
    type V = ActionV;

    open spec fn view(&self) -> ActionV {
        match self {
            Action::Continue => ActionV::Continue,
            Action::Finished => ActionV::Finished,
            Action::Exit => ActionV::Exit,
            Action::Compute(q) => ActionV::Compute(*q),
            Action::Fail(e) => ActionV::Fail(e@),
        }
    }
}

/// The outcome of one step: effects to perform in order, then an action.
pub struct Step {
    pub effects: Vec<Effect>,
    pub action: Action,
}

/// The whole evaluator state.
pub struct MachineV {
    pub scope: Scope,
    pub quidditch: bool,
    pub frames: Seq<FrameV>,
}

pub open spec fn halt_action(h: HaltV) -> ActionV {
    match h {
        HaltV::Exit => ActionV::Exit,
        HaltV::Fail(e) => ActionV::Fail(e),
        HaltV::Compute(q) => ActionV::Compute(q),
    }
}

/// The state after a statement stopped: on a request for a double operation
/// the statement stays pending; on an exit or a failure nothing is left to run.
pub open spec fn halted_machine(m: MachineV, sc: Scope, h: HaltV) -> MachineV {
    match h {
        HaltV::Compute(_) => MachineV { scope: sc, ..m },
        _ => MachineV { scope: sc, frames: Seq::empty(), ..m },
    }
}

/// One step: the end of a block (a repeat block starts a new pass while the
/// loop flag is set, any other block is left), or the next statement of the
/// innermost block. A statement that stops on a halt leaves its block where
/// it was, so that after a double operation it runs again with the answer.
pub open spec fn spec_step(m: MachineV, draw: usize, answer: Option<ValueV>) -> (MachineV, Seq<EffectV>, ActionV) {
    if m.frames.len() == 0 {
        (m, Seq::empty(), ActionV::Finished)
    } else {
        let top = m.frames.last();
        let below = m.frames.drop_last();
        if top.next >= top.body.len() {
            if top.repeat && m.quidditch {
                (MachineV { frames: below.push(FrameV { next: 0, ..top }), ..m }, Seq::empty(), ActionV::Continue)
            } else {
                (MachineV { frames: below, ..m }, Seq::empty(), ActionV::Continue)
            }
        } else {
            let advanced = below.push(FrameV { next: top.next + 1, ..top });
            match top.body[top.next] {
                StmtV::Assign(name, e) => if m.scope.consts.contains_key(name) {
                    (MachineV { frames: Seq::empty(), ..m }, Seq::empty(), ActionV::Fail(ErrorV::ConstantReassignment(name)))
                } else {
                    let (sc, eff, res) = spec_eval(m.scope, e, draw, answer);
                    match res {
                        Ok(Some(v)) => (
                            MachineV {
                                scope: Scope { vars: sc.vars.insert(name, v), ..sc },
                                frames: advanced,
                                ..m
                            },
                            eff,
                            ActionV::Continue,
                        ),
                        Ok(None) => (
                            MachineV { scope: sc, frames: Seq::empty(), ..m },
                            eff,
                            ActionV::Fail(ErrorV::EmptyAssignment(name)),
                        ),
                        Err(h) => (halted_machine(m, sc, h), eff, halt_action(h)),
                    }
                },
                StmtV::Expr(e) => {
                    let (sc, eff, res) = spec_eval(m.scope, e, draw, answer);
                    match res {
                        Ok(_) => (MachineV { scope: sc, frames: advanced, ..m }, eff, ActionV::Continue),
                        Err(h) => (halted_machine(m, sc, h), eff, halt_action(h)),
                    }
                },
                StmtV::If(c, t, f) => {
                    let (sc, eff, res) = spec_eval(m.scope, c, draw, answer);
                    match res {
                        Ok(v) => {
                            let branch = if v == Some(ValueV::Bool(true)) { t } else { f };
                            (
                                MachineV {
                                    scope: sc,
                                    frames: advanced.push(FrameV { body: branch, next: 0, repeat: false }),
                                    ..m
                                },
                                eff,
                                ActionV::Continue,
                            )
                        },
                        Err(h) => (halted_machine(m, sc, h), eff, halt_action(h)),
                    }
                },
                StmtV::Loop(body) => (
                    MachineV {
                        quidditch: true,
                        frames: advanced.push(FrameV { body, next: 0, repeat: true }),
                        ..m
                    },
                    Seq::empty(),
                    ActionV::Continue,
                ),
                StmtV::Snitch => (MachineV { quidditch: false, frames: advanced, ..m }, Seq::empty(), ActionV::Continue),
            }
        }
    }
}

/// The evaluator: bindings, the loop flag, and the blocks being run.
pub struct Interpreter {
    bindings: Bindings,
    quidditch: bool,
    frames: Vec<Frame>,
}

impl Interpreter {
    pub closed spec fn wf(&self) -> bool {
        self.bindings.wf()
    }

    pub closed spec fn view(&self) -> MachineV {
        MachineV {
            scope: self.bindings.view(),
            quidditch: self.quidditch,
            frames: self.frames@.map_values(|f: Frame| f.view()),
        }
    }

    /// An evaluator with no bindings and nothing to run.
    pub fn new() -> (r: Self)
        ensures
            r.wf(),
            r.view() == (MachineV {
                scope: Scope { vars: Map::empty(), consts: Map::empty(), spotlight: false },
                quidditch: false,
                frames: Seq::empty(),
            }),
    {
        let r = Interpreter { bindings: Bindings::new(), quidditch: false, frames: Vec::new() };
        assert(r.view().frames =~= Seq::<FrameV>::empty());
        r
    }

    /// Queues a program: its statements run, in order, on the steps that
    /// follow, after everything queued earlier has run.
    pub fn eval(&mut self, program: Program)
        requires
            old(self).wf(),
        ensures
            final(self).wf(),
            final(self).view().scope == old(self).view().scope,
            final(self).view().quidditch == old(self).view().quidditch,
            final(self).view().frames == seq![FrameV { body: program@, next: 0, repeat: false }] + old(
                self,
            ).view().frames,
    {
        let frame = Frame { body: program.0, next: 0, repeat: false };
        self.frames.insert(0, frame);
        assert(self.view().frames =~= seq![FrameV { body: program@, next: 0, repeat: false }] + old(
            self,
        ).view().frames);
    }

    /// The value bound to a variable.
    pub fn variable(&self, name: &str) -> (r: Option<RuntimeValue>)
        requires
            self.wf(),
        ensures
            r is None <==> !self.view().scope.vars.contains_key(name@),
            r matches Some(v) ==> self.view().scope.vars[name@] == v@,
    {
        self.bindings.variable(&String::from_str(name))
    }

    /// The value frozen under a constant name.
    pub fn constant(&self, name: &str) -> (r: Option<RuntimeValue>)
        requires
            self.wf(),
        ensures
            r is None <==> !self.view().scope.consts.contains_key(name@),
            r matches Some(v) ==> self.view().scope.consts[name@] == v@,
    {
        self.bindings.constant(&String::from_str(name))
    }

    /// Whether output is written in inverse video.
    pub fn spotlight(&self) -> (r: bool)
        ensures
            r == self.view().scope.spotlight,
    {
        self.bindings.spotlight()
    }

    /// Whether nothing is left to run.
    pub fn is_idle(&self) -> (r: bool)
        ensures
            r == (self.view().frames.len() == 0),
    {
        self.frames.len() == 0
    }

    /// Runs one step. `draw` is a random index in 0..4 (larger values wrap),
    /// used where the step evaluates the random choice; `answer` is the
    /// host's result for the double operation that the previous step asked
    /// for, if any. After an exit or a failure nothing is left to run.
    #[verifier::rlimit(50)]
    pub fn step(&mut self, draw: usize, answer: Option<RuntimeValue>) -> (r: Step)
        requires
            old(self).wf(),
        ensures
            final(self).wf(),
            (final(self).view(), effects_view(r.effects@), r.action@) == spec_step(
                old(self).view(),
                draw,
                view_option(answer),
            ),
    {
        let ghost m = self.view();
        let mut out: Vec<Effect> = Vec::new();
        assert(effects_view(out@) =~= Seq::<EffectV>::empty());
        let mut top = match self.frames.pop() {
            Some(f) => f,
            None => {
                return Step { effects: out, action: Action::Finished };
            },
        };
        assert(self.frames@.map_values(|f: Frame| f.view()) =~= m.frames.drop_last());
        assert(top.view() == m.frames.last());
        proof {
            crate::ast::lemma_stmts_view_index(top.body@);
        }
        if top.next >= top.body.len() {
            if top.repeat && self.quidditch {
                top.next = 0;
                self.frames.push(top);
                assert(self.view().frames =~= m.frames.drop_last().push(FrameV { next: 0, ..m.frames.last() }));
            }
            return Step { effects: out, action: Action::Continue };
        }
        let k = top.next;
        assert(top.view().body[k as int] == stmt_view(top.body@[k as int]));
        let (advance, pushed, action): (bool, Option<Frame>, Action) = match &top.body[k] {
            Statement::VariableAssignment(name, e) => {
                if self.bindings.is_constant(name) {
                    (false, None, Action::Fail(EvalError::ConstantReassignment(name.clone())))
                } else {
                    match self.bindings.eval_expression(e, draw, &answer, &mut out) {
                        Ok(Some(v)) => {
                            self.bindings.assign(name.clone(), v);
                            (true, None, Action::Continue)
                        },
                        Ok(None) => (false, None, Action::Fail(EvalError::EmptyAssignment(name.clone()))),
                        Err(h) => (false, None, halt_to_action(h)),
                    }
                }
            },
            Statement::ExpressionStatement(e) => {
                match self.bindings.eval_expression(e, draw, &answer, &mut out) {
                    Ok(_) => (true, None, Action::Continue),
                    Err(h) => (false, None, halt_to_action(h)),
                }
            },
            Statement::If(c, t, f) => {
                match self.bindings.eval_expression(c, draw, &answer, &mut out) {
                    Ok(v) => {
                        let taken = match v {
                            Some(RuntimeValue::Boolean(true)) => true,
                            _ => false,
                        };
                        let body = if taken { copy_statements(t) } else { copy_statements(f) };
                        (true, Some(Frame { body, next: 0, repeat: false }), Action::Continue)
                    },
                    Err(h) => (false, None, halt_to_action(h)),
                }
            },
            Statement::Quidditch(body) => {
                self.quidditch = true;
                (true, Some(Frame { body: copy_statements(body), next: 0, repeat: true }), Action::Continue)
            },
            Statement::Snitch => {
                self.quidditch = false;
                (true, None, Action::Continue)
            },
        };
        match action {
            Action::Exit | Action::Fail(_) => {
                self.frames = Vec::new();
                assert(self.view().frames =~= Seq::<FrameV>::empty());
                return Step { effects: out, action };
            },
            _ => {},
        }
        if advance {
            top.next = k + 1;
        }
        self.frames.push(top);
        assert(self.frames@.map_values(|f: Frame| f.view()) =~= m.frames.drop_last().push(top.view()));
        match pushed {
            Some(f) => {
                let ghost mid = self.frames@;
                self.frames.push(f);
                assert(self.frames@.map_values(|f: Frame| f.view()) =~= mid.map_values(
                    |f: Frame| f.view(),
                ).push(f.view()));
            },
            None => {},
        }
        let ghost expected = spec_step(m, draw, view_option(answer));
        assert(self.view().scope == expected.0.scope);
        assert(self.view().quidditch == expected.0.quidditch);
        assert(self.view().frames == expected.0.frames);
        assert(self.view() == expected.0);
        Step { effects: out, action }
    }
}

fn halt_to_action(h: Halt) -> (r: Action)
    ensures
        r@ == halt_action(h@),
{
    match h {
        Halt::Exit => Action::Exit,
        Halt::Fail(e) => Action::Fail(e),
        Halt::Compute(q) => Action::Compute(q),
    }
}

} // verus!
