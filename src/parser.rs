//! The parser: executable twins of the grammar's spec functions.

use vstd::prelude::*;
use crate::ast::{
    stmt_view, stmts_view, Atom, BinaryOperation, ExprV, Expression, HogwartsHouse, Program, Spell, Statement,
    StmtV,
};
use crate::grammar::{
    alpha_end, atom_expr, may_start_double, cast_target_start, digit_end, digits_value, line_end, nom_double, prepend,
    quote_end, skip_spaces, spec_atom, spec_binary_operation, spec_binary_operator, spec_block, spec_boolean,
    spec_comment, spec_double, spec_else, spec_expression, spec_expression_statement, spec_hogwarts_house,
    spec_if_statement, spec_integer, spec_more_statements, spec_program, spec_quidditch_statement,
    spec_snitch_statement, spec_sorting_hat, spec_spell_cast, spec_statement, spec_statements, spec_string,
    spec_variable, spec_variable_assignment, spell_named, starts_with, ParseError, SpecParse,
};

verus! {

/// What an executable parser yields: a value and the position after it.
pub type Parse<T> = Result<(T, usize), ParseError>;

/// An executable parse result agrees with the spec-level one.
pub open spec fn agrees<T: View>(r: Parse<T>, spec: SpecParse<T::V>) -> bool {
    match r {
        Ok((v, j)) => spec == Ok::<(T::V, int), ParseError>((v@, j as int)),
        Err(e) => spec == Err::<(T::V, int), ParseError>(e),
    }
}

/// The source being parsed: its text and its characters, one for one.
pub struct Source<'a> {
    pub text: &'a str,
    pub chars: Vec<char>,
}

impl<'a> Source<'a> {
    pub open spec fn wf(&self) -> bool {
        self.chars@ == self.text@
    }

    pub open spec fn view(&self) -> Seq<char> {
        self.chars@
    }

    pub fn new(text: &'a str) -> (r: Source<'a>)
        ensures
            r.wf(),
            r.text == text,
    {
        let n = text.unicode_len();
        let mut chars: Vec<char> = Vec::new();
        let mut k: usize = 0;
        while k < n
            invariant
                n == text@.len(),
                k <= n,
                chars@ == text@.subrange(0, k as int),
            decreases n - k,
        {
            chars.push(text.get_char(k));
            k = k + 1;
            assert(chars@ =~= text@.subrange(0, k as int));
        }
        assert(chars@ =~= text@);
        Source { text, chars }
    }
}

/// Relies on nom::number::complete::double: the bit pattern of the number it
/// reads at the start of `text` and the rest that it leaves, or whether it failed
/// fatally (a cut inside an exponent). The rest is a suffix of `text`, shorter
/// than it. It fails without harm on a text that is empty or whose first
/// character cannot begin a number (`recognize_float` wants a sign, a digit or
/// '.', the other alternatives `nan`, `inf`, `infinity`).
#[verifier::external_body]
fn nom_double_prefix(text: &str) -> (r: Result<(&str, u64), bool>)
    ensures
        r is Ok ==> nom_double(text@) == Ok::<(Seq<char>, u64), bool>((r->Ok_0.0@, r->Ok_0.1)),
        r is Err ==> nom_double(text@) == Err::<(Seq<char>, u64), bool>(r->Err_0),
        r is Ok ==> r->Ok_0.0@.len() < text@.len(),
        r is Ok ==> r->Ok_0.0@ == text@.subrange(text@.len() - r->Ok_0.0@.len(), text@.len() as int),
        (r is Err && !r->Err_0) || (text@.len() > 0 && may_start_double(text@[0])),
{
    match nom::number::complete::double::<&str, nom::error::Error<&str>>(text) {
        Ok((rest, value)) => Ok((rest, value.to_bits())),
        Err(nom::Err::Failure(_)) => Err(true),
        Err(_) => Err(false),
    }
}

fn skip_spaces_at(s: &Vec<char>, i: usize) -> (r: usize)
    requires
        i <= s@.len(),
    ensures
        r == skip_spaces(s@, i as int),
        i <= r <= s@.len(),
{
    let mut k = i;
    while k < s.len() && (s[k] == ' ' || s[k] == '\t' || s[k] == '\r' || s[k] == '\n')
        invariant
            i <= k <= s@.len(),
            skip_spaces(s@, i as int) == skip_spaces(s@, k as int),
        decreases s@.len() - k,
    {
        k = k + 1;
    }
    k
}

fn alpha_end_at(s: &Vec<char>, i: usize) -> (r: usize)
    requires
        i <= s@.len(),
    ensures
        r == alpha_end(s@, i as int),
        i <= r <= s@.len(),
{
    let mut k = i;
    while k < s.len() && ((65 <= s[k] as u32 && s[k] as u32 <= 90) || (97 <= s[k] as u32 && s[k] as u32 <= 122))
        invariant
            i <= k <= s@.len(),
            alpha_end(s@, i as int) == alpha_end(s@, k as int),
        decreases s@.len() - k,
    {
        k = k + 1;
    }
    k
}

fn digit_end_at(s: &Vec<char>, i: usize) -> (r: usize)
    requires
        i <= s@.len(),
    ensures
        r == digit_end(s@, i as int),
        i <= r <= s@.len(),
{
    let mut k = i;
    while k < s.len() && 48 <= s[k] as u32 && s[k] as u32 <= 57
        invariant
            i <= k <= s@.len(),
            digit_end(s@, i as int) == digit_end(s@, k as int),
        decreases s@.len() - k,
    {
        k = k + 1;
    }
    k
}

fn line_end_at(s: &Vec<char>, i: usize) -> (r: usize)
    requires
        i <= s@.len(),
    ensures
        r == line_end(s@, i as int),
        i <= r <= s@.len(),
{
    let mut k = i;
    while k < s.len() && s[k] != '\n'
        invariant
            i <= k <= s@.len(),
            line_end(s@, i as int) == line_end(s@, k as int),
        decreases s@.len() - k,
    {
        k = k + 1;
    }
    k
}

fn quote_end_at(s: &Vec<char>, i: usize) -> (r: usize)
    requires
        i <= s@.len(),
    ensures
        r == quote_end(s@, i as int),
        i <= r <= s@.len(),
{
    let mut k = i;
    while k < s.len() && s[k] != '"'
        invariant
            i <= k <= s@.len(),
            quote_end(s@, i as int) == quote_end(s@, k as int),
        decreases s@.len() - k,
    {
        k = k + 1;
    }
    k
}

/// Whether `lit` occurs in `s` at position `i`.
fn has_prefix(s: &Vec<char>, i: usize, lit: &str) -> (r: bool)
    requires
        i <= s@.len(),
    ensures
        r == starts_with(s@, i as int, lit@),
{
    let n = lit.unicode_len();
    if n > s.len() - i {
        return false;
    }
    let mut k: usize = 0;
    while k < n
        invariant
            n == lit@.len(),
            i + n <= s@.len(),
            i <= s@.len(),
            s@.len() <= usize::MAX,
            k <= n,
            forall|j: int| 0 <= j < k ==> s@[i + j] == lit@[j],
        decreases n - k,
    {
        assert(i + k < s@.len());
        if s[i + k] != lit.get_char(k) {
            assert(s@.subrange(i as int, i + n)[k as int] != lit@[k as int]);
            return false;
        }
        k = k + 1;
    }
    assert(s@.subrange(i as int, i + n) =~= lit@);
    true
}

/// A literal token: its value when `lit` occurs at `i`.
fn literal_at(src: &Source, i: usize, lit: &str) -> (r: Option<usize>)
    requires
        src.wf(),
        i <= src@.len(),
    ensures
        r is Some <==> starts_with(src@, i as int, lit@),
        r matches Some(j) ==> j == i + lit@.len() && j <= src@.len(),
{
    let n = src.chars.len();
    if has_prefix(&src.chars, i, lit) {
        assert(i + lit@.len() <= n);
        Some(i + lit.unicode_len())
    } else {
        None
    }
}

pub fn boolean_at(src: &Source, i: usize) -> (r: Parse<Atom>)
    requires
        src.wf(),
        i <= src@.len(),
    ensures
        agrees(r, spec_boolean(src@, i as int)),
{
    if let Some(j) = literal_at(src, i, "true") {
        Ok((Atom::Boolean(true), j))
    } else if let Some(j) = literal_at(src, i, "false") {
        Ok((Atom::Boolean(false), j))
    } else {
        Err(ParseError::Backtrack)
    }
}

pub fn hogwarts_house_at(src: &Source, i: usize) -> (r: Parse<Atom>)
    requires
        src.wf(),
        i <= src@.len(),
    ensures
        agrees(r, spec_hogwarts_house(src@, i as int)),
{
    if let Some(j) = literal_at(src, i, "Gryffindor") {
        Ok((Atom::HogwartsHouse(HogwartsHouse::Gryffindor), j))
    } else if let Some(j) = literal_at(src, i, "Hufflepuff") {
        Ok((Atom::HogwartsHouse(HogwartsHouse::Hufflepuff), j))
    } else if let Some(j) = literal_at(src, i, "Ravenclaw") {
        Ok((Atom::HogwartsHouse(HogwartsHouse::Ravenclaw), j))
    } else if let Some(j) = literal_at(src, i, "Slytherin") {
        Ok((Atom::HogwartsHouse(HogwartsHouse::Slytherin), j))
    } else {
        Err(ParseError::Backtrack)
    }
}

pub fn double_at(src: &Source, i: usize) -> (r: Parse<Atom>)
    requires
        src.wf(),
        i <= src@.len(),
    ensures
        agrees(r, spec_double(src@, i as int)),
        r matches Ok((_, j)) ==> i < j <= src@.len(),
{
    let n = src.chars.len();
    let mut k = i;
    while k < n && src.chars[k] != '.'
        invariant
            i <= k <= n,
            n == src@.len(),
            forall|j: int| i <= j < k ==> src@[j] != '.',
        decreases n - k,
    {
        k = k + 1;
    }
    if k == n {
        assert forall|j: int| 0 <= j < src@.subrange(i as int, n as int).len() implies
            src@.subrange(i as int, n as int)[j] != '.' by {
            assert(src@.subrange(i as int, n as int)[j] == src@[i + j]);
        }
        return Err(ParseError::Backtrack);
    }
    assert(src@.subrange(i as int, n as int)[k - i] == '.');
    let rest_text = src.text.substring_char(i, n);
    assert(rest_text@[0] == src@[i as int]);
    match nom_double_prefix(rest_text) {
        Ok((rest, bits)) => {
            let m = rest.unicode_len();
            Ok((Atom::Double(bits), n - m))
        },
        Err(fatal) => Err(if fatal { ParseError::Fatal } else { ParseError::Backtrack }),
    }
}

pub fn integer_at(src: &Source, i: usize) -> (r: Parse<Atom>)
    requires
        src.wf(),
        i <= src@.len(),
    ensures
        agrees(r, spec_integer(src@, i as int)),
        r matches Ok((_, j)) ==> i < j <= src@.len(),
{
    let ghost s = src@;
    let n = src.chars.len();
    let negative = i < n && src.chars[i] == '-';
    let start = if i < n && (src.chars[i] == '-' || src.chars[i] == '+') { i + 1 } else { i };
    let end = digit_end_at(&src.chars, start);
    if end == start {
        return Err(ParseError::Backtrack);
    }
    proof {
        crate::grammar::lemma_scan_while(s, start as int, |c: char| crate::grammar::is_digit(c));
    }
    let limit: u128 = 0x8000_0000_0000_0000;
    let mut magnitude: u128 = 0;
    let mut big = false;
    let mut k = start;
    while k < end
        invariant
            start <= k <= end <= n,
            limit == 0x8000_0000_0000_0000u128,
            n == s.len(),
            s == src@,
            forall|j: int| start <= j < end ==> crate::grammar::is_digit(#[trigger] s[j]),
            big ==> digits_value(s.subrange(start as int, k as int)) > limit,
            !big ==> magnitude == digits_value(s.subrange(start as int, k as int)) && magnitude <= limit,
        decreases end - k,
    {
        let c = src.chars[k] as u32;
        assert(crate::grammar::is_digit(s[k as int]));
        assert(48 <= c <= 57);
        let d = (c - 48) as u128;
        proof {
            let p = s.subrange(start as int, k + 1);
            assert(p.drop_last() =~= s.subrange(start as int, k as int));
            assert(p.last() == s[k as int]);
        }
        if !big {
            let next = magnitude * 10 + d;
            if next > limit {
                big = true;
            } else {
                magnitude = next;
            }
        }
        k = k + 1;
    }
    if big {
        return Err(ParseError::Backtrack);
    }
    if negative {
        if magnitude == limit {
            Ok((Atom::Integer(i64::MIN), end))
        } else {
            Ok((Atom::Integer(-(magnitude as i64)), end))
        }
    } else if magnitude < limit {
        Ok((Atom::Integer(magnitude as i64), end))
    } else {
        Err(ParseError::Backtrack)
    }
}

pub fn string_at(src: &Source, i: usize) -> (r: Parse<Atom>)
    requires
        src.wf(),
        i <= src@.len(),
    ensures
        agrees(r, spec_string(src@, i as int)),
        r matches Ok((_, j)) ==> i < j <= src@.len(),
{
    if i < src.chars.len() && src.chars[i] == '"' {
        let close = quote_end_at(&src.chars, i + 1);
        if close < src.chars.len() {
            let content = src.text.substring_char(i + 1, close).to_owned();
            return Ok((Atom::String(content), close + 1));
        }
    }
    Err(ParseError::Backtrack)
}

pub fn variable_at(src: &Source, i: usize) -> (r: Parse<Atom>)
    requires
        src.wf(),
        i <= src@.len(),
    ensures
        agrees(r, spec_variable(src@, i as int)),
        r matches Ok((_, j)) ==> i < j <= src@.len(),
{
    let end = alpha_end_at(&src.chars, i);
    if end > i {
        let name = src.text.substring_char(i, end).to_owned();
        Ok((Atom::Variable(name), end))
    } else {
        Err(ParseError::Backtrack)
    }
}

pub fn atom_at(src: &Source, i: usize) -> (r: Parse<Atom>)
    requires
        src.wf(),
        i <= src@.len(),
    ensures
        agrees(r, spec_atom(src@, i as int)),
        r matches Ok((_, j)) ==> i < j <= src@.len(),
{
    proof {
        reveal_strlit("true");
        reveal_strlit("false");
        reveal_strlit("Gryffindor");
        reveal_strlit("Hufflepuff");
        reveal_strlit("Ravenclaw");
        reveal_strlit("Slytherin");
    }
    match boolean_at(src, i) {
        Err(ParseError::Backtrack) => {},
        r => return r,
    }
    match hogwarts_house_at(src, i) {
        Err(ParseError::Backtrack) => {},
        r => return r,
    }
    match double_at(src, i) {
        Err(ParseError::Backtrack) => {},
        r => return r,
    }
    match integer_at(src, i) {
        Err(ParseError::Backtrack) => {},
        r => return r,
    }
    match string_at(src, i) {
        Err(ParseError::Backtrack) => {},
        r => return r,
    }
    variable_at(src, i)
}

// Expressions

pub fn sorting_hat_at(src: &Source, i: usize) -> (r: Parse<Expression>)
    requires
        src.wf(),
        i <= src@.len(),
    ensures
        agrees(r, spec_sorting_hat(src@, i as int)),
        r matches Ok((_, j)) ==> i < j <= src@.len(),
{
    proof {
        reveal_strlit("SortingHat");
        reveal_strlit("\u{1F3A9}\u{2728}");
    }
    if let Some(j) = literal_at(src, i, "SortingHat") {
        Ok((Expression::SortingHat, j))
    } else if let Some(j) = literal_at(src, i, "\u{1F3A9}\u{2728}") {
        Ok((Expression::SortingHat, j))
    } else {
        Err(ParseError::Backtrack)
    }
}

pub fn comment_at(src: &Source, i: usize) -> (r: Parse<Expression>)
    requires
        src.wf(),
        i <= src@.len(),
    ensures
        agrees(r, spec_comment(src@, i as int)),
        r matches Ok((_, j)) ==> i < j <= src@.len(),
{
    if i < src.chars.len() && src.chars[i] == '#' {
        let end = line_end_at(&src.chars, i + 1);
        let text = src.text.substring_char(i + 1, end).to_owned();
        Ok((Expression::Comment(text), end))
    } else {
        Err(ParseError::Backtrack)
    }
}

pub fn binary_operator_at(src: &Source, i: usize) -> (r: Parse<BinaryOperation>)
    requires
        src.wf(),
        i <= src@.len(),
    ensures
        agrees(r, spec_binary_operator(src@, i as int)),
        r matches Ok((_, j)) ==> i < j <= src@.len(),
{
    proof {
        reveal_strlit("==");
        reveal_strlit("!=");
    }
    let n = src.chars.len();
    if i < n && src.chars[i] == '+' {
        Ok((BinaryOperation::Plus, i + 1))
    } else if i < n && src.chars[i] == '-' {
        Ok((BinaryOperation::Minus, i + 1))
    } else if i < n && src.chars[i] == '*' {
        Ok((BinaryOperation::Times, i + 1))
    } else if i < n && src.chars[i] == '/' {
        Ok((BinaryOperation::Divide, i + 1))
    } else if let Some(j) = literal_at(src, i, "==") {
        Ok((BinaryOperation::Equal, j))
    } else if let Some(j) = literal_at(src, i, "!=") {
        Ok((BinaryOperation::NotEqual, j))
    } else {
        Err(ParseError::Backtrack)
    }
}

pub fn binary_operation_at(src: &Source, i: usize) -> (r: Parse<Expression>)
    requires
        src.wf(),
        i <= src@.len(),
    ensures
        agrees(r, spec_binary_operation(src@, i as int)),
        r matches Ok((_, j)) ==> i < j <= src@.len(),
{
    let (left, j) = match atom_at(src, i) {
        Ok(p) => p,
        Err(e) => return Err(e),
    };
    let j = skip_spaces_at(&src.chars, j);
    let (op, k) = match binary_operator_at(src, j) {
        Ok(p) => p,
        Err(e) => return Err(e),
    };
    let k = skip_spaces_at(&src.chars, k);
    let (right, m) = match atom_at(src, k) {
        Ok(p) => p,
        Err(e) => return Err(e),
    };
    let e = Expression::BinaryOperation(
        op,
        Box::new(Expression::Atom(left)),
        Box::new(Expression::Atom(right)),
    );
    assert(crate::ast::expr_view(Expression::Atom(left)) == ExprV::Atom(left@));
    assert(crate::ast::expr_view(Expression::Atom(right)) == ExprV::Atom(right@));
    Ok((e, m))
}

/// Whether the characters from `a` to `b` spell `lit`.
fn name_is(src: &Source, a: usize, b: usize, lit: &str) -> (r: bool)
    requires
        src.wf(),
        a <= b <= src@.len(),
    ensures
        r == (src@.subrange(a as int, b as int) == lit@),
{
    if b - a != lit.unicode_len() {
        assert(src@.subrange(a as int, b as int).len() != lit@.len());
        return false;
    }
    has_prefix(&src.chars, a, lit)
}

/// The command of the name that stands from `a` to `b`, if it is one.
pub fn spell_of(src: &Source, a: usize, b: usize) -> (r: Option<Spell>)
    requires
        src.wf(),
        a <= b <= src@.len(),
    ensures
        r == spell_named(src@.subrange(a as int, b as int)),
{
    if name_is(src, a, b, "Aguamenti") {
        Some(Spell::Aguamenti)
    } else if name_is(src, a, b, "AvadaKedabra") {
        Some(Spell::AvadaKedabra)
    } else if name_is(src, a, b, "Engorgio") {
        Some(Spell::Engorgio)
    } else if name_is(src, a, b, "Incendio") {
        Some(Spell::Incendio)
    } else if name_is(src, a, b, "Inmobolus") {
        Some(Spell::Inmobolus)
    } else if name_is(src, a, b, "Lumos") {
        Some(Spell::Lumos)
    } else if name_is(src, a, b, "Nox") {
        Some(Spell::Nox)
    } else if name_is(src, a, b, "Obliviate") {
        Some(Spell::Obliviate)
    } else if name_is(src, a, b, "OculusReparo") {
        Some(Spell::OculusReparo)
    } else if name_is(src, a, b, "Periculum") {
        Some(Spell::Periculum)
    } else if name_is(src, a, b, "Reducio") {
        Some(Spell::Reducio)
    } else if name_is(src, a, b, "PetrificusTotalus") {
        Some(Spell::PetrificusTotalus)
    } else if name_is(src, a, b, "Revelio") {
        Some(Spell::Revelio)
    } else if name_is(src, a, b, "Serpensortia") {
        Some(Spell::Serpensortia)
    } else if name_is(src, a, b, "WingardiumLeviosa") {
        Some(Spell::WingardiumLeviosa)
    } else {
        None
    }
}

pub fn spell_cast_at(src: &Source, i: usize) -> (r: Parse<Expression>)
    requires
        src.wf(),
        i <= src@.len(),
    ensures
        agrees(r, spec_spell_cast(src@, i as int)),
        r matches Ok((_, j)) ==> i < j <= src@.len(),
    decreases src@.len() - i, 0nat,
{
    if i < src.chars.len() && src.chars[i] == '~' {
        let name_end = alpha_end_at(&src.chars, i + 1);
        let k = if name_end < src.chars.len() && src.chars[name_end] == ' ' {
            name_end + 1
        } else {
            name_end
        };
        assert(k == cast_target_start(src@, i as int));
        let spell = spell_of(src, i + 1, name_end);
        match expression_at(src, k) {
            Err(ParseError::Fatal) => Err(ParseError::Fatal),
            Err(ParseError::Backtrack) => match spell {
                Some(spell) => Ok((Expression::SpellCast(spell, Box::new(None)), k)),
                None => Err(ParseError::Fatal),
            },
            Ok((target, m)) => match spell {
                Some(spell) => Ok((Expression::SpellCast(spell, Box::new(Some(target))), m)),
                None => Err(ParseError::Fatal),
            },
        }
    } else {
        Err(ParseError::Backtrack)
    }
}

pub fn expression_at(src: &Source, i: usize) -> (r: Parse<Expression>)
    requires
        src.wf(),
        i <= src@.len(),
    ensures
        agrees(r, spec_expression(src@, i as int)),
        r matches Ok((_, j)) ==> i < j <= src@.len(),
    decreases src@.len() - i, 1nat,
{
    proof {
        reveal_strlit("SortingHat");
        reveal_strlit("\u{1F3A9}\u{2728}");
    }
    match sorting_hat_at(src, i) {
        Err(ParseError::Backtrack) => {},
        r => return r,
    }
    match comment_at(src, i) {
        Err(ParseError::Backtrack) => {},
        r => return r,
    }
    match spell_cast_at(src, i) {
        Err(ParseError::Backtrack) => {},
        r => return r,
    }
    match binary_operation_at(src, i) {
        Err(ParseError::Backtrack) => {},
        r => return r,
    }
    match atom_at(src, i) {
        Ok((a, j)) => Ok((Expression::Atom(a), j)),
        Err(e) => Err(e),
    }
}

// Statements

/// An executable parse of a statement sequence agrees with the spec-level one.
pub open spec fn agrees_block(r: Parse<Vec<Statement>>, spec: SpecParse<Seq<StmtV>>) -> bool {
    match r {
        Ok((v, j)) => spec == Ok::<(Seq<StmtV>, int), ParseError>((stmts_view(v@), j as int)),
        Err(e) => spec == Err::<(Seq<StmtV>, int), ParseError>(e),
    }
}

pub proof fn lemma_stmts_view_push(v: Seq<Statement>, x: Statement)
    ensures
        stmts_view(v.push(x)) == stmts_view(v).push(stmt_view(x)),
{
    assert(v.push(x).drop_last() =~= v);
}

proof fn lemma_prepend_push(v: Seq<StmtV>, x: StmtV, r: SpecParse<Seq<StmtV>>)
    ensures
        prepend(v, prepend(seq![x], r)) == prepend(v.push(x), r),
{
    if let Ok((ss, k)) = r {
        assert(v + (seq![x] + ss) =~= v.push(x) + ss);
    }
}

/// One or more statements.
pub fn statements_at(src: &Source, i: usize) -> (r: Parse<Vec<Statement>>)
    requires
        src.wf(),
        i <= src@.len(),
    ensures
        agrees_block(r, spec_statements(src@, i as int)),
        r matches Ok((_, j)) ==> i < j <= src@.len(),
    decreases src@.len() - i, 8nat,
{
    let ghost s = src@;
    let (first, j) = match statement_at(src, i) {
        Ok(p) => p,
        Err(e) => return Err(e),
    };
    let mut acc: Vec<Statement> = Vec::new();
    proof {
        lemma_stmts_view_push(acc@, first);
        assert(stmts_view(acc@) =~= Seq::<StmtV>::empty());
        assert(Seq::<StmtV>::empty().push(stmt_view(first)) =~= seq![stmt_view(first)]);
    }
    acc.push(first);
    let mut pos = j;
    loop
        invariant
            src.wf(),
            s == src@,
            i < pos <= s.len(),
            spec_statements(s, i as int) == prepend(stmts_view(acc@), spec_more_statements(s, pos as int)),
        decreases s.len() - pos,
    {
        match statement_at(src, pos) {
            Err(ParseError::Backtrack) => {
                assert(stmts_view(acc@) + Seq::<StmtV>::empty() =~= stmts_view(acc@));
                return Ok((acc, pos));
            },
            Err(ParseError::Fatal) => return Err(ParseError::Fatal),
            Ok((st, k)) => {
                proof {
                    lemma_prepend_push(stmts_view(acc@), stmt_view(st), spec_more_statements(s, k as int));
                    lemma_stmts_view_push(acc@, st);
                }
                acc.push(st);
                pos = k;
            },
        }
    }
}

/// '{', one or more statements, '}'.
pub fn block_at(src: &Source, i: usize) -> (r: Parse<Vec<Statement>>)
    requires
        src.wf(),
        i <= src@.len(),
    ensures
        agrees_block(r, spec_block(src@, i as int)),
        r matches Ok((_, j)) ==> i < j <= src@.len(),
    decreases src@.len() - i, 4nat,
{
    if i < src.chars.len() && src.chars[i] == '{' {
        match statements_at(src, i + 1) {
            Err(e) => Err(e),
            Ok((ss, k)) => if k < src.chars.len() && src.chars[k] == '}' {
                Ok((ss, k + 1))
            } else {
                Err(ParseError::Backtrack)
            },
        }
    } else {
        Err(ParseError::Backtrack)
    }
}

fn else_at(src: &Source, i: usize) -> (r: Parse<Vec<Statement>>)
    requires
        src.wf(),
        i <= src@.len(),
    ensures
        agrees_block(r, spec_else(src@, i as int)),
        r matches Ok((_, j)) ==> i < j <= src@.len(),
    decreases src@.len() - i, 5nat,
{
    proof {
        reveal_strlit("else");
    }
    let a = skip_spaces_at(&src.chars, i);
    if let Some(b) = literal_at(src, a, "else") {
        let b = skip_spaces_at(&src.chars, b);
        match block_at(src, b) {
            Err(e) => Err(e),
            Ok((ss, k)) => Ok((ss, skip_spaces_at(&src.chars, k))),
        }
    } else {
        Err(ParseError::Backtrack)
    }
}

pub fn if_statement_at(src: &Source, i: usize) -> (r: Parse<Statement>)
    requires
        src.wf(),
        i <= src@.len(),
    ensures
        agrees(r, spec_if_statement(src@, i as int)),
        r matches Ok((_, j)) ==> i < j <= src@.len(),
    decreases src@.len() - i, 6nat,
{
    proof {
        reveal_strlit("if");
    }
    let a = skip_spaces_at(&src.chars, i);
    if let Some(b) = literal_at(src, a, "if") {
        let b = skip_spaces_at(&src.chars, b);
        let (cond, c) = match expression_at(src, b) {
            Ok(p) => p,
            Err(e) => return Err(e),
        };
        let d = skip_spaces_at(&src.chars, c);
        let (then_block, f) = match block_at(src, d) {
            Ok(p) => p,
            Err(e) => return Err(e),
        };
        match else_at(src, f) {
            Ok((else_block, k)) => Ok((Statement::If(cond, then_block, else_block), k)),
            Err(ParseError::Backtrack) => {
                let none: Vec<Statement> = Vec::new();
                assert(stmts_view(none@) =~= Seq::<StmtV>::empty());
                Ok((Statement::If(cond, then_block, none), f))
            },
            Err(ParseError::Fatal) => Err(ParseError::Fatal),
        }
    } else {
        Err(ParseError::Backtrack)
    }
}

pub fn snitch_statement_at(src: &Source, i: usize) -> (r: Parse<Statement>)
    requires
        src.wf(),
        i <= src@.len(),
    ensures
        agrees(r, spec_snitch_statement(src@, i as int)),
        r matches Ok((_, j)) ==> i < j <= src@.len(),
{
    proof {
        reveal_strlit("snitch");
    }
    let a = skip_spaces_at(&src.chars, i);
    if let Some(b) = literal_at(src, a, "snitch") {
        Ok((Statement::Snitch, skip_spaces_at(&src.chars, b)))
    } else {
        Err(ParseError::Backtrack)
    }
}

pub fn quidditch_statement_at(src: &Source, i: usize) -> (r: Parse<Statement>)
    requires
        src.wf(),
        i <= src@.len(),
    ensures
        agrees(r, spec_quidditch_statement(src@, i as int)),
        r matches Ok((_, j)) ==> i < j <= src@.len(),
    decreases src@.len() - i, 6nat,
{
    proof {
        reveal_strlit("quidditch");
    }
    let a = skip_spaces_at(&src.chars, i);
    if let Some(b) = literal_at(src, a, "quidditch") {
        let b = skip_spaces_at(&src.chars, b);
        match block_at(src, b) {
            Err(e) => Err(e),
            Ok((body, k)) => Ok((Statement::Quidditch(body), k)),
        }
    } else {
        Err(ParseError::Backtrack)
    }
}

pub fn variable_assignment_at(src: &Source, i: usize) -> (r: Parse<Statement>)
    requires
        src.wf(),
        i <= src@.len(),
    ensures
        agrees(r, spec_variable_assignment(src@, i as int)),
        r matches Ok((_, j)) ==> i < j <= src@.len(),
{
    match variable_at(src, i) {
        Ok((Atom::Variable(name), j)) => {
            let k = skip_spaces_at(&src.chars, j);
            if k < src.chars.len() && src.chars[k] == '=' {
                let m = skip_spaces_at(&src.chars, k + 1);
                match expression_at(src, m) {
                    Ok((e, n)) => Ok((Statement::VariableAssignment(name, e), n)),
                    Err(e) => Err(e),
                }
            } else {
                Err(ParseError::Backtrack)
            }
        },
        _ => Err(ParseError::Backtrack),
    }
}

pub fn expression_statement_at(src: &Source, i: usize) -> (r: Parse<Statement>)
    requires
        src.wf(),
        i <= src@.len(),
    ensures
        agrees(r, spec_expression_statement(src@, i as int)),
        r matches Ok((_, j)) ==> i < j <= src@.len(),
{
    match expression_at(src, i) {
        Ok((e, j)) => Ok((Statement::ExpressionStatement(e), skip_spaces_at(&src.chars, j))),
        Err(e) => Err(e),
    }
}

pub fn statement_at(src: &Source, i: usize) -> (r: Parse<Statement>)
    requires
        src.wf(),
        i <= src@.len(),
    ensures
        agrees(r, spec_statement(src@, i as int)),
        r matches Ok((_, j)) ==> i < j <= src@.len(),
    decreases src@.len() - i, 7nat,
{
    let a = skip_spaces_at(&src.chars, i);
    let r = match if_statement_at(src, a) {
        Err(ParseError::Backtrack) => match snitch_statement_at(src, a) {
            Err(ParseError::Backtrack) => match quidditch_statement_at(src, a) {
                Err(ParseError::Backtrack) => match variable_assignment_at(src, a) {
                    Err(ParseError::Backtrack) => expression_statement_at(src, a),
                    r => r,
                },
                r => r,
            },
            r => r,
        },
        r => r,
    };
    match r {
        Ok((st, j)) => Ok((st, skip_spaces_at(&src.chars, j))),
        Err(e) => Err(e),
    }
}

// Entry points on text

/// A parse of a whole text agrees with the spec-level parse from its start:
/// the same value, and the unread rest of the text.
pub open spec fn outcome<'a, T: View>(
    input: Seq<char>,
    r: Result<(&'a str, T), ParseError>,
    spec: SpecParse<T::V>,
) -> bool {
    match (r, spec) {
        (Ok((rest, v)), Ok((sv, j))) => v@ == sv && rest@ == input.subrange(j, input.len() as int),
        (Err(e), Err(se)) => e == se,
        _ => false,
    }
}

/// A string between double quotes.
pub fn parse_string(input: &str) -> (r: Result<(&str, Atom), ParseError>)
    ensures
        outcome(input@, r, spec_string(input@, 0)),
{
    let src = Source::new(input);
    match string_at(&src, 0) {
        Ok((v, j)) => Ok((input.substring_char(j, src.chars.len()), v)),
        Err(e) => Err(e),
    }
}

/// A variable name.
pub fn parse_variable(input: &str) -> (r: Result<(&str, Atom), ParseError>)
    ensures
        outcome(input@, r, spec_variable(input@, 0)),
{
    let src = Source::new(input);
    match variable_at(&src, 0) {
        Ok((v, j)) => Ok((input.substring_char(j, src.chars.len()), v)),
        Err(e) => Err(e),
    }
}

/// `true` or `false`.
pub fn parse_boolean(input: &str) -> (r: Result<(&str, Atom), ParseError>)
    ensures
        outcome(input@, r, spec_boolean(input@, 0)),
{
    let src = Source::new(input);
    match boolean_at(&src, 0) {
        Ok((v, j)) => Ok((input.substring_char(j, src.chars.len()), v)),
        Err(e) => Err(e),
    }
}

/// A floating-point literal, tried only where the text holds a '.'.
pub fn parse_double(input: &str) -> (r: Result<(&str, Atom), ParseError>)
    ensures
        outcome(input@, r, spec_double(input@, 0)),
{
    let src = Source::new(input);
    match double_at(&src, 0) {
        Ok((v, j)) => Ok((input.substring_char(j, src.chars.len()), v)),
        Err(e) => Err(e),
    }
}

/// A signed 64-bit decimal literal.
pub fn parse_integer(input: &str) -> (r: Result<(&str, Atom), ParseError>)
    ensures
        outcome(input@, r, spec_integer(input@, 0)),
{
    let src = Source::new(input);
    match integer_at(&src, 0) {
        Ok((v, j)) => Ok((input.substring_char(j, src.chars.len()), v)),
        Err(e) => Err(e),
    }
}

/// One of the four category names.
pub fn parse_hogwarts_house(input: &str) -> (r: Result<(&str, Atom), ParseError>)
    ensures
        outcome(input@, r, spec_hogwarts_house(input@, 0)),
{
    let src = Source::new(input);
    match hogwarts_house_at(&src, 0) {
        Ok((v, j)) => Ok((input.substring_char(j, src.chars.len()), v)),
        Err(e) => Err(e),
    }
}

/// The random-choice expression.
pub fn parse_sorting_hat(input: &str) -> (r: Result<(&str, Expression), ParseError>)
    ensures
        outcome(input@, r, spec_sorting_hat(input@, 0)),
{
    let src = Source::new(input);
    match sorting_hat_at(&src, 0) {
        Ok((v, j)) => Ok((input.substring_char(j, src.chars.len()), v)),
        Err(e) => Err(e),
    }
}

/// A comment up to the end of the line.
pub fn parse_comment(input: &str) -> (r: Result<(&str, Expression), ParseError>)
    ensures
        outcome(input@, r, spec_comment(input@, 0)),
{
    let src = Source::new(input);
    match comment_at(&src, 0) {
        Ok((v, j)) => Ok((input.substring_char(j, src.chars.len()), v)),
        Err(e) => Err(e),
    }
}

/// A command cast with its optional target.
pub fn parse_spell_cast(input: &str) -> (r: Result<(&str, Expression), ParseError>)
    ensures
        outcome(input@, r, spec_spell_cast(input@, 0)),
{
    let src = Source::new(input);
    match spell_cast_at(&src, 0) {
        Ok((v, j)) => Ok((input.substring_char(j, src.chars.len()), v)),
        Err(e) => Err(e),
    }
}

/// Two atoms joined by an operator.
pub fn parse_binary_operation(input: &str) -> (r: Result<(&str, Expression), ParseError>)
    ensures
        outcome(input@, r, spec_binary_operation(input@, 0)),
{
    let src = Source::new(input);
    match binary_operation_at(&src, 0) {
        Ok((v, j)) => Ok((input.substring_char(j, src.chars.len()), v)),
        Err(e) => Err(e),
    }
}

/// A binary operator.
pub fn parse_binary_operator(input: &str) -> (r: Result<(&str, BinaryOperation), ParseError>)
    ensures
        outcome(input@, r, spec_binary_operator(input@, 0)),
{
    let src = Source::new(input);
    match binary_operator_at(&src, 0) {
        Ok((v, j)) => Ok((input.substring_char(j, src.chars.len()), v)),
        Err(e) => Err(e),
    }
}

/// An expression.
pub fn parse_expression(input: &str) -> (r: Result<(&str, Expression), ParseError>)
    ensures
        outcome(input@, r, spec_expression(input@, 0)),
{
    let src = Source::new(input);
    match expression_at(&src, 0) {
        Ok((v, j)) => Ok((input.substring_char(j, src.chars.len()), v)),
        Err(e) => Err(e),
    }
}

/// A statement with the whitespace around it.
pub fn parse_statement(input: &str) -> (r: Result<(&str, Statement), ParseError>)
    ensures
        outcome(input@, r, spec_statement(input@, 0)),
{
    let src = Source::new(input);
    match statement_at(&src, 0) {
        Ok((v, j)) => Ok((input.substring_char(j, src.chars.len()), v)),
        Err(e) => Err(e),
    }
}

/// An assignment.
pub fn parse_variable_assignment(input: &str) -> (r: Result<(&str, Statement), ParseError>)
    ensures
        outcome(input@, r, spec_variable_assignment(input@, 0)),
{
    let src = Source::new(input);
    match variable_assignment_at(&src, 0) {
        Ok((v, j)) => Ok((input.substring_char(j, src.chars.len()), v)),
        Err(e) => Err(e),
    }
}

/// A bare expression as a statement.
pub fn parse_expression_statement(input: &str) -> (r: Result<(&str, Statement), ParseError>)
    ensures
        outcome(input@, r, spec_expression_statement(input@, 0)),
{
    let src = Source::new(input);
    match expression_statement_at(&src, 0) {
        Ok((v, j)) => Ok((input.substring_char(j, src.chars.len()), v)),
        Err(e) => Err(e),
    }
}

/// A conditional.
pub fn parse_if_statement(input: &str) -> (r: Result<(&str, Statement), ParseError>)
    ensures
        outcome(input@, r, spec_if_statement(input@, 0)),
{
    let src = Source::new(input);
    match if_statement_at(&src, 0) {
        Ok((v, j)) => Ok((input.substring_char(j, src.chars.len()), v)),
        Err(e) => Err(e),
    }
}

/// A repeat block.
pub fn parse_quidditch_statement(input: &str) -> (r: Result<(&str, Statement), ParseError>)
    ensures
        outcome(input@, r, spec_quidditch_statement(input@, 0)),
{
    let src = Source::new(input);
    match quidditch_statement_at(&src, 0) {
        Ok((v, j)) => Ok((input.substring_char(j, src.chars.len()), v)),
        Err(e) => Err(e),
    }
}

/// The exit marker.
pub fn parse_snitch_statement(input: &str) -> (r: Result<(&str, Statement), ParseError>)
    ensures
        outcome(input@, r, spec_snitch_statement(input@, 0)),
{
    let src = Source::new(input);
    match snitch_statement_at(&src, 0) {
        Ok((v, j)) => Ok((input.substring_char(j, src.chars.len()), v)),
        Err(e) => Err(e),
    }
}

/// An atom, as an expression.
pub fn parse_atom(input: &str) -> (r: Result<(&str, Expression), ParseError>)
    ensures
        outcome(input@, r, atom_expr(spec_atom(input@, 0))),
{
    let src = Source::new(input);
    match atom_at(&src, 0) {
        Ok((a, j)) => Ok((input.substring_char(j, src.chars.len()), Expression::Atom(a))),
        Err(e) => Err(e),
    }
}

/// A whole program: one or more statements that read the whole text. The
/// rest handed back beside the program is therefore always empty.
pub fn parse_program(input: &str) -> (r: Result<(&str, Program), ParseError>)
    ensures
        outcome(input@, r, spec_program(input@)),
{
    let src = Source::new(input);
    match statements_at(&src, 0) {
        Ok((ss, j)) => if j == src.chars.len() {
            Ok((input.substring_char(j, src.chars.len()), Program(ss)))
        } else {
            Err(ParseError::Backtrack)
        },
        Err(e) => Err(e),
    }
}

} // verus!
