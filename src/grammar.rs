//! The grammar of the language, stated over character sequences.
//!
//! Every parser here reads `s` from position `i` and yields the parsed value
//! with the position just after it, or an error. A `Backtrack` error lets the
//! caller try its next alternative at the same position; a `Fatal` error ends
//! the whole parse.

use vstd::prelude::*;
use crate::ast::{AtomV, BinaryOperation, ExprV, HogwartsHouse, Spell, StmtV};

verus! {

/// Why a parser did not produce a value.
#[derive(Debug, Clone, Copy, PartialEq, Eq, Structural)]
pub enum ParseError {
    /// The input does not start with this construct; another alternative may match.
    Backtrack,
    /// The input is malformed beyond recovery (an unknown command name, a broken exponent).
    Fatal,
}

/// What a spec-level parser yields.
pub type SpecParse<T> = Result<(T, int), ParseError>;

/// Ordered choice: the second alternative is tried only when the first backtracks.
pub open spec fn or_else<T>(a: SpecParse<T>, b: SpecParse<T>) -> SpecParse<T> {
    match a {
        Err(ParseError::Backtrack) => b,
        _ => a,
    }
}

pub open spec fn is_space(c: char) -> bool {
    c == ' ' || c == '\t' || c == '\r' || c == '\n'
}

pub open spec fn is_alpha(c: char) -> bool {
    (65 <= c as u32 && c as u32 <= 90) || (97 <= c as u32 && c as u32 <= 122)
}

pub open spec fn is_digit(c: char) -> bool {
    48 <= c as u32 && c as u32 <= 57
}

pub open spec fn digit_value(c: char) -> int {
    c as u32 - 48
}

/// The first position at or after `i` that does not hold a character satisfying `p`.
pub open spec fn scan_while(s: Seq<char>, i: int, p: spec_fn(char) -> bool) -> int
    decreases s.len() - i,
{
    if 0 <= i < s.len() && p(s[i]) {
        scan_while(s, i + 1, p)
    } else {
        i
    }
}

pub open spec fn skip_spaces(s: Seq<char>, i: int) -> int {
    scan_while(s, i, |c: char| is_space(c))
}

pub open spec fn alpha_end(s: Seq<char>, i: int) -> int {
    scan_while(s, i, |c: char| is_alpha(c))
}

pub open spec fn digit_end(s: Seq<char>, i: int) -> int {
    scan_while(s, i, |c: char| is_digit(c))
}

pub open spec fn line_end(s: Seq<char>, i: int) -> int {
    scan_while(s, i, |c: char| c != '\n')
}

pub open spec fn quote_end(s: Seq<char>, i: int) -> int {
    scan_while(s, i, |c: char| c != '"')
}

pub proof fn lemma_scan_while(s: Seq<char>, i: int, p: spec_fn(char) -> bool)
    requires
        0 <= i <= s.len(),
    ensures
        i <= scan_while(s, i, p) <= s.len(),
        forall|k: int| i <= k < scan_while(s, i, p) ==> p(#[trigger] s[k]),
        scan_while(s, i, p) < s.len() ==> !p(s[scan_while(s, i, p)]),
    decreases s.len() - i,
{
    if i < s.len() && p(s[i]) {
        lemma_scan_while(s, i + 1, p);
    }
}

/// Whether `lit` occurs in `s` at position `i`.
pub open spec fn starts_with(s: Seq<char>, i: int, lit: Seq<char>) -> bool {
    0 <= i && i + lit.len() <= s.len() && s.subrange(i, i + lit.len()) == lit
}

/// The value of a run of decimal digits.
pub open spec fn digits_value(d: Seq<char>) -> int
    decreases d.len(),
{
    if d.len() == 0 {
        0
    } else {
        digits_value(d.drop_last()) * 10 + digit_value(d.last())
    }
}

// Atoms

pub open spec fn spec_boolean(s: Seq<char>, i: int) -> SpecParse<AtomV> {
    if starts_with(s, i, "true"@) {
        Ok((AtomV::Bool(true), i + "true"@.len()))
    } else if starts_with(s, i, "false"@) {
        Ok((AtomV::Bool(false), i + "false"@.len()))
    } else {
        Err(ParseError::Backtrack)
    }
}

pub open spec fn spec_hogwarts_house(s: Seq<char>, i: int) -> SpecParse<AtomV> {
    if starts_with(s, i, "Gryffindor"@) {
        Ok((AtomV::House(HogwartsHouse::Gryffindor), i + "Gryffindor"@.len()))
    } else if starts_with(s, i, "Hufflepuff"@) {
        Ok((AtomV::House(HogwartsHouse::Hufflepuff), i + "Hufflepuff"@.len()))
    } else if starts_with(s, i, "Ravenclaw"@) {
        Ok((AtomV::House(HogwartsHouse::Ravenclaw), i + "Ravenclaw"@.len()))
    } else if starts_with(s, i, "Slytherin"@) {
        Ok((AtomV::House(HogwartsHouse::Slytherin), i + "Slytherin"@.len()))
    } else {
        Err(ParseError::Backtrack)
    }
}

/// Whether a character can begin what nom's `double` reads: a sign, a digit,
/// '.', or the first letter of `nan`, `inf` or `infinity` in either case.
pub open spec fn may_start_double(c: char) -> bool {
    c == '+' || c == '-' || c == '.' || is_digit(c) || c == 'n' || c == 'N' || c == 'i' || c == 'I'
}

/// What nom's `double` makes of a text: on success the unread rest and the
/// bit pattern of the number; on failure whether the failure is fatal.
pub uninterp spec fn nom_double(text: Seq<char>) -> Result<(Seq<char>, u64), bool>;

/// A double is tried only where a '.' occurs somewhere in the rest of the
/// input (not only in the token itself). nom's `double` reads at least one
/// character when it succeeds, and fails without harm on a text whose first
/// character cannot begin a number; a rest that is not shorter counts as no
/// match.
pub open spec fn spec_double(s: Seq<char>, i: int) -> SpecParse<AtomV> {
    if 0 <= i < s.len() && s.subrange(i, s.len() as int).contains('.') && may_start_double(s[i]) {
        match nom_double(s.subrange(i, s.len() as int)) {
            Ok((rest, bits)) => if rest.len() < s.len() - i {
                Ok((AtomV::Dbl(bits), s.len() - rest.len()))
            } else {
                Err(ParseError::Backtrack)
            },
            Err(fatal) => Err(if fatal { ParseError::Fatal } else { ParseError::Backtrack }),
        }
    } else {
        Err(ParseError::Backtrack)
    }
}

/// An optional sign, then one or more digits, whose value must fit in `i64`.
pub open spec fn spec_integer(s: Seq<char>, i: int) -> SpecParse<AtomV> {
    let signed = 0 <= i < s.len() && (s[i] == '-' || s[i] == '+');
    let negative = 0 <= i < s.len() && s[i] == '-';
    let start = if signed { i + 1 } else { i };
    let end = digit_end(s, start);
    let magnitude = digits_value(s.subrange(start, end));
    let value = if negative { -magnitude } else { magnitude };
    if 0 <= i && end > start && i64::MIN <= value <= i64::MAX {
        Ok((AtomV::Int(value as i64), end))
    } else {
        Err(ParseError::Backtrack)
    }
}

/// A '"', the characters up to the next '"', and that '"'; no escapes.
pub open spec fn spec_string(s: Seq<char>, i: int) -> SpecParse<AtomV> {
    let close = quote_end(s, i + 1);
    if 0 <= i < s.len() && s[i] == '"' && close < s.len() {
        Ok((AtomV::Str(s.subrange(i + 1, close)), close + 1))
    } else {
        Err(ParseError::Backtrack)
    }
}

/// A run of one or more ASCII letters.
pub open spec fn spec_variable(s: Seq<char>, i: int) -> SpecParse<AtomV> {
    let end = alpha_end(s, i);
    if 0 <= i && end > i {
        Ok((AtomV::Var(s.subrange(i, end)), end))
    } else {
        Err(ParseError::Backtrack)
    }
}

pub open spec fn spec_atom(s: Seq<char>, i: int) -> SpecParse<AtomV> {
    or_else(
        spec_boolean(s, i),
        or_else(
            spec_hogwarts_house(s, i),
            or_else(
                spec_double(s, i),
                or_else(spec_integer(s, i), or_else(spec_string(s, i), spec_variable(s, i))),
            ),
        ),
    )
}

// Expressions

pub open spec fn atom_expr(r: SpecParse<AtomV>) -> SpecParse<ExprV> {
    match r {
        Ok((a, j)) => Ok((ExprV::Atom(a), j)),
        Err(e) => Err(e),
    }
}

pub open spec fn spec_sorting_hat(s: Seq<char>, i: int) -> SpecParse<ExprV> {
    if starts_with(s, i, "SortingHat"@) {
        Ok((ExprV::Hat, i + "SortingHat"@.len()))
    } else if starts_with(s, i, "\u{1F3A9}\u{2728}"@) {
        Ok((ExprV::Hat, i + "\u{1F3A9}\u{2728}"@.len()))
    } else {
        Err(ParseError::Backtrack)
    }
}

/// A '#' and the rest of the line, kept without the '#'.
pub open spec fn spec_comment(s: Seq<char>, i: int) -> SpecParse<ExprV> {
    let end = line_end(s, i + 1);
    if 0 <= i < s.len() && s[i] == '#' {
        Ok((ExprV::Comment(s.subrange(i + 1, end)), end))
    } else {
        Err(ParseError::Backtrack)
    }
}

pub open spec fn spec_binary_operator(s: Seq<char>, i: int) -> SpecParse<BinaryOperation> {
    if 0 <= i < s.len() && s[i] == '+' {
        Ok((BinaryOperation::Plus, i + 1))
    } else if 0 <= i < s.len() && s[i] == '-' {
        Ok((BinaryOperation::Minus, i + 1))
    } else if 0 <= i < s.len() && s[i] == '*' {
        Ok((BinaryOperation::Times, i + 1))
    } else if 0 <= i < s.len() && s[i] == '/' {
        Ok((BinaryOperation::Divide, i + 1))
    } else if starts_with(s, i, "=="@) {
        Ok((BinaryOperation::Equal, i + 2))
    } else if starts_with(s, i, "!="@) {
        Ok((BinaryOperation::NotEqual, i + 2))
    } else {
        Err(ParseError::Backtrack)
    }
}

/// An atom, an operator and an atom, with optional whitespace between them.
pub open spec fn spec_binary_operation(s: Seq<char>, i: int) -> SpecParse<ExprV> {
    match spec_atom(s, i) {
        Err(e) => Err(e),
        Ok((left, j)) => match spec_binary_operator(s, skip_spaces(s, j)) {
            Err(e) => Err(e),
            Ok((op, k)) => match spec_atom(s, skip_spaces(s, k)) {
                Err(e) => Err(e),
                Ok((right, m)) => Ok(
                    (ExprV::Bin(op, Box::new(ExprV::Atom(left)), Box::new(ExprV::Atom(right))), m),
                ),
            },
        },
    }
}

/// The command of a name, if the name is one.
pub open spec fn spell_named(name: Seq<char>) -> Option<Spell> {
    if name == "Aguamenti"@ {
        Some(Spell::Aguamenti)
    } else if name == "AvadaKedabra"@ {
        Some(Spell::AvadaKedabra)
    } else if name == "Engorgio"@ {
        Some(Spell::Engorgio)
    } else if name == "Incendio"@ {
        Some(Spell::Incendio)
    } else if name == "Inmobolus"@ {
        Some(Spell::Inmobolus)
    } else if name == "Lumos"@ {
        Some(Spell::Lumos)
    } else if name == "Nox"@ {
        Some(Spell::Nox)
    } else if name == "Obliviate"@ {
        Some(Spell::Obliviate)
    } else if name == "OculusReparo"@ {
        Some(Spell::OculusReparo)
    } else if name == "Periculum"@ {
        Some(Spell::Periculum)
    } else if name == "Reducio"@ {
        Some(Spell::Reducio)
    } else if name == "PetrificusTotalus"@ {
        Some(Spell::PetrificusTotalus)
    } else if name == "Revelio"@ {
        Some(Spell::Revelio)
    } else if name == "Serpensortia"@ {
        Some(Spell::Serpensortia)
    } else if name == "WingardiumLeviosa"@ {
        Some(Spell::WingardiumLeviosa)
    } else {
        None
    }
}

/// Where the target of a command cast at `i` starts: after '~', the name
/// and at most one space.
pub open spec fn cast_target_start(s: Seq<char>, i: int) -> int {
    let name_end = alpha_end(s, i + 1);
    if name_end < s.len() && s[name_end] == ' ' {
        name_end + 1
    } else {
        name_end
    }
}

/// '~', a name, an optional space and an optional target expression. An
/// unknown name is fatal.
pub open spec fn spec_spell_cast(s: Seq<char>, i: int) -> SpecParse<ExprV>
    decreases s.len() - i, 0nat,
    via spell_cast_decreases
{
    if 0 <= i < s.len() && s[i] == '~' {
        let name = s.subrange(i + 1, alpha_end(s, i + 1));
        let k = cast_target_start(s, i);
        match spec_expression(s, k) {
            Err(ParseError::Fatal) => Err(ParseError::Fatal),
            Err(ParseError::Backtrack) => match spell_named(name) {
                Some(spell) => Ok((ExprV::Cast(spell, None), k)),
                None => Err(ParseError::Fatal),
            },
            Ok((target, m)) => match spell_named(name) {
                Some(spell) => Ok((ExprV::Cast(spell, Some(Box::new(target))), m)),
                None => Err(ParseError::Fatal),
            },
        }
    } else {
        Err(ParseError::Backtrack)
    }
}

#[via_fn]
pub proof fn spell_cast_decreases(s: Seq<char>, i: int) {
    if 0 <= i < s.len() && s[i] == '~' {
        lemma_scan_while(s, i + 1, |c: char| is_alpha(c));
    }
}

/// The alternatives in order: random choice, comment, command cast, binary
/// operation, atom.
pub open spec fn spec_expression(s: Seq<char>, i: int) -> SpecParse<ExprV>
    decreases s.len() - i, 1nat,
{
    or_else(
        spec_sorting_hat(s, i),
        or_else(
            spec_comment(s, i),
            or_else(
                spec_spell_cast(s, i),
                or_else(spec_binary_operation(s, i), atom_expr(spec_atom(s, i))),
            ),
        ),
    )
}

/// Positions only move forward: a successful atom reads at least one character.
pub proof fn lemma_atom_advances(s: Seq<char>, i: int)
    requires
        0 <= i <= s.len(),
    ensures
        spec_atom(s, i) matches Ok((_, j)) ==> i < j <= s.len(),
{
    reveal_strlit("true");
    reveal_strlit("false");
    reveal_strlit("Gryffindor");
    reveal_strlit("Hufflepuff");
    reveal_strlit("Ravenclaw");
    reveal_strlit("Slytherin");
    let start = if i < s.len() && (s[i] == '-' || s[i] == '+') { i + 1 } else { i };
    lemma_scan_while(s, start, |c: char| is_digit(c));
    if i < s.len() {
        lemma_scan_while(s, i + 1, |c: char| c != '"');
    }
    lemma_scan_while(s, i, |c: char| is_alpha(c));
}

pub proof fn lemma_spell_cast_advances(s: Seq<char>, i: int)
    requires
        0 <= i <= s.len(),
    ensures
        spec_spell_cast(s, i) matches Ok((_, j)) ==> i < j <= s.len(),
    decreases s.len() - i, 0nat,
{
    if 0 <= i < s.len() && s[i] == '~' {
        lemma_scan_while(s, i + 1, |c: char| is_alpha(c));
        lemma_expression_advances(s, cast_target_start(s, i));
    }
}

pub proof fn lemma_expression_advances(s: Seq<char>, i: int)
    requires
        0 <= i <= s.len(),
    ensures
        spec_expression(s, i) matches Ok((_, j)) ==> i < j <= s.len(),
    decreases s.len() - i, 1nat,
{
    reveal_strlit("SortingHat");
    reveal_strlit("\u{1F3A9}\u{2728}");
    reveal_strlit("==");
    reveal_strlit("!=");
    if i < s.len() {
        lemma_scan_while(s, i + 1, |c: char| c != '\n');
    }
    lemma_spell_cast_advances(s, i);
    lemma_atom_advances(s, i);
    if let Ok((_, j)) = spec_atom(s, i) {
        lemma_scan_while(s, j, |c: char| is_space(c));
        let k = skip_spaces(s, j);
        if let Ok((_, m)) = spec_binary_operator(s, k) {
            lemma_scan_while(s, m, |c: char| is_space(c));
            lemma_atom_advances(s, skip_spaces(s, m));
        }
    }
}

// Statements

/// Prepends the items `p` to a parsed sequence.
pub open spec fn prepend(p: Seq<StmtV>, r: SpecParse<Seq<StmtV>>) -> SpecParse<Seq<StmtV>> {
    match r {
        Ok((ss, k)) => Ok((p + ss, k)),
        Err(e) => Err(e),
    }
}

/// One or more statements. A statement that reads nothing stops the
/// repetition with an error (a guard against looping forever).
pub open spec fn spec_statements(s: Seq<char>, i: int) -> SpecParse<Seq<StmtV>>
    decreases s.len() - i, 8nat,
{
    match spec_statement(s, i) {
        Err(e) => Err(e),
        Ok((st, j)) => if i < j <= s.len() {
            prepend(seq![st], spec_more_statements(s, j))
        } else {
            Err(ParseError::Backtrack)
        },
    }
}

/// The statements after the first one of a repetition.
pub open spec fn spec_more_statements(s: Seq<char>, i: int) -> SpecParse<Seq<StmtV>>
    decreases s.len() - i, 8nat,
{
    match spec_statement(s, i) {
        Err(ParseError::Backtrack) => Ok((Seq::empty(), i)),
        Err(ParseError::Fatal) => Err(ParseError::Fatal),
        Ok((st, j)) => if i < j <= s.len() {
            prepend(seq![st], spec_more_statements(s, j))
        } else {
            Err(ParseError::Backtrack)
        },
    }
}

/// '{', one or more statements, '}'.
pub open spec fn spec_block(s: Seq<char>, i: int) -> SpecParse<Seq<StmtV>>
    decreases s.len() - i, 4nat,
{
    if 0 <= i < s.len() && s[i] == '{' {
        match spec_statements(s, i + 1) {
            Err(e) => Err(e),
            Ok((ss, k)) => if 0 <= k < s.len() && s[k] == '}' {
                Ok((ss, k + 1))
            } else {
                Err(ParseError::Backtrack)
            },
        }
    } else {
        Err(ParseError::Backtrack)
    }
}

/// The optional `else { ... }` after a conditional's first block, with the
/// whitespace around it.
pub open spec fn spec_else(s: Seq<char>, i: int) -> SpecParse<Seq<StmtV>>
    decreases s.len() - i, 5nat,
    via else_decreases
{
    let a = skip_spaces(s, i);
    if starts_with(s, a, "else"@) {
        match spec_block(s, skip_spaces(s, a + "else"@.len())) {
            Err(e) => Err(e),
            Ok((ss, k)) => Ok((ss, skip_spaces(s, k))),
        }
    } else {
        Err(ParseError::Backtrack)
    }
}

#[via_fn]
pub proof fn else_decreases(s: Seq<char>, i: int) {
    if 0 <= i <= s.len() {
        lemma_scan_while(s, i, |c: char| is_space(c));
        let a = skip_spaces(s, i);
        if starts_with(s, a, "else"@) {
            reveal_strlit("else");
            lemma_scan_while(s, a + 4, |c: char| is_space(c));
        }
    }
}

/// `if`, a condition, a block, and an optional else block. (The first block
/// always ends past `i`; the test on its end keeps the definition
/// well-founded.)
pub open spec fn spec_if_statement(s: Seq<char>, i: int) -> SpecParse<StmtV>
    decreases s.len() - i, 6nat,
    via if_decreases
{
    let a = skip_spaces(s, i);
    if 0 <= i <= s.len() && starts_with(s, a, "if"@) {
        match spec_expression(s, skip_spaces(s, a + "if"@.len())) {
            Err(e) => Err(e),
            Ok((cond, c)) => match spec_block(s, skip_spaces(s, c)) {
                Err(e) => Err(e),
                Ok((then_block, f)) => if i < f <= s.len() {
                    match spec_else(s, f) {
                        Ok((else_block, k)) => Ok((StmtV::If(cond, then_block, else_block), k)),
                        Err(ParseError::Backtrack) => Ok(
                            (StmtV::If(cond, then_block, Seq::empty()), f),
                        ),
                        Err(ParseError::Fatal) => Err(ParseError::Fatal),
                    }
                } else {
                    Err(ParseError::Backtrack)
                },
            },
        }
    } else {
        Err(ParseError::Backtrack)
    }
}

#[via_fn]
pub proof fn if_decreases(s: Seq<char>, i: int) {
    if 0 <= i <= s.len() {
        lemma_scan_while(s, i, |c: char| is_space(c));
        let a = skip_spaces(s, i);
        if starts_with(s, a, "if"@) {
            reveal_strlit("if");
            lemma_scan_while(s, a + 2, |c: char| is_space(c));
            let b = skip_spaces(s, a + 2);
            lemma_expression_advances(s, b);
            if let Ok((_, c)) = spec_expression(s, b) {
                lemma_scan_while(s, c, |c: char| is_space(c));
            }
        }
    }
}

/// The exit marker of a repeat block.
pub open spec fn spec_snitch_statement(s: Seq<char>, i: int) -> SpecParse<StmtV> {
    let a = skip_spaces(s, i);
    if starts_with(s, a, "snitch"@) {
        Ok((StmtV::Snitch, skip_spaces(s, a + "snitch"@.len())))
    } else {
        Err(ParseError::Backtrack)
    }
}

/// `quidditch` and a block: the repeat block.
pub open spec fn spec_quidditch_statement(s: Seq<char>, i: int) -> SpecParse<StmtV>
    decreases s.len() - i, 6nat,
    via quidditch_decreases
{
    let a = skip_spaces(s, i);
    if 0 <= i <= s.len() && starts_with(s, a, "quidditch"@) {
        match spec_block(s, skip_spaces(s, a + "quidditch"@.len())) {
            Err(e) => Err(e),
            Ok((body, k)) => Ok((StmtV::Loop(body), k)),
        }
    } else {
        Err(ParseError::Backtrack)
    }
}

#[via_fn]
pub proof fn quidditch_decreases(s: Seq<char>, i: int) {
    if 0 <= i <= s.len() {
        lemma_scan_while(s, i, |c: char| is_space(c));
        let a = skip_spaces(s, i);
        if starts_with(s, a, "quidditch"@) {
            reveal_strlit("quidditch");
            lemma_scan_while(s, a + 9, |c: char| is_space(c));
        }
    }
}

/// A variable name, '=', and an expression.
pub open spec fn spec_variable_assignment(s: Seq<char>, i: int) -> SpecParse<StmtV> {
    match spec_variable(s, i) {
        Ok((AtomV::Var(name), j)) => {
            let k = skip_spaces(s, j);
            if 0 <= k < s.len() && s[k] == '=' {
                match spec_expression(s, skip_spaces(s, k + 1)) {
                    Ok((e, m)) => Ok((StmtV::Assign(name, e), m)),
                    Err(e) => Err(e),
                }
            } else {
                Err(ParseError::Backtrack)
            }
        },
        _ => Err(ParseError::Backtrack),
    }
}

/// A bare expression and the whitespace after it.
pub open spec fn spec_expression_statement(s: Seq<char>, i: int) -> SpecParse<StmtV> {
    match spec_expression(s, i) {
        Ok((e, j)) => Ok((StmtV::Expr(e), skip_spaces(s, j))),
        Err(e) => Err(e),
    }
}

/// Whitespace, then the alternatives in order: conditional, exit marker,
/// repeat block, assignment, bare expression; then whitespace.
pub open spec fn spec_statement(s: Seq<char>, i: int) -> SpecParse<StmtV>
    decreases s.len() - i, 7nat,
    via statement_decreases
{
    let a = skip_spaces(s, i);
    if 0 <= i <= s.len() {
        match or_else(
            spec_if_statement(s, a),
            or_else(
                spec_snitch_statement(s, a),
                or_else(
                    spec_quidditch_statement(s, a),
                    or_else(spec_variable_assignment(s, a), spec_expression_statement(s, a)),
                ),
            ),
        ) {
            Ok((st, j)) => Ok((st, skip_spaces(s, j))),
            Err(e) => Err(e),
        }
    } else {
        Err(ParseError::Backtrack)
    }
}

#[via_fn]
pub proof fn statement_decreases(s: Seq<char>, i: int) {
    if 0 <= i <= s.len() {
        lemma_scan_while(s, i, |c: char| is_space(c));
    }
}

/// A whole program: one or more statements from the start, reading the whole
/// input; text that no statement matches is a failure.
pub open spec fn spec_program(s: Seq<char>) -> SpecParse<Seq<StmtV>> {
    match spec_statements(s, 0) {
        Ok((ss, k)) => if k == s.len() {
            Ok((ss, k))
        } else {
            Err(ParseError::Backtrack)
        },
        Err(e) => Err(e),
    }
}

} // verus!
