//! Laws of the language, proved over the spec functions that the parser and
//! the evaluator are verified against.

use vstd::prelude::*;
use crate::ast::{AtomV, BinaryOperation, ExprV, Spell, StmtV};
use crate::grammar::{
    digit_end, digits_value, is_digit, is_space, scan_while, skip_spaces, spec_atom, spec_binary_operation,
    spec_binary_operator, spec_comment, spec_double, spec_expression,
    spec_integer, spec_sorting_hat, spec_spell_cast, spec_string, starts_with, ParseError,
};
use crate::interpreter::{
    digits_text, int_text, render, spec_eval, spec_step, ActionV, EffectV, FrameV, MachineV, OutputV, Scope,
};
use crate::value::{in_i64, ErrorV, HaltV, ValueV};

verus! {

proof fn lemma_digits_text(n: nat)
    ensures
        digits_text(n).len() >= 1,
        forall|k: int| 0 <= k < digits_text(n).len() ==> is_digit(#[trigger] digits_text(n)[k]),
        digits_value(digits_text(n)) == n,
    decreases n,
{
    let t = digits_text(n);
    if n >= 10 {
        lemma_digits_text(n / 10);
        assert(t.drop_last() =~= digits_text(n / 10));
        assert(((n % 10 + 48) as char) as u32 == n % 10 + 48);
        assert(digits_value(t) == digits_value(digits_text(n / 10)) * 10 + (n % 10));
        assert(n == (n / 10) * 10 + n % 10);
    } else {
        assert(((n + 48) as char) as u32 == n + 48);
        assert(t.drop_last() =~= Seq::<char>::empty());
        assert(digits_value(t) == digits_value(Seq::<char>::empty()) * 10 + n);
    }
}

proof fn lemma_digit_run(s: Seq<char>, start: int)
    requires
        0 <= start <= s.len(),
        forall|k: int| start <= k < s.len() ==> is_digit(#[trigger] s[k]),
    ensures
        digit_end(s, start) == s.len(),
    decreases s.len() - start,
{
    if start < s.len() {
        lemma_digit_run(s, start + 1);
    }
}

/// The decimal text of every `i64` reads back, as an atom, as that integer,
/// and that integer renders as the same text.
pub proof fn law_integer_text_round_trip(v: i64)
    ensures
        spec_atom(int_text(v as int), 0) == Ok::<(AtomV, int), ParseError>(
            (AtomV::Int(v), int_text(v as int).len() as int),
        ),
        render(ValueV::Int(v)) == OutputV::Text(int_text(v as int)),
{
    let t = int_text(v as int);
    lemma_integer_text_chars(v);
    assert forall|k: int| 0 <= k < t.len() implies #[trigger] t[k] != '.' by {}
    assert(t.subrange(0, t.len() as int) =~= t);
    lemma_integer_atom(t, 0, v);
}

pub open spec fn int_atom(n: i64) -> Box<ExprV> {
    Box::new(ExprV::Atom(AtomV::Int(n)))
}

pub open spec fn str_atom(s: Seq<char>) -> Box<ExprV> {
    Box::new(ExprV::Atom(AtomV::Str(s)))
}

/// Two string literals joined by `+` evaluate to their concatenation, with
/// no effect and no change to the bindings.
pub proof fn law_string_concatenation(sc: Scope, a: Seq<char>, b: Seq<char>, draw: usize, answer: Option<ValueV>)
    ensures
        spec_eval(sc, ExprV::Bin(BinaryOperation::Plus, str_atom(a), str_atom(b)), draw, answer) == (
            sc,
            Seq::<EffectV>::empty(),
            Ok::<Option<ValueV>, HaltV>(Some(ValueV::Str(a + b))),
        ),
{
    let e = ExprV::Bin(BinaryOperation::Plus, str_atom(a), str_atom(b));
    assert(spec_eval(sc, *str_atom(a), draw, answer) == (sc, Seq::<EffectV>::empty(), Ok::<Option<ValueV>, HaltV>(Some(ValueV::Str(a)))));
    assert(spec_eval(sc, *str_atom(b), draw, answer) == (sc, Seq::<EffectV>::empty(), Ok::<Option<ValueV>, HaltV>(Some(ValueV::Str(b)))));
    assert(Seq::<EffectV>::empty() + Seq::<EffectV>::empty() =~= Seq::<EffectV>::empty());
}

/// Two integer literals joined by `+` evaluate to their sum where it fits in
/// `i64` (else the overflow is fatal); dividing by the literal zero is fatal.
pub proof fn law_integer_sum_and_zero_division(sc: Scope, n: i64, m: i64, draw: usize, answer: Option<ValueV>)
    ensures
        in_i64(n + m) ==> spec_eval(sc, ExprV::Bin(BinaryOperation::Plus, int_atom(n), int_atom(m)), draw, answer).2
            == Ok::<Option<ValueV>, HaltV>(Some(ValueV::Int((n + m) as i64))),
        !in_i64(n + m) ==> spec_eval(sc, ExprV::Bin(BinaryOperation::Plus, int_atom(n), int_atom(m)), draw, answer).2
            == Err::<Option<ValueV>, HaltV>(HaltV::Fail(ErrorV::Overflow)),
        spec_eval(sc, ExprV::Bin(BinaryOperation::Divide, int_atom(n), int_atom(0)), draw, answer).2
            == Err::<Option<ValueV>, HaltV>(HaltV::Fail(ErrorV::DivisionByZero)),
{
    assert(spec_eval(sc, *int_atom(n), draw, answer).2 == Ok::<Option<ValueV>, HaltV>(Some(ValueV::Int(n))));
    assert(spec_eval(sc, *int_atom(m), draw, answer).2 == Ok::<Option<ValueV>, HaltV>(Some(ValueV::Int(m))));
    assert(spec_eval(sc, *int_atom(0), draw, answer).2 == Ok::<Option<ValueV>, HaltV>(Some(ValueV::Int(0))));
}

/// The statement that the next step of `m` runs, if any.
pub open spec fn next_statement(m: MachineV) -> Option<StmtV> {
    if m.frames.len() > 0 && 0 <= m.frames.last().next < m.frames.last().body.len() {
        Some(m.frames.last().body[m.frames.last().next])
    } else {
        None
    }
}

/// The frames after the innermost block moves past its next statement.
pub open spec fn advanced(m: MachineV) -> Seq<FrameV> {
    m.frames.drop_last().push(FrameV { next: m.frames.last().next + 1, ..m.frames.last() })
}

/// A conditional whose condition yields `true` runs its first block next and
/// only that block; any other outcome, a non-boolean value or no value
/// included, runs the else block (which may be empty).
pub proof fn law_conditional(
    m: MachineV,
    c: ExprV,
    t: Seq<StmtV>,
    f: Seq<StmtV>,
    draw: usize,
    answer: Option<ValueV>,
)
    requires
        next_statement(m) == Some(StmtV::If(c, t, f)),
    ensures
        ({
            let (sc, eff, res) = spec_eval(m.scope, c, draw, answer);
            let (m2, eff2, action) = spec_step(m, draw, answer);
            res matches Ok(v) ==> action == ActionV::Continue && eff2 == eff && m2.frames == advanced(m).push(
                FrameV { body: if v == Some(ValueV::Bool(true)) { t } else { f }, next: 0, repeat: false },
            )
        }),
{
}

/// The exit marker clears the loop flag and moves on to the next statement
/// of its block, so the rest of the pass still runs; at the end of a pass a
/// repeat block starts again only while the flag is set, and is left
/// otherwise.
pub proof fn law_exit_marker(m: MachineV, draw: usize, answer: Option<ValueV>)
    ensures
        next_statement(m) == Some(StmtV::Snitch) ==> spec_step(m, draw, answer) == (
            MachineV { quidditch: false, frames: advanced(m), ..m },
            Seq::<EffectV>::empty(),
            ActionV::Continue,
        ),
        m.frames.len() > 0 && m.frames.last().repeat && m.frames.last().next >= m.frames.last().body.len()
            ==> spec_step(m, draw, answer).0.frames == if m.quidditch {
            m.frames.drop_last().push(FrameV { next: 0, ..m.frames.last() })
        } else {
            m.frames.drop_last()
        },
{
}

/// Freezing a bound variable moves its value to the constants; assigning to
/// a constant name then fails, leaves every binding and the loop flag as they
/// were, and leaves nothing to run.
pub proof fn law_frozen_assignment(sc: Scope, name: Seq<char>, m: MachineV, draw: usize, answer: Option<ValueV>)
    ensures
        sc.vars.contains_key(name) ==> ({
            let frozen = spec_eval(
                sc,
                ExprV::Cast(Spell::PetrificusTotalus, Some(Box::new(ExprV::Atom(AtomV::Var(name))))),
                draw,
                answer,
            ).0;
            frozen.consts.contains_key(name) && frozen.consts[name] == sc.vars[name]
                && !frozen.vars.contains_key(name)
        }),
        (next_statement(m) matches Some(StmtV::Assign(n, _)) && n == name && m.scope.consts.contains_key(name))
            ==> spec_step(m, draw, answer) == (
            MachineV { frames: Seq::empty(), ..m },
            Seq::<EffectV>::empty(),
            ActionV::Fail(ErrorV::ConstantReassignment(name)),
        ),
{
}

proof fn lemma_scan_stops(s: Seq<char>, i: int, j: int, p: spec_fn(char) -> bool)
    requires
        0 <= i <= j <= s.len(),
        forall|k: int| i <= k < j ==> p(#[trigger] s[k]),
        j == s.len() || !p(s[j]),
    ensures
        scan_while(s, i, p) == j,
    decreases j - i,
{
    if i < j {
        lemma_scan_stops(s, i + 1, j, p);
    }
}

proof fn lemma_not_starts(s: Seq<char>, i: int, lit: Seq<char>)
    requires
        0 <= i < s.len(),
        lit.len() > 0,
        s[i] != lit[0],
    ensures
        !starts_with(s, i, lit),
{
    if starts_with(s, i, lit) {
        assert(s.subrange(i, i + lit.len())[0] == s[i]);
    }
}

/// A string literal at `i` whose content runs to `close` (no '"' in between)
/// reads as that string, and no earlier atom alternative matches it.
proof fn lemma_string_atom(s: Seq<char>, i: int, close: int)
    requires
        0 <= i < close < s.len(),
        s[i] == '"',
        s[close] == '"',
        forall|k: int| i < k < close ==> #[trigger] s[k] != '"',
    ensures
        spec_atom(s, i) == Ok::<(AtomV, int), ParseError>((AtomV::Str(s.subrange(i + 1, close)), close + 1)),
{
    reveal_strlit("true");
    reveal_strlit("false");
    reveal_strlit("Gryffindor");
    reveal_strlit("Hufflepuff");
    reveal_strlit("Ravenclaw");
    reveal_strlit("Slytherin");
    lemma_not_starts(s, i, "true"@);
    lemma_not_starts(s, i, "false"@);
    lemma_not_starts(s, i, "Gryffindor"@);
    lemma_not_starts(s, i, "Hufflepuff"@);
    lemma_not_starts(s, i, "Ravenclaw"@);
    lemma_not_starts(s, i, "Slytherin"@);
    assert(spec_double(s, i) == Err::<(AtomV, int), ParseError>(ParseError::Backtrack));
    lemma_scan_stops(s, i, i, |c: char| is_digit(c));
    lemma_scan_stops(s, i + 1, close, |c: char| c != '"');
    assert(spec_string(s, i) == Ok::<(AtomV, int), ParseError>((AtomV::Str(s.subrange(i + 1, close)), close + 1)));
}

/// The text of two string literals joined by " + ".
pub open spec fn joined_literals(a: Seq<char>, b: Seq<char>) -> Seq<char> {
    seq!['"'] + a + seq!['"', ' ', '+', ' ', '"'] + b + seq!['"']
}

/// Where the pieces of `joined_literals(a, b)` stand.
proof fn lemma_joined_shape(a: Seq<char>, b: Seq<char>)
    requires
        forall|k: int| 0 <= k < a.len() ==> #[trigger] a[k] != '"',
        forall|k: int| 0 <= k < b.len() ==> #[trigger] b[k] != '"',
    ensures
        ({
            let s = joined_literals(a, b);
            let end_a = a.len() as int + 1;
            let start_b = end_a + 4;
            let close = start_b + 1 + b.len() as int;
            &&& s.len() == close + 1
            &&& s[0] == '"' && s[end_a] == '"' && s[end_a + 1] == ' ' && s[end_a + 2] == '+' && s[end_a + 3] == ' '
            &&& s[start_b] == '"' && s[close] == '"'
            &&& forall|k: int| 0 < k < end_a ==> #[trigger] s[k] != '"'
            &&& forall|k: int| start_b < k < close ==> #[trigger] s[k] != '"'
            &&& s.subrange(1, end_a) == a
            &&& s.subrange(start_b + 1, close) == b
        }),
{
    let s = joined_literals(a, b);
    let open_quote = seq!['"'];
    let middle = seq!['"', ' ', '+', ' ', '"'];
    let s1 = open_quote + a;
    let s2 = s1 + middle;
    let s3 = s2 + b;
    assert(s == s3 + open_quote);
    let end_a: int = a.len() as int + 1;
    let start_b: int = end_a + 4;
    let close: int = start_b + 1 + b.len() as int;
    assert forall|k: int| 0 <= k < s.len() implies #[trigger] s[k] == (if k == 0 || k == end_a || k == start_b || k == close {
        '"'
    } else if k == end_a + 1 || k == end_a + 3 {
        ' '
    } else if k == end_a + 2 {
        '+'
    } else if k < end_a {
        a[k - 1]
    } else {
        b[k - start_b - 1]
    }) by {
        if k < s3.len() {
            assert(s[k] == s3[k]);
            if k < s2.len() {
                assert(s3[k] == s2[k]);
                if k < s1.len() {
                    assert(s2[k] == s1[k]);
                } else {
                    assert(s2[k] == middle[k - s1.len()]);
                }
            } else {
                assert(s3[k] == b[k - s2.len()]);
            }
        }
    }
    assert(s.subrange(1, end_a) =~= a);
    assert(s.subrange(start_b + 1, close) =~= b);
}

/// Two string literals joined by `+` parse as the addition of the two
/// strings, read to the end of the text, for any contents without '"'.
pub proof fn law_string_concatenation_parses(a: Seq<char>, b: Seq<char>)
    requires
        forall|k: int| 0 <= k < a.len() ==> #[trigger] a[k] != '"',
        forall|k: int| 0 <= k < b.len() ==> #[trigger] b[k] != '"',
    ensures
        spec_expression(joined_literals(a, b), 0) == Ok::<(ExprV, int), ParseError>(
            (ExprV::Bin(BinaryOperation::Plus, str_atom(a), str_atom(b)), joined_literals(a, b).len() as int),
        ),
{
    let s = joined_literals(a, b);
    lemma_joined_shape(a, b);
    lemma_joined_operation(a, b);
    reveal_strlit("SortingHat");
    reveal_strlit("\u{1F3A9}\u{2728}");
    lemma_not_starts(s, 0, "SortingHat"@);
    lemma_not_starts(s, 0, "\u{1F3A9}\u{2728}"@);
    assert(spec_sorting_hat(s, 0) == Err::<(ExprV, int), ParseError>(ParseError::Backtrack));
    assert(spec_comment(s, 0) == Err::<(ExprV, int), ParseError>(ParseError::Backtrack));
    assert(spec_spell_cast(s, 0) == Err::<(ExprV, int), ParseError>(ParseError::Backtrack));
}

proof fn lemma_joined_operation(a: Seq<char>, b: Seq<char>)
    requires
        forall|k: int| 0 <= k < a.len() ==> #[trigger] a[k] != '"',
        forall|k: int| 0 <= k < b.len() ==> #[trigger] b[k] != '"',
    ensures
        spec_binary_operation(joined_literals(a, b), 0) == Ok::<(ExprV, int), ParseError>(
            (ExprV::Bin(BinaryOperation::Plus, str_atom(a), str_atom(b)), joined_literals(a, b).len() as int),
        ),
{
    let s = joined_literals(a, b);
    lemma_joined_shape(a, b);
    let end_a: int = a.len() as int + 1;
    let start_b: int = end_a + 4;
    let close: int = start_b + 1 + b.len() as int;
    lemma_string_atom(s, 0, end_a);
    lemma_string_atom(s, start_b, close);
    lemma_scan_stops(s, end_a + 1, end_a + 2, |c: char| is_space(c));
    lemma_scan_stops(s, end_a + 3, start_b, |c: char| is_space(c));
    assert(skip_spaces(s, end_a + 1) == end_a + 2);
    assert(skip_spaces(s, end_a + 3) == start_b);
    assert(spec_binary_operator(s, end_a + 2) == Ok::<(BinaryOperation, int), ParseError>((BinaryOperation::Plus, end_a + 3)));
}

/// The decimal text of `v` standing at `i`, followed by the end of the text
/// or by a non-digit, with no '.' after it, reads as the atom `v`.
proof fn lemma_integer_atom(s: Seq<char>, i: int, v: i64)
    requires
        0 <= i,
        i + int_text(v as int).len() <= s.len(),
        s.subrange(i, i + int_text(v as int).len()) == int_text(v as int),
        i + int_text(v as int).len() == s.len() || !is_digit(s[i + int_text(v as int).len()]),
        forall|k: int| i <= k < s.len() ==> #[trigger] s[k] != '.',
    ensures
        spec_atom(s, i) == Ok::<(AtomV, int), ParseError>((AtomV::Int(v), i + int_text(v as int).len())),
{
    let t = int_text(v as int);
    let end = i + t.len();
    let mag: nat = if v < 0 { (-(v as int)) as nat } else { v as nat };
    lemma_digits_text(mag);
    let d = digits_text(mag);
    let start: int = if v < 0 { i + 1 } else { i };
    assert forall|k: int| i <= k < end implies #[trigger] s[k] == t[k - i] by {
        assert(s.subrange(i, end)[k - i] == s[k]);
    }
    assert forall|k: int| start <= k < end implies is_digit(#[trigger] s[k]) by {
        assert(s[k] == t[k - i]);
        if v < 0 {
            assert(t[k - i] == d[k - i - 1]);
        } else {
            assert(t[k - i] == d[k - i]);
        }
    }
    lemma_scan_stops(s, start, end, |c: char| is_digit(c));
    assert(s.subrange(start, end) =~= d) by {
        assert forall|k: int| 0 <= k < end - start implies s.subrange(start, end)[k] == d[k] by {
            assert(s[start + k] == t[start + k - i]);
        }
    }
    assert(s[i] == t[0]);
    assert(is_digit(s[start]));
    reveal_strlit("true");
    reveal_strlit("false");
    reveal_strlit("Gryffindor");
    reveal_strlit("Hufflepuff");
    reveal_strlit("Ravenclaw");
    reveal_strlit("Slytherin");
    lemma_not_starts(s, i, "true"@);
    lemma_not_starts(s, i, "false"@);
    lemma_not_starts(s, i, "Gryffindor"@);
    lemma_not_starts(s, i, "Hufflepuff"@);
    lemma_not_starts(s, i, "Ravenclaw"@);
    lemma_not_starts(s, i, "Slytherin"@);
    assert(!s.subrange(i, s.len() as int).contains('.')) by {
        if s.subrange(i, s.len() as int).contains('.') {
            let k = choose|k: int| 0 <= k < s.len() - i && s.subrange(i, s.len() as int)[k] == '.';
            assert(s[i + k] == '.');
        }
    }
    assert(spec_double(s, i) == Err::<(AtomV, int), ParseError>(ParseError::Backtrack));
    assert(spec_integer(s, i) == Ok::<(AtomV, int), ParseError>((AtomV::Int(v), end)));
}

/// The text of two integers joined by " + ".
pub open spec fn joined_integers(n: i64, m: i64) -> Seq<char> {
    int_text(n as int) + seq![' ', '+', ' '] + int_text(m as int)
}

/// Where the pieces of `joined_integers(n, m)` stand.
proof fn lemma_joined_integers_shape(n: i64, m: i64)
    ensures
        ({
            let s = joined_integers(n, m);
            let a = int_text(n as int).len() as int;
            let b = a + 3;
            &&& s.len() == b + int_text(m as int).len()
            &&& s[a] == ' ' && s[a + 1] == '+' && s[a + 2] == ' '
            &&& s[0] == int_text(n as int)[0] && s[b] == int_text(m as int)[0]
            &&& forall|k: int| 0 <= k < s.len() ==> #[trigger] s[k] != '.'
            &&& s.subrange(0, a) == int_text(n as int)
            &&& s.subrange(b, s.len() as int) == int_text(m as int)
        }),
{
    let s = joined_integers(n, m);
    let tn = int_text(n as int);
    let tm = int_text(m as int);
    let mid = seq![' ', '+', ' '];
    let s1 = tn + mid;
    assert(s == s1 + tm);
    let a = tn.len() as int;
    let b = a + 3;
    lemma_integer_text_chars(n);
    lemma_integer_text_chars(m);
    assert forall|k: int| 0 <= k < s.len() implies #[trigger] s[k] == (if k < a {
        tn[k]
    } else if k < b {
        mid[k - a]
    } else {
        tm[k - b]
    }) by {
        if k < s1.len() {
            assert(s[k] == s1[k]);
        } else {
            assert(s[k] == tm[k - s1.len()]);
        }
    }
    assert forall|k: int| 0 <= k < s.len() implies #[trigger] s[k] != '.' by {
        if k < a {
            assert(s[k] == tn[k]);
        } else if k >= b {
            assert(s[k] == tm[k - b]);
        }
    }
    assert(s.subrange(0, a) =~= tn);
    assert(s.subrange(b, s.len() as int) =~= tm);
}

proof fn lemma_joined_integers_operation(n: i64, m: i64)
    ensures
        spec_binary_operation(joined_integers(n, m), 0) == Ok::<(ExprV, int), ParseError>(
            (ExprV::Bin(BinaryOperation::Plus, int_atom(n), int_atom(m)), joined_integers(n, m).len() as int),
        ),
{
    let s = joined_integers(n, m);
    lemma_joined_integers_shape(n, m);
    let a = int_text(n as int).len() as int;
    let b = a + 3;
    lemma_integer_atom(s, 0, n);
    lemma_integer_atom(s, b, m);
    lemma_scan_stops(s, a, a + 1, |c: char| is_space(c));
    lemma_scan_stops(s, a + 2, b, |c: char| is_space(c));
    assert(skip_spaces(s, a) == a + 1);
    assert(skip_spaces(s, a + 2) == b);
    assert(spec_binary_operator(s, a + 1) == Ok::<(BinaryOperation, int), ParseError>((BinaryOperation::Plus, a + 2)));
}

/// The decimal texts of two integers joined by `+` parse as the addition of
/// the two integers, read to the end of the text.
pub proof fn law_integer_sum_parses(n: i64, m: i64)
    ensures
        spec_expression(joined_integers(n, m), 0) == Ok::<(ExprV, int), ParseError>(
            (ExprV::Bin(BinaryOperation::Plus, int_atom(n), int_atom(m)), joined_integers(n, m).len() as int),
        ),
{
    let s = joined_integers(n, m);
    lemma_joined_integers_shape(n, m);
    lemma_joined_integers_operation(n, m);
    lemma_integer_text_chars(n);
    let c = s[0];
    assert(c == '-' || is_digit(c));
    reveal_strlit("SortingHat");
    reveal_strlit("\u{1F3A9}\u{2728}");
    lemma_not_starts(s, 0, "SortingHat"@);
    lemma_not_starts(s, 0, "\u{1F3A9}\u{2728}"@);
    assert(spec_sorting_hat(s, 0) == Err::<(ExprV, int), ParseError>(ParseError::Backtrack));
    assert(spec_comment(s, 0) == Err::<(ExprV, int), ParseError>(ParseError::Backtrack));
    assert(spec_spell_cast(s, 0) == Err::<(ExprV, int), ParseError>(ParseError::Backtrack));
}

/// Every character of an integer's text is a digit or its leading '-'.
proof fn lemma_integer_text_chars(v: i64)
    ensures
        int_text(v as int).len() >= 1,
        forall|k: int| 0 <= k < int_text(v as int).len() ==> (#[trigger] int_text(v as int)[k] == '-' && k == 0)
            || is_digit(int_text(v as int)[k]),
{
    let t = int_text(v as int);
    let mag: nat = if v < 0 { (-(v as int)) as nat } else { v as nat };
    lemma_digits_text(mag);
    let d = digits_text(mag);
    assert forall|k: int| 0 <= k < t.len() implies (#[trigger] t[k] == '-' && k == 0) || is_digit(t[k]) by {
        if v < 0 {
            if k > 0 {
                assert(t[k] == d[k - 1]);
            }
        } else {
            assert(t[k] == d[k]);
        }
    }
}

} // verus!
