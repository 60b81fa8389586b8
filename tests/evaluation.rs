use potterscript::{
    parse_program, Atom, render_value, Action, Effect, EvalError, FloatRequest, HogwartsHouse, Interpreter, Output,
    ParseError, RuntimeValue, BinaryOperation,
};

/// Runs a program to its end, answering double operations with real
/// arithmetic and always drawing `draw`. Returns the interpreter, every
/// effect in order, and the last action.
fn run_with(source: &str, draw: usize) -> (Interpreter, Vec<Effect>, Action) {
    let (_, program) = parse_program(source).unwrap();
    let mut interpreter = Interpreter::new();
    interpreter.eval(program);
    let mut effects = Vec::new();
    let mut answer = None;
    for _ in 0..100_000 {
        let step = interpreter.step(draw, answer.take());
        effects.extend(step.effects);
        match step.action {
            Action::Continue => {}
            Action::Compute(request) => answer = Some(compute(request)),
            other => return (interpreter, effects, other),
        }
    }
    panic!("program did not end");
}

fn run(source: &str) -> (Interpreter, Vec<Effect>, Action) {
    run_with(source, 0)
}

fn compute(request: FloatRequest) -> RuntimeValue {
    let a = f64::from_bits(request.left);
    let b = f64::from_bits(request.right);
    match request.op {
        BinaryOperation::Plus => RuntimeValue::Double((a + b).to_bits()),
        BinaryOperation::Minus => RuntimeValue::Double((a - b).to_bits()),
        BinaryOperation::Times => RuntimeValue::Double((a * b).to_bits()),
        BinaryOperation::Divide => RuntimeValue::Double((a / b).to_bits()),
        BinaryOperation::Equal => RuntimeValue::Boolean(a == b),
        BinaryOperation::NotEqual => RuntimeValue::Boolean(a != b),
    }
}

fn text(s: &str) -> Effect {
    Effect::Write(Output::Text(s.to_string()), false)
}

#[test]
fn repeat_block_counts_to_four() {
    let source = "index = 0\nquidditch {\n snake = ~Serpensortia\n ~Engorgio index\n if index == 4 { snitch }\n}";
    let (interpreter, effects, action) = run(source);
    assert_eq!(action, Action::Finished);
    assert!(effects.is_empty());
    assert_eq!(interpreter.variable("index"), Some(RuntimeValue::Integer(4)));
    assert_eq!(interpreter.variable("snake"), Some(RuntimeValue::String("\u{1F40D}".to_string())));
}

#[test]
fn terminating_command_stops_everything() {
    let (interpreter, effects, action) = run("~AvadaKedabra\n~Revelio \"after\"\nx = 1");
    assert_eq!(action, Action::Exit);
    assert!(effects.is_empty());
    assert_eq!(interpreter.variable("x"), None);
}

#[test]
fn output_command_writes_a_variable() {
    let (_, effects, action) = run("foo = 4\n~Revelio foo");
    assert_eq!(action, Action::Finished);
    assert_eq!(effects, vec![text("4")]);
}

#[test]
fn integer_literals_render_as_written() {
    for literal in ["0", "7", "123", "-42", "9223372036854775807", "-9223372036854775808"] {
        let (_, effects, _) = run(&format!("~Revelio {}", literal));
        assert_eq!(effects, vec![text(literal)]);
    }
}

#[test]
fn integer_literal_out_of_range_is_not_an_integer() {
    assert_eq!(parse_program("x = 9223372036854775808").unwrap_err(), ParseError::Backtrack);
}

#[test]
fn strings_concatenate() {
    let (interpreter, _, _) = run("x = \"Hello, \" + \"world!\"");
    assert_eq!(interpreter.variable("x"), Some(RuntimeValue::String("Hello, world!".to_string())));
}

#[test]
fn integers_add_and_divide() {
    let (interpreter, _, _) = run("a = 2 + 3\nb = 7 / 2\nc = -7 / 2\nd = 6 * 7\ne = 1 - 5");
    assert_eq!(interpreter.variable("a"), Some(RuntimeValue::Integer(5)));
    assert_eq!(interpreter.variable("b"), Some(RuntimeValue::Integer(3)));
    assert_eq!(interpreter.variable("c"), Some(RuntimeValue::Integer(-3)));
    assert_eq!(interpreter.variable("d"), Some(RuntimeValue::Integer(42)));
    assert_eq!(interpreter.variable("e"), Some(RuntimeValue::Integer(-4)));
}

#[test]
fn division_by_zero_is_fatal() {
    let (interpreter, _, action) = run("x = 1 / 0\ny = 2");
    assert_eq!(action, Action::Fail(EvalError::DivisionByZero));
    assert_eq!(interpreter.variable("y"), None);
}

#[test]
fn double_division_by_zero_is_fatal() {
    let (interpreter, _, action) = run("x = 1.5 / 0.0\ny = 2");
    assert_eq!(action, Action::Fail(EvalError::DivisionByZero));
    assert_eq!(interpreter.variable("y"), None);
    let (_, _, action) = run("x = 1.5 / -0.0");
    assert_eq!(action, Action::Fail(EvalError::DivisionByZero));
    let (interpreter, _, _) = run("x = 3.0 / 2.0");
    assert_eq!(interpreter.variable("x"), Some(RuntimeValue::Double(1.5f64.to_bits())));
}

#[test]
fn leftover_text_is_a_parse_failure() {
    assert_eq!(parse_program("x = 1\n}").unwrap_err(), ParseError::Backtrack);
    let (rest, program) = parse_program("x = 1\n  ").unwrap();
    assert_eq!(rest, "");
    assert_eq!(program.0.len(), 1);
}

#[test]
fn programs_run_in_the_order_queued() {
    let (_, first) = parse_program("~Revelio 1").unwrap();
    let (_, second) = parse_program("~Revelio 2").unwrap();
    let mut interpreter = Interpreter::new();
    interpreter.eval(first);
    interpreter.eval(second);
    let mut effects = Vec::new();
    loop {
        let step = interpreter.step(0, None);
        effects.extend(step.effects);
        if step.action != Action::Continue {
            assert_eq!(step.action, Action::Finished);
            break;
        }
    }
    assert_eq!(effects, vec![text("1"), text("2")]);
}

#[test]
fn failure_leaves_nothing_to_run() {
    let (interpreter, _, action) = run("x = 1 / 0\ny = 2");
    assert_eq!(action, Action::Fail(EvalError::DivisionByZero));
    assert!(interpreter.is_idle());
    let (interpreter, _, action) = run("~AvadaKedabra\ny = 2");
    assert_eq!(action, Action::Exit);
    assert!(interpreter.is_idle());
}

#[test]
fn strings_with_dots_concatenate() {
    let (interpreter, _, _) = run("x = \"a.b\" + \"1.5\"");
    assert_eq!(interpreter.variable("x"), Some(RuntimeValue::String("a.b1.5".to_string())));
}

#[test]
fn integer_overflow_is_fatal() {
    let (_, _, action) = run("x = 9223372036854775807 + 1");
    assert_eq!(action, Action::Fail(EvalError::Overflow));
}

#[test]
fn mixed_addition_is_a_type_error() {
    let (_, _, action) = run("x = 1 + \"a\"");
    assert_eq!(action, Action::Fail(EvalError::TypeMismatch));
}

#[test]
fn equality_across_kinds_is_false() {
    let (interpreter, _, _) = run("a = 1 == \"1\"\nb = 1 != true\nc = \"x\" == \"x\"");
    assert_eq!(interpreter.variable("a"), Some(RuntimeValue::Boolean(false)));
    assert_eq!(interpreter.variable("b"), Some(RuntimeValue::Boolean(true)));
    assert_eq!(interpreter.variable("c"), Some(RuntimeValue::Boolean(true)));
}

#[test]
fn conditional_takes_one_branch() {
    let (_, effects, _) = run("if true { ~Revelio 1 } else { ~Revelio 2 }");
    assert_eq!(effects, vec![text("1")]);
    let (_, effects, _) = run("if false { ~Revelio 1 } else { ~Revelio 2 }");
    assert_eq!(effects, vec![text("2")]);
    let (_, effects, _) = run("if 5 { ~Revelio 1 } else { ~Revelio 2 }");
    assert_eq!(effects, vec![text("2")]);
    let (_, effects, action) = run("if 5 { ~Revelio 1 }");
    assert!(effects.is_empty());
    assert_eq!(action, Action::Finished);
}

#[test]
fn exit_marker_finishes_the_pass() {
    let (interpreter, _, action) = run("i = 0\nquidditch {\n ~Engorgio i\n snitch\n ~Engorgio i\n}");
    assert_eq!(action, Action::Finished);
    assert_eq!(interpreter.variable("i"), Some(RuntimeValue::Integer(2)));
}

#[test]
fn frozen_name_rejects_assignment() {
    let (interpreter, _, action) = run("x = 1\n~PetrificusTotalus x\nx = 2");
    assert_eq!(action, Action::Fail(EvalError::ConstantReassignment("x".to_string())));
    assert_eq!(interpreter.constant("x"), Some(RuntimeValue::Integer(1)));
    assert_eq!(interpreter.variable("x"), None);
}

#[test]
fn unknown_variable_is_fatal() {
    let (_, _, action) = run("~Revelio nothing");
    assert_eq!(action, Action::Fail(EvalError::UnknownVariable("nothing".to_string())));
}

#[test]
fn empty_result_cannot_be_assigned() {
    let (_, _, action) = run("x = ~Lumos");
    assert_eq!(action, Action::Fail(EvalError::EmptyAssignment("x".to_string())));
}

#[test]
fn forgetting_unbinds() {
    let (interpreter, _, action) = run("x = 1\n~Obliviate x\n~Obliviate y");
    assert_eq!(action, Action::Finished);
    assert_eq!(interpreter.variable("x"), None);
}

#[test]
fn step_commands_change_case_and_count() {
    let (interpreter, _, _) = run("s = \"abC\"\n~Engorgio s\nt = \"AbC\"\n~Reducio t\nn = 5\n~Reducio n");
    assert_eq!(interpreter.variable("s"), Some(RuntimeValue::String("ABC".to_string())));
    assert_eq!(interpreter.variable("t"), Some(RuntimeValue::String("abc".to_string())));
    assert_eq!(interpreter.variable("n"), Some(RuntimeValue::Integer(4)));
}

#[test]
fn step_command_on_boolean_is_a_type_error() {
    let (_, _, action) = run("b = true\n~Engorgio b");
    assert_eq!(action, Action::Fail(EvalError::TypeMismatch));
}

#[test]
fn suffix_commands() {
    let (interpreter, _, _) = run("s = \"a\"\n~Incendio s\nt = \"b\"\n~WingardiumLeviosa t\nu = ~Incendio \"c\"");
    assert_eq!(interpreter.variable("s"), Some(RuntimeValue::String("a\u{1F525}".to_string())));
    assert_eq!(interpreter.variable("t"), Some(RuntimeValue::String("b\n".to_string())));
    assert_eq!(interpreter.variable("u"), Some(RuntimeValue::String("c\u{1F525}".to_string())));
}

#[test]
fn fixed_values_and_fire() {
    let (interpreter, effects, _) = run("a = ~Aguamenti\nb = ~OculusReparo\n~Periculum");
    assert_eq!(interpreter.variable("a"), Some(RuntimeValue::String("\u{1F4A6}".to_string())));
    assert_eq!(interpreter.variable("b"), Some(RuntimeValue::String("\u{1F453}".to_string())));
    assert_eq!(effects, vec![text(&"\u{1F525}".repeat(9))]);
}

#[test]
fn spotlight_marks_output() {
    let (_, effects, _) = run("~Lumos\n~Revelio \"a\"\n~Nox\n~Revelio \"b\"");
    assert_eq!(
        effects,
        vec![Effect::Write(Output::Text("a".to_string()), true), text("b")]
    );
}

#[test]
fn output_without_value_is_empty() {
    let (_, effects, _) = run("~Revelio ~Lumos");
    assert_eq!(effects, vec![Effect::Write(Output::Text(String::new()), true)]);
}

#[test]
fn random_choice_uses_the_draw() {
    let (interpreter, effects, _) = run_with("h = SortingHat\n~Revelio h", 2);
    assert_eq!(interpreter.variable("h"), Some(RuntimeValue::HogwartsHouse(HogwartsHouse::Ravenclaw)));
    assert_eq!(effects, vec![text("Ravenclaw")]);
    let (interpreter, _, _) = run_with("h = SortingHat", 7);
    assert_eq!(interpreter.variable("h"), Some(RuntimeValue::HogwartsHouse(HogwartsHouse::Slytherin)));
}

#[test]
fn pause_is_handed_to_the_host() {
    let (_, effects, _) = run("~Inmobolus 250");
    assert_eq!(effects, vec![Effect::Sleep(250)]);
}

#[test]
fn doubles_go_through_the_host() {
    let (interpreter, effects, _) = run("x = 1.5 + 2.25\n~Engorgio x\n~Revelio x");
    assert_eq!(interpreter.variable("x"), Some(RuntimeValue::Double(4.75f64.to_bits())));
    assert_eq!(effects, vec![Effect::Write(Output::Double(4.75f64.to_bits()), false)]);
}

#[test]
fn double_request_leaves_the_statement_pending() {
    let (_, program) = parse_program("x = 1.5 * 2.0").unwrap();
    let mut interpreter = Interpreter::new();
    interpreter.eval(program);
    let step = interpreter.step(0, None);
    assert_eq!(
        step.action,
        Action::Compute(FloatRequest {
            op: BinaryOperation::Times,
            left: 1.5f64.to_bits(),
            right: 2.0f64.to_bits(),
        })
    );
    assert_eq!(interpreter.variable("x"), None);
    let step = interpreter.step(0, Some(RuntimeValue::Double(3.0f64.to_bits())));
    assert_eq!(step.action, Action::Continue);
    assert_eq!(interpreter.variable("x"), Some(RuntimeValue::Double(3.0f64.to_bits())));
}

#[test]
fn unknown_command_is_a_fatal_parse_error() {
    assert_eq!(parse_program("~Accio x").unwrap_err(), ParseError::Fatal);
    assert_eq!(parse_program("~").unwrap_err(), ParseError::Fatal);
}

#[test]
fn nothing_to_parse_is_an_error() {
    assert_eq!(parse_program("").unwrap_err(), ParseError::Backtrack);
    assert_eq!(parse_program("   ").unwrap_err(), ParseError::Backtrack);
}

#[test]
fn rendering_values() {
    assert_eq!(render_value(&RuntimeValue::Integer(-12)), Output::Text("-12".to_string()));
    assert_eq!(render_value(&RuntimeValue::Boolean(true)), Output::Text("true".to_string()));
    assert_eq!(
        render_value(&RuntimeValue::HogwartsHouse(HogwartsHouse::Hufflepuff)),
        Output::Text("Hufflepuff".to_string())
    );
}

#[test]
fn finished_interpreter_stays_idle() {
    let mut interpreter = Interpreter::new();
    assert!(interpreter.is_idle());
    let step = interpreter.step(0, None);
    assert_eq!(step.action, Action::Finished);
}

#[test]
fn negation_of_values() {
    assert_eq!(RuntimeValue::Boolean(true).negate(), Ok(RuntimeValue::Boolean(false)));
    assert_eq!(RuntimeValue::Integer(1).negate(), Err(EvalError::TypeMismatch));
}

#[test]
fn atom_text() {
    assert_eq!(Atom::Integer(-5).to_string(), Some("-5".to_string()));
    assert_eq!(Atom::Variable("foo".to_string()).to_string(), Some("foo".to_string()));
    assert_eq!(Atom::HogwartsHouse(HogwartsHouse::Gryffindor).to_string(), Some("Gryffindor".to_string()));
    assert_eq!(Atom::Double(1.5f64.to_bits()).to_string(), None);
}

#[test]
fn statements_after_exit_marker_run_in_the_same_pass() {
    let (interpreter, effects, action) = run("x = 0\nquidditch {\n ~Engorgio x\n snitch\n ~Revelio x\n}");
    assert_eq!(action, Action::Finished);
    assert_eq!(effects, vec![text("1")]);
    assert_eq!(interpreter.variable("x"), Some(RuntimeValue::Integer(1)));
}

#[test]
fn exit_marker_inside_conditional_ends_the_loop_after_its_pass() {
    let source = "n = 0\nquidditch {\n ~Engorgio n\n if n == 3 { snitch }\n ~Revelio n\n}";
    let (_, effects, action) = run(source);
    assert_eq!(action, Action::Finished);
    assert_eq!(effects, vec![text("1"), text("2"), text("3")]);
}
