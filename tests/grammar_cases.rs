use potterscript::{
    parse_boolean, parse_comment, parse_double, parse_expression_statement, parse_hogwarts_house,
    parse_if_statement, parse_integer, parse_program, parse_quidditch_statement, parse_sorting_hat,
    parse_spell_cast, parse_statement, parse_string, parse_variable, parse_variable_assignment,
    parse_binary_operation, Atom, BinaryOperation, Expression, HogwartsHouse, Program, Spell, Statement,
};

#[test]
fn lib_test_parse_string() {
    let input = "\"Hello, world!\"";
    let expected = Atom::String("Hello, world!".to_string());
    let (_, actual) = parse_string(input).unwrap();
    assert_eq!(expected, actual);
}

#[test]
fn lib_test_parse_variable() {
    let input = "foo";
    let expected = Atom::Variable("foo".to_string());
    let (_, actual) = parse_variable(input).unwrap();
    assert_eq!(expected, actual);
}

#[test]
fn lib_test_parse_boolean_true() {
    let input = "true";
    let expected = Atom::Boolean(true);
    let (_, actual) = parse_boolean(input).unwrap();
    assert_eq!(expected, actual);
}

#[test]
fn lib_test_parse_boolean_false() {
    let input = "false";
    let expected = Atom::Boolean(false);
    let (_, actual) = parse_boolean(input).unwrap();
    assert_eq!(expected, actual);
}

#[test]
fn lib_test_parse_double() {
    let input = "123.456";
    let expected = Atom::Double(123.456f64.to_bits());
    let (_, actual) = parse_double(input).unwrap();
    assert_eq!(expected, actual);
}

#[test]
fn lib_test_parse_integer() {
    let input = "123";
    let expected = Atom::Integer(123);
    let (_, actual) = parse_integer(input).unwrap();
    assert_eq!(expected, actual);
}

#[test]
fn test_parse_hogwarts_house() {
    let input = "Gryffindor";
    let expected = Atom::HogwartsHouse(HogwartsHouse::Gryffindor);
    let (_, actual) = parse_hogwarts_house(input).unwrap();
    assert_eq!(expected, actual);
}

#[test]
fn lib_test_parse_statement_with_whitespaces() {
    let input = " ~AvadaKedabra ";
    let expected = Statement::ExpressionStatement(Expression::SpellCast(
        Spell::AvadaKedabra,
        Box::new(None),
    ));
    let (_, actual) = parse_statement(input).unwrap();
    assert_eq!(expected, actual);
}

#[test]
fn lib_test_parse_spell_cast() {
    let input = "~AvadaKedabra";
    let expected = Expression::SpellCast(Spell::AvadaKedabra, Box::new(None));
    let (_, actual) = parse_spell_cast(input).unwrap();
    assert_eq!(expected, actual);
}

#[test]
fn lib_test_parse_spell_cast_with_string() {
    let input = "~Revelio \"Hello, world!\"";
    let expected = Expression::SpellCast(
        Spell::Revelio,
        Box::new(Some(Atom::String("Hello, world!".to_string()).into())),
    );
    let (_, actual) = parse_spell_cast(input).unwrap();
    assert_eq!(expected, actual);
}

#[test]
fn lib_test_parse_spell_cast_with_string_and_space() {
    let input = "~Revelio \"Hello, world!\" ";
    let expected = Expression::SpellCast(
        Spell::Revelio,
        Box::new(Some(Atom::String("Hello, world!".to_string()).into())),
    );
    let (_, actual) = parse_spell_cast(input).unwrap();
    assert_eq!(expected, actual);
}

#[test]
fn lib_test_parse_binary_operation() {
    let input = "\"Hello, \" + \"world!\"";
    let expected = Expression::BinaryOperation(
        BinaryOperation::Plus,
        Box::new(Atom::String("Hello, ".to_string()).into()),
        Box::new(Atom::String("world!".to_string()).into()),
    );
    let (_, actual) = parse_binary_operation(input).unwrap();
    assert_eq!(expected, actual);
}

#[test]
fn lib_test_parse_binary_operation_with_variable() {
    let input = "foo + \"bar\"";
    let expected = Expression::BinaryOperation(
        BinaryOperation::Plus,
        Box::new(Atom::Variable("foo".to_string()).into()),
        Box::new(Atom::String("bar".to_string()).into()),
    );
    let (_, actual) = parse_binary_operation(input).unwrap();
    assert_eq!(expected, actual);
}

#[test]
fn lib_test_parse_binary_operation_with_integer() {
    let input = "123 + 456";
    let expected = Expression::BinaryOperation(
        BinaryOperation::Plus,
        Box::new(Atom::Integer(123).into()),
        Box::new(Atom::Integer(456).into()),
    );
    let (_, actual) = parse_binary_operation(input).unwrap();
    assert_eq!(expected, actual);
}

#[test]
fn lib_test_parse_binary_operation_with_double() {
    let input = "123.456 + 456.789";
    let expected = Expression::BinaryOperation(
        BinaryOperation::Plus,
        Box::new(Atom::Double(123.456f64.to_bits()).into()),
        Box::new(Atom::Double(456.789f64.to_bits()).into()),
    );
    let (_, actual) = parse_binary_operation(input).unwrap();
    assert_eq!(expected, actual);
}

#[test]
fn lib_test_parse_binary_operation_with_boolean() {
    let input = "true == false";
    let expected = Expression::BinaryOperation(
        BinaryOperation::Equal,
        Box::new(Atom::Boolean(true).into()),
        Box::new(Atom::Boolean(false).into()),
    );
    let (_, actual) = parse_binary_operation(input).unwrap();
    assert_eq!(expected, actual);
}

#[test]
fn lib_test_parse_binary_operation_with_variable_and_integer() {
    let input = "foo + 4";
    let expected = Expression::BinaryOperation(
        BinaryOperation::Plus,
        Box::new(Atom::Variable("foo".to_string()).into()),
        Box::new(Atom::Integer(4).into()),
    );
    let (_, actual) = parse_binary_operation(input).unwrap();
    assert_eq!(expected, actual);
}

#[test]
fn test_parse_comment() {
    let input = "# Hello, world!";
    let expected = Expression::Comment(" Hello, world!".to_string());
    let (_, actual) = parse_comment(input).unwrap();
    assert_eq!(expected, actual);
}

#[test]
fn test_sorting_hat() {
    let input = "🎩✨";
    let expected = Expression::SortingHat;
    let (_, actual) = parse_sorting_hat(input).unwrap();
    assert_eq!(expected, actual);
}

#[test]
fn lib_test_parse_variable_assignment() {
    let input = "foo = \"Hello, world!\"";
    let expected = Statement::VariableAssignment(
        "foo".to_string(),
        Atom::String("Hello, world!".to_string()).into(),
    );
    let (_, actual) = parse_variable_assignment(input).unwrap();
    assert_eq!(expected, actual);
}

#[test]
fn lib_test_parse_expression_statement() {
    let input = "~AvadaKedabra";
    let expected = Statement::ExpressionStatement(Expression::SpellCast(
        Spell::AvadaKedabra,
        Box::new(None),
    ));
    let (_, actual) = parse_expression_statement(input).unwrap();
    assert_eq!(expected, actual);
}

#[test]
fn lib_test_parse_expression_statement_with_string() {
    let input = "~Revelio \"Hello, world!\"";
    let expected = Statement::ExpressionStatement(Expression::SpellCast(
        Spell::Revelio,
        Box::new(Some(Atom::String("Hello, world!".to_string()).into())),
    ));
    let (_, actual) = parse_expression_statement(input).unwrap();
    assert_eq!(expected, actual);
}

#[test]
fn lib_test_parse_if() {
    let input = "if true { ~Revelio 4 }";
    let expected = Statement::If(
        Atom::Boolean(true).into(),
        vec![Statement::ExpressionStatement(Expression::SpellCast(
            Spell::Revelio,
            Box::new(Some(Atom::Integer(4).into())),
        ))],
        vec![],
    );
    let (_, actual) = parse_if_statement(input).unwrap();
    assert_eq!(expected, actual);
}

#[test]
fn lib_test_parse_if_multiple_statements() {
    let input = "if 4 == 4 {
      ~Revelio 4 
      ~AvadaKedabra
    }";
    let expected = Statement::If(
        Expression::BinaryOperation(
            BinaryOperation::Equal,
            Box::new(Atom::Integer(4).into()),
            Box::new(Atom::Integer(4).into()),
        ),
        vec![
            Statement::ExpressionStatement(Expression::SpellCast(
                Spell::Revelio,
                Box::new(Some(Atom::Integer(4).into())),
            )),
            Statement::ExpressionStatement(Expression::SpellCast(
                Spell::AvadaKedabra,
                Box::new(None),
            )),
        ],
        vec![],
    );
    let (_, actual) = parse_if_statement(input).unwrap();
    assert_eq!(expected, actual);
}

#[test]
fn test_parse_if_with_else() {
    let input = "if y != 11 {
  ~Revelio \"y is not 11\" 
} else {
  ~Lumos
  ~Revelio \"y is 11\" 
}";
    let expected = Statement::If(
        Expression::BinaryOperation(
            BinaryOperation::NotEqual,
            Box::new(Atom::Variable("y".to_string()).into()),
            Box::new(Atom::Integer(11).into()),
        ),
        vec![Statement::ExpressionStatement(Expression::SpellCast(
            Spell::Revelio,
            Box::new(Some(Atom::String("y is not 11".to_string()).into())),
        ))],
        vec![
            Statement::ExpressionStatement(Expression::SpellCast(Spell::Lumos, Box::new(None))),
            Statement::ExpressionStatement(Expression::SpellCast(
                Spell::Revelio,
                Box::new(Some(Atom::String("y is 11".to_string()).into())),
            )),
        ],
    );
    let (_, actual) = parse_if_statement(input).unwrap();
    assert_eq!(expected, actual);
}

#[test]
fn test_parse_quidditch() {
    let input = "quidditch {
  ~Engorgio x
  snitch
  ~Revelio x
}";
    let expected = Statement::Quidditch(vec![
        Statement::ExpressionStatement(Expression::SpellCast(
            Spell::Engorgio,
            Box::new(Some(Atom::Variable("x".to_string()).into())),
        )),
        Statement::Snitch,
        Statement::ExpressionStatement(Expression::SpellCast(
            Spell::Revelio,
            Box::new(Some(Atom::Variable("x".to_string()).into())),
        )),
    ]);
    let (_, actual) = parse_quidditch_statement(input).unwrap();
    assert_eq!(expected, actual);
}

#[test]
fn lib_test_parse_program() {
    let input = "~AvadaKedabra\n~Revelio \"Hello, world!\"";
    let expected = Program(vec![
        Statement::ExpressionStatement(Expression::SpellCast(
            Spell::AvadaKedabra,
            Box::new(None),
        )),
        Statement::ExpressionStatement(Expression::SpellCast(
            Spell::Revelio,
            Box::new(Some(Atom::String("Hello, world!".to_string()).into())),
        )),
    ]);
    let (_, actual) = parse_program(input).unwrap();
    assert_eq!(expected, actual);
}
