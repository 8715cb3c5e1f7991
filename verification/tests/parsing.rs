use based_python::ast::{Expression, Operator, Statement};
use based_python::parser::{parse_bython_code, ParseErrorKind};

fn ident(name: &str) -> Expression {
    Expression::Identifier(name.to_string())
}

fn num(text: &str) -> Expression {
    Expression::Number(text.to_string())
}

fn binop(op: Operator, left: Expression, right: Expression) -> Expression {
    Expression::BinaryOp { left: Box::new(left), operator: op, right: Box::new(right) }
}

fn single_assignment(source: &str) -> (String, Expression) {
    let program = parse_bython_code(source).expect("source should parse");
    assert_eq!(program.statements.len(), 1);
    match program.statements.into_iter().next().unwrap() {
        Statement::Assignment { name, value } => (name, value),
        other => panic!("expected an assignment, got {:?}", other),
    }
}

#[test]
fn precedence_mul_over_add() {
    let (_, value) = single_assignment("x = 1 + 2 * 3");
    assert_eq!(value, binop(Operator::Add, num("1"), binop(Operator::Mul, num("2"), num("3"))));
}

#[test]
fn left_associativity_subtraction() {
    let (_, value) = single_assignment("x = a - b - c");
    assert_eq!(
        value,
        binop(Operator::Sub, binop(Operator::Sub, ident("a"), ident("b")), ident("c"))
    );
}

#[test]
fn relational_operators_parse() {
    let (_, value) = single_assignment("x = a <= b");
    assert_eq!(value, binop(Operator::LtEq, ident("a"), ident("b")));
    let (_, value) = single_assignment("x = a != b");
    assert_eq!(value, binop(Operator::NotEq, ident("a"), ident("b")));
}

#[test]
fn member_qualified_call_parses() {
    let program = parse_bython_code("obj.method(1, 2)").expect("call statement should parse");
    assert_eq!(
        program.statements,
        vec![Statement::FunctionCall {
            name: "obj.method".to_string(),
            arguments: vec![num("1"), num("2")],
        }]
    );
}

#[test]
fn nested_member_access_parses() {
    let (_, value) = single_assignment("x = a.b.c");
    assert_eq!(
        value,
        Expression::MemberAccess {
            object: Box::new(Expression::MemberAccess {
                object: Box::new(ident("a")),
                member: "b".to_string(),
            }),
            member: "c".to_string(),
        }
    );
}

#[test]
fn assignment_to_member_target() {
    let (name, value) = single_assignment("obj.field = 5");
    assert_eq!(name, "obj.field");
    assert_eq!(value, num("5"));
}

#[test]
fn keyword_prefix_is_an_identifier() {
    let (name, value) = single_assignment("printer = 1");
    assert_eq!(name, "printer");
    assert_eq!(value, num("1"));
}

#[test]
fn keyword_is_not_an_identifier() {
    assert!(parse_bython_code("if = 1").is_err());
    assert!(parse_bython_code("x = new").is_err());
}

#[test]
fn new_expression_parses_to_instantiation() {
    let (_, value) = single_assignment("x = new Foo(1, 2)");
    assert_eq!(
        value,
        Expression::ClassInstantiation {
            class_name: "Foo".to_string(),
            arguments: vec![num("1"), num("2")],
        }
    );
}

#[test]
fn new_statement_becomes_call_statement() {
    let program = parse_bython_code("new Foo(1)").expect("instantiation statement should parse");
    assert_eq!(
        program.statements,
        vec![Statement::FunctionCall { name: "Foo".to_string(), arguments: vec![num("1")] }]
    );
}

#[test]
fn string_literal_keeps_raw_contents() {
    let (_, value) = single_assignment("x = \"hi there\"");
    assert_eq!(value, Expression::String("hi there".to_string()));
}

#[test]
fn empty_argument_list_is_valid() {
    let program = parse_bython_code("f()").expect("empty call should parse");
    assert_eq!(
        program.statements,
        vec![Statement::FunctionCall { name: "f".to_string(), arguments: vec![] }]
    );
}

#[test]
fn empty_input_parses_to_empty_program() {
    let program = parse_bython_code("").expect("empty input should parse");
    assert!(program.statements.is_empty());
    let program = parse_bython_code("\n  \n").expect("blank input should parse");
    assert!(program.statements.is_empty());
}

#[test]
fn unmatched_brace_is_syntax_error() {
    let err = parse_bython_code("if x > 0 {").unwrap_err();
    assert_eq!(err.kind, ParseErrorKind::SyntaxError);
}

#[test]
fn unterminated_string_is_syntax_error() {
    let err = parse_bython_code("x = \"abc").unwrap_err();
    assert_eq!(err.kind, ParseErrorKind::SyntaxError);
}

#[test]
fn stray_closing_brace_is_syntax_error() {
    assert!(parse_bython_code("}").is_err());
    assert!(parse_bython_code("x = 1\n}").is_err());
}

#[test]
fn syntax_error_message_text() {
    let err = parse_bython_code("x = )").unwrap_err();
    assert_eq!(err.message(), "input does not match the grammar");
}

#[test]
fn parser_type_entry_point_matches_free_function() {
    let via_type = based_python::parser::BythonParser::parse("x = 1");
    let via_free = parse_bython_code("x = 1");
    assert_eq!(via_type.unwrap().statements, via_free.unwrap().statements);
}
