use based_python::ast::{Block, Expression, Operator, Program, Statement};
use based_python::codegen::generate_python_code;

fn ident(name: &str) -> Expression {
    Expression::Identifier(name.to_string())
}

fn binop(op: Operator, left: Expression, right: Expression) -> Expression {
    Expression::BinaryOp { left: Box::new(left), operator: op, right: Box::new(right) }
}

#[test]
fn generation_is_deterministic() {
    let program = Program {
        statements: vec![
            Statement::Assignment {
                name: "x".to_string(),
                value: binop(Operator::Add, ident("a"), ident("b")),
            },
            Statement::Print { content: ident("x") },
        ],
    };
    let first = generate_python_code(&program);
    let second = generate_python_code(&program);
    assert_eq!(first, second);
}

#[test]
fn right_nested_operand_is_parenthesized() {
    let program = Program {
        statements: vec![Statement::Assignment {
            name: "x".to_string(),
            value: binop(
                Operator::Sub,
                ident("a"),
                binop(Operator::Sub, ident("b"), ident("c")),
            ),
        }],
    };
    assert_eq!(generate_python_code(&program), "x = a - (b - c)\n");
}

#[test]
fn left_nested_operand_is_parenthesized() {
    let program = Program {
        statements: vec![Statement::Assignment {
            name: "x".to_string(),
            value: binop(
                Operator::Mul,
                binop(Operator::Add, ident("a"), ident("b")),
                ident("c"),
            ),
        }],
    };
    assert_eq!(generate_python_code(&program), "x = (a + b) * c\n");
}

#[test]
fn class_instantiation_renders_like_a_call() {
    let program = Program {
        statements: vec![Statement::Assignment {
            name: "x".to_string(),
            value: Expression::ClassInstantiation {
                class_name: "Foo".to_string(),
                arguments: vec![Expression::Number("1".to_string()), ident("y")],
            },
        }],
    };
    assert_eq!(generate_python_code(&program), "x = Foo(1, y)\n");
}

#[test]
fn string_is_rewrapped_in_quotes() {
    let program = Program {
        statements: vec![Statement::Print {
            content: Expression::String("hello".to_string()),
        }],
    };
    assert_eq!(generate_python_code(&program), "print(\"hello\")\n");
}

#[test]
fn word_operators_render_as_words() {
    let program = Program {
        statements: vec![Statement::Assignment {
            name: "x".to_string(),
            value: binop(Operator::And, ident("a"), binop(Operator::Or, ident("b"), ident("c"))),
        }],
    };
    assert_eq!(generate_python_code(&program), "x = a and (b or c)\n");
}

#[test]
fn empty_block_emits_pass_line() {
    let program = Program {
        statements: vec![Statement::While {
            condition: ident("x"),
            body: Block { statements: vec![] },
        }],
    };
    assert_eq!(generate_python_code(&program), "while x:\n    pass\n");
}

#[test]
fn indentation_grows_four_spaces_per_level() {
    let inner = Statement::If {
        condition: ident("b"),
        consequence: Block { statements: vec![Statement::Return { value: ident("c") }] },
        alternative: None,
    };
    let program = Program {
        statements: vec![Statement::FunctionDef {
            name: "f".to_string(),
            args: vec!["a".to_string(), "b".to_string()],
            body: Block { statements: vec![inner] },
        }],
    };
    assert_eq!(
        generate_python_code(&program),
        "def f(a, b):\n    if b:\n        return c\n"
    );
}

#[test]
fn empty_program_generates_empty_text() {
    let program = Program { statements: vec![] };
    assert_eq!(generate_python_code(&program), "");
}

#[test]
fn member_access_renders_dotted() {
    let program = Program {
        statements: vec![Statement::Print {
            content: Expression::MemberAccess {
                object: Box::new(Expression::MemberAccess {
                    object: Box::new(ident("a")),
                    member: "b".to_string(),
                }),
                member: "c".to_string(),
            },
        }],
    };
    assert_eq!(generate_python_code(&program), "print(a.b.c)\n");
}
