use based_python::codegen::generate_python_code;
use based_python::parser::parse_bython_code;

fn transpile(source: &str) -> String {
    let program = parse_bython_code(source).expect("source should parse");
    generate_python_code(&program)
}

#[test]
fn assignment_generates_one_unindented_line() {
    assert_eq!(transpile("x = 1 + 2"), "x = 1 + 2\n");
    assert_eq!(transpile("x = y"), "x = y\n");
    assert_eq!(transpile("x = \"hi\""), "x = \"hi\"\n");
}

#[test]
fn empty_block_generates_pass() {
    assert_eq!(transpile("if x > 0 { }"), "if x > 0:\n    pass\n");
}

#[test]
fn if_else_generates_both_branches() {
    assert_eq!(
        transpile("if x > 0 { print(\"pos\") } else { print(\"neg\") }"),
        "if x > 0:\n    print(\"pos\")\nelse:\n    print(\"neg\")\n"
    );
}

#[test]
fn function_definition_with_nested_body() {
    assert_eq!(
        transpile("def add(a, b) { return a + b }"),
        "def add(a, b):\n    return a + b\n"
    );
}

#[test]
fn class_definition_with_empty_body() {
    assert_eq!(transpile("class Foo { }"), "class Foo:\n    pass\n");
}

#[test]
fn member_qualified_call_round_trips() {
    assert_eq!(transpile("obj.method(1, 2)"), "obj.method(1, 2)\n");
}

#[test]
fn numbers_emit_canonical_decimal_text() {
    assert_eq!(transpile("x = 007.500"), "x = 7.5\n");
    assert_eq!(transpile("x = 0.50"), "x = 0.5\n");
    assert_eq!(transpile("x = 10"), "x = 10\n");
    assert_eq!(transpile("x = 000"), "x = 0\n");
    assert_eq!(transpile("x = 1.000"), "x = 1\n");
}

#[test]
fn nested_precedence_is_made_explicit() {
    assert_eq!(transpile("x = 1 + 2 * 3"), "x = 1 + (2 * 3)\n");
    assert_eq!(transpile("x = (1 + 2) * 3"), "x = (1 + 2) * 3\n");
}

#[test]
fn while_loop_generates_indented_body() {
    assert_eq!(
        transpile("while x < 10 { x = x + 1 }"),
        "while x < 10:\n    x = x + 1\n"
    );
}

#[test]
fn for_loop_generates_indented_body() {
    assert_eq!(transpile("for i { print(i) }"), "for i:\n    print(i)\n");
}

#[test]
fn instantiation_statement_renders_as_call() {
    assert_eq!(transpile("new Foo(1)"), "Foo(1)\n");
    assert_eq!(transpile("x = new Foo(1)"), "x = Foo(1)\n");
}

#[test]
fn multiline_program_keeps_statement_order() {
    let source = "x = 1\n\n  \ny = 2\nprint(x + y)";
    assert_eq!(transpile(source), "x = 1\ny = 2\nprint(x + y)\n");
}

#[test]
fn nested_blocks_indent_each_level() {
    let source = "def f(a) {\n    if a > 0 {\n        return a\n    }\n    return 0\n}";
    assert_eq!(
        transpile(source),
        "def f(a):\n    if a > 0:\n        return a\n    return 0\n"
    );
}

#[test]
fn malformed_input_yields_no_text() {
    assert!(parse_bython_code("if x > 0 {").is_err());
    assert!(parse_bython_code("x = ").is_err());
    assert!(parse_bython_code("def f( {}").is_err());
    assert!(parse_bython_code("x = 1 +").is_err());
    assert!(parse_bython_code("print(1").is_err());
}

#[test]
fn two_statements_on_one_line_are_rejected() {
    assert!(parse_bython_code("x = 1 y = 2").is_err());
}

#[test]
fn carriage_return_line_endings_are_accepted() {
    assert_eq!(transpile("x = 1\r\ny = 2"), "x = 1\ny = 2\n");
}

#[test]
fn def_with_no_params_and_empty_body() {
    assert_eq!(transpile("def f() { }"), "def f():\n    pass\n");
}

#[test]
fn deep_member_call_keeps_full_dotted_name() {
    assert_eq!(transpile("a.b.c(1)"), "a.b.c(1)\n");
}

#[test]
fn keyword_prefixed_name_is_not_an_instantiation() {
    assert_eq!(transpile("new1 = 2"), "new1 = 2\n");
    assert_eq!(transpile("newest = new Foo()"), "newest = Foo()\n");
}

#[test]
fn nested_call_arguments_round_trip() {
    assert_eq!(transpile("x = f(g(1), 2 + 3)"), "x = f(g(1), 2 + 3)\n");
}
