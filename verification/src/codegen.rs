//! The code generator: deterministic, indentation-based target text from an
//! AST.
//!
//! The spec functions `gen_program`, `gen_statement`, `gen_expression` define
//! the emitted text exactly, and `generate_python_code` is proved to return
//! it. Generation is total over the tree: every statement and expression
//! variant has a rule (class instantiation renders like a call), so no input
//! tree can fail. Indentation is four spaces per nesting level; an empty
//! block emits a single `pass` line at the child level, never zero lines.
//! A binary operand that is itself a binary operation is always wrapped in
//! parentheses, so the printed expression regroups exactly as the tree does.

use vstd::prelude::*;
use vstd::string::StringExecFns;
use crate::ast::Expression;
use crate::ast::Statement;
use crate::ast::Block;
use crate::ast::Program;
use crate::ast::Operator;
use crate::ast::SpecExpression;
use crate::ast::SpecStatement;
use crate::ast::view_expression;
use crate::ast::view_statement;
use crate::ast::view_expression_seq;
use crate::ast::view_statement_seq;
use crate::ast::lemma_view_expression_seq_len;
use crate::ast::lemma_view_statement_seq_len;

verus! {

/// The indentation prefix of a line at the given nesting level: four spaces
/// per level.
pub open spec fn indent_str(level: nat) -> Seq<char>
    decreases level,
{
    if level == 0 {
        Seq::empty()
    } else {
        indent_str((level - 1) as nat) + "    "@
    }
}

/// The target-language text of an operator.
pub open spec fn op_text(op: Operator) -> Seq<char> {
    match op {
        Operator::Add => "+"@,
        Operator::Sub => "-"@,
        Operator::Mul => "*"@,
        Operator::Div => "/"@,
        Operator::Eq => "=="@,
        Operator::NotEq => "!="@,
        Operator::Lt => "<"@,
        Operator::Gt => ">"@,
        Operator::LtEq => "<="@,
        Operator::GtEq => ">="@,
        Operator::And => "and"@,
        Operator::Or => "or"@,
        Operator::Not => "not"@,
    }
}

/// The rendered text of an expression.
pub open spec fn gen_expression(e: SpecExpression) -> Seq<char>
    decreases e, 0int,
{
    match e {
        SpecExpression::Identifier(name) => name,
        SpecExpression::Number(text) => text,
        SpecExpression::String(contents) => "\""@ + contents + "\""@,
        SpecExpression::BinaryOp { left, operator, right } => gen_operand(*left) + " "@
            + op_text(operator) + " "@ + gen_operand(*right),
        SpecExpression::MemberAccess { object, member } => gen_expression(*object) + "."@ + member,
        SpecExpression::FunctionCall { name, args } => name + "("@ + gen_args(args) + ")"@,
        SpecExpression::ClassInstantiation { class_name, arguments } => class_name + "("@
            + gen_args(arguments) + ")"@,
    }
}

/// The rendered text of a binary operand: a nested binary operation is
/// parenthesized, every other expression form renders as itself.
pub open spec fn gen_operand(e: SpecExpression) -> Seq<char>
    decreases e, 1int,
{
    if e is BinaryOp {
        "("@ + gen_expression(e) + ")"@
    } else {
        gen_expression(e)
    }
}

/// A comma-joined argument list.
pub open spec fn gen_args(es: Seq<SpecExpression>) -> Seq<char>
    decreases es, 0int,
{
    if es.len() == 0 {
        Seq::empty()
    } else if es.len() == 1 {
        gen_expression(es[0])
    } else {
        gen_args(es.subrange(0, es.len() - 1)) + ", "@ + gen_expression(es[es.len() - 1])
    }
}

/// A comma-joined parameter-name list.
pub open spec fn join_params(ps: Seq<Seq<char>>) -> Seq<char>
    decreases ps.len(),
{
    if ps.len() == 0 {
        Seq::empty()
    } else if ps.len() == 1 {
        ps[0]
    } else {
        join_params(ps.subrange(0, ps.len() - 1)) + ", "@ + ps[ps.len() - 1]
    }
}

/// The emitted lines of one statement at the given nesting level.
pub open spec fn gen_statement(st: SpecStatement, level: nat) -> Seq<char>
    decreases st, 0int,
{
    match st {
        SpecStatement::Assignment { name, value } => indent_str(level) + name + " = "@
            + gen_expression(value) + "\n"@,
        SpecStatement::Print { content } => indent_str(level) + "print("@ + gen_expression(content)
            + ")\n"@,
        SpecStatement::Return { value } => indent_str(level) + "return "@ + gen_expression(value)
            + "\n"@,
        SpecStatement::If { condition, consequence, alternative } => indent_str(level) + "if "@
            + gen_expression(condition) + ":\n"@ + gen_block(consequence, level + 1) + (
        match alternative {
            Option::Some(alt) => indent_str(level) + "else:\n"@ + gen_block(alt, level + 1),
            Option::None => Seq::empty(),
        }),
        SpecStatement::For { iterator, body } => indent_str(level) + "for "@ + gen_expression(
            iterator,
        ) + ":\n"@ + gen_block(body, level + 1),
        SpecStatement::While { condition, body } => indent_str(level) + "while "@ + gen_expression(
            condition,
        ) + ":\n"@ + gen_block(body, level + 1),
        SpecStatement::FunctionDef { name, params, body } => indent_str(level) + "def "@ + name
            + "("@ + join_params(params) + "):\n"@ + gen_block(body, level + 1),
        SpecStatement::FunctionCall { name, arguments } => indent_str(level) + name + "("@
            + gen_args(arguments) + ")\n"@,
        SpecStatement::ClassDef { name, body } => indent_str(level) + "class "@ + name + ":\n"@
            + gen_block(body, level + 1),
    }
}

/// The emitted lines of a block body: its statements in order, or a single
/// `pass` line at the block's own level when it is empty.
pub open spec fn gen_block(ss: Seq<SpecStatement>, level: nat) -> Seq<char>
    decreases ss, 1int,
{
    if ss.len() == 0 {
        indent_str(level) + "pass\n"@
    } else {
        gen_stmts(ss, level)
    }
}

/// The emitted lines of a statement sequence, in order.
pub open spec fn gen_stmts(ss: Seq<SpecStatement>, level: nat) -> Seq<char>
    decreases ss, 0int,
{
    if ss.len() == 0 {
        Seq::empty()
    } else {
        gen_stmts(ss.subrange(0, ss.len() - 1), level) + gen_statement(ss[ss.len() - 1], level)
    }
}

/// The full generated text of a program: its top-level statements at
/// nesting level zero. An empty program generates empty text.
pub open spec fn gen_program(ss: Seq<SpecStatement>) -> Seq<char> {
    gen_stmts(ss, 0)
}

proof fn lemma_gen_stmts_snoc(ss: Seq<SpecStatement>, i: int, level: nat)
    requires
        0 <= i < ss.len(),
    ensures
        gen_stmts(ss.subrange(0, i + 1), level) == gen_stmts(ss.subrange(0, i), level)
            + gen_statement(ss[i], level),
{
    assert(ss.subrange(0, i + 1).subrange(0, i) =~= ss.subrange(0, i));
    assert(ss.subrange(0, i + 1)[i] == ss[i]);
}

proof fn lemma_gen_args_snoc(es: Seq<SpecExpression>, i: int)
    ensures
        0 <= i < es.len() ==> gen_args(es.subrange(0, i + 1)) == gen_args(es.subrange(0, i)) + (
        if i == 0 {
            Seq::<char>::empty()
        } else {
            ", "@
        }) + gen_expression(es[i]),
{
    if 0 <= i < es.len() {
        assert(es.subrange(0, i + 1).subrange(0, i) =~= es.subrange(0, i));
        assert(es.subrange(0, i + 1)[i] == es[i]);
        if i == 0 {
            assert(gen_args(es.subrange(0, 1)) == gen_expression(es[0]));
            assert(Seq::<char>::empty() + gen_expression(es[0]) =~= gen_expression(es[0]));
            assert(gen_args(es.subrange(0, 0)) == Seq::<char>::empty());
            assert(Seq::<char>::empty() + Seq::<char>::empty() + gen_expression(es[0])
                =~= gen_expression(es[0]));
        }
    }
}

proof fn lemma_join_params_snoc(ps: Seq<Seq<char>>, i: int)
    ensures
        0 <= i < ps.len() ==> join_params(ps.subrange(0, i + 1)) == join_params(ps.subrange(0, i))
            + (
        if i == 0 {
            Seq::<char>::empty()
        } else {
            ", "@
        }) + ps[i],
{
    if 0 <= i < ps.len() {
        assert(ps.subrange(0, i + 1).subrange(0, i) =~= ps.subrange(0, i));
        assert(ps.subrange(0, i + 1)[i] == ps[i]);
        if i == 0 {
            assert(join_params(ps.subrange(0, 1)) == ps[0]);
            assert(join_params(ps.subrange(0, 0)) == Seq::<char>::empty());
            assert(Seq::<char>::empty() + Seq::<char>::empty() + ps[0] =~= ps[0]);
        }
    }
}

proof fn lemma_view_expression_seq_index(es: Seq<Expression>, i: int)
    requires
        0 <= i < es.len(),
    ensures
        view_expression_seq(es).len() == es.len(),
        view_expression_seq(es)[i] == view_expression(es[i]),
    decreases es.len(),
{
    lemma_view_expression_seq_len(es);
    if i < es.len() - 1 {
        lemma_view_expression_seq_index(es.subrange(0, es.len() - 1), i);
        lemma_view_expression_seq_len(es.subrange(0, es.len() - 1));
    }
}

proof fn lemma_view_statement_seq_index(ss: Seq<Statement>, i: int)
    requires
        0 <= i < ss.len(),
    ensures
        view_statement_seq(ss).len() == ss.len(),
        view_statement_seq(ss)[i] == view_statement(ss[i]),
    decreases ss.len(),
{
    lemma_view_statement_seq_len(ss);
    if i < ss.len() - 1 {
        lemma_view_statement_seq_index(ss.subrange(0, ss.len() - 1), i);
        lemma_view_statement_seq_len(ss.subrange(0, ss.len() - 1));
    }
}

/// The operator's target-language token.
fn op_str(op: Operator) -> (r: &'static str)
    ensures
        r@ == op_text(op),
{
    match op {
        Operator::Add => "+",
        Operator::Sub => "-",
        Operator::Mul => "*",
        Operator::Div => "/",
        Operator::Eq => "==",
        Operator::NotEq => "!=",
        Operator::Lt => "<",
        Operator::Gt => ">",
        Operator::LtEq => "<=",
        Operator::GtEq => ">=",
        Operator::And => "and",
        Operator::Or => "or",
        Operator::Not => "not",
    }
}

fn emit_expression(e: &Expression, out: &mut String)
    ensures
        final(out)@ == old(out)@ + gen_expression(view_expression(*e)),
    decreases *e, 0int,
{
    match e {
        Expression::Identifier(name) => {
            out.append(name.as_str());
        },
        Expression::Number(text) => {
            out.append(text.as_str());
        },
        Expression::String(contents) => {
            out.append("\"");
            out.append(contents.as_str());
            out.append("\"");
        },
        Expression::BinaryOp { left, operator, right } => {
            emit_operand(&**left, out);
            out.append(" ");
            out.append(op_str(*operator));
            out.append(" ");
            emit_operand(&**right, out);
        },
        Expression::MemberAccess { object, member } => {
            emit_expression(&**object, out);
            out.append(".");
            out.append(member.as_str());
        },
        Expression::FunctionCall { name, args } => {
            out.append(name.as_str());
            out.append("(");
            emit_args(args, out);
            out.append(")");
        },
        Expression::ClassInstantiation { class_name, arguments } => {
            out.append(class_name.as_str());
            out.append("(");
            emit_args(arguments, out);
            out.append(")");
        },
    }
}

fn emit_operand(e: &Expression, out: &mut String)
    ensures
        final(out)@ == old(out)@ + gen_operand(view_expression(*e)),
    decreases *e, 1int,
{
    match e {
        Expression::BinaryOp { .. } => {
            out.append("(");
            emit_expression(e, out);
            out.append(")");
        },
        _ => {
            emit_expression(e, out);
        },
    }
}

fn emit_args(args: &Vec<Expression>, out: &mut String)
    ensures
        final(out)@ == old(out)@ + gen_args(view_expression_seq(args@)),
    decreases *args, 2int,
{
    let ghost w = view_expression_seq(args@);
    proof {
        lemma_view_expression_seq_len(args@);
    }
    let mut i: usize = 0;
    while i < args.len()
        invariant
            0 <= i <= args.len(),
            w == view_expression_seq(args@),
            w.len() == args@.len(),
            out@ == old(out)@ + gen_args(w.subrange(0, i as int)),
        decreases args@.len() - i,
    {
        if i > 0 {
            out.append(", ");
        }
        emit_expression(&args[i], out);
        proof {
            lemma_view_expression_seq_index(args@, i as int);
            lemma_gen_args_snoc(w, i as int);
        }
        i = i + 1;
    }
    proof {
        assert(w.subrange(0, args@.len() as int) =~= w);
    }
}

/// The indentation string one level deeper than `ind`.
fn child_indent(ind: &String) -> (r: String)
    ensures
        r@ == ind@ + "    "@,
{
    let mut r = ind.clone();
    r.append("    ");
    r
}

fn emit_params(params: &Vec<String>, out: &mut String)
    ensures
        final(out)@ == old(out)@ + join_params(params.deep_view()),
{
    let ghost w = params.deep_view();
    let mut i: usize = 0;
    while i < params.len()
        invariant
            0 <= i <= params.len(),
            w == params.deep_view(),
            w.len() == params@.len(),
            out@ == old(out)@ + join_params(w.subrange(0, i as int)),
        decreases params@.len() - i,
    {
        if i > 0 {
            out.append(", ");
        }
        out.append(params[i].as_str());
        proof {
            assert(w[i as int] == params@[i as int]@);
            lemma_join_params_snoc(w, i as int);
        }
        i = i + 1;
    }
    proof {
        assert(w.subrange(0, params@.len() as int) =~= w);
    }
}

fn emit_statement(st: &Statement, ind: &String, Ghost(level): Ghost<nat>, out: &mut String)
    requires
        ind@ == indent_str(level),
    ensures
        final(out)@ == old(out)@ + gen_statement(view_statement(*st), level),
    decreases *st, 0int,
{
    match st {
        Statement::Assignment { name, value } => {
            out.append(ind.as_str());
            out.append(name.as_str());
            out.append(" = ");
            emit_expression(value, out);
            out.append("\n");
        },
        Statement::Print { content } => {
            out.append(ind.as_str());
            out.append("print(");
            emit_expression(content, out);
            out.append(")\n");
        },
        Statement::Return { value } => {
            out.append(ind.as_str());
            out.append("return ");
            emit_expression(value, out);
            out.append("\n");
        },
        Statement::If { condition, consequence, alternative } => {
            out.append(ind.as_str());
            out.append("if ");
            emit_expression(condition, out);
            out.append(":\n");
            let child = child_indent(ind);
            emit_block(consequence, &child, Ghost(level + 1), out);
            match alternative {
                Option::Some(alt) => {
                    out.append(ind.as_str());
                    out.append("else:\n");
                    emit_block(alt, &child, Ghost(level + 1), out);
                },
                Option::None => {},
            }
        },
        Statement::For { iterator, body } => {
            out.append(ind.as_str());
            out.append("for ");
            emit_expression(iterator, out);
            out.append(":\n");
            let child = child_indent(ind);
            emit_block(body, &child, Ghost(level + 1), out);
        },
        Statement::While { condition, body } => {
            out.append(ind.as_str());
            out.append("while ");
            emit_expression(condition, out);
            out.append(":\n");
            let child = child_indent(ind);
            emit_block(body, &child, Ghost(level + 1), out);
        },
        Statement::FunctionDef { name, args, body } => {
            out.append(ind.as_str());
            out.append("def ");
            out.append(name.as_str());
            out.append("(");
            emit_params(args, out);
            out.append("):\n");
            let child = child_indent(ind);
            emit_block(body, &child, Ghost(level + 1), out);
        },
        Statement::FunctionCall { name, arguments } => {
            out.append(ind.as_str());
            out.append(name.as_str());
            out.append("(");
            emit_args(arguments, out);
            out.append(")\n");
        },
        Statement::ClassDef { name, body } => {
            out.append(ind.as_str());
            out.append("class ");
            out.append(name.as_str());
            out.append(":\n");
            let child = child_indent(ind);
            emit_block(body, &child, Ghost(level + 1), out);
        },
    }
}

fn emit_block(b: &Block, ind: &String, Ghost(level): Ghost<nat>, out: &mut String)
    requires
        ind@ == indent_str(level),
    ensures
        final(out)@ == old(out)@ + gen_block(view_statement_seq(b.statements@), level),
    decreases *b, 1int,
{
    if b.statements.len() == 0 {
        out.append(ind.as_str());
        out.append("pass\n");
        proof {
            lemma_view_statement_seq_len(b.statements@);
        }
    } else {
        let ghost w = view_statement_seq(b.statements@);
        proof {
            lemma_view_statement_seq_len(b.statements@);
        }
        let mut i: usize = 0;
        while i < b.statements.len()
            invariant
                0 <= i <= b.statements.len(),
                ind@ == indent_str(level),
                w == view_statement_seq(b.statements@),
                w.len() == b.statements@.len(),
                out@ == old(out)@ + gen_stmts(w.subrange(0, i as int), level),
            decreases b.statements@.len() - i,
        {
            emit_statement(&b.statements[i], ind, Ghost(level), out);
            proof {
                lemma_view_statement_seq_index(b.statements@, i as int);
                lemma_gen_stmts_snoc(w, i as int, level);
            }
            i = i + 1;
        }
        proof {
            assert(w.subrange(0, b.statements@.len() as int) =~= w);
        }
    }
}

/// Renders the whole program as target text, four spaces of indentation per
/// nesting level, one line per simple statement. The result is a function
/// of the tree alone, so generating twice from the same tree yields the
/// same text both times.
pub fn generate_python_code(program: &Program) -> (res: String)
    ensures
        res@ == gen_program(program@),
{
    let mut out = String::new();
    let ind = String::new();
    let ghost w = view_statement_seq(program.statements@);
    proof {
        lemma_view_statement_seq_len(program.statements@);
    }
    let mut i: usize = 0;
    while i < program.statements.len()
        invariant
            0 <= i <= program.statements.len(),
            ind@ == indent_str(0),
            w == view_statement_seq(program.statements@),
            w.len() == program.statements@.len(),
            out@ == gen_stmts(w.subrange(0, i as int), 0),
        decreases program.statements@.len() - i,
    {
        emit_statement(&program.statements[i], &ind, Ghost(0), &mut out);
        proof {
            lemma_view_statement_seq_index(program.statements@, i as int);
            lemma_gen_stmts_snoc(w, i as int, 0);
        }
        i = i + 1;
    }
    proof {
        assert(w.subrange(0, program.statements@.len() as int) =~= w);
    }
    out
}

} // verus!
