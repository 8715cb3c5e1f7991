//! Properties that relate the pipeline's pieces, stated and proved over the
//! spec-level models.

use vstd::prelude::*;
use crate::ast::SpecExpression;
use crate::ast::SpecStatement;
use crate::codegen::gen_expression;
use crate::codegen::gen_program;
use crate::codegen::gen_statement;
use crate::codegen::gen_stmts;
use crate::codegen::indent_str;

verus! {

/// An assignment statement at top level generates exactly the assigned
/// name, ` = `, the rendered value and a line break — with zero leading
/// indentation. Together with the parser's contract, a program that parses
/// to a single assignment generates exactly this line.
pub proof fn lemma_assignment_generation(name: Seq<char>, value: SpecExpression)
    ensures
        gen_program(seq![SpecStatement::Assignment { name, value }]) == name + " = "@
            + gen_expression(value) + "\n"@,
{
    let st = SpecStatement::Assignment { name, value };
    let ss = seq![st];
    assert(ss.subrange(0, 0) =~= Seq::<SpecStatement>::empty());
    assert(gen_stmts(Seq::<SpecStatement>::empty(), 0) == Seq::<char>::empty());
    assert(ss[0] == st);
    assert(indent_str(0) == Seq::<char>::empty());
    assert(gen_statement(st, 0) == indent_str(0) + name + " = "@ + gen_expression(value)
        + "\n"@);
    assert(gen_stmts(ss, 0) == gen_stmts(ss.subrange(0, 0), 0) + gen_statement(st, 0));
    assert(Seq::<char>::empty() + (Seq::<char>::empty() + name + " = "@ + gen_expression(value)
        + "\n"@) =~= name + " = "@ + gen_expression(value) + "\n"@);
}

/// Generation is idempotent: the generated text is a function of the tree
/// alone (`generate_python_code` ensures its result equals `gen_program` of
/// the tree), so two runs over the same tree yield identical text.
pub proof fn lemma_generation_deterministic(p: Seq<SpecStatement>, r1: Seq<char>, r2: Seq<char>)
    requires
        r1 == gen_program(p),
        r2 == gen_program(p),
    ensures
        r1 == r2,
{
}

} // verus!
