//! The abstract syntax tree: passive data produced by the parser and read by
//! the code generator, together with its spec-level model.
//!
//! Each executable node type has a ghost counterpart over `Seq<char>`
//! (`SpecExpression`, `SpecStatement`), and a view mapping into it; the
//! parser's and generator's contracts are stated over these models.

use vstd::prelude::*;

verus! {

/// The closed set of operators an expression can carry. Operator text is
/// resolved to a variant at parse time, so the generator switches over this
/// closed set instead of re-interpreting strings.
#[derive(Clone, Copy, Debug, PartialEq, Eq, Structural)]
pub enum Operator {
    Add,
    Sub,
    Mul,
    Div,
    Eq,
    NotEq,
    Lt,
    Gt,
    LtEq,
    GtEq,
    And,
    Or,
    Not,
}

/// An expression node. Sub-trees are exclusively owned: a tree, never shared,
/// never cyclic.
///
/// `Number` holds the literal's canonical decimal text (no leading zeros
/// before the point beyond a single `0`, no trailing zeros after it, the
/// point dropped when the fraction is empty), so the generator can emit it
/// verbatim. `String` holds the raw quoted contents; the grammar admits no
/// escape sequences, so a delimiter can never occur inside the contents and
/// re-wrapping in quotes on emission is exact.
#[derive(Debug, PartialEq)]
pub enum Expression {
    Identifier(String),
    Number(String),
    String(String),
    BinaryOp { left: Box<Expression>, operator: Operator, right: Box<Expression> },
    MemberAccess { object: Box<Expression>, member: String },
    FunctionCall { name: String, args: Vec<Expression> },
    ClassInstantiation { class_name: String, arguments: Vec<Expression> },
}

/// A block: the ordered statement sequence forming the body of a
/// conditional, loop, function or class. May be empty; the generator then
/// emits a single no-op statement in its place.
#[derive(Debug, PartialEq)]
pub struct Block {
    pub statements: Vec<Statement>,
}

/// A statement node. `If.alternative` is present only when an else-branch
/// was parsed.
#[derive(Debug, PartialEq)]
pub enum Statement {
    Assignment { name: String, value: Expression },
    Print { content: Expression },
    Return { value: Expression },
    If { condition: Expression, consequence: Block, alternative: Option<Block> },
    For { iterator: Expression, body: Block },
    While { condition: Expression, body: Block },
    FunctionDef { name: String, args: Vec<String>, body: Block },
    FunctionCall { name: String, arguments: Vec<Expression> },
    ClassDef { name: String, body: Block },
}

/// The root of the tree: the ordered sequence of top-level statements.
#[derive(Debug, PartialEq)]
pub struct Program {
    pub statements: Vec<Statement>,
}

/// Ghost model of an expression, over character sequences.
pub enum SpecExpression {
    Identifier(Seq<char>),
    Number(Seq<char>),
    String(Seq<char>),
    BinaryOp { left: Box<SpecExpression>, operator: Operator, right: Box<SpecExpression> },
    MemberAccess { object: Box<SpecExpression>, member: Seq<char> },
    FunctionCall { name: Seq<char>, args: Seq<SpecExpression> },
    ClassInstantiation { class_name: Seq<char>, arguments: Seq<SpecExpression> },
}

/// Ghost model of a statement. Blocks are plain statement sequences here.
pub enum SpecStatement {
    Assignment { name: Seq<char>, value: SpecExpression },
    Print { content: SpecExpression },
    Return { value: SpecExpression },
    If {
        condition: SpecExpression,
        consequence: Seq<SpecStatement>,
        alternative: Option<Seq<SpecStatement>>,
    },
    For { iterator: SpecExpression, body: Seq<SpecStatement> },
    While { condition: SpecExpression, body: Seq<SpecStatement> },
    FunctionDef { name: Seq<char>, params: Seq<Seq<char>>, body: Seq<SpecStatement> },
    FunctionCall { name: Seq<char>, arguments: Seq<SpecExpression> },
    ClassDef { name: Seq<char>, body: Seq<SpecStatement> },
}

pub open spec fn view_expression(e: Expression) -> SpecExpression
    decreases e,
{
    match e {
        Expression::Identifier(name) => SpecExpression::Identifier(name@),
        Expression::Number(text) => SpecExpression::Number(text@),
        Expression::String(contents) => SpecExpression::String(contents@),
        Expression::BinaryOp { left, operator, right } => SpecExpression::BinaryOp {
            left: Box::new(view_expression(*left)),
            operator: operator,
            right: Box::new(view_expression(*right)),
        },
        Expression::MemberAccess { object, member } => SpecExpression::MemberAccess {
            object: Box::new(view_expression(*object)),
            member: member@,
        },
        Expression::FunctionCall { name, args } => SpecExpression::FunctionCall {
            name: name@,
            args: view_expression_seq(args@),
        },
        Expression::ClassInstantiation { class_name, arguments } => {
            SpecExpression::ClassInstantiation {
                class_name: class_name@,
                arguments: view_expression_seq(arguments@),
            }
        },
    }
}

pub open spec fn view_expression_seq(es: Seq<Expression>) -> Seq<SpecExpression>
    decreases es,
{
    if es.len() == 0 {
        Seq::empty()
    } else {
        view_expression_seq(es.subrange(0, es.len() - 1)).push(view_expression(es[es.len() - 1]))
    }
}

pub open spec fn view_statement(st: Statement) -> SpecStatement
    decreases st,
{
    match st {
        Statement::Assignment { name, value } => SpecStatement::Assignment {
            name: name@,
            value: view_expression(value),
        },
        Statement::Print { content } => SpecStatement::Print { content: view_expression(content) },
        Statement::Return { value } => SpecStatement::Return { value: view_expression(value) },
        Statement::If { condition, consequence, alternative } => SpecStatement::If {
            condition: view_expression(condition),
            consequence: view_statement_seq(consequence.statements@),
            alternative: match alternative {
                Option::Some(b) => Option::Some(view_statement_seq(b.statements@)),
                Option::None => Option::None,
            },
        },
        Statement::For { iterator, body } => SpecStatement::For {
            iterator: view_expression(iterator),
            body: view_statement_seq(body.statements@),
        },
        Statement::While { condition, body } => SpecStatement::While {
            condition: view_expression(condition),
            body: view_statement_seq(body.statements@),
        },
        Statement::FunctionDef { name, args, body } => SpecStatement::FunctionDef {
            name: name@,
            params: args.deep_view(),
            body: view_statement_seq(body.statements@),
        },
        Statement::FunctionCall { name, arguments } => SpecStatement::FunctionCall {
            name: name@,
            arguments: view_expression_seq(arguments@),
        },
        Statement::ClassDef { name, body } => SpecStatement::ClassDef {
            name: name@,
            body: view_statement_seq(body.statements@),
        },
    }
}

pub open spec fn view_statement_seq(ss: Seq<Statement>) -> Seq<SpecStatement>
    decreases ss,
{
    if ss.len() == 0 {
        Seq::empty()
    } else {
        view_statement_seq(ss.subrange(0, ss.len() - 1)).push(view_statement(ss[ss.len() - 1]))
    }
}

impl View for Expression {
    type V = SpecExpression;

    open spec fn view(&self) -> SpecExpression {
        view_expression(*self)
    }
}

impl View for Statement {
    type V = SpecStatement;

    open spec fn view(&self) -> SpecStatement {
        view_statement(*self)
    }
}

impl View for Block {
    type V = Seq<SpecStatement>;

    open spec fn view(&self) -> Seq<SpecStatement> {
        view_statement_seq(self.statements@)
    }
}

impl View for Program {
    type V = Seq<SpecStatement>;

    open spec fn view(&self) -> Seq<SpecStatement> {
        view_statement_seq(self.statements@)
    }
}

pub proof fn lemma_view_expression_seq_push(es: Seq<Expression>, e: Expression)
    ensures
        view_expression_seq(es.push(e)) == view_expression_seq(es).push(view_expression(e)),
{
    assert(es.push(e).subrange(0, es.len() as int) =~= es);
    assert(es.push(e)[es.len() as int] == e);
}

pub proof fn lemma_view_statement_seq_push(ss: Seq<Statement>, st: Statement)
    ensures
        view_statement_seq(ss.push(st)) == view_statement_seq(ss).push(view_statement(st)),
{
    assert(ss.push(st).subrange(0, ss.len() as int) =~= ss);
    assert(ss.push(st)[ss.len() as int] == st);
}

pub proof fn lemma_view_expression_seq_len(es: Seq<Expression>)
    ensures
        view_expression_seq(es).len() == es.len(),
    decreases es.len(),
{
    if es.len() > 0 {
        lemma_view_expression_seq_len(es.subrange(0, es.len() - 1));
    }
}

pub proof fn lemma_view_statement_seq_len(ss: Seq<Statement>)
    ensures
        view_statement_seq(ss).len() == ss.len(),
    decreases ss.len(),
{
    if ss.len() > 0 {
        lemma_view_statement_seq_len(ss.subrange(0, ss.len() - 1));
    }
}

} // verus!
