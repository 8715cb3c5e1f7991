//! The parser: executable recursive descent over the input text, proved to
//! return exactly what the grammar (`crate::grammar`) denotes.
//!
//! Parsing fails fast: the first mismatch aborts the whole parse with a
//! `SyntaxError` and no partial tree. A structural mismatch between the
//! grammar and the tree builder cannot arise here — both are the same pass —
//! so `StructuralError` is never produced; the kind exists for callers that
//! distinguish the two failure classes.

use vstd::prelude::*;
use vstd::string::StrSliceExecFns;
use vstd::string::StringExecFns;
use crate::ast::Block;
use crate::ast::Expression;
use crate::ast::Operator;
use crate::ast::Program;
use crate::ast::SpecExpression;
use crate::ast::SpecStatement;
use crate::ast::Statement;
use crate::ast::view_expression;
use crate::ast::view_expression_seq;
use crate::ast::view_statement;
use crate::ast::view_statement_seq;
use crate::ast::lemma_view_expression_seq_push;
use crate::ast::lemma_view_statement_seq_push;
use crate::grammar::is_blank_char;
use crate::grammar::is_digit_char;
use crate::grammar::is_ident_char;
use crate::grammar::is_ident_start_char;
use crate::grammar::is_keyword;
use crate::grammar::is_space_char;
use crate::grammar::join_dotted;
use crate::grammar::member_chain;
use crate::grammar::op_token_at;
use crate::grammar::parse_args;
use crate::grammar::parse_args_rest;
use crate::grammar::parse_binop;
use crate::grammar::parse_binop_rest;
use crate::grammar::parse_block;
use crate::grammar::parse_dotted;
use crate::grammar::parse_expr_then_block;
use crate::grammar::parse_params;
use crate::grammar::parse_params_rest;
use crate::grammar::parse_program;
use crate::grammar::parse_statement;
use crate::grammar::parse_stmts;
use crate::grammar::parse_term;
use crate::grammar::scan_digits_end;
use crate::grammar::scan_ident_end;
use crate::grammar::scan_string_end;
use crate::grammar::skip_blank;
use crate::grammar::skip_sp;
use crate::grammar::tier_rank;
use crate::grammar::trim_leading_zeros;
use crate::grammar::trim_trailing_zeros;

verus! {

/// How a parse failed.
#[derive(Debug, Clone, Copy, PartialEq, Eq, Structural)]
pub enum ParseErrorKind {
    /// The input text does not match the grammar.
    SyntaxError,
    /// The grammar accepted a construct the tree builder does not know;
    /// a defect, not a user error. The single-pass parser here never
    /// produces it.
    StructuralError,
}

/// A failed parse: the whole input is rejected and no tree is built. The
/// diagnostic is the failure kind; `message` puts it into words.
#[derive(Debug, Clone, Copy, PartialEq, Eq, Structural)]
pub struct BythonParseError {
    pub kind: ParseErrorKind,
}

impl BythonParseError {
    /// A human-readable description of the failure.
    pub fn message(&self) -> (m: String)
        ensures
            self.kind is SyntaxError ==> m@ == "input does not match the grammar"@,
            self.kind is StructuralError ==> m@ == "grammar and tree builder disagree"@,
    {
        match self.kind {
            ParseErrorKind::SyntaxError => String::from_str("input does not match the grammar"),
            ParseErrorKind::StructuralError => String::from_str(
                "grammar and tree builder disagree",
            ),
        }
    }
}

fn space_char(c: char) -> (b: bool)
    ensures
        b == is_space_char(c),
{
    c == ' ' || c == '\t' || c == '\r'
}

fn blank_char(c: char) -> (b: bool)
    ensures
        b == is_blank_char(c),
{
    c == ' ' || c == '\t' || c == '\r' || c == '\n'
}

fn digit_char(c: char) -> (b: bool)
    ensures
        b == is_digit_char(c),
{
    let u = c as u32;
    48 <= u && u <= 57
}

fn ident_start_char(c: char) -> (b: bool)
    ensures
        b == is_ident_start_char(c),
{
    let u = c as u32;
    (97 <= u && u <= 122) || (65 <= u && u <= 90) || c == '_'
}

fn ident_char(c: char) -> (b: bool)
    ensures
        b == is_ident_char(c),
{
    ident_start_char(c) || digit_char(c)
}

fn exec_skip_sp(chars: &Vec<char>, pos: usize) -> (r: usize)
    requires
        pos <= chars@.len(),
    ensures
        r as int == skip_sp(chars@, pos as int),
        pos <= r <= chars@.len(),
{
    let mut i: usize = pos;
    while i < chars.len() && space_char(chars[i])
        invariant
            pos <= i <= chars@.len(),
            skip_sp(chars@, pos as int) == skip_sp(chars@, i as int),
        decreases chars@.len() - i,
    {
        i = i + 1;
    }
    i
}

fn exec_skip_blank(chars: &Vec<char>, pos: usize) -> (r: usize)
    requires
        pos <= chars@.len(),
    ensures
        r as int == skip_blank(chars@, pos as int),
        pos <= r <= chars@.len(),
{
    let mut i: usize = pos;
    while i < chars.len() && blank_char(chars[i])
        invariant
            pos <= i <= chars@.len(),
            skip_blank(chars@, pos as int) == skip_blank(chars@, i as int),
        decreases chars@.len() - i,
    {
        i = i + 1;
    }
    i
}

fn exec_scan_ident_end(chars: &Vec<char>, pos: usize) -> (r: usize)
    requires
        pos <= chars@.len(),
    ensures
        r as int == scan_ident_end(chars@, pos as int),
        pos <= r <= chars@.len(),
{
    let mut i: usize = pos;
    while i < chars.len() && ident_char(chars[i])
        invariant
            pos <= i <= chars@.len(),
            scan_ident_end(chars@, pos as int) == scan_ident_end(chars@, i as int),
        decreases chars@.len() - i,
    {
        i = i + 1;
    }
    i
}

fn exec_scan_digits_end(chars: &Vec<char>, pos: usize) -> (r: usize)
    requires
        pos <= chars@.len(),
    ensures
        r as int == scan_digits_end(chars@, pos as int),
        pos <= r <= chars@.len(),
{
    let mut i: usize = pos;
    while i < chars.len() && digit_char(chars[i])
        invariant
            pos <= i <= chars@.len(),
            scan_digits_end(chars@, pos as int) == scan_digits_end(chars@, i as int),
        decreases chars@.len() - i,
    {
        i = i + 1;
    }
    i
}

fn exec_scan_string_end(chars: &Vec<char>, pos: usize) -> (r: Option<usize>)
    requires
        pos <= chars@.len(),
    ensures
        match r {
            Option::Some(p) => scan_string_end(chars@, pos as int) == Option::Some(p as int) && pos
                <= p < chars@.len(),
            Option::None => scan_string_end(chars@, pos as int) is None,
        },
{
    let mut i: usize = pos;
    loop
        invariant
            pos <= i <= chars@.len(),
            scan_string_end(chars@, pos as int) == scan_string_end(chars@, i as int),
        decreases chars@.len() - i,
    {
        if i >= chars.len() {
            return Option::None;
        }
        let c = chars[i];
        if c == '"' {
            return Option::Some(i);
        }
        if c == '\n' {
            return Option::None;
        }
        i = i + 1;
    }
}

/// Whether the characters in `[start, end)` spell exactly the word `w`.
fn word_is(chars: &Vec<char>, start: usize, end: usize, w: &str) -> (b: bool)
    requires
        start <= end <= chars@.len(),
    ensures
        b == (chars@.subrange(start as int, end as int) == w@),
{
    let wl = w.unicode_len();
    if end - start != wl {
        proof {
            assert(chars@.subrange(start as int, end as int).len() == end - start);
        }
        return false;
    }
    let mut i: usize = 0;
    while i < wl
        invariant
            start <= end <= chars@.len(),
            wl == w@.len(),
            end - start == wl,
            0 <= i <= wl,
            forall|j: int| 0 <= j < i ==> chars@[start + j] == w@[j],
        decreases wl - i,
    {
        if chars[start + i] != w.get_char(i) {
            proof {
                assert(chars@.subrange(start as int, end as int)[i as int] != w@[i as int]);
            }
            return false;
        }
        i = i + 1;
    }
    proof {
        assert(chars@.subrange(start as int, end as int) =~= w@);
    }
    true
}

/// Whether the word in `[start, end)` is one of the reserved keywords.
fn keyword_at(chars: &Vec<char>, start: usize, end: usize) -> (b: bool)
    requires
        start <= end <= chars@.len(),
    ensures
        b == is_keyword(chars@.subrange(start as int, end as int)),
{
    word_is(chars, start, end, "if") || word_is(chars, start, end, "else") || word_is(
        chars,
        start,
        end,
        "for",
    ) || word_is(chars, start, end, "while") || word_is(chars, start, end, "def") || word_is(
        chars,
        start,
        end,
        "class",
    ) || word_is(chars, start, end, "print") || word_is(chars, start, end, "return") || word_is(
        chars,
        start,
        end,
        "and",
    ) || word_is(chars, start, end, "or") || word_is(chars, start, end, "not") || word_is(
        chars,
        start,
        end,
        "new",
    )
}

/// The substring `[start, end)` of the input as an owned string.
fn text_of(src: &str, chars: &Vec<char>, start: usize, end: usize) -> (r: String)
    requires
        chars@ == src@,
        start <= end <= chars@.len(),
    ensures
        r@ == chars@.subrange(start as int, end as int),
{
    String::from_str(src.substring_char(start, end))
}


/// Relates an executable expression-parse result to the grammar's.
pub open spec fn expr_result_matches(
    r: Option<(Expression, usize)>,
    sr: Option<(SpecExpression, int)>,
    s: Seq<char>,
) -> bool {
    match r {
        Option::Some(v) => sr == Option::Some((view_expression(v.0), v.1 as int)) && v.1 <= s.len(),
        Option::None => sr is None,
    }
}

/// Relates an executable argument-list result to the grammar's.
pub open spec fn args_result_matches(
    r: Option<(Vec<Expression>, usize)>,
    sr: Option<(Seq<SpecExpression>, int)>,
    s: Seq<char>,
) -> bool {
    match r {
        Option::Some(v) => sr == Option::Some((view_expression_seq(v.0@), v.1 as int)) && v.1
            <= s.len(),
        Option::None => sr is None,
    }
}

/// Relates an executable statement-parse result to the grammar's.
pub open spec fn stmt_result_matches(
    r: Option<(Statement, usize)>,
    sr: Option<(SpecStatement, int)>,
    s: Seq<char>,
) -> bool {
    match r {
        Option::Some(v) => sr == Option::Some((view_statement(v.0), v.1 as int)) && v.1 <= s.len(),
        Option::None => sr is None,
    }
}

/// Relates an executable block-parse result to the grammar's.
pub open spec fn block_result_matches(
    r: Option<(Block, usize)>,
    sr: Option<(Seq<SpecStatement>, int)>,
    s: Seq<char>,
) -> bool {
    match r {
        Option::Some(v) => sr == Option::Some((v.0@, v.1 as int)) && v.1 <= s.len(),
        Option::None => sr is None,
    }
}

/// Relates an executable statement-sequence result to the grammar's.
pub open spec fn stmts_result_matches(
    r: Option<(Vec<Statement>, usize)>,
    sr: Option<(Seq<SpecStatement>, int)>,
    s: Seq<char>,
) -> bool {
    match r {
        Option::Some(v) => sr == Option::Some((view_statement_seq(v.0@), v.1 as int)) && v.1
            <= s.len(),
        Option::None => sr is None,
    }
}

/// Relates an executable header (expression plus block) result to the
/// grammar's.
pub open spec fn etb_result_matches(
    r: Option<(Expression, Block, usize)>,
    sr: Option<(SpecExpression, Seq<SpecStatement>, int)>,
    s: Seq<char>,
) -> bool {
    match r {
        Option::Some(v) => sr == Option::Some((view_expression(v.0), v.1@, v.2 as int)) && v.2
            <= s.len(),
        Option::None => sr is None,
    }
}

fn exec_op_token_at(chars: &Vec<char>, pos: usize, tier: u8) -> (r: Option<(Operator, usize)>)
    requires
        pos <= chars@.len(),
        1 <= tier <= 3,
    ensures
        match r {
            Option::Some(v) => op_token_at(chars@, pos as int, tier as int) == Option::Some(
                (v.0, v.1 as int),
            ) && pos + v.1 <= chars@.len(),
            Option::None => op_token_at(chars@, pos as int, tier as int) is None,
        },
{
    if tier == 1 {
        if pos < chars.len() && pos + 1 < chars.len() && chars[pos] == '=' && chars[pos + 1] == '=' {
            Option::Some((Operator::Eq, 2))
        } else if pos < chars.len() && pos + 1 < chars.len() && chars[pos] == '!' && chars[pos + 1]
            == '=' {
            Option::Some((Operator::NotEq, 2))
        } else if pos < chars.len() && pos + 1 < chars.len() && chars[pos] == '<' && chars[pos + 1]
            == '=' {
            Option::Some((Operator::LtEq, 2))
        } else if pos < chars.len() && pos + 1 < chars.len() && chars[pos] == '>' && chars[pos + 1]
            == '=' {
            Option::Some((Operator::GtEq, 2))
        } else if pos < chars.len() && chars[pos] == '<' {
            Option::Some((Operator::Lt, 1))
        } else if pos < chars.len() && chars[pos] == '>' {
            Option::Some((Operator::Gt, 1))
        } else {
            Option::None
        }
    } else if tier == 2 {
        if pos < chars.len() && chars[pos] == '+' {
            Option::Some((Operator::Add, 1))
        } else if pos < chars.len() && chars[pos] == '-' {
            Option::Some((Operator::Sub, 1))
        } else {
            Option::None
        }
    } else {
        if pos < chars.len() && chars[pos] == '*' {
            Option::Some((Operator::Mul, 1))
        } else if pos < chars.len() && chars[pos] == '/' {
            Option::Some((Operator::Div, 1))
        } else {
            Option::None
        }
    }
}

fn exec_parse_dotted(src: &str, chars: &Vec<char>, pos: usize) -> (r: Option<(Vec<String>, usize)>)
    requires
        chars@ == src@,
        pos <= chars@.len(),
    ensures
        match r {
            Option::Some(v) => parse_dotted(chars@, pos as int) == Option::Some(
                (v.0.deep_view(), v.1 as int),
            ) && v.0@.len() >= 1 && pos <= v.1 <= chars@.len(),
            Option::None => parse_dotted(chars@, pos as int) is None,
        },
    decreases chars@.len() - pos,
{
    if pos < chars.len() && ident_start_char(chars[pos]) {
        let e = exec_scan_ident_end(chars, pos);
        if keyword_at(chars, pos, e) {
            Option::None
        } else if e < chars.len() && chars[e] == '.' {
            match exec_parse_dotted(src, chars, e + 1) {
                Option::Some((parts, p2)) => {
                    let w = text_of(src, chars, pos, e);
                    let ghost ws = w@;
                    let ghost partsdv = parts.deep_view();
                    let mut v = parts;
                    v.insert(0, w);
                    proof {
                        assert(v.deep_view() =~= seq![ws] + partsdv);
                    }
                    Option::Some((v, p2))
                },
                Option::None => Option::None,
            }
        } else {
            let w = text_of(src, chars, pos, e);
            let ghost ws = w@;
            let mut v: Vec<String> = Vec::new();
            v.push(w);
            proof {
                assert(v.deep_view() =~= seq![ws]);
            }
            Option::Some((v, e))
        }
    } else {
        Option::None
    }
}

proof fn lemma_join_dotted_snoc(ps: Seq<Seq<char>>, i: int)
    ensures
        0 <= i < ps.len() ==> join_dotted(ps.subrange(0, i + 1)) == join_dotted(ps.subrange(0, i))
            + (
        if i == 0 {
            Seq::<char>::empty()
        } else {
            "."@
        }) + ps[i],
{
    if 0 <= i < ps.len() {
        assert(ps.subrange(0, i + 1).subrange(0, i) =~= ps.subrange(0, i));
        assert(ps.subrange(0, i + 1)[i] == ps[i]);
        if i == 0 {
            assert(join_dotted(ps.subrange(0, 1)) == ps[0]);
            assert(join_dotted(ps.subrange(0, 0)) == Seq::<char>::empty());
            assert(Seq::<char>::empty() + Seq::<char>::empty() + ps[0] =~= ps[0]);
        }
    }
}

/// The flat dotted text of the given name parts.
fn exec_join_dotted(parts: &Vec<String>) -> (r: String)
    ensures
        r@ == join_dotted(parts.deep_view()),
{
    let ghost dv = parts.deep_view();
    let mut out = String::new();
    let mut i: usize = 0;
    while i < parts.len()
        invariant
            0 <= i <= parts@.len(),
            dv == parts.deep_view(),
            dv.len() == parts@.len(),
            out@ == join_dotted(dv.subrange(0, i as int)),
        decreases parts@.len() - i,
    {
        if i > 0 {
            out.append(".");
        }
        out.append(parts[i].as_str());
        proof {
            assert(dv[i as int] == parts@[i as int]@);
            lemma_join_dotted_snoc(dv, i as int);
        }
        i = i + 1;
    }
    proof {
        assert(dv.subrange(0, parts@.len() as int) =~= dv);
    }
    out
}

/// The member-access tree of the given name parts.
fn exec_member_chain(parts: &Vec<String>) -> (r: Expression)
    requires
        parts@.len() >= 1,
    ensures
        view_expression(r) == member_chain(parts.deep_view()),
{
    let ghost dv = parts.deep_view();
    let mut ex = Expression::Identifier(parts[0].clone());
    proof {
        assert(dv.subrange(0, 1)[0] == dv[0]);
    }
    let mut i: usize = 1;
    while i < parts.len()
        invariant
            1 <= i <= parts@.len(),
            dv == parts.deep_view(),
            dv.len() == parts@.len(),
            view_expression(ex) == member_chain(dv.subrange(0, i as int)),
        decreases parts@.len() - i,
    {
        ex = Expression::MemberAccess { object: Box::new(ex), member: parts[i].clone() };
        proof {
            assert(dv.subrange(0, i + 1).subrange(0, i as int) =~= dv.subrange(0, i as int));
            assert(dv.subrange(0, i + 1)[i as int] == dv[i as int]);
            assert(dv[i as int] == parts@[i as int]@);
        }
        i = i + 1;
    }
    proof {
        assert(dv.subrange(0, parts@.len() as int) =~= dv);
    }
    ex
}

fn exec_parse_params_rest(src: &str, chars: &Vec<char>, pos: usize, acc: Vec<String>) -> (r: Option<
    (Vec<String>, usize),
>)
    requires
        chars@ == src@,
        pos <= chars@.len(),
    ensures
        match r {
            Option::Some(v) => parse_params_rest(chars@, pos as int, acc.deep_view())
                == Option::Some((v.0.deep_view(), v.1 as int)) && v.1 <= chars@.len(),
            Option::None => parse_params_rest(chars@, pos as int, acc.deep_view()) is None,
        },
    decreases chars@.len() - pos,
{
    let q = exec_skip_sp(chars, pos);
    if q >= chars.len() {
        return Option::None;
    }
    if chars[q] == ')' {
        return Option::Some((acc, q + 1));
    }
    if chars[q] == ',' {
        let r2 = exec_skip_sp(chars, q + 1);
        if r2 >= chars.len() || !ident_start_char(chars[r2]) {
            return Option::None;
        }
        let e = exec_scan_ident_end(chars, r2);
        if keyword_at(chars, r2, e) {
            return Option::None;
        }
        if e <= pos || e > chars.len() {
            return Option::None;
        }
        let w = text_of(src, chars, r2, e);
        let ghost ws = w@;
        let ghost accdv = acc.deep_view();
        let mut acc2 = acc;
        acc2.push(w);
        proof {
            assert(acc2.deep_view() =~= accdv.push(ws));
        }
        exec_parse_params_rest(src, chars, e, acc2)
    } else {
        Option::None
    }
}

fn exec_parse_params(src: &str, chars: &Vec<char>, pos: usize) -> (r: Option<(Vec<String>, usize)>)
    requires
        chars@ == src@,
        pos <= chars@.len(),
    ensures
        match r {
            Option::Some(v) => parse_params(chars@, pos as int) == Option::Some(
                (v.0.deep_view(), v.1 as int),
            ) && v.1 <= chars@.len(),
            Option::None => parse_params(chars@, pos as int) is None,
        },
{
    let q = exec_skip_sp(chars, pos);
    if q >= chars.len() {
        return Option::None;
    }
    if chars[q] == ')' {
        let v: Vec<String> = Vec::new();
        proof {
            assert(v.deep_view() =~= Seq::<Seq<char>>::empty());
        }
        return Option::Some((v, q + 1));
    }
    if !ident_start_char(chars[q]) {
        return Option::None;
    }
    let e = exec_scan_ident_end(chars, q);
    if keyword_at(chars, q, e) {
        return Option::None;
    }
    if e <= pos || e > chars.len() {
        return Option::None;
    }
    let w = text_of(src, chars, q, e);
    let ghost ws = w@;
    let mut acc: Vec<String> = Vec::new();
    acc.push(w);
    proof {
        assert(acc.deep_view() =~= seq![ws]);
    }
    exec_parse_params_rest(src, chars, e, acc)
}

/// The start of the integer digit run `[pos, e)` with its leading zeros
/// dropped, down to a single digit.
fn trim_int_start(chars: &Vec<char>, pos: usize, e: usize) -> (ts: usize)
    requires
        pos <= e <= chars@.len(),
    ensures
        pos <= ts <= e,
        trim_leading_zeros(chars@.subrange(pos as int, e as int)) == chars@.subrange(
            ts as int,
            e as int,
        ),
{
    let mut ts: usize = pos;
    while e - ts > 1 && chars[ts] == '0'
        invariant
            pos <= ts <= e,
            e <= chars@.len(),
            trim_leading_zeros(chars@.subrange(pos as int, e as int)) == trim_leading_zeros(
                chars@.subrange(ts as int, e as int),
            ),
        decreases e - ts,
    {
        proof {
            assert(chars@.subrange(ts as int, e as int).subrange(1, e - ts) =~= chars@.subrange(
                ts + 1,
                e as int,
            ));
        }
        ts = ts + 1;
    }
    ts
}

/// The end of the fractional digit run `[fs, e2)` with its trailing zeros
/// dropped, possibly down to nothing.
fn trim_frac_end(chars: &Vec<char>, fs: usize, e2: usize) -> (fe: usize)
    requires
        fs <= e2 <= chars@.len(),
    ensures
        fs <= fe <= e2,
        trim_trailing_zeros(chars@.subrange(fs as int, e2 as int)) == chars@.subrange(
            fs as int,
            fe as int,
        ),
{
    let mut fe: usize = e2;
    while fe > fs && chars[fe - 1] == '0'
        invariant
            fs <= fe <= e2,
            e2 <= chars@.len(),
            trim_trailing_zeros(chars@.subrange(fs as int, e2 as int)) == trim_trailing_zeros(
                chars@.subrange(fs as int, fe as int),
            ),
        decreases fe,
    {
        proof {
            assert(chars@.subrange(fs as int, fe as int).subrange(0, fe - fs - 1)
                =~= chars@.subrange(fs as int, fe - 1));
        }
        fe = fe - 1;
    }
    fe
}


fn exec_parse_term(src: &str, chars: &Vec<char>, pos: usize) -> (r: Option<(Expression, usize)>)
    requires
        chars@ == src@,
        pos <= chars@.len(),
    ensures
        expr_result_matches(r, parse_term(chars@, pos as int), chars@),
    decreases chars@.len() - pos, 2int,
{
    if pos >= chars.len() {
        return Option::None;
    }
    let c = chars[pos];
    if digit_char(c) {
        let e = exec_scan_digits_end(chars, pos);
        if e < chars.len() && e + 1 < chars.len() && chars[e] == '.' && digit_char(chars[e + 1]) {
            let e2 = exec_scan_digits_end(chars, e + 1);
            let ts = trim_int_start(chars, pos, e);
            let fe = trim_frac_end(chars, e + 1, e2);
            if fe == e + 1 {
                let text = text_of(src, chars, ts, e);
                proof {
                    assert(chars@.subrange(e + 1, e + 1).len() == 0);
                }
                Option::Some((Expression::Number(text), e2))
            } else {
                let text = text_of(src, chars, ts, fe);
                proof {
                    reveal_strlit(".");
                    assert(chars@.subrange(ts as int, fe as int) =~= chars@.subrange(
                        ts as int,
                        e as int,
                    ) + "."@ + chars@.subrange(e + 1, fe as int));
                }
                Option::Some((Expression::Number(text), e2))
            }
        } else {
            let ts = trim_int_start(chars, pos, e);
            let text = text_of(src, chars, ts, e);
            proof {
                assert(trim_trailing_zeros(Seq::<char>::empty()).len() == 0);
            }
            Option::Some((Expression::Number(text), e))
        }
    } else if c == '"' {
        match exec_scan_string_end(chars, pos + 1) {
            Option::Some(endq) => {
                let contents = text_of(src, chars, pos + 1, endq);
                Option::Some((Expression::String(contents), endq + 1))
            },
            Option::None => Option::None,
        }
    } else if c == '(' {
        let r2 = exec_skip_sp(chars, pos + 1);
        match exec_parse_binop(src, chars, r2, 1) {
            Option::Some((inner, p1)) => {
                let q = exec_skip_sp(chars, p1);
                if q < chars.len() && chars[q] == ')' {
                    Option::Some((inner, q + 1))
                } else {
                    Option::None
                }
            },
            Option::None => Option::None,
        }
    } else if ident_start_char(c) {
        let e = exec_scan_ident_end(chars, pos);
        if word_is(chars, pos, e, "new") {
            let q = exec_skip_sp(chars, e);
            if q >= chars.len() || !ident_start_char(chars[q]) {
                return Option::None;
            }
            let e2 = exec_scan_ident_end(chars, q);
            if keyword_at(chars, q, e2) {
                return Option::None;
            }
            let q2 = exec_skip_sp(chars, e2);
            if q2 >= chars.len() || chars[q2] != '(' {
                return Option::None;
            }
            if q2 + 1 <= pos {
                return Option::None;
            }
            let name = text_of(src, chars, q, e2);
            match exec_parse_args(src, chars, q2 + 1) {
                Option::Some((args, p1)) => Option::Some(
                    (Expression::ClassInstantiation { class_name: name, arguments: args }, p1),
                ),
                Option::None => Option::None,
            }
        } else if keyword_at(chars, pos, e) {
            Option::None
        } else {
            match exec_parse_dotted(src, chars, pos) {
                Option::Some((parts, e2)) => {
                    if e2 < chars.len() && chars[e2] == '(' {
                        if e2 + 1 <= pos {
                            return Option::None;
                        }
                        let name = exec_join_dotted(&parts);
                        match exec_parse_args(src, chars, e2 + 1) {
                            Option::Some((args, p1)) => Option::Some(
                                (Expression::FunctionCall { name, args }, p1),
                            ),
                            Option::None => Option::None,
                        }
                    } else {
                        let ex = exec_member_chain(&parts);
                        Option::Some((ex, e2))
                    }
                },
                Option::None => Option::None,
            }
        }
    } else {
        Option::None
    }
}

fn exec_parse_binop(src: &str, chars: &Vec<char>, pos: usize, tier: u8) -> (r: Option<
    (Expression, usize),
>)
    requires
        chars@ == src@,
        pos <= chars@.len(),
        1 <= tier <= 3,
    ensures
        expr_result_matches(r, parse_binop(chars@, pos as int, tier as int), chars@),
    decreases chars@.len() - pos, tier_rank(tier as int),
{
    let base = if tier >= 3 {
        exec_parse_term(src, chars, pos)
    } else {
        exec_parse_binop(src, chars, pos, tier + 1)
    };
    match base {
        Option::Some((lhs, p1)) => {
            if p1 <= pos || p1 > chars.len() {
                return Option::None;
            }
            exec_parse_binop_rest(src, chars, p1, tier, lhs)
        },
        Option::None => Option::None,
    }
}

fn exec_parse_binop_rest(src: &str, chars: &Vec<char>, pos: usize, tier: u8, lhs: Expression) -> (r:
    Option<(Expression, usize)>)
    requires
        chars@ == src@,
        pos <= chars@.len(),
        1 <= tier <= 3,
    ensures
        expr_result_matches(
            r,
            parse_binop_rest(chars@, pos as int, tier as int, view_expression(lhs)),
            chars@,
        ),
    decreases chars@.len() - pos, 0int,
{
    let q = exec_skip_sp(chars, pos);
    match exec_op_token_at(chars, q, tier) {
        Option::Some((op, oplen)) => {
            let n = chars.len();
            proof {
                assert(q + oplen <= n);
            }
            let r2 = exec_skip_sp(chars, q + oplen);
            if r2 <= pos || r2 > chars.len() {
                return Option::None;
            }
            let rhs_res = if tier >= 3 {
                exec_parse_term(src, chars, r2)
            } else {
                exec_parse_binop(src, chars, r2, tier + 1)
            };
            match rhs_res {
                Option::Some((rhs, p2)) => {
                    if p2 <= pos || p2 > chars.len() {
                        return Option::None;
                    }
                    let newlhs = Expression::BinaryOp {
                        left: Box::new(lhs),
                        operator: op,
                        right: Box::new(rhs),
                    };
                    exec_parse_binop_rest(src, chars, p2, tier, newlhs)
                },
                Option::None => Option::None,
            }
        },
        Option::None => Option::Some((lhs, pos)),
    }
}

fn exec_parse_args(src: &str, chars: &Vec<char>, pos: usize) -> (r: Option<(Vec<Expression>, usize)>)
    requires
        chars@ == src@,
        pos <= chars@.len(),
    ensures
        args_result_matches(r, parse_args(chars@, pos as int), chars@),
    decreases chars@.len() - pos, 6int,
{
    let q = exec_skip_sp(chars, pos);
    if q < chars.len() && chars[q] == ')' {
        let v: Vec<Expression> = Vec::new();
        return Option::Some((v, q + 1));
    }
    match exec_parse_binop(src, chars, q, 1) {
        Option::Some((e0, p1)) => {
            if p1 <= pos || p1 > chars.len() {
                return Option::None;
            }
            let ghost e0s = e0;
            let mut acc: Vec<Expression> = Vec::new();
            acc.push(e0);
            proof {
                assert(acc@ =~= Seq::<Expression>::empty().push(e0s));
                lemma_view_expression_seq_push(Seq::<Expression>::empty(), e0s);
                assert(view_expression_seq(Seq::<Expression>::empty())
                    =~= Seq::<SpecExpression>::empty());
                assert(view_expression_seq(acc@) =~= seq![view_expression(e0s)]);
            }
            exec_parse_args_rest(src, chars, p1, acc)
        },
        Option::None => Option::None,
    }
}

fn exec_parse_args_rest(src: &str, chars: &Vec<char>, pos: usize, acc: Vec<Expression>) -> (r:
    Option<(Vec<Expression>, usize)>)
    requires
        chars@ == src@,
        pos <= chars@.len(),
    ensures
        args_result_matches(
            r,
            parse_args_rest(chars@, pos as int, view_expression_seq(acc@)),
            chars@,
        ),
    decreases chars@.len() - pos, 0int,
{
    let q = exec_skip_sp(chars, pos);
    if q < chars.len() && chars[q] == ')' {
        return Option::Some((acc, q + 1));
    }
    if q < chars.len() && chars[q] == ',' {
        let r2 = exec_skip_sp(chars, q + 1);
        if r2 <= pos || r2 > chars.len() {
            return Option::None;
        }
        match exec_parse_binop(src, chars, r2, 1) {
            Option::Some((e1, p2)) => {
                if p2 <= pos || p2 > chars.len() {
                    return Option::None;
                }
                let ghost accv = acc@;
                let ghost e1s = e1;
                let mut acc2 = acc;
                acc2.push(e1);
                proof {
                    lemma_view_expression_seq_push(accv, e1s);
                }
                exec_parse_args_rest(src, chars, p2, acc2)
            },
            Option::None => Option::None,
        }
    } else {
        Option::None
    }
}


fn exec_parse_expr_then_block(src: &str, chars: &Vec<char>, pos: usize, start: usize) -> (r: Option<
    (Expression, Block, usize),
>)
    requires
        chars@ == src@,
        pos <= chars@.len(),
        start <= chars@.len(),
    ensures
        etb_result_matches(r, parse_expr_then_block(chars@, pos as int, start as int), chars@),
    decreases chars@.len() - pos, 6int,
{
    let q = exec_skip_sp(chars, start);
    if q <= pos {
        return Option::None;
    }
    match exec_parse_binop(src, chars, q, 1) {
        Option::Some((cond, p1)) => {
            let q2 = exec_skip_sp(chars, p1);
            if q2 <= pos {
                return Option::None;
            }
            match exec_parse_block(src, chars, q2) {
                Option::Some((body, p2)) => Option::Some((cond, body, p2)),
                Option::None => Option::None,
            }
        },
        Option::None => Option::None,
    }
}

fn exec_parse_statement(src: &str, chars: &Vec<char>, pos: usize) -> (r: Option<(Statement, usize)>)
    requires
        chars@ == src@,
        pos <= chars@.len(),
    ensures
        stmt_result_matches(r, parse_statement(chars@, pos as int), chars@),
    decreases chars@.len() - pos, 7int,
{
    if pos >= chars.len() || !ident_start_char(chars[pos]) {
        return Option::None;
    }
    let e = exec_scan_ident_end(chars, pos);
    if word_is(chars, pos, e, "if") {
        match exec_parse_expr_then_block(src, chars, pos, e) {
            Option::Some((cond, cons, p2)) => {
                let q3 = exec_skip_blank(chars, p2);
                if q3 <= pos {
                    return Option::None;
                }
                let e3 = exec_scan_ident_end(chars, q3);
                let has_else = q3 < chars.len() && ident_start_char(chars[q3]) && word_is(
                    chars,
                    q3,
                    e3,
                    "else",
                );
                if has_else {
                    let q4 = exec_skip_sp(chars, e3);
                    if q4 <= pos {
                        return Option::None;
                    }
                    match exec_parse_block(src, chars, q4) {
                        Option::Some((alt, p3)) => Option::Some(
                            (
                                Statement::If {
                                    condition: cond,
                                    consequence: cons,
                                    alternative: Option::Some(alt),
                                },
                                p3,
                            ),
                        ),
                        Option::None => Option::None,
                    }
                } else {
                    Option::Some(
                        (
                            Statement::If {
                                condition: cond,
                                consequence: cons,
                                alternative: Option::None,
                            },
                            p2,
                        ),
                    )
                }
            },
            Option::None => Option::None,
        }
    } else if word_is(chars, pos, e, "for") {
        match exec_parse_expr_then_block(src, chars, pos, e) {
            Option::Some((iter, body, p2)) => Option::Some(
                (Statement::For { iterator: iter, body }, p2),
            ),
            Option::None => Option::None,
        }
    } else if word_is(chars, pos, e, "while") {
        match exec_parse_expr_then_block(src, chars, pos, e) {
            Option::Some((cond, body, p2)) => Option::Some(
                (Statement::While { condition: cond, body }, p2),
            ),
            Option::None => Option::None,
        }
    } else if word_is(chars, pos, e, "def") {
        let q = exec_skip_sp(chars, e);
        if q >= chars.len() || !ident_start_char(chars[q]) {
            return Option::None;
        }
        let e2 = exec_scan_ident_end(chars, q);
        if keyword_at(chars, q, e2) {
            return Option::None;
        }
        let q2 = exec_skip_sp(chars, e2);
        if q2 >= chars.len() || chars[q2] != '(' {
            return Option::None;
        }
        let name = text_of(src, chars, q, e2);
        match exec_parse_params(src, chars, q2 + 1) {
            Option::Some((ps, p1)) => {
                let q3 = exec_skip_sp(chars, p1);
                if q3 <= pos {
                    return Option::None;
                }
                match exec_parse_block(src, chars, q3) {
                    Option::Some((body, p2)) => Option::Some(
                        (Statement::FunctionDef { name, args: ps, body }, p2),
                    ),
                    Option::None => Option::None,
                }
            },
            Option::None => Option::None,
        }
    } else if word_is(chars, pos, e, "class") {
        let q = exec_skip_sp(chars, e);
        if q >= chars.len() || !ident_start_char(chars[q]) {
            return Option::None;
        }
        let e2 = exec_scan_ident_end(chars, q);
        if keyword_at(chars, q, e2) {
            return Option::None;
        }
        let q2 = exec_skip_sp(chars, e2);
        if q2 <= pos {
            return Option::None;
        }
        let name = text_of(src, chars, q, e2);
        match exec_parse_block(src, chars, q2) {
            Option::Some((body, p2)) => Option::Some((Statement::ClassDef { name, body }, p2)),
            Option::None => Option::None,
        }
    } else if word_is(chars, pos, e, "print") {
        let q = exec_skip_sp(chars, e);
        if q >= chars.len() || chars[q] != '(' {
            return Option::None;
        }
        let r2 = exec_skip_sp(chars, q + 1);
        if r2 <= pos {
            return Option::None;
        }
        match exec_parse_binop(src, chars, r2, 1) {
            Option::Some((content, p1)) => {
                let q2 = exec_skip_sp(chars, p1);
                if q2 < chars.len() && chars[q2] == ')' {
                    Option::Some((Statement::Print { content }, q2 + 1))
                } else {
                    Option::None
                }
            },
            Option::None => Option::None,
        }
    } else if word_is(chars, pos, e, "return") {
        let q = exec_skip_sp(chars, e);
        if q <= pos {
            return Option::None;
        }
        match exec_parse_binop(src, chars, q, 1) {
            Option::Some((value, p1)) => Option::Some((Statement::Return { value }, p1)),
            Option::None => Option::None,
        }
    } else if word_is(chars, pos, e, "new") {
        let q = exec_skip_sp(chars, e);
        if q >= chars.len() || !ident_start_char(chars[q]) {
            return Option::None;
        }
        let e2 = exec_scan_ident_end(chars, q);
        if keyword_at(chars, q, e2) {
            return Option::None;
        }
        let q2 = exec_skip_sp(chars, e2);
        if q2 >= chars.len() || chars[q2] != '(' {
            return Option::None;
        }
        if q2 + 1 <= pos {
            return Option::None;
        }
        let name = text_of(src, chars, q, e2);
        match exec_parse_args(src, chars, q2 + 1) {
            Option::Some((args, p1)) => Option::Some(
                (Statement::FunctionCall { name, arguments: args }, p1),
            ),
            Option::None => Option::None,
        }
    } else if keyword_at(chars, pos, e) {
        Option::None
    } else {
        match exec_parse_dotted(src, chars, pos) {
            Option::Some((parts, e2)) => {
                if e2 < chars.len() && chars[e2] == '(' {
                    if e2 + 1 <= pos {
                        return Option::None;
                    }
                    let name = exec_join_dotted(&parts);
                    match exec_parse_args(src, chars, e2 + 1) {
                        Option::Some((args, p1)) => Option::Some(
                            (Statement::FunctionCall { name, arguments: args }, p1),
                        ),
                        Option::None => Option::None,
                    }
                } else {
                    let q = exec_skip_sp(chars, e2);
                    let is_assign = q < chars.len() && chars[q] == '=' && !(q + 1 < chars.len()
                        && chars[q + 1] == '=');
                    if is_assign {
                        let r2 = exec_skip_sp(chars, q + 1);
                        if r2 <= pos {
                            return Option::None;
                        }
                        let name = exec_join_dotted(&parts);
                        match exec_parse_binop(src, chars, r2, 1) {
                            Option::Some((value, p1)) => Option::Some(
                                (Statement::Assignment { name, value }, p1),
                            ),
                            Option::None => Option::None,
                        }
                    } else {
                        Option::None
                    }
                }
            },
            Option::None => Option::None,
        }
    }
}

fn exec_parse_block(src: &str, chars: &Vec<char>, pos: usize) -> (r: Option<(Block, usize)>)
    requires
        chars@ == src@,
        pos <= chars@.len(),
    ensures
        block_result_matches(r, parse_block(chars@, pos as int), chars@),
    decreases chars@.len() - pos, 6int,
{
    if pos < chars.len() && chars[pos] == '{' {
        let acc: Vec<Statement> = Vec::new();
        proof {
            assert(acc@ =~= Seq::<Statement>::empty());
            assert(view_statement_seq(Seq::<Statement>::empty()) =~= Seq::<SpecStatement>::empty());
        }
        match exec_parse_stmts(src, chars, pos + 1, true, acc) {
            Option::Some((ss, p)) => {
                if p < chars.len() && chars[p] == '}' {
                    Option::Some((Block { statements: ss }, p + 1))
                } else {
                    Option::None
                }
            },
            Option::None => Option::None,
        }
    } else {
        Option::None
    }
}

fn exec_parse_stmts(src: &str, chars: &Vec<char>, pos: usize, in_block: bool, acc: Vec<
    Statement,
>) -> (r: Option<(Vec<Statement>, usize)>)
    requires
        chars@ == src@,
        pos <= chars@.len(),
    ensures
        stmts_result_matches(
            r,
            parse_stmts(chars@, pos as int, in_block, view_statement_seq(acc@)),
            chars@,
        ),
    decreases chars@.len() - pos, 8int,
{
    let q = exec_skip_blank(chars, pos);
    if q >= chars.len() {
        if in_block {
            return Option::None;
        } else {
            return Option::Some((acc, q));
        }
    }
    if in_block && chars[q] == '}' {
        return Option::Some((acc, q));
    }
    match exec_parse_statement(src, chars, q) {
        Option::Some((st, p1)) => {
            let t = exec_skip_sp(chars, p1);
            if t <= pos {
                return Option::None;
            }
            if t >= chars.len() {
                if in_block {
                    return Option::None;
                }
                let ghost accv = acc@;
                let ghost sts = st;
                let mut acc2 = acc;
                acc2.push(st);
                proof {
                    lemma_view_statement_seq_push(accv, sts);
                }
                return Option::Some((acc2, t));
            }
            if chars[t] == '\n' {
                let ghost accv = acc@;
                let ghost sts = st;
                let mut acc2 = acc;
                acc2.push(st);
                proof {
                    lemma_view_statement_seq_push(accv, sts);
                }
                exec_parse_stmts(src, chars, t + 1, in_block, acc2)
            } else if in_block && chars[t] == '}' {
                let ghost accv = acc@;
                let ghost sts = st;
                let mut acc2 = acc;
                acc2.push(st);
                proof {
                    lemma_view_statement_seq_push(accv, sts);
                }
                Option::Some((acc2, t))
            } else {
                Option::None
            }
        },
        Option::None => Option::None,
    }
}

/// The input text as a vector of its characters.
fn str_chars(input: &str) -> (chars: Vec<char>)
    ensures
        chars@ == input@,
{
    let n = input.unicode_len();
    let mut v: Vec<char> = Vec::new();
    let mut i: usize = 0;
    while i < n
        invariant
            n == input@.len(),
            0 <= i <= n,
            v@ == input@.subrange(0, i as int),
        decreases n - i,
    {
        let c = input.get_char(i);
        v.push(c);
        proof {
            assert(v@ =~= input@.subrange(0, i + 1));
        }
        i = i + 1;
    }
    proof {
        assert(input@.subrange(0, n as int) =~= input@);
    }
    v
}

/// The parser: a namespace for matching input text against the grammar.
pub struct BythonParser;

impl BythonParser {
    /// Parses the input text and returns its tree. Succeeds exactly on the
    /// texts the grammar accepts, returning the tree the grammar denotes;
    /// everything else is rejected whole with a `SyntaxError` and no tree.
    pub fn parse(input: &str) -> (res: Result<Program, BythonParseError>)
        ensures
            res matches Ok(p) ==> parse_program(input@) == Option::Some(p@),
            res is Ok <==> parse_program(input@) is Some,
            res matches Err(e) ==> e.kind is SyntaxError,
    {
        let chars = str_chars(input);
        let acc: Vec<Statement> = Vec::new();
        proof {
            assert(acc@ =~= Seq::<Statement>::empty());
            assert(view_statement_seq(Seq::<Statement>::empty()) =~= Seq::<SpecStatement>::empty());
        }
        match exec_parse_stmts(input, &chars, 0, false, acc) {
            Option::Some((stmts, _p)) => Result::Ok(Program { statements: stmts }),
            Option::None => Result::Err(BythonParseError { kind: ParseErrorKind::SyntaxError }),
        }
    }
}

/// Parses the input string and returns the AST: `Ok` with the tree the
/// grammar denotes exactly when the text is in the language, otherwise a
/// `SyntaxError` and no tree.
pub fn parse_bython_code(input: &str) -> (res: Result<Program, BythonParseError>)
    ensures
        res matches Ok(p) ==> parse_program(input@) == Option::Some(p@),
        res is Ok <==> parse_program(input@) is Some,
        res matches Err(e) ==> e.kind is SyntaxError,
{
    BythonParser::parse(input)
}

} // verus!



