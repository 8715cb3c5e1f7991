//! The grammar: the formal rule set of the input language, written as
//! spec-level parsing functions over character sequences.
//!
//! The functions here define, position by position, what text the language
//! accepts and what tree it denotes; `parse_bython_code` is proved to return
//! exactly `parse_program` of its input. The language is brace-scoped:
//! blocks are `{ ... }`, statements are separated by line breaks (or end at
//! a closing brace), and indentation plays no role on the input side.
//!
//! Tokens: identifiers are letters or underscores followed by letters,
//! digits or underscores (which covers the reserved dunder form); numbers
//! are decimal, digits with an optional fractional part; strings are
//! double-quoted with no escape sequences, so a delimiter can never occur
//! inside the contents; keywords are reserved and never parse as
//! identifiers. Class instantiation is marked by the `new` keyword:
//! `new Foo(args)`. Member access binds idents with `.` and no intervening
//! spaces, and a call's `(` follows its name directly.
//!
//! Binary operators bind left-associatively at three precedence tiers,
//! lowest first: equality and relational (`==` `!=` `<` `>` `<=` `>=`),
//! additive (`+` `-`), multiplicative (`*` `/`).
//!
//! Every recursive rule re-checks that the position it advances to lies
//! strictly beyond the one it came from and inside the input; a rule can
//! only consume text, so the checks never fail on any reachable path, and
//! they make termination evident.

use vstd::prelude::*;
use crate::ast::Operator;
use crate::ast::SpecExpression;
use crate::ast::SpecStatement;

verus! {

/// Space inside a line: blank, tab, or carriage return.
pub open spec fn is_space_char(c: char) -> bool {
    c == ' ' || c == '\t' || c == '\r'
}

/// Space or a line break.
pub open spec fn is_blank_char(c: char) -> bool {
    is_space_char(c) || c == '\n'
}

pub open spec fn is_digit_char(c: char) -> bool {
    48 <= c as u32 <= 57
}

pub open spec fn is_ident_start_char(c: char) -> bool {
    (97 <= c as u32 <= 122) || (65 <= c as u32 <= 90) || c == '_'
}

pub open spec fn is_ident_char(c: char) -> bool {
    is_ident_start_char(c) || is_digit_char(c)
}

/// The reserved words of the language; none of them can be an identifier.
pub open spec fn is_keyword(w: Seq<char>) -> bool {
    ||| w == "if"@
    ||| w == "else"@
    ||| w == "for"@
    ||| w == "while"@
    ||| w == "def"@
    ||| w == "class"@
    ||| w == "print"@
    ||| w == "return"@
    ||| w == "and"@
    ||| w == "or"@
    ||| w == "not"@
    ||| w == "new"@
}

/// The first position at or after `pos` holding no in-line space.
pub open spec fn skip_sp(s: Seq<char>, pos: int) -> int
    decreases s.len() - pos,
{
    if pos < s.len() && is_space_char(s[pos]) {
        skip_sp(s, pos + 1)
    } else {
        pos
    }
}

/// The first position at or after `pos` holding neither space nor line break.
pub open spec fn skip_blank(s: Seq<char>, pos: int) -> int
    decreases s.len() - pos,
{
    if pos < s.len() && is_blank_char(s[pos]) {
        skip_blank(s, pos + 1)
    } else {
        pos
    }
}

/// The end of the identifier-character run starting at `pos`.
pub open spec fn scan_ident_end(s: Seq<char>, pos: int) -> int
    decreases s.len() - pos,
{
    if pos < s.len() && is_ident_char(s[pos]) {
        scan_ident_end(s, pos + 1)
    } else {
        pos
    }
}

/// The end of the digit run starting at `pos`.
pub open spec fn scan_digits_end(s: Seq<char>, pos: int) -> int
    decreases s.len() - pos,
{
    if pos < s.len() && is_digit_char(s[pos]) {
        scan_digits_end(s, pos + 1)
    } else {
        pos
    }
}

/// The position of the closing delimiter of a string whose contents start
/// at `pos`, if one comes before the line ends.
pub open spec fn scan_string_end(s: Seq<char>, pos: int) -> Option<int>
    decreases s.len() - pos,
{
    if pos >= s.len() {
        Option::None
    } else if s[pos] == '"' {
        Option::Some(pos)
    } else if s[pos] == '\n' {
        Option::None
    } else {
        scan_string_end(s, pos + 1)
    }
}

/// The integer part of a literal with its leading zeros dropped, down to a
/// single digit.
pub open spec fn trim_leading_zeros(s: Seq<char>) -> Seq<char>
    decreases s.len(),
{
    if s.len() > 1 && s[0] == '0' {
        trim_leading_zeros(s.subrange(1, s.len() as int))
    } else {
        s
    }
}

/// The fractional part of a literal with its trailing zeros dropped,
/// possibly to nothing.
pub open spec fn trim_trailing_zeros(s: Seq<char>) -> Seq<char>
    decreases s.len(),
{
    if s.len() > 0 && s[s.len() - 1] == '0' {
        trim_trailing_zeros(s.subrange(0, s.len() - 1))
    } else {
        s
    }
}

/// The canonical decimal text of a number literal with the given integer
/// and fractional digit runs: no leading zeros beyond a single `0`, no
/// trailing fractional zeros, and no point when the fraction is empty.
pub open spec fn canon_number(ip: Seq<char>, fp: Seq<char>) -> Seq<char> {
    let i = trim_leading_zeros(ip);
    let f = trim_trailing_zeros(fp);
    if f.len() == 0 {
        i
    } else {
        i + "."@ + f
    }
}

/// The operator token of the given precedence tier at `pos`, with its
/// length. Two-character tokens are matched before their one-character
/// prefixes.
pub open spec fn op_token_at(s: Seq<char>, pos: int, tier: int) -> Option<(Operator, int)> {
    if tier == 1 {
        if pos + 2 <= s.len() && s[pos] == '=' && s[pos + 1] == '=' {
            Option::Some((Operator::Eq, 2))
        } else if pos + 2 <= s.len() && s[pos] == '!' && s[pos + 1] == '=' {
            Option::Some((Operator::NotEq, 2))
        } else if pos + 2 <= s.len() && s[pos] == '<' && s[pos + 1] == '=' {
            Option::Some((Operator::LtEq, 2))
        } else if pos + 2 <= s.len() && s[pos] == '>' && s[pos + 1] == '=' {
            Option::Some((Operator::GtEq, 2))
        } else if pos < s.len() && s[pos] == '<' {
            Option::Some((Operator::Lt, 1))
        } else if pos < s.len() && s[pos] == '>' {
            Option::Some((Operator::Gt, 1))
        } else {
            Option::None
        }
    } else if tier == 2 {
        if pos < s.len() && s[pos] == '+' {
            Option::Some((Operator::Add, 1))
        } else if pos < s.len() && s[pos] == '-' {
            Option::Some((Operator::Sub, 1))
        } else {
            Option::None
        }
    } else {
        if pos < s.len() && s[pos] == '*' {
            Option::Some((Operator::Mul, 1))
        } else if pos < s.len() && s[pos] == '/' {
            Option::Some((Operator::Div, 1))
        } else {
            Option::None
        }
    }
}

/// A dotted name: identifiers joined by `.` with no intervening space,
/// none of them a keyword. Yields the parts and the end position.
pub open spec fn parse_dotted(s: Seq<char>, pos: int) -> Option<(Seq<Seq<char>>, int)>
    decreases s.len() - pos,
{
    if pos < s.len() && is_ident_start_char(s[pos]) {
        let e = scan_ident_end(s, pos);
        if e < pos {
            Option::None
        } else {
            let w = s.subrange(pos, e);
            if is_keyword(w) {
                Option::None
            } else if e < s.len() && s[e] == '.' {
                match parse_dotted(s, e + 1) {
                    Option::Some((parts, p2)) => Option::Some((seq![w] + parts, p2)),
                    Option::None => Option::None,
                }
            } else {
                Option::Some((seq![w], e))
            }
        }
    } else {
        Option::None
    }
}

/// The parts of a dotted name joined back with `.`: the flat name a call
/// statement or call expression carries.
pub open spec fn join_dotted(parts: Seq<Seq<char>>) -> Seq<char>
    decreases parts.len(),
{
    if parts.len() == 0 {
        Seq::empty()
    } else if parts.len() == 1 {
        parts[0]
    } else {
        join_dotted(parts.subrange(0, parts.len() - 1)) + "."@ + parts[parts.len() - 1]
    }
}

/// The member-access tree a dotted name denotes when it is not a call:
/// left-nested accesses rooted at the first identifier.
pub open spec fn member_chain(parts: Seq<Seq<char>>) -> SpecExpression
    decreases parts.len(),
{
    if parts.len() <= 1 {
        SpecExpression::Identifier(
            if parts.len() == 1 {
                parts[0]
            } else {
                Seq::empty()
            },
        )
    } else {
        SpecExpression::MemberAccess {
            object: Box::new(member_chain(parts.subrange(0, parts.len() - 1))),
            member: parts[parts.len() - 1],
        }
    }
}

/// A parameter-name list after its opening parenthesis: zero or more
/// comma-separated identifiers, then the closing parenthesis.
pub open spec fn parse_params(s: Seq<char>, pos: int) -> Option<(Seq<Seq<char>>, int)>
    decreases s.len() - pos, 1int,
{
    let q = skip_sp(s, pos);
    if q < pos || q >= s.len() {
        Option::None
    } else if s[q] == ')' {
        Option::Some((Seq::empty(), q + 1))
    } else if is_ident_start_char(s[q]) {
        let e = scan_ident_end(s, q);
        let w = s.subrange(q, e);
        if is_keyword(w) {
            Option::None
        } else if e <= pos || e > s.len() {
            Option::None
        } else {
            parse_params_rest(s, e, seq![w])
        }
    } else {
        Option::None
    }
}

pub open spec fn parse_params_rest(s: Seq<char>, pos: int, acc: Seq<Seq<char>>) -> Option<
    (Seq<Seq<char>>, int),
>
    decreases s.len() - pos, 0int,
{
    let q = skip_sp(s, pos);
    if q < pos || q >= s.len() {
        Option::None
    } else if s[q] == ')' {
        Option::Some((acc, q + 1))
    } else if s[q] == ',' {
        let r = skip_sp(s, q + 1);
        if r >= s.len() || !is_ident_start_char(s[r]) {
            Option::None
        } else {
            let e = scan_ident_end(s, r);
            let w = s.subrange(r, e);
            if is_keyword(w) {
                Option::None
            } else if e <= pos || e > s.len() {
                Option::None
            } else {
                parse_params_rest(s, e, acc.push(w))
            }
        }
    } else {
        Option::None
    }
}

/// An expression at the given precedence tier: the next-tighter tier,
/// followed by any number of this tier's operators, folded to the left.
pub open spec fn tier_rank(tier: int) -> int {
    if tier < 3 {
        6 - tier
    } else {
        3
    }
}

pub open spec fn parse_binop(s: Seq<char>, pos: int, tier: int) -> Option<(SpecExpression, int)>
    decreases s.len() - pos, tier_rank(tier),
{
    let base = if tier >= 3 {
        parse_term(s, pos)
    } else {
        parse_binop(s, pos, tier + 1)
    };
    match base {
        Option::Some((lhs, p1)) => {
            if p1 <= pos || p1 > s.len() {
                Option::None
            } else {
                parse_binop_rest(s, p1, tier, lhs)
            }
        },
        Option::None => Option::None,
    }
}

pub open spec fn parse_binop_rest(s: Seq<char>, pos: int, tier: int, lhs: SpecExpression) -> Option<
    (SpecExpression, int),
>
    decreases s.len() - pos, 0int,
{
    let q = skip_sp(s, pos);
    if q < pos || q > s.len() {
        Option::None
    } else {
        match op_token_at(s, q, tier) {
            Option::Some((op, oplen)) => {
                let r = skip_sp(s, q + oplen);
                if r <= pos || r > s.len() {
                    Option::None
                } else {
                    let rhs_res = if tier >= 3 {
                        parse_term(s, r)
                    } else {
                        parse_binop(s, r, tier + 1)
                    };
                    match rhs_res {
                        Option::Some((rhs, p2)) => {
                            if p2 <= pos || p2 > s.len() {
                                Option::None
                            } else {
                                parse_binop_rest(
                                    s,
                                    p2,
                                    tier,
                                    SpecExpression::BinaryOp {
                                        left: Box::new(lhs),
                                        operator: op,
                                        right: Box::new(rhs),
                                    },
                                )
                            }
                        },
                        Option::None => Option::None,
                    }
                }
            },
            Option::None => Option::Some((lhs, pos)),
        }
    }
}

/// A primary: a number, a string, a parenthesized expression, a `new`
/// instantiation, a call, a member access, or a plain identifier.
pub open spec fn parse_term(s: Seq<char>, pos: int) -> Option<(SpecExpression, int)>
    decreases s.len() - pos, 2int,
{
    if pos >= s.len() {
        Option::None
    } else if is_digit_char(s[pos]) {
        let e = scan_digits_end(s, pos);
        if e + 1 < s.len() && s[e] == '.' && is_digit_char(s[e + 1]) {
            let e2 = scan_digits_end(s, e + 1);
            Option::Some(
                (
                    SpecExpression::Number(canon_number(s.subrange(pos, e), s.subrange(e + 1, e2))),
                    e2,
                ),
            )
        } else {
            Option::Some(
                (SpecExpression::Number(canon_number(s.subrange(pos, e), Seq::empty())), e),
            )
        }
    } else if s[pos] == '"' {
        match scan_string_end(s, pos + 1) {
            Option::Some(endq) => Option::Some(
                (SpecExpression::String(s.subrange(pos + 1, endq)), endq + 1),
            ),
            Option::None => Option::None,
        }
    } else if s[pos] == '(' {
        let r = skip_sp(s, pos + 1);
        if r <= pos || r > s.len() {
            Option::None
        } else {
            match parse_binop(s, r, 1) {
                Option::Some((inner, p1)) => {
                    let q = skip_sp(s, p1);
                    if q < s.len() && s[q] == ')' {
                        Option::Some((inner, q + 1))
                    } else {
                        Option::None
                    }
                },
                Option::None => Option::None,
            }
        }
    } else if is_ident_start_char(s[pos]) {
        let e = scan_ident_end(s, pos);
        let w = s.subrange(pos, e);
        if w == "new"@ {
            let q = skip_sp(s, e);
            if q >= s.len() || !is_ident_start_char(s[q]) {
                Option::None
            } else {
                let e2 = scan_ident_end(s, q);
                let name = s.subrange(q, e2);
                if is_keyword(name) {
                    Option::None
                } else {
                    let q2 = skip_sp(s, e2);
                    if q2 >= s.len() || s[q2] != '(' {
                        Option::None
                    } else if q2 + 1 <= pos {
                        Option::None
                    } else {
                        match parse_args(s, q2 + 1) {
                            Option::Some((args, p1)) => Option::Some(
                                (
                                    SpecExpression::ClassInstantiation {
                                        class_name: name,
                                        arguments: args,
                                    },
                                    p1,
                                ),
                            ),
                            Option::None => Option::None,
                        }
                    }
                }
            }
        } else if is_keyword(w) {
            Option::None
        } else {
            match parse_dotted(s, pos) {
                Option::Some((parts, e2)) => {
                    if e2 < s.len() && s[e2] == '(' {
                        if e2 + 1 <= pos {
                            Option::None
                        } else {
                            match parse_args(s, e2 + 1) {
                                Option::Some((args, p1)) => Option::Some(
                                    (
                                        SpecExpression::FunctionCall {
                                            name: join_dotted(parts),
                                            args,
                                        },
                                        p1,
                                    ),
                                ),
                                Option::None => Option::None,
                            }
                        }
                    } else {
                        Option::Some((member_chain(parts), e2))
                    }
                },
                Option::None => Option::None,
            }
        }
    } else {
        Option::None
    }
}

/// An argument list after its opening parenthesis: zero or more
/// comma-separated expressions, then the closing parenthesis.
pub open spec fn parse_args(s: Seq<char>, pos: int) -> Option<(Seq<SpecExpression>, int)>
    decreases s.len() - pos, 6int,
{
    let q = skip_sp(s, pos);
    if q < pos || q > s.len() {
        Option::None
    } else if q < s.len() && s[q] == ')' {
        Option::Some((Seq::empty(), q + 1))
    } else {
        match parse_binop(s, q, 1) {
            Option::Some((e0, p1)) => {
                if p1 <= pos || p1 > s.len() {
                    Option::None
                } else {
                    parse_args_rest(s, p1, seq![e0])
                }
            },
            Option::None => Option::None,
        }
    }
}

pub open spec fn parse_args_rest(s: Seq<char>, pos: int, acc: Seq<SpecExpression>) -> Option<
    (Seq<SpecExpression>, int),
>
    decreases s.len() - pos, 0int,
{
    let q = skip_sp(s, pos);
    if q < pos || q > s.len() {
        Option::None
    } else if q < s.len() && s[q] == ')' {
        Option::Some((acc, q + 1))
    } else if q < s.len() && s[q] == ',' {
        let r = skip_sp(s, q + 1);
        if r <= pos || r > s.len() {
            Option::None
        } else {
            match parse_binop(s, r, 1) {
                Option::Some((e1, p2)) => {
                    if p2 <= pos || p2 > s.len() {
                        Option::None
                    } else {
                        parse_args_rest(s, p2, acc.push(e1))
                    }
                },
                Option::None => Option::None,
            }
        }
    } else {
        Option::None
    }
}

/// A keyword-led header's condition expression followed by its block:
/// shared by `if`, `for` and `while`. `pos` is the statement's start,
/// `start` the position just after the keyword.
pub open spec fn parse_expr_then_block(s: Seq<char>, pos: int, start: int) -> Option<
    (SpecExpression, Seq<SpecStatement>, int),
>
    decreases s.len() - pos, 6int,
{
    let q = skip_sp(s, start);
    if q <= pos || q > s.len() {
        Option::None
    } else {
        match parse_binop(s, q, 1) {
            Option::Some((cond, p1)) => {
                let q2 = skip_sp(s, p1);
                if q2 <= pos || q2 > s.len() {
                    Option::None
                } else {
                    match parse_block(s, q2) {
                        Option::Some((body, p2)) => Option::Some((cond, body, p2)),
                        Option::None => Option::None,
                    }
                }
            },
            Option::None => Option::None,
        }
    }
}

/// One statement starting at `pos` (on a non-blank character): keyword-led
/// forms first, otherwise an assignment or a call statement headed by a
/// dotted name.
pub open spec fn parse_statement(s: Seq<char>, pos: int) -> Option<(SpecStatement, int)>
    decreases s.len() - pos, 7int,
{
    if pos >= s.len() || !is_ident_start_char(s[pos]) {
        Option::None
    } else {
        let e = scan_ident_end(s, pos);
        let w = s.subrange(pos, e);
        if w == "if"@ {
            match parse_expr_then_block(s, pos, e) {
                Option::Some((cond, cons, p2)) => {
                    let q3 = skip_blank(s, p2);
                    if q3 <= pos || q3 > s.len() {
                        Option::None
                    } else if q3 < s.len() && is_ident_start_char(s[q3]) && s.subrange(
                        q3,
                        scan_ident_end(s, q3),
                    ) == "else"@ {
                        let e2 = scan_ident_end(s, q3);
                        let q4 = skip_sp(s, e2);
                        if q4 <= pos || q4 > s.len() {
                            Option::None
                        } else {
                            match parse_block(s, q4) {
                                Option::Some((alt, p3)) => Option::Some(
                                    (
                                        SpecStatement::If {
                                            condition: cond,
                                            consequence: cons,
                                            alternative: Option::Some(alt),
                                        },
                                        p3,
                                    ),
                                ),
                                Option::None => Option::None,
                            }
                        }
                    } else {
                        Option::Some(
                            (
                                SpecStatement::If {
                                    condition: cond,
                                    consequence: cons,
                                    alternative: Option::None,
                                },
                                p2,
                            ),
                        )
                    }
                },
                Option::None => Option::None,
            }
        } else if w == "for"@ {
            match parse_expr_then_block(s, pos, e) {
                Option::Some((iter, body, p2)) => Option::Some(
                    (SpecStatement::For { iterator: iter, body }, p2),
                ),
                Option::None => Option::None,
            }
        } else if w == "while"@ {
            match parse_expr_then_block(s, pos, e) {
                Option::Some((cond, body, p2)) => Option::Some(
                    (SpecStatement::While { condition: cond, body }, p2),
                ),
                Option::None => Option::None,
            }
        } else if w == "def"@ {
            let q = skip_sp(s, e);
            if q >= s.len() || !is_ident_start_char(s[q]) {
                Option::None
            } else {
                let e2 = scan_ident_end(s, q);
                let name = s.subrange(q, e2);
                if is_keyword(name) {
                    Option::None
                } else {
                    let q2 = skip_sp(s, e2);
                    if q2 >= s.len() || s[q2] != '(' {
                        Option::None
                    } else {
                        match parse_params(s, q2 + 1) {
                            Option::Some((ps, p1)) => {
                                let q3 = skip_sp(s, p1);
                                if q3 <= pos || q3 > s.len() {
                                    Option::None
                                } else {
                                    match parse_block(s, q3) {
                                        Option::Some((body, p2)) => Option::Some(
                                            (
                                                SpecStatement::FunctionDef {
                                                    name,
                                                    params: ps,
                                                    body,
                                                },
                                                p2,
                                            ),
                                        ),
                                        Option::None => Option::None,
                                    }
                                }
                            },
                            Option::None => Option::None,
                        }
                    }
                }
            }
        } else if w == "class"@ {
            let q = skip_sp(s, e);
            if q >= s.len() || !is_ident_start_char(s[q]) {
                Option::None
            } else {
                let e2 = scan_ident_end(s, q);
                let name = s.subrange(q, e2);
                if is_keyword(name) {
                    Option::None
                } else {
                    let q2 = skip_sp(s, e2);
                    if q2 <= pos || q2 > s.len() {
                        Option::None
                    } else {
                        match parse_block(s, q2) {
                            Option::Some((body, p2)) => Option::Some(
                                (SpecStatement::ClassDef { name, body }, p2),
                            ),
                            Option::None => Option::None,
                        }
                    }
                }
            }
        } else if w == "print"@ {
            let q = skip_sp(s, e);
            if q >= s.len() || s[q] != '(' {
                Option::None
            } else {
                let r = skip_sp(s, q + 1);
                if r <= pos || r > s.len() {
                    Option::None
                } else {
                    match parse_binop(s, r, 1) {
                        Option::Some((content, p1)) => {
                            let q2 = skip_sp(s, p1);
                            if q2 < s.len() && s[q2] == ')' {
                                Option::Some((SpecStatement::Print { content }, q2 + 1))
                            } else {
                                Option::None
                            }
                        },
                        Option::None => Option::None,
                    }
                }
            }
        } else if w == "return"@ {
            let q = skip_sp(s, e);
            if q <= pos || q > s.len() {
                Option::None
            } else {
                match parse_binop(s, q, 1) {
                    Option::Some((value, p1)) => Option::Some(
                        (SpecStatement::Return { value }, p1),
                    ),
                    Option::None => Option::None,
                }
            }
        } else if w == "new"@ {
            // an instantiation in statement position is recorded as a call
            // statement: the two render identically
            let q = skip_sp(s, e);
            if q >= s.len() || !is_ident_start_char(s[q]) {
                Option::None
            } else {
                let e2 = scan_ident_end(s, q);
                let name = s.subrange(q, e2);
                if is_keyword(name) {
                    Option::None
                } else {
                    let q2 = skip_sp(s, e2);
                    if q2 >= s.len() || s[q2] != '(' {
                        Option::None
                    } else if q2 + 1 <= pos {
                        Option::None
                    } else {
                        match parse_args(s, q2 + 1) {
                            Option::Some((args, p1)) => Option::Some(
                                (SpecStatement::FunctionCall { name, arguments: args }, p1),
                            ),
                            Option::None => Option::None,
                        }
                    }
                }
            }
        } else if is_keyword(w) {
            Option::None
        } else {
            match parse_dotted(s, pos) {
                Option::Some((parts, e2)) => {
                    if e2 < s.len() && s[e2] == '(' {
                        if e2 + 1 <= pos {
                            Option::None
                        } else {
                            match parse_args(s, e2 + 1) {
                                Option::Some((args, p1)) => Option::Some(
                                    (
                                        SpecStatement::FunctionCall {
                                            name: join_dotted(parts),
                                            arguments: args,
                                        },
                                        p1,
                                    ),
                                ),
                                Option::None => Option::None,
                            }
                        }
                    } else {
                        let q = skip_sp(s, e2);
                        if q < s.len() && s[q] == '=' && !(q + 1 < s.len() && s[q + 1] == '=') {
                            let r = skip_sp(s, q + 1);
                            if r <= pos || r > s.len() {
                                Option::None
                            } else {
                                match parse_binop(s, r, 1) {
                                    Option::Some((value, p1)) => Option::Some(
                                        (
                                            SpecStatement::Assignment {
                                                name: join_dotted(parts),
                                                value,
                                            },
                                            p1,
                                        ),
                                    ),
                                    Option::None => Option::None,
                                }
                            }
                        } else {
                            Option::None
                        }
                    }
                },
                Option::None => Option::None,
            }
        }
    }
}

/// A brace-delimited block: `{`, the statements inside, `}`.
pub open spec fn parse_block(s: Seq<char>, pos: int) -> Option<(Seq<SpecStatement>, int)>
    decreases s.len() - pos, 6int,
{
    if pos < s.len() && s[pos] == '{' {
        match parse_stmts(s, pos + 1, true, Seq::empty()) {
            Option::Some((ss, p)) => {
                if p < s.len() && s[p] == '}' {
                    Option::Some((ss, p + 1))
                } else {
                    Option::None
                }
            },
            Option::None => Option::None,
        }
    } else {
        Option::None
    }
}

/// A statement sequence: blank lines skipped, each statement closed by a
/// line break, the end of the input (at top level) or the enclosing `}`
/// (inside a block). Inside a block the input must not run out before the
/// closing brace.
pub open spec fn parse_stmts(
    s: Seq<char>,
    pos: int,
    in_block: bool,
    acc: Seq<SpecStatement>,
) -> Option<(Seq<SpecStatement>, int)>
    decreases s.len() - pos, 8int,
{
    let q = skip_blank(s, pos);
    if q < pos || q > s.len() {
        Option::None
    } else if q >= s.len() {
        if in_block {
            Option::None
        } else {
            Option::Some((acc, q))
        }
    } else if in_block && s[q] == '}' {
        Option::Some((acc, q))
    } else {
        match parse_statement(s, q) {
            Option::Some((st, p1)) => {
                let t = skip_sp(s, p1);
                if t <= pos || t > s.len() {
                    Option::None
                } else if t >= s.len() {
                    if in_block {
                        Option::None
                    } else {
                        Option::Some((acc.push(st), t))
                    }
                } else if s[t] == '\n' {
                    parse_stmts(s, t + 1, in_block, acc.push(st))
                } else if in_block && s[t] == '}' {
                    Option::Some((acc.push(st), t))
                } else {
                    Option::None
                }
            },
            Option::None => Option::None,
        }
    }
}

/// The whole input as a program: its top-level statements, with the text
/// fully consumed. This is the grammar's entry point; an input is in the
/// language exactly when it yields `Some`.
pub open spec fn parse_program(s: Seq<char>) -> Option<Seq<SpecStatement>> {
    match parse_stmts(s, 0, false, Seq::empty()) {
        Option::Some((ss, _p)) => Option::Some(ss),
        Option::None => Option::None,
    }
}

} // verus!
