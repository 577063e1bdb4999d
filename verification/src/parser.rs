//! The parser: a recursive descent over the source characters whose result
//! is pinned, function by function, to the specification parser in
//! `grammar` — each executable function returns exactly what its
//! specification counterpart says for the same text and position. `run`
//! then ties the whole pipeline together: the program that executes is the
//! one the source parses to.

use vstd::prelude::*;
use vstd::string::StrSliceExecFns;
use crate::ast::{Expr, Op, Stmt};
use crate::num::chars_to_string;
use crate::eval::{exec_program, out_model, spec_drive, DriveR, RunOutcome};
use crate::grammar::{
    expr_model, exprs_model, is_alpha_char, lemma_exprs_model_push,
    lemma_stmts_model_push, lemma_strs_model_push, parses_to, spec_expect_char,
    spec_expect_ident, spec_parse_additive, spec_parse_additive_rest, spec_parse_args,
    spec_parse_args_rest, spec_parse_block, spec_parse_block_items, spec_parse_expr,
    spec_parse_params, spec_parse_params_rest, spec_parse_primary, spec_parse_program,
    spec_parse_program_items, spec_parse_stmt, spec_parse_term, spec_parse_term_rest,
    spec_read_int, spec_read_int_from, spec_read_string, spec_read_string_from, spec_read_word,
    spec_read_word_from, spec_skip_ws, stmt_model, stmts_model, strs_model, PErrM,
};

verus! {

/// Outcome of parsing a source text.
#[derive(Debug)]
pub enum ParseOutcome {
    /// The statement sequence of a well-formed program.
    Program(Vec<Stmt>),
    /// The source is malformed; the message names the offending position.
    /// This is the sole recoverable error path.
    Syntax(String),
    /// An integer literal in the source does not fit in an `i64`; running
    /// such a source is fatal rather than a reportable syntax error.
    IntOutOfRange,
}

/// Internal parse fault: a malformed position, or an oversized literal.
enum PErr {
    Syntax(usize),
    Range,
}

/// The model of a parse fault.
spec fn perr_model(e: PErr) -> PErrM {
    match e {
        PErr::Syntax(p) => PErrM::SyntaxM(p as int),
        PErr::Range => PErrM::RangeM,
    }
}

/// Whitespace between tokens.
fn is_space(c: char) -> (b: bool)
    ensures
        b == crate::grammar::is_space_char(c),
{
    c == ' ' || c == '\t' || c == '\r' || c == '\n'
}

fn is_alpha(c: char) -> (b: bool)
    ensures
        b == is_alpha_char(c),
{
    ('a' <= c && c <= 'z') || ('A' <= c && c <= 'Z') || c == '_'
}

fn is_digit(c: char) -> (b: bool)
    ensures
        b == crate::num::is_digit_char(c),
{
    '0' <= c && c <= '9'
}

/// Advances past whitespace.
fn skip_ws(src: &Vec<char>, pos: usize) -> (r: usize)
    requires
        pos <= src@.len(),
    ensures
        pos <= r <= src@.len(),
        r as int == spec_skip_ws(src@, pos as int),
{
    let mut p = pos;
    while p < src.len() && is_space(src[p])
        invariant
            pos <= p <= src@.len(),
            spec_skip_ws(src@, pos as int) == spec_skip_ws(src@, p as int),
        decreases src@.len() - p,
    {
        p = p + 1;
    }
    p
}

/// Reads an identifier or keyword starting at an identifier character.
fn read_word(src: &Vec<char>, pos: usize) -> (r: (String, usize))
    requires
        pos < src@.len(),
        is_alpha_char(src@[pos as int]),
    ensures
        pos < r.1 <= src@.len(),
        r.0@ == spec_read_word(src@, pos as int).0,
        r.1 as int == spec_read_word(src@, pos as int).1,
{
    let mut p = pos;
    let mut cs: Vec<char> = Vec::new();
    while p < src.len() && (is_alpha(src[p]) || is_digit(src[p]))
        invariant
            pos <= p <= src@.len(),
            spec_read_word_from(src@, pos as int, Seq::empty()) == spec_read_word_from(
                src@,
                p as int,
                cs@,
            ),
        decreases src@.len() - p,
    {
        cs.push(src[p]);
        p = p + 1;
    }
    (chars_to_string(&cs), p)
}

/// Reads an integer literal starting at a digit.
fn read_int(src: &Vec<char>, pos: usize) -> (r: Result<(i64, usize), PErr>)
    requires
        pos < src@.len(),
        crate::num::is_digit_char(src@[pos as int]),
    ensures
        (r matches Ok(t) ==> pos < t.1 <= src@.len()),
        (match (r, spec_read_int(src@, pos as int)) {
            (Ok(t), Ok(tm)) => t.0 as int == tm.0 && t.1 as int == tm.1,
            (Err(e1), Err(e2)) => perr_model(e1) == e2,
            _ => false,
        }),
{
    let mut p = pos;
    let mut acc: i64 = 0;
    while p < src.len() && is_digit(src[p])
        invariant
            pos <= p <= src@.len(),
            0 <= acc,
            spec_read_int_from(src@, pos as int, 0) == spec_read_int_from(
                src@,
                p as int,
                acc as int,
            ),
        decreases src@.len() - p,
    {
        let u = src[p] as u32;
        let d = (u - ('0' as u32)) as i64;
        let a1 = match acc.checked_mul(10) {
            Some(a) => a,
            None => {
                return Err(PErr::Range);
            },
        };
        acc = match a1.checked_add(d) {
            Some(a) => a,
            None => {
                return Err(PErr::Range);
            },
        };
        p = p + 1;
    }
    if p == pos {
        return Err(PErr::Syntax(pos));
    }
    Ok((acc, p))
}

/// Reads a string literal starting at its opening quote; the content
/// between the quotes is taken verbatim.
fn read_string_lit(src: &Vec<char>, pos: usize) -> (r: Result<(String, usize), PErr>)
    requires
        pos < src@.len(),
    ensures
        (r matches Ok(t) ==> pos < t.1 <= src@.len()),
        (match (r, spec_read_string(src@, pos as int)) {
            (Ok(t), Ok(tm)) => t.0@ == tm.0 && t.1 as int == tm.1,
            (Err(e1), Err(e2)) => perr_model(e1) == e2,
            _ => false,
        }),
{
    let n = src.len();
    assert(pos < n);
    let mut p = pos + 1;
    let mut cs: Vec<char> = Vec::new();
    while p < src.len() && src[p] != '"'
        invariant
            pos < p <= src@.len(),
            spec_read_string_from(src@, pos as int + 1, Seq::empty()) == spec_read_string_from(
                src@,
                p as int,
                cs@,
            ),
        decreases src@.len() - p,
    {
        cs.push(src[p]);
        p = p + 1;
    }
    if p >= src.len() {
        return Err(PErr::Syntax(p));
    }
    Ok((chars_to_string(&cs), p + 1))
}

/// True when the word is the given keyword.
fn is_kw(w: &String, k: &str) -> (b: bool)
    ensures
        b == (w@ == k@),
{
    let s: String = k.to_owned();
    *w == s
}

/// Skips whitespace and consumes the expected character.
fn expect_char(src: &Vec<char>, pos: usize, c: char) -> (r: Result<usize, PErr>)
    requires
        pos <= src@.len(),
    ensures
        (r matches Ok(q) ==> pos < q <= src@.len()),
        (match (r, spec_expect_char(src@, pos as int, c)) {
            (Ok(q), Ok(qm)) => q as int == qm,
            (Err(e1), Err(e2)) => perr_model(e1) == e2,
            _ => false,
        }),
{
    let p = skip_ws(src, pos);
    if p < src.len() && src[p] == c {
        Ok(p + 1)
    } else {
        Err(PErr::Syntax(p))
    }
}

/// Skips whitespace and reads an identifier.
fn expect_ident(src: &Vec<char>, pos: usize) -> (r: Result<(String, usize), PErr>)
    requires
        pos <= src@.len(),
    ensures
        (r matches Ok(t) ==> pos < t.1 <= src@.len()),
        (match (r, spec_expect_ident(src@, pos as int)) {
            (Ok(t), Ok(tm)) => t.0@ == tm.0 && t.1 as int == tm.1,
            (Err(e1), Err(e2)) => perr_model(e1) == e2,
            _ => false,
        }),
{
    let p = skip_ws(src, pos);
    if p < src.len() && is_alpha(src[p]) {
        let (w, q) = read_word(src, p);
        Ok((w, q))
    } else {
        Err(PErr::Syntax(p))
    }
}

/// A primary expression: literal, variable, or call; exactly
/// `spec_parse_primary`.
fn parse_primary(src: &Vec<char>, pos: usize) -> (r: Result<(Expr, usize), PErr>)
    requires
        pos <= src@.len(),
    ensures
        (r matches Ok(t) ==> pos < t.1 <= src@.len()),
        (match (r, spec_parse_primary(src@, pos as int)) {
            (Ok(t), Ok(tm)) => expr_model(t.0) == tm.0 && t.1 as int == tm.1,
            (Err(e1), Err(e2)) => perr_model(e1) == e2,
            _ => false,
        }),
    decreases src@.len() - pos, 0int,
{
    let p = skip_ws(src, pos);
    if p >= src.len() {
        return Err(PErr::Syntax(p));
    }
    let c = src[p];
    if is_digit(c) {
        let (n, q) = match read_int(src, p) {
            Ok(t) => t,
            Err(e) => {
                return Err(e);
            },
        };
        Ok((Expr::Int(n), q))
    } else if c == '"' {
        let (s, q) = match read_string_lit(src, p) {
            Ok(t) => t,
            Err(e) => {
                return Err(e);
            },
        };
        Ok((Expr::Str(s), q))
    } else if is_alpha(c) {
        let (w, q) = read_word(src, p);
        let q2 = skip_ws(src, q);
        if q2 < src.len() && src[q2] == '(' {
            let (args, q3) = match parse_args(src, q2 + 1) {
                Ok(t) => t,
                Err(e) => {
                    return Err(e);
                },
            };
            Ok((Expr::Call(w, args), q3))
        } else {
            Ok((Expr::Var(w), q))
        }
    } else {
        Err(PErr::Syntax(p))
    }
}

/// Multiplicative level: a left-associative fold of primaries; exactly
/// `spec_parse_term`.
fn parse_term(src: &Vec<char>, pos: usize) -> (r: Result<(Expr, usize), PErr>)
    requires
        pos <= src@.len(),
    ensures
        (r matches Ok(t) ==> pos < t.1 <= src@.len()),
        (match (r, spec_parse_term(src@, pos as int)) {
            (Ok(t), Ok(tm)) => expr_model(t.0) == tm.0 && t.1 as int == tm.1,
            (Err(e1), Err(e2)) => perr_model(e1) == e2,
            _ => false,
        }),
    decreases src@.len() - pos, 2int,
{
    let (left, p) = match parse_primary(src, pos) {
        Ok(t) => t,
        Err(e) => {
            return Err(e);
        },
    };
    parse_term_rest(src, p, left)
}

fn parse_term_rest(src: &Vec<char>, pos: usize, left: Expr) -> (r: Result<(Expr, usize), PErr>)
    requires
        pos <= src@.len(),
    ensures
        (r matches Ok(t) ==> pos <= t.1 <= src@.len()),
        (match (r, spec_parse_term_rest(src@, pos as int, expr_model(left))) {
            (Ok(t), Ok(tm)) => expr_model(t.0) == tm.0 && t.1 as int == tm.1,
            (Err(e1), Err(e2)) => perr_model(e1) == e2,
            _ => false,
        }),
    decreases src@.len() - pos, 1int,
{
    let p = skip_ws(src, pos);
    if p < src.len() && (src[p] == '*' || src[p] == '/') {
        let op = if src[p] == '*' { Op::Mul } else { Op::Div };
        let (rhs, q) = match parse_primary(src, p + 1) {
            Ok(t) => t,
            Err(e) => {
                return Err(e);
            },
        };
        parse_term_rest(src, q, Expr::Binary(Box::new(left), op, Box::new(rhs)))
    } else {
        Ok((left, pos))
    }
}

/// Additive level: a left-associative fold of terms; exactly
/// `spec_parse_additive`.
fn parse_additive(src: &Vec<char>, pos: usize) -> (r: Result<(Expr, usize), PErr>)
    requires
        pos <= src@.len(),
    ensures
        (r matches Ok(t) ==> pos < t.1 <= src@.len()),
        (match (r, spec_parse_additive(src@, pos as int)) {
            (Ok(t), Ok(tm)) => expr_model(t.0) == tm.0 && t.1 as int == tm.1,
            (Err(e1), Err(e2)) => perr_model(e1) == e2,
            _ => false,
        }),
    decreases src@.len() - pos, 4int,
{
    let (left, p) = match parse_term(src, pos) {
        Ok(t) => t,
        Err(e) => {
            return Err(e);
        },
    };
    parse_additive_rest(src, p, left)
}

fn parse_additive_rest(src: &Vec<char>, pos: usize, left: Expr) -> (r: Result<
    (Expr, usize),
    PErr,
>)
    requires
        pos <= src@.len(),
    ensures
        (r matches Ok(t) ==> pos <= t.1 <= src@.len()),
        (match (r, spec_parse_additive_rest(src@, pos as int, expr_model(left))) {
            (Ok(t), Ok(tm)) => expr_model(t.0) == tm.0 && t.1 as int == tm.1,
            (Err(e1), Err(e2)) => perr_model(e1) == e2,
            _ => false,
        }),
    decreases src@.len() - pos, 3int,
{
    let p = skip_ws(src, pos);
    if p < src.len() && (src[p] == '+' || src[p] == '-') {
        let op = if src[p] == '+' { Op::Add } else { Op::Sub };
        let (rhs, q) = match parse_term(src, p + 1) {
            Ok(t) => t,
            Err(e) => {
                return Err(e);
            },
        };
        parse_additive_rest(src, q, Expr::Binary(Box::new(left), op, Box::new(rhs)))
    } else {
        Ok((left, pos))
    }
}

/// Comparison level: at most one comparison operator may appear; exactly
/// `spec_parse_expr`.
fn parse_expr(src: &Vec<char>, pos: usize) -> (r: Result<(Expr, usize), PErr>)
    requires
        pos <= src@.len(),
    ensures
        (r matches Ok(t) ==> pos < t.1 <= src@.len()),
        (match (r, spec_parse_expr(src@, pos as int)) {
            (Ok(t), Ok(tm)) => expr_model(t.0) == tm.0 && t.1 as int == tm.1,
            (Err(e1), Err(e2)) => perr_model(e1) == e2,
            _ => false,
        }),
    decreases src@.len() - pos, 5int,
{
    let (left, p) = match parse_additive(src, pos) {
        Ok(t) => t,
        Err(e) => {
            return Err(e);
        },
    };
    let q = skip_ws(src, p);
    if q >= src.len() {
        return Ok((left, p));
    }
    let c = src[q];
    let has_eq = q + 1 < src.len() && src[q + 1] == '=';
    let (op, w) = if c == '>' {
        if has_eq { (Op::GreaterEq, 2) } else { (Op::Greater, 1) }
    } else if c == '<' {
        if has_eq { (Op::LessEq, 2) } else { (Op::Less, 1) }
    } else if c == '=' && has_eq {
        (Op::Equal, 2)
    } else if c == '!' && has_eq {
        (Op::NotEqual, 2)
    } else {
        return Ok((left, p));
    };
    let w: usize = w;
    let (rhs, q2) = match parse_additive(src, q + w) {
        Ok(t) => t,
        Err(e) => {
            return Err(e);
        },
    };
    Ok((Expr::Binary(Box::new(left), op, Box::new(rhs)), q2))
}

/// The arguments of a call, after its opening parenthesis; exactly
/// `spec_parse_args`.
fn parse_args(src: &Vec<char>, pos: usize) -> (r: Result<(Vec<Expr>, usize), PErr>)
    requires
        pos <= src@.len(),
    ensures
        (r matches Ok(t) ==> pos <= t.1 <= src@.len()),
        (match (r, spec_parse_args(src@, pos as int)) {
            (Ok(t), Ok(tm)) => exprs_model(t.0@) == tm.0 && t.1 as int == tm.1,
            (Err(e1), Err(e2)) => perr_model(e1) == e2,
            _ => false,
        }),
    decreases src@.len() - pos, 7int,
{
    let p = skip_ws(src, pos);
    if p < src.len() && src[p] == ')' {
        let args: Vec<Expr> = Vec::new();
        proof {
            assert(exprs_model(args@) =~= Seq::<crate::grammar::ExprM>::empty());
        }
        return Ok((args, p + 1));
    }
    let (e, q) = match parse_expr(src, p) {
        Ok(t) => t,
        Err(e) => {
            return Err(e);
        },
    };
    let mut args: Vec<Expr> = Vec::new();
    proof {
        assert(exprs_model(args@) =~= Seq::<crate::grammar::ExprM>::empty());
        lemma_exprs_model_push(args@, e);
        assert(exprs_model(args@.push(e)) =~= seq![expr_model(e)]);
    }
    args.push(e);
    parse_args_rest(src, q, args)
}

fn parse_args_rest(src: &Vec<char>, pos: usize, args: Vec<Expr>) -> (r: Result<
    (Vec<Expr>, usize),
    PErr,
>)
    requires
        pos <= src@.len(),
    ensures
        (r matches Ok(t) ==> pos < t.1 <= src@.len()),
        (match (r, spec_parse_args_rest(src@, pos as int, exprs_model(args@))) {
            (Ok(t), Ok(tm)) => exprs_model(t.0@) == tm.0 && t.1 as int == tm.1,
            (Err(e1), Err(e2)) => perr_model(e1) == e2,
            _ => false,
        }),
    decreases src@.len() - pos, 6int,
{
    let p = skip_ws(src, pos);
    if p >= src.len() {
        return Err(PErr::Syntax(p));
    }
    if src[p] == ')' {
        return Ok((args, p + 1));
    }
    if src[p] != ',' {
        return Err(PErr::Syntax(p));
    }
    let (e, q) = match parse_expr(src, p + 1) {
        Ok(t) => t,
        Err(e) => {
            return Err(e);
        },
    };
    let mut args2 = args;
    proof {
        lemma_exprs_model_push(args2@, e);
    }
    args2.push(e);
    parse_args_rest(src, q, args2)
}

/// The parameter names of a function definition, after its opening
/// parenthesis; exactly `spec_parse_params`.
fn parse_params(src: &Vec<char>, pos: usize) -> (r: Result<(Vec<String>, usize), PErr>)
    requires
        pos <= src@.len(),
    ensures
        (r matches Ok(t) ==> pos <= t.1 <= src@.len()),
        (match (r, spec_parse_params(src@, pos as int)) {
            (Ok(t), Ok(tm)) => strs_model(t.0@) == tm.0 && t.1 as int == tm.1,
            (Err(e1), Err(e2)) => perr_model(e1) == e2,
            _ => false,
        }),
    decreases src@.len() - pos, 7int,
{
    let p = skip_ws(src, pos);
    if p < src.len() && src[p] == ')' {
        let names: Vec<String> = Vec::new();
        proof {
            assert(strs_model(names@) =~= Seq::<Seq<char>>::empty());
        }
        return Ok((names, p + 1));
    }
    let (name, q) = match expect_ident(src, p) {
        Ok(t) => t,
        Err(e) => {
            return Err(e);
        },
    };
    let mut names: Vec<String> = Vec::new();
    proof {
        assert(strs_model(names@) =~= Seq::<Seq<char>>::empty());
        lemma_strs_model_push(names@, name);
        assert(strs_model(names@.push(name)) =~= seq![name@]);
    }
    names.push(name);
    parse_params_rest(src, q, names)
}

fn parse_params_rest(src: &Vec<char>, pos: usize, names: Vec<String>) -> (r: Result<
    (Vec<String>, usize),
    PErr,
>)
    requires
        pos <= src@.len(),
    ensures
        (r matches Ok(t) ==> pos < t.1 <= src@.len()),
        (match (r, spec_parse_params_rest(src@, pos as int, strs_model(names@))) {
            (Ok(t), Ok(tm)) => strs_model(t.0@) == tm.0 && t.1 as int == tm.1,
            (Err(e1), Err(e2)) => perr_model(e1) == e2,
            _ => false,
        }),
    decreases src@.len() - pos, 6int,
{
    let p = skip_ws(src, pos);
    if p >= src.len() {
        return Err(PErr::Syntax(p));
    }
    if src[p] == ')' {
        return Ok((names, p + 1));
    }
    if src[p] != ',' {
        return Err(PErr::Syntax(p));
    }
    let (n2, q2) = match expect_ident(src, p + 1) {
        Ok(t) => t,
        Err(e) => {
            return Err(e);
        },
    };
    let mut names2 = names;
    proof {
        lemma_strs_model_push(names2@, n2);
    }
    names2.push(n2);
    parse_params_rest(src, q2, names2)
}

/// One statement; exactly `spec_parse_stmt`.
fn parse_stmt(src: &Vec<char>, pos: usize) -> (r: Result<(Stmt, usize), PErr>)
    requires
        pos <= src@.len(),
    ensures
        (r matches Ok(t) ==> pos < t.1 <= src@.len()),
        (match (r, spec_parse_stmt(src@, pos as int)) {
            (Ok(t), Ok(tm)) => stmt_model(t.0) == tm.0 && t.1 as int == tm.1,
            (Err(e1), Err(e2)) => perr_model(e1) == e2,
            _ => false,
        }),
    decreases src@.len() - pos, 8int,
{
    let p = skip_ws(src, pos);
    if p >= src.len() {
        return Err(PErr::Syntax(p));
    }
    if !is_alpha(src[p]) {
        return Err(PErr::Syntax(p));
    }
    let (w, p1) = read_word(src, p);
    if is_kw(&w, "print") {
        let p2 = match expect_char(src, p1, '(') {
            Ok(q) => q,
            Err(e) => {
                return Err(e);
            },
        };
        let (e, p3) = match parse_expr(src, p2) {
            Ok(t) => t,
            Err(e) => {
                return Err(e);
            },
        };
        let p4 = match expect_char(src, p3, ')') {
            Ok(q) => q,
            Err(e) => {
                return Err(e);
            },
        };
        Ok((Stmt::Print(e), p4))
    } else if is_kw(&w, "let") {
        let (name, p2) = match expect_ident(src, p1) {
            Ok(t) => t,
            Err(e) => {
                return Err(e);
            },
        };
        let p3 = match expect_char(src, p2, '=') {
            Ok(q) => q,
            Err(e) => {
                return Err(e);
            },
        };
        let (e, p4) = match parse_expr(src, p3) {
            Ok(t) => t,
            Err(e) => {
                return Err(e);
            },
        };
        Ok((Stmt::Let(name, e), p4))
    } else if is_kw(&w, "if") {
        let (cond, p2) = match parse_expr(src, p1) {
            Ok(t) => t,
            Err(e) => {
                return Err(e);
            },
        };
        let (tb, p3) = match parse_block(src, p2) {
            Ok(t) => t,
            Err(e) => {
                return Err(e);
            },
        };
        let p4 = skip_ws(src, p3);
        if p4 < src.len() && is_alpha(src[p4]) {
            let (w2, p5) = read_word(src, p4);
            if is_kw(&w2, "else") {
                let (eb, p6) = match parse_block(src, p5) {
                    Ok(t) => t,
                    Err(e) => {
                        return Err(e);
                    },
                };
                return Ok((
                    Stmt::If { condition: cond, then_branch: tb, else_branch: Some(eb) },
                    p6,
                ));
            }
        }
        Ok((Stmt::If { condition: cond, then_branch: tb, else_branch: None }, p3))
    } else if is_kw(&w, "while") {
        let (cond, p2) = match parse_expr(src, p1) {
            Ok(t) => t,
            Err(e) => {
                return Err(e);
            },
        };
        let (body, p3) = match parse_block(src, p2) {
            Ok(t) => t,
            Err(e) => {
                return Err(e);
            },
        };
        Ok((Stmt::While { condition: cond, body }, p3))
    } else if is_kw(&w, "break") {
        Ok((Stmt::Break, p1))
    } else if is_kw(&w, "continue") {
        Ok((Stmt::Continue, p1))
    } else if is_kw(&w, "return") {
        let (e, p2) = match parse_expr(src, p1) {
            Ok(t) => t,
            Err(e) => {
                return Err(e);
            },
        };
        Ok((Stmt::Return(e), p2))
    } else if is_kw(&w, "fn") {
        let (name, p2) = match expect_ident(src, p1) {
            Ok(t) => t,
            Err(e) => {
                return Err(e);
            },
        };
        let p3 = match expect_char(src, p2, '(') {
            Ok(q) => q,
            Err(e) => {
                return Err(e);
            },
        };
        let (params, p4) = match parse_params(src, p3) {
            Ok(t) => t,
            Err(e) => {
                return Err(e);
            },
        };
        let (body, p5) = match parse_block(src, p4) {
            Ok(t) => t,
            Err(e) => {
                return Err(e);
            },
        };
        Ok((Stmt::Fn { name, params, body }, p5))
    } else {
        let p2 = match expect_char(src, p1, '(') {
            Ok(q) => q,
            Err(e) => {
                return Err(e);
            },
        };
        let (args, p3) = match parse_args(src, p2) {
            Ok(t) => t,
            Err(e) => {
                return Err(e);
            },
        };
        Ok((Stmt::Call(w, args), p3))
    }
}

/// The statements of a block, after its opening brace, up to and including
/// the closing brace; exactly `spec_parse_block_items`.
fn parse_block_items(src: &Vec<char>, pos: usize, acc: Vec<Stmt>) -> (r: Result<
    (Vec<Stmt>, usize),
    PErr,
>)
    requires
        pos <= src@.len(),
    ensures
        (r matches Ok(t) ==> pos < t.1 <= src@.len()),
        (match (r, spec_parse_block_items(src@, pos as int, stmts_model(acc@))) {
            (Ok(t), Ok(tm)) => stmts_model(t.0@) == tm.0 && t.1 as int == tm.1,
            (Err(e1), Err(e2)) => perr_model(e1) == e2,
            _ => false,
        }),
    decreases src@.len() - pos, 9int,
{
    let p = skip_ws(src, pos);
    if p >= src.len() {
        return Err(PErr::Syntax(p));
    }
    if src[p] == '}' {
        return Ok((acc, p + 1));
    }
    let (s, q) = match parse_stmt(src, p) {
        Ok(t) => t,
        Err(e) => {
            return Err(e);
        },
    };
    let mut acc2 = acc;
    proof {
        lemma_stmts_model_push(acc2@, s);
    }
    acc2.push(s);
    parse_block_items(src, q, acc2)
}

/// A braced block of zero or more statements; exactly `spec_parse_block`.
fn parse_block(src: &Vec<char>, pos: usize) -> (r: Result<(Vec<Stmt>, usize), PErr>)
    requires
        pos <= src@.len(),
    ensures
        (r matches Ok(t) ==> pos < t.1 <= src@.len()),
        (match (r, spec_parse_block(src@, pos as int)) {
            (Ok(t), Ok(tm)) => stmts_model(t.0@) == tm.0 && t.1 as int == tm.1,
            (Err(e1), Err(e2)) => perr_model(e1) == e2,
            _ => false,
        }),
    decreases src@.len() - pos, 10int,
{
    let p = match expect_char(src, pos, '{') {
        Ok(q) => q,
        Err(e) => {
            return Err(e);
        },
    };
    proof {
        assert(stmts_model(Seq::<Stmt>::empty()) =~= Seq::<crate::grammar::StmtM>::empty());
    }
    parse_block_items(src, p, Vec::new())
}

/// The statements of a whole program, up to the end of the source; exactly
/// `spec_parse_program_items`.
fn parse_program_items(src: &Vec<char>, pos: usize, acc: Vec<Stmt>) -> (r: Result<
    Vec<Stmt>,
    PErr,
>)
    requires
        pos <= src@.len(),
    ensures
        (match (r, spec_parse_program_items(src@, pos as int, stmts_model(acc@))) {
            (Ok(p), Ok(pm)) => stmts_model(p@) == pm,
            (Err(e1), Err(e2)) => perr_model(e1) == e2,
            _ => false,
        }),
    decreases src@.len() - pos, 9int,
{
    let p = skip_ws(src, pos);
    if p >= src.len() {
        return Ok(acc);
    }
    let (s, q) = match parse_stmt(src, p) {
        Ok(t) => t,
        Err(e) => {
            return Err(e);
        },
    };
    let mut acc2 = acc;
    proof {
        lemma_stmts_model_push(acc2@, s);
    }
    acc2.push(s);
    parse_program_items(src, q, acc2)
}

/// The characters of a string, in order.
fn str_to_chars(s: &str) -> (v: Vec<char>)
    ensures
        v@ == s@,
{
    let n = s.unicode_len();
    let mut v: Vec<char> = Vec::new();
    let mut i: usize = 0;
    while i < n
        invariant
            i <= n,
            n == s@.len(),
            v@ == s@.subrange(0, i as int),
        decreases n - i,
    {
        let c = s.get_char(i);
        v.push(c);
        i = i + 1;
        proof {
            assert(v@ =~= s@.subrange(0, i as int));
        }
    }
    proof {
        assert(v@ =~= s@);
    }
    v
}

/// A human-readable message naming a source position.
fn syntax_message(pos: usize) -> (r: String)
    ensures
        true,
{
    let capped: u32 = if pos > 4000000000 { 4000000000 } else { pos as u32 };
    let mut m: String = "syntax error at character ".to_owned();
    let digits = crate::num::i64_to_string(capped as i64);
    m.append(digits.as_str());
    m
}

/// The parser for the language.
pub struct DashParser;

impl DashParser {
    /// Parses a source text into its statement sequence: a well-formed
    /// source yields exactly the program that `spec_parse_program` assigns
    /// to it, and a source that the grammar rejects is reported — as a
    /// message rather than a failure of the process — exactly when the
    /// specification parser rejects it.
    pub fn parse(source: &str) -> (r: ParseOutcome)
        ensures
            (match (r, spec_parse_program(source@)) {
                (ParseOutcome::Program(p), Ok(pm)) => stmts_model(p@) == pm,
                (ParseOutcome::Syntax(_), Err(e)) => e is SyntaxM,
                (ParseOutcome::IntOutOfRange, Err(e)) => e == PErrM::RangeM,
                _ => false,
            }),
    {
        let chars = str_to_chars(source);
        proof {
            assert(stmts_model(Seq::<Stmt>::empty()) =~= Seq::<crate::grammar::StmtM>::empty());
        }
        match parse_program_items(&chars, 0, Vec::new()) {
            Ok(prog) => ParseOutcome::Program(prog),
            Err(PErr::Syntax(p)) => ParseOutcome::Syntax(syntax_message(p)),
            Err(PErr::Range) => ParseOutcome::IntOutOfRange,
        }
    }
}

/// Parses and executes a source program against a fresh context with the
/// given fuel bound. A source that the grammar rejects is reported as
/// `Syntax` — exactly when the specification parser rejects it — and the
/// call returns normally; otherwise the program the source parses to is
/// executed exactly as `spec_drive` prescribes, so a fault carries the
/// lines printed before it and a finished run carries them all.
pub fn run(source: &str, fuel: u64) -> (r: RunOutcome)
    ensures
        (match r {
            RunOutcome::Syntax(_) => (spec_parse_program(source@) matches Err(PErrM::SyntaxM(_)))
                && (forall|prog: Seq<Stmt>| !parses_to(source@, prog)),
            RunOutcome::IntOutOfRange => spec_parse_program(source@) == Err::<
                Seq<crate::grammar::StmtM>,
                PErrM,
            >(PErrM::RangeM) && (forall|prog: Seq<Stmt>| !parses_to(source@, prog)),
            RunOutcome::OutOfFuel => exists|prog: Seq<Stmt>|
                #[trigger] parses_to(source@, prog) && spec_drive(
                    fuel as nat,
                    prog,
                    0,
                    Map::empty(),
                    Map::empty(),
                    Seq::empty(),
                ) is Fuel,
            RunOutcome::Fatal(er, lines) => exists|prog: Seq<Stmt>|
                #[trigger] parses_to(source@, prog) && spec_drive(
                    fuel as nat,
                    prog,
                    0,
                    Map::empty(),
                    Map::empty(),
                    Seq::empty(),
                ) == DriveR::Abort(er, out_model(lines@)),
            RunOutcome::Finished(lines) => exists|prog: Seq<Stmt>|
                #[trigger] parses_to(source@, prog) && (match spec_drive(
                    fuel as nat,
                    prog,
                    0,
                    Map::empty(),
                    Map::empty(),
                    Seq::empty(),
                ) {
                    DriveR::Done(_, _, o) => o == out_model(lines@),
                    _ => false,
                }),
        }),
{
    match DashParser::parse(source) {
        ParseOutcome::Syntax(m) => {
            proof {
                assert forall|prog: Seq<Stmt>| !parses_to(source@, prog) by {}
            }
            RunOutcome::Syntax(m)
        },
        ParseOutcome::IntOutOfRange => {
            proof {
                assert forall|prog: Seq<Stmt>| !parses_to(source@, prog) by {}
            }
            RunOutcome::IntOutOfRange
        },
        ParseOutcome::Program(prog) => {
            let r = exec_program(fuel, &prog);
            proof {
                assert(parses_to(source@, prog@));
                match &r {
                    RunOutcome::OutOfFuel => {
                        assert(spec_drive(
                            fuel as nat,
                            prog@,
                            0,
                            Map::empty(),
                            Map::empty(),
                            Seq::empty(),
                        ) is Fuel);
                    },
                    RunOutcome::Fatal(er, lines) => {
                        assert(spec_drive(
                            fuel as nat,
                            prog@,
                            0,
                            Map::empty(),
                            Map::empty(),
                            Seq::empty(),
                        ) == DriveR::Abort(*er, out_model(lines@)));
                    },
                    RunOutcome::Finished(lines) => {
                        assert(match spec_drive(
                            fuel as nat,
                            prog@,
                            0,
                            Map::empty(),
                            Map::empty(),
                            Seq::empty(),
                        ) {
                            DriveR::Done(_, _, o) => o == out_model(lines@),
                            _ => false,
                        });
                    },
                    _ => {},
                }
            }
            r
        },
    }
}

} // verus!
