//! The grammar as a mathematical function. `ExprM` and `StmtM` mirror the
//! AST over character sequences, and the specification parser below maps a
//! source text to the statement models it denotes — or to the fault that
//! rejects it. Each executable parse function returns exactly what the
//! corresponding specification function says for the same text and
//! position, so these definitions are the meaning of the grammar:
//! precedence, left association, the single optional comparison, verbatim
//! string content, and the order of arguments and statements are all
//! spelled out here.

use vstd::prelude::*;
use crate::ast::{Expr, Op, Stmt};
use crate::num::is_digit_char;

verus! {

/// Model of an expression: the expression tree over character sequences.
pub ghost enum ExprM {
    IntM(i64),
    StrM(Seq<char>),
    VarM(Seq<char>),
    CallM(Seq<char>, Seq<ExprM>),
    BinaryM(Box<ExprM>, Op, Box<ExprM>),
}

/// Model of a statement.
pub ghost enum StmtM {
    PrintM(ExprM),
    LetM(Seq<char>, ExprM),
    IfM { condition: ExprM, then_branch: Seq<StmtM>, else_branch: Option<Seq<StmtM>> },
    WhileM { condition: ExprM, body: Seq<StmtM> },
    BreakM,
    ContinueM,
    FnM { name: Seq<char>, params: Seq<Seq<char>>, body: Seq<StmtM> },
    CallM(Seq<char>, Seq<ExprM>),
    ReturnM(ExprM),
}

/// Model of a parse fault: a malformed position, or an oversized literal.
pub ghost enum PErrM {
    SyntaxM(int),
    RangeM,
}

/// The model of an expression value.
pub open spec fn expr_model(e: Expr) -> ExprM
    decreases e,
{
    match e {
        Expr::Int(i) => ExprM::IntM(i),
        Expr::Str(s) => ExprM::StrM(s@),
        Expr::Var(n) => ExprM::VarM(n@),
        Expr::Call(n, args) => ExprM::CallM(n@, exprs_model(args@)),
        Expr::Binary(l, op, r) => ExprM::BinaryM(
            Box::new(expr_model(*l)),
            op,
            Box::new(expr_model(*r)),
        ),
    }
}

/// The models of a sequence of expressions, in order.
pub open spec fn exprs_model(s: Seq<Expr>) -> Seq<ExprM>
    decreases s,
{
    if s.len() == 0 {
        Seq::empty()
    } else {
        exprs_model(s.drop_last()).push(expr_model(s.last()))
    }
}

/// The model of a statement value.
pub open spec fn stmt_model(s: Stmt) -> StmtM
    decreases s,
{
    match s {
        Stmt::Print(e) => StmtM::PrintM(expr_model(e)),
        Stmt::Let(n, e) => StmtM::LetM(n@, expr_model(e)),
        Stmt::If { condition, then_branch, else_branch } => StmtM::IfM {
            condition: expr_model(condition),
            then_branch: stmts_model(then_branch@),
            else_branch: match else_branch {
                Some(b) => Some(stmts_model(b@)),
                None => None,
            },
        },
        Stmt::While { condition, body } => StmtM::WhileM {
            condition: expr_model(condition),
            body: stmts_model(body@),
        },
        Stmt::Break => StmtM::BreakM,
        Stmt::Continue => StmtM::ContinueM,
        Stmt::Fn { name, params, body } => StmtM::FnM {
            name: name@,
            params: strs_model(params@),
            body: stmts_model(body@),
        },
        Stmt::Call(n, args) => StmtM::CallM(n@, exprs_model(args@)),
        Stmt::Return(e) => StmtM::ReturnM(expr_model(e)),
    }
}

/// The models of a sequence of statements, in order.
pub open spec fn stmts_model(s: Seq<Stmt>) -> Seq<StmtM>
    decreases s,
{
    if s.len() == 0 {
        Seq::empty()
    } else {
        stmts_model(s.drop_last()).push(stmt_model(s.last()))
    }
}

/// The views of a sequence of strings, in order.
pub open spec fn strs_model(s: Seq<String>) -> Seq<Seq<char>> {
    s.map_values(|x: String| x@)
}

/// Appending an expression appends its model.
pub proof fn lemma_exprs_model_push(s: Seq<Expr>, e: Expr)
    ensures
        exprs_model(s.push(e)) == exprs_model(s).push(expr_model(e)),
{
    assert(s.push(e).drop_last() =~= s);
    assert(s.push(e).last() == e);
}

/// Appending a statement appends its model.
pub proof fn lemma_stmts_model_push(s: Seq<Stmt>, x: Stmt)
    ensures
        stmts_model(s.push(x)) == stmts_model(s).push(stmt_model(x)),
{
    assert(s.push(x).drop_last() =~= s);
    assert(s.push(x).last() == x);
}

/// Appending a string appends its view.
pub proof fn lemma_strs_model_push(s: Seq<String>, x: String)
    ensures
        strs_model(s.push(x)) == strs_model(s).push(x@),
{
    assert(strs_model(s.push(x)) =~= strs_model(s).push(x@));
}

/// How much text is left at a position; zero past the end.
pub open spec fn remaining(src: Seq<char>, pos: int) -> nat {
    if pos <= src.len() {
        (src.len() - pos) as nat
    } else {
        0
    }
}

/// A position at or past `pos`. Scanning never moves left; this records
/// that fact in the definition so the recursion is visibly well-founded,
/// and it is the identity on every reachable path.
pub open spec fn at_or_past(pos: int, q: int) -> int {
    if q >= pos { q } else { pos }
}

/// A position strictly past `pos`; likewise the identity on every
/// reachable path.
pub open spec fn past(pos: int, q: int) -> int {
    if q > pos { q } else { pos + 1 }
}

/// Whitespace between tokens.
pub open spec fn is_space_char(c: char) -> bool {
    c == ' ' || c == '\t' || c == '\r' || c == '\n'
}

/// A character that may start an identifier.
pub open spec fn is_alpha_char(c: char) -> bool {
    ('a' <= c && c <= 'z') || ('A' <= c && c <= 'Z') || c == '_'
}

/// A character that may continue an identifier.
pub open spec fn is_word_char(c: char) -> bool {
    is_alpha_char(c) || is_digit_char(c)
}

/// The first non-whitespace position at or after `pos`.
pub open spec fn spec_skip_ws(src: Seq<char>, pos: int) -> int
    decreases remaining(src, pos),
{
    if 0 <= pos && pos < src.len() && is_space_char(src[pos]) {
        spec_skip_ws(src, pos + 1)
    } else {
        pos
    }
}

/// The word continuing `acc`, and the position after it.
pub open spec fn spec_read_word_from(src: Seq<char>, pos: int, acc: Seq<char>) -> (Seq<char>, int)
    decreases remaining(src, pos),
{
    if 0 <= pos && pos < src.len() && is_word_char(src[pos]) {
        spec_read_word_from(src, pos + 1, acc.push(src[pos]))
    } else {
        (acc, pos)
    }
}

/// The identifier or keyword at `pos`, and the position after it.
pub open spec fn spec_read_word(src: Seq<char>, pos: int) -> (Seq<char>, int) {
    spec_read_word_from(src, pos, Seq::empty())
}

/// The integer continuing `acc`: digits accumulate in decimal until a
/// non-digit; a value past the 64-bit maximum is an oversized literal.
pub open spec fn spec_read_int_from(src: Seq<char>, pos: int, acc: int) -> Result<
    (int, int),
    PErrM,
>
    decreases remaining(src, pos),
{
    if 0 <= pos && pos < src.len() && is_digit_char(src[pos]) {
        let a2 = acc * 10 + crate::num::digit_val(src[pos]);
        if a2 > i64::MAX {
            Err(PErrM::RangeM)
        } else {
            spec_read_int_from(src, pos + 1, a2)
        }
    } else {
        Ok((acc, pos))
    }
}

/// The integer literal at `pos`: one or more digits, valued in decimal.
pub open spec fn spec_read_int(src: Seq<char>, pos: int) -> Result<(int, int), PErrM> {
    match spec_read_int_from(src, pos, 0) {
        Err(e) => Err(e),
        Ok((v, q)) => if q == pos {
            Err(PErrM::SyntaxM(pos))
        } else {
            Ok((v, q))
        },
    }
}

/// The string content continuing `acc`, up to the closing quote; the
/// content is taken verbatim, with no escape processing.
pub open spec fn spec_read_string_from(src: Seq<char>, pos: int, acc: Seq<char>) -> Result<
    (Seq<char>, int),
    PErrM,
>
    decreases remaining(src, pos),
{
    if pos < 0 || pos >= src.len() {
        Err(PErrM::SyntaxM(pos))
    } else if src[pos] == '"' {
        Ok((acc, pos + 1))
    } else {
        spec_read_string_from(src, pos + 1, acc.push(src[pos]))
    }
}

/// The string literal whose opening quote stands at `pos`.
pub open spec fn spec_read_string(src: Seq<char>, pos: int) -> Result<(Seq<char>, int), PErrM> {
    spec_read_string_from(src, pos + 1, Seq::empty())
}

/// Skips whitespace and consumes the expected character.
pub open spec fn spec_expect_char(src: Seq<char>, pos: int, c: char) -> Result<int, PErrM> {
    let p = spec_skip_ws(src, pos);
    if 0 <= p && p < src.len() && src[p] == c {
        Ok(p + 1)
    } else {
        Err(PErrM::SyntaxM(p))
    }
}

/// Skips whitespace and reads an identifier.
pub open spec fn spec_expect_ident(src: Seq<char>, pos: int) -> Result<(Seq<char>, int), PErrM> {
    let p = spec_skip_ws(src, pos);
    if 0 <= p && p < src.len() && is_alpha_char(src[p]) {
        Ok(spec_read_word(src, p))
    } else {
        Err(PErrM::SyntaxM(p))
    }
}

/// A primary expression: an integer literal, a string literal, a call
/// `name(arguments)`, or a variable.
pub open spec fn spec_parse_primary(src: Seq<char>, pos: int) -> Result<(ExprM, int), PErrM>
    decreases remaining(src, pos), 0int,
{
    let p = spec_skip_ws(src, pos);
    if p < 0 || p >= src.len() {
        Err(PErrM::SyntaxM(p))
    } else if is_digit_char(src[p]) {
        match spec_read_int(src, p) {
            Ok((n, q)) => Ok((ExprM::IntM(n as i64), q)),
            Err(e) => Err(e),
        }
    } else if src[p] == '"' {
        match spec_read_string(src, p) {
            Ok((s, q)) => Ok((ExprM::StrM(s), q)),
            Err(e) => Err(e),
        }
    } else if is_alpha_char(src[p]) {
        let (w, q) = spec_read_word(src, p);
        let q2 = spec_skip_ws(src, q);
        if 0 <= q2 && q2 < src.len() && src[q2] == '(' {
            match spec_parse_args(src, past(pos, q2 + 1)) {
                Ok((args, q3)) => Ok((ExprM::CallM(w, args), q3)),
                Err(e) => Err(e),
            }
        } else {
            Ok((ExprM::VarM(w), q))
        }
    } else {
        Err(PErrM::SyntaxM(p))
    }
}

/// Multiplicative level: a left-associative fold of primaries under `*`
/// and `/`.
pub open spec fn spec_parse_term(src: Seq<char>, pos: int) -> Result<(ExprM, int), PErrM>
    decreases remaining(src, pos), 2int,
{
    match spec_parse_primary(src, pos) {
        Ok((left, p)) => spec_parse_term_rest(src, past(pos, p), left),
        Err(e) => Err(e),
    }
}

pub open spec fn spec_parse_term_rest(src: Seq<char>, pos: int, left: ExprM) -> Result<
    (ExprM, int),
    PErrM,
>
    decreases remaining(src, pos), 1int,
{
    let p = spec_skip_ws(src, pos);
    if 0 <= p && p < src.len() && (src[p] == '*' || src[p] == '/') {
        let op = if src[p] == '*' { Op::Mul } else { Op::Div };
        match spec_parse_primary(src, past(pos, p + 1)) {
            Ok((rhs, q)) => spec_parse_term_rest(
                src,
                past(pos, q),
                ExprM::BinaryM(Box::new(left), op, Box::new(rhs)),
            ),
            Err(e) => Err(e),
        }
    } else {
        Ok((left, pos))
    }
}

/// Additive level: a left-associative fold of terms under `+` and `-`.
pub open spec fn spec_parse_additive(src: Seq<char>, pos: int) -> Result<(ExprM, int), PErrM>
    decreases remaining(src, pos), 4int,
{
    match spec_parse_term(src, pos) {
        Ok((left, p)) => spec_parse_additive_rest(src, past(pos, p), left),
        Err(e) => Err(e),
    }
}

pub open spec fn spec_parse_additive_rest(src: Seq<char>, pos: int, left: ExprM) -> Result<
    (ExprM, int),
    PErrM,
>
    decreases remaining(src, pos), 3int,
{
    let p = spec_skip_ws(src, pos);
    if 0 <= p && p < src.len() && (src[p] == '+' || src[p] == '-') {
        let op = if src[p] == '+' { Op::Add } else { Op::Sub };
        match spec_parse_term(src, past(pos, p + 1)) {
            Ok((rhs, q)) => spec_parse_additive_rest(
                src,
                past(pos, q),
                ExprM::BinaryM(Box::new(left), op, Box::new(rhs)),
            ),
            Err(e) => Err(e),
        }
    } else {
        Ok((left, pos))
    }
}

/// Comparison level: an additive expression, then at most one comparison
/// operator with one more additive expression — comparisons never chain.
pub open spec fn spec_parse_expr(src: Seq<char>, pos: int) -> Result<(ExprM, int), PErrM>
    decreases remaining(src, pos), 5int,
{
    match spec_parse_additive(src, pos) {
        Err(e) => Err(e),
        Ok((left, p)) => {
            let q = spec_skip_ws(src, p);
            if q < 0 || q >= src.len() {
                Ok((left, p))
            } else {
                let c = src[q];
                let has_eq = q + 1 < src.len() && src[q + 1] == '=';
                let opw: Option<(Op, int)> = if c == '>' {
                    if has_eq { Some((Op::GreaterEq, 2)) } else { Some((Op::Greater, 1)) }
                } else if c == '<' {
                    if has_eq { Some((Op::LessEq, 2)) } else { Some((Op::Less, 1)) }
                } else if c == '=' && has_eq {
                    Some((Op::Equal, 2))
                } else if c == '!' && has_eq {
                    Some((Op::NotEqual, 2))
                } else {
                    None
                };
                match opw {
                    None => Ok((left, p)),
                    Some((op, w)) => match spec_parse_additive(src, past(pos, q + w)) {
                        Ok((rhs, q2)) => Ok(
                            (ExprM::BinaryM(Box::new(left), op, Box::new(rhs)), q2),
                        ),
                        Err(e) => Err(e),
                    },
                }
            }
        },
    }
}

/// The arguments of a call, after its opening parenthesis, in source
/// order, up to and including the closing parenthesis.
pub open spec fn spec_parse_args(src: Seq<char>, pos: int) -> Result<(Seq<ExprM>, int), PErrM>
    decreases remaining(src, pos), 7int,
{
    let p = spec_skip_ws(src, pos);
    if 0 <= p && p < src.len() && src[p] == ')' {
        Ok((Seq::empty(), p + 1))
    } else {
        match spec_parse_expr(src, at_or_past(pos, p)) {
            Ok((e, q)) => spec_parse_args_rest(src, past(pos, q), seq![e]),
            Err(er) => Err(er),
        }
    }
}

pub open spec fn spec_parse_args_rest(src: Seq<char>, pos: int, args: Seq<ExprM>) -> Result<
    (Seq<ExprM>, int),
    PErrM,
>
    decreases remaining(src, pos), 6int,
{
    let p = spec_skip_ws(src, pos);
    if p < 0 || p >= src.len() {
        Err(PErrM::SyntaxM(p))
    } else if src[p] == ')' {
        Ok((args, p + 1))
    } else if src[p] != ',' {
        Err(PErrM::SyntaxM(p))
    } else {
        match spec_parse_expr(src, past(pos, p + 1)) {
            Ok((e, q)) => spec_parse_args_rest(src, past(pos, q), args.push(e)),
            Err(er) => Err(er),
        }
    }
}

/// The parameter names of a function definition, after its opening
/// parenthesis, in source order.
pub open spec fn spec_parse_params(src: Seq<char>, pos: int) -> Result<(Seq<Seq<char>>, int), PErrM>
    decreases remaining(src, pos), 7int,
{
    let p = spec_skip_ws(src, pos);
    if 0 <= p && p < src.len() && src[p] == ')' {
        Ok((Seq::empty(), p + 1))
    } else {
        match spec_expect_ident(src, at_or_past(pos, p)) {
            Ok((name, q)) => spec_parse_params_rest(src, past(pos, q), seq![name]),
            Err(e) => Err(e),
        }
    }
}

pub open spec fn spec_parse_params_rest(src: Seq<char>, pos: int, names: Seq<Seq<char>>) -> Result<
    (Seq<Seq<char>>, int),
    PErrM,
>
    decreases remaining(src, pos), 6int,
{
    let p = spec_skip_ws(src, pos);
    if p < 0 || p >= src.len() {
        Err(PErrM::SyntaxM(p))
    } else if src[p] == ')' {
        Ok((names, p + 1))
    } else if src[p] != ',' {
        Err(PErrM::SyntaxM(p))
    } else {
        match spec_expect_ident(src, past(pos, p + 1)) {
            Ok((n2, q2)) => spec_parse_params_rest(src, past(pos, q2), names.push(n2)),
            Err(e) => Err(e),
        }
    }
}

/// One statement, of the nine grammar forms, dispatched on its leading
/// word; any other word begins a bare call statement.
pub open spec fn spec_parse_stmt(src: Seq<char>, pos: int) -> Result<(StmtM, int), PErrM>
    decreases remaining(src, pos), 8int,
{
    let p = spec_skip_ws(src, pos);
    if p < 0 || p >= src.len() {
        Err(PErrM::SyntaxM(p))
    } else if !is_alpha_char(src[p]) {
        Err(PErrM::SyntaxM(p))
    } else {
        let (w, p1) = spec_read_word(src, p);
        if w == "print"@ {
            match spec_expect_char(src, past(pos, p1), '(') {
                Err(e) => Err(e),
                Ok(p2) => match spec_parse_expr(src, past(pos, p2)) {
                    Err(e) => Err(e),
                    Ok((e, p3)) => match spec_expect_char(src, past(pos, p3), ')') {
                        Err(er) => Err(er),
                        Ok(p4) => Ok((StmtM::PrintM(e), p4)),
                    },
                },
            }
        } else if w == "let"@ {
            match spec_expect_ident(src, past(pos, p1)) {
                Err(e) => Err(e),
                Ok((name, p2)) => match spec_expect_char(src, past(pos, p2), '=') {
                    Err(e) => Err(e),
                    Ok(p3) => match spec_parse_expr(src, past(pos, p3)) {
                        Err(e) => Err(e),
                        Ok((e, p4)) => Ok((StmtM::LetM(name, e), p4)),
                    },
                },
            }
        } else if w == "if"@ {
            match spec_parse_expr(src, past(pos, p1)) {
                Err(e) => Err(e),
                Ok((cond, p2)) => match spec_parse_block(src, past(pos, p2)) {
                    Err(e) => Err(e),
                    Ok((tb, p3)) => {
                        let p4 = spec_skip_ws(src, p3);
                        if 0 <= p4 && p4 < src.len() && is_alpha_char(src[p4]) {
                            let (w2, p5) = spec_read_word(src, p4);
                            if w2 == "else"@ {
                                match spec_parse_block(src, past(pos, p5)) {
                                    Err(e) => Err(e),
                                    Ok((eb, p6)) => Ok((
                                        StmtM::IfM {
                                            condition: cond,
                                            then_branch: tb,
                                            else_branch: Some(eb),
                                        },
                                        p6,
                                    )),
                                }
                            } else {
                                Ok((
                                    StmtM::IfM {
                                        condition: cond,
                                        then_branch: tb,
                                        else_branch: None,
                                    },
                                    p3,
                                ))
                            }
                        } else {
                            Ok((
                                StmtM::IfM { condition: cond, then_branch: tb, else_branch: None },
                                p3,
                            ))
                        }
                    },
                },
            }
        } else if w == "while"@ {
            match spec_parse_expr(src, past(pos, p1)) {
                Err(e) => Err(e),
                Ok((cond, p2)) => match spec_parse_block(src, past(pos, p2)) {
                    Err(e) => Err(e),
                    Ok((body, p3)) => Ok((StmtM::WhileM { condition: cond, body }, p3)),
                },
            }
        } else if w == "break"@ {
            Ok((StmtM::BreakM, p1))
        } else if w == "continue"@ {
            Ok((StmtM::ContinueM, p1))
        } else if w == "return"@ {
            match spec_parse_expr(src, past(pos, p1)) {
                Err(e) => Err(e),
                Ok((e, p2)) => Ok((StmtM::ReturnM(e), p2)),
            }
        } else if w == "fn"@ {
            match spec_expect_ident(src, past(pos, p1)) {
                Err(e) => Err(e),
                Ok((name, p2)) => match spec_expect_char(src, past(pos, p2), '(') {
                    Err(e) => Err(e),
                    Ok(p3) => match spec_parse_params(src, past(pos, p3)) {
                        Err(e) => Err(e),
                        Ok((params, p4)) => match spec_parse_block(src, past(pos, p4)) {
                            Err(e) => Err(e),
                            Ok((body, p5)) => Ok((StmtM::FnM { name, params, body }, p5)),
                        },
                    },
                },
            }
        } else {
            match spec_expect_char(src, past(pos, p1), '(') {
                Err(e) => Err(e),
                Ok(p2) => match spec_parse_args(src, past(pos, p2)) {
                    Err(e) => Err(e),
                    Ok((args, p3)) => Ok((StmtM::CallM(w, args), p3)),
                },
            }
        }
    }
}

/// The statements of a block continuing `acc`, up to and including the
/// closing brace, in source order.
pub open spec fn spec_parse_block_items(src: Seq<char>, pos: int, acc: Seq<StmtM>) -> Result<
    (Seq<StmtM>, int),
    PErrM,
>
    decreases remaining(src, pos), 9int,
{
    let p = spec_skip_ws(src, pos);
    if p < 0 || p >= src.len() {
        Err(PErrM::SyntaxM(p))
    } else if src[p] == '}' {
        Ok((acc, p + 1))
    } else {
        match spec_parse_stmt(src, at_or_past(pos, p)) {
            Err(e) => Err(e),
            Ok((s, q)) => spec_parse_block_items(src, past(pos, q), acc.push(s)),
        }
    }
}

/// A braced block of zero or more statements.
pub open spec fn spec_parse_block(src: Seq<char>, pos: int) -> Result<(Seq<StmtM>, int), PErrM>
    decreases remaining(src, pos), 10int,
{
    match spec_expect_char(src, pos, '{') {
        Err(e) => Err(e),
        Ok(p) => spec_parse_block_items(src, past(pos, p), Seq::empty()),
    }
}

/// The statements of a whole program continuing `acc`, to the end of the
/// source, in source order.
pub open spec fn spec_parse_program_items(src: Seq<char>, pos: int, acc: Seq<StmtM>) -> Result<
    Seq<StmtM>,
    PErrM,
>
    decreases remaining(src, pos), 9int,
{
    let p = spec_skip_ws(src, pos);
    if p < 0 || p >= src.len() {
        Ok(acc)
    } else {
        match spec_parse_stmt(src, at_or_past(pos, p)) {
            Err(e) => Err(e),
            Ok((s, q)) => spec_parse_program_items(src, past(pos, q), acc.push(s)),
        }
    }
}

/// What a source text parses to: the statement models of a well-formed
/// program, or the fault that rejects it.
pub open spec fn spec_parse_program(src: Seq<char>) -> Result<Seq<StmtM>, PErrM> {
    spec_parse_program_items(src, 0, Seq::empty())
}

/// The source text parses, and to exactly this program.
pub open spec fn parses_to(src: Seq<char>, prog: Seq<Stmt>) -> bool {
    spec_parse_program(src) == Ok::<Seq<StmtM>, PErrM>(stmts_model(prog))
}

} // verus!
