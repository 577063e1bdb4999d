//! The evaluator. Its meaning is given by a fuel-bounded specification
//! interpreter: a family of spec functions that define, step for step, what
//! evaluating an expression or executing a statement does to the variable
//! table, the function table and the printed output. Each executable
//! function returns exactly what the specification interpreter says for the
//! same fuel; fuel bounds only the depth of the interpretation, so every
//! terminating program has an outcome for every sufficiently large fuel.

use vstd::prelude::*;
use crate::ast::{Context, Expr, LoopControl, Op, RuntimeError, Stmt};
use crate::num::{parse_i64, i64_to_string, parses_as_i64, str_int_val, int_to_dec};

verus! {

/// Model of the variable table: names to string values.
pub type VarsM = Map<Seq<char>, Seq<char>>;

/// Model of the function table: names to parameter lists and bodies.
pub type FnsM = Map<Seq<char>, (Seq<String>, Seq<Stmt>)>;

/// Model of the printed output: the lines emitted so far, in order.
pub type OutM = Seq<Seq<char>>;

/// Model of a control-flow signal.
pub ghost enum Ctl {
    Normal,
    Brk,
    Cont,
    Ret(Seq<char>),
}

/// Specification outcome of evaluating an expression.
pub ghost enum EvalR {
    /// The fuel bound was reached before an outcome was determined.
    Fuel,
    /// A fatal runtime fault, with the output emitted up to that point.
    Abort(RuntimeError, OutM),
    /// The value of the expression, with the output emitted so far.
    Val(Seq<char>, OutM),
}

/// Specification outcome of executing a statement or a block.
pub ghost enum StepR {
    Fuel,
    Abort(RuntimeError, OutM),
    /// New variable table, new function table, output so far, and the
    /// control signal handed to the dynamic parent.
    Next(VarsM, FnsM, OutM, Ctl),
}

/// Specification outcome of binding call arguments to parameters.
pub ghost enum ArgsR {
    Fuel,
    Abort(RuntimeError, OutM),
    /// The fresh callee variable table and the output so far.
    Bound(VarsM, OutM),
}

/// Specification outcome of the top-level driver, which ignores control
/// signals and stops only on a fault.
pub ghost enum DriveR {
    Fuel,
    Abort(RuntimeError, OutM),
    Done(VarsM, FnsM, OutM),
}

/// Model of an executable control signal.
pub open spec fn ctl_model(c: LoopControl) -> Ctl {
    match c {
        LoopControl::Normal => Ctl::Normal,
        LoopControl::Break => Ctl::Brk,
        LoopControl::Continue => Ctl::Cont,
        LoopControl::Return(v) => Ctl::Ret(v@),
    }
}

/// The output model: each line as a sequence of characters.
pub open spec fn out_model(o: Seq<String>) -> OutM {
    o.map_values(|s: String| s@)
}

/// Truthiness for `if`: a value is falsy exactly when it is "0", the empty
/// string, or "false"; every other value is truthy.
pub open spec fn spec_if_truthy(v: Seq<char>) -> bool {
    !(v == seq!['0'] || v.len() == 0 || v == seq!['f', 'a', 'l', 's', 'e'])
}

/// Truthiness for `while`: the loop continues while the condition's value is
/// anything but exactly "0". The empty string and "false" keep it running,
/// unlike `if`.
pub open spec fn spec_while_truthy(v: Seq<char>) -> bool {
    v != seq!['0']
}

/// "1" for true, "0" for false.
pub open spec fn bool_str(b: bool) -> Seq<char> {
    if b { seq!['1'] } else { seq!['0'] }
}

/// Truncating integer division: the quotient of the magnitudes, negated when
/// the operands' signs differ. This is how the host divides 64-bit integers.
pub open spec fn div_trunc(a: int, b: int) -> int {
    if a == 0 {
        0
    } else if a > 0 && b > 0 {
        a / b
    } else if a < 0 && b < 0 {
        (a * -1) / (b * -1)
    } else if a < 0 {
        ((a * -1) / b) * -1
    } else {
        (a / (b * -1)) * -1
    }
}

/// The rendered result when `v` fits in an `i64`, an overflow fault when it
/// does not.
pub open spec fn fit_i64(v: int) -> Result<Seq<char>, RuntimeError> {
    if i64::MIN <= v <= i64::MAX {
        Ok(int_to_dec(v))
    } else {
        Err(RuntimeError::ArithmeticOverflow)
    }
}

/// Applies a binary operator to two integers. Arithmetic renders the result
/// in decimal; comparisons yield "1" or "0"; dividing by zero and leaving
/// the 64-bit range are faults.
pub open spec fn spec_binop(op: Op, a: int, b: int) -> Result<Seq<char>, RuntimeError> {
    match op {
        Op::Add => fit_i64(a + b),
        Op::Sub => fit_i64(a - b),
        Op::Mul => fit_i64(a * b),
        Op::Div => if b == 0 { Err(RuntimeError::DivisionByZero) } else { fit_i64(div_trunc(a, b)) },
        Op::Greater => Ok(bool_str(a > b)),
        Op::Less => Ok(bool_str(a < b)),
        Op::GreaterEq => Ok(bool_str(a >= b)),
        Op::LessEq => Ok(bool_str(a <= b)),
        Op::Equal => Ok(bool_str(a == b)),
        Op::NotEqual => Ok(bool_str(a != b)),
    }
}

/// Evaluates an expression. Literals render themselves; a variable reads the
/// current table (fatal when absent); a binary operation evaluates left then
/// right, requires both to parse as 64-bit integers, and applies the
/// operator; a call runs the named function in a fresh context that holds
/// only the bound parameters and an empty function table, and yields its
/// returned value, or "" when the body ends without returning.
pub open spec fn spec_eval_expr(fuel: nat, e: Expr, vars: VarsM, fns: FnsM, out: OutM) -> EvalR
    decreases fuel,
{
    if fuel == 0 {
        EvalR::Fuel
    } else {
        let f = (fuel - 1) as nat;
        match e {
            Expr::Int(i) => EvalR::Val(int_to_dec(i as int), out),
            Expr::Str(s) => EvalR::Val(s@, out),
            Expr::Var(name) => if vars.contains_key(name@) {
                EvalR::Val(vars[name@], out)
            } else {
                EvalR::Abort(RuntimeError::UndefinedVariable, out)
            },
            Expr::Binary(l, op, r) => match spec_eval_expr(f, *l, vars, fns, out) {
                EvalR::Fuel => EvalR::Fuel,
                EvalR::Abort(er, o) => EvalR::Abort(er, o),
                EvalR::Val(lv, o1) => if !parses_as_i64(lv) {
                    EvalR::Abort(RuntimeError::NonIntegerOperand, o1)
                } else {
                    match spec_eval_expr(f, *r, vars, fns, o1) {
                        EvalR::Fuel => EvalR::Fuel,
                        EvalR::Abort(er, o) => EvalR::Abort(er, o),
                        EvalR::Val(rv, o2) => if !parses_as_i64(rv) {
                            EvalR::Abort(RuntimeError::NonIntegerOperand, o2)
                        } else {
                            match spec_binop(op, str_int_val(lv), str_int_val(rv)) {
                                Ok(v) => EvalR::Val(v, o2),
                                Err(er) => EvalR::Abort(er, o2),
                            }
                        },
                    }
                },
            },
            Expr::Call(name, args) => if !fns.contains_key(name@) {
                EvalR::Abort(RuntimeError::UndefinedFunction, out)
            } else {
                let (params, body) = fns[name@];
                if params.len() != args@.len() {
                    EvalR::Abort(RuntimeError::ArityMismatch, out)
                } else {
                    match spec_eval_args(f, args@, 0, params, vars, fns, out, Map::empty()) {
                        ArgsR::Fuel => EvalR::Fuel,
                        ArgsR::Abort(er, o) => EvalR::Abort(er, o),
                        ArgsR::Bound(loc, o2) => spec_call_body(f, body, 0, loc, Map::empty(), o2),
                    }
                }
            },
        }
    }
}

/// Evaluates call arguments left to right in the caller's context, binding
/// each to the parameter of the same position in the fresh callee table.
pub open spec fn spec_eval_args(
    fuel: nat,
    args: Seq<Expr>,
    i: int,
    params: Seq<String>,
    vars: VarsM,
    fns: FnsM,
    out: OutM,
    loc: VarsM,
) -> ArgsR
    decreases fuel,
{
    if i >= args.len() {
        ArgsR::Bound(loc, out)
    } else if fuel == 0 {
        ArgsR::Fuel
    } else {
        let f = (fuel - 1) as nat;
        match spec_eval_expr(f, args[i], vars, fns, out) {
            EvalR::Fuel => ArgsR::Fuel,
            EvalR::Abort(er, o) => ArgsR::Abort(er, o),
            EvalR::Val(v, o2) => spec_eval_args(
                f, args, i + 1, params, vars, fns, o2, loc.insert(params[i]@, v),
            ),
        }
    }
}

/// Runs a function body for its value: statements execute in order; the
/// first `Return` signal ends the call with its value; a `Break` or
/// `Continue` reaching the function's top level is a fault; a body that ends
/// without returning yields "".
pub open spec fn spec_call_body(
    fuel: nat,
    body: Seq<Stmt>,
    i: int,
    vars: VarsM,
    fns: FnsM,
    out: OutM,
) -> EvalR
    decreases fuel,
{
    if i >= body.len() {
        EvalR::Val(Seq::empty(), out)
    } else if fuel == 0 {
        EvalR::Fuel
    } else {
        let f = (fuel - 1) as nat;
        match spec_exec_stmt(f, body[i], vars, fns, out) {
            StepR::Fuel => EvalR::Fuel,
            StepR::Abort(er, o) => EvalR::Abort(er, o),
            StepR::Next(v2, f2, o2, ctl) => match ctl {
                Ctl::Normal => spec_call_body(f, body, i + 1, v2, f2, o2),
                Ctl::Ret(v) => EvalR::Val(v, o2),
                Ctl::Brk => EvalR::Abort(RuntimeError::UnexpectedControlFlow, o2),
                Ctl::Cont => EvalR::Abort(RuntimeError::UnexpectedControlFlow, o2),
            },
        }
    }
}

/// Executes the statements of a block in order, stopping at and handing back
/// the first signal that is not `Normal`.
pub open spec fn spec_exec_block(
    fuel: nat,
    stmts: Seq<Stmt>,
    i: int,
    vars: VarsM,
    fns: FnsM,
    out: OutM,
) -> StepR
    decreases fuel,
{
    if i >= stmts.len() {
        StepR::Next(vars, fns, out, Ctl::Normal)
    } else if fuel == 0 {
        StepR::Fuel
    } else {
        let f = (fuel - 1) as nat;
        match spec_exec_stmt(f, stmts[i], vars, fns, out) {
            StepR::Fuel => StepR::Fuel,
            StepR::Abort(er, o) => StepR::Abort(er, o),
            StepR::Next(v2, f2, o2, ctl) => match ctl {
                Ctl::Normal => spec_exec_block(f, stmts, i + 1, v2, f2, o2),
                other => StepR::Next(v2, f2, o2, other),
            },
        }
    }
}

/// One `while` round: evaluate the condition; stop normally when it is
/// exactly "0"; otherwise run the body block, ending the loop on `Break`,
/// passing `Return` through, and iterating again on `Normal` or `Continue`.
pub open spec fn spec_exec_while(
    fuel: nat,
    cond: Expr,
    body: Seq<Stmt>,
    vars: VarsM,
    fns: FnsM,
    out: OutM,
) -> StepR
    decreases fuel,
{
    if fuel == 0 {
        StepR::Fuel
    } else {
        let f = (fuel - 1) as nat;
        match spec_eval_expr(f, cond, vars, fns, out) {
            EvalR::Fuel => StepR::Fuel,
            EvalR::Abort(er, o) => StepR::Abort(er, o),
            EvalR::Val(v, o2) => if !spec_while_truthy(v) {
                StepR::Next(vars, fns, o2, Ctl::Normal)
            } else {
                match spec_exec_block(f, body, 0, vars, fns, o2) {
                    StepR::Fuel => StepR::Fuel,
                    StepR::Abort(er, o) => StepR::Abort(er, o),
                    StepR::Next(v2, f2, o3, ctl) => match ctl {
                        Ctl::Brk => StepR::Next(v2, f2, o3, Ctl::Normal),
                        Ctl::Ret(x) => StepR::Next(v2, f2, o3, Ctl::Ret(x)),
                        Ctl::Normal => spec_exec_while(f, cond, body, v2, f2, o3),
                        Ctl::Cont => spec_exec_while(f, cond, body, v2, f2, o3),
                    },
                }
            },
        }
    }
}

/// Runs statements in order ignoring every control signal, as the top-level
/// driver and the statement form of a call both do; only a fault stops it.
pub open spec fn spec_drive(
    fuel: nat,
    stmts: Seq<Stmt>,
    i: int,
    vars: VarsM,
    fns: FnsM,
    out: OutM,
) -> DriveR
    decreases fuel,
{
    if i >= stmts.len() {
        DriveR::Done(vars, fns, out)
    } else if fuel == 0 {
        DriveR::Fuel
    } else {
        let f = (fuel - 1) as nat;
        match spec_exec_stmt(f, stmts[i], vars, fns, out) {
            StepR::Fuel => DriveR::Fuel,
            StepR::Abort(er, o) => DriveR::Abort(er, o),
            StepR::Next(v2, f2, o2, _ctl) => spec_drive(f, stmts, i + 1, v2, f2, o2),
        }
    }
}

/// Executes one statement against the current tables and output.
pub open spec fn spec_exec_stmt(fuel: nat, s: Stmt, vars: VarsM, fns: FnsM, out: OutM) -> StepR
    decreases fuel,
{
    if fuel == 0 {
        StepR::Fuel
    } else {
        let f = (fuel - 1) as nat;
        match s {
            Stmt::Print(e) => match spec_eval_expr(f, e, vars, fns, out) {
                EvalR::Fuel => StepR::Fuel,
                EvalR::Abort(er, o) => StepR::Abort(er, o),
                EvalR::Val(v, o2) => StepR::Next(vars, fns, o2.push(v), Ctl::Normal),
            },
            Stmt::Let(name, e) => match spec_eval_expr(f, e, vars, fns, out) {
                EvalR::Fuel => StepR::Fuel,
                EvalR::Abort(er, o) => StepR::Abort(er, o),
                EvalR::Val(v, o2) => StepR::Next(vars.insert(name@, v), fns, o2, Ctl::Normal),
            },
            Stmt::Break => StepR::Next(vars, fns, out, Ctl::Brk),
            Stmt::Continue => StepR::Next(vars, fns, out, Ctl::Cont),
            Stmt::If { condition, then_branch, else_branch } => {
                match spec_eval_expr(f, condition, vars, fns, out) {
                    EvalR::Fuel => StepR::Fuel,
                    EvalR::Abort(er, o) => StepR::Abort(er, o),
                    EvalR::Val(v, o2) => {
                        let branch = if spec_if_truthy(v) {
                            then_branch@
                        } else {
                            match else_branch {
                                Some(b) => b@,
                                None => Seq::empty(),
                            }
                        };
                        spec_exec_block(f, branch, 0, vars, fns, o2)
                    },
                }
            },
            Stmt::While { condition, body } => spec_exec_while(f, condition, body@, vars, fns, out),
            Stmt::Fn { name, params, body } => StepR::Next(
                vars,
                fns.insert(name@, (params@, body@)),
                out,
                Ctl::Normal,
            ),
            Stmt::Call(name, args) => if !fns.contains_key(name@) {
                StepR::Abort(RuntimeError::UndefinedFunction, out)
            } else {
                let (params, body) = fns[name@];
                if params.len() != args@.len() {
                    StepR::Abort(RuntimeError::ArityMismatch, out)
                } else {
                    match spec_eval_args(f, args@, 0, params, vars, fns, out, Map::empty()) {
                        ArgsR::Fuel => StepR::Fuel,
                        ArgsR::Abort(er, o) => StepR::Abort(er, o),
                        ArgsR::Bound(loc, o2) => match spec_drive(
                            f, body, 0, loc, Map::empty(), o2,
                        ) {
                            DriveR::Fuel => StepR::Fuel,
                            DriveR::Abort(er, o) => StepR::Abort(er, o),
                            DriveR::Done(_, _, o3) => StepR::Next(vars, fns, o3, Ctl::Normal),
                        },
                    }
                }
            },
            Stmt::Return(e) => match spec_eval_expr(f, e, vars, fns, out) {
                EvalR::Fuel => StepR::Fuel,
                EvalR::Abort(er, o) => StepR::Abort(er, o),
                EvalR::Val(v, o2) => StepR::Next(vars, fns, o2, Ctl::Ret(v)),
            },
        }
    }
}

/// Outcome of evaluating an expression at run time.
#[derive(Debug, PartialEq, Eq)]
pub enum EvalOutcome {
    /// The fuel bound was reached before the evaluation finished.
    OutOfFuel,
    /// A fatal runtime fault.
    Fatal(RuntimeError),
    /// The value of the expression.
    Value(String),
}

/// Outcome of executing a statement at run time.
#[derive(Debug, PartialEq, Eq)]
pub enum StmtOutcome {
    OutOfFuel,
    Fatal(RuntimeError),
    /// The control signal handed to the statement's dynamic parent.
    Ctl(LoopControl),
}

/// Outcome of binding call arguments at run time.
#[derive(Debug, PartialEq, Eq)]
pub enum ArgsOutcome {
    OutOfFuel,
    Fatal(RuntimeError),
    Bound,
}

/// Outcome of running a whole program at run time.
#[derive(Debug, PartialEq, Eq)]
pub enum RunOutcome {
    /// The source was rejected by the grammar; the message describes where.
    /// This is the sole recoverable error path.
    Syntax(String),
    /// An integer literal in the source does not fit in an `i64`.
    IntOutOfRange,
    /// The fuel bound was reached; run again with more fuel.
    OutOfFuel,
    /// A fatal runtime fault, with the lines printed before it.
    Fatal(RuntimeError, Vec<String>),
    /// The program ran to completion and printed these lines, in order.
    Finished(Vec<String>),
}

/// Truthiness used by `if`, exactly the falsy set "0", "", "false".
pub fn truthy_if(v: &String) -> (b: bool)
    ensures
        b == spec_if_truthy(v@),
{
    proof {
        reveal_strlit("0");
        reveal_strlit("false");
    }
    let zero: String = "0".to_owned();
    let fls: String = "false".to_owned();
    let falsy = *v == zero || v.as_str().is_empty() || *v == fls;
    proof {
        assert(zero@ =~= seq!['0']);
        assert(fls@ =~= seq!['f', 'a', 'l', 's', 'e']);
    }
    !falsy
}

/// Truthiness used by `while`: anything but exactly "0" keeps the loop
/// running.
pub fn truthy_while(v: &String) -> (b: bool)
    ensures
        b == spec_while_truthy(v@),
{
    proof {
        reveal_strlit("0");
    }
    let zero: String = "0".to_owned();
    proof {
        assert(zero@ =~= seq!['0']);
    }
    !(*v == zero)
}

/// "1" or "0" as a string.
fn bool_to_string(b: bool) -> (r: String)
    ensures
        r@ == bool_str(b),
{
    proof {
        reveal_strlit("0");
        reveal_strlit("1");
    }
    let r: String = if b { "1".to_owned() } else { "0".to_owned() };
    proof {
        assert(r@ =~= bool_str(b));
    }
    r
}

/// Applies a binary operator to two parsed operands, exactly as
/// `spec_binop` says.
fn apply_binop(op: Op, l: i64, r: i64) -> (res: Result<String, RuntimeError>)
    ensures
        (match (res, spec_binop(op, l as int, r as int)) {
            (Ok(s), Ok(v)) => s@ == v,
            (Err(e1), Err(e2)) => e1 == e2,
            _ => false,
        }),
{
    match op {
        Op::Add => match l.checked_add(r) {
            Some(v) => Ok(i64_to_string(v)),
            None => Err(RuntimeError::ArithmeticOverflow),
        },
        Op::Sub => match l.checked_sub(r) {
            Some(v) => Ok(i64_to_string(v)),
            None => Err(RuntimeError::ArithmeticOverflow),
        },
        Op::Mul => match l.checked_mul(r) {
            Some(v) => Ok(i64_to_string(v)),
            None => Err(RuntimeError::ArithmeticOverflow),
        },
        Op::Div => if r == 0 {
            Err(RuntimeError::DivisionByZero)
        } else {
            match l.checked_div(r) {
                Some(v) => Ok(i64_to_string(v)),
                None => Err(RuntimeError::ArithmeticOverflow),
            }
        },
        Op::Greater => Ok(bool_to_string(l > r)),
        Op::Less => Ok(bool_to_string(l < r)),
        Op::GreaterEq => Ok(bool_to_string(l >= r)),
        Op::LessEq => Ok(bool_to_string(l <= r)),
        Op::Equal => Ok(bool_to_string(l == r)),
        Op::NotEqual => Ok(bool_to_string(l != r)),
    }
}

/// Evaluates an expression within the given context, exactly as
/// `spec_eval_expr` says for the same fuel: literals render themselves,
/// variables read the context, binary operations work on 64-bit integers,
/// and calls run the named function in a fresh disjoint context.
pub fn eval_expr<'p>(fuel: u64, e: &Expr, ctx: &Context<'p>, out: &mut Vec<String>) -> (res:
    EvalOutcome)
    ensures
        (match spec_eval_expr(fuel as nat, *e, ctx.vars_model(), ctx.fns_model(), out_model(
            old(out)@,
        )) {
            EvalR::Fuel => res is OutOfFuel,
            EvalR::Abort(er, o) => res == EvalOutcome::Fatal(er) && out_model(final(out)@) == o,
            EvalR::Val(v, o) => (match res {
                EvalOutcome::Value(s) => s@ == v && out_model(final(out)@) == o,
                _ => false,
            }),
        }),
    decreases fuel,
{
    if fuel == 0 {
        return EvalOutcome::OutOfFuel;
    }
    let f = fuel - 1;
    match e {
        Expr::Int(i) => EvalOutcome::Value(i64_to_string(*i)),
        Expr::Str(s) => EvalOutcome::Value(s.clone()),
        Expr::Var(name) => match ctx.get_var(name) {
            Some(v) => EvalOutcome::Value(v.clone()),
            None => EvalOutcome::Fatal(RuntimeError::UndefinedVariable),
        },
        Expr::Binary(l, op, r) => {
            let lv = match eval_expr(f, &**l, ctx, out) {
                EvalOutcome::Value(v) => v,
                other => {
                    return other;
                },
            };
            let ln = match parse_i64(lv.as_str()) {
                Some(n) => n,
                None => {
                    return EvalOutcome::Fatal(RuntimeError::NonIntegerOperand);
                },
            };
            let rv = match eval_expr(f, &**r, ctx, out) {
                EvalOutcome::Value(v) => v,
                other => {
                    return other;
                },
            };
            let rn = match parse_i64(rv.as_str()) {
                Some(n) => n,
                None => {
                    return EvalOutcome::Fatal(RuntimeError::NonIntegerOperand);
                },
            };
            match apply_binop(*op, ln, rn) {
                Ok(s) => EvalOutcome::Value(s),
                Err(er) => EvalOutcome::Fatal(er),
            }
        },
        Expr::Call(name, args) => {
            let (params, body) = match ctx.get_function(name) {
                Some(pb) => pb,
                None => {
                    return EvalOutcome::Fatal(RuntimeError::UndefinedFunction);
                },
            };
            if params.len() != args.len() {
                return EvalOutcome::Fatal(RuntimeError::ArityMismatch);
            }
            let mut local = Context::new();
            match eval_args(f, args, 0, params, ctx, &mut local, out) {
                ArgsOutcome::Bound => {},
                ArgsOutcome::Fatal(er) => {
                    return EvalOutcome::Fatal(er);
                },
                ArgsOutcome::OutOfFuel => {
                    return EvalOutcome::OutOfFuel;
                },
            }
            run_fn_body(f, body, 0, &mut local, out)
        },
    }
}

/// Evaluates call arguments in the caller's context and binds them in the
/// fresh callee context, exactly as `spec_eval_args` says.
fn eval_args<'p>(
    fuel: u64,
    args: &Vec<Expr>,
    i: usize,
    params: &Vec<String>,
    ctx: &Context<'p>,
    local: &mut Context<'p>,
    out: &mut Vec<String>,
) -> (res: ArgsOutcome)
    requires
        i <= args@.len(),
        params@.len() == args@.len(),
    ensures
        (match spec_eval_args(
            fuel as nat,
            args@,
            i as int,
            params@,
            ctx.vars_model(),
            ctx.fns_model(),
            out_model(old(out)@),
            old(local).vars_model(),
        ) {
            ArgsR::Fuel => res is OutOfFuel,
            ArgsR::Abort(er, o) => res == ArgsOutcome::Fatal(er) && out_model(final(out)@) == o,
            ArgsR::Bound(loc, o) => res is Bound && final(local).vars_model() == loc && out_model(
                final(out)@,
            ) == o && final(local).fns_model() == old(local).fns_model(),
        }),
    decreases fuel,
{
    if i == args.len() {
        return ArgsOutcome::Bound;
    }
    if fuel == 0 {
        return ArgsOutcome::OutOfFuel;
    }
    let f = fuel - 1;
    match eval_expr(f, &args[i], ctx, out) {
        EvalOutcome::Value(v) => {
            local.set_var(&params[i], v);
            eval_args(f, args, i + 1, params, ctx, local, out)
        },
        EvalOutcome::Fatal(er) => ArgsOutcome::Fatal(er),
        EvalOutcome::OutOfFuel => ArgsOutcome::OutOfFuel,
    }
}

/// Runs a function body for its value, exactly as `spec_call_body` says:
/// the first `Return` ends the call, a stray `Break` or `Continue` is a
/// fault, and falling off the end yields "".
fn run_fn_body<'p>(
    fuel: u64,
    body: &'p Vec<Stmt>,
    i: usize,
    local: &mut Context<'p>,
    out: &mut Vec<String>,
) -> (res: EvalOutcome)
    requires
        i <= body@.len(),
    ensures
        (match spec_call_body(
            fuel as nat,
            body@,
            i as int,
            old(local).vars_model(),
            old(local).fns_model(),
            out_model(old(out)@),
        ) {
            EvalR::Fuel => res is OutOfFuel,
            EvalR::Abort(er, o) => res == EvalOutcome::Fatal(er) && out_model(final(out)@) == o,
            EvalR::Val(v, o) => (match res {
                EvalOutcome::Value(s) => s@ == v && out_model(final(out)@) == o,
                _ => false,
            }),
        }),
    decreases fuel,
{
    if i == body.len() {
        return EvalOutcome::Value(String::new());
    }
    if fuel == 0 {
        return EvalOutcome::OutOfFuel;
    }
    let f = fuel - 1;
    match exec_stmt(f, &body[i], local, out) {
        StmtOutcome::Ctl(LoopControl::Normal) => run_fn_body(f, body, i + 1, local, out),
        StmtOutcome::Ctl(LoopControl::Return(v)) => EvalOutcome::Value(v),
        StmtOutcome::Ctl(_) => EvalOutcome::Fatal(RuntimeError::UnexpectedControlFlow),
        StmtOutcome::Fatal(er) => EvalOutcome::Fatal(er),
        StmtOutcome::OutOfFuel => EvalOutcome::OutOfFuel,
    }
}

/// Executes the statements of a block in order, exactly as
/// `spec_exec_block` says, handing back the first non-`Normal` signal.
fn exec_block<'p>(
    fuel: u64,
    stmts: &'p Vec<Stmt>,
    i: usize,
    ctx: &mut Context<'p>,
    out: &mut Vec<String>,
) -> (res: StmtOutcome)
    requires
        i <= stmts@.len(),
    ensures
        (match spec_exec_block(
            fuel as nat,
            stmts@,
            i as int,
            old(ctx).vars_model(),
            old(ctx).fns_model(),
            out_model(old(out)@),
        ) {
            StepR::Fuel => res is OutOfFuel,
            StepR::Abort(er, o) => res == StmtOutcome::Fatal(er) && out_model(final(out)@) == o,
            StepR::Next(v2, f2, o2, c) => (match res {
                StmtOutcome::Ctl(lc) => ctl_model(lc) == c && final(ctx).vars_model() == v2
                    && final(ctx).fns_model() == f2 && out_model(final(out)@) == o2,
                _ => false,
            }),
        }),
    decreases fuel,
{
    if i == stmts.len() {
        return StmtOutcome::Ctl(LoopControl::Normal);
    }
    if fuel == 0 {
        return StmtOutcome::OutOfFuel;
    }
    let f = fuel - 1;
    match exec_stmt(f, &stmts[i], ctx, out) {
        StmtOutcome::Ctl(LoopControl::Normal) => exec_block(f, stmts, i + 1, ctx, out),
        other => other,
    }
}

/// Runs one `while` loop, exactly as `spec_exec_while` says.
fn exec_while<'p>(
    fuel: u64,
    cond: &Expr,
    body: &'p Vec<Stmt>,
    ctx: &mut Context<'p>,
    out: &mut Vec<String>,
) -> (res: StmtOutcome)
    ensures
        (match spec_exec_while(
            fuel as nat,
            *cond,
            body@,
            old(ctx).vars_model(),
            old(ctx).fns_model(),
            out_model(old(out)@),
        ) {
            StepR::Fuel => res is OutOfFuel,
            StepR::Abort(er, o) => res == StmtOutcome::Fatal(er) && out_model(final(out)@) == o,
            StepR::Next(v2, f2, o2, c) => (match res {
                StmtOutcome::Ctl(lc) => ctl_model(lc) == c && final(ctx).vars_model() == v2
                    && final(ctx).fns_model() == f2 && out_model(final(out)@) == o2,
                _ => false,
            }),
        }),
    decreases fuel,
{
    if fuel == 0 {
        return StmtOutcome::OutOfFuel;
    }
    let f = fuel - 1;
    let v = match eval_expr(f, cond, ctx, out) {
        EvalOutcome::Value(v) => v,
        EvalOutcome::Fatal(er) => {
            return StmtOutcome::Fatal(er);
        },
        EvalOutcome::OutOfFuel => {
            return StmtOutcome::OutOfFuel;
        },
    };
    if !truthy_while(&v) {
        return StmtOutcome::Ctl(LoopControl::Normal);
    }
    match exec_block(f, body, 0, ctx, out) {
        StmtOutcome::Ctl(LoopControl::Normal) => exec_while(f, cond, body, ctx, out),
        StmtOutcome::Ctl(LoopControl::Continue) => exec_while(f, cond, body, ctx, out),
        StmtOutcome::Ctl(LoopControl::Break) => StmtOutcome::Ctl(LoopControl::Normal),
        StmtOutcome::Ctl(LoopControl::Return(x)) => StmtOutcome::Ctl(LoopControl::Return(x)),
        StmtOutcome::Fatal(er) => StmtOutcome::Fatal(er),
        StmtOutcome::OutOfFuel => StmtOutcome::OutOfFuel,
    }
}

/// Runs statements in order ignoring control signals, exactly as
/// `spec_drive` says; used by the top-level driver and by the statement
/// form of a call.
fn drive<'p>(
    fuel: u64,
    stmts: &'p Vec<Stmt>,
    i: usize,
    ctx: &mut Context<'p>,
    out: &mut Vec<String>,
) -> (res: ArgsOutcome)
    requires
        i <= stmts@.len(),
    ensures
        (match spec_drive(
            fuel as nat,
            stmts@,
            i as int,
            old(ctx).vars_model(),
            old(ctx).fns_model(),
            out_model(old(out)@),
        ) {
            DriveR::Fuel => res is OutOfFuel,
            DriveR::Abort(er, o) => res == ArgsOutcome::Fatal(er) && out_model(final(out)@) == o,
            DriveR::Done(v2, f2, o2) => res is Bound && final(ctx).vars_model() == v2
                && final(ctx).fns_model() == f2 && out_model(final(out)@) == o2,
        }),
    decreases fuel,
{
    if i == stmts.len() {
        return ArgsOutcome::Bound;
    }
    if fuel == 0 {
        return ArgsOutcome::OutOfFuel;
    }
    let f = fuel - 1;
    match exec_stmt(f, &stmts[i], ctx, out) {
        StmtOutcome::Ctl(_) => drive(f, stmts, i + 1, ctx, out),
        StmtOutcome::Fatal(er) => ArgsOutcome::Fatal(er),
        StmtOutcome::OutOfFuel => ArgsOutcome::OutOfFuel,
    }
}

/// Executes a single statement within the given mutable context, exactly as
/// `spec_exec_stmt` says for the same fuel, and returns the control signal
/// for the statement's dynamic parent.
pub fn exec_stmt<'p>(fuel: u64, s: &'p Stmt, ctx: &mut Context<'p>, out: &mut Vec<String>) -> (res:
    StmtOutcome)
    ensures
        (match spec_exec_stmt(fuel as nat, *s, old(ctx).vars_model(), old(ctx).fns_model(),
        out_model(old(out)@)) {
            StepR::Fuel => res is OutOfFuel,
            StepR::Abort(er, o) => res == StmtOutcome::Fatal(er) && out_model(final(out)@) == o,
            StepR::Next(v2, f2, o2, c) => (match res {
                StmtOutcome::Ctl(lc) => ctl_model(lc) == c && final(ctx).vars_model() == v2
                    && final(ctx).fns_model() == f2 && out_model(final(out)@) == o2,
                _ => false,
            }),
        }),
    decreases fuel,
{
    if fuel == 0 {
        return StmtOutcome::OutOfFuel;
    }
    let f = fuel - 1;
    match s {
        Stmt::Print(e) => match eval_expr(f, e, ctx, out) {
            EvalOutcome::Value(v) => {
                let ghost prev = out@;
                out.push(v);
                proof {
                    assert(out_model(out@) =~= out_model(prev).push(out@.last()@));
                }
                StmtOutcome::Ctl(LoopControl::Normal)
            },
            EvalOutcome::Fatal(er) => StmtOutcome::Fatal(er),
            EvalOutcome::OutOfFuel => StmtOutcome::OutOfFuel,
        },
        Stmt::Let(name, e) => match eval_expr(f, e, ctx, out) {
            EvalOutcome::Value(v) => {
                ctx.set_var(name, v);
                StmtOutcome::Ctl(LoopControl::Normal)
            },
            EvalOutcome::Fatal(er) => StmtOutcome::Fatal(er),
            EvalOutcome::OutOfFuel => StmtOutcome::OutOfFuel,
        },
        Stmt::Break => StmtOutcome::Ctl(LoopControl::Break),
        Stmt::Continue => StmtOutcome::Ctl(LoopControl::Continue),
        Stmt::If { condition, then_branch, else_branch } => {
            let v = match eval_expr(f, condition, ctx, out) {
                EvalOutcome::Value(v) => v,
                EvalOutcome::Fatal(er) => {
                    return StmtOutcome::Fatal(er);
                },
                EvalOutcome::OutOfFuel => {
                    return StmtOutcome::OutOfFuel;
                },
            };
            if truthy_if(&v) {
                exec_block(f, then_branch, 0, ctx, out)
            } else {
                match else_branch {
                    Some(eb) => exec_block(f, eb, 0, ctx, out),
                    None => StmtOutcome::Ctl(LoopControl::Normal),
                }
            }
        },
        Stmt::While { condition, body } => exec_while(f, condition, body, ctx, out),
        Stmt::Fn { name, params, body } => {
            ctx.define_function(name, params, body);
            StmtOutcome::Ctl(LoopControl::Normal)
        },
        Stmt::Call(name, args) => {
            let (params, body) = match ctx.get_function(name) {
                Some(pb) => pb,
                None => {
                    return StmtOutcome::Fatal(RuntimeError::UndefinedFunction);
                },
            };
            if params.len() != args.len() {
                return StmtOutcome::Fatal(RuntimeError::ArityMismatch);
            }
            let mut local = Context::new();
            match eval_args(f, args, 0, params, &*ctx, &mut local, out) {
                ArgsOutcome::Bound => {},
                ArgsOutcome::Fatal(er) => {
                    return StmtOutcome::Fatal(er);
                },
                ArgsOutcome::OutOfFuel => {
                    return StmtOutcome::OutOfFuel;
                },
            }
            match drive(f, body, 0, &mut local, out) {
                ArgsOutcome::Bound => StmtOutcome::Ctl(LoopControl::Normal),
                ArgsOutcome::Fatal(er) => StmtOutcome::Fatal(er),
                ArgsOutcome::OutOfFuel => StmtOutcome::OutOfFuel,
            }
        },
        Stmt::Return(e) => match eval_expr(f, e, ctx, out) {
            EvalOutcome::Value(v) => StmtOutcome::Ctl(LoopControl::Return(v)),
            EvalOutcome::Fatal(er) => StmtOutcome::Fatal(er),
            EvalOutcome::OutOfFuel => StmtOutcome::OutOfFuel,
        },
    }
}

/// Runs a whole program against a fresh context, exactly as `spec_drive`
/// says: statements execute in order, control signals at top level are
/// ignored, and only a fault or fuel exhaustion stops the run early.
pub fn exec_program(fuel: u64, program: &Vec<Stmt>) -> (r: RunOutcome)
    ensures
        (match spec_drive(
            fuel as nat,
            program@,
            0,
            Map::empty(),
            Map::empty(),
            Seq::empty(),
        ) {
            DriveR::Fuel => r is OutOfFuel,
            DriveR::Abort(er, o) => (match r {
                RunOutcome::Fatal(e2, lines) => e2 == er && out_model(lines@) == o,
                _ => false,
            }),
            DriveR::Done(_, _, o) => (match r {
                RunOutcome::Finished(lines) => out_model(lines@) == o,
                _ => false,
            }),
        }),
{
    let mut ctx = Context::new();
    let mut out: Vec<String> = Vec::new();
    proof {
        assert(out_model(out@) =~= Seq::<Seq<char>>::empty());
    }
    match drive(fuel, program, 0, &mut ctx, &mut out) {
        ArgsOutcome::Bound => RunOutcome::Finished(out),
        ArgsOutcome::Fatal(er) => RunOutcome::Fatal(er, out),
        ArgsOutcome::OutOfFuel => RunOutcome::OutOfFuel,
    }
}

/// Magnitude of an integer.
pub open spec fn abs_val(x: int) -> int {
    if x < 0 { -x } else { x }
}

/// Law: `div_trunc` is the division the host performs on 64-bit integers —
/// the quotient of the magnitudes with the sign of the operands, so that it
/// rounds toward zero and leaves a remainder smaller than the divisor with
/// the sign of the dividend.
pub proof fn lemma_div_trunc_properties(a: int, b: int)
    requires
        b != 0,
    ensures
        abs_val(div_trunc(a, b)) == abs_val(a) / abs_val(b),
        a == b * div_trunc(a, b) + (a - b * div_trunc(a, b)),
        abs_val(a - b * div_trunc(a, b)) < abs_val(b),
        a - b * div_trunc(a, b) == 0 || ((a - b * div_trunc(a, b) > 0) == (a > 0)),
        div_trunc(a, b) == 0 || ((div_trunc(a, b) > 0) == ((a > 0) == (b > 0))),
{
    let m = abs_val(a);
    let n = abs_val(b);
    let q0 = m / n;
    let r0 = m % n;
    vstd::arithmetic::div_mod::lemma_fundamental_div_mod(m, n);
    vstd::arithmetic::div_mod::lemma_mod_division_less_than_divisor(m, n);
    vstd::arithmetic::div_mod::lemma_div_pos_is_pos(m, n);
    assert(m == n * q0 + r0);
    assert(0 <= r0 < n);
    assert(0 <= q0);
    if a == 0 {
        assert(div_trunc(a, b) == 0);
        vstd::arithmetic::div_mod::lemma_div_of0(n);
    } else if a > 0 && b > 0 {
        assert(div_trunc(a, b) == q0);
    } else if a < 0 && b < 0 {
        assert(div_trunc(a, b) == q0);
        assert(a - b * q0 == -(m - n * q0)) by (nonlinear_arith)
            requires a == -m && b == -n,
        ;
    } else if a < 0 {
        assert(div_trunc(a, b) == q0 * -1);
        assert(a - b * (q0 * -1) == -(m - n * q0)) by (nonlinear_arith)
            requires a == -m && b == n,
        ;
    } else {
        assert(div_trunc(a, b) == q0 * -1);
        assert(a - b * (q0 * -1) == m - n * q0) by (nonlinear_arith)
            requires a == m && b == -n,
        ;
    }
}

/// Law: for 64-bit integers `a` and `b` with `b != 0`, evaluating the
/// expression `a / b` yields the truncated quotient rendered in decimal
/// (the one pair that overflows, `i64::MIN / -1`, faults instead, as the
/// host's division does).
pub proof fn lemma_division_truncates(
    fuel: nat,
    l: Box<Expr>,
    r: Box<Expr>,
    a: i64,
    b: i64,
    vars: VarsM,
    fns: FnsM,
    out: OutM,
)
    requires
        fuel >= 2,
        *l == Expr::Int(a),
        *r == Expr::Int(b),
        b != 0,
        !(a == i64::MIN && b == -1),
    ensures
        spec_eval_expr(fuel, Expr::Binary(l, Op::Div, r), vars, fns, out) == EvalR::Val(
            int_to_dec(div_trunc(a as int, b as int)),
            out,
        ),
{
    reveal_with_fuel(spec_eval_expr, 3);
    crate::num::lemma_dec_roundtrip(a as int);
    crate::num::lemma_dec_roundtrip(b as int);
    lemma_div_trunc_properties(a as int, b as int);
    let m = abs_val(a as int);
    let n = abs_val(b as int);
    let q = div_trunc(a as int, b as int);
    assert(abs_val(q) == m / n);
    if n == 1 {
        vstd::arithmetic::div_mod::lemma_div_by_self(1);
        assert(m / 1 == m) by {
            vstd::arithmetic::div_mod::lemma_fundamental_div_mod(m, 1);
            vstd::arithmetic::div_mod::lemma_mod_division_less_than_divisor(m, 1);
        }
        assert(abs_val(q) == m);
        assert(i64::MIN <= q <= i64::MAX);
    } else {
        assert(m / n <= m / 2) by {
            vstd::arithmetic::div_mod::lemma_div_is_ordered_by_denominator(m, 2, n);
        }
        assert(m / 2 <= 4611686018427387904) by {
            vstd::arithmetic::div_mod::lemma_div_is_ordered(m, 9223372036854775808, 2);
        }
        assert(i64::MIN <= q <= i64::MAX);
    }
    assert(spec_binop(Op::Div, a as int, b as int) == Ok::<Seq<char>, RuntimeError>(
        int_to_dec(q),
    ));
}

/// Law: evaluating `a / 0` is a division-by-zero fault for every dividend.
pub proof fn lemma_division_by_zero_fatal(
    fuel: nat,
    l: Box<Expr>,
    r: Box<Expr>,
    a: i64,
    vars: VarsM,
    fns: FnsM,
    out: OutM,
)
    requires
        fuel >= 2,
        *l == Expr::Int(a),
        *r == Expr::Int(0),
    ensures
        spec_eval_expr(fuel, Expr::Binary(l, Op::Div, r), vars, fns, out) == EvalR::Abort(
            RuntimeError::DivisionByZero,
            out,
        ),
{
    reveal_with_fuel(spec_eval_expr, 3);
    crate::num::lemma_dec_roundtrip(a as int);
    crate::num::lemma_dec_roundtrip(0);
}

/// Law: the truthiness rules of `if` and `while` diverge exactly on the
/// empty string and on "false", which stop an `if` but keep a `while`
/// running; everything truthy for `if` is also truthy for `while`.
pub proof fn lemma_truthiness_divergence()
    ensures
        spec_while_truthy(Seq::<char>::empty()) && !spec_if_truthy(Seq::<char>::empty()),
        spec_while_truthy(seq!['f', 'a', 'l', 's', 'e']) && !spec_if_truthy(
            seq!['f', 'a', 'l', 's', 'e'],
        ),
        !spec_while_truthy(seq!['0']) && !spec_if_truthy(seq!['0']),
        forall|v: Seq<char>| spec_if_truthy(v) ==> spec_while_truthy(v),
{
    assert(Seq::<char>::empty().len() == 0);
    assert(seq!['f', 'a', 'l', 's', 'e'].len() == 5);
    assert(seq!['0'].len() == 1);
}

/// Law: a call's fresh context starts with an empty function table, so a
/// function body can call no user-defined function at all — not even the
/// one being executed. Any call evaluated against the empty table faults as
/// undefined, whatever its name and arguments.
pub proof fn lemma_fresh_context_blocks_calls(
    fuel: nat,
    name: String,
    args: Vec<Expr>,
    vars: VarsM,
    out: OutM,
)
    requires
        fuel >= 1,
    ensures
        spec_eval_expr(fuel, Expr::Call(name, args), vars, Map::empty(), out) == EvalR::Abort(
            RuntimeError::UndefinedFunction,
            out,
        ),
{
    assert(!Map::<Seq<char>, (Seq<String>, Seq<Stmt>)>::empty().contains_key(name@));
}

/// Law: an `if` chooses its branch by the falsy set alone — with a string
/// condition it runs the then branch exactly when the string is neither
/// "0" nor "" nor "false", and the else branch otherwise.
pub proof fn lemma_if_branches_on_truthiness(
    fuel: nat,
    s: String,
    tb: Vec<Stmt>,
    eb: Vec<Stmt>,
    vars: VarsM,
    fns: FnsM,
    out: OutM,
)
    requires
        fuel >= 2,
    ensures
        spec_exec_stmt(
            fuel,
            (Stmt::If { condition: Expr::Str(s), then_branch: tb, else_branch: Some(eb) }),
            vars,
            fns,
            out,
        ) == spec_exec_block(
            (fuel - 1) as nat,
            if spec_if_truthy(s@) { tb@ } else { eb@ },
            0,
            vars,
            fns,
            out,
        ),
{
    reveal_with_fuel(spec_exec_stmt, 2);
    reveal_with_fuel(spec_eval_expr, 2);
}

/// Law: a stray `break` or `continue` under the top-level driver has no
/// observable effect at all — it changes no table and prints nothing, and
/// the driver simply proceeds with the next statement.
pub proof fn lemma_stray_break_continue_harmless(
    fuel: nat,
    stmts: Seq<Stmt>,
    i: int,
    vars: VarsM,
    fns: FnsM,
    out: OutM,
)
    requires
        fuel >= 2,
        0 <= i < stmts.len(),
        stmts[i] == Stmt::Break || stmts[i] == Stmt::Continue,
    ensures
        spec_drive(fuel, stmts, i, vars, fns, out) == spec_drive(
            (fuel - 1) as nat,
            stmts,
            i + 1,
            vars,
            fns,
            out,
        ),
{
    reveal_with_fuel(spec_drive, 2);
    reveal_with_fuel(spec_exec_stmt, 2);
}

/// Law: calling a function with the wrong number of arguments is fatal,
/// before any argument is evaluated.
pub proof fn lemma_arity_mismatch_fatal(
    fuel: nat,
    name: String,
    args: Vec<Expr>,
    vars: VarsM,
    fns: FnsM,
    out: OutM,
)
    requires
        fuel >= 1,
        fns.contains_key(name@),
        fns[name@].0.len() != args@.len(),
    ensures
        spec_eval_expr(fuel, Expr::Call(name, args), vars, fns, out) == EvalR::Abort(
            RuntimeError::ArityMismatch,
            out,
        ),
{
}

} // verus!
