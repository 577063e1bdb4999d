//! A small scripting language: a recursive-descent parser into a statement
//! AST, and a fuel-bounded tree-walking evaluator over a mutable context of
//! string-valued variables and user-defined functions.

pub mod ast;
pub mod eval;
pub mod grammar;
pub mod num;
pub mod parser;

pub use ast::{Context, Expr, LoopControl, Op, RuntimeError, Stmt};
pub use eval::{eval_expr, exec_program, exec_stmt, EvalOutcome, RunOutcome, StmtOutcome};
pub use num::{parse_i64, i64_to_string};
pub use parser::{run, DashParser, ParseOutcome};
