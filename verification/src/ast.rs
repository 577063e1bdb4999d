//! The abstract syntax tree, the runtime context, and their mathematical
//! models. All runtime values are strings; the context maps names to string
//! values and to user-defined functions.

use vstd::prelude::*;
use vstd::hash_map::StringHashMap;

verus! {

/// Supported binary operators.
#[derive(Debug, Clone, Copy, PartialEq, Eq, Structural)]
pub enum Op {
    Add,
    Sub,
    Mul,
    Div,
    Greater,
    Less,
    GreaterEq,
    LessEq,
    Equal,
    NotEqual,
}

/// An expression.
#[derive(Debug)]
pub enum Expr {
    /// An integer literal.
    Int(i64),
    /// A string literal.
    Str(String),
    /// A variable reference.
    Var(String),
    /// A function call used as a value.
    Call(String, Vec<Expr>),
    /// A binary arithmetic or comparison operation.
    Binary(Box<Expr>, Op, Box<Expr>),
}

/// A statement.
#[derive(Debug)]
pub enum Stmt {
    /// Prints the result of an expression as one line of output.
    Print(Expr),
    /// Declares or updates a variable.
    Let(String, Expr),
    /// Conditional execution.
    If { condition: Expr, then_branch: Vec<Stmt>, else_branch: Option<Vec<Stmt>> },
    /// Looping construct.
    While { condition: Expr, body: Vec<Stmt> },
    /// Exits a loop early.
    Break,
    /// Skips to the next loop iteration.
    Continue,
    /// Defines a function.
    Fn { name: String, params: Vec<String>, body: Vec<Stmt> },
    /// Calls a function as a statement, discarding its control signals.
    Call(String, Vec<Expr>),
    /// Returns a value from a function.
    Return(Expr),
}

/// Control flow signal produced by executing one statement and consumed by
/// its dynamic parent (loop, block, or call site).
#[derive(Debug, PartialEq, Eq)]
pub enum LoopControl {
    Normal,
    Break,
    Continue,
    Return(String),
}

/// A fatal runtime fault. The library reports it as a value; the process
/// around the library is expected to terminate on receipt.
#[derive(Debug, Clone, Copy, PartialEq, Eq, Structural)]
pub enum RuntimeError {
    UndefinedVariable,
    UndefinedFunction,
    ArityMismatch,
    NonIntegerOperand,
    DivisionByZero,
    ArithmeticOverflow,
    UnexpectedControlFlow,
}

/// The runtime context: variable bindings and function definitions. The
/// function table borrows parameter lists and bodies from the program AST,
/// which outlives every context.
pub struct Context<'p> {
    /// Variable names to their string values.
    pub variables: StringHashMap<String>,
    /// Function names to their parameter list and body.
    pub functions: StringHashMap<(&'p Vec<String>, &'p Vec<Stmt>)>,
}

impl<'p> Context<'p> {
    /// The variable table as a map from names to values.
    pub open spec fn vars_model(self) -> Map<Seq<char>, Seq<char>> {
        Map::new(
            |k: Seq<char>| self.variables@.contains_key(k),
            |k: Seq<char>| self.variables@[k]@,
        )
    }

    /// The function table as a map from names to parameter lists and bodies.
    pub open spec fn fns_model(self) -> Map<Seq<char>, (Seq<String>, Seq<Stmt>)> {
        Map::new(
            |k: Seq<char>| self.functions@.contains_key(k),
            |k: Seq<char>| (self.functions@[k].0@, self.functions@[k].1@),
        )
    }

    /// A fresh context with no variables and no functions.
    pub fn new() -> (r: Self)
        ensures
            r.vars_model() == Map::<Seq<char>, Seq<char>>::empty(),
            r.fns_model() == Map::<Seq<char>, (Seq<String>, Seq<Stmt>)>::empty(),
    {
        let r = Context { variables: StringHashMap::new(), functions: StringHashMap::new() };
        proof {
            assert(r.vars_model() =~= Map::<Seq<char>, Seq<char>>::empty());
            assert(r.fns_model() =~= Map::<Seq<char>, (Seq<String>, Seq<Stmt>)>::empty());
        }
        r
    }

    /// Looks a variable up by name.
    pub fn get_var(&self, name: &String) -> (r: Option<&String>)
        ensures
            (match r {
                Some(v) => self.vars_model().contains_key(name@) && v@ == self.vars_model()[name@],
                None => !self.vars_model().contains_key(name@),
            }),
    {
        self.variables.get(name.as_str())
    }

    /// Binds a variable, overwriting any previous value.
    pub fn set_var(&mut self, name: &String, value: String)
        ensures
            final(self).vars_model() == old(self).vars_model().insert(name@, value@),
            final(self).fns_model() == old(self).fns_model(),
    {
        self.variables.insert(name.clone(), value);
        proof {
            assert(self.vars_model() =~= old(self).vars_model().insert(name@, value@));
            assert(self.fns_model() =~= old(self).fns_model());
        }
    }

    /// Registers a function definition, overwriting any previous one of the
    /// same name.
    pub fn define_function(&mut self, name: &String, params: &'p Vec<String>, body: &'p Vec<Stmt>)
        ensures
            final(self).fns_model() == old(self).fns_model().insert(name@, (params@, body@)),
            final(self).vars_model() == old(self).vars_model(),
    {
        self.functions.insert(name.clone(), (params, body));
        proof {
            assert(self.fns_model() =~= old(self).fns_model().insert(name@, (params@, body@)));
            assert(self.vars_model() =~= old(self).vars_model());
        }
    }

    /// Looks a function up by name.
    pub fn get_function(&self, name: &String) -> (r: Option<(&'p Vec<String>, &'p Vec<Stmt>)>)
        ensures
            (match r {
                Some(pb) => self.fns_model().contains_key(name@)
                    && pb.0@ == self.fns_model()[name@].0
                    && pb.1@ == self.fns_model()[name@].1,
                None => !self.fns_model().contains_key(name@),
            }),
    {
        match self.functions.get(name.as_str()) {
            Some(pb) => Some(*pb),
            None => None,
        }
    }
}

impl<'p> Default for Context<'p> {
    /// A fresh, empty context.
    fn default() -> (r: Self)
        ensures
            r.vars_model() == Map::<Seq<char>, Seq<char>>::empty(),
            r.fns_model() == Map::<Seq<char>, (Seq<String>, Seq<Stmt>)>::empty(),
    {
        Context::new()
    }
}

} // verus!
