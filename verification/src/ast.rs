//! The abstract syntax tree the interpreter consumes.  It is produced by an
//! external parser and read here without further syntactic validation.

use vstd::prelude::*;

verus! {

/// An expression node.  Binary nodes evaluate their left operand before
/// their right one; the two input forms read one line from the console.
pub enum Expression {
    Add(Box<Expression>, Box<Expression>),
    Subtract(Box<Expression>, Box<Expression>),
    Multiply(Box<Expression>, Box<Expression>),
    Divide(Box<Expression>, Box<Expression>),
    UnaryMinus(Box<Expression>),
    Equals(Box<Expression>, Box<Expression>),
    NotEquals(Box<Expression>, Box<Expression>),
    GreaterThan(Box<Expression>, Box<Expression>),
    LessThan(Box<Expression>, Box<Expression>),
    Integer(i64),
    StringLiteral(String),
    Symbol(String),
    InputNumber,
    InputString,
}

/// A statement.  Conditional and loop bodies are statement sequences that
/// share the single flat symbol table; the language has no lexical scoping.
pub enum Statement {
    /// Bind a new name to the `Unknown` placeholder.
    Declaration(String),
    /// Overwrite the binding of an already declared name.
    Assignment(String, Expression),
    /// Execute the first body when the condition is true, the second
    /// (when present) when it is false.
    Conditional(Expression, Vec<Statement>, Option<Vec<Statement>>),
    /// Re-evaluate the condition before every iteration; execute the body
    /// while it is true.
    Loop(Expression, Vec<Statement>),
    /// Render the value of the expression and emit it, with no separator.
    Write(Expression),
}

/// A whole program: the root sequence of statements.
pub struct SourceUnit(pub Vec<Statement>);

/// Whether an expression contains one of the console input forms.
pub open spec fn expr_reads_input(e: Expression) -> bool
    decreases e,
{
    match e {
        Expression::Add(l, r) => expr_reads_input(*l) || expr_reads_input(*r),
        Expression::Subtract(l, r) => expr_reads_input(*l) || expr_reads_input(*r),
        Expression::Multiply(l, r) => expr_reads_input(*l) || expr_reads_input(*r),
        Expression::Divide(l, r) => expr_reads_input(*l) || expr_reads_input(*r),
        Expression::UnaryMinus(x) => expr_reads_input(*x),
        Expression::Equals(l, r) => expr_reads_input(*l) || expr_reads_input(*r),
        Expression::NotEquals(l, r) => expr_reads_input(*l) || expr_reads_input(*r),
        Expression::GreaterThan(l, r) => expr_reads_input(*l) || expr_reads_input(*r),
        Expression::LessThan(l, r) => expr_reads_input(*l) || expr_reads_input(*r),
        Expression::Integer(_) => false,
        Expression::StringLiteral(_) => false,
        Expression::Symbol(_) => false,
        Expression::InputNumber => true,
        Expression::InputString => true,
    }
}

/// Whether a statement contains one of the console input forms.
pub open spec fn stmt_reads_input(s: Statement) -> bool
    decreases s,
{
    match s {
        Statement::Declaration(_) => false,
        Statement::Assignment(_, e) => expr_reads_input(e),
        Statement::Conditional(c, truebody, falsebody) => expr_reads_input(c)
            || stmts_read_input(truebody@) || (match falsebody {
            Some(b) => stmts_read_input(b@),
            None => false,
        }),
        Statement::Loop(c, body) => expr_reads_input(c) || stmts_read_input(body@),
        Statement::Write(e) => expr_reads_input(e),
    }
}

/// Whether any statement of a sequence contains a console input form.
pub open spec fn stmts_read_input(ss: Seq<Statement>) -> bool
    decreases ss,
{
    if ss.len() == 0 {
        false
    } else {
        stmt_reads_input(ss[0]) || stmts_read_input(ss.drop_first())
    }
}

} // verus!
