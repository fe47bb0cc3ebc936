//! The mathematical semantics of the language: a big-step evaluator for
//! expressions and a fuel-indexed big-step executor for statements, both
//! over a symbol table modelled as a map from names to value views.
//!
//! Fuel bounds loop iteration only: each iteration of a `Loop` statement
//! spends one unit, and the body runs on the remainder.  A run that spends
//! its whole budget stops with `Control::Spent` and the state reached so
//! far; nothing else consumes fuel, so a program without loops never stops
//! this way.
//!
//! The two console input forms are outside this model: their value depends
//! on the console, not on the program state.  `sem_expr` leaves them
//! unconstrained, and the executor's contract speaks only of programs in
//! which `expr_reads_input` / `stmts_read_input` is false.

use vstd::prelude::*;

use crate::ast::Expression;
use crate::ast::Statement;
use crate::value::ErrorView;
use crate::value::ValueView;
use crate::value::spec_add;
use crate::value::spec_divide;
use crate::value::spec_equals;
use crate::value::spec_greater_than;
use crate::value::spec_less_than;
use crate::value::spec_multiply;
use crate::value::spec_negate;
use crate::value::spec_not_equals;
use crate::value::spec_render;
use crate::value::spec_subtract;
use crate::value::spec_truth;

verus! {

/// The model of the interpreter's mutable state: the symbol table and the
/// text written to the console so far.
pub struct RunState {
    pub env: Map<Seq<char>, ValueView>,
    pub out: Seq<char>,
}

/// How a statement run ended: normally, with a fatal error, or with the
/// fuel budget spent before the run was over.
pub enum Control {
    Done,
    Fault(ErrorView),
    Spent,
}

/// The state a statement run reached, with how it ended.  On `Fault` and
/// `Spent` the state is the partial state at the stopping point: bindings
/// and output made before the stop are kept, nothing is rolled back.
pub struct StepResult {
    pub state: RunState,
    pub control: Control,
}

/// A run that ended normally in state `st`.
pub open spec fn step_done(st: RunState) -> StepResult {
    StepResult { state: st, control: Control::Done }
}

/// A run that stopped at error `e` in state `st`.
pub open spec fn step_fault(st: RunState, e: ErrorView) -> StepResult {
    StepResult { state: st, control: Control::Fault(e) }
}

/// A run that spent its fuel in state `st`.
pub open spec fn step_spent(st: RunState) -> StepResult {
    StepResult { state: st, control: Control::Spent }
}

/// What reading a name yields: `UndeclaredSymbol` for a name not in the
/// table, `UseOfUninitialized` for one declared but never assigned, and
/// otherwise the bound value.
pub open spec fn sem_lookup(env: Map<Seq<char>, ValueView>, name: Seq<char>) -> Result<
    ValueView,
    ErrorView,
> {
    if !env.contains_key(name) {
        Err(ErrorView::UndeclaredSymbol(name))
    } else if env[name] == ValueView::Unknown {
        Err(ErrorView::UseOfUninitialized(name))
    } else {
        Ok(env[name])
    }
}

/// The value of an expression under symbol table `env`: a recursive
/// reduction, left operand before right, propagating the first error.
/// The console input forms are unconstrained here (see the module note).
pub open spec fn sem_expr(env: Map<Seq<char>, ValueView>, e: Expression) -> Result<
    ValueView,
    ErrorView,
>
    decreases e,
{
    match e {
        Expression::Add(l, r) => sem_binary(sem_expr(env, *l), sem_expr(env, *r), |a: ValueView, b: ValueView| spec_add(a, b)),
        Expression::Subtract(l, r) => sem_binary(
            sem_expr(env, *l),
            sem_expr(env, *r),
            |a: ValueView, b: ValueView| spec_subtract(a, b),
        ),
        Expression::Multiply(l, r) => sem_binary(
            sem_expr(env, *l),
            sem_expr(env, *r),
            |a: ValueView, b: ValueView| spec_multiply(a, b),
        ),
        Expression::Divide(l, r) => sem_binary(sem_expr(env, *l), sem_expr(env, *r), |a: ValueView, b: ValueView| spec_divide(a, b)),
        Expression::UnaryMinus(x) => match sem_expr(env, *x) {
            Ok(v) => spec_negate(v),
            Err(er) => Err(er),
        },
        Expression::Equals(l, r) => sem_binary(sem_expr(env, *l), sem_expr(env, *r), |a: ValueView, b: ValueView| spec_equals(a, b)),
        Expression::NotEquals(l, r) => sem_binary(
            sem_expr(env, *l),
            sem_expr(env, *r),
            |a: ValueView, b: ValueView| spec_not_equals(a, b),
        ),
        Expression::GreaterThan(l, r) => sem_binary(
            sem_expr(env, *l),
            sem_expr(env, *r),
            |a: ValueView, b: ValueView| spec_greater_than(a, b),
        ),
        Expression::LessThan(l, r) => sem_binary(
            sem_expr(env, *l),
            sem_expr(env, *r),
            |a: ValueView, b: ValueView| spec_less_than(a, b),
        ),
        Expression::Integer(i) => Ok(ValueView::Integer(i)),
        Expression::StringLiteral(s) => Ok(ValueView::Str(s@)),
        Expression::Symbol(name) => sem_lookup(env, name@),
        Expression::InputNumber => arbitrary(),
        Expression::InputString => arbitrary(),
    }
}

/// Sequencing of a binary operator: first operand error wins, otherwise
/// the second, otherwise the operator is applied.
pub open spec fn sem_binary(
    l: Result<ValueView, ErrorView>,
    r: Result<ValueView, ErrorView>,
    op: spec_fn(ValueView, ValueView) -> Result<ValueView, ErrorView>,
) -> Result<ValueView, ErrorView> {
    match l {
        Ok(lv) => match r {
            Ok(rv) => op(lv, rv),
            Err(er) => Err(er),
        },
        Err(er) => Err(er),
    }
}

/// The truth of a condition expression: its value coerced to a boolean.
pub open spec fn sem_condition(env: Map<Seq<char>, ValueView>, e: Expression) -> Result<
    bool,
    ErrorView,
> {
    match sem_expr(env, e) {
        Ok(v) => spec_truth(v),
        Err(er) => Err(er),
    }
}

/// One statement, run on state `st` with the given fuel.
pub open spec fn sem_stmt(st: RunState, s: Statement, fuel: nat) -> StepResult
    decreases fuel, s,
{
    match s {
        Statement::Declaration(name) => if st.env.contains_key(name@) {
            step_fault(st, ErrorView::DuplicateDeclaration(name@))
        } else {
            step_done(RunState { env: st.env.insert(name@, ValueView::Unknown), ..st })
        },
        Statement::Assignment(name, e) => if !st.env.contains_key(name@) {
            step_fault(st, ErrorView::UndeclaredSymbol(name@))
        } else {
            match sem_expr(st.env, e) {
                Ok(v) => step_done(RunState { env: st.env.insert(name@, v), ..st }),
                Err(er) => step_fault(st, er),
            }
        },
        Statement::Conditional(c, truebody, falsebody) => match sem_condition(st.env, c) {
            Ok(truth) => if truth {
                sem_stmts(st, truebody@, fuel)
            } else {
                match falsebody {
                    Some(b) => sem_stmts(st, b@, fuel),
                    None => step_done(st),
                }
            },
            Err(er) => step_fault(st, er),
        },
        Statement::Loop(c, body) => match sem_condition(st.env, c) {
            Ok(truth) => if !truth {
                step_done(st)
            } else if fuel == 0 {
                step_spent(st)
            } else {
                let r = sem_stmts(st, body@, (fuel - 1) as nat);
                match r.control {
                    Control::Done => sem_stmt(r.state, Statement::Loop(c, body), (fuel - 1) as nat),
                    _ => r,
                }
            },
            Err(er) => step_fault(st, er),
        },
        Statement::Write(e) => match sem_expr(st.env, e) {
            Ok(v) => match spec_render(v) {
                Ok(text) => step_done(RunState { out: st.out + text, ..st }),
                Err(er) => step_fault(st, er),
            },
            Err(er) => step_fault(st, er),
        },
    }
}

/// A statement sequence, run in order on state `st`: the first statement
/// that faults or spends the fuel stops the run.
pub open spec fn sem_stmts(st: RunState, ss: Seq<Statement>, fuel: nat) -> StepResult
    decreases fuel, ss,
{
    if ss.len() == 0 {
        step_done(st)
    } else {
        let r = sem_stmt(st, ss[0], fuel);
        match r.control {
            Control::Done => sem_stmts(r.state, ss.drop_first(), fuel),
            _ => r,
        }
    }
}

/// A sequence is a prefix of itself.
pub broadcast proof fn lemma_out_prefix_refl(s: Seq<char>)
    ensures
        #[trigger] s.is_prefix_of(s),
{
    assert(s =~= s.subrange(0, s.len() as int));
}

/// A sequence is a prefix of itself with anything appended.
pub broadcast proof fn lemma_out_prefix_append(s: Seq<char>, t: Seq<char>)
    ensures
        #[trigger] s.is_prefix_of(s + t),
{
    assert(s =~= (s + t).subrange(0, s.len() as int));
}

/// Prefixes compose.
pub broadcast proof fn lemma_out_prefix_trans(a: Seq<char>, b: Seq<char>, c: Seq<char>)
    requires
        a.is_prefix_of(b),
        b.is_prefix_of(c),
    ensures
        #![trigger a.is_prefix_of(b), b.is_prefix_of(c)]
        a.is_prefix_of(c),
{
    assert(a =~= c.subrange(0, a.len() as int));
}

} // verus!
