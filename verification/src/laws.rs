//! The language's laws, stated once over the model and proved for every
//! state, name and operand: declaration discipline, operator behaviour,
//! and the control rules of conditionals and loops.

use vstd::prelude::*;

use crate::ast::Expression;
use crate::ast::Statement;
use crate::semantics::Control;
use crate::semantics::RunState;
use crate::semantics::sem_condition;
use crate::semantics::sem_expr;
use crate::semantics::sem_stmt;
use crate::semantics::sem_stmts;
use crate::semantics::step_done;
use crate::semantics::step_fault;
use crate::value::ErrorView;
use crate::value::ValueView;
use crate::value::spec_add;
use crate::value::spec_divide;
use crate::value::spec_equals;
use crate::value::spec_greater_than;
use crate::value::spec_less_than;
use crate::value::spec_multiply;
use crate::value::spec_subtract;

verus! {

/// Declare before use.  Reading a name not in the table is the error
/// `UndeclaredSymbol`, and so is assigning to it, whatever the assigned
/// expression; a declaration binds the name to `Unknown`, and reading it
/// in that state is the error `UseOfUninitialized`.
pub proof fn lemma_declare_before_use(st: RunState, name: String, e: Expression, fuel: nat)
    requires
        !st.env.contains_key(name@),
    ensures
        sem_expr(st.env, Expression::Symbol(name)) == Err::<ValueView, ErrorView>(
            ErrorView::UndeclaredSymbol(name@),
        ),
        sem_stmt(st, Statement::Assignment(name, e), fuel) == step_fault(
            st,
            ErrorView::UndeclaredSymbol(name@),
        ),
        sem_stmt(st, Statement::Declaration(name), fuel) == step_done(
            RunState { env: st.env.insert(name@, ValueView::Unknown), ..st },
        ),
        sem_expr(
            st.env.insert(name@, ValueView::Unknown),
            Expression::Symbol(name),
        ) == Err::<ValueView, ErrorView>(ErrorView::UseOfUninitialized(name@)),
{
}

/// No redeclaration.  Declaring a name the table already holds is the
/// error `DuplicateDeclaration`, whatever value the name is bound to and
/// whatever statements came in between.
pub proof fn lemma_no_redeclaration(st: RunState, name: String, fuel: nat)
    requires
        st.env.contains_key(name@),
    ensures
        sem_stmt(st, Statement::Declaration(name), fuel) == step_fault(
            st,
            ErrorView::DuplicateDeclaration(name@),
        ),
{
}

/// Truncating integer division, the shape `i64::checked_div` has.
pub open spec fn trunc_div(x: int, d: int) -> int {
    if x == 0 {
        0
    } else if x > 0 && d > 0 {
        x / d
    } else if x < 0 && d < 0 {
        (x * -1) / (d * -1)
    } else if x < 0 {
        ((x * -1) / d) * -1
    } else {
        (x / (d * -1)) * -1
    }
}

/// Away from the one wrapping case, truncating division of two signed
/// 64-bit numbers stays in the signed 64-bit range.
proof fn lemma_trunc_div_in_range(a: i64, b: i64)
    requires
        b != 0,
        !(a == i64::MIN && b == -1),
    ensures
        i64::MIN <= trunc_div(a as int, b as int) <= i64::MAX,
{
    let x = a as int;
    let d = b as int;
    if x != 0 {
        let m: int = if x >= 0 {
            x
        } else {
            x * -1
        };
        let dd: int = if d > 0 {
            d
        } else {
            d * -1
        };
        vstd::arithmetic::div_mod::lemma_div_pos_is_pos(m, dd);
        vstd::arithmetic::div_mod::lemma_div_nonincreasing(m, dd);
        let q = m / dd;
        assert(0 <= q <= m);
        if x < 0 && d < 0 && a == i64::MIN {
            vstd::arithmetic::div_mod::lemma_fundamental_div_mod(m, dd);
            assert(dd >= 2);
            assert(dd * q >= 2 * q) by (nonlinear_arith)
                requires
                    dd >= 2,
                    q >= 0,
            ;
            assert(q <= i64::MAX);
        }
    }
}

/// Arithmetic correctness.  Within the signed 64-bit range `Add`,
/// `Subtract` and `Multiply` are exact; `Divide` truncates toward zero
/// when the divisor is not zero, and a zero divisor is the error
/// `DivisionByZero`.  (Out of range the operators wrap, and the one
/// wrapping division, `i64::MIN / -1`, yields `i64::MIN`.)
pub proof fn lemma_arithmetic_correctness(a: i64, b: i64)
    ensures
        i64::MIN <= a + b <= i64::MAX ==> spec_add(ValueView::Integer(a), ValueView::Integer(b))
            == Ok::<ValueView, ErrorView>(ValueView::Integer((a + b) as i64)),
        i64::MIN <= a - b <= i64::MAX ==> spec_subtract(
            ValueView::Integer(a),
            ValueView::Integer(b),
        ) == Ok::<ValueView, ErrorView>(ValueView::Integer((a - b) as i64)),
        i64::MIN <= a * b <= i64::MAX ==> spec_multiply(
            ValueView::Integer(a),
            ValueView::Integer(b),
        ) == Ok::<ValueView, ErrorView>(ValueView::Integer((a * b) as i64)),
        b == 0 ==> spec_divide(ValueView::Integer(a), ValueView::Integer(b)) == Err::<
            ValueView,
            ErrorView,
        >(ErrorView::DivisionByZero),
        b != 0 && !(a == i64::MIN && b == -1) ==> spec_divide(
            ValueView::Integer(a),
            ValueView::Integer(b),
        ) == Ok::<ValueView, ErrorView>(
            ValueView::Integer(trunc_div(a as int, b as int) as i64),
        ),
        a == i64::MIN && b == -1 ==> spec_divide(ValueView::Integer(a), ValueView::Integer(b))
            == Ok::<ValueView, ErrorView>(ValueView::Integer(i64::MIN)),
{
    if b != 0 && !(a == i64::MIN && b == -1) {
        lemma_trunc_div_in_range(a, b);
    }
}

/// String concatenation.  `Add` on two text values is their concatenation
/// in left-to-right order; `Add` of an integer and a text value, either
/// way around, is the error `TypeMismatch`.
pub proof fn lemma_string_concatenation(a: Seq<char>, b: Seq<char>, n: i64)
    ensures
        spec_add(ValueView::Str(a), ValueView::Str(b)) == Ok::<ValueView, ErrorView>(
            ValueView::Str(a + b),
        ),
        spec_add(ValueView::Integer(n), ValueView::Str(b)) == Err::<ValueView, ErrorView>(
            ErrorView::TypeMismatch,
        ),
        spec_add(ValueView::Str(a), ValueView::Integer(n)) == Err::<ValueView, ErrorView>(
            ErrorView::TypeMismatch,
        ),
{
}

/// Comparison consistency.  On any two integers the three comparisons all
/// succeed with a boolean, and exactly one of `GreaterThan`, `LessThan`,
/// `Equals` is true.
pub proof fn lemma_comparison_consistency(a: i64, b: i64)
    ensures
        spec_greater_than(ValueView::Integer(a), ValueView::Integer(b)) == Ok::<
            ValueView,
            ErrorView,
        >(ValueView::Bool(a > b)),
        spec_less_than(ValueView::Integer(a), ValueView::Integer(b)) == Ok::<
            ValueView,
            ErrorView,
        >(ValueView::Bool(a < b)),
        spec_equals(ValueView::Integer(a), ValueView::Integer(b)) == Ok::<ValueView, ErrorView>(
            ValueView::Bool(a == b),
        ),
        (a > b) ^ (a < b) ^ (a == b),
        !((a > b) && (a < b) && (a == b)),
{
}

/// Loop entry.  A loop whose condition is false on its first evaluation
/// runs its body zero times: the run ends normally, the state untouched,
/// whatever the fuel.
pub proof fn lemma_loop_zero_iterations(st: RunState, c: Expression, body: Vec<Statement>, fuel: nat)
    requires
        sem_condition(st.env, c) == Ok::<bool, ErrorView>(false),
    ensures
        sem_stmt(st, Statement::Loop(c, body), fuel) == step_done(st),
{
}

/// Loop exit.  When the condition holds, the body runs once, and the body
/// run makes the condition false, the loop ends normally in the state the
/// body reached: the mutation that falsifies the condition stops the loop.
pub proof fn lemma_loop_stops_when_falsified(
    st: RunState,
    c: Expression,
    body: Vec<Statement>,
    fuel: nat,
)
    requires
        fuel > 0,
        sem_condition(st.env, c) == Ok::<bool, ErrorView>(true),
        sem_stmts(st, body@, (fuel - 1) as nat).control == Control::Done,
        sem_condition(
            sem_stmts(st, body@, (fuel - 1) as nat).state.env,
            c,
        ) == Ok::<bool, ErrorView>(false),
    ensures
        sem_stmt(st, Statement::Loop(c, body), fuel) == step_done(
            sem_stmts(st, body@, (fuel - 1) as nat).state,
        ),
{
    let r = sem_stmts(st, body@, (fuel - 1) as nat);
    assert(sem_stmt(r.state, Statement::Loop(c, body), (fuel - 1) as nat) == step_done(r.state));
}

/// Conditional exclusivity.  Per evaluation exactly one branch runs: the
/// first on a true condition, the second on a false one, and a false
/// condition with no second branch leaves the state untouched.
pub proof fn lemma_conditional_exclusivity(
    st: RunState,
    c: Expression,
    truebody: Vec<Statement>,
    falsebody: Option<Vec<Statement>>,
    fuel: nat,
)
    ensures
        sem_condition(st.env, c) == Ok::<bool, ErrorView>(true) ==> sem_stmt(
            st,
            Statement::Conditional(c, truebody, falsebody),
            fuel,
        ) == sem_stmts(st, truebody@, fuel),
        (sem_condition(st.env, c) == Ok::<bool, ErrorView>(false) && falsebody is Some)
            ==> sem_stmt(st, Statement::Conditional(c, truebody, falsebody), fuel) == sem_stmts(
            st,
            falsebody->0@,
            fuel,
        ),
        (sem_condition(st.env, c) == Ok::<bool, ErrorView>(false) && falsebody is None)
            ==> sem_stmt(st, Statement::Conditional(c, truebody, falsebody), fuel) == step_done(
            st,
        ),
{
}

} // verus!
