//! Whole-program runs through `Executor::execute`: output transcripts,
//! declaration discipline, control flow and the step budget.

use interp::ast::Expression;
use interp::ast::SourceUnit;
use interp::ast::Statement;
use interp::executor::Executor;
use interp::value::RuntimeError;

fn sym(name: &str) -> Expression {
    Expression::Symbol(String::from(name))
}

fn num(n: i64) -> Expression {
    Expression::Integer(n)
}

fn text(s: &str) -> Expression {
    Expression::StringLiteral(String::from(s))
}

fn plus(l: Expression, r: Expression) -> Expression {
    Expression::Add(Box::new(l), Box::new(r))
}

fn subtract(l: Expression, r: Expression) -> Expression {
    Expression::Subtract(Box::new(l), Box::new(r))
}

fn divide(l: Expression, r: Expression) -> Expression {
    Expression::Divide(Box::new(l), Box::new(r))
}

fn neg(e: Expression) -> Expression {
    Expression::UnaryMinus(Box::new(e))
}

fn eq(l: Expression, r: Expression) -> Expression {
    Expression::Equals(Box::new(l), Box::new(r))
}

fn neq(l: Expression, r: Expression) -> Expression {
    Expression::NotEquals(Box::new(l), Box::new(r))
}

fn gt(l: Expression, r: Expression) -> Expression {
    Expression::GreaterThan(Box::new(l), Box::new(r))
}

fn lt(l: Expression, r: Expression) -> Expression {
    Expression::LessThan(Box::new(l), Box::new(r))
}

fn declare(name: &str) -> Statement {
    Statement::Declaration(String::from(name))
}

fn assign(name: &str, e: Expression) -> Statement {
    Statement::Assignment(String::from(name), e)
}

fn write(e: Expression) -> Statement {
    Statement::Write(e)
}

fn run(stmts: Vec<Statement>) -> (Executor, Option<Result<(), RuntimeError>>) {
    let mut ex = Executor::new();
    let r = ex.execute(&SourceUnit(stmts), 1000);
    (ex, r)
}

#[test]
fn writes_assigned_value() {
    let (ex, r) = run(vec![declare("x"), assign("x", num(5)), write(sym("x"))]);
    assert_eq!(r, Some(Ok(())));
    assert_eq!(ex.output().as_str(), "5");
}

#[test]
fn countdown_loop_output() {
    let (ex, r) = run(vec![
        declare("x"),
        assign("x", num(10)),
        declare("y"),
        assign("y", num(0)),
        Statement::Loop(
            gt(sym("x"), sym("y")),
            vec![write(sym("x")), assign("x", subtract(sym("x"), num(1)))],
        ),
    ]);
    assert_eq!(r, Some(Ok(())));
    assert_eq!(ex.output().as_str(), "10987654321");
}

#[test]
fn write_uninitialized_fails() {
    let (ex, r) = run(vec![declare("x"), write(sym("x"))]);
    assert_eq!(
        r,
        Some(Err(RuntimeError::UseOfUninitialized(String::from("x"))))
    );
    assert_eq!(ex.output().as_str(), "");
}

#[test]
fn duplicate_declaration_fails() {
    let (_, r) = run(vec![declare("x"), assign("x", num(1)), declare("x")]);
    assert_eq!(
        r,
        Some(Err(RuntimeError::DuplicateDeclaration(String::from("x"))))
    );
}

#[test]
fn assignment_to_undeclared_fails() {
    let (_, r) = run(vec![assign("x", num(1))]);
    assert_eq!(r, Some(Err(RuntimeError::UndeclaredSymbol(String::from("x")))));
}

#[test]
fn read_of_undeclared_fails() {
    let (_, r) = run(vec![declare("x"), assign("x", sym("y"))]);
    assert_eq!(r, Some(Err(RuntimeError::UndeclaredSymbol(String::from("y")))));
}

#[test]
fn conditional_takes_true_branch() {
    let (ex, r) = run(vec![
        declare("x"),
        Statement::Conditional(
            num(1),
            vec![assign("x", num(1))],
            Some(vec![assign("x", num(2))]),
        ),
        write(sym("x")),
    ]);
    assert_eq!(r, Some(Ok(())));
    assert_eq!(ex.output().as_str(), "1");
}

#[test]
fn conditional_takes_false_branch() {
    let (ex, r) = run(vec![
        declare("x"),
        Statement::Conditional(
            num(0),
            vec![assign("x", num(1))],
            Some(vec![assign("x", num(2))]),
        ),
        write(sym("x")),
    ]);
    assert_eq!(r, Some(Ok(())));
    assert_eq!(ex.output().as_str(), "2");
}

#[test]
fn conditional_false_without_else_is_noop() {
    let (ex, r) = run(vec![Statement::Conditional(num(0), vec![write(num(1))], None)]);
    assert_eq!(r, Some(Ok(())));
    assert_eq!(ex.output().as_str(), "");
}

#[test]
fn loop_with_false_condition_runs_zero_times() {
    let (ex, r) = run(vec![Statement::Loop(num(0), vec![write(num(1))])]);
    assert_eq!(r, Some(Ok(())));
    assert_eq!(ex.output().as_str(), "");
}

#[test]
fn endless_loop_spends_the_budget() {
    let mut ex = Executor::new();
    let r = ex.execute(&SourceUnit(vec![Statement::Loop(num(1), vec![])]), 5);
    assert_eq!(r, None);
}

#[test]
fn nested_loops_share_the_table() {
    let (ex, r) = run(vec![
        declare("i"),
        assign("i", num(2)),
        Statement::Loop(
            gt(sym("i"), num(0)),
            vec![
                declare("j"),
                assign("j", num(2)),
                Statement::Loop(
                    gt(sym("j"), num(0)),
                    vec![write(text("a")), assign("j", subtract(sym("j"), num(1)))],
                ),
                assign("i", subtract(sym("i"), num(1))),
            ],
        ),
    ]);
    // the single flat table makes the second outer iteration redeclare j
    assert_eq!(
        r,
        Some(Err(RuntimeError::DuplicateDeclaration(String::from("j"))))
    );
    assert_eq!(ex.output().as_str(), "aa");
}

#[test]
fn declaration_in_branch_is_visible_after() {
    let (ex, r) = run(vec![
        Statement::Conditional(num(1), vec![declare("z")], None),
        assign("z", num(4)),
        write(sym("z")),
    ]);
    assert_eq!(r, Some(Ok(())));
    assert_eq!(ex.output().as_str(), "4");
}

#[test]
fn comparison_results_render_as_booleans() {
    let (ex, r) = run(vec![
        write(eq(num(1), num(1))),
        write(eq(num(1), num(2))),
        write(lt(num(2), num(3))),
        write(gt(num(3), num(3))),
        write(neq(num(2), num(3))),
    ]);
    assert_eq!(r, Some(Ok(())));
    assert_eq!(ex.output().as_str(), "truefalsetruefalsetrue");
}

#[test]
fn text_concatenation_in_program() {
    let (ex, r) = run(vec![write(plus(text("ab"), text("cd")))]);
    assert_eq!(r, Some(Ok(())));
    assert_eq!(ex.output().as_str(), "abcd");
}

#[test]
fn mixed_addition_fails() {
    let (_, r) = run(vec![write(plus(num(1), text("a")))]);
    assert_eq!(r, Some(Err(RuntimeError::TypeMismatch)));
}

#[test]
fn division_by_zero_fails() {
    let (_, r) = run(vec![write(divide(num(1), num(0)))]);
    assert_eq!(r, Some(Err(RuntimeError::DivisionByZero)));
}

#[test]
fn division_truncates_toward_zero() {
    let (ex, r) = run(vec![
        write(divide(num(7), num(2))),
        write(divide(neg(num(7)), num(2))),
    ]);
    assert_eq!(r, Some(Ok(())));
    assert_eq!(ex.output().as_str(), "3-3");
}

#[test]
fn unary_minus_renders_sign() {
    let (ex, r) = run(vec![write(neg(num(5)))]);
    assert_eq!(r, Some(Ok(())));
    assert_eq!(ex.output().as_str(), "-5");
}

#[test]
fn text_condition_fails() {
    let (_, r) = run(vec![Statement::Conditional(text("a"), vec![], None)]);
    assert_eq!(r, Some(Err(RuntimeError::TypeMismatch)));
}

#[test]
fn output_before_failure_is_kept() {
    let (ex, r) = run(vec![write(num(1)), write(divide(num(1), num(0)))]);
    assert_eq!(r, Some(Err(RuntimeError::DivisionByZero)));
    assert_eq!(ex.output().as_str(), "1");
}

#[test]
fn table_persists_across_executions() {
    let mut ex = Executor::new();
    let first = ex.execute(
        &SourceUnit(vec![declare("x"), assign("x", num(1))]),
        1000,
    );
    assert_eq!(first, Some(Ok(())));
    // the table is not reset between calls on one instance
    let second = ex.execute(&SourceUnit(vec![declare("x")]), 1000);
    assert_eq!(
        second,
        Some(Err(RuntimeError::DuplicateDeclaration(String::from("x"))))
    );
}
