//! Runtime values of the interpreted language and the operator semantics
//! over them: arithmetic, comparison, truthiness coercion and rendering.
//!
//! Arithmetic wraps around on overflow (two's-complement, the policy is
//! stated by the spec functions below).  Division truncates toward zero;
//! dividing by zero is the error `DivisionByZero`.  Equality is defined for
//! operands of the same kind and is false across kinds; ordering is defined
//! for integers only.  The placeholder `Unknown` (a declared, never assigned
//! variable) is rejected by every operator with `TypeMismatch`.

use vstd::prelude::*;
use vstd::string::StringExecFns;

verus! {

/// A runtime value: integer, text, boolean, or the placeholder bound to a
/// declared-but-unassigned variable.
#[derive(Debug, PartialEq)]
pub enum Value {
    Integer(i64),
    Str(String),
    Bool(bool),
    Unknown,
}

/// Mathematical model of a `Value`: text becomes a sequence of characters.
pub enum ValueView {
    Integer(i64),
    Str(Seq<char>),
    Bool(bool),
    Unknown,
}

impl View for Value {
    type V = ValueView;

    open spec fn view(&self) -> ValueView {
        match self {
            Value::Integer(i) => ValueView::Integer(*i),
            Value::Str(s) => ValueView::Str(s@),
            Value::Bool(b) => ValueView::Bool(*b),
            Value::Unknown => ValueView::Unknown,
        }
    }
}

/// An execution failure.  Every error is fatal to the run: the interpreter
/// stops at the first one and reports it.
#[derive(Debug, PartialEq)]
pub enum RuntimeError {
    /// A `Declare` of a name already present in the symbol table.
    DuplicateDeclaration(String),
    /// An assignment to, or a read of, a name never declared.
    UndeclaredSymbol(String),
    /// A read of a name declared but never assigned.
    UseOfUninitialized(String),
    /// An operator applied to operand kinds it does not support.
    TypeMismatch,
    /// Integer division with a zero divisor.
    DivisionByZero,
    /// Console input that does not parse as an integer where one is expected.
    InvalidInputFormat,
}

/// Mathematical model of a `RuntimeError`.
pub enum ErrorView {
    DuplicateDeclaration(Seq<char>),
    UndeclaredSymbol(Seq<char>),
    UseOfUninitialized(Seq<char>),
    TypeMismatch,
    DivisionByZero,
    InvalidInputFormat,
}

impl View for RuntimeError {
    type V = ErrorView;

    open spec fn view(&self) -> ErrorView {
        match self {
            RuntimeError::DuplicateDeclaration(s) => ErrorView::DuplicateDeclaration(s@),
            RuntimeError::UndeclaredSymbol(s) => ErrorView::UndeclaredSymbol(s@),
            RuntimeError::UseOfUninitialized(s) => ErrorView::UseOfUninitialized(s@),
            RuntimeError::TypeMismatch => ErrorView::TypeMismatch,
            RuntimeError::DivisionByZero => ErrorView::DivisionByZero,
            RuntimeError::InvalidInputFormat => ErrorView::InvalidInputFormat,
        }
    }
}

/// The model of an operator's outcome: a value view or an error view.
pub open spec fn eval_result_view(r: Result<Value, RuntimeError>) -> Result<ValueView, ErrorView> {
    match r {
        Ok(v) => Ok(v@),
        Err(e) => Err(e@),
    }
}

/// What `Add` yields: wrapping integer addition, or text concatenation in
/// left-to-right order; every other pairing is a type mismatch.
pub open spec fn spec_add(a: ValueView, b: ValueView) -> Result<ValueView, ErrorView> {
    match (a, b) {
        (ValueView::Integer(x), ValueView::Integer(y)) => Ok(
            ValueView::Integer(x.wrapping_add(y)),
        ),
        (ValueView::Str(x), ValueView::Str(y)) => Ok(ValueView::Str(x + y)),
        _ => Err(ErrorView::TypeMismatch),
    }
}

/// What `Subtract` yields: wrapping integer subtraction.
pub open spec fn spec_subtract(a: ValueView, b: ValueView) -> Result<ValueView, ErrorView> {
    match (a, b) {
        (ValueView::Integer(x), ValueView::Integer(y)) => Ok(
            ValueView::Integer(x.wrapping_sub(y)),
        ),
        _ => Err(ErrorView::TypeMismatch),
    }
}

/// What `Multiply` yields: wrapping integer multiplication.
pub open spec fn spec_multiply(a: ValueView, b: ValueView) -> Result<ValueView, ErrorView> {
    match (a, b) {
        (ValueView::Integer(x), ValueView::Integer(y)) => Ok(
            ValueView::Integer(x.wrapping_mul(y)),
        ),
        _ => Err(ErrorView::TypeMismatch),
    }
}

/// What `Divide` yields: truncating integer division, with `DivisionByZero`
/// for a zero divisor; the one overflowing case, `i64::MIN / -1`, wraps.
pub open spec fn spec_divide(a: ValueView, b: ValueView) -> Result<ValueView, ErrorView> {
    match (a, b) {
        (ValueView::Integer(x), ValueView::Integer(y)) => if y == 0 {
            Err(ErrorView::DivisionByZero)
        } else {
            match x.checked_div(y) {
                Some(q) => Ok(ValueView::Integer(q)),
                None => Ok(ValueView::Integer(i64::MIN)),
            }
        },
        _ => Err(ErrorView::TypeMismatch),
    }
}

/// What unary minus yields: wrapping integer negation.
pub open spec fn spec_negate(a: ValueView) -> Result<ValueView, ErrorView> {
    match a {
        ValueView::Integer(x) => Ok(ValueView::Integer((0i64).wrapping_sub(x))),
        _ => Err(ErrorView::TypeMismatch),
    }
}

/// What `Equals` yields: field equality for operands of the same kind,
/// `false` across kinds, and a type mismatch if either side is `Unknown`.
pub open spec fn spec_equals(a: ValueView, b: ValueView) -> Result<ValueView, ErrorView> {
    match (a, b) {
        (ValueView::Unknown, _) => Err(ErrorView::TypeMismatch),
        (_, ValueView::Unknown) => Err(ErrorView::TypeMismatch),
        (ValueView::Integer(x), ValueView::Integer(y)) => Ok(ValueView::Bool(x == y)),
        (ValueView::Str(x), ValueView::Str(y)) => Ok(ValueView::Bool(x == y)),
        (ValueView::Bool(x), ValueView::Bool(y)) => Ok(ValueView::Bool(x == y)),
        _ => Ok(ValueView::Bool(false)),
    }
}

/// What `NotEquals` yields: the negation of `Equals`, same error cases.
pub open spec fn spec_not_equals(a: ValueView, b: ValueView) -> Result<ValueView, ErrorView> {
    match spec_equals(a, b) {
        Ok(v) => match v {
            ValueView::Bool(e) => Ok(ValueView::Bool(!e)),
            _ => Err(ErrorView::TypeMismatch),
        },
        Err(e) => Err(e),
    }
}

/// What `GreaterThan` yields: numeric ordering of integers; every other
/// pairing is a type mismatch (text is not ordered by this language).
pub open spec fn spec_greater_than(a: ValueView, b: ValueView) -> Result<ValueView, ErrorView> {
    match (a, b) {
        (ValueView::Integer(x), ValueView::Integer(y)) => Ok(ValueView::Bool(x > y)),
        _ => Err(ErrorView::TypeMismatch),
    }
}

/// What `LessThan` yields: numeric ordering of integers.
pub open spec fn spec_less_than(a: ValueView, b: ValueView) -> Result<ValueView, ErrorView> {
    match (a, b) {
        (ValueView::Integer(x), ValueView::Integer(y)) => Ok(ValueView::Bool(x < y)),
        _ => Err(ErrorView::TypeMismatch),
    }
}

/// Truthiness of a condition value: booleans stand for themselves, an
/// integer is true when nonzero, and text has no truth value.
pub open spec fn spec_truth(a: ValueView) -> Result<bool, ErrorView> {
    match a {
        ValueView::Bool(b) => Ok(b),
        ValueView::Integer(n) => Ok(n != 0),
        _ => Err(ErrorView::TypeMismatch),
    }
}

/// The decimal digit character for `d` (meaningful for `d < 10`).
pub open spec fn digit_char(d: nat) -> char {
    if d == 0 {
        '0'
    } else if d == 1 {
        '1'
    } else if d == 2 {
        '2'
    } else if d == 3 {
        '3'
    } else if d == 4 {
        '4'
    } else if d == 5 {
        '5'
    } else if d == 6 {
        '6'
    } else if d == 7 {
        '7'
    } else if d == 8 {
        '8'
    } else {
        '9'
    }
}

/// The decimal rendering of a natural number, most significant digit first.
pub open spec fn dec_nat(n: nat) -> Seq<char>
    decreases n,
{
    if n < 10 {
        seq![digit_char(n)]
    } else {
        dec_nat(n / 10).push(digit_char(n % 10))
    }
}

/// The decimal rendering of a signed integer: a leading minus sign for
/// negative numbers, no sign otherwise.
pub open spec fn dec_int(i: int) -> Seq<char> {
    if i >= 0 {
        dec_nat(i as nat)
    } else {
        seq!['-'] + dec_nat((-i) as nat)
    }
}

/// How `Write` renders a value: integers in decimal, text as its raw
/// characters, booleans as their canonical literals.
pub open spec fn spec_render(a: ValueView) -> Result<Seq<char>, ErrorView> {
    match a {
        ValueView::Integer(i) => Ok(dec_int(i as int)),
        ValueView::Str(s) => Ok(s),
        ValueView::Bool(b) => if b {
            Ok(seq!['t', 'r', 'u', 'e'])
        } else {
            Ok(seq!['f', 'a', 'l', 's', 'e'])
        },
        ValueView::Unknown => Err(ErrorView::TypeMismatch),
    }
}

impl Value {
    /// An owned copy of this value.
    pub fn duplicate(&self) -> (r: Value)
        ensures
            r@ == self@,
    {
        match self {
            Value::Integer(i) => Value::Integer(*i),
            Value::Str(s) => Value::Str(s.clone()),
            Value::Bool(b) => Value::Bool(*b),
            Value::Unknown => Value::Unknown,
        }
    }
}

/// `Add` on two runtime values.
pub fn add_values(a: &Value, b: &Value) -> (r: Result<Value, RuntimeError>)
    ensures
        eval_result_view(r) == spec_add(a@, b@),
{
    match (a, b) {
        (Value::Integer(x), Value::Integer(y)) => Ok(Value::Integer(x.wrapping_add(*y))),
        (Value::Str(x), Value::Str(y)) => Ok(Value::Str(x.clone().concat(y.as_str()))),
        _ => Err(RuntimeError::TypeMismatch),
    }
}

/// `Subtract` on two runtime values.
pub fn subtract_values(a: &Value, b: &Value) -> (r: Result<Value, RuntimeError>)
    ensures
        eval_result_view(r) == spec_subtract(a@, b@),
{
    match (a, b) {
        (Value::Integer(x), Value::Integer(y)) => Ok(Value::Integer(x.wrapping_sub(*y))),
        _ => Err(RuntimeError::TypeMismatch),
    }
}

/// `Multiply` on two runtime values.
pub fn multiply_values(a: &Value, b: &Value) -> (r: Result<Value, RuntimeError>)
    ensures
        eval_result_view(r) == spec_multiply(a@, b@),
{
    match (a, b) {
        (Value::Integer(x), Value::Integer(y)) => Ok(Value::Integer(x.wrapping_mul(*y))),
        _ => Err(RuntimeError::TypeMismatch),
    }
}

/// `Divide` on two runtime values.
pub fn divide_values(a: &Value, b: &Value) -> (r: Result<Value, RuntimeError>)
    ensures
        eval_result_view(r) == spec_divide(a@, b@),
{
    match (a, b) {
        (Value::Integer(x), Value::Integer(y)) => {
            if *y == 0 {
                Err(RuntimeError::DivisionByZero)
            } else {
                match x.checked_div(*y) {
                    Some(q) => Ok(Value::Integer(q)),
                    None => Ok(Value::Integer(i64::MIN)),
                }
            }
        },
        _ => Err(RuntimeError::TypeMismatch),
    }
}

/// Unary minus on a runtime value.
pub fn negate_value(a: &Value) -> (r: Result<Value, RuntimeError>)
    ensures
        eval_result_view(r) == spec_negate(a@),
{
    match a {
        Value::Integer(x) => Ok(Value::Integer((0i64).wrapping_sub(*x))),
        _ => Err(RuntimeError::TypeMismatch),
    }
}

/// `Equals` on two runtime values.
pub fn equals_values(a: &Value, b: &Value) -> (r: Result<Value, RuntimeError>)
    ensures
        eval_result_view(r) == spec_equals(a@, b@),
{
    match (a, b) {
        (Value::Unknown, _) => Err(RuntimeError::TypeMismatch),
        (_, Value::Unknown) => Err(RuntimeError::TypeMismatch),
        (Value::Integer(x), Value::Integer(y)) => Ok(Value::Bool(*x == *y)),
        (Value::Str(x), Value::Str(y)) => Ok(Value::Bool(x.eq(y))),
        (Value::Bool(x), Value::Bool(y)) => Ok(Value::Bool(*x == *y)),
        _ => Ok(Value::Bool(false)),
    }
}

/// `NotEquals` on two runtime values.
pub fn not_equals_values(a: &Value, b: &Value) -> (r: Result<Value, RuntimeError>)
    ensures
        eval_result_view(r) == spec_not_equals(a@, b@),
{
    match equals_values(a, b) {
        Ok(v) => match v {
            Value::Bool(e) => Ok(Value::Bool(!e)),
            _ => Err(RuntimeError::TypeMismatch),
        },
        Err(e) => Err(e),
    }
}

/// `GreaterThan` on two runtime values.
pub fn greater_than_values(a: &Value, b: &Value) -> (r: Result<Value, RuntimeError>)
    ensures
        eval_result_view(r) == spec_greater_than(a@, b@),
{
    match (a, b) {
        (Value::Integer(x), Value::Integer(y)) => Ok(Value::Bool(*x > *y)),
        _ => Err(RuntimeError::TypeMismatch),
    }
}

/// `LessThan` on two runtime values.
pub fn less_than_values(a: &Value, b: &Value) -> (r: Result<Value, RuntimeError>)
    ensures
        eval_result_view(r) == spec_less_than(a@, b@),
{
    match (a, b) {
        (Value::Integer(x), Value::Integer(y)) => Ok(Value::Bool(*x < *y)),
        _ => Err(RuntimeError::TypeMismatch),
    }
}

/// Truthiness coercion, used by conditionals and loops on their condition.
pub fn to_bool(a: &Value) -> (r: Result<bool, RuntimeError>)
    ensures
        match r {
            Ok(b) => spec_truth(a@) == Ok::<bool, ErrorView>(b),
            Err(e) => spec_truth(a@) == Err::<bool, ErrorView>(e@),
        },
{
    match a {
        Value::Bool(b) => Ok(*b),
        Value::Integer(n) => Ok(*n != 0),
        _ => Err(RuntimeError::TypeMismatch),
    }
}

/// The one-character text for a decimal digit.
fn digit_str(d: u64) -> (r: &'static str)
    requires
        d < 10,
    ensures
        r@ == seq![digit_char(d as nat)],
{
    let r: &'static str = if d == 0 {
        "0"
    } else if d == 1 {
        "1"
    } else if d == 2 {
        "2"
    } else if d == 3 {
        "3"
    } else if d == 4 {
        "4"
    } else if d == 5 {
        "5"
    } else if d == 6 {
        "6"
    } else if d == 7 {
        "7"
    } else if d == 8 {
        "8"
    } else {
        "9"
    };
    proof {
        reveal_strlit("0");
        reveal_strlit("1");
        reveal_strlit("2");
        reveal_strlit("3");
        reveal_strlit("4");
        reveal_strlit("5");
        reveal_strlit("6");
        reveal_strlit("7");
        reveal_strlit("8");
        reveal_strlit("9");
        assert(r@ =~= seq![digit_char(d as nat)]);
    }
    r
}

/// The decimal text of a natural number.
fn render_nat(n: u64) -> (r: String)
    ensures
        r@ == dec_nat(n as nat),
    decreases n,
{
    if n < 10 {
        String::from_str(digit_str(n))
    } else {
        let mut s = render_nat(n / 10);
        s.append(digit_str(n % 10));
        proof {
            assert(s@ =~= dec_nat(n as nat));
        }
        s
    }
}

/// How `Write` renders a value as text.
pub fn render_value(a: &Value) -> (r: Result<String, RuntimeError>)
    ensures
        match r {
            Ok(s) => spec_render(a@) == Ok::<Seq<char>, ErrorView>(s@),
            Err(e) => spec_render(a@) == Err::<Seq<char>, ErrorView>(e@),
        },
{
    match a {
        Value::Integer(i) => {
            if *i >= 0 {
                Ok(render_nat(*i as u64))
            } else {
                let mag: u64 = ((-(*i + 1)) as u64) + 1;
                let mut s = String::from_str("-");
                s.append(render_nat(mag).as_str());
                proof {
                    reveal_strlit("-");
                    assert(s@ =~= dec_int(*i as int));
                }
                Ok(s)
            }
        },
        Value::Str(s) => Ok(s.clone()),
        Value::Bool(b) => {
            if *b {
                let s = String::from_str("true");
                proof {
                    reveal_strlit("true");
                    assert(s@ =~= seq!['t', 'r', 'u', 'e']);
                }
                Ok(s)
            } else {
                let s = String::from_str("false");
                proof {
                    reveal_strlit("false");
                    assert(s@ =~= seq!['f', 'a', 'l', 's', 'e']);
                }
                Ok(s)
            }
        },
        Value::Unknown => Err(RuntimeError::TypeMismatch),
    }
}

} // verus!
