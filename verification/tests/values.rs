//! The value model on its own: operator results, the wrapping policy at
//! the edges of the signed 64-bit range, truthiness and rendering.

use interp::value::add_values;
use interp::value::divide_values;
use interp::value::equals_values;
use interp::value::greater_than_values;
use interp::value::multiply_values;
use interp::value::negate_value;
use interp::value::not_equals_values;
use interp::value::render_value;
use interp::value::subtract_values;
use interp::value::to_bool;
use interp::value::RuntimeError;
use interp::value::Value;

#[test]
fn addition_wraps_at_max() {
    let r = add_values(&Value::Integer(i64::MAX), &Value::Integer(1));
    assert_eq!(r, Ok(Value::Integer(i64::MIN)));
}

#[test]
fn subtraction_wraps_at_min() {
    let r = subtract_values(&Value::Integer(i64::MIN), &Value::Integer(1));
    assert_eq!(r, Ok(Value::Integer(i64::MAX)));
}

#[test]
fn multiplication_is_exact_in_range() {
    let r = multiply_values(&Value::Integer(6), &Value::Integer(7));
    assert_eq!(r, Ok(Value::Integer(42)));
}

#[test]
fn multiplication_wraps_out_of_range() {
    let r = multiply_values(&Value::Integer(i64::MAX), &Value::Integer(2));
    assert_eq!(r, Ok(Value::Integer(-2)));
}

#[test]
fn division_of_min_by_minus_one_wraps() {
    let r = divide_values(&Value::Integer(i64::MIN), &Value::Integer(-1));
    assert_eq!(r, Ok(Value::Integer(i64::MIN)));
}

#[test]
fn negation_of_min_wraps() {
    let r = negate_value(&Value::Integer(i64::MIN));
    assert_eq!(r, Ok(Value::Integer(i64::MIN)));
}

#[test]
fn text_addition_concatenates() {
    let r = add_values(
        &Value::Str(String::from("left")),
        &Value::Str(String::from("right")),
    );
    assert_eq!(r, Ok(Value::Str(String::from("leftright"))));
}

#[test]
fn equality_across_kinds_is_false() {
    let r = equals_values(&Value::Integer(1), &Value::Str(String::from("1")));
    assert_eq!(r, Ok(Value::Bool(false)));
    let r2 = not_equals_values(&Value::Integer(1), &Value::Str(String::from("1")));
    assert_eq!(r2, Ok(Value::Bool(true)));
}

#[test]
fn equality_of_texts_compares_contents() {
    let r = equals_values(
        &Value::Str(String::from("ab")),
        &Value::Str(String::from("ab")),
    );
    assert_eq!(r, Ok(Value::Bool(true)));
    let r2 = equals_values(
        &Value::Str(String::from("ab")),
        &Value::Str(String::from("ac")),
    );
    assert_eq!(r2, Ok(Value::Bool(false)));
}

#[test]
fn unknown_operand_is_a_type_mismatch() {
    let r = equals_values(&Value::Unknown, &Value::Integer(1));
    assert_eq!(r, Err(RuntimeError::TypeMismatch));
}

#[test]
fn text_ordering_is_a_type_mismatch() {
    let r = greater_than_values(
        &Value::Str(String::from("b")),
        &Value::Str(String::from("a")),
    );
    assert_eq!(r, Err(RuntimeError::TypeMismatch));
}

#[test]
fn truthiness_of_values() {
    assert_eq!(to_bool(&Value::Bool(true)), Ok(true));
    assert_eq!(to_bool(&Value::Bool(false)), Ok(false));
    assert_eq!(to_bool(&Value::Integer(0)), Ok(false));
    assert_eq!(to_bool(&Value::Integer(-3)), Ok(true));
    assert_eq!(
        to_bool(&Value::Str(String::from("true"))),
        Err(RuntimeError::TypeMismatch)
    );
}

#[test]
fn rendering_of_values() {
    assert_eq!(render_value(&Value::Integer(0)), Ok(String::from("0")));
    assert_eq!(render_value(&Value::Integer(-120)), Ok(String::from("-120")));
    assert_eq!(
        render_value(&Value::Integer(i64::MIN)),
        Ok(String::from("-9223372036854775808"))
    );
    assert_eq!(
        render_value(&Value::Integer(i64::MAX)),
        Ok(String::from("9223372036854775807"))
    );
    assert_eq!(
        render_value(&Value::Str(String::from("raw text"))),
        Ok(String::from("raw text"))
    );
    assert_eq!(render_value(&Value::Bool(true)), Ok(String::from("true")));
    assert_eq!(render_value(&Value::Bool(false)), Ok(String::from("false")));
    assert_eq!(
        render_value(&Value::Unknown),
        Err(RuntimeError::TypeMismatch)
    );
}
