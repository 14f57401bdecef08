use pinar::arguments::{bind_list, ArgKind, Arguments, Bound, JsKind};
use pinar::error::{ArgumentsError, Error};
use pinar::de::Shape;
use pinar::ser::Data;
use pinar::value::{JsAny, ValueType};

fn s(x: &str) -> JsAny {
    JsAny::String(x.to_string())
}

fn wrong_type(e: &Error) -> Option<(String, usize)> {
    match e {
        Error::Arguments(ArgumentsError::WrongType(t, n)) => Some((t.clone(), *n)),
        _ => None,
    }
}

#[test]
fn binds_number_string_boolean_in_order() {
    let mut a = Arguments::new(JsAny::Undefined, vec![JsAny::Number(7), s("hi"), JsAny::Boolean(true)]);
    assert!(matches!(a.bind(&ArgKind::Number), Ok(Bound::Number(7))));
    match a.bind(&ArgKind::String) {
        Ok(Bound::Str(x)) => assert_eq!(x, "hi"),
        other => panic!("unexpected {:?}", other),
    }
    assert!(matches!(a.bind(&ArgKind::Boolean), Ok(Bound::Bool(true))));
    assert_eq!(a.arg_number(), 3);
}

#[test]
fn missing_argument_reports_its_position() {
    let mut a = Arguments::new(JsAny::Undefined, vec![JsAny::Number(1)]);
    assert!(a.bind(&ArgKind::Number).is_ok());
    match a.bind(&ArgKind::Number) {
        Err(Error::Arguments(ArgumentsError::Missing(2))) => {}
        other => panic!("unexpected {:?}", other),
    }
    assert_eq!(a.arg_number(), 2);
}

#[test]
fn wrong_type_names_the_expected_kind() {
    let mut a = Arguments::new(JsAny::Undefined, vec![s("x")]);
    let e = a.bind(&ArgKind::Number).unwrap_err();
    assert_eq!(wrong_type(&e), Some(("number (integer)".to_string(), 1)));
    let mut b = Arguments::new(JsAny::Undefined, vec![JsAny::Number(3)]);
    let e = b.bind(&ArgKind::Js(JsKind::Function)).unwrap_err();
    assert_eq!(wrong_type(&e), Some(("function".to_string(), 1)));
}

#[test]
fn array_is_not_an_object() {
    let mut a = Arguments::new(JsAny::Undefined, vec![JsAny::Array(vec![])]);
    let e = a.bind(&ArgKind::Js(JsKind::Object)).unwrap_err();
    assert_eq!(wrong_type(&e), Some(("object".to_string(), 1)));
    let mut b = Arguments::new(JsAny::Undefined, vec![JsAny::Array(vec![])]);
    assert!(b.bind(&ArgKind::Js(JsKind::Array)).is_ok());
}

#[test]
fn optional_absent_when_no_argument_left() {
    let mut a = Arguments::new(JsAny::Undefined, vec![]);
    let k = ArgKind::Optional(Box::new(ArgKind::Number));
    assert!(matches!(a.bind(&k), Ok(Bound::Absent)));
    assert_eq!(a.arg_number(), 1);
}

#[test]
fn optional_keeps_wrong_type_failure() {
    let mut a = Arguments::new(JsAny::Undefined, vec![s("no")]);
    let k = ArgKind::Optional(Box::new(ArgKind::Number));
    let e = a.bind(&k).unwrap_err();
    assert_eq!(wrong_type(&e), Some(("number (integer)".to_string(), 1)));
}

#[test]
fn optional_present_wraps_the_value() {
    let mut a = Arguments::new(JsAny::Undefined, vec![JsAny::Number(5)]);
    let k = ArgKind::Optional(Box::new(ArgKind::Number));
    match a.bind(&k) {
        Ok(Bound::Present(b)) => assert!(matches!(*b, Bound::Number(5))),
        other => panic!("unexpected {:?}", other),
    }
}

#[test]
fn list_fails_at_first_invalid_element_and_consumes_one_argument() {
    let arr = JsAny::Array(vec![JsAny::Number(1), s("bad"), JsAny::Boolean(false)]);
    let mut a = Arguments::new(JsAny::Undefined, vec![arr, JsAny::Number(9)]);
    let k = ArgKind::List(Box::new(ArgKind::Number));
    let e = a.bind(&k).unwrap_err();
    assert_eq!(wrong_type(&e), Some(("number (integer)".to_string(), 2)));
    assert_eq!(a.arg_number(), 1);
    assert!(matches!(a.bind(&ArgKind::Number), Ok(Bound::Number(9))));
}

#[test]
fn list_binds_every_element() {
    let arr = JsAny::Array(vec![JsAny::Number(1), JsAny::Number(2)]);
    let mut a = Arguments::new(JsAny::Undefined, vec![arr]);
    match a.bind(&ArgKind::List(Box::new(ArgKind::Number))) {
        Ok(Bound::List(v)) => {
            assert_eq!(v.len(), 2);
            assert!(matches!(v[1], Bound::Number(2)));
        }
        other => panic!("unexpected {:?}", other),
    }
}

#[test]
fn list_of_non_array_is_wrong_type() {
    let mut a = Arguments::new(JsAny::Undefined, vec![JsAny::Number(1)]);
    let e = a.bind(&ArgKind::List(Box::new(ArgKind::Number))).unwrap_err();
    assert_eq!(wrong_type(&e), Some(("array".to_string(), 1)));
}

#[test]
fn this_consumes_no_argument() {
    let mut a = Arguments::new(JsAny::Number(42), vec![s("x")]);
    match a.bind(&ArgKind::This) {
        Ok(Bound::Value(JsAny::Number(42))) => {}
        other => panic!("unexpected {:?}", other),
    }
    assert_eq!(a.arg_number(), 0);
    assert!(matches!(a.this(), JsAny::Number(42)));
}

#[test]
fn tuple_stops_at_first_failing_element() {
    let sig = vec![ArgKind::Number, ArgKind::String, ArgKind::Boolean];
    let args = vec![JsAny::Number(1), JsAny::Number(2), JsAny::Number(3)];
    let e = bind_list(&sig, &args, &JsAny::Undefined).unwrap_err();
    assert_eq!(wrong_type(&e), Some(("string".to_string(), 2)));
}

#[test]
fn next_arg_moves_past_the_end() {
    let mut a = Arguments::new(JsAny::Undefined, vec![JsAny::Null]);
    assert!(matches!(a.next_arg(), Some(JsAny::Null)));
    assert!(a.next_arg().is_none());
    assert_eq!(a.arg_number(), 2);
}

#[test]
fn type_of_reports_object_for_arrays() {
    assert_eq!(JsAny::Array(vec![]).type_of(), ValueType::Object);
    assert!(JsAny::Array(vec![]).is_array());
    assert_eq!(JsAny::BigInt(3).type_of(), ValueType::Bigint);
    assert!(!JsAny::Object(vec![]).is_array());
}

#[test]
fn shaped_parameter_binds_through_the_deserializer() {
    let shape = Shape::Struct(vec![("n".to_string(), Shape::Int)]);
    let obj = JsAny::Object(vec![("n".to_string(), JsAny::Number(4))]);
    let mut a = Arguments::new(JsAny::Undefined, vec![obj, JsAny::Number(1)]);
    match a.bind(&ArgKind::Shaped(shape)) {
        Ok(Bound::Data(Data::Mapping(es))) => {
            assert_eq!(es[0].0, "n");
            assert!(matches!(es[0].1, Data::Int(4)));
        }
        other => panic!("unexpected {:?}", other),
    }
    assert_eq!(a.arg_number(), 1);
}

#[test]
fn shaped_parameter_failure_is_a_deserialization_error() {
    let shape = Shape::Struct(vec![("n".to_string(), Shape::Int)]);
    let mut a = Arguments::new(JsAny::Undefined, vec![JsAny::Number(1)]);
    assert!(matches!(
        a.bind(&ArgKind::Shaped(shape)),
        Err(Error::Arguments(ArgumentsError::Deserialization(_)))
    ));
    let mut b = Arguments::new(JsAny::Undefined, vec![]);
    assert!(matches!(
        b.bind(&ArgKind::Shaped(Shape::Int)),
        Err(Error::Arguments(ArgumentsError::Missing(1)))
    ));
}
