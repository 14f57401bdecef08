use pinar::de::{deserialize, variant_of, Shape};
use pinar::ser::{serialize, Data};
use pinar::value::set_prop;
use pinar::value::JsAny;

fn st(x: &str) -> String {
    x.to_string()
}

fn color_shape() -> Shape {
    Shape::Enum(vec![
        (st("Red"), Shape::Unit),
        (st("Named"), Shape::Str),
        (st("Rgb"), Shape::Tuple(vec![Shape::Int, Shape::Int, Shape::Int])),
    ])
}

fn same(a: &Data, b: &Data) -> bool {
    format!("{:?}", a) == format!("{:?}", b)
}

#[test]
fn newtype_variant_is_object_with_one_key() {
    let d = Data::Variant(st("Named"), Box::new(Data::Str(st("red"))));
    match serialize(&d) {
        JsAny::Object(ps) => {
            assert_eq!(ps.len(), 1);
            assert_eq!(ps[0].0, "Named");
            assert!(matches!(&ps[0].1, JsAny::String(s) if s == "red"));
        }
        other => panic!("unexpected {:?}", other),
    }
}

#[test]
fn unit_variant_is_its_name() {
    assert!(matches!(serialize(&Data::UnitVariant(st("Red"))), JsAny::String(s) if s == "Red"));
}

#[test]
fn object_with_two_keys_is_not_an_enum() {
    let v = JsAny::Object(vec![(st("Named"), JsAny::String(st("red"))), (st("Red"), JsAny::Null)]);
    assert!(deserialize(&color_shape(), &v).is_err());
    assert!(variant_of(&v).is_err());
    assert!(variant_of(&JsAny::Object(vec![])).is_err());
}

#[test]
fn enum_round_trip() {
    let shape = color_shape();
    for d in [
        Data::UnitVariant(st("Red")),
        Data::Variant(st("Named"), Box::new(Data::Str(st("red")))),
        Data::Variant(st("Rgb"), Box::new(Data::Sequence(vec![Data::Int(1), Data::Int(2), Data::Int(3)]))),
    ] {
        let back = deserialize(&shape, &serialize(&d)).unwrap();
        assert!(same(&back, &d));
    }
}

#[test]
fn unknown_variant_is_refused() {
    assert!(deserialize(&color_shape(), &JsAny::String(st("Blue"))).is_err());
    assert!(deserialize(&color_shape(), &JsAny::String(st("Named"))).is_err());
}

#[test]
fn struct_round_trip_with_optional_and_map() {
    let shape = Shape::Struct(vec![
        (st("s"), Shape::Str),
        (st("n"), Shape::Int),
        (st("o"), Shape::Optional(Box::new(Shape::Bool))),
        (st("m"), Shape::Mapping(Box::new(Shape::Sequence(Box::new(Shape::Int))))),
        (st("u"), Shape::Unit),
    ]);
    let d = Data::Mapping(vec![
        (st("s"), Data::Str(st("hello"))),
        (st("n"), Data::Int(-5)),
        (st("o"), Data::Unit),
        (st("m"), Data::Mapping(vec![(st("k"), Data::Sequence(vec![Data::Int(9)]))])),
        (st("u"), Data::Unit),
    ]);
    let v = serialize(&d);
    let back = deserialize(&shape, &v).unwrap();
    assert!(same(&back, &d));
}

#[test]
fn missing_optional_field_is_absent_and_missing_field_fails() {
    let shape = Shape::Struct(vec![(st("a"), Shape::Optional(Box::new(Shape::Int)))]);
    let back = deserialize(&shape, &JsAny::Object(vec![])).unwrap();
    assert!(same(&back, &Data::Mapping(vec![(st("a"), Data::Unit)])));
    let strict = Shape::Struct(vec![(st("a"), Shape::Int)]);
    assert!(deserialize(&strict, &JsAny::Object(vec![])).is_err());
}

#[test]
fn numbers_and_unit() {
    assert!(matches!(serialize(&Data::Int(i64::MIN)), JsAny::Number(i64::MIN)));
    assert!(matches!(serialize(&Data::Unit), JsAny::Null));
    assert!(matches!(deserialize(&Shape::Unit, &JsAny::Undefined), Ok(Data::Unit)));
    assert!(deserialize(&Shape::Int, &JsAny::String(st("1"))).is_err());
    assert!(matches!(deserialize(&Shape::Bool, &JsAny::Boolean(true)), Ok(Data::Bool(true))));
}

#[test]
fn tuple_needs_exact_length() {
    let shape = Shape::Tuple(vec![Shape::Int, Shape::Str]);
    let ok = JsAny::Array(vec![JsAny::Number(1), JsAny::String(st("x"))]);
    assert!(deserialize(&shape, &ok).is_ok());
    let short = JsAny::Array(vec![JsAny::Number(1)]);
    assert!(deserialize(&shape, &short).is_err());
}

#[test]
fn sequence_fails_on_bad_element() {
    let shape = Shape::Sequence(Box::new(Shape::Int));
    let v = JsAny::Array(vec![JsAny::Number(1), JsAny::Null]);
    assert!(deserialize(&shape, &v).is_err());
    let empty = deserialize(&shape, &JsAny::Array(vec![])).unwrap();
    assert!(same(&empty, &Data::Sequence(vec![])));
}

#[test]
fn map_with_repeated_key_keeps_last_value_in_first_place() {
    let d = Data::Mapping(vec![
        (st("a"), Data::Int(1)),
        (st("b"), Data::Int(2)),
        (st("a"), Data::Int(3)),
    ]);
    match serialize(&d) {
        JsAny::Object(ps) => {
            assert_eq!(ps.len(), 2);
            assert_eq!(ps[0].0, "a");
            assert!(matches!(ps[0].1, JsAny::Number(3)));
            assert_eq!(ps[1].0, "b");
        }
        other => panic!("unexpected {:?}", other),
    }
}

#[test]
fn set_prop_replaces_or_appends() {
    let mut ps = vec![(st("x"), JsAny::Number(1))];
    set_prop(&mut ps, st("y"), JsAny::Number(2));
    set_prop(&mut ps, st("x"), JsAny::Number(3));
    assert_eq!(ps.len(), 2);
    assert!(matches!(ps[0].1, JsAny::Number(3)));
}

#[test]
fn unit_variant_accepts_null_payload() {
    let v = JsAny::Object(vec![(st("Red"), JsAny::Null)]);
    assert!(matches!(deserialize(&color_shape(), &v), Ok(Data::UnitVariant(n)) if n == "Red"));
    let bad = JsAny::Object(vec![(st("Red"), JsAny::Number(1))]);
    assert!(deserialize(&color_shape(), &bad).is_err());
}
