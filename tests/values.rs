use pinar::to_js::{KeyedMap, ToJs};
use pinar::value::JsAny;

fn st(x: &str) -> String {
    x.to_string()
}

#[test]
fn object_get_set_delete() {
    let mut o = JsAny::Object(vec![]);
    assert!(o.set(st("a"), JsAny::Number(1)));
    assert!(o.set(st("b"), JsAny::Boolean(true)));
    assert!(o.set(st("a"), JsAny::Number(2)));
    assert!(matches!(o.get(&st("a")), Some(JsAny::Number(2))));
    assert!(o.has_own_property(&st("b")));
    assert_eq!(o.property_names(), vec![st("a"), st("b")]);
    assert!(o.delete_property(&st("a")));
    assert!(!o.delete_property(&st("a")));
    assert!(o.get(&st("a")).is_none());
    assert_eq!(o.property_names(), vec![st("b")]);
}

#[test]
fn set_on_non_object_changes_nothing() {
    let mut n = JsAny::Number(3);
    assert!(!n.set(st("a"), JsAny::Null));
    assert!(matches!(n, JsAny::Number(3)));
    assert!(n.property_names().is_empty());
    assert!(!n.has_own_property(&st("a")));
}

#[test]
fn array_access() {
    let a = JsAny::Array(vec![JsAny::Number(4), JsAny::Null]);
    assert_eq!(a.array_len(), Some(2));
    assert!(matches!(a.element(0), Some(JsAny::Number(4))));
    assert!(a.element(2).is_none());
    assert_eq!(JsAny::Null.array_len(), None);
}

#[test]
fn native_values_convert_outward() {
    assert!(matches!(7i64.to_js(), JsAny::Number(7)));
    assert!(matches!(false.to_js(), JsAny::Boolean(false)));
    assert!(matches!(st("s").to_js(), JsAny::String(s) if s == "s"));
    match vec![1i64, 2, 3].to_js() {
        JsAny::Array(items) => {
            assert_eq!(items.len(), 3);
            assert!(matches!(items[2], JsAny::Number(3)));
        }
        other => panic!("unexpected {:?}", other),
    }
    assert!(matches!(None::<i64>.to_js(), JsAny::Null));
    assert!(matches!(Some(5i64).to_js(), JsAny::Number(5)));
}

#[test]
fn narrow_integers_widen() {
    assert!(matches!((-3i8).to_js(), JsAny::Number(-3)));
    assert!(matches!(u32::MAX.to_js(), JsAny::Number(4294967295)));
    assert!(matches!(200u8.to_js(), JsAny::Number(200)));
}

#[test]
fn keyed_map_converts_to_object_with_unique_keys() {
    let mut m: KeyedMap<i64> = KeyedMap::new();
    m.insert(st("a"), 1);
    m.insert(st("b"), 2);
    m.insert(st("a"), 3);
    assert_eq!(m.entries.len(), 2);
    match m.to_js() {
        JsAny::Object(ps) => {
            assert_eq!(ps.len(), 2);
            assert_eq!(ps[0].0, "a");
            assert!(matches!(ps[0].1, JsAny::Number(3)));
            assert!(matches!(ps[1].1, JsAny::Number(2)));
        }
        other => panic!("unexpected {:?}", other),
    }
}
