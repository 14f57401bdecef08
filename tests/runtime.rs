use pinar::arguments::ArgKind;
use pinar::classes::{construct_origin, ClassBuilder, ConstructOrigin, InstanceTable, PropertyKind, CLASS_ID_MARKER};
use pinar::error::{ArgumentsError, ClassError, Error, FunctionError, JsError};
use pinar::multi_js::MultiValue;
use pinar::status::Status;
use pinar::threadsafe::ThreadSafeState;
use pinar::value::JsAny;

#[test]
fn liveness_until_last_handle_dropped() {
    let mut t = ThreadSafeState::acquire();
    t.clone_handle();
    t.clone_handle();
    assert!(!t.may_exit());
    assert!(!t.drop_handle());
    assert!(!t.drop_handle());
    assert!(!t.may_exit());
    assert!(t.drop_handle());
    assert!(t.may_exit());
}

#[test]
fn status_codes() {
    assert!(Status::result(0).is_ok());
    assert_eq!(Status::result(10), Err(Status::PendingException));
    assert_eq!(Status::from_code(17), Status::BigintExpected);
    assert_eq!(Status::from_code(99), Status::GenericFailure);
}

#[test]
fn error_codes() {
    assert_eq!(Error::Status(Status::InvalidArg).get_code(), Some("N-API".to_string()));
    assert_eq!(ArgumentsError::missing(1).get_code(), Some("PINAR".to_string()));
    assert_eq!(ArgumentsError::missing(1).domain_code(), "PINAR");
    assert!(ArgumentsError::missing(3).is_missing());
    assert!(!ArgumentsError::wrong_type("string", 3).is_missing());
}

#[test]
fn multi_value_limit() {
    let twelve: Vec<JsAny> = (0..12).map(JsAny::Number).collect();
    let m = MultiValue::new(twelve).unwrap();
    assert_eq!(m.len(), 12);
    assert!(matches!(m.as_ptr()[11], JsAny::Number(11)));
    let thirteen: Vec<JsAny> = (0..13).map(JsAny::Number).collect();
    assert!(MultiValue::new(thirteen).is_none());
}

#[test]
fn construction_origins() {
    assert_eq!(construct_origin(true, true), ConstructOrigin::NativeArgs);
    assert_eq!(construct_origin(false, true), ConstructOrigin::NativeInstance);
    assert_eq!(construct_origin(false, false), ConstructOrigin::Host);
}

#[test]
fn method_dispatch_checks_receiver_and_class() {
    let t = InstanceTable { name: "C".to_string(), id: 5, methods: 2 };
    let obj = JsAny::Object(vec![]);
    assert!(matches!(t.method_for(&obj, Some(5), 1), Ok(1)));
    assert!(matches!(t.method_for(&obj, Some(5), 2), Err(Error::Class(ClassError::WrongHandler))));
    assert!(matches!(t.method_for(&obj, Some(6), 0), Err(Error::Class(ClassError::WrongClass))));
    assert!(matches!(t.method_for(&obj, None, 0), Err(Error::Class(ClassError::ExternalClassData))));
    match t.method_for(&JsAny::Null, Some(5), 0) {
        Err(Error::Class(ClassError::ThisMethod(n))) => assert_eq!(n, "C"),
        other => panic!("unexpected {:?}", other),
    }
    assert!(t.check_constructor_this(&obj, true).is_ok());
    assert!(matches!(t.check_constructor_this(&obj, false), Err(Error::Class(ClassError::ThisConstructor(_)))));
}

#[test]
fn duplicate_copies_content() {
    let v = JsAny::Object(vec![("k".to_string(), JsAny::Array(vec![JsAny::Number(1)]))]);
    let c = v.duplicate();
    assert_eq!(format!("{:?}", c), format!("{:?}", v));
}

#[test]
fn messages() {
    assert_eq!(ArgumentsError::Missing(3).get_msg(), "3th argument is missing");
    assert_eq!(
        ArgumentsError::WrongType("string".to_string(), 12).get_msg(),
        "Wrong type, expected a string on the 12th argument"
    );
    assert_eq!(ArgumentsError::Deserialization("x".to_string()).get_msg(), "Deserialization error: x");
    assert_eq!(
        Error::Function(FunctionError::ArgumentsOverload("f".to_string())).get_msg(),
        "Multiple overload of the function f failed."
    );
    assert_eq!(Error::Status(Status::QueueFull).get_msg(), "Queue full.");
    assert_eq!(pinar::error::decimal(0), "0");
    assert_eq!(pinar::error::decimal(1907), "1907");
}

#[test]
fn class_builder_keys_properties_by_index() {
    let b = ClassBuilder::new("Point".to_string())
        .with_method("norm".to_string(), vec![])
        .with_accessor("x".to_string(), vec![ArgKind::Optional(Box::new(ArgKind::Number))]);
    let def = b.create(77);
    assert_eq!(def.table.id, 77);
    assert_eq!(def.table.methods, 2);
    assert_eq!(def.table.name, "Point");
    assert_eq!(def.descriptors[1].name, "x");
    assert_eq!(def.descriptors[1].kind, PropertyKind::Accessor);
    assert_eq!(def.descriptors[1].key, 1);
    assert_eq!(def.descriptors[0].kind, PropertyKind::Method);
    assert_eq!(def.descriptors.len(), 3);
    assert_eq!(def.descriptors[2].name, CLASS_ID_MARKER);
    assert_eq!(def.descriptors[2].kind, PropertyKind::Marker);
    assert_eq!(def.descriptors[2].key, 2);
}

#[test]
fn class_without_properties_still_has_its_marker() {
    let def = ClassBuilder::new("Empty".to_string()).create(1);
    assert_eq!(def.table.methods, 0);
    assert_eq!(def.descriptors.len(), 1);
    assert_eq!(def.descriptors[0].kind, PropertyKind::Marker);
}

#[test]
fn thread_safe_handle_exists_only_when_acquired() {
    let t = ThreadSafeState::new(0).unwrap();
    assert_eq!(t.handles, 1);
    assert!(!t.may_exit());
    assert!(matches!(ThreadSafeState::new(15), Err(Status::QueueFull)));
    assert!(matches!(ThreadSafeState::new(16), Err(Status::Closing)));
}

#[test]
fn class_error_messages() {
    assert_eq!(
        Error::Class(ClassError::ThisMethod("C".to_string())).get_msg(),
        "Wrong 'this' value on a method call of the class C"
    );
    assert_eq!(
        Error::Class(ClassError::NoConstructor("C".to_string())).get_msg(),
        "Constructor of the class C is not defined"
    );
    assert_eq!(Error::Function(FunctionError::WrongFunctionData).get_msg(), "Fail to dispatch the function");
    assert_eq!(
        Error::External(pinar::external::ExternalError::WrongType).get_msg(),
        "The external value holds another type"
    );
}
