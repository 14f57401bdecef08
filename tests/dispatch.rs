use pinar::arguments::ArgKind;
use pinar::error::{Error, FunctionError, ArgumentsError};
use pinar::module::{Dispatch, ModuleBuilder, Overloads, Step};
use pinar::value::JsAny;

fn two_overloads() -> Overloads {
    let mut o = Overloads::new("f".to_string(), vec![ArgKind::Number]);
    o.push(vec![ArgKind::String]);
    o
}

#[test]
fn string_argument_selects_second_overload() {
    let o = two_overloads();
    let mut d = Dispatch::new();
    let step = o.next_step(&mut d, &vec![JsAny::String("a".to_string())], &JsAny::Undefined);
    assert!(matches!(step, Step::Invoke(1, _)));
    assert_eq!(d.next, 2);
}

#[test]
fn number_argument_selects_first_overload() {
    let o = two_overloads();
    let mut d = Dispatch::new();
    let step = o.next_step(&mut d, &vec![JsAny::Number(1)], &JsAny::Undefined);
    assert!(matches!(step, Step::Invoke(0, _)));
}

#[test]
fn no_overload_matches_gives_aggregate_failure() {
    let o = two_overloads();
    let mut d = Dispatch::new();
    let step = o.next_step(&mut d, &vec![JsAny::Boolean(true)], &JsAny::Undefined);
    match step {
        Step::Fail(Error::Function(FunctionError::ArgumentsOverload(n))) => assert_eq!(n, "f"),
        other => panic!("unexpected {:?}", other),
    }
}

#[test]
fn single_candidate_surfaces_its_own_failure() {
    let o = Overloads::new("g".to_string(), vec![ArgKind::Number]);
    let mut d = Dispatch::new();
    match o.next_step(&mut d, &vec![], &JsAny::Undefined) {
        Step::Fail(Error::Arguments(ArgumentsError::Missing(1))) => {}
        other => panic!("unexpected {:?}", other),
    }
}

#[test]
fn invocation_failure_moves_to_next_candidate() {
    let mut o = Overloads::new("h".to_string(), vec![ArgKind::Number]);
    o.push(vec![ArgKind::Optional(Box::new(ArgKind::Number))]);
    let mut d = Dispatch::new();
    let args = vec![JsAny::Number(3)];
    assert!(matches!(o.next_step(&mut d, &args, &JsAny::Undefined), Step::Invoke(0, _)));
    d.invocation_failed(Error::Function(FunctionError::WrongFunctionData));
    assert!(matches!(o.next_step(&mut d, &args, &JsAny::Undefined), Step::Invoke(1, _)));
    d.invocation_failed(Error::Function(FunctionError::WrongFunctionData));
    match o.next_step(&mut d, &args, &JsAny::Undefined) {
        Step::Fail(Error::Function(FunctionError::ArgumentsOverload(n))) => assert_eq!(n, "h"),
        other => panic!("unexpected {:?}", other),
    }
}

#[test]
fn single_candidate_invocation_failure_is_raised() {
    let o = Overloads::new("k".to_string(), vec![]);
    let mut d = Dispatch::new();
    assert!(matches!(o.next_step(&mut d, &vec![], &JsAny::Undefined), Step::Invoke(0, _)));
    d.invocation_failed(Error::Arguments(ArgumentsError::Deserialization("boom".to_string())));
    match o.next_step(&mut d, &vec![], &JsAny::Undefined) {
        Step::Fail(Error::Arguments(ArgumentsError::Deserialization(m))) => assert_eq!(m, "boom"),
        other => panic!("unexpected {:?}", other),
    }
}

#[test]
fn no_candidates_is_a_dispatch_failure() {
    let o = Overloads { name: "z".to_string(), candidates: vec![] };
    let mut d = Dispatch::new();
    assert!(matches!(
        o.next_step(&mut d, &vec![], &JsAny::Undefined),
        Step::Fail(Error::Function(FunctionError::WrongFunctionData))
    ));
}

#[test]
fn module_builder_groups_overloads_by_name() {
    let mut m = ModuleBuilder::new();
    m.with_function("a".to_string(), vec![ArgKind::Number]);
    m.with_function("b".to_string(), vec![]);
    m.with_function("a".to_string(), vec![ArgKind::String]);
    assert_eq!(m.functions.len(), 2);
    assert_eq!(m.functions[0].name, "a");
    assert_eq!(m.functions[0].candidates.len(), 2);
    assert!(matches!(m.functions[0].candidates[1][0], ArgKind::String));
    assert_eq!(m.functions[1].candidates.len(), 1);
}
