use std::rc::Rc;
use std::sync::Arc;
use pinar::external::{External, ExternalError, Externals};

#[test]
fn take_box_twice_gives_payload_then_none() {
    let mut e = External::new_box(Box::new(String::from("payload")), 7);
    assert_eq!(e.take_box(7).unwrap().map(|b| *b), Some(String::from("payload")));
    assert!(matches!(e.take_box(7), Ok(None)));
    assert!(!e.holds_payload());
    assert!(!e.finalize());
}

#[test]
fn wrong_tag_is_refused_and_keeps_payload() {
    let mut e = External::new_box(Box::new(5u32), 1);
    assert!(matches!(e.take_box(2), Err(ExternalError::WrongType)));
    assert!(e.holds_payload());
    assert!(e.finalize());
}

#[test]
fn wrong_ownership_is_refused() {
    let mut e = External::new_rc(Rc::new(3u8), 4);
    assert!(matches!(e.take_box(4), Err(ExternalError::WrongOwnership)));
    assert!(matches!(e.get_arc(4), Err(ExternalError::WrongOwnership)));
    let a = External::new_arc(Arc::new(3u8), 4);
    assert!(matches!(a.get_rc(4), Err(ExternalError::WrongOwnership)));
}

#[test]
fn get_rc_shares_the_payload() {
    let rc = Rc::new(10i64);
    let e = External::new_rc(rc.clone(), 3);
    let got = e.get_rc(3).unwrap();
    assert!(Rc::ptr_eq(&got, &rc));
    assert_eq!(Rc::strong_count(&rc), 3);
    assert!(matches!(e.get_rc(9), Err(ExternalError::WrongType)));
}

#[test]
fn get_arc_shares_the_payload() {
    let arc = Arc::new(String::from("s"));
    let e = External::new_arc(arc.clone(), 3);
    let got = e.get_arc(3).unwrap();
    assert!(Arc::ptr_eq(&got, &arc));
    assert_eq!(Arc::strong_count(&arc), 3);
}

#[test]
fn finalizer_releases_a_record_once() {
    let mut table: Externals<String> = Externals::new();
    let h = table.register(External::new_box(Box::new(String::from("x")), 1));
    let other = table.register(External::new_box(Box::new(String::from("y")), 1));
    assert!(table.is_live(h));
    assert!(table.finalize(h));
    assert!(!table.finalize(h));
    assert!(!table.is_live(h));
    assert!(matches!(table.take_box(h, 1), Ok(None)));
    assert!(!table.finalize(99));
    assert!(table.is_live(other));
    assert_eq!(table.take_box(other, 1).unwrap().map(|b| *b), Some(String::from("y")));
    assert!(matches!(table.take_box(other, 1), Ok(None)));
    assert!(matches!(table.take_box(other, 2), Err(ExternalError::WrongType)));
}
