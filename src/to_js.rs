//! Outbound conversion: native values to host values.
use crate::value::{JsAny, JsVal, props_set, set_prop, view_anys, lemma_view_anys, view_props};
use vstd::prelude::*;

verus! {

/// A native type that converts to a host value. Each conversion makes one
/// new host value.
pub trait ToJs {
    /// The host value that `self` converts to.
    spec fn js_spec(&self) -> JsVal;

    fn to_js(&self) -> (r: JsAny)
        ensures
            r@ == self.js_spec(),
    ;
}

impl ToJs for i64 {
    open spec fn js_spec(&self) -> JsVal {
        JsVal::Number(*self)
    }

    fn to_js(&self) -> (r: JsAny) {
        JsAny::Number(*self)
    }
}

/// Widened to the one integer representation of host numbers.
impl ToJs for i8 {
    open spec fn js_spec(&self) -> JsVal {
        JsVal::Number(*self as i64)
    }

    fn to_js(&self) -> (r: JsAny) {
        JsAny::Number(*self as i64)
    }
}

/// Widened to the one integer representation of host numbers.
impl ToJs for i16 {
    open spec fn js_spec(&self) -> JsVal {
        JsVal::Number(*self as i64)
    }

    fn to_js(&self) -> (r: JsAny) {
        JsAny::Number(*self as i64)
    }
}

/// Widened to the one integer representation of host numbers.
impl ToJs for i32 {
    open spec fn js_spec(&self) -> JsVal {
        JsVal::Number(*self as i64)
    }

    fn to_js(&self) -> (r: JsAny) {
        JsAny::Number(*self as i64)
    }
}

/// Widened to the one integer representation of host numbers.
impl ToJs for u8 {
    open spec fn js_spec(&self) -> JsVal {
        JsVal::Number(*self as i64)
    }

    fn to_js(&self) -> (r: JsAny) {
        JsAny::Number(*self as i64)
    }
}

/// Widened to the one integer representation of host numbers.
impl ToJs for u16 {
    open spec fn js_spec(&self) -> JsVal {
        JsVal::Number(*self as i64)
    }

    fn to_js(&self) -> (r: JsAny) {
        JsAny::Number(*self as i64)
    }
}

/// Widened to the one integer representation of host numbers.
impl ToJs for u32 {
    open spec fn js_spec(&self) -> JsVal {
        JsVal::Number(*self as i64)
    }

    fn to_js(&self) -> (r: JsAny) {
        JsAny::Number(*self as i64)
    }
}

impl ToJs for bool {
    open spec fn js_spec(&self) -> JsVal {
        JsVal::Boolean(*self)
    }

    fn to_js(&self) -> (r: JsAny) {
        JsAny::Boolean(*self)
    }
}

impl ToJs for String {
    open spec fn js_spec(&self) -> JsVal {
        JsVal::String(self@)
    }

    fn to_js(&self) -> (r: JsAny) {
        JsAny::String(self.clone())
    }
}

/// A host value converts to itself.
impl ToJs for JsAny {
    open spec fn js_spec(&self) -> JsVal {
        self@
    }

    fn to_js(&self) -> (r: JsAny) {
        self.duplicate()
    }
}

/// An ordered collection converts element by element, in order, to an array.
impl<T: ToJs> ToJs for Vec<T> {
    open spec fn js_spec(&self) -> JsVal {
        JsVal::Array(Seq::new(self@.len(), |i: int| self@[i].js_spec()))
    }

    fn to_js(&self) -> (r: JsAny) {
        let mut out: Vec<JsAny> = Vec::new();
        let mut i: usize = 0;
        while i < self.len()
            invariant
                i <= self@.len(),
                out@.len() == i,
                forall|j: int| 0 <= j < i ==> (#[trigger] out@[j])@ == self@[j].js_spec(),
            decreases self.len() - i,
        {
            let c = self[i].to_js();
            out.push(c);
            i = i + 1;
        }
        proof {
            lemma_view_anys(out@);
            assert(view_anys(out@) =~= Seq::new(self@.len(), |k: int| self@[k].js_spec()));
        }
        JsAny::Array(out)
    }
}

/// Absence converts to the host's null.
impl<T: ToJs> ToJs for Option<T> {
    open spec fn js_spec(&self) -> JsVal {
        match self {
            Some(x) => x.js_spec(),
            None => JsVal::Null,
        }
    }

    fn to_js(&self) -> (r: JsAny) {
        match self {
            Some(x) => x.to_js(),
            None => JsAny::Null,
        }
    }
}

/// A map with string keys, each key held once, in the order the keys were
/// first inserted.
pub struct KeyedMap<T> {
    pub entries: Vec<(String, T)>,
}

/// Index of the first entry whose key is `k`, if any.
pub open spec fn entry_index<T>(es: Seq<(String, T)>, k: Seq<char>) -> Option<int>
    decreases es.len(),
{
    if es.len() == 0 {
        None
    } else {
        match entry_index(es.drop_last(), k) {
            Some(i) => Some(i),
            None => if es.last().0@ == k {
                Some(es.len() - 1)
            } else {
                None
            },
        }
    }
}

pub proof fn lemma_entry_index<T>(es: Seq<(String, T)>, k: Seq<char>)
    ensures
        match entry_index(es, k) {
            Some(i) => 0 <= i < es.len() && es[i].0@ == k && forall|j: int|
                0 <= j < i ==> #[trigger] es[j].0@ != k,
            None => forall|j: int| 0 <= j < es.len() ==> #[trigger] es[j].0@ != k,
        },
    decreases es.len(),
{
    if es.len() > 0 {
        lemma_entry_index(es.drop_last(), k);
        assert forall|j: int| 0 <= j < es.len() - 1 implies es.drop_last()[j] == es[j] by {}
    }
}

/// The properties a map converts to: each entry written with the host's
/// `set`, so a key that came twice holds the last value, in its first place.
pub open spec fn map_js<T: ToJs>(es: Seq<(String, T)>) -> Seq<(Seq<char>, JsVal)>
    decreases es.len(),
{
    if es.len() == 0 {
        Seq::empty()
    } else {
        props_set(map_js(es.drop_last()), es.last().0@, es.last().1.js_spec())
    }
}

impl<T> KeyedMap<T> {
    pub fn new() -> (r: KeyedMap<T>)
        ensures
            r.entries@.len() == 0,
    {
        KeyedMap { entries: Vec::new() }
    }

    /// Maps `k` to `v`: an existing key keeps its place and takes the new
    /// value; a new key comes last.
    pub fn insert(&mut self, k: String, v: T)
        ensures
            match entry_index(old(self).entries@, k@) {
                Some(i) => final(self).entries@ == old(self).entries@.update(i, (k, v)),
                None => final(self).entries@ == old(self).entries@.push((k, v)),
            },
    {
        proof {
            lemma_entry_index(self.entries@, k@);
        }
        let mut i: usize = 0;
        while i < self.entries.len()
            invariant
                i <= self.entries@.len(),
                self.entries@ == old(self).entries@,
                forall|j: int| 0 <= j < i ==> #[trigger] self.entries@[j].0@ != k@,
            decreases self.entries.len() - i,
        {
            if self.entries[i].0 == k {
                proof {
                    lemma_entry_index(self.entries@, k@);
                }
                self.entries.set(i, (k, v));
                return;
            }
            i = i + 1;
        }
        self.entries.push((k, v));
    }
}

/// A key-unique map converts to an object.
impl<T: ToJs> ToJs for KeyedMap<T> {
    open spec fn js_spec(&self) -> JsVal {
        JsVal::Object(map_js(self.entries@))
    }

    fn to_js(&self) -> (r: JsAny) {
        let mut out: Vec<(String, JsAny)> = Vec::new();
        let mut i: usize = 0;
        while i < self.entries.len()
            invariant
                i <= self.entries@.len(),
                view_props(out@) == map_js(self.entries@.subrange(0, i as int)),
            decreases self.entries.len() - i,
        {
            let c = self.entries[i].1.to_js();
            set_prop(&mut out, self.entries[i].0.clone(), c);
            proof {
                let sub = self.entries@.subrange(0, i + 1);
                assert(sub.drop_last() == self.entries@.subrange(0, i as int));
            }
            i = i + 1;
        }
        assert(self.entries@.subrange(0, self.entries@.len() as int) == self.entries@);
        JsAny::Object(out)
    }
}

} // verus!
