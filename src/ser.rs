//! Serialization of structurally described native values into host values.
use crate::value::{JsAny, JsVal, props_set, set_prop, view_props, lemma_view_props, view_anys};
use vstd::prelude::*;

verus! {

broadcast use vstd::std_specs::vec::axiom_vec_index_decreases, vstd::seq::axiom_seq_subrange_decreases,
    vstd::seq::axiom_seq_index_decreases;

/// Why a native value could not be handed to the host.
#[derive(Debug)]
pub struct SerializeError {
    pub msg: String,
}

impl SerializeError {
    pub fn new(msg: &str) -> (r: SerializeError)
        ensures
            r.msg@ == msg@,
    {
        SerializeError { msg: msg.to_string() }
    }
}

/// A native value in the structural data model: what a serializable type
/// hands to a serializer.
///
/// Unit, unit structs and an absent optional are `Unit`; a present optional
/// and a newtype struct are their content; sequences and tuples are `Sequence`;
/// maps and structs are `Mapping`; an enum variant with a payload (newtype, tuple
/// or struct variant) is `Variant` with that payload.
#[derive(Debug)]
pub enum Data {
    Unit,
    Bool(bool),
    Int(i64),
    Str(String),
    Sequence(Vec<Data>),
    Mapping(Vec<(String, Data)>),
    UnitVariant(String),
    Variant(String, Box<Data>),
}

/// The mathematical content of a [`Data`].
pub ghost enum DataV {
    Unit,
    Bool(bool),
    Int(i64),
    Str(Seq<char>),
    Sequence(Seq<DataV>),
    Mapping(Seq<(Seq<char>, DataV)>),
    UnitVariant(Seq<char>),
    Variant(Seq<char>, Box<DataV>),
}

pub open spec fn view_data(d: Data) -> DataV
    decreases d, 1int,
{
    match d {
        Data::Unit => DataV::Unit,
        Data::Bool(b) => DataV::Bool(b),
        Data::Int(n) => DataV::Int(n),
        Data::Str(s) => DataV::Str(s@),
        Data::Sequence(v) => DataV::Sequence(view_datas(v@)),
        Data::Mapping(v) => DataV::Mapping(view_entries(v@)),
        Data::UnitVariant(n) => DataV::UnitVariant(n@),
        Data::Variant(n, p) => DataV::Variant(n@, Box::new(view_data(*p))),
    }
}

pub open spec fn view_datas(s: Seq<Data>) -> Seq<DataV>
    decreases s, 0int,
{
    if s.len() == 0 {
        Seq::empty()
    } else {
        view_datas(s.drop_last()).push(view_data(s.last()))
    }
}

pub open spec fn view_entries(s: Seq<(String, Data)>) -> Seq<(Seq<char>, DataV)>
    decreases s, 0int,
{
    if s.len() == 0 {
        Seq::empty()
    } else {
        view_entries(s.drop_last()).push((s.last().0@, view_data(s.last().1)))
    }
}

impl View for Data {
    type V = DataV;

    open spec fn view(&self) -> DataV {
        view_data(*self)
    }
}

/// The host value a native value serializes to. A unit variant is its name;
/// a variant with a payload is an object whose one key is the variant name
/// and whose value is the serialized payload.
pub open spec fn ser_spec(d: DataV) -> JsVal
    decreases d, 1int,
{
    match d {
        DataV::Unit => JsVal::Null,
        DataV::Bool(b) => JsVal::Boolean(b),
        DataV::Int(n) => JsVal::Number(n),
        DataV::Str(s) => JsVal::String(s),
        DataV::Sequence(items) => JsVal::Array(ser_items(items)),
        DataV::Mapping(es) => JsVal::Object(ser_entries(es)),
        DataV::UnitVariant(n) => JsVal::String(n),
        DataV::Variant(n, p) => JsVal::Object(seq![(n, ser_spec(*p))]),
    }
}

/// Elements written at increasing indices.
pub open spec fn ser_items(s: Seq<DataV>) -> Seq<JsVal>
    decreases s, 0int,
{
    if s.len() == 0 {
        Seq::empty()
    } else {
        ser_items(s.drop_last()).push(ser_spec(s.last()))
    }
}

/// Each key written in turn with the host's `set`.
pub open spec fn ser_entries(s: Seq<(Seq<char>, DataV)>) -> Seq<(Seq<char>, JsVal)>
    decreases s, 0int,
{
    if s.len() == 0 {
        Seq::empty()
    } else {
        props_set(ser_entries(s.drop_last()), s.last().0, ser_spec(s.last().1))
    }
}

/// Serializes a native value into a host value.
pub fn serialize(d: &Data) -> (r: JsAny)
    ensures
        r@ == ser_spec(d@),
    decreases d,
{
    match d {
        Data::Unit => JsAny::Null,
        Data::Bool(b) => JsAny::Boolean(*b),
        Data::Int(n) => JsAny::Number(*n),
        Data::Str(s) => JsAny::String(s.clone()),
        Data::UnitVariant(n) => JsAny::String(n.clone()),
        Data::Variant(n, p) => {
            proof {
                assert(decreases_to!(*d => (*d)->Variant_1));
            }
            let inner = serialize(p);
            let mut ps: Vec<(String, JsAny)> = Vec::new();
            ps.push((n.clone(), inner));
            proof {
                lemma_view_props(ps@);
                assert(view_props(ps@) =~= seq![(n@, ser_spec(view_data(**p)))]);
            }
            JsAny::Object(ps)
        },
        Data::Sequence(v) => {
            let mut out: Vec<JsAny> = Vec::new();
            let mut i: usize = 0;
            while i < v.len()
                invariant
                    i <= v.len(),
                    *d == Data::Sequence(*v),
                    view_anys(out@) == ser_items(view_datas(v@.subrange(0, i as int))),
                decreases v.len() - i,
            {
                proof {
                    assert(decreases_to!(*d => (*d)->Sequence_0));
                    assert(decreases_to!(*v => v@));
                    assert(decreases_to!(v@ => v@[i as int]));
                }
                let c = serialize(&v[i]);
                let ghost prev = out@;
                out.push(c);
                proof {
                    assert(out@.drop_last() == prev);
                    let sub = v@.subrange(0, i + 1);
                    assert(sub.drop_last() == v@.subrange(0, i as int));
                    assert(view_datas(sub).drop_last() == view_datas(sub.drop_last()));
                }
                i = i + 1;
            }
            assert(v@.subrange(0, v@.len() as int) == v@);
            JsAny::Array(out)
        },
        Data::Mapping(v) => {
            let mut out: Vec<(String, JsAny)> = Vec::new();
            let mut i: usize = 0;
            while i < v.len()
                invariant
                    i <= v.len(),
                    *d == Data::Mapping(*v),
                    view_props(out@) == ser_entries(view_entries(v@.subrange(0, i as int))),
                decreases v.len() - i,
            {
                proof {
                    assert(decreases_to!(*d => (*d)->Mapping_0));
                    assert(decreases_to!(*v => v@));
                    assert(decreases_to!(v@ => v@[i as int]));
                    assert(decreases_to!(v@[i as int] => v@[i as int].1));
                }
                let c = serialize(&v[i].1);
                let k = v[i].0.clone();
                set_prop(&mut out, k, c);
                proof {
                    let sub = v@.subrange(0, i + 1);
                    assert(sub.drop_last() == v@.subrange(0, i as int));
                    assert(view_entries(sub).drop_last() == view_entries(sub.drop_last()));
                }
                i = i + 1;
            }
            assert(v@.subrange(0, v@.len() as int) == v@);
            JsAny::Object(out)
        },
    }
}

} // verus!
