//! Deserialization of host values into structurally described native values.
use crate::ser::{Data, DataV, view_data, view_datas, view_entries};
use crate::value::{
    JsAny, JsVal, find_prop, prop_index, lemma_prop_index, view_any, view_anys, lemma_view_anys,
    view_props, lemma_view_props,
};
use vstd::prelude::*;

verus! {

broadcast use vstd::std_specs::vec::axiom_vec_index_decreases, vstd::seq::axiom_seq_subrange_decreases,
    vstd::seq::axiom_seq_index_decreases;

/// Why a host value could not be read as the native type asked for.
#[derive(Debug)]
pub struct DeserializeError {
    pub msg: String,
}

impl DeserializeError {
    pub fn new(msg: &str) -> (r: DeserializeError)
        ensures
            r.msg@ == msg@,
    {
        DeserializeError { msg: msg.to_string() }
    }
}

/// The structural description of a native type: what its deserializer
/// asks for.
///
/// A struct lists its fields in declaration order; an enum lists its
/// variants with the shape of their payload, `Unit` for a unit variant.
#[derive(Debug)]
pub enum Shape {
    Unit,
    Bool,
    Int,
    Str,
    Optional(Box<Shape>),
    Sequence(Box<Shape>),
    Tuple(Vec<Shape>),
    Struct(Vec<(String, Shape)>),
    Mapping(Box<Shape>),
    Enum(Vec<(String, Shape)>),
}

/// The mathematical content of a [`Shape`].
pub ghost enum ShapeV {
    Unit,
    Bool,
    Int,
    Str,
    Optional(Box<ShapeV>),
    Sequence(Box<ShapeV>),
    Tuple(Seq<ShapeV>),
    Struct(Seq<(Seq<char>, ShapeV)>),
    Mapping(Box<ShapeV>),
    Enum(Seq<(Seq<char>, ShapeV)>),
}

pub open spec fn view_shape(s: Shape) -> ShapeV
    decreases s, 1int,
{
    match s {
        Shape::Unit => ShapeV::Unit,
        Shape::Bool => ShapeV::Bool,
        Shape::Int => ShapeV::Int,
        Shape::Str => ShapeV::Str,
        Shape::Optional(i) => ShapeV::Optional(Box::new(view_shape(*i))),
        Shape::Sequence(i) => ShapeV::Sequence(Box::new(view_shape(*i))),
        Shape::Tuple(v) => ShapeV::Tuple(view_shapes(v@)),
        Shape::Struct(v) => ShapeV::Struct(view_fields(v@)),
        Shape::Mapping(i) => ShapeV::Mapping(Box::new(view_shape(*i))),
        Shape::Enum(v) => ShapeV::Enum(view_fields(v@)),
    }
}

pub open spec fn view_shapes(s: Seq<Shape>) -> Seq<ShapeV>
    decreases s, 0int,
{
    if s.len() == 0 {
        Seq::empty()
    } else {
        view_shapes(s.drop_last()).push(view_shape(s.last()))
    }
}

pub open spec fn view_fields(s: Seq<(String, Shape)>) -> Seq<(Seq<char>, ShapeV)>
    decreases s, 0int,
{
    if s.len() == 0 {
        Seq::empty()
    } else {
        view_fields(s.drop_last()).push((s.last().0@, view_shape(s.last().1)))
    }
}

pub proof fn lemma_view_shapes(s: Seq<Shape>)
    ensures
        view_shapes(s).len() == s.len(),
        forall|i: int| 0 <= i < s.len() ==> #[trigger] view_shapes(s)[i] == view_shape(s[i]),
    decreases s.len(),
{
    if s.len() > 0 {
        lemma_view_shapes(s.drop_last());
    }
}

pub proof fn lemma_view_fields(s: Seq<(String, Shape)>)
    ensures
        view_fields(s).len() == s.len(),
        forall|i: int|
            0 <= i < s.len() ==> #[trigger] view_fields(s)[i] == (s[i].0@, view_shape(s[i].1)),
    decreases s.len(),
{
    if s.len() > 0 {
        lemma_view_fields(s.drop_last());
    }
}

impl View for Shape {
    type V = ShapeV;

    open spec fn view(&self) -> ShapeV {
        view_shape(*self)
    }
}

pub open spec fn nullish(v: JsVal) -> bool {
    v is Null || v is Undefined
}

/// Reading the host value `v` as a native value of shape `s`; `None` when
/// it cannot be read so.
pub open spec fn de_spec(s: ShapeV, v: JsVal) -> Option<DataV>
    decreases s, 0nat,
{
    match s {
        ShapeV::Unit => if nullish(v) {
            Some(DataV::Unit)
        } else {
            None
        },
        ShapeV::Bool => match v {
            JsVal::Boolean(b) => Some(DataV::Bool(b)),
            _ => None,
        },
        ShapeV::Int => match v {
            JsVal::Number(n) => Some(DataV::Int(n)),
            _ => None,
        },
        ShapeV::Str => match v {
            JsVal::String(x) => Some(DataV::Str(x)),
            _ => None,
        },
        ShapeV::Optional(inner) => if nullish(v) {
            Some(DataV::Unit)
        } else {
            de_spec(*inner, v)
        },
        ShapeV::Sequence(inner) => match v {
            JsVal::Array(items) => match de_all(*inner, items) {
                Some(ds) => Some(DataV::Sequence(ds)),
                None => None,
            },
            _ => None,
        },
        ShapeV::Tuple(shapes) => match v {
            JsVal::Array(items) => if items.len() == shapes.len() {
                match de_each(shapes, items) {
                    Some(ds) => Some(DataV::Sequence(ds)),
                    None => None,
                }
            } else {
                None
            },
            _ => None,
        },
        ShapeV::Struct(fields) => match v {
            JsVal::Object(ps) => match de_fields(fields, ps) {
                Some(es) => Some(DataV::Mapping(es)),
                None => None,
            },
            _ => None,
        },
        ShapeV::Mapping(inner) => match v {
            JsVal::Object(ps) => match de_entries(*inner, ps) {
                Some(es) => Some(DataV::Mapping(es)),
                None => None,
            },
            _ => None,
        },
        ShapeV::Enum(vs) => match v {
            JsVal::String(x) => de_variant(vs, x, None),
            JsVal::Object(ps) => if ps.len() == 1 {
                de_variant(vs, ps[0].0, Some(ps[0].1))
            } else {
                None
            },
            _ => None,
        },
    }
}

/// Every element read with the same shape.
pub open spec fn de_all(s: ShapeV, items: Seq<JsVal>) -> Option<Seq<DataV>>
    decreases s, items.len() + 1,
{
    if items.len() == 0 {
        Some(Seq::empty())
    } else {
        match (de_all(s, items.drop_last()), de_spec(s, items.last())) {
            (Some(ds), Some(d)) => Some(ds.push(d)),
            _ => None,
        }
    }
}

/// Each element read with the shape at its index.
pub open spec fn de_each(shapes: Seq<ShapeV>, items: Seq<JsVal>) -> Option<Seq<DataV>>
    decreases shapes, 0nat,
{
    if shapes.len() == 0 || items.len() == 0 {
        Some(Seq::empty())
    } else {
        match (de_each(shapes.drop_last(), items.drop_last()), de_spec(shapes.last(), items.last())) {
            (Some(ds), Some(d)) => Some(ds.push(d)),
            _ => None,
        }
    }
}

/// One field of a struct, read from the object's property of that name; a
/// missing optional field is absent.
pub open spec fn de_field(name: Seq<char>, s: ShapeV, ps: Seq<(Seq<char>, JsVal)>) -> Option<DataV>
    decreases s, 1nat,
{
    match prop_index(ps, name) {
        Some(i) => if 0 <= i < ps.len() {
            de_spec(s, ps[i].1)
        } else {
            None
        },
        None => if s is Optional {
            Some(DataV::Unit)
        } else {
            None
        },
    }
}

/// The fields of a struct, in declaration order.
pub open spec fn de_fields(fields: Seq<(Seq<char>, ShapeV)>, ps: Seq<(Seq<char>, JsVal)>) -> Option<
    Seq<(Seq<char>, DataV)>,
>
    decreases fields, 0nat,
{
    if fields.len() == 0 {
        Some(Seq::empty())
    } else {
        let f = fields.last();
        match (de_fields(fields.drop_last(), ps), de_field(f.0, f.1, ps)) {
            (Some(es), Some(d)) => Some(es.push((f.0, d))),
            _ => None,
        }
    }
}

/// Every property of an object, in host enumeration order, read with the
/// same shape.
pub open spec fn de_entries(s: ShapeV, ps: Seq<(Seq<char>, JsVal)>) -> Option<Seq<(Seq<char>, DataV)>>
    decreases s, ps.len() + 1,
{
    if ps.len() == 0 {
        Some(Seq::empty())
    } else {
        match (de_entries(s, ps.drop_last()), de_spec(s, ps.last().1)) {
            (Some(es), Some(d)) => Some(es.push((ps.last().0, d))),
            _ => None,
        }
    }
}

/// The variant named `name`, the first of that name, with its payload if
/// the host value had one.
pub open spec fn de_variant(vs: Seq<(Seq<char>, ShapeV)>, name: Seq<char>, payload: Option<JsVal>) -> Option<
    DataV,
>
    decreases vs, 0nat,
{
    if vs.len() == 0 {
        None
    } else if vs[0].0 == name {
        match vs[0].1 {
            ShapeV::Unit => match payload {
                None => Some(DataV::UnitVariant(name)),
                Some(p) => if nullish(p) {
                    Some(DataV::UnitVariant(name))
                } else {
                    None
                },
            },
            _ => match payload {
                None => None,
                Some(p) => match de_spec(vs[0].1, p) {
                    Some(d) => Some(DataV::Variant(name, Box::new(d))),
                    None => None,
                },
            },
        }
    } else {
        de_variant(vs.subrange(1, vs.len() as int), name, payload)
    }
}

/// The variant tag of a host value that stands for an enum: a string names
/// a variant without payload; an object with exactly one own property names
/// the variant by its key and holds the payload as its value. Anything else,
/// an object with another number of properties included, is refused.
pub open spec fn variant_spec(v: JsVal) -> Option<(Seq<char>, Option<JsVal>)> {
    match v {
        JsVal::String(x) => Some((x, None)),
        JsVal::Object(ps) => if ps.len() == 1 {
            Some((ps[0].0, Some(ps[0].1)))
        } else {
            None
        },
        _ => None,
    }
}

/// Reads the variant tag and payload of a host value that stands for an enum.
pub fn variant_of(v: &JsAny) -> (r: Result<(String, Option<JsAny>), DeserializeError>)
    ensures
        match variant_spec(v@) {
            Some((n, p)) => r matches Ok((rn, rp)) && rn@ == n && match p {
                Some(pv) => rp matches Some(x) && x@ == pv,
                None => rp is None,
            },
            None => r is Err,
        },
{
    match v {
        JsAny::String(x) => Ok((x.clone(), None)),
        JsAny::Object(ps) => {
            proof {
                lemma_view_props(ps@);
            }
            if ps.len() != 1 {
                return Err(DeserializeError::new("an enum object must have exactly one property"));
            }
            Ok((ps[0].0.clone(), Some(ps[0].1.duplicate())))
        },
        _ => Err(DeserializeError::new("an enum is a string or an object")),
    }
}

pub proof fn lemma_de_all_none(s: ShapeV, items: Seq<JsVal>, i: int, j: int)
    requires
        0 <= i <= j <= items.len(),
        de_all(s, items.subrange(0, i)) is None,
    ensures
        de_all(s, items.subrange(0, j)) is None,
    decreases j - i,
{
    if i < j {
        lemma_de_all_none(s, items, i, j - 1);
        assert(items.subrange(0, j).drop_last() == items.subrange(0, j - 1));
    }
}

pub proof fn lemma_de_each_none(shapes: Seq<ShapeV>, items: Seq<JsVal>, i: int, j: int)
    requires
        0 <= i <= j <= items.len(),
        items.len() == shapes.len(),
        de_each(shapes.subrange(0, i), items.subrange(0, i)) is None,
    ensures
        de_each(shapes.subrange(0, j), items.subrange(0, j)) is None,
    decreases j - i,
{
    if i < j {
        lemma_de_each_none(shapes, items, i, j - 1);
        assert(items.subrange(0, j).drop_last() == items.subrange(0, j - 1));
        assert(shapes.subrange(0, j).drop_last() == shapes.subrange(0, j - 1));
    }
}

pub proof fn lemma_de_fields_none(
    fields: Seq<(Seq<char>, ShapeV)>,
    ps: Seq<(Seq<char>, JsVal)>,
    i: int,
    j: int,
)
    requires
        0 <= i <= j <= fields.len(),
        de_fields(fields.subrange(0, i), ps) is None,
    ensures
        de_fields(fields.subrange(0, j), ps) is None,
    decreases j - i,
{
    if i < j {
        lemma_de_fields_none(fields, ps, i, j - 1);
        assert(fields.subrange(0, j).drop_last() == fields.subrange(0, j - 1));
    }
}

pub proof fn lemma_de_entries_none(s: ShapeV, ps: Seq<(Seq<char>, JsVal)>, i: int, j: int)
    requires
        0 <= i <= j <= ps.len(),
        de_entries(s, ps.subrange(0, i)) is None,
    ensures
        de_entries(s, ps.subrange(0, j)) is None,
    decreases j - i,
{
    if i < j {
        lemma_de_entries_none(s, ps, i, j - 1);
        assert(ps.subrange(0, j).drop_last() == ps.subrange(0, j - 1));
    }
}

/// `r` is the executable outcome of reading as `spec` says.
pub open spec fn read_as(r: Result<Data, DeserializeError>, spec: Option<DataV>) -> bool {
    match spec {
        Some(d) => r matches Ok(x) && view_data(x) == d,
        None => r is Err,
    }
}

fn is_nullish(v: &JsAny) -> (r: bool)
    ensures
        r == nullish(v@),
{
    match v {
        JsAny::Null => true,
        JsAny::Undefined => true,
        _ => false,
    }
}

/// Reads a host value as a native value of shape `s`.
pub fn deserialize(s: &Shape, v: &JsAny) -> (r: Result<Data, DeserializeError>)
    ensures
        read_as(r, de_spec(s@, v@)),
    decreases s,
{
    match s {
        Shape::Unit => {
            if is_nullish(v) {
                Ok(Data::Unit)
            } else {
                Err(DeserializeError::new("expected null or undefined"))
            }
        },
        Shape::Bool => match v {
            JsAny::Boolean(b) => Ok(Data::Bool(*b)),
            _ => Err(DeserializeError::new("expected a boolean")),
        },
        Shape::Int => match v {
            JsAny::Number(n) => Ok(Data::Int(*n)),
            _ => Err(DeserializeError::new("expected a number")),
        },
        Shape::Str => match v {
            JsAny::String(x) => Ok(Data::Str(x.clone())),
            _ => Err(DeserializeError::new("expected a string")),
        },
        Shape::Optional(inner) => {
            if is_nullish(v) {
                Ok(Data::Unit)
            } else {
                proof {
                    assert(decreases_to!(*s => (*s)->Optional_0));
                }
                deserialize(inner, v)
            }
        },
        Shape::Sequence(inner) => match v {
            JsAny::Array(items) => {
                let ghost vs = view_anys(items@);
                proof {
                    lemma_view_anys(items@);
                }
                let mut out: Vec<Data> = Vec::new();
                let mut i: usize = 0;
                while i < items.len()
                    invariant
                        i <= items.len(),
                        *s == Shape::Sequence(*inner),
                        *v == JsAny::Array(*items),
                        vs == view_anys(items@),
                        vs.len() == items@.len(),
                        forall|m: int| 0 <= m < items@.len() ==> #[trigger] vs[m] == view_any(items@[m]),
                        de_all(view_shape(**inner), vs.subrange(0, i as int)) == Some(view_datas(out@)),
                    decreases items.len() - i,
                {
                    proof {
                        assert(decreases_to!(*s => (*s)->Sequence_0));
                        assert(vs.subrange(0, i + 1).drop_last() == vs.subrange(0, i as int));
                    }
                    match deserialize(inner, &items[i]) {
                        Ok(d) => {
                            let ghost prev = out@;
                            out.push(d);
                            proof {
                                assert(out@.drop_last() == prev);
                            }
                        },
                        Err(e) => {
                            proof {
                                assert(vs.subrange(0, i + 1).last() == vs[i as int]);
                                assert(de_all(view_shape(**inner), vs.subrange(0, i + 1)) is None);
                                lemma_de_all_none(view_shape(**inner), vs, i + 1, vs.len() as int);
                                assert(vs.subrange(0, vs.len() as int) == vs);
                            }
                            return Err(e);
                        },
                    }
                    i = i + 1;
                }
                assert(vs.subrange(0, vs.len() as int) == vs);
                Ok(Data::Sequence(out))
            },
            _ => Err(DeserializeError::new("expected an array")),
        },
        Shape::Tuple(shapes) => match v {
            JsAny::Array(items) => {
                let ghost vs = view_anys(items@);
                let ghost ss = view_shapes(shapes@);
                proof {
                    lemma_view_anys(items@);
                    lemma_view_shapes(shapes@);
                }
                if items.len() != shapes.len() {
                    return Err(DeserializeError::new("wrong number of tuple elements"));
                }
                let mut out: Vec<Data> = Vec::new();
                let mut i: usize = 0;
                while i < items.len()
                    invariant
                        i <= items.len(),
                        items.len() == shapes.len(),
                        *s == Shape::Tuple(*shapes),
                        *v == JsAny::Array(*items),
                        vs == view_anys(items@),
                        ss == view_shapes(shapes@),
                        vs.len() == items@.len(),
                        ss.len() == shapes@.len(),
                        forall|m: int| 0 <= m < items@.len() ==> #[trigger] vs[m] == view_any(items@[m]),
                        forall|m: int| 0 <= m < shapes@.len() ==> #[trigger] ss[m] == view_shape(shapes@[m]),
                        de_each(ss.subrange(0, i as int), vs.subrange(0, i as int)) == Some(view_datas(out@)),
                    decreases items.len() - i,
                {
                    proof {
                        assert(decreases_to!(*s => (*s)->Tuple_0));
                        assert(decreases_to!(*shapes => shapes@));
                        assert(decreases_to!(shapes@ => shapes@[i as int]));
                        assert(vs.subrange(0, i + 1).drop_last() == vs.subrange(0, i as int));
                        assert(ss.subrange(0, i + 1).drop_last() == ss.subrange(0, i as int));
                    }
                    match deserialize(&shapes[i], &items[i]) {
                        Ok(d) => {
                            let ghost prev = out@;
                            out.push(d);
                            proof {
                                assert(out@.drop_last() == prev);
                            }
                        },
                        Err(e) => {
                            proof {
                                assert(vs.subrange(0, i + 1).last() == vs[i as int]);
                                assert(ss.subrange(0, i + 1).last() == ss[i as int]);
                                assert(de_each(ss.subrange(0, i + 1), vs.subrange(0, i + 1)) is None);
                                lemma_de_each_none(ss, vs, i + 1, vs.len() as int);
                                assert(vs.subrange(0, vs.len() as int) == vs);
                                assert(ss.subrange(0, ss.len() as int) == ss);
                            }
                            return Err(e);
                        },
                    }
                    i = i + 1;
                }
                assert(vs.subrange(0, vs.len() as int) == vs);
                assert(ss.subrange(0, ss.len() as int) == ss);
                Ok(Data::Sequence(out))
            },
            _ => Err(DeserializeError::new("expected an array")),
        },
        Shape::Struct(fields) => match v {
            JsAny::Object(ps) => {
                let ghost pv = view_props(ps@);
                let ghost fv = view_fields(fields@);
                proof {
                    lemma_view_props(ps@);
                    lemma_view_fields(fields@);
                }
                let mut out: Vec<(String, Data)> = Vec::new();
                let mut i: usize = 0;
                while i < fields.len()
                    invariant
                        i <= fields.len(),
                        *s == Shape::Struct(*fields),
                        *v == JsAny::Object(*ps),
                        pv == view_props(ps@),
                        fv == view_fields(fields@),
                        pv.len() == ps@.len(),
                        fv.len() == fields@.len(),
                        forall|m: int| 0 <= m < ps@.len() ==> #[trigger] pv[m] == (ps@[m].0@, view_any(ps@[m].1)),
                        forall|m: int| 0 <= m < fields@.len() ==> #[trigger] fv[m] == (fields@[m].0@, view_shape(fields@[m].1)),
                        de_fields(fv.subrange(0, i as int), pv) == Some(view_entries(out@)),
                    decreases fields.len() - i,
                {
                    proof {
                        assert(decreases_to!(*s => (*s)->Struct_0));
                        assert(decreases_to!(*fields => fields@));
                        assert(decreases_to!(fields@ => fields@[i as int]));
                        assert(decreases_to!(fields@[i as int] => fields@[i as int].1));
                        assert(fv.subrange(0, i + 1).drop_last() == fv.subrange(0, i as int));
                        lemma_prop_index(pv, fields@[i as int].0@);
                    }
                    let ghost name = fv[i as int].0;
                    let ghost fs = fv[i as int].1;
                    let found = find_prop(ps, &fields[i].0);
                    let r = match found {
                        Some(j) => {
                            assert(pv[j as int].1 == view_any(ps@[j as int].1));
                            let r = deserialize(&fields[i].1, &ps[j].1);
                            assert(read_as(r, de_field(name, fs, pv)));
                            r
                        },
                        None => match &fields[i].1 {
                            Shape::Optional(_) => Ok(Data::Unit),
                            _ => Err(DeserializeError::new("missing field")),
                        },
                    };
                    assert(read_as(r, de_field(name, fs, pv)));
                    match r {
                        Ok(d) => {
                            let ghost prev = out@;
                            out.push((fields[i].0.clone(), d));
                            proof {
                                assert(out@.drop_last() == prev);
                            }
                        },
                        Err(e) => {
                            proof {
                                assert(fv.subrange(0, i + 1).last() == fv[i as int]);
                                assert(de_field(fv[i as int].0, fv[i as int].1, pv) is None);
                                assert(de_fields(fv.subrange(0, i + 1), pv) is None);
                                lemma_de_fields_none(fv, pv, i + 1, fv.len() as int);
                                assert(fv.subrange(0, fv.len() as int) == fv);
                            }
                            return Err(e);
                        },
                    }
                    i = i + 1;
                }
                assert(fv.subrange(0, fv.len() as int) == fv);
                Ok(Data::Mapping(out))
            },
            _ => Err(DeserializeError::new("expected an object")),
        },
        Shape::Mapping(inner) => match v {
            JsAny::Object(ps) => {
                let ghost pv = view_props(ps@);
                proof {
                    lemma_view_props(ps@);
                }
                let mut out: Vec<(String, Data)> = Vec::new();
                let mut i: usize = 0;
                while i < ps.len()
                    invariant
                        i <= ps.len(),
                        *s == Shape::Mapping(*inner),
                        *v == JsAny::Object(*ps),
                        pv == view_props(ps@),
                        pv.len() == ps@.len(),
                        forall|m: int| 0 <= m < ps@.len() ==> #[trigger] pv[m] == (ps@[m].0@, view_any(ps@[m].1)),
                        de_entries(view_shape(**inner), pv.subrange(0, i as int)) == Some(view_entries(out@)),
                    decreases ps.len() - i,
                {
                    proof {
                        assert(decreases_to!(*s => (*s)->Mapping_0));
                        assert(pv.subrange(0, i + 1).drop_last() == pv.subrange(0, i as int));
                    }
                    match deserialize(inner, &ps[i].1) {
                        Ok(d) => {
                            let ghost prev = out@;
                            out.push((ps[i].0.clone(), d));
                            proof {
                                assert(out@.drop_last() == prev);
                            }
                        },
                        Err(e) => {
                            proof {
                                assert(pv.subrange(0, i + 1).last() == pv[i as int]);
                                assert(de_entries(view_shape(**inner), pv.subrange(0, i + 1)) is None);
                                lemma_de_entries_none(view_shape(**inner), pv, i + 1, pv.len() as int);
                                assert(pv.subrange(0, pv.len() as int) == pv);
                            }
                            return Err(e);
                        },
                    }
                    i = i + 1;
                }
                assert(pv.subrange(0, pv.len() as int) == pv);
                Ok(Data::Mapping(out))
            },
            _ => Err(DeserializeError::new("expected an object")),
        },
        Shape::Enum(vs) => {
            let (name, payload) = match variant_of(v) {
                Ok(x) => x,
                Err(e) => {
                    return Err(e);
                },
            };
            let ghost fv = view_fields(vs@);
            let ghost pay: Option<JsVal> = if payload is Some {
                Some(payload->Some_0@)
            } else {
                None
            };
            proof {
                lemma_view_fields(vs@);
                assert(fv.subrange(0, fv.len() as int) == fv);
                assert(s@ == ShapeV::Enum(fv));
            }
            let mut i: usize = 0;
            while i < vs.len()
                invariant
                    i <= vs.len(),
                    *s == Shape::Enum(*vs),
                    fv == view_fields(vs@),
                    fv.len() == vs@.len(),
                    forall|m: int| 0 <= m < vs@.len() ==> #[trigger] fv[m] == (vs@[m].0@, view_shape(vs@[m].1)),
                    pay == (if payload is Some {
                        Some(payload->Some_0@)
                    } else {
                        None::<JsVal>
                    }),
                    de_spec(s@, v@) == de_variant(fv.subrange(i as int, fv.len() as int), name@, pay),
                decreases vs.len() - i,
            {
                let ghost rest = fv.subrange(i as int, fv.len() as int);
                assert(rest[0] == fv[i as int]);
                if vs[i].0 == name {
                    proof {
                        assert(decreases_to!(*s => (*s)->Enum_0));
                        assert(decreases_to!(*vs => vs@));
                        assert(decreases_to!(vs@ => vs@[i as int]));
                        assert(decreases_to!(vs@[i as int] => vs@[i as int].1));
                    }
                    match &vs[i].1 {
                        Shape::Unit => {
                            return match &payload {
                                None => Ok(Data::UnitVariant(name)),
                                Some(p) => {
                                    if is_nullish(p) {
                                        Ok(Data::UnitVariant(name))
                                    } else {
                                        Err(DeserializeError::new("a unit variant has no payload"))
                                    }
                                },
                            };
                        },
                        _ => {
                            return match &payload {
                                None => Err(DeserializeError::new("this variant needs a payload")),
                                Some(p) => match deserialize(&vs[i].1, p) {
                                    Ok(d) => Ok(Data::Variant(name, Box::new(d))),
                                    Err(e) => Err(e),
                                },
                            };
                        },
                    }
                }
                assert(rest.subrange(1, rest.len() as int) == fv.subrange(i + 1, fv.len() as int));
                i = i + 1;
            }
            Err(DeserializeError::new("unknown variant"))
        },
    }
}

} // verus!
