//! Which native values survive a trip through the host unchanged, and the
//! proof that they do.
use crate::de::{
    ShapeV, de_spec, de_all, de_each, de_entries, de_field, de_fields, de_variant, nullish,
};
use crate::ser::{DataV, ser_spec, ser_items, ser_entries};
use crate::value::{JsVal, prop_index, lemma_prop_index};
use vstd::prelude::*;

verus! {

broadcast use vstd::seq::axiom_seq_subrange_decreases, vstd::seq::axiom_seq_index_decreases;

pub open spec fn field_names<T>(fs: Seq<(Seq<char>, T)>) -> Seq<Seq<char>> {
    fs.map_values(|f: (Seq<char>, T)| f.0)
}

/// A shape whose values the host can tell apart: an optional never holds a
/// unit or another optional (both would serialize to null, as absence
/// does), and a struct never has two fields of the same name.
pub open spec fn wf_shape(s: ShapeV) -> bool
    decreases s, 0nat,
{
    match s {
        ShapeV::Optional(inner) => !(*inner is Unit) && !(*inner is Optional) && wf_shape(*inner),
        ShapeV::Sequence(inner) => wf_shape(*inner),
        ShapeV::Mapping(inner) => wf_shape(*inner),
        ShapeV::Tuple(ss) => wf_shapes(ss),
        ShapeV::Struct(fs) => wf_fields(fs) && field_names(fs).no_duplicates(),
        ShapeV::Enum(vs) => wf_fields(vs),
        _ => true,
    }
}

pub open spec fn wf_shapes(ss: Seq<ShapeV>) -> bool
    decreases ss, 0nat,
{
    ss.len() == 0 || (wf_shapes(ss.drop_last()) && wf_shape(ss.last()))
}

pub open spec fn wf_fields(fs: Seq<(Seq<char>, ShapeV)>) -> bool
    decreases fs, 0nat,
{
    fs.len() == 0 || (wf_fields(fs.drop_last()) && wf_shape(fs.last().1))
}

/// The native value `d` is a value of the type described by `s`; the keys of
/// a map are distinct.
pub open spec fn conforms(d: DataV, s: ShapeV) -> bool
    decreases s, 0nat,
{
    match s {
        ShapeV::Unit => d is Unit,
        ShapeV::Bool => d is Bool,
        ShapeV::Int => d is Int,
        ShapeV::Str => d is Str,
        ShapeV::Optional(inner) => d is Unit || conforms(d, *inner),
        ShapeV::Sequence(inner) => d is Sequence && conforms_all(d->Sequence_0, *inner),
        ShapeV::Tuple(ss) => d is Sequence && d->Sequence_0.len() == ss.len() && conforms_each(
            d->Sequence_0,
            ss,
        ),
        ShapeV::Struct(fs) => d is Mapping && d->Mapping_0.len() == fs.len() && conforms_fields(
            d->Mapping_0,
            fs,
        ),
        ShapeV::Mapping(inner) => d is Mapping && field_names(d->Mapping_0).no_duplicates()
            && conforms_entries(d->Mapping_0, *inner),
        ShapeV::Enum(vs) => match d {
            DataV::UnitVariant(n) => conforms_variant(vs, n, None),
            DataV::Variant(n, p) => conforms_variant(vs, n, Some(*p)),
            _ => false,
        },
    }
}

pub open spec fn conforms_all(ds: Seq<DataV>, s: ShapeV) -> bool
    decreases s, ds.len() + 1,
{
    ds.len() == 0 || (conforms_all(ds.drop_last(), s) && conforms(ds.last(), s))
}

pub open spec fn conforms_each(ds: Seq<DataV>, ss: Seq<ShapeV>) -> bool
    decreases ss, 0nat,
{
    ss.len() == 0 || ds.len() == 0 || (conforms_each(ds.drop_last(), ss.drop_last()) && conforms(
        ds.last(),
        ss.last(),
    ))
}

pub open spec fn conforms_fields(es: Seq<(Seq<char>, DataV)>, fs: Seq<(Seq<char>, ShapeV)>) -> bool
    decreases fs, 0nat,
{
    fs.len() == 0 || es.len() == 0 || (conforms_fields(es.drop_last(), fs.drop_last()) && es.last().0
        == fs.last().0 && conforms(es.last().1, fs.last().1))
}

pub open spec fn conforms_entries(es: Seq<(Seq<char>, DataV)>, s: ShapeV) -> bool
    decreases s, es.len() + 1,
{
    es.len() == 0 || (conforms_entries(es.drop_last(), s) && conforms(es.last().1, s))
}

/// The first variant named `n` fits the payload `p` (`None` for none).
pub open spec fn conforms_variant(vs: Seq<(Seq<char>, ShapeV)>, n: Seq<char>, p: Option<DataV>) -> bool
    decreases vs, 0nat,
{
    if vs.len() == 0 {
        false
    } else if vs[0].0 == n {
        match p {
            None => vs[0].1 is Unit,
            Some(pd) => !(vs[0].1 is Unit) && conforms(pd, vs[0].1),
        }
    } else {
        conforms_variant(vs.subrange(1, vs.len() as int), n, p)
    }
}

/// Properties written once each, in order.
pub open spec fn ser_plain(es: Seq<(Seq<char>, DataV)>) -> Seq<(Seq<char>, JsVal)>
    decreases es.len(),
{
    if es.len() == 0 {
        Seq::empty()
    } else {
        ser_plain(es.drop_last()).push((es.last().0, ser_spec(es.last().1)))
    }
}

proof fn lemma_ser_plain(es: Seq<(Seq<char>, DataV)>)
    ensures
        ser_plain(es).len() == es.len(),
        forall|i: int|
            0 <= i < es.len() ==> #[trigger] ser_plain(es)[i] == (es[i].0, ser_spec(es[i].1)),
    decreases es.len(),
{
    if es.len() > 0 {
        lemma_ser_plain(es.drop_last());
    }
}

proof fn lemma_ser_items(ds: Seq<DataV>)
    ensures
        ser_items(ds).len() == ds.len(),
    decreases ds.len(),
{
    if ds.len() > 0 {
        lemma_ser_items(ds.drop_last());
    }
}

/// With distinct keys, writing each with `set` appends them in order.
proof fn lemma_ser_entries_plain(es: Seq<(Seq<char>, DataV)>)
    requires
        field_names(es).no_duplicates(),
    ensures
        ser_entries(es) == ser_plain(es),
    decreases es.len(),
{
    if es.len() > 0 {
        let pre = es.drop_last();
        assert(field_names(pre) =~= field_names(es).drop_last());
        lemma_ser_entries_plain(pre);
        lemma_ser_plain(pre);
        let k = es.last().0;
        lemma_prop_index(ser_plain(pre), k);
        assert forall|j: int| 0 <= j < ser_plain(pre).len() implies #[trigger] ser_plain(pre)[j].0 != k by {
            assert(field_names(es)[j] == es[j].0);
            assert(field_names(es)[es.len() - 1] == k);
        }
        assert(prop_index(ser_plain(pre), k) is None);
    }
}

proof fn lemma_conforms_fields_keys(es: Seq<(Seq<char>, DataV)>, fs: Seq<(Seq<char>, ShapeV)>)
    requires
        es.len() == fs.len(),
        conforms_fields(es, fs),
    ensures
        forall|i: int| 0 <= i < es.len() ==> #[trigger] es[i].0 == fs[i].0,
    decreases fs.len(),
{
    if fs.len() > 0 {
        lemma_conforms_fields_keys(es.drop_last(), fs.drop_last());
        assert forall|i: int| 0 <= i < es.len() implies #[trigger] es[i].0 == fs[i].0 by {
            if i < es.len() - 1 {
                assert(es.drop_last()[i] == es[i]);
                assert(fs.drop_last()[i] == fs[i]);
            }
        }
    }
}

proof fn lemma_wf_fields_all(fs: Seq<(Seq<char>, ShapeV)>)
    requires
        wf_fields(fs),
    ensures
        forall|i: int| 0 <= i < fs.len() ==> wf_shape(#[trigger] fs[i].1),
    decreases fs.len(),
{
    if fs.len() > 0 {
        lemma_wf_fields_all(fs.drop_last());
        assert forall|i: int| 0 <= i < fs.len() implies wf_shape(#[trigger] fs[i].1) by {
            if i < fs.len() - 1 {
                assert(fs.drop_last()[i] == fs[i]);
            }
        }
    }
}

proof fn lemma_not_nullish(d: DataV, s: ShapeV)
    requires
        conforms(d, s),
        !(s is Unit),
        !(s is Optional),
    ensures
        !nullish(ser_spec(d)),
{
}

/// The property of an object that a field reads is the one written for it.
pub open spec fn field_found(ps: Seq<(Seq<char>, JsVal)>, name: Seq<char>, v: JsVal) -> bool {
    match prop_index(ps, name) {
        Some(k) => 0 <= k < ps.len() && ps[k].1 == v,
        None => false,
    }
}

/// Serializing a value of a type whose values the host can tell apart and
/// deserializing the result as that type gives the value back. Integers of
/// every width travel in one widened representation; this speaks of the
/// value once widened.
pub proof fn lemma_round_trip(d: DataV, s: ShapeV)
    requires
        wf_shape(s),
        conforms(d, s),
    ensures
        de_spec(s, ser_spec(d)) == Some(d),
    decreases s, 0nat,
{
    match s {
        ShapeV::Optional(inner) => {
            if !(d is Unit) {
                lemma_not_nullish(d, *inner);
                lemma_round_trip(d, *inner);
            }
        },
        ShapeV::Sequence(inner) => {
            let ds = d->Sequence_0;
            lemma_rt_all(ds, *inner);
        },
        ShapeV::Tuple(ss) => {
            let ds = d->Sequence_0;
            lemma_ser_items(ds);
            lemma_rt_each(ds, ss);
        },
        ShapeV::Struct(fs) => {
            let es = d->Mapping_0;
            lemma_conforms_fields_keys(es, fs);
            assert(field_names(es) =~= field_names(fs)) by {
                assert forall|i: int| 0 <= i < es.len() implies field_names(es)[i] == field_names(
                    fs,
                )[i] by {
                    assert(es[i].0 == fs[i].0);
                }
            }
            lemma_ser_entries_plain(es);
            lemma_ser_plain(es);
            let ps = ser_plain(es);
            assert forall|i: int| 0 <= i < fs.len() implies field_found(
                ps,
                #[trigger] fs[i].0,
                ser_spec(es[i].1),
            ) by {
                lemma_prop_index(ps, fs[i].0);
                assert(ps[i].0 == fs[i].0);
                match prop_index(ps, fs[i].0) {
                    Some(k) => {
                        if k != i {
                            assert(field_names(es)[k] == ps[k].0);
                            assert(field_names(es)[i] == ps[i].0);
                        }
                    },
                    None => {},
                }
            }
            lemma_rt_fields(es, fs, ps);
        },
        ShapeV::Mapping(inner) => {
            let es = d->Mapping_0;
            lemma_ser_entries_plain(es);
            lemma_rt_entries(es, *inner);
        },
        ShapeV::Enum(vs) => {
            lemma_wf_fields_all(vs);
            match d {
                DataV::UnitVariant(n) => {
                    lemma_rt_variant(vs, n, None);
                },
                DataV::Variant(n, p) => {
                    lemma_rt_variant(vs, n, Some(*p));
                    assert(seq![(n, ser_spec(*p))][0] == (n, ser_spec(*p)));
                },
                _ => {},
            }
        },
        _ => {},
    }
}

proof fn lemma_rt_all(ds: Seq<DataV>, s: ShapeV)
    requires
        wf_shape(s),
        conforms_all(ds, s),
    ensures
        de_all(s, ser_items(ds)) == Some(ds),
    decreases s, ds.len() + 1,
{
    if ds.len() > 0 {
        lemma_rt_all(ds.drop_last(), s);
        lemma_round_trip(ds.last(), s);
        assert(ser_items(ds).drop_last() == ser_items(ds.drop_last()));
        assert(ds.drop_last().push(ds.last()) =~= ds);
    }
}

proof fn lemma_rt_each(ds: Seq<DataV>, ss: Seq<ShapeV>)
    requires
        wf_shapes(ss),
        ds.len() == ss.len(),
        conforms_each(ds, ss),
    ensures
        de_each(ss, ser_items(ds)) == Some(ds),
    decreases ss, 0nat,
{
    lemma_ser_items(ds);
    if ss.len() > 0 {
        lemma_rt_each(ds.drop_last(), ss.drop_last());
        lemma_round_trip(ds.last(), ss.last());
        assert(ser_items(ds).drop_last() == ser_items(ds.drop_last()));
        assert(ds.drop_last().push(ds.last()) =~= ds);
    }
}

proof fn lemma_rt_entries(es: Seq<(Seq<char>, DataV)>, s: ShapeV)
    requires
        wf_shape(s),
        conforms_entries(es, s),
    ensures
        de_entries(s, ser_plain(es)) == Some(es),
    decreases s, es.len() + 1,
{
    lemma_ser_plain(es);
    if es.len() > 0 {
        lemma_rt_entries(es.drop_last(), s);
        lemma_round_trip(es.last().1, s);
        assert(ser_plain(es).drop_last() == ser_plain(es.drop_last()));
        assert(es.drop_last().push((es.last().0, es.last().1)) =~= es);
    }
}

proof fn lemma_rt_fields(es: Seq<(Seq<char>, DataV)>, fs: Seq<(Seq<char>, ShapeV)>, ps: Seq<(Seq<char>, JsVal)>)
    requires
        wf_fields(fs),
        es.len() == fs.len(),
        conforms_fields(es, fs),
        forall|i: int| 0 <= i < fs.len() ==> field_found(ps, #[trigger] fs[i].0, ser_spec(es[i].1)),
    ensures
        de_fields(fs, ps) == Some(es),
    decreases fs, 0nat,
{
    if fs.len() > 0 {
        let n = fs.len() - 1;
        assert forall|i: int| 0 <= i < fs.drop_last().len() implies field_found(
            ps,
            #[trigger] fs.drop_last()[i].0,
            ser_spec(es.drop_last()[i].1),
        ) by {
            assert(fs.drop_last()[i] == fs[i]);
            assert(es.drop_last()[i] == es[i]);
            assert(field_found(ps, fs[i].0, ser_spec(es[i].1)));
        }
        lemma_rt_fields(es.drop_last(), fs.drop_last(), ps);
        assert(field_found(ps, fs[n].0, ser_spec(es[n].1)));
        lemma_round_trip(es.last().1, fs.last().1);
        assert(de_field(fs.last().0, fs.last().1, ps) == Some(es.last().1));
        assert(es.drop_last().push((fs.last().0, es.last().1)) =~= es);
    }
}

proof fn lemma_rt_variant(vs: Seq<(Seq<char>, ShapeV)>, n: Seq<char>, p: Option<DataV>)
    requires
        forall|i: int| 0 <= i < vs.len() ==> wf_shape(#[trigger] vs[i].1),
        conforms_variant(vs, n, p),
    ensures
        de_variant(
            vs,
            n,
            match p {
                Some(pd) => Some(ser_spec(pd)),
                None => None,
            },
        ) == match p {
            Some(pd) => Some(DataV::Variant(n, Box::new(pd))),
            None => Some(DataV::UnitVariant(n)),
        },
    decreases vs, 0nat,
{
    if vs.len() > 0 {
        if vs[0].0 == n {
            assert(wf_shape(vs[0].1));
            if let Some(pd) = p {
                lemma_round_trip(pd, vs[0].1);
            }
        } else {
            let rest = vs.subrange(1, vs.len() as int);
            assert forall|i: int| 0 <= i < rest.len() implies wf_shape(#[trigger] rest[i].1) by {
                assert(rest[i] == vs[i + 1]);
            }
            lemma_rt_variant(rest, n, p);
        }
    }
}

/// A variant with a payload serializes to an object with exactly one own
/// key, the variant's name, holding the serialized payload; and an object
/// with any other number of own properties is never read as an enum.
pub proof fn lemma_enum_tag(n: Seq<char>, payload: DataV, vs: Seq<(Seq<char>, ShapeV)>, ps: Seq<(Seq<char>, JsVal)>)
    requires
        ps.len() != 1,
    ensures
        ser_spec(DataV::Variant(n, Box::new(payload))) == JsVal::Object(seq![(n, ser_spec(payload))]),
        de_spec(ShapeV::Enum(vs), JsVal::Object(ps)) is None,
{
}

} // verus!
