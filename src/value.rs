//! Host values as the engine sees them: a closed set of kinds, and a tree of
//! values read once from the host.
use vstd::prelude::*;

verus! {

broadcast use vstd::std_specs::vec::axiom_vec_index_decreases, vstd::seq::axiom_seq_subrange_decreases,
    vstd::seq::axiom_seq_index_decreases;

/// The runtime kind of a host value, as the host's `typeof` inspection reports it.
#[derive(Debug, Clone, Copy, PartialEq, Eq, Structural)]
pub enum ValueType {
    Undefined,
    Null,
    Boolean,
    Number,
    String,
    Symbol,
    Object,
    Function,
    External,
    Bigint,
}

/// A host value, inspected once: one variant per kind of host value.
///
/// Numbers are held in the widened integer representation the bridge uses for
/// every fixed-width integer. Symbols, functions, externals and big integers
/// are opaque to the engine and carry only the host's handle for them.
/// Objects keep their own enumerable properties in host enumeration order.
#[derive(Debug)]
pub enum JsAny {
    Undefined,
    Null,
    Boolean(bool),
    Number(i64),
    String(String),
    Symbol(u64),
    BigInt(i64),
    Function(u64),
    External(u64),
    Array(Vec<JsAny>),
    Object(Vec<(String, JsAny)>),
}

/// The mathematical content of a [`JsAny`].
pub ghost enum JsVal {
    Undefined,
    Null,
    Boolean(bool),
    Number(i64),
    String(Seq<char>),
    Symbol(u64),
    BigInt(i64),
    Function(u64),
    External(u64),
    Array(Seq<JsVal>),
    Object(Seq<(Seq<char>, JsVal)>),
}

pub open spec fn view_any(a: JsAny) -> JsVal
    decreases a, 1int,
{
    match a {
        JsAny::Undefined => JsVal::Undefined,
        JsAny::Null => JsVal::Null,
        JsAny::Boolean(b) => JsVal::Boolean(b),
        JsAny::Number(n) => JsVal::Number(n),
        JsAny::String(s) => JsVal::String(s@),
        JsAny::Symbol(h) => JsVal::Symbol(h),
        JsAny::BigInt(n) => JsVal::BigInt(n),
        JsAny::Function(h) => JsVal::Function(h),
        JsAny::External(h) => JsVal::External(h),
        JsAny::Array(v) => JsVal::Array(view_anys(v@)),
        JsAny::Object(v) => JsVal::Object(view_props(v@)),
    }
}

pub open spec fn view_anys(s: Seq<JsAny>) -> Seq<JsVal>
    decreases s, 0int,
{
    if s.len() == 0 {
        Seq::empty()
    } else {
        view_anys(s.drop_last()).push(view_any(s.last()))
    }
}

pub open spec fn view_props(s: Seq<(String, JsAny)>) -> Seq<(Seq<char>, JsVal)>
    decreases s, 0int,
{
    if s.len() == 0 {
        Seq::empty()
    } else {
        view_props(s.drop_last()).push((s.last().0@, view_any(s.last().1)))
    }
}

pub proof fn lemma_view_anys(s: Seq<JsAny>)
    ensures
        view_anys(s).len() == s.len(),
        forall|i: int| 0 <= i < s.len() ==> #[trigger] view_anys(s)[i] == view_any(s[i]),
    decreases s.len(),
{
    if s.len() > 0 {
        lemma_view_anys(s.drop_last());
    }
}

pub proof fn lemma_view_props(s: Seq<(String, JsAny)>)
    ensures
        view_props(s).len() == s.len(),
        forall|i: int|
            0 <= i < s.len() ==> #[trigger] view_props(s)[i] == (s[i].0@, view_any(s[i].1)),
    decreases s.len(),
{
    if s.len() > 0 {
        lemma_view_props(s.drop_last());
    }
}

impl View for JsAny {
    type V = JsVal;

    open spec fn view(&self) -> JsVal {
        view_any(*self)
    }
}

pub open spec fn type_of_spec(v: JsVal) -> ValueType {
    match v {
        JsVal::Undefined => ValueType::Undefined,
        JsVal::Null => ValueType::Null,
        JsVal::Boolean(_) => ValueType::Boolean,
        JsVal::Number(_) => ValueType::Number,
        JsVal::String(_) => ValueType::String,
        JsVal::Symbol(_) => ValueType::Symbol,
        JsVal::BigInt(_) => ValueType::Bigint,
        JsVal::Function(_) => ValueType::Function,
        JsVal::External(_) => ValueType::External,
        JsVal::Array(_) => ValueType::Object,
        JsVal::Object(_) => ValueType::Object,
    }
}

/// Index of the first property named `k`, if any.
pub open spec fn prop_index(ps: Seq<(Seq<char>, JsVal)>, k: Seq<char>) -> Option<int>
    decreases ps.len(),
{
    if ps.len() == 0 {
        None
    } else {
        match prop_index(ps.drop_last(), k) {
            Some(i) => Some(i),
            None => if ps.last().0 == k {
                Some(ps.len() - 1)
            } else {
                None
            },
        }
    }
}

pub proof fn lemma_prop_index(ps: Seq<(Seq<char>, JsVal)>, k: Seq<char>)
    ensures
        match prop_index(ps, k) {
            Some(i) => 0 <= i < ps.len() && ps[i].0 == k && forall|j: int|
                0 <= j < i ==> #[trigger] ps[j].0 != k,
            None => forall|j: int| 0 <= j < ps.len() ==> #[trigger] ps[j].0 != k,
        },
    decreases ps.len(),
{
    if ps.len() > 0 {
        lemma_prop_index(ps.drop_last(), k);
        assert forall|j: int| 0 <= j < ps.len() - 1 implies ps.drop_last()[j] == ps[j] by {}
    }
}

/// Properties after the host's `set`: an existing key keeps its place and takes
/// the new value; a new key is appended.
pub open spec fn props_set(ps: Seq<(Seq<char>, JsVal)>, k: Seq<char>, v: JsVal) -> Seq<
    (Seq<char>, JsVal),
> {
    match prop_index(ps, k) {
        Some(i) => ps.update(i, (k, v)),
        None => ps.push((k, v)),
    }
}

/// Finds the first property named `k`.
pub fn find_prop(ps: &Vec<(String, JsAny)>, k: &String) -> (r: Option<usize>)
    ensures
        match r {
            Some(j) => prop_index(view_props(ps@), k@) == Some(j as int),
            None => prop_index(view_props(ps@), k@) is None,
        },
{
    proof {
        lemma_view_props(ps@);
        lemma_prop_index(view_props(ps@), k@);
    }
    let mut j: usize = 0;
    while j < ps.len()
        invariant
            j <= ps@.len(),
            view_props(ps@).len() == ps@.len(),
            forall|m: int| 0 <= m < ps@.len() ==> #[trigger] view_props(ps@)[m] == (ps@[m].0@, view_any(ps@[m].1)),
            forall|m: int| 0 <= m < j ==> #[trigger] view_props(ps@)[m].0 != k@,
        decreases ps.len() - j,
    {
        if ps[j].0 == *k {
            assert(view_props(ps@)[j as int].0 == k@);
            proof {
                lemma_prop_index(view_props(ps@), k@);
            }
            return Some(j);
        }
        j = j + 1;
    }
    proof {
        lemma_prop_index(view_props(ps@), k@);
    }
    None
}

/// The host's `set` on an object's properties.
pub fn set_prop(ps: &mut Vec<(String, JsAny)>, k: String, v: JsAny)
    ensures
        view_props(final(ps)@) == props_set(view_props(old(ps)@), k@, v@),
{
    proof {
        lemma_view_props(ps@);
    }
    let ghost old_ps = ps@;
    proof {
        lemma_prop_index(view_props(ps@), k@);
    }
    let found = find_prop(ps, &k);
    match found {
        Some(i) => {
            let ghost kv = k@;
            let ghost vv = v@;
            ps.set(i, (k, v));
            proof {
                lemma_view_props(ps@);
                assert(view_props(ps@) =~= view_props(old_ps).update(i as int, (kv, vv)));
            }
        },
        None => {
            let ghost kv = k@;
            let ghost vv = v@;
            ps.push((k, v));
            proof {
                assert(ps@.drop_last() == old_ps);
            }
        },
    }
}

impl JsAny {
    /// The kind of this value; an array reports `Object`, as the host does.
    pub fn type_of(&self) -> (r: ValueType)
        ensures
            r == type_of_spec(self@),
    {
        match self {
            JsAny::Undefined => ValueType::Undefined,
            JsAny::Null => ValueType::Null,
            JsAny::Boolean(_) => ValueType::Boolean,
            JsAny::Number(_) => ValueType::Number,
            JsAny::String(_) => ValueType::String,
            JsAny::Symbol(_) => ValueType::Symbol,
            JsAny::BigInt(_) => ValueType::Bigint,
            JsAny::Function(_) => ValueType::Function,
            JsAny::External(_) => ValueType::External,
            JsAny::Array(_) => ValueType::Object,
            JsAny::Object(_) => ValueType::Object,
        }
    }

    pub fn is_array(&self) -> (r: bool)
        ensures
            r == (self@ is Array),
    {
        match self {
            JsAny::Array(_) => true,
            _ => false,
        }
    }

    /// The value of the own property `key` of an object; `None` when there
    /// is no such property or this is not an object.
    pub fn get(&self, key: &String) -> (r: Option<JsAny>)
        ensures
            match self@ {
                JsVal::Object(ps) => match prop_index(ps, key@) {
                    Some(i) => r matches Some(x) && x@ == ps[i].1,
                    None => r is None,
                },
                _ => r is None,
            },
    {
        match self {
            JsAny::Object(ps) => {
                proof {
                    lemma_view_props(ps@);
                    lemma_prop_index(view_props(ps@), key@);
                }
                match find_prop(ps, key) {
                    Some(i) => Some(ps[i].1.duplicate()),
                    None => None,
                }
            },
            _ => None,
        }
    }

    pub fn has_own_property(&self, key: &String) -> (r: bool)
        ensures
            r == (self@ matches JsVal::Object(ps) && prop_index(ps, key@) is Some),
    {
        match self {
            JsAny::Object(ps) => find_prop(ps, key).is_some(),
            _ => false,
        }
    }

    /// Sets the property `key` of an object as the host's `set` does;
    /// returns false, changing nothing, when this is not an object.
    pub fn set(&mut self, key: String, value: JsAny) -> (r: bool)
        ensures
            r == (old(self)@ is Object),
            old(self)@ matches JsVal::Object(ps) ==> final(self)@ == JsVal::Object(props_set(ps, key@, value@)),
            !(old(self)@ is Object) ==> *final(self) == *old(self),
    {
        match self {
            JsAny::Object(ps) => {
                set_prop(ps, key, value);
                true
            },
            _ => false,
        }
    }

    /// Deletes the own property `key` of an object; returns whether there
    /// was one.
    pub fn delete_property(&mut self, key: &String) -> (r: bool)
        ensures
            old(self)@ matches JsVal::Object(ps) ==> match prop_index(ps, key@) {
                Some(i) => r && final(self)@ == JsVal::Object(ps.remove(i)),
                None => !r && final(self)@ == old(self)@,
            },
            !(old(self)@ is Object) ==> !r && *final(self) == *old(self),
    {
        match self {
            JsAny::Object(ps) => {
                proof {
                    lemma_view_props(ps@);
                }
                let ghost old_ps = ps@;
                match find_prop(ps, key) {
                    Some(i) => {
                        proof {
                            lemma_prop_index(view_props(old_ps), key@);
                        }
                        ps.remove(i);
                        proof {
                            lemma_view_props(ps@);
                            assert(view_props(ps@) =~= view_props(old_ps).remove(i as int));
                        }
                        true
                    },
                    None => false,
                }
            },
            _ => false,
        }
    }

    /// The own property names of an object, in host enumeration order;
    /// none for any other value.
    pub fn property_names(&self) -> (r: Vec<String>)
        ensures
            match self@ {
                JsVal::Object(ps) => r@.len() == ps.len() && forall|i: int|
                    0 <= i < ps.len() ==> #[trigger] r@[i]@ == ps[i].0,
                _ => r@.len() == 0,
            },
    {
        let mut out: Vec<String> = Vec::new();
        match self {
            JsAny::Object(ps) => {
                proof {
                    lemma_view_props(ps@);
                }
                let mut i: usize = 0;
                while i < ps.len()
                    invariant
                        i <= ps@.len(),
                        out@.len() == i,
                        forall|j: int| 0 <= j < i ==> #[trigger] out@[j]@ == ps@[j].0@,
                    decreases ps.len() - i,
                {
                    out.push(ps[i].0.clone());
                    i = i + 1;
                }
            },
            _ => {},
        }
        out
    }

    /// The length of an array; `None` for any other value.
    pub fn array_len(&self) -> (r: Option<usize>)
        ensures
            match self@ {
                JsVal::Array(items) => r == Some(items.len() as usize),
                _ => r is None,
            },
    {
        match self {
            JsAny::Array(items) => {
                proof {
                    lemma_view_anys(items@);
                }
                Some(items.len())
            },
            _ => None,
        }
    }

    /// The element at `index` of an array; `None` past its end or for any
    /// other value.
    pub fn element(&self, index: usize) -> (r: Option<JsAny>)
        ensures
            match self@ {
                JsVal::Array(items) => if index < items.len() {
                    r matches Some(x) && x@ == items[index as int]
                } else {
                    r is None
                },
                _ => r is None,
            },
    {
        match self {
            JsAny::Array(items) => {
                proof {
                    lemma_view_anys(items@);
                }
                if index < items.len() {
                    Some(items[index].duplicate())
                } else {
                    None
                }
            },
            _ => None,
        }
    }

    /// A copy of this value with the same content.
    pub fn duplicate(&self) -> (r: JsAny)
        ensures
            r@ == self@,
        decreases self,
    {
        match self {
            JsAny::Undefined => JsAny::Undefined,
            JsAny::Null => JsAny::Null,
            JsAny::Boolean(b) => JsAny::Boolean(*b),
            JsAny::Number(n) => JsAny::Number(*n),
            JsAny::String(s) => JsAny::String(s.clone()),
            JsAny::Symbol(h) => JsAny::Symbol(*h),
            JsAny::BigInt(n) => JsAny::BigInt(*n),
            JsAny::Function(h) => JsAny::Function(*h),
            JsAny::External(h) => JsAny::External(*h),
            JsAny::Array(v) => {
                let mut out: Vec<JsAny> = Vec::new();
                let mut i: usize = 0;
                while i < v.len()
                    invariant
                        i <= v.len(),
                        *self == JsAny::Array(*v),
                        view_anys(out@) == view_anys(v@.subrange(0, i as int)),
                    decreases v.len() - i,
                {
                    proof {
                        assert(decreases_to!(*self => (*self)->Array_0));
                        assert(decreases_to!(*v => v@));
                        assert(decreases_to!(v@ => v@[i as int]));
                    }
                    let c = v[i].duplicate();
                    let ghost prev = out@;
                    out.push(c);
                    proof {
                        assert(out@.drop_last() == prev);
                        assert(v@.subrange(0, i + 1).drop_last() == v@.subrange(0, i as int));
                    }
                    i = i + 1;
                }
                assert(v@.subrange(0, v@.len() as int) == v@);
                JsAny::Array(out)
            },
            JsAny::Object(v) => {
                let mut out: Vec<(String, JsAny)> = Vec::new();
                let mut i: usize = 0;
                while i < v.len()
                    invariant
                        i <= v.len(),
                        *self == JsAny::Object(*v),
                        view_props(out@) == view_props(v@.subrange(0, i as int)),
                    decreases v.len() - i,
                {
                    proof {
                        assert(decreases_to!(*self => (*self)->Object_0));
                        assert(decreases_to!(*v => v@));
                        assert(decreases_to!(v@ => v@[i as int]));
                        assert(decreases_to!(v@[i as int] => v@[i as int].1));
                    }
                    let c = v[i].1.duplicate();
                    let k = v[i].0.clone();
                    let ghost prev = out@;
                    out.push((k, c));
                    proof {
                        assert(out@.drop_last() == prev);
                        assert(v@.subrange(0, i + 1).drop_last() == v@.subrange(0, i as int));
                    }
                    i = i + 1;
                }
                assert(v@.subrange(0, v@.len() as int) == v@);
                JsAny::Object(out)
            },
        }
    }
}

} // verus!
