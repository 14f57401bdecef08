//! Binding an ordered list of host values to native parameters.
use crate::de::{Shape, deserialize, de_spec, view_shape};
use crate::error::{ArgumentsError, Error};
use crate::ser::{Data, DataV, view_data};
use crate::value::{JsAny, JsVal, view_any, view_anys, lemma_view_anys};
use vstd::prelude::*;

verus! {

broadcast use vstd::std_specs::vec::axiom_vec_index_decreases, vstd::seq::axiom_seq_subrange_decreases,
    vstd::seq::axiom_seq_index_decreases;

/// A host value kind that a parameter can ask for as is, without conversion.
#[derive(Debug, Clone, Copy, PartialEq, Eq, Structural)]
pub enum JsKind {
    Symbol,
    String,
    Object,
    Array,
    Number,
    Undefined,
    Function,
    External,
    Null,
    Boolean,
    BigInt,
}

/// What one native parameter binds to.
#[derive(Debug)]
pub enum ArgKind {
    /// A number, read as a 64-bit integer.
    Number,
    /// A string.
    String,
    /// A boolean.
    Boolean,
    /// Any value at all.
    Any,
    /// A host value of one given kind, kept as it is.
    Js(JsKind),
    /// A homogeneous sequence, bound from the elements of one array argument.
    List(Box<ArgKind>),
    /// An optional parameter: absent when its argument is missing.
    Optional(Box<ArgKind>),
    /// The receiver of the call; consumes no argument.
    This,
    /// A structurally described native type, read from one argument by the
    /// deserializer.
    Shaped(Shape),
}

/// A native value produced by binding.
#[derive(Debug)]
pub enum Bound {
    Number(i64),
    Str(String),
    Bool(bool),
    Value(JsAny),
    List(Vec<Bound>),
    Absent,
    Present(Box<Bound>),
    Data(Data),
}

/// The mathematical content of a [`Bound`].
pub ghost enum BoundV {
    Number(i64),
    Str(Seq<char>),
    Bool(bool),
    Value(JsVal),
    List(Seq<BoundV>),
    Absent,
    Present(Box<BoundV>),
    Data(DataV),
}

/// A binding failure, with its one-based position.
pub ghost enum BindFailure {
    Missing(nat),
    WrongType(Seq<char>, nat),
    /// The argument could not be read as the structural type asked for.
    Deserialization,
}

pub open spec fn view_bound(b: Bound) -> BoundV
    decreases b, 1int,
{
    match b {
        Bound::Number(n) => BoundV::Number(n),
        Bound::Str(s) => BoundV::Str(s@),
        Bound::Bool(x) => BoundV::Bool(x),
        Bound::Value(v) => BoundV::Value(view_any(v)),
        Bound::List(v) => BoundV::List(view_bounds(v@)),
        Bound::Absent => BoundV::Absent,
        Bound::Present(x) => BoundV::Present(Box::new(view_bound(*x))),
        Bound::Data(d) => BoundV::Data(view_data(d)),
    }
}

pub open spec fn view_bounds(s: Seq<Bound>) -> Seq<BoundV>
    decreases s, 0int,
{
    if s.len() == 0 {
        Seq::empty()
    } else {
        view_bounds(s.drop_last()).push(view_bound(s.last()))
    }
}

impl View for Bound {
    type V = BoundV;

    open spec fn view(&self) -> BoundV {
        view_bound(*self)
    }
}

/// `e` is the engine error that reports the binding failure `f`.
pub open spec fn reports(e: Error, f: BindFailure) -> bool {
    match f {
        BindFailure::Missing(n) => e matches Error::Arguments(ArgumentsError::Missing(m)) && m == n,
        BindFailure::WrongType(t, n) => e matches Error::Arguments(ArgumentsError::WrongType(s, m))
            && s@ == t && m == n,
        BindFailure::Deserialization => e matches Error::Arguments(ArgumentsError::Deserialization(_)),
    }
}

pub open spec fn js_kind_matches_spec(k: JsKind, v: JsVal) -> bool {
    match k {
        JsKind::Symbol => v is Symbol,
        JsKind::String => v is String,
        JsKind::Object => v is Object,
        JsKind::Array => v is Array,
        JsKind::Number => v is Number,
        JsKind::Undefined => v is Undefined,
        JsKind::Function => v is Function,
        JsKind::External => v is External,
        JsKind::Null => v is Null,
        JsKind::Boolean => v is Boolean,
        JsKind::BigInt => v is BigInt,
    }
}

pub open spec fn js_kind_name_spec(k: JsKind) -> Seq<char> {
    match k {
        JsKind::Symbol => "symbol"@,
        JsKind::String => "string"@,
        JsKind::Object => "object"@,
        JsKind::Array => "array"@,
        JsKind::Number => "number"@,
        JsKind::Undefined => "undefined"@,
        JsKind::Function => "function"@,
        JsKind::External => "external"@,
        JsKind::Null => "null"@,
        JsKind::Boolean => "boolean"@,
        JsKind::BigInt => "bigint"@,
    }
}

/// Binds the value at `pos` (or its absence) to a parameter that reads one
/// argument: the cursor moves past it either way.
pub open spec fn bind_next(k: ArgKind, args: Seq<JsVal>, pos: nat) -> (Result<BoundV, BindFailure>, nat)
    recommends
        !(k is List || k is Optional || k is This),
{
    let n = pos + 1;
    if pos >= args.len() {
        (Err(BindFailure::Missing(n)), n)
    } else {
        let v = args[pos as int];
        (match k {
            ArgKind::Number => match v {
                JsVal::Number(x) => Ok(BoundV::Number(x)),
                _ => Err(BindFailure::WrongType("number (integer)"@, n)),
            },
            ArgKind::String => match v {
                JsVal::String(s) => Ok(BoundV::Str(s)),
                _ => Err(BindFailure::WrongType("string"@, n)),
            },
            ArgKind::Boolean => match v {
                JsVal::Boolean(b) => Ok(BoundV::Bool(b)),
                _ => Err(BindFailure::WrongType("boolean"@, n)),
            },
            ArgKind::Js(j) => if js_kind_matches_spec(j, v) {
                Ok(BoundV::Value(v))
            } else {
                Err(BindFailure::WrongType(js_kind_name_spec(j), n))
            },
            ArgKind::Shaped(s) => match de_spec(view_shape(s), v) {
                Some(d) => Ok(BoundV::Data(d)),
                None => Err(BindFailure::Deserialization),
            },
            _ => Ok(BoundV::Value(v)),
        }, n)
    }
}

/// Binding one parameter of kind `k` at cursor position `pos`: the result and
/// the position after it.
pub open spec fn bind_spec(k: ArgKind, args: Seq<JsVal>, this: JsVal, pos: nat) -> (Result<
    BoundV,
    BindFailure,
>, nat)
    decreases k, 0nat,
{
    match k {
        ArgKind::This => (Ok(BoundV::Value(this)), pos),
        ArgKind::Optional(inner) => {
            let (r, p) = bind_spec(*inner, args, this, pos);
            (match r {
                Ok(b) => Ok(BoundV::Present(Box::new(b))),
                Err(BindFailure::Missing(_)) => Ok(BoundV::Absent),
                Err(f) => Err(f),
            }, p)
        },
        ArgKind::List(inner) => {
            let n = pos + 1;
            if pos >= args.len() {
                (Err(BindFailure::Missing(n)), n)
            } else {
                match args[pos as int] {
                    JsVal::Array(items) => {
                        let (r, _) = bind_repeat(*inner, items, this, items.len());
                        (match r {
                            Ok(bs) => Ok(BoundV::List(bs)),
                            Err(f) => Err(f),
                        }, n)
                    },
                    _ => (Err(BindFailure::WrongType("array"@, n)), n),
                }
            }
        },
        _ => bind_next(k, args, pos),
    }
}

/// Binding `count` parameters of kind `k` in turn on a fresh cursor over
/// `items`, stopping at the first failure.
pub open spec fn bind_repeat(k: ArgKind, items: Seq<JsVal>, this: JsVal, count: nat) -> (Result<
    Seq<BoundV>,
    BindFailure,
>, nat)
    decreases k, count + 1,
{
    if count == 0 {
        (Ok(Seq::empty()), 0)
    } else {
        let (r, p) = bind_repeat(k, items, this, (count - 1) as nat);
        match r {
            Err(f) => (Err(f), p),
            Ok(bs) => {
                let (r2, p2) = bind_spec(k, items, this, p);
                match r2 {
                    Ok(b) => (Ok(bs.push(b)), p2),
                    Err(f) => (Err(f), p2),
                }
            },
        }
    }
}

/// Binding a whole parameter list left to right on a fresh cursor; the
/// first `count` parameters.
pub open spec fn bind_list_spec(sig: Seq<ArgKind>, args: Seq<JsVal>, this: JsVal, count: nat) -> (
    Result<Seq<BoundV>, BindFailure>,
    nat,
)
    decreases count,
{
    if count == 0 || count > sig.len() {
        (Ok(Seq::empty()), 0)
    } else {
        let (r, p) = bind_list_spec(sig, args, this, (count - 1) as nat);
        match r {
            Err(f) => (Err(f), p),
            Ok(bs) => {
                let (r2, p2) = bind_spec(sig[count - 1], args, this, p);
                match r2 {
                    Ok(b) => (Ok(bs.push(b)), p2),
                    Err(f) => (Err(f), p2),
                }
            },
        }
    }
}

pub open spec fn binds(sig: Seq<ArgKind>, args: Seq<JsVal>, this: JsVal) -> bool {
    bind_list_spec(sig, args, this, sig.len()).0 is Ok
}

/// `r` is the executable outcome of the spec outcome `s`.
pub open spec fn bound_result(r: Result<Bound, Error>, s: Result<BoundV, BindFailure>) -> bool {
    match (r, s) {
        (Ok(b), Ok(bv)) => view_bound(b) == bv,
        (Err(e), Err(f)) => reports(e, f),
        _ => false,
    }
}

pub open spec fn bounds_result(r: Result<Vec<Bound>, Error>, s: Result<Seq<BoundV>, BindFailure>) -> bool {
    match (r, s) {
        (Ok(b), Ok(bv)) => view_bounds(b@) == bv,
        (Err(e), Err(f)) => reports(e, f),
        _ => false,
    }
}

pub proof fn lemma_bind_step(k: ArgKind, args: Seq<JsVal>, this: JsVal, pos: nat)
    ensures
        bind_spec(k, args, this, pos).1 <= pos + 1,
    decreases k,
{
    if let ArgKind::Optional(inner) = k {
        lemma_bind_step(*inner, args, this, pos);
    }
}

pub proof fn lemma_repeat_err(k: ArgKind, items: Seq<JsVal>, this: JsVal, i: nat, count: nat)
    requires
        i <= count,
        bind_repeat(k, items, this, i).0 is Err,
    ensures
        bind_repeat(k, items, this, count).0 == bind_repeat(k, items, this, i).0,
    decreases count - i,
{
    if i < count {
        lemma_repeat_err(k, items, this, i, (count - 1) as nat);
    }
}

pub proof fn lemma_list_err(sig: Seq<ArgKind>, args: Seq<JsVal>, this: JsVal, i: nat, count: nat)
    requires
        i <= count <= sig.len(),
        bind_list_spec(sig, args, this, i).0 is Err,
    ensures
        bind_list_spec(sig, args, this, count).0 == bind_list_spec(sig, args, this, i).0,
    decreases count - i,
{
    if i < count {
        lemma_list_err(sig, args, this, i, (count - 1) as nat);
    }
}

pub fn js_kind_name(k: JsKind) -> (r: &'static str)
    ensures
        r@ == js_kind_name_spec(k),
{
    match k {
        JsKind::Symbol => "symbol",
        JsKind::String => "string",
        JsKind::Object => "object",
        JsKind::Array => "array",
        JsKind::Number => "number",
        JsKind::Undefined => "undefined",
        JsKind::Function => "function",
        JsKind::External => "external",
        JsKind::Null => "null",
        JsKind::Boolean => "boolean",
        JsKind::BigInt => "bigint",
    }
}

fn js_kind_matches(k: JsKind, v: &JsAny) -> (r: bool)
    ensures
        r == js_kind_matches_spec(k, v@),
{
    match (k, v) {
        (JsKind::Symbol, JsAny::Symbol(_)) => true,
        (JsKind::String, JsAny::String(_)) => true,
        (JsKind::Object, JsAny::Object(_)) => true,
        (JsKind::Array, JsAny::Array(_)) => true,
        (JsKind::Number, JsAny::Number(_)) => true,
        (JsKind::Undefined, JsAny::Undefined) => true,
        (JsKind::Function, JsAny::Function(_)) => true,
        (JsKind::External, JsAny::External(_)) => true,
        (JsKind::Null, JsAny::Null) => true,
        (JsKind::Boolean, JsAny::Boolean(_)) => true,
        (JsKind::BigInt, JsAny::BigInt(_)) => true,
        _ => false,
    }
}

/// Binds one parameter of kind `k` on the cursor `(args, pos)`, returning the
/// outcome and the position after it.
pub fn bind_at(k: &ArgKind, args: &Vec<JsAny>, this: &JsAny, pos: usize) -> (r: (
    Result<Bound, Error>,
    usize,
))
    requires
        pos < usize::MAX,
    ensures
        bound_result(r.0, bind_spec(*k, view_anys(args@), this@, pos as nat).0),
        r.1 == bind_spec(*k, view_anys(args@), this@, pos as nat).1,
    decreases k, 0nat,
{
    proof {
        lemma_view_anys(args@);
    }
    let n = pos + 1;
    match k {
        ArgKind::This => (Ok(Bound::Value(this.duplicate())), pos),
        ArgKind::Optional(inner) => {
            proof {
                assert(decreases_to!(*k => (*k)->Optional_0));
            }
            let (r, p) = bind_at(inner, args, this, pos);
            match r {
                Ok(b) => (Ok(Bound::Present(Box::new(b))), p),
                Err(e) => {
                    if e.is_missing() {
                        (Ok(Bound::Absent), p)
                    } else {
                        (Err(e), p)
                    }
                },
            }
        },
        ArgKind::List(inner) => {
            if pos >= args.len() {
                return (Err(ArgumentsError::missing(n)), n);
            }
            match &args[pos] {
                JsAny::Array(items) => {
                    proof {
                        assert(decreases_to!(*k => (*k)->List_0));
                        lemma_view_anys(items@);
                    }
                    let r = bind_items(inner, items, this);
                    (match r {
                        Ok(bs) => Ok(Bound::List(bs)),
                        Err(e) => Err(e),
                    }, n)
                },
                _ => (Err(ArgumentsError::wrong_type("array", n)), n),
            }
        },
        _ => {
            if pos >= args.len() {
                return (Err(ArgumentsError::missing(n)), n);
            }
            let v = &args[pos];
            let r = match (k, v) {
                (ArgKind::Number, JsAny::Number(x)) => Ok(Bound::Number(*x)),
                (ArgKind::Number, _) => Err(ArgumentsError::wrong_type("number (integer)", n)),
                (ArgKind::String, JsAny::String(s)) => Ok(Bound::Str(s.clone())),
                (ArgKind::String, _) => Err(ArgumentsError::wrong_type("string", n)),
                (ArgKind::Boolean, JsAny::Boolean(b)) => Ok(Bound::Bool(*b)),
                (ArgKind::Boolean, _) => Err(ArgumentsError::wrong_type("boolean", n)),
                (ArgKind::Shaped(s), _) => match deserialize(s, v) {
                    Ok(d) => Ok(Bound::Data(d)),
                    Err(e) => Err(Error::Arguments(ArgumentsError::Deserialization(e.msg))),
                },
                (ArgKind::Js(j), _) => {
                    if js_kind_matches(*j, v) {
                        Ok(Bound::Value(v.duplicate()))
                    } else {
                        Err(ArgumentsError::wrong_type(js_kind_name(*j), n))
                    }
                },
                _ => Ok(Bound::Value(v.duplicate())),
            };
            (r, n)
        },
    }
}

/// Binds one parameter of kind `k` per element of `items`, on a fresh cursor
/// over them, stopping at the first failure.
fn bind_items(k: &ArgKind, items: &Vec<JsAny>, this: &JsAny) -> (r: Result<Vec<Bound>, Error>)
    ensures
        bounds_result(r, bind_repeat(*k, view_anys(items@), this@, items@.len()).0),
    decreases k, 1nat,
{
    let ghost vs = view_anys(items@);
    let mut out: Vec<Bound> = Vec::new();
    let mut pos: usize = 0;
    let mut i: usize = 0;
    while i < items.len()
        invariant
            i <= items.len(),
            vs == view_anys(items@),
            bind_repeat(*k, vs, this@, i as nat).0 == Ok::<Seq<BoundV>, BindFailure>(view_bounds(out@)),
            bind_repeat(*k, vs, this@, i as nat).1 == pos,
            pos <= i,
        decreases items.len() - i,
    {
        let (r, p) = bind_at(k, items, this, pos);
        proof {
            lemma_bind_step(*k, vs, this@, pos as nat);
        }
        match r {
            Ok(b) => {
                let ghost prev = out@;
                out.push(b);
                proof {
                    assert(out@.drop_last() == prev);
                }
            },
            Err(e) => {
                proof {
                    lemma_repeat_err(*k, vs, this@, (i + 1) as nat, items@.len());
                }
                return Err(e);
            },
        }
        pos = p;
        i = i + 1;
    }
    Ok(out)
}

/// Binds a whole parameter list left to right on a fresh cursor.
pub fn bind_list(sig: &Vec<ArgKind>, args: &Vec<JsAny>, this: &JsAny) -> (r: Result<Vec<Bound>, Error>)
    ensures
        bounds_result(r, bind_list_spec(sig@, view_anys(args@), this@, sig@.len()).0),
{
    let ghost vs = view_anys(args@);
    let mut out: Vec<Bound> = Vec::new();
    let mut pos: usize = 0;
    let mut i: usize = 0;
    while i < sig.len()
        invariant
            i <= sig.len(),
            vs == view_anys(args@),
            bind_list_spec(sig@, vs, this@, i as nat).0 == Ok::<Seq<BoundV>, BindFailure>(view_bounds(out@)),
            bind_list_spec(sig@, vs, this@, i as nat).1 == pos,
            pos <= i,
        decreases sig.len() - i,
    {
        let (r, p) = bind_at(&sig[i], args, this, pos);
        proof {
            lemma_bind_step(sig@[i as int], vs, this@, pos as nat);
        }
        match r {
            Ok(b) => {
                let ghost prev = out@;
                out.push(b);
                proof {
                    assert(out@.drop_last() == prev);
                }
            },
            Err(e) => {
                proof {
                    lemma_list_err(sig@, vs, this@, (i + 1) as nat, sig@.len());
                }
                return Err(e);
            },
        }
        pos = p;
        i = i + 1;
    }
    Ok(out)
}

/// The arguments of one host call and the cursor that binding moves along them.
pub struct Arguments {
    pub args: Vec<JsAny>,
    pub this: JsAny,
    pub current_arg: usize,
}

impl Arguments {
    pub fn new(this: JsAny, args: Vec<JsAny>) -> (r: Arguments)
        ensures
            r.args == args,
            r.this == this,
            r.current_arg == 0,
    {
        Arguments { args, this, current_arg: 0 }
    }

    /// The receiver of the call.
    pub fn this(&self) -> (r: JsAny)
        ensures
            r@ == self.this@,
    {
        self.this.duplicate()
    }

    /// The one-based position of the argument read last.
    pub fn arg_number(&self) -> (r: usize)
        ensures
            r == self.current_arg,
    {
        self.current_arg
    }

    /// Reads the next argument and moves the cursor past it, also when there
    /// is none left.
    pub fn next_arg(&mut self) -> (r: Option<JsAny>)
        requires
            old(self).current_arg < usize::MAX,
        ensures
            final(self).current_arg == old(self).current_arg + 1,
            final(self).args == old(self).args,
            final(self).this == old(self).this,
            old(self).current_arg < old(self).args@.len() ==> (r matches Some(v) && v@
                == old(self).args@[old(self).current_arg as int]@),
            old(self).current_arg >= old(self).args@.len() ==> r is None,
    {
        let cur = self.current_arg;
        self.current_arg = cur + 1;
        if cur < self.args.len() {
            Some(self.args[cur].duplicate())
        } else {
            None
        }
    }

    /// Binds the next parameter, of kind `k`, and moves the cursor on.
    pub fn bind(&mut self, k: &ArgKind) -> (r: Result<Bound, Error>)
        requires
            old(self).current_arg < usize::MAX,
        ensures
            bound_result(
                r,
                bind_spec(*k, view_anys(old(self).args@), old(self).this@, old(self).current_arg as nat).0,
            ),
            final(self).current_arg == bind_spec(
                *k,
                view_anys(old(self).args@),
                old(self).this@,
                old(self).current_arg as nat,
            ).1,
            final(self).args == old(self).args,
            final(self).this == old(self).this,
    {
        let (r, p) = bind_at(k, &self.args, &self.this, self.current_arg);
        self.current_arg = p;
        r
    }
}

/// Binding an optional parameter where no argument is left gives absence;
/// where the argument is there but of the wrong kind, the failure of the
/// inner parameter comes through unchanged: a missing argument is the only
/// failure turned into absence.
pub proof fn lemma_optional_absence(inner: ArgKind, args: Seq<JsVal>, this: JsVal, pos: nat)
    requires
        !(inner is This || inner is Optional),
    ensures
        pos >= args.len() ==> bind_spec(ArgKind::Optional(Box::new(inner)), args, this, pos).0
            == Ok::<BoundV, BindFailure>(BoundV::Absent),
        bind_spec(inner, args, this, pos).0 is Err && !(bind_spec(inner, args, this, pos).0->Err_0 is Missing)
            ==> bind_spec(ArgKind::Optional(Box::new(inner)), args, this, pos).0 == bind_spec(
            inner,
            args,
            this,
            pos,
        ).0,
        inner is Number && pos < args.len() && !(args[pos as int] is Number) ==> bind_spec(
            ArgKind::Optional(Box::new(inner)),
            args,
            this,
            pos,
        ).0 == Err::<BoundV, BindFailure>(BindFailure::WrongType("number (integer)"@, pos + 1)),
{
}

/// Binding a sequence parameter consumes exactly one argument, whatever
/// happens to the elements; when an element fails, the whole binding fails
/// with the failure of the first element that does, at its position among
/// the elements.
pub proof fn lemma_list_isolation(inner: ArgKind, args: Seq<JsVal>, this: JsVal, pos: nat, j: nat)
    requires
        pos < args.len(),
        args[pos as int] is Array,
        !(inner is List || inner is Optional || inner is This),
        j < args[pos as int]->Array_0.len(),
        bind_next(inner, args[pos as int]->Array_0, j).0 is Err,
        forall|i: nat| i < j ==> (#[trigger] bind_next(inner, args[pos as int]->Array_0, i)).0 is Ok,
    ensures
        bind_spec(ArgKind::List(Box::new(inner)), args, this, pos).1 == pos + 1,
        bind_spec(ArgKind::List(Box::new(inner)), args, this, pos).0 == bind_next(
            inner,
            args[pos as int]->Array_0,
            j,
        ).0,
{
    let items = args[pos as int]->Array_0;
    lemma_repeat_simple(inner, items, this, j);
    assert(bind_spec(inner, items, this, j) == bind_next(inner, items, j));
    lemma_repeat_err(inner, items, this, j + 1, items.len());
}

proof fn lemma_repeat_simple(k: ArgKind, items: Seq<JsVal>, this: JsVal, j: nat)
    requires
        !(k is List || k is Optional || k is This),
        forall|i: nat| i < j ==> (#[trigger] bind_next(k, items, i)).0 is Ok,
    ensures
        bind_repeat(k, items, this, j).0 is Ok,
        bind_repeat(k, items, this, j).1 == j,
    decreases j,
{
    if j > 0 {
        lemma_repeat_simple(k, items, this, (j - 1) as nat);
        assert(bind_next(k, items, (j - 1) as nat).0 is Ok);
        assert(bind_spec(k, items, this, (j - 1) as nat) == bind_next(k, items, (j - 1) as nat));
    }
}

} // verus!
