//! Exported functions, their overloads, and the dispatch that picks one.
use crate::arguments::{
    ArgKind, Bound, BindFailure, bind_list, bind_list_spec, binds, reports, view_bounds,
};
use crate::error::{Error, FunctionError};
use crate::value::{JsAny, JsVal, view_anys};
use vstd::prelude::*;

verus! {

/// One exported name and the parameter lists of its candidate
/// implementations, in registration order.
pub struct Overloads {
    pub name: String,
    pub candidates: Vec<Vec<ArgKind>>,
}

/// What the trampoline does next.
#[derive(Debug)]
pub enum Step {
    /// Invoke the candidate at this index with these bound arguments.
    Invoke(usize, Vec<Bound>),
    /// Raise this failure in the host.
    Fail(Error),
}

/// The progress of one call through the candidates.
pub struct Dispatch {
    /// The first candidate not tried yet.
    pub next: usize,
    /// The failure of the candidate tried last.
    pub last_error: Option<Error>,
}

pub open spec fn sigs(cands: Seq<Vec<ArgKind>>) -> Seq<Seq<ArgKind>> {
    cands.map_values(|v: Vec<ArgKind>| v@)
}

/// The first candidate at or after `from` whose parameters bind.
pub open spec fn first_binding(sigs: Seq<Seq<ArgKind>>, args: Seq<JsVal>, this: JsVal, from: nat) -> Option<
    nat,
>
    decreases sigs.len() - from,
{
    if from >= sigs.len() {
        None
    } else if binds(sigs[from as int], args, this) {
        Some(from)
    } else {
        first_binding(sigs, args, this, from + 1)
    }
}

pub proof fn lemma_first_binding(sigs: Seq<Seq<ArgKind>>, args: Seq<JsVal>, this: JsVal, from: nat)
    ensures
        match first_binding(sigs, args, this, from) {
            Some(i) => from <= i < sigs.len() && binds(sigs[i as int], args, this) && forall|j: nat|
                from <= j < i ==> !binds(#[trigger] sigs[j as int], args, this),
            None => forall|j: nat| from <= j < sigs.len() ==> !binds(#[trigger] sigs[j as int], args, this),
        },
    decreases sigs.len() - from,
{
    if from < sigs.len() {
        lemma_first_binding(sigs, args, this, from + 1);
    }
}

/// The failure of a candidate's binding.
pub open spec fn bind_failure(sig: Seq<ArgKind>, args: Seq<JsVal>, this: JsVal) -> BindFailure {
    bind_list_spec(sig, args, this, sig.len()).0->Err_0
}

pub open spec fn is_overload_failure(e: Error, name: Seq<char>) -> bool {
    e matches Error::Function(FunctionError::ArgumentsOverload(s)) && s@ == name
}

/// The failure raised once no candidate is left: `n` candidates, the call
/// having started at candidate `from`, `last` recorded before, and `first`
/// the binding failure of the first candidate.
pub open spec fn exhausted_failure(
    e: Error,
    name: Seq<char>,
    n: nat,
    from: nat,
    last: Option<Error>,
    first: BindFailure,
) -> bool {
    if n == 0 {
        e matches Error::Function(FunctionError::WrongFunctionData)
    } else if n >= 2 {
        is_overload_failure(e, name)
    } else if from == 0 {
        reports(e, first)
    } else if last is Some {
        e == last->Some_0
    } else {
        is_overload_failure(e, name)
    }
}

impl Dispatch {
    pub fn new() -> (r: Dispatch)
        ensures
            r.next == 0,
            r.last_error is None,
    {
        Dispatch { next: 0, last_error: None }
    }

    /// Records that the candidate invoked last failed with `e`.
    pub fn invocation_failed(&mut self, e: Error)
        ensures
            final(self).next == old(self).next,
            final(self).last_error == Some(e),
    {
        self.last_error = Some(e);
    }
}

impl Overloads {
    pub fn new(name: String, first: Vec<ArgKind>) -> (r: Overloads)
        ensures
            r.name == name,
            r.candidates@ == seq![first],
    {
        let mut candidates: Vec<Vec<ArgKind>> = Vec::new();
        candidates.push(first);
        Overloads { name, candidates }
    }

    /// Adds a candidate after those registered so far.
    pub fn push(&mut self, sig: Vec<ArgKind>)
        ensures
            final(self).name == old(self).name,
            final(self).candidates@ == old(self).candidates@.push(sig),
    {
        self.candidates.push(sig);
    }

    /// Tries the candidates from `d.next` on, in order, each on a fresh
    /// cursor: the first whose parameters all bind is to be invoked. When
    /// none is left, the failure to raise: with no candidate at all, a
    /// dispatch failure; with one, its own failure; with several, the
    /// aggregate "no overload matched".
    pub fn next_step(&self, d: &mut Dispatch, args: &Vec<JsAny>, this: &JsAny) -> (r: Step)
        ensures
            ({
                let ss = sigs(self.candidates@);
                let vs = view_anys(args@);
                let n = self.candidates@.len();
                match first_binding(ss, vs, this@, old(d).next as nat) {
                    Some(i) => r matches Step::Invoke(k, bs) && k == i && final(d).next == i + 1
                        && view_bounds(bs@) == bind_list_spec(ss[i as int], vs, this@, ss[i as int].len()).0->Ok_0,
                    None => r matches Step::Fail(e) && final(d).next >= n && exhausted_failure(
                        e,
                        self.name@,
                        n as nat,
                        old(d).next as nat,
                        old(d).last_error,
                        bind_failure(ss[0], vs, this@),
                    ),
                }
            }),
    {
        let ghost ss = sigs(self.candidates@);
        let ghost vs = view_anys(args@);
        let ghost start = d.next as nat;
        let n = self.candidates.len();
        proof {
            lemma_first_binding(ss, vs, this@, start);
        }
        let mut i = d.next;
        while i < n
            invariant
                ss == sigs(self.candidates@),
                vs == view_anys(args@),
                n == self.candidates@.len(),
                start == old(d).next,
                i >= start,
                i == start || i <= n,
                first_binding(ss, vs, this@, start) == first_binding(ss, vs, this@, i as nat),
                i > start ==> (d.last_error matches Some(e) && reports(e, bind_failure(ss[i - 1], vs, this@))),
                i == start ==> d.last_error == old(d).last_error,
            decreases n - i,
        {
            let r = bind_list(&self.candidates[i], args, this);
            assert(ss[i as int] == self.candidates@[i as int]@);
            match r {
                Ok(bs) => {
                    assert(binds(ss[i as int], vs, this@));
                    assert(first_binding(ss, vs, this@, i as nat) == Some(i as nat));
                    d.next = i + 1;
                    return Step::Invoke(i, bs);
                },
                Err(e) => {
                    assert(!binds(ss[i as int], vs, this@));
                    assert(first_binding(ss, vs, this@, i as nat) == first_binding(ss, vs, this@, (i + 1) as nat));
                    d.last_error = Some(e);
                },
            }
            i = i + 1;
        }
        d.next = i;
        if n == 0 {
            return Step::Fail(Error::Function(FunctionError::WrongFunctionData));
        }
        if n == 1 {
            if let Some(e) = d.last_error.take() {
                return Step::Fail(e);
            }
        }
        Step::Fail(Error::Function(FunctionError::ArgumentsOverload(self.name.clone())))
    }
}

/// The exports of one module: each name with its overloads, names unique.
pub struct ModuleBuilder {
    pub functions: Vec<Overloads>,
}

pub open spec fn names(fs: Seq<Overloads>) -> Seq<Seq<char>> {
    fs.map_values(|o: Overloads| o.name@)
}

impl ModuleBuilder {
    pub open spec fn wf(&self) -> bool {
        names(self.functions@).no_duplicates()
    }

    pub fn new() -> (r: ModuleBuilder)
        ensures
            r.functions@.len() == 0,
            r.wf(),
    {
        ModuleBuilder { functions: Vec::new() }
    }

    /// Registers `sig` under `name`: as one more overload of an existing
    /// name, after those already there, or as a new export.
    pub fn with_function(&mut self, name: String, sig: Vec<ArgKind>)
        requires
            old(self).wf(),
        ensures
            final(self).wf(),
            match names(old(self).functions@).index_of_first(name@) {
                Some(i) => final(self).functions@.len() == old(self).functions@.len()
                    && final(self).functions@[i].candidates@ == old(self).functions@[i].candidates@.push(sig)
                    && final(self).functions@[i].name == old(self).functions@[i].name
                    && forall|j: int| 0 <= j < old(self).functions@.len() && j != i ==>
                        final(self).functions@[j] == old(self).functions@[j],
                None => final(self).functions@.len() == old(self).functions@.len() + 1
                    && final(self).functions@.last().name == name
                    && final(self).functions@.last().candidates@ == seq![sig]
                    && forall|j: int| 0 <= j < old(self).functions@.len() ==>
                        final(self).functions@[j] == old(self).functions@[j],
            },
    {
        let ghost ns = names(self.functions@);
        let mut i: usize = 0;
        while i < self.functions.len()
            invariant
                i <= self.functions@.len(),
                self.functions@ == old(self).functions@,
                ns == names(self.functions@),
                ns.no_duplicates(),
                forall|j: int| 0 <= j < i ==> ns[j] != name@,
            decreases self.functions.len() - i,
        {
            if self.functions[i].name == name {
                assert(ns[i as int] == name@);
                proof {
                    ns.index_of_first_ensures(name@);
                }
                assert(ns.index_of_first(name@) == Some(i as int));
                let ghost before = self.functions@;
                let mut f = self.functions.remove(i);
                f.push(sig);
                self.functions.insert(i, f);
                assert(self.functions@ =~= before.update(i as int, f));
                assert(names(self.functions@) =~= ns);
                return;
            }
            i = i + 1;
        }
        proof {
            ns.index_of_first_ensures(name@);
        }
        let f = Overloads::new(name, sig);
        self.functions.push(f);
        assert(names(self.functions@) =~= ns.push(name@));
    }
}

/// With one candidate that binds only a number and a second that binds only
/// a string, a string argument selects the second and never the first; an
/// argument that neither binds selects none, so the call fails with the
/// aggregate failure.
pub proof fn lemma_overload_order(s: Seq<char>, v: JsVal, this: JsVal)
    requires
        !(v is Number || v is String),
    ensures
        ({
            let ss = seq![seq![ArgKind::Number], seq![ArgKind::String]];
            &&& first_binding(ss, seq![JsVal::String(s)], this, 0) == Some(1nat)
            &&& first_binding(ss, seq![v], this, 0) is None
        }),
{
    let ss = seq![seq![ArgKind::Number], seq![ArgKind::String]];
    let a1 = seq![JsVal::String(s)];
    let a2 = seq![v];
    assert(bind_list_spec(ss[0], a1, this, 0).0 is Ok);
    assert(bind_list_spec(ss[0], a1, this, 1).0 is Err);
    assert(bind_list_spec(ss[1], a1, this, 0).0 is Ok);
    assert(bind_list_spec(ss[1], a1, this, 1).0 is Ok);
    assert(first_binding(ss, a1, this, 1) == Some(1nat));
    assert(bind_list_spec(ss[0], a2, this, 1).0 is Err);
    assert(bind_list_spec(ss[1], a2, this, 1).0 is Err);
    assert(first_binding(ss, a2, this, 2) is None);
    assert(first_binding(ss, a2, this, 1) is None);
}

} // verus!
