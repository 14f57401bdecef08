//! The ownership-transfer record behind a host external value.
use std::rc::Rc;
use std::sync::Arc;
use vstd::prelude::*;

verus! {

/// How the payload of an external is owned.
pub enum PtrKind<T> {
    /// Exclusively owned; `None` once the payload has been taken.
    Box(Option<Box<T>>),
    /// Shared through a single-threaded reference count.
    Rc(Rc<T>),
    /// Shared through an atomic reference count.
    Arc(Arc<T>),
}

/// Why a typed access to an external was refused.
#[derive(Debug, Clone, Copy, PartialEq, Eq, Structural)]
pub enum ExternalError {
    /// The type tag asked for is not the one the record was created with.
    WrongType,
    /// The payload is owned another way than the access asked for.
    WrongOwnership,
}

/// A native payload handed to the host, tagged with the identity of its type.
///
/// `id` is the type tag captured at creation; every typed access names the
/// tag it expects and is refused when the two differ.
pub struct External<T> {
    pub ptr: PtrKind<T>,
    pub id: u64,
}

pub open spec fn take_box_result<T>(e: External<T>, id: u64) -> Result<
    Option<Box<T>>,
    ExternalError,
> {
    if e.id != id {
        Err(ExternalError::WrongType)
    } else {
        match e.ptr {
            PtrKind::Box(p) => Ok(p),
            _ => Err(ExternalError::WrongOwnership),
        }
    }
}

pub open spec fn after_take_box<T>(e: External<T>, id: u64) -> External<T> {
    if e.id == id && e.ptr is Box {
        External { ptr: PtrKind::Box(None), id: e.id }
    } else {
        e
    }
}

/// Relies on `Rc::clone`: the new handle shares the same value.
#[verifier::external_body]
fn share_rc<T>(p: &Rc<T>) -> (r: Rc<T>)
    ensures
        r == *p,
{
    Rc::clone(p)
}

/// Relies on `Arc::clone`: the new handle shares the same value.
#[verifier::external_body]
fn share_arc<T>(p: &Arc<T>) -> (r: Arc<T>)
    ensures
        r == *p,
{
    Arc::clone(p)
}

impl<T> External<T> {
    pub fn new_box(ptr: Box<T>, id: u64) -> (r: External<T>)
        ensures
            r.ptr == PtrKind::Box(Some(ptr)),
            r.id == id,
    {
        External { ptr: PtrKind::Box(Some(ptr)), id }
    }

    pub fn new_rc(ptr: Rc<T>, id: u64) -> (r: External<T>)
        ensures
            r.ptr == PtrKind::Rc(ptr),
            r.id == id,
    {
        External { ptr: PtrKind::Rc(ptr), id }
    }

    pub fn new_arc(ptr: Arc<T>, id: u64) -> (r: External<T>)
        ensures
            r.ptr == PtrKind::Arc(ptr),
            r.id == id,
    {
        External { ptr: PtrKind::Arc(ptr), id }
    }

    /// Takes the exclusively owned payload, leaving an empty marker behind:
    /// the first take returns it, every later one returns `None`.
    pub fn take_box(&mut self, id: u64) -> (r: Result<Option<Box<T>>, ExternalError>)
        ensures
            r == take_box_result(*old(self), id),
            *final(self) == after_take_box(*old(self), id),
    {
        if self.id != id {
            return Err(ExternalError::WrongType);
        }
        match &mut self.ptr {
            PtrKind::Box(p) => Ok(p.take()),
            _ => Err(ExternalError::WrongOwnership),
        }
    }

    /// A new owning handle on a payload shared through `Rc`.
    pub fn get_rc(&self, id: u64) -> (r: Result<Rc<T>, ExternalError>)
        ensures
            self.id != id ==> r == Err::<Rc<T>, ExternalError>(ExternalError::WrongType),
            self.id == id ==> match self.ptr {
                PtrKind::Rc(p) => r == Ok::<Rc<T>, ExternalError>(p),
                _ => r == Err::<Rc<T>, ExternalError>(ExternalError::WrongOwnership),
            },
    {
        if self.id != id {
            return Err(ExternalError::WrongType);
        }
        match &self.ptr {
            PtrKind::Rc(p) => Ok(share_rc(p)),
            _ => Err(ExternalError::WrongOwnership),
        }
    }

    /// A new owning handle on a payload shared through `Arc`.
    pub fn get_arc(&self, id: u64) -> (r: Result<Arc<T>, ExternalError>)
        ensures
            self.id != id ==> r == Err::<Arc<T>, ExternalError>(ExternalError::WrongType),
            self.id == id ==> match self.ptr {
                PtrKind::Arc(p) => r == Ok::<Arc<T>, ExternalError>(p),
                _ => r == Err::<Arc<T>, ExternalError>(ExternalError::WrongOwnership),
            },
    {
        if self.id != id {
            return Err(ExternalError::WrongType);
        }
        match &self.ptr {
            PtrKind::Arc(p) => Ok(share_arc(p)),
            _ => Err(ExternalError::WrongOwnership),
        }
    }

    /// Whether the record still owns a payload, which its finalizer releases.
    pub fn holds_payload(&self) -> (r: bool)
        ensures
            r == !(self.ptr == PtrKind::<T>::Box(None)),
    {
        match &self.ptr {
            PtrKind::Box(p) => p.is_some(),
            _ => true,
        }
    }

    /// The host's finalizer: consumes the record, releasing what it still
    /// owns. The record is moved in, so it cannot be finalized twice.
    pub fn finalize(self) -> (released: bool)
        ensures
            released == !(self.ptr == PtrKind::<T>::Box(None)),
    {
        let released = self.holds_payload();
        released
    }
}

/// The records behind the host's external values, indexed by handle. Any
/// number of host values may carry one handle; the record itself is held
/// once, here, and the host's finalizer releases it once.
pub struct Externals<T> {
    pub records: Vec<Option<External<T>>>,
}

impl<T> Externals<T> {
    pub fn new() -> (r: Externals<T>)
        ensures
            r.records@.len() == 0,
    {
        Externals { records: Vec::new() }
    }

    /// Hands a record to the host, returning its handle.
    pub fn register(&mut self, e: External<T>) -> (h: usize)
        ensures
            h == old(self).records@.len(),
            final(self).records@ == old(self).records@.push(Some(e)),
    {
        let h = self.records.len();
        self.records.push(Some(e));
        h
    }

    /// Whether `h` names a record not finalized yet.
    pub fn is_live(&self, h: usize) -> (r: bool)
        ensures
            r == (h < self.records@.len() && self.records@[h as int] is Some),
    {
        h < self.records.len() && self.records[h].is_some()
    }

    /// Takes the exclusively owned payload of record `h`, as
    /// [`External::take_box`] does; a released or unknown handle holds nothing.
    pub fn take_box(&mut self, h: usize, id: u64) -> (r: Result<Option<Box<T>>, ExternalError>)
        ensures
            final(self).records@.len() == old(self).records@.len(),
            h < old(self).records@.len() && old(self).records@[h as int] is Some ==> ({
                let e = old(self).records@[h as int]->Some_0;
                &&& r == take_box_result(e, id)
                &&& final(self).records@ == old(self).records@.update(h as int, Some(after_take_box(e, id)))
            }),
            !(h < old(self).records@.len() && old(self).records@[h as int] is Some) ==> r == Ok::<
                Option<Box<T>>,
                ExternalError,
            >(None) && final(self).records@ == old(self).records@,
    {
        if h >= self.records.len() {
            return Ok(None);
        }
        let mut slot: Option<External<T>> = None;
        self.records.set_and_swap(h, &mut slot);
        match slot {
            Some(mut e) => {
                let r = e.take_box(id);
                self.records.set(h, Some(e));
                r
            },
            None => Ok(None),
        }
    }

    /// The host's finalizer for handle `h`: releases the record the first
    /// time, and does nothing on any later call. Returns whether it released
    /// one.
    pub fn finalize(&mut self, h: usize) -> (released: bool)
        ensures
            released == releases(old(self).records@, h as int),
            final(self).records@ == after_finalize(old(self).records@, h as int),
    {
        if h >= self.records.len() {
            return false;
        }
        let mut slot: Option<External<T>> = None;
        self.records.set_and_swap(h, &mut slot);
        match slot {
            Some(e) => {
                let _ = e.finalize();
                true
            },
            None => false,
        }
    }
}

/// Whether finalizing handle `h` releases a record.
pub open spec fn releases<T>(records: Seq<Option<External<T>>>, h: int) -> bool {
    0 <= h < records.len() && records[h] is Some
}

/// The records after the finalizer of handle `h` ran.
pub open spec fn after_finalize<T>(records: Seq<Option<External<T>>>, h: int) -> Seq<
    Option<External<T>>,
> {
    if releases(records, h) {
        records.update(h, None)
    } else {
        records
    }
}

/// Taking an exclusively owned payload twice with the right tag yields the
/// payload first and nothing the second time.
pub proof fn lemma_take_box_once<T>(ptr: Box<T>, id: u64)
    ensures
        ({
            let e = External { ptr: PtrKind::Box(Some(ptr)), id };
            let e1 = after_take_box(e, id);
            &&& take_box_result(e, id) == Ok::<Option<Box<T>>, ExternalError>(Some(ptr))
            &&& take_box_result(e1, id) == Ok::<Option<Box<T>>, ExternalError>(None)
            &&& after_take_box(e1, id) == e1
        }),
{
}

/// However many host values carry a handle, its finalizer releases the
/// record once: a second finalization finds nothing left, and the records
/// of other handles are untouched.
pub proof fn lemma_finalize_once<T>(records: Seq<Option<External<T>>>, h: int)
    ensures
        !releases(after_finalize(records, h), h),
        after_finalize(after_finalize(records, h), h) == after_finalize(records, h),
        forall|k: int| k != h ==> releases(after_finalize(records, h), k) == #[trigger] releases(records, k),
{
}

} // verus!
