//! Several converted values handed to the host at once, as the arguments of
//! one host call.
use crate::value::JsAny;
use vstd::prelude::*;

verus! {

/// The most values one call hands to the host.
pub const MAX_VALUES: usize = 12;

/// Up to [`MAX_VALUES`] host values, in order.
pub struct MultiValue {
    pub values: Vec<JsAny>,
}

impl MultiValue {
    pub open spec fn wf(&self) -> bool {
        self.values@.len() <= MAX_VALUES
    }

    /// Gathers `values`, or refuses when there are more than a call takes.
    pub fn new(values: Vec<JsAny>) -> (r: Option<MultiValue>)
        ensures
            values@.len() <= MAX_VALUES <==> r is Some,
            r matches Some(m) ==> m.values == values && m.wf(),
    {
        if values.len() <= MAX_VALUES {
            Some(MultiValue { values })
        } else {
            None
        }
    }

    /// The values, in order, as the host call receives them.
    pub fn as_ptr(&self) -> (r: &Vec<JsAny>)
        ensures
            *r == self.values,
    {
        &self.values
    }

    pub fn len(&self) -> (r: usize)
        ensures
            r == self.values@.len(),
    {
        self.values.len()
    }
}

} // verus!
