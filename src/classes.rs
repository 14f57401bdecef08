//! The class instance model: how an instance comes to be, and how a method
//! call on it finds its handler.
use crate::arguments::ArgKind;
use crate::error::{ClassError, Error};
use crate::value::JsAny;
use vstd::prelude::*;

verus! {

/// Where the native value behind a new instance comes from.
#[derive(Debug, Clone, Copy, PartialEq, Eq, Structural)]
pub enum ConstructOrigin {
    /// Native code instantiating the class with pre-built constructor arguments.
    NativeArgs,
    /// Native code wrapping an existing native value as a host object.
    NativeInstance,
    /// The host's `new`, with arguments bound from the call.
    Host,
}

/// Picks the origin of a construction: pre-built arguments first, then a
/// pre-built instance, else the host's own arguments. Exactly one is used.
pub fn construct_origin(has_args: bool, has_instance: bool) -> (r: ConstructOrigin)
    ensures
        has_args ==> r == ConstructOrigin::NativeArgs,
        !has_args && has_instance ==> r == ConstructOrigin::NativeInstance,
        !has_args && !has_instance ==> r == ConstructOrigin::Host,
{
    if has_args {
        ConstructOrigin::NativeArgs
    } else if has_instance {
        ConstructOrigin::NativeInstance
    } else {
        ConstructOrigin::Host
    }
}

/// The per-class table shared by every instance: the class's name, its
/// type identity, and how many method handlers it has, keyed by index.
pub struct InstanceTable {
    pub name: String,
    pub id: u64,
    pub methods: usize,
}

impl InstanceTable {
    /// Checks the receiver of a construction: it must be an object that
    /// carries the class's identity marker.
    pub fn check_constructor_this(&self, this: &JsAny, has_marker: bool) -> (r: Result<(), Error>)
        ensures
            (this@ is Object && has_marker) ==> r is Ok,
            !(this@ is Object && has_marker) ==> (r matches Err(Error::Class(ClassError::ThisConstructor(n)))
                && n@ == self.name@),
    {
        match this {
            JsAny::Object(_) => {
                if has_marker {
                    Ok(())
                } else {
                    Err(Error::Class(ClassError::ThisConstructor(self.name.clone())))
                }
            },
            _ => Err(Error::Class(ClassError::ThisConstructor(self.name.clone()))),
        }
    }

    /// Finds the handler for method `key` called on `this`, whose attached
    /// class identity is `attached` (`None` when it has none).
    pub fn method_for(&self, this: &JsAny, attached: Option<u64>, key: usize) -> (r: Result<usize, Error>)
        ensures
            !(this@ is Object) ==> (r matches Err(Error::Class(ClassError::ThisMethod(n))) && n@
                == self.name@),
            this@ is Object && attached is None ==> (r matches Err(
                Error::Class(ClassError::ExternalClassData),
            )),
            this@ is Object && attached is Some && attached->Some_0 != self.id ==> (r matches Err(
                Error::Class(ClassError::WrongClass),
            )),
            this@ is Object && attached == Some(self.id) && key >= self.methods ==> (r matches Err(
                Error::Class(ClassError::WrongHandler),
            )),
            this@ is Object && attached == Some(self.id) && key < self.methods ==> r == Ok::<
                usize,
                Error,
            >(key),
    {
        match this {
            JsAny::Object(_) => {},
            _ => {
                return Err(Error::Class(ClassError::ThisMethod(self.name.clone())));
            },
        }
        match attached {
            None => Err(Error::Class(ClassError::ExternalClassData)),
            Some(id) => {
                if id != self.id {
                    Err(Error::Class(ClassError::WrongClass))
                } else if key >= self.methods {
                    Err(Error::Class(ClassError::WrongHandler))
                } else {
                    Ok(key)
                }
            },
        }
    }
}

/// How the host reaches a class property.
#[derive(Debug, Clone, Copy, PartialEq, Eq, Structural)]
pub enum PropertyKind {
    /// Called as a method.
    Method,
    /// Read and written as an accessor.
    Accessor,
    /// The marker that records the class's type identity on its instances;
    /// it has no handler.
    Marker,
}

/// The name of the marker property every class defines, which a
/// construction checks on its receiver.
pub const CLASS_ID_MARKER: &'static str = "___pinar___class___id___";

/// One property of a class: its name, how it is reached, and the
/// parameters of its handler.
pub struct ClassProperty {
    pub name: String,
    pub kind: PropertyKind,
    pub params: Vec<ArgKind>,
}

impl ClassProperty {
    pub fn method(name: String, params: Vec<ArgKind>) -> (r: ClassProperty)
        ensures
            r.name == name,
            r.kind == PropertyKind::Method,
            r.params == params,
    {
        ClassProperty { name, kind: PropertyKind::Method, params }
    }

    pub fn accessor(name: String, params: Vec<ArgKind>) -> (r: ClassProperty)
        ensures
            r.name == name,
            r.kind == PropertyKind::Accessor,
            r.params == params,
    {
        ClassProperty { name, kind: PropertyKind::Accessor, params }
    }
}

/// The properties of a class to be defined, in order.
pub struct ClassBuilder {
    pub name: String,
    pub props: Vec<ClassProperty>,
}

/// How the host sees one property of a defined class: the handler key is
/// the property's index in the class's table.
pub struct PropertyDescriptor {
    pub name: String,
    pub kind: PropertyKind,
    pub key: usize,
}

/// A class ready to be defined in the host.
pub struct ClassDefinition {
    pub table: InstanceTable,
    pub descriptors: Vec<PropertyDescriptor>,
}

impl ClassBuilder {
    pub fn new(name: String) -> (r: ClassBuilder)
        ensures
            r.name == name,
            r.props@.len() == 0,
    {
        ClassBuilder { name, props: Vec::new() }
    }

    pub fn with_method(self, name: String, params: Vec<ArgKind>) -> (r: ClassBuilder)
        ensures
            r.name == self.name,
            r.props@.len() == self.props@.len() + 1,
            forall|i: int| 0 <= i < self.props@.len() ==> r.props@[i] == self.props@[i],
            r.props@.last().name == name && r.props@.last().kind == PropertyKind::Method
                && r.props@.last().params == params,
    {
        let mut b = self;
        b.props.push(ClassProperty::method(name, params));
        b
    }

    pub fn with_accessor(self, name: String, params: Vec<ArgKind>) -> (r: ClassBuilder)
        ensures
            r.name == self.name,
            r.props@.len() == self.props@.len() + 1,
            forall|i: int| 0 <= i < self.props@.len() ==> r.props@[i] == self.props@[i],
            r.props@.last().name == name && r.props@.last().kind == PropertyKind::Accessor
                && r.props@.last().params == params,
    {
        let mut b = self;
        b.props.push(ClassProperty::accessor(name, params));
        b
    }

    /// The class's table, under type identity `id`, and the descriptors of
    /// its properties: property `i` is dispatched with key `i`; after them
    /// comes the identity marker, keyed past the last handler.
    pub fn create(&self, id: u64) -> (r: ClassDefinition)
        ensures
            r.table.name@ == self.name@,
            r.table.id == id,
            r.table.methods == self.props@.len(),
            r.descriptors@.len() == self.props@.len() + 1,
            forall|i: int|
                0 <= i < self.props@.len() ==> (#[trigger] r.descriptors@[i]).name@ == self.props@[i].name@
                    && r.descriptors@[i].kind == self.props@[i].kind && r.descriptors@[i].key == i,
            r.descriptors@.last().name@ == CLASS_ID_MARKER@,
            r.descriptors@.last().kind == PropertyKind::Marker,
            r.descriptors@.last().key == self.props@.len(),
    {
        let mut descriptors: Vec<PropertyDescriptor> = Vec::new();
        let mut i: usize = 0;
        while i < self.props.len()
            invariant
                i <= self.props@.len(),
                descriptors@.len() == i,
                forall|j: int|
                    0 <= j < i ==> (#[trigger] descriptors@[j]).name@ == self.props@[j].name@
                        && descriptors@[j].kind == self.props@[j].kind && descriptors@[j].key == j,
            decreases self.props.len() - i,
        {
            let p = &self.props[i];
            descriptors.push(PropertyDescriptor { name: p.name.clone(), kind: p.kind, key: i });
            i = i + 1;
        }
        descriptors.push(
            PropertyDescriptor {
                name: CLASS_ID_MARKER.to_string(),
                kind: PropertyKind::Marker,
                key: self.props.len(),
            },
        );
        ClassDefinition {
            table: InstanceTable { name: self.name.clone(), id, methods: self.props.len() },
            descriptors,
        }
    }
}

} // verus!
