//! A bridge between statically typed native values and the dynamically typed
//! values of a host runtime: argument binding with overload resolution, a
//! structural serializer and deserializer, and ownership-tracked externals.
pub mod value;
pub mod external;
pub mod status;
pub mod error;
pub mod arguments;
pub mod module;
pub mod ser;
pub mod de;
pub mod round_trip;
pub mod threadsafe;
pub mod classes;
pub mod multi_js;
pub mod to_js;
