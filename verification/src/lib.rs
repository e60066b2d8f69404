//! A verified data-access core for todo records kept in a schema-less
//! document store.
//!
//! The library models the store's dynamic values, converts typed records
//! to and from that representation, and builds the parameterized queries
//! and interprets the responses for the five record operations. The store
//! itself and the HTTP surface live outside the library: callers hand the
//! built requests to the store and hand the store's answer back.

pub mod controller;
pub mod convert;
pub mod error;
pub mod todo_model;
pub mod value;

pub use controller::ResultSet;
pub use controller::StoreRequest;
pub use controller::TodoBMC;
pub use convert::Creatable;
pub use convert::Patchable;
pub use error::Error;
pub use todo_model::Content;
pub use todo_model::Todo;
pub use todo_model::TodoPatch;
pub use value::Kind;
pub use value::Object;
pub use value::SpecValue;
pub use value::Value;
