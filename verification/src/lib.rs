//! A small todo-list service core: an opaque record identifier with a
//! hexadecimal text form, the todo data model and its JSON wire format, an
//! in-memory document store with CRUD operations, and the request-handling
//! layer that validates identifiers, applies partial updates and maps every
//! failure to an HTTP status code and message.

pub mod config;
pub mod error;
pub mod json;
pub mod models;
pub mod oid;
pub mod routes;
pub mod store;
