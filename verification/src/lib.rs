//! A verified core for a small to-do list HTTP service.
//!
//! The library holds everything the service decides and computes: the todo
//! record, the table semantics, the error-translation layer, and the exact
//! JSON bodies of each endpoint. The surrounding binary only moves bytes
//! between the network, the database, and these functions.

pub mod api;
pub mod cli;
pub mod error;
pub mod routes;
pub mod store;
pub mod text;
pub mod todo;
