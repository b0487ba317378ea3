//! An in-memory collection of price records with verified
//! create/read/update/delete operations, and a handler layer that maps
//! requests onto the store and store results onto status codes.

pub mod handler;
pub mod store;
