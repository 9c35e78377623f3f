//! What a server's handlers are made of.

pub mod common;
pub mod schema;
pub mod tool;
pub mod wrapper;
