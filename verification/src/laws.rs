//! What calls of the library give, stated over their arguments and results alone.

pub mod channels;
pub mod contexts;
pub mod headers;
pub mod payloads;
pub mod results;
pub mod schemas;
pub mod tools;
pub mod values;
