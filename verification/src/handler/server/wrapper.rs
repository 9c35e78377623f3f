//! Wrappers that say how a tool's return value becomes its result.

pub mod json;
