//! Helpers for servers that speak the Model Context Protocol: schemas of tool inputs and outputs,
//! structured tool results, the parts of a request's context, the extensions of one client, and
//! the conventions of a draft for HTTP headers.

pub mod anthropic_ext;
pub mod handler;
pub mod json;
pub mod laws;
pub mod model;
pub mod sep2243_draft;
pub mod service;
pub mod string_map;
