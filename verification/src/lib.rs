//! An MCP server for the Discord REST API whose tools are generated from
//! Discord's OpenAPI specification: reading the spec into tools, planning
//! each call's HTTP request, and shaping Discord's answer.
use vstd::prelude::*;

pub mod json;
pub mod text;
pub mod refs;
pub mod openapi;
pub mod jsontext;
pub mod dispatch;
pub mod cli;
pub mod util;
pub mod tools;
pub mod self_contained;
pub mod parameters;
pub mod required;
pub mod uploads;

verus! {
} // verus!
