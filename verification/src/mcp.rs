//! The tool protocol over lines of JSON: messages, tools, and the requests in flight.

pub mod adapter;
pub mod arguments;
pub mod json;
pub mod laws;
pub mod protocol;
pub mod stdio;
