//! A local proxy between the Responses API and the Chat Completions API: the conversion of
//! requests and responses, the reports for the log, and the decisions of the proxy.

pub mod convert;
pub mod headers;
pub mod json;
pub mod laws;
pub mod proxy;
pub mod report;
pub mod text;
