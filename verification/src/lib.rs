//! A verified request/response core for a minimal metrics-ingestion endpoint.
//!
//! The library turns the raw text of one HTTP-style request into the full
//! response text: it parses the request line into a path and ordered query
//! parameters, extracts header lines, classifies the method, validates the
//! path against a whitelist and the shared secret against a request header,
//! maps validated query parameters into a typed metric record, and assembles
//! the status line, headers and JSON body of the response. All I/O (the TCP
//! accept loop, reading the configuration file) stays outside: callers hand
//! in the request text and the configuration text and receive response text.

pub mod handler;
pub mod headers;
pub mod metrics;
pub mod numbers;
pub mod request;
pub mod response;
pub mod text;
pub mod validate;
