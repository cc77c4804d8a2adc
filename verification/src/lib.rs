//! A verified core for a minimal HTTP/1.1 endpoint: a request parser, a
//! fixed router, a gzip content-negotiation stage, and a response
//! serializer. Socket and file I/O live outside this crate; the library
//! turns raw bytes into a structured request and a structured response
//! back into wire bytes.
pub mod encoding;
pub mod handler;
pub mod headers;
pub mod parser;
pub mod router;
pub mod serialize;
pub mod text;
pub mod types;
