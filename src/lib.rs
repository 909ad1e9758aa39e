//! A minimal HTTP/1.1 server core: request parsing, routing, and response
//! framing over raw bytes, with the socket and file work left to the caller.
pub mod scan;
pub mod text;
pub mod request;
pub mod response;
pub mod server;
pub mod laws;
