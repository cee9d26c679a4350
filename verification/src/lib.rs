//! A minimal HTTP/1.1 server core: request parsing, routing, content
//! negotiation and response framing, with the input and output left to the
//! caller.

pub mod compression;
pub mod laws;
pub mod message;
pub mod parser;
pub mod router;
pub mod scan;
pub mod server;
pub mod text;
