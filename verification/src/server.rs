//! The server's configuration and the handling of one connection, as far as
//! it can be decided without touching a socket or a file.

use crate::parser::{parse, ParseError};
use crate::router::{route, Routed, RoutedView, Router};
use crate::scan::push_decimal;
use crate::text::decimal;
use std::path::PathBuf;
use vstd::prelude::*;
use vstd::slice::slice_subrange;
use vstd::string::*;
use vstd::utf8::{decode_utf8, valid_utf8};

verus! {

/// `std::path::PathBuf`. A path is carried through; nothing is known of what
/// it holds.
#[verifier::external_type_specification]
#[verifier::external_body]
pub struct ExPathBuf(PathBuf);

/// `PathBuf::clone`. Trusted: the clone equals the path it was made from.
pub assume_specification[ <PathBuf as Clone>::clone ](path: &PathBuf) -> (res: PathBuf)
    ensures
        res == *path,
;

/// What a server is started with. It is never changed afterwards; each
/// connection works on a copy.
pub struct ServerConfig {
    /// The port to listen on.
    pub port: u16,
    /// The directory that the file routes serve.
    pub directory: PathBuf,
}

/// A server, ready to run.
pub struct HttpServer {
    pub config: ServerConfig,
}

/// The handling of one connection.
pub struct ConnectionHandler;

/// The number of bytes of a request that are considered. What a client sends
/// beyond them is ignored.
pub const BUFFER_SIZE: usize = 1024;

/// The text that permissive decoding makes of `bytes`.
pub uninterp spec fn lossy_text(bytes: Seq<u8>) -> Seq<char>;

/// The part of what was received that is considered.
pub open spec fn considered(received: Seq<u8>) -> Seq<u8> {
    if received.len() <= BUFFER_SIZE {
        received
    } else {
        received.take(BUFFER_SIZE as int)
    }
}

/// What the server does for a request text: nothing but closing the
/// connection where the text is no request, and else what the routes say.
pub open spec fn answer(text: Seq<char>) -> Result<RoutedView, ParseError> {
    match parse(text) {
        Ok(request) => Ok(route(request)),
        Err(e) => Err(e),
    }
}

/// Calls `String::from_utf8_lossy` and takes the result as an owned string.
/// Trusted: the result depends on the bytes alone, and bytes that are valid
/// UTF-8 decode to the text they encode.
#[verifier::external_body]
fn decode_lossy(bytes: &[u8]) -> (res: String)
    ensures
        res@ == lossy_text(bytes@),
        valid_utf8(bytes@) ==> res@ == decode_utf8(bytes@),
{
    String::from_utf8_lossy(bytes).into_owned()
}

impl Clone for ServerConfig {
    fn clone(&self) -> (res: Self)
        ensures
            res == *self,
    {
        ServerConfig { port: self.port, directory: self.directory.clone() }
    }
}

impl HttpServer {
    /// A server for `port` that serves files from `directory`.
    pub fn new(port: u16, directory: PathBuf) -> (res: Self)
        ensures
            res.config.port == port,
            res.config.directory == directory,
    {
        HttpServer { config: ServerConfig { port, directory } }
    }

    /// The address to listen on: the loopback address and the configured port.
    pub fn address(&self) -> (res: String)
        ensures
            res@ == "127.0.0.1:"@ + decimal(self.config.port as nat),
    {
        let mut address = "127.0.0.1:".to_owned();
        push_decimal(&mut address, self.config.port as usize);
        address
    }
}

impl ConnectionHandler {
    /// What the server does for the text of a request.
    pub fn respond(text: &str) -> (res: Result<Routed, ParseError>)
        ensures
            match res {
                Ok(routed) => answer(text@) == Ok::<RoutedView, ParseError>(routed@),
                Err(e) => answer(text@) == Err::<RoutedView, ParseError>(e),
            },
    {
        match Router::parse_request(text) {
            Ok(request) => Ok(Router::handle_request(&request)),
            Err(e) => Err(e),
        }
    }

    /// What the server does for the bytes received on a connection: the
    /// first [`BUFFER_SIZE`] of them are decoded permissively, and the text
    /// is answered as a request.
    pub fn receive(received: &[u8]) -> (res: Result<Routed, ParseError>)
        ensures
            match res {
                Ok(routed) => answer(lossy_text(considered(received@))) == Ok::<
                    RoutedView,
                    ParseError,
                >(routed@),
                Err(e) => answer(lossy_text(considered(received@))) == Err::<
                    RoutedView,
                    ParseError,
                >(e),
            },
    {
        let window = if received.len() <= BUFFER_SIZE {
            assert(received@.subrange(0, received@.len() as int) =~= received@);
            slice_subrange(received, 0, received.len())
        } else {
            slice_subrange(received, 0, BUFFER_SIZE)
        };
        let text = decode_lossy(window);
        Self::respond(text.as_str())
    }
}

} // verus!
