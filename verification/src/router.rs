//! Routing: from a request to what the server does for it.
//!
//! The routes are tried in a fixed order and the first that matches decides.
//! Text routes answer at once and may compress their body; file routes hand
//! the file work to the caller and answer from its outcome; everything else
//! is refused with a status and no body.

use crate::laws::{lemma_dispatch_length, lemma_text_reply, lemma_with_body_declares_length};
use crate::compression::{
    encoded, lowercase, lowercased, negotiate, token, CompressError, CompressionScheme,
    CompressionUtil,
};
use crate::message::{fields, first_value, Field, HttpRequest, HttpResponse, RequestView, ResponseView};
use crate::scan::{chars_of, same_text, starts_with, substring};
use crate::text::utf8;
use vstd::prelude::*;
use vstd::string::*;

verus! {

/// The dispatch table and its handlers.
pub struct Router;

/// What the server does for a request.
#[derive(Debug)]
pub enum Routed {
    /// Send this response.
    Reply(HttpResponse),
    /// Read the named file of the served directory, then answer with
    /// [`Router::serve_file`].
    ServeFile { filename: String },
    /// Create the named file of the served directory if it does not exist,
    /// then go on with [`Router::create_file`].
    CreateFile { filename: String, body: Option<String> },
}

/// What follows the attempt to create a file.
#[derive(Debug)]
pub enum CreateStep {
    /// Send this response.
    Reply(HttpResponse),
    /// Overwrite the file with these bytes, then answer with
    /// [`Router::file_written`].
    Write(Vec<u8>),
}

/// What a [`Routed`] says.
pub enum RoutedView {
    Reply(ResponseView),
    ServeFile { filename: Seq<char> },
    CreateFile { filename: Seq<char>, body: Option<Seq<char>> },
}

/// What a [`CreateStep`] says.
pub enum CreateStepView {
    Reply(ResponseView),
    Write(Seq<u8>),
}

impl View for Routed {
    type V = RoutedView;

    open spec fn view(&self) -> RoutedView {
        match *self {
            Routed::Reply(response) => RoutedView::Reply(response@),
            Routed::ServeFile { filename } => RoutedView::ServeFile { filename: filename@ },
            Routed::CreateFile { filename, body } => RoutedView::CreateFile {
                filename: filename@,
                body: match body {
                    Some(b) => Some(b@),
                    None => None,
                },
            },
        }
    }
}

impl View for CreateStep {
    type V = CreateStepView;

    open spec fn view(&self) -> CreateStepView {
        match *self {
            CreateStep::Reply(response) => CreateStepView::Reply(response@),
            CreateStep::Write(bytes) => CreateStepView::Write(bytes@),
        }
    }
}

/// The fields with their names in lower case.
pub open spec fn folded_names(headers: Seq<Field>) -> Seq<Field> {
    headers.map_values(|h: Field| (lowercased(h.0), h.1))
}

/// The scheme that a request's headers ask for: the one negotiated from the
/// first header whose name is `accept-encoding` in any letter case.
pub open spec fn requested_scheme(headers: Seq<Field>) -> Option<CompressionScheme> {
    match first_value(folded_names(headers), "accept-encoding"@) {
        Some(value) => negotiate(value),
        None => None,
    }
}

/// A `200 OK` response that carries `body` as it is.
pub open spec fn plain_reply(body: Seq<u8>, content_type: Seq<char>) -> ResponseView {
    ResponseView::new(200, "OK"@).with_body(body, content_type)
}

/// A `200 OK` response that carries `sent`, the body compressed with
/// `scheme`, and says so.
pub open spec fn encoded_reply(
    sent: Seq<u8>,
    content_type: Seq<char>,
    scheme: CompressionScheme,
) -> ResponseView {
    ResponseView::new(200, "OK"@).with_body(sent, content_type).with_header(
        "Content-Encoding"@,
        token(scheme),
    )
}

/// The answer of a text route from what compression made of its body: the
/// compressed bytes with their encoding declared, or the body as it was.
pub open spec fn reply_from(
    body: Seq<u8>,
    content_type: Seq<char>,
    scheme: CompressionScheme,
    outcome: Option<Seq<u8>>,
) -> ResponseView {
    match outcome {
        Some(sent) => encoded_reply(sent, content_type, scheme),
        None => plain_reply(body, content_type),
    }
}

/// The answer of a text route: compressed where a scheme was negotiated and
/// its encoder succeeds on the body, plain otherwise.
pub open spec fn text_reply(
    body: Seq<u8>,
    content_type: Seq<char>,
    scheme: Option<CompressionScheme>,
) -> ResponseView {
    match scheme {
        Some(s) => reply_from(body, content_type, s, encoded(s, body)),
        None => plain_reply(body, content_type),
    }
}

/// The answer to `GET /user-agent`.
pub open spec fn user_agent_reply(
    headers: Seq<Field>,
    scheme: Option<CompressionScheme>,
) -> ResponseView {
    match first_value(headers, "User-Agent"@) {
        Some(value) => text_reply(utf8(value), "text/plain"@, scheme),
        None => ResponseView::new(400, "Bad Request"@),
    }
}

/// The dispatch table: the routes in the order in which they are tried.
pub open spec fn dispatch(request: RequestView, scheme: Option<CompressionScheme>) -> RoutedView {
    if request.method == "GET"@ && request.path == "/"@ {
        RoutedView::Reply(text_reply(utf8("Hello, World!"@), "text/plain"@, scheme))
    } else if request.method == "GET"@ && request.path == "/user-agent"@ {
        RoutedView::Reply(user_agent_reply(request.headers, scheme))
    } else if "/echo/"@.is_prefix_of(request.path) {
        RoutedView::Reply(text_reply(utf8(request.path.skip(6)), "text/plain"@, scheme))
    } else if "/files/"@.is_prefix_of(request.path) {
        if request.method == "GET"@ {
            RoutedView::ServeFile { filename: request.path.skip(7) }
        } else if request.method == "POST"@ {
            RoutedView::CreateFile { filename: request.path.skip(7), body: request.body }
        } else {
            RoutedView::Reply(ResponseView::new(405, "Method Not Allowed"@))
        }
    } else {
        RoutedView::Reply(ResponseView::new(404, "Not Found"@))
    }
}

/// What the server does for `request`.
pub open spec fn route(request: RequestView) -> RoutedView {
    dispatch(request, requested_scheme(request.headers))
}

/// The answer to a file read: the content with status 200, or 404 where the
/// file could not be read.
pub open spec fn file_reply(content: Option<Seq<u8>>) -> ResponseView {
    match content {
        Some(bytes) => ResponseView::new(200, "OK"@).with_body(bytes, "application/octet-stream"@),
        None => ResponseView::new(404, "Not Found"@),
    }
}

/// What follows the attempt to create a file: 500 where it failed, 400 where
/// the request carried no body, and otherwise the bytes to write.
pub open spec fn create_step(body: Option<Seq<char>>, created: bool) -> CreateStepView {
    if !created {
        CreateStepView::Reply(ResponseView::new(500, "Internal Server Error"@))
    } else {
        match body {
            Some(text) => CreateStepView::Write(utf8(text)),
            None => CreateStepView::Reply(ResponseView::new(400, "Bad Request"@)),
        }
    }
}

/// The answer to a file write.
pub open spec fn written_reply(written: bool) -> ResponseView {
    if written {
        ResponseView::new(201, "Created"@)
    } else {
        ResponseView::new(500, "Internal Server Error"@)
    }
}

/// The index of the first header named `name`.
fn find_header(headers: &Vec<(String, String)>, name: &str) -> (res: Option<usize>)
    ensures
        match res {
            Some(i) => i < headers.len() && first_value(fields(headers@), name@) == Some(
                headers@[i as int].1@,
            ),
            None => first_value(fields(headers@), name@) is None,
        },
{
    let ghost all = fields(headers@);
    let mut i: usize = 0;
    assert(all.skip(0) =~= all);
    while i < headers.len()
        invariant
            i <= headers.len(),
            all == fields(headers@),
            first_value(all, name@) == first_value(all.skip(i as int), name@),
        decreases headers.len() - i,
    {
        assert(all.skip(i as int).drop_first() =~= all.skip(i as int + 1));
        assert(all.skip(i as int)[0] == all[i as int]);
        if same_text(headers[i].0.as_str(), name) {
            return Some(i);
        }
        i += 1;
    }
    None
}

/// The index of the first header whose name, in lower case, is `name`.
fn find_folded_header(headers: &Vec<(String, String)>, name: &str) -> (res: Option<usize>)
    ensures
        match res {
            Some(i) => i < headers.len() && first_value(folded_names(fields(headers@)), name@)
                == Some(headers@[i as int].1@),
            None => first_value(folded_names(fields(headers@)), name@) is None,
        },
{
    let ghost all = folded_names(fields(headers@));
    let mut i: usize = 0;
    assert(all.skip(0) =~= all);
    while i < headers.len()
        invariant
            i <= headers.len(),
            all == folded_names(fields(headers@)),
            first_value(all, name@) == first_value(all.skip(i as int), name@),
        decreases headers.len() - i,
    {
        assert(all.skip(i as int).drop_first() =~= all.skip(i as int + 1));
        assert(all.skip(i as int)[0] == all[i as int]);
        let folded = lowercase(headers[i].0.as_str());
        if same_text(folded.as_str(), name) {
            return Some(i);
        }
        i += 1;
    }
    None
}

impl Router {
    /// The scheme that the request asks for.
    pub fn accepted_scheme(req: &HttpRequest) -> (res: Option<CompressionScheme>)
        ensures
            res == requested_scheme(req@.headers),
    {
        match find_folded_header(&req.headers, "accept-encoding") {
            Some(i) => CompressionUtil::negotiate_compression(req.headers[i].1.as_str()),
            None => None,
        }
    }

    /// What the server does for `req`: what the dispatch table says for it,
    /// with the compression scheme that its headers ask for.
    pub fn handle_request(req: &HttpRequest) -> (res: Routed)
        ensures
            res@ == route(req@),
            res@ matches RoutedView::Reply(response) ==> response.length_consistent(),
    {
        let compression_scheme = Self::accepted_scheme(req);
        Self::dispatch(req, compression_scheme)
    }

    /// The dispatch table, for a request whose compression scheme is settled.
    pub fn dispatch(req: &HttpRequest, compression: Option<CompressionScheme>) -> (res: Routed)
        ensures
            res@ == dispatch(req@, compression),
            res@ matches RoutedView::Reply(response) ==> response.length_consistent(),
    {
        proof {
            lemma_dispatch_length(req@, compression);
        }
        let method = req.method.as_str();
        let path = req.path.as_str();
        let is_get = same_text(method, "GET");
        if is_get && same_text(path, "/") {
            return Routed::Reply(Self::hello_world(compression));
        }
        if is_get && same_text(path, "/user-agent") {
            return Routed::Reply(Self::user_agent(req, compression));
        }
        let path_chars = chars_of(path);
        if starts_with(&path_chars, &chars_of("/echo/")) {
            return Routed::Reply(Self::echo(path, compression));
        }
        if starts_with(&path_chars, &chars_of("/files/")) {
            proof {
                reveal_strlit("/files/");
            }
            let filename = substring(path, 7, path_chars.len());
            assert(path@.skip(7) =~= path@.subrange(7, path@.len() as int));
            if is_get {
                return Routed::ServeFile { filename };
            }
            if same_text(method, "POST") {
                let body = match &req.body {
                    Some(text) => Some(text.clone()),
                    None => None,
                };
                return Routed::CreateFile { filename, body };
            }
            return Routed::Reply(Self::method_not_allowed());
        }
        Routed::Reply(Self::not_found())
    }

    /// The greeting.
    pub fn hello_world(compression: Option<CompressionScheme>) -> (res: HttpResponse)
        ensures
            res@ == text_reply(utf8("Hello, World!"@), "text/plain"@, compression),
    {
        let body = "Hello, World!".as_bytes_vec();
        Self::compress_response(body, "text/plain", compression)
    }

    /// The value of the request's first `User-Agent` header, or 400 where it
    /// has none.
    pub fn user_agent(req: &HttpRequest, compression: Option<CompressionScheme>) -> (res:
        HttpResponse)
        ensures
            res@ == user_agent_reply(req@.headers, compression),
    {
        match find_header(&req.headers, "User-Agent") {
            Some(i) => {
                let body = req.headers[i].1.as_str().as_bytes_vec();
                Self::compress_response(body, "text/plain", compression)
            },
            None => HttpResponse::new(400, "Bad Request"),
        }
    }

    /// The rest of an echo path after its prefix, as it stands.
    pub fn echo(path: &str, compression: Option<CompressionScheme>) -> (res: HttpResponse)
        requires
            "/echo/"@.is_prefix_of(path@),
        ensures
            res@ == text_reply(utf8(path@.skip(6)), "text/plain"@, compression),
    {
        proof {
            reveal_strlit("/echo/");
        }
        let message = substring(path, 6, path.unicode_len());
        assert(path@.skip(6) =~= path@.subrange(6, path@.len() as int));
        let body = message.as_str().as_bytes_vec();
        Self::compress_response(body, "text/plain", compression)
    }

    /// The answer to a file read, from the content that was read or its absence.
    pub fn serve_file(content: Option<Vec<u8>>) -> (res: HttpResponse)
        ensures
            res@ == file_reply(
                match content {
                    Some(bytes) => Some(bytes@),
                    None => None,
                },
            ),
            res@.length_consistent(),
    {
        proof {
            if content is Some {
                lemma_with_body_declares_length(
                    ResponseView::new(200, "OK"@),
                    content->Some_0@,
                    "application/octet-stream"@,
                );
            }
        }
        match content {
            Some(bytes) => HttpResponse::new(200, "OK").with_body(bytes, "application/octet-stream"),
            None => Self::not_found(),
        }
    }

    /// What follows the attempt to make sure that the file exists. `created`
    /// says whether it now does.
    pub fn create_file(body: Option<String>, created: bool) -> (res: CreateStep)
        ensures
            res@ == create_step(
                match body {
                    Some(text) => Some(text@),
                    None => None,
                },
                created,
            ),
    {
        if !created {
            return CreateStep::Reply(HttpResponse::new(500, "Internal Server Error"));
        }
        match body {
            Some(text) => CreateStep::Write(text.as_str().as_bytes_vec()),
            None => CreateStep::Reply(HttpResponse::new(400, "Bad Request")),
        }
    }

    /// The answer to a file write.
    pub fn file_written(written: bool) -> (res: HttpResponse)
        ensures
            res@ == written_reply(written),
    {
        if written {
            HttpResponse::new(201, "Created")
        } else {
            HttpResponse::new(500, "Internal Server Error")
        }
    }

    /// The answer of a text route from the outcome of its compression: the
    /// compressed bytes with their encoding declared, or, where compression
    /// failed, the body as it was.
    pub fn compressed_reply(
        body: Vec<u8>,
        content_type: &str,
        scheme: CompressionScheme,
        outcome: Result<Vec<u8>, CompressError>,
    ) -> (res: HttpResponse)
        ensures
            res@ == reply_from(
                body@,
                content_type@,
                scheme,
                match outcome {
                    Ok(bytes) => Some(bytes@),
                    Err(_) => None,
                },
            ),
    {
        match outcome {
            Ok(compressed_body) => HttpResponse::new(200, "OK").with_body(
                compressed_body,
                content_type,
            ).with_header("Content-Encoding", CompressionUtil::scheme_to_header(scheme)),
            Err(_) => HttpResponse::new(200, "OK").with_body(body, content_type),
        }
    }

    /// A `200 OK` response for `body`, compressed with the negotiated scheme
    /// if there is one and its encoder succeeds on `body`.
    pub fn compress_response(
        body: Vec<u8>,
        content_type: &str,
        compression: Option<CompressionScheme>,
    ) -> (res: HttpResponse)
        ensures
            res@ == text_reply(body@, content_type@, compression),
            res@.length_consistent(),
    {
        proof {
            lemma_text_reply(body@, content_type@, compression);
        }
        match compression {
            Some(scheme) => {
                let outcome = CompressionUtil::compress(body.as_slice(), scheme);
                Self::compressed_reply(body, content_type, scheme, outcome)
            },
            None => HttpResponse::new(200, "OK").with_body(body, content_type),
        }
    }

    /// The answer to a request that no route matches.
    pub fn not_found() -> (res: HttpResponse)
        ensures
            res@ == ResponseView::new(404, "Not Found"@),
    {
        HttpResponse::new(404, "Not Found")
    }

    /// The answer to a file request with a method other than `GET` and `POST`.
    pub fn method_not_allowed() -> (res: HttpResponse)
        ensures
            res@ == ResponseView::new(405, "Method Not Allowed"@),
    {
        HttpResponse::new(405, "Method Not Allowed")
    }
}

} // verus!
