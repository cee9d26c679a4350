//! What holds of every answer the server gives.

use crate::compression::{encoded, token, CompressionScheme};
use crate::parser::{parse, ParseError};
use crate::server::answer;
use crate::message::{first_value, header_block, Field, RequestView, ResponseView};
use crate::router::{
    create_step, dispatch, encoded_reply, file_reply, plain_reply, reply_from, requested_scheme,
    route, text_reply, written_reply, CreateStepView, RoutedView,
};
use crate::text::{decimal, utf8};
use vstd::prelude::*;
use vstd::string::*;

verus! {

/// Whether a response declares that its body is compressed.
pub open spec fn declares_encoding(response: ResponseView) -> bool {
    first_value(response.headers, "Content-Encoding"@) is Some
}

/// The response that a request gets when reading the file it names, if it
/// names one, gives `content`. A request that asks for a file to be written
/// gets its response only after the write and has none here.
pub open spec fn response_to(request: RequestView, content: Option<Seq<u8>>) -> Option<
    ResponseView,
> {
    match route(request) {
        RoutedView::Reply(response) => Some(response),
        RoutedView::ServeFile { filename } => Some(file_reply(content)),
        RoutedView::CreateFile { filename, body } => None,
    }
}

/// A header appended at the end is found by name only where no earlier
/// header has that name.
pub proof fn lemma_first_value_push(headers: Seq<Field>, field: Field, name: Seq<char>)
    ensures
        first_value(headers.push(field), name) == match first_value(headers, name) {
            Some(v) => Some(v),
            None => if field.0 == name {
                Some(field.1)
            } else {
                None
            },
        },
    decreases headers.len(),
{
    if headers.len() == 0 {
        assert(headers.push(field).drop_first() =~= Seq::<Field>::empty());
    } else {
        assert(headers.push(field).drop_first() =~= headers.drop_first().push(field));
        lemma_first_value_push(headers.drop_first(), field, name);
    }
}

/// The three header names that the server writes differ from one another.
proof fn lemma_header_names_differ()
    ensures
        "Content-Type"@ != "Content-Length"@,
        "Content-Type"@ != "Content-Encoding"@,
        "Content-Length"@ != "Content-Encoding"@,
{
    reveal_strlit("Content-Type");
    reveal_strlit("Content-Length");
    reveal_strlit("Content-Encoding");
    assert("Content-Type"@.len() == 12);
    assert("Content-Length"@.len() == 14);
    assert("Content-Encoding"@.len() == 16);
}

/// Attaching a body to a response that declares no length yet declares the
/// length of that body, and no encoding unless one was declared before.
pub proof fn lemma_with_body_declares_length(
    response: ResponseView,
    body: Seq<u8>,
    content_type: Seq<char>,
)
    requires
        first_value(response.headers, "Content-Length"@) is None,
    ensures
        response.with_body(body, content_type).length_consistent(),
        declares_encoding(response.with_body(body, content_type)) == declares_encoding(response),
{
    lemma_header_names_differ();
    let typed = response.headers.push(("Content-Type"@, content_type));
    let sized = ("Content-Length"@, decimal(body.len()));
    lemma_first_value_push(response.headers, ("Content-Type"@, content_type), "Content-Length"@);
    lemma_first_value_push(typed, sized, "Content-Length"@);
    lemma_first_value_push(response.headers, ("Content-Type"@, content_type), "Content-Encoding"@);
    lemma_first_value_push(typed, sized, "Content-Encoding"@);
}

/// A plain answer declares the length of its body and no encoding.
pub proof fn lemma_plain_reply(body: Seq<u8>, content_type: Seq<char>)
    ensures
        plain_reply(body, content_type).length_consistent(),
        !declares_encoding(plain_reply(body, content_type)),
{
    lemma_with_body_declares_length(ResponseView::new(200, "OK"@), body, content_type);
}

/// A compressed answer declares the length of the compressed bytes, which
/// are the body it sends, and its encoding.
pub proof fn lemma_encoded_reply(sent: Seq<u8>, content_type: Seq<char>, scheme: CompressionScheme)
    ensures
        encoded_reply(sent, content_type, scheme).length_consistent(),
        declares_encoding(encoded_reply(sent, content_type, scheme)),
{
    lemma_header_names_differ();
    let inner = ResponseView::new(200, "OK"@).with_body(sent, content_type);
    lemma_with_body_declares_length(ResponseView::new(200, "OK"@), sent, content_type);
    lemma_first_value_push(inner.headers, ("Content-Encoding"@, token(scheme)), "Content-Length"@);
    lemma_first_value_push(
        inner.headers,
        ("Content-Encoding"@, token(scheme)),
        "Content-Encoding"@,
    );
}

/// The answer made from an outcome of compression declares the length of the
/// body it sends, and declares an encoding exactly when it sends compressed
/// bytes.
pub proof fn lemma_reply_from(
    body: Seq<u8>,
    content_type: Seq<char>,
    scheme: CompressionScheme,
    outcome: Option<Seq<u8>>,
)
    ensures
        reply_from(body, content_type, scheme, outcome).length_consistent(),
        declares_encoding(reply_from(body, content_type, scheme, outcome)) == (outcome is Some),
{
    lemma_plain_reply(body, content_type);
    if outcome is Some {
        lemma_encoded_reply(outcome->Some_0, content_type, scheme);
    }
}

/// The answer of a text route declares the length of the body it sends,
/// measured after compression, and declares an encoding exactly when a scheme
/// was negotiated and its encoder succeeds on the body.
pub proof fn lemma_text_reply(
    body: Seq<u8>,
    content_type: Seq<char>,
    scheme: Option<CompressionScheme>,
)
    ensures
        text_reply(body, content_type, scheme).length_consistent(),
        declares_encoding(text_reply(body, content_type, scheme)) == (scheme matches Some(s)
            && encoded(s, body) is Some),
        scheme is Some && encoded(scheme->Some_0, body) is Some ==> text_reply(
            body,
            content_type,
            scheme,
        ).body == encoded(scheme->Some_0, body)->Some_0,
{
    lemma_plain_reply(body, content_type);
    if scheme is Some {
        lemma_reply_from(body, content_type, scheme->Some_0, encoded(scheme->Some_0, body));
    }
}

/// Every response that the dispatch table gives declares the length of the
/// body it sends.
pub proof fn lemma_dispatch_length(request: RequestView, scheme: Option<CompressionScheme>)
    ensures
        dispatch(request, scheme) matches RoutedView::Reply(response)
            ==> response.length_consistent(),
{
    lemma_text_reply(utf8("Hello, World!"@), "text/plain"@, scheme);
    lemma_text_reply(utf8(request.path.skip(6)), "text/plain"@, scheme);
    match first_value(request.headers, "User-Agent"@) {
        Some(value) => {
            lemma_text_reply(utf8(value), "text/plain"@, scheme);
        },
        None => {},
    }
}

/// Every response that the server sends declares the length of the body it
/// sends: the answers of the routes, of a file read, of a file creation and
/// of a file write.
pub proof fn lemma_content_length(
    request: RequestView,
    content: Option<Seq<u8>>,
    body: Option<Seq<char>>,
    created: bool,
    written: bool,
)
    ensures
        route(request) matches RoutedView::Reply(response) ==> response.length_consistent(),
        file_reply(content).length_consistent(),
        create_step(body, created) matches CreateStepView::Reply(response)
            ==> response.length_consistent(),
        written_reply(written).length_consistent(),
{
    lemma_dispatch_length(request, requested_scheme(request.headers));
    if content is Some {
        lemma_with_body_declares_length(
            ResponseView::new(200, "OK"@),
            content->Some_0,
            "application/octet-stream"@,
        );
    }
}

/// On the wire a response ends with its body and nothing else: what follows
/// the status line, the header lines and the empty line is the body, byte for
/// byte, so the declared length is that of the bytes sent after the head.
pub proof fn lemma_wire_frames_body(response: ResponseView)
    ensures
        response.wire().len() == response.status_line().len() + header_block(
            response.headers,
        ).len() + utf8("\r\n"@).len() + response.body.len(),
        response.wire().skip(response.wire().len() - response.body.len()) == response.body,
        response.wire().take(response.status_line().len() as int) == response.status_line(),
{
    let head = response.status_line() + header_block(response.headers) + utf8("\r\n"@);
    assert(response.wire() =~= head + response.body);
    assert((head + response.body).skip(head.len() as int) =~= response.body);
    assert(response.wire().take(response.status_line().len() as int)
        =~= response.status_line());
}

/// Repeating a request gives the same bytes. The answer to a request is
/// decided by the request and, where it names a file to read, by the content
/// of that file: two responses to equal requests, given against equal file
/// content, are equal, and so are their bytes on the wire.
pub proof fn lemma_repeatable(
    first_request: RequestView,
    second_request: RequestView,
    content: Option<Seq<u8>>,
    first: ResponseView,
    second: ResponseView,
)
    requires
        first_request == second_request,
        response_to(first_request, content) == Some(first),
        response_to(second_request, content) == Some(second),
    ensures
        first == second,
        first.wire() == second.wire(),
{
}

/// Repeating what was received gives the same answer: a request text is
/// answered by what its routes say, or by nothing where it is no request, and
/// by nothing else.
pub proof fn lemma_answer_repeatable(
    text: Seq<char>,
    first: Result<RoutedView, ParseError>,
    second: Result<RoutedView, ParseError>,
)
    requires
        first == answer(text),
        second == answer(text),
    ensures
        first == second,
        first is Err <==> parse(text) is Err,
{
}

/// A request for the greeting that accepts a scheme whose encoder succeeds
/// gets the compressed greeting with that scheme declared, and a request
/// that names no supported scheme gets the greeting as it is.
pub proof fn lemma_greeting(request: RequestView)
    requires
        request.method == "GET"@,
        request.path == "/"@,
    ensures
        route(request) is Reply,
        route(request)->Reply_0.status_code == 200,
        route(request)->Reply_0.status_message == "OK"@,
        match requested_scheme(request.headers) {
            Some(scheme) => match encoded(scheme, utf8("Hello, World!"@)) {
                Some(sent) => route(request)->Reply_0.body == sent && first_value(
                    route(request)->Reply_0.headers,
                    "Content-Encoding"@,
                ) == Some(token(scheme)),
                None => route(request)->Reply_0.body == utf8("Hello, World!"@)
                    && !declares_encoding(route(request)->Reply_0),
            },
            None => route(request)->Reply_0.body == utf8("Hello, World!"@) && !declares_encoding(
                route(request)->Reply_0,
            ),
        },
{
    let scheme = requested_scheme(request.headers);
    let body = utf8("Hello, World!"@);
    lemma_text_reply(body, "text/plain"@, scheme);
    if scheme is Some && encoded(scheme->Some_0, body) is Some {
        let sent = encoded(scheme->Some_0, body)->Some_0;
        let inner = ResponseView::new(200, "OK"@).with_body(sent, "text/plain"@);
        lemma_with_body_declares_length(ResponseView::new(200, "OK"@), sent, "text/plain"@);
        lemma_first_value_push(
            inner.headers,
            ("Content-Encoding"@, token(scheme->Some_0)),
            "Content-Encoding"@,
        );
    }
}

} // verus!
