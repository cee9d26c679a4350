//! Message model: a parsed request, a built response, and the bytes a
//! response puts on the wire.

use crate::scan::{decimal_string, push_decimal};
use crate::text::{decimal, utf8};
use vstd::prelude::*;
use vstd::string::*;

verus! {

/// A header field as text: its name and its value.
pub type Field = (Seq<char>, Seq<char>);

/// The fields that a header list holds, in order.
pub open spec fn fields(headers: Seq<(String, String)>) -> Seq<Field> {
    headers.map_values(|h: (String, String)| (h.0@, h.1@))
}

/// The value of the first field named `name`, if there is one.
pub open spec fn first_value(headers: Seq<Field>, name: Seq<char>) -> Option<Seq<char>>
    decreases headers.len(),
{
    if headers.len() == 0 {
        None
    } else if headers[0].0 == name {
        Some(headers[0].1)
    } else {
        first_value(headers.drop_first(), name)
    }
}

/// What a request says.
pub struct RequestView {
    pub method: Seq<char>,
    pub path: Seq<char>,
    pub headers: Seq<Field>,
    pub body: Option<Seq<char>>,
}

/// What a response says.
pub struct ResponseView {
    pub status_code: u16,
    pub status_message: Seq<char>,
    pub headers: Seq<Field>,
    pub body: Seq<u8>,
}

/// A parsed request. The method and the path are kept as received; header
/// names and values are trimmed and kept in order, duplicates included; the
/// body is absent when the message had no blank line after its headers.
#[derive(Debug)]
pub struct HttpRequest {
    pub method: String,
    pub path: String,
    pub headers: Vec<(String, String)>,
    pub body: Option<String>,
}

/// A response under construction or ready to send.
#[derive(Debug)]
pub struct HttpResponse {
    pub status_code: u16,
    pub status_message: String,
    pub headers: Vec<(String, String)>,
    pub body: Vec<u8>,
}

impl View for HttpRequest {
    type V = RequestView;

    open spec fn view(&self) -> RequestView {
        RequestView {
            method: self.method@,
            path: self.path@,
            headers: fields(self.headers@),
            body: match self.body {
                Some(b) => Some(b@),
                None => None,
            },
        }
    }
}

impl View for HttpResponse {
    type V = ResponseView;

    open spec fn view(&self) -> ResponseView {
        ResponseView {
            status_code: self.status_code,
            status_message: self.status_message@,
            headers: fields(self.headers@),
            body: self.body@,
        }
    }
}

impl ResponseView {
    /// A response with a status and nothing else.
    pub open spec fn new(status_code: u16, status_message: Seq<char>) -> ResponseView {
        ResponseView { status_code, status_message, headers: Seq::empty(), body: Seq::empty() }
    }

    /// This response with one more header at the end.
    pub open spec fn with_header(self, key: Seq<char>, value: Seq<char>) -> ResponseView {
        ResponseView { headers: self.headers.push((key, value)), ..self }
    }

    /// This response with `body` attached: the body replaces the old one, and
    /// `Content-Type` and `Content-Length` are appended, the length being that
    /// of `body` in bytes.
    pub open spec fn with_body(self, body: Seq<u8>, content_type: Seq<char>) -> ResponseView {
        ResponseView {
            headers: self.headers.push(("Content-Type"@, content_type)).push(
                ("Content-Length"@, decimal(body.len())),
            ),
            body,
            ..self
        }
    }

    /// The status line, with its line ending.
    pub open spec fn status_line(self) -> Seq<u8> {
        utf8("HTTP/1.1 "@) + utf8(decimal(self.status_code as nat)) + utf8(" "@) + utf8(
            self.status_message,
        ) + utf8("\r\n"@)
    }

    /// The bytes of the whole response: the status line, the header lines in
    /// order, an empty line, and the body as it is.
    pub open spec fn wire(self) -> Seq<u8> {
        self.status_line() + header_block(self.headers) + utf8("\r\n"@) + self.body
    }

    /// The declared length is that of the body: a `Content-Length` header, where
    /// there is one, gives the body's length in bytes, and a response without
    /// one has no body.
    pub open spec fn length_consistent(self) -> bool {
        match first_value(self.headers, "Content-Length"@) {
            Some(v) => v == decimal(self.body.len()),
            None => self.body.len() == 0,
        }
    }
}

/// One header line, with its line ending.
pub open spec fn header_line(field: Field) -> Seq<u8> {
    utf8(field.0) + utf8(": "@) + utf8(field.1) + utf8("\r\n"@)
}

/// The header lines of `headers`, in order.
pub open spec fn header_block(headers: Seq<Field>) -> Seq<u8>
    decreases headers.len(),
{
    if headers.len() == 0 {
        Seq::empty()
    } else {
        header_block(headers.drop_last()) + header_line(headers.last())
    }
}

/// Appends the UTF-8 bytes of `text` to `out`.
fn push_text(out: &mut Vec<u8>, text: &str)
    ensures
        final(out)@ == old(out)@ + utf8(text@),
{
    let bytes = text.as_bytes();
    let ghost before = out@;
    let mut i: usize = 0;
    while i < bytes.len()
        invariant
            i <= bytes.len(),
            bytes@ == utf8(text@),
            out@ == before + bytes@.take(i as int),
        decreases bytes.len() - i,
    {
        out.push(bytes[i]);
        assert(bytes@.take(i as int + 1) =~= bytes@.take(i as int).push(bytes@[i as int]));
        i += 1;
    }
    assert(bytes@.take(bytes@.len() as int) =~= bytes@);
}

impl HttpResponse {
    /// A response with the given status, no headers and an empty body.
    pub fn new(status_code: u16, status_message: &str) -> (res: Self)
        ensures
            res@ == ResponseView::new(status_code, status_message@),
    {
        let res = HttpResponse {
            status_code,
            status_message: status_message.to_owned(),
            headers: Vec::new(),
            body: Vec::new(),
        };
        assert(res@.headers =~= Seq::<Field>::empty());
        res
    }

    /// Attaches `body`, and declares its type and its length.
    pub fn with_body(self, body: Vec<u8>, content_type: &str) -> (res: Self)
        ensures
            res@ == self@.with_body(body@, content_type@),
    {
        let mut res = self;
        let ghost before = fields(res.headers@);
        let length = decimal_string(body.len());
        res.body = body;
        res.headers.push(("Content-Type".to_owned(), content_type.to_owned()));
        res.headers.push(("Content-Length".to_owned(), length));
        assert(fields(res.headers@) =~= before.push(("Content-Type"@, content_type@)).push(
            ("Content-Length"@, decimal(res.body@.len())),
        ));
        res
    }

    /// Appends one header.
    pub fn with_header(self, key: &str, value: &str) -> (res: Self)
        ensures
            res@ == self@.with_header(key@, value@),
    {
        let mut res = self;
        let ghost before = fields(res.headers@);
        res.headers.push((key.to_owned(), value.to_owned()));
        assert(fields(res.headers@) =~= before.push((key@, value@)));
        res
    }

    /// The bytes to send for this response.
    pub fn to_bytes(&self) -> (res: Vec<u8>)
        ensures
            res@ == self@.wire(),
    {
        let mut out: Vec<u8> = Vec::new();
        let mut code = String::new();
        push_decimal(&mut code, self.status_code as usize);
        assert(code@ =~= decimal(self.status_code as nat));
        push_text(&mut out, "HTTP/1.1 ");
        push_text(&mut out, code.as_str());
        push_text(&mut out, " ");
        push_text(&mut out, self.status_message.as_str());
        push_text(&mut out, "\r\n");
        assert(out@ =~= self@.status_line());
        let mut i: usize = 0;
        assert(fields(self.headers@).take(0) =~= Seq::<Field>::empty());
        while i < self.headers.len()
            invariant
                i <= self.headers.len(),
                out@ == self@.status_line() + header_block(fields(self.headers@).take(i as int)),
            decreases self.headers.len() - i,
        {
            let ghost before = out@;
            let ghost all = fields(self.headers@);
            push_text(&mut out, self.headers[i].0.as_str());
            push_text(&mut out, ": ");
            push_text(&mut out, self.headers[i].1.as_str());
            push_text(&mut out, "\r\n");
            proof {
                assert(all.take(i as int + 1).drop_last() =~= all.take(i as int));
                assert(all.take(i as int + 1).last() == all[i as int]);
                assert(out@ =~= before + header_line(all[i as int]));
            }
            i += 1;
        }
        assert(fields(self.headers@).take(i as int) =~= fields(self.headers@));
        push_text(&mut out, "\r\n");
        let ghost head = out@;
        let mut j: usize = 0;
        while j < self.body.len()
            invariant
                j <= self.body.len(),
                out@ == head + self.body@.take(j as int),
            decreases self.body.len() - j,
        {
            out.push(self.body[j]);
            assert(self.body@.take(j as int + 1) =~= self.body@.take(j as int).push(
                self.body@[j as int],
            ));
            j += 1;
        }
        assert(self.body@.take(j as int) =~= self.body@);
        assert(out@ =~= self@.wire());
        out
    }
}

} // verus!
