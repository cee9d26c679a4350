//! The request grammar and its parser.
//!
//! A request is a request line of exactly three words, then header lines up
//! to the first empty line, then, after the first blank-line separator, the
//! body.

use crate::message::{fields, Field, HttpRequest, RequestView};
use crate::router::Router;
use crate::scan::{chars_of, find_char, find_pattern, selected, substring, trim_range, word_ranges};
use crate::text::{find, lines, position, strip_cr, tokens, trim};
use vstd::prelude::*;
use vstd::string::*;

verus! {

/// Why a text is not a request.
#[derive(Debug, PartialEq, Eq, Structural, Clone, Copy)]
pub enum ParseError {
    /// The text has no lines at all.
    NoRequestLine,
    /// The first line does not consist of exactly three words.
    InvalidRequestLine,
}

/// The sequence that separates the headers from the body.
pub open spec fn separator() -> Seq<char> {
    seq!['\r', '\n', '\r', '\n']
}

/// The header fields that a run of lines declares. The run ends at the first
/// empty line. A line with a colon gives a field: the text before the first
/// colon is the name, the text after it the value, both trimmed. A line
/// without a colon gives nothing.
pub open spec fn header_fields(ls: Seq<Seq<char>>) -> Seq<Field>
    decreases ls.len(),
{
    if ls.len() == 0 || ls[0].len() == 0 {
        Seq::empty()
    } else {
        let rest = header_fields(ls.drop_first());
        let p = position(ls[0], ':') as int;
        if p < ls[0].len() {
            seq![(trim(ls[0].take(p)), trim(ls[0].skip(p + 1)))] + rest
        } else {
            rest
        }
    }
}

/// The body of a message: all that follows the first separator, as it is.
pub open spec fn body_of(raw: Seq<char>) -> Option<Seq<char>> {
    match find(raw, separator()) {
        Some(p) => Some(raw.skip(p as int + 4)),
        None => None,
    }
}

/// The request that a text holds, or the reason why it holds none.
pub open spec fn parse(raw: Seq<char>) -> Result<RequestView, ParseError> {
    let ls = lines(raw);
    if ls.len() == 0 {
        Err(ParseError::NoRequestLine)
    } else {
        let words = tokens(ls[0]);
        if words.len() != 3 {
            Err(ParseError::InvalidRequestLine)
        } else {
            Ok(
                RequestView {
                    method: words[0],
                    path: words[1],
                    headers: header_fields(ls.drop_first()),
                    body: body_of(raw),
                },
            )
        }
    }
}

impl ParseError {
    /// A description of the error.
    pub fn message(&self) -> (res: &'static str)
        ensures
            res@ == match *self {
                ParseError::NoRequestLine => "Invalid request: No request line"@,
                ParseError::InvalidRequestLine => "Invalid request line"@,
            },
    {
        match self {
            ParseError::NoRequestLine => "Invalid request: No request line",
            ParseError::InvalidRequestLine => "Invalid request line",
        }
    }
}

/// The line that starts at `pos`: where its content ends, and where the next
/// line starts.
fn line_at(chars: &Vec<char>, pos: usize, n: usize) -> (res: (usize, usize))
    requires
        pos < n <= chars.len(),
    ensures
        pos <= res.0 <= res.1 <= n,
        pos < res.1,
        lines(chars@.subrange(pos as int, n as int)) == seq![
            chars@.subrange(pos as int, res.0 as int),
        ] + lines(chars@.subrange(res.1 as int, n as int)),
{
    let ghost rest = chars@.subrange(pos as int, n as int);
    let end = find_char(chars, pos, n, '\n');
    if end < n {
        let content_end: usize = if end > pos && chars[end - 1] == '\r' {
            end - 1
        } else {
            end
        };
        proof {
            let p = end - pos;
            assert(rest.take(p) =~= chars@.subrange(pos as int, end as int));
            assert(rest.skip(p + 1) =~= chars@.subrange(end as int + 1, n as int));
            assert(strip_cr(rest.take(p)) =~= chars@.subrange(pos as int, content_end as int));
        }
        (content_end, end + 1)
    } else {
        proof {
            assert(lines(chars@.subrange(n as int, n as int)) =~= Seq::<Seq<char>>::empty());
            assert(seq![rest] + Seq::<Seq<char>>::empty() =~= seq![rest]);
        }
        (n, n)
    }
}

/// The header fields declared by the lines that start at `start`.
fn parse_headers(raw: &str, chars: &Vec<char>, start: usize) -> (res: Vec<(String, String)>)
    requires
        chars@ == raw@,
        start <= chars.len(),
    ensures
        fields(res@) == header_fields(
            lines(chars@.subrange(start as int, chars@.len() as int)),
        ),
{
    let n: usize = chars.len();
    let mut headers: Vec<(String, String)> = Vec::new();
    let mut pos: usize = start;
    assert(fields(headers@) =~= Seq::<Field>::empty());
    while pos < n
        invariant
            start <= pos <= n == chars.len(),
            chars@ == raw@,
            header_fields(lines(chars@.subrange(start as int, n as int))) == fields(headers@)
                + header_fields(lines(chars@.subrange(pos as int, n as int))),
        decreases n - pos,
    {
        let ghost ls = lines(chars@.subrange(pos as int, n as int));
        let ghost before = fields(headers@);
        let (line_end, next) = line_at(chars, pos, n);
        let ghost line = chars@.subrange(pos as int, line_end as int);
        assert(ls[0] == line);
        assert(ls.drop_first() =~= lines(chars@.subrange(next as int, n as int)));
        if line_end == pos {
            assert(header_fields(ls) =~= Seq::<Field>::empty());
            assert(fields(headers@) + Seq::<Field>::empty() =~= fields(headers@));
            return headers;
        }
        let colon = find_char(chars, pos, line_end, ':');
        if colon < line_end {
            let (ka, kb) = trim_range(chars, pos, colon);
            let (va, vb) = trim_range(chars, colon + 1, line_end);
            let key = substring(raw, ka, kb);
            let value = substring(raw, va, vb);
            headers.push((key, value));
            proof {
                let p = colon - pos;
                assert(line.take(p) =~= chars@.subrange(pos as int, colon as int));
                assert(line.skip(p + 1) =~= chars@.subrange(colon as int + 1, line_end as int));
                assert(fields(headers@) =~= before.push(
                    (trim(line.take(p)), trim(line.skip(p + 1))),
                ));
            }
        }
        pos = next;
    }
    assert(lines(chars@.subrange(pos as int, n as int)) =~= Seq::<Seq<char>>::empty());
    headers
}

/// The separator, as characters.
fn separator_chars() -> (res: Vec<char>)
    ensures
        res@ == separator(),
{
    let mut sep: Vec<char> = Vec::new();
    sep.push('\r');
    sep.push('\n');
    sep.push('\r');
    sep.push('\n');
    assert(sep@ =~= separator());
    sep
}

impl Router {
    /// Parses the text of a request. The text is a request exactly when it
    /// has a first line of three words; the result then holds what the
    /// grammar finds in it, and otherwise says what is missing.
    pub fn parse_request(raw_request: &str) -> (res: Result<HttpRequest, ParseError>)
        ensures
            match parse(raw_request@) {
                Ok(request) => res is Ok && res->Ok_0@ == request,
                Err(e) => res == Err::<HttpRequest, ParseError>(e),
            },
    {
        let chars = chars_of(raw_request);
        let n: usize = chars.len();
        assert(chars@.subrange(0, n as int) =~= chars@);
        if n == 0 {
            return Err(ParseError::NoRequestLine);
        }
        let ghost ls = lines(chars@);
        let (line_end, next) = line_at(&chars, 0, n);
        assert(ls[0] == chars@.subrange(0, line_end as int));
        assert(ls.drop_first() =~= lines(chars@.subrange(next as int, n as int)));
        let words = word_ranges(&chars, 0, line_end);
        assert(selected(chars@, words@).len() == words@.len());
        if words.len() != 3 {
            return Err(ParseError::InvalidRequestLine);
        }
        assert(selected(chars@, words@)[0] == chars@.subrange(
            words@[0].0 as int,
            words@[0].1 as int,
        ));
        assert(selected(chars@, words@)[1] == chars@.subrange(
            words@[1].0 as int,
            words@[1].1 as int,
        ));
        let method = substring(raw_request, words[0].0, words[0].1);
        let path = substring(raw_request, words[1].0, words[1].1);
        let headers = parse_headers(raw_request, &chars, next);
        let sep = separator_chars();
        let body = match find_pattern(&chars, &sep) {
            Some(p) => {
                assert(chars@.skip(p as int + 4) =~= chars@.subrange(p as int + 4, n as int));
                Some(substring(raw_request, p + 4, n))
            },
            None => None,
        };
        Ok(HttpRequest { method, path, headers, body })
    }
}

} // verus!
