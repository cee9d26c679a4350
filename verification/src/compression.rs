//! Content codec: the compression schemes the server can apply to a response
//! body, and the negotiation that picks one from what a client accepts.

use crate::scan::{chars_of, find_char, same_text, substring, trim_range};
use crate::text::{split, trim};
use flate2::write::{GzEncoder, ZlibEncoder};
use flate2::Compression;
use std::io::Write;
use vstd::prelude::*;
use vstd::string::*;

verus! {

/// A compression scheme that the server can apply.
#[derive(Debug, PartialEq, Eq, Structural, Clone, Copy)]
pub enum CompressionScheme {
    Gzip,
    Zlib,
}

/// A compression that did not complete.
#[derive(Debug, PartialEq, Eq, Structural, Clone, Copy)]
pub struct CompressError {
    /// The scheme that was being applied.
    pub scheme: CompressionScheme,
}

/// Negotiation and application of the compression schemes.
pub struct CompressionUtil;

/// `std::io::Error`, the error that the encoders report. Nothing is known of
/// a value of it.
#[verifier::external_type_specification]
#[verifier::external_body]
pub struct ExIoError(std::io::Error);

/// What the gzip encoder makes of `data` at the default level: the stream it
/// produces, or nothing where it fails.
pub uninterp spec fn gzip_stream(data: Seq<u8>) -> Option<Seq<u8>>;

/// What the zlib encoder makes of `data` at the default level: the stream it
/// produces, or nothing where it fails.
pub uninterp spec fn zlib_stream(data: Seq<u8>) -> Option<Seq<u8>>;

/// The lowercase equivalent of a text, by the Unicode case mapping.
pub uninterp spec fn lowercased(s: Seq<char>) -> Seq<char>;

/// The schemes the server supports, most preferred first.
pub open spec fn supported() -> Seq<CompressionScheme> {
    seq![CompressionScheme::Gzip, CompressionScheme::Zlib]
}

/// The token that names a scheme in `Accept-Encoding` and `Content-Encoding`.
pub open spec fn token(scheme: CompressionScheme) -> Seq<char> {
    match scheme {
        CompressionScheme::Gzip => "gzip"@,
        CompressionScheme::Zlib => "zlib"@,
    }
}

/// What compressing `data` with `scheme` yields: the compressed bytes, or
/// nothing where the encoder fails on `data`.
pub open spec fn encoded(scheme: CompressionScheme, data: Seq<u8>) -> Option<Seq<u8>> {
    match scheme {
        CompressionScheme::Gzip => gzip_stream(data),
        CompressionScheme::Zlib => zlib_stream(data),
    }
}

/// Each piece trimmed and put in lower case.
pub open spec fn normalized(pieces: Seq<Seq<char>>) -> Seq<Seq<char>> {
    pieces.map_values(|t: Seq<char>| lowercased(trim(t)))
}

/// The encodings that an `Accept-Encoding` value offers: its comma-separated
/// pieces, each trimmed and put in lower case.
pub open spec fn offered(accept: Seq<char>) -> Seq<Seq<char>> {
    normalized(split(accept, ','))
}

/// The first of `schemes` whose token is among `encodings`.
pub open spec fn first_offered(
    schemes: Seq<CompressionScheme>,
    encodings: Seq<Seq<char>>,
) -> Option<CompressionScheme>
    decreases schemes.len(),
{
    if schemes.len() == 0 {
        None
    } else if encodings.contains(token(schemes[0])) {
        Some(schemes[0])
    } else {
        first_offered(schemes.drop_first(), encodings)
    }
}

/// The scheme negotiated for an `Accept-Encoding` value: the most preferred
/// supported scheme that the client offers, whatever order the client gave.
pub open spec fn negotiate(accept: Seq<char>) -> Option<CompressionScheme> {
    first_offered(supported(), offered(accept))
}

/// The text of each string.
pub open spec fn texts(strings: Seq<String>) -> Seq<Seq<char>> {
    strings.map_values(|s: String| s@)
}

/// Compresses `data` to a gzip stream with `flate2::write::GzEncoder` at
/// `flate2::Compression::default()`, writing into a fresh vector. Trusted:
/// whether the encoder succeeds, and the bytes it then returns, depend on
/// `data` alone. The vector accepts every write, and the encoder's header
/// carries no time stamp and a fixed system byte. That the encoder succeeds
/// is not claimed.
#[verifier::external_body]
fn gzip(data: &[u8]) -> (res: Result<Vec<u8>, std::io::Error>)
    ensures
        match res {
            Ok(bytes) => gzip_stream(data@) == Some(bytes@),
            Err(_) => gzip_stream(data@) is None,
        },
{
    let mut encoder = GzEncoder::new(Vec::new(), Compression::default());
    encoder.write_all(data)?;
    encoder.finish()
}

/// Compresses `data` to a zlib stream with `flate2::write::ZlibEncoder` at
/// `flate2::Compression::default()`, writing into a fresh vector. Trusted:
/// whether the encoder succeeds, and the bytes it then returns, depend on
/// `data` alone. That the encoder succeeds is not claimed.
#[verifier::external_body]
fn zlib(data: &[u8]) -> (res: Result<Vec<u8>, std::io::Error>)
    ensures
        match res {
            Ok(bytes) => zlib_stream(data@) == Some(bytes@),
            Err(_) => zlib_stream(data@) is None,
        },
{
    let mut encoder = ZlibEncoder::new(Vec::new(), Compression::default());
    encoder.write_all(data)?;
    encoder.finish()
}

/// Calls `str::to_lowercase`. Trusted: the result is the lowercase equivalent
/// of `s`, which depends on `s` alone.
#[verifier::external_body]
pub(crate) fn lowercase(s: &str) -> (res: String)
    ensures
        res@ == lowercased(s@),
{
    s.to_lowercase()
}

impl CompressionUtil {
    /// The supported schemes, most preferred first.
    pub fn supported_schemes() -> (res: Vec<CompressionScheme>)
        ensures
            res@ == supported(),
    {
        let mut schemes: Vec<CompressionScheme> = Vec::new();
        schemes.push(CompressionScheme::Gzip);
        schemes.push(CompressionScheme::Zlib);
        assert(schemes@ =~= supported());
        schemes
    }

    /// Compresses `data` with `scheme`. The result is what the scheme's
    /// encoder makes of `data`: its stream, or an error exactly where the
    /// encoder fails on `data`.
    pub fn compress(data: &[u8], scheme: CompressionScheme) -> (res: Result<
        Vec<u8>,
        CompressError,
    >)
        ensures
            match res {
                Ok(bytes) => encoded(scheme, data@) == Some(bytes@),
                Err(e) => e.scheme == scheme && encoded(scheme, data@) is None,
            },
    {
        let outcome = match scheme {
            CompressionScheme::Gzip => gzip(data),
            CompressionScheme::Zlib => zlib(data),
        };
        match outcome {
            Ok(bytes) => Ok(bytes),
            Err(_) => Err(CompressError { scheme }),
        }
    }

    /// The token that names `scheme` on the wire.
    pub fn scheme_to_header(scheme: CompressionScheme) -> (res: &'static str)
        ensures
            res@ == token(scheme),
    {
        match scheme {
            CompressionScheme::Gzip => "gzip",
            CompressionScheme::Zlib => "zlib",
        }
    }

    /// The encodings that an `Accept-Encoding` value offers.
    pub fn offered_encodings(accept_encoding: &str) -> (res: Vec<String>)
        ensures
            texts(res@) == offered(accept_encoding@),
    {
        let chars = chars_of(accept_encoding);
        let n: usize = chars.len();
        let mut encodings: Vec<String> = Vec::new();
        let mut pos: usize = 0;
        assert(chars@.subrange(0, n as int) =~= chars@);
        assert(texts(encodings@) =~= Seq::<Seq<char>>::empty());
        loop
            invariant
                pos <= n == chars.len(),
                chars@ == accept_encoding@,
                offered(accept_encoding@) == texts(encodings@) + normalized(
                    split(chars@.subrange(pos as int, n as int), ','),
                ),
            decreases n - pos,
        {
            let ghost rest = chars@.subrange(pos as int, n as int);
            let ghost before = texts(encodings@);
            let end = find_char(&chars, pos, n, ',');
            let (a, b) = trim_range(&chars, pos, end);
            let piece = substring(accept_encoding, a, b);
            encodings.push(lowercase(piece.as_str()));
            proof {
                let p = end - pos;
                assert(rest.take(p) =~= chars@.subrange(pos as int, end as int));
                assert(texts(encodings@) =~= before + seq![lowercased(trim(rest.take(p)))]);
                if end < n {
                    assert(rest.skip(p + 1) =~= chars@.subrange(end as int + 1, n as int));
                    assert(normalized(split(rest, ',')) =~= seq![lowercased(trim(rest.take(p)))]
                        + normalized(split(rest.skip(p + 1), ',')));
                } else {
                    assert(rest.take(p) =~= rest);
                    assert(normalized(split(rest, ',')) =~= seq![lowercased(trim(rest))]);
                }
            }
            if end == n {
                return encodings;
            }
            pos = end + 1;
        }
    }

    /// Whether `wanted` is among `encodings`.
    pub fn offers(encodings: &Vec<String>, wanted: &str) -> (res: bool)
        ensures
            res == texts(encodings@).contains(wanted@),
    {
        let mut i: usize = 0;
        while i < encodings.len()
            invariant
                i <= encodings.len(),
                forall|j: int| 0 <= j < i ==> texts(encodings@)[j] != wanted@,
            decreases encodings.len() - i,
        {
            if same_text(encodings[i].as_str(), wanted) {
                assert(texts(encodings@)[i as int] == wanted@);
                return true;
            }
            i += 1;
        }
        false
    }

    /// The most preferred supported scheme that is among the offered
    /// `encodings`, each of which is taken as it stands.
    pub fn select_scheme(encodings: &Vec<String>) -> (res: Option<CompressionScheme>)
        ensures
            res == first_offered(supported(), texts(encodings@)),
    {
        let schemes = Self::supported_schemes();
        let mut i: usize = 0;
        assert(schemes@.subrange(0, schemes@.len() as int) =~= schemes@);
        while i < schemes.len()
            invariant
                i <= schemes.len(),
                schemes@ == supported(),
                first_offered(supported(), texts(encodings@)) == first_offered(
                    schemes@.subrange(i as int, schemes@.len() as int),
                    texts(encodings@),
                ),
            decreases schemes.len() - i,
        {
            let scheme = schemes[i];
            assert(schemes@.subrange(i as int, schemes@.len() as int).drop_first()
                =~= schemes@.subrange(i as int + 1, schemes@.len() as int));
            if Self::offers(encodings, Self::scheme_to_header(scheme)) {
                return Some(scheme);
            }
            i += 1;
        }
        None
    }

    /// The scheme to apply for a client that sent `accept_encoding`.
    pub fn negotiate_compression(accept_encoding: &str) -> (res: Option<CompressionScheme>)
        ensures
            res == negotiate(accept_encoding@),
    {
        let encodings = Self::offered_encodings(accept_encoding);
        Self::select_scheme(&encodings)
    }
}

} // verus!
