use http_server::compression::{CompressError, CompressionScheme};
use http_server::message::{HttpRequest, HttpResponse};
use http_server::router::{CreateStep, Routed, Router};
use std::collections::HashMap;
use std::io::Read;

fn request(method: &str, path: &str, headers: &[(&str, &str)], body: Option<&str>) -> HttpRequest {
    HttpRequest {
        method: method.to_string(),
        path: path.to_string(),
        headers: headers.iter().map(|(k, v)| (k.to_string(), v.to_string())).collect(),
        body: body.map(|b| b.to_string()),
    }
}

fn reply(routed: Routed) -> HttpResponse {
    match routed {
        Routed::Reply(response) => response,
        other => panic!("expected a reply, got {:?}", other),
    }
}

fn header<'a>(response: &'a HttpResponse, name: &str) -> Option<&'a str> {
    response.headers.iter().find(|(k, _)| k == name).map(|(_, v)| v.as_str())
}

fn assert_status(response: &HttpResponse, code: u16, message: &str) {
    assert_eq!(response.status_code, code);
    assert_eq!(response.status_message, message);
}

fn assert_bare(response: &HttpResponse, code: u16, message: &str) {
    assert_status(response, code, message);
    assert!(response.headers.is_empty());
    assert!(response.body.is_empty());
}

fn gunzip(bytes: &[u8]) -> Vec<u8> {
    let mut out = Vec::new();
    flate2::read::GzDecoder::new(bytes).read_to_end(&mut out).unwrap();
    out
}

fn unzlib(bytes: &[u8]) -> Vec<u8> {
    let mut out = Vec::new();
    flate2::read::ZlibDecoder::new(bytes).read_to_end(&mut out).unwrap();
    out
}

/// Serves a request against a directory held in memory.
fn serve(files: &mut HashMap<String, Vec<u8>>, req: &HttpRequest) -> HttpResponse {
    match Router::handle_request(req) {
        Routed::Reply(response) => response,
        Routed::ServeFile { filename } => Router::serve_file(files.get(&filename).cloned()),
        Routed::CreateFile { filename, body } => {
            files.entry(filename.clone()).or_default();
            match Router::create_file(body, true) {
                CreateStep::Reply(response) => response,
                CreateStep::Write(bytes) => {
                    files.insert(filename, bytes);
                    Router::file_written(true)
                }
            }
        }
    }
}

#[test]
fn get_root_without_accept_encoding() {
    let r = reply(Router::handle_request(&request("GET", "/", &[], None)));
    assert_status(&r, 200, "OK");
    assert_eq!(r.body, b"Hello, World!");
    assert_eq!(header(&r, "Content-Encoding"), None);
    assert_eq!(header(&r, "Content-Type"), Some("text/plain"));
    assert_eq!(header(&r, "Content-Length"), Some("13"));
    assert_eq!(r.headers.len(), 2);
}

#[test]
fn get_echo() {
    let r = reply(Router::handle_request(&request("GET", "/echo/abc123", &[], None)));
    assert_status(&r, 200, "OK");
    assert_eq!(r.body, b"abc123");
    assert_eq!(header(&r, "Content-Length"), Some("6"));
    assert_eq!(header(&r, "Content-Encoding"), None);
}

#[test]
fn get_echo_with_gzip() {
    let r = reply(Router::handle_request(&request(
        "GET",
        "/echo/abc123",
        &[("Accept-Encoding", "gzip")],
        None,
    )));
    assert_status(&r, 200, "OK");
    assert_eq!(header(&r, "Content-Encoding"), Some("gzip"));
    assert_ne!(r.body, b"abc123");
    assert_eq!(gunzip(&r.body), b"abc123");
    assert_eq!(header(&r, "Content-Length"), Some(r.body.len().to_string().as_str()));
    assert_eq!(
        r.headers.iter().map(|(k, _)| k.as_str()).collect::<Vec<_>>(),
        vec!["Content-Type", "Content-Length", "Content-Encoding"]
    );
}

#[test]
fn get_echo_with_zlib() {
    let r = reply(Router::handle_request(&request(
        "GET",
        "/echo/abc123",
        &[("Accept-Encoding", "br, zlib")],
        None,
    )));
    assert_eq!(header(&r, "Content-Encoding"), Some("zlib"));
    assert_eq!(unzlib(&r.body), b"abc123");
    assert_eq!(header(&r, "Content-Length"), Some(r.body.len().to_string().as_str()));
}

#[test]
fn echo_takes_the_rest_of_the_path_as_it_stands() {
    let r = reply(Router::handle_request(&request("GET", "/echo/a/b%20c/?x=1", &[], None)));
    assert_eq!(r.body, b"a/b%20c/?x=1");
    let r = reply(Router::handle_request(&request("GET", "/echo/", &[], None)));
    assert_eq!(r.body, b"");
    assert_eq!(header(&r, "Content-Length"), Some("0"));
    let r = reply(Router::handle_request(&request("GET", "/echo/caf\u{e9}", &[], None)));
    assert_eq!(r.body, "caf\u{e9}".as_bytes());
    assert_eq!(header(&r, "Content-Length"), Some("5"));
}

#[test]
fn echo_answers_any_method() {
    for method in ["GET", "POST", "DELETE", "get", "X"] {
        let r = reply(Router::handle_request(&request(method, "/echo/hi", &[], None)));
        assert_status(&r, 200, "OK");
        assert_eq!(r.body, b"hi");
    }
}

#[test]
fn get_user_agent() {
    let r = reply(Router::handle_request(&request(
        "GET",
        "/user-agent",
        &[("User-Agent", "test-client/1.0")],
        None,
    )));
    assert_status(&r, 200, "OK");
    assert_eq!(r.body, b"test-client/1.0");
    assert_eq!(header(&r, "Content-Type"), Some("text/plain"));
}

#[test]
fn get_user_agent_without_the_header() {
    let r = reply(Router::handle_request(&request("GET", "/user-agent", &[], None)));
    assert_bare(&r, 400, "Bad Request");
    let r = reply(Router::handle_request(&request(
        "GET",
        "/user-agent",
        &[("Accept-Encoding", "gzip"), ("Host", "x")],
        None,
    )));
    assert_bare(&r, 400, "Bad Request");
}

#[test]
fn user_agent_is_matched_by_its_exact_name_and_first_wins() {
    let r = reply(Router::handle_request(&request(
        "GET",
        "/user-agent",
        &[("user-agent", "lower"), ("User-Agent", "first"), ("User-Agent", "second")],
        None,
    )));
    assert_eq!(r.body, b"first");
    let r = reply(Router::handle_request(&request(
        "GET",
        "/user-agent",
        &[("USER-AGENT", "upper")],
        None,
    )));
    assert_bare(&r, 400, "Bad Request");
}

#[test]
fn user_agent_needs_get() {
    let r = reply(Router::handle_request(&request(
        "POST",
        "/user-agent",
        &[("User-Agent", "x")],
        None,
    )));
    assert_bare(&r, 404, "Not Found");
}

#[test]
fn root_needs_get() {
    let r = reply(Router::handle_request(&request("POST", "/", &[], None)));
    assert_bare(&r, 404, "Not Found");
    let r = reply(Router::handle_request(&request("get", "/", &[], None)));
    assert_bare(&r, 404, "Not Found");
}

#[test]
fn unknown_path() {
    let r = reply(Router::handle_request(&request("GET", "/unknown/path", &[], None)));
    assert_bare(&r, 404, "Not Found");
    for path in ["", "/echo", "/files", "/user-agent/", "/Echo/x", " /", "//"] {
        let r = reply(Router::handle_request(&request("GET", path, &[], None)));
        assert_bare(&r, 404, "Not Found");
    }
}

#[test]
fn delete_on_files_is_not_allowed() {
    let r = reply(Router::handle_request(&request("DELETE", "/files/x.txt", &[], None)));
    assert_bare(&r, 405, "Method Not Allowed");
    for method in ["PUT", "get", "post", "PATCH", ""] {
        let r = reply(Router::handle_request(&request(method, "/files/x.txt", &[], Some("b"))));
        assert_bare(&r, 405, "Method Not Allowed");
    }
}

#[test]
fn get_on_files_asks_for_the_file() {
    match Router::handle_request(&request("GET", "/files/dir/a.txt", &[("Accept-Encoding", "gzip")], None)) {
        Routed::ServeFile { filename } => assert_eq!(filename, "dir/a.txt"),
        other => panic!("{:?}", other),
    }
    match Router::handle_request(&request("GET", "/files/", &[], None)) {
        Routed::ServeFile { filename } => assert_eq!(filename, ""),
        other => panic!("{:?}", other),
    }
}

#[test]
fn post_on_files_asks_for_the_file_to_be_created() {
    match Router::handle_request(&request("POST", "/files/new.txt", &[], Some("hello"))) {
        Routed::CreateFile { filename, body } => {
            assert_eq!(filename, "new.txt");
            assert_eq!(body, Some("hello".to_string()));
        }
        other => panic!("{:?}", other),
    }
    match Router::handle_request(&request("POST", "/files/new.txt", &[], None)) {
        Routed::CreateFile { filename, body } => {
            assert_eq!(filename, "new.txt");
            assert_eq!(body, None);
        }
        other => panic!("{:?}", other),
    }
}

#[test]
fn echo_comes_before_files_and_root_before_both() {
    let r = reply(Router::handle_request(&request("GET", "/echo/files/x", &[], None)));
    assert_eq!(r.body, b"files/x");
    match Router::handle_request(&request("GET", "/files/echo/x", &[], None)) {
        Routed::ServeFile { filename } => assert_eq!(filename, "echo/x"),
        other => panic!("{:?}", other),
    }
}

#[test]
fn file_missing() {
    let mut files = HashMap::new();
    let r = serve(&mut files, &request("GET", "/files/missing.txt", &[], None));
    assert_bare(&r, 404, "Not Found");
    assert_bare(&Router::serve_file(None), 404, "Not Found");
}

#[test]
fn post_then_get_a_file() {
    let mut files = HashMap::new();
    let r = serve(&mut files, &request("POST", "/files/new.txt", &[], Some("hello")));
    assert_bare(&r, 201, "Created");
    assert_eq!(files.get("new.txt"), Some(&b"hello".to_vec()));
    let r = serve(&mut files, &request("GET", "/files/new.txt", &[], None));
    assert_status(&r, 200, "OK");
    assert_eq!(header(&r, "Content-Type"), Some("application/octet-stream"));
    assert_eq!(header(&r, "Content-Length"), Some("5"));
    assert_eq!(r.body, b"hello");
}

#[test]
fn files_are_never_compressed() {
    let r = Router::serve_file(Some(b"plain plain plain".to_vec()));
    assert_eq!(r.body, b"plain plain plain");
    assert_eq!(header(&r, "Content-Encoding"), None);
    let mut files = HashMap::new();
    files.insert("a".to_string(), b"aaaa".to_vec());
    let r = serve(&mut files, &request("GET", "/files/a", &[("Accept-Encoding", "gzip")], None));
    assert_eq!(r.body, b"aaaa");
    assert_eq!(header(&r, "Content-Encoding"), None);
}

#[test]
fn serve_file_sends_the_content_as_it_is() {
    let r = Router::serve_file(Some(vec![0, 159, 146, 150]));
    assert_status(&r, 200, "OK");
    assert_eq!(r.body, vec![0, 159, 146, 150]);
    assert_eq!(header(&r, "Content-Length"), Some("4"));
    let r = Router::serve_file(Some(Vec::new()));
    assert_status(&r, 200, "OK");
    assert_eq!(header(&r, "Content-Length"), Some("0"));
}

#[test]
fn create_file_steps() {
    match Router::create_file(Some("hello".to_string()), true) {
        CreateStep::Write(bytes) => assert_eq!(bytes, b"hello"),
        other => panic!("{:?}", other),
    }
    match Router::create_file(Some("caf\u{e9}".to_string()), true) {
        CreateStep::Write(bytes) => assert_eq!(bytes, "caf\u{e9}".as_bytes()),
        other => panic!("{:?}", other),
    }
    match Router::create_file(None, true) {
        CreateStep::Reply(r) => assert_bare(&r, 400, "Bad Request"),
        other => panic!("{:?}", other),
    }
    match Router::create_file(Some("hello".to_string()), false) {
        CreateStep::Reply(r) => assert_bare(&r, 500, "Internal Server Error"),
        other => panic!("{:?}", other),
    }
    match Router::create_file(None, false) {
        CreateStep::Reply(r) => assert_bare(&r, 500, "Internal Server Error"),
        other => panic!("{:?}", other),
    }
}

#[test]
fn file_written_outcomes() {
    assert_bare(&Router::file_written(true), 201, "Created");
    assert_bare(&Router::file_written(false), 500, "Internal Server Error");
}

#[test]
fn accept_encoding_is_found_in_any_letter_case() {
    for name in ["Accept-Encoding", "accept-encoding", "ACCEPT-ENCODING", "aCCEPT-eNCODING"] {
        let req = request("GET", "/", &[(name, "gzip")], None);
        assert_eq!(Router::accepted_scheme(&req), Some(CompressionScheme::Gzip), "{}", name);
    }
    let req = request("GET", "/", &[("Accept-Encodings", "gzip"), ("Accept", "gzip")], None);
    assert_eq!(Router::accepted_scheme(&req), None);
}

#[test]
fn only_the_first_accept_encoding_counts() {
    let req = request("GET", "/", &[("accept-encoding", "br"), ("Accept-Encoding", "gzip")], None);
    assert_eq!(Router::accepted_scheme(&req), None);
    let r = reply(Router::handle_request(&req));
    assert_eq!(r.body, b"Hello, World!");
    let req = request("GET", "/", &[("Accept-Encoding", "zlib"), ("Accept-Encoding", "gzip")], None);
    assert_eq!(Router::accepted_scheme(&req), Some(CompressionScheme::Zlib));
}

#[test]
fn unsupported_encodings_leave_the_body_plain() {
    let r = reply(Router::handle_request(&request("GET", "/", &[("Accept-Encoding", "br")], None)));
    assert_eq!(r.body, b"Hello, World!");
    assert_eq!(header(&r, "Content-Encoding"), None);
}

#[test]
fn errors_are_not_compressed() {
    let r = reply(Router::handle_request(&request(
        "GET",
        "/nowhere",
        &[("Accept-Encoding", "gzip")],
        None,
    )));
    assert_bare(&r, 404, "Not Found");
}

#[test]
fn dispatch_uses_the_scheme_it_is_given() {
    let req = request("GET", "/", &[("Accept-Encoding", "gzip")], None);
    let r = reply(Router::dispatch(&req, None));
    assert_eq!(r.body, b"Hello, World!");
    let r = reply(Router::dispatch(&req, Some(CompressionScheme::Zlib)));
    assert_eq!(header(&r, "Content-Encoding"), Some("zlib"));
    assert_eq!(unzlib(&r.body), b"Hello, World!");
}

#[test]
fn handlers_by_name() {
    assert_eq!(Router::hello_world(None).body, b"Hello, World!");
    assert_eq!(gunzip(&Router::hello_world(Some(CompressionScheme::Gzip)).body), b"Hello, World!");
    assert_eq!(Router::echo("/echo/xyz", None).body, b"xyz");
    let req = request("GET", "/whatever", &[("User-Agent", "ua")], None);
    assert_eq!(Router::user_agent(&req, None).body, b"ua");
    assert_eq!(unzlib(&Router::user_agent(&req, Some(CompressionScheme::Zlib)).body), b"ua");
    assert_bare(&Router::not_found(), 404, "Not Found");
    assert_bare(&Router::method_not_allowed(), 405, "Method Not Allowed");
}

#[test]
fn compress_response_without_a_scheme() {
    let r = Router::compress_response(b"body".to_vec(), "text/html", None);
    assert_status(&r, 200, "OK");
    assert_eq!(r.body, b"body");
    assert_eq!(header(&r, "Content-Type"), Some("text/html"));
    assert_eq!(header(&r, "Content-Length"), Some("4"));
    assert_eq!(header(&r, "Content-Encoding"), None);
}

#[test]
fn compress_response_measures_the_compressed_body() {
    let body = vec![b'a'; 4000];
    let r = Router::compress_response(body.clone(), "text/plain", Some(CompressionScheme::Gzip));
    assert!(r.body.len() < body.len());
    assert_eq!(header(&r, "Content-Length"), Some(r.body.len().to_string().as_str()));
    assert_eq!(gunzip(&r.body), body);
}

#[test]
fn compressed_reply_from_each_outcome() {
    let r = Router::compressed_reply(
        b"body".to_vec(),
        "text/plain",
        CompressionScheme::Gzip,
        Ok(vec![9, 9, 9]),
    );
    assert_status(&r, 200, "OK");
    assert_eq!(r.body, vec![9, 9, 9]);
    assert_eq!(header(&r, "Content-Length"), Some("3"));
    assert_eq!(header(&r, "Content-Encoding"), Some("gzip"));
    let r = Router::compressed_reply(
        b"body".to_vec(),
        "text/plain",
        CompressionScheme::Zlib,
        Err(CompressError { scheme: CompressionScheme::Zlib }),
    );
    assert_status(&r, 200, "OK");
    assert_eq!(r.body, b"body");
    assert_eq!(header(&r, "Content-Length"), Some("4"));
    assert_eq!(header(&r, "Content-Encoding"), None);
}

#[test]
fn content_length_is_that_of_the_body_sent() {
    let mut files = HashMap::new();
    files.insert("f".to_string(), vec![1, 2, 3]);
    let requests = [
        request("GET", "/", &[], None),
        request("GET", "/", &[("Accept-Encoding", "gzip")], None),
        request("GET", "/echo/some%20text", &[("Accept-Encoding", "zlib")], None),
        request("GET", "/user-agent", &[("User-Agent", "a/1")], None),
        request("GET", "/user-agent", &[], None),
        request("GET", "/files/f", &[], None),
        request("GET", "/files/none", &[], None),
        request("POST", "/files/g", &[], Some("content")),
        request("POST", "/files/g", &[], None),
        request("DELETE", "/files/f", &[], None),
        request("GET", "/nothing", &[], None),
    ];
    for req in &requests {
        let r = serve(&mut files, req);
        match header(&r, "Content-Length") {
            Some(v) => assert_eq!(v, r.body.len().to_string()),
            None => assert!(r.body.is_empty()),
        }
        let bytes = r.to_bytes();
        assert!(bytes.ends_with(&r.body));
        let head = String::from_utf8(bytes[..bytes.len() - r.body.len()].to_vec()).unwrap();
        assert!(head.starts_with(&format!("HTTP/1.1 {} {}\r\n", r.status_code, r.status_message)));
        assert!(head.ends_with("\r\n\r\n") || head.ends_with("\r\n"));
    }
}

#[test]
fn repeating_a_get_gives_the_same_bytes() {
    let mut files = HashMap::new();
    files.insert("f".to_string(), vec![1, 2, 3]);
    let requests = [
        request("GET", "/", &[], None),
        request("GET", "/", &[("Accept-Encoding", "gzip")], None),
        request("GET", "/echo/abc", &[("Accept-Encoding", "zlib, gzip")], None),
        request("GET", "/user-agent", &[("User-Agent", "a/1")], None),
        request("GET", "/files/f", &[], None),
        request("GET", "/files/none", &[], None),
        request("GET", "/nothing", &[], None),
    ];
    for req in &requests {
        let first = serve(&mut files, req).to_bytes();
        let second = serve(&mut files, req).to_bytes();
        assert_eq!(first, second);
    }
}

#[test]
fn the_greeting_is_the_compressed_response_for_its_text() {
    for compression in [None, Some(CompressionScheme::Gzip), Some(CompressionScheme::Zlib)] {
        let greeting = Router::hello_world(compression);
        let direct = Router::compress_response(b"Hello, World!".to_vec(), "text/plain", compression);
        assert_eq!(greeting.status_code, direct.status_code);
        assert_eq!(greeting.status_message, direct.status_message);
        assert_eq!(greeting.headers, direct.headers);
        assert_eq!(greeting.body, direct.body);
        assert_eq!(greeting.to_bytes(), direct.to_bytes());
    }
    let plain = Router::hello_world(None);
    assert_eq!(plain.body, b"Hello, World!");
    assert_eq!(header(&plain, "Content-Length"), Some("13"));
}

#[test]
fn a_compressed_answer_carries_what_compress_gives() {
    for scheme in [CompressionScheme::Gzip, CompressionScheme::Zlib] {
        let packed = http_server::compression::CompressionUtil::compress(b"abc123", scheme).unwrap();
        let r = Router::echo("/echo/abc123", Some(scheme));
        assert_eq!(r.body, packed);
        assert_eq!(
            header(&r, "Content-Encoding"),
            Some(http_server::compression::CompressionUtil::scheme_to_header(scheme))
        );
    }
}
