use kern::http::client::client::HttpClient;
use kern::http::client::request::{end_headers, send_content_length, send_header, send_main_header};
use kern::http::client::response::{line_stop, read_all, read_headers, read_status, ResponseError};
use kern::http::client::url::Url;
use kern::http::common::HttpMethod;
use kern::Dict;

#[test]
fn method_names() {
    let all = [
        (HttpMethod::Get, "GET"),
        (HttpMethod::Post, "POST"),
        (HttpMethod::Put, "PUT"),
        (HttpMethod::Delete, "DELETE"),
        (HttpMethod::Head, "HEAD"),
        (HttpMethod::Connect, "CONNECT"),
        (HttpMethod::Options, "OPTIONS"),
        (HttpMethod::Trace, "TRACE"),
    ];
    for (method, name) in all {
        assert_eq!(method.as_str(), name);
        assert_eq!(HttpMethod::try_from(name).unwrap(), method);
    }
    let err = HttpMethod::try_from("get").unwrap_err();
    assert_eq!(err.err_msg(), "Invalid method in header");
    assert!(HttpMethod::try_from("PATCH").is_err());
    assert!(HttpMethod::try_from("").is_err());
}

#[test]
fn headers_on_the_wire() {
    let mut stream = b"x".to_vec();
    send_header(&mut stream, "Accept", "text/html");
    send_content_length(&mut stream, b"hello");
    end_headers(&mut stream);
    assert_eq!(
        String::from_utf8(stream).unwrap(),
        "xAccept: text/html\r\nContent-Length: 5\r\n\r\n"
    );
}

#[test]
fn main_header_with_query() {
    let url = Url::try_from("http://example.org/a b/c").unwrap();
    let mut query: Dict<String> = Dict::new();
    let mut stream = Vec::new();
    send_main_header(&mut stream, HttpMethod::Head, &url, &query);
    assert_eq!(
        String::from_utf8(stream).unwrap(),
        "HEAD /a%20b/c HTTP/1.1\r\nHost: example.org\r\n"
    );
    query.insert("k 1".to_string(), "v/1".to_string());
    query.insert("k2".to_string(), "ä".to_string());
    let mut stream = Vec::new();
    send_main_header(&mut stream, HttpMethod::Get, &url, &query);
    assert_eq!(
        String::from_utf8(stream).unwrap(),
        "GET /a%20b/c?k%201=v%2F1&k2=%C3%A4 HTTP/1.1\r\nHost: example.org\r\n"
    );
}

#[test]
fn client_headers_and_query() {
    let mut client = HttpClient::new()
        .with_header("a", "1")
        .with_header("b", "2")
        .with_header("a", "3")
        .with_query("q", "x")
        .with_query("q", "y");
    assert_eq!(client.headers().len(), 3);
    assert_eq!(client.query().len(), 1);
    assert_eq!(client.query().get("q").unwrap(), "y");
    client.set_header("a", "4");
    assert_eq!(
        client.headers(),
        &vec![
            ("b".to_string(), "2".to_string()),
            ("a".to_string(), "4".to_string())
        ]
    );
    client.remove_header("b");
    client.remove_header("missing");
    assert_eq!(client.headers(), &vec![("a".to_string(), "4".to_string())]);
    client.remove_query("q");
    assert_eq!(client.query().len(), 0);
}

#[test]
fn request_bytes_without_and_with_body() {
    let client = HttpClient::new().with_header("x-a", "1").with_query("q", "v");
    let (url, bytes) = client.get("http://localhost:8080/p").unwrap();
    assert_eq!(url.addr, "localhost:8080");
    assert_eq!(
        String::from_utf8(bytes).unwrap(),
        "GET /p?q=v HTTP/1.1\r\nHost: localhost\r\nx-a: 1\r\n\r\n"
    );
    let (_, bytes) = client.put("http://localhost:8080/p", b"data").unwrap();
    assert_eq!(
        String::from_utf8(bytes).unwrap(),
        "PUT /p?q=v HTTP/1.1\r\nHost: localhost\r\nContent-Length: 4\r\nx-a: 1\r\n\r\ndata"
    );
    let (_, bytes) = client.post("http://localhost:8080/p", b"").unwrap();
    assert!(bytes.starts_with(b"GET /p?q=v HTTP/1.1\r\nHost: localhost\r\nContent-Length: 0\r\n"));
    let (_, bytes) = client.patch("http://localhost:8080/p", b"").unwrap();
    assert!(bytes.starts_with(b"PUT /p"));
    assert!(client.head("http://h/").unwrap().1.starts_with(b"HEAD /?q=v "));
    assert!(client.options("http://h/").unwrap().1.starts_with(b"OPTIONS /?q=v "));
    assert!(client.delete("http://h/").unwrap().1.starts_with(b"DELETE /?q=v "));
    assert!(client.trace("http://h/").unwrap().1.starts_with(b"TRACE /?q=v "));
    assert!(client
        .request(HttpMethod::Connect, "http://h/", None)
        .unwrap()
        .1
        .starts_with(b"CONNECT /?q=v "));
    assert_eq!(
        client.get("localhost").unwrap_err().err_msg(),
        "invalid url: protocol missing"
    );
}

#[test]
fn client_sessions() {
    let client = HttpClient::new();
    let plain = Url::try_from("http://example.org/").unwrap();
    assert!(client.session(&plain).unwrap().is_none());
    let secure = Url::try_from("https://example.org/").unwrap();
    assert!(client.session(&secure).unwrap().is_some());
    let unnamed = Url::try_from("https://not a name/").unwrap();
    assert_eq!(
        client.session(&unnamed).unwrap_err().err_msg(),
        "could not initialize client connection"
    );
    assert!(client.config().is_some());
}

#[test]
fn status_codes() {
    assert_eq!(read_status(b"HTTP/1.1 200 OK\r\n"), Some(200));
    assert_eq!(read_status(b"HTTP/1.1 404"), Some(404));
    assert_eq!(read_status(b"HTTP/1.1 +12"), Some(12));
    assert_eq!(read_status(b"HTTP/1.1 20"), None);
    assert_eq!(read_status(b"HTTP/1.1 2x0 OK"), None);
    assert_eq!(read_status(b"HTTP/1.1 \xc3\xa40 OK"), None);
    assert_eq!(read_status(b""), None);
}

#[test]
fn line_stops() {
    let raw = b"abc\r\nde\r\n\r\nbody\r\n\r\ntail";
    assert_eq!(line_stop(raw, 0, false), 11);
    assert_eq!(line_stop(raw, 11, true), 19);
    assert_eq!(line_stop(b"abc", 0, false), 3);
    assert_eq!(line_stop(b"abc\nd\n", 0, false), 6);
    assert_eq!(line_stop(b"abc\nd\n", 0, true), 6);
    assert_eq!(line_stop(b"\nx", 0, false), 1);
    assert_eq!(line_stop(b"\nx\n", 0, true), 3);
    assert_eq!(line_stop(b"", 0, true), 0);
}

#[test]
fn response_headers() {
    let (headers, status) =
        read_headers(b"HTTP/1.1 200 OK\r\nContent-Type: Text/HTML\r\nX-A : 1\r\nx-a:2\r\n\r\n")
            .unwrap();
    assert_eq!(status, 200);
    assert_eq!(
        headers,
        vec![
            ("content-type".to_string(), "text/html".to_string()),
            ("x-a".to_string(), "1".to_string()),
            ("x-a".to_string(), "2".to_string()),
        ]
    );
    assert_eq!(
        read_headers(b"HTTP/1.1 200 OK\r\nno colon\r\n\r\n").err(),
        Some(ResponseError::InvalidHeader)
    );
    assert_eq!(
        read_headers(b"HTTP/1.1 abc OK\r\n\r\n").err(),
        Some(ResponseError::NoStatus)
    );
    // a header text without line breaks is short, not malformed
    assert_eq!(read_headers(b"HTTP/1.1 204").unwrap().1, 204);
}

#[test]
fn response_with_declared_length() {
    let response =
        read_all(b"HTTP/1.1 201 Created\r\nContent-Length: 4\r\nX-A: 1\r\nx-a: 2\r\n\r\nbody and more")
            .unwrap();
    assert_eq!(response.status(), 201);
    assert_eq!(response.body(), b"body");
    assert_eq!(response.body_text().unwrap(), "body");
    assert_eq!(response.header_first("x-a"), Some("1"));
    assert_eq!(response.header_first("content-length"), Some("4"));
    assert_eq!(response.header_first("X-A"), None);
    assert_eq!(response.headers().len(), 3);
}

#[test]
fn response_without_declared_length() {
    let response = read_all(b"HTTP/1.1 200 OK\r\n\r\nline one\r\nline two\r\n\r\nnot read").unwrap();
    assert_eq!(response.body(), b"line one\r\nline two\r\n\r\n");
    let response = read_all(b"HTTP/1.1 200 OK\r\n\r\nno end").unwrap();
    assert_eq!(response.body(), b"no end");
    let response = read_all(b"HTTP/1.1 200 OK\r\n\r\n").unwrap();
    assert_eq!(response.body(), b"");
}

#[test]
fn response_errors() {
    assert_eq!(
        read_all(b"HTTP/1.1 200 OK\r\nContent-Length: 10\r\n\r\nshort").unwrap_err().err_msg(),
        "failed to fill whole buffer"
    );
    assert_eq!(
        read_all(b"HTTP/1.1 200 OK\r\nX: \xff\r\n\r\n").unwrap_err().err_msg(),
        "stream did not contain valid UTF-8"
    );
    assert_eq!(
        read_all(b"HTTP/1.1 200 OK\r\n\r\n\xff\r\n").unwrap_err().err_msg(),
        "stream did not contain valid UTF-8"
    );
    assert_eq!(read_all(b"").unwrap_err().err_msg(), "status code not u16");
    assert_eq!(
        read_all(b"HTTP/1.1 200 OK\r\nbroken\r\n\r\n").unwrap_err().err_msg(),
        "invalid header"
    );
    let binary = read_all(b"HTTP/1.1 200 OK\r\ncontent-length: 1\r\n\r\n\xff").unwrap();
    assert_eq!(binary.body(), b"\xff");
    assert_eq!(
        binary.body_text().unwrap_err().err_msg(),
        "stream did not contain valid UTF-8"
    );
}
