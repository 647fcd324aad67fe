use kern::http::server::request::{
    body_length, boundary_in, client_ip, field_name, field_value_of, name_in, parse_headers,
    parse_parameters, parse_post, parse_post_upload, parse_request_line, parse_section,
};
use kern::http::server::{HttpError, HttpMethod, HttpRequest, HttpSettings};
use kern::Dict;

fn chars(s: &str) -> Vec<char> {
    s.chars().collect()
}

fn text(v: &[char]) -> String {
    v.iter().collect()
}

fn settings() -> HttpSettings {
    HttpSettings::new(1)
}

fn parse(header: &str, body: &[u8]) -> Result<HttpRequest, HttpError> {
    HttpRequest::from(header, body.to_vec(), "10.0.0.7", false, &settings())
}

fn error_of(header: &str, body: &[u8]) -> HttpError {
    match parse(header, body) {
        Ok(_) => panic!("request was accepted"),
        Err(e) => e,
    }
}

#[test]
fn request_line_path_and_query() {
    let req = parse("GET /a/b?x=1&y=2 HTTP/1.1\r\nHost: h\r\n\r\n", b"").unwrap();
    assert_eq!(req.method(), &HttpMethod::Get);
    assert_eq!(req.url(), "/a/b");
    assert_eq!(req.get().len(), 2);
    assert_eq!(req.get().get("x").unwrap(), "1");
    assert_eq!(req.get().get("y").unwrap(), "2");
    assert_eq!(req.headers().len(), 1);
    assert_eq!(req.headers().get("host").unwrap(), "h");
    assert_eq!(req.body(), b"");
    assert_eq!(req.ip(), "10.0.0.7");
}

#[test]
fn method_defaults_to_get() {
    assert_eq!(parse("POST / HTTP/1.1\r\n\r\n", b"").unwrap().method(), &HttpMethod::Post);
    assert_eq!(parse("PUT / HTTP/1.1\r\n\r\n", b"").unwrap().method(), &HttpMethod::Get);
    assert_eq!(parse("post / HTTP/1.1\r\n\r\n", b"").unwrap().method(), &HttpMethod::Get);
    assert_eq!(parse("", b"").unwrap().method(), &HttpMethod::Get);
}

#[test]
fn path_defaults_to_root() {
    assert_eq!(parse("GET\r\n\r\n", b"").unwrap().url(), "/");
    assert_eq!(parse("", b"").unwrap().url(), "/");
    assert_eq!(parse("GET /only?a?b HTTP/1.1\r\n\r\n", b"").unwrap().url(), "/only");
    let req = parse("GET /only?a?b HTTP/1.1\r\n\r\n", b"").unwrap();
    assert_eq!(req.get().get("a?b").unwrap(), "");
}

#[test]
fn request_line_parts() {
    let (method, path, query) = parse_request_line(&chars("POST /p?q=1 HTTP/1.1"));
    assert_eq!(method, HttpMethod::Post);
    assert_eq!(text(&path), "/p");
    assert_eq!(text(&query), "q=1");
    let (method, path, query) = parse_request_line(&chars(""));
    assert_eq!(method, HttpMethod::Get);
    assert_eq!(text(&path), "/");
    assert_eq!(text(&query), "");
}

#[test]
fn header_keys_lowercased_values_trimmed() {
    let req = parse(
        "GET / HTTP/1.1\r\n  Content-TYPE :  text/plain  \r\nX-Äb: ü:z\r\nno colon here\r\n\r\n",
        b"",
    )
    .unwrap();
    assert_eq!(req.headers().len(), 2);
    assert_eq!(req.headers().get("content-type").unwrap(), "text/plain");
    assert_eq!(req.headers().get("x-äb").unwrap(), "ü:z");
    assert!(req.headers().get("Content-TYPE").is_none());
}

#[test]
fn duplicate_header_last_wins() {
    let req = parse(
        "GET / HTTP/1.1\r\nX-A: first\r\nx-b: other\r\nx-a: second\r\nX-a: third\r\n\r\n",
        b"",
    )
    .unwrap();
    assert_eq!(req.headers().len(), 2);
    assert_eq!(req.headers().get("x-a").unwrap(), "third");
    assert_eq!(req.headers().get("x-b").unwrap(), "other");
    // the key keeps the place of its first occurrence
    assert_eq!(req.headers().key_at(0), "x-a");
    assert_eq!(req.headers().key_at(1), "x-b");
}

#[test]
fn headers_from_lines() {
    let lines: Vec<Vec<char>> = vec![chars("GET /"), chars("A: 1"), chars("b:2"), chars("a:3")];
    let headers = parse_headers(&lines);
    assert_eq!(headers.len(), 2);
    assert_eq!(headers.get("a").unwrap(), "3");
    assert_eq!(headers.get("b").unwrap(), "2");
    let none: Vec<Vec<char>> = Vec::new();
    assert_eq!(parse_headers(&none).len(), 0);
}

#[test]
fn parameters_trimmed_and_lowercased() {
    let params = parse_parameters(&chars(" A = 1 &b&c=&A=2=3"));
    assert_eq!(params.len(), 3);
    assert_eq!(params.get("a").unwrap(), "2=3");
    assert_eq!(params.get("b").unwrap(), "");
    assert_eq!(params.get("c").unwrap(), "");
}

#[test]
fn empty_parameters_have_one_empty_key() {
    let params = parse_parameters(&chars(""));
    assert_eq!(params.len(), 1);
    assert_eq!(params.get("").unwrap(), "");
}

#[test]
fn content_length_decides_body() {
    let req = parse("POST / HTTP/1.1\r\nContent-Length: 5\r\n\r\n", b"a=b&c").unwrap();
    assert_eq!(req.body(), b"a=b&c");
    assert_eq!(req.post().get("a").unwrap(), b"b");
    assert_eq!(req.post().get("c").unwrap(), b"");
    // without a declared length there is no body
    let req = parse("POST / HTTP/1.1\r\n\r\n", b"a=b&c").unwrap();
    assert_eq!(req.body(), b"");
    assert_eq!(req.post().len(), 1);
    assert_eq!(req.post().get("").unwrap(), b"");
    // what was read beyond the declared length stays in the body
    let req = parse("POST / HTTP/1.1\r\ncontent-length: 3\r\n\r\n", b"a=b&c").unwrap();
    assert_eq!(req.body(), b"a=b&c");
}

#[test]
fn content_length_errors() {
    assert_eq!(
        error_of("POST / HTTP/1.1\r\ncontent-length: five\r\n\r\n", b""),
        HttpError::BadContentLength
    );
    assert_eq!(
        error_of("POST / HTTP/1.1\r\ncontent-length: -1\r\n\r\n", b""),
        HttpError::BadContentLength
    );
    assert_eq!(
        error_of("POST / HTTP/1.1\r\ncontent-length:\r\n\r\n", b""),
        HttpError::BadContentLength
    );
    assert_eq!(
        error_of("POST / HTTP/1.1\r\ncontent-length: 99999999999999999999999999\r\n\r\n", b""),
        HttpError::BadContentLength
    );
    assert_eq!(
        error_of("POST / HTTP/1.1\r\ncontent-length: 10485761\r\n\r\n", b""),
        HttpError::BodyTooLarge
    );
    assert_eq!(
        error_of("POST / HTTP/1.1\r\ncontent-length: 10\r\n\r\n", b"short"),
        HttpError::BodyReadFailedTooOften
    );
}

#[test]
fn body_length_values() {
    let mut headers: Dict<String> = Dict::new();
    assert_eq!(body_length(&headers, &settings()), Ok(None));
    headers.insert("content-length".to_string(), "+42".to_string());
    assert_eq!(body_length(&headers, &settings()), Ok(Some(42)));
    headers.insert("content-length".to_string(), "10485760".to_string());
    assert_eq!(body_length(&headers, &settings()), Ok(Some(10485760)));
    headers.insert("content-length".to_string(), "0".to_string());
    assert_eq!(body_length(&headers, &settings()), Ok(Some(0)));
    headers.insert("content-length".to_string(), "4 2".to_string());
    assert_eq!(body_length(&headers, &settings()), Err(HttpError::BadContentLength));
}

#[test]
fn form_body_must_be_utf8() {
    assert_eq!(
        error_of("POST / HTTP/1.1\r\ncontent-length: 2\r\n\r\n", &[0xff, 0xfe]),
        HttpError::InvalidFormEncoding
    );
    assert_eq!(
        error_of(
            "POST / HTTP/1.1\r\ncontent-type: text/plain\r\ncontent-length: 1\r\n\r\n",
            &[0x80]
        ),
        HttpError::InvalidFormEncoding
    );
}

#[test]
fn real_ip_only_from_loopback() {
    let header = "GET / HTTP/1.1\r\nX-Real-IP: 9.9.9.9\r\n\r\n";
    let s = settings();
    let req = HttpRequest::from(header, Vec::new(), "127.0.0.1", true, &s).unwrap();
    assert_eq!(req.ip(), "9.9.9.9");
    let req = HttpRequest::from(header, Vec::new(), "203.0.113.5", false, &s).unwrap();
    assert_eq!(req.ip(), "203.0.113.5");
    let bare = "GET / HTTP/1.1\r\n\r\n";
    let req = HttpRequest::from(bare, Vec::new(), "127.0.0.1", true, &s).unwrap();
    assert_eq!(req.ip(), "127.0.0.1");
    let req = HttpRequest::from(bare, Vec::new(), "203.0.113.5", false, &s).unwrap();
    assert_eq!(req.ip(), "203.0.113.5");
}

#[test]
fn client_ip_rule() {
    let mut headers: Dict<String> = Dict::new();
    assert_eq!(client_ip(&headers, "::1", true), "::1");
    headers.insert("x-real-ip".to_string(), "9.9.9.9".to_string());
    assert_eq!(client_ip(&headers, "::1", true), "9.9.9.9");
    assert_eq!(client_ip(&headers, "8.8.8.8", false), "8.8.8.8");
}

fn multipart_body() -> Vec<u8> {
    let mut body = Vec::new();
    body.extend_from_slice(b"preamble is dropped\r\n");
    body.extend_from_slice(b"--B\r\n");
    body.extend_from_slice(b"Content-Disposition: form-data; name=\"Title\"\r\n\r\n");
    body.extend_from_slice(b"hello\r\n");
    body.extend_from_slice(b"--B\r\n");
    body.extend_from_slice(
        b"Content-Disposition: form-data; name=\"file\"; filename=\"a.bin\"\r\nContent-Type: application/octet-stream\r\n\r\n",
    );
    body.extend_from_slice(&[0, 1, 13, 10, 255, 2]);
    body.extend_from_slice(b"\r\n--B--\r\n");
    body
}

#[test]
fn multipart_two_fields() {
    let fields = parse_post_upload(&multipart_body(), "B").unwrap();
    assert_eq!(fields.len(), 2);
    assert_eq!(fields.key_at(0), "title");
    assert_eq!(fields.key_at(1), "file");
    // the line break that ends the value's line is no part of the value
    assert_eq!(fields.get("title").unwrap(), b"hello");
    assert_eq!(fields.get("file").unwrap(), &vec![0u8, 1, 13, 10, 255, 2]);
    assert!(fields.get("Title").is_none());
}

#[test]
fn multipart_through_request() {
    let body = multipart_body();
    let header = format!(
        "POST /up HTTP/1.1\r\nContent-Type: multipart/form-data; boundary=B\r\nContent-Length: {}\r\n\r\n",
        body.len()
    );
    let req = parse(&header, &body).unwrap();
    assert_eq!(req.post().len(), 2);
    assert_eq!(req.post().get("file").unwrap(), &vec![0u8, 1, 13, 10, 255, 2]);
    let lossy = req.post_utf8();
    assert_eq!(lossy.get("title").unwrap(), "hello");
    assert_eq!(lossy.get("file").unwrap(), "\u{0}\u{1}\r\n\u{fffd}\u{2}");
}

#[test]
fn multipart_errors() {
    let body = multipart_body();
    let header = format!(
        "POST /up HTTP/1.1\r\nContent-Type: multipart/form-data\r\nContent-Length: {}\r\n\r\n",
        body.len()
    );
    assert_eq!(error_of(&header, &body), HttpError::MissingBoundary);
    assert_eq!(
        parse_post_upload(b"--B\r\nContent-Disposition: form-data\r\n\r\nx", "B").err(),
        Some(HttpError::MissingFieldName)
    );
    assert_eq!(
        parse_post_upload(b"--B\r\nContent-Disposition: form-data; name=\"a\"\r\n", "B").err(),
        Some(HttpError::MalformedSection)
    );
    assert_eq!(
        parse_post_upload(b"--B\r\nname=\"\r\n\r\nx", "B").err(),
        Some(HttpError::MissingFieldName)
    );
    // the first broken section decides
    assert_eq!(
        parse_post_upload(b"--B\r\nname=\"a\"\r\n--B\r\nx\r\n\r\ny", "B").err(),
        Some(HttpError::MalformedSection)
    );
    // without an opening line there is no section
    assert_eq!(parse_post_upload(b"nothing", "B").unwrap().len(), 0);
}

#[test]
fn section_closing_line_is_cut() {
    let field = parse_section(b"name=\"k\"\r\n\r\nvalue\r\n--B--\r\n", b"--B--\r\n").unwrap();
    assert_eq!(field.0, "k");
    assert_eq!(field.1, b"value");
    // a section that is nothing but the closing line does not underflow
    assert_eq!(
        parse_section(b"--B--\r\n", b"--B--\r\n").err(),
        Some(HttpError::MissingFieldName)
    );
    assert_eq!(
        parse_section(b"x--B--\r\n", b"--B--\r\n").err(),
        Some(HttpError::MissingFieldName)
    );
}

#[test]
fn field_value_rule() {
    assert_eq!(field_value_of(b"\r\nrest\r\nmore"), b"rest\r\nmore");
    assert_eq!(field_value_of(b"first\r\n"), b"first");
    assert_eq!(field_value_of(b"first"), b"first");
    assert_eq!(field_value_of(b"first\r\nrest"), b"first\r\nrest");
    assert_eq!(field_value_of(b""), b"");
}

#[test]
fn field_name_rule() {
    assert_eq!(field_name(b"form-data; name=\"AbC\""), Some("abc".to_string()));
    assert_eq!(field_name(b"form-data; NAME=\"a\""), None);
    assert_eq!(field_name(b"name=x"), None);
    assert_eq!(field_name(b"name=xy"), Some(String::new()));
    assert_eq!(field_name(b"name=x; name=\"second\""), Some("second".to_string()));
    // the value ends at the next `=`, and loses its first and last character
    assert_eq!(field_name(b"name=\"a=b\""), Some(String::new()));
    assert_eq!(field_name(b"name=\"ab\"=c"), Some("ab".to_string()));
}

#[test]
fn boundary_rule() {
    assert_eq!(
        boundary_in(&chars("multipart/form-data; boundary=xyz")).map(|b| text(&b)),
        Some("xyz".to_string())
    );
    assert_eq!(
        boundary_in(&chars("a;  boundary=x=y ; boundary=z")).map(|b| text(&b)),
        Some("x".to_string())
    );
    assert_eq!(boundary_in(&chars("multipart/form-data")).map(|b| text(&b)), None);
}

#[test]
fn content_type_decides_form() {
    let mut headers: Dict<String> = Dict::new();
    headers.insert(
        "content-type".to_string(),
        "application/x-www-form-urlencoded; boundary=B".to_string(),
    );
    let fields = parse_post(&headers, b"k=v").unwrap();
    assert_eq!(fields.get("k").unwrap(), b"v");
    headers.insert(
        "content-type".to_string(),
        " multipart/form-data ;boundary=B".to_string(),
    );
    let fields = parse_post(&headers, b"--B\r\nname=\"k\"\r\n\r\nv").unwrap();
    assert_eq!(fields.get("k").unwrap(), b"v");
    assert_eq!(fields.len(), 1);
}

#[test]
fn name_in_text() {
    assert_eq!(
        name_in(&chars("form-data; name=\"Field\"; filename=\"a\"")),
        Some("field".to_string())
    );
    assert_eq!(name_in(&chars(" name=\"a\" ")), Some("a".to_string()));
    assert_eq!(name_in(&chars("filename=\"a\"")), None);
    assert_eq!(name_in(&chars("")), None);
    assert_eq!(name_in(&chars("name=\"")), None);
    assert_eq!(name_in(&chars("name=\"; name='b'")), Some("b".to_string()));
}

#[test]
fn marker_text_inside_the_data_stays() {
    // only the closing line at the very end of the section is cut; the same
    // text at the end of the data is part of the value
    let body = b"--B\r\nname=\"k\"\r\n\r\nx\r\nfoo--B--\r\n\r\n--B--\r\n";
    let fields = parse_post_upload(body, "B").unwrap();
    assert_eq!(fields.len(), 1);
    assert_eq!(fields.get("k").unwrap(), b"x\r\nfoo--B--\r\n");
    let body = b"--B\r\nname=\"k\"\r\n\r\nx\r\nfoo\r\n--B--\r\n";
    let fields = parse_post_upload(body, "B").unwrap();
    assert_eq!(fields.get("k").unwrap(), b"x\r\nfoo");
}
