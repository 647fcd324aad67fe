use kern::http::server::response::set_content_length;
use kern::http::server::{redirect, respond, ResponseData};

#[test]
fn respond_declares_body_plus_line_break() {
    let bytes = respond(b"hi", "text/plain", None);
    let text = String::from_utf8(bytes).unwrap();
    assert_eq!(
        text,
        "HTTP/1.1 200 OK\r\nserver: ltheinrich.de/kern\r\ncontent-type: text/plain; charset=utf-8\r\ncontent-length: 4\r\n\r\nhi\r\n"
    );
    assert!(text.contains("\r\ncontent-length: 4\r\n"));
    assert!(text.ends_with("hi\r\n"));
}

#[test]
fn respond_with_status_and_headers_in_order() {
    let data = ResponseData::not_found()
        .header("x-b", "2")
        .header("x-a", "1")
        .header("x-b", "3")
        .build();
    let bytes = respond(b"", "text/html", data);
    assert_eq!(
        String::from_utf8(bytes).unwrap(),
        "HTTP/1.1 404 Not Found\r\nserver: ltheinrich.de/kern\r\ncontent-type: text/html; charset=utf-8\r\nx-b: 3\r\nx-a: 1\r\ncontent-length: 2\r\n\r\n\r\n"
    );
}

#[test]
fn respond_binary_body() {
    let body: Vec<u8> = (0u8..=255).collect();
    let bytes = respond(&body, "application/octet-stream", None);
    assert!(bytes.ends_with(&[254, 255, 13, 10]));
    let head = String::from_utf8_lossy(&bytes[..bytes.len() - 258]).to_string();
    assert!(head.ends_with("content-length: 258\r\n\r\n"));
}

#[test]
fn content_length_header_bytes() {
    assert_eq!(set_content_length(0), b"\r\ncontent-length: 2\r\n\r\n");
    assert_eq!(set_content_length(8), b"\r\ncontent-length: 10\r\n\r\n");
    assert_eq!(set_content_length(12343), b"\r\ncontent-length: 12345\r\n\r\n");
    assert_eq!(
        set_content_length(usize::MAX),
        format!("\r\ncontent-length: {}\r\n\r\n", usize::MAX as u128 + 2).as_bytes()
    );
}

#[test]
fn response_data_defaults_and_statuses() {
    let data = ResponseData::new();
    assert_eq!(data.status, "200 OK");
    assert_eq!(data.headers.len(), 0);
    assert_eq!(ResponseData::ok().status, "200 OK");
    assert_eq!(ResponseData::continue100().status, "100 Continue");
    assert_eq!(ResponseData::see_other().status, "303 See Other");
    assert_eq!(ResponseData::bad_request().status, "400 Bad Request");
    assert_eq!(ResponseData::im_a_teapot().status, "418 I'm a teapot");
    assert_eq!(
        ResponseData::internal_server_error().status,
        "500 Internal Server Error"
    );
    assert_eq!(
        ResponseData::network_authentication_required().status,
        "511 Network Authentication Required"
    );
    let custom = ResponseData::new().status("299 Custom").build().unwrap();
    assert_eq!(custom.status, "299 Custom");
}

#[test]
fn redirect_has_location_and_page() {
    let bytes = redirect("https://example.org/x");
    let text = String::from_utf8(bytes).unwrap();
    let page = "<html><head><title>Moved</title></head><body><h1>Moved</h1><p><a href=\"https://example.org/x\">https://example.org/x</a></p></body></html>";
    assert_eq!(
        text,
        format!(
            "HTTP/1.1 303 See Other\r\nserver: ltheinrich.de/kern\r\ncontent-type: text/html; charset=utf-8\r\nlocation: https://example.org/x\r\ncontent-length: {}\r\n\r\n{}\r\n",
            page.len() + 2,
            page
        )
    );
}

#[test]
fn body_follows_the_first_blank_line() {
    let data = ResponseData::created().header("x-a", "").header("", "v").build();
    let bytes = respond(b"\r\n\r\nbody\r\n\r\n", "text/plain", data);
    let at = bytes.windows(4).position(|w| w == b"\r\n\r\n").unwrap();
    assert_eq!(&bytes[at + 4..], b"\r\n\r\nbody\r\n\r\n\r\n");
    let head = String::from_utf8(bytes[..at].to_vec()).unwrap();
    assert!(head.ends_with("\r\ncontent-length: 14"));
    assert_eq!(bytes.len() - at - 4, 14);
}
