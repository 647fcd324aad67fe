use kern::http::client::url::{to_hex, url_encode, Url};

#[test]
fn test_url_encode() {
    assert_eq!(
        "%20%21%22%23%24%25%26%27%28%29%2A%2B%2C-.%2F%3A%3B%3C%3D%3E%3F%40%5B%5C%5D%7B%7C%7D",
        url_encode(" !\"#$%&'()*+,-./:;<=>?@[\\]{|}", false)
    );
    assert_eq!(
        "%20%21%22%23%24%25%26%27%28%29%2A%2B%2C-./%3A%3B%3C%3D%3E%3F%40%5B%5C%5D%7B%7C%7D",
        url_encode(" !\"#$%&'()*+,-./:;<=>?@[\\]{|}", true)
    );
}

#[test]
fn url_encode_multibyte() {
    assert_eq!(url_encode("ä€😀", false), "%C3%A4%E2%82%AC%F0%9F%98%80");
    assert_eq!(url_encode("", false), "");
    assert_eq!(url_encode("aZ09-._~", false), "aZ09-._~");
}

#[test]
fn hex_digits() {
    let digits: Vec<char> = (0u8..16).map(to_hex).collect();
    let text: String = digits.into_iter().collect();
    assert_eq!(text, "0123456789ABCDEF");
}

#[test]
fn url_parts() {
    let url = Url::try_from("https://example.org/a/b?c").unwrap();
    assert_eq!(url.secure, true);
    assert_eq!(url.addr, "example.org:443");
    assert_eq!(url.server_name, "example.org");
    assert_eq!(url.path, "a/b?c");

    let url = Url::try_from("http://example.org").unwrap();
    assert_eq!(url.secure, false);
    assert_eq!(url.addr, "example.org:80");
    assert_eq!(url.server_name, "example.org");
    assert_eq!(url.path, "");

    let url = Url::try_from("http://localhost:8080/x").unwrap();
    assert_eq!(url.addr, "localhost:8080");
    assert_eq!(url.server_name, "localhost");
    assert_eq!(url.path, "x");
}

#[test]
fn url_without_scheme() {
    let err = Url::try_from("ftp://example.org").unwrap_err();
    assert_eq!(err.err_msg(), "invalid url: protocol missing");
    assert!(Url::try_from("example.org").is_err());
    assert!(Url::try_from("").is_err());
}
