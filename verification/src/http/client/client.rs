//! HTTP client: what to send for a request.
//!
//! The client composes the bytes of a request and says where they go. To
//! connect, to send them and to read the answer is left to the caller.

use std::sync::Arc;
use vstd::prelude::*;
use vstd::utf8::encode_utf8;
use crate::dict::{cut, put, Dict};
use crate::error::Fail;
use crate::text::str_eq;
use crate::http::client::request::{
    content_length_line, end_headers, header_line, main_header, send_content_length, send_header,
    send_main_header,
};
use crate::http::client::response::pairs_view;
use crate::http::client::url::{url_of, Url, UrlView};
use crate::http::common::HttpMethod;
use crate::http::server::tls::{choose_provider, installed_provider, ring_provider};

verus! {

/// The client configuration of `rustls`. Nothing is known of what it holds.
#[verifier::external_type_specification]
#[verifier::external_body]
pub struct ExClientConfig(rustls::ClientConfig);

/// A client session of `rustls`. Nothing is known of what it holds.
#[verifier::external_type_specification]
#[verifier::external_body]
pub struct ExClientConnection(rustls::ClientConnection);

/// Wraps the builder of `rustls::ClientConfig` in its form that reports
/// every refusal as an error: the given provider, the default protocol
/// versions, the root certificates of `webpki_roots` and no client
/// authentication. Nothing is promised of the result.
#[verifier::external_body]
fn default_config(provider: Arc<rustls::crypto::CryptoProvider>) -> (r: Result<
    Arc<rustls::ClientConfig>,
    rustls::Error,
>) {
    let roots = rustls::RootCertStore { roots: webpki_roots::TLS_SERVER_ROOTS.into() };
    let versions = rustls::ClientConfig::builder_with_provider(provider).with_safe_default_protocol_versions()?;
    Ok(Arc::new(versions.with_root_certificates(roots).with_no_client_auth()))
}

/// Wraps `rustls::ClientConnection::new`, which sets up the state of a TLS
/// session with the named server and does no I/O: the session, or nothing
/// where the name is no server name or the library refuses.
#[verifier::external_body]
fn new_session(config: Arc<rustls::ClientConfig>, server_name: &str) -> (r: Option<
    rustls::ClientConnection,
>) {
    let name = rustls_pki_types::ServerName::try_from(server_name.to_string()).ok()?;
    rustls::ClientConnection::new(config, name).ok()
}

/// The headers without those of the given name.
pub open spec fn without_name(pairs: Seq<(Seq<char>, Seq<char>)>, name: Seq<char>) -> Seq<
    (Seq<char>, Seq<char>),
>
    decreases pairs.len(),
{
    if pairs.len() == 0 {
        Seq::empty()
    } else if pairs.last().0 == name {
        without_name(pairs.drop_last(), name)
    } else {
        without_name(pairs.drop_last(), name).push(pairs.last())
    }
}

/// The headers on the wire, one line each.
pub open spec fn header_lines(pairs: Seq<(Seq<char>, Seq<char>)>) -> Seq<u8>
    decreases pairs.len(),
{
    if pairs.len() == 0 {
        Seq::empty()
    } else {
        header_lines(pairs.drop_last()) + header_line(pairs.last().0, pairs.last().1)
    }
}

/// A request on the wire: the request line with the query and the `Host`
/// header; with a body its length; the client's headers; a blank line; and
/// the body.
pub open spec fn request_bytes(
    method: HttpMethod,
    url: UrlView,
    query: Seq<(Seq<char>, Seq<char>)>,
    headers: Seq<(Seq<char>, Seq<char>)>,
    body: Option<Seq<u8>>,
) -> Seq<u8> {
    main_header(method, url.path, url.server_name, query) + match body {
        Some(b) => content_length_line(b.len()) + header_lines(headers) + encode_utf8("\r\n"@)
            + b,
        None => header_lines(headers) + encode_utf8("\r\n"@),
    }
}

/// A client as mathematical values: its headers and its query parameters.
pub struct ClientView {
    pub headers: Seq<(Seq<char>, Seq<char>)>,
    pub query: Seq<(Seq<char>, Seq<char>)>,
}

/// An HTTP client: headers and query parameters that go with every request,
/// and the TLS configuration for secure urls. A client whose configuration
/// the TLS library refused to build has none, and fails on secure urls.
#[derive(Debug)]
pub struct HttpClient {
    headers: Vec<(String, String)>,
    query: Dict<String>,
    config: Option<Arc<rustls::ClientConfig>>,
}

impl View for HttpClient {
    type V = ClientView;

    closed spec fn view(&self) -> ClientView {
        ClientView { headers: pairs_view(self.headers@), query: self.query.entries() }
    }
}

/// The headers without those of the given name.
fn drop_name(headers: &Vec<(String, String)>, name: &str) -> (r: Vec<(String, String)>)
    ensures
        pairs_view(r@) == without_name(pairs_view(headers@), name@),
{
    let ghost all = pairs_view(headers@);
    let mut out: Vec<(String, String)> = Vec::new();
    let mut i: usize = 0;
    assert(all.take(0) =~= Seq::<(Seq<char>, Seq<char>)>::empty());
    assert(pairs_view(out@) =~= Seq::<(Seq<char>, Seq<char>)>::empty());
    while i < headers.len()
        invariant
            i <= headers.len(),
            all == pairs_view(headers@),
            pairs_view(out@) == without_name(all.take(i as int), name@),
        decreases headers.len() - i,
    {
        proof {
            assert(all.take(i + 1).drop_last() =~= all.take(i as int));
            assert(all.take(i + 1).last() == (headers@[i as int].0@, headers@[i as int].1@));
        }
        if !str_eq(headers[i].0.as_str(), name) {
            let ghost before = pairs_view(out@);
            let k = headers[i].0.clone();
            let v = headers[i].1.clone();
            out.push((k, v));
            assert(pairs_view(out@) =~= before.push((k@, v@)));
        }
        i += 1;
    }
    assert(all.take(i as int) =~= all);
    out
}

impl Default for HttpClient {
    fn default() -> (r: Self)
        ensures
            r@.headers == Seq::<(Seq<char>, Seq<char>)>::empty(),
            r@.query == Seq::<(Seq<char>, Seq<char>)>::empty(),
    {
        Self::new()
    }
}

impl HttpClient {
    /// A client without headers and query parameters.
    pub fn new() -> (r: Self)
        ensures
            r@.headers == Seq::<(Seq<char>, Seq<char>)>::empty(),
            r@.query == Seq::<(Seq<char>, Seq<char>)>::empty(),
    {
        let headers: Vec<(String, String)> = Vec::new();
        assert(pairs_view(headers@) =~= Seq::<(Seq<char>, Seq<char>)>::empty());
        let provider = choose_provider(installed_provider(), ring_provider());
        let config = match default_config(provider) {
            Ok(config) => Some(config),
            Err(_) => None,
        };
        Self { headers, query: Dict::new(), config }
    }

    /// Adds a header; headers of the same name stay.
    pub fn with_header(self, name: &str, value: &str) -> (r: Self)
        ensures
            r@.headers == self@.headers.push((name@, value@)),
            r@.query == self@.query,
            r.tls_config() == self.tls_config(),
    {
        let mut headers = self.headers;
        let ghost before = pairs_view(headers@);
        headers.push((name.to_owned(), value.to_owned()));
        assert(pairs_view(headers@) =~= before.push((name@, value@)));
        Self { headers, query: self.query, config: self.config }
    }

    /// Sets a header in place of all headers of the same name.
    pub fn set_header(&mut self, name: &str, value: &str)
        ensures
            final(self)@.headers == without_name(old(self)@.headers, name@).push((name@, value@)),
            final(self)@.query == old(self)@.query,
            final(self).tls_config() == old(self).tls_config(),
    {
        let mut headers = drop_name(&self.headers, name);
        let ghost before = pairs_view(headers@);
        headers.push((name.to_owned(), value.to_owned()));
        assert(pairs_view(headers@) =~= before.push((name@, value@)));
        self.headers = headers;
    }

    /// Removes all headers of the given name.
    pub fn remove_header(&mut self, name: &str)
        ensures
            final(self)@.headers == without_name(old(self)@.headers, name@),
            final(self)@.query == old(self)@.query,
            final(self).tls_config() == old(self).tls_config(),
    {
        let headers = drop_name(&self.headers, name);
        self.headers = headers;
    }

    /// The headers.
    pub fn headers(&self) -> (r: &Vec<(String, String)>)
        ensures
            pairs_view(r@) == self@.headers,
    {
        &self.headers
    }

    /// Sets a query parameter.
    pub fn with_query(self, name: &str, value: &str) -> (r: Self)
        ensures
            r@.headers == self@.headers,
            r@.query == put(self@.query, name@, value@),
            r.tls_config() == self.tls_config(),
    {
        let mut query = self.query;
        query.insert(name.to_owned(), value.to_owned());
        Self { headers: self.headers, query, config: self.config }
    }

    /// Removes a query parameter.
    pub fn remove_query(&mut self, name: &str)
        ensures
            final(self)@.headers == old(self)@.headers,
            final(self)@.query == cut(old(self)@.query, name@),
            final(self).tls_config() == old(self).tls_config(),
    {
        self.query.remove(name);
    }

    /// The query parameters.
    pub fn query(&self) -> (r: &Dict<String>)
        ensures
            r.entries() == self@.query,
    {
        &self.query
    }

    /// The TLS configuration that the client was made with, if the TLS
    /// library has built one. Headers and query parameters can change; the
    /// configuration stays.
    pub closed spec fn tls_config(&self) -> Option<Arc<rustls::ClientConfig>> {
        self.config
    }

    /// The TLS configuration.
    pub fn config(&self) -> (r: &Option<Arc<rustls::ClientConfig>>)
        ensures
            *r == self.tls_config(),
    {
        &self.config
    }

    /// The TLS session for a url: none for a plain url; for a secure one the
    /// session, or a failure where it cannot be set up.
    pub fn session(&self, url: &Url) -> (r: Result<Option<rustls::ClientConnection>, Box<Fail>>)
        ensures
            !url.secure ==> r == Ok::<Option<rustls::ClientConnection>, Box<Fail>>(None),
            url.secure ==> match r {
                Ok(s) => s is Some && self.tls_config() is Some,
                Err(fail) => fail.0@ == "could not initialize client connection"@,
            },
    {
        if url.secure {
            match &self.config {
                Some(config) => match new_session(config.clone(), url.server_name.as_str()) {
                    Some(session) => Ok(Some(session)),
                    None => Fail::from("could not initialize client connection"),
                },
                None => Fail::from("could not initialize client connection"),
            }
        } else {
            Ok(None)
        }
    }

    /// Writes the client's headers and the blank line after them.
    pub fn send_headers(&self, stream: &mut Vec<u8>)
        ensures
            final(stream)@ == old(stream)@ + header_lines(self@.headers) + encode_utf8("\r\n"@),
    {
        let ghost start = stream@;
        let ghost all = pairs_view(self.headers@);
        let mut i: usize = 0;
        assert(all.take(0) =~= Seq::<(Seq<char>, Seq<char>)>::empty());
        assert(stream@ =~= start + header_lines(all.take(0)));
        while i < self.headers.len()
            invariant
                i <= self.headers.len(),
                all == pairs_view(self.headers@),
                stream@ == start + header_lines(all.take(i as int)),
            decreases self.headers.len() - i,
        {
            proof {
                assert(all.take(i + 1).drop_last() =~= all.take(i as int));
                assert(all.take(i + 1).last() == (
                    self.headers@[i as int].0@,
                    self.headers@[i as int].1@,
                ));
            }
            send_header(stream, self.headers[i].0.as_str(), self.headers[i].1.as_str());
            assert(stream@ =~= start + header_lines(all.take(i + 1)));
            i += 1;
        }
        assert(all.take(i as int) =~= all);
        end_headers(stream);
        assert(stream@ =~= start + header_lines(all) + encode_utf8("\r\n"@));
    }

    /// The url to connect to and the bytes to send for a request.
    pub fn request(&self, method: HttpMethod, url: &str, body: Option<&[u8]>) -> (r: Result<
        (Url, Vec<u8>),
        Box<Fail>,
    >)
        ensures
            match r {
                Ok(sent) => url_of(url@) == Some(sent.0@) && sent.1@ == request_bytes(
                    method,
                    sent.0@,
                    self@.query,
                    self@.headers,
                    match body {
                        Some(b) => Some(b@),
                        None => None,
                    },
                ),
                Err(fail) => url_of(url@) is None && fail.0@ == "invalid url: protocol missing"@,
            },
    {
        let target = match Url::try_from(url) {
            Ok(target) => target,
            Err(fail) => {
                return Err(fail);
            },
        };
        let mut stream: Vec<u8> = Vec::new();
        send_main_header(&mut stream, method, &target, &self.query);
        match body {
            Some(b) => {
                send_content_length(&mut stream, b);
                self.send_headers(&mut stream);
                stream.extend_from_slice(b);
                assert(stream@ =~= request_bytes(
                    method,
                    target@,
                    self@.query,
                    self@.headers,
                    Some(b@),
                ));
            },
            None => {
                self.send_headers(&mut stream);
                assert(stream@ =~= request_bytes(
                    method,
                    target@,
                    self@.query,
                    self@.headers,
                    None,
                ));
            },
        }
        Ok((target, stream))
    }

    /// A GET request.
    pub fn get(&self, url: &str) -> (r: Result<(Url, Vec<u8>), Box<Fail>>)
        ensures
            match r {
                Ok(sent) => url_of(url@) == Some(sent.0@) && sent.1@ == request_bytes(
                    HttpMethod::Get,
                    sent.0@,
                    self@.query,
                    self@.headers,
                    None,
                ),
                Err(_) => url_of(url@) is None,
            },
    {
        self.request(HttpMethod::Get, url, None)
    }

    /// A request that carries `body`. It is sent with the method GET.
    pub fn post(&self, url: &str, body: &[u8]) -> (r: Result<(Url, Vec<u8>), Box<Fail>>)
        ensures
            match r {
                Ok(sent) => url_of(url@) == Some(sent.0@) && sent.1@ == request_bytes(
                    HttpMethod::Get,
                    sent.0@,
                    self@.query,
                    self@.headers,
                    Some(body@),
                ),
                Err(_) => url_of(url@) is None,
            },
    {
        self.request(HttpMethod::Get, url, Some(body))
    }

    /// A PUT request.
    pub fn put(&self, url: &str, body: &[u8]) -> (r: Result<(Url, Vec<u8>), Box<Fail>>)
        ensures
            match r {
                Ok(sent) => url_of(url@) == Some(sent.0@) && sent.1@ == request_bytes(
                    HttpMethod::Put,
                    sent.0@,
                    self@.query,
                    self@.headers,
                    Some(body@),
                ),
                Err(_) => url_of(url@) is None,
            },
    {
        self.request(HttpMethod::Put, url, Some(body))
    }

    /// A request that changes a part of a resource. It is sent with the
    /// method PUT.
    pub fn patch(&self, url: &str, body: &[u8]) -> (r: Result<(Url, Vec<u8>), Box<Fail>>)
        ensures
            match r {
                Ok(sent) => url_of(url@) == Some(sent.0@) && sent.1@ == request_bytes(
                    HttpMethod::Put,
                    sent.0@,
                    self@.query,
                    self@.headers,
                    Some(body@),
                ),
                Err(_) => url_of(url@) is None,
            },
    {
        self.request(HttpMethod::Put, url, Some(body))
    }

    /// A HEAD request.
    pub fn head(&self, url: &str) -> (r: Result<(Url, Vec<u8>), Box<Fail>>)
        ensures
            match r {
                Ok(sent) => url_of(url@) == Some(sent.0@) && sent.1@ == request_bytes(
                    HttpMethod::Head,
                    sent.0@,
                    self@.query,
                    self@.headers,
                    None,
                ),
                Err(_) => url_of(url@) is None,
            },
    {
        self.request(HttpMethod::Head, url, None)
    }

    /// An OPTIONS request.
    pub fn options(&self, url: &str) -> (r: Result<(Url, Vec<u8>), Box<Fail>>)
        ensures
            match r {
                Ok(sent) => url_of(url@) == Some(sent.0@) && sent.1@ == request_bytes(
                    HttpMethod::Options,
                    sent.0@,
                    self@.query,
                    self@.headers,
                    None,
                ),
                Err(_) => url_of(url@) is None,
            },
    {
        self.request(HttpMethod::Options, url, None)
    }

    /// A DELETE request.
    pub fn delete(&self, url: &str) -> (r: Result<(Url, Vec<u8>), Box<Fail>>)
        ensures
            match r {
                Ok(sent) => url_of(url@) == Some(sent.0@) && sent.1@ == request_bytes(
                    HttpMethod::Delete,
                    sent.0@,
                    self@.query,
                    self@.headers,
                    None,
                ),
                Err(_) => url_of(url@) is None,
            },
    {
        self.request(HttpMethod::Delete, url, None)
    }

    /// A TRACE request.
    pub fn trace(&self, url: &str) -> (r: Result<(Url, Vec<u8>), Box<Fail>>)
        ensures
            match r {
                Ok(sent) => url_of(url@) == Some(sent.0@) && sent.1@ == request_bytes(
                    HttpMethod::Trace,
                    sent.0@,
                    self@.query,
                    self@.headers,
                    None,
                ),
                Err(_) => url_of(url@) is None,
            },
    {
        self.request(HttpMethod::Trace, url, None)
    }
}

} // verus!
