//! Builder for a server.

use vstd::prelude::*;
use vstd::utf8::encode_utf8;
use crate::error::Fail;
use crate::http::server::dispatch::{dispatch_of, worker_plan, WorkerPlan};
use crate::http::server::response::{respond, response_bytes, ResponseData};
use crate::http::server::settings::HttpSettings;
use crate::http::server::tls::TlsConfig;

verus! {

/// The error handler of a server that was given none: the message as plain
/// text, with the status `500 Internal Server Error`.
pub fn default_error_handler(err: Box<Fail>) -> (r: Vec<u8>)
    ensures
        r@ == response_bytes(
            encode_utf8(err.0@),
            "text/plain"@,
            "500 Internal Server Error"@,
            Seq::empty(),
        ),
{
    respond(
        err.err_msg().as_bytes(),
        "text/plain",
        ResponseData::internal_server_error().build(),
    )
}

/// Builder for a server: where it listens, its settings and its TLS
/// configuration. The handlers are given when the server is started.
#[derive(Debug)]
pub struct HttpServerBuilder {
    addr: String,
    settings: HttpSettings,
    tls_config: Option<TlsConfig>,
}

impl HttpServerBuilder {
    /// The address to listen on.
    pub closed spec fn spec_addr(&self) -> Seq<char> {
        self.addr@
    }

    /// The settings.
    pub closed spec fn spec_settings(&self) -> HttpSettings {
        self.settings
    }

    /// The TLS configuration, if TLS is on.
    pub closed spec fn spec_tls(&self) -> Option<TlsConfig> {
        self.tls_config
    }

    /// Create new HttpServerBuilder with defaults: the address
    /// `localhost:8080`, the default settings for `processors` processors
    /// and no TLS.
    pub fn new(processors: usize) -> (r: Self)
        ensures
            r.spec_addr() == "localhost:8080"@,
            r.spec_settings() == HttpSettings::defaults(processors),
            r.spec_tls() is None,
    {
        Self {
            addr: "localhost:8080".to_owned(),
            settings: HttpSettings::new(processors),
            tls_config: None,
        }
    }

    /// Set TcpListener address.
    pub fn addr(self, addr: &str) -> (r: Self)
        ensures
            r.spec_addr() == addr@,
            r.spec_settings() == self.spec_settings(),
            r.spec_tls() == self.spec_tls(),
    {
        Self { addr: addr.to_owned(), settings: self.settings, tls_config: self.tls_config }
    }

    /// Set HttpSettings.
    pub fn settings(self, settings: HttpSettings) -> (r: Self)
        ensures
            r.spec_addr() == self.spec_addr(),
            r.spec_settings() == settings,
            r.spec_tls() == self.spec_tls(),
    {
        Self { addr: self.addr, settings, tls_config: self.tls_config }
    }

    /// Set TLS configuration: TLS is on with a configuration and off
    /// without one.
    pub fn tls(self, tls_config: Option<TlsConfig>) -> (r: Self)
        ensures
            r.spec_addr() == self.spec_addr(),
            r.spec_settings() == self.spec_settings(),
            r.spec_tls() == tls_config,
    {
        Self { addr: self.addr, settings: self.settings, tls_config }
    }

    /// Set TLS configuration and enable TLS.
    pub fn tls_on(self, tls_config: TlsConfig) -> (r: Self)
        ensures
            r.spec_addr() == self.spec_addr(),
            r.spec_settings() == self.spec_settings(),
            r.spec_tls() == Some(tls_config),
    {
        self.tls(Some(tls_config))
    }

    /// Remove TLS configuration and disable TLS.
    pub fn tls_off(self) -> (r: Self)
        ensures
            r.spec_addr() == self.spec_addr(),
            r.spec_settings() == self.spec_settings(),
            r.spec_tls() is None,
    {
        self.tls(None)
    }

    /// The address to listen on.
    pub fn address(&self) -> (r: &str)
        ensures
            r@ == self.spec_addr(),
    {
        self.addr.as_str()
    }

    /// The settings.
    pub fn http_settings(&self) -> (r: &HttpSettings)
        ensures
            *r == self.spec_settings(),
    {
        &self.settings
    }

    /// The TLS configuration, if TLS is on.
    pub fn tls_config(&self) -> (r: &Option<TlsConfig>)
        ensures
            *r == self.spec_tls(),
    {
        &self.tls_config
    }

    /// How the accept loops of the server are to be started.
    pub fn build(&self) -> (r: WorkerPlan)
        ensures
            r.loops == self.spec_settings().threads.count(),
            r.dispatch == dispatch_of(self.spec_settings().threads),
            r.restart == (self.spec_settings().threads is CONSTANT),
    {
        worker_plan(self.settings.threads)
    }
}

} // verus!
