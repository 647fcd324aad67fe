//! TLS configuration from PEM-encoded material.

use std::sync::Arc;
use vstd::prelude::*;
use crate::seqs::views;
use crate::http::server::error::HttpError;

verus! {

/// The server configuration of `rustls`. Nothing is known of what it holds.
#[verifier::external_type_specification]
#[verifier::external_body]
pub struct ExServerConfig(rustls::ServerConfig);

/// A server session of `rustls`. Nothing is known of what it holds.
#[verifier::external_type_specification]
#[verifier::external_body]
pub struct ExServerConnection(rustls::ServerConnection);

/// The error type of `rustls`. Nothing is known of what it holds.
#[verifier::external_type_specification]
#[verifier::external_body]
pub struct ExTlsError(rustls::Error);

/// The cryptography provider of `rustls`. Nothing is known of what it
/// holds.
#[verifier::external_type_specification]
#[verifier::external_body]
pub struct ExCryptoProvider(rustls::crypto::CryptoProvider);

/// A TLS configuration that can be shared among connections.
pub type TlsConfig = Arc<rustls::ServerConfig>;

/// The encoding of a private key.
#[derive(Clone, Copy, Debug, PartialEq, Eq, Structural)]
pub enum KeyKind {
    Pkcs1,
    Pkcs8,
    Sec1,
}

/// A private key: its encoding and its DER bytes.
#[derive(Debug)]
pub struct PrivateKey {
    pub kind: KeyKind,
    pub der: Vec<u8>,
}

/// The first section that a PEM text holds.
#[derive(Debug)]
pub enum FirstItem {
    /// A private key.
    Key(PrivateKey),
    /// A section that is no private key.
    Other,
    /// There is no section.
    Nothing,
    /// The text is malformed.
    Broken,
}

/// The first section of a PEM text, as mathematical values.
pub enum FirstItemView {
    Key(KeyKind, Seq<u8>),
    Other,
    Nothing,
    Broken,
}

impl View for FirstItem {
    type V = FirstItemView;

    open spec fn view(&self) -> FirstItemView {
        match self {
            FirstItem::Key(key) => FirstItemView::Key(key.kind, key.der@),
            FirstItem::Other => FirstItemView::Other,
            FirstItem::Nothing => FirstItemView::Nothing,
            FirstItem::Broken => FirstItemView::Broken,
        }
    }
}

/// The DER bytes of the certificates that `rustls_pemfile::certs` finds in a
/// PEM text, or nothing where it reports an error.
pub uninterp spec fn pem_certificates(raw: Seq<u8>) -> Option<Seq<Seq<u8>>>;

/// The first section that `rustls_pemfile::read_one` finds in a PEM text.
pub uninterp spec fn pem_first_item(raw: Seq<u8>) -> FirstItemView;

/// Wraps `rustls_pemfile::certs`, which reads every section of the text and
/// keeps the certificates: their DER bytes in order, or nothing where a
/// section is malformed.
#[verifier::external_body]
fn pem_certs(raw: &[u8]) -> (r: Option<Vec<Vec<u8>>>)
    ensures
        match r {
            Some(list) => pem_certificates(raw@) == Some(views(list@)),
            None => pem_certificates(raw@) is None,
        },
{
    let mut reader = raw;
    let found: Result<Vec<rustls_pki_types::CertificateDer<'static>>, std::io::Error> =
        rustls_pemfile::certs(&mut reader).collect();
    found.ok().map(|list| list.iter().map(|c| c.as_ref().to_vec()).collect())
}

/// Wraps `rustls_pemfile::read_one`, which reads the first section that it
/// knows the kind of: a private key with its encoding and DER bytes, another
/// section, none, or a malformed text.
#[verifier::external_body]
fn pem_first(raw: &[u8]) -> (r: FirstItem)
    ensures
        r@ == pem_first_item(raw@),
{
    let mut reader = raw;
    match rustls_pemfile::read_one(&mut reader) {
        Ok(Some(rustls_pemfile::Item::Pkcs1Key(k))) => FirstItem::Key(PrivateKey { kind: KeyKind::Pkcs1, der: k.secret_pkcs1_der().to_vec() }),
        Ok(Some(rustls_pemfile::Item::Pkcs8Key(k))) => FirstItem::Key(PrivateKey { kind: KeyKind::Pkcs8, der: k.secret_pkcs8_der().to_vec() }),
        Ok(Some(rustls_pemfile::Item::Sec1Key(k))) => FirstItem::Key(PrivateKey { kind: KeyKind::Sec1, der: k.secret_sec1_der().to_vec() }),
        Ok(Some(_)) => FirstItem::Other,
        Ok(None) => FirstItem::Nothing,
        Err(_) => FirstItem::Broken,
    }
}

/// What the TLS library blames when it refuses to build a configuration.
#[derive(Clone, Copy, Debug, PartialEq, Eq, Structural)]
pub enum BuildFailure {
    /// The certificate chain is empty or its first certificate is invalid.
    Certificate,
    /// Anything else: a key that cannot be loaded or does not belong to the
    /// certificate, or a provider without a usable cipher suite.
    Key,
}

/// Wraps `rustls::crypto::CryptoProvider::get_default`: the provider that
/// the process has installed, if it has installed one. That depends on what
/// the process did before, so nothing is promised of the result.
#[verifier::external_body]
pub(crate) fn installed_provider() -> (r: Option<Arc<rustls::crypto::CryptoProvider>>) {
    rustls::crypto::CryptoProvider::get_default().cloned()
}

/// Wraps `rustls::crypto::ring::default_provider`: the provider that is
/// built on *ring*. Nothing is promised of the result.
#[verifier::external_body]
pub(crate) fn ring_provider() -> (r: Arc<rustls::crypto::CryptoProvider>) {
    Arc::new(rustls::crypto::ring::default_provider())
}

/// Wraps the builder of `rustls::ServerConfig` in its form that reports
/// every refusal as an error: the given provider, the default protocol
/// versions, no client authentication and a single certificate chain with
/// its key. Whether provider and key are accepted is up to the library, so
/// nothing is promised of the result.
#[verifier::external_body]
fn build_config(
    provider: Arc<rustls::crypto::CryptoProvider>,
    certs: Vec<Vec<u8>>,
    key: PrivateKey,
) -> (r: Result<TlsConfig, rustls::Error>) {
    let chain = certs.into_iter().map(rustls_pki_types::CertificateDer::from).collect();
    let der = match key.kind {
        KeyKind::Pkcs1 => rustls_pki_types::PrivateKeyDer::Pkcs1(key.der.into()),
        KeyKind::Pkcs8 => rustls_pki_types::PrivateKeyDer::Pkcs8(key.der.into()),
        KeyKind::Sec1 => rustls_pki_types::PrivateKeyDer::Sec1(key.der.into()),
    };
    let versions = rustls::ServerConfig::builder_with_provider(provider).with_safe_default_protocol_versions()?;
    versions.with_no_client_auth().with_single_cert(chain, der).map(Arc::new)
}

/// Tells the variants of `rustls::Error` apart: an invalid certificate and
/// an empty chain are blamed on the certificate, every other error on the
/// key. Nothing is promised of the result.
#[verifier::external_body]
fn failure_of(error: rustls::Error) -> (r: BuildFailure) {
    match error {
        rustls::Error::InvalidCertificate(_) => BuildFailure::Certificate,
        rustls::Error::NoCertificatesPresented => BuildFailure::Certificate,
        _ => BuildFailure::Key,
    }
}

/// Wraps `rustls::ServerConnection::new`, which sets up the state of a TLS
/// session and does no I/O. Nothing is promised of the result.
#[verifier::external_body]
fn new_session(config: TlsConfig) -> (r: Result<rustls::ServerConnection, rustls::Error>) {
    rustls::ServerConnection::new(config)
}

/// Whether a PEM text holds what a certificate chain needs: it is well
/// formed and there is at least one certificate in it.
pub open spec fn has_certificates(raw_cert: Seq<u8>) -> bool {
    match pem_certificates(raw_cert) {
        Some(list) => list.len() > 0,
        None => false,
    }
}

/// Whether a PEM text begins with a private key in PKCS1, PKCS8 or SEC1
/// encoding.
pub open spec fn has_private_key(raw_key: Seq<u8>) -> bool {
    pem_first_item(raw_key) is Key
}

/// The certificates of a PEM text.
pub fn read_certificates(raw_cert: &[u8]) -> (r: Result<Vec<Vec<u8>>, HttpError>)
    ensures
        match r {
            Ok(list) => has_certificates(raw_cert@) && pem_certificates(raw_cert@) == Some(
                views(list@),
            ),
            Err(e) => !has_certificates(raw_cert@) && e == HttpError::BrokenCertificate,
        },
{
    match pem_certs(raw_cert) {
        Some(list) => {
            if list.len() == 0 {
                Err(HttpError::BrokenCertificate)
            } else {
                Ok(list)
            }
        },
        None => Err(HttpError::BrokenCertificate),
    }
}

/// The private key that a PEM text begins with.
pub fn read_private_key(raw_key: &[u8]) -> (r: Result<PrivateKey, HttpError>)
    ensures
        match r {
            Ok(key) => pem_first_item(raw_key@) == FirstItemView::Key(key.kind, key.der@),
            Err(e) => !has_private_key(raw_key@) && e == HttpError::BrokenPrivateKey,
        },
{
    match pem_first(raw_key) {
        FirstItem::Key(key) => Ok(key),
        _ => Err(HttpError::BrokenPrivateKey),
    }
}

/// The provider to build a configuration with: the one that the process
/// has installed, or else the one that is built on *ring*.
pub fn choose_provider(
    installed: Option<Arc<rustls::crypto::CryptoProvider>>,
    fallback: Arc<rustls::crypto::CryptoProvider>,
) -> (r: Arc<rustls::crypto::CryptoProvider>)
    ensures
        r == (match installed {
            Some(provider) => provider,
            None => fallback,
        }),
{
    match installed {
        Some(provider) => provider,
        None => fallback,
    }
}

/// What the builder's answer means: a configuration, a broken certificate
/// where the library blames the certificate, and a broken key otherwise.
pub fn config_outcome(built: Result<TlsConfig, BuildFailure>) -> (r: Result<TlsConfig, HttpError>)
    ensures
        r == (match built {
            Ok(config) => Ok::<TlsConfig, HttpError>(config),
            Err(BuildFailure::Certificate) => Err::<TlsConfig, HttpError>(
                HttpError::BrokenCertificate,
            ),
            Err(BuildFailure::Key) => Err::<TlsConfig, HttpError>(HttpError::BrokenPrivateKey),
        }),
{
    match built {
        Ok(config) => Ok(config),
        Err(BuildFailure::Certificate) => Err(HttpError::BrokenCertificate),
        Err(BuildFailure::Key) => Err(HttpError::BrokenPrivateKey),
    }
}

/// What the answer to a new session means: the session, or a failed
/// handshake.
pub fn session_outcome(made: Result<rustls::ServerConnection, rustls::Error>) -> (r: Result<
    rustls::ServerConnection,
    HttpError,
>)
    ensures
        match made {
            Ok(session) => r == Ok::<rustls::ServerConnection, HttpError>(session),
            Err(_) => r == Err::<rustls::ServerConnection, HttpError>(HttpError::HandshakeFailed),
        },
{
    match made {
        Ok(session) => Ok(session),
        Err(_) => Err(HttpError::HandshakeFailed),
    }
}

/// Generate config with TLS certificate and private key.
///
/// The certificate text must be well formed and hold a certificate, else the
/// certificate is broken. The key text must begin with a private key, else
/// the key is broken. Whether both are then accepted is decided by the TLS
/// library: where it refuses, the certificate is broken if the library blames
/// it, and the key otherwise. No refusal of the library ends the process.
pub fn certificate_config(raw_cert: &[u8], raw_key: &[u8]) -> (r: Result<TlsConfig, HttpError>)
    ensures
        !has_certificates(raw_cert@) ==> r == Err::<TlsConfig, HttpError>(
            HttpError::BrokenCertificate,
        ),
        has_certificates(raw_cert@) && !has_private_key(raw_key@) ==> r == Err::<
            TlsConfig,
            HttpError,
        >(HttpError::BrokenPrivateKey),
        has_certificates(raw_cert@) && has_private_key(raw_key@) ==> r is Ok || r == Err::<
            TlsConfig,
            HttpError,
        >(HttpError::BrokenPrivateKey) || r == Err::<TlsConfig, HttpError>(
            HttpError::BrokenCertificate,
        ),
{
    let certs = match read_certificates(raw_cert) {
        Ok(certs) => certs,
        Err(e) => {
            return Err(e);
        },
    };
    let key = match read_private_key(raw_key) {
        Ok(key) => key,
        Err(e) => {
            return Err(e);
        },
    };
    let provider = choose_provider(installed_provider(), ring_provider());
    let built = match build_config(provider, certs, key) {
        Ok(config) => Ok(config),
        Err(error) => Err(failure_of(error)),
    };
    config_outcome(built)
}

/// Sets up the TLS session of a connection; a failure is a failed handshake.
pub fn open_session(config: TlsConfig) -> (r: Result<rustls::ServerConnection, HttpError>)
    ensures
        r is Err ==> r == Err::<rustls::ServerConnection, HttpError>(HttpError::HandshakeFailed),
{
    session_outcome(new_session(config))
}

} // verus!
