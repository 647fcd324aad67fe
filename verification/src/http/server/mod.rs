//! HTTP server engine.

pub mod builder;
pub mod conn;
pub mod dispatch;
pub mod error;
pub mod reader;
pub mod request;
pub mod response;
pub mod settings;
pub mod tls;
pub mod unsecure;

pub use crate::http::server::builder::{default_error_handler, HttpServerBuilder};
pub use crate::http::server::conn::{Action, Connection, Event};
pub use crate::http::server::error::HttpError;
pub use crate::http::server::reader::{
    BodyProgress, BodyReader, HeaderProgress, HeaderReader, ReadRequest,
};
pub use crate::http::server::request::{HttpMethod, HttpRequest};
pub use crate::http::server::response::{redirect, respond, ResponseData};
pub use crate::http::server::settings::{HttpSettings, HttpThreads};
pub use crate::http::server::tls::{certificate_config, open_session, TlsConfig};
