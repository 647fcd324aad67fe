//! HTTP client.

pub mod client;
pub mod request;
pub mod response;
pub mod url;

pub use crate::http::client::client::HttpClient;
pub use crate::http::client::response::HttpResponse;
