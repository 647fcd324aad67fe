[package]
name = "kern"
version = "1.8.3"
edition = "2021"
publish = false

[dependencies]
rustls = { version = "0.23", default-features = false, features = ["std", "ring"] }
rustls-pemfile = "2"
rustls-pki-types = "1"
webpki-roots = "0.26"
