//! General-purpose building blocks: byte and text utilities, a small
//! command-line and configuration parser, and an embeddable HTTP/1.1 engine.

pub mod byte;
pub mod cli;
pub mod conf;
pub mod data;
pub mod dict;
pub mod error;
pub mod http;
pub mod meta;
pub mod net;
pub mod seqs;
pub mod string;
pub mod text;

pub use crate::cli::{CliBuilder, Command};
pub use crate::conf::Config;
pub use crate::dict::Dict;
pub use crate::error::{Fail, ToText};
pub use crate::meta::{init_name, init_version};
