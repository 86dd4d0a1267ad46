//! An HTTP origin server core that drives one application handler from
//! HTTP/1.1, HTTP/2 and HTTP/3 transports: the envelope adapters, the body
//! adapter of each transport, the decisions of the HTTP/3 connection loop and
//! of the supervisor over both endpoints, and the static-file responder's path
//! and response rules.

pub mod convert;
pub mod h12;
pub mod h3;
pub mod server;
pub mod service;

pub use server::{JoinError, Server};
pub use service::StaticFileService;
