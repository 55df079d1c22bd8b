//! A minimal static-file HTTP/1.1 responder: the request-line grammar, the
//! response format, the per-connection decisions and the client's request,
//! each with a machine-checked contract.
//!
//! The library does no I/O. A server reads lines and hands them to
//! [`connection::RequestReader`], reads the file that it is told to serve,
//! and sends what [`response::generate_response`] builds from the outcome.

pub mod text;
pub mod request;
pub mod response;
pub mod connection;
pub mod client;

pub use client::get_request;
pub use connection::{LineRead, RequestReader, Step};
pub use request::parse_request;
pub use response::{generate_404_page, generate_response, get_content_type};
