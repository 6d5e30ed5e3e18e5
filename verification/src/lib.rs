//! A minimal HTTP/1.x request/response engine over raw byte buffers.
//!
//! The crate parses one framed request from a byte buffer into a structured
//! [`HttpRequest`], resolves content for it, builds an [`HttpResponse`] and
//! serializes the response to wire bytes, and decides the per-connection
//! keep-alive lifecycle.  All byte-level logic is verified; the transport
//! (sockets, file reads) is the caller's concern.

pub mod scan;
pub mod method;
pub mod header;
pub mod request;
pub mod response;
pub mod content;
pub mod session;
pub mod handler;

pub use method::RequestMethod;
pub use header::HttpHeader;
pub use request::{HttpRequest, HttpVersion, ParseError};
pub use response::{HttpResponse, PayloadType};
pub use content::{ContentError, ResolvedContent};
pub use handler::HttpHandler;
