//! A transparent HTTP/1.x reverse-proxy relay core.
//!
//! The crate parses a protocol head from a client byte stream, resolves a
//! destination host (optionally rewritten through a routing table), forwards
//! the request head and body to the destination, and relays the response head
//! and body back to the client.  All transport is reached through the
//! [`Connection`] and [`Connector`] traits, so the relay logic itself is
//! independent of any particular socket implementation.

pub mod body;
pub mod errors;
pub mod head;
pub mod headers;
pub mod options;
pub mod router;
pub mod scan;
pub mod stream;
pub mod text;

pub use errors::Error;
pub use errors::ErrorKind;
pub use headers::read_header;
pub use headers::write_header;
pub use headers::remove_header;
pub use head::read_protocol;
pub use head::HeadStatus;
pub use body::forward_body;
pub use body::forward_chunked_body;
pub use body::forward_sized_body;
pub use scan::vec_has_sequence;
pub use text::string_to_usize;
pub use text::str_contains;
pub use stream::Connection;
pub use stream::Connector;
pub use stream::ConnectError;
pub use stream::MemoryConnection;
pub use stream::MemoryConnector;
pub use options::RouterOptions;
pub use router::Router;
