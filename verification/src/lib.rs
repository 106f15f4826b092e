//! The request and response pipeline of a small command-line HTTP client:
//! argument validation, request construction, content-type resolution and
//! the rendering of the response as styled text.
//!
//! The network round trip itself is not part of the library. A caller
//! takes a [`request::RequestDescriptor`] to its transport and brings back
//! a [`response::ResponseEnvelope`].

pub mod dispatch;
pub mod error;
pub mod header;
pub mod highlight;
pub mod kv;
pub mod render;
pub mod request;
pub mod response;
pub mod segment;
pub mod terminal;
pub mod text;
pub mod url;
