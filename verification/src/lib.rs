//! Resolution and serving of static assets for an HTTP server.
//!
//! A request names a file either through a fixed binding or through the
//! path segments captured from its URL. The library turns the request into
//! a filesystem path that cannot leave the configured root, and turns the
//! outcome of reading that path into a response.

pub mod containment;
pub mod content_type;
pub mod handler;
pub mod path;
pub mod response;

pub use handler::{FileHandler, FilePathExtractor, FileSystemHandler};
pub use response::{Body, ReadError, Response};
