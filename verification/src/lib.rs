//! A small, verified core for a read-only file browser served over HTTP.
//!
//! The library contains the request-to-filesystem logic of the server: it
//! resolves a request path against the server's root directory (rejecting
//! traversal attempts), decides between a directory listing and a raw file
//! response, builds lexicographically sorted listings, and parses the port
//! argument.  All filesystem and network access is left to the caller, which
//! hands the library plain values and receives plain values back.

pub mod error;
pub mod lexord;
pub mod listing;
pub mod port;
pub mod serve;
pub mod resolve;

pub use error::ServeError;
pub use error::status_code;
pub use resolve::Directory;
pub use resolve::resolve;
pub use listing::DirectoryListing;
pub use listing::sort_entries;
pub use serve::FsNode;
pub use serve::Response;
pub use serve::generic_handler;
pub use port::parse_port;
pub use port::port_from_args;
pub use port::invalid_port_message;
