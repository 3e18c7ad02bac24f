//! A URL shortener's link lifecycle: the expiration policy of a link, the
//! validation and normalisation of new links, identifier allocation, and a
//! table of links with create, resolve and cleanup operations.
pub mod clock;
pub mod config;
pub mod ident;
pub mod laws;
pub mod link;
pub mod store;
pub mod text;

pub use config::{default_max_uses, default_valid_for, LinkConfig, Settings};
pub use link::Link;
pub use store::{LinkError, LinkStore};
pub use text::{ensure_http_prefix, replace_illegal_url_chars};
